use vstd::prelude::*;

verus! {

/// Default extent of the grid along the first axis.
pub const STORE_LENGTH: usize = 4;

/// Default extent of the grid along the second axis.
pub const STORE_HEIGHT: usize = 4;

/// Default extent of the grid along the third axis.
pub const STORE_WIDTH: usize = 4;

/// The address of one slot.
#[derive(Clone, Copy, Debug, PartialEq, Eq, Structural)]
pub struct Coordinate {
    pub x: usize,
    pub y: usize,
    pub z: usize,
}

/// Ascending order on coordinates: by `x`, then `y`, then `z`.
pub open spec fn coord_lt(a: Coordinate, b: Coordinate) -> bool {
    a.x < b.x || (a.x == b.x && (a.y < b.y || (a.y == b.y && a.z < b.z)))
}

/// Whether `c` comes before the coordinate `(x, y, z)` in ascending order.
pub open spec fn precedes(c: Coordinate, x: int, y: int, z: int) -> bool {
    c.x < x || (c.x == x && (c.y < y || (c.y == y && c.z < z)))
}

/// The state of one slot.
#[derive(Debug)]
pub enum Slot {
    Empty,
    Occupied(String),
}

impl View for Slot {
    type V = Option<Seq<char>>;

    open spec fn view(&self) -> Option<Seq<char>> {
        match self {
            Slot::Empty => None,
            Slot::Occupied(label) => Some(label@),
        }
    }
}

/// Why a store could not be built.
#[derive(Clone, Copy, Debug, PartialEq, Eq, Structural)]
pub enum ConstructionError {
    ZeroDimension,
}

/// Why a placement was refused.
#[derive(Clone, Copy, Debug, PartialEq, Eq, Structural)]
pub enum PlaceError {
    OutOfBounds,
    SlotOccupied,
    InvalidLabel,
}

/// Why a removal was refused.
#[derive(Clone, Copy, Debug, PartialEq, Eq, Structural)]
pub enum RemoveError {
    OutOfBounds,
    SlotEmpty,
}

/// The characters that `char::is_whitespace` accepts (Unicode `White_Space`).
pub open spec fn is_white_space(c: char) -> bool {
    let u = c as u32;
    (0x09 <= u && u <= 0x0D) || u == 0x20 || u == 0x85 || u == 0xA0 || u == 0x1680
        || (0x2000 <= u && u <= 0x200A) || u == 0x2028 || u == 0x2029 || u == 0x202F
        || u == 0x205F || u == 0x3000
}

/// A label is blank when it is empty or made of white space only.
pub open spec fn is_blank(label: Seq<char>) -> bool {
    forall|i: int| 0 <= i < label.len() ==> is_white_space(#[trigger] label[i])
}

/// How many entries of `s` are occupied.
pub open spec fn occupied_in(s: Seq<Option<Seq<char>>>) -> nat
    decreases s.len(),
{
    if s.len() == 0 {
        0
    } else {
        occupied_in(s.drop_last()) + if s.last() is Some {
            1nat
        } else {
            0nat
        }
    }
}

/// The abstract state of a store: its extents and its slots laid out flat,
/// `x` outermost and `z` innermost.
pub struct StoreView {
    pub length: nat,
    pub height: nat,
    pub width: nat,
    pub slots: Seq<Option<Seq<char>>>,
}

impl StoreView {
    /// A store of the given extents with every slot empty.
    pub open spec fn empty(length: nat, height: nat, width: nat) -> StoreView {
        StoreView {
            length,
            height,
            width,
            slots: Seq::new(length * height * width, |i: int| None),
        }
    }

    pub open spec fn wf(self) -> bool {
        &&& self.length >= 1
        &&& self.height >= 1
        &&& self.width >= 1
        &&& self.slots.len() == self.length * self.height * self.width
    }

    pub open spec fn in_bounds(self, c: Coordinate) -> bool {
        c.x < self.length && c.y < self.height && c.z < self.width
    }

    /// Where the slot of `c` lies in `slots`.
    pub open spec fn index(self, c: Coordinate) -> int {
        (c.x * self.height + c.y) * self.width + c.z
    }

    /// The label held at `c`, or `None` when the slot is empty.
    pub open spec fn label_at(self, c: Coordinate) -> Option<Seq<char>> {
        self.slots[self.index(c)]
    }

    pub open spec fn is_free(self, c: Coordinate) -> bool {
        self.in_bounds(c) && self.label_at(c) is None
    }

    /// The number of occupied slots.
    pub open spec fn occupancy(self) -> nat {
        occupied_in(self.slots)
    }

    /// What placing `label` at `c` reports.
    pub open spec fn place_outcome(self, c: Coordinate, label: Seq<char>) -> Result<(), PlaceError> {
        if !self.in_bounds(c) {
            Err(PlaceError::OutOfBounds)
        } else if self.label_at(c) is Some {
            Err(PlaceError::SlotOccupied)
        } else if is_blank(label) {
            Err(PlaceError::InvalidLabel)
        } else {
            Ok(())
        }
    }

    /// The state after placing `label` at `c`; unchanged when the placement fails.
    pub open spec fn after_place(self, c: Coordinate, label: Seq<char>) -> StoreView {
        if self.place_outcome(c, label) is Ok {
            StoreView { slots: self.slots.update(self.index(c), Some(label)), ..self }
        } else {
            self
        }
    }

    /// What removing the item at `c` reports: its label, or why nothing was removed.
    pub open spec fn remove_outcome(self, c: Coordinate) -> Result<Seq<char>, RemoveError> {
        if !self.in_bounds(c) {
            Err(RemoveError::OutOfBounds)
        } else {
            match self.label_at(c) {
                Some(label) => Ok(label),
                None => Err(RemoveError::SlotEmpty),
            }
        }
    }

    /// The state after removing the item at `c`; unchanged when the removal fails.
    pub open spec fn after_remove(self, c: Coordinate) -> StoreView {
        if self.remove_outcome(c) is Ok {
            StoreView { slots: self.slots.update(self.index(c), None), ..self }
        } else {
            self
        }
    }
}

/// Changing one entry changes the count by what leaves and what comes in.
pub proof fn lemma_occupied_update(s: Seq<Option<Seq<char>>>, i: int, v: Option<Seq<char>>)
    requires
        0 <= i < s.len(),
    ensures
        occupied_in(s.update(i, v)) + (if s[i] is Some { 1int } else { 0int }) == occupied_in(s)
            + (if v is Some { 1int } else { 0int }),
    decreases s.len(),
{
    let t = s.update(i, v);
    if i == s.len() - 1 {
        assert(t.drop_last() =~= s.drop_last());
    } else {
        assert(t.drop_last() =~= s.drop_last().update(i, v));
        lemma_occupied_update(s.drop_last(), i, v);
    }
}

/// No more entries are occupied than there are entries.
pub proof fn lemma_occupied_bound(s: Seq<Option<Seq<char>>>)
    ensures
        occupied_in(s) <= s.len(),
    decreases s.len(),
{
    if s.len() > 0 {
        lemma_occupied_bound(s.drop_last());
    }
}

/// A sequence with no occupied entry counts zero.
pub proof fn lemma_occupied_none(s: Seq<Option<Seq<char>>>)
    requires
        forall|i: int| 0 <= i < s.len() ==> s[i] is None,
    ensures
        occupied_in(s) == 0,
    decreases s.len(),
{
    if s.len() > 0 {
        lemma_occupied_none(s.drop_last());
    }
}

/// Every in-bounds coordinate lands inside the flat layout.
pub proof fn lemma_index_in_range(v: StoreView, c: Coordinate)
    requires
        v.wf(),
        v.in_bounds(c),
    ensures
        0 <= c.x * v.height <= c.x * v.height + c.y <= v.index(c) < v.slots.len(),
{
    let (l, h, w) = (v.length as int, v.height as int, v.width as int);
    let (x, y, z) = (c.x as int, c.y as int, c.z as int);
    assert(0 <= x * h <= x * h + y <= (x * h + y) * w + z < l * h * w) by (nonlinear_arith)
        requires
            0 <= x < l,
            0 <= y < h,
            0 <= z < w,
    ;
}

/// Tells whether `c` is white space, as `char::is_whitespace` does.
pub fn is_white_space_char(c: char) -> (r: bool)
    ensures
        r == is_white_space(c),
{
    let u = c as u32;
    (0x09 <= u && u <= 0x0D) || u == 0x20 || u == 0x85 || u == 0xA0 || u == 0x1680 || (0x2000
        <= u && u <= 0x200A) || u == 0x2028 || u == 0x2029 || u == 0x202F || u == 0x205F || u
        == 0x3000
}

/// Tells whether a label is empty or holds white space only.
pub fn is_blank_label(label: &str) -> (r: bool)
    ensures
        r == is_blank(label@),
{
    let n = label.unicode_len();
    let mut i: usize = 0;
    while i < n
        invariant
            n == label@.len(),
            i <= n,
            forall|k: int| 0 <= k < i ==> is_white_space(#[trigger] label@[k]),
        decreases n - i,
    {
        if !is_white_space_char(label.get_char(i)) {
            return false;
        }
        i = i + 1;
    }
    true
}

/// A grid of slots, sized once when it is built.
pub struct Warehouse {
    length: usize,
    height: usize,
    width: usize,
    slots: Vec<Slot>,
    occupied: usize,
}

impl View for Warehouse {
    type V = StoreView;

    closed spec fn view(&self) -> StoreView {
        StoreView {
            length: self.length as nat,
            height: self.height as nat,
            width: self.width as nat,
            slots: self.slots@.map_values(|s: Slot| s@),
        }
    }
}

impl Warehouse {
    /// The store's internal consistency: its layout matches its extents and
    /// the kept count matches its slots.
    pub closed spec fn wf(&self) -> bool {
        &&& self@.wf()
        &&& self.length * self.height * self.width <= usize::MAX
        &&& self.occupied == self@.occupancy()
    }

    /// Builds a store of `length` by `height` by `width` empty slots.
    pub fn new(length: usize, height: usize, width: usize) -> (r: Result<Warehouse, ConstructionError>)
        requires
            length * height * width <= usize::MAX,
        ensures
            r is Err <==> (length == 0 || height == 0 || width == 0),
            r matches Err(e) ==> e == ConstructionError::ZeroDimension,
            r matches Ok(w) ==> w.wf() && w@ == StoreView::empty(
                length as nat,
                height as nat,
                width as nat,
            ) && w@.occupancy() == 0,
    {
        if length == 0 || height == 0 || width == 0 {
            return Err(ConstructionError::ZeroDimension);
        }
        assert(length * height <= length * height * width) by (nonlinear_arith)
            requires
                width >= 1,
        ;
        let n = length * height * width;
        let mut slots: Vec<Slot> = Vec::new();
        let mut i: usize = 0;
        while i < n
            invariant
                i <= n,
                slots@.len() == i,
                forall|k: int| 0 <= k < i ==> slots@[k] is Empty,
            decreases n - i,
        {
            slots.push(Slot::Empty);
            i = i + 1;
        }
        let w = Warehouse { length, height, width, slots, occupied: 0 };
        proof {
            let target = StoreView::empty(length as nat, height as nat, width as nat);
            assert(w@.slots =~= target.slots);
            lemma_occupied_none(w@.slots);
        }
        Ok(w)
    }

    /// Where the slot of an in-bounds coordinate lies.
    fn index_of(&self, c: Coordinate) -> (r: usize)
        requires
            self.wf(),
            self@.in_bounds(c),
        ensures
            r as int == self@.index(c),
            r < self.slots@.len(),
    {
        proof {
            lemma_index_in_range(self@, c);
        }
        (c.x * self.height + c.y) * self.width + c.z
    }

    /// Puts an item labelled `label` into the empty slot at `c`.
    pub fn place(&mut self, c: Coordinate, label: String) -> (r: Result<(), PlaceError>)
        requires
            old(self).wf(),
        ensures
            final(self).wf(),
            r == old(self)@.place_outcome(c, label@),
            final(self)@ == old(self)@.after_place(c, label@),
            r is Ok ==> final(self)@.occupancy() == old(self)@.occupancy() + 1,
            r is Err ==> final(self)@ == old(self)@,
    {
        if !(c.x < self.length && c.y < self.height && c.z < self.width) {
            return Err(PlaceError::OutOfBounds);
        }
        let i = self.index_of(c);
        if let Slot::Occupied(_) = &self.slots[i] {
            return Err(PlaceError::SlotOccupied);
        }
        if is_blank_label(label.as_str()) {
            return Err(PlaceError::InvalidLabel);
        }
        proof {
            let s = self@.slots;
            lemma_occupied_update(s, i as int, Some(label@));
            lemma_occupied_bound(s.update(i as int, Some(label@)));
        }
        let ghost label_view = label@;
        self.slots.set(i, Slot::Occupied(label));
        self.occupied = self.occupied + 1;
        proof {
            assert(self@.slots =~= old(self)@.slots.update(i as int, Some(label_view)));
        }
        Ok(())
    }

    /// Takes the item out of the slot at `c` and hands back its label.
    pub fn remove(&mut self, c: Coordinate) -> (r: Result<String, RemoveError>)
        requires
            old(self).wf(),
        ensures
            final(self).wf(),
            r matches Ok(label) ==> old(self)@.remove_outcome(c) == Ok::<Seq<char>, RemoveError>(
                label@,
            ),
            r matches Err(e) ==> old(self)@.remove_outcome(c) == Err::<Seq<char>, RemoveError>(e),
            final(self)@ == old(self)@.after_remove(c),
            r is Ok ==> final(self)@.occupancy() + 1 == old(self)@.occupancy(),
            r is Err ==> final(self)@ == old(self)@,
    {
        if !(c.x < self.length && c.y < self.height && c.z < self.width) {
            return Err(RemoveError::OutOfBounds);
        }
        let i = self.index_of(c);
        let mut taken = Slot::Empty;
        self.slots.set_and_swap(i, &mut taken);
        match taken {
            Slot::Occupied(label) => {
                proof {
                    lemma_occupied_update(old(self)@.slots, i as int, None);
                    assert(self@.slots =~= old(self)@.slots.update(i as int, None));
                }
                self.occupied = self.occupied - 1;
                Ok(label)
            },
            Slot::Empty => {
                proof {
                    assert(self@.slots =~= old(self)@.slots);
                }
                Err(RemoveError::SlotEmpty)
            },
        }
    }

    /// Every free coordinate of the store, ascending by `x`, then `y`, then `z`.
    pub fn get_free_positions(&self) -> (r: Vec<Coordinate>)
        requires
            self.wf(),
        ensures
            forall|i: int| 0 <= i < r@.len() ==> self@.is_free(#[trigger] r@[i]),
            forall|c: Coordinate| self@.is_free(c) ==> r@.contains(c),
            forall|i: int, j: int| 0 <= i < j < r@.len() ==> coord_lt(r@[i], r@[j]),
    {
        let mut free: Vec<Coordinate> = Vec::new();
        let mut x: usize = 0;
        while x < self.length
            invariant
                self.wf(),
                x <= self.length,
                forall|i: int| 0 <= i < free@.len() ==> self@.is_free(#[trigger] free@[i]),
                forall|i: int| 0 <= i < free@.len() ==> (#[trigger] free@[i]).x < x,
                forall|c: Coordinate| #[trigger] self@.is_free(c) && c.x < x ==> free@.contains(c),
                forall|i: int, j: int| 0 <= i < j < free@.len() ==> coord_lt(free@[i], free@[j]),
            decreases self.length - x,
        {
            let mut y: usize = 0;
            while y < self.height
                invariant
                    self.wf(),
                    x < self.length,
                    y <= self.height,
                    forall|i: int| 0 <= i < free@.len() ==> self@.is_free(#[trigger] free@[i]),
                    forall|i: int|
                        0 <= i < free@.len() ==> precedes(#[trigger] free@[i], x as int, y as int, 0),
                    forall|c: Coordinate| #[trigger] self@.is_free(c) && precedes(c, x as int, y as int, 0)
                        ==> free@.contains(c),
                    forall|i: int, j: int| 0 <= i < j < free@.len() ==> coord_lt(free@[i], free@[j]),
                decreases self.height - y,
            {
                let mut z: usize = 0;
                while z < self.width
                    invariant
                        self.wf(),
                        x < self.length,
                        y < self.height,
                        z <= self.width,
                        forall|i: int| 0 <= i < free@.len() ==> self@.is_free(#[trigger] free@[i]),
                        forall|i: int|
                            0 <= i < free@.len() ==> precedes(
                                #[trigger] free@[i],
                                x as int,
                                y as int,
                                z as int,
                            ),
                        forall|c: Coordinate| #[trigger] self@.is_free(c) && precedes(
                            c,
                            x as int,
                            y as int,
                            z as int,
                        ) ==> free@.contains(c),
                        forall|i: int, j: int|
                            0 <= i < j < free@.len() ==> coord_lt(free@[i], free@[j]),
                    decreases self.width - z,
                {
                    let c = Coordinate { x, y, z };
                    let i = self.index_of(c);
                    if let Slot::Empty = &self.slots[i] {
                        let ghost before = free@;
                        free.push(c);
                        proof {
                            assert(free@[before.len() as int] == c);
                            assert forall|d: Coordinate|
                                #[trigger] self@.is_free(d) && precedes(
                                    d,
                                    x as int,
                                    y as int,
                                    z + 1,
                                ) implies free@.contains(d) by {
                                if d == c {
                                    assert(free@[before.len() as int] == d);
                                } else {
                                    let k = choose|k: int| 0 <= k < before.len() && before[k] == d;
                                    assert(free@[k] == d);
                                }
                            }
                        }
                    } else {
                        proof {
                            assert(!self@.is_free(c));
                        }
                    }
                    z = z + 1;
                }
                y = y + 1;
            }
            x = x + 1;
        }
        free
    }

    /// The number of occupied slots.
    pub fn occupancy_count(&self) -> (r: usize)
        requires
            self.wf(),
        ensures
            r == self@.occupancy(),
    {
        self.occupied
    }

    /// The slot at `c`, or `None` when `c` lies outside the grid.
    pub fn slot(&self, c: Coordinate) -> (r: Option<&Slot>)
        requires
            self.wf(),
        ensures
            r is Some <==> self@.in_bounds(c),
            r matches Some(s) ==> s@ == self@.label_at(c),
    {
        if !(c.x < self.length && c.y < self.height && c.z < self.width) {
            return None;
        }
        let i = self.index_of(c);
        Some(&self.slots[i])
    }
}

} // verus!
