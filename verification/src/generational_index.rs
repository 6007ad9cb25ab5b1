//! Generational indices: slot numbers tagged with the generation of the slot
//! they were handed out for, so that a handle to a freed slot can never be
//! mistaken for a handle to whatever occupies the slot later.
use vstd::prelude::*;

verus! {

/// A handle to a slot of a [`GenerationalIndexAllocator`], valid only while
/// the slot still carries the same generation.
#[derive(PartialEq, Eq, Structural, Clone, Copy, Debug)]
pub struct GenerationalIndex {
    index: usize,
    generation: u64,
}

impl GenerationalIndex {
    /// The slot this handle refers to.
    pub closed spec fn slot(self) -> usize {
        self.index
    }

    /// The generation of the slot this handle was handed out for.
    pub closed spec fn generation(self) -> u64 {
        self.generation
    }

    /// The slot number of the handle.
    pub fn index(&self) -> (r: usize)
        ensures
            r == self.slot(),
    {
        self.index
    }
}

struct AllocatorEntry {
    is_live: bool,
    generation: u64,
}

/// Hands out generational indices, reusing freed slots last-freed-first.
pub struct GenerationalIndexAllocator {
    entries: Vec<AllocatorEntry>,
    free: Vec<usize>,
}

/// The state of one slot: whether it is handed out, and its generation.
pub open spec fn slot_state(live: bool, generation: u64) -> (bool, u64) {
    (live, generation)
}

/// What `allocate` does to the slots and the free list, and what it returns.
pub open spec fn allocate_step(
    slots: Seq<(bool, u64)>,
    free: Seq<usize>,
    new_slots: Seq<(bool, u64)>,
    new_free: Seq<usize>,
    r: GenerationalIndex,
) -> bool {
    if free.len() == 0 {
        &&& r.slot() == slots.len()
        &&& r.generation() == 0
        &&& new_slots == slots.push(slot_state(true, 0))
        &&& new_free == free
    } else {
        let i = free.last() as int;
        &&& r.slot() == free.last()
        &&& r.generation() == slots[i].1
        &&& new_slots == slots.update(i, slot_state(true, slots[i].1))
        &&& new_free == free.drop_last()
    }
}

/// Whether `index` names a handed-out slot in its current generation.
pub open spec fn live_in(slots: Seq<(bool, u64)>, index: GenerationalIndex) -> bool {
    &&& index.slot() < slots.len()
    &&& slots[index.slot() as int].0
    &&& slots[index.slot() as int].1 == index.generation()
}

/// What `deallocate` does to the slots and the free list, and what it returns.
pub open spec fn deallocate_step(
    slots: Seq<(bool, u64)>,
    free: Seq<usize>,
    new_slots: Seq<(bool, u64)>,
    new_free: Seq<usize>,
    index: GenerationalIndex,
    r: bool,
) -> bool {
    if live_in(slots, index) {
        let i = index.slot() as int;
        &&& r
        &&& new_slots == slots.update(i, slot_state(false, (slots[i].1 + 1) as u64))
        &&& new_free == free.push(index.slot())
    } else {
        &&& !r
        &&& new_slots == slots
        &&& new_free == free
    }
}

impl GenerationalIndexAllocator {
    /// Each slot, as (handed out, generation).
    pub closed spec fn slots(&self) -> Seq<(bool, u64)> {
        self.entries@.map_values(|e: AllocatorEntry| slot_state(e.is_live, e.generation))
    }

    /// The slots waiting to be reused; the last one is reused first.
    pub closed spec fn free_slots(&self) -> Seq<usize> {
        self.free@
    }

    /// The free list holds exactly the slots that are not handed out, each once.
    pub open spec fn wf(&self) -> bool {
        free_list_ok(self.slots(), self.free_slots())
    }

    /// An allocator with no slots.
    pub fn new() -> (r: Self)
        ensures
            r.wf(),
            r.slots() == Seq::<(bool, u64)>::empty(),
            r.free_slots() == Seq::<usize>::empty(),
    {
        let r = GenerationalIndexAllocator { entries: Vec::new(), free: Vec::new() };
        assert(r.slots() =~= Seq::<(bool, u64)>::empty());
        r
    }

    /// Hands out a slot: the most recently freed one in its current
    /// generation, or a new slot of generation 0 when none is free.
    pub fn allocate(&mut self) -> (r: GenerationalIndex)
        requires
            old(self).wf(),
        ensures
            final(self).wf(),
            allocate_step(
                old(self).slots(),
                old(self).free_slots(),
                final(self).slots(),
                final(self).free_slots(),
                r,
            ),
    {
        let ghost old_slots = self.slots();
        let ghost old_free = self.free@;
        if self.free.is_empty() {
            self.entries.push(AllocatorEntry { is_live: true, generation: 0 });
            let index = self.entries.len() - 1;
            proof {
                assert(self.slots() =~= old_slots.push(slot_state(true, 0)));
                lemma_push_live_keeps_free_list(old_slots, old_free);
            }
            GenerationalIndex { index, generation: 0 }
        } else {
            let index = self.free.pop().unwrap();
            assert(old_free.last() == index);
            assert(!self.entries[index as int].is_live) by {
                assert(old_slots[index as int].0 == self.entries@[index as int].is_live);
            }
            self.entries[index].is_live = true;
            let generation = self.entries[index].generation;
            proof {
                assert(self.slots() =~= old_slots.update(
                    index as int,
                    slot_state(true, old_slots[index as int].1),
                ));
                lemma_take_free_keeps_free_list(old_slots, old_free);
            }
            GenerationalIndex { index, generation }
        }
    }

    /// Frees the slot of `index` if `index` is live, moving the slot to the
    /// next generation; returns whether it did.
    pub fn deallocate(&mut self, index: GenerationalIndex) -> (r: bool)
        requires
            old(self).wf(),
            index.slot() < old(self).slots().len(),
            live_in(old(self).slots(), index) ==> index.generation() < u64::MAX,
        ensures
            final(self).wf(),
            deallocate_step(
                old(self).slots(),
                old(self).free_slots(),
                final(self).slots(),
                final(self).free_slots(),
                index,
                r,
            ),
    {
        let ghost old_slots = self.slots();
        let ghost old_free = self.free@;
        let i = index.index;
        assert(old_slots[i as int] == slot_state(
            self.entries@[i as int].is_live,
            self.entries@[i as int].generation,
        ));
        if self.entries[i].is_live && self.entries[i].generation == index.generation {
            self.entries[i].is_live = false;
            self.entries[i].generation += 1;
            self.free.push(i);
            proof {
                assert(self.slots() =~= old_slots.update(
                    i as int,
                    slot_state(false, (old_slots[i as int].1 + 1) as u64),
                ));
                lemma_free_slot_keeps_free_list(old_slots, old_free, i);
            }
            true
        } else {
            false
        }
    }

    /// Whether `index` names a handed-out slot in its current generation.
    pub fn is_live(&self, index: GenerationalIndex) -> (r: bool)
        requires
            index.slot() < self.slots().len(),
        ensures
            r == live_in(self.slots(), index),
    {
        let i = index.index;
        assert(self.slots()[i as int] == slot_state(
            self.entries@[i as int].is_live,
            self.entries@[i as int].generation,
        ));
        self.entries[i].is_live && self.entries[i].generation == index.generation
    }
}


struct ArrayEntry<T> {
    value: T,
    generation: u64,
}

/// An associative array from generational indices to values of type `T`,
/// one cell per slot; a cell remembers the generation it was written for.
pub struct GenerationalIndexArray<T>(Vec<Option<ArrayEntry<T>>>);

/// What the cell of `index` yields for `index`: its value when it was
/// written for the generation of `index`, nothing otherwise.
pub open spec fn lookup<T>(cells: Seq<Option<(T, u64)>>, index: GenerationalIndex) -> Option<T> {
    match cells[index.slot() as int] {
        Some(cell) => if cell.1 == index.generation() {
            Some(cell.0)
        } else {
            None
        },
        None => None,
    }
}

impl<T> GenerationalIndexArray<T> {
    /// Each cell, as the value it holds and the generation it was written for.
    pub closed spec fn cells(&self) -> Seq<Option<(T, u64)>> {
        self.0@.map_values(
            |c: Option<ArrayEntry<T>>|
                match c {
                    Some(e) => Some((e.value, e.generation)),
                    None => None,
                },
        )
    }

    /// An array of `len` empty cells.
    pub fn new(len: usize) -> (r: Self)
        ensures
            r.cells() == Seq::new(len as nat, |i: int| None::<(T, u64)>),
    {
        let mut v: Vec<Option<ArrayEntry<T>>> = Vec::new();
        let mut k: usize = 0;
        while k < len
            invariant
                k <= len,
                v@.len() == k,
                forall|j: int| 0 <= j < k ==> v@[j] is None,
            decreases len - k,
        {
            v.push(None);
            k += 1;
        }
        let r = GenerationalIndexArray(v);
        assert(r.cells() =~= Seq::new(len as nat, |i: int| None::<(T, u64)>));
        r
    }

    /// Writes `value` into the cell of `index`, for the generation of
    /// `index`; whatever the cell held before, of any generation, is gone.
    pub fn set(&mut self, index: GenerationalIndex, value: T)
        requires
            index.slot() < old(self).cells().len(),
        ensures
            final(self).cells() == old(self).cells().update(
                index.slot() as int,
                Some((value, index.generation())),
            ),
    {
        let ghost old_cells = self.cells();
        let i = index.index;
        self.0.set(i, Some(ArrayEntry { value, generation: index.generation }));
        assert(self.cells() =~= old_cells.update(i as int, Some((value, index.generation))));
    }

    /// The value for `index`, present only when the cell was written for the
    /// generation of `index`.
    pub fn get(&self, index: GenerationalIndex) -> (r: Option<&T>)
        requires
            index.slot() < self.cells().len(),
        ensures
            r matches Some(v) ==> lookup(self.cells(), index) == Some(*v),
            r is None ==> lookup(self.cells(), index) is None,
    {
        let i = index.index;
        match &self.0[i] {
            Some(entry) => {
                if entry.generation == index.generation {
                    Some(&entry.value)
                } else {
                    None
                }
            },
            None => None,
        }
    }

    /// Mutable access to the value for `index`, present only when the cell
    /// was written for the generation of `index`; a write through it changes
    /// that value and nothing else.
    pub fn get_mut(&mut self, index: GenerationalIndex) -> (r: Option<&mut T>)
        requires
            index.slot() < old(self).cells().len(),
        ensures
            r matches Some(v) ==> {
                &&& lookup(old(self).cells(), index) == Some(*v)
                &&& final(self).cells() == old(self).cells().update(
                    index.slot() as int,
                    Some((*final(v), index.generation())),
                )
            },
            r is None ==> {
                &&& lookup(old(self).cells(), index) is None
                &&& final(self).cells() == old(self).cells()
            },
    {
        let i = index.index;
        match &mut self.0[i] {
            Some(entry) => {
                if entry.generation == index.generation {
                    Some(&mut entry.value)
                } else {
                    None
                }
            },
            None => None,
        }
    }
}

/// Whether `index` is a handle to its slot from a generation that has passed.
pub open spec fn stale_in(slots: Seq<(bool, u64)>, index: GenerationalIndex) -> bool {
    index.slot() < slots.len() && index.generation() < slots[index.slot() as int].1
}

/// Allocation hands out a slot that was not handed out before, and the
/// handle it returns is live afterwards.
pub proof fn law_allocate_yields_fresh_live_index(
    slots: Seq<(bool, u64)>,
    free: Seq<usize>,
    new_slots: Seq<(bool, u64)>,
    new_free: Seq<usize>,
    r: GenerationalIndex,
)
    requires
        free_list_ok(slots, free),
        allocate_step(slots, free, new_slots, new_free, r),
    ensures
        r.slot() < slots.len() ==> !slots[r.slot() as int].0,
        live_in(new_slots, r),
        free_list_ok(new_slots, new_free),
{
    if free.len() == 0 {
        lemma_push_live_keeps_free_list(slots, free);
    } else {
        assert(free[free.len() - 1] == free.last());
        lemma_take_free_keeps_free_list(slots, free);
    }
}

/// Freeing a live handle succeeds, and the handle is dead afterwards: its
/// slot has moved on to the next generation.
pub proof fn law_deallocate_retires_index(
    slots: Seq<(bool, u64)>,
    free: Seq<usize>,
    new_slots: Seq<(bool, u64)>,
    new_free: Seq<usize>,
    index: GenerationalIndex,
    r: bool,
)
    requires
        deallocate_step(slots, free, new_slots, new_free, index, r),
        live_in(slots, index),
        index.generation() < u64::MAX,
    ensures
        r,
        !live_in(new_slots, index),
        stale_in(new_slots, index),
{
}

/// Neither allocation nor freeing ever lowers the generation of a slot or
/// removes a slot.
pub proof fn law_generations_never_decrease(
    slots: Seq<(bool, u64)>,
    free: Seq<usize>,
    new_slots: Seq<(bool, u64)>,
    new_free: Seq<usize>,
    index: GenerationalIndex,
    allocated: GenerationalIndex,
    freed: bool,
)
    requires
        allocate_step(slots, free, new_slots, new_free, allocated) || deallocate_step(
            slots,
            free,
            new_slots,
            new_free,
            index,
            freed,
        ),
        free_list_ok(slots, free),
        live_in(slots, index) ==> index.generation() < u64::MAX,
    ensures
        slots.len() <= new_slots.len(),
        forall|i: int| 0 <= i < slots.len() ==> slots[i].1 <= #[trigger] new_slots[i].1,
{
    if free.len() > 0 {
        assert(free[free.len() - 1] == free.last());
    }
    assert forall|i: int| 0 <= i < slots.len() implies slots[i].1 <= #[trigger] new_slots[i].1 by {
        if allocate_step(slots, free, new_slots, new_free, allocated) {
            if free.len() == 0 {
                assert(new_slots[i] == slots[i]);
            }
        }
    }
}

/// A handle whose generation has passed is dead, and stays so whatever is
/// allocated or freed afterwards.
pub proof fn law_stale_index_stays_dead(
    slots: Seq<(bool, u64)>,
    free: Seq<usize>,
    new_slots: Seq<(bool, u64)>,
    new_free: Seq<usize>,
    stale: GenerationalIndex,
    index: GenerationalIndex,
    allocated: GenerationalIndex,
    freed: bool,
)
    requires
        stale_in(slots, stale),
        free_list_ok(slots, free),
        allocate_step(slots, free, new_slots, new_free, allocated) || deallocate_step(
            slots,
            free,
            new_slots,
            new_free,
            index,
            freed,
        ),
        live_in(slots, index) ==> index.generation() < u64::MAX,
    ensures
        !live_in(slots, stale),
        stale_in(new_slots, stale),
        !live_in(new_slots, stale),
{
    law_generations_never_decrease(slots, free, new_slots, new_free, index, allocated, freed);
    assert(slots[stale.slot() as int].1 <= new_slots[stale.slot() as int].1);
}

/// Reading a cell right after writing it for a handle gives back the value
/// written; a handle of any other generation finds nothing there, and the
/// other cells read as before.
pub proof fn law_get_after_set<T>(
    cells: Seq<Option<(T, u64)>>,
    index: GenerationalIndex,
    value: T,
    other: GenerationalIndex,
)
    requires
        index.slot() < cells.len(),
        other.slot() < cells.len(),
    ensures
        lookup(cells.update(index.slot() as int, Some((value, index.generation()))), index) == Some(
            value,
        ),
        other.slot() == index.slot() && other.generation() != index.generation() ==> lookup(
            cells.update(index.slot() as int, Some((value, index.generation()))),
            other,
        ) is None,
        other.slot() != index.slot() ==> lookup(
            cells.update(index.slot() as int, Some((value, index.generation()))),
            other,
        ) == lookup(cells, other),
{
}

/// A handle that is live stays live over any allocation, and over any
/// freeing of a different handle: only freeing it ends its life.
pub proof fn law_live_index_stays_live(
    slots: Seq<(bool, u64)>,
    free: Seq<usize>,
    new_slots: Seq<(bool, u64)>,
    new_free: Seq<usize>,
    live: GenerationalIndex,
    index: GenerationalIndex,
    allocated: GenerationalIndex,
    freed: bool,
)
    requires
        free_list_ok(slots, free),
        live_in(slots, live),
        allocate_step(slots, free, new_slots, new_free, allocated) || (deallocate_step(
            slots,
            free,
            new_slots,
            new_free,
            index,
            freed,
        ) && index != live),
        live_in(slots, index) ==> index.generation() < u64::MAX,
    ensures
        live_in(new_slots, live),
{
    if allocate_step(slots, free, new_slots, new_free, allocated) {
        if free.len() > 0 {
            assert(free[free.len() - 1] == free.last());
            assert(free.last() != live.slot());
        }
    } else {
        if live_in(slots, index) && index.slot() == live.slot() {
            assert(index.generation() == live.generation());
            assert(index == live);
        }
    }
}

/// The cells after writing each `(handle, value)` of `writes` in turn.
pub open spec fn set_all<T>(cells: Seq<Option<(T, u64)>>, writes: Seq<(GenerationalIndex, T)>) -> Seq<
    Option<(T, u64)>,
>
    decreases writes.len(),
{
    if writes.len() == 0 {
        cells
    } else {
        let w = writes.last();
        set_all(cells, writes.drop_last()).update(w.0.slot() as int, Some((w.1, w.0.generation())))
    }
}

proof fn lemma_set_all_elsewhere<T>(cells: Seq<Option<(T, u64)>>, writes: Seq<(GenerationalIndex, T)>, slot: int)
    requires
        0 <= slot < cells.len(),
        forall|k: int| 0 <= k < writes.len() ==> #[trigger] writes[k].0.slot() < cells.len(),
        forall|k: int| 0 <= k < writes.len() ==> #[trigger] writes[k].0.slot() != slot,
    ensures
        set_all(cells, writes).len() == cells.len(),
        set_all(cells, writes)[slot] == cells[slot],
    decreases writes.len(),
{
    if writes.len() > 0 {
        let front = writes.drop_last();
        assert forall|k: int| 0 <= k < front.len() implies #[trigger] front[k].0.slot() < cells.len()
            && front[k].0.slot() != slot by {
            assert(front[k] == writes[k]);
        }
        lemma_set_all_elsewhere(cells, front, slot);
        assert(writes.last() == writes[writes.len() - 1]);
    }
}

/// A value written for a handle is read back by that handle, and by no
/// handle of another generation, however many writes to other cells follow.
pub proof fn law_get_after_set_and_other_writes<T>(
    cells: Seq<Option<(T, u64)>>,
    index: GenerationalIndex,
    value: T,
    writes: Seq<(GenerationalIndex, T)>,
    other: GenerationalIndex,
)
    requires
        index.slot() < cells.len(),
        forall|k: int| 0 <= k < writes.len() ==> #[trigger] writes[k].0.slot() < cells.len(),
        forall|k: int| 0 <= k < writes.len() ==> #[trigger] writes[k].0.slot() != index.slot(),
    ensures
        lookup(
            set_all(cells.update(index.slot() as int, Some((value, index.generation()))), writes),
            index,
        ) == Some(value),
        other.slot() == index.slot() && other.generation() != index.generation() ==> lookup(
            set_all(cells.update(index.slot() as int, Some((value, index.generation()))), writes),
            other,
        ) is None,
{
    let written = cells.update(index.slot() as int, Some((value, index.generation())));
    lemma_set_all_elsewhere(written, writes, index.slot() as int);
}

/// The free list holds exactly the slots that are not handed out, each once.
pub open spec fn free_list_ok(slots: Seq<(bool, u64)>, free: Seq<usize>) -> bool {
    &&& forall|k: int| 0 <= k < free.len() ==> #[trigger] free[k] < slots.len()
    &&& forall|k: int| 0 <= k < free.len() ==> !slots[#[trigger] free[k] as int].0
    &&& forall|k: int, l: int| 0 <= k < l < free.len() ==> #[trigger] free[k] != #[trigger] free[l]
    &&& forall|i: int|
        0 <= i < slots.len() && !#[trigger] slots[i].0 ==> exists|k: int|
            0 <= k < free.len() && free[k] as int == i
}

proof fn lemma_push_live_keeps_free_list(slots: Seq<(bool, u64)>, free: Seq<usize>)
    requires
        free_list_ok(slots, free),
        free.len() == 0,
    ensures
        free_list_ok(slots.push(slot_state(true, 0)), free),
{
    let s2 = slots.push(slot_state(true, 0));
    assert forall|i: int| 0 <= i < s2.len() && !#[trigger] s2[i].0 implies exists|k: int|
        0 <= k < free.len() && free[k] as int == i by {
        assert(i < slots.len());
        assert(s2[i] == slots[i]);
    }
}

proof fn lemma_take_free_keeps_free_list(slots: Seq<(bool, u64)>, free: Seq<usize>)
    requires
        free_list_ok(slots, free),
        free.len() > 0,
    ensures
        free_list_ok(
            slots.update(free.last() as int, slot_state(true, slots[free.last() as int].1)),
            free.drop_last(),
        ),
{
    let j = free.last() as int;
    let s2 = slots.update(j, slot_state(true, slots[j].1));
    let f2 = free.drop_last();
    assert forall|k: int| 0 <= k < f2.len() implies !s2[#[trigger] f2[k] as int].0 by {
        assert(f2[k] == free[k]);
        assert(free[k] != free[free.len() - 1]);
    }
    assert forall|i: int| 0 <= i < s2.len() && !#[trigger] s2[i].0 implies exists|k: int|
        0 <= k < f2.len() && f2[k] as int == i by {
        assert(i != j);
        assert(s2[i] == slots[i]);
        let k = choose|k: int| 0 <= k < free.len() && free[k] as int == i;
        assert(free[free.len() - 1] == free.last());
        assert(k != free.len() - 1);
        assert(f2[k] == free[k]);
    }
}

proof fn lemma_free_slot_keeps_free_list(slots: Seq<(bool, u64)>, free: Seq<usize>, i: usize)
    requires
        free_list_ok(slots, free),
        i < slots.len(),
        slots[i as int].0,
    ensures
        free_list_ok(
            slots.update(i as int, slot_state(false, (slots[i as int].1 + 1) as u64)),
            free.push(i),
        ),
{
    let s2 = slots.update(i as int, slot_state(false, (slots[i as int].1 + 1) as u64));
    let f2 = free.push(i);
    assert forall|k: int| 0 <= k < f2.len() implies !s2[#[trigger] f2[k] as int].0 by {
        if k < free.len() {
            assert(f2[k] == free[k]);
            assert(free[k] != i);
        }
    }
    assert forall|k: int, l: int| 0 <= k < l < f2.len() implies #[trigger] f2[k] != #[trigger] f2[l] by {
        if l == free.len() {
            assert(f2[k] == free[k]);
            assert(!slots[free[k] as int].0);
        } else {
            assert(f2[k] == free[k]);
            assert(f2[l] == free[l]);
        }
    }
    assert forall|j: int| 0 <= j < s2.len() && !#[trigger] s2[j].0 implies exists|k: int|
        0 <= k < f2.len() && f2[k] as int == j by {
        if j == i as int {
            assert(f2[free.len() as int] == i);
        } else {
            assert(s2[j] == slots[j]);
            let k = choose|k: int| 0 <= k < free.len() && free[k] as int == j;
            assert(f2[k] == free[k]);
        }
    }
}

/// One call on an allocator, from the state `(slots, free)` to the state
/// `(new_slots, new_free)`: `None` for `allocate`, `Some(h)` for
/// `deallocate(h)`, within the bounds that `deallocate` asks for.
pub open spec fn call_step(
    slots: Seq<(bool, u64)>,
    free: Seq<usize>,
    new_slots: Seq<(bool, u64)>,
    new_free: Seq<usize>,
    call: Option<GenerationalIndex>,
) -> bool {
    match call {
        None => exists|r: GenerationalIndex| allocate_step(slots, free, new_slots, new_free, r),
        Some(h) => {
            &&& h.slot() < slots.len()
            &&& live_in(slots, h) ==> h.generation() < u64::MAX
            &&& exists|b: bool| deallocate_step(slots, free, new_slots, new_free, h, b)
        },
    }
}

/// `states` are the states an allocator passes through while it takes the
/// `calls` in turn.
pub open spec fn run_of(
    states: Seq<(Seq<(bool, u64)>, Seq<usize>)>,
    calls: Seq<Option<GenerationalIndex>>,
) -> bool {
    &&& states.len() == calls.len() + 1
    &&& forall|k: int|
        0 <= k < calls.len() ==> call_step(
            states[k].0,
            states[k].1,
            states[k + 1].0,
            states[k + 1].1,
            #[trigger] calls[k],
        )
}

proof fn lemma_call_keeps_free_list(
    slots: Seq<(bool, u64)>,
    free: Seq<usize>,
    new_slots: Seq<(bool, u64)>,
    new_free: Seq<usize>,
    call: Option<GenerationalIndex>,
)
    requires
        free_list_ok(slots, free),
        call_step(slots, free, new_slots, new_free, call),
    ensures
        free_list_ok(new_slots, new_free),
{
    match call {
        None => {
            let r = choose|r: GenerationalIndex| allocate_step(slots, free, new_slots, new_free, r);
            law_allocate_yields_fresh_live_index(slots, free, new_slots, new_free, r);
        },
        Some(h) => {
            if live_in(slots, h) {
                lemma_free_slot_keeps_free_list(slots, free, h.slot());
            }
        },
    }
}

/// A handle that is live before a run of calls is live after the first `n`
/// of them exactly when none of them freed it; once freed, it is a handle of
/// a passed generation, and no later allocation, even of its own slot, makes
/// it live again.
pub proof fn law_live_until_freed(
    states: Seq<(Seq<(bool, u64)>, Seq<usize>)>,
    calls: Seq<Option<GenerationalIndex>>,
    handle: GenerationalIndex,
    n: int,
)
    requires
        run_of(states, calls),
        free_list_ok(states[0].0, states[0].1),
        live_in(states[0].0, handle),
        0 <= n <= calls.len(),
    ensures
        free_list_ok(states[n].0, states[n].1),
        live_in(states[n].0, handle) <==> (forall|j: int| 0 <= j < n ==> calls[j] != Some(handle)),
        !live_in(states[n].0, handle) ==> stale_in(states[n].0, handle),
    decreases n,
{
    if n > 0 {
        let m = n - 1;
        law_live_until_freed(states, calls, handle, m);
        let (slots, free) = states[m];
        let (new_slots, new_free) = states[n];
        let call = calls[m];
        assert(call_step(slots, free, new_slots, new_free, call));
        lemma_call_keeps_free_list(slots, free, new_slots, new_free, call);
        if live_in(slots, handle) {
            match call {
                None => {
                    let r = choose|r: GenerationalIndex|
                        allocate_step(slots, free, new_slots, new_free, r);
                    law_live_index_stays_live(
                        slots,
                        free,
                        new_slots,
                        new_free,
                        handle,
                        r,
                        r,
                        false,
                    );
                },
                Some(h) => {
                    let b = choose|b: bool| deallocate_step(slots, free, new_slots, new_free, h, b);
                    if h == handle {
                        law_deallocate_retires_index(slots, free, new_slots, new_free, h, b);
                    } else {
                        law_live_index_stays_live(
                            slots,
                            free,
                            new_slots,
                            new_free,
                            handle,
                            h,
                            handle,
                            b,
                        );
                    }
                },
            }
            if calls[m] == Some(handle) {
                assert(!(forall|j: int| 0 <= j < n ==> calls[j] != Some(handle)));
            }
        } else {
            match call {
                None => {
                    let r = choose|r: GenerationalIndex|
                        allocate_step(slots, free, new_slots, new_free, r);
                    law_stale_index_stays_dead(
                        slots,
                        free,
                        new_slots,
                        new_free,
                        handle,
                        handle,
                        r,
                        false,
                    );
                },
                Some(h) => {
                    let b = choose|b: bool| deallocate_step(slots, free, new_slots, new_free, h, b);
                    law_stale_index_stays_dead(
                        slots,
                        free,
                        new_slots,
                        new_free,
                        handle,
                        h,
                        handle,
                        b,
                    );
                },
            }
            let j0 = choose|j: int| 0 <= j < m && calls[j] == Some(handle);
            assert(!(forall|j: int| 0 <= j < n ==> calls[j] != Some(handle))) by {
                assert(calls[j0] == Some(handle));
            }
        }
    }
}

} // verus!
