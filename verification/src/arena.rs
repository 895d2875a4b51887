//! A slot-recycling arena.
//!
//! An arena hands out stable integer ids for the values stored in it. A freed
//! id is reused by a later insertion, the smallest one first, and the buffer
//! never ends in a free slot.

use std::collections::BTreeSet;
use vstd::prelude::*;
use vstd::std_specs::cmp::PartialEqSpec;
use vstd::string::StringExecFns;

verus! {

/// The slots without the run of free slots at their end.
pub open spec fn trim<T>(slots: Seq<Option<T>>) -> Seq<Option<T>>
    decreases slots.len(),
{
    if slots.len() > 0 && slots.last().is_none() {
        trim(slots.drop_last())
    } else {
        slots
    }
}

/// The values of the occupied slots, in ascending order of their ids.
pub open spec fn occupied<T>(slots: Seq<Option<T>>) -> Seq<T>
    decreases slots.len(),
{
    if slots.len() == 0 {
        Seq::empty()
    } else {
        match slots[0] {
            Some(value) => seq![value] + occupied(slots.skip(1)),
            None => occupied(slots.skip(1)),
        }
    }
}

/// Whether the slots do not end in a free slot.
pub open spec fn no_trailing_hole<T>(slots: Seq<Option<T>>) -> bool {
    slots.len() > 0 ==> slots.last().is_some()
}

/// Whether `id` is the id that the next insertion uses: the smallest free id,
/// or the length of the buffer where no slot is free.
pub open spec fn is_next_id<T>(slots: Seq<Option<T>>, id: int) -> bool {
    &&& 0 <= id <= slots.len()
    &&& forall|j: int| 0 <= j < id ==> (#[trigger] slots[j]).is_some()
    &&& id < slots.len() ==> slots[id].is_none()
}

/// The id that the next insertion uses.
pub open spec fn next_id<T>(slots: Seq<Option<T>>) -> int
    decreases slots.len(),
{
    if slots.len() == 0 || slots[0].is_none() {
        0
    } else {
        1 + next_id(slots.skip(1))
    }
}

/// There is exactly one id that the next insertion can use.
pub proof fn lemma_next_id<T>(slots: Seq<Option<T>>, id: int)
    ensures
        is_next_id(slots, id) <==> id == next_id(slots),
    decreases slots.len(),
{
    if slots.len() == 0 || slots[0].is_none() {
        if is_next_id(slots, id) && id > 0 {
            assert(slots[0].is_some());
        }
    } else {
        let rest = slots.skip(1);
        lemma_next_id(rest, id - 1);
        if is_next_id(slots, id) {
            assert(id > 0);
            assert forall|j: int| 0 <= j < id - 1 implies (#[trigger] rest[j]).is_some() by {
                assert(slots[j + 1].is_some());
            }
            assert(is_next_id(rest, id - 1));
        }
        if id == next_id(slots) {
            assert(is_next_id(rest, id - 1));
            assert forall|j: int| 0 <= j < id implies (#[trigger] slots[j]).is_some() by {
                if j > 0 {
                    assert(rest[j - 1].is_some());
                }
            }
        }
    }
}

/// The slots after `value` has been stored under `id`.
pub open spec fn insert_at<T>(slots: Seq<Option<T>>, id: int, value: T) -> Seq<Option<T>> {
    if 0 <= id < slots.len() {
        slots.update(id, Some(value))
    } else {
        slots.push(Some(value))
    }
}

/// The slots after `id` has been freed: the slot is emptied, and the free
/// slots that then end the buffer are cut off.
pub open spec fn remove_at<T>(slots: Seq<Option<T>>, id: int) -> Seq<Option<T>> {
    if 0 <= id < slots.len() {
        trim(slots.update(id, None))
    } else {
        slots
    }
}

/// What the slot `id` holds; an id past the end counts as free.
pub open spec fn slot_at<T>(slots: Seq<Option<T>>, id: int) -> Option<T> {
    if 0 <= id < slots.len() {
        slots[id]
    } else {
        None
    }
}

/// Whether two slots are both free or hold equal values.
pub open spec fn slot_eq<T: PartialEq>(a: Option<T>, b: Option<T>) -> bool {
    match (a, b) {
        (None, None) => true,
        (Some(x), Some(y)) => x.eq_spec(&y),
        _ => false,
    }
}

/// What cutting off the free slots at the end leaves: a buffer that is the
/// front of the slots, that does not end in a free slot, and behind which all
/// slots were free.
pub proof fn lemma_trim<T>(slots: Seq<Option<T>>)
    ensures
        trim(slots).len() <= slots.len(),
        trim(slots) == slots.take(trim(slots).len() as int),
        no_trailing_hole(trim(slots)),
        forall|i: int| trim(slots).len() <= i < slots.len() ==> (#[trigger] slots[i]).is_none(),
    decreases slots.len(),
{
    if slots.len() > 0 && slots.last().is_none() {
        lemma_trim(slots.drop_last());
        let n = trim(slots).len() as int;
        assert(slots.drop_last().take(n) =~= slots.take(n));
        assert forall|i: int| n <= i < slots.len() implies (#[trigger] slots[i]).is_none() by {
            if i < slots.len() - 1 {
                assert(slots.drop_last()[i].is_none());
            }
        }
    } else {
        assert(slots.take(slots.len() as int) =~= slots);
    }
}

/// Freeing one id leaves every other slot as it is: an occupied slot stays
/// occupied under its id and keeps its value, and a free slot stays free.
pub proof fn lemma_remove_at_keeps<T>(slots: Seq<Option<T>>, id: int, other: int)
    requires
        other != id,
    ensures
        slot_at(remove_at(slots, id), other) == slot_at(slots, other),
{
    if 0 <= id < slots.len() {
        let emptied = slots.update(id, None);
        lemma_trim(emptied);
        let n = trim(emptied).len() as int;
        if 0 <= other < n {
            assert(emptied.take(n)[other] == slots[other]);
        } else if other < slots.len() && other >= 0 {
            assert(emptied[other].is_none());
        }
    }
}

/// Whether two buffers have the same length and agree slot by slot.
pub open spec fn slots_eq<T: PartialEq>(a: Seq<Option<T>>, b: Seq<Option<T>>) -> bool {
    &&& a.len() == b.len()
    &&& forall|j: int| 0 <= j < a.len() ==> #[trigger] slot_eq(a[j], b[j])
}

/// Whether two buffers agree under every id, an id past the end of a buffer
/// counting as free.
pub open spec fn same_contents<T: PartialEq>(a: Seq<Option<T>>, b: Seq<Option<T>>) -> bool {
    forall|id: int| #[trigger] slot_eq(slot_at(a, id), slot_at(b, id))
}

/// Equality ignores a trailing run of free slots: two buffers are equal
/// without the free slots at their end if and only if they hold equal
/// contents under every id.
pub proof fn lemma_eq_ignores_trailing_holes<T: PartialEq>(
    a: Seq<Option<T>>,
    b: Seq<Option<T>>,
)
    ensures
        slots_eq(trim(a), trim(b)) <==> same_contents(a, b),
{
    lemma_trim(a);
    lemma_trim(b);
    let ta = trim(a);
    let tb = trim(b);
    if slots_eq(ta, tb) {
        assert forall|id: int| #[trigger] slot_eq(slot_at(a, id), slot_at(b, id)) by {
            if 0 <= id < ta.len() {
                assert(slot_eq(ta[id], tb[id]));
                assert(ta[id] == a[id] && tb[id] == b[id]);
            } else if 0 <= id {
                if id < a.len() {
                    assert(a[id].is_none());
                }
                if id < b.len() {
                    assert(b[id].is_none());
                }
            }
        }
    }
    if same_contents(a, b) {
        if ta.len() > tb.len() {
            let i = ta.len() - 1;
            assert(ta[i] == a[i]);
            assert(slot_eq(slot_at(a, i), slot_at(b, i)));
            if i < b.len() {
                assert(b[i].is_none());
            }
        }
        if tb.len() > ta.len() {
            let i = tb.len() - 1;
            assert(tb[i] == b[i]);
            assert(slot_eq(slot_at(a, i), slot_at(b, i)));
            if i < a.len() {
                assert(a[i].is_none());
            }
        }
        assert forall|j: int| 0 <= j < ta.len() implies #[trigger] slot_eq(ta[j], tb[j]) by {
            assert(slot_eq(slot_at(a, j), slot_at(b, j)));
            assert(ta[j] == a[j] && tb[j] == b[j]);
        }
    }
}

/// Two buffers that do not end in a free slot are equal if and only if they
/// hold equal contents under every id. The buffers of two arenas are such
/// buffers.
pub proof fn lemma_eq_same_contents<T: PartialEq>(a: Seq<Option<T>>, b: Seq<Option<T>>)
    requires
        no_trailing_hole(a),
        no_trailing_hole(b),
    ensures
        slots_eq(a, b) <==> same_contents(a, b),
{
    lemma_eq_ignores_trailing_holes(a, b);
}

/// An insertion after a removal reuses the smallest freed id: the id that
/// the next insertion uses is then the freed id, or the id that was free
/// before, whichever is smaller.
pub proof fn lemma_insert_reuses_freed<T>(slots: Seq<Option<T>>, id: int)
    requires
        0 <= id < slots.len(),
        slots[id].is_some(),
    ensures
        next_id(remove_at(slots, id)) == (if id < next_id(slots) {
            id
        } else {
            next_id(slots)
        }),
{
    let emptied = slots.update(id, None);
    let after = trim(emptied);
    let before = next_id(slots);
    let m = if id < before {
        id
    } else {
        before
    };
    lemma_next_id(slots, before);
    lemma_trim(emptied);
    assert forall|j: int| 0 <= j < m implies j < after.len() && (#[trigger] after[j]).is_some() by {
        assert(slots[j].is_some());
        assert(emptied[j].is_some());
        assert(after[j] == emptied[j]);
    }
    if m > after.len() {
        assert(slots[after.len() as int].is_some());
        assert(emptied[after.len() as int].is_some());
    }
    if m < after.len() {
        assert(after[m] == emptied[m]);
    }
    assert(is_next_id(after, m));
    lemma_next_id(after, m);
}

/// Removing the last occupied slot truncates the buffer, and the truncation
/// goes on through the free slots that then end it: after a removal the
/// buffer never ends in a free slot. Removing another slot only empties it.
pub proof fn lemma_remove_truncates<T>(slots: Seq<Option<T>>, id: int)
    requires
        no_trailing_hole(slots),
        0 <= id < slots.len(),
    ensures
        no_trailing_hole(remove_at(slots, id)),
        remove_at(slots, id) == slots.update(id, None).take(remove_at(slots, id).len() as int),
        id == slots.len() - 1 ==> remove_at(slots, id).len() <= id,
        id < slots.len() - 1 ==> remove_at(slots, id) == slots.update(id, None),
{
    lemma_trim(slots.update(id, None));
    if id == slots.len() - 1 {
        if remove_at(slots, id).len() > id {
            assert(remove_at(slots, id).last() == slots.update(id, None)[id]);
        }
    }
}

/// `BTreeSet::pop_first` of the standard library: takes the smallest element
/// out of the set and returns it, or returns `None` on an empty set.
#[verifier::external_body]
fn pop_first(set: &mut BTreeSet<usize>) -> (r: Option<usize>)
    ensures
        match r {
            Some(k) => {
                &&& old(set)@.contains(k)
                &&& forall|j: usize| old(set)@.contains(j) ==> k <= j
                &&& final(set)@ == old(set)@.remove(k)
            },
            None => {
                &&& forall|j: usize| !old(set)@.contains(j)
                &&& final(set)@ == old(set)@
            },
        },
{
    set.pop_first()
}

/// `BTreeSet::pop_last` of the standard library: takes the largest element
/// out of the set and returns it, or returns `None` on an empty set.
#[verifier::external_body]
fn pop_last(set: &mut BTreeSet<usize>) -> (r: Option<usize>)
    ensures
        match r {
            Some(k) => {
                &&& old(set)@.contains(k)
                &&& forall|j: usize| old(set)@.contains(j) ==> j <= k
                &&& final(set)@ == old(set)@.remove(k)
            },
            None => {
                &&& forall|j: usize| !old(set)@.contains(j)
                &&& final(set)@ == old(set)@
            },
        },
{
    set.pop_last()
}

/// The `Debug` formatting of the standard library for a slot: the text that
/// `{:?}` gives for it. Nothing is claimed of the text.
#[verifier::external_body]
fn slot_text<T: core::fmt::Debug>(slot: &Option<T>) -> (text: String) {
    format!("{:?}", slot)
}

/// The formatter of the standard library, to which `Debug` writes.
#[verifier::external_type_specification]
#[verifier::external_body]
pub struct ExFormatter<'a>(core::fmt::Formatter<'a>);

/// The error of the standard library that says that a text could not be
/// written.
#[verifier::external_type_specification]
#[verifier::external_body]
pub struct ExFmtError(core::fmt::Error);

/// `Formatter::write_str` of the standard library: writes the text to the
/// formatter. Nothing is claimed of what the formatter then holds.
#[verifier::external_body]
fn write_text(
    formatter: &mut core::fmt::Formatter<'_>,
    text: &str,
) -> (r: Result<(), core::fmt::Error>) {
    formatter.write_str(text)
}

/// The texts one after the other, with a comma and a space between each two.
pub open spec fn joined(texts: Seq<Seq<char>>) -> Seq<char>
    decreases texts.len(),
{
    if texts.len() == 0 {
        Seq::empty()
    } else if texts.len() == 1 {
        texts[0]
    } else {
        joined(texts.drop_last()) + seq![',', ' '] + texts.last()
    }
}

/// The texts as a list in square brackets.
pub open spec fn listing(texts: Seq<Seq<char>>) -> Seq<char> {
    seq!['['] + joined(texts) + seq![']']
}

/// An arena
pub struct Arena<T> {
    /// The object buffer
    buffer: Vec<Option<T>>,
    /// The free list as an ordered set
    free: BTreeSet<usize>,
}

impl<T> View for Arena<T> {
    type V = Seq<Option<T>>;

    /// The buffer: one slot per id, `None` where the id is free.
    closed spec fn view(&self) -> Seq<Option<T>> {
        self.buffer@
    }
}

impl<T> Arena<T> {
    /// Whether the free list holds exactly the ids of the free slots.
    pub closed spec fn free_list_matches(&self) -> bool {
        forall|i: usize|
            self.free@.contains(i) <==> (i < self.buffer@.len() && self.buffer@[i as int].is_none())
    }

    /// The invariant of an arena: the free list is exact, and the buffer does
    /// not end in a free slot.
    pub open spec fn wf(&self) -> bool {
        &&& self.free_list_matches()
        &&& no_trailing_hole(self@)
    }

    /// What the slot `id` holds; an id past the end counts as free.
    pub open spec fn slot(&self, id: int) -> Option<T> {
        slot_at(self@, id)
    }

    /// Whether `id` is occupied.
    pub open spec fn contains(&self, id: int) -> bool {
        self.slot(id).is_some()
    }

    /// Creates a new, empty arena
    pub fn new() -> (arena: Arena<T>)
        ensures
            arena.wf(),
            arena@ == Seq::<Option<T>>::empty(),
    {
        Arena { buffer: Vec::new(), free: BTreeSet::new() }
    }

    /// The number of the slots of the buffer: every id that is in use is
    /// smaller
    pub fn len(&self) -> (len: usize)
        ensures
            len == self@.len(),
    {
        self.buffer.len()
    }

    /// Creates an arena that holds the given slots, without the free slots
    /// at their end.
    pub fn from_slots(slots: Vec<Option<T>>) -> (arena: Arena<T>)
        ensures
            arena.wf(),
            arena@ == trim(slots@),
    {
        let mut buffer = slots;
        while buffer.len() != 0 && buffer[buffer.len() - 1].is_none()
            invariant
                trim(buffer@) == trim(slots@),
            decreases buffer.len(),
        {
            let ghost before = buffer@;
            buffer.pop();
            assert(buffer@ =~= before.drop_last());
        }
        let mut free: BTreeSet<usize> = BTreeSet::new();
        let mut i: usize = 0;
        while i < buffer.len()
            invariant
                i <= buffer.len(),
                forall|j: usize|
                    free@.contains(j) <==> (j < i && buffer@[j as int].is_none()),
            decreases buffer.len() - i,
        {
            if buffer[i].is_none() {
                free.insert(i);
            }
            i += 1;
        }
        Arena { buffer, free }
    }

    /// Inserts a new object into the arena, under the smallest free id
    pub fn insert(&mut self, object: T) -> (id: usize)
        requires
            old(self).wf(),
        ensures
            final(self).wf(),
            is_next_id(old(self)@, id as int),
            id == next_id(old(self)@),
            final(self)@ == insert_at(old(self)@, id as int, object),
    {
        proof {
            lemma_next_id(old(self)@, next_id(old(self)@));
        }
        let id = self.place(object);
        proof {
            lemma_next_id(old(self)@, id as int);
        }
        id
    }

    /// Stores the object in the smallest free slot, or in a new one
    fn place(&mut self, object: T) -> (id: usize)
        requires
            old(self).wf(),
        ensures
            final(self).wf(),
            is_next_id(old(self)@, id as int),
            final(self)@ == insert_at(old(self)@, id as int, object),
    {
        match pop_first(&mut self.free) {
            Some(id) => {
                assert forall|j: int| 0 <= j < id implies
                    (#[trigger] self.buffer@[j]).is_some() by {
                    if self.buffer@[j].is_none() {
                        assert(old(self).free@.contains(j as usize));
                    }
                }
                self.buffer[id] = Some(object);
                id
            },
            None => {
                let id = self.buffer.len();
                assert forall|j: int| 0 <= j < id implies
                    (#[trigger] self.buffer@[j]).is_some() by {
                    if self.buffer@[j].is_none() {
                        assert(old(self).free@.contains(j as usize));
                    }
                }
                self.buffer.push(Some(object));
                id
            },
        }
    }

    /// Gets a reference to an object in the arena
    pub fn get(&self, id: usize) -> (r: Option<&T>)
        ensures
            r == match self.slot(id as int) {
                Some(value) => Some(&value),
                None => None,
            },
    {
        if id < self.buffer.len() {
            self.buffer[id].as_ref()
        } else {
            None
        }
    }

    /// Gets a mutable reference to an object in the arena
    pub fn get_mut(&mut self, id: usize) -> (r: Option<&mut T>)
        ensures
            match r {
                Some(value) => {
                    &&& old(self).slot(id as int) == Some(*value)
                    &&& final(self)@ =~= old(self)@.update(id as int, Some(*final(value)))
                },
                None => {
                    &&& old(self).slot(id as int).is_none()
                    &&& final(self)@ == old(self)@
                },
            },
            old(self).wf() ==> final(self).wf(),
    {
        if id < self.buffer.len() {
            self.buffer[id].as_mut()
        } else {
            None
        }
    }

    /// Removes an object from the arena if it exists
    pub fn remove(&mut self, id: usize) -> (r: Option<T>)
        requires
            old(self).wf(),
        ensures
            final(self).wf(),
            r == old(self).slot(id as int),
            final(self)@ == (if r.is_some() {
                remove_at(old(self)@, id as int)
            } else {
                old(self)@
            }),
    {
        if id < self.buffer.len() {
            let value = self.buffer[id].take();
            if value.is_some() {
                assert(self.buffer@ =~= old(self)@.update(id as int, None));
                self.recycle_id(id);
            } else {
                assert(self.buffer@ =~= old(self)@);
            }
            value
        } else {
            None
        }
    }

    /// Recycles an id
    fn recycle_id(&mut self, id: usize)
        requires
            id < old(self).buffer@.len(),
            old(self).buffer@[id as int].is_none(),
            forall|i: usize|
                old(self).free@.contains(i) <==> (i < old(self).buffer@.len() && i != id
                    && old(self).buffer@[i as int].is_none()),
            forall|i: int| id < i < old(self).buffer@.len() && i == old(self).buffer@.len() - 1
                ==> old(self).buffer@[i].is_some(),
        ensures
            final(self).wf(),
            final(self)@ == trim(old(self).buffer@),
    {
        if id == self.buffer.len() - 1 {
            self.buffer.pop();
            assert(self.buffer@ =~= old(self).buffer@.drop_last());
            while self.buffer.len() != 0 && self.buffer[self.buffer.len() - 1].is_none()
                invariant
                    self.free_list_matches(),
                    trim(self.buffer@) == trim(old(self).buffer@),
                decreases self.buffer.len(),
            {
                let ghost before = self.buffer@;
                let ghost last = (self.buffer.len() - 1) as usize;
                assert(self.free@.contains(last));
                self.buffer.pop();
                let freed = pop_last(&mut self.free);
                assert(freed == Some(last)) by {
                    if let Some(k) = freed {
                        assert(k < before.len());
                    }
                }
                assert(self.buffer@ =~= before.drop_last());
            }
        } else {
            self.free.insert(id);
        }
    }

    /// Formats the arena, omitting the free list: the list of the slots of
    /// the buffer in square brackets, each slot as `{:?}` formats it
    pub fn debug_string(&self) -> (text: String) where T: core::fmt::Debug
        ensures
            exists|texts: Seq<Seq<char>>|
                texts.len() == self@.len() && text@ == #[trigger] listing(texts),
    {
        let mut text = String::new();
        let ghost mut texts: Seq<Seq<char>> = Seq::empty();
        proof {
            reveal_strlit("[");
            reveal_strlit(", ");
            reveal_strlit("]");
        }
        text.append("[");
        let mut i: usize = 0;
        while i < self.buffer.len()
            invariant
                i <= self.buffer@.len(),
                texts.len() == i,
                text@ == seq!['['] + joined(texts),
                ", "@ == seq![',', ' '],
            decreases self.buffer@.len() - i,
        {
            let slot = slot_text(&self.buffer[i]);
            if i != 0 {
                text.append(", ");
            }
            text.append(slot.as_str());
            proof {
                let before = texts;
                texts = texts.push(slot@);
                assert(texts.drop_last() =~= before);
                assert(text@ =~= seq!['['] + joined(texts));
            }
            i += 1;
        }
        text.append("]");
        assert(text@ =~= listing(texts));
        text
    }

    /// Creates an iterator
    pub fn iter<'a>(&'a self) -> (iter: Iter<'a, T>)
        ensures
            iter.remaining() == occupied(self@),
    {
        assert(self@.skip(0) =~= self@);
        Iter { arena: self, next_id: 0 }
    }
}

impl<T: core::fmt::Debug> core::fmt::Debug for Arena<T> {
    /// Formats the arena, omitting the free list
    fn fmt(&self, f: &mut core::fmt::Formatter<'_>) -> (r: Result<(), core::fmt::Error>) {
        let text = self.debug_string();
        write_text(f, text.as_str())
    }
}

impl<T: PartialEq> PartialEq for Arena<T> {
    /// Two arena's are equal when their buffers are equal
    fn eq(&self, other: &Arena<T>) -> (r: bool) {
        if self.buffer.len() != other.buffer.len() {
            return false;
        }
        let mut i: usize = 0;
        while i < self.buffer.len()
            invariant
                i <= self.buffer.len(),
                self.buffer.len() == other.buffer.len(),
                T::obeys_eq_spec() ==> forall|j: int|
                    0 <= j < i ==> #[trigger] slot_eq(self.buffer@[j], other.buffer@[j]),
            decreases self.buffer.len() - i,
        {
            if !(self.buffer[i] == other.buffer[i]) {
                assert(T::obeys_eq_spec() ==> !slot_eq(self@[i as int], other@[i as int]));
                return false;
            }
            i += 1;
        }
        true
    }
}

impl<T: PartialEq> vstd::std_specs::cmp::PartialEqSpecImpl for Arena<T> {
    open spec fn obeys_eq_spec() -> bool {
        T::obeys_eq_spec()
    }

    /// The buffers have the same length and agree slot by slot. As no buffer
    /// ends in a free slot, the arenas then hold equal contents under every
    /// id.
    open spec fn eq_spec(&self, other: &Arena<T>) -> bool {
        slots_eq(self@, other@)
    }
}

/// Two arenas are equal if and only if they hold equal contents under every
/// id: how the arenas came to hold them, and the free slots that a buffer
/// once had at its end, do not matter.
pub proof fn lemma_arena_eq<T: PartialEq>(a: &Arena<T>, b: &Arena<T>)
    requires
        a.wf(),
        b.wf(),
    ensures
        a.eq_spec(b) <==> same_contents(a@, b@),
{
    lemma_eq_same_contents(a@, b@);
}

/// Equality of arenas is symmetric where equality of their values is.
pub proof fn lemma_arena_eq_symmetric<T: PartialEq>(a: &Arena<T>, b: &Arena<T>)
    requires
        forall|x: T, y: T| #[trigger] x.eq_spec(&y) == y.eq_spec(&x),
    ensures
        a.eq_spec(b) == b.eq_spec(a),
{
    if a@.len() == b@.len() {
        assert forall|j: int| 0 <= j < a@.len() implies slot_eq(a@[j], b@[j]) == slot_eq(
            b@[j],
            a@[j],
        ) by {
            match (a@[j], b@[j]) {
                (Some(x), Some(y)) => {
                    assert(x.eq_spec(&y) == y.eq_spec(&x));
                },
                _ => {},
            }
        }
    }
}

/// An iterator for arenas
pub struct Iter<'a, T> {
    /// The arena
    arena: &'a Arena<T>,
    /// The next id
    next_id: usize,
}

impl<'a, T> Iter<'a, T> {
    /// The values that are still to come, in the order in which they come.
    pub closed spec fn remaining(&self) -> Seq<T> {
        if self.next_id <= self.arena@.len() {
            occupied(self.arena@.skip(self.next_id as int))
        } else {
            Seq::empty()
        }
    }

    /// Returns the value of the next occupied slot, or `None` when no
    /// occupied slot is left
    pub fn next(&mut self) -> (r: Option<&'a T>)
        ensures
            r == (if old(self).remaining().len() > 0 {
                Some(&old(self).remaining()[0])
            } else {
                None
            }),
            final(self).remaining() == (if old(self).remaining().len() > 0 {
                old(self).remaining().drop_first()
            } else {
                old(self).remaining()
            }),
    {
        while self.next_id < self.arena.buffer.len()
            invariant
                self.arena == old(self).arena,
                self.remaining() == old(self).remaining(),
            decreases self.arena.buffer.len() - self.next_id,
        {
            let value = &self.arena.buffer[self.next_id];
            let ghost rest = self.arena@.skip(self.next_id as int);
            assert(rest.skip(1) =~= self.arena@.skip(self.next_id + 1));
            self.next_id += 1;
            if value.is_some() {
                assert(old(self).remaining() =~= seq![value.unwrap()] + self.remaining());
                assert(self.remaining() =~= old(self).remaining().drop_first());
                return value.as_ref();
            }
        }
        None
    }
}

} // verus!
