//! A stack that holds values of different types.
//!
//! Every value has a frame of its own: padding up to the value's alignment, the
//! value's bytes, padding up to the alignment of the frame's metadata, and the
//! metadata, which records where the frame begins and the two locations that the
//! value spans. Frames follow one another without gaps, so the frame below the top
//! ends where the top frame begins.
//!
//! Frames are accounted for, not laid out in memory: values and metadata are kept
//! in lists beside the size that their frames add up to.
//!
//! A value is the caller's again once it is popped. A value that goes in any other
//! way, with its locations, is never dropped: neither by clearing or truncating the
//! stack, nor with the stack itself.
use crate::value::Value;
use core::mem::{align_of, size_of, ManuallyDrop};
use core::ops::Deref;
use vstd::layout::layout_for_type_is_valid;
use vstd::prelude::*;

verus! {

/// A type whose values can stand for a `T` on the stack.
///
/// A stack names one such type. It can hold a `T` for every `T` that this type
/// holds.
pub trait Holds<T>: Sized {
    /// The `T` in this value, if the value was made from one.
    spec fn held(self) -> Option<T>;

    /// Makes a value from a `T`.
    fn erase(value: T) -> (erased: Self)
        ensures
            erased.held() == Some(value),
    ;

    /// Takes the `T` back out.
    fn recover(self) -> (value: T)
        requires
            self.held() is Some,
        ensures
            self.held() == Some(value),
    ;
}

/// What a frame records beside its value.
pub struct Metadata<Location> {
    /// where the frame begins
    offset: usize,
    l: Location,
    r: Location,
}

/// A frame of the stack.
pub struct Entry<Location, V> {
    /// where the frame begins
    pub offset: nat,
    pub l: Location,
    pub value: V,
    pub r: Location,
}

/// The least multiple of `align` that is not below `n`.
pub open spec fn round_up(n: nat, align: nat) -> nat
    recommends
        align > 0,
{
    if n % align == 0 {
        n
    } else {
        (n + (align - n % align)) as nat
    }
}

/// Where the value lies of a frame that begins at `start` and holds a `T`: at the
/// next offset that is aligned for it.
pub open spec fn value_start<T>(start: nat) -> nat {
    round_up(start, vstd::layout::align_of::<T>())
}

/// Where the metadata lies of a frame that begins at `start` and holds a `T`.
pub open spec fn metadata_start<Location, T>(start: nat) -> nat {
    round_up(
        value_start::<T>(start) + vstd::layout::size_of::<T>(),
        vstd::layout::align_of::<Metadata<Location>>(),
    )
}

/// Where a frame ends that begins at `start` and holds a `T`.
pub open spec fn frame_end<Location, T>(start: nat) -> nat {
    metadata_start::<Location, T>(start) + vstd::layout::size_of::<Metadata<Location>>()
}

/// Whether a stack of `size` bytes can grow by a frame for a `T`: metadata takes up
/// bytes, and all frames together fit into an allocation.
pub open spec fn fits<Location, T>(size: nat) -> bool {
    &&& vstd::layout::size_of::<Metadata<Location>>() > 0
    &&& frame_end::<Location, T>(size) <= isize::MAX
}

/// Where frame `i` ends, in a stack of `size` bytes.
pub open spec fn entry_end<Location, V>(
    entries: Seq<Entry<Location, V>>,
    size: nat,
    i: int,
) -> nat {
    if i + 1 < entries.len() {
        entries[i + 1].offset
    } else {
        size
    }
}

/// The frames fill `size` bytes from the bottom, in order and aligned.
pub open spec fn frames_ok<Location, V>(entries: Seq<Entry<Location, V>>, size: nat) -> bool {
    &&& entries.len() == 0 ==> size == 0
    &&& entries.len() > 0 ==> entries[0].offset == 0
    &&& entries.len() > 0 ==> vstd::layout::size_of::<Metadata<Location>>() > 0
    &&& size % vstd::layout::align_of::<Metadata<Location>>() == 0
    &&& size <= isize::MAX
    &&& forall|i: int|
        #![trigger entries[i]]
        0 <= i < entries.len() ==> {
            &&& entries[i].offset % vstd::layout::align_of::<Metadata<Location>>() == 0
            &&& entries[i].offset + vstd::layout::size_of::<Metadata<Location>>() <= entry_end(
                entries,
                size,
                i,
            )
        }
}

/// The least multiple of `align` that is not below `n`.
fn aligned(n: usize, align: usize) -> (offset: usize)
    requires
        align > 0,
        n <= isize::MAX,
    ensures
        offset == round_up(n as nat, align as nat),
{
    let excess: usize = n % align;
    if excess == 0 {
        n
    } else {
        proof {
            if n < align {
                vstd::arithmetic::div_mod::lemma_small_mod(n as nat, align as nat);
            }
        }
        n + (align - excess)
    }
}

/// A stack of values of different types, each with the two locations it spans.
///
/// The caller pops a value in the type in which it was pushed.
pub struct HeterogeneousStack<Location, V = Value> {
    values: Vec<ManuallyDrop<V>>,
    metadata: Vec<ManuallyDrop<Metadata<Location>>>,
    size: usize,
}

impl<Location, V> View for HeterogeneousStack<Location, V> {
    type V = Seq<Entry<Location, V>>;

    closed spec fn view(&self) -> Seq<Entry<Location, V>> {
        Seq::new(
            self.metadata@.len(),
            |i: int|
                Entry {
                    offset: self.metadata@[i]@.offset as nat,
                    l: self.metadata@[i]@.l,
                    value: self.values@[i]@,
                    r: self.metadata@[i]@.r,
                },
        )
    }
}

impl<Location, V> HeterogeneousStack<Location, V> {
    /// The size of all frames together, in bytes.
    pub closed spec fn size(self) -> nat {
        self.size as nat
    }

    /// Every frame has a value and metadata.
    pub closed spec fn paired(self) -> bool {
        self.values@.len() == self.metadata@.len()
    }

    /// The invariant of a stack.
    pub open spec fn wf(self) -> bool {
        &&& self.paired()
        &&& frames_ok(self@, self.size())
    }

    /// `after` is `before` with a frame for `value` on top.
    pub open spec fn pushes<T>(
        before: Self,
        l: Location,
        value: T,
        r: Location,
        after: Self,
    ) -> bool where V: Holds<T> {
        &&& after@.len() == before@.len() + 1
        &&& after@.drop_last() == before@
        &&& after@.last().offset == before.size()
        &&& after@.last().l == l
        &&& after@.last().r == r
        &&& <V as Holds<T>>::held(after@.last().value) == Some(value)
        &&& after.size() == frame_end::<Location, T>(before.size())
    }

    /// `after` is `before` without its topmost `count` frames.
    pub open spec fn drops(before: Self, count: nat, after: Self) -> bool {
        &&& count <= before@.len()
        &&& after@ == before@.take(before@.len() - count)
        &&& after.size() == if count == 0 {
            before.size()
        } else {
            before@[before@.len() - count].offset
        }
    }

    /// The locations that a value spans: of the top value for index 0, of the
    /// one below it for index 1, and so on.
    pub open spec fn location(&self, index: nat) -> Option<(&Location, &Location)> {
        if index < self@.len() {
            let entry = self@[self@.len() - 1 - index];
            Some((&entry.l, &entry.r))
        } else {
            None
        }
    }

    /// Creates a new empty stack.
    pub fn new() -> (stack: Self)
        ensures
            stack.wf(),
            stack@.len() == 0,
            stack.size() == 0,
    {
        layout_for_type_is_valid::<Metadata<Location>>();
        HeterogeneousStack { values: Vec::new(), metadata: Vec::new(), size: 0 }
    }

    /// Where a `T` lies that is pushed next. Right after a pop, that is where the
    /// popped value lay.
    pub fn next_value_offset<T>(&self) -> (offset: usize)
        requires
            self.wf(),
        ensures
            offset == value_start::<T>(self.size()),
    {
        layout_for_type_is_valid::<T>();
        aligned(self.size, align_of::<T>())
    }

    /// Whether the stack can grow by a frame for a `T`.
    pub fn has_room<T>(&self) -> (room: bool)
        requires
            self.wf(),
        ensures
            room == fits::<Location, T>(self.size()),
    {
        layout_for_type_is_valid::<Metadata<Location>>();
        let limit: usize = isize::MAX as usize;
        let value_offset: usize = self.next_value_offset::<T>();
        if value_offset > limit || size_of::<T>() > limit - value_offset {
            return false;
        }
        let after_value: usize = value_offset + size_of::<T>();
        let metadata_offset: usize = aligned(after_value, align_of::<Metadata<Location>>());
        let metadata_size: usize = size_of::<Metadata<Location>>();
        metadata_offset <= limit && 0 < metadata_size && metadata_size <= limit - metadata_offset
    }

    /// Pushes `value`, which spans `l` to `r`. The stack has room for it.
    pub fn push<T>(&mut self, l: Location, value: T, r: Location) where V: Holds<T>
        requires
            old(self).wf(),
            fits::<Location, T>(old(self).size()),
        ensures
            final(self).wf(),
            Self::pushes(*old(self), l, value, r, *final(self)),
    {
        layout_for_type_is_valid::<Metadata<Location>>();
        let frame_offset: usize = self.size;
        let metadata_align: usize = align_of::<Metadata<Location>>();
        let metadata_size: usize = size_of::<Metadata<Location>>();
        let value_offset: usize = self.next_value_offset::<T>();
        let after_value: usize = value_offset + size_of::<T>();
        // padding after the value
        let metadata_offset: usize = aligned(after_value, metadata_align);
        self.values.push(ManuallyDrop::new(V::erase(value)));
        self.metadata.push(ManuallyDrop::new(Metadata { offset: frame_offset, l, r }));
        self.size = metadata_offset + metadata_size;
        proof {
            assert(self@.drop_last() =~= old(self)@);
            assert(self.size() % vstd::layout::align_of::<Metadata<Location>>() == 0) by {
                lemma_frame_end_aligned(
                    after_value as nat,
                    metadata_align as nat,
                    metadata_size as nat,
                );
            }
            assert forall|i: int| #![trigger self@[i]] 0 <= i < self@.len() implies {
                &&& self@[i].offset % vstd::layout::align_of::<Metadata<Location>>() == 0
                &&& self@[i].offset + vstd::layout::size_of::<Metadata<Location>>() <= entry_end(
                    self@,
                    self.size(),
                    i,
                )
            } by {
                if i < old(self)@.len() {
                    assert(self@[i] == old(self)@[i]);
                    if i + 1 < old(self)@.len() {
                        assert(self@[i + 1] == old(self)@[i + 1]);
                    }
                }
            }
        }
    }

    /// Pops the top value, with the two locations that it spans.
    ///
    /// The stack holds a value, and the top one was pushed as a `T`.
    pub fn pop<T>(&mut self) -> (popped: (Location, T, Location)) where V: Holds<T>
        requires
            old(self).wf(),
            old(self)@.len() > 0,
            <V as Holds<T>>::held(old(self)@.last().value) is Some,
        ensures
            final(self).wf(),
            Self::drops(*old(self), 1, *final(self)),
            popped.0 == old(self)@.last().l,
            Some(popped.1) == <V as Holds<T>>::held(old(self)@.last().value),
            popped.2 == old(self)@.last().r,
    {
        proof {
            lemma_dropping_keeps_frames(self@, self.size(), 1);
        }
        let value: V = ManuallyDrop::into_inner(self.values.pop().unwrap());
        let Metadata { offset: frame_offset, l, r } = ManuallyDrop::into_inner(
            self.metadata.pop().unwrap(),
        );
        self.size = frame_offset;
        assert(self@ =~= old(self)@.take(old(self)@.len() - 1));
        (l, value.recover(), r)
    }

    /// Returns true if the stack is empty.
    pub fn is_empty(&self) -> (empty: bool)
        requires
            self.wf(),
        ensures
            empty == (self@.len() == 0),
            empty == (self.size() == 0),
    {
        proof {
            law_size(*self);
        }
        self.metadata.is_empty()
    }

    /// Returns the current size of all frames, in bytes.
    pub fn len(&self) -> (size: usize)
        requires
            self.wf(),
        ensures
            size == self.size(),
    {
        self.size
    }

    /// Clears the stack, and does not drop what it held.
    pub fn clear(&mut self)
        requires
            old(self).wf(),
        ensures
            final(self).wf(),
            final(self)@.len() == 0,
            final(self).size() == 0,
    {
        layout_for_type_is_valid::<Metadata<Location>>();
        self.values.clear();
        self.metadata.clear();
        self.size = 0;
    }

    /// The locations that the top value spans, or `None` for an empty stack.
    pub fn last_location(&mut self) -> (location: Option<(&Location, &Location)>)
        requires
            old(self).wf(),
        ensures
            *final(self) == *old(self),
            location == old(self).location(0),
    {
        self.get_nth_last_location(0)
    }

    /// The locations that a value spans: of the top value for index 0, of the
    /// one below it for index 1, and so on. `None` where the stack holds no
    /// such value.
    pub fn get_nth_last_location(&self, index: usize) -> (location: Option<(&Location, &Location)>)
        requires
            self.wf(),
        ensures
            location == self.location(index as nat),
    {
        let count: usize = self.metadata.len();
        if index >= count {
            // There's not enough data left
            return None;
        }
        let metadata: &Metadata<Location> = self.metadata[count - 1 - index].deref();
        Some((&metadata.l, &metadata.r))
    }

    /// Where the metadata lies of a value: of the top value for index 0, of the
    /// one below it for index 1, and so on. `None` where the stack holds no such
    /// value.
    pub fn nth_last_metadata_offset(&self, index: usize) -> (offset: Option<usize>)
        requires
            self.wf(),
        ensures
            offset is Some == (index < self@.len()),
            index < self@.len() ==> offset->0 + vstd::layout::size_of::<Metadata<Location>>()
                == entry_end(self@, self.size(), self@.len() - 1 - index),
    {
        let count: usize = self.metadata.len();
        if index >= count {
            return None;
        }
        assert(self@[self@.len() - 1 - index].offset + vstd::layout::size_of::<Metadata<Location>>()
            <= entry_end(self@, self.size(), self@.len() - 1 - index));
        let end: usize = if index == 0 {
            self.size
        } else {
            self.metadata[count - index].deref().offset
        };
        Some(end - size_of::<Metadata<Location>>())
    }

    /// Takes off the topmost `index` values, which the stack holds at least, and
    /// does not drop them.
    pub fn truncate_last(&mut self, index: usize)
        requires
            old(self).wf(),
            index <= old(self)@.len(),
        ensures
            final(self).wf(),
            Self::drops(*old(self), index as nat, *final(self)),
    {
        if index == 0 {
            assert(self@.take(self@.len() as int) =~= self@);
            return;
        }
        proof {
            lemma_dropping_keeps_frames(self@, self.size(), index as nat);
        }
        let keep: usize = self.metadata.len() - index;
        self.size = self.metadata[keep].deref().offset;
        self.values.truncate(keep);
        self.metadata.truncate(keep);
        assert(self@ =~= old(self)@.take(keep as int));
    }
}

impl<Location, V> Default for HeterogeneousStack<Location, V> {
    fn default() -> (stack: Self)
        ensures
            stack.wf(),
            stack@.len() == 0,
            stack.size() == 0,
    {
        Self::new()
    }
}

/// A pop right after a push gives back what was pushed, and leaves the stack as
/// it was before the push.
pub proof fn law_pop_undoes_push<Location, V: Holds<T>, T>(
    before: HeterogeneousStack<Location, V>,
    l: Location,
    value: T,
    r: Location,
    pushed: HeterogeneousStack<Location, V>,
    popped: HeterogeneousStack<Location, V>,
)
    requires
        HeterogeneousStack::pushes(before, l, value, r, pushed),
        HeterogeneousStack::drops(pushed, 1, popped),
    ensures
        pushed@.len() > 0,
        pushed@.last().l == l,
        pushed@.last().r == r,
        <V as Holds<T>>::held(pushed@.last().value) == Some(value),
        popped@ == before@,
        popped.size() == before.size(),
{
    assert(pushed@.take(pushed@.len() - 1) =~= pushed@.drop_last());
}

/// A push puts its locations on top, and moves those below it down by one.
pub proof fn law_push_moves_locations<Location, V: Holds<T>, T>(
    before: HeterogeneousStack<Location, V>,
    l: Location,
    value: T,
    r: Location,
    pushed: HeterogeneousStack<Location, V>,
    index: nat,
)
    requires
        HeterogeneousStack::pushes(before, l, value, r, pushed),
    ensures
        pushed.location(0) == Some((&l, &r)),
        pushed.location(index + 1) == before.location(index),
{
    if index < before@.len() {
        let i = before@.len() - 1 - index;
        assert(before@[i] == pushed@.drop_last()[i]);
    }
}

/// Taking values off moves the locations below them up.
pub proof fn law_drop_moves_locations<Location, V>(
    before: HeterogeneousStack<Location, V>,
    count: nat,
    after: HeterogeneousStack<Location, V>,
    index: nat,
)
    requires
        HeterogeneousStack::drops(before, count, after),
    ensures
        after.location(index) == before.location(index + count),
{
}

/// Taking values off in two goes is taking them off in one.
pub proof fn law_drops_add_up<Location, V>(
    before: HeterogeneousStack<Location, V>,
    first: nat,
    between: HeterogeneousStack<Location, V>,
    second: nat,
    after: HeterogeneousStack<Location, V>,
)
    requires
        HeterogeneousStack::drops(before, first, between),
        HeterogeneousStack::drops(between, second, after),
    ensures
        HeterogeneousStack::drops(before, first + second, after),
{
    let keep = before@.len() - first - second;
    assert(after@ =~= before@.take(keep));
    if second > 0 {
        assert(between@[keep] == before@[keep]);
    }
}

/// Taking no values off leaves a stack as it was.
pub proof fn law_drop_nothing<Location, V>(
    before: HeterogeneousStack<Location, V>,
    after: HeterogeneousStack<Location, V>,
)
    requires
        HeterogeneousStack::drops(before, 0, after),
    ensures
        after@ == before@,
        after.size() == before.size(),
{
    assert(before@.take(before@.len() as int) =~= before@);
}

/// Frames fill a stack from the bottom to the top: the first begins at 0, each ends
/// where the next begins, and the last ends with the stack.
pub proof fn law_frames_follow<Location, V>(stack: HeterogeneousStack<Location, V>, i: int)
    requires
        stack.wf(),
        0 <= i < stack@.len(),
    ensures
        stack@[0].offset == 0,
        i < stack@.len() - 1 ==> entry_end(stack@, stack.size(), i) == stack@[i + 1].offset,
        i == stack@.len() - 1 ==> entry_end(stack@, stack.size(), i) == stack.size(),
        stack@[i].offset < entry_end(stack@, stack.size(), i),
{
    assert(stack@[i].offset + vstd::layout::size_of::<Metadata<Location>>() <= entry_end(
        stack@,
        stack.size(),
        i,
    ));
}

/// A stack has room for a value if and only if what it would grow to can be
/// allocated, metadata taking up bytes.
pub proof fn law_room<Location, V: Holds<T>, T>(
    before: HeterogeneousStack<Location, V>,
    l: Location,
    value: T,
    r: Location,
    pushed: HeterogeneousStack<Location, V>,
)
    requires
        HeterogeneousStack::pushes(before, l, value, r, pushed),
    ensures
        fits::<Location, T>(before.size()) <==> vstd::layout::size_of::<Metadata<Location>>() > 0
            && pushed.size() <= isize::MAX,
{
}

/// Taking all values off leaves what clearing leaves.
pub proof fn law_drop_all_clears<Location, V>(
    before: HeterogeneousStack<Location, V>,
    after: HeterogeneousStack<Location, V>,
)
    requires
        before.wf(),
        HeterogeneousStack::drops(before, before@.len(), after),
    ensures
        after@.len() == 0,
        after.size() == 0,
{
}

/// A stack has at least the bytes of its metadata, in a multiple of their
/// alignment, and it has no bytes if and only if it holds no value.
pub proof fn law_size<Location, V>(stack: HeterogeneousStack<Location, V>)
    requires
        stack.wf(),
    ensures
        stack.size() == 0 <==> stack@.len() == 0,
        stack.size() >= stack@.len() * vstd::layout::size_of::<Metadata<Location>>(),
        stack.size() % vstd::layout::align_of::<Metadata<Location>>() == 0,
{
    if stack@.len() > 0 {
        lemma_offset_at_least(stack@, stack.size(), stack@.len() - 1);
        let last = stack@.len() - 1;
        let bytes = vstd::layout::size_of::<Metadata<Location>>();
        assert(stack@[last].offset + bytes <= entry_end(stack@, stack.size(), last));
        assert(stack@.len() * bytes == last * bytes + bytes) by (nonlinear_arith)
            requires
                last == stack@.len() - 1,
        ;
    }
}

/// All ways to ask whether a stack is empty agree: it holds no value, it has no
/// bytes, and it has no last location.
pub proof fn law_empty<Location, V>(stack: HeterogeneousStack<Location, V>)
    requires
        stack.wf(),
    ensures
        stack@.len() == 0 <==> stack.size() == 0,
        stack@.len() == 0 <==> stack.location(0) is None,
{
    law_size(stack);
}

/// A value is placed at the next offset that is aligned for it, behind the frames
/// below. Its metadata is placed at the next offset that is aligned for that, and
/// ends the stack.
pub proof fn law_values_are_aligned<Location, V: Holds<T>, T>(
    before: HeterogeneousStack<Location, V>,
    l: Location,
    value: T,
    r: Location,
    pushed: HeterogeneousStack<Location, V>,
)
    requires
        HeterogeneousStack::pushes(before, l, value, r, pushed),
    ensures
        ({
            let offset = value_start::<T>(pushed@.last().offset);
            &&& offset % vstd::layout::align_of::<T>() == 0
            &&& before.size() <= offset < before.size() + vstd::layout::align_of::<T>()
            &&& offset + vstd::layout::size_of::<T>() + vstd::layout::size_of::<Metadata<Location>>()
                <= pushed.size()
            &&& pushed.size() < offset + vstd::layout::size_of::<T>() + vstd::layout::align_of::<
                Metadata<Location>,
            >() + vstd::layout::size_of::<Metadata<Location>>()
            &&& (pushed.size() - vstd::layout::size_of::<Metadata<Location>>())
                % vstd::layout::align_of::<Metadata<Location>>() as int == 0
        }),
{
    broadcast use vstd::layout::align_nonzero;

    let align = vstd::layout::align_of::<T>();
    lemma_round_up(before.size(), align);
    lemma_round_up(
        value_start::<T>(before.size()) + vstd::layout::size_of::<T>(),
        vstd::layout::align_of::<Metadata<Location>>(),
    );
}

proof fn lemma_round_up(n: nat, align: nat)
    requires
        align > 0,
    ensures
        round_up(n, align) % align == 0,
        n <= round_up(n, align) < n + align,
{
    vstd::arithmetic::div_mod::lemma_small_mod(0, align);
    lemma_frame_end_aligned(n, align, 0);
}

proof fn lemma_offset_at_least<Location, V>(
    entries: Seq<Entry<Location, V>>,
    size: nat,
    i: int,
)
    requires
        frames_ok(entries, size),
        0 <= i < entries.len(),
    ensures
        entries[i].offset >= i * vstd::layout::size_of::<Metadata<Location>>(),
    decreases i,
{
    if i > 0 {
        lemma_offset_at_least(entries, size, i - 1);
        let bytes = vstd::layout::size_of::<Metadata<Location>>();
        assert(entries[i - 1].offset + bytes <= entry_end(entries, size, i - 1));
        assert(i * bytes == (i - 1) * bytes + bytes) by (nonlinear_arith);
    }
}

/// What is left of the frames after the topmost `count` are gone fills the
/// bytes below the lowest of those.
proof fn lemma_dropping_keeps_frames<Location, V>(
    entries: Seq<Entry<Location, V>>,
    size: nat,
    count: nat,
)
    requires
        frames_ok(entries, size),
        0 < count <= entries.len(),
    ensures
        frames_ok(entries.take(entries.len() - count), entries[entries.len() - count].offset),
{
    let keep = entries.len() - count;
    let kept = entries.take(keep);
    let start = entries[keep].offset;
    lemma_offset_within(entries, size, keep);
    assert forall|i: int| #![trigger kept[i]] 0 <= i < kept.len() implies {
        &&& kept[i].offset % vstd::layout::align_of::<Metadata<Location>>() == 0
        &&& kept[i].offset + vstd::layout::size_of::<Metadata<Location>>() <= entry_end(
            kept,
            start,
            i,
        )
    } by {
        assert(kept[i] == entries[i]);
        assert(entry_end(kept, start, i) == entry_end(entries, size, i));
    }
}

proof fn lemma_offset_within<Location, V>(entries: Seq<Entry<Location, V>>, size: nat, i: int)
    requires
        frames_ok(entries, size),
        0 <= i < entries.len(),
    ensures
        entries[i].offset <= size,
    decreases entries.len() - i,
{
    assert(entries[i].offset <= entry_end(entries, size, i));
    if i + 1 < entries.len() {
        lemma_offset_within(entries, size, i + 1);
    }
}

proof fn lemma_frame_end_aligned(n: nat, align: nat, size: nat)
    requires
        align > 0,
        size % align == 0,
    ensures
        (round_up(n, align) + size) % align == 0,
{
    vstd::arithmetic::div_mod::lemma_fundamental_div_mod(n as int, align as int);
    if n % align != 0 {
        let q = n as int / align as int;
        assert(round_up(n, align) == align * (q + 1)) by (nonlinear_arith)
            requires
                n == align * q + n % align,
                round_up(n, align) == n + (align - n % align),
        ;
        vstd::arithmetic::div_mod::lemma_mod_multiples_basic(q + 1, align as int);
        assert((q + 1) * align == align * (q + 1)) by (nonlinear_arith);
    }
    vstd::arithmetic::div_mod::lemma_add_mod_noop(
        round_up(n, align) as int,
        size as int,
        align as int,
    );
    vstd::arithmetic::div_mod::lemma_small_mod(0, align);
    assert(round_up(n, align) % align == 0);
}

} // verus!
