use std::ops::{Index, Range, RangeFrom, RangeTo};
use vstd::pervasive::runtime_assert;
use vstd::prelude::*;

pub mod model;

use crate::local_storage_vec::model::Model;
use vstd::std_specs::convert::FromSpecImpl;

verus! {

/// A growable list that keeps up to `N` items inline and moves to the heap
/// when it grows beyond that. Once on the heap it stays there.
#[derive(Debug)]
pub enum LocalStorageVec<T, const N: usize> {
    /// Inline storage: the first `len` slots of `buf` are the items, the
    /// other slots hold values that are never read.
    Stack { buf: [T; N], len: usize },
    /// Heap storage: the vector holds exactly the items.
    Heap(Vec<T>),
}

impl<T, const N: usize> View for LocalStorageVec<T, N> {
    type V = Seq<T>;

    /// The items in order, whichever storage holds them.
    open spec fn view(&self) -> Seq<T> {
        match *self {
            LocalStorageVec::Stack { buf, len } => buf@.subrange(0, len as int),
            LocalStorageVec::Heap(v) => v@,
        }
    }
}

impl<T, const N: usize> LocalStorageVec<T, N> {
    /// Inline storage never counts more items than it has slots.
    pub open spec fn wf(&self) -> bool {
        match *self {
            LocalStorageVec::Stack { buf, len } => len <= N,
            LocalStorageVec::Heap(v) => true,
        }
    }

    /// The items are held inline.
    pub open spec fn on_stack(&self) -> bool {
        *self is Stack
    }

    /// The items are held on the heap.
    pub open spec fn on_heap(&self) -> bool {
        *self is Heap
    }

    /// The list apart from its layout: the items, and whether it is on the
    /// heap.
    pub open spec fn model(&self) -> Model<T> {
        Model { items: self@, heap: *self is Heap }
    }

    /// A well-formed list is a well-formed model of itself.
    pub proof fn lemma_model_wf(&self)
        requires
            self.wf(),
        ensures
            self.model().wf(N as nat),
    {
    }

    /// The number of items.
    pub fn len(&self) -> (n: usize)
        requires
            self.wf(),
        ensures
            n == self@.len(),
    {
        match self {
            LocalStorageVec::Stack { buf: _, len } => *len,
            LocalStorageVec::Heap(v) => v.len(),
        }
    }
}

impl<T: Copy + Default, const N: usize> LocalStorageVec<T, N> {
    /// The empty list, inline: every slot holds a default value.
    pub fn new() -> (v: Self)
        ensures
            v.wf(),
            v.model() =~= Model::<T>::empty(),
            v.padded(),
    {
        LocalStorageVec::Stack { buf: [T::default();N], len: 0 }
    }
}

impl<T: Default, const N: usize> LocalStorageVec<T, N> {
    /// The inline slots that hold no item hold a default value. A list is
    /// made so; later the slots hold what the items left there.
    pub open spec fn padded(&self) -> bool {
        match *self {
            LocalStorageVec::Stack { buf, len } => forall|i: int|
                len <= i < N ==> call_ensures(T::default, (), #[trigger] buf@[i]),
            LocalStorageVec::Heap(v) => true,
        }
    }

    /// Takes all items away. The storage stays what it was.
    pub fn clear(&mut self)
        requires
            old(self).wf(),
        ensures
            final(self).wf(),
            final(self).model() =~= old(self).model().clear(),
    {
        match self {
            LocalStorageVec::Stack { buf: _, len } => *len = 0,
            LocalStorageVec::Heap(v) => v.clear(),
        }
    }
}

impl<T: Clone, const N: usize> LocalStorageVec<T, N> {
    /// Adds `item` at the end. A full inline buffer moves to the heap first,
    /// with its items; nothing else changes the storage.
    pub fn push(&mut self, item: T)
        requires
            old(self).wf(),
        ensures
            final(self).wf(),
            final(self).model() =~= old(self).model().push(N as nat, item),
    {
        let full = match self {
            LocalStorageVec::Stack { buf: _, len } => *len >= N,
            LocalStorageVec::Heap(_) => false,
        };
        if full {
            let mut taken = LocalStorageVec::Heap(Vec::new());
            core::mem::swap(self, &mut taken);
            let mut v = match taken {
                LocalStorageVec::Stack { buf, len: _ } => Vec::from(buf),
                LocalStorageVec::Heap(v) => v,
            };
            v.push(item);
            *self = LocalStorageVec::Heap(v);
        } else {
            match self {
                LocalStorageVec::Stack { buf, len } => {
                    buf[*len] = item;
                    *len += 1;
                },
                LocalStorageVec::Heap(v) => v.push(item),
            }
        }
    }
}

impl<T: Copy, const N: usize> LocalStorageVec<T, N> {
    /// Removes the last item and returns it, or returns `None` when there is
    /// no item. The storage stays what it was.
    pub fn pop(&mut self) -> (item: Option<T>)
        requires
            old(self).wf(),
        ensures
            final(self).wf(),
            item == old(self).model().last(),
            final(self).model() =~= old(self).model().pop(),
    {
        match self {
            LocalStorageVec::Stack { buf, len } => {
                if *len == 0 {
                    None
                } else {
                    *len -= 1;
                    Some(buf[*len])
                }
            },
            LocalStorageVec::Heap(v) => {
                if v.is_empty() {
                    None
                } else {
                    v.pop()
                }
            },
        }
    }
}

/// Moves the items of `buf` at positions `from..to` one slot up, so that
/// they stand at `from + 1..to + 1`. Slots below `from` and above `to` keep
/// what they hold.
fn shift_up<T: Copy, const N: usize>(buf: &mut [T; N], from: usize, to: usize)
    requires
        from <= to < N,
    ensures
        forall|i: int| 0 <= i <= from ==> final(buf)@[i] == old(buf)@[i],
        forall|i: int| from < i <= to ==> final(buf)@[i] == old(buf)@[i - 1],
        forall|i: int| to < i < N ==> final(buf)@[i] == old(buf)@[i],
{
    let mut i: usize = to;
    while i > from
        invariant
            from <= i <= to < N,
            forall|j: int| 0 <= j <= i ==> buf@[j] == old(buf)@[j],
            forall|j: int| i < j <= to ==> buf@[j] == old(buf)@[j - 1],
            forall|j: int| to < j < N ==> buf@[j] == old(buf)@[j],
        decreases i,
    {
        buf[i] = buf[i - 1];
        i -= 1;
    }
}

/// Moves the items of `buf` at positions `from..to` one slot down, so that
/// they stand at `from - 1..to - 1`. Slots below `from - 1` and from
/// `to - 1` on keep what they hold.
fn shift_down<T: Copy, const N: usize>(buf: &mut [T; N], from: usize, to: usize)
    requires
        1 <= from <= to <= N,
    ensures
        forall|i: int| 0 <= i < from - 1 ==> final(buf)@[i] == old(buf)@[i],
        forall|i: int| from - 1 <= i < to - 1 ==> final(buf)@[i] == old(buf)@[i + 1],
        forall|i: int| to - 1 <= i < N ==> final(buf)@[i] == old(buf)@[i],
{
    let mut i: usize = from;
    while i < to
        invariant
            1 <= from <= i <= to <= N,
            forall|j: int| 0 <= j < from - 1 ==> buf@[j] == old(buf)@[j],
            forall|j: int| from - 1 <= j < i - 1 ==> buf@[j] == old(buf)@[j + 1],
            forall|j: int| i - 1 <= j < N ==> buf@[j] == old(buf)@[j],
        decreases to - i,
    {
        buf[i - 1] = buf[i];
        i += 1;
    }
}

impl<T: Copy, const N: usize> LocalStorageVec<T, N> {
    /// Puts `element` at position `index`; the items from `index` on move
    /// one position up. A full inline buffer moves to the heap. Code
    /// outside Verus that calls with an index out of range is stopped by a
    /// panic.
    pub fn insert(&mut self, index: usize, element: T)
        requires
            old(self).wf(),
            index <= old(self)@.len(),
        ensures
            final(self).wf(),
            final(self).model() =~= old(self).model().insert(N as nat, index as int, element),
    {
        let full = match self {
            LocalStorageVec::Stack { buf: _, len } => *len >= N,
            LocalStorageVec::Heap(_) => false,
        };
        if full {
            let mut taken = LocalStorageVec::Heap(Vec::new());
            core::mem::swap(self, &mut taken);
            let mut v = match taken {
                LocalStorageVec::Stack { buf, len: _ } => Vec::from(buf),
                LocalStorageVec::Heap(v) => v,
            };
            v.insert(index, element);
            *self = LocalStorageVec::Heap(v);
        } else {
            match self {
                LocalStorageVec::Stack { buf, len } => {
                    runtime_assert(index <= *len);
                    shift_up(buf, index, *len);
                    *len += 1;
                    buf[index] = element;
                },
                LocalStorageVec::Heap(v) => {
                    v.insert(index, element);
                },
            }
        }
    }

    /// Takes the item at position `index` out and returns it; the items
    /// after it move one position down. The storage stays what it was.
    /// Code outside Verus that calls with an index out of range is stopped
    /// by a panic.
    pub fn remove(&mut self, index: usize) -> (item: T)
        requires
            old(self).wf(),
            index < old(self)@.len(),
        ensures
            final(self).wf(),
            item == old(self)@[index as int],
            final(self).model() =~= old(self).model().remove(index as int),
    {
        match self {
            LocalStorageVec::Stack { buf, len } => {
                runtime_assert(index < *len);
                let removed = buf[index];
                shift_down(buf, index + 1, *len);
                *len -= 1;
                removed
            },
            LocalStorageVec::Heap(v) => v.remove(index),
        }
    }
}

impl<T, const N: usize> From<Vec<T>> for LocalStorageVec<T, N> {
    /// Wraps the vector as it is: what was on the heap stays on the heap,
    /// however short it is.
    fn from(v: Vec<T>) -> (r: Self)
        ensures
            r == LocalStorageVec::<T, N>::Heap(v),
            r.wf(),
            r.model() =~= Model::of_vec(v@),
    {
        LocalStorageVec::Heap(v)
    }
}

impl<T, const N: usize> FromSpecImpl<Vec<T>> for LocalStorageVec<T, N> {
    open spec fn obeys_from_spec() -> bool {
        true
    }

    open spec fn from_spec(v: Vec<T>) -> Self {
        LocalStorageVec::Heap(v)
    }
}

impl<T, const N: usize> AsRef<[T]> for LocalStorageVec<T, N> {
    /// The items as a slice, in order.
    fn as_ref(&self) -> (s: &[T])
        requires
            self.wf(),
        ensures
            s@ == self@,
    {
        match self {
            LocalStorageVec::Stack { buf, len } => vstd::slice::slice_subrange(buf.as_slice(), 0, *len),
            LocalStorageVec::Heap(v) => v.as_slice(),
        }
    }
}

impl<T, const N: usize> AsMut<[T]> for LocalStorageVec<T, N> {
    /// The items as a slice that can be written to: what the slice holds in
    /// the end is what the list holds. The storage stays what it was.
    fn as_mut(&mut self) -> (s: &mut [T])
        requires
            old(self).wf(),
        ensures
            s@ == old(self)@,
            final(self).wf(),
            final(self).on_heap() == old(self).on_heap(),
            final(self)@ == final(s)@,
    {
        match self {
            LocalStorageVec::Stack { buf, len } => {
                let (head, tail) = buf.split_at_mut(*len);
                assert(final(buf)@ == final(head)@ + tail@);
                head
            },
            LocalStorageVec::Heap(v) => v.as_mut_slice(),
        }
    }
}

impl<T, const N: usize> Index<usize> for LocalStorageVec<T, N> {
    type Output = T;

    /// The item at position `idx`, which has to be one.
    fn index(&self, idx: usize) -> (item: &T)
        ensures
            *item == self@[idx as int],
    {
        &self.as_ref()[idx]
    }
}

impl<T, const N: usize> vstd::std_specs::core::IndexSpecImpl<usize> for LocalStorageVec<T, N> {
    open spec fn index_req(&self, index: &usize) -> bool {
        self.wf() && *index < self@.len()
    }
}

impl<T, const N: usize> Index<Range<usize>> for LocalStorageVec<T, N> {
    type Output = [T];

    /// The items at the positions of `range`, which has to lie within the
    /// list.
    fn index(&self, range: Range<usize>) -> (items: &[T])
        ensures
            items@ == self@.subrange(range.start as int, range.end as int),
    {
        vstd::slice::slice_subrange(self.as_ref(), range.start, range.end)
    }
}

impl<T, const N: usize> vstd::std_specs::core::IndexSpecImpl<Range<usize>> for LocalStorageVec<T, N> {
    open spec fn index_req(&self, index: &Range<usize>) -> bool {
        self.wf() && index.start <= index.end <= self@.len()
    }
}

/// The range `start..` of std: an open end, and a public `start`.
#[verifier::external_type_specification]
#[verifier::reject_recursive_types(Idx)]
pub struct ExRangeFrom<Idx>(RangeFrom<Idx>);

/// The range `..end` of std: an open start, and a public `end`.
#[verifier::external_type_specification]
#[verifier::reject_recursive_types(Idx)]
pub struct ExRangeTo<Idx>(RangeTo<Idx>);

impl<T, const N: usize> Index<RangeFrom<usize>> for LocalStorageVec<T, N> {
    type Output = [T];

    /// The items from position `range.start` on.
    fn index(&self, range: RangeFrom<usize>) -> (items: &[T])
        ensures
            items@ == self@.subrange(range.start as int, self@.len() as int),
    {
        let all = self.as_ref();
        vstd::slice::slice_subrange(all, range.start, all.len())
    }
}

impl<T, const N: usize> vstd::std_specs::core::IndexSpecImpl<RangeFrom<usize>> for LocalStorageVec<T, N> {
    open spec fn index_req(&self, index: &RangeFrom<usize>) -> bool {
        self.wf() && index.start <= self@.len()
    }
}

impl<T, const N: usize> Index<RangeTo<usize>> for LocalStorageVec<T, N> {
    type Output = [T];

    /// The items before position `range.end`.
    fn index(&self, range: RangeTo<usize>) -> (items: &[T])
        ensures
            items@ == self@.subrange(0, range.end as int),
    {
        vstd::slice::slice_subrange(self.as_ref(), 0, range.end)
    }
}

impl<T, const N: usize> vstd::std_specs::core::IndexSpecImpl<RangeTo<usize>> for LocalStorageVec<T, N> {
    open spec fn index_req(&self, index: &RangeTo<usize>) -> bool {
        self.wf() && index.end <= self@.len()
    }
}

/// `Vec::from` on an array allocates a vector and moves the array's items
/// into it, in order.
pub assume_specification<T, const N: usize>[ <Vec<T> as From<[T; N]>>::from ](array: [T; N]) -> (v:
    Vec<T>)
    ensures
        v@ == array@,
;

/// An array made by `core::array::from_fn`, which calls the function that
/// it is given once for each slot: here `T::default`, so that every slot
/// holds a value that `T::default` returned.
#[verifier::external_body]
fn default_filled<T: Default, const M: usize>() -> (buf: [T; M])
    ensures
        forall|i: int| 0 <= i < M ==> call_ensures(T::default, (), #[trigger] buf@[i]),
{
    core::array::from_fn(|_| T::default())
}

impl<T, const N: usize, const M: usize> From<[T; N]> for LocalStorageVec<T, M> where T: Default {
    /// Takes the items of `array` in order. They stay inline when all `N`
    /// fit into the `M` slots, with default values in the slots that are
    /// left, and go to the heap otherwise.
    fn from(array: [T; N]) -> (r: Self)
        ensures
            r.wf(),
            r.model() =~= Model::of_array(array@, M as nat),
            r.padded(),
    {
        let mut items: Vec<T> = Vec::from(array);
        if N <= M {
            let mut buf: [T; M] = default_filled();
            let mut i: usize = N;
            while i > 0
                invariant
                    i <= N <= M,
                    items@ == array@.subrange(0, i as int),
                    forall|j: int| i <= j < N ==> buf@[j] == array@[j],
                    forall|j: int| N <= j < M ==> call_ensures(T::default, (), #[trigger] buf@[j]),
                decreases i,
            {
                i -= 1;
                match items.pop() {
                    Some(item) => {
                        buf[i] = item;
                    },
                    None => {},
                }
            }
            LocalStorageVec::Stack { buf, len: N }
        } else {
            LocalStorageVec::Heap(items)
        }
    }
}

impl<T, const N: usize, const M: usize> FromSpecImpl<[T; N]> for LocalStorageVec<T, M> where T: Default {
    /// The slots beyond the items hold whatever `T::default()` returns, so
    /// no spec function gives the value itself: `from` states what it holds.
    open spec fn obeys_from_spec() -> bool {
        false
    }

    open spec fn from_spec(array: [T; N]) -> Self {
        choose|r: Self| r.wf() && r.padded() && r.model() =~= Model::of_array(array@, M as nat)
    }
}

impl<T, const N: usize> LocalStorageVec<T, N> {
    /// Gives the list away to an iterator over its items.
    pub fn into_iter(self) -> (iter: LocalStorageVecIter<T, N>)
        requires
            self.wf(),
        ensures
            iter.items() == self@,
            iter.position() == 0,
    {
        LocalStorageVecIter::new(self)
    }
}

/// Walks over the items of a list that it owns, from the first to the last.
pub struct LocalStorageVecIter<T, const N: usize> {
    vec: LocalStorageVec<T, N>,
    counter: usize,
}

impl<T, const N: usize> LocalStorageVecIter<T, N> {
    /// The list is well-formed and the position is within it, or at its end.
    #[verifier::type_invariant]
    spec fn inv(&self) -> bool {
        self.vec.wf() && self.counter <= self.vec@.len()
    }

    /// The items of the list that is walked over.
    pub closed spec fn items(&self) -> Seq<T> {
        self.vec@
    }

    /// The position of the item that comes next; the number of items when
    /// none is left.
    pub closed spec fn position(&self) -> nat {
        self.counter as nat
    }

    /// Starts before the first item.
    pub fn new(vec: LocalStorageVec<T, N>) -> (iter: Self)
        requires
            vec.wf(),
        ensures
            iter.items() == vec@,
            iter.position() == 0,
    {
        Self { vec, counter: 0 }
    }
}

impl<T: Copy, const N: usize> LocalStorageVecIter<T, N> {
    /// Hands out the item at the position and moves one on, or returns
    /// `None` at the end.
    pub fn next(&mut self) -> (item: Option<T>)
        ensures
            old(self).position() <= old(self).items().len(),
            final(self).items() == old(self).items(),
            old(self).position() < old(self).items().len() ==> item == Some(
                old(self).items()[old(self).position() as int],
            ) && final(self).position() == old(self).position() + 1,
            old(self).position() >= old(self).items().len() ==> item.is_none()
                && final(self).position() == old(self).position(),
    {
        proof {
            use_type_invariant(&*self);
        }
        if self.counter == self.vec.len() {
            return None;
        }
        let ret = self.vec.as_ref()[self.counter];
        self.counter += 1;
        Some(ret)
    }

    /// How many items are left, as a lower and an upper bound: the number
    /// of items handed out so far, as long as no fewer are left, and the
    /// number of items in all.
    pub fn size_hint(&self) -> (hint: (usize, Option<usize>))
        ensures
            self.position() <= self.items().len() <= usize::MAX,
            hint.0 == if self.position() <= self.items().len() - self.position() {
                self.position() as int
            } else {
                self.items().len() - self.position()
            },
            hint.1 == Some(self.items().len() as usize),
            hint.0 <= self.items().len() - self.position() <= self.items().len(),
    {
        proof {
            use_type_invariant(self);
        }
        let len = self.vec.len();
        let left = len - self.counter;
        let lower = if self.counter <= left {
            self.counter
        } else {
            left
        };
        (lower, Some(len))
    }

    /// Skips `n` items and hands out the one that comes then, so that it
    /// takes `n + 1` items in all: the next call goes on behind the item
    /// that was handed out. Where fewer than `n + 1` items are left it goes
    /// to the end and returns `None`.
    pub fn nth(&mut self, n: usize) -> (item: Option<T>)
        ensures
            old(self).position() <= old(self).items().len(),
            final(self).items() == old(self).items(),
            old(self).position() + n < old(self).items().len() ==> item == Some(
                old(self).items()[old(self).position() + n],
            ) && final(self).position() == old(self).position() + n + 1,
            old(self).position() + n >= old(self).items().len() ==> item.is_none()
                && final(self).position() == old(self).items().len(),
    {
        proof {
            use_type_invariant(&*self);
        }
        let len = self.vec.len();
        if n >= len - self.counter {
            self.counter = len;
            return None;
        }
        self.counter += n;
        let ret = self.vec.as_ref()[self.counter];
        self.counter += 1;
        Some(ret)
    }
}

} // verus!
