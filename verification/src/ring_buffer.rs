use vstd::arithmetic::div_mod::{lemma_mod_self_0, lemma_small_mod};
use vstd::prelude::*;

verus! {

/// A queue of bytes in a buffer of fixed size, used in a circle. One slot
/// always stays free, so a buffer of `n` slots holds up to `n - 1` bytes.
pub struct RingBuffer {
    data: Box<[u8]>,
    start: usize,
    end: usize,
}

/// `Vec::into_boxed_slice` turns the vector into a boxed slice with the same
/// items in the same order.
#[verifier::external_body]
fn into_boxed(v: Vec<u8>) -> (b: Box<[u8]>)
    ensures
        b@ == v@,
{
    v.into_boxed_slice()
}

/// An owned slice of `reqsize` zero bytes.
pub fn make_box(reqsize: usize) -> (b: Box<[u8]>)
    ensures
        b@ == Seq::new(reqsize as nat, |i: int| 0u8),
{
    let v: Vec<u8> = vec![0u8; reqsize];
    assert(v@ =~= Seq::new(reqsize as nat, |i: int| 0u8));
    into_boxed(v)
}

/// The slot after slot `i` in a circle of `size` slots.
fn advance(i: usize, size: usize) -> (next: usize)
    requires
        i < size,
    ensures
        next == if i + 1 == size { 0 } else { i + 1 },
{
    proof {
        if i + 1 < size {
            lemma_small_mod((i + 1) as nat, size as nat);
        } else {
            lemma_mod_self_0(size as int);
        }
    }
    (i + 1) % size
}

impl RingBuffer {
    /// Both ends lie within the buffer; a buffer without slots has them at
    /// zero.
    #[verifier::type_invariant]
    spec fn inv(&self) -> bool {
        if self.data@.len() == 0 {
            self.start == 0 && self.end == 0
        } else {
            self.start < self.data@.len() && self.end < self.data@.len()
        }
    }

    /// The number of slots.
    pub closed spec fn size(&self) -> nat {
        self.data@.len()
    }

    /// The bytes in the queue, the oldest first.
    pub closed spec fn view(&self) -> Seq<u8> {
        if self.start <= self.end {
            self.data@.subrange(self.start as int, self.end as int)
        } else {
            self.data@.subrange(self.start as int, self.data@.len() as int) + self.data@.subrange(
                0,
                self.end as int,
            )
        }
    }

    /// An empty queue with `size` slots.
    pub fn new(size: usize) -> (q: RingBuffer)
        ensures
            q.size() == size,
            q@ == Seq::<u8>::empty(),
    {
        RingBuffer { data: make_box(size), start: 0, end: 0 }
    }

    /// Takes the oldest byte out of the queue, or returns `None` when the
    /// queue is empty.
    pub fn read(&mut self) -> (val: Option<u8>)
        ensures
            final(self).size() == old(self).size(),
            old(self)@.len() == 0 ==> val.is_none() && final(self)@ == old(self)@,
            old(self)@.len() > 0 ==> val == Some(old(self)@.first())
                && final(self)@ == old(self)@.drop_first(),
    {
        proof {
            use_type_invariant(&*self);
        }
        if self.start == self.end {
            return None;
        }
        let size = self.data.len();
        let val = self.data[self.start];
        self.start = advance(self.start, size);
        proof {
            assert(self@ =~= old(self)@.drop_first());
        }
        Some(val)
    }

    /// Puts `value` at the end of the queue and returns `true`, or leaves a
    /// full queue as it is and returns `false`.
    pub fn write(&mut self, value: u8) -> (written: bool)
        requires
            old(self).size() > 0,
        ensures
            final(self).size() == old(self).size(),
            written <==> old(self)@.len() + 1 < old(self).size(),
            written ==> final(self)@ == old(self)@.push(value),
            !written ==> final(self)@ == old(self)@,
    {
        proof {
            use_type_invariant(&*self);
        }
        let size = self.data.len();
        let pos = advance(self.end, size);
        if pos == self.start {
            false
        } else {
            self.data[self.end] = value;
            self.end = pos;
            proof {
                assert(self@ =~= old(self)@.push(value));
            }
            true
        }
    }

    /// Whether a `write` would succeed.
    pub fn has_room(&mut self) -> (room: bool)
        requires
            old(self).size() > 0,
        ensures
            *final(self) == *old(self),
            room <==> old(self)@.len() + 1 < old(self).size(),
    {
        proof {
            use_type_invariant(&*self);
        }
        let size = self.data.len();
        advance(self.end, size) != self.start
    }

    /// The oldest byte, which stays in the queue, or `None` when the queue
    /// is empty.
    pub fn peek(&mut self) -> (val: Option<u8>)
        ensures
            *final(self) == *old(self),
            old(self)@.len() == 0 ==> val.is_none(),
            old(self)@.len() > 0 ==> val == Some(old(self)@.first()),
    {
        proof {
            use_type_invariant(&*self);
        }
        if self.start == self.end {
            return None;
        }
        Some(self.data[self.start])
    }

    /// The same as `read`: the queue hands out its bytes one by one.
    pub fn next(&mut self) -> (val: Option<u8>)
        ensures
            final(self).size() == old(self).size(),
            old(self)@.len() == 0 ==> val.is_none() && final(self)@ == old(self)@,
            old(self)@.len() > 0 ==> val == Some(old(self)@.first())
                && final(self)@ == old(self)@.drop_first(),
    {
        self.read()
    }

    /// A queue never holds as many bytes as it has slots.
    pub fn len(&self) -> (n: usize)
        ensures
            n == self@.len(),
            self.size() > 0 ==> n < self.size(),
    {
        proof {
            use_type_invariant(self);
        }
        if self.start <= self.end {
            self.end - self.start
        } else {
            self.data.len() - self.start + self.end
        }
    }
}

} // verus!
