//! A double-ended queue over a growable buffer.
//!
//! The front of the deque is index 0 of its view; the back is the last index.

use vstd::prelude::*;
use vstd::std_specs::cmp::PartialEqSpec;

verus! {

/// Which edge of a [`Deque`] an operation works on.
#[derive(Clone, Copy, Debug, PartialEq, Eq)]
pub enum Position {
    /// The bottom of the stack: index 0.
    FRONT,
    /// The top of the stack: the last index.
    BACK,
}

/// A buffer that takes and yields entries on both sides.
#[derive(Debug)]
pub struct Deque<T> {
    buffer: Vec<T>,
    allocation_size: usize,
}

/// Rotates a vector that is not empty by one place to the right: the last
/// entry becomes the first.
fn rotate_right_one<T>(v: &mut Vec<T>)
    requires
        old(v)@.len() >= 1,
    ensures
        final(v)@ == seq![old(v)@.last()] + old(v)@.drop_last(),
{
    match v.pop() {
        Some(last) => {
            v.insert(0, last);
            assert(v@ =~= seq![old(v)@.last()] + old(v)@.drop_last());
        },
        None => {},
    }
}

impl<T> View for Deque<T> {
    type V = Seq<T>;

    closed spec fn view(&self) -> Seq<T> {
        self.buffer@
    }
}

/// What `dequeue` at the front leaves behind: the last entry moves to the
/// front and the entry that was next to last is taken out.
pub open spec fn front_rest<T>(s: Seq<T>) -> Seq<T>
    recommends
        s.len() >= 1,
{
    (seq![s.last()] + s.drop_last()).drop_last()
}

/// The entry that `dequeue` at the front hands out.
pub open spec fn front_taken<T>(s: Seq<T>) -> T
    recommends
        s.len() >= 1,
{
    (seq![s.last()] + s.drop_last()).last()
}

impl<T: Clone + PartialEq> Deque<T> {
    /// The number of entries by which the buffer grows.
    pub closed spec fn allocation(&self) -> usize {
        self.allocation_size
    }

    /// An empty deque that grows by 250 entries at a time.
    pub fn new() -> (d: Self)
        ensures
            d@ == Seq::<T>::empty(),
            d.allocation() == 250,
    {
        Self { buffer: Vec::with_capacity(250), allocation_size: 250 }
    }

    /// An empty deque that grows by `size` entries at a time.
    pub fn with_allocation(size: usize) -> (d: Self)
        ensures
            d@ == Seq::<T>::empty(),
            d.allocation() == size,
    {
        Self { buffer: Vec::with_capacity(size), allocation_size: size }
    }

    /// Makes room for another block of entries when the buffer holds a whole
    /// number of blocks. The contents do not change.
    fn resize(&mut self)
        requires
            old(self).allocation() > 0,
        ensures
            final(self)@ == old(self)@,
            final(self).allocation() == old(self).allocation(),
    {
        if self.buffer.len() % self.allocation_size == 0 {
            self.buffer.reserve(self.allocation_size);
        }
    }

    /// The index of the first entry equal to `entry`, if there is one.
    pub fn find_entry(&self, entry: T) -> (r: Option<usize>)
        ensures
            T::obeys_eq_spec() ==> match r {
                Some(i) => i < self@.len() && self@[i as int].eq_spec(&entry) && forall|j: int|
                    0 <= j < i ==> !(#[trigger] self@[j]).eq_spec(&entry),
                None => forall|j: int| 0 <= j < self@.len() ==> !(#[trigger] self@[j]).eq_spec(&entry),
            },
    {
        let mut i: usize = 0;
        while i < self.buffer.len()
            invariant
                i <= self.buffer.len(),
                T::obeys_eq_spec() ==> forall|j: int|
                    0 <= j < i ==> !(#[trigger] self.buffer@[j]).eq_spec(&entry),
            decreases self.buffer.len() - i,
        {
            if self.buffer[i] == entry {
                return Some(i);
            }
            i += 1;
        }
        None
    }

    /// Takes the entry at `index` out; later entries move down by one.
    pub fn remove(&mut self, index: usize)
        requires
            index < old(self)@.len(),
        ensures
            final(self)@ == old(self)@.remove(index as int),
            final(self).allocation() == old(self).allocation(),
    {
        self.buffer.remove(index);
    }

    /// The number of entries.
    pub fn len(&self) -> (n: usize)
        ensures
            n == self@.len(),
    {
        self.buffer.len()
    }

    /// A copy of the entries, front first.
    pub fn to_vec(&self) -> (v: Vec<T>)
        ensures
            v@.len() == self@.len(),
            forall|i: int| 0 <= i < self@.len() ==> cloned::<T>(#[trigger] self@[i], v@[i]),
    {
        self.buffer.clone()
    }

    /// Puts `item` at the front.
    pub fn push_front(&mut self, item: T)
        requires
            old(self).allocation() > 0,
        ensures
            final(self)@ == seq![item] + old(self)@,
            final(self).allocation() == old(self).allocation(),
    {
        self.resize();
        self.buffer.push(item);
        rotate_right_one(&mut self.buffer);
        assert(self.buffer@ =~= seq![item] + old(self).buffer@);
    }

    /// Puts `item` at the back.
    pub fn push_back(&mut self, item: T)
        requires
            old(self).allocation() > 0,
        ensures
            final(self)@ == old(self)@.push(item),
            final(self).allocation() == old(self).allocation(),
    {
        self.resize();
        self.buffer.push(item);
    }

    /// Whether the deque holds no entry.
    pub fn is_empty(&self) -> (b: bool)
        ensures
            b == (self@.len() == 0),
    {
        self.buffer.len() == 0
    }

    /// The entry at the back.
    pub fn get_top(&self) -> (top: &T)
        requires
            self@.len() > 0,
        ensures
            *top == self@.last(),
    {
        &self.buffer[self.buffer.len() - 1]
    }

    /// Puts `item` at the edge that `pos` names.
    pub fn queue(&mut self, item: T, pos: Position)
        requires
            old(self).allocation() > 0,
        ensures
            final(self)@ == match pos {
                Position::FRONT => seq![item] + old(self)@,
                Position::BACK => old(self)@.push(item),
            },
            final(self).allocation() == old(self).allocation(),
    {
        match pos {
            Position::FRONT => {
                self.push_front(item);
            },
            Position::BACK => {
                self.push_back(item);
            },
        }
    }

    /// Takes an entry out. At the back this is the last entry, or nothing when
    /// the deque is empty. At the front the buffer is first rotated one place
    /// to the right and the entry then at the back is taken: with two or more
    /// entries that is the one that was next to last.
    pub fn dequeue(&mut self, pos: Position) -> (r: Option<T>)
        requires
            pos is FRONT ==> old(self)@.len() >= 1,
        ensures
            final(self).allocation() == old(self).allocation(),
            match pos {
                Position::FRONT => r == Some(front_taken(old(self)@)) && final(self)@ == front_rest(
                    old(self)@,
                ),
                Position::BACK => if old(self)@.len() == 0 {
                    r.is_none() && final(self)@ == old(self)@
                } else {
                    r == Some(old(self)@.last()) && final(self)@ == old(self)@.drop_last()
                },
            },
    {
        match pos {
            Position::FRONT => {
                rotate_right_one(&mut self.buffer);
                self.buffer.pop()
            },
            Position::BACK => self.buffer.pop(),
        }
    }
}

} // verus!
