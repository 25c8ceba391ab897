//! A vector of fixed capacity: the backing storage is allocated once and
//! never grows, so a host can hand its contents to a graphics queue as one
//! stable slice.  `push` overwrites the next free slot and `clear` only
//! resets the logical length.

use vstd::prelude::*;

verus! {

pub struct FixedSizeVec<T> where T: Copy {
    pub data: Vec<T>,
    pub length: usize,
}

impl<T> FixedSizeVec<T> where T: Copy {
    /// The slots filled so far.
    pub open spec fn view(self) -> Seq<T> {
        self.data@.subrange(0, self.length as int)
    }

    /// The logical length never passes the fixed capacity.
    pub open spec fn wf(self) -> bool {
        self.length <= self.data.len()
    }

    pub fn new(default: T, capacity: usize) -> (r: Self)
        ensures
            r.wf(),
            r.data@.len() == capacity,
            r@ =~= Seq::<T>::empty(),
    {
        FixedSizeVec { data: vec![default; capacity], length: 0 }
    }

    pub fn push(&mut self, item: T)
        requires
            old(self).wf(),
            old(self).length < old(self).data.len(),
        ensures
            final(self).wf(),
            final(self).data@.len() == old(self).data@.len(),
            final(self)@ =~= old(self)@.push(item),
    {
        self.data[self.length] = item;
        self.length += 1;
        proof {
            assert(self@ =~= old(self)@.push(item));
        }
    }

    pub fn clear(&mut self)
        ensures
            final(self).wf(),
            final(self).data@ == old(self).data@,
            final(self)@ =~= Seq::<T>::empty(),
    {
        self.length = 0;
    }
}

} // verus!
