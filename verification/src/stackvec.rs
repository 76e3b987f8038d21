use vstd::prelude::*;

verus! {

/// A vector of fixed capacity `N`: it never holds more than `N` elements.
#[derive(Debug)]
pub struct StackVec<T: Copy, const N: usize> {
    data: Vec<T>,
}

impl<T: Copy, const N: usize> View for StackVec<T, N> {
    type V = Seq<T>;

    closed spec fn view(&self) -> Seq<T> {
        self.data@
    }
}

impl<T: Copy, const N: usize> StackVec<T, N> {
    #[verifier::type_invariant]
    spec fn inv(self) -> bool {
        self.data@.len() <= N
    }

    pub fn new() -> (s: Self)
        ensures
            s@ == Seq::<T>::empty(),
    {
        StackVec { data: Vec::new() }
    }

    /// Appends `value`; the vector must not be full.
    pub fn push(&mut self, value: T)
        requires
            old(self)@.len() < N,
        ensures
            final(self)@ == old(self)@.push(value),
    {
        let mut data = Vec::new();
        std::mem::swap(&mut data, &mut self.data);
        data.push(value);
        self.data = data;
    }

    /// Removes and returns the last element, or `None` when empty.
    pub fn pop(&mut self) -> (res: Option<T>)
        ensures
            old(self)@.len() == 0 ==> res is None && final(self)@ == old(self)@,
            old(self)@.len() > 0 ==> res == Some(old(self)@.last()) && final(self)@
                == old(self)@.drop_last(),
    {
        proof {
            use_type_invariant(&*self);
        }
        if self.data.len() == 0 {
            return None;
        }
        let mut data = Vec::new();
        std::mem::swap(&mut data, &mut self.data);
        let res = data.pop();
        self.data = data;
        res
    }

    pub fn len(&self) -> (l: usize)
        ensures
            l == self@.len(),
            l <= N,
    {
        proof {
            use_type_invariant(self);
        }
        self.data.len()
    }

    pub fn is_empty(&self) -> (b: bool)
        ensures
            b == (self@.len() == 0),
    {
        self.data.len() == 0
    }

    pub fn capacity(&self) -> (c: usize)
        ensures
            c == N,
    {
        N
    }

    /// Appends every element of `src`; there must be room for all of them.
    pub fn extend_from_slice(&mut self, src: &[T])
        requires
            old(self)@.len() + src@.len() <= N,
        ensures
            final(self)@ == old(self)@ + src@,
    {
        let mut data = Vec::new();
        std::mem::swap(&mut data, &mut self.data);
        let ghost start = data@;
        let mut i: usize = 0;
        while i < src.len()
            invariant
                i <= src@.len(),
                start.len() + src@.len() <= N,
                data@ == start + src@.subrange(0, i as int),
            decreases src@.len() - i,
        {
            data.push(src[i]);
            i = i + 1;
            assert(data@ == start + src@.subrange(0, i as int));
        }
        assert(src@.subrange(0, src@.len() as int) == src@);
        self.data = data;
    }

    /// The elements as a slice (what `iter` and `Deref` walk over).
    pub fn as_slice(&self) -> (s: &[T])
        ensures
            s@ == self@,
    {
        self.data.as_slice()
    }

    /// The element at `idx`, which must be in bounds.
    pub fn index(&self, idx: usize) -> (r: &T)
        requires
            idx < self@.len(),
        ensures
            *r == self@[idx as int],
    {
        &self.data[idx]
    }

    /// Overwrites the element at `idx`, which must be in bounds.
    pub fn set(&mut self, idx: usize, value: T)
        requires
            idx < old(self)@.len(),
        ensures
            final(self)@ == old(self)@.update(idx as int, value),
    {
        proof {
            use_type_invariant(&*self);
        }
        let mut data = Vec::new();
        std::mem::swap(&mut data, &mut self.data);
        data.set(idx, value);
        self.data = data;
    }

    /// A copy holding the same elements.
    pub fn copied(&self) -> (res: Self)
        ensures
            res@ == self@,
    {
        proof {
            use_type_invariant(self);
        }
        let mut res = StackVec::<T, N>::new();
        res.extend_from_slice(self.data.as_slice());
        assert(Seq::<T>::empty() + self.data@ == self.data@);
        res
    }
}

impl<T: Copy, const N: usize> Clone for StackVec<T, N> {
    fn clone(&self) -> (res: Self)
        ensures
            res@ == self@,
    {
        self.copied()
    }
}

impl<T: Copy, const N: usize> Default for StackVec<T, N> {
    fn default() -> (s: Self)
        ensures
            s@ == Seq::<T>::empty(),
    {
        StackVec::new()
    }
}

/// Pushing a value and popping it again gives the value back and restores the contents.
pub proof fn law_push_pop<T>(s: Seq<T>, v: T)
    ensures
        s.push(v).len() > 0,
        s.push(v).last() == v,
        s.push(v).drop_last() == s,
{
    assert(s.push(v).drop_last() =~= s);
}

} // verus!
