use vstd::prelude::*;
use std::collections::VecDeque;
use crate::ring::slide;

verus! {

/// The most recent mono samples, as many as the transform size: each new
/// sample drops the oldest one.
#[derive(Debug, Clone)]
pub struct SpectrumBuffer<T> {
    data: VecDeque<T>,
}

impl<T> View for SpectrumBuffer<T> {
    type V = Seq<T>;

    closed spec fn view(&self) -> Seq<T> {
        self.data@
    }
}

impl<T: Copy> SpectrumBuffer<T> {
    /// A window of `size` samples, all equal to `fill`.
    pub fn new_filled(size: usize, fill: T) -> (r: SpectrumBuffer<T>)
        ensures
            r@ == Seq::new(size as nat, |i: int| fill),
    {
        let mut data: VecDeque<T> = VecDeque::with_capacity(size);
        let mut i: usize = 0;
        while i < size
            invariant
                i <= size,
                data@ == Seq::new(i as nat, |j: int| fill),
            decreases size - i,
        {
            data.push_back(fill);
            i += 1;
            assert(data@ =~= Seq::new(i as nat, |j: int| fill));
        }
        SpectrumBuffer { data }
    }

    /// Number of samples in the window.
    pub fn len(&self) -> (r: usize)
        ensures
            r == self@.len(),
    {
        self.data.len()
    }

    /// Pushes each sample, in order, at the back of the window and drops the
    /// oldest sample for each one.
    pub fn append(&mut self, samples: &[T])
        ensures
            final(self)@ == slide(old(self)@, samples@),
            final(self)@.len() == old(self)@.len(),
    {
        let ghost orig = self@;
        let mut i: usize = 0;
        while i < samples.len()
            invariant
                i <= samples@.len(),
                self@ == slide(orig, samples@.take(i as int)),
            decreases samples@.len() - i,
        {
            proof {
                assert(slide(orig, samples@.take(i + 1)) =~= slide(
                    orig,
                    samples@.take(i as int),
                ).push(samples@[i as int]).subrange(1, orig.len() + 1 as int));
            }
            self.data.push_back(samples[i]);
            self.data.pop_front();
            i += 1;
        }
        assert(samples@.take(samples@.len() as int) =~= samples@);
    }

    /// A copy of the window, oldest sample first.
    pub fn snapshot(&self) -> (r: Vec<T>)
        ensures
            r@ == self@,
    {
        let mut out: Vec<T> = Vec::with_capacity(self.data.len());
        let mut i: usize = 0;
        while i < self.data.len()
            invariant
                i <= self@.len(),
                out@ == self@.take(i as int),
            decreases self@.len() - i,
        {
            out.push(self.data[i]);
            i += 1;
            assert(out@ =~= self@.take(i as int));
        }
        assert(self@.take(self@.len() as int) =~= self@);
        out
    }
}

impl<T: Copy + Default> SpectrumBuffer<T> {
    /// A window of `size` samples, all equal to the type's default value.
    pub fn new(size: usize) -> (r: SpectrumBuffer<T>)
        ensures
            r@.len() == size,
            forall|i: int| 0 <= i < size ==> call_ensures(T::default, (), #[trigger] r@[i]),
    {
        Self::new_filled(size, T::default())
    }
}

} // verus!
