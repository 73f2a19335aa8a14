use vstd::prelude::*;
use std::collections::VecDeque;
use crate::matrix::Matrix;

verus! {

/// A fixed-length history after each sample of `incoming`, in order, was
/// pushed at the back and one sample was dropped at the front: the last
/// `history.len()` samples of the two put together.
pub open spec fn slide<T>(history: Seq<T>, incoming: Seq<T>) -> Seq<T> {
    (history + incoming).subrange(incoming.len() as int, (history.len() + incoming.len()) as int)
}

/// A multi-channel history after a batch was appended: each channel slid by
/// the batch's samples of that channel.
pub open spec fn appended<T>(history: Seq<Seq<T>>, batch: Seq<Seq<T>>) -> Seq<Seq<T>> {
    Seq::new(history.len(), |c: int| slide(history[c], batch[c]))
}

/// A multi-channel history after the given batches were appended in order.
pub open spec fn appended_all<T>(history: Seq<Seq<T>>, batches: Seq<Seq<Seq<T>>>) -> Seq<
    Seq<T>,
>
    decreases batches.len(),
{
    if batches.len() == 0 {
        history
    } else {
        appended(appended_all(history, batches.drop_last()), batches.last())
    }
}

/// Every channel of the history holds exactly `len` samples.
pub open spec fn all_rows_len<T>(history: Seq<Seq<T>>, len: nat) -> bool {
    forall|c: int| 0 <= c < history.len() ==> #[trigger] history[c].len() == len
}

/// A history of fixed length for each channel: appending a sample drops the
/// oldest one, so each channel always holds the most recent `len` samples,
/// oldest first.
#[derive(Debug, Clone)]
pub struct MatrixFixed<T> {
    inner: Vec<VecDeque<T>>,
    len: usize,
    channel: usize,
}

impl<T> View for MatrixFixed<T> {
    type V = Seq<Seq<T>>;

    closed spec fn view(&self) -> Seq<Seq<T>> {
        self.inner@.map_values(|row: VecDeque<T>| row@)
    }
}

impl<T: Copy> MatrixFixed<T> {
    /// Length of each channel, fixed at construction.
    pub closed spec fn spec_len(&self) -> nat {
        self.len as nat
    }

    /// Number of channels, fixed at construction.
    pub closed spec fn spec_channel(&self) -> nat {
        self.channel as nat
    }

    /// There are `spec_channel()` channels of `spec_len()` samples each.
    pub open spec fn wf(&self) -> bool {
        &&& self@.len() == self.spec_channel()
        &&& all_rows_len(self@, self.spec_len())
    }

    /// A history of `channel` channels of `len` samples, all equal to `fill`.
    pub fn new_filled(len: usize, channel: usize, fill: T) -> (r: MatrixFixed<T>)
        ensures
            r.wf(),
            r.spec_len() == len,
            r.spec_channel() == channel,
            forall|c: int, i: int| 0 <= c < channel && 0 <= i < len ==> #[trigger] r@[c][i] == fill,
    {
        let mut inner: Vec<VecDeque<T>> = Vec::with_capacity(channel);
        let mut c: usize = 0;
        while c < channel
            invariant
                c <= channel,
                inner@.len() == c,
                forall|k: int| 0 <= k < c ==> #[trigger] inner@[k]@ == Seq::new(len as nat, |i: int| fill),
            decreases channel - c,
        {
            let mut row: VecDeque<T> = VecDeque::with_capacity(len);
            let mut i: usize = 0;
            while i < len
                invariant
                    i <= len,
                    row@ == Seq::new(i as nat, |j: int| fill),
                decreases len - i,
            {
                row.push_back(fill);
                i += 1;
                assert(row@ =~= Seq::new(i as nat, |j: int| fill));
            }
            inner.push(row);
            c += 1;
        }
        MatrixFixed { inner, len, channel }
    }

    /// Number of channels.
    pub fn channel(&self) -> (r: usize)
        ensures
            r == self.spec_channel(),
    {
        self.channel
    }

    /// Number of samples kept for each channel.
    pub fn len(&self) -> (r: usize)
        ensures
            r == self.spec_len(),
    {
        self.len
    }

    /// The channels, each oldest sample first.
    pub fn data(&self) -> (r: &Vec<VecDeque<T>>)
        ensures
            r@.map_values(|row: VecDeque<T>| row@) == self@,
    {
        &self.inner
    }

    /// Pushes every sample of each channel of `matrix`, in order, at the back of
    /// that channel's history, dropping the oldest sample for each one.
    pub fn append(&mut self, matrix: Matrix<T>)
        requires
            old(self).wf(),
            matrix.wf(),
            matrix@.len() == old(self).spec_channel(),
        ensures
            final(self).wf(),
            final(self).spec_len() == old(self).spec_len(),
            final(self).spec_channel() == old(self).spec_channel(),
            final(self)@ == appended(old(self)@, matrix@),
    {
        let batch = matrix.data();
        let ghost orig = self@;
        let mut rest: Vec<VecDeque<T>> = Vec::new();
        std::mem::swap(&mut self.inner, &mut rest);
        let mut done: Vec<VecDeque<T>> = Vec::with_capacity(self.channel);
        let mut c: usize = 0;
        while c < self.channel
            invariant
                c <= self.channel,
                self.channel == orig.len(),
                all_rows_len(orig, self.len as nat),
                batch@.len() == orig.len(),
                batch@.map_values(|row: Vec<T>| row@) == matrix@,
                rest@.len() == orig.len() - c,
                forall|k: int| 0 <= k < rest@.len() ==> #[trigger] rest@[k]@ == orig[k + c],
                done@.len() == c,
                forall|k: int|
                    0 <= k < c ==> #[trigger] done@[k]@ == slide(orig[k], matrix@[k]),
            decreases self.channel - c,
        {
            let mut row = rest.remove(0);
            assert(row@ == orig[c as int]);
            let samples = &batch[c];
            assert(samples@ == matrix@[c as int]);
            let mut i: usize = 0;
            while i < samples.len()
                invariant
                    i <= samples@.len(),
                    row@ == slide(orig[c as int], samples@.take(i as int)),
                decreases samples@.len() - i,
            {
                proof {
                    lemma_slide_push(orig[c as int], samples@.take(i as int), samples@[i as int]);
                    assert(samples@.take(i as int).push(samples@[i as int]) =~= samples@.take(i + 1));
                }
                row.push_back(samples[i]);
                row.pop_front();
                i += 1;
            }
            assert(samples@.take(samples@.len() as int) =~= samples@);
            done.push(row);
            c += 1;
            assert forall|k: int| 0 <= k < rest@.len() implies #[trigger] rest@[k]@ == orig[k + c] by {
                assert(rest@[k]@ == orig[k + c]);
            }
        }
        self.inner = done;
        proof {
            assert forall|k: int| 0 <= k < self@.len() implies #[trigger] self@[k].len() == self.len by {
                lemma_slide_len(orig[k], matrix@[k]);
            }
        }
        assert(self@ =~= appended(orig, matrix@));
    }
}

impl<T: Copy + Default> MatrixFixed<T> {
    /// A history of `channel` channels of `len` samples, all equal to the
    /// type's default value.
    pub fn new(len: usize, channel: usize) -> (r: MatrixFixed<T>)
        ensures
            r.wf(),
            r.spec_len() == len,
            r.spec_channel() == channel,
            forall|c: int, i: int|
                0 <= c < channel && 0 <= i < len ==> call_ensures(T::default, (), #[trigger] r@[c][i]),
    {
        let d = T::default();
        Self::new_filled(len, channel, d)
    }
}

/// However many batches with the history's channel count are appended, every
/// channel keeps exactly the length it had.
pub proof fn lemma_lengths_kept<T>(history: Seq<Seq<T>>, len: nat, batches: Seq<Seq<Seq<T>>>)
    requires
        all_rows_len(history, len),
        forall|b: int| 0 <= b < batches.len() ==> (#[trigger] batches[b]).len() == history.len(),
    ensures
        appended_all(history, batches).len() == history.len(),
        all_rows_len(appended_all(history, batches), len),
    decreases batches.len(),
{
    if batches.len() > 0 {
        let front = batches.drop_last();
        assert forall|b: int| 0 <= b < front.len() implies (#[trigger] front[b]).len()
            == history.len() by {
            assert(front[b] == batches[b]);
        }
        lemma_lengths_kept(history, len, front);
        let before = appended_all(history, front);
        assert forall|c: int| 0 <= c < history.len() implies #[trigger] appended(
            before,
            batches.last(),
        )[c].len() == len by {
            lemma_slide_len(before[c], batches.last()[c]);
        }
    }
}

/// Appending `k` samples to a channel holding `[a_1 ... a_len]`, with
/// `k <= len`, gives `[a_(k+1) ... a_len, new_1 ... new_k]`.
pub proof fn lemma_fifo_eviction<T>(history: Seq<T>, incoming: Seq<T>)
    requires
        incoming.len() <= history.len(),
    ensures
        slide(history, incoming) == history.subrange(incoming.len() as int, history.len() as int)
            + incoming,
{
    assert(slide(history, incoming) =~= history.subrange(
        incoming.len() as int,
        history.len() as int,
    ) + incoming);
}

/// Sliding samples through a history keeps its length.
pub proof fn lemma_slide_len<T>(history: Seq<T>, incoming: Seq<T>)
    ensures
        slide(history, incoming).len() == history.len(),
{
}

proof fn lemma_slide_push<T>(history: Seq<T>, incoming: Seq<T>, x: T)
    ensures
        slide(history, incoming.push(x)) == slide(history, incoming).push(x).subrange(
            1,
            history.len() + 1 as int,
        ),
{
    assert(slide(history, incoming.push(x)) =~= slide(history, incoming).push(x).subrange(
        1,
        history.len() + 1 as int,
    ));
}

} // verus!
