use vstd::prelude::*;

verus! {

/// Number of frames (samples per channel) of a multi-channel batch; a batch
/// with no channel has none.
pub open spec fn frames_of<T>(m: Seq<Seq<T>>) -> nat {
    if m.len() == 0 {
        0
    } else {
        m[0].len()
    }
}

/// Every channel of the batch holds the same number of samples.
pub open spec fn is_rectangular<T>(m: Seq<Seq<T>>) -> bool {
    forall|c: int| 0 <= c < m.len() ==> #[trigger] m[c].len() == frames_of(m)
}

/// Number of whole chunks of `size` frames in a batch; a trailing partial
/// chunk is not counted.
pub open spec fn chunk_count<T>(m: Seq<Seq<T>>, size: nat) -> nat {
    if m.len() == 0 || size == 0 {
        0
    } else {
        frames_of(m) / size
    }
}

/// The `k`-th chunk of `size` frames: frames `k * size` up to `(k + 1) * size`
/// of every channel.
pub open spec fn chunk_at<T>(m: Seq<Seq<T>>, size: nat, k: int) -> Seq<Seq<T>> {
    m.map_values(|row: Seq<T>| row.subrange(k * size, k * size + size))
}

/// The whole chunks of a batch, in order.
pub open spec fn chunks_of<T>(m: Seq<Seq<T>>, size: nat) -> Seq<Seq<Seq<T>>> {
    Seq::new(chunk_count(m, size), |k: int| chunk_at(m, size, k))
}

/// Channel `c` of each batch of a sequence of batches.
pub open spec fn channel_across<T>(batches: Seq<Seq<Seq<T>>>, c: int) -> Seq<Seq<T>> {
    batches.map_values(|b: Seq<Seq<T>>| b[c])
}

/// The channels of each batch of a sequence of batches.
pub open spec fn views_of<T>(batches: Seq<Matrix<T>>) -> Seq<Seq<Seq<T>>> {
    Seq::new(batches.len(), |k: int| batches[k]@)
}

/// One multi-channel batch of samples: a sequence of channels, each a sequence
/// of samples in arrival order.
#[derive(Debug, Clone)]
pub struct Matrix<T> {
    inner: Vec<Vec<T>>,
}

impl<T> View for Matrix<T> {
    type V = Seq<Seq<T>>;

    closed spec fn view(&self) -> Seq<Seq<T>> {
        self.inner@.map_values(|row: Vec<T>| row@)
    }
}

impl<T: Copy> Matrix<T> {
    /// All channels hold the same number of samples.
    pub open spec fn wf(&self) -> bool {
        is_rectangular(self@)
    }

    /// Wraps the given channels into a batch.
    pub fn init(inner: Vec<Vec<T>>) -> (r: Matrix<T>)
        ensures
            r@ == inner@.map_values(|row: Vec<T>| row@),
    {
        Matrix { inner }
    }

    /// The channels of the batch.
    pub fn data(&self) -> (r: &Vec<Vec<T>>)
        ensures
            r@.map_values(|row: Vec<T>| row@) == self@,
    {
        &self.inner
    }

    /// Number of channels.
    pub fn channel(&self) -> (r: usize)
        ensures
            r == self@.len(),
    {
        self.inner.len()
    }

    /// Number of frames, that is samples per channel.
    pub fn frames(&self) -> (r: usize)
        requires
            self.wf(),
        ensures
            r == frames_of(self@),
    {
        if self.inner.len() == 0 {
            0
        } else {
            self.inner[0].len()
        }
    }

    /// Whether all channels hold the same number of samples.
    pub fn is_rectangular(&self) -> (r: bool)
        ensures
            r == self.wf(),
    {
        if self.inner.len() == 0 {
            return true;
        }
        let n = self.inner[0].len();
        let mut c: usize = 1;
        while c < self.inner.len()
            invariant
                1 <= c <= self.inner.len(),
                n == self@[0].len(),
                forall|i: int| 0 <= i < c ==> #[trigger] self@[i].len() == n,
            decreases self.inner.len() - c,
        {
            if self.inner[c].len() != n {
                assert(self@[c as int].len() != frames_of(self@));
                return false;
            }
            c += 1;
        }
        true
    }

    /// Frames `start` up to `start + len` of every channel.
    fn frame_range(&self, start: usize, len: usize) -> (r: Matrix<T>)
        requires
            self.wf(),
            start + len <= frames_of(self@),
        ensures
            r@ == self@.map_values(|row: Seq<T>| row.subrange(start as int, start + len)),
    {
        let mut rows: Vec<Vec<T>> = Vec::new();
        let mut c: usize = 0;
        while c < self.inner.len()
            invariant
                self.wf(),
                start + len <= frames_of(self@),
                c <= self.inner.len(),
                rows@.len() == c,
                forall|i: int|
                    0 <= i < c ==> #[trigger] rows@[i]@ == self@[i].subrange(
                        start as int,
                        start + len,
                    ),
            decreases self.inner.len() - c,
        {
            let src = &self.inner[c];
            assert(src@ == self@[c as int]);
            let n = src.len();
            let mut row: Vec<T> = Vec::with_capacity(len);
            let mut j: usize = 0;
            while j < len
                invariant
                    j <= len,
                    n == src@.len(),
                    start + len <= n,
                    row@ == src@.subrange(start as int, start + j),
                decreases len - j,
            {
                row.push(src[start + j]);
                j += 1;
                assert(row@ =~= src@.subrange(start as int, start + j));
            }
            rows.push(row);
            c += 1;
        }
        let r = Matrix { inner: rows };
        assert(r@ =~= self@.map_values(|row: Seq<T>| row.subrange(start as int, start + len)));
        r
    }

    /// Splits the batch into consecutive chunks of `chunk_size` frames each.
    /// Frames after the last whole chunk are left out.
    pub fn chunks(&self, chunk_size: usize) -> (r: Vec<Matrix<T>>)
        requires
            self.wf(),
            chunk_size > 0,
        ensures
            views_of(r@) == chunks_of(self@, chunk_size as nat),
            forall|k: int| 0 <= k < r@.len() ==> (#[trigger] r@[k]).wf(),
    {
        let mut out: Vec<Matrix<T>> = Vec::new();
        if self.inner.len() == 0 {
            assert(views_of(out@) =~= chunks_of(self@, chunk_size as nat));
            return out;
        }
        let frames = self.inner[0].len();
        let count = frames / chunk_size;
        let mut k: usize = 0;
        while k < count
            invariant
                self.wf(),
                self@.len() > 0,
                chunk_size > 0,
                frames == frames_of(self@),
                count == chunk_count(self@, chunk_size as nat),
                k <= count,
                out@.len() == k,
                forall|j: int|
                    0 <= j < k ==> (#[trigger] out@[j])@ == chunk_at(self@, chunk_size as nat, j)
                        && out@[j].wf(),
            decreases count - k,
        {
            proof {
                lemma_chunk_in_range(k as int, chunk_size as int, frames_of(self@) as int);
            }
            let piece = self.frame_range(k * chunk_size, chunk_size);
            assert(piece@ =~= chunk_at(self@, chunk_size as nat, k as int));
            out.push(piece);
            k += 1;
        }
        assert(views_of(out@) =~= chunks_of(self@, chunk_size as nat));
        out
    }
}

/// Chunking a rectangular batch of `L` frames into chunks of `size` frames
/// gives `floor(L / size)` chunks with the batch's channels and `size` frames
/// each, and the chunks' samples of any channel, put back together in order,
/// are the first `size * floor(L / size)` samples of that channel.
pub proof fn lemma_chunks_reassemble<T>(m: Seq<Seq<T>>, size: nat, c: int)
    requires
        is_rectangular(m),
        size > 0,
        0 <= c < m.len(),
    ensures
        chunks_of(m, size).len() == frames_of(m) / size,
        forall|k: int|
            0 <= k < chunks_of(m, size).len() ==> {
                let b = #[trigger] chunks_of(m, size)[k];
                &&& b.len() == m.len()
                &&& is_rectangular(b)
                &&& frames_of(b) == size
            },
        channel_across(chunks_of(m, size), c).flatten() == m[c].subrange(
            0,
            (size * (frames_of(m) / size)) as int,
        ),
{
    let count = frames_of(m) / size;
    let all = chunks_of(m, size);
    assert forall|k: int| 0 <= k < all.len() implies {
        let b = #[trigger] all[k];
        &&& b.len() == m.len()
        &&& is_rectangular(b)
        &&& frames_of(b) == size
    } by {
        lemma_chunk_in_range(k, size as int, frames_of(m) as int);
        let b = all[k];
        assert(b[0].len() == size);
        assert forall|i: int| 0 <= i < b.len() implies #[trigger] b[i].len() == frames_of(b) by {
            assert(m[i].len() == frames_of(m));
        }
    }
    lemma_chunk_prefix(m, size, c, count as int);
    assert(all.take(count as int) =~= all);
}

proof fn lemma_chunk_prefix<T>(m: Seq<Seq<T>>, size: nat, c: int, n: int)
    requires
        is_rectangular(m),
        size > 0,
        0 <= c < m.len(),
        0 <= n <= frames_of(m) / size,
    ensures
        channel_across(chunks_of(m, size).take(n), c).flatten() == m[c].subrange(0, size * n),
    decreases n,
{
    let all = chunks_of(m, size);
    if n == 0 {
        assert(channel_across(all.take(0), c) =~= Seq::<Seq<T>>::empty());
        assert(m[c].subrange(0, 0) =~= Seq::<T>::empty());
    } else {
        let p = n - 1;
        lemma_chunk_prefix(m, size, c, p);
        lemma_chunk_in_range(p, size as int, frames_of(m) as int);
        assert(m[c].len() == frames_of(m));
        assert(channel_across(all.take(n), c) =~= channel_across(all.take(p), c).push(all[p][c]));
        channel_across(all.take(p), c).lemma_flatten_push(all[p][c]);
        assert(size * n == size * p + size) by (nonlinear_arith)
            requires
                p == n - 1,
        ;
        assert(m[c].subrange(0, size * n) =~= m[c].subrange(0, size * p) + all[p][c]);
    }
}

proof fn lemma_chunk_in_range(k: int, size: int, frames: int)
    requires
        0 <= k < frames / size,
        size > 0,
        frames >= 0,
    ensures
        0 <= k * size,
        k * size + size <= frames,
{
    assert(k * size + size <= frames) by (nonlinear_arith)
        requires
            0 <= k < frames / size,
            size > 0,
            frames >= 0,
    {
        assert(size * (frames / size) <= frames);
        assert(k + 1 <= frames / size);
        assert((k + 1) * size <= (frames / size) * size);
    }
    assert(0 <= k * size) by (nonlinear_arith)
        requires
            0 <= k,
            size > 0,
    ;
}

} // verus!
