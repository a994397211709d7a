use vstd::prelude::*;

verus! {

/// The frames that slicing `s` into consecutive pieces of length `n` yields,
/// in order; a final piece shorter than `n` is not a frame.
pub open spec fn frames_of<T>(s: Seq<T>, n: nat) -> Seq<Seq<T>>
    decreases s.len(),
{
    if n == 0 || s.len() < n {
        Seq::empty()
    } else {
        seq![s.take(n as int)] + frames_of(s.skip(n as int), n)
    }
}

/// What is left of `s` once every whole frame of length `n` is taken off its front.
pub open spec fn residue_of<T>(s: Seq<T>, n: nat) -> Seq<T>
    decreases s.len(),
{
    if n == 0 || s.len() < n {
        s
    } else {
        residue_of(s.skip(n as int), n)
    }
}

/// The frames emitted, and the tail kept, by feeding `chunks` one after another
/// to an accumulator whose tail is `tail`.
pub open spec fn ingest_all<T>(tail: Seq<T>, chunks: Seq<Seq<T>>, n: nat) -> (Seq<Seq<T>>, Seq<T>)
    decreases chunks.len(),
{
    if chunks.len() == 0 {
        (Seq::empty(), tail)
    } else {
        let s = tail + chunks[0];
        let rest = ingest_all(residue_of(s, n), chunks.drop_first(), n);
        (frames_of(s, n) + rest.0, rest.1)
    }
}

/// The views of a sequence of vectors.
pub open spec fn views_of<T>(v: Seq<Vec<T>>) -> Seq<Seq<T>> {
    v.map_values(|f: Vec<T>| f@)
}

/// Slicing `s + w` gives the frames of `s`, then those of what `s` leaves
/// followed by `w`.
pub proof fn lemma_frames_concat<T>(s: Seq<T>, w: Seq<T>, n: nat)
    requires
        n > 0,
    ensures
        frames_of(s + w, n) == frames_of(s, n) + frames_of(residue_of(s, n) + w, n),
        residue_of(s + w, n) == residue_of(residue_of(s, n) + w, n),
    decreases s.len(),
{
    if s.len() < n {
        assert(frames_of(s, n) + frames_of(residue_of(s, n) + w, n) =~= frames_of(s + w, n));
    } else {
        let t = s.skip(n as int);
        lemma_frames_concat(t, w, n);
        assert((s + w).take(n as int) =~= s.take(n as int));
        assert((s + w).skip(n as int) =~= t + w);
        assert(frames_of(s + w, n) =~= frames_of(s, n) + frames_of(residue_of(s, n) + w, n));
    }
}

/// Every frame has length `n`, the residue is shorter than `n`, and frames
/// followed by the residue give back `s`: nothing is lost or reordered.
pub proof fn lemma_frames_partition<T>(s: Seq<T>, n: nat)
    requires
        n > 0,
    ensures
        frames_of(s, n).flatten() + residue_of(s, n) == s,
        frames_of(s, n).len() == s.len() / n,
        residue_of(s, n).len() == s.len() % n,
        forall|i: int| 0 <= i < frames_of(s, n).len() ==> #[trigger] frames_of(s, n)[i].len() == n,
    decreases s.len(),
{
    if s.len() < n {
        assert(frames_of(s, n).flatten() + residue_of(s, n) =~= s);
        assert(s.len() / n == 0) by (nonlinear_arith)
            requires s.len() < n;
        assert(s.len() % n == s.len()) by (nonlinear_arith)
            requires s.len() < n;
    } else {
        let t = s.skip(n as int);
        lemma_frames_partition(t, n);
        let fs = frames_of(s, n);
        assert(fs.drop_first() =~= frames_of(t, n));
        assert(fs.first() == s.take(n as int));
        assert(fs.flatten() == s.take(n as int) + frames_of(t, n).flatten());
        assert(s.take(n as int) + t =~= s);
        assert(fs.flatten() + residue_of(s, n) =~= s.take(n as int) + (frames_of(t, n).flatten()
            + residue_of(t, n)));
        let l = s.len() as int;
        let m = n as int;
        assert((l - m) / m == l / m - 1 && (l - m) % m == l % m) by (nonlinear_arith)
            requires l >= m, m > 0;
        assert forall|i: int| 0 <= i < fs.len() implies #[trigger] fs[i].len() == n by {
            if i > 0 {
                assert(fs[i] == frames_of(t, n)[i - 1]);
            }
        }
    }
}

/// Feeding chunks one at a time to an accumulator whose tail is shorter than
/// a frame gives the frames and residue of slicing the tail followed by the
/// chunks' concatenation in one go.
pub proof fn lemma_ingest_all<T>(tail: Seq<T>, chunks: Seq<Seq<T>>, n: nat)
    requires
        n > 0,
        tail.len() < n,
    ensures
        ingest_all(tail, chunks, n).0 == frames_of(tail + chunks.flatten(), n),
        ingest_all(tail, chunks, n).1 == residue_of(tail + chunks.flatten(), n),
    decreases chunks.len(),
{
    if chunks.len() == 0 {
        assert(tail + chunks.flatten() =~= tail);
    } else {
        let s = tail + chunks[0];
        let f = chunks.drop_first().flatten();
        lemma_frames_partition(s, n);
        assert(residue_of(s, n).len() < n) by (nonlinear_arith)
            requires residue_of(s, n).len() == s.len() % n, n > 0;
        lemma_ingest_all(residue_of(s, n), chunks.drop_first(), n);
        lemma_frames_concat(s, f, n);
        assert(tail + chunks.flatten() =~= s + f);
    }
}

/// Chunking is independent of how the input was split: for chunks whose
/// concatenated length is a multiple of the frame length, feeding them one by
/// one to a fresh accumulator emits exactly the frames of slicing the whole
/// concatenation, in order, and leaves nothing behind.
pub proof fn lemma_split_invariance<T>(chunks: Seq<Seq<T>>, n: nat)
    requires
        n > 0,
        chunks.flatten().len() % n == 0,
    ensures
        ingest_all(Seq::empty(), chunks, n).0 == frames_of(chunks.flatten(), n),
        ingest_all(Seq::empty(), chunks, n).1 == Seq::<T>::empty(),
{
    lemma_ingest_all(Seq::empty(), chunks, n);
    assert(Seq::<T>::empty() + chunks.flatten() =~= chunks.flatten());
    lemma_frames_partition(chunks.flatten(), n);
}

/// Collects a variable-length stream of samples and cuts it into frames of a
/// fixed length, carrying samples that do not yet fill a frame forward.
pub struct StreamAccumulator<T> {
    frame_length: usize,
    tail: Vec<T>,
}

impl<T: Copy> StreamAccumulator<T> {
    /// The length of every frame that is emitted.
    pub closed spec fn frame_len(&self) -> nat {
        self.frame_length as nat
    }

    /// The samples received that belong to no frame yet.
    pub closed spec fn residual(&self) -> Seq<T> {
        self.tail@
    }

    /// A positive frame length, and a residual shorter than one frame.
    pub open spec fn wf(&self) -> bool {
        &&& self.frame_len() > 0
        &&& self.residual().len() < self.frame_len()
    }

    /// An accumulator for frames of `frame_length` samples, holding nothing yet.
    pub fn new(frame_length: usize) -> (r: Self)
        requires
            frame_length > 0,
        ensures
            r.wf(),
            r.frame_len() == frame_length,
            r.residual() == Seq::<T>::empty(),
    {
        StreamAccumulator { frame_length, tail: Vec::new() }
    }

    /// The length of every frame that is emitted.
    pub fn frame_length(&self) -> (r: usize)
        ensures
            r == self.frame_len(),
    {
        self.frame_length
    }

    /// How many samples wait for the next frame.
    pub fn pending(&self) -> (r: usize)
        ensures
            r == self.residual().len(),
    {
        self.tail.len()
    }

    /// Appends `chunk` to the residual and takes every whole frame off its
    /// front, oldest first; what remains becomes the new residual.
    pub fn ingest(&mut self, chunk: &[T]) -> (frames: Vec<Vec<T>>)
        requires
            old(self).wf(),
        ensures
            final(self).wf(),
            final(self).frame_len() == old(self).frame_len(),
            views_of(frames@) == frames_of(old(self).residual() + chunk@, old(self).frame_len()),
            final(self).residual() == residue_of(old(self).residual() + chunk@, old(self).frame_len()),
    {
        let n = self.frame_length;
        let ghost whole = self.tail@ + chunk@;
        let mut buf: Vec<T> = Vec::new();
        let mut i: usize = 0;
        while i < self.tail.len()
            invariant
                i <= self.tail.len(),
                buf@ == self.tail@.take(i as int),
            decreases self.tail.len() - i,
        {
            buf.push(self.tail[i]);
            i = i + 1;
        }
        assert(buf@ =~= self.tail@);
        i = 0;
        while i < chunk.len()
            invariant
                i <= chunk@.len(),
                buf@ == self.tail@ + chunk@.take(i as int),
            decreases chunk@.len() - i,
        {
            buf.push(chunk[i]);
            i = i + 1;
            assert(buf@ =~= self.tail@ + chunk@.take(i as int));
        }
        assert(buf@ =~= whole);
        let mut frames: Vec<Vec<T>> = Vec::new();
        let mut start: usize = 0;
        assert(buf@.skip(0) =~= buf@);
        while buf.len() - start >= n
            invariant
                n > 0,
                n == self.frame_len(),
                buf@ == whole,
                start <= buf.len(),
                views_of(frames@) + frames_of(buf@.skip(start as int), n as nat) == frames_of(whole, n as nat),
                residue_of(buf@.skip(start as int), n as nat) == residue_of(whole, n as nat),
            decreases buf.len() - start,
        {
            let mut frame: Vec<T> = Vec::new();
            let mut j: usize = 0;
            while j < n
                invariant
                    buf@ == whole,
                    start + n <= buf.len(),
                    j <= n,
                    frame@ == buf@.subrange(start as int, start + j),
                decreases n - j,
            {
                frame.push(buf[start + j]);
                j = j + 1;
                assert(frame@ =~= buf@.subrange(start as int, start + j));
            }
            let ghost rest = buf@.skip(start as int);
            assert(rest.take(n as int) =~= frame@);
            assert(rest.skip(n as int) =~= buf@.skip(start + n));
            assert(views_of(frames@.push(frame)) =~= views_of(frames@).push(frame@));
            frames.push(frame);
            start = start + n;
            assert(views_of(frames@) + frames_of(buf@.skip(start as int), n as nat) =~= frames_of(whole, n as nat));
        }
        let mut rest: Vec<T> = Vec::new();
        let mut k: usize = start;
        while k < buf.len()
            invariant
                start <= k <= buf.len(),
                rest@ == buf@.subrange(start as int, k as int),
            decreases buf.len() - k,
        {
            rest.push(buf[k]);
            k = k + 1;
            assert(rest@ =~= buf@.subrange(start as int, k as int));
        }
        assert(rest@ =~= buf@.skip(start as int));
        assert(views_of(frames@) =~= frames_of(whole, n as nat));
        self.tail = rest;
        frames
    }
}

} // verus!
