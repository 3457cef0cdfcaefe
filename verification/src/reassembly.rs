use vstd::prelude::*;

use crate::error::Error;

verus! {

broadcast use vstd::seq_lib::group_seq_lib_default;

/// The delimiter that terminates a logical line on the wire (`\n`).
pub const LINE_DELIMITER: u8 = 10;

/// The byte that sockets leave as padding in fixed-size read buffers; it is
/// stripped from every chunk before lines are split off.
pub const PAD_BYTE: u8 = 0;

/// `s` with every padding byte removed.
pub open spec fn strip_pad(s: Seq<u8>) -> Seq<u8> {
    s.filter(|b: u8| b != PAD_BYTE)
}

/// The decomposition of a byte sequence into its complete lines and its
/// unterminated trailing fragment: `.0` lists, in order, the delimiter-free
/// runs each of which is terminated by a delimiter in `s`, and `.1` is
/// whatever follows the last delimiter.
pub open spec fn split_lines(s: Seq<u8>) -> (Seq<Seq<u8>>, Seq<u8>)
    decreases s.len(),
{
    if s.len() == 0 {
        (seq![], seq![])
    } else {
        let prior = split_lines(s.drop_last());
        if s.last() == LINE_DELIMITER {
            (prior.0.push(prior.1), seq![])
        } else {
            (prior.0, prior.1.push(s.last()))
        }
    }
}

/// The lines re-joined: each line followed by one delimiter.
pub open spec fn join_lines(lines: Seq<Seq<u8>>) -> Seq<u8>
    decreases lines.len(),
{
    if lines.len() == 0 {
        seq![]
    } else {
        join_lines(lines.drop_last()) + lines.last() + seq![LINE_DELIMITER]
    }
}

/// True when no byte of `s` is the line delimiter or the padding byte.
pub open spec fn clean_fragment(s: Seq<u8>) -> bool {
    forall|i: int| 0 <= i < s.len() ==> s[i] != LINE_DELIMITER && s[i] != PAD_BYTE
}

/// Splitting is the inverse of joining: the complete lines, re-joined with
/// the delimiter and followed by the trailing fragment, give back the input.
pub proof fn lemma_split_lines_join(s: Seq<u8>)
    ensures
        join_lines(split_lines(s).0) + split_lines(s).1 =~= s,
    decreases s.len(),
{
    if s.len() == 0 {
    } else {
        lemma_split_lines_join(s.drop_last());
        let prior = split_lines(s.drop_last());
        if s.last() == LINE_DELIMITER {
            assert(prior.0.push(prior.1).drop_last() =~= prior.0);
            assert(prior.0.push(prior.1).last() == prior.1);
        }
        assert(s.drop_last().push(s.last()) =~= s);
    }
}

/// No emitted line and no trailing fragment contains a delimiter, nor a
/// padding byte if the input contained none.
pub proof fn lemma_split_lines_clean(s: Seq<u8>)
    requires
        forall|i: int| 0 <= i < s.len() ==> s[i] != PAD_BYTE,
    ensures
        forall|k: int|
            0 <= k < split_lines(s).0.len() ==> clean_fragment(#[trigger] split_lines(s).0[k]),
        clean_fragment(split_lines(s).1),
    decreases s.len(),
{
    if s.len() == 0 {
    } else {
        assert(forall|i: int|
            0 <= i < s.drop_last().len() ==> s.drop_last()[i] != PAD_BYTE);
        lemma_split_lines_clean(s.drop_last());
        let prior = split_lines(s.drop_last());
        if s.last() == LINE_DELIMITER {
            assert forall|k: int| 0 <= k < prior.0.push(prior.1).len() implies clean_fragment(
                #[trigger] prior.0.push(prior.1)[k],
            ) by {
                if k < prior.0.len() {
                    assert(prior.0.push(prior.1)[k] == prior.0[k]);
                }
            }
        }
    }
}

/// A sequence without delimiters splits into no lines and itself as fragment.
pub proof fn lemma_split_lines_of_fragment(s: Seq<u8>)
    requires
        forall|i: int| 0 <= i < s.len() ==> s[i] != LINE_DELIMITER,
    ensures
        split_lines(s).0 == Seq::<Seq<u8>>::empty(),
        split_lines(s).1 == s,
    decreases s.len(),
{
    if s.len() == 0 {
        assert(split_lines(s).1 =~= s);
    } else {
        assert(forall|i: int|
            0 <= i < s.drop_last().len() ==> s.drop_last()[i] != LINE_DELIMITER);
        lemma_split_lines_of_fragment(s.drop_last());
        assert(split_lines(s).1 =~= s.drop_last().push(s.last()));
        assert(s.drop_last().push(s.last()) =~= s);
    }
}

/// What one call of `feed` does, at the level of byte sequences: the pending
/// fragment goes in front of the padding-stripped chunk, and the result is
/// split into complete lines and a new pending fragment.
pub open spec fn feed_step(pending: Seq<u8>, chunk: Seq<u8>) -> (Seq<Seq<u8>>, Seq<u8>) {
    split_lines(pending + strip_pad(chunk))
}

/// All bytes of a sequence of reads, concatenated in read order.
pub open spec fn concat_chunks(chunks: Seq<Seq<u8>>) -> Seq<u8>
    decreases chunks.len(),
{
    if chunks.len() == 0 {
        seq![]
    } else {
        chunks.first() + concat_chunks(chunks.drop_first())
    }
}

/// The lines and the final pending fragment produced by feeding `chunks`, in
/// order, into a reassembler whose pending fragment starts as `pending`.
pub open spec fn run_feeds(pending: Seq<u8>, chunks: Seq<Seq<u8>>) -> (Seq<Seq<u8>>, Seq<u8>)
    decreases chunks.len(),
{
    if chunks.len() == 0 {
        (seq![], pending)
    } else {
        let step = feed_step(pending, chunks.first());
        let rest = run_feeds(step.1, chunks.drop_first());
        (step.0 + rest.0, rest.1)
    }
}

/// Joining distributes over concatenation of line sequences.
proof fn lemma_join_lines_distributes(a: Seq<Seq<u8>>, b: Seq<Seq<u8>>)
    ensures
        join_lines(a + b) == join_lines(a) + join_lines(b),
    decreases b.len(),
{
    if b.len() == 0 {
        assert(a + b =~= a);
        assert(join_lines(b) =~= Seq::<u8>::empty());
        assert(join_lines(a) + join_lines(b) =~= join_lines(a));
    } else {
        assert((a + b).drop_last() =~= a + b.drop_last());
        lemma_join_lines_distributes(a, b.drop_last());
        assert((a + b).last() == b.last());
        assert(join_lines(a) + (join_lines(b.drop_last()) + b.last() + seq![LINE_DELIMITER])
            =~= join_lines(a) + join_lines(b.drop_last()) + b.last() + seq![LINE_DELIMITER]);
    }
}

/// However a byte stream is cut into read chunks, the emitted lines,
/// re-joined with the delimiter and followed by the one remaining pending
/// fragment, reproduce the stream received so far minus its padding bytes.
pub proof fn lemma_reassembly_round_trip(pending: Seq<u8>, chunks: Seq<Seq<u8>>)
    ensures
        join_lines(run_feeds(pending, chunks).0) + run_feeds(pending, chunks).1 == pending
            + strip_pad(concat_chunks(chunks)),
    decreases chunks.len(),
{
    reveal(Seq::filter);
    if chunks.len() == 0 {
        assert(strip_pad(concat_chunks(chunks)) =~= Seq::<u8>::empty());
        assert(join_lines(run_feeds(pending, chunks).0) =~= Seq::<u8>::empty());
        assert(Seq::<u8>::empty() + pending =~= pending + strip_pad(concat_chunks(chunks)));
    } else {
        let step = feed_step(pending, chunks.first());
        let rest = run_feeds(step.1, chunks.drop_first());
        lemma_split_lines_join(pending + strip_pad(chunks.first()));
        lemma_reassembly_round_trip(step.1, chunks.drop_first());
        lemma_join_lines_distributes(step.0, rest.0);
        assert(join_lines(step.0) + join_lines(rest.0) + rest.1 =~= join_lines(step.0) + (
        join_lines(rest.0) + rest.1));
        assert(join_lines(step.0) + (step.1 + strip_pad(concat_chunks(chunks.drop_first())))
            =~= (join_lines(step.0) + step.1) + strip_pad(concat_chunks(chunks.drop_first())));
        assert((pending + strip_pad(chunks.first())) + strip_pad(
            concat_chunks(chunks.drop_first()),
        ) =~= pending + (strip_pad(chunks.first()) + strip_pad(
            concat_chunks(chunks.drop_first()),
        )));
        assert(strip_pad(chunks.first() + concat_chunks(chunks.drop_first()))
            == strip_pad(chunks.first()) + strip_pad(concat_chunks(chunks.drop_first())));
    }
}

/// A fresh reassembler starts with an empty pending fragment, so over its
/// whole life the emitted lines plus the final fragment are exactly the
/// received byte stream minus padding.
pub proof fn lemma_reassembly_reproduces_stream(chunks: Seq<Seq<u8>>)
    ensures
        join_lines(run_feeds(Seq::<u8>::empty(), chunks).0) + run_feeds(
            Seq::<u8>::empty(),
            chunks,
        ).1 == strip_pad(concat_chunks(chunks)),
{
    lemma_reassembly_round_trip(Seq::<u8>::empty(), chunks);
    assert(Seq::<u8>::empty() + strip_pad(concat_chunks(chunks)) =~= strip_pad(
        concat_chunks(chunks),
    ));
}

/// Removes the padding bytes from one raw read.
pub fn strip_pad_bytes(chunk: &[u8]) -> (r: Vec<u8>)
    ensures
        r@ == strip_pad(chunk@),
{
    let mut out: Vec<u8> = Vec::new();
    proof {
        reveal(Seq::filter);
        assert(chunk@.take(0) =~= Seq::<u8>::empty());
        assert(out@ =~= strip_pad(chunk@.take(0)));
    }
    let mut i: usize = 0;
    while i < chunk.len()
        invariant
            i <= chunk.len(),
            out@ == strip_pad(chunk@.take(i as int)),
        decreases chunk.len() - i,
    {
        let b = chunk[i];
        proof {
            reveal(Seq::filter);
            assert(chunk@.take(i + 1).drop_last() =~= chunk@.take(i as int));
            assert(chunk@.take(i + 1).last() == b);
        }
        if b != PAD_BYTE {
            out.push(b);
        }
        i += 1;
    }
    proof {
        assert(chunk@.take(chunk@.len() as int) =~= chunk@);
    }
    out
}

/// Reconstructs logical lines from arbitrarily fragmented, padded reads.
/// Carries the unterminated trailing fragment of each read over to the next,
/// and refuses (with [`Error::BufferExhausted`]) to let that fragment outgrow
/// the configured buffer size.
pub struct LineReassembler {
    pending: Vec<u8>,
    capacity: usize,
}

impl LineReassembler {
    /// The pending fragment: bytes received after the last delimiter.
    pub closed spec fn pending_view(self) -> Seq<u8> {
        self.pending@
    }

    /// The configured buffer size that bounds an unterminated line.
    pub closed spec fn capacity_spec(self) -> usize {
        self.capacity
    }

    /// The pending fragment holds no delimiter and no padding byte, and fits
    /// in the configured buffer.
    pub open spec fn wf(self) -> bool {
        &&& clean_fragment(self.pending_view())
        &&& self.pending_view().len() <= self.capacity_spec()
    }

    /// How many bytes of an unterminated line are waiting for the next read.
    pub fn pending_len(&self) -> (r: usize)
        ensures
            r == self.pending_view().len(),
    {
        self.pending.len()
    }

    /// The configured buffer size.
    pub fn capacity(&self) -> (r: usize)
        ensures
            r == self.capacity_spec(),
    {
        self.capacity
    }

    /// A fresh reassembler with nothing pending.
    pub fn new(capacity: usize) -> (r: LineReassembler)
        ensures
            r.wf(),
            r.pending_view() == Seq::<u8>::empty(),
            r.capacity_spec() == capacity,
    {
        let r = LineReassembler { pending: Vec::new(), capacity };
        proof {
            assert(r.pending_view() =~= Seq::<u8>::empty());
        }
        r
    }

    /// Feeds one raw read into the reassembler and returns the complete
    /// lines it finishes, in arrival order. Padding bytes are stripped; the
    /// pending fragment of the previous read is prepended to the first line.
    /// Fails, leaving the state unchanged, exactly when the new trailing
    /// fragment would exceed the configured buffer size.
    pub fn feed(&mut self, chunk: &[u8]) -> (r: Result<Vec<Vec<u8>>, Error>)
        requires
            old(self).wf(),
        ensures
            final(self).wf(),
            final(self).capacity_spec() == old(self).capacity_spec(),
            r is Ok <==> feed_step(old(self).pending_view(), chunk@).1.len()
                <= old(self).capacity_spec(),
            r is Ok ==> r->Ok_0.deep_view() == feed_step(old(self).pending_view(), chunk@).0
                && final(self).pending_view() == feed_step(old(self).pending_view(), chunk@).1,
            r is Err ==> r->Err_0 == Error::BufferExhausted && *final(self) == *old(self),
    {
        let ghost input = old(self).pending_view() + strip_pad(chunk@);
        let mut lines: Vec<Vec<u8>> = Vec::new();
        let mut cur: Vec<u8> = Vec::new();

        let mut k: usize = 0;
        while k < self.pending.len()
            invariant
                *self == *old(self),
                k <= self.pending.len(),
                cur@ == self.pending@.take(k as int),
            decreases self.pending.len() - k,
        {
            cur.push(self.pending[k]);
            proof {
                assert(self.pending@.take(k + 1) =~= self.pending@.take(k as int).push(
                    self.pending@[k as int],
                ));
            }
            k += 1;
        }
        proof {
            reveal(Seq::filter);
            assert(cur@ =~= old(self).pending_view());
            lemma_split_lines_of_fragment(old(self).pending_view());
            assert(chunk@.take(0) =~= Seq::<u8>::empty());
            assert(strip_pad(chunk@.take(0)) =~= Seq::<u8>::empty());
            assert(old(self).pending_view() + strip_pad(chunk@.take(0)) =~= old(
                self,
            ).pending_view());
            assert(lines.deep_view() =~= Seq::<Seq<u8>>::empty());
        }

        let mut i: usize = 0;
        while i < chunk.len()
            invariant
                *self == *old(self),
                old(self).wf(),
                i <= chunk.len(),
                lines.deep_view() == split_lines(
                    old(self).pending_view() + strip_pad(chunk@.take(i as int)),
                ).0,
                cur@ == split_lines(
                    old(self).pending_view() + strip_pad(chunk@.take(i as int)),
                ).1,
            decreases chunk.len() - i,
        {
            let ghost pre = old(self).pending_view() + strip_pad(chunk@.take(i as int));
            let b = chunk[i];
            proof {
                reveal(Seq::filter);
                assert(chunk@.take(i + 1).drop_last() =~= chunk@.take(i as int));
                assert(chunk@.take(i + 1).last() == b);
                if b != PAD_BYTE {
                    assert(strip_pad(chunk@.take(i + 1)) =~= strip_pad(
                        chunk@.take(i as int),
                    ).push(b));
                    assert(old(self).pending_view() + strip_pad(chunk@.take(i + 1)) =~= pre.push(
                        b,
                    ));
                    assert(pre.push(b).drop_last() =~= pre);
                } else {
                    assert(strip_pad(chunk@.take(i + 1)) =~= strip_pad(chunk@.take(i as int)));
                    assert(old(self).pending_view() + strip_pad(chunk@.take(i + 1)) =~= pre);
                }
            }
            if b == LINE_DELIMITER {
                let ghost lines0 = lines.deep_view();
                let finished = cur;
                cur = Vec::new();
                lines.push(finished);
                proof {
                    assert(finished.deep_view() =~= finished@);
                    assert(lines.deep_view() =~= lines0.push(finished@));
                    assert(cur@ =~= Seq::<u8>::empty());
                }
            } else if b != PAD_BYTE {
                cur.push(b);
            }
            i += 1;
        }
        proof {
            assert(chunk@.take(chunk@.len() as int) =~= chunk@);
            assert(lines.deep_view() == feed_step(old(self).pending_view(), chunk@).0);
            assert(cur@ == feed_step(old(self).pending_view(), chunk@).1);
        }

        if cur.len() > self.capacity {
            return Err(Error::BufferExhausted);
        }
        proof {
            assert forall|j: int| 0 <= j < input.len() implies input[j] != PAD_BYTE by {
                let pend = old(self).pending_view();
                if j < pend.len() {
                    assert(input[j] == pend[j]);
                } else {
                    assert(input[j] == strip_pad(chunk@)[j - pend.len()]);
                }
            }
            lemma_split_lines_clean(input);
        }
        self.pending = cur;
        Ok(lines)
    }
}

} // verus!
