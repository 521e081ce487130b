//! Writer that deflates accepted bytes and forwards the compressed output to
//! a contained byte sink.
//!
//! Written bytes are staged, compressed in steps whose output buffer grows
//! geometrically until the codec has nothing more pending, and forwarded. The
//! contracts account for every byte: the codec is fed exactly what the caller
//! wrote, in order, and the sink receives exactly what the codec produced, in
//! order. Closing runs the terminating flush once; a second close changes
//! nothing.

use vstd::prelude::*;
use vstd::slice::slice_subrange;

use crate::miniz::{
    deflate_step, new_compressor, code_to_result, spec_outcome_of_code, FlushKind, StepOutcome,
    StepResult,
};
use crate::stream::{push_bytes, ByteSink, IoFault};
use crate::{
    FLATE_LEVEL, REDUCE_MAX_AVAIL_LEN, REDUCE_MIN_TOTAL_LEN, WRITE_BUFFER_ADDITIONAL_SIZE,
    WRITE_FLUSH_MIN_AVAIL,
};

verus! {

/// Why a write or close failed.
#[derive(Clone, Copy, Debug, PartialEq, Eq, Structural)]
pub enum WriteError {
    /// The underlying sink failed; its fault is carried unchanged.
    Sink(IoFault),
    /// The codec rejected its input or its stream state.
    Malformed,
    /// An unrecoverable codec fault (memory exhaustion, buffer misuse, an
    /// unknown status code), or the output buffer could grow no further.
    Fatal,
}

/// Writer that automatically deflates output and sends it to the contained sink.
///
/// Call [`DeflateWriter::close`] once before the writer is dropped: there is
/// no implicit finalizer, so a writer dropped unclosed loses the staged bytes
/// and whatever the codec still buffers, and the sink is left without a
/// terminated stream. Closing more than once is harmless.
pub struct DeflateWriter<W> {
    state: Box<miniz_oxide::deflate::core::CompressorOxide>,
    inner: W,
    buffer: Vec<u8>,
    buffer_pos: usize,
    closed: bool,
    accepted: Ghost<Seq<u8>>,
    fed: Ghost<Seq<u8>>,
    sink_init: Ghost<Seq<u8>>,
    emitted: Ghost<Seq<u8>>,
    produced: Ghost<Seq<u8>>,
    steps: Ghost<nat>,
    last_code: Ghost<i32>,
}

/// A prefix stays a prefix when the longer sequence is extended.
proof fn lemma_prefix_extend(a: Seq<u8>, b: Seq<u8>, c: Seq<u8>)
    requires
        a.is_prefix_of(b),
    ensures
        a.is_prefix_of(b + c),
{
    assert(a =~= (b + c).take(a.len() as int));
}

/// A sequence is a prefix of itself.
proof fn lemma_prefix_refl(a: Seq<u8>)
    ensures
        a.is_prefix_of(a),
{
    assert(a =~= a.take(a.len() as int));
}

impl<W: ByteSink> DeflateWriter<W> {
    /// The staging buffer's whole content.
    pub closed spec fn staging(&self) -> Seq<u8> {
        self.buffer@
    }

    /// The staging buffer's consumed-up-to offset.
    pub closed spec fn staging_pos(&self) -> int {
        self.buffer_pos as int
    }

    /// The staged bytes the codec has not consumed yet.
    pub open spec fn unconsumed(&self) -> Seq<u8> {
        self.staging().skip(self.staging_pos())
    }

    /// The contained sink.
    pub closed spec fn sink(&self) -> W {
        self.inner
    }

    /// What the sink had already received when this writer was constructed.
    pub closed spec fn sink_init(&self) -> Seq<u8> {
        self.sink_init@
    }

    /// The plain bytes callers have written so far, in order.
    pub closed spec fn accepted(&self) -> Seq<u8> {
        self.accepted@
    }

    /// The plain bytes the codec has consumed so far, in order.
    pub closed spec fn fed(&self) -> Seq<u8> {
        self.fed@
    }

    /// The compressed bytes delivered to the sink so far, in order.
    pub closed spec fn emitted(&self) -> Seq<u8> {
        self.emitted@
    }

    /// The compressed bytes the codec has produced so far, in order,
    /// delivered to the sink or not.
    pub closed spec fn produced(&self) -> Seq<u8> {
        self.produced@
    }

    /// How many codec steps have run.
    pub closed spec fn steps(&self) -> nat {
        self.steps@
    }

    /// The status code the latest codec step reported.
    pub closed spec fn step_code(&self) -> i32 {
        self.last_code@
    }

    /// Whether the writer has been closed.
    pub closed spec fn is_closed(&self) -> bool {
        self.closed
    }

    /// Well-formed: the consumed offset lies within the staging buffer, every
    /// accepted byte was fed to the codec or is still staged, and the sink has
    /// received exactly the delivered codec output.
    pub open spec fn wf(&self) -> bool {
        &&& 0 <= self.staging_pos() <= self.staging().len()
        &&& self.accepted() == self.fed() + self.unconsumed()
        &&& self.sink().received() == self.sink_init() + self.emitted()
    }

    /// Construct a new `DeflateWriter`, which writes deflated output to the
    /// inner sink.
    pub fn new(inner: W) -> (r: Result<DeflateWriter<W>, IoFault>)
        ensures
            match r {
                Ok(w) => {
                    &&& w.wf()
                    &&& w.sink() == inner
                    &&& w.sink_init() == inner.received()
                    &&& w.accepted() == Seq::<u8>::empty()
                    &&& w.fed() == Seq::<u8>::empty()
                    &&& w.emitted() == Seq::<u8>::empty()
                    &&& w.produced() == Seq::<u8>::empty()
                    &&& w.steps() == 0
                    &&& !w.is_closed()
                },
                Err(_) => false,
            },
    {
        let ghost init_recv = inner.received();
        let state = new_compressor(FLATE_LEVEL);
        let w = DeflateWriter {
            state,
            inner,
            buffer: Vec::new(),
            buffer_pos: 0,
            closed: false,
            accepted: Ghost(Seq::empty()),
            fed: Ghost(Seq::empty()),
            sink_init: Ghost(init_recv),
            emitted: Ghost(Seq::empty()),
            produced: Ghost(Seq::empty()),
            steps: Ghost(0),
            last_code: Ghost(0),
        };
        proof {
            assert(w.accepted() =~= w.fed() + w.unconsumed());
            assert(w.sink().received() =~= w.sink_init() + w.emitted());
        }
        Ok(w)
    }

    /// How many staged bytes the codec has not consumed yet.
    pub fn buffer_len(&self) -> (n: usize)
        requires
            self.wf(),
        ensures
            n == self.unconsumed().len(),
    {
        self.buffer.len() - self.buffer_pos
    }

    /// The unconsumed region of the staging buffer.
    pub fn buffer_ptr(&self) -> (r: &[u8])
        requires
            self.wf(),
        ensures
            r@ == self.unconsumed(),
    {
        let r = slice_subrange(self.buffer.as_slice(), self.buffer_pos, self.buffer.len());
        assert(r@ =~= self.unconsumed());
        r
    }

    /// Water-mark compaction: once the staging buffer has grown large and
    /// little unconsumed data remains, drop the consumed prefix and reset the
    /// offset; otherwise leave it untouched. The unconsumed bytes are kept
    /// either way.
    pub fn reduce_buffer(&mut self)
        requires
            old(self).wf(),
        ensures
            final(self).wf(),
            final(self).unconsumed() == old(self).unconsumed(),
            final(self).sink() == old(self).sink(),
            final(self).sink_init() == old(self).sink_init(),
            final(self).accepted() == old(self).accepted(),
            final(self).fed() == old(self).fed(),
            final(self).emitted() == old(self).emitted(),
            final(self).produced() == old(self).produced(),
            final(self).steps() == old(self).steps(),
            final(self).step_code() == old(self).step_code(),
            final(self).is_closed() == old(self).is_closed(),
            (old(self).staging().len() >= REDUCE_MIN_TOTAL_LEN && old(self).unconsumed().len()
                <= REDUCE_MAX_AVAIL_LEN) ==> final(self).staging() == old(self).unconsumed()
                && final(self).staging_pos() == 0,
            !(old(self).staging().len() >= REDUCE_MIN_TOTAL_LEN && old(self).unconsumed().len()
                <= REDUCE_MAX_AVAIL_LEN) ==> final(self).staging() == old(self).staging()
                && final(self).staging_pos() == old(self).staging_pos(),
    {
        if self.buffer.len() < REDUCE_MIN_TOTAL_LEN || self.buffer_len() > REDUCE_MAX_AVAIL_LEN {
            return ;
        }
        let mut nb: Vec<u8> = Vec::new();
        let mut i: usize = self.buffer_pos;
        while i < self.buffer.len()
            invariant
                self.buffer_pos <= i <= self.buffer@.len(),
                nb@ == self.buffer@.subrange(self.buffer_pos as int, i as int),
            decreases self.buffer@.len() - i,
        {
            let b = self.buffer[i];
            nb.push(b);
            assert(nb@ =~= self.buffer@.subrange(self.buffer_pos as int, i + 1));
            i = i + 1;
        }
        self.buffer = nb;
        self.buffer_pos = 0;
        proof {
            assert(self.unconsumed() =~= old(self).unconsumed());
        }
    }

    /// The output-growth loop: run compression steps over the unconsumed
    /// staged bytes, forwarding each step's output to the sink, growing the
    /// output buffer geometrically for as long as the codec fills it whole,
    /// and stopping once the codec reports it has nothing more pending (or,
    /// under the finish directive, that the stream has ended). Afterwards the
    /// staging buffer is compacted under the water-mark policy. A malformed
    /// or fatal status code comes back as the matching error — exactly then —
    /// and a sink fault is carried unchanged.
    fn flush_generic(&mut self, kind: FlushKind) -> (r: Result<(), WriteError>)
        requires
            old(self).wf(),
        ensures
            final(self).wf(),
            final(self).is_closed() == old(self).is_closed(),
            final(self).accepted() == old(self).accepted(),
            final(self).sink_init() == old(self).sink_init(),
            old(self).fed().is_prefix_of(final(self).fed()),
            old(self).emitted().is_prefix_of(final(self).emitted()),
            old(self).produced().is_prefix_of(final(self).produced()),
            old(self).steps() < final(self).steps(),
            r == Err::<(), WriteError>(WriteError::Malformed) <==> spec_outcome_of_code(
                final(self).step_code(),
            ) == StepOutcome::Malformed,
            spec_outcome_of_code(final(self).step_code()) == StepOutcome::Fatal ==> r == Err::<
                (),
                WriteError,
            >(WriteError::Fatal),
            r is Ok ==> final(self).emitted() == old(self).emitted()
                + final(self).produced().skip(old(self).produced().len() as int),
            (kind == FlushKind::Finish && r is Ok) ==> spec_outcome_of_code(
                final(self).step_code(),
            ) == StepOutcome::End,
            (kind == FlushKind::NoFlush && r is Ok) ==> final(self).unconsumed().len() == 0,
    {
        proof {
            lemma_prefix_refl(self.produced());
            assert(self.produced().skip(old(self).produced().len() as int) =~= Seq::<
                u8,
            >::empty());
            assert(self.emitted() =~= old(self).emitted() + self.produced().skip(
                old(self).produced().len() as int,
            ));
        }
        let mut additional_size: usize = WRITE_BUFFER_ADDITIONAL_SIZE;
        loop
            invariant
                self.wf(),
                self.is_closed() == old(self).is_closed(),
                self.accepted() == old(self).accepted(),
                self.sink_init() == old(self).sink_init(),
                old(self).fed().is_prefix_of(self.fed()),
                old(self).emitted().is_prefix_of(self.emitted()),
                old(self).produced().is_prefix_of(self.produced()),
                self.emitted() == old(self).emitted() + self.produced().skip(
                    old(self).produced().len() as int,
                ),
                old(self).steps() <= self.steps(),
                WRITE_BUFFER_ADDITIONAL_SIZE <= additional_size,
            ensures
                self.wf(),
                self.is_closed() == old(self).is_closed(),
                self.accepted() == old(self).accepted(),
                self.sink_init() == old(self).sink_init(),
                old(self).fed().is_prefix_of(self.fed()),
                old(self).emitted().is_prefix_of(self.emitted()),
                old(self).produced().is_prefix_of(self.produced()),
                self.emitted() == old(self).emitted() + self.produced().skip(
                    old(self).produced().len() as int,
                ),
                old(self).steps() < self.steps(),
                spec_outcome_of_code(self.step_code()) == StepOutcome::Continue
                    || spec_outcome_of_code(self.step_code()) == StepOutcome::End,
                kind == FlushKind::Finish ==> spec_outcome_of_code(self.step_code())
                    == StepOutcome::End,
                kind == FlushKind::NoFlush ==> self.unconsumed().len() == 0,
            decreases usize::MAX - additional_size,
        {
            let avail = self.buffer_len();
            let out_cap = if avail <= usize::MAX - additional_size {
                avail + additional_size
            } else {
                usize::MAX
            };
            let step = deflate_step(&mut self.state, &self.buffer, self.buffer_pos, out_cap, kind);
            let StepResult { consumed, out, code } = step;
            self.steps = Ghost(self.steps@ + 1);
            self.last_code = Ghost(code);
            let ghost pre_produced = self.produced@;
            self.produced = Ghost(self.produced@ + out@);
            proof {
                lemma_prefix_extend(old(self).produced(), pre_produced, out@);
            }
            let outcome = code_to_result(code);
            match outcome {
                StepOutcome::Malformed => {
                    return Err(WriteError::Malformed);
                },
                StepOutcome::Fatal => {
                    return Err(WriteError::Fatal);
                },
                _ => {},
            }
            let ghost pre = *self;
            let blen = self.buffer.len();
            assert(self.buffer_pos + consumed <= blen);
            self.buffer_pos = self.buffer_pos + consumed;
            self.fed = Ghost(
                self.fed@ + pre.staging().subrange(
                    pre.staging_pos(),
                    pre.staging_pos() + consumed as int,
                ),
            );
            proof {
                assert(pre.unconsumed() =~= pre.staging().subrange(
                    pre.staging_pos(),
                    pre.staging_pos() + consumed as int,
                ) + self.unconsumed());
                assert(self.accepted() =~= self.fed() + self.unconsumed());
                lemma_prefix_extend(
                    old(self).fed(),
                    pre.fed(),
                    pre.staging().subrange(
                        pre.staging_pos(),
                        pre.staging_pos() + consumed as int,
                    ),
                );
            }
            let produced_len = out.len();
            match self.inner.write_all(&out) {
                Ok(_) => {
                    let ghost mid_emitted = self.emitted@;
                    self.emitted = Ghost(self.emitted@ + out@);
                    proof {
                        assert(self.sink().received() =~= self.sink_init() + self.emitted());
                        lemma_prefix_extend(old(self).emitted(), mid_emitted, out@);
                        assert(self.produced@.skip(old(self).produced().len() as int)
                            =~= pre_produced.skip(old(self).produced().len() as int) + out@);
                        assert(self.emitted() =~= old(self).emitted() + self.produced().skip(
                            old(self).produced().len() as int,
                        ));
                    }
                },
                Err(e) => {
                    return Err(WriteError::Sink(e));
                },
            }
            if matches!(outcome, StepOutcome::End) {
                break ;
            }
            if produced_len < out_cap {
                break ;
            }
            let half = additional_size / 2;
            if additional_size > usize::MAX - half {
                return Err(WriteError::Fatal);
            }
            additional_size = additional_size + half;
        }
        self.reduce_buffer();
        Ok(())
    }

    /// Opportunistic flush: skipped entirely — nothing changes — while fewer
    /// unconsumed bytes than the minimum are staged; otherwise one
    /// output-growth pass runs with no forced flush.
    pub fn flush(&mut self) -> (r: Result<(), WriteError>)
        requires
            old(self).wf(),
        ensures
            final(self).wf(),
            final(self).is_closed() == old(self).is_closed(),
            final(self).accepted() == old(self).accepted(),
            final(self).sink_init() == old(self).sink_init(),
            old(self).fed().is_prefix_of(final(self).fed()),
            old(self).emitted().is_prefix_of(final(self).emitted()),
            old(self).unconsumed().len() < WRITE_FLUSH_MIN_AVAIL ==> *final(self) == *old(self)
                && r is Ok,
            old(self).unconsumed().len() >= WRITE_FLUSH_MIN_AVAIL ==> old(self).steps()
                < final(self).steps(),
            (r is Ok && old(self).unconsumed().len() >= WRITE_FLUSH_MIN_AVAIL)
                ==> final(self).fed() == final(self).accepted(),
            old(self).produced().is_prefix_of(final(self).produced()),
            r is Ok ==> final(self).emitted() == old(self).emitted()
                + final(self).produced().skip(old(self).produced().len() as int),
            r == Err::<(), WriteError>(WriteError::Malformed) ==> spec_outcome_of_code(
                final(self).step_code(),
            ) == StepOutcome::Malformed,
            (old(self).steps() < final(self).steps() && spec_outcome_of_code(
                final(self).step_code(),
            ) == StepOutcome::Malformed) ==> r == Err::<(), WriteError>(WriteError::Malformed),
            (old(self).steps() < final(self).steps() && spec_outcome_of_code(
                final(self).step_code(),
            ) == StepOutcome::Fatal) ==> r == Err::<(), WriteError>(WriteError::Fatal),
    {
        if self.buffer_len() < WRITE_FLUSH_MIN_AVAIL {
            proof {
                lemma_prefix_refl(self.fed());
                lemma_prefix_refl(self.emitted());
                lemma_prefix_refl(self.produced());
                assert(self.produced().skip(old(self).produced().len() as int) =~= Seq::<
                    u8,
                >::empty());
                assert(self.emitted() =~= old(self).emitted() + self.produced().skip(
                    old(self).produced().len() as int,
                ));
            }
            return Ok(());
        }
        let r = self.flush_generic(FlushKind::NoFlush);
        proof {
            if r is Ok {
                assert(self.unconsumed() =~= Seq::<u8>::empty());
                assert(self.fed() + self.unconsumed() =~= self.fed());
            }
        }
        r
    }

    /// Write the whole buffer: append it to the staged bytes, then flush
    /// opportunistically — small writes are batched, nothing is compressed
    /// while the staged bytes stay below the flush minimum. Every byte is
    /// accepted, also when the flush then fails, and a failure is the
    /// flush's, carried unchanged.
    pub fn write(&mut self, buf: &Vec<u8>) -> (r: Result<(), WriteError>)
        requires
            old(self).wf(),
            !old(self).is_closed(),
        ensures
            final(self).wf(),
            !final(self).is_closed(),
            final(self).accepted() == old(self).accepted() + buf@,
            final(self).sink_init() == old(self).sink_init(),
            old(self).fed().is_prefix_of(final(self).fed()),
            old(self).emitted().is_prefix_of(final(self).emitted()),
            old(self).unconsumed().len() + buf@.len() < WRITE_FLUSH_MIN_AVAIL ==> r is Ok
                && final(self).fed() == old(self).fed()
                && final(self).emitted() == old(self).emitted()
                && final(self).steps() == old(self).steps(),
            old(self).unconsumed().len() + buf@.len() >= WRITE_FLUSH_MIN_AVAIL
                ==> old(self).steps() < final(self).steps(),
            (r is Ok && old(self).unconsumed().len() + buf@.len() >= WRITE_FLUSH_MIN_AVAIL)
                ==> final(self).fed() == final(self).accepted(),
            old(self).produced().is_prefix_of(final(self).produced()),
            r is Ok ==> final(self).emitted() == old(self).emitted()
                + final(self).produced().skip(old(self).produced().len() as int),
            r == Err::<(), WriteError>(WriteError::Malformed) ==> spec_outcome_of_code(
                final(self).step_code(),
            ) == StepOutcome::Malformed,
            (old(self).steps() < final(self).steps() && spec_outcome_of_code(
                final(self).step_code(),
            ) == StepOutcome::Malformed) ==> r == Err::<(), WriteError>(WriteError::Malformed),
            (old(self).steps() < final(self).steps() && spec_outcome_of_code(
                final(self).step_code(),
            ) == StepOutcome::Fatal) ==> r == Err::<(), WriteError>(WriteError::Fatal),
    {
        push_bytes(&mut self.buffer, buf);
        self.accepted = Ghost(self.accepted@ + buf@);
        proof {
            assert(self.unconsumed() =~= old(self).unconsumed() + buf@);
            assert(self.accepted() =~= self.fed() + self.unconsumed());
        }
        self.flush()
    }

    /// Close the writer: the first call runs the terminating flush, which
    /// tells the codec to emit everything it still holds and end the stream;
    /// it succeeds only once the codec has consumed every accepted byte. Any
    /// later call changes nothing and succeeds.
    pub fn close(&mut self) -> (r: Result<(), WriteError>)
        requires
            old(self).wf(),
        ensures
            final(self).wf(),
            final(self).is_closed(),
            final(self).accepted() == old(self).accepted(),
            final(self).sink_init() == old(self).sink_init(),
            old(self).fed().is_prefix_of(final(self).fed()),
            old(self).emitted().is_prefix_of(final(self).emitted()),
            old(self).is_closed() ==> *final(self) == *old(self) && r is Ok,
            !old(self).is_closed() ==> old(self).steps() < final(self).steps(),
            (r is Ok && !old(self).is_closed()) ==> final(self).fed() == final(self).accepted(),
            (r is Ok && !old(self).is_closed()) ==> spec_outcome_of_code(final(self).step_code())
                == StepOutcome::End,
            old(self).produced().is_prefix_of(final(self).produced()),
            r is Ok ==> final(self).emitted() == old(self).emitted()
                + final(self).produced().skip(old(self).produced().len() as int),
            r == Err::<(), WriteError>(WriteError::Malformed) ==> spec_outcome_of_code(
                final(self).step_code(),
            ) == StepOutcome::Malformed,
            (old(self).steps() < final(self).steps() && spec_outcome_of_code(
                final(self).step_code(),
            ) == StepOutcome::Malformed) ==> r == Err::<(), WriteError>(WriteError::Malformed),
            (old(self).steps() < final(self).steps() && spec_outcome_of_code(
                final(self).step_code(),
            ) == StepOutcome::Fatal) ==> r == Err::<(), WriteError>(WriteError::Fatal),
    {
        if self.closed {
            proof {
                lemma_prefix_refl(self.fed());
                lemma_prefix_refl(self.emitted());
                lemma_prefix_refl(self.produced());
                assert(self.produced().skip(old(self).produced().len() as int) =~= Seq::<
                    u8,
                >::empty());
                assert(self.emitted() =~= old(self).emitted() + self.produced().skip(
                    old(self).produced().len() as int,
                ));
            }
            return Ok(());
        }
        self.closed = true;
        match self.flush_generic(FlushKind::Finish) {
            Err(e) => Err(e),
            Ok(_) => {
                if self.buffer_len() > 0 {
                    Err(WriteError::Fatal)
                } else {
                    proof {
                        assert(self.fed() + self.unconsumed() =~= self.fed());
                    }
                    Ok(())
                }
            },
        }
    }

    /// The contained sink, borrowed.
    pub fn sink_ref(&self) -> (w: &W)
        ensures
            w == self.sink(),
    {
        &self.inner
    }

    /// Surrender the contained sink.
    pub fn into_inner(self) -> (w: W)
        ensures
            w == self.sink(),
    {
        self.inner
    }
}

/// Law: every byte the codec was ever fed was first accepted from a caller,
/// in order and without loss or duplication — the fed history is a prefix of
/// the accepted history.
pub proof fn lemma_writer_feeds_accepted_prefix<W: ByteSink>(w: DeflateWriter<W>)
    requires
        w.wf(),
    ensures
        w.fed().is_prefix_of(w.accepted()),
{
    assert(w.fed() =~= w.accepted().take(w.fed().len() as int));
}

/// Law: the sink holds exactly what it held at construction followed by the
/// codec output delivered so far — growing the step's output buffer never
/// loses or reorders a delivered byte.
pub proof fn lemma_writer_sink_holds_emitted<W: ByteSink>(w: DeflateWriter<W>)
    requires
        w.wf(),
    ensures
        w.sink().received() == w.sink_init() + w.emitted(),
{
}

} // verus!
