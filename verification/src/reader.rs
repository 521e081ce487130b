//! Reader that inflates data drawn from a contained byte source.
//!
//! Each read tops an internal staging buffer up from the source, runs one
//! decompression step, and hands the produced bytes to the caller. The
//! contracts account for every byte: what the codec was fed is exactly what
//! the source gave, in order, and what the caller gets is exactly what the
//! codec produced, in order.

use vstd::prelude::*;
use vstd::slice::slice_subrange;

use crate::miniz::{
    inflate_step, new_inflate_state, code_to_result, spec_outcome_of_code, StepOutcome, StepResult,
};
use crate::stream::{ByteSource, IoFault};
use crate::{READ_BUFFER_SIZE, REDUCE_MAX_AVAIL_LEN, REDUCE_MIN_TOTAL_LEN};

verus! {

/// What one read call reports beside its bytes.
#[derive(Clone, Copy, Debug, PartialEq, Eq, Structural)]
pub enum ReadOutcome {
    /// More decompressed bytes may follow.
    More,
    /// The compressed stream is logically complete; latched for every later call.
    End,
    /// The bytes are not a valid compressed stream for the expected format.
    Malformed,
    /// An unrecoverable codec fault (memory exhaustion, buffer misuse, an
    /// unknown status code).
    Fatal,
    /// The underlying source failed; its fault is carried unchanged.
    Source(IoFault),
}

/// The read outcome a codec status code is reported as, when a step ran:
/// the outcome classes of [`spec_outcome_of_code`], one for one.
pub open spec fn read_outcome_of_code(code: i32) -> ReadOutcome {
    match spec_outcome_of_code(code) {
        StepOutcome::Continue => ReadOutcome::More,
        StepOutcome::End => ReadOutcome::End,
        StepOutcome::Malformed => ReadOutcome::Malformed,
        StepOutcome::Fatal => ReadOutcome::Fatal,
    }
}

/// Reader that automatically inflates data from the contained source.
pub struct InflateReader<R> {
    state: Box<miniz_oxide::inflate::stream::InflateState>,
    inner: R,
    buffer: Vec<u8>,
    buffer_pos: usize,
    eof: bool,
    src_init: Ghost<Seq<u8>>,
    fed: Ghost<Seq<u8>>,
    produced: Ghost<Seq<u8>>,
    steps: Ghost<nat>,
    last_code: Ghost<i32>,
}

impl<R: ByteSource> InflateReader<R> {
    /// The staging buffer's whole content.
    pub closed spec fn staging(&self) -> Seq<u8> {
        self.buffer@
    }

    /// The staging buffer's consumed-up-to offset.
    pub closed spec fn staging_pos(&self) -> int {
        self.buffer_pos as int
    }

    /// The staged bytes the codec has not consumed yet.
    pub open spec fn unconsumed(&self) -> Seq<u8> {
        self.staging().skip(self.staging_pos())
    }

    /// The contained source.
    pub closed spec fn source(&self) -> R {
        self.inner
    }

    /// What the source still held when this reader was constructed.
    pub closed spec fn source_init(&self) -> Seq<u8> {
        self.src_init@
    }

    /// The compressed bytes the codec has consumed so far, in order.
    pub closed spec fn fed(&self) -> Seq<u8> {
        self.fed@
    }

    /// The decompressed bytes handed to callers so far, in order.
    pub closed spec fn produced(&self) -> Seq<u8> {
        self.produced@
    }

    /// How many codec steps have run.
    pub closed spec fn steps(&self) -> nat {
        self.steps@
    }

    /// The status code the latest codec step reported.
    pub closed spec fn step_code(&self) -> i32 {
        self.last_code@
    }

    /// Whether end-of-stream has been latched.
    pub closed spec fn is_eof(&self) -> bool {
        self.eof
    }

    /// Well-formed: the consumed offset lies within the staging buffer, and
    /// every byte the source ever gave is accounted for — fed to the codec,
    /// still staged, or still in the source.
    pub open spec fn wf(&self) -> bool {
        &&& 0 <= self.staging_pos() <= self.staging().len()
        &&& self.source_init() == self.fed() + self.unconsumed() + self.source().remaining()
    }

    /// Construct a new `InflateReader`, which inflates data from the inner
    /// source; `zlib_header` says whether the stream is wrapped in a zlib
    /// container header.
    pub fn new(inner: R, zlib_header: bool) -> (r: Result<InflateReader<R>, IoFault>)
        ensures
            match r {
                Ok(rd) => {
                    &&& rd.wf()
                    &&& rd.source() == inner
                    &&& rd.source_init() == inner.remaining()
                    &&& rd.unconsumed() == Seq::<u8>::empty()
                    &&& rd.fed() == Seq::<u8>::empty()
                    &&& rd.produced() == Seq::<u8>::empty()
                    &&& rd.steps() == 0
                    &&& !rd.is_eof()
                },
                Err(_) => false,
            },
    {
        let ghost init_rem = inner.remaining();
        let state = new_inflate_state(zlib_header);
        let rd = InflateReader {
            state,
            inner,
            buffer: Vec::new(),
            buffer_pos: 0,
            eof: false,
            src_init: Ghost(init_rem),
            fed: Ghost(Seq::empty()),
            produced: Ghost(Seq::empty()),
            steps: Ghost(0),
            last_code: Ghost(0),
        };
        proof {
            assert(rd.unconsumed() =~= Seq::<u8>::empty());
            assert(rd.source_init() =~= rd.fed() + rd.unconsumed() + rd.source().remaining());
        }
        Ok(rd)
    }

    /// How many staged bytes the codec has not consumed yet.
    pub fn buffer_len(&self) -> (n: usize)
        requires
            self.wf(),
        ensures
            n == self.unconsumed().len(),
    {
        self.buffer.len() - self.buffer_pos
    }

    /// The unconsumed region of the staging buffer.
    pub fn buffer_ptr(&self) -> (r: &[u8])
        requires
            self.wf(),
        ensures
            r@ == self.unconsumed(),
    {
        let r = slice_subrange(self.buffer.as_slice(), self.buffer_pos, self.buffer.len());
        assert(r@ =~= self.unconsumed());
        r
    }

    /// Water-mark compaction: once the staging buffer has grown large and
    /// little unconsumed data remains, drop the consumed prefix and reset the
    /// offset; otherwise leave it untouched. The unconsumed bytes are kept
    /// either way.
    pub fn reduce_buffer(&mut self)
        requires
            old(self).wf(),
        ensures
            final(self).wf(),
            final(self).unconsumed() == old(self).unconsumed(),
            final(self).source() == old(self).source(),
            final(self).source_init() == old(self).source_init(),
            final(self).fed() == old(self).fed(),
            final(self).produced() == old(self).produced(),
            final(self).steps() == old(self).steps(),
            final(self).is_eof() == old(self).is_eof(),
            (old(self).staging().len() >= REDUCE_MIN_TOTAL_LEN && old(self).unconsumed().len()
                <= REDUCE_MAX_AVAIL_LEN) ==> final(self).staging() == old(self).unconsumed()
                && final(self).staging_pos() == 0,
            !(old(self).staging().len() >= REDUCE_MIN_TOTAL_LEN && old(self).unconsumed().len()
                <= REDUCE_MAX_AVAIL_LEN) ==> final(self).staging() == old(self).staging()
                && final(self).staging_pos() == old(self).staging_pos(),
    {
        if self.buffer.len() < REDUCE_MIN_TOTAL_LEN || self.buffer_len() > REDUCE_MAX_AVAIL_LEN {
            return ;
        }
        let mut nb: Vec<u8> = Vec::new();
        let mut i: usize = self.buffer_pos;
        while i < self.buffer.len()
            invariant
                self.buffer_pos <= i <= self.buffer@.len(),
                nb@ == self.buffer@.subrange(self.buffer_pos as int, i as int),
            decreases self.buffer@.len() - i,
        {
            let b = self.buffer[i];
            nb.push(b);
            assert(nb@ =~= self.buffer@.subrange(self.buffer_pos as int, i + 1));
            i = i + 1;
        }
        self.buffer = nb;
        self.buffer_pos = 0;
        proof {
            assert(self.unconsumed() =~= old(self).unconsumed());
        }
    }

    /// Top the staging buffer up: if it holds fewer unconsumed bytes than one
    /// chunk, compact it under the water-mark policy and append one chunk read
    /// from the source; an exhausted source appends nothing. A source fault is
    /// handed back with everything else unchanged.
    pub fn read_inner(&mut self) -> (r: Result<usize, IoFault>)
        requires
            old(self).wf(),
        ensures
            final(self).wf(),
            final(self).source_init() == old(self).source_init(),
            final(self).fed() == old(self).fed(),
            final(self).produced() == old(self).produced(),
            final(self).steps() == old(self).steps(),
            final(self).is_eof() == old(self).is_eof(),
            old(self).unconsumed().len() >= READ_BUFFER_SIZE ==> *final(self) == *old(self) && r
                == Ok::<usize, IoFault>(0),
            match r {
                Ok(n) => {
                    &&& n <= READ_BUFFER_SIZE
                    &&& final(self).unconsumed() == old(self).unconsumed() + old(
                        self,
                    ).source().remaining().take(n as int)
                    &&& final(self).source().remaining() == old(self).source().remaining().skip(
                        n as int,
                    )
                },
                Err(_) => {
                    &&& final(self).unconsumed() == old(self).unconsumed()
                    &&& final(self).source().remaining() == old(self).source().remaining()
                },
            },
    {
        if self.buffer_len() >= READ_BUFFER_SIZE {
            proof {
                assert(self.unconsumed() =~= old(self).unconsumed()
                    + self.source().remaining().take(0));
                assert(self.source().remaining() =~= old(self).source().remaining().skip(0));
            }
            return Ok(0);
        }
        self.reduce_buffer();
        let ghost mid = *self;
        match self.inner.read_chunk(READ_BUFFER_SIZE) {
            Err(e) => Err(e),
            Ok(chunk) => {
                let n = chunk.len();
                let mut c = chunk;
                let ghost chunk_view = c@;
                self.buffer.append(&mut c);
                proof {
                    assert(self.unconsumed() =~= mid.unconsumed() + chunk_view);
                    assert(mid.source().remaining() =~= mid.source().remaining().take(
                        chunk_view.len() as int,
                    ) + mid.source().remaining().skip(chunk_view.len() as int));
                    assert(mid.source().remaining() =~= chunk_view + self.source().remaining());
                    assert(self.source_init() =~= self.fed() + self.unconsumed()
                        + self.source().remaining());
                }
                Ok(n)
            },
        }
    }

    /// Read up to `requested` decompressed bytes.
    ///
    /// Once end-of-stream has been reported it stays latched: every later call
    /// reports it again at once, with no further codec step and nothing else
    /// changed. Otherwise one codec step runs (none on a source fault, which
    /// leaves the staged bytes as they were), its output is handed back
    /// whole, the reported outcome is exactly the outcome class of the step's
    /// status code, and end-of-stream is latched exactly when this call
    /// reports it. A step makes progress: when more is said to be available
    /// and room was requested, either bytes came back or every staged byte
    /// was consumed.
    pub fn read(&mut self, requested: usize) -> (r: (Vec<u8>, ReadOutcome))
        requires
            old(self).wf(),
        ensures
            final(self).wf(),
            r.0@.len() <= requested,
            final(self).produced() == old(self).produced() + r.0@,
            final(self).source_init() == old(self).source_init(),
            old(self).fed().is_prefix_of(final(self).fed()),
            old(self).is_eof() ==> *final(self) == *old(self) && r.0@.len() == 0 && r.1
                == ReadOutcome::End,
            final(self).is_eof() == (old(self).is_eof() || r.1 == ReadOutcome::End),
            (r.1 matches ReadOutcome::Source(_)) ==> final(self).steps() == old(self).steps()
                && r.0@.len() == 0 && final(self).unconsumed() == old(self).unconsumed(),
            !old(self).is_eof() && !(r.1 matches ReadOutcome::Source(_)) ==> final(self).steps()
                == old(self).steps() + 1 && r.1 == read_outcome_of_code(final(self).step_code()),
            (!old(self).is_eof() && r.1 == ReadOutcome::More && requested > 0) ==> (r.0@.len() > 0
                || final(self).unconsumed().len() == 0),
    {
        if self.eof {
            let v: Vec<u8> = Vec::new();
            proof {
                assert(self.produced() =~= old(self).produced() + v@);
            }
            return (v, ReadOutcome::End);
        }
        match self.read_inner() {
            Ok(_) => {},
            Err(e) => {
                let v: Vec<u8> = Vec::new();
                proof {
                    assert(self.produced() =~= old(self).produced() + v@);
                    assert(old(self).fed().is_prefix_of(self.fed()));
                }
                return (v, ReadOutcome::Source(e));
            },
        }
        let step = inflate_step(&mut self.state, &self.buffer, self.buffer_pos, requested);
        let StepResult { consumed, out, code } = step;
        let ghost pre = *self;
        self.steps = Ghost(self.steps@ + 1);
        self.last_code = Ghost(code);
        let blen = self.buffer.len();
        assert(self.buffer_pos + consumed <= blen);
        self.buffer_pos = self.buffer_pos + consumed;
        self.fed = Ghost(self.fed@ + pre.staging().subrange(
            pre.staging_pos(),
            pre.staging_pos() + consumed as int,
        ));
        self.produced = Ghost(self.produced@ + out@);
        proof {
            assert(pre.unconsumed() =~= pre.staging().subrange(
                pre.staging_pos(),
                pre.staging_pos() + consumed as int,
            ) + self.unconsumed());
            assert(self.source_init() =~= self.fed() + self.unconsumed()
                + self.source().remaining());
            assert(old(self).fed().is_prefix_of(self.fed())) by {
                assert(old(self).fed() =~= self.fed().take(old(self).fed().len() as int));
            }
        }
        match code_to_result(code) {
            StepOutcome::Continue => (out, ReadOutcome::More),
            StepOutcome::End => {
                self.eof = true;
                (out, ReadOutcome::End)
            },
            StepOutcome::Malformed => (out, ReadOutcome::Malformed),
            StepOutcome::Fatal => (out, ReadOutcome::Fatal),
        }
    }
}

/// Law: every byte the codec was ever fed came from the source, in order and
/// without loss or duplication — the fed history is a prefix of what the
/// source held at construction.
pub proof fn lemma_reader_feeds_source_prefix<R: ByteSource>(r: InflateReader<R>)
    requires
        r.wf(),
    ensures
        r.fed().is_prefix_of(r.source_init()),
{
    assert(r.fed() =~= r.source_init().take(r.fed().len() as int));
}

} // verus!
