//! The gzip index builder: the decisions taken after each block-granular
//! inflate call, and the index they accumulate.

use vstd::prelude::*;
use crate::error::{check_error, zlib_message, ZtocError, Z_BUF_ERROR, Z_NEED_DICT, Z_STREAM_END};
use crate::ring::{last_n, RingBuffer};

verus! {

/// Size of the DEFLATE sliding window kept with every checkpoint.
pub const WINSIZE: usize = 32768;

/// Size of the buffer in which compressed input is handed to the inflater.
pub const CHUNK: usize = 16384;

/// Version of the index format.
pub const ZINFO_VERSION: i32 = 2;

/// A resumption point: the state of the decompressor at a block boundary of
/// the compressed payload. Inflation can resume here with the stored window,
/// without decompressing what precedes it.
#[derive(Debug, PartialEq, Eq)]
pub struct GZipCheckpoint {
    /// Uncompressed bytes produced before this point.
    pub out_offset: u64,
    /// Whole compressed bytes consumed before this point.
    pub in_offset: u64,
    /// Bits of the next compressed byte that belong to data before this point.
    pub bits: u8,
    /// The last `WINSIZE` uncompressed bytes before this point.
    pub window: Vec<u8>,
}

/// The index of a compressed payload: its totals and its checkpoints, in
/// order of uncompressed offset.
#[derive(Debug, PartialEq, Eq)]
pub struct ZInfo {
    pub version: i32,
    pub checkpoints: Vec<GZipCheckpoint>,
    pub span_size: u64,
    pub total_in: u64,
    pub total_out: u64,
}

/// Uncompressed offset of the checkpoint before the `k`-th (0 for the first).
pub open spec fn prev_out(cps: Seq<GZipCheckpoint>, k: int) -> u64 {
    if k == 0 {
        0
    } else {
        cps[k - 1].out_offset
    }
}

/// What holds of every checkpoint list the builder produces: each checkpoint
/// is well formed, lies within the totals, and is either at the very start of
/// the output or more than `span` bytes past its predecessor.
pub open spec fn checkpoints_wf(cps: Seq<GZipCheckpoint>, span: u64, total_in: u64, total_out: u64) -> bool {
    &&& forall|k: int| 0 <= k < cps.len() ==> (#[trigger] cps[k]).bits <= 7
    &&& forall|k: int| 0 <= k < cps.len() ==> (#[trigger] cps[k]).window@.len() == WINSIZE
    &&& forall|k: int| 0 <= k < cps.len() ==> (#[trigger] cps[k]).out_offset <= total_out
    &&& forall|k: int| 0 <= k < cps.len() ==> (#[trigger] cps[k]).in_offset <= total_in
    &&& forall|k: int|
        0 <= k < cps.len() ==> (#[trigger] cps[k]).out_offset == 0 || cps[k].out_offset > prev_out(cps, k)
            + span
    &&& forall|k: int| 0 < k < cps.len() ==> (#[trigger] cps[k]).in_offset >= cps[k - 1].in_offset
}

impl ZInfo {
    /// The invariant of a finished or partial index.
    pub open spec fn wf(&self) -> bool {
        &&& self.version == ZINFO_VERSION
        &&& checkpoints_wf(self.checkpoints@, self.span_size, self.total_in, self.total_out)
    }
}

/// Every checkpoint of an index has a bit residue below 8 and a full window.
pub proof fn lemma_checkpoint_shape(z: ZInfo)
    requires
        z.wf(),
    ensures
        forall|k: int|
            0 <= k < z.checkpoints@.len() ==> (#[trigger] z.checkpoints@[k]).bits <= 7
                && z.checkpoints@[k].window@.len() == WINSIZE,
{
}

/// Consecutive checkpoints never go back in the compressed stream, and one
/// past the start of the output lies more than a span past its predecessor.
pub proof fn lemma_checkpoint_order(z: ZInfo)
    requires
        z.wf(),
    ensures
        forall|k: int|
            0 < k < z.checkpoints@.len() ==> (#[trigger] z.checkpoints@[k]).in_offset
                >= z.checkpoints@[k - 1].in_offset,
        forall|k: int|
            0 < k < z.checkpoints@.len() && (#[trigger] z.checkpoints@[k]).out_offset > 0
                ==> z.checkpoints@[k].out_offset >= z.checkpoints@[k - 1].out_offset + z.span_size,
        forall|k: int|
            0 <= k < z.checkpoints@.len() ==> (#[trigger] z.checkpoints@[k]).out_offset <= z.total_out
                && z.checkpoints@[k].in_offset <= z.total_in,
{
    assert forall|k: int|
        0 < k < z.checkpoints@.len() && (#[trigger] z.checkpoints@[k]).out_offset > 0
            implies z.checkpoints@[k].out_offset >= z.checkpoints@[k - 1].out_offset + z.span_size by {
        assert(prev_out(z.checkpoints@, k) == z.checkpoints@[k - 1].out_offset);
    }
}

/// A payload that inflates to no more than one span holds checkpoints only at
/// the very start of its output.
pub proof fn lemma_single_span(z: ZInfo)
    requires
        z.wf(),
        z.total_out <= z.span_size,
    ensures
        forall|k: int| 0 <= k < z.checkpoints@.len() ==> (#[trigger] z.checkpoints@[k]).out_offset == 0,
{
}

/// Whether the inflater's `data_type` after a call marks the end of a DEFLATE
/// block that is not followed by the end of the stream.
pub open spec fn at_block_boundary(data_type: i32) -> bool {
    (data_type & 128) != 0 && (data_type & 64) == 0
}

/// Whether a checkpoint is taken at a block boundary reached with `total_out`
/// bytes produced, the last checkpoint having been taken at `last_block`.
pub open spec fn span_reached(total_out: u64, last_block: u64, span: u64) -> bool {
    total_out == 0 || total_out - last_block > span
}

/// The bit residue that `data_type` reports.
pub open spec fn residue_bits(data_type: i32) -> u8 {
    (#[verifier::truncate] (data_type as u8)) & 7
}

/// The window as it stands after the first `end` bytes of `output`: the last
/// `WINSIZE` of them, preceded by zeros while there are fewer.
pub open spec fn window_at(output: Seq<u8>, end: int) -> Seq<u8> {
    last_n(Seq::new(WINSIZE as nat, |i: int| 0u8) + output.subrange(0, end), WINSIZE as nat)
}

/// Appending to a sequence at least `n` long and keeping the last `n` may
/// drop the front first.
proof fn lemma_last_n_append<T>(s: Seq<T>, p: Seq<T>, n: nat)
    requires
        s.len() >= n,
    ensures
        last_n(last_n(s, n) + p, n) == last_n(s + p, n),
{
    assert(last_n(last_n(s, n) + p, n) =~= last_n(s + p, n));
}

/// A gzip decompressor's bookkeeping: the index under construction, the
/// sliding window of recent output, and whether the stream has ended. The
/// inflater itself is driven by the caller, which reports each call here.
pub struct GzipZInfoDecompressor {
    zinfo: ZInfo,
    window: RingBuffer<u8, WINSIZE>,
    last_block: u64,
    finished: bool,
    output: Ghost<Seq<u8>>,
}

impl GzipZInfoDecompressor {
    /// The index so far.
    pub closed spec fn info(&self) -> ZInfo {
        self.zinfo
    }

    /// The last `WINSIZE` bytes produced (zeros before there were that many).
    pub closed spec fn window_contents(&self) -> Seq<u8> {
        self.window@
    }

    /// Uncompressed offset of the last checkpoint (0 before the first).
    pub closed spec fn last_block(&self) -> u64 {
        self.last_block
    }

    /// Whether the inflater has reported the end of the stream.
    pub closed spec fn done(&self) -> bool {
        self.finished
    }

    /// Everything the inflater has produced so far, in order.
    pub closed spec fn produced(&self) -> Seq<u8> {
        self.output@
    }

    pub closed spec fn wf(&self) -> bool {
        &&& self.window.wf()
        &&& self.zinfo.wf()
        &&& self.last_block <= self.zinfo.total_out
        &&& self.last_block == if self.zinfo.checkpoints@.len() == 0 {
            0
        } else {
            self.zinfo.checkpoints@.last().out_offset
        }
        &&& self.zinfo.total_out == self.output@.len()
        &&& !self.finished ==> self.window@ == window_at(self.output@, self.output@.len() as int)
        &&& forall|k: int|
            0 <= k < self.zinfo.checkpoints@.len() ==> (#[trigger] self.zinfo.checkpoints@[k]).window@
                == window_at(self.output@, self.zinfo.checkpoints@[k].out_offset as int)
    }

    /// The index accounts for all output: its uncompressed total is the
    /// length of everything produced, and each checkpoint holds the window
    /// as it stood at its offset.
    pub proof fn lemma_checkpoint_windows(&self)
        requires
            self.wf(),
        ensures
            self.info().total_out == self.produced().len(),
            forall|k: int|
                0 <= k < self.info().checkpoints@.len() ==> (#[trigger] self.info().checkpoints@[k]).window@
                    == window_at(self.produced(), self.info().checkpoints@[k].out_offset as int),
    {
    }

    /// Creates a decompressor whose checkpoints lie at least `span_size`
    /// uncompressed bytes apart.
    pub fn new(span_size: u64) -> (r: Self)
        ensures
            r.wf(),
            r.info() == (ZInfo {
                version: ZINFO_VERSION,
                checkpoints: r.info().checkpoints,
                span_size,
                total_in: 0,
                total_out: 0,
            }),
            r.info().checkpoints@.len() == 0,
            r.window_contents() == Seq::new(WINSIZE as nat, |i: int| 0u8),
            r.last_block() == 0,
            !r.done(),
            r.produced() == Seq::<u8>::empty(),
    {
        let window = RingBuffer::<u8, WINSIZE>::new();
        proof {
            assert(window@ =~= Seq::new(WINSIZE as nat, |i: int| 0u8));
        }
        let zinfo = ZInfo { version: ZINFO_VERSION, checkpoints: Vec::new(), span_size, total_in: 0, total_out: 0 };
        let r = GzipZInfoDecompressor { zinfo, window, last_block: 0, finished: false, output: Ghost(Seq::empty()) };
        proof {
            assert(r.window@ =~= window_at(Seq::empty(), 0));
        }
        r
    }

    /// Compressed bytes consumed so far.
    pub fn total_in(&self) -> (r: u64)
        ensures
            r == self.info().total_in,
    {
        self.zinfo.total_in
    }

    /// Uncompressed bytes produced so far.
    pub fn total_out(&self) -> (r: u64)
        ensures
            r == self.info().total_out,
    {
        self.zinfo.total_out
    }

    /// Whether the stream has ended; no further output will come.
    pub fn is_finished(&self) -> (r: bool)
        ensures
            r == self.done(),
    {
        self.finished
    }

    /// Copies the window, oldest byte first, into a new buffer.
    fn snapshot_window(&self) -> (r: Vec<u8>)
        requires
            self.wf(),
        ensures
            r@ == self.window_contents(),
            r@.len() == WINSIZE,
    {
        let (left, right) = self.window.read();
        let mut out: Vec<u8> = Vec::with_capacity(WINSIZE);
        let mut i: usize = 0;
        while i < left.len()
            invariant
                i <= left@.len(),
                out@ == left@.subrange(0, i as int),
            decreases left@.len() - i,
        {
            out.push(left[i]);
            i = i + 1;
            proof {
                assert(out@ =~= left@.subrange(0, i as int));
            }
        }
        let mut j: usize = 0;
        while j < right.len()
            invariant
                j <= right@.len(),
                out@ == left@ + right@.subrange(0, j as int),
            decreases right@.len() - j,
        {
            out.push(right[j]);
            j = j + 1;
            proof {
                assert(out@ =~= left@ + right@.subrange(0, j as int));
            }
        }
        proof {
            assert(out@ =~= left@ + right@);
        }
        out
    }

    /// Appends a checkpoint at the current totals with the current window.
    fn take_checkpoint(&mut self, bits: u8)
        requires
            old(self).wf(),
            bits <= 7,
            !old(self).finished,
            span_reached(old(self).zinfo.total_out, old(self).last_block, old(self).zinfo.span_size),
        ensures
            final(self).wf(),
            final(self).window == old(self).window,
            final(self).finished == old(self).finished,
            final(self).output == old(self).output,
            final(self).zinfo.version == old(self).zinfo.version,
            final(self).zinfo.span_size == old(self).zinfo.span_size,
            final(self).zinfo.total_in == old(self).zinfo.total_in,
            final(self).zinfo.total_out == old(self).zinfo.total_out,
            final(self).zinfo.checkpoints@ == old(self).zinfo.checkpoints@.push(
                GZipCheckpoint {
                    out_offset: old(self).zinfo.total_out,
                    in_offset: old(self).zinfo.total_in,
                    bits,
                    window: final(self).zinfo.checkpoints@.last().window,
                },
            ),
            final(self).zinfo.checkpoints@.last().window@ == old(self).window@,
    {
        let window = self.snapshot_window();
        let checkpoint = GZipCheckpoint {
            out_offset: self.zinfo.total_out,
            in_offset: self.zinfo.total_in,
            bits,
            window,
        };
        let ghost before = self.zinfo.checkpoints@;
        self.zinfo.checkpoints.push(checkpoint);
        self.last_block = self.zinfo.total_out;
        proof {
            let cps = self.zinfo.checkpoints@;
            let n = before.len() as int;
            assert forall|k: int| 0 <= k < cps.len() implies (#[trigger] cps[k]).out_offset == 0
                || cps[k].out_offset > prev_out(cps, k) + self.zinfo.span_size by {
                if k < n {
                    assert(cps[k] == before[k]);
                    if k > 0 {
                        assert(cps[k - 1] == before[k - 1]);
                    }
                } else if k > 0 {
                    assert(cps[k - 1] == before[k - 1]);
                }
            }
            assert forall|k: int| 0 < k < cps.len() implies (#[trigger] cps[k]).in_offset
                >= cps[k - 1].in_offset by {
                assert(cps[k - 1] == before[k - 1]);
                if k < n {
                    assert(cps[k] == before[k]);
                }
            }
            assert forall|k: int| 0 <= k < cps.len() implies (#[trigger] cps[k]).window@
                == window_at(self.output@, cps[k].out_offset as int) by {
                if k < n {
                    assert(cps[k] == before[k]);
                }
            }
        }
    }

    /// Records one block-granular inflate call: `consumed` compressed bytes
    /// were taken from the input, `produced` are the bytes it wrote, `ret` is
    /// its status and `msg` zlib's message, `data_type` is the inflater's
    /// state after the call, and `input_ended` tells whether the upstream
    /// reader had reached its end.
    ///
    /// A failing status is an error and leaves the decompressor as it was:
    /// lack of progress on an exhausted input is an unexpected end of file,
    /// a dictionary request is refused. Otherwise both totals grow. At the
    /// end of the stream the decompressor is done and `Ok(true)` is returned.
    /// Else the output enters the window and, at a block boundary where the
    /// span has been reached, a checkpoint of the current position and window
    /// is appended; `Ok(false)` is returned.
    pub fn record_inflate(
        &mut self,
        consumed: u32,
        produced: &[u8],
        ret: i32,
        msg: Option<String>,
        data_type: i32,
        input_ended: bool,
    ) -> (r: Result<bool, ZtocError>)
        requires
            old(self).wf(),
            !old(self).done(),
            old(self).info().total_in + consumed <= u64::MAX,
            old(self).info().total_out + produced@.len() <= u64::MAX,
        ensures
            final(self).wf(),
            final(self).info().wf(),
            ret == Z_BUF_ERROR && input_ended ==> r == Err::<bool, ZtocError>(ZtocError::UnexpectedEof),
            ret < 0 && !(ret == Z_BUF_ERROR && input_ended) ==> (r matches Err(ZtocError::Inflate(m))
                && m@ == zlib_message(ret, msg)),
            ret == Z_NEED_DICT ==> r == Err::<bool, ZtocError>(ZtocError::NeedDict),
            r is Err ==> *final(self) == *old(self),
            r is Ok ==> final(self).produced() == old(self).produced() + produced@,
            ret >= 0 && ret != Z_NEED_DICT ==> {
                let before = old(self).info();
                let after = final(self).info();
                let total_out = (before.total_out + produced@.len()) as u64;
                let take = ret != Z_STREAM_END && at_block_boundary(data_type) && span_reached(
                    total_out,
                    old(self).last_block(),
                    before.span_size,
                );
                let window = if ret == Z_STREAM_END {
                    old(self).window_contents()
                } else {
                    last_n(old(self).window_contents() + produced@, WINSIZE as nat)
                };
                &&& r == Ok::<bool, ZtocError>(ret == Z_STREAM_END)
                &&& final(self).done() == (ret == Z_STREAM_END)
                &&& after.version == before.version
                &&& after.span_size == before.span_size
                &&& after.total_in == before.total_in + consumed
                &&& after.total_out == total_out
                &&& final(self).window_contents() == window
                &&& take ==> after.checkpoints@ == before.checkpoints@.push(
                    GZipCheckpoint {
                        out_offset: total_out,
                        in_offset: after.total_in,
                        bits: residue_bits(data_type),
                        window: after.checkpoints@.last().window,
                    },
                ) && after.checkpoints@.last().window@ == window
                &&& !take ==> after.checkpoints@ == before.checkpoints@
                &&& final(self).last_block() == if take {
                    total_out
                } else {
                    old(self).last_block()
                }
            },
    {
        if ret == Z_BUF_ERROR && input_ended {
            return Err(ZtocError::UnexpectedEof);
        }
        let status = match check_error(ret, msg) {
            Ok(s) => s,
            Err(e) => {
                return Err(e);
            },
        };
        if status == Z_NEED_DICT {
            return Err(ZtocError::NeedDict);
        }
        let ghost before = self.zinfo;
        proof {
            assert(self.zinfo.checkpoints@ == before.checkpoints@);
        }
        let ghost out_before = self.output@;
        self.zinfo.total_in = self.zinfo.total_in + consumed as u64;
        self.zinfo.total_out = self.zinfo.total_out + produced.len() as u64;
        self.output = Ghost(self.output@ + produced@);
        proof {
            let cps = self.zinfo.checkpoints@;
            assert forall|k: int| 0 <= k < cps.len() implies (#[trigger] cps[k]).window@
                == window_at(self.output@, cps[k].out_offset as int) by {
                assert(cps[k] == before.checkpoints@[k]);
                assert(self.output@.subrange(0, cps[k].out_offset as int) =~= out_before.subrange(
                    0,
                    cps[k].out_offset as int,
                ));
            }
        }
        if status == Z_STREAM_END {
            self.finished = true;
            return Ok(true);
        }
        self.window.write(produced);
        proof {
            let zeros = Seq::new(WINSIZE as nat, |i: int| 0u8);
            lemma_last_n_append(zeros + out_before, produced@, WINSIZE as nat);
            assert(out_before.subrange(0, out_before.len() as int) =~= out_before);
            assert(self.output@.subrange(0, self.output@.len() as int) =~= self.output@);
            assert(zeros + out_before + produced@ =~= zeros + self.output@);
        }
        let total_out = self.zinfo.total_out;
        if (data_type & 128) != 0 && (data_type & 64) == 0 && (total_out == 0 || total_out
            - self.last_block > self.zinfo.span_size) {
            let bits = (#[verifier::truncate] (data_type as u8)) & 7;
            proof {
                assert(bits <= 7) by (bit_vector)
                    requires
                        bits == (#[verifier::truncate] (data_type as u8)) & 7,
                ;
            }
            self.take_checkpoint(bits);
        }
        Ok(false)
    }

    /// Consumes the decompressor and returns the index. It is complete once
    /// the stream has ended.
    pub fn into_zinfo(self) -> (r: ZInfo)
        requires
            self.wf(),
        ensures
            r == self.info(),
            r.wf(),
    {
        self.zinfo
    }
}

} // verus!
