//! What the I2C platform sends for the vendor driver.
//!
//! The sensor takes the 16-bit register index as the first two bytes (big-endian) of
//! every write, followed by the data. Long writes (the firmware upload is 32 kB) are
//! split into frames of a bounded buffer, each with the index at which its data goes.
use vstd::prelude::*;

verus! {

/// Size of the buffer a write frame is assembled in, index included.
pub const WRITE_BUF_SIZE: usize = 10 * 1024;

/// Largest amount of data in one write frame.
pub const WRITE_CHUNK: usize = WRITE_BUF_SIZE - 2;

/// Number of bytes of a log line shown at most.
pub const TRACE_HEAD_N: usize = 20;

/// The big-endian bytes of a register index.
pub open spec fn be_bytes(v: u16) -> Seq<u8> {
    seq![(v / 256) as u8, (v % 256) as u8]
}

/// The big-endian bytes of a register index, as sent before every read and write.
pub fn index_be_bytes(index: u16) -> (r: [u8; 2])
    ensures
        r@ == be_bytes(index),
{
    let hi: u8 = (index / 256) as u8;
    let lo: u8 = (index % 256) as u8;
    let r = [hi, lo];
    assert(r@ =~= be_bytes(index));
    r
}

/// Number of frames a write of `len` bytes takes; nothing is sent for no data.
pub open spec fn frame_count(len: int) -> int {
    if len <= 0 {
        0
    } else {
        (len - 1) / (WRITE_CHUNK as int) + 1
    }
}

/// Frame `k` of writing `vs` at `index`: the index of its first byte, then up to
/// `WRITE_CHUNK` bytes of the data.
pub open spec fn spec_frame(index: u16, vs: Seq<u8>, k: int) -> Seq<u8> {
    let start: int = k * WRITE_CHUNK as int;
    let end: int = if start + WRITE_CHUNK as int <= vs.len() {
        start + WRITE_CHUNK as int
    } else {
        vs.len() as int
    };
    be_bytes((index + start) as u16) + vs.subrange(start, end)
}

/// The frames that write `vs` starting at register `index`; see `spec_frame`.
///
/// The register index must not pass 0xffff while advancing through the data.
pub fn write_frames(index: u16, vs: &[u8]) -> (frames: Vec<Vec<u8>>)
    requires
        index as int + vs@.len() <= 0xffff,
    ensures
        frames@.len() == frame_count(vs@.len() as int),
        forall|k: int| 0 <= k < frames@.len() ==> #[trigger] frames@[k]@ == spec_frame(index, vs@, k),
{
    let len: usize = vs.len();
    assert(WRITE_CHUNK == 10238);
    let mut frames: Vec<Vec<u8>> = Vec::new();
    let mut off: usize = 0;
    let mut idx: u16 = index;
    while off < len
        invariant
            len == vs@.len(),
            index as int + len <= 0xffff,
            off <= len,
            idx as int == index as int + off,
            WRITE_CHUNK == 10238,
            off < len ==> off == frames@.len() * WRITE_CHUNK,
            frames@.len() == 0 ==> off == 0,
            frames@.len() > 0 ==> (frames@.len() - 1) * WRITE_CHUNK < len,
            frames@.len() > 0 ==> off <= frames@.len() * WRITE_CHUNK,
            forall|k: int| 0 <= k < frames@.len() ==> #[trigger] frames@[k]@ == spec_frame(index, vs@, k),
        decreases len - off,
    {
        let n: usize = if len - off < WRITE_CHUNK {
            len - off
        } else {
            WRITE_CHUNK
        };
        let head = index_be_bytes(idx);
        let mut frame: Vec<u8> = Vec::new();
        frame.push(head[0]);
        frame.push(head[1]);
        let mut j: usize = 0;
        while j < n
            invariant
                off + n <= len,
                len == vs@.len(),
                j <= n,
                frame@ == be_bytes(idx) + vs@.subrange(off as int, off + j),
            decreases n - j,
        {
            frame.push(vs[off + j]);
            assert(frame@ =~= be_bytes(idx) + vs@.subrange(off as int, off + j + 1));
            j = j + 1;
        }
        assert(off == frames@.len() * WRITE_CHUNK);
        assert(frame@ == spec_frame(index, vs@, frames@.len() as int));
        frames.push(frame);
        off = off + n;
        idx = idx + n as u16;
        if off < len {
            assert(n == WRITE_CHUNK);
        }
    }
    proof {
        let k: int = frames@.len() as int;
        if len > 0 {
            assert(k > 0);
            assert((len as int - 1) / (WRITE_CHUNK as int) == k - 1) by (nonlinear_arith)
                requires
                    (k - 1) * (WRITE_CHUNK as int) < len,
                    len <= k * (WRITE_CHUNK as int),
                    WRITE_CHUNK as int > 0,
                    k > 0,
            ;
        }
    }
    frames
}

/// Every frame fits the write buffer, and carries some data.
pub proof fn lemma_frames_fit(index: u16, vs: Seq<u8>, k: int)
    requires
        0 <= k < frame_count(vs.len() as int),
    ensures
        spec_frame(index, vs, k).len() <= WRITE_BUF_SIZE,
        spec_frame(index, vs, k).len() > 2,
{
    assert(k * (WRITE_CHUNK as int) < vs.len()) by (nonlinear_arith)
        requires
            0 <= k < (vs.len() - 1) / (WRITE_CHUNK as int) + 1,
            vs.len() > 0,
            WRITE_CHUNK as int > 0,
    ;
}

/// Consecutive frames continue each other: the data of frame `k + 1` starts where that
/// of frame `k` ends, and its index is advanced by as much.
pub proof fn lemma_frames_continue(index: u16, vs: Seq<u8>, k: int)
    requires
        0 <= k,
        (k + 1) * (WRITE_CHUNK as int) < vs.len(),
        index as int + vs.len() <= 0xffff,
    ensures
        spec_frame(index, vs, k) == be_bytes((index + k * WRITE_CHUNK as int) as u16)
            + vs.subrange(k * WRITE_CHUNK as int, (k + 1) * WRITE_CHUNK as int),
        spec_frame(index, vs, k + 1).subrange(0, 2) == be_bytes(
            (index + (k + 1) * WRITE_CHUNK as int) as u16,
        ),
{
    assert(WRITE_CHUNK == 10238);
    assert(k * (WRITE_CHUNK as int) + WRITE_CHUNK as int == (k + 1) * (WRITE_CHUNK as int));
    assert(spec_frame(index, vs, k + 1).subrange(0, 2) =~= be_bytes(
        (index + (k + 1) * WRITE_CHUNK as int) as u16,
    ));
}

/// The data carried by the first `n` frames of writing `vs` at `index`, in order.
pub open spec fn frames_data(index: u16, vs: Seq<u8>, n: int) -> Seq<u8>
    decreases n,
{
    if n <= 0 {
        Seq::empty()
    } else {
        frames_data(index, vs, n - 1) + spec_frame(index, vs, n - 1).subrange(
            2,
            spec_frame(index, vs, n - 1).len() as int,
        )
    }
}

/// The first `n` frames carry the data up to `n` chunks in.
proof fn lemma_frames_data_prefix(index: u16, vs: Seq<u8>, n: int)
    requires
        0 <= n,
        (n - 1) * (WRITE_CHUNK as int) < vs.len() || n == 0,
    ensures
        frames_data(index, vs, n) == vs.subrange(
            0,
            if n * (WRITE_CHUNK as int) <= vs.len() {
                n * (WRITE_CHUNK as int)
            } else {
                vs.len() as int
            },
        ),
    decreases n,
{
    assert(WRITE_CHUNK == 10238);
    if n > 0 {
        if n > 1 {
            assert((n - 2) * (WRITE_CHUNK as int) < vs.len());
        }
        lemma_frames_data_prefix(index, vs, n - 1);
        let start: int = (n - 1) * (WRITE_CHUNK as int);
        assert(start + WRITE_CHUNK as int == n * (WRITE_CHUNK as int));
        let f = spec_frame(index, vs, n - 1);
        assert(f.subrange(2, f.len() as int) =~= vs.subrange(
            start,
            if n * (WRITE_CHUNK as int) <= vs.len() {
                n * (WRITE_CHUNK as int)
            } else {
                vs.len() as int
            },
        ));
        assert(frames_data(index, vs, n) =~= vs.subrange(
            0,
            if n * (WRITE_CHUNK as int) <= vs.len() {
                n * (WRITE_CHUNK as int)
            } else {
                vs.len() as int
            },
        ));
    } else {
        assert(frames_data(index, vs, 0) =~= vs.subrange(0, 0));
    }
}

/// Together, the frames of a write carry exactly its data, in order.
pub proof fn lemma_frames_carry_data(index: u16, vs: Seq<u8>)
    ensures
        frames_data(index, vs, frame_count(vs.len() as int)) == vs,
{
    let n: int = frame_count(vs.len() as int);
    assert(WRITE_CHUNK == 10238);
    if vs.len() > 0 {
        assert((vs.len() - 1) / (WRITE_CHUNK as int) * (WRITE_CHUNK as int) <= vs.len() - 1) by (nonlinear_arith)
            requires
                vs.len() > 0,
                WRITE_CHUNK as int > 0,
        ;
        assert(vs.len() <= n * (WRITE_CHUNK as int)) by (nonlinear_arith)
            requires
                n == (vs.len() - 1) / (WRITE_CHUNK as int) + 1,
                vs.len() > 0,
                WRITE_CHUNK as int > 0,
        ;
        lemma_frames_data_prefix(index, vs, n);
        assert(vs.subrange(0, vs.len() as int) =~= vs);
    } else {
        assert(vs =~= Seq::<u8>::empty());
    }
}

/// The first `n_max` bytes of `vs` (all of it, if shorter); for logging.
pub fn slice_head(vs: &[u8], n_max: usize) -> (r: &[u8])
    ensures
        r@ == vs@.subrange(0, if vs@.len() < n_max { vs@.len() as int } else { n_max as int }),
{
    let n: usize = if vs.len() < n_max {
        vs.len()
    } else {
        n_max
    };
    &vs[0..n]
}

} // verus!
