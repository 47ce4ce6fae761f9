//! Decoder for the runlist (data runs) of a non-resident attribute, and the
//! reader that assembles an attribute's bytes from its runs.

use vstd::prelude::*;
use crate::le::{read_le, le_uint, p256};

verus! {

/// `std::io::Error`, carried through as an opaque value.
#[verifier::external_type_specification]
#[verifier::external_body]
pub struct ExIoError(std::io::Error);

/// One data run: a stretch of contiguous clusters.
#[derive(Debug, Clone, Copy, PartialEq, Eq, Structural)]
pub struct Run {
    /// Number of clusters in the run.
    pub length_clusters: u64,
    /// First logical cluster; `None` for a sparse run (unallocated, reads as zeros).
    pub lcn: Option<u64>,
}

/// `a * b`, saturated at `u64::MAX`.
pub open spec fn sat_mul(a: u64, b: u64) -> u64 {
    if a * b > u64::MAX { u64::MAX } else { (a * b) as u64 }
}

impl Run {
    /// Whether the run is sparse.
    pub fn is_sparse(&self) -> (r: bool)
        ensures
            r == self.lcn is None,
    {
        self.lcn.is_none()
    }

    /// The run's length in bytes, saturating at `u64::MAX`.
    pub fn byte_length(&self, cluster_size: u64) -> (r: u64)
        ensures
            r == sat_mul(self.length_clusters, cluster_size),
    {
        match self.length_clusters.checked_mul(cluster_size) {
            Some(v) => v,
            None => u64::MAX,
        }
    }
}

/// Why a runlist could not be decoded or its data not be read.
#[allow(inconsistent_fields)]
#[derive(Debug)]
pub enum RunlistError {
    BufferTooSmall { got: usize },
    InvalidHeaderNibble { length_bytes: u8, offset_bytes: u8 },
    LengthFieldTruncated { need: usize, got: usize },
    OffsetFieldTruncated { need: usize, got: usize },
    LcnOverflow { previous: i64, delta: i64 },
    NegativeLcn { got: i64 },
    InvalidClusterSize { got: u64 },
    RealSizeMismatch { computed: u64, declared: u64 },
    DiskRead(std::io::Error),
}

/// The signed (two's complement, sign-extended) little-endian value of `n`
/// bytes at `o`.
pub open spec fn le_sint(b: Seq<u8>, o: int, n: nat) -> int {
    let u = le_uint(b, o, n);
    if n > 0 && u >= p256(n) / 2 { u - p256(n) } else { u as int }
}

/// Prefixes the runs decoded so far to the outcome of decoding the rest.
pub open spec fn chain(prefix: Seq<Run>, rest: Result<Seq<Run>, RunlistError>) -> Result<Seq<Run>, RunlistError> {
    match rest {
        Ok(r) => Ok(prefix + r),
        Err(e) => Err(e),
    }
}

/// Decoding of the runlist in `b` from `cursor` on, the current LCN being `lcn`.
/// A header byte holds the size of the length field in its low nibble and the
/// size of the (signed, relative) offset field in its high nibble; `0x00` ends
/// the list and an offset size of 0 marks a sparse run.
pub open spec fn runs_from(b: Seq<u8>, cursor: int, lcn: i64) -> Result<Seq<Run>, RunlistError>
    decreases b.len() - cursor,
{
    if cursor < 0 || cursor >= b.len() {
        Err(RunlistError::BufferTooSmall { got: cursor as usize })
    } else {
        let h = b[cursor];
        let lb = h % 16;
        let ob = h / 16;
        let c1 = cursor + 1;
        if h == 0 {
            Ok(Seq::empty())
        } else if lb == 0 || lb > 8 || ob > 8 {
            Err(RunlistError::InvalidHeaderNibble { length_bytes: lb, offset_bytes: ob })
        } else if c1 + lb > b.len() {
            Err(RunlistError::LengthFieldTruncated { need: lb as usize, got: (b.len() - c1) as usize })
        } else {
            let len = le_uint(b, c1, lb as nat) as u64;
            let c2 = c1 + lb;
            if ob == 0 {
                chain(seq![Run { length_clusters: len, lcn: None }], runs_from(b, c2, lcn))
            } else if c2 + ob > b.len() {
                Err(RunlistError::OffsetFieldTruncated { need: ob as usize, got: (b.len() - c2) as usize })
            } else {
                let delta = le_sint(b, c2, ob as nat);
                let next = lcn + delta;
                if next < i64::MIN || next > i64::MAX {
                    Err(RunlistError::LcnOverflow { previous: lcn, delta: delta as i64 })
                } else if next < 0 {
                    Err(RunlistError::NegativeLcn { got: next as i64 })
                } else {
                    chain(
                        seq![Run { length_clusters: len, lcn: Some(next as u64) }],
                        runs_from(b, c2 + ob, next as i64),
                    )
                }
            }
        }
    }
}

/// The runlist encoded in `b`.
pub open spec fn spec_parse_runlist(b: Seq<u8>) -> Result<Seq<Run>, RunlistError> {
    runs_from(b, 0, 0)
}

proof fn lemma_chain_assoc(p: Seq<Run>, q: Seq<Run>, r: Result<Seq<Run>, RunlistError>)
    ensures
        chain(p, chain(q, r)) == chain(p + q, r),
{
    if r is Ok {
        assert(p + (q + r->Ok_0) =~= (p + q) + r->Ok_0);
    }
}

proof fn lemma_le_uint_top(b: Seq<u8>, o: int, n: nat)
    ensures
        le_uint(b, o, n + 1) == le_uint(b, o, n) + p256(n) * b[o + n],
    decreases n,
{
    if n > 0 {
        let k = (n - 1) as nat;
        lemma_le_uint_top(b, o + 1, k);
        let a = le_uint(b, o + 1, k) as int;
        let pk = p256(k) as int;
        let t = b[o + 1 + k] as int;
        assert(le_uint(b, o + 1, n) == a + pk * t);
        assert(le_uint(b, o, n + 1) == b[o] as int + 256 * le_uint(b, o + 1, n));
        assert(le_uint(b, o, n) == b[o] as int + 256 * a);
        assert(p256(n) == 256 * pk);
        assert(o + 1 + k == o + n);
        assert(256 * (a + pk * t) == 256 * a + (256 * pk) * t) by (nonlinear_arith);
    } else {
        assert(le_uint(b, o + 1, 0) == 0);
        assert(p256(0) == 1);
    }
}


/// `256^n` as a `u128`, for `n <= 8`.
fn pow256(n: usize) -> (r: u128)
    requires
        n <= 8,
    ensures
        r == p256(n as nat),
{
    let mut r: u128 = 1;
    let mut i: usize = 0;
    proof {
        crate::le::lemma_p256_mono(0, 8);
    }
    while i < n
        invariant
            i <= n <= 8,
            r == p256(i as nat),
            p256(i as nat) <= p256(8),
        decreases n - i,
    {
        proof {
            crate::le::lemma_p256_mono((i + 1) as nat, 8);
            crate::le::lemma_p256_values();
        }
        r = r * 256;
        i = i + 1;
        proof {
            if i < 8 {
                crate::le::lemma_p256_mono(i as nat, 8);
            }
        }
    }
    r
}

/// Reads the signed little-endian offset field of `n` (1..=8) bytes at `o`.
fn read_signed_le(b: &[u8], o: usize, n: usize) -> (r: i64)
    requires
        1 <= n <= 8,
        o + n <= b@.len(),
    ensures
        r == le_sint(b@, o as int, n as nat),
{
    let u = read_le(b, o, n);
    let p = pow256(n);
    proof {
        crate::le::lemma_le_uint_bound(b@, o as int, n as nat);
        crate::le::lemma_p256_mono(n as nat, 8);
        crate::le::lemma_p256_values();
        crate::le::lemma_p256_mono(1, n as nat);
    }
    let v: i128 = if (u as u128) >= p / 2 { (u as i128) - (p as i128) } else { u as i128 };
    v as i64
}

/// Decodes a runlist: a sequence of runs ended by a `0x00` header. Offsets are
/// signed and relative to the previous run's LCN.
pub fn parse_runlist(bytes: &[u8]) -> (r: Result<Vec<Run>, RunlistError>)
    ensures
        match r {
            Ok(v) => spec_parse_runlist(bytes@) == Ok::<Seq<Run>, RunlistError>(v@),
            Err(e) => spec_parse_runlist(bytes@) == Err::<Seq<Run>, RunlistError>(e),
        },
{
    let blen = bytes.len();
    let mut runs: Vec<Run> = Vec::new();
    let mut cursor: usize = 0;
    let mut current_lcn: i64 = 0;
    proof {
        assert(runs@ + seq![] =~= seq![]);
        assert(chain(runs@, runs_from(bytes@, 0, 0)) == runs_from(bytes@, 0, 0)) by {
            if runs_from(bytes@, 0, 0) is Ok {
                assert(runs@ + runs_from(bytes@, 0, 0)->Ok_0 =~= runs_from(bytes@, 0, 0)->Ok_0);
            }
        }
    }
    loop
        invariant
            blen == bytes@.len(),
            cursor <= blen,
            spec_parse_runlist(bytes@) == chain(runs@, runs_from(bytes@, cursor as int, current_lcn)),
        decreases blen - cursor,
    {
        let ghost c0 = cursor as int;
        let ghost l0 = current_lcn;
        if cursor >= blen {
            return Err(RunlistError::BufferTooSmall { got: cursor });
        }
        let header = bytes[cursor];
        cursor = cursor + 1;
        if header == 0 {
            proof {
                assert(runs@ + Seq::<Run>::empty() =~= runs@);
            }
            return Ok(runs);
        }
        let length_bytes: u8 = header % 16;
        let offset_bytes: u8 = header / 16;
        if length_bytes == 0 || length_bytes > 8 || offset_bytes > 8 {
            return Err(RunlistError::InvalidHeaderNibble { length_bytes, offset_bytes });
        }
        let lb = length_bytes as usize;
        if lb > blen - cursor {
            return Err(RunlistError::LengthFieldTruncated { need: lb, got: blen - cursor });
        }
        let length = read_le(bytes, cursor, lb);
        cursor = cursor + lb;
        let ob = offset_bytes as usize;
        let lcn = if ob == 0 {
            None
        } else {
            if ob > blen - cursor {
                return Err(RunlistError::OffsetFieldTruncated { need: ob, got: blen - cursor });
            }
            let delta = read_signed_le(bytes, cursor, ob);
            cursor = cursor + ob;
            match current_lcn.checked_add(delta) {
                None => {
                    return Err(RunlistError::LcnOverflow { previous: current_lcn, delta });
                },
                Some(next) => {
                    if next < 0 {
                        return Err(RunlistError::NegativeLcn { got: next });
                    }
                    current_lcn = next;
                    Some(next as u64)
                },
            }
        };
        let run = Run { length_clusters: length, lcn };
        proof {
            assert(runs_from(bytes@, c0, l0) == chain(seq![run], runs_from(bytes@, cursor as int, current_lcn)));
            lemma_chain_assoc(runs@, seq![run], runs_from(bytes@, cursor as int, current_lcn));
        }
        let ghost prev = runs@;
        runs.push(run);
        proof {
            assert(runs@ =~= prev + seq![run]);
        }
    }
}

/// Total byte length of `runs`, each run's length saturating as in
/// [`Run::byte_length`], summed without bound.
pub open spec fn total_bytes(runs: Seq<Run>, cs: u64) -> int
    decreases runs.len(),
{
    if runs.len() == 0 {
        0
    } else {
        total_bytes(runs.drop_last(), cs) + sat_mul(runs.last().length_clusters, cs)
    }
}

/// `s` cut to at most `n` bytes.
pub open spec fn cut(s: Seq<u8>, n: int) -> Seq<u8> {
    if s.len() > n { s.take(n) } else { s }
}

/// The bytes of `runs` laid end to end: for a run with an LCN the bytes that
/// were read for it (`chunks[i]`), for a sparse run zeros of its byte length.
pub open spec fn assembled(runs: Seq<Run>, cs: u64, chunks: Seq<Seq<u8>>) -> Seq<u8>
    decreases runs.len(),
{
    if runs.len() == 0 {
        Seq::empty()
    } else {
        let prev = assembled(runs.drop_last(), cs, chunks.take(runs.len() - 1));
        match runs.last().lcn {
            Some(_) => prev + chunks[runs.len() - 1],
            None => prev + Seq::new(sat_mul(runs.last().length_clusters, cs) as nat, |i: int| 0u8),
        }
    }
}

/// `chunk` is a byte sequence that `read_clusters` can hand back for `run`.
pub open spec fn read_gives<F: FnMut(u64, u64) -> Result<Vec<u8>, std::io::Error>>(
    read_clusters: F,
    run: Run,
    chunk: Seq<u8>,
) -> bool {
    exists|v: Vec<u8>| #[trigger] call_ensures(read_clusters, (run.lcn->Some_0, run.length_clusters), Ok::<Vec<u8>, std::io::Error>(v))
        && v@ == chunk
}


/// A read of `run` through `read_clusters` can fail.
pub open spec fn read_can_fail<F: FnMut(u64, u64) -> Result<Vec<u8>, std::io::Error>>(read_clusters: F, run: Run) -> bool {
    exists|res: Result<Vec<u8>, std::io::Error>| #[trigger] call_ensures(read_clusters, (run.lcn->Some_0, run.length_clusters), res)
        && res is Err
}

proof fn lemma_total_bytes_prefix(runs: Seq<Run>, cs: u64, i: int)
    requires
        0 <= i <= runs.len(),
    ensures
        total_bytes(runs.take(i), cs) <= total_bytes(runs, cs),
    decreases runs.len() - i,
{
    if i < runs.len() {
        lemma_total_bytes_prefix(runs, cs, i + 1);
        assert(runs.take(i + 1).drop_last() =~= runs.take(i));
    } else {
        assert(runs.take(i) =~= runs);
    }
}

pub proof fn lemma_total_bytes_bound(runs: Seq<Run>, cs: u64)
    ensures
        0 <= total_bytes(runs, cs) <= runs.len() * u64::MAX,
    decreases runs.len(),
{
    if runs.len() > 0 {
        lemma_total_bytes_bound(runs.drop_last(), cs);
    }
}

/// Reads the data that `runs` describe through `read_clusters(lcn, count)`:
/// each run with an LCN is read, a sparse run reads as zeros, and the result is
/// cut to `real_size` bytes.
pub fn read_runs_with<F: FnMut(u64, u64) -> Result<Vec<u8>, std::io::Error>>(
    runs: &[Run],
    cluster_size: u64,
    real_size: u64,
    mut read_clusters: F,
) -> (r: Result<Vec<u8>, RunlistError>)
    requires
        forall|lcn: u64, count: u64| call_requires(read_clusters, (lcn, count)),
    ensures
        cluster_size == 0 ==> r == Err::<Vec<u8>, RunlistError>(RunlistError::InvalidClusterSize { got: 0 }),
        cluster_size != 0 && total_bytes(runs@, cluster_size) < real_size ==> r == Err::<Vec<u8>, RunlistError>(
            RunlistError::RealSizeMismatch { computed: total_bytes(runs@, cluster_size) as u64, declared: real_size },
        ),
        cluster_size != 0 && total_bytes(runs@, cluster_size) >= real_size ==> r is Ok || r matches Err(RunlistError::DiskRead(_)),
        r is Ok ==> exists|chunks: Seq<Seq<u8>>| #![trigger assembled(runs@, cluster_size, chunks)]
            {
                &&& chunks.len() == runs@.len()
                &&& forall|i: int|
                    0 <= i < runs@.len() && (#[trigger] runs@[i]).lcn is Some ==> read_gives(read_clusters, runs@[i], chunks[i])
                &&& r->Ok_0@ == cut(assembled(runs@, cluster_size, chunks), real_size as int)
            },
        r matches Err(RunlistError::DiskRead(_)) ==> exists|i: int| 0 <= i < runs@.len() && (#[trigger] runs@[i]).lcn is Some
            && read_can_fail(read_clusters, runs@[i]),
{
    read_runs(runs, cluster_size, real_size, &mut read_clusters)
}

/// One call of the reader, which leaves the reader as it was: the result,
/// data or error, is one that the reader gives for `(lcn, count)`.
fn read_one<F: FnMut(u64, u64) -> Result<Vec<u8>, std::io::Error>>(read_clusters: &mut F, lcn: u64, count: u64)
    -> (r: Result<Vec<u8>, std::io::Error>)
    requires
        call_requires(*old(read_clusters), (lcn, count)),
    ensures
        *final(read_clusters) == *old(read_clusters),
        call_ensures(*old(read_clusters), (lcn, count), r),
{
    read_clusters(lcn, count)
}

/// [`read_runs_with`] over a borrowed reader, which the reads leave as it was.
pub fn read_runs<F: FnMut(u64, u64) -> Result<Vec<u8>, std::io::Error>>(
    runs: &[Run],
    cluster_size: u64,
    real_size: u64,
    read_clusters: &mut F,
) -> (r: Result<Vec<u8>, RunlistError>)
    requires
        forall|lcn: u64, count: u64| call_requires(*old(read_clusters), (lcn, count)),
    ensures
        *final(read_clusters) == *old(read_clusters),
        cluster_size == 0 ==> r == Err::<Vec<u8>, RunlistError>(RunlistError::InvalidClusterSize { got: 0 }),
        cluster_size != 0 && total_bytes(runs@, cluster_size) < real_size ==> r == Err::<Vec<u8>, RunlistError>(
            RunlistError::RealSizeMismatch { computed: total_bytes(runs@, cluster_size) as u64, declared: real_size },
        ),
        cluster_size != 0 && total_bytes(runs@, cluster_size) >= real_size ==> r is Ok || r matches Err(RunlistError::DiskRead(_)),
        r is Ok ==> exists|chunks: Seq<Seq<u8>>| #![trigger assembled(runs@, cluster_size, chunks)]
            {
                &&& chunks.len() == runs@.len()
                &&& forall|i: int|
                    0 <= i < runs@.len() && (#[trigger] runs@[i]).lcn is Some ==> read_gives(*old(read_clusters), runs@[i], chunks[i])
                &&& r->Ok_0@ == cut(assembled(runs@, cluster_size, chunks), real_size as int)
            },
        r matches Err(RunlistError::DiskRead(_)) ==> exists|i: int| 0 <= i < runs@.len() && (#[trigger] runs@[i]).lcn is Some
            && read_can_fail(*old(read_clusters), runs@[i]),
{
    if cluster_size == 0 {
        return Err(RunlistError::InvalidClusterSize { got: 0 });
    }
    let n = runs.len();
    let mut total: u128 = 0;
    let mut i: usize = 0;
    while i < n
        invariant
            n == runs@.len(),
            i <= n,
            total == total_bytes(runs@.take(i as int), cluster_size),
        decreases n - i,
    {
        proof {
            lemma_total_bytes_bound(runs@.take(i as int), cluster_size);
            assert(runs@.take(i as int + 1).drop_last() =~= runs@.take(i as int));
        }
        let bl = runs[i].byte_length(cluster_size);
        total = total + bl as u128;
        i = i + 1;
    }
    proof {
        assert(runs@.take(n as int) =~= runs@);
    }
    if total < real_size as u128 {
        return Err(RunlistError::RealSizeMismatch { computed: total as u64, declared: real_size });
    }
    let mut buf: Vec<u8> = Vec::new();
    let ghost f0 = *read_clusters;
    let ghost mut chunks: Seq<Seq<u8>> = Seq::empty();
    let mut k: usize = 0;
    #[verifier::loop_isolation(false)]
    while k < n
        invariant
            n == runs@.len(),
            k <= n,
            cluster_size != 0,
            total_bytes(runs@, cluster_size) >= real_size,
            *read_clusters == f0,
            forall|lcn: u64, count: u64| call_requires(*read_clusters, (lcn, count)),
            chunks.len() == k,
            forall|i: int| 0 <= i < k && (#[trigger] runs@[i]).lcn is Some ==> read_gives(f0, runs@[i], chunks[i]),
            buf@ == cut(assembled(runs@.take(k as int), cluster_size, chunks), real_size as int),
        decreases n - k,
    {
        let run = runs[k];
        let ghost before = assembled(runs@.take(k as int), cluster_size, chunks);
        let ghost piece: Seq<u8>;
        match run.lcn {
            Some(lcn) => {
                let got = read_one(read_clusters, lcn, run.length_clusters);
                let data = match got {
                    Ok(d) => d,
                    Err(e) => {
                        proof {
                            assert(call_ensures(f0, (run.lcn->Some_0, run.length_clusters), got));
                            assert(runs@[k as int].lcn is Some && read_can_fail(f0, runs@[k as int]));
                        }
                        return Err(RunlistError::DiskRead(e));
                    },
                };
                proof {
                    piece = data@;
                    assert(read_gives(f0, run, data@));
                }
                let dlen = data.len();
                let mut j: usize = 0;
                while j < dlen
                    invariant
                        dlen == data@.len(),
                        j <= dlen,
                                    buf@ == cut(before + data@.take(j as int), real_size as int),
                    decreases dlen - j,
                {
                    if (buf.len() as u64) < real_size {
                        proof {
                            assert(before + data@.take(j as int + 1) =~= (before + data@.take(j as int)).push(data@[j as int]));
                        }
                        buf.push(data[j]);
                    } else {
                        proof {
                            assert((before + data@.take(j as int + 1)).take(real_size as int)
                                =~= (before + data@.take(j as int)).take(real_size as int));
                        }
                    }
                    j = j + 1;
                }
                proof {
                    assert(data@.take(dlen as int) =~= data@);
                }
            },
            None => {
                let zl = run.byte_length(cluster_size);
                proof {
                    piece = Seq::new(zl as nat, |i: int| 0u8);
                }
                let mut j: u64 = 0;
                while j < zl && (buf.len() as u64) < real_size
                    invariant
                        j <= zl,
                                    piece == Seq::new(zl as nat, |i: int| 0u8),
                        buf@ == cut(before + piece.take(j as int), real_size as int),
                        buf@.len() < real_size ==> buf@ == before + piece.take(j as int),
                    decreases zl - j,
                {
                    proof {
                        assert(before + piece.take(j as int + 1) =~= (before + piece.take(j as int)).push(0u8));
                    }
                    buf.push(0u8);
                    j = j + 1;
                }
                proof {
                    if j < zl {
                        assert(buf@.len() >= real_size);
                        assert(cut(before + piece, real_size as int) =~= cut(before + piece.take(j as int), real_size as int));
                    } else {
                        assert(piece.take(j as int) =~= piece);
                    }
                }
            },
        }
        proof {
            let new_chunks = chunks.push(piece);
            assert(runs@.take(k as int + 1).drop_last() =~= runs@.take(k as int));
            assert(new_chunks.take(k as int) =~= chunks);
            assert(runs@.take(k as int + 1).last() == run);
            assert(assembled(runs@.take(k as int + 1), cluster_size, new_chunks) == before + piece);
            chunks = new_chunks;
        }
        k = k + 1;
    }
    proof {
        assert(runs@.take(n as int) =~= runs@);
    }
    Ok(buf)
}

} // verus!
