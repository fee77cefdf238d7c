//! Ingest: cataloguing each tool's native output, unchanged.
//!
//! Ingest never parses, filters or renames a tool's output. For every collected
//! file it records provenance (tool, original path, stored location, size, an
//! mtime label) and a content fingerprint of the unchanged bytes.
use vstd::prelude::*;
use crate::contract::{ContractError, path_join, join_path};
use crate::num::{digit_char, digit_char_exec};
use crate::text::{string_from, string_of_all};

verus! {

/// One raw-output source written by a fuzzer or recon tool. `path` may name a
/// single file or a directory (collected recursively).
#[derive(Debug, Clone)]
pub struct Source {
    /// Tool name, used as the sub-directory under `raw/`.
    pub tool: String,
    /// Where the tool wrote its native output on the host.
    pub path: String,
}

impl Source {
    /// A source for `tool` at `path`.
    pub fn new(tool: &str, path: &str) -> (s: Self)
        ensures
            s.tool@ == tool@,
            s.path@ == path@,
    {
        Source { tool: string_from(tool), path: string_from(path) }
    }
}

/// Provenance record for one collected file. Its content is never parsed.
#[derive(Debug, Clone, PartialEq)]
pub struct RawEntry {
    /// Producing tool (the `raw/<tool>/...` bucket).
    pub tool: String,
    /// Original source path on the host.
    pub source_path: String,
    /// Stored location, relative to the period's `raw/` directory.
    pub stored_path: String,
    /// Size in bytes of the unchanged blob.
    pub bytes: u64,
    /// Source mtime in Unix-epoch seconds: a label only, never a decision input.
    pub mtime_unix: Option<u64>,
    /// FNV-1a-64 fingerprint of the unchanged bytes, as 16 hex digits.
    pub fingerprint: String,
}

/// The raw-index payload: the catalog of everything collected in one batch.
#[derive(Debug, Clone, PartialEq)]
pub struct RawObservation {
    /// Total fuzzing exec count N at collection time (supplied by the caller).
    pub exec_count: u64,
    /// One entry per collected file, in collection order.
    pub entries: Vec<RawEntry>,
}

/// Errors from the ingest stage.
#[derive(Debug)]
pub enum IngestError {
    /// Filesystem I/O failure.
    Io(std::io::Error),
    /// Writing the raw-index artifact failed.
    Contract(ContractError),
}

/// The FNV-1a 64-bit offset basis.
pub const FNV_OFFSET: u64 = 0xcbf29ce484222325;

/// The FNV-1a 64-bit prime.
pub const FNV_PRIME: u64 = 0x00000100000001B3;

/// One FNV-1a round: xor in the byte, then multiply by the prime modulo 2^64.
pub open spec fn fnv_step(h: u64, b: u8) -> u64 {
    (((h ^ (b as u64)) as nat * FNV_PRIME as nat) % 0x1_0000_0000_0000_0000nat) as u64
}

/// FNV-1a-64 of a byte sequence.
pub open spec fn fnv1a64(s: Seq<u8>) -> u64
    decreases s.len(),
{
    if s.len() == 0 {
        FNV_OFFSET
    } else {
        fnv_step(fnv1a64(s.drop_last()), s.last())
    }
}

/// The low `n` hexadecimal digits of `h`, most significant first, zero-padded.
pub open spec fn hex_digits(h: nat, n: nat) -> Seq<char>
    decreases n,
{
    if n == 0 {
        Seq::empty()
    } else {
        hex_digits(h / 16, (n - 1) as nat).push(digit_char(h % 16, 16))
    }
}

/// What `format!("{:016x}", fnv1a64(bytes))` prints.
pub open spec fn fingerprint_spec(s: Seq<u8>) -> Seq<char> {
    hex_digits(fnv1a64(s) as nat, 16)
}

/// The FNV-1a-64 hash of `bytes`.
fn fnv1a64_exec(bytes: &[u8]) -> (h: u64)
    ensures
        h == fnv1a64(bytes@),
{
    let mut hash: u64 = FNV_OFFSET;
    let mut i: usize = 0;
    while i < bytes.len()
        invariant
            i <= bytes@.len(),
            hash == fnv1a64(bytes@.take(i as int)),
        decreases bytes.len() - i,
    {
        proof {
            assert(bytes@.take(i + 1).drop_last() =~= bytes@.take(i as int));
        }
        hash = (hash ^ (bytes[i] as u64)).wrapping_mul(FNV_PRIME);
        i = i + 1;
    }
    proof {
        assert(bytes@.take(bytes@.len() as int) =~= bytes@);
    }
    hash
}

/// The 16 lower-case hex digits of `h`, zero-padded.
fn hex16(h: u64) -> (s: String)
    ensures
        s@ == hex_digits(h as nat, 16),
{
    let mut v: Vec<char> = Vec::new();
    let mut k: usize = 0;
    while k < 16
        invariant
            k <= 16,
            v@.len() == k,
            forall|j: int| 0 <= j < k ==> v@[j] == '0',
        decreases 16 - k,
    {
        v.push('0');
        k = k + 1;
    }
    let mut cur: u64 = h;
    let mut k: usize = 0;
    while k < 16
        invariant
            k <= 16,
            v@.len() == 16,
            hex_digits(h as nat, 16) == hex_digits(cur as nat, (16 - k) as nat) + v@.subrange(
                16 - k,
                16,
            ),
        decreases 16 - k,
    {
        let c = digit_char_exec(cur % 16, 16);
        let ghost old_v = v@;
        v.set(15 - k, c);
        proof {
            let m = (16 - k) as nat;
            assert(hex_digits(cur as nat, m) == hex_digits((cur / 16) as nat, (m - 1) as nat).push(
                c,
            ));
            assert(v@.subrange(15 - k, 16) =~= seq![c] + old_v.subrange(16 - k, 16));
            assert(hex_digits((cur / 16) as nat, (m - 1) as nat).push(c) + old_v.subrange(16 - k, 16)
                =~= hex_digits((cur / 16) as nat, (m - 1) as nat) + (seq![c] + old_v.subrange(
                16 - k,
                16,
            )));
        }
        cur = cur / 16;
        k = k + 1;
    }
    proof {
        assert(v@.subrange(0, 16) =~= v@);
        assert(hex_digits(cur as nat, 0) + v@ =~= v@);
    }
    string_of_all(&v)
}

/// The content fingerprint of `bytes`: FNV-1a-64 as 16 lower-case hex digits.
/// Deterministic and platform-independent, but not cryptographic.
pub fn fnv1a64_hex(bytes: &[u8]) -> (s: String)
    ensures
        s@ == fingerprint_spec(bytes@),
{
    let h = fnv1a64_exec(bytes);
    hex16(h)
}

impl RawEntry {
    /// The catalog entry for one collected file: `bytes` are its unchanged
    /// contents, `rel` its path relative to the tool's source root, stored under
    /// `<tool>/<rel>`.
    pub fn of_blob(
        tool: &str,
        source_path: &str,
        rel: &str,
        bytes: &[u8],
        mtime_unix: Option<u64>,
    ) -> (e: Self)
        ensures
            e.tool@ == tool@,
            e.source_path@ == source_path@,
            e.stored_path@ == path_join(tool@, rel@),
            e.bytes == bytes@.len(),
            e.mtime_unix == mtime_unix,
            e.fingerprint@ == fingerprint_spec(bytes@),
    {
        let t = string_from(tool);
        let stored_path = join_path(&t, rel);
        RawEntry {
            tool: t,
            source_path: string_from(source_path),
            stored_path,
            bytes: bytes.len() as u64,
            mtime_unix,
            fingerprint: fnv1a64_hex(bytes),
        }
    }
}

} // verus!
