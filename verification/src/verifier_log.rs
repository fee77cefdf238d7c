//! Parser for the differential verifier-log harness output: one block per
//! program, with the harness's own RESULT / RUNTIME / EXPECT / STORE / PRUNE /
//! LIVENESS declarations and the verbatim kernel verifier log.
//!
//! A block the parser cannot trust (no verifier decision, a non-verifier RESULT,
//! an empty verifier log) is never turned into a default-filled record: it goes
//! to the unparsed bucket. A recognized block may still carry notes on what was
//! only partially understood.
use vstd::prelude::*;
use crate::normalize::{ParseOutput, ParsedRecord, RecordParser, UnparsedBlock};

pub mod fields;
pub mod regs;
pub mod evolution;
pub mod probes;
pub mod gates;
pub mod blocks;
pub mod classify;

use self::blocks::{blocks_spec, split_blocks, lines_view, label_spec};
use self::classify::{classify_block, unparsed_spec, record_ok};

verus! {

/// The characters `String::from_utf8_lossy` decodes from a byte sequence.
pub uninterp spec fn utf8_lossy(b: Seq<u8>) -> Seq<char>;

/// `String::from_utf8_lossy`: the bytes decoded as UTF-8, each invalid sequence
/// replaced by U+FFFD. The contract names the result (`utf8_lossy`) as a function
/// of the bytes alone; what the decoding is, is not restated here.
#[verifier::external_body]
pub(crate) fn decode_lossy(bytes: &[u8]) -> (r: Vec<char>)
    ensures
        r@ == utf8_lossy(bytes@),
{
    String::from_utf8_lossy(bytes).chars().collect()
}

/// The blocks that yield a record, in order.
pub open spec fn ok_blocks(bs: Seq<Seq<Seq<char>>>) -> Seq<Seq<Seq<char>>>
    decreases bs.len(),
{
    if bs.len() == 0 {
        seq![]
    } else {
        ok_blocks(bs.drop_last()) + (if unparsed_spec(bs.last()) is None {
            seq![bs.last()]
        } else {
            seq![]
        })
    }
}

/// The blocks that do not, in order.
pub open spec fn err_blocks(bs: Seq<Seq<Seq<char>>>) -> Seq<Seq<Seq<char>>>
    decreases bs.len(),
{
    if bs.len() == 0 {
        seq![]
    } else {
        err_blocks(bs.drop_last()) + (if unparsed_spec(bs.last()) is Some {
            seq![bs.last()]
        } else {
            seq![]
        })
    }
}

/// The unparsed entry an unusable block yields.
pub open spec fn unparsed_ok(b: Seq<Seq<char>>, u: UnparsedBlock) -> bool {
    match unparsed_spec(b) {
        Some(x) => u.label@ == label_spec(b) && u.kind == x.0 && u.reason@ == x.1,
        None => false,
    }
}

/// Every block of a text classified: records for the usable blocks, unparsed
/// entries for the rest, each in block order.
pub open spec fn parsed_ok(text: Seq<char>, out: ParseOutput) -> bool {
    let bs = blocks_spec(text);
    &&& out.records@.len() == ok_blocks(bs).len()
    &&& forall|i: int|
        0 <= i < out.records@.len() ==> record_ok(ok_blocks(bs)[i], #[trigger] out.records@[i])
    &&& out.unparsed@.len() == err_blocks(bs).len()
    &&& forall|i: int|
        0 <= i < out.unparsed@.len() ==> unparsed_ok(err_blocks(bs)[i], #[trigger] out.unparsed@[i])
}

/// Classifies every block of the harness output text.
pub fn parse_text(text: &Vec<char>) -> (out: ParseOutput)
    ensures
        parsed_ok(text@, out),
{
    let blocks = split_blocks(text);
    let ghost bs = blocks_spec(text@);
    let mut records: Vec<ParsedRecord> = Vec::new();
    let mut unparsed: Vec<UnparsedBlock> = Vec::new();
    let mut i: usize = 0;
    while i < blocks.len()
        invariant
            i <= blocks@.len(),
            self::blocks::blocks_view(blocks@) == bs,
            records@.len() == ok_blocks(bs.take(i as int)).len(),
            forall|k: int|
                0 <= k < records@.len() ==> record_ok(
                    ok_blocks(bs.take(i as int))[k],
                    #[trigger] records@[k],
                ),
            unparsed@.len() == err_blocks(bs.take(i as int)).len(),
            forall|k: int|
                0 <= k < unparsed@.len() ==> unparsed_ok(
                    err_blocks(bs.take(i as int))[k],
                    #[trigger] unparsed@[k],
                ),
        decreases blocks@.len() - i,
    {
        proof {
            assert(bs.take(i + 1).drop_last() =~= bs.take(i as int));
            assert(bs.take(i + 1).last() == lines_view(blocks@[i as int]@));
        }
        let ghost b = lines_view(blocks@[i as int]@);
        match classify_block(&blocks[i]) {
            Ok(p) => {
                records.push(p);
            },
            Err(u) => {
                unparsed.push(u);
            },
        }
        proof {
            assert forall|k: int|
                0 <= k < records@.len() implies record_ok(
                ok_blocks(bs.take(i + 1))[k],
                #[trigger] records@[k],
            ) by {
                if unparsed_spec(b) is None && k == records@.len() - 1 {
                } else {
                    assert(ok_blocks(bs.take(i + 1))[k] == ok_blocks(bs.take(i as int))[k]);
                }
            }
            assert forall|k: int|
                0 <= k < unparsed@.len() implies unparsed_ok(
                err_blocks(bs.take(i + 1))[k],
                #[trigger] unparsed@[k],
            ) by {
                if unparsed_spec(b) is Some && k == unparsed@.len() - 1 {
                } else {
                    assert(err_blocks(bs.take(i + 1))[k] == err_blocks(bs.take(i as int))[k]);
                }
            }
        }
        i = i + 1;
    }
    proof {
        assert(bs.take(bs.len() as int) =~= bs);
    }
    ParseOutput { records, unparsed }
}

/// Parser for the differential verifier-log harness output.
pub struct VerifierLogParser;

impl RecordParser for VerifierLogParser {
    /// Parses harness output bytes, decoded as UTF-8 with invalid sequences
    /// replaced.
    fn parse(&self, tool: &str, bytes: &[u8]) -> (out: ParseOutput)
        ensures
            parsed_ok(utf8_lossy(bytes@), out),
    {
        let text = decode_lossy(bytes);
        parse_text(&text)
    }
}

proof fn lemma_blocks_split(bs: Seq<Seq<Seq<char>>>)
    ensures
        ok_blocks(bs).len() + err_blocks(bs).len() == bs.len(),
    decreases bs.len(),
{
    if bs.len() > 0 {
        lemma_blocks_split(bs.drop_last());
    }
}

/// No native block is silently dropped: every program block of the harness
/// output becomes exactly one record or exactly one unparsed entry.
pub proof fn lemma_every_block_accounted(text: Seq<char>, out: ParseOutput)
    requires
        parsed_ok(text, out),
    ensures
        out.records@.len() + out.unparsed@.len() == blocks_spec(text).len(),
{
    lemma_blocks_split(blocks_spec(text));
}

} // verus!
