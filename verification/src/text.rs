//! Assembly of transcribed text and deterministic output naming.
//!
//! The final text of a pass concatenates the segment results in ascending
//! segment-index order — whatever order the segments completed in — skipping
//! segments that failed or returned empty text.  Output files and the
//! per-part manifest are named deterministically from the source file's base
//! name and the part number.

use vstd::prelude::*;
use vstd::arithmetic::mul::lemma_mul_inequality;
use vstd::string::StringExecFns;
use crate::file_utils::spec_dec;
use crate::file_utils::u64_to_string;
use crate::segments::SegmentResults;

verus! {

/// How one segment's entry is rendered: nothing for a failed or empty
/// segment; otherwise the text on a line of its own, prefixed with the
/// segment's start time when timestamps are asked for.
pub open spec fn spec_render_segment(
    i: int,
    slot: Option<String>,
    timestamps: bool,
    segment_secs: nat,
) -> Seq<char> {
    match slot {
        None => Seq::<char>::empty(),
        Some(text) => if text@.len() == 0 {
            Seq::<char>::empty()
        } else {
            if timestamps {
                "["@ + spec_dec(i as nat * segment_secs) + "s] "@ + text@ + "\n"@
            } else {
                text@ + "\n"@
            }
        },
    }
}

/// The assembled text of the first `n` segments, in index order.
pub open spec fn spec_assembled_prefix(
    s: Seq<Option<String>>,
    n: int,
    timestamps: bool,
    segment_secs: nat,
) -> Seq<char>
    decreases n,
{
    if n <= 0 {
        Seq::<char>::empty()
    } else {
        spec_assembled_prefix(s, n - 1, timestamps, segment_secs) + spec_render_segment(
            n - 1,
            s[n - 1],
            timestamps,
            segment_secs,
        )
    }
}

/// The assembled text of a whole result map, in segment-index order.
pub open spec fn spec_assembled(
    s: Seq<Option<String>>,
    timestamps: bool,
    segment_secs: nat,
) -> Seq<char> {
    spec_assembled_prefix(s, s.len() as int, timestamps, segment_secs)
}

/// Prepares the text of one pass: segments in index order, each on its own
/// line, skipped when failed or empty, with a start-time prefix when
/// `timestamps` is set.
#[verifier::loop_isolation(false)]
pub fn assemble_text(results: &SegmentResults, timestamps: bool, segment_secs: u64) -> (r: String)
    requires
        results@.len() * segment_secs <= u64::MAX,
    ensures
        r@ == spec_assembled(results@, timestamps, segment_secs as nat),
{
    let n = results.len();
    let mut r = String::new();
    let mut i: usize = 0;
    while i < n
        invariant
            i <= n,
            r@ == spec_assembled_prefix(results@, i as int, timestamps, segment_secs as nat),
        decreases n - i,
    {
        match results.get(i) {
            Some(text) => {
                if text.unicode_len() > 0 {
                    if timestamps {
                        proof {
                            lemma_mul_inequality(i as int, results@.len() as int, segment_secs as int);
                        }
                        let start = (i as u64) * segment_secs;
                        r.append("[");
                        let d = u64_to_string(start);
                        r.append(d.as_str());
                        r.append("s] ");
                    }
                    r.append(text.as_str());
                    r.append("\n");
                }
            },
            None => {},
        }
        i = i + 1;
    }
    r
}

/// The output file name of a pass: the base name with `.txt`, or with
/// `_part<n>.txt` for part `n` of a multi-part file (numbered from 1).
pub open spec fn spec_output_name(base: Seq<char>, part: Option<int>) -> Seq<char> {
    match part {
        None => base + ".txt"@,
        Some(n) => base + "_part"@ + spec_dec((n + 1) as nat) + ".txt"@,
    }
}

/// Derives the deterministic output file name for a pass or a part.
pub fn output_name(base: &String, part: Option<usize>) -> (r: String)
    requires
        part matches Some(n) ==> n < usize::MAX,
    ensures
        match part {
            None => r@ == spec_output_name(base@, None),
            Some(n) => r@ == spec_output_name(base@, Some(n as int)),
        },
{
    let mut r = base.clone();
    match part {
        None => {
            r.append(".txt");
        },
        Some(n) => {
            r.append("_part");
            let d = u64_to_string((n as u64) + 1);
            r.append(d.as_str());
            r.append(".txt");
        },
    }
    r
}

/// The manifest that indexes a completed multi-part file: one part output
/// name per line, in part order.
pub open spec fn spec_manifest_prefix(base: Seq<char>, n: int) -> Seq<char>
    decreases n,
{
    if n <= 0 {
        Seq::<char>::empty()
    } else {
        spec_manifest_prefix(base, n - 1) + spec_output_name(base, Some(n - 1)) + "\n"@
    }
}

/// The manifest text listing every part output file of a completed file, in
/// ascending part order.  It is a pure function of the base name and the
/// part count, so re-emitting it for an unchanged record reproduces it
/// unchanged.
#[verifier::loop_isolation(false)]
pub fn manifest_text(base: &String, total_parts: usize) -> (r: String)
    requires
        total_parts < usize::MAX,
    ensures
        r@ == spec_manifest_prefix(base@, total_parts as int),
{
    let mut r = String::new();
    let mut i: usize = 0;
    while i < total_parts
        invariant
            i <= total_parts,
            r@ == spec_manifest_prefix(base@, i as int),
        decreases total_parts - i,
    {
        let name = output_name(base, Some(i));
        r.append(name.as_str());
        r.append("\n");
        i = i + 1;
    }
    r
}

} // verus!
