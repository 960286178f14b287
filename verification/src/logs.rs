//! The debug-report logger's decision core: the report record, the filename
//! a report is stored under, the newest-first ordering of a report list,
//! and the lookup of a report by its identifier.  Reading and writing the
//! report files is the embedding application's.

use crate::text::{
    dec_pad, lemma_lex_le_refl, lemma_lex_le_total, lemma_lex_le_trans, lex_le, push_char,
    push_dec_pad, str_le,
};
use vstd::multiset::Multiset;
use vstd::prelude::*;
use vstd::string::{StrSliceExecFns, StringExecFns};

verus! {

/// One saved debug report.
pub struct DebugLog {
    /// The report's identifier; assigned on save when empty.
    pub id: String,
    /// The report's timestamp text; assigned on save when empty.
    pub timestamp: String,
    /// The kind of issue being reported.
    pub issue_type: String,
    /// The reporter's message.
    pub message: String,
    /// The page the report was filed from.
    pub page_route: String,
    /// Captured console output.
    pub console_logs: Vec<String>,
    /// Environment details.
    pub metadata: LogMetadata,
}

/// Environment details attached to a report.
pub struct LogMetadata {
    /// The application version.
    pub app_version: String,
    /// The platform the application runs on.
    pub platform: String,
    /// The screen resolution at report time.
    pub screen_resolution: String,
}

/// The issue type with every space turned into a dash.
pub open spec fn dashed(s: Seq<char>) -> Seq<char> {
    s.map_values(
        |c: char|
            if c == ' ' {
                '-'
            } else {
                c
            },
    )
}

/// Relies on `str::to_lowercase`: the result depends on the characters
/// alone.
pub uninterp spec fn lower_of(s: Seq<char>) -> Seq<char>;

/// Relies on `str::to_lowercase` for the issue-type slug.
#[verifier::external_body]
fn lowercase(s: &str) -> (r: String)
    ensures
        r@ == lower_of(s@),
{
    s.to_lowercase()
}

/// Turns every space of `s` into a dash.
fn dash_spaces(s: &str) -> (r: String)
    ensures
        r@ == dashed(s@),
{
    let n = s.unicode_len();
    let mut out = String::new();
    let mut i: usize = 0;
    while i < n
        invariant
            i <= n,
            n == s@.len(),
            out@ =~= dashed(s@.take(i as int)),
        decreases n - i,
    {
        let c = s.get_char(i);
        if c == ' ' {
            push_char(&mut out, '-');
        } else {
            push_char(&mut out, c);
        }
        proof {
            assert(out@ =~= dashed(s@.take(i + 1)));
        }
        i = i + 1;
    }
    proof {
        assert(s@.take(n as int) =~= s@);
    }
    out
}

/// The filename a report is stored under: the save date and time as
/// `YYYY-MM-DD_HH-MM-SS`, an underscore, the issue type with spaces dashed
/// and letters lowered, and the extension.
pub open spec fn log_filename_text(
    year: u16,
    month: u8,
    day: u8,
    hour: u8,
    minute: u8,
    second: u8,
    issue_type: Seq<char>,
) -> Seq<char> {
    dec_pad(year as nat, 4) + seq!['-'] + dec_pad(month as nat, 2) + seq!['-'] + dec_pad(
        day as nat,
        2,
    ) + seq!['_'] + dec_pad(hour as nat, 2) + seq!['-'] + dec_pad(minute as nat, 2) + seq!['-']
        + dec_pad(second as nat, 2) + seq!['_'] + lower_of(dashed(issue_type)) + ".json"@
}

/// Builds the filename a report is stored under from the save date and
/// time and the report's issue type.
pub fn debug_log_filename(
    year: u16,
    month: u8,
    day: u8,
    hour: u8,
    minute: u8,
    second: u8,
    issue_type: &str,
) -> (r: String)
    ensures
        r@ == log_filename_text(year, month, day, hour, minute, second, issue_type@),
{
    let mut s = String::new();
    push_dec_pad(&mut s, year as u64, 4);
    push_char(&mut s, '-');
    push_dec_pad(&mut s, month as u64, 2);
    push_char(&mut s, '-');
    push_dec_pad(&mut s, day as u64, 2);
    push_char(&mut s, '_');
    push_dec_pad(&mut s, hour as u64, 2);
    push_char(&mut s, '-');
    push_dec_pad(&mut s, minute as u64, 2);
    push_char(&mut s, '-');
    push_dec_pad(&mut s, second as u64, 2);
    push_char(&mut s, '_');
    let slug = lowercase(dash_spaces(issue_type).as_str());
    s.append(slug.as_str());
    s.append(".json");
    proof {
        assert(s@ =~= log_filename_text(year, month, day, hour, minute, second, issue_type@));
    }
    s
}

/// Whether a report list is ordered newest first: timestamps never grow
/// along the list.
pub open spec fn newest_first(logs: Seq<DebugLog>) -> bool {
    forall|i: int, j: int|
        0 <= i < j < logs.len() ==> lex_le(
            #[trigger] logs[j].timestamp@,
            #[trigger] logs[i].timestamp@,
        )
}

/// Sorts the reports newest first by their timestamp text, keeping exactly
/// the given reports.
pub fn sort_logs_newest_first(logs: Vec<DebugLog>) -> (r: Vec<DebugLog>)
    ensures
        newest_first(r@),
        r@.to_multiset() == logs@.to_multiset(),
{
    broadcast use vstd::seq_lib::group_to_multiset_ensures;

    let mut rest = logs;
    let mut out: Vec<DebugLog> = Vec::new();
    while rest.len() > 0
        invariant
            newest_first(out@),
            forall|i: int, j: int|
                0 <= i < out@.len() && 0 <= j < rest@.len() ==> lex_le(
                    #[trigger] rest@[j].timestamp@,
                    #[trigger] out@[i].timestamp@,
                ),
            out@.to_multiset().add(rest@.to_multiset()) == logs@.to_multiset(),
        decreases rest@.len(),
    {
        // find the newest remaining report
        let mut m: usize = 0;
        let mut k: usize = 1;
        proof {
            lemma_lex_le_refl(rest@[0].timestamp@);
        }
        while k < rest.len()
            invariant
                m < k <= rest@.len(),
                rest@.len() > 0,
                forall|j: int|
                    0 <= j < k ==> lex_le(
                        #[trigger] rest@[j].timestamp@,
                        rest@[m as int].timestamp@,
                    ),
            decreases rest@.len() - k,
        {
            if !str_le(rest[k].timestamp.as_str(), rest[m].timestamp.as_str()) {
                proof {
                    lemma_lex_le_total(rest@[k as int].timestamp@, rest@[m as int].timestamp@);
                    assert forall|j: int| 0 <= j < k implies lex_le(
                        #[trigger] rest@[j].timestamp@,
                        rest@[k as int].timestamp@,
                    ) by {
                        lemma_lex_le_trans(
                            rest@[j].timestamp@,
                            rest@[m as int].timestamp@,
                            rest@[k as int].timestamp@,
                        );
                    }
                }
                m = k;
                proof {
                    lemma_lex_le_refl(rest@[m as int].timestamp@);
                }
            }
            k = k + 1;
        }
        let ghost rest_before = rest@;
        let ghost out_before = out@;
        let picked = rest.remove(m);
        proof {
            assert(rest@ == rest_before.remove(m as int));
            assert(forall|j: int|
                0 <= j < rest@.len() ==> #[trigger] rest@[j] == (if j < m {
                    rest_before[j]
                } else {
                    rest_before[j + 1]
                }));
        }
        out.push(picked);
        proof {
            // ordering: everything still waiting is at or before what was
            // just placed, and the placed report is at or before the rest
            // of the output
            assert(forall|i: int|
                0 <= i < out@.len() ==> #[trigger] out@[i] == (if i < out_before.len() {
                    out_before[i]
                } else {
                    picked
                }));
            assert forall|i: int, j: int|
                0 <= i < out@.len() && 0 <= j < rest@.len() implies lex_le(
                #[trigger] rest@[j].timestamp@,
                #[trigger] out@[i].timestamp@,
            ) by {
                if i == out_before.len() {
                    let jj: int = if j < m { j } else { j + 1 };
                    assert(rest@[j] == rest_before[jj]);
                    assert(lex_le(rest_before[jj].timestamp@, rest_before[m as int].timestamp@));
                }
            }
            assert(newest_first(out@));
            // contents: removing the pick from the waiting pile and adding
            // it to the output moves one occurrence across
            assert(picked == rest_before[m as int]);
            rest_before.to_multiset_ensures();
            out_before.to_multiset_ensures();
            assert(rest_before.remove(m as int).to_multiset() =~= rest_before.to_multiset().remove(
                picked,
            ));
            assert(rest_before.contains(picked));
            assert(rest_before.to_multiset().count(picked) >= 1);
            assert(out_before.push(picked).to_multiset() =~= out_before.to_multiset().insert(
                picked,
            ));
            assert(out@.to_multiset() == out_before.to_multiset().insert(picked));
            assert(out@.to_multiset().add(rest@.to_multiset()) =~= logs@.to_multiset());
        }
    }
    proof {
        assert(rest@.to_multiset() =~= Multiset::<DebugLog>::empty());
        assert(out@.to_multiset() =~= logs@.to_multiset());
    }
    out
}

/// The position of the report whose identifier is `id`, searching in
/// order; nothing when no report carries it.
pub fn find_log_by_id(logs: &Vec<DebugLog>, id: &String) -> (r: Option<usize>)
    ensures
        r is Some ==> r->0 < logs@.len() && logs@[r->0 as int].id@ == id@,
        r is None ==> forall|i: int| 0 <= i < logs@.len() ==> #[trigger] logs@[i].id@ != id@,
        (exists|i: int| 0 <= i < logs@.len() && #[trigger] logs@[i].id@ == id@) ==> r is Some,
{
    let mut i: usize = 0;
    while i < logs.len()
        invariant
            i <= logs@.len(),
            forall|k: int| 0 <= k < i ==> #[trigger] logs@[k].id@ != id@,
        decreases logs@.len() - i,
    {
        if logs[i].id == *id {
            return Some(i);
        }
        i = i + 1;
    }
    None
}

/// The message reported when no saved report carries the identifier.
pub fn missing_log_error(id: &str) -> (r: String)
    ensures
        r@ == "Debug log with ID "@ + id@ + " not found"@,
{
    let mut s = String::from_str("Debug log with ID ");
    s.append(id);
    s.append(" not found");
    s
}

} // verus!
