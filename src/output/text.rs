//! One-line text descriptions in the style of the `file` command.

use vstd::prelude::*;

use crate::output::MatchResult;

verus! {

/// The messages of `ms` joined with ", ".
pub open spec fn joined_messages(ms: Seq<MatchResult>) -> Seq<char>
    decreases ms.len(),
{
    if ms.len() == 0 {
        Seq::empty()
    } else if ms.len() == 1 {
        ms[0].message@
    } else {
        joined_messages(ms.drop_last()) + ", "@ + ms.last().message@
    }
}

/// The description of a list of matches: their messages joined, or "data" when
/// nothing matched.
pub open spec fn description(ms: Seq<MatchResult>) -> Seq<char> {
    if ms.len() == 0 {
        "data"@
    } else {
        joined_messages(ms)
    }
}

/// The text of one match: its message.
pub fn format_text_result(result: &MatchResult) -> (r: String)
    ensures
        r@ == result.message@,
{
    result.message.clone()
}

/// The messages of all matches, in order, separated by ", "; "data" when there is none.
pub fn format_text_output(results: &[MatchResult]) -> (r: String)
    ensures
        r@ == description(results@),
{
    if results.len() == 0 {
        return String::from_str("data");
    }
    let mut s = results[0].message.clone();
    let mut i: usize = 1;
    while i < results.len()
        invariant
            1 <= i <= results@.len(),
            s@ == joined_messages(results@.subrange(0, i as int)),
        decreases results@.len() - i,
    {
        s.append(", ");
        s.append(results[i].message.as_str());
        proof {
            let next = results@.subrange(0, i + 1);
            assert(next.drop_last() =~= results@.subrange(0, i as int));
        }
        i = i + 1;
    }
    assert(results@.subrange(0, results@.len() as int) =~= results@);
    s
}

/// The description of an evaluation: the matches when there are any, otherwise the
/// error ("ERROR: " and its text) when there is one, otherwise "data".
pub fn format_description(results: &[MatchResult], error: &Option<String>) -> (r: String)
    ensures
        results@.len() > 0 ==> r@ == description(results@),
        results@.len() == 0 && error is Some ==> r@ == "ERROR: "@ + error->0@,
        results@.len() == 0 && error is None ==> r@ == "data"@,
{
    if results.len() == 0 {
        if let Some(e) = error {
            let mut s = String::from_str("ERROR: ");
            s.append(e.as_str());
            return s;
        }
    }
    format_text_output(results)
}

} // verus!
