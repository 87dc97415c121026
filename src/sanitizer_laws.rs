//! Properties of the sanitiser that hold for every input.

use vstd::prelude::*;
use crate::catalog::{dangerous_catalog, injection_catalog};
use crate::sanitizer::{
    dangerous_count, escape_role_markers, found_in, is_modified, matched_patterns, present_in,
    risk_score_of, sanitized_text,
};
use crate::text::{
    collapse_newlines, collapse_prefix, excess_newline, has_substring, lower_of, occurs_at,
    replace_all,
};

verus! {

/// Text in which sanitising finds nothing to change: no role marker and no
/// run of three newlines.
pub open spec fn is_clean(text: Seq<char>) -> bool {
    &&& !has_substring(text, "System:"@)
    &&& !has_substring(text, "system:"@)
    &&& !has_substring(text, "Bot:"@)
    &&& !has_substring(text, "User:"@)
    &&& !has_substring(text, "Assistant:"@)
    &&& !has_substring(text, "Human:"@)
    &&& !has_substring(text, "\n\n\n"@)
}

/// Replacing a sequence that does not occur changes nothing.
pub proof fn lemma_replace_absent(s: Seq<char>, from: Seq<char>, to: Seq<char>)
    requires
        from.len() > 0,
        !has_substring(s, from),
    ensures
        replace_all(s, from, to) == s,
    decreases s.len(),
{
    if s.len() > 0 {
        assert(!occurs_at(s, from, 0));
        let rest = s.drop_first();
        assert(!has_substring(rest, from)) by {
            if has_substring(rest, from) {
                let i = choose|i: int| occurs_at(rest, from, i);
                assert(s.subrange(i + 1, i + 1 + from.len()) =~= rest.subrange(i, i + from.len()));
                assert(occurs_at(s, from, i + 1));
            }
        }
        lemma_replace_absent(rest, from, to);
        assert(seq![s[0]] + rest =~= s);
    }
}

/// Shortening blank-line runs changes nothing in text without three
/// newlines in a row.
pub proof fn lemma_collapse_absent(s: Seq<char>)
    requires
        !has_substring(s, "\n\n\n"@),
    ensures
        collapse_newlines(s) == s,
{
    reveal_strlit("\n\n\n");
    assert forall|n: int| 0 <= n <= s.len() implies #[trigger] collapse_prefix(s, n) == s.take(
        n,
    ) by {
        lemma_collapse_prefix_absent(s, n);
    }
    assert(s.take(s.len() as int) =~= s);
}

proof fn lemma_collapse_prefix_absent(s: Seq<char>, n: int)
    requires
        0 <= n <= s.len(),
        !has_substring(s, "\n\n\n"@),
    ensures
        collapse_prefix(s, n) == s.take(n),
    decreases n,
{
    reveal_strlit("\n\n\n");
    if n > 0 {
        lemma_collapse_prefix_absent(s, n - 1);
        if excess_newline(s, n - 1) {
            assert(s.subrange(n - 3, n) =~= "\n\n\n"@);
            assert(occurs_at(s, "\n\n\n"@, n - 3));
        }
        assert(s.take(n - 1).push(s[n - 1]) =~= s.take(n));
    }
}

/// Text that contains a catalog phrase, in any casing, lists that phrase
/// among its matches and scores at least 20.
pub proof fn lemma_catalog_phrase_detected(text: Seq<char>, phrase: Seq<char>)
    requires
        injection_catalog().contains(phrase),
        has_substring(lower_of(text), phrase),
    ensures
        matched_patterns(text).contains(phrase),
        risk_score_of(text) >= 20,
{
    let cat = injection_catalog();
    let i = choose|i: int| 0 <= i < cat.len() && cat[i] == phrase;
    cat.lemma_filter_contains(found_in(text), i);
}

/// Text with no catalog phrase, in any casing, and no structural sequence
/// scores 0 and matches nothing.
pub proof fn lemma_clean_text_scores_zero(text: Seq<char>)
    requires
        forall|p: Seq<char>| #[trigger]
            injection_catalog().contains(p) ==> !has_substring(lower_of(text), p),
        forall|q: Seq<char>| #[trigger] dangerous_catalog().contains(q) ==> !has_substring(text, q),
    ensures
        matched_patterns(text).len() == 0,
        dangerous_count(text) == 0,
        risk_score_of(text) == 0,
{
    let m = injection_catalog().filter(found_in(text));
    if m.len() > 0 {
        injection_catalog().lemma_filter_pred(found_in(text), 0);
        injection_catalog().lemma_filter_contains_rev(found_in(text), m[0]);
    }
    let d = dangerous_catalog().filter(present_in(text));
    if d.len() > 0 {
        dangerous_catalog().lemma_filter_pred(present_in(text), 0);
        dangerous_catalog().lemma_filter_contains_rev(present_in(text), d[0]);
    }
}

/// The risk score never exceeds 100, however many phrases match.
pub proof fn lemma_risk_capped(text: Seq<char>)
    ensures
        0 <= risk_score_of(text) <= 100,
{
}

/// Clean text within the budget comes back unchanged and is not marked
/// as modified.
pub proof fn lemma_clean_text_unmodified(text: Seq<char>, max: int)
    requires
        is_clean(text),
        text.len() <= max,
    ensures
        sanitized_text(text, max) == text,
        !is_modified(text, max),
{
    reveal_strlit("System:");
    reveal_strlit("system:");
    reveal_strlit("Bot:");
    reveal_strlit("User:");
    reveal_strlit("Assistant:");
    reveal_strlit("Human:");
    lemma_replace_absent(text, "System:"@, "[System]"@);
    lemma_replace_absent(text, "system:"@, "[system]"@);
    lemma_replace_absent(text, "Bot:"@, "[Bot]"@);
    lemma_replace_absent(text, "User:"@, "[User]"@);
    lemma_replace_absent(text, "Assistant:"@, "[Assistant]"@);
    lemma_replace_absent(text, "Human:"@, "[Human]"@);
    assert(escape_role_markers(text) == text);
    lemma_collapse_absent(text);
}

} // verus!
