//! Scoring and sanitising of untrusted text.

use vstd::prelude::*;
use crate::catalog::{
    dangerous_catalog, dangerous_sequences, injection_catalog, injection_patterns,
    persona_catalog, persona_patterns,
};
use crate::text::{
    chars_of, collapse_newlines, collapse_newlines_exec, contains_seq, cut_with_ellipsis,
    cut_with_ellipsis_exec, decimal, has_substring, is_whitespace, join_lines,
    lines_of, lower_of, lowercase, push_all, push_decimal, push_signed_decimal, replace_all,
    replace_seq, same_chars, signed_decimal, split_lines, string_of, trim_end, views_of,
};

verus! {

/// What the sanitiser found in, and made of, one piece of text.
#[derive(Debug, Clone)]
pub struct SanitizationResult {
    /// The text as it may be placed in a prompt.
    pub sanitized: String,
    /// The text was changed or cut.
    pub was_modified: bool,
    /// The catalog phrases found, in catalog order.
    pub detected_patterns: Vec<String>,
    /// Risk estimate, 0 to 100.
    pub risk_score: u8,
}

/// The views of a sequence of strings.
pub open spec fn strings_view(v: Seq<String>) -> Seq<Seq<char>> {
    v.map_values(|s: String| s@)
}

/// Holds of a phrase found in `text` as it stands.
pub open spec fn present_in(text: Seq<char>) -> spec_fn(Seq<char>) -> bool {
    |q: Seq<char>| has_substring(text, q)
}

/// Holds of a catalog phrase found in the lower-case form of `text`.
pub open spec fn found_in(text: Seq<char>) -> spec_fn(Seq<char>) -> bool {
    present_in(lower_of(text))
}

/// The injection phrases that `text` contains, in any casing, in catalog order.
pub open spec fn matched_patterns(text: Seq<char>) -> Seq<Seq<char>> {
    injection_catalog().filter(found_in(text))
}

/// How many distinct structural sequences `text` contains.
pub open spec fn dangerous_count(text: Seq<char>) -> nat {
    dangerous_catalog().filter(present_in(text)).len()
}

/// 20 for each matched phrase and 5 for each structural sequence, at most 100.
pub open spec fn risk_score_of(text: Seq<char>) -> int {
    let raw = 20 * matched_patterns(text).len() + 5 * dangerous_count(text);
    if raw > 100 {
        100
    } else {
        raw as int
    }
}

/// `text` with its role markers bracketed.
pub open spec fn escape_role_markers(text: Seq<char>) -> Seq<char> {
    let a = replace_all(text, "System:"@, "[System]"@);
    let b = replace_all(a, "system:"@, "[system]"@);
    let c = replace_all(b, "Bot:"@, "[Bot]"@);
    let d = replace_all(c, "User:"@, "[User]"@);
    let e = replace_all(d, "Assistant:"@, "[Assistant]"@);
    replace_all(e, "Human:"@, "[Human]"@)
}

/// `text` with role markers bracketed and blank-line runs shortened.
pub open spec fn neutralized(text: Seq<char>) -> Seq<char> {
    collapse_newlines(escape_role_markers(text))
}

/// The sanitised form of `text` within a budget of `max` characters.
pub open spec fn sanitized_text(text: Seq<char>, max: int) -> Seq<char> {
    let t = neutralized(text);
    if t.len() <= max {
        t
    } else {
        cut_with_ellipsis(t, max)
    }
}

/// Sanitising `text` within `max` changed or cut it.
pub open spec fn is_modified(text: Seq<char>, max: int) -> bool {
    sanitized_text(text, max) != text || neutralized(text).len() > max
}

fn replace_literal(s: Vec<char>, from: &str, to: &str) -> (r: Vec<char>)
    requires
        from@.len() > 0,
    ensures
        r@ == replace_all(s@, from@, to@),
{
    let f = chars_of(from);
    let t = chars_of(to);
    replace_seq(&s, &f, &t)
}

fn escape_role_markers_exec(s: Vec<char>) -> (r: Vec<char>)
    ensures
        r@ == escape_role_markers(s@),
{
    proof {
        reveal_strlit("System:");
        reveal_strlit("system:");
        reveal_strlit("Bot:");
        reveal_strlit("User:");
        reveal_strlit("Assistant:");
        reveal_strlit("Human:");
    }
    let a = replace_literal(s, "System:", "[System]");
    let b = replace_literal(a, "system:", "[system]");
    let c = replace_literal(b, "Bot:", "[Bot]");
    let d = replace_literal(c, "User:", "[User]");
    let e = replace_literal(d, "Assistant:", "[Assistant]");
    replace_literal(e, "Human:", "[Human]")
}

/// The phrases of `pats` that occur in `text`, in list order.
fn phrases_present(text: &Vec<char>, pats: &Vec<&'static str>) -> (r: Vec<String>)
    ensures
        strings_view(r@) == pats@.map_values(|p: &str| p@).filter(present_in(text@)),
{
    let ghost cat = pats@.map_values(|p: &str| p@);
    let ghost pred = present_in(text@);
    let mut found: Vec<String> = Vec::new();
    assert(cat.take(0) =~= Seq::<Seq<char>>::empty());
    proof {
        reveal(Seq::filter);
    }
    assert(strings_view(found@) =~= cat.take(0).filter(pred));
    for k in 0..pats.len()
        invariant
            cat == pats@.map_values(|p: &str| p@),
            pred == present_in(text@),
            strings_view(found@) == cat.take(k as int).filter(pred),
    {
        assert(cat.take(k + 1) =~= cat.take(k as int).push(cat[k as int]));
        proof {
            cat.take(k as int).lemma_filter_push(cat[k as int], pred);
        }
        let p = chars_of(pats[k]);
        assert(p@ == cat[k as int]);
        if contains_seq(text, &p) {
            let ghost before = strings_view(found@);
            found.push(String::from_str(pats[k]));
            assert(strings_view(found@) =~= before.push(cat[k as int]));
        }
    }
    assert(cat.take(cat.len() as int) =~= cat);
    found
}

/// The injection phrases that the lower-case text `lower` contains, in
/// catalog order.
pub fn catalog_matches(lower: &str) -> (r: Vec<String>)
    ensures
        strings_view(r@) == injection_catalog().filter(present_in(lower@)),
{
    let text = chars_of(lower);
    phrases_present(&text, &injection_patterns())
}

/// The dangerous persona phrases that the lower-case text `lower`
/// contains, in list order.
pub fn persona_matches(lower: &str) -> (r: Vec<String>)
    ensures
        strings_view(r@) == persona_catalog().filter(present_in(lower@)),
{
    let text = chars_of(lower);
    phrases_present(&text, &persona_patterns())
}

/// The catalog phrases that `input` contains, in any casing.
fn detect_patterns(input: &str) -> (r: Vec<String>)
    ensures
        strings_view(r@) == matched_patterns(input@),
{
    let lower = lowercase(input);
    catalog_matches(lower.as_str())
}

/// How many structural sequences `input` contains.
fn count_dangerous(input: &Vec<char>) -> (r: usize)
    ensures
        r == dangerous_catalog().filter(present_in(input@)).len(),
        r <= 5,
{
    let found = phrases_present(input, &dangerous_sequences());
    proof {
        dangerous_catalog().lemma_filter_len(present_in(input@));
    }
    found.len()
}

/// Scores `input` for injection risk and sanitises it for a prompt, within
/// a budget of `max_length` characters.
pub fn sanitize_user_input(input: &str, max_length: usize) -> (r: SanitizationResult)
    ensures
        strings_view(r.detected_patterns@) == matched_patterns(input@),
        r.risk_score == risk_score_of(input@),
        r.sanitized@ == sanitized_text(input@, max_length as int),
        r.was_modified == is_modified(input@, max_length as int),
        r.risk_score <= 100,
        r.sanitized@.len() <= max_length + 3,
        input@.len() > max_length ==> r.was_modified,
{
    let detected_patterns = detect_patterns(input);
    let original = chars_of(input);
    let dangerous = count_dangerous(&original);
    proof {
        injection_catalog().lemma_filter_len(found_in(input@));
        assert(injection_catalog().len() == 54);
    }
    let raw: usize = 20 * detected_patterns.len() + 5 * dangerous;
    let risk_score: u8 = if raw > 100 {
        100
    } else {
        raw as u8
    };
    let escaped = escape_role_markers_exec(chars_of(input));
    let neutral = collapse_newlines_exec(&escaped);
    let was_truncated = neutral.len() > max_length;
    let out = if was_truncated {
        cut_with_ellipsis_exec(&neutral, max_length)
    } else {
        neutral
    };
    let was_modified = !same_chars(&out, &original) || was_truncated;
    SanitizationResult {
        sanitized: string_of(&out),
        was_modified,
        detected_patterns,
        risk_score,
    }
}


/// A line short enough to pass for a role header (under 30 characters)
/// that ends, before any trailing whitespace, in a colon.
pub open spec fn looks_like_header(l: Seq<char>) -> bool {
    let t = trim_end(l);
    t.len() > 0 && t.last() == ':' && l.len() < 30
}

/// `l`, indented by two spaces when it looks like a role header.
pub open spec fn escape_line(l: Seq<char>) -> Seq<char> {
    if looks_like_header(l) {
        seq![' ', ' '] + l
    } else {
        l
    }
}

/// The sanitised form of external `content` within `max` characters, with
/// header-like lines indented.
pub open spec fn external_text(content: Seq<char>, max: int) -> Seq<char> {
    join_lines(lines_of(sanitized_text(content, max)).map_values(|l: Seq<char>| escape_line(l)))
}

fn escape_line_exec(l: &Vec<char>) -> (r: Vec<char>)
    ensures
        r@ == escape_line(l@),
{
    let mut j: usize = l.len();
    assert(l@.take(j as int) =~= l@);
    while j > 0 && is_whitespace(l[j - 1])
        invariant
            j <= l.len(),
            trim_end(l@) == trim_end(l@.take(j as int)),
        decreases j,
    {
        assert(l@.take(j as int).drop_last() =~= l@.take(j - 1));
        j -= 1;
    }
    let ghost t = l@.take(j as int);
    assert(trim_end(t) == t);
    if j > 0 && l[j - 1] == ':' && l.len() < 30 {
        let mut r: Vec<char> = Vec::new();
        r.push(' ');
        r.push(' ');
        push_all(&mut r, l);
        assert(r@ =~= seq![' ', ' '] + l@);
        r
    } else {
        l.clone()
    }
}

/// Sanitises content from an outside source (a search result, a stored
/// memory) within `max_length` characters, and indents each line that
/// could pass for a role header.
pub fn sanitize_external_content(content: &str, max_length: usize) -> (r: String)
    ensures
        r@ == external_text(content@, max_length as int),
{
    let result = sanitize_user_input(content, max_length);
    let sanitized = chars_of(result.sanitized.as_str());
    let lines = split_lines(&sanitized);
    let ghost ls = lines_of(sanitized@);
    let ghost escaped = ls.map_values(|l: Seq<char>| escape_line(l));
    let mut out: Vec<char> = Vec::new();
    let mut k: usize = 0;
    assert(escaped.take(0) =~= Seq::<Seq<char>>::empty());
    while k < lines.len()
        invariant
            k <= lines.len(),
            views_of(lines@) == ls,
            ls.len() == lines.len(),
            escaped == ls.map_values(|l: Seq<char>| escape_line(l)),
            out@ == join_lines(escaped.take(k as int)),
        decreases lines.len() - k,
    {
        assert(lines@[k as int]@ == ls[k as int]);
        let e = escape_line_exec(&lines[k]);
        let ghost pre = escaped.take(k as int);
        assert(escaped.take(k + 1).drop_last() =~= pre);
        if k > 0 {
            out.push('\n');
        }
        push_all(&mut out, &e);
        assert(out@ =~= join_lines(escaped.take(k + 1)));
        k += 1;
    }
    assert(escaped.take(lines.len() as int) =~= escaped);
    string_of(&out)
}

/// The persona phrases that `prompt` contains, in any casing, in list order.
pub open spec fn persona_hits(prompt: Seq<char>) -> Seq<Seq<char>> {
    persona_catalog().filter(found_in(prompt))
}

/// `p` between double quotes.
pub open spec fn quoted(p: Seq<char>) -> Seq<char> {
    seq!['"'] + p + seq!['"']
}

/// The phrases, each quoted, separated by a comma and a space.
pub open spec fn quoted_items(ps: Seq<Seq<char>>) -> Seq<char>
    decreases ps.len(),
{
    if ps.len() == 0 {
        Seq::empty()
    } else if ps.len() == 1 {
        quoted(ps[0])
    } else {
        quoted_items(ps.drop_last()) + seq![',', ' '] + quoted(ps.last())
    }
}

/// The phrases as a bracketed list: `["a", "b"]`.
pub open spec fn pattern_list(ps: Seq<Seq<char>>) -> Seq<char> {
    seq!['['] + quoted_items(ps) + seq![']']
}

/// The warning for a persona definition whose risk score is too high.
pub open spec fn risk_warning(score: nat, ps: Seq<Seq<char>>) -> Seq<char> {
    "High risk score ("@ + decimal(score) + "): detected patterns "@ + pattern_list(ps)
}

/// The warning for a dangerous phrase in a persona definition.
pub open spec fn persona_warning(p: Seq<char>) -> Seq<char> {
    "Dangerous pattern in persona: '"@ + p + "'"@
}

/// Every warning that a persona definition draws, in order.
pub open spec fn persona_warnings(prompt: Seq<char>) -> Seq<Seq<char>> {
    let head = if risk_score_of(prompt) > 50 {
        seq![risk_warning(risk_score_of(prompt) as nat, matched_patterns(prompt))]
    } else {
        Seq::empty()
    };
    head + persona_hits(prompt).map_values(|p: Seq<char>| persona_warning(p))
}

fn push_pattern_list(out: &mut String, ps: &Vec<String>)
    ensures
        final(out)@ == old(out)@ + pattern_list(strings_view(ps@)),
{
    let ghost v = strings_view(ps@);
    out.push('[');
    let mut k: usize = 0;
    assert(v.take(0) =~= Seq::<Seq<char>>::empty());
    while k < ps.len()
        invariant
            k <= ps.len(),
            v == strings_view(ps@),
            out@ == old(out)@ + seq!['['] + quoted_items(v.take(k as int)),
        decreases ps.len() - k,
    {
        assert(v.take(k + 1).drop_last() =~= v.take(k as int));
        assert(v[k as int] == ps@[k as int]@);
        if k > 0 {
            out.push(',');
            out.push(' ');
        }
        out.push('"');
        out.append(ps[k].as_str());
        out.push('"');
        assert(out@ =~= old(out)@ + seq!['['] + quoted_items(v.take(k + 1)));
        k += 1;
    }
    assert(v.take(ps.len() as int) =~= v);
    out.push(']');
    assert(final(out)@ =~= old(out)@ + pattern_list(v));
}

/// Checks a persona definition: its sanitised form at a budget of 4000
/// characters, a warning when its risk score exceeds 50 and one for each
/// dangerous persona phrase it holds. It is safe when it draws no warning
/// and its risk score is under 30.
pub fn validate_persona_prompt(prompt: &str) -> (r: (bool, String, Vec<String>))
    ensures
        r.1@ == sanitized_text(prompt@, 4000),
        strings_view(r.2@) == persona_warnings(prompt@),
        r.0 == (r.2@.len() == 0 && risk_score_of(prompt@) < 30),
{
    let mut warnings: Vec<String> = Vec::new();
    let result = sanitize_user_input(prompt, 4000);
    if result.risk_score > 50 {
        let mut w = String::from_str("High risk score (");
        push_decimal(&mut w, result.risk_score as u64);
        w.append("): detected patterns ");
        push_pattern_list(&mut w, &result.detected_patterns);
        warnings.push(w);
    }
    let ghost head = strings_view(warnings@);
    let lower = lowercase(prompt);
    let hits = persona_matches(lower.as_str());
    let ghost hv = strings_view(hits@);
    let ghost warn = |p: Seq<char>| persona_warning(p);
    assert(hv.take(0) =~= Seq::<Seq<char>>::empty());
    assert(strings_view(warnings@) =~= head + hv.take(0).map_values(warn));
    for k in 0..hits.len()
        invariant
            hv == strings_view(hits@),
            warn == (|p: Seq<char>| persona_warning(p)),
            strings_view(warnings@) == head + hv.take(k as int).map_values(warn),
    {
        let ghost before = strings_view(warnings@);
        let mut w = String::from_str("Dangerous pattern in persona: '");
        w.append(hits[k].as_str());
        w.append("'");
        assert(hv[k as int] == hits@[k as int]@);
        assert(w@ == persona_warning(hv[k as int]));
        assert(hv.take(k + 1) =~= hv.take(k as int).push(hv[k as int]));
        assert(hv.take(k as int).push(hv[k as int]).map_values(warn) =~= hv.take(
            k as int,
        ).map_values(warn).push(persona_warning(hv[k as int])));
        warnings.push(w);
        assert(strings_view(warnings@) =~= before.push(w@));
        assert(strings_view(warnings@) =~= head + hv.take(k + 1).map_values(warn));
    }
    assert(hv.take(hv.len() as int) =~= hv);
    assert(strings_view(warnings@) =~= persona_warnings(prompt@));
    let is_safe = warnings.len() == 0 && result.risk_score < 30;
    (is_safe, result.sanitized, warnings)
}

/// Whether a message deserves review: a risk score of 40 or more, or any
/// injection phrase at all.
pub fn should_flag_message(input: &str) -> (r: bool)
    ensures
        r == (risk_score_of(input@) >= 40 || matched_patterns(input@).len() > 0),
{
    let result = sanitize_user_input(input, 10000);
    result.risk_score >= 40 || result.detected_patterns.len() > 0
}

/// How an optional identity reads in a log record.
pub open spec fn optional_id_text(user_id: Option<u64>) -> Seq<char> {
    match user_id {
        Some(u) => "Some("@ + decimal(u as nat) + ")"@,
        None => "None"@,
    }
}

/// At most the first 100 characters of `input`.
pub open spec fn preview(input: Seq<char>) -> Seq<char> {
    if input.len() <= 100 {
        input
    } else {
        input.take(100)
    }
}

/// The log record for a suspicious message.
pub open spec fn injection_record(
    chat_id: int,
    user_id: Option<u64>,
    input: Seq<char>,
    risk: nat,
    ps: Seq<Seq<char>>,
) -> Seq<char> {
    "Potential prompt injection - chat: "@ + signed_decimal(chat_id) + ", user: "@
        + optional_id_text(user_id) + ", risk: "@ + decimal(risk) + ", patterns: "@
        + pattern_list(ps) + ", input_preview: "@ + preview(input)
}

/// The record to log for a sanitised message: `None` when it has no risk
/// and no matched phrase, so that there is nothing to report.
pub fn log_injection_attempt(
    chat_id: i64,
    user_id: Option<u64>,
    input: &str,
    result: &SanitizationResult,
) -> (r: Option<String>)
    ensures
        r is Some <==> (result.risk_score > 0 || result.detected_patterns@.len() > 0),
        r matches Some(s) ==> s@ == injection_record(
            chat_id as int,
            user_id,
            input@,
            result.risk_score as nat,
            strings_view(result.detected_patterns@),
        ),
{
    if result.risk_score == 0 && result.detected_patterns.len() == 0 {
        return None;
    }
    let mut s = String::from_str("Potential prompt injection - chat: ");
    push_signed_decimal(&mut s, chat_id);
    s.append(", user: ");
    match user_id {
        Some(u) => {
            s.append("Some(");
            push_decimal(&mut s, u);
            s.append(")");
        },
        None => {
            s.append("None");
        },
    }
    s.append(", risk: ");
    push_decimal(&mut s, result.risk_score as u64);
    s.append(", patterns: ");
    push_pattern_list(&mut s, &result.detected_patterns);
    s.append(", input_preview: ");
    let chars = chars_of(input);
    let n: usize = if chars.len() <= 100 {
        chars.len()
    } else {
        100
    };
    let mut i: usize = 0;
    let ghost start = s@;
    while i < n
        invariant
            i <= n <= chars.len(),
            s@ == start + chars@.take(i as int),
        decreases n - i,
    {
        s.push(chars[i]);
        assert(chars@.take(i + 1) =~= chars@.take(i as int).push(chars@[i as int]));
        i += 1;
    }
    assert(chars@.take(n as int) =~= preview(input@));
    Some(s)
}

} // verus!
