//! Composition of a model input from trusted and untrusted sections.

use vstd::prelude::*;
use crate::sanitizer::{
    external_text, sanitize_external_content, sanitize_user_input, sanitized_text,
};

verus! {

/// The block for one context section: nothing for empty content, else the
/// content as external text within 2000 characters, between delimiters
/// that name the section and mark it as reference only.
pub open spec fn section_block(name: Seq<char>, content: Seq<char>) -> Seq<char> {
    if content.len() == 0 {
        Seq::empty()
    } else {
        "--- "@ + name + " (reference only) ---\n"@ + external_text(content, 2000)
            + "\n--- end ---\n\n"@
    }
}

/// The blocks of all context sections, in order.
pub open spec fn sections_text(ss: Seq<(Seq<char>, Seq<char>)>) -> Seq<char>
    decreases ss.len(),
{
    if ss.len() == 0 {
        Seq::empty()
    } else {
        sections_text(ss.drop_last()) + section_block(ss.last().0, ss.last().1)
    }
}

/// One conversation turn: `[role]: message`, the message sanitised within
/// 1000 characters.
pub open spec fn turn_line(role: Seq<char>, message: Seq<char>) -> Seq<char> {
    "["@ + role + "]: "@ + sanitized_text(message, 1000) + "\n"@
}

/// All conversation turns, in order.
pub open spec fn turns_text(ts: Seq<(Seq<char>, Seq<char>)>) -> Seq<char>
    decreases ts.len(),
{
    if ts.len() == 0 {
        Seq::empty()
    } else {
        turns_text(ts.drop_last()) + turn_line(ts.last().0, ts.last().1)
    }
}

/// The whole model input: the system section verbatim between fixed
/// delimiters, the context blocks, the conversation, and an open assistant
/// turn.
pub open spec fn safe_prompt(
    system: Seq<char>,
    ss: Seq<(Seq<char>, Seq<char>)>,
    ts: Seq<(Seq<char>, Seq<char>)>,
) -> Seq<char> {
    "=== SYSTEM INSTRUCTIONS (IMMUTABLE) ===\n"@ + system + "\n=== END SYSTEM ===\n\n"@
        + sections_text(ss) + "=== CONVERSATION ===\n"@ + turns_text(ts) + "[Assistant]: "@
}

/// The views of (name, content) pairs of string slices.
pub open spec fn str_pairs_view(v: Seq<(&str, &str)>) -> Seq<(Seq<char>, Seq<char>)> {
    v.map_values(|p: (&str, &str)| (p.0@, p.1@))
}

/// The views of (role, message) pairs of strings.
pub open spec fn string_pairs_view(v: Seq<(String, String)>) -> Seq<(Seq<char>, Seq<char>)> {
    v.map_values(|p: (String, String)| (p.0@, p.1@))
}

/// Builds the model input from the trusted system prompt, the context
/// sections (name, content) and the conversation (role, message).
pub fn build_safe_prompt(
    system_prompt: &str,
    context_sections: &[(&str, &str)],
    conversation: &[(String, String)],
) -> (r: String)
    ensures
        r@ == safe_prompt(
            system_prompt@,
            str_pairs_view(context_sections@),
            string_pairs_view(conversation@),
        ),
{
    let mut prompt = String::from_str("=== SYSTEM INSTRUCTIONS (IMMUTABLE) ===\n");
    prompt.append(system_prompt);
    prompt.append("\n=== END SYSTEM ===\n\n");
    let ghost head = prompt@;
    let ghost ss = str_pairs_view(context_sections@);
    let mut k: usize = 0;
    assert(ss.take(0) =~= Seq::<(Seq<char>, Seq<char>)>::empty());
    assert(prompt@ =~= head + sections_text(ss.take(0)));
    while k < context_sections.len()
        invariant
            k <= context_sections.len(),
            ss == str_pairs_view(context_sections@),
            prompt@ == head + sections_text(ss.take(k as int)),
        decreases context_sections.len() - k,
    {
        let (name, content) = context_sections[k];
        assert(ss[k as int] == (name@, content@));
        assert(ss.take(k + 1).drop_last() =~= ss.take(k as int));
        if !content.is_empty() {
            let sanitized = sanitize_external_content(content, 2000);
            prompt.append("--- ");
            prompt.append(name);
            prompt.append(" (reference only) ---\n");
            prompt.append(sanitized.as_str());
            prompt.append("\n--- end ---\n\n");
        }
        assert(prompt@ =~= head + sections_text(ss.take(k + 1)));
        k += 1;
    }
    assert(ss.take(context_sections.len() as int) =~= ss);
    prompt.append("=== CONVERSATION ===\n");
    let ghost middle = prompt@;
    let ghost ts = string_pairs_view(conversation@);
    let mut j: usize = 0;
    assert(ts.take(0) =~= Seq::<(Seq<char>, Seq<char>)>::empty());
    assert(prompt@ =~= middle + turns_text(ts.take(0)));
    while j < conversation.len()
        invariant
            j <= conversation.len(),
            ts == string_pairs_view(conversation@),
            prompt@ == middle + turns_text(ts.take(j as int)),
        decreases conversation.len() - j,
    {
        let role = &conversation[j].0;
        let message = &conversation[j].1;
        assert(ts[j as int] == (role@, message@));
        assert(ts.take(j + 1).drop_last() =~= ts.take(j as int));
        let sanitized = sanitize_user_input(message.as_str(), 1000);
        prompt.push('[');
        prompt.append(role.as_str());
        prompt.append("]: ");
        prompt.append(sanitized.sanitized.as_str());
        prompt.push('\n');
        proof {
            reveal_strlit("[");
            reveal_strlit("\n");
        }
        assert(prompt@ =~= middle + turns_text(ts.take(j + 1)));
        j += 1;
    }
    assert(ts.take(conversation.len() as int) =~= ts);
    prompt.append("[Assistant]: ");
    prompt
}

} // verus!
