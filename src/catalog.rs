//! The fixed phrase lists that the sanitiser scores text against.

use vstd::prelude::*;

verus! {

/// Phrases that signal an attempt to inject instructions, in lower case:
/// instruction overrides, role manipulation, jailbreaks, output coercion,
/// and Russian variants.
pub open spec fn injection_catalog() -> Seq<Seq<char>> {
    seq![
        "ignore previous"@, "ignore above"@, "ignore all"@, "disregard previous"@,
        "disregard above"@, "forget previous"@, "forget above"@, "forget your instructions"@,
        "new instructions"@, "override instructions"@, "system prompt"@, "system:"@,
        "### system"@, "### instruction"@, "[system]"@, "[inst]"@, "<|system|>"@,
        "<|im_start|>"@, "<s>"@, "</s>"@, "<<sys>>"@, "<</sys>>"@,
        "you are now"@, "act as if"@, "pretend you are"@, "roleplay as"@, "from now on"@,
        "starting now"@, "new persona"@, "change your"@, "switch to"@,
        "dan mode"@, "developer mode"@, "jailbreak"@, "bypass"@, "unlock"@,
        "no restrictions"@, "without limits"@, "ignore safety"@, "ignore ethics"@,
        "respond with"@, "always respond"@, "never respond"@, "only respond"@,
        "must respond"@, "output only"@, "print only"@,
        "игнорируй предыдущ"@, "забудь предыдущ"@, "новые инструкции"@,
        "системный промпт"@, "ты теперь"@, "притворись"@, "с этого момента"@,
    ]
}

/// The injection phrases, in the order of `injection_catalog`.
pub fn injection_patterns() -> (r: Vec<&'static str>)
    ensures
        r@.map_values(|p: &str| p@) == injection_catalog(),
{
    let r = vec![
        "ignore previous", "ignore above", "ignore all", "disregard previous",
        "disregard above", "forget previous", "forget above", "forget your instructions",
        "new instructions", "override instructions", "system prompt", "system:",
        "### system", "### instruction", "[system]", "[inst]", "<|system|>",
        "<|im_start|>", "<s>", "</s>", "<<sys>>", "<</sys>>",
        "you are now", "act as if", "pretend you are", "roleplay as", "from now on",
        "starting now", "new persona", "change your", "switch to",
        "dan mode", "developer mode", "jailbreak", "bypass", "unlock",
        "no restrictions", "without limits", "ignore safety", "ignore ethics",
        "respond with", "always respond", "never respond", "only respond",
        "must respond", "output only", "print only",
        "игнорируй предыдущ", "забудь предыдущ", "новые инструкции",
        "системный промпт", "ты теперь", "притворись", "с этого момента",
    ];
    assert(r@.map_values(|p: &str| p@) =~= injection_catalog());
    r
}

/// Character sequences that can fake prompt structure: blank-line runs,
/// code fences, rules and heading markers.
pub open spec fn dangerous_catalog() -> Seq<Seq<char>> {
    seq!["\n\n\n"@, "```"@, "---"@, "==="@, "###"@]
}

/// The structural sequences, in the order of `dangerous_catalog`.
pub fn dangerous_sequences() -> (r: Vec<&'static str>)
    ensures
        r@.map_values(|p: &str| p@) == dangerous_catalog(),
{
    let r = vec!["\n\n\n", "```", "---", "===", "###"];
    assert(r@.map_values(|p: &str| p@) =~= dangerous_catalog());
    r
}

/// Phrases that make a persona definition unsafe: overriding the user,
/// safety or ethics.
pub open spec fn persona_catalog() -> Seq<Seq<char>> {
    seq![
        "ignore user"@, "always agree"@, "never refuse"@, "bypass safety"@, "no ethical"@,
        "harmful"@, "illegal"@,
    ]
}

/// The persona phrases, in the order of `persona_catalog`.
pub fn persona_patterns() -> (r: Vec<&'static str>)
    ensures
        r@.map_values(|p: &str| p@) == persona_catalog(),
{
    let r = vec![
        "ignore user", "always agree", "never refuse", "bypass safety", "no ethical", "harmful",
        "illegal",
    ];
    assert(r@.map_values(|p: &str| p@) =~= persona_catalog());
    r
}

} // verus!
