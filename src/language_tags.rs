//! Removal of the language tag that the multilingual recogniser writes in
//! front of its transcript (`language EnglishHello.`).

use vstd::prelude::*;
use crate::text::{trim_whitespace, trimmed};

verus! {

/// A tag at the start of any line, with the white space around it.
pub const LINE_TAG_PATTERN: &'static str = r"(?im)^\s*language\s+(?:English|Chinese|Japanese|Korean|French|German|Spanish|Portuguese|Russian|Italian|Dutch|Turkish|Arabic|Polish|Swedish|Norwegian|Danish|Finnish|Hungarian|Czech|Romanian|Bulgarian|Greek|Serbian|Croatian|Slovak|Slovenian|Ukrainian|Catalan|Vietnamese|Thai|Indonesian|Malay|Hindi|Tamil|Telugu|Bengali|Urdu|Persian|Hebrew|Cantonese|Yue|None|null)[:：]?\s*";

/// A tag right after a sentence terminator; group 1 keeps the terminator.
pub const SENTENCE_TAG_PATTERN: &'static str = r"(?i)([。！？.!?]\s*)language\s+(?:English|Chinese|Japanese|Korean|French|German|Spanish|Portuguese|Russian|Italian|Dutch|Turkish|Arabic|Polish|Swedish|Norwegian|Danish|Finnish|Hungarian|Czech|Romanian|Bulgarian|Greek|Serbian|Croatian|Slovak|Slovenian|Ukrainian|Catalan|Vietnamese|Thai|Indonesian|Malay|Hindi|Tamil|Telugu|Bengali|Urdu|Persian|Hebrew|Cantonese|Yue|None|null)[:：]?\s*";

/// Runs of two or more spaces or tabs.
pub const MULTISPACE_PATTERN: &'static str = r"[ \t]{2,}";

/// What `regex::Regex::replace_all` returns for `haystack` when `pattern`
/// compiles: every leftmost-first, non-overlapping match replaced by
/// `replacement`, with `$n` expanded to capture group `n`.
pub uninterp spec fn regex_replaced(
    pattern: Seq<char>,
    haystack: Seq<char>,
    replacement: Seq<char>,
) -> Seq<char>;

/// Relies on `regex::Regex::new` to compile `pattern`, which fails only on an
/// invalid pattern or one over the default size limit (neither holds of the
/// library's three patterns), and on `regex::Regex::replace_all`, whose result
/// depends on the pattern, the haystack and the replacement alone.
#[verifier::external_body]
fn replace_all_matches(pattern: &str, haystack: &str, replacement: &str) -> (r: Option<String>)
    ensures
        r matches Some(s) ==> s@ == regex_replaced(pattern@, haystack@, replacement@),
        pattern@ == LINE_TAG_PATTERN@ || pattern@ == SENTENCE_TAG_PATTERN@ || pattern@
            == MULTISPACE_PATTERN@ ==> r is Some,
{
    match regex::Regex::new(pattern) {
        Ok(re) => Some(re.replace_all(haystack, replacement).into_owned()),
        Err(_) => None,
    }
}

/// Repeats the removal of tags after sentence terminators until nothing
/// changes, for at most `passes` rounds.
pub open spec fn strip_sentence_tags(s: Seq<char>, passes: nat) -> Seq<char>
    decreases passes,
{
    if passes == 0 {
        s
    } else {
        let next = regex_replaced(SENTENCE_TAG_PATTERN@, s, "$1"@);
        if next == s {
            s
        } else {
            strip_sentence_tags(next, (passes - 1) as nat)
        }
    }
}

/// The cleaned transcript: trimmed; tags at line starts removed; tags after
/// sentence terminators removed until a fixed point (each round that changes
/// the text shortens it, so its length bounds the rounds); runs of spaces and
/// tabs collapsed to one space; trimmed again.
pub open spec fn cleaned_transcript(text: Seq<char>) -> Seq<char> {
    let t = trimmed(text);
    if t.len() == 0 {
        t
    } else {
        let a = regex_replaced(LINE_TAG_PATTERN@, t, ""@);
        let b = strip_sentence_tags(a, a.len());
        trimmed(regex_replaced(MULTISPACE_PATTERN@, b, " "@))
    }
}

/// Clean the raw output of the multilingual recogniser of its language tags.
pub fn clean_qwen_asr_output(text: &str) -> (r: String)
    ensures
        r@ == cleaned_transcript(text@),
{
    let cleaned = trim_whitespace(text);
    if cleaned.as_str().is_empty() {
        return cleaned;
    }
    let mut cur = match replace_all_matches(LINE_TAG_PATTERN, cleaned.as_str(), "") {
        Some(s) => s,
        None => {
            assert(false);
            return cleaned;
        },
    };
    let ghost start = cur@;
    let mut remaining = cur.as_str().unicode_len();
    let mut done = false;
    while remaining > 0 && !done
        invariant
            strip_sentence_tags(start, start.len()) == strip_sentence_tags(cur@, remaining as nat),
            done ==> strip_sentence_tags(cur@, remaining as nat) == cur@,
        decreases remaining + if done { 0nat } else { 1nat },
    {
        match replace_all_matches(SENTENCE_TAG_PATTERN, cur.as_str(), "$1") {
            Some(next) => if next == cur {
                done = true;
            } else {
                cur = next;
                remaining = remaining - 1;
            },
            None => {
                assert(false);
                done = true;
            },
        }
    }
    match replace_all_matches(MULTISPACE_PATTERN, cur.as_str(), " ") {
        Some(collapsed) => trim_whitespace(collapsed.as_str()),
        None => {
            assert(false);
            cur
        },
    }
}

} // verus!
