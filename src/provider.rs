//! The contract shared by the transcription back-ends, and the checks and
//! post-processing that the remote and the multilingual back-end apply
//! around their engine call.

use vstd::prelude::*;
use crate::chars::{chars_of, string_of};
use crate::engine::QwenAsrEngine;
use crate::language_tags::{clean_qwen_asr_output, cleaned_transcript};
use crate::text::{trim_whitespace, trimmed};

verus! {

/// Fewest samples a remote transcription accepts: 100 ms at 16 kHz.
pub const MIN_REMOTE_SAMPLES: usize = 1600;

/// What a back-end returns for one chunk of audio. Confidence is given in
/// thousandths (`0..=1000`).
#[derive(Debug)]
pub struct TranscriptResult {
    pub text: String,
    pub confidence_permille: Option<u32>,
    pub is_partial: bool,
}

/// Why a back-end could not transcribe a chunk.
#[derive(Debug)]
pub enum TranscriptionError {
    AudioTooShort { samples: usize, minimum: usize },
    ModelNotLoaded,
    EngineFailed(String),
}

/// The kind of back-end behind a transcription; it sets the confidence threshold.
#[derive(Clone, Copy, PartialEq, Eq, Structural, Debug)]
pub enum EngineKind {
    Whisper,
    Parakeet,
    QwenAsr,
    Provider,
}

/// `c` with ASCII upper-case letters made lower-case.
pub open spec fn ascii_lower(c: char) -> char {
    if 'A' <= c && c <= 'Z' {
        ((c as u32) + 32) as char
    } else {
        c
    }
}

/// `s` equals `word` when ASCII letters are compared without regard to case.
pub open spec fn eq_ignore_ascii_case(s: Seq<char>, word: Seq<char>) -> bool {
    s.len() == word.len() && forall|i: int| 0 <= i < s.len() ==> #[trigger] ascii_lower(s[i]) == word[i]
}

/// A language value meaning "detect it": `auto`, `auto-translate`,
/// `auto_detect` or `auto-detect`, in any case.
pub open spec fn is_auto_language(s: Seq<char>) -> bool {
    eq_ignore_ascii_case(s, "auto"@) || eq_ignore_ascii_case(s, "auto-translate"@)
        || eq_ignore_ascii_case(s, "auto_detect"@) || eq_ignore_ascii_case(s, "auto-detect"@)
}

fn lower_char(c: char) -> (r: char)
    ensures
        r == ascii_lower(c),
{
    if 'A' <= c && c <= 'Z' {
        let code = (c as u32) + 32;
        let v: [char; 26] = ['a', 'b', 'c', 'd', 'e', 'f', 'g', 'h', 'i', 'j', 'k', 'l', 'm', 'n', 'o', 'p', 'q', 'r', 's', 't', 'u', 'v', 'w', 'x', 'y', 'z'];
        let k = ((c as u32) - 65) as usize;
        assert(v@[k as int] == ((c as u32) + 32) as char) by {
            assert(v@ =~= seq!['a', 'b', 'c', 'd', 'e', 'f', 'g', 'h', 'i', 'j', 'k', 'l', 'm', 'n', 'o', 'p', 'q', 'r', 's', 't', 'u', 'v', 'w', 'x', 'y', 'z']);
        }
        v[k]
    } else {
        c
    }
}

fn matches_word(s: &[char], word: &str) -> (r: bool)
    ensures
        r == eq_ignore_ascii_case(s@, word@),
{
    let w = chars_of(word);
    if s.len() != w.len() {
        return false;
    }
    let mut i: usize = 0;
    while i < s.len()
        invariant
            i <= s@.len(),
            s@.len() == w@.len(),
            w@ == word@,
            forall|k: int| 0 <= k < i ==> #[trigger] ascii_lower(s@[k]) == w@[k],
        decreases s@.len() - i,
    {
        if lower_char(s[i]) != w[i] {
            return false;
        }
        i = i + 1;
    }
    true
}

/// The back-end that sends audio to the remote speech-to-text service. The
/// HTTP client lives with the caller; these are the checks and conversions
/// around the request.
#[derive(Debug)]
pub struct OpenAIProvider {
    pub api_key: String,
    pub model: String,
}

/// The language to send to the remote service: the trimmed value, or none
/// when it is absent, blank, or asks for detection.
pub open spec fn normalized_language(language: Option<Seq<char>>) -> Option<Seq<char>> {
    match language {
        None => None,
        Some(l) => {
            let t = trimmed(l);
            if t.len() == 0 || is_auto_language(t) {
                None
            } else {
                Some(t)
            }
        },
    }
}

impl OpenAIProvider {
    /// A provider with this key and model.
    pub fn new(api_key: String, model: String) -> (r: OpenAIProvider)
        ensures
            r.api_key == api_key,
            r.model == model,
    {
        OpenAIProvider { api_key, model }
    }

    /// The language field of a request, if any.
    pub fn normalize_language(language: Option<String>) -> (r: Option<String>)
        ensures
            r matches Some(s) ==> normalized_language(
                match language {
                    Some(l) => Some(l@),
                    None => None,
                },
            ) == Some(s@),
            r is None ==> normalized_language(
                match language {
                    Some(l) => Some(l@),
                    None => None,
                },
            ) is None,
    {
        let lang = match language {
            Some(l) => trim_whitespace(l.as_str()),
            None => return None,
        };
        if lang.as_str().is_empty() {
            return None;
        }
        let cs = chars_of(lang.as_str());
        let cs = cs.as_slice();
        if matches_word(cs, "auto") || matches_word(cs, "auto-translate") || matches_word(cs, "auto_detect")
            || matches_word(cs, "auto-detect") {
            None
        } else {
            Some(lang)
        }
    }

    /// Whether a request may be sent for `samples` samples: the key must not
    /// be blank, and the audio must last at least 100 ms.
    pub fn check_request(&self, samples: usize) -> (r: Result<(), TranscriptionError>)
        ensures
            trimmed(self.api_key@).len() == 0 ==> (r matches Err(TranscriptionError::EngineFailed(m)) && m@
                == "OpenAI API key is missing"@),
            trimmed(self.api_key@).len() > 0 && samples < MIN_REMOTE_SAMPLES ==> (r matches Err(
                TranscriptionError::AudioTooShort { samples: n, minimum },
            ) && n == samples && minimum == MIN_REMOTE_SAMPLES),
            trimmed(self.api_key@).len() > 0 && samples >= MIN_REMOTE_SAMPLES ==> r is Ok,
    {
        if trim_whitespace(self.api_key.as_str()).as_str().is_empty() {
            return Err(TranscriptionError::EngineFailed(String::from_str("OpenAI API key is missing")));
        }
        if samples < MIN_REMOTE_SAMPLES {
            return Err(TranscriptionError::AudioTooShort { samples, minimum: MIN_REMOTE_SAMPLES });
        }
        Ok(())
    }

    /// Ready when neither the key nor the model is blank.
    pub fn is_model_loaded(&self) -> (r: bool)
        ensures
            r == (trimmed(self.api_key@).len() > 0 && trimmed(self.model@).len() > 0),
    {
        !trim_whitespace(self.api_key.as_str()).as_str().is_empty() && !trim_whitespace(
            self.model.as_str(),
        ).as_str().is_empty()
    }

    /// The model, unless it is blank.
    pub fn get_current_model(&self) -> (r: Option<String>)
        ensures
            trimmed(self.model@).len() == 0 ==> r is None,
            trimmed(self.model@).len() > 0 ==> r == Some(self.model),
    {
        if trim_whitespace(self.model.as_str()).as_str().is_empty() {
            None
        } else {
            Some(self.model.clone())
        }
    }

    /// Name of this back-end.
    pub fn provider_name(&self) -> (r: &'static str)
        ensures
            r@ == "OpenAI"@,
    {
        "OpenAI"
    }

    /// The first `max_chars` characters of `s`, to quote an error body.
    pub fn truncate_error_text(s: &str, max_chars: usize) -> (r: String)
        ensures
            r@ == if s@.len() <= max_chars {
                s@
            } else {
                s@.subrange(0, max_chars as int)
            },
    {
        let cs = chars_of(s);
        let cs = cs.as_slice();
        if cs.len() <= max_chars {
            assert(cs@.subrange(0, cs@.len() as int) =~= cs@);
            string_of(&cs[0..cs.len()])
        } else {
            string_of(&cs[0..max_chars])
        }
    }

    /// The result for the text the service returned: trimmed, final, without confidence.
    pub fn finish_response(text: &str) -> (r: TranscriptResult)
        ensures
            r.text@ == trimmed(text@),
            r.confidence_permille is None,
            !r.is_partial,
    {
        TranscriptResult { text: trim_whitespace(text), confidence_permille: None, is_partial: false }
    }
}

/// The multilingual local back-end. It reports no confidence, and its
/// final results are cleaned of language tags.
pub struct QwenAsrProvider {
    pub engine: QwenAsrEngine,
}

impl QwenAsrProvider {
    /// A provider over `engine`.
    pub fn new(engine: QwenAsrEngine) -> (r: QwenAsrProvider)
        ensures
            r.engine == engine,
    {
        QwenAsrProvider { engine }
    }

    /// The result for what the engine returned: its text cleaned of language
    /// tags, final, without confidence; an engine failure carries its message.
    pub fn finish_transcription(raw: Result<String, String>) -> (r: Result<TranscriptResult, TranscriptionError>)
        ensures
            raw matches Err(e) ==> (r matches Err(TranscriptionError::EngineFailed(m)) && m == e),
            raw matches Ok(t) ==> (r matches Ok(res) && res.text@ == cleaned_transcript(t@)
                && res.confidence_permille is None && !res.is_partial),
    {
        match raw {
            Err(e) => Err(TranscriptionError::EngineFailed(e)),
            Ok(t) => Ok(
                TranscriptResult {
                    text: clean_qwen_asr_output(t.as_str()),
                    confidence_permille: None,
                    is_partial: false,
                },
            ),
        }
    }

    /// Whether the engine has a model loaded.
    pub fn is_model_loaded(&self) -> (r: bool)
        ensures
            r == self.engine.model_loaded,
    {
        self.engine.is_model_loaded()
    }

    /// Name of the engine's loaded model.
    pub fn get_current_model(&self) -> (r: Option<String>)
        ensures
            r == self.engine.current_model_name,
    {
        self.engine.get_current_model()
    }

    /// Name of this back-end.
    pub fn provider_name(&self) -> (r: &'static str)
        ensures
            r@ == "QwenASR"@,
    {
        "QwenASR"
    }
}

/// Tokens between two partial updates while a chunk is being decoded.
pub const PARTIAL_EVERY_TOKENS: u32 = 5;

/// The text decoded so far for one chunk, published as a partial update
/// every few tokens.
#[derive(Debug)]
pub struct PartialTranscript {
    pub buffer: String,
    pub tokens: u32,
}

impl PartialTranscript {
    /// Nothing decoded yet.
    pub fn new() -> (r: PartialTranscript)
        ensures
            r.buffer@.len() == 0,
            r.tokens == 0,
    {
        PartialTranscript { buffer: String::new(), tokens: 0 }
    }

    /// Add a decoded token. On every fifth token, the cleaned text so far is
    /// returned for publishing, unless it is empty; on other tokens nothing is.
    pub fn push_token(&mut self, token: &str) -> (r: Option<String>)
        ensures
            final(self).buffer@ == old(self).buffer@ + token@,
            final(self).tokens == (old(self).tokens as int + 1) % 0x1_0000_0000,
            old(self).tokens % PARTIAL_EVERY_TOKENS != PARTIAL_EVERY_TOKENS - 1 ==> r is None,
            old(self).tokens % PARTIAL_EVERY_TOKENS == PARTIAL_EVERY_TOKENS - 1 ==> (r is Some
                <==> cleaned_transcript(final(self).buffer@).len() > 0),
            r matches Some(s) ==> s@ == cleaned_transcript(final(self).buffer@),
    {
        self.buffer.append(token);
        let count = self.tokens;
        self.tokens = self.tokens.wrapping_add(1);
        if count % PARTIAL_EVERY_TOKENS == PARTIAL_EVERY_TOKENS - 1 {
            let s = clean_qwen_asr_output(self.buffer.as_str());
            if s.as_str().is_empty() {
                None
            } else {
                Some(s)
            }
        } else {
            None
        }
    }
}

} // verus!
