use transcription_core::{
    OpenAIProvider, PartialTranscript, QwenAsrEngine, QwenAsrProvider, TranscriptionError,
};

#[test]
fn openai_short_audio_is_rejected() {
    let p = OpenAIProvider::new("sk-test".to_string(), "whisper-1".to_string());
    match p.check_request(800) {
        Err(TranscriptionError::AudioTooShort { samples, minimum }) => {
            assert_eq!(samples, 800);
            assert_eq!(minimum, 1600);
        }
        _ => panic!("expected AudioTooShort"),
    }
    assert!(p.check_request(1600).is_ok());
}

#[test]
fn openai_missing_key_fails_first() {
    let p = OpenAIProvider::new("   ".to_string(), "whisper-1".to_string());
    match p.check_request(800) {
        Err(TranscriptionError::EngineFailed(m)) => assert_eq!(m, "OpenAI API key is missing"),
        _ => panic!("expected EngineFailed"),
    }
    assert!(!p.is_model_loaded());
    assert_eq!(p.get_current_model(), Some("whisper-1".to_string()));
    let q = OpenAIProvider::new("key".to_string(), " ".to_string());
    assert_eq!(q.get_current_model(), None);
    assert_eq!(q.provider_name(), "OpenAI");
}

#[test]
fn openai_language_normalization() {
    assert_eq!(OpenAIProvider::normalize_language(None), None);
    assert_eq!(OpenAIProvider::normalize_language(Some("  ".to_string())), None);
    assert_eq!(OpenAIProvider::normalize_language(Some(" AUTO ".to_string())), None);
    assert_eq!(OpenAIProvider::normalize_language(Some("Auto-Detect".to_string())), None);
    assert_eq!(OpenAIProvider::normalize_language(Some("auto_detect".to_string())), None);
    assert_eq!(OpenAIProvider::normalize_language(Some("auto-translate".to_string())), None);
    assert_eq!(OpenAIProvider::normalize_language(Some(" en ".to_string())), Some("en".to_string()));
    assert_eq!(OpenAIProvider::normalize_language(Some("automatic".to_string())), Some("automatic".to_string()));
}

#[test]
fn openai_error_text_and_response() {
    assert_eq!(OpenAIProvider::truncate_error_text("héllo world", 4), "héll");
    assert_eq!(OpenAIProvider::truncate_error_text("ab", 240), "ab");
    let r = OpenAIProvider::finish_response("  hello  ");
    assert_eq!(r.text, "hello");
    assert!(r.confidence_permille.is_none());
    assert!(!r.is_partial);
}

#[test]
fn qwen_provider_cleans_and_reports_failures() {
    let r = QwenAsrProvider::finish_transcription(Ok("language EnglishWhat's your name?".to_string())).unwrap();
    assert_eq!(r.text, "What's your name?");
    assert!(r.confidence_permille.is_none());
    match QwenAsrProvider::finish_transcription(Err("native failure".to_string())) {
        Err(TranscriptionError::EngineFailed(m)) => assert_eq!(m, "native failure"),
        _ => panic!("expected EngineFailed"),
    }
    let p = QwenAsrProvider::new(QwenAsrEngine::new_with_models_dir("/m".to_string()));
    assert!(!p.is_model_loaded());
    assert_eq!(p.get_current_model(), None);
    assert_eq!(p.provider_name(), "QwenASR");
}

#[test]
fn partial_text_every_fifth_token() {
    let mut p = PartialTranscript::new();
    let tokens = ["language", " English", "Hel", "lo", " there", " again"];
    let mut published = Vec::new();
    for t in tokens.iter() {
        if let Some(s) = p.push_token(t) {
            published.push(s);
        }
    }
    assert_eq!(published, vec!["Hello there".to_string()]);
    assert_eq!(p.tokens, 6);
    assert_eq!(p.buffer, "language EnglishHello there again");
}

#[test]
fn partial_text_skipped_when_cleaned_empty() {
    let mut p = PartialTranscript::new();
    let mut published = Vec::new();
    for t in ["language", " English", " ", " ", " "].iter() {
        if let Some(s) = p.push_token(t) {
            published.push(s);
        }
    }
    assert!(published.is_empty());
    assert_eq!(p.tokens, 5);
}
