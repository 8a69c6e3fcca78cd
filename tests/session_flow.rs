use transcription_core::{
    check_chunk_audio, reset_speech_detected_flag, ChunkTiming, EngineKind, TranscriptResult,
    TranscriptionError, TranscriptionSession,
};

fn final_result(text: &str) -> Result<TranscriptResult, TranscriptionError> {
    Ok(TranscriptResult {
        text: text.to_string(),
        confidence_permille: None,
        is_partial: false,
    })
}

fn timing(start_us: u64, duration_us: u64) -> ChunkTiming {
    ChunkTiming { start_us, duration_us }
}

#[test]
fn refinement_segment_skips_dedup_and_extends_last_end() {
    let mut s = TranscriptionSession::new();
    s.dispatch_chunk();
    s.dispatch_chunk();
    let first = s.process_result(EngineKind::QwenAsr, timing(7_000_000, 3_000_000), final_result("we set quarterly goals"), 0);
    assert!(first.update.is_some());
    assert_eq!(s.last_audio_end_us, Some(10_000_000));
    let r = s.process_result(EngineKind::QwenAsr, timing(6_000_000, 5_000_000), final_result("...quarterly goals..."), 0);
    let u = r.update.unwrap();
    assert!(u.is_refinement);
    assert_eq!(u.text, "...quarterly goals...");
    assert_eq!(u.audio_start_time_us, 6_000_000);
    assert_eq!(u.audio_end_time_us, 11_000_000);
    assert_eq!(s.last_audio_end_us, Some(11_000_000));
}

#[test]
fn refinement_keeps_later_previous_end() {
    let mut s = TranscriptionSession::new();
    s.dispatch_chunk();
    s.dispatch_chunk();
    s.process_result(EngineKind::QwenAsr, timing(10_000_000, 5_000_000), final_result("late segment"), 0);
    let r = s.process_result(EngineKind::QwenAsr, timing(1_000_000, 5_000_000), final_result("earlier full run"), 0);
    assert!(r.update.unwrap().is_refinement);
    assert_eq!(s.last_audio_end_us, Some(15_000_000));
}

#[test]
fn adjacent_segment_is_deduplicated_and_sequence_ids_increase() {
    let mut s = TranscriptionSession::new();
    for _ in 0..3 {
        s.dispatch_chunk();
    }
    let a = s.process_result(EngineKind::Parakeet, timing(0, 2_000_000), final_result("let's review the roadmap for q2 and q3"), 3600 * 14 + 60 * 30 + 5);
    let ua = a.update.unwrap();
    assert_eq!(ua.timestamp, "14:30:05");
    assert_eq!(ua.source, "Audio");
    assert_eq!(ua.confidence_permille, 850);
    let b = s.process_result(EngineKind::Parakeet, timing(2_100_000, 2_000_000), final_result("roadmap for q2 and q3 plus hiring plan"), 0);
    let ub = b.update.unwrap();
    assert_eq!(ub.text, "plus hiring plan");
    assert!(ub.sequence_id > ua.sequence_id);
    let c = s.process_result(EngineKind::Parakeet, timing(4_100_000, 2_000_000), final_result("hiring plan"), 0);
    assert!(c.update.is_none());
    assert!(c.progress.is_none());
    assert_eq!(s.chunks_completed, 3);
    assert_eq!(s.chunks_lost(), None);
}

#[test]
fn segment_after_long_gap_is_not_deduplicated() {
    let mut s = TranscriptionSession::new();
    s.dispatch_chunk();
    s.dispatch_chunk();
    s.process_result(EngineKind::QwenAsr, timing(0, 1_000_000), final_result("we should align on launch timeline"), 0);
    let r = s.process_result(EngineKind::QwenAsr, timing(3_000_000, 1_000_000), final_result("launch timeline"), 0);
    assert_eq!(r.update.unwrap().text, "launch timeline");
}

#[test]
fn envelope_end_is_start_plus_duration() {
    let mut s = TranscriptionSession::new();
    s.dispatch_chunk();
    let r = s.process_result(EngineKind::QwenAsr, timing(125_300_000, 3_300_000), final_result("hello"), 0);
    let u = r.update.unwrap();
    assert_eq!(u.audio_end_time_us, u.audio_start_time_us + u.duration_us);
    assert_eq!(u.audio_end_time_us, 128_600_000);
    assert_eq!(u.chunk_start_time_us, 125_300_000);
}

#[test]
fn speech_detected_once_per_session() {
    let mut s = TranscriptionSession::new();
    for _ in 0..3 {
        s.dispatch_chunk();
    }
    let a = s.process_result(EngineKind::QwenAsr, timing(0, 1_000_000), final_result("first"), 0);
    let b = s.process_result(EngineKind::QwenAsr, timing(5_000_000, 1_000_000), final_result("second"), 0);
    assert!(a.speech_detected);
    assert!(!b.speech_detected);
    reset_speech_detected_flag(&mut s);
    assert_eq!(s.last_text, "");
    assert_eq!(s.last_audio_end_us, None);
    let c = s.process_result(EngineKind::QwenAsr, timing(9_000_000, 1_000_000), final_result("third"), 0);
    assert!(c.speech_detected);
}

#[test]
fn low_confidence_and_blank_results_are_dropped() {
    let mut s = TranscriptionSession::new();
    for _ in 0..3 {
        s.dispatch_chunk();
    }
    let low = Ok(TranscriptResult { text: "maybe".to_string(), confidence_permille: Some(299), is_partial: false });
    let r = s.process_result(EngineKind::Whisper, timing(0, 1_000_000), low, 0);
    assert!(r.update.is_none());
    assert!(!r.speech_detected);
    assert_eq!(r.progress.unwrap().chunks_completed, 1);
    let blank = s.process_result(EngineKind::Whisper, timing(0, 1_000_000), final_result("   "), 0);
    assert!(blank.update.is_none());
    let ok = Ok(TranscriptResult { text: "sure".to_string(), confidence_permille: Some(300), is_partial: true });
    let r = s.process_result(EngineKind::Whisper, timing(0, 1_000_000), ok, 0);
    let u = r.update.unwrap();
    assert_eq!(u.confidence_permille, 300);
    assert!(u.is_partial);
    assert_eq!(s.next_sequence_id, 1);
}

#[test]
fn no_chunk_loss_whatever_the_outcome() {
    let mut s = TranscriptionSession::new();
    let outcomes: Vec<Result<TranscriptResult, TranscriptionError>> = vec![
        final_result("text"),
        Err(TranscriptionError::AudioTooShort { samples: 0, minimum: 1600 }),
        Err(TranscriptionError::ModelNotLoaded),
        Err(TranscriptionError::EngineFailed("boom".to_string())),
    ];
    for _ in 0..5 {
        s.dispatch_chunk();
    }
    s.finish_input();
    assert!(!s.is_drained());
    assert_eq!(s.chunks_lost(), Some(5));
    let mut warnings = 0;
    for (i, o) in outcomes.into_iter().enumerate() {
        let r = s.process_result(EngineKind::Provider, timing(i as u64 * 10_000_000, 1_000_000), o, 0);
        if r.warning.is_some() {
            warnings += 1;
            assert_eq!(r.progress.unwrap().percentage, 80);
        }
    }
    s.skip_chunk();
    assert_eq!(warnings, 1);
    assert_eq!(s.chunks_completed, s.chunks_queued);
    assert!(s.is_drained());
    assert_eq!(s.chunks_lost(), None);
}

#[test]
fn empty_chunk_is_too_short() {
    match check_chunk_audio(0) {
        Err(TranscriptionError::AudioTooShort { samples, minimum }) => {
            assert_eq!(samples, 0);
            assert_eq!(minimum, 1600);
        }
        _ => panic!("expected AudioTooShort"),
    }
    assert!(check_chunk_audio(1).is_ok());
}

#[test]
fn chunk_timing_from_samples() {
    let t = ChunkTiming::from_samples(1_000_000, 16_000, 16_000).unwrap();
    assert_eq!(t.duration_us, 1_000_000);
    let t = ChunkTiming::from_samples(0, 800, 48_000).unwrap();
    assert_eq!(t.duration_us, 16_666);
    assert!(ChunkTiming::from_samples(0, 10, 0).is_none());
    assert!(ChunkTiming::from_samples(u64::MAX, 16_000, 16_000).is_none());
}
