use transcription_core::engine::{
    download_url, existing_download_complete, has_available_models, model_status_for,
    plan_response, select_model_to_load, validate_gguf,
};
use transcription_core::{
    DownloadProgress, DownloadTracker, FileProbe, LoadAction, ModelStatus, QuantizationType,
    QwenAsrEngine, QwenAsrEngineError, ResponseAction,
};

fn gguf_header() -> Vec<u8> {
    vec![0x47, 0x47, 0x55, 0x46]
}

fn discovered(probes: Vec<Option<FileProbe>>) -> QwenAsrEngine {
    let mut e = QwenAsrEngine::new_with_models_dir("/models/qwen-asr".to_string());
    e.discover_models(&probes);
    e
}

#[test]
fn gguf_validation_needs_size_and_magic() {
    assert!(validate_gguf(1024, &gguf_header()));
    assert!(!validate_gguf(1023, &gguf_header()));
    assert!(!validate_gguf(4096, b"GGUG"));
    assert!(!validate_gguf(4096, b"GGU"));
    assert!(validate_gguf(4096, b"GGUF\x03\x00"));
}

#[test]
fn discovery_sets_each_status() {
    let mut e = QwenAsrEngine::new_with_models_dir("/m".to_string());
    let models = e.discover_models(&vec![
        Some(FileProbe { size: 2048, header: gguf_header() }),
        Some(FileProbe { size: 10, header: gguf_header() }),
    ]);
    assert_eq!(models.len(), 2);
    assert_eq!(models[0].name, "qwen3-asr-0.6b-q8_0");
    assert_eq!(models[0].path, "/m/qwen3-asr-0.6b-q8_0.gguf");
    assert_eq!(models[0].size_mb, 1350);
    assert_eq!(models[0].speed, "Fast (Quantized)");
    assert!(matches!(models[0].status, ModelStatus::Available));
    assert_eq!(models[1].name, "qwen3-asr-0.6b-f16");
    assert_eq!(models[1].quantization, QuantizationType::F16);
    match models[1].status {
        ModelStatus::Corrupted { file_size, expected_min_size } => {
            assert_eq!(file_size, 10);
            assert_eq!(expected_min_size, 1880 * 1024 * 1024);
        }
        _ => panic!("expected Corrupted"),
    }
    assert_eq!(e.available_models.len(), 2);
    assert!(matches!(model_status_for(false, &None, 1350), ModelStatus::Missing));
    assert!(matches!(model_status_for(true, &None, 1350), ModelStatus::Downloading { progress: 0 }));
}

#[test]
fn load_rules() {
    let mut e = discovered(vec![Some(FileProbe { size: 2048, header: gguf_header() }), None]);
    match e.load_model("qwen3-asr-0.6b-q8_0") {
        Ok(LoadAction::Load { path, replaces_current }) => {
            assert_eq!(path, "/models/qwen-asr/qwen3-asr-0.6b-q8_0.gguf");
            assert!(!replaces_current);
        }
        other => panic!("unexpected {:?}", other),
    }
    e.record_loaded("qwen3-asr-0.6b-q8_0");
    assert!(e.is_model_loaded());
    assert_eq!(e.get_current_model(), Some("qwen3-asr-0.6b-q8_0".to_string()));
    assert!(matches!(e.load_model("qwen3-asr-0.6b-q8_0"), Ok(LoadAction::AlreadyLoaded)));
    assert!(matches!(e.load_model("qwen3-asr-0.6b-f16"), Err(QwenAsrEngineError::NotDownloaded(_))));
    assert!(matches!(e.load_model("nope"), Err(QwenAsrEngineError::ModelNotFound(_))));
    assert!(e.unload_model());
    assert!(!e.unload_model());
    assert_eq!(e.get_current_model(), None);
}

#[test]
fn delete_rules() {
    let mut e = discovered(vec![Some(FileProbe { size: 2048, header: gguf_header() }), None]);
    assert_eq!(e.delete_model("qwen3-asr-0.6b-q8_0").unwrap(), "/models/qwen-asr/qwen3-asr-0.6b-q8_0.gguf");
    assert!(matches!(e.delete_model("qwen3-asr-0.6b-f16"), Err(QwenAsrEngineError::NotDeletable(_))));
    e.set_model_status("qwen3-asr-0.6b-q8_0", ModelStatus::Missing);
    assert!(matches!(e.available_models[0].status, ModelStatus::Missing));
}

#[test]
fn download_bookkeeping() {
    let mut e = discovered(vec![None, None]);
    let plan = e.begin_download("qwen3-asr-0.6b-f16").unwrap();
    assert_eq!(plan.url, "https://huggingface.co/FlippyDora/qwen3-asr-0.6b-GGUF/resolve/main/qwen3-asr-0.6b-f16.gguf");
    assert_eq!(plan.file_path, "/models/qwen-asr/qwen3-asr-0.6b-f16.gguf");
    assert_eq!(plan.expected_size, 1880 * 1024 * 1024);
    assert!(matches!(e.available_models[1].status, ModelStatus::Downloading { progress: 0 }));
    assert!(matches!(e.begin_download("qwen3-asr-0.6b-f16"), Err(QwenAsrEngineError::AlreadyDownloading(_))));
    assert!(matches!(e.begin_download("other"), Err(QwenAsrEngineError::ModelNotFound(_))));
    assert_eq!(e.active_downloads, vec!["qwen3-asr-0.6b-f16".to_string()]);
    e.complete_download("qwen3-asr-0.6b-f16", plan.file_path.clone());
    assert!(matches!(e.available_models[1].status, ModelStatus::Available));
    assert!(e.active_downloads.is_empty());
}

#[test]
fn cancel_marks_missing_and_raises_flag() {
    let mut e = discovered(vec![None, None]);
    e.begin_download("qwen3-asr-0.6b-q8_0").unwrap();
    let path = e.cancel_download("qwen3-asr-0.6b-q8_0");
    assert_eq!(path, Some("/models/qwen-asr/qwen3-asr-0.6b-q8_0.gguf".to_string()));
    assert!(e.is_cancelled("qwen3-asr-0.6b-q8_0"));
    assert!(!e.is_cancelled("qwen3-asr-0.6b-f16"));
    assert!(e.active_downloads.is_empty());
    assert!(matches!(e.available_models[0].status, ModelStatus::Missing));
    assert_eq!(e.cancel_download("unknown"), None);
    e.begin_download("qwen3-asr-0.6b-q8_0").unwrap();
    assert!(!e.is_cancelled("qwen3-asr-0.6b-q8_0"));
    assert!(matches!(e.available_models[0].status, ModelStatus::Downloading { progress: 0 }));
    e.abandon_download("qwen3-asr-0.6b-q8_0");
    assert!(e.active_downloads.is_empty());
    assert!(matches!(e.available_models[0].status, ModelStatus::Missing));
}

#[test]
fn resume_and_response_rules() {
    let expected = 1350 * 1024 * 1024;
    assert!(existing_download_complete(expected, expected * 99 / 100, true));
    assert!(!existing_download_complete(expected, expected * 99 / 100 - 1, true));
    assert!(!existing_download_complete(expected, expected, false));
    assert!(!existing_download_complete(0, 0, true));
    assert_eq!(plan_response(100, 206, Some(50), 1000).unwrap(), ResponseAction::Resume { total: 150 });
    assert_eq!(plan_response(100, 200, None, 1000).unwrap(), ResponseAction::Restart { total: 1000 });
    assert_eq!(plan_response(0, 204, Some(7), 1000).unwrap(), ResponseAction::Restart { total: 7 });
    assert!(matches!(plan_response(0, 404, None, 1000), Err(QwenAsrEngineError::HttpStatus(404))));
}

#[test]
fn progress_never_decreases_and_ends_at_100() {
    let mut t = DownloadTracker::new(0, 1000);
    let mut last = 0u8;
    let mut reports = 0;
    for _ in 0..12 {
        if let Some((p, status)) = t.on_chunk(100, 0) {
            assert!(p.percent >= last);
            assert!(status <= 99);
            last = p.percent;
            reports += 1;
        }
    }
    assert_eq!(t.downloaded, 1200);
    assert_eq!(last, 100);
    assert_eq!(reports, 10);
    assert_eq!(t.final_report().percent, 100);
    assert_eq!(DownloadProgress::new(5, 0).percent, 0);
    assert_eq!(DownloadProgress::new(1, 3).percent, 33);
    let mut slow = DownloadTracker::new(0, 1_000_000);
    assert!(slow.on_chunk(1, 10).is_none());
    assert!(slow.on_chunk(1, 500).is_some());
}

#[test]
fn model_selection_prefers_configured_then_q8() {
    let e = discovered(vec![
        Some(FileProbe { size: 2048, header: gguf_header() }),
        Some(FileProbe { size: 2048, header: gguf_header() }),
    ]);
    assert!(has_available_models(&e.available_models));
    assert_eq!(select_model_to_load(&e.available_models, None).unwrap(), "qwen3-asr-0.6b-q8_0");
    assert_eq!(select_model_to_load(&e.available_models, Some("qwen3-asr-0.6b-f16")).unwrap(), "qwen3-asr-0.6b-f16");
    assert_eq!(select_model_to_load(&e.available_models, Some("missing")).unwrap(), "qwen3-asr-0.6b-q8_0");
    let only_f16 = discovered(vec![None, Some(FileProbe { size: 2048, header: gguf_header() })]);
    assert_eq!(select_model_to_load(&only_f16.available_models, None).unwrap(), "qwen3-asr-0.6b-f16");
    let none = discovered(vec![None, None]);
    assert!(!has_available_models(&none.available_models));
    assert_eq!(
        select_model_to_load(&none.available_models, None).unwrap_err(),
        "No Qwen ASR models available. Please download a model."
    );
}

#[test]
fn download_address_by_quantization() {
    assert_eq!(
        download_url(QuantizationType::Q8_0),
        "https://huggingface.co/FlippyDora/qwen3-asr-0.6b-GGUF/resolve/main/qwen3-asr-0.6b-q8_0.gguf"
    );
    assert_eq!(QuantizationType::default(), QuantizationType::Q8_0);
}
