//! Real-time transcription core: text post-processing, WAV framing, the
//! per-chunk decision logic of the transcription worker, and the model
//! catalogue and download rules of the local speech-recognition engine.

mod chars;
pub mod clock;
pub mod engine;
pub mod language_tags;
pub mod meeting;
pub mod provider;
pub mod session;
pub mod template;
pub mod text;
pub mod wav;

pub use engine::{
    DownloadPlan, DownloadProgress, DownloadTracker, FileProbe, LoadAction, ModelInfo,
    ModelStatus, QuantizationType, QwenAsrEngine, QwenAsrEngineError, ResponseAction,
};
pub use language_tags::clean_qwen_asr_output;
pub use meeting::{urlencoded, MeetingAppDetected, MeetingDetectionState};
pub use provider::{
    EngineKind, OpenAIProvider, PartialTranscript, QwenAsrProvider, TranscriptResult,
    TranscriptionError,
};
pub use session::{
    check_chunk_audio, reset_speech_detected_flag, ChunkReport, ChunkTiming, ProgressReport,
    TranscriptUpdate, TranscriptionSession,
};
pub use template::{sanitize_template_id, TemplateDetails, TemplateInfo, TemplateSectionInfo};
pub use text::{remove_text_overlap, trim_whitespace};
pub use wav::{pcm_from_wav, wav_from_pcm};
