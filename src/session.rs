//! The decisions of the transcription worker: which results become
//! transcript updates, their sequence ids and time envelope, refinement and
//! overlap handling, the one-shot speech notice, and the accounting that shows
//! no dispatched chunk was lost. Times are recording-relative microseconds.

use vstd::prelude::*;
use crate::provider::{EngineKind, TranscriptResult, TranscriptionError, MIN_REMOTE_SAMPLES};
use crate::text::{deduplicated, remove_text_overlap, trim_whitespace, trimmed};
use crate::clock::{clock_text, format_clock_time};

verus! {

/// A refinement starts more than this long before the last segment ended.
pub const REFINEMENT_LOOKBACK_US: u64 = 2_000_000;

/// A refinement lasts longer than this.
pub const REFINEMENT_MIN_DURATION_US: u64 = 4_000_000;

/// Overlap removal applies when a segment starts at most this long before the last one ended...
pub const MAX_NEGATIVE_DRIFT_US: u64 = 200_000;

/// ...and at most this long after it.
pub const MAX_DEDUP_GAP_US: u64 = 1_500_000;

/// Confidence, in thousandths, below which a result of a back-end that reports confidence is dropped.
pub const CONFIDENCE_THRESHOLD_PERMILLE: u32 = 300;

/// Confidence, in thousandths, given to updates from back-ends that report none.
pub const DEFAULT_CONFIDENCE_PERMILLE: u32 = 850;

/// Where a chunk lies in the recording.
#[derive(Clone, Copy, Debug)]
pub struct ChunkTiming {
    pub start_us: u64,
    pub duration_us: u64,
}

impl ChunkTiming {
    /// Timing of a chunk of `samples` samples at `sample_rate` Hz that starts at
    /// `start_us`; the duration is rounded down to whole microseconds. `None`
    /// for a zero rate, or where the end of the chunk does not fit in a `u64`.
    pub fn from_samples(start_us: u64, samples: u64, sample_rate: u32) -> (r: Option<ChunkTiming>)
        ensures
            r is Some <==> sample_rate > 0 && samples * 1_000_000 <= u64::MAX && start_us + (
            samples * 1_000_000) / (sample_rate as int) <= u64::MAX,
            r matches Some(t) ==> t.start_us == start_us && t.duration_us == (samples
                * 1_000_000) / (sample_rate as int),
    {
        if sample_rate == 0 {
            return None;
        }
        let micros = match samples.checked_mul(1_000_000) {
            Some(m) => m,
            None => return None,
        };
        let duration_us = micros / (sample_rate as u64);
        match start_us.checked_add(duration_us) {
            Some(_) => Some(ChunkTiming { start_us, duration_us }),
            None => None,
        }
    }
}

/// One final or partial transcript segment, as published to consumers.
#[derive(Debug)]
pub struct TranscriptUpdate {
    pub text: String,
    /// Wall-clock time of publication, `HH:MM:SS`.
    pub timestamp: String,
    pub source: String,
    pub sequence_id: u64,
    pub chunk_start_time_us: u64,
    pub is_partial: bool,
    pub confidence_permille: u32,
    pub audio_start_time_us: u64,
    pub audio_end_time_us: u64,
    pub duration_us: u64,
    pub is_refinement: bool,
}

/// Progress after a chunk was handled.
#[derive(Clone, Copy, Debug)]
pub struct ProgressReport {
    pub chunks_completed: u64,
    pub chunks_queued: u64,
    pub percentage: u64,
}

/// What the worker publishes after handling one chunk.
#[derive(Debug)]
pub struct ChunkReport {
    /// The one-shot notice that speech was heard in this session.
    pub speech_detected: bool,
    pub update: Option<TranscriptUpdate>,
    /// An engine failure to pass on as a warning.
    pub warning: Option<TranscriptionError>,
    pub progress: Option<ProgressReport>,
}

/// State of one transcription session: chunk accounting, the last segment
/// for refinement and overlap decisions, the speech notice, and the next
/// sequence id.
#[derive(Debug)]
pub struct TranscriptionSession {
    pub chunks_queued: u64,
    pub chunks_completed: u64,
    pub input_finished: bool,
    pub last_text: String,
    pub last_audio_end_us: Option<u64>,
    pub speech_detected_emitted: bool,
    pub next_sequence_id: u64,
}

/// The confidence threshold, in thousandths, for a kind of back-end.
pub open spec fn threshold_permille(kind: EngineKind) -> u32 {
    match kind {
        EngineKind::Whisper | EngineKind::Provider => CONFIDENCE_THRESHOLD_PERMILLE,
        _ => 0,
    }
}

/// A result is kept when it reports no confidence or one at the threshold or above.
pub open spec fn meets_threshold(kind: EngineKind, confidence: Option<u32>) -> bool {
    match confidence {
        None => true,
        Some(c) => c >= threshold_permille(kind),
    }
}

/// A segment re-transcribes earlier audio: it starts more than the look-back
/// before the last segment ended and is longer than the minimum.
pub open spec fn is_refinement_of(last_end: Option<u64>, chunk: ChunkTiming) -> bool {
    match last_end {
        None => false,
        Some(e) => chunk.start_us + REFINEMENT_LOOKBACK_US < e && chunk.duration_us
            > REFINEMENT_MIN_DURATION_US,
    }
}

/// The gap between the last segment's end and `start` lies in
/// `[-MAX_NEGATIVE_DRIFT_US, MAX_DEDUP_GAP_US]`.
pub open spec fn within_dedup_window(last_end: Option<u64>, start: u64) -> bool {
    match last_end {
        None => false,
        Some(e) => e <= start + MAX_NEGATIVE_DRIFT_US && start <= e + MAX_DEDUP_GAP_US,
    }
}

/// `completed` as a whole percentage of `queued`; 100 when nothing was queued.
pub open spec fn progress_percentage(completed: u64, queued: u64) -> int {
    if queued == 0 {
        100
    } else {
        (completed * 100) / (queued as int)
    }
}

impl TranscriptionSession {
    /// A session with nothing queued, no previous segment and no speech heard.
    pub fn new() -> (r: TranscriptionSession)
        ensures
            r.chunks_queued == 0,
            r.chunks_completed == 0,
            !r.input_finished,
            r.last_text@.len() == 0,
            r.last_audio_end_us is None,
            !r.speech_detected_emitted,
            r.next_sequence_id == 0,
    {
        TranscriptionSession {
            chunks_queued: 0,
            chunks_completed: 0,
            input_finished: false,
            last_text: String::new(),
            last_audio_end_us: None,
            speech_detected_emitted: false,
            next_sequence_id: 0,
        }
    }

    /// Account for one chunk handed to the workers; returns the number queued.
    pub fn dispatch_chunk(&mut self) -> (queued: u64)
        requires
            old(self).chunks_queued < u64::MAX,
        ensures
            final(self).chunks_queued == old(self).chunks_queued + 1,
            queued == final(self).chunks_queued,
            final(self).chunks_completed == old(self).chunks_completed,
            final(self).input_finished == old(self).input_finished,
            final(self).last_text == old(self).last_text,
            final(self).last_audio_end_us == old(self).last_audio_end_us,
            final(self).speech_detected_emitted == old(self).speech_detected_emitted,
            final(self).next_sequence_id == old(self).next_sequence_id,
    {
        self.chunks_queued = self.chunks_queued + 1;
        self.chunks_queued
    }

    /// Record that no more chunks will arrive.
    pub fn finish_input(&mut self)
        ensures
            final(self).input_finished,
            final(self).chunks_queued == old(self).chunks_queued,
            final(self).chunks_completed == old(self).chunks_completed,
            final(self).last_text == old(self).last_text,
            final(self).last_audio_end_us == old(self).last_audio_end_us,
            final(self).speech_detected_emitted == old(self).speech_detected_emitted,
            final(self).next_sequence_id == old(self).next_sequence_id,
    {
        self.input_finished = true;
    }

    /// A worker may stop: input is finished and every queued chunk is completed.
    pub fn is_drained(&self) -> (r: bool)
        ensures
            r == (self.input_finished && self.chunks_completed >= self.chunks_queued),
    {
        self.input_finished && self.chunks_completed >= self.chunks_queued
    }

    /// Chunks queued but not completed, if any, for the loss report at shutdown.
    pub fn chunks_lost(&self) -> (r: Option<u64>)
        ensures
            r is Some <==> self.chunks_completed < self.chunks_queued,
            r matches Some(n) ==> n == self.chunks_queued - self.chunks_completed,
    {
        if self.chunks_completed < self.chunks_queued {
            Some(self.chunks_queued - self.chunks_completed)
        } else {
            None
        }
    }

    /// Count a chunk as completed without transcribing it (the model was unloaded).
    pub fn skip_chunk(&mut self)
        requires
            old(self).chunks_completed < old(self).chunks_queued,
        ensures
            final(self).chunks_completed == old(self).chunks_completed + 1,
            final(self).chunks_queued == old(self).chunks_queued,
            final(self).input_finished == old(self).input_finished,
            final(self).last_text == old(self).last_text,
            final(self).last_audio_end_us == old(self).last_audio_end_us,
            final(self).speech_detected_emitted == old(self).speech_detected_emitted,
            final(self).next_sequence_id == old(self).next_sequence_id,
    {
        self.chunks_completed = self.chunks_completed + 1;
    }

    fn progress(&self) -> (r: ProgressReport)
        requires
            self.chunks_completed <= self.chunks_queued,
        ensures
            r.chunks_completed == self.chunks_completed,
            r.chunks_queued == self.chunks_queued,
            r.percentage == progress_percentage(self.chunks_completed, self.chunks_queued),
            r.percentage <= 100,
    {
        let percentage = if self.chunks_queued == 0 {
            100
        } else {
            let c = self.chunks_completed as u128;
            let q = self.chunks_queued as u128;
            assert((c as int) * 100 / (q as int) <= 100) by (nonlinear_arith)
                requires
                    c <= q,
                    q > 0,
            ;
            (c * 100 / q) as u64
        };
        ProgressReport {
            chunks_completed: self.chunks_completed,
            chunks_queued: self.chunks_queued,
            percentage,
        }
    }

    /// Handle the back-end's answer for one dispatched chunk.
    ///
    /// A result is accepted when its trimmed text is not empty and it meets the
    /// back-end's confidence threshold. The first accepted result of the
    /// session raises the speech notice. A final
    /// result is a refinement when it re-transcribes earlier audio; a final
    /// result that is no refinement and starts within the window around the
    /// last segment's end loses the text it repeats from that segment. Every
    /// final result becomes the last segment (a refinement keeps the later end).
    /// An update is published, under the next sequence id, unless the
    /// remaining text is blank. Every call completes the chunk.
    pub fn process_result(
        &mut self,
        kind: EngineKind,
        chunk: ChunkTiming,
        result: Result<TranscriptResult, TranscriptionError>,
        now_unix_secs: u64,
    ) -> (report: ChunkReport)
        requires
            old(self).chunks_completed < old(self).chunks_queued,
            old(self).next_sequence_id < u64::MAX,
            chunk.start_us + chunk.duration_us <= u64::MAX,
        ensures
            final(self).chunks_completed == old(self).chunks_completed + 1,
            final(self).chunks_queued == old(self).chunks_queued,
            final(self).input_finished == old(self).input_finished,
            ({
                let accepted = result matches Ok(res) && trimmed(res.text@).len() > 0
                    && meets_threshold(kind, res.confidence_permille);
                &&& final(self).next_sequence_id == old(self).next_sequence_id + if report.update is Some {
                    1int
                } else {
                    0int
                }
                &&& report.speech_detected == (accepted && !old(self).speech_detected_emitted)
                &&& final(self).speech_detected_emitted == (old(self).speech_detected_emitted
                    || accepted)
                &&& !accepted ==> report.update is None && final(self).last_text
                    == old(self).last_text && final(self).last_audio_end_us == old(
                    self,
                ).last_audio_end_us
            }),
            result matches Ok(res) ==> {
                let text = trimmed(res.text@);
                let accepted = text.len() > 0 && meets_threshold(kind, res.confidence_permille);
                let refinement = is_refinement_of(old(self).last_audio_end_us, chunk);
                let end = chunk.start_us + chunk.duration_us;
                let dedup = !res.is_partial && !refinement && within_dedup_window(
                    old(self).last_audio_end_us,
                    chunk.start_us,
                );
                let out = if dedup {
                    deduplicated(old(self).last_text@, text)
                } else {
                    text
                };
                accepted ==> {
                    &&& !res.is_partial ==> final(self).last_text@ == text
                    &&& !res.is_partial ==> final(self).last_audio_end_us == Some(
                        if refinement && old(self).last_audio_end_us->Some_0 > end {
                            old(self).last_audio_end_us->Some_0
                        } else {
                            end as u64
                        },
                    )
                    &&& res.is_partial ==> final(self).last_text == old(self).last_text
                        && final(self).last_audio_end_us == old(self).last_audio_end_us
                    &&& (report.update is Some <==> trimmed(out).len() > 0)
                    &&& report.update matches Some(u) ==> {
                        &&& u.text@ == out
                        &&& u.sequence_id == old(self).next_sequence_id
                        &&& u.timestamp@ == clock_text(now_unix_secs)
                        &&& u.chunk_start_time_us == chunk.start_us
                        &&& u.is_partial == res.is_partial
                        &&& u.confidence_permille == match res.confidence_permille {
                            Some(c) => c,
                            None => DEFAULT_CONFIDENCE_PERMILLE,
                        }
                        &&& u.audio_start_time_us == chunk.start_us
                        &&& u.audio_end_time_us == end
                        &&& u.duration_us == chunk.duration_us
                        &&& u.is_refinement == (refinement && !res.is_partial)
                    }
                }
            },
            report.update matches Some(u) ==> u.audio_end_time_us == u.audio_start_time_us
                + u.duration_us,
            report.warning is Some <==> result matches Err(TranscriptionError::EngineFailed(_)),
            report.progress is Some <==> match result {
                Err(TranscriptionError::AudioTooShort { .. }) => false,
                Err(TranscriptionError::ModelNotLoaded) => false,
                Err(TranscriptionError::EngineFailed(_)) => true,
                Ok(_) => report.update is Some || !(trimmed(result->Ok_0.text@).len() > 0
                    && meets_threshold(kind, result->Ok_0.confidence_permille)),
            },
            report.progress matches Some(p) ==> p.chunks_completed == final(self).chunks_completed
                && p.chunks_queued == final(self).chunks_queued && p.percentage
                == progress_percentage(final(self).chunks_completed, final(self).chunks_queued),
    {
        self.chunks_completed = self.chunks_completed + 1;
        let res = match result {
            Ok(res) => res,
            Err(TranscriptionError::EngineFailed(msg)) => {
                let progress = self.progress();
                return ChunkReport {
                    speech_detected: false,
                    update: None,
                    warning: Some(TranscriptionError::EngineFailed(msg)),
                    progress: Some(progress),
                };
            },
            Err(_) => {
                return ChunkReport {
                    speech_detected: false,
                    update: None,
                    warning: None,
                    progress: None,
                };
            },
        };
        let text = trim_whitespace(res.text.as_str());
        let meets = match res.confidence_permille {
            None => true,
            Some(c) => match kind {
                EngineKind::Whisper | EngineKind::Provider => c >= CONFIDENCE_THRESHOLD_PERMILLE,
                _ => true,
            },
        };
        if text.as_str().is_empty() || !meets {
            let progress = self.progress();
            return ChunkReport {
                speech_detected: false,
                update: None,
                warning: None,
                progress: Some(progress),
            };
        }
        let speech_detected = !self.speech_detected_emitted;
        self.speech_detected_emitted = true;
        let start = chunk.start_us;
        let end = chunk.start_us + chunk.duration_us;
        let refinement = match self.last_audio_end_us {
            None => false,
            Some(e) => (start as u128) + (REFINEMENT_LOOKBACK_US as u128) < (e as u128)
                && chunk.duration_us > REFINEMENT_MIN_DURATION_US,
        };
        let out = if !res.is_partial {
            let in_window = match self.last_audio_end_us {
                None => false,
                Some(e) => (e as u128) <= (start as u128) + (MAX_NEGATIVE_DRIFT_US as u128)
                    && (start as u128) <= (e as u128) + (MAX_DEDUP_GAP_US as u128),
            };
            let deduped = if !refinement && in_window {
                remove_text_overlap(self.last_text.as_str(), text.as_str())
            } else {
                text.clone()
            };
            let new_end = match self.last_audio_end_us {
                Some(e) => if refinement && e > end {
                    e
                } else {
                    end
                },
                None => end,
            };
            self.last_text = text;
            self.last_audio_end_us = Some(new_end);
            deduped
        } else {
            text
        };
        let remaining = trim_whitespace(out.as_str());
        if remaining.as_str().is_empty() {
            return ChunkReport { speech_detected, update: None, warning: None, progress: None };
        }
        let sequence_id = self.next_sequence_id;
        self.next_sequence_id = self.next_sequence_id + 1;
        let update = TranscriptUpdate {
            text: out,
            timestamp: format_clock_time(now_unix_secs),
            source: String::from_str("Audio"),
            sequence_id,
            chunk_start_time_us: start,
            is_partial: res.is_partial,
            confidence_permille: match res.confidence_permille {
                Some(c) => c,
                None => DEFAULT_CONFIDENCE_PERMILLE,
            },
            audio_start_time_us: start,
            audio_end_time_us: end,
            duration_us: chunk.duration_us,
            is_refinement: refinement && !res.is_partial,
        };
        let progress = self.progress();
        ChunkReport { speech_detected, update: Some(update), warning: None, progress: Some(progress) }
    }
}

/// A chunk with no samples after resampling is too short to transcribe.
pub fn check_chunk_audio(samples: usize) -> (r: Result<(), TranscriptionError>)
    ensures
        samples == 0 ==> (r matches Err(TranscriptionError::AudioTooShort { samples: n, minimum })
            && n == 0 && minimum == MIN_REMOTE_SAMPLES),
        samples > 0 ==> r is Ok,
{
    if samples == 0 {
        Err(TranscriptionError::AudioTooShort { samples: 0, minimum: MIN_REMOTE_SAMPLES })
    } else {
        Ok(())
    }
}

/// Start a new session of speech detection: clear the speech notice and the
/// last segment, so neither refinement nor overlap removal looks back past it.
pub fn reset_speech_detected_flag(session: &mut TranscriptionSession)
    ensures
        !final(session).speech_detected_emitted,
        final(session).last_text@.len() == 0,
        final(session).last_audio_end_us is None,
        final(session).chunks_queued == old(session).chunks_queued,
        final(session).chunks_completed == old(session).chunks_completed,
        final(session).input_finished == old(session).input_finished,
        final(session).next_sequence_id == old(session).next_sequence_id,
{
    session.speech_detected_emitted = false;
    session.last_text = String::new();
    session.last_audio_end_us = None;
}

/// One step of chunk accounting: a dispatch queues one more chunk, any other
/// step completes one.
pub open spec fn accounts(pre: TranscriptionSession, post: TranscriptionSession, dispatch: bool) -> bool {
    if dispatch {
        post.chunks_queued == pre.chunks_queued + 1 && post.chunks_completed == pre.chunks_completed
    } else {
        post.chunks_completed == pre.chunks_completed + 1 && post.chunks_queued
            == pre.chunks_queued
    }
}

/// Number of dispatches among `steps`.
pub open spec fn dispatch_count(steps: Seq<bool>) -> int
    decreases steps.len(),
{
    if steps.len() == 0 {
        0
    } else {
        dispatch_count(steps.drop_last()) + if steps.last() {
            1int
        } else {
            0int
        }
    }
}

proof fn lemma_accounting_prefix(trace: Seq<TranscriptionSession>, steps: Seq<bool>, k: int)
    requires
        trace.len() == steps.len() + 1,
        forall|i: int| 0 <= i < steps.len() ==> #[trigger] accounts(trace[i], trace[i + 1], steps[i]),
        0 <= k <= steps.len(),
    ensures
        trace[k].chunks_queued - trace[k].chunks_completed == trace[0].chunks_queued
            - trace[0].chunks_completed + 2 * dispatch_count(steps.subrange(0, k)) - k,
    decreases k,
{
    if k > 0 {
        lemma_accounting_prefix(trace, steps, k - 1);
        assert(steps.subrange(0, k).drop_last() =~= steps.subrange(0, k - 1));
        let m = k - 1;
        assert(accounts(trace[m], trace[m + 1], steps[m]));
    }
}

/// No chunk is lost: starting with every queued chunk completed, a run of
/// dispatches and completions with as many of each ends with every queued
/// chunk completed.
pub proof fn lemma_no_chunk_loss(trace: Seq<TranscriptionSession>, steps: Seq<bool>)
    requires
        trace.len() == steps.len() + 1,
        forall|i: int| 0 <= i < steps.len() ==> #[trigger] accounts(trace[i], trace[i + 1], steps[i]),
        trace[0].chunks_queued == trace[0].chunks_completed,
        2 * dispatch_count(steps) == steps.len(),
    ensures
        trace.last().chunks_queued == trace.last().chunks_completed,
{
    lemma_accounting_prefix(trace, steps, steps.len() as int);
    assert(steps.subrange(0, steps.len() as int) =~= steps);
}

proof fn lemma_sequence_ids_grow(trace: Seq<TranscriptionSession>, i: int, j: int)
    requires
        forall|k: int|
            0 <= k < trace.len() - 1 ==> #[trigger] trace[k].next_sequence_id <= trace[k
                + 1].next_sequence_id,
        0 <= i <= j < trace.len(),
    ensures
        trace[i].next_sequence_id <= trace[j].next_sequence_id,
    decreases j - i,
{
    if i < j {
        lemma_sequence_ids_grow(trace, i, j - 1);
        let m = j - 1;
        assert(trace[m].next_sequence_id <= trace[m + 1].next_sequence_id);
    }
}

/// Sequence ids of published updates strictly increase: along a run of
/// session states in which the next id never goes down, an update published
/// at step `i` (it took the id of state `i`, which the step advanced) has a
/// smaller id than one published at a later step `j`.
pub proof fn lemma_sequence_ids_increase(
    trace: Seq<TranscriptionSession>,
    i: int,
    j: int,
    id_i: u64,
    id_j: u64,
)
    requires
        forall|k: int|
            0 <= k < trace.len() - 1 ==> #[trigger] trace[k].next_sequence_id <= trace[k
                + 1].next_sequence_id,
        0 <= i < j < trace.len() - 1,
        id_i == trace[i].next_sequence_id,
        trace[i + 1].next_sequence_id == trace[i].next_sequence_id + 1,
        id_j == trace[j].next_sequence_id,
    ensures
        id_i < id_j,
{
    lemma_sequence_ids_grow(trace, i + 1, j);
}

proof fn lemma_flag_stays(trace: Seq<TranscriptionSession>, notices: Seq<bool>, i: int, j: int)
    requires
        trace.len() == notices.len() + 1,
        forall|k: int|
            0 <= k < notices.len() ==> #[trigger] trace[k + 1].speech_detected_emitted == (
            trace[k].speech_detected_emitted || notices[k]),
        0 <= i <= j < trace.len(),
        trace[i].speech_detected_emitted,
    ensures
        trace[j].speech_detected_emitted,
    decreases j - i,
{
    if i < j {
        lemma_flag_stays(trace, notices, i, j - 1);
        let m = j - 1;
        assert(trace[m + 1].speech_detected_emitted == (trace[m].speech_detected_emitted
            || notices[m]));
    }
}

/// At most one speech notice per session: along a run of steps without a
/// reset, where a notice is raised only while none was and the flag records
/// it, no two steps raise one.
pub proof fn lemma_speech_detected_once(trace: Seq<TranscriptionSession>, notices: Seq<bool>, i: int, j: int)
    requires
        trace.len() == notices.len() + 1,
        forall|k: int| 0 <= k < notices.len() && #[trigger] notices[k] ==> !trace[k].speech_detected_emitted,
        forall|k: int|
            0 <= k < notices.len() ==> #[trigger] trace[k + 1].speech_detected_emitted == (
            trace[k].speech_detected_emitted || notices[k]),
        0 <= i < j < notices.len(),
    ensures
        !(notices[i] && notices[j]),
{
    if notices[i] {
        assert(trace[i + 1].speech_detected_emitted == (trace[i].speech_detected_emitted
            || notices[i]));
        lemma_flag_stays(trace, notices, i + 1, j);
    }
}

} // verus!
