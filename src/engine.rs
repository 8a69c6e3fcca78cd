//! Model catalogue, file validation and the state rules of the local
//! multilingual recognition engine: discovery, loading, deletion, and the
//! bookkeeping of downloads. File and network access stay with the caller,
//! which hands in what it observed.

use vstd::prelude::*;

verus! {

/// Bytes in a mebibyte.
pub const MIB: u64 = 1_048_576;

/// Smallest size of a usable GGUF file.
pub const GGUF_MIN_SIZE: u64 = 1024;

/// The 4-byte magic at the start of a GGUF file (`GGUF`).
pub open spec fn gguf_magic() -> Seq<u8> {
    seq![0x47u8, 0x47u8, 0x55u8, 0x46u8]
}

/// A file of `file_size` bytes whose first bytes are `header` is a GGUF model.
pub open spec fn is_valid_gguf(file_size: u64, header: Seq<u8>) -> bool {
    file_size >= GGUF_MIN_SIZE && header.len() >= 4 && header.subrange(0, 4) == gguf_magic()
}

/// Check a model file from its size and its first bytes (as many as could be
/// read, up to 4).
pub fn validate_gguf(file_size: u64, header: &[u8]) -> (r: bool)
    ensures
        r == is_valid_gguf(file_size, header@),
{
    if file_size < GGUF_MIN_SIZE || header.len() < 4 {
        return false;
    }
    let ok = header[0] == 0x47 && header[1] == 0x47 && header[2] == 0x55 && header[3] == 0x46;
    assert(ok == (header@.subrange(0, 4) =~= gguf_magic()));
    ok
}

/// Weight precision of a model file.
#[derive(Clone, Copy, PartialEq, Eq, Structural, Debug)]
pub enum QuantizationType {
    F16,
    Q8_0,
}

impl Default for QuantizationType {
    fn default() -> (r: QuantizationType)
        ensures
            r == QuantizationType::Q8_0,
    {
        QuantizationType::Q8_0
    }
}

/// Where a catalogue model stands on this machine.
#[derive(Debug)]
pub enum ModelStatus {
    Available,
    Missing,
    Downloading { progress: u8 },
    Error(String),
    Corrupted { file_size: u64, expected_min_size: u64 },
}

impl ModelStatus {
    /// Whether the model can be loaded.
    pub fn is_available(&self) -> (r: bool)
        ensures
            r == (*self is Available),
    {
        match self {
            ModelStatus::Available => true,
            _ => false,
        }
    }

    /// A copy of this status.
    pub fn copy(&self) -> (r: ModelStatus)
        ensures
            r == *self,
    {
        match self {
            ModelStatus::Available => ModelStatus::Available,
            ModelStatus::Missing => ModelStatus::Missing,
            ModelStatus::Downloading { progress } => ModelStatus::Downloading { progress: *progress },
            ModelStatus::Error(m) => ModelStatus::Error(m.clone()),
            ModelStatus::Corrupted { file_size, expected_min_size } => ModelStatus::Corrupted {
                file_size: *file_size,
                expected_min_size: *expected_min_size,
            },
        }
    }
}

/// A catalogue model with its file and status.
#[derive(Debug)]
pub struct ModelInfo {
    pub name: String,
    pub path: String,
    pub size_mb: u32,
    pub quantization: QuantizationType,
    pub speed: String,
    pub status: ModelStatus,
    pub description: String,
}

impl ModelInfo {
    /// A copy of this record.
    pub fn copy(&self) -> (r: ModelInfo)
        ensures
            r == *self,
    {
        ModelInfo {
            name: self.name.clone(),
            path: self.path.clone(),
            size_mb: self.size_mb,
            quantization: self.quantization,
            speed: self.speed.clone(),
            status: self.status.copy(),
            description: self.description.clone(),
        }
    }
}

/// What went wrong in the engine.
#[derive(Debug)]
pub enum QwenAsrEngineError {
    ModelNotLoaded,
    ModelNotFound(String),
    TranscriptionFailed(String),
    DownloadFailed(String),
    IoError(String),
    Other(String),
    /// The model exists but has not been downloaded.
    NotDownloaded(String),
    /// The model is being downloaded.
    StillDownloading(String),
    /// The model's file failed validation.
    CorruptedModel(String),
    /// The model is in an error state, with its message.
    ModelFailed { name: String, message: String },
    /// Only available or corrupted models can be deleted.
    NotDeletable(String),
    /// A download of this model is already running.
    AlreadyDownloading(String),
    /// The server answered a download request with this HTTP status.
    HttpStatus(u16),
    /// The download was cancelled.
    Cancelled(String),
}

/// Number of models in the catalogue.
pub const CATALOGUE_LEN: usize = 2;

/// Name of catalogue entry `i`.
pub open spec fn catalogue_name(i: int) -> Seq<char> {
    if i == 0 {
        "qwen3-asr-0.6b-q8_0"@
    } else {
        "qwen3-asr-0.6b-f16"@
    }
}

/// File name of the model with quantization `q`.
pub open spec fn file_name_of(q: QuantizationType) -> Seq<char> {
    match q {
        QuantizationType::Q8_0 => "qwen3-asr-0.6b-q8_0.gguf"@,
        QuantizationType::F16 => "qwen3-asr-0.6b-f16.gguf"@,
    }
}

/// Quantization of catalogue entry `i`.
pub open spec fn catalogue_quantization(i: int) -> QuantizationType {
    if i == 0 {
        QuantizationType::Q8_0
    } else {
        QuantizationType::F16
    }
}

/// Nominal size of catalogue entry `i`, in MiB.
pub open spec fn catalogue_size_mb(i: int) -> u32 {
    if i == 0 {
        1350
    } else {
        1880
    }
}

/// File name of the model with quantization `q`.
pub fn model_file_name(q: QuantizationType) -> (r: &'static str)
    ensures
        r@ == file_name_of(q),
{
    match q {
        QuantizationType::Q8_0 => "qwen3-asr-0.6b-q8_0.gguf",
        QuantizationType::F16 => "qwen3-asr-0.6b-f16.gguf",
    }
}

/// Where the model file with quantization `q` is published.
pub open spec fn download_url_of(q: QuantizationType) -> Seq<char> {
    "https://huggingface.co/FlippyDora/qwen3-asr-0.6b-GGUF/resolve/main/"@ + file_name_of(q)
}

/// The address to download the model file with quantization `q` from.
pub fn download_url(q: QuantizationType) -> (r: String)
    ensures
        r@ == download_url_of(q),
{
    String::from_str("https://huggingface.co/FlippyDora/qwen3-asr-0.6b-GGUF/resolve/main/").concat(
        model_file_name(q),
    )
}

/// Path of `file` inside `dir`.
pub open spec fn path_in(dir: Seq<char>, file: Seq<char>) -> Seq<char> {
    dir + "/"@ + file
}

/// What the caller found at a model's path: the file's size and its first bytes.
#[derive(Debug)]
pub struct FileProbe {
    pub size: u64,
    pub header: Vec<u8>,
}

/// Status of a catalogue model of nominal size `size_mb` MiB, given whether it
/// is being downloaded and what is at its path (`None`: no file).
pub open spec fn status_of(downloading: bool, probe: Option<FileProbe>, size_mb: u32) -> ModelStatus {
    if downloading {
        ModelStatus::Downloading { progress: 0 }
    } else {
        match probe {
            None => ModelStatus::Missing,
            Some(p) => if is_valid_gguf(p.size, p.header@) {
                ModelStatus::Available
            } else {
                ModelStatus::Corrupted {
                    file_size: p.size,
                    expected_min_size: (size_mb as u64 * MIB) as u64,
                }
            },
        }
    }
}

/// Decide a model's status from what was found on disk.
pub fn model_status_for(downloading: bool, probe: &Option<FileProbe>, size_mb: u32) -> (r: ModelStatus)
    ensures
        r == status_of(downloading, *probe, size_mb),
{
    if downloading {
        return ModelStatus::Downloading { progress: 0 };
    }
    match probe {
        None => ModelStatus::Missing,
        Some(p) => if validate_gguf(p.size, p.header.as_slice()) {
            ModelStatus::Available
        } else {
            assert(size_mb as u64 * MIB <= u64::MAX) by (nonlinear_arith)
                requires
                    size_mb <= u32::MAX,
                    MIB == 1_048_576,
            ;
            ModelStatus::Corrupted { file_size: p.size, expected_min_size: size_mb as u64 * MIB }
        },
    }
}

/// Speed tag of catalogue entry `i`.
pub open spec fn catalogue_speed(i: int) -> Seq<char> {
    if i == 0 {
        "Fast (Quantized)"@
    } else {
        "Accurate (F16)"@
    }
}

/// Description of catalogue entry `i`.
pub open spec fn catalogue_description(i: int) -> Seq<char> {
    if i == 0 {
        "8-bit quantized, best speed/quality balance"@
    } else {
        "Half-precision, highest accuracy"@
    }
}

/// `names` holds `n`.
pub open spec fn lists_name(names: Seq<String>, n: Seq<char>) -> bool {
    exists|i: int| 0 <= i < names.len() && #[trigger] names[i]@ == n
}

/// `i` is the first model in `models` named `n`.
pub open spec fn first_named(models: Seq<ModelInfo>, n: Seq<char>, i: int) -> bool {
    &&& 0 <= i < models.len()
    &&& models[i].name@ == n
    &&& forall|j: int| 0 <= j < i ==> #[trigger] models[j].name@ != n
}

/// No model in `models` is named `n`.
pub open spec fn none_named(models: Seq<ModelInfo>, n: Seq<char>) -> bool {
    forall|j: int| 0 <= j < models.len() ==> #[trigger] models[j].name@ != n
}

/// Whether `names` holds `name`.
pub fn contains_name(names: &Vec<String>, name: &str) -> (r: bool)
    ensures
        r == lists_name(names@, name@),
{
    let n = String::from_str(name);
    let mut i: usize = 0;
    while i < names.len()
        invariant
            i <= names@.len(),
            n@ == name@,
            forall|j: int| 0 <= j < i ==> #[trigger] names@[j]@ != name@,
        decreases names@.len() - i,
    {
        if names[i] == n {
            return true;
        }
        i = i + 1;
    }
    false
}

proof fn lemma_lists_name_push(s: Seq<String>, x: String, m: Seq<char>)
    ensures
        lists_name(s.push(x), m) == (lists_name(s, m) || x@ == m),
{
    if lists_name(s.push(x), m) {
        let k = choose|k: int| 0 <= k < s.push(x).len() && #[trigger] s.push(x)[k]@ == m;
        if k < s.len() {
            assert(s[k]@ == m);
        }
    }
    if lists_name(s, m) {
        let k = choose|k: int| 0 <= k < s.len() && #[trigger] s[k]@ == m;
        assert(s.push(x)[k]@ == m);
    }
    if x@ == m {
        assert(s.push(x)[s.len() as int]@ == m);
    }
}

/// `names` without any entry equal to `name`.
pub fn without_name(names: &Vec<String>, name: &str) -> (r: Vec<String>)
    ensures
        !lists_name(r@, name@),
        forall|m: Seq<char>| m != name@ ==> (lists_name(r@, m) == lists_name(names@, m)),
{
    let n = String::from_str(name);
    let mut out: Vec<String> = Vec::new();
    let mut i: usize = 0;
    while i < names.len()
        invariant
            i <= names@.len(),
            n@ == name@,
            !lists_name(out@, name@),
            forall|m: Seq<char>|
                m != name@ ==> (lists_name(out@, m) == lists_name(names@.subrange(0, i as int), m)),
        decreases names@.len() - i,
    {
        let ghost before = out@;
        let ghost seen = names@.subrange(0, i as int);
        assert(names@.subrange(0, i + 1) =~= seen.push(names@[i as int]));
        if !(names[i] == n) {
            out.push(names[i].clone());
            proof {
                lemma_lists_name_push(before, names@[i as int], name@);
                assert forall|m: Seq<char>| m != name@ implies (lists_name(out@, m) == lists_name(
                    names@.subrange(0, i + 1),
                    m,
                )) by {
                    lemma_lists_name_push(before, names@[i as int], m);
                    lemma_lists_name_push(seen, names@[i as int], m);
                }
            }
        } else {
            proof {
                assert forall|m: Seq<char>| m != name@ implies (lists_name(out@, m) == lists_name(
                    names@.subrange(0, i + 1),
                    m,
                )) by {
                    lemma_lists_name_push(seen, names@[i as int], m);
                }
            }
        }
        i = i + 1;
    }
    assert(names@.subrange(0, names@.len() as int) =~= names@);
    out
}

/// Index of the first model named `name`, if any.
pub fn find_model(models: &Vec<ModelInfo>, name: &str) -> (r: Option<usize>)
    ensures
        r matches Some(i) ==> first_named(models@, name@, i as int),
        r is None ==> none_named(models@, name@),
{
    let n = String::from_str(name);
    let mut i: usize = 0;
    while i < models.len()
        invariant
            i <= models@.len(),
            n@ == name@,
            forall|j: int| 0 <= j < i ==> #[trigger] models@[j].name@ != name@,
        decreases models@.len() - i,
    {
        if models[i].name == n {
            return Some(i);
        }
        i = i + 1;
    }
    None
}

/// What loading a model requires of the caller.
#[derive(Debug)]
pub enum LoadAction {
    /// The model is the current one; nothing to do.
    AlreadyLoaded,
    /// Open the model file at `path`, after releasing the current model if `replaces_current`.
    Load { path: String, replaces_current: bool },
}

/// The engine's state: where models live, the catalogue with each model's
/// status, the loaded model, and the downloads under way or cancelled.
#[derive(Debug)]
pub struct QwenAsrEngine {
    pub models_dir: String,
    pub current_model_name: Option<String>,
    pub model_loaded: bool,
    pub available_models: Vec<ModelInfo>,
    pub cancel_download_flag: Option<String>,
    pub active_downloads: Vec<String>,
}

/// `m` with status `s`.
pub open spec fn with_status(m: ModelInfo, s: ModelStatus) -> ModelInfo {
    ModelInfo { status: s, ..m }
}

/// `m` made available with its file at `path`.
pub open spec fn available_at(m: ModelInfo, path: String) -> ModelInfo {
    ModelInfo { status: ModelStatus::Available, path, ..m }
}

/// `models` with the status of the first model named `n` replaced by `s`.
pub open spec fn status_updated(models: Seq<ModelInfo>, n: Seq<char>, s: ModelStatus) -> Seq<ModelInfo> {
    if exists|i: int| first_named(models, n, i) {
        let i = choose|i: int| first_named(models, n, i);
        models.update(i, with_status(models[i], s))
    } else {
        models
    }
}

proof fn lemma_first_named_unique(models: Seq<ModelInfo>, n: Seq<char>, i: int, j: int)
    requires
        first_named(models, n, i),
        first_named(models, n, j),
    ensures
        i == j,
{
    if i < j {
        assert(models[i].name@ != n);
    } else if j < i {
        assert(models[j].name@ != n);
    }
}

/// What a download needs: where from, where to, and the size to expect.
#[derive(Debug)]
pub struct DownloadPlan {
    pub url: String,
    pub file_path: String,
    pub expected_size: u64,
}

/// How to write the body of a download response.
#[derive(Clone, Copy, PartialEq, Eq, Structural, Debug)]
pub enum ResponseAction {
    /// Append to the partial file; `total` is the full size.
    Resume { total: u64 },
    /// Truncate the file and write from the start; `total` is the full size.
    Restart { total: u64 },
}

/// The partial file already holds the model: it reaches 99 % of the expected
/// size (rounded down) and is a valid model file.
pub open spec fn partial_is_complete(expected_size: u64, existing_size: u64, file_valid: bool) -> bool {
    existing_size > 0 && existing_size >= (expected_size * 99) / 100 && file_valid
}

/// Whether a partial file of `existing_size` bytes already holds the model.
pub fn existing_download_complete(expected_size: u64, existing_size: u64, file_valid: bool) -> (r: bool)
    ensures
        r == partial_is_complete(expected_size, existing_size, file_valid),
{
    let threshold = (expected_size as u128) * 99 / 100;
    existing_size > 0 && (existing_size as u128) >= threshold && file_valid
}

/// The action for a download response with HTTP `status`, given the bytes
/// already on disk and the response's length, if known.
pub open spec fn response_action_of(
    existing_size: u64,
    status: u16,
    content_length: Option<u64>,
    expected_size: u64,
) -> Result<ResponseAction, u16> {
    if status == 206 {
        let remaining = match content_length {
            Some(n) => n as int,
            None => 0,
        };
        let total = if existing_size + remaining > u64::MAX {
            u64::MAX as int
        } else {
            existing_size + remaining
        };
        Ok(ResponseAction::Resume { total: total as u64 })
    } else if 200 <= status <= 299 {
        Ok(
            ResponseAction::Restart {
                total: match content_length {
                    Some(n) => n,
                    None => expected_size,
                },
            },
        )
    } else {
        Err(status)
    }
}

/// Decide how to handle a download response: `206 Partial Content` resumes
/// (the total, capped at `u64::MAX`, is the bytes on disk plus the response
/// length), any other success restarts (the total is the response length or
/// else the expected size), anything else fails with the status.
pub fn plan_response(existing_size: u64, status: u16, content_length: Option<u64>, expected_size: u64) -> (r: Result<ResponseAction, QwenAsrEngineError>)
    ensures
        match response_action_of(existing_size, status, content_length, expected_size) {
            Ok(a) => r == Ok::<ResponseAction, QwenAsrEngineError>(a),
            Err(s) => r matches Err(QwenAsrEngineError::HttpStatus(c)) && c == s,
        },
{
    if status == 206 {
        let remaining: u64 = match content_length {
            Some(n) => n,
            None => 0,
        };
        let total: u64 = match existing_size.checked_add(remaining) {
            Some(t) => t,
            None => u64::MAX,
        };
        Ok(ResponseAction::Resume { total })
    } else if 200 <= status && status <= 299 {
        Ok(
            ResponseAction::Restart {
                total: match content_length {
                    Some(n) => n,
                    None => expected_size,
                },
            },
        )
    } else {
        Err(QwenAsrEngineError::HttpStatus(status))
    }
}

/// Percentage of a download reported to listeners: `min(100, 100·downloaded/total)`
/// rounded down, or 0 when the total is unknown.
pub open spec fn download_percent(downloaded: u64, total: u64) -> int {
    if total == 0 {
        0
    } else if downloaded * 100 / (total as int) > 100 {
        100
    } else {
        downloaded * 100 / (total as int)
    }
}

/// Percentage kept in the model's status while downloading: capped at 99
/// until the download completes.
pub open spec fn status_percent(downloaded: u64, total: u64) -> int {
    if download_percent(downloaded, total) > 99 {
        99
    } else {
        download_percent(downloaded, total)
    }
}

fn percent_of(downloaded: u64, total: u64) -> (r: u8)
    ensures
        r == download_percent(downloaded, total),
{
    if total == 0 {
        return 0;
    }
    let p = (downloaded as u128) * 100 / (total as u128);
    if p > 100 {
        100
    } else {
        p as u8
    }
}

/// A progress report of a download. Rates and megabyte figures are derived
/// from these by the caller.
#[derive(Clone, Copy, Debug)]
pub struct DownloadProgress {
    pub downloaded_bytes: u64,
    pub total_bytes: u64,
    pub percent: u8,
}

impl DownloadProgress {
    /// Progress at `downloaded` of `total` bytes.
    pub fn new(downloaded: u64, total: u64) -> (r: DownloadProgress)
        ensures
            r.downloaded_bytes == downloaded,
            r.total_bytes == total,
            r.percent == download_percent(downloaded, total),
    {
        DownloadProgress { downloaded_bytes: downloaded, total_bytes: total, percent: percent_of(downloaded, total) }
    }
}

/// Least time between two reports when the percentage has not moved, in milliseconds.
pub const REPORT_INTERVAL_MS: u64 = 500;

/// Counts the bytes of one download and decides when to report progress.
#[derive(Clone, Copy, Debug)]
pub struct DownloadTracker {
    pub downloaded: u64,
    pub total: u64,
    pub last_reported_percent: u8,
    pub bytes_since_last_report: u64,
}

impl DownloadTracker {
    /// A tracker for a download of `total` bytes of which `already` are on disk.
    pub fn new(already: u64, total: u64) -> (r: DownloadTracker)
        ensures
            r.downloaded == already,
            r.total == total,
            r.last_reported_percent == 0,
            r.bytes_since_last_report == 0,
    {
        DownloadTracker { downloaded: already, total, last_reported_percent: 0, bytes_since_last_report: 0 }
    }

    /// Count a received chunk of `len` bytes, `elapsed_ms` after the last
    /// report. A report is due when the status percentage advanced or the
    /// report interval has passed; it then carries the progress and the new
    /// status percentage.
    pub fn on_chunk(&mut self, len: u64, elapsed_ms: u64) -> (r: Option<(DownloadProgress, u8)>)
        requires
            old(self).downloaded + len <= u64::MAX,
            old(self).bytes_since_last_report + len <= u64::MAX,
        ensures
            final(self).downloaded == old(self).downloaded + len,
            final(self).total == old(self).total,
            ({
                let overall = status_percent(final(self).downloaded, final(self).total);
                let due = overall > old(self).last_reported_percent || elapsed_ms >= REPORT_INTERVAL_MS;
                &&& r is Some <==> due
                &&& due ==> final(self).last_reported_percent == overall
                    && final(self).bytes_since_last_report == 0
                &&& !due ==> final(self).last_reported_percent == old(self).last_reported_percent
                    && final(self).bytes_since_last_report == old(self).bytes_since_last_report + len
                &&& r matches Some((p, s)) ==> p.downloaded_bytes == final(self).downloaded
                    && p.total_bytes == final(self).total && p.percent == download_percent(
                    final(self).downloaded,
                    final(self).total,
                ) && s == overall
            }),
    {
        self.downloaded = self.downloaded + len;
        self.bytes_since_last_report = self.bytes_since_last_report + len;
        let p = percent_of(self.downloaded, self.total);
        let overall: u8 = if p > 99 {
            99
        } else {
            p
        };
        if overall > self.last_reported_percent || elapsed_ms >= REPORT_INTERVAL_MS {
            self.last_reported_percent = overall;
            self.bytes_since_last_report = 0;
            Some((DownloadProgress::new(self.downloaded, self.total), overall))
        } else {
            None
        }
    }

    /// The report sent when the download completes: all of the total.
    pub fn final_report(&self) -> (r: DownloadProgress)
        ensures
            r.downloaded_bytes == self.total,
            r.total_bytes == self.total,
            r.percent == download_percent(self.total, self.total),
    {
        DownloadProgress::new(self.total, self.total)
    }
}

/// Reported download progress never goes down while bytes arrive, never
/// exceeds 100, and is exactly 100 once everything of a known total is in.
pub proof fn lemma_progress_monotone(total: u64, a: u64, b: u64)
    requires
        a <= b,
    ensures
        download_percent(a, total) <= download_percent(b, total),
        0 <= download_percent(b, total) <= 100,
        total > 0 ==> download_percent(total, total) == 100,
{
    if total > 0 {
        assert((a as int) * 100 / (total as int) <= (b as int) * 100 / (total as int)) by (nonlinear_arith)
            requires
                a <= b,
                total > 0,
        ;
        assert((total as int) * 100 / (total as int) == 100) by (nonlinear_arith)
            requires
                total > 0,
        ;
        assert((b as int) * 100 / (total as int) >= 0) by (nonlinear_arith)
            requires
                total > 0,
        ;
    }
}

/// Along one download (the total fixed, the byte count never going down),
/// the reported percentage never goes down, and the final report of a known
/// total says 100.
pub proof fn lemma_download_reports_monotone(trace: Seq<DownloadTracker>, i: int, j: int)
    requires
        forall|k: int|
            0 <= k < trace.len() - 1 ==> #[trigger] trace[k].total == trace[k + 1].total
                && trace[k].downloaded <= trace[k + 1].downloaded,
        0 <= i <= j < trace.len(),
    ensures
        download_percent(trace[i].downloaded, trace[i].total) <= download_percent(
            trace[j].downloaded,
            trace[j].total,
        ),
        trace[j].total > 0 ==> download_percent(trace[j].total, trace[j].total) == 100,
    decreases j - i,
{
    if i < j {
        lemma_download_reports_monotone(trace, i, j - 1);
        let m = j - 1;
        assert(trace[m].total == trace[m + 1].total && trace[m].downloaded <= trace[m + 1].downloaded);
        lemma_progress_monotone(trace[j].total, trace[m].downloaded, trace[j].downloaded);
    } else {
        lemma_progress_monotone(trace[j].total, trace[j].downloaded, trace[j].downloaded);
    }
}

/// Model `i` can be loaded.
pub open spec fn is_available(models: Seq<ModelInfo>, i: int) -> bool {
    0 <= i < models.len() && models[i].status is Available
}

/// Model `i` is an available 8-bit model.
pub open spec fn is_available_q8(models: Seq<ModelInfo>, i: int) -> bool {
    is_available(models, i) && models[i].quantization == QuantizationType::Q8_0
}

/// The model to load by default: the first available 8-bit model, else the
/// first available model.
pub open spec fn is_default_choice(models: Seq<ModelInfo>, i: int) -> bool {
    if exists|j: int| is_available_q8(models, j) {
        is_available_q8(models, i) && forall|j: int| 0 <= j < i ==> !#[trigger] is_available_q8(models, j)
    } else {
        is_available(models, i) && forall|j: int| 0 <= j < i ==> !#[trigger] is_available(models, j)
    }
}

/// Message when no model can be loaded.
pub open spec fn no_model_message() -> Seq<char> {
    "No Qwen ASR models available. Please download a model."@
}

/// Whether any model is available.
pub fn has_available_models(models: &Vec<ModelInfo>) -> (r: bool)
    ensures
        r == exists|i: int| is_available(models@, i),
{
    let mut i: usize = 0;
    while i < models.len()
        invariant
            i <= models@.len(),
            forall|j: int| 0 <= j < i ==> !#[trigger] is_available(models@, j),
        decreases models@.len() - i,
    {
        if models[i].status.is_available() {
            assert(is_available(models@, i as int));
            return true;
        }
        i = i + 1;
    }
    assert forall|j: int| !#[trigger] is_available(models@, j) by {}
    false
}

/// Name of the model to load: the configured one when it is available,
/// else the first available 8-bit model, else the first available model;
/// an error when none is available.
pub fn select_model_to_load(models: &Vec<ModelInfo>, configured: Option<&str>) -> (r: Result<String, String>)
    ensures
        !(exists|i: int| is_available(models@, i)) ==> (r matches Err(m) && m@ == no_model_message()),
        (exists|i: int| is_available(models@, i)) ==> r is Ok,
        (configured matches Some(c) && exists|i: int| is_available(models@, i) && #[trigger] models@[i].name@ == c@)
            ==> (r matches Ok(n) && n@ == configured->Some_0@),
        !(configured matches Some(c) && exists|i: int| is_available(models@, i) && #[trigger] models@[i].name@ == c@)
            ==> forall|n: String| r == Ok::<String, String>(n) ==> exists|i: int| is_default_choice(models@, i) && #[trigger] models@[i].name == n,
{
    let mut first: Option<usize> = None;
    let mut first_q8: Option<usize> = None;
    let mut configured_found = false;
    let wanted = match configured {
        Some(c) => Some(String::from_str(c)),
        None => None,
    };
    let mut i: usize = 0;
    while i < models.len()
        invariant
            i <= models@.len(),
            wanted matches Some(w) ==> configured matches Some(c) && w@ == c@,
            wanted is None ==> configured is None,
            first matches Some(k) ==> k < i && is_available(models@, k as int) && forall|j: int| 0 <= j < k ==> !#[trigger] is_available(models@, j),
            first is None ==> forall|j: int| 0 <= j < i ==> !#[trigger] is_available(models@, j),
            first_q8 matches Some(k) ==> k < i && is_available_q8(models@, k as int) && forall|j: int| 0 <= j < k ==> !#[trigger] is_available_q8(models@, j),
            first_q8 is None ==> forall|j: int| 0 <= j < i ==> !#[trigger] is_available_q8(models@, j),
            configured_found == (configured matches Some(c) && exists|j: int| 0 <= j < i && is_available(models@, j) && #[trigger] models@[j].name@ == c@),
        decreases models@.len() - i,
    {
        if models[i].status.is_available() {
            if first.is_none() {
                first = Some(i);
            }
            if first_q8.is_none() && models[i].quantization == QuantizationType::Q8_0 {
                first_q8 = Some(i);
            }
            match &wanted {
                Some(w) => if models[i].name == *w {
                    configured_found = true;
                },
                None => {},
            }
        }
        i = i + 1;
    }
    let k = match first {
        Some(k) => k,
        None => {
            assert forall|j: int| !#[trigger] is_available(models@, j) by {}
            return Err(String::from_str("No Qwen ASR models available. Please download a model."));
        },
    };
    if configured_found {
        return Ok(String::from_str(configured.unwrap()));
    }
    let chosen = match first_q8 {
        Some(q) => q,
        None => {
            assert forall|j: int| !#[trigger] is_available_q8(models@, j) by {}
            k
        },
    };
    let name = models[chosen].name.clone();
    assert(is_default_choice(models@, chosen as int));
    Ok(name)
}

/// Catalogue entry `i` as found with status `status` in `dir`.
pub open spec fn is_catalogue_entry(m: ModelInfo, i: int, dir: Seq<char>, status: ModelStatus) -> bool {
    &&& m.name@ == catalogue_name(i)
    &&& m.path@ == path_in(dir, file_name_of(catalogue_quantization(i)))
    &&& m.size_mb == catalogue_size_mb(i)
    &&& m.quantization == catalogue_quantization(i)
    &&& m.speed@ == catalogue_speed(i)
    &&& m.status == status
    &&& m.description@ == catalogue_description(i)
}

fn catalogue_entry(i: usize, dir: &str, status: ModelStatus) -> (r: ModelInfo)
    requires
        i < CATALOGUE_LEN,
    ensures
        is_catalogue_entry(r, i as int, dir@, status),
{
    let q = if i == 0 {
        QuantizationType::Q8_0
    } else {
        QuantizationType::F16
    };
    let path = String::from_str(dir).concat("/").concat(model_file_name(q));
    if i == 0 {
        ModelInfo {
            name: String::from_str("qwen3-asr-0.6b-q8_0"),
            path,
            size_mb: 1350,
            quantization: q,
            speed: String::from_str("Fast (Quantized)"),
            status,
            description: String::from_str("8-bit quantized, best speed/quality balance"),
        }
    } else {
        ModelInfo {
            name: String::from_str("qwen3-asr-0.6b-f16"),
            path,
            size_mb: 1880,
            quantization: q,
            speed: String::from_str("Accurate (F16)"),
            status,
            description: String::from_str("Half-precision, highest accuracy"),
        }
    }
}

impl QwenAsrEngine {
    /// An engine keeping its models in `models_dir`, with no model loaded,
    /// an empty catalogue and no download.
    pub fn new_with_models_dir(models_dir: String) -> (r: QwenAsrEngine)
        ensures
            r.models_dir == models_dir,
            r.current_model_name is None,
            !r.model_loaded,
            r.available_models@.len() == 0,
            r.cancel_download_flag is None,
            r.active_downloads@.len() == 0,
    {
        QwenAsrEngine {
            models_dir,
            current_model_name: None,
            model_loaded: false,
            available_models: Vec::new(),
            cancel_download_flag: None,
            active_downloads: Vec::new(),
        }
    }

    /// Rebuild the catalogue from what was found at each entry's path
    /// (`probes[i]` for entry `i`, `None` where there is no file). A model
    /// being downloaded is `Downloading`; a file that passes validation is
    /// `Available`; another file is `Corrupted`; no file is `Missing`.
    pub fn discover_models(&mut self, probes: &Vec<Option<FileProbe>>) -> (r: Vec<ModelInfo>)
        requires
            probes@.len() == CATALOGUE_LEN,
        ensures
            r@.len() == CATALOGUE_LEN,
            forall|i: int|
                0 <= i < CATALOGUE_LEN ==> is_catalogue_entry(
                    #[trigger] r@[i],
                    i,
                    old(self).models_dir@,
                    status_of(
                        lists_name(old(self).active_downloads@, catalogue_name(i)),
                        probes@[i],
                        catalogue_size_mb(i),
                    ),
                ),
            final(self).available_models@ == r@,
            final(self).models_dir == old(self).models_dir,
            final(self).current_model_name == old(self).current_model_name,
            final(self).model_loaded == old(self).model_loaded,
            final(self).cancel_download_flag == old(self).cancel_download_flag,
            final(self).active_downloads == old(self).active_downloads,
    {
        let mut models: Vec<ModelInfo> = Vec::new();
        let mut copies: Vec<ModelInfo> = Vec::new();
        let mut i: usize = 0;
        while i < CATALOGUE_LEN
            invariant
                i <= CATALOGUE_LEN,
                probes@.len() == CATALOGUE_LEN,
                models@.len() == i,
                copies@ == models@,
                forall|k: int|
                    0 <= k < i ==> is_catalogue_entry(
                        #[trigger] models@[k],
                        k,
                        self.models_dir@,
                        status_of(
                            lists_name(self.active_downloads@, catalogue_name(k)),
                            probes@[k],
                            catalogue_size_mb(k),
                        ),
                    ),
            decreases CATALOGUE_LEN - i,
        {
            let name = if i == 0 {
                "qwen3-asr-0.6b-q8_0"
            } else {
                "qwen3-asr-0.6b-f16"
            };
            let size_mb: u32 = if i == 0 {
                1350
            } else {
                1880
            };
            proof {
                reveal_strlit("qwen3-asr-0.6b-q8_0");
                reveal_strlit("qwen3-asr-0.6b-f16");
            }
            assert(name@ == catalogue_name(i as int));
            let downloading = contains_name(&self.active_downloads, name);
            let status = model_status_for(downloading, &probes[i], size_mb);
            let entry = catalogue_entry(i, self.models_dir.as_str(), status);
            copies.push(entry.copy());
            models.push(entry);
            i = i + 1;
        }
        self.available_models = copies;
        models
    }


    /// Name of the loaded model, if any.
    pub fn get_current_model(&self) -> (r: Option<String>)
        ensures
            r == self.current_model_name,
    {
        match &self.current_model_name {
            Some(n) => Some(n.clone()),
            None => None,
        }
    }

    /// Whether a model is loaded.
    pub fn is_model_loaded(&self) -> (r: bool)
        ensures
            r == self.model_loaded,
    {
        self.model_loaded
    }

    /// The directory that holds the model files.
    pub fn get_models_directory(&self) -> (r: String)
        ensures
            r == self.models_dir,
    {
        self.models_dir.clone()
    }

    /// Decide how to load the model `name`: it must be in the catalogue and
    /// available; if it is already the current model nothing is to be done,
    /// else its file is opened, after releasing the current model if one is
    /// loaded. Each other status is its own error.
    pub fn load_model(&self, name: &str) -> (r: Result<LoadAction, QwenAsrEngineError>)
        ensures
            none_named(self.available_models@, name@) ==> (r matches Err(
                QwenAsrEngineError::ModelNotFound(n),
            ) && n@ == name@),
            forall|i: int|
                #[trigger] first_named(self.available_models@, name@, i) ==> match self.available_models@[i].status {
                    ModelStatus::Available => if self.current_model_name matches Some(c) && c@
                        == name@ {
                        r matches Ok(LoadAction::AlreadyLoaded)
                    } else {
                        r matches Ok(LoadAction::Load { path, replaces_current }) && path
                            == self.available_models@[i].path && replaces_current == (
                        self.current_model_name is Some)
                    },
                    ModelStatus::Missing => r matches Err(QwenAsrEngineError::NotDownloaded(n))
                        && n@ == name@,
                    ModelStatus::Downloading { .. } => r matches Err(
                        QwenAsrEngineError::StillDownloading(n),
                    ) && n@ == name@,
                    ModelStatus::Error(m) => r matches Err(
                        QwenAsrEngineError::ModelFailed { name: n, message },
                    ) && n@ == name@ && message == m,
                    ModelStatus::Corrupted { .. } => r matches Err(
                        QwenAsrEngineError::CorruptedModel(n),
                    ) && n@ == name@,
                },
    {
        let i = match find_model(&self.available_models, name) {
            Some(i) => i,
            None => return Err(QwenAsrEngineError::ModelNotFound(String::from_str(name))),
        };
        proof {
            assert forall|j: int| #[trigger] first_named(self.available_models@, name@, j) implies j
                == i by {
                lemma_first_named_unique(self.available_models@, name@, i as int, j);
            }
        }
        let info = &self.available_models[i];
        match &info.status {
            ModelStatus::Available => {
                let requested = String::from_str(name);
                match &self.current_model_name {
                    Some(c) => if *c == requested {
                        Ok(LoadAction::AlreadyLoaded)
                    } else {
                        Ok(LoadAction::Load { path: info.path.clone(), replaces_current: true })
                    },
                    None => Ok(LoadAction::Load { path: info.path.clone(), replaces_current: false }),
                }
            },
            ModelStatus::Missing => Err(QwenAsrEngineError::NotDownloaded(String::from_str(name))),
            ModelStatus::Downloading { .. } => Err(
                QwenAsrEngineError::StillDownloading(String::from_str(name)),
            ),
            ModelStatus::Error(m) => Err(
                QwenAsrEngineError::ModelFailed { name: String::from_str(name), message: m.clone() },
            ),
            ModelStatus::Corrupted { .. } => Err(
                QwenAsrEngineError::CorruptedModel(String::from_str(name)),
            ),
        }
    }

    /// Record that the model `name` was opened and is now the current one.
    pub fn record_loaded(&mut self, name: &str)
        ensures
            final(self).model_loaded,
            final(self).current_model_name matches Some(n) && n@ == name@,
            final(self).models_dir == old(self).models_dir,
            final(self).available_models == old(self).available_models,
            final(self).cancel_download_flag == old(self).cancel_download_flag,
            final(self).active_downloads == old(self).active_downloads,
    {
        self.model_loaded = true;
        self.current_model_name = Some(String::from_str(name));
    }

    /// Release the current model; returns whether one was loaded.
    pub fn unload_model(&mut self) -> (r: bool)
        ensures
            r == old(self).model_loaded,
            !final(self).model_loaded,
            final(self).current_model_name is None,
            final(self).models_dir == old(self).models_dir,
            final(self).available_models == old(self).available_models,
            final(self).cancel_download_flag == old(self).cancel_download_flag,
            final(self).active_downloads == old(self).active_downloads,
    {
        let was = self.model_loaded;
        self.model_loaded = false;
        self.current_model_name = None;
        was
    }

    /// Set the status of the model `name`, if it is in the catalogue.
    pub fn set_model_status(&mut self, name: &str, status: ModelStatus)
        ensures
            final(self).available_models@ == status_updated(old(self).available_models@, name@, status),
            final(self).models_dir == old(self).models_dir,
            final(self).current_model_name == old(self).current_model_name,
            final(self).model_loaded == old(self).model_loaded,
            final(self).cancel_download_flag == old(self).cancel_download_flag,
            final(self).active_downloads == old(self).active_downloads,
    {
        match find_model(&self.available_models, name) {
            Some(i) => {
                let info = self.available_models[i].copy();
                let updated = ModelInfo { status, ..info };
                self.available_models.set(i, updated);
                proof {
                    let j = choose|j: int| first_named(old(self).available_models@, name@, j);
                    lemma_first_named_unique(old(self).available_models@, name@, i as int, j);
                    assert(self.available_models@ =~= status_updated(old(self).available_models@, name@, status));
                }
            },
            None => {},
        }
    }

    /// The file of the model `name` if it may be deleted: only available or
    /// corrupted models may. The caller removes the file and then sets the
    /// model's status to `Missing`.
    pub fn delete_model(&self, name: &str) -> (r: Result<String, QwenAsrEngineError>)
        ensures
            none_named(self.available_models@, name@) ==> (r matches Err(
                QwenAsrEngineError::ModelNotFound(n),
            ) && n@ == name@),
            forall|i: int|
                #[trigger] first_named(self.available_models@, name@, i) ==> match self.available_models@[i].status {
                    ModelStatus::Available | ModelStatus::Corrupted { .. } => r matches Ok(p) && p
                        == self.available_models@[i].path,
                    _ => r matches Err(QwenAsrEngineError::NotDeletable(n)) && n@ == name@,
                },
    {
        let i = match find_model(&self.available_models, name) {
            Some(i) => i,
            None => return Err(QwenAsrEngineError::ModelNotFound(String::from_str(name))),
        };
        proof {
            assert forall|j: int| #[trigger] first_named(self.available_models@, name@, j) implies j
                == i by {
                lemma_first_named_unique(self.available_models@, name@, i as int, j);
            }
        }
        match &self.available_models[i].status {
            ModelStatus::Available | ModelStatus::Corrupted { .. } => Ok(self.available_models[i].path.clone()),
            _ => Err(QwenAsrEngineError::NotDeletable(String::from_str(name))),
        }
    }

    /// Whether the download of `name` was cancelled.
    pub fn is_cancelled(&self, name: &str) -> (r: bool)
        ensures
            r == (self.cancel_download_flag matches Some(f) && f@ == name@),
    {
        match &self.cancel_download_flag {
            Some(f) => *f == String::from_str(name),
            None => false,
        }
    }

    /// Cancel the download of `name`: raise the cancel flag for it, drop it
    /// from the active downloads and mark it `Missing`. Returns the path of
    /// its partial file, for the caller to delete once the download loop has
    /// seen the flag.
    pub fn cancel_download(&mut self, name: &str) -> (r: Option<String>)
        ensures
            final(self).cancel_download_flag matches Some(f) && f@ == name@,
            !lists_name(final(self).active_downloads@, name@),
            forall|m: Seq<char>| m != name@ ==> lists_name(final(self).active_downloads@, m)
                == lists_name(old(self).active_downloads@, m),
            final(self).available_models@ == status_updated(
                old(self).available_models@,
                name@,
                ModelStatus::Missing,
            ),
            none_named(old(self).available_models@, name@) ==> r is None,
            forall|i: int|
                #[trigger] first_named(old(self).available_models@, name@, i) ==> r == Some(
                    old(self).available_models@[i].path,
                ),
            final(self).models_dir == old(self).models_dir,
            final(self).current_model_name == old(self).current_model_name,
            final(self).model_loaded == old(self).model_loaded,
    {
        self.cancel_download_flag = Some(String::from_str(name));
        self.active_downloads = without_name(&self.active_downloads, name);
        let path = match find_model(&self.available_models, name) {
            Some(i) => {
                proof {
                    assert forall|j: int| #[trigger] first_named(self.available_models@, name@, j) implies j
                        == i by {
                        lemma_first_named_unique(self.available_models@, name@, i as int, j);
                    }
                }
                Some(self.available_models[i].path.clone())
            },
            None => None,
        };
        self.set_model_status(name, ModelStatus::Missing);
        path
    }

    /// Start downloading `name`. Refused while a download of it runs;
    /// otherwise it joins the active downloads and any cancel flag is cleared.
    /// A model outside the catalogue leaves the active downloads again and is
    /// an error; else its status becomes `Downloading` at 0 % and the plan
    /// names its address, its path in the models directory and its expected size.
    pub fn begin_download(&mut self, name: &str) -> (r: Result<DownloadPlan, QwenAsrEngineError>)
        ensures
            lists_name(old(self).active_downloads@, name@) ==> (r matches Err(
                QwenAsrEngineError::AlreadyDownloading(n),
            ) && n@ == name@) && final(self).active_downloads == old(self).active_downloads
                && final(self).cancel_download_flag == old(self).cancel_download_flag
                && final(self).available_models == old(self).available_models,
            !lists_name(old(self).active_downloads@, name@) ==> final(self).cancel_download_flag is None,
            !lists_name(old(self).active_downloads@, name@) && none_named(
                old(self).available_models@,
                name@,
            ) ==> (r matches Err(QwenAsrEngineError::ModelNotFound(n)) && n@ == name@) && (
            forall|m: Seq<char>| lists_name(final(self).active_downloads@, m) == lists_name(
                old(self).active_downloads@,
                m,
            )) && final(self).available_models == old(self).available_models,
            forall|i: int|
                !lists_name(old(self).active_downloads@, name@) && #[trigger] first_named(
                    old(self).available_models@,
                    name@,
                    i,
                ) ==> {
                    let q = old(self).available_models@[i].quantization;
                    &&& r matches Ok(plan)
                    &&& plan.url@ == download_url_of(q)
                    &&& plan.file_path@ == path_in(old(self).models_dir@, file_name_of(q))
                    &&& plan.expected_size == old(self).available_models@[i].size_mb * MIB
                    &&& forall|m: Seq<char>| lists_name(final(self).active_downloads@, m) == (
                    lists_name(old(self).active_downloads@, m) || m == name@)
                    &&& final(self).available_models@ == status_updated(
                        old(self).available_models@,
                        name@,
                        ModelStatus::Downloading { progress: 0 },
                    )
                },
            final(self).models_dir == old(self).models_dir,
            final(self).current_model_name == old(self).current_model_name,
            final(self).model_loaded == old(self).model_loaded,
    {
        if contains_name(&self.active_downloads, name) {
            return Err(QwenAsrEngineError::AlreadyDownloading(String::from_str(name)));
        }
        let ghost before = self.active_downloads@;
        self.active_downloads.push(String::from_str(name));
        proof {
            assert forall|m: Seq<char>| lists_name(self.active_downloads@, m) == (lists_name(before, m) || m == name@) by {
                lemma_lists_name_push(before, self.active_downloads@.last(), m);
                assert(before.push(self.active_downloads@.last()) =~= self.active_downloads@);
            }
        }
        self.cancel_download_flag = None;
        let i = match find_model(&self.available_models, name) {
            Some(i) => i,
            None => {
                self.active_downloads = without_name(&self.active_downloads, name);
                return Err(QwenAsrEngineError::ModelNotFound(String::from_str(name)));
            },
        };
        proof {
            assert forall|j: int| #[trigger] first_named(self.available_models@, name@, j) implies j
                == i by {
                lemma_first_named_unique(self.available_models@, name@, i as int, j);
            }
        }
        let q = self.available_models[i].quantization;
        let size_mb = self.available_models[i].size_mb;
        assert(size_mb as u64 * MIB <= u64::MAX) by (nonlinear_arith)
            requires
                size_mb <= u32::MAX,
                MIB == 1_048_576,
        ;
        let plan = DownloadPlan {
            url: download_url(q),
            file_path: String::from_str(self.models_dir.as_str()).concat("/").concat(model_file_name(q)),
            expected_size: size_mb as u64 * MIB,
        };
        self.set_model_status(name, ModelStatus::Downloading { progress: 0 });
        Ok(plan)
    }

    /// The download of `name` ended without the model: it leaves the active
    /// downloads and its status becomes `Missing`.
    pub fn abandon_download(&mut self, name: &str)
        ensures
            !lists_name(final(self).active_downloads@, name@),
            forall|m: Seq<char>| m != name@ ==> lists_name(final(self).active_downloads@, m)
                == lists_name(old(self).active_downloads@, m),
            final(self).available_models@ == status_updated(
                old(self).available_models@,
                name@,
                ModelStatus::Missing,
            ),
            final(self).cancel_download_flag == old(self).cancel_download_flag,
            final(self).models_dir == old(self).models_dir,
            final(self).current_model_name == old(self).current_model_name,
            final(self).model_loaded == old(self).model_loaded,
    {
        self.active_downloads = without_name(&self.active_downloads, name);
        self.set_model_status(name, ModelStatus::Missing);
    }

    /// The download of `name` completed, its file at `path`: the model becomes
    /// available there, leaves the active downloads, and a cancel flag aimed at
    /// it is cleared.
    pub fn complete_download(&mut self, name: &str, path: String)
        ensures
            !lists_name(final(self).active_downloads@, name@),
            forall|m: Seq<char>| m != name@ ==> lists_name(final(self).active_downloads@, m)
                == lists_name(old(self).active_downloads@, m),
            none_named(old(self).available_models@, name@) ==> final(self).available_models
                == old(self).available_models,
            forall|i: int|
                #[trigger] first_named(old(self).available_models@, name@, i) ==> final(self).available_models@
                    == old(self).available_models@.update(
                    i,
                    available_at(old(self).available_models@[i], path),
                ),
            (old(self).cancel_download_flag matches Some(f) && f@ == name@) ==> final(self).cancel_download_flag is None,
            !(old(self).cancel_download_flag matches Some(f) && f@ == name@) ==> final(self).cancel_download_flag == old(self).cancel_download_flag,
            final(self).models_dir == old(self).models_dir,
            final(self).current_model_name == old(self).current_model_name,
            final(self).model_loaded == old(self).model_loaded,
    {
        match find_model(&self.available_models, name) {
            Some(i) => {
                proof {
                    assert forall|j: int| #[trigger] first_named(self.available_models@, name@, j) implies j
                        == i by {
                        lemma_first_named_unique(self.available_models@, name@, i as int, j);
                    }
                }
                let info = self.available_models[i].copy();
                let updated = ModelInfo { status: ModelStatus::Available, path, ..info };
                self.available_models.set(i, updated);
            },
            None => {},
        }
        self.active_downloads = without_name(&self.active_downloads, name);
        if self.is_cancelled(name) {
            self.cancel_download_flag = None;
        }
    }
}

} // verus!
