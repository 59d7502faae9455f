//! The IndexTTS-2.5 engine: its settings, its model files and the helper processes around it.
//!
//! The engine is an official Python project that runs beside the studio. What is decided about it
//! is here: which settings it is given, when its files are complete, what its progress lines mean
//! and what becomes of a command that has ended. Reading the disk and running the commands is
//! done by the caller, which hands in what it found.
use vstd::prelude::*;

use crate::asr;
use crate::download_control::DOWNLOAD_CANCELLED_ERROR;
use crate::text;

verus! {

/// The tag of the official release that is used.
pub const OFFICIAL_TAG: &'static str = "v2.5.0";

/// The commit that the tag stands for.
pub const OFFICIAL_COMMIT: &'static str = "39207d91c30899cad1e7c1b9eb678c241f678e55";

/// The repository of the official project.
pub const OFFICIAL_REPOSITORY: &'static str = "https://github.com/index-tts/index-tts.git";

/// The file that records that the Python environment is complete.
pub const RUNTIME_READY_MARKER: &'static str = ".aura_runtime_ready";

/// What is heard from the engine while it works.
#[derive(Debug)]
pub enum IndexTtsProgress {
    Phase(String),
    ModelDownload { phase: String, downloaded_bytes: u64, total_bytes: u64 },
    Inference { current: usize, total: usize },
}

/// The content of a progress report.
pub enum Progress {
    Phase(Seq<char>),
    ModelDownload { phase: Seq<char>, downloaded_bytes: u64, total_bytes: u64 },
    Inference { current: usize, total: usize },
}

impl View for IndexTtsProgress {
    type V = Progress;

    open spec fn view(&self) -> Progress {
        match *self {
            IndexTtsProgress::Phase(phase) => Progress::Phase(phase@),
            IndexTtsProgress::ModelDownload {
                phase,
                downloaded_bytes,
                total_bytes,
            } => Progress::ModelDownload { phase: phase@, downloaded_bytes, total_bytes },
            IndexTtsProgress::Inference {
                current,
                total,
            } => Progress::Inference { current, total },
        }
    }
}

/// The controls of the engine. A field that the engine takes as a double-precision float holds the
/// bits of that float.
#[derive(Debug)]
pub struct IndexTtsSettings {
    pub duration_factor: u64,
    pub text_normalization: bool,
    pub max_text_tokens_per_segment: usize,
    pub interval_silence_ms: usize,
    pub use_random: bool,
    pub emo_alpha: u64,
    pub use_emo_text: bool,
    pub emo_text: String,
    pub do_sample: bool,
    pub temperature: u64,
    pub top_k: usize,
    pub top_p: u64,
    pub repetition_penalty: u64,
    pub length_penalty: u64,
    pub num_beams: usize,
    pub max_mel_tokens: usize,
}

/// The content of the settings.
#[verifier::ext_equal]
pub struct Settings {
    pub duration_factor: u64,
    pub text_normalization: bool,
    pub max_text_tokens_per_segment: usize,
    pub interval_silence_ms: usize,
    pub use_random: bool,
    pub emo_alpha: u64,
    pub use_emo_text: bool,
    pub emo_text: Seq<char>,
    pub do_sample: bool,
    pub temperature: u64,
    pub top_k: usize,
    pub top_p: u64,
    pub repetition_penalty: u64,
    pub length_penalty: u64,
    pub num_beams: usize,
    pub max_mel_tokens: usize,
}

impl View for IndexTtsSettings {
    type V = Settings;

    open spec fn view(&self) -> Settings {
        Settings {
            duration_factor: self.duration_factor,
            text_normalization: self.text_normalization,
            max_text_tokens_per_segment: self.max_text_tokens_per_segment,
            interval_silence_ms: self.interval_silence_ms,
            use_random: self.use_random,
            emo_alpha: self.emo_alpha,
            use_emo_text: self.use_emo_text,
            emo_text: self.emo_text@,
            do_sample: self.do_sample,
            temperature: self.temperature,
            top_k: self.top_k,
            top_p: self.top_p,
            repetition_penalty: self.repetition_penalty,
            length_penalty: self.length_penalty,
            num_beams: self.num_beams,
            max_mel_tokens: self.max_mel_tokens,
        }
    }
}

/// The bits of 0.0.
pub const BITS_0: u64 = 0;

/// The bits of 0.01.
pub const BITS_0_01: u64 = 0x3F84_7AE1_47AE_147B;

/// The bits of 0.1.
pub const BITS_0_1: u64 = 0x3FB9_9999_9999_999A;

/// The bits of 0.5.
pub const BITS_0_5: u64 = 0x3FE0_0000_0000_0000;

/// The bits of 0.8.
pub const BITS_0_8: u64 = 0x3FE9_9999_9999_999A;

/// The bits of 1.0.
pub const BITS_1: u64 = 0x3FF0_0000_0000_0000;

/// The bits of 2.0.
pub const BITS_2: u64 = 0x4000_0000_0000_0000;

/// The bits of 10.0.
pub const BITS_10: u64 = 0x4024_0000_0000_0000;

/// The bits of 20.0.
pub const BITS_20: u64 = 0x4034_0000_0000_0000;

/// The bits of -2.0.
pub const BITS_MINUS_2: u64 = 0xC000_0000_0000_0000;

/// Whether the bits are those of a finite double-precision float: the exponent is not all ones.
pub open spec fn is_finite(bits: u64) -> bool {
    bits % 0x8000_0000_0000_0000 < 0x7FF0_0000_0000_0000
}

/// The place of a finite double-precision float, given by its bits, in the order of numbers. Both
/// zeros have the same place.
pub open spec fn double_order(bits: u64) -> int {
    if bits < 0x8000_0000_0000_0000 {
        bits as int
    } else {
        0x8000_0000_0000_0000 - bits as int
    }
}

fn double_key(bits: u64) -> (key: i128)
    ensures
        key == double_order(bits),
{
    if bits < 0x8000_0000_0000_0000 {
        bits as i128
    } else {
        0x8000_0000_0000_0000i128 - bits as i128
    }
}

/// A float between two others, or the fallback when it is no finite number.
pub open spec fn clamped_bits(value: u64, least: u64, most: u64, fallback: u64) -> u64 {
    if !is_finite(value) {
        fallback
    } else if double_order(value) < double_order(least) {
        least
    } else if double_order(value) > double_order(most) {
        most
    } else {
        value
    }
}

pub fn finite_clamp(value: u64, least: u64, most: u64, fallback: u64) -> (clamped: u64)
    ensures
        clamped == clamped_bits(value, least, most, fallback),
{
    if value % 0x8000_0000_0000_0000 >= 0x7FF0_0000_0000_0000 {
        fallback
    } else if double_key(value) < double_key(least) {
        least
    } else if double_key(value) > double_key(most) {
        most
    } else {
        value
    }
}

/// A count between two others.
pub open spec fn clamped(value: usize, least: usize, most: usize) -> usize {
    if value < least {
        least
    } else if value > most {
        most
    } else {
        value
    }
}

fn clamp_count(value: usize, least: usize, most: usize) -> (count: usize)
    ensures
        count == clamped(value, least, most),
{
    if value < least {
        least
    } else if value > most {
        most
    } else {
        value
    }
}

/// At most the first `limit` characters of a text.
pub open spec fn beginning(s: Seq<char>, limit: nat) -> Seq<char> {
    if s.len() > limit {
        s.take(limit as int)
    } else {
        s
    }
}

/// The settings as the engine accepts them.
pub open spec fn valid_settings(settings: Settings) -> Settings {
    Settings {
        duration_factor: clamped_bits(settings.duration_factor, BITS_0_5, BITS_2, BITS_1),
        max_text_tokens_per_segment: clamped(settings.max_text_tokens_per_segment, 16, 512),
        interval_silence_ms: clamped(settings.interval_silence_ms, 0, 5_000),
        emo_alpha: clamped_bits(settings.emo_alpha, BITS_0, BITS_1, BITS_1),
        emo_text: beginning(settings.emo_text, 500),
        temperature: clamped_bits(settings.temperature, BITS_0, BITS_2, BITS_0_8),
        top_k: clamped(settings.top_k, 1, 200),
        top_p: clamped_bits(settings.top_p, BITS_0_01, BITS_1, BITS_0_8),
        repetition_penalty: clamped_bits(
            settings.repetition_penalty,
            BITS_0_1,
            BITS_20,
            BITS_10,
        ),
        length_penalty: clamped_bits(settings.length_penalty, BITS_MINUS_2, BITS_2, BITS_0),
        num_beams: clamped(settings.num_beams, 1, 8),
        max_mel_tokens: clamped(settings.max_mel_tokens, 128, 4_000),
        ..settings
    }
}

fn text_beginning(s: &str, limit: usize) -> (short: String)
    ensures
        short@ == beginning(s@, limit as nat),
{
    let chars = text::chars_of(s);
    if chars.len() > limit {
        let cut = text::part(chars.as_slice(), 0, limit);
        assert(cut@ == s@.take(limit as int));
        text::string_of(cut)
    } else {
        text::string_of(chars.as_slice())
    }
}

impl Default for IndexTtsSettings {
    fn default() -> (settings: Self)
        ensures
            settings@ == (Settings {
                duration_factor: BITS_1,
                text_normalization: true,
                max_text_tokens_per_segment: 120,
                interval_silence_ms: 200,
                use_random: false,
                emo_alpha: BITS_1,
                use_emo_text: false,
                emo_text: Seq::empty(),
                do_sample: true,
                temperature: BITS_0_8,
                top_k: 30,
                top_p: BITS_0_8,
                repetition_penalty: BITS_10,
                length_penalty: BITS_0,
                num_beams: 3,
                max_mel_tokens: 1_500,
            }),
    {
        IndexTtsSettings {
            duration_factor: BITS_1,
            text_normalization: true,
            max_text_tokens_per_segment: 120,
            interval_silence_ms: 200,
            use_random: false,
            emo_alpha: BITS_1,
            use_emo_text: false,
            emo_text: String::new(),
            do_sample: true,
            temperature: BITS_0_8,
            top_k: 30,
            top_p: BITS_0_8,
            repetition_penalty: BITS_10,
            length_penalty: BITS_0,
            num_beams: 3,
            max_mel_tokens: 1_500,
        }
    }
}

impl Clone for IndexTtsSettings {
    fn clone(&self) -> (copy: Self)
        ensures
            copy@ == self@,
    {
        IndexTtsSettings {
            duration_factor: self.duration_factor,
            text_normalization: self.text_normalization,
            max_text_tokens_per_segment: self.max_text_tokens_per_segment,
            interval_silence_ms: self.interval_silence_ms,
            use_random: self.use_random,
            emo_alpha: self.emo_alpha,
            use_emo_text: self.use_emo_text,
            emo_text: self.emo_text.clone(),
            do_sample: self.do_sample,
            temperature: self.temperature,
            top_k: self.top_k,
            top_p: self.top_p,
            repetition_penalty: self.repetition_penalty,
            length_penalty: self.length_penalty,
            num_beams: self.num_beams,
            max_mel_tokens: self.max_mel_tokens,
        }
    }
}

impl IndexTtsSettings {
    /// The settings as the engine accepts them: every number finite and inside its range.
    pub fn validated(&self) -> (valid: Self)
        ensures
            valid@ == valid_settings(self@),
    {
        IndexTtsSettings {
            duration_factor: finite_clamp(self.duration_factor, BITS_0_5, BITS_2, BITS_1),
            text_normalization: self.text_normalization,
            max_text_tokens_per_segment: clamp_count(self.max_text_tokens_per_segment, 16, 512),
            interval_silence_ms: clamp_count(self.interval_silence_ms, 0, 5_000),
            use_random: self.use_random,
            emo_alpha: finite_clamp(self.emo_alpha, BITS_0, BITS_1, BITS_1),
            use_emo_text: self.use_emo_text,
            emo_text: text_beginning(self.emo_text.as_str(), 500),
            do_sample: self.do_sample,
            temperature: finite_clamp(self.temperature, BITS_0, BITS_2, BITS_0_8),
            top_k: clamp_count(self.top_k, 1, 200),
            top_p: finite_clamp(self.top_p, BITS_0_01, BITS_1, BITS_0_8),
            repetition_penalty: finite_clamp(
                self.repetition_penalty,
                BITS_0_1,
                BITS_20,
                BITS_10,
            ),
            length_penalty: finite_clamp(self.length_penalty, BITS_MINUS_2, BITS_2, BITS_0),
            num_beams: clamp_count(self.num_beams, 1, 8),
            max_mel_tokens: clamp_count(self.max_mel_tokens, 128, 4_000),
        }
    }
}

/// A finite float between two others.
pub open spec fn is_between(bits: u64, least: u64, most: u64) -> bool {
    is_finite(bits) && double_order(least) <= double_order(bits) <= double_order(most)
}

/// Validated settings are finite and inside their ranges.
pub proof fn validated_settings_are_bounded(settings: Settings)
    ensures
        ({
            let valid = valid_settings(settings);
            &&& is_between(valid.duration_factor, BITS_0_5, BITS_2)
            &&& is_between(valid.emo_alpha, BITS_0, BITS_1)
            &&& is_between(valid.temperature, BITS_0, BITS_2)
            &&& is_between(valid.top_p, BITS_0_01, BITS_1)
            &&& is_between(valid.repetition_penalty, BITS_0_1, BITS_20)
            &&& is_between(valid.length_penalty, BITS_MINUS_2, BITS_2)
            &&& 16 <= valid.max_text_tokens_per_segment <= 512
            &&& valid.interval_silence_ms <= 5_000
            &&& valid.emo_text.len() <= 500
            &&& 1 <= valid.top_k <= 200
            &&& 1 <= valid.num_beams <= 8
            &&& 128 <= valid.max_mel_tokens <= 4_000
        }),
{
}

/// Settings that have been validated are not changed by being validated again.
pub proof fn validated_settings_stay_unchanged(settings: Settings)
    ensures
        valid_settings(valid_settings(settings)) == valid_settings(settings),
{
}

/// The files of a complete model, with the least size of each.
pub open spec fn model_files() -> Seq<(Seq<char>, u64)> {
    seq![
        ("config.yaml"@, 100u64),
        ("codec.pth"@, 100_000_000u64),
        ("gpt.pth"@, 100_000_000u64),
        ("multilingual_zh_ja_yue_char_del.tiktoken"@, 100_000u64),
        ("s2mel.pth"@, 100_000_000u64),
        ("wav2vec2bert_stats.pt"@, 100u64),
        ("feat1.pt"@, 100u64),
        ("feat2.pt"@, 100u64),
        ("hf_cache/campplus_cn_common.bin"@, 1_000_000u64),
        ("hf_cache/semantic_codec_model.safetensors"@, 1_000_000u64),
        ("hf_cache/bigvgan/config.json"@, 100u64),
        ("hf_cache/bigvgan/bigvgan_generator.pt"@, 100_000_000u64),
        ("hf_cache/w2v-bert-2.0/config.json"@, 100u64),
        ("hf_cache/w2v-bert-2.0/model.safetensors"@, 100_000_000u64),
        ("qwen0.6bemo4-merge/model.safetensors"@, 100_000_000u64),
    ]
}

/// The names and sizes of a list of files.
pub open spec fn file_table(files: Seq<(&'static str, u64)>) -> Seq<(Seq<char>, u64)> {
    Seq::new(files.len(), |i: int| (files[i].0@, files[i].1))
}

/// The files of a complete model, relative to its directory, with the least size of each.
pub fn required_model_files() -> (files: Vec<(&'static str, u64)>)
    ensures
        file_table(files@) == model_files(),
{
    let mut files: Vec<(&'static str, u64)> = Vec::new();
    files.push(("config.yaml", 100));
    files.push(("codec.pth", 100_000_000));
    files.push(("gpt.pth", 100_000_000));
    files.push(("multilingual_zh_ja_yue_char_del.tiktoken", 100_000));
    files.push(("s2mel.pth", 100_000_000));
    files.push(("wav2vec2bert_stats.pt", 100));
    files.push(("feat1.pt", 100));
    files.push(("feat2.pt", 100));
    files.push(("hf_cache/campplus_cn_common.bin", 1_000_000));
    files.push(("hf_cache/semantic_codec_model.safetensors", 1_000_000));
    files.push(("hf_cache/bigvgan/config.json", 100));
    files.push(("hf_cache/bigvgan/bigvgan_generator.pt", 100_000_000));
    files.push(("hf_cache/w2v-bert-2.0/config.json", 100));
    files.push(("hf_cache/w2v-bert-2.0/model.safetensors", 100_000_000));
    files.push(("qwen0.6bemo4-merge/model.safetensors", 100_000_000));
    assert(file_table(files@) =~= model_files());
    files
}

/// Whether a file is there and large enough. The size is that of a regular file.
pub open spec fn is_complete(size: Option<u64>, minimum: u64) -> bool {
    match size {
        Some(size) => size >= minimum,
        None => false,
    }
}

/// Whether a file is there and large enough.
pub fn complete_file(size: Option<u64>, minimum: u64) -> (complete: bool)
    ensures
        complete == is_complete(size, minimum),
{
    match size {
        Some(size) => size >= minimum,
        None => false,
    }
}

/// The names of the first `n` files that are missing or too small.
pub open spec fn missing_files(files: Seq<(Seq<char>, u64)>, sizes: Seq<Option<u64>>, n: int) -> Seq<
    Seq<char>,
>
    decreases n,
{
    if n <= 0 {
        Seq::empty()
    } else {
        let before = missing_files(files, sizes, n - 1);
        if is_complete(sizes[n - 1], files[n - 1].1) {
            before
        } else {
            before.push(files[n - 1].0)
        }
    }
}

/// The names of all files of the model that are missing or too small.
pub open spec fn missing_model_files(sizes: Seq<Option<u64>>) -> Seq<Seq<char>> {
    missing_files(model_files(), sizes, model_files().len() as int)
}

/// What `validate_model_dir` answers.
pub open spec fn model_error(sizes: Seq<Option<u64>>) -> Option<Seq<char>> {
    let missing = missing_model_files(sizes);
    if missing.len() == 0 {
        None
    } else {
        Some("IndexTTS-2.5 模型不完整，缺少或尺寸异常："@ + text::joined(missing, "、"@))
    }
}

/// Whether a result is an error exactly when there is one to tell, with that text.
pub open spec fn is_check(result: Result<(), String>, error: Option<Seq<char>>) -> bool {
    match result {
        Ok(_) => error is None,
        Err(message) => error == Some(message@),
    }
}

/// Checks the files of a model, given their sizes in the order of `required_model_files`.
pub fn validate_model_dir(sizes: &[Option<u64>]) -> (checked: Result<(), String>)
    requires
        sizes@.len() == model_files().len(),
    ensures
        is_check(checked, model_error(sizes@)),
{
    let files = required_model_files();
    let ghost table = model_files();
    assert(files@.len() == file_table(files@).len());
    let mut missing: Vec<char> = Vec::new();
    let mut count: usize = 0;
    let mut i: usize = 0;
    while i < files.len()
        invariant
            i <= files.len(),
            sizes@.len() == files@.len(),
            table == file_table(files@),
            count == missing_files(table, sizes@, i as int).len(),
            count <= i,
            missing@ == text::joined(missing_files(table, sizes@, i as int), "、"@),
        decreases files.len() - i,
    {
        assert(table[i as int] == (files@[i as int].0@, files@[i as int].1));
        if !complete_file(sizes[i], files[i].1) {
            let ghost before = missing_files(table, sizes@, i as int);
            if count > 0 {
                text::append_str(&mut missing, "、");
            }
            text::append_str(&mut missing, files[i].0);
            count += 1;
            assert(before.push(table[i as int].0).drop_last() == before);
        }
        i += 1;
    }
    if count == 0 {
        Ok(())
    } else {
        let names = text::string_of(missing.as_slice());
        Err("IndexTTS-2.5 模型不完整，缺少或尺寸异常：".to_string().concat(names.as_str()))
    }
}

/// What is on the disk of the engine: its Python interpreter, the record of a complete environment
/// and the sizes of the model files in the order of `required_model_files`.
#[derive(Debug)]
pub struct IndexTtsRuntime {
    pub python_installed: bool,
    pub marker_written: bool,
    pub model_sizes: Vec<Option<u64>>,
}

impl IndexTtsRuntime {
    /// The engine can be used at once.
    pub open spec fn ready(&self) -> bool {
        self.python_installed && self.marker_written && model_error(self.model_sizes@) is None
    }

    /// Whether the engine can be used at once.
    pub fn is_ready(&self) -> (ready: bool)
        requires
            self.model_sizes@.len() == model_files().len(),
        ensures
            ready == self.ready(),
    {
        self.python_installed && self.marker_written && validate_model_dir(
            self.model_sizes.as_slice(),
        ).is_ok()
    }
}

/// The engine is ready exactly when nothing of it is missing.
pub proof fn ready_means_complete(runtime: IndexTtsRuntime)
    requires
        runtime.model_sizes@.len() == model_files().len(),
    ensures
        runtime.ready() <==> {
            &&& runtime.python_installed
            &&& runtime.marker_written
            &&& forall|i: int|
                0 <= i < model_files().len() ==> is_complete(
                    #[trigger] runtime.model_sizes@[i],
                    model_files()[i].1,
                )
        },
{
    lemma_missing_files(model_files(), runtime.model_sizes@, model_files().len() as int);
}

proof fn lemma_missing_files(files: Seq<(Seq<char>, u64)>, sizes: Seq<Option<u64>>, n: int)
    requires
        0 <= n <= files.len(),
        sizes.len() == files.len(),
    ensures
        missing_files(files, sizes, n).len() == 0 <==> forall|i: int|
            0 <= i < n ==> is_complete(#[trigger] sizes[i], files[i].1),
    decreases n,
{
    if n > 0 {
        lemma_missing_files(files, sizes, n - 1);
    }
}

/// Where a model may lie below the folder that was selected.
pub open spec fn source_candidates() -> Seq<Seq<char>> {
    seq![""@, "IndexTTS-2.5"@, "models"@, "IndexTeam/IndexTTS-2.5"@]
}

/// Where a model may lie below the folder that was selected, relative to it, in the order in which
/// the places are tried.
pub fn model_source_candidates() -> (candidates: Vec<&'static str>)
    ensures
        candidates@.len() == source_candidates().len(),
        forall|i: int|
            0 <= i < candidates@.len() ==> (#[trigger] candidates@[i])@ == source_candidates()[i],
{
    let mut candidates: Vec<&'static str> = Vec::new();
    candidates.push("");
    candidates.push("IndexTTS-2.5");
    candidates.push("models");
    candidates.push("IndexTeam/IndexTTS-2.5");
    candidates
}

/// The candidate that holds the model: the first one with a `config.yaml`. `has_config` says of
/// each candidate whether it has one.
pub fn locate_model_source(has_config: &[bool]) -> (found: Result<usize, String>)
    ensures
        match found {
            Ok(at) => {
                &&& at < has_config@.len()
                &&& has_config@[at as int]
                &&& forall|i: int| 0 <= i < at ==> !#[trigger] has_config@[i]
            },
            Err(error) => {
                &&& forall|i: int| 0 <= i < has_config@.len() ==> !#[trigger] has_config@[i]
                &&& error@
                    == "所选文件夹中没有找到 IndexTTS-2.5 模型。请选择包含 config.yaml 的完整模型目录。"@
            },
        },
{
    let mut at: usize = 0;
    while at < has_config.len()
        invariant
            at <= has_config.len(),
            forall|i: int| 0 <= i < at ==> !#[trigger] has_config@[i],
        decreases has_config.len() - at,
    {
        if has_config[at] {
            return Ok(at);
        }
        at += 1;
    }
    Err(
        "所选文件夹中没有找到 IndexTTS-2.5 模型。请选择包含 config.yaml 的完整模型目录。".to_string(),
    )
}

/// How many bytes of an import are done, given those of earlier files and of the current one.
pub open spec fn imported(copied: u64, file_bytes: u64, total: u64) -> u64 {
    if copied + file_bytes <= total {
        (copied + file_bytes) as u64
    } else {
        total
    }
}

pub fn imported_bytes(copied: u64, file_bytes: u64, total: u64) -> (done: u64)
    ensures
        done == imported(copied, file_bytes, total),
{
    let sum = copied.saturating_add(file_bytes);
    if sum <= total {
        sum
    } else {
        total
    }
}

/// The sum of the sizes of the files, at most the largest that 64 bits hold. A file that is not
/// there counts as nothing.
pub open spec fn total_size(sizes: Seq<Option<u64>>) -> u64
    decreases sizes.len(),
{
    if sizes.len() == 0 {
        0
    } else {
        let before = total_size(sizes.drop_last());
        match sizes.last() {
            Some(size) => if before + size <= u64::MAX {
                (before + size) as u64
            } else {
                u64::MAX
            },
            None => before,
        }
    }
}

/// The sum of the sizes of the files of a model.
pub fn total_bytes(sizes: &[Option<u64>]) -> (total: u64)
    ensures
        total == total_size(sizes@),
{
    let mut total: u64 = 0;
    let mut i: usize = 0;
    while i < sizes.len()
        invariant
            i <= sizes.len(),
            total == total_size(sizes@.take(i as int)),
        decreases sizes.len() - i,
    {
        assert(sizes@.take(i as int + 1).drop_last() == sizes@.take(i as int));
        if let Some(size) = sizes[i] {
            total = total.saturating_add(size);
        }
        i += 1;
    }
    assert(sizes@.take(i as int) == sizes@);
    total
}

/// Checks a file that is to be imported.
pub fn check_import_source(size: Option<u64>, minimum: u64, path: &str) -> (checked: Result<
    (),
    String,
>)
    ensures
        is_check(
            checked,
            if is_complete(size, minimum) {
                None
            } else {
                Some("离线模型文件缺失或不完整："@ + path@)
            },
        ),
{
    if complete_file(size, minimum) {
        Ok(())
    } else {
        Err("离线模型文件缺失或不完整：".to_string().concat(path))
    }
}

/// Checks the copy of a file that was imported.
pub fn check_imported_copy(size: Option<u64>, minimum: u64) -> (checked: Result<(), String>)
    ensures
        is_check(
            checked,
            if is_complete(size, minimum) {
                None
            } else {
                Some("导入后的 IndexTTS 模型文件不完整。"@)
            },
        ),
{
    if complete_file(size, minimum) {
        Ok(())
    } else {
        Err("导入后的 IndexTTS 模型文件不完整。".to_string())
    }
}

/// The steps that make the engine ready.
#[derive(Clone, Copy, Debug, PartialEq, Eq, Structural)]
pub enum SetupStep {
    FetchSource,
    VerifyRevision,
    BuildEnvironment,
    DownloadModel,
}

/// The steps that are still needed, in order. The revision of the source is verified every time.
pub open spec fn needed_steps(
    source_present: bool,
    python_installed: bool,
    marker_written: bool,
    model_ready: bool,
) -> Seq<SetupStep> {
    (if source_present {
        Seq::empty()
    } else {
        seq![SetupStep::FetchSource]
    }) + seq![SetupStep::VerifyRevision] + (if python_installed && marker_written {
        Seq::empty()
    } else {
        seq![SetupStep::BuildEnvironment]
    }) + (if model_ready {
        Seq::empty()
    } else {
        seq![SetupStep::DownloadModel]
    })
}

/// The steps that are still needed to make the engine ready, in order.
pub fn setup_steps(
    source_present: bool,
    python_installed: bool,
    marker_written: bool,
    model_ready: bool,
) -> (steps: Vec<SetupStep>)
    ensures
        steps@ == needed_steps(source_present, python_installed, marker_written, model_ready),
{
    let mut steps: Vec<SetupStep> = Vec::new();
    if !source_present {
        steps.push(SetupStep::FetchSource);
    }
    steps.push(SetupStep::VerifyRevision);
    if !python_installed || !marker_written {
        steps.push(SetupStep::BuildEnvironment);
    }
    if !model_ready {
        steps.push(SetupStep::DownloadModel);
    }
    assert(steps@ =~= needed_steps(source_present, python_installed, marker_written, model_ready));
    steps
}

impl SetupStep {
    /// What the user is told while the step is made.
    pub fn phase(self) -> (phase: Option<&'static str>)
        ensures
            match phase {
                Some(phase) => phase@ == (match self {
                    SetupStep::FetchSource => "正在获取官方 IndexTTS-2.5 v2.5.0 源码"@,
                    _ => "正在创建 IndexTTS-2.5 官方 Python/PyTorch 运行环境"@,
                }) && (self == SetupStep::FetchSource || self == SetupStep::BuildEnvironment),
                None => self == SetupStep::VerifyRevision || self == SetupStep::DownloadModel,
            },
    {
        match self {
            SetupStep::FetchSource => Some("正在获取官方 IndexTTS-2.5 v2.5.0 源码"),
            SetupStep::BuildEnvironment => Some(
                "正在创建 IndexTTS-2.5 官方 Python/PyTorch 运行环境",
            ),
            SetupStep::VerifyRevision => None,
            SetupStep::DownloadModel => None,
        }
    }

    /// The tool that the step needs, by its command and its name.
    pub fn tool(self) -> (tool: Option<(&'static str, &'static str)>)
        ensures
            match tool {
                Some((command, name)) => {
                    ||| self == SetupStep::FetchSource && command@ == "git"@ && name@ == "Git"@
                    ||| self == SetupStep::BuildEnvironment && command@ == "uv"@ && name@ == "uv"@
                },
                None => self == SetupStep::VerifyRevision || self == SetupStep::DownloadModel,
            },
    {
        match self {
            SetupStep::FetchSource => Some(("git", "Git")),
            SetupStep::BuildEnvironment => Some(("uv", "uv")),
            SetupStep::VerifyRevision => None,
            SetupStep::DownloadModel => None,
        }
    }
}

/// Checks the model after its download command has ended.
pub fn check_downloaded_model(model_ready: bool) -> (checked: Result<(), String>)
    ensures
        is_check(
            checked,
            if model_ready {
                None
            } else {
                Some("IndexTTS-2.5 下载命令已结束，但模型文件仍不完整；可重试以断点续传。"@)
            },
        ),
{
    if model_ready {
        Ok(())
    } else {
        Err("IndexTTS-2.5 下载命令已结束，但模型文件仍不完整；可重试以断点续传。".to_string())
    }
}

/// Checks the revision of the source that a command printed.
pub fn verify_official_revision(command_succeeded: bool, printed: &str) -> (checked: Result<
    (),
    String,
>)
    ensures
        is_check(
            checked,
            if command_succeeded && text::trimmed(printed@) == OFFICIAL_COMMIT@ {
                None
            } else {
                Some(
                    "IndexTTS 源码版本校验失败：需要 "@ + OFFICIAL_TAG@ + " ("@ + OFFICIAL_COMMIT@
                        + ")，当前为 "@ + text::trimmed(printed@) + "。"@,
                )
            },
        ),
{
    let chars = text::chars_of(printed);
    let revision = text::trim(chars.as_slice());
    if command_succeeded && text::same_text(revision, OFFICIAL_COMMIT) {
        Ok(())
    } else {
        let revision = text::string_of(revision);
        Err(
            "IndexTTS 源码版本校验失败：需要 ".to_string().concat(OFFICIAL_TAG).concat(" (").concat(
                OFFICIAL_COMMIT,
            ).concat(")，当前为 ").concat(revision.as_str()).concat("。"),
        )
    }
}

/// Checks that a tool answered.
pub fn require_tool(answered: bool, display_name: &str) -> (checked: Result<(), String>)
    ensures
        is_check(
            checked,
            if answered {
                None
            } else {
                Some(
                    "IndexTTS-2.5 官方运行环境需要 "@ + display_name@ + "。请先安装 "@ + display_name@
                        + "，然后重试；已下载的模型进度会保留。"@,
                )
            },
        ),
{
    if answered {
        Ok(())
    } else {
        Err(
            "IndexTTS-2.5 官方运行环境需要 ".to_string().concat(display_name).concat(
                "。请先安装 ",
            ).concat(display_name).concat("，然后重试；已下载的模型进度会保留。"),
        )
    }
}

/// A number in a field of a progress line; zero where the field is missing or holds none.
pub open spec fn field_number(fields: Seq<Seq<char>>, i: int) -> u64 {
    if i < fields.len() {
        match text::number(fields[i]) {
            Some(value) => value,
            None => 0,
        }
    } else {
        0
    }
}

/// What a line of the download command reports: a phase and, where a total is known, how much of
/// it is done.
pub open spec fn model_progress(line: Seq<char>) -> Option<Progress> {
    match text::after_prefix(line, "AURA_MODEL_PROGRESS\t"@) {
        None => None,
        Some(rest) => {
            let fields = text::pieces(rest, '\t');
            if field_number(fields, 2) > 0 {
                Some(
                    Progress::ModelDownload {
                        phase: fields[0],
                        downloaded_bytes: field_number(fields, 1),
                        total_bytes: field_number(fields, 2),
                    },
                )
            } else {
                Some(Progress::Phase(fields[0]))
            }
        },
    }
}

/// Whether an optional report has the given content.
pub open spec fn is_report(report: Option<IndexTtsProgress>, expected: Option<Progress>) -> bool {
    match report {
        Some(report) => expected == Some(report@),
        None => expected is None,
    }
}

fn read_field(fields: &Vec<&[char]>, i: usize) -> (value: u64)
    ensures
        value == field_number(text::texts(fields@), i as int),
{
    if i < fields.len() {
        assert(text::texts(fields@)[i as int] == fields@[i as int]@);
        match text::parse_u64(fields[i]) {
            Some(value) => value,
            None => 0,
        }
    } else {
        0
    }
}

/// Reads a line of the download command.
pub fn parse_model_progress(line: &str) -> (report: Option<IndexTtsProgress>)
    ensures
        is_report(report, model_progress(line@)),
{
    let chars = text::chars_of(line);
    match text::strip_prefix(chars.as_slice(), "AURA_MODEL_PROGRESS\t") {
        None => None,
        Some(rest) => {
            let fields = text::split(rest, '\t');
            proof {
                text::lemma_pieces_not_empty(rest@, '\t');
            }
            assert(text::texts(fields@).len() == fields@.len());
            assert(text::texts(fields@)[0] == fields@[0]@);
            let phase = text::string_of(fields[0]);
            let downloaded_bytes = read_field(&fields, 1);
            let total_bytes = read_field(&fields, 2);
            if total_bytes > 0 {
                Some(IndexTtsProgress::ModelDownload { phase, downloaded_bytes, total_bytes })
            } else {
                Some(IndexTtsProgress::Phase(phase))
            }
        },
    }
}

/// A number that counts segments.
pub open spec fn count_number(s: Seq<char>) -> Option<usize> {
    match text::number(s) {
        Some(value) => if value <= usize::MAX {
            Some(value as usize)
        } else {
            None
        },
        None => None,
    }
}

/// What a line of the synthesis command reports: a phase, or how many segments are done.
pub open spec fn inference_progress(line: Seq<char>) -> Option<Progress> {
    match text::after_prefix(line, "AURA_INFERENCE\t"@) {
        Some(rest) => Some(Progress::Phase(rest)),
        None => match text::after_prefix(line, "AURA_INFERENCE_PROGRESS\t"@) {
            None => None,
            Some(rest) => {
                let fields = text::pieces(rest, '\t');
                if fields.len() < 2 {
                    None
                } else {
                    match (count_number(fields[0]), count_number(fields[1])) {
                        (Some(current), Some(total)) => Some(
                            Progress::Inference { current, total },
                        ),
                        _ => None,
                    }
                }
            },
        },
    }
}

fn read_count(s: &[char]) -> (count: Option<usize>)
    ensures
        count == count_number(s@),
{
    match text::parse_u64(s) {
        Some(value) => if value <= usize::MAX as u64 {
            Some(value as usize)
        } else {
            None
        },
        None => None,
    }
}

/// Reads a line of the synthesis command.
pub fn parse_inference_progress(line: &str) -> (report: Option<IndexTtsProgress>)
    ensures
        is_report(report, inference_progress(line@)),
{
    let chars = text::chars_of(line);
    if let Some(rest) = text::strip_prefix(chars.as_slice(), "AURA_INFERENCE\t") {
        return Some(IndexTtsProgress::Phase(text::string_of(rest)));
    }
    match text::strip_prefix(chars.as_slice(), "AURA_INFERENCE_PROGRESS\t") {
        None => None,
        Some(rest) => {
            let fields = text::split(rest, '\t');
            assert(text::texts(fields@).len() == fields@.len());
            if fields.len() < 2 {
                return None;
            }
            assert(text::texts(fields@)[0] == fields@[0]@);
            assert(text::texts(fields@)[1] == fields@[1]@);
            match (read_count(fields[0]), read_count(fields[1])) {
                (Some(current), Some(total)) => Some(
                    IndexTtsProgress::Inference { current, total },
                ),
                _ => None,
            }
        },
    }
}

/// How many lines of the output of a command are kept for its error message.
pub const TAIL_LINES: usize = 12;

/// The last lines that a command printed.
#[derive(Debug)]
pub struct OutputTail {
    pub lines: Vec<String>,
}

/// At most the last `limit` texts.
pub open spec fn last_texts(texts: Seq<Seq<char>>, limit: int) -> Seq<Seq<char>> {
    if texts.len() > limit {
        texts.skip(texts.len() - limit)
    } else {
        texts
    }
}

impl OutputTail {
    /// The kept lines.
    pub open spec fn kept(&self) -> Seq<Seq<char>> {
        asr::strings_of(self.lines@)
    }

    pub fn new() -> (tail: Self)
        ensures
            tail.kept() == Seq::<Seq<char>>::empty(),
    {
        let tail = OutputTail { lines: Vec::new() };
        assert(tail.kept() =~= Seq::<Seq<char>>::empty());
        tail
    }

    /// Adds a line; the oldest one goes when there are too many.
    pub fn push(&mut self, line: String)
        requires
            old(self).kept().len() <= TAIL_LINES,
        ensures
            final(self).kept() == last_texts(old(self).kept().push(line@), TAIL_LINES as int),
            final(self).kept().len() <= TAIL_LINES,
    {
        let ghost before = self.lines@;
        if self.lines.len() == TAIL_LINES {
            let _ = self.lines.remove(0);
        }
        self.lines.push(line);
        assert(self.kept() =~= last_texts(asr::strings_of(before).push(line@), TAIL_LINES as int));
    }

    /// The kept lines as one text.
    pub fn joined(&self) -> (joined: String)
        ensures
            joined@ == text::joined(self.kept(), "\n"@),
    {
        let mut joined: Vec<char> = Vec::new();
        let ghost all = self.kept();
        let mut i: usize = 0;
        while i < self.lines.len()
            invariant
                i <= self.lines.len(),
                all == self.kept(),
                joined@ == text::joined(all.take(i as int), "\n"@),
            decreases self.lines.len() - i,
        {
            let ghost before = all.take(i as int);
            let ghost after = all.take(i as int + 1);
            assert(after.drop_last() == before);
            assert(after.last() == self.lines@[i as int]@);
            if i > 0 {
                text::append_str(&mut joined, "\n");
            }
            text::append_str(&mut joined, self.lines[i].as_str());
            assert(i == 0 ==> joined@ == after[0]);
            i += 1;
        }
        assert(all.take(i as int) == all);
        text::string_of(joined.as_slice())
    }
}

/// The lines that are kept of all lines that were printed are the last ones.
pub proof fn tail_holds_the_last_lines(texts: Seq<Seq<char>>, line: Seq<char>)
    ensures
        last_texts(last_texts(texts, TAIL_LINES as int).push(line), TAIL_LINES as int)
            == last_texts(texts.push(line), TAIL_LINES as int),
{
    assert(last_texts(last_texts(texts, TAIL_LINES as int).push(line), TAIL_LINES as int)
        =~= last_texts(texts.push(line), TAIL_LINES as int));
}

/// What becomes of a command that has ended: a cancelled download is an error of its own, and a
/// command that failed is told with its last lines.
pub open spec fn command_error(
    cancelled: bool,
    succeeded: bool,
    status: Seq<char>,
    lines: Seq<Seq<char>>,
) -> Option<Seq<char>> {
    if cancelled {
        Some(DOWNLOAD_CANCELLED_ERROR@)
    } else if succeeded {
        None
    } else {
        Some("IndexTTS 命令执行失败（"@ + status + "）："@ + text::joined(lines, "\n"@))
    }
}

pub fn command_outcome(cancelled: bool, succeeded: bool, status: &str, tail: &OutputTail) -> (outcome:
    Result<(), String>)
    ensures
        is_check(outcome, command_error(cancelled, succeeded, status@, tail.kept())),
{
    if cancelled {
        Err(DOWNLOAD_CANCELLED_ERROR.to_string())
    } else if succeeded {
        Ok(())
    } else {
        let lines = tail.joined();
        Err(
            "IndexTTS 命令执行失败（".to_string().concat(status).concat("）：").concat(lines.as_str()),
        )
    }
}

/// A character of the Japanese syllabaries.
pub open spec fn is_kana(c: char) -> bool {
    '\u{3040}' <= c <= '\u{30ff}' || '\u{31f0}' <= c <= '\u{31ff}'
}

/// An Arabic letter.
pub open spec fn is_arabic(c: char) -> bool {
    '\u{0600}' <= c <= '\u{06ff}' || '\u{0750}' <= c <= '\u{077f}'
}

/// A Chinese character.
pub open spec fn is_hanzi(c: char) -> bool {
    '\u{3400}' <= c <= '\u{4dbf}' || '\u{4e00}' <= c <= '\u{9fff}'
}

/// A character that only Spanish has among the languages of the engine.
pub open spec fn is_spanish(c: char) -> bool {
    c == 'ñ' || c == 'Ñ' || c == '¿' || c == '¡'
}

/// The scripts by which the language of a text is told.
#[derive(Clone, Copy, Debug, PartialEq, Eq, Structural)]
pub enum Script {
    Kana,
    Arabic,
    Hanzi,
    Spanish,
}

pub open spec fn is_of_script(c: char, script: Script) -> bool {
    match script {
        Script::Kana => is_kana(c),
        Script::Arabic => is_arabic(c),
        Script::Hanzi => is_hanzi(c),
        Script::Spanish => is_spanish(c),
    }
}

/// Some character of the text belongs to the script.
pub open spec fn has_script(s: Seq<char>, script: Script) -> bool {
    exists|i: int| 0 <= i < s.len() && is_of_script(#[trigger] s[i], script)
}

/// The code of the language that the engine is told.
pub open spec fn language_code(s: Seq<char>) -> Seq<char> {
    if has_script(s, Script::Kana) {
        "JA"@
    } else if has_script(s, Script::Arabic) {
        "AR"@
    } else if has_script(s, Script::Hanzi) {
        "ZH"@
    } else if has_script(s, Script::Spanish) {
        "ES"@
    } else {
        "EN"@
    }
}

fn of_script(c: char, script: Script) -> (belongs: bool)
    ensures
        belongs == is_of_script(c, script),
{
    match script {
        Script::Kana => ('\u{3040}' <= c && c <= '\u{30ff}') || ('\u{31f0}' <= c && c
            <= '\u{31ff}'),
        Script::Arabic => ('\u{0600}' <= c && c <= '\u{06ff}') || ('\u{0750}' <= c && c
            <= '\u{077f}'),
        Script::Hanzi => ('\u{3400}' <= c && c <= '\u{4dbf}') || ('\u{4e00}' <= c && c
            <= '\u{9fff}'),
        Script::Spanish => c == 'ñ' || c == 'Ñ' || c == '¿' || c == '¡',
    }
}

fn contains_script(s: &[char], script: Script) -> (found: bool)
    ensures
        found == has_script(s@, script),
{
    let mut i: usize = 0;
    while i < s.len()
        invariant
            i <= s.len(),
            forall|k: int| 0 <= k < i ==> !is_of_script(#[trigger] s@[k], script),
        decreases s.len() - i,
    {
        if of_script(s[i], script) {
            return true;
        }
        i += 1;
    }
    false
}

/// The language of a text, as the engine is told it.
pub fn language_for_text(s: &str) -> (code: &'static str)
    ensures
        code@ == language_code(s@),
{
    let chars = text::chars_of(s);
    if contains_script(chars.as_slice(), Script::Kana) {
        "JA"
    } else if contains_script(chars.as_slice(), Script::Arabic) {
        "AR"
    } else if contains_script(chars.as_slice(), Script::Hanzi) {
        "ZH"
    } else if contains_script(chars.as_slice(), Script::Spanish) {
        "ES"
    } else {
        "EN"
    }
}

/// Why a synthesis cannot start, when it cannot.
pub open spec fn batch_error(text_count: nat, ready: bool, reference_present: bool) -> Option<
    Seq<char>,
> {
    if text_count == 0 {
        Some("IndexTTS-2.5 没有收到可合成的文字。"@)
    } else if !ready {
        Some("IndexTTS-2.5 模型尚未准备完成。"@)
    } else if !reference_present {
        Some("IndexTTS-2.5 的参考音频已不存在。"@)
    } else {
        None
    }
}

/// Checks that a synthesis can start.
pub fn check_batch(text_count: usize, ready: bool, reference_present: bool) -> (checked: Result<
    (),
    String,
>)
    ensures
        is_check(checked, batch_error(text_count as nat, ready, reference_present)),
{
    if text_count == 0 {
        Err("IndexTTS-2.5 没有收到可合成的文字。".to_string())
    } else if !ready {
        Err("IndexTTS-2.5 模型尚未准备完成。".to_string())
    } else if !reference_present {
        Err("IndexTTS-2.5 的参考音频已不存在。".to_string())
    } else {
        Ok(())
    }
}

/// The name of the file into which the engine writes a segment.
pub open spec fn segment_file(index: nat) -> Seq<char> {
    text::zero_padded(text::decimal(index), 5) + ".wav"@
}

/// The name of the file into which the engine writes a segment.
pub fn segment_file_name(index: usize) -> (name: String)
    ensures
        name@ == segment_file(index as nat),
{
    let mut name: Vec<char> = Vec::new();
    text::append_number(&mut name, index as u64, 5);
    text::append_str(&mut name, ".wav");
    assert(name@ == segment_file(index as nat));
    text::string_of(name.as_slice())
}

/// One text of a synthesis, as the engine is given it.
#[derive(Debug)]
pub struct BatchItem {
    pub text: String,
    pub language: &'static str,
    pub output: String,
}

/// The texts of a synthesis, each with its language and the file for its audio.
pub fn batch_items(texts: &[String]) -> (items: Vec<BatchItem>)
    ensures
        items@.len() == texts@.len(),
        forall|i: int| #![trigger items@[i]]
            0 <= i < texts@.len() ==> {
                &&& items@[i].text@ == texts@[i]@
                &&& items@[i].language@ == language_code(texts@[i]@)
                &&& items@[i].output@ == segment_file(i as nat)
            },
{
    let mut items: Vec<BatchItem> = Vec::new();
    let mut i: usize = 0;
    while i < texts.len()
        invariant
            i <= texts.len(),
            items@.len() == i,
            forall|k: int| #![trigger items@[k]]
                0 <= k < i ==> {
                    &&& items@[k].text@ == texts@[k]@
                    &&& items@[k].language@ == language_code(texts@[k]@)
                    &&& items@[k].output@ == segment_file(k as nat)
                },
        decreases texts.len() - i,
    {
        items.push(
            BatchItem {
                text: texts[i].clone(),
                language: language_for_text(texts[i].as_str()),
                output: segment_file_name(i),
            },
        );
        i += 1;
    }
    items
}

/// The error of a segment whose audio could not be read.
pub fn segment_error(index: usize, error: &str) -> (message: String)
    requires
        index < usize::MAX,
    ensures
        message@ == "无法读取 IndexTTS 第 "@ + text::decimal((index + 1) as nat) + " 段输出："@ + error@,
{
    let number = text::number_text(index as u64 + 1);
    "无法读取 IndexTTS 第 ".to_string().concat(number.as_str()).concat(" 段输出：").concat(error)
}

} // verus!
