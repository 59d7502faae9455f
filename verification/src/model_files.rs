//! The files of a Qwen3-TTS model: which there are, when they are complete, and how they are
//! fetched, imported and shared.
//!
//! A file is fetched in up to three attempts. An attempt that breaks off leaves its part on the
//! disk, and the next one asks for the rest. The network and the disk are the caller's; every
//! decision on the way is made here.
use vstd::prelude::*;

use crate::indextts;
use crate::qwen_local;
use crate::qwen_local::{QwenModel, QwenModelKind, QwenModelVersion};
use crate::text;

verus! {

/// A file of a model: what it is called in messages, where it comes from, where it goes and how
/// large it is at least.
#[derive(Clone, Copy, Debug)]
pub struct ModelFile {
    pub label: &'static str,
    pub repository: &'static str,
    pub remote_path: &'static str,
    pub local_path: &'static str,
    pub minimum_size: u64,
}

/// The content of the description of a file.
#[verifier::ext_equal]
pub struct FileEntry {
    pub label: Seq<char>,
    pub repository: Seq<char>,
    pub remote_path: Seq<char>,
    pub local_path: Seq<char>,
    pub minimum_size: u64,
}

impl View for ModelFile {
    type V = FileEntry;

    open spec fn view(&self) -> FileEntry {
        FileEntry {
            label: self.label@,
            repository: self.repository@,
            remote_path: self.remote_path@,
            local_path: self.local_path@,
            minimum_size: self.minimum_size,
        }
    }
}

/// The files of a model, in the order in which they are fetched.
pub open spec fn file_entries(version: QwenModelVersion, kind: QwenModelKind) -> Seq<FileEntry> {
    seq![
        FileEntry {
            label: "main-model"@,
            repository: qwen_local::model_repository(version, kind),
            remote_path: "model.safetensors"@,
            local_path: "model.safetensors"@,
            minimum_size: qwen_local::weights_size(version),
        },
        FileEntry {
            label: "model-config"@,
            repository: qwen_local::model_repository(version, kind),
            remote_path: "config.json"@,
            local_path: "config.json"@,
            minimum_size: 100,
        },
        FileEntry {
            label: "audio-decoder"@,
            repository: "Qwen/Qwen3-TTS-Tokenizer-12Hz"@,
            remote_path: "model.safetensors"@,
            local_path: "speech_tokenizer/model.safetensors"@,
            minimum_size: 500_000_000,
        },
        FileEntry {
            label: "text-tokenizer"@,
            repository: "Qwen/Qwen2-0.5B"@,
            remote_path: "tokenizer.json"@,
            local_path: "tokenizer.json"@,
            minimum_size: 1_000_000,
        },
    ]
}

/// The contents of a list of file descriptions.
pub open spec fn entries_of(files: Seq<ModelFile>) -> Seq<FileEntry> {
    Seq::new(files.len(), |i: int| files[i]@)
}

/// The files of a model, in the order in which they are fetched.
pub fn model_files(version: QwenModelVersion, kind: QwenModelKind) -> (files: Vec<ModelFile>)
    ensures
        entries_of(files@) == file_entries(version, kind),
{
    let repository = QwenModel { version, kind }.id();
    let mut files: Vec<ModelFile> = Vec::new();
    files.push(
        ModelFile {
            label: "main-model",
            repository,
            remote_path: "model.safetensors",
            local_path: "model.safetensors",
            minimum_size: version.minimum_main_model_size(),
        },
    );
    files.push(
        ModelFile {
            label: "model-config",
            repository,
            remote_path: "config.json",
            local_path: "config.json",
            minimum_size: 100,
        },
    );
    files.push(
        ModelFile {
            label: "audio-decoder",
            repository: "Qwen/Qwen3-TTS-Tokenizer-12Hz",
            remote_path: "model.safetensors",
            local_path: "speech_tokenizer/model.safetensors",
            minimum_size: 500_000_000,
        },
    );
    files.push(
        ModelFile {
            label: "text-tokenizer",
            repository: "Qwen/Qwen2-0.5B",
            remote_path: "tokenizer.json",
            local_path: "tokenizer.json",
            minimum_size: 1_000_000,
        },
    );
    assert(entries_of(files@) =~= file_entries(version, kind));
    files
}

/// Whether a file still has to be looked at: the tokenizer is left alone when a usable one, of
/// either kind, is there.
pub fn needs_fetching(file: &ModelFile, tokenizer_usable: bool) -> (needed: bool)
    ensures
        needed == !(file@.label == "text-tokenizer"@ && tokenizer_usable),
{
    let label = text::chars_of(file.label);
    !(tokenizer_usable && text::same_text(label.as_slice(), "text-tokenizer"))
}

/// The sizes of the files of a model directory; `None` where there is no regular file.
#[derive(Clone, Copy, Debug)]
pub struct ModelDirSizes {
    pub weights: Option<u64>,
    pub decoder: Option<u64>,
    pub tokenizer: Option<u64>,
    pub vocabulary: Option<u64>,
    pub merges: Option<u64>,
    pub tokenizer_config: Option<u64>,
}

/// A tokenizer is there: as one file, or as a vocabulary with its merges.
pub open spec fn tokenizer_usable(sizes: ModelDirSizes) -> bool {
    indextts::is_complete(sizes.tokenizer, 1_000_000) || (indextts::is_complete(
        sizes.vocabulary,
        100_000,
    ) && indextts::is_complete(sizes.merges, 100_000))
}

pub fn has_usable_text_tokenizer(sizes: &ModelDirSizes) -> (usable: bool)
    ensures
        usable == tokenizer_usable(*sizes),
{
    indextts::complete_file(sizes.tokenizer, 1_000_000) || (indextts::complete_file(
        sizes.vocabulary,
        100_000,
    ) && indextts::complete_file(sizes.merges, 100_000))
}

/// What is missing in a model directory whose configuration fits.
pub open spec fn files_error(sizes: ModelDirSizes, version: QwenModelVersion) -> Option<Seq<char>> {
    if !indextts::is_complete(sizes.weights, qwen_local::weights_size(version)) {
        Some("主模型 model.safetensors 缺失或不完整。"@)
    } else if !indextts::is_complete(sizes.decoder, 500_000_000) {
        Some("缺少 speech_tokenizer/model.safetensors；请下载完整模型仓库后再导入。"@)
    } else if !tokenizer_usable(sizes) {
        Some("缺少文本分词器；需要 tokenizer.json，或同时提供 vocab.json 与 merges.txt。"@)
    } else {
        None
    }
}

/// Checks the files of a model directory whose configuration fits.
pub fn validate_model_files(sizes: &ModelDirSizes, version: QwenModelVersion) -> (checked: Result<
    (),
    String,
>)
    ensures
        indextts::is_check(checked, files_error(*sizes, version)),
{
    if !indextts::complete_file(sizes.weights, version.minimum_main_model_size()) {
        return Err("主模型 model.safetensors 缺失或不完整。".to_string());
    }
    if !indextts::complete_file(sizes.decoder, 500_000_000) {
        return Err(
            "缺少 speech_tokenizer/model.safetensors；请下载完整模型仓库后再导入。".to_string(),
        );
    }
    if !has_usable_text_tokenizer(sizes) {
        return Err(
            "缺少文本分词器；需要 tokenizer.json，或同时提供 vocab.json 与 merges.txt。".to_string(),
        );
    }
    Ok(())
}

/// What is wrong with a model directory, given its configuration file and its sizes.
pub open spec fn directory_error(
    config: Seq<u8>,
    sizes: ModelDirSizes,
    version: QwenModelVersion,
    kind: QwenModelKind,
) -> Option<Seq<char>> {
    match qwen_local::config_file_error(config, version, kind) {
        Some(error) => Some(error),
        None => files_error(sizes, version),
    }
}

/// Checks a model directory, given its configuration file and the sizes of its other files.
pub fn validate_ready_model_dir(
    config: &[u8],
    sizes: &ModelDirSizes,
    version: QwenModelVersion,
    kind: QwenModelKind,
) -> (checked: Result<(), String>)
    ensures
        indextts::is_check(checked, directory_error(config@, *sizes, version, kind)),
{
    match qwen_local::validate_model_config(config, version, kind) {
        Err(error) => Err(error),
        Ok(_) => validate_model_files(sizes, version),
    }
}

/// Where the model lies below the folder that was selected.
#[derive(Clone, Copy, Debug, PartialEq, Eq, Structural)]
pub enum ModelSource {
    Direct,
    Nested,
}

/// Where the model lies: in the selected folder itself, or else in a folder with the name of the
/// model below it. The arguments say where weights were found.
pub fn locate_model_source(
    direct: bool,
    nested: bool,
    version: QwenModelVersion,
    kind: QwenModelKind,
) -> (source: Result<ModelSource, String>)
    ensures
        match source {
            Ok(ModelSource::Direct) => direct,
            Ok(ModelSource::Nested) => !direct && nested,
            Err(error) => {
                &&& !direct && !nested
                &&& error@ == "所选文件夹中没有找到 "@ + qwen_local::model_name(
                    version,
                    kind,
                ) + " 的 model.safetensors。请选择完整模型文件夹，而不是单个文件。"@
            },
        },
{
    if direct {
        Ok(ModelSource::Direct)
    } else if nested {
        Ok(ModelSource::Nested)
    } else {
        Err(
            "所选文件夹中没有找到 ".to_string().concat(QwenModel { version, kind }.folder_name()).concat(
                " 的 model.safetensors。请选择完整模型文件夹，而不是单个文件。",
            ),
        )
    }
}

/// A file to import: its path, what it is called in messages and how large it is at least.
#[derive(Clone, Copy, Debug)]
pub struct ImportFile {
    pub path: &'static str,
    pub label: &'static str,
    pub minimum_size: u64,
}

/// The files to import of a list.
pub open spec fn imports_of(files: Seq<ImportFile>) -> Seq<(Seq<char>, Seq<char>, u64)> {
    Seq::new(files.len(), |i: int| (files[i].path@, files[i].label@, files[i].minimum_size))
}

/// One file when it is there, and none otherwise.
pub open spec fn optional_import(size: Option<u64>, path: Seq<char>, label: Seq<char>, minimum: u64) -> Seq<
    (Seq<char>, Seq<char>, u64),
> {
    if indextts::is_complete(size, minimum) {
        seq![(path, label, minimum)]
    } else {
        Seq::empty()
    }
}

/// The files that are imported from a complete model folder: the weights, the configuration, the
/// decoder, and the tokenizer in the better of its two forms.
pub open spec fn import_entries(sizes: ModelDirSizes, version: QwenModelVersion) -> Seq<
    (Seq<char>, Seq<char>, u64),
> {
    seq![
        ("model.safetensors"@, "main-model"@, qwen_local::weights_size(version)),
        ("config.json"@, "model-config"@, 100u64),
        ("speech_tokenizer/model.safetensors"@, "audio-decoder"@, 500_000_000u64),
    ] + (if indextts::is_complete(sizes.tokenizer, 1_000_000) {
        optional_import(sizes.tokenizer, "tokenizer.json"@, "text-tokenizer"@, 1_000_000)
    } else {
        optional_import(sizes.vocabulary, "vocab.json"@, "text-tokenizer"@, 100_000)
            + optional_import(sizes.merges, "merges.txt"@, "text-tokenizer"@, 100_000)
            + optional_import(
            sizes.tokenizer_config,
            "tokenizer_config.json"@,
            "text-tokenizer"@,
            100,
        )
    })
}

/// What is said of a file that is to be imported and is not there in full.
pub open spec fn missing_import(label: Seq<char>, path: Seq<char>) -> Seq<char> {
    label + " 缺失或不完整："@ + path
}

/// Why a model folder whose configuration fits is not imported: the weights or the configuration
/// are not there in full, or else what would be missing where the model is used.
pub open spec fn import_error(
    config_size: nat,
    sizes: ModelDirSizes,
    version: QwenModelVersion,
    weights_path: Seq<char>,
    config_path: Seq<char>,
) -> Option<Seq<char>> {
    if !indextts::is_complete(sizes.weights, qwen_local::weights_size(version)) {
        Some(missing_import("main-model"@, weights_path))
    } else if config_size < 100 {
        Some(missing_import("model-config"@, config_path))
    } else {
        files_error(sizes, version)
    }
}

/// Whether an import was decided on: the given error, or else the files to import.
pub open spec fn is_import(
    files: Result<Vec<ImportFile>, String>,
    error: Option<Seq<char>>,
    sizes: ModelDirSizes,
    version: QwenModelVersion,
) -> bool {
    match files {
        Ok(files) => error is None && imports_of(files@) == import_entries(sizes, version),
        Err(message) => error == Some(message@),
    }
}

fn missing_import_text(label: &str, path: &str) -> (message: String)
    ensures
        message@ == missing_import(label@, path@),
{
    label.to_string().concat(" 缺失或不完整：").concat(path)
}

fn push_import(
    files: &mut Vec<ImportFile>,
    size: Option<u64>,
    path: &'static str,
    label: &'static str,
    minimum_size: u64,
)
    ensures
        imports_of(final(files)@) == imports_of(old(files)@) + optional_import(
            size,
            path@,
            label@,
            minimum_size,
        ),
{
    let ghost before = files@;
    if indextts::complete_file(size, minimum_size) {
        files.push(ImportFile { path, label, minimum_size });
        assert(imports_of(files@) =~= imports_of(before) + seq![(path@, label@, minimum_size)]);
    } else {
        assert(imports_of(files@) =~= imports_of(before) + Seq::empty());
    }
}

/// The files that are imported from a model folder whose configuration fits, given the sizes of its
/// files. A folder is refused when it lacks the weights, the decoder or a tokenizer. The paths are
/// those of the weights and of the configuration, as they are shown.
pub fn import_files(
    config_size: usize,
    sizes: &ModelDirSizes,
    version: QwenModelVersion,
    weights_path: &str,
    config_path: &str,
) -> (files: Result<Vec<ImportFile>, String>)
    ensures
        is_import(
            files,
            import_error(config_size as nat, *sizes, version, weights_path@, config_path@),
            *sizes,
            version,
        ),
{
    if !indextts::complete_file(sizes.weights, version.minimum_main_model_size()) {
        return Err(missing_import_text("main-model", weights_path));
    }
    if config_size < 100 {
        return Err(missing_import_text("model-config", config_path));
    }
    match validate_model_files(sizes, version) {
        Ok(_) => {},
        Err(error) => {
            return Err(error);
        },
    }
    let mut files: Vec<ImportFile> = Vec::new();
    files.push(
        ImportFile {
            path: "model.safetensors",
            label: "main-model",
            minimum_size: version.minimum_main_model_size(),
        },
    );
    files.push(ImportFile { path: "config.json", label: "model-config", minimum_size: 100 });
    files.push(
        ImportFile {
            path: "speech_tokenizer/model.safetensors",
            label: "audio-decoder",
            minimum_size: 500_000_000,
        },
    );
    let ghost first = imports_of(files@);
    assert(first =~= seq![
        ("model.safetensors"@, "main-model"@, qwen_local::weights_size(version)),
        ("config.json"@, "model-config"@, 100u64),
        ("speech_tokenizer/model.safetensors"@, "audio-decoder"@, 500_000_000u64),
    ]);
    if indextts::complete_file(sizes.tokenizer, 1_000_000) {
        push_import(&mut files, sizes.tokenizer, "tokenizer.json", "text-tokenizer", 1_000_000);
    } else {
        push_import(&mut files, sizes.vocabulary, "vocab.json", "text-tokenizer", 100_000);
        push_import(&mut files, sizes.merges, "merges.txt", "text-tokenizer", 100_000);
        push_import(
            &mut files,
            sizes.tokenizer_config,
            "tokenizer_config.json",
            "text-tokenizer",
            100,
        );
        assert(imports_of(files@) =~= import_entries(*sizes, version));
    }
    Ok(files)
}

/// Why a folder that the user has chosen is not imported.
pub open spec fn folder_error(
    config: Seq<u8>,
    sizes: ModelDirSizes,
    version: QwenModelVersion,
    kind: QwenModelKind,
    weights_path: Seq<char>,
    config_path: Seq<char>,
) -> Option<Seq<char>> {
    match qwen_local::config_file_error(config, version, kind) {
        Some(error) => Some(error),
        None => import_error(config.len(), sizes, version, weights_path, config_path),
    }
}

/// Decides on the import of a model from a folder that the user has chosen, given its configuration
/// file and the sizes of its other files: the files to import, or why the folder is refused.
pub fn import_offline_model(
    config: &[u8],
    sizes: &ModelDirSizes,
    version: QwenModelVersion,
    kind: QwenModelKind,
    weights_path: &str,
    config_path: &str,
) -> (files: Result<Vec<ImportFile>, String>)
    ensures
        is_import(
            files,
            folder_error(config@, *sizes, version, kind, weights_path@, config_path@),
            *sizes,
            version,
        ),
{
    match qwen_local::validate_model_config(config, version, kind) {
        Err(error) => Err(error),
        Ok(_) => import_files(config.len(), sizes, version, weights_path, config_path),
    }
}

/// A folder is imported only when it holds all that makes a model ready to be used.
pub proof fn an_accepted_folder_is_ready(
    config: Seq<u8>,
    sizes: ModelDirSizes,
    version: QwenModelVersion,
    kind: QwenModelKind,
    weights_path: Seq<char>,
    config_path: Seq<char>,
)
    requires
        folder_error(config, sizes, version, kind, weights_path, config_path) is None,
    ensures
        directory_error(config, sizes, version, kind) is None,
{
}

/// What is imported from an accepted folder makes a whole model: the weights, the configuration, the
/// decoder, and a tokenizer in one of its two forms.
pub proof fn an_accepted_import_is_whole(sizes: ModelDirSizes, version: QwenModelVersion)
    requires
        files_error(sizes, version) is None,
    ensures
        ({
            let entries = import_entries(sizes, version);
            &&& entries.contains(
                ("model.safetensors"@, "main-model"@, qwen_local::weights_size(version)),
            )
            &&& entries.contains(("config.json"@, "model-config"@, 100u64))
            &&& entries.contains(
                ("speech_tokenizer/model.safetensors"@, "audio-decoder"@, 500_000_000u64),
            )
            &&& entries.contains(("tokenizer.json"@, "text-tokenizer"@, 1_000_000u64)) || (
            entries.contains(("vocab.json"@, "text-tokenizer"@, 100_000u64)) && entries.contains(
                ("merges.txt"@, "text-tokenizer"@, 100_000u64),
            ))
        }),
{
    let entries = import_entries(sizes, version);
    assert(entries[0] == ("model.safetensors"@, "main-model"@, qwen_local::weights_size(version)));
    assert(entries[1] == ("config.json"@, "model-config"@, 100u64));
    assert(entries[2] == (
        "speech_tokenizer/model.safetensors"@,
        "audio-decoder"@,
        500_000_000u64,
    ));
    if indextts::is_complete(sizes.tokenizer, 1_000_000) {
        assert(entries[3] == ("tokenizer.json"@, "text-tokenizer"@, 1_000_000u64));
    } else {
        assert(entries[3] == ("vocab.json"@, "text-tokenizer"@, 100_000u64));
        assert(entries[4] == ("merges.txt"@, "text-tokenizer"@, 100_000u64));
    }
}

/// What is done to import one file.
#[derive(Debug)]
pub enum ImportStep {
    /// The file is already installed.
    Keep,
    /// Link or copy it.
    Copy,
    /// The source is missing or incomplete.
    Fail(String),
}

/// What is done to import one file, given the sizes of its source and of what is installed.
pub fn import_step(
    source: Option<u64>,
    installed: Option<u64>,
    same_path: bool,
    file: &ImportFile,
    source_path: &str,
) -> (step: ImportStep)
    ensures
        match step {
            ImportStep::Fail(error) => !indextts::is_complete(source, file.minimum_size) && error@
                == missing_import(file.label@, source_path@),
            ImportStep::Keep => indextts::is_complete(source, file.minimum_size) && (same_path
                || indextts::is_complete(installed, file.minimum_size)),
            ImportStep::Copy => indextts::is_complete(source, file.minimum_size) && !same_path
                && !indextts::is_complete(installed, file.minimum_size),
        },
{
    if !indextts::complete_file(source, file.minimum_size) {
        return ImportStep::Fail(missing_import_text(file.label, source_path));
    }
    if same_path || indextts::complete_file(installed, file.minimum_size) {
        ImportStep::Keep
    } else {
        ImportStep::Copy
    }
}

/// Checks the copy of a file that was imported.
pub fn check_imported(size: Option<u64>, file: &ImportFile) -> (checked: Result<(), String>)
    ensures
        indextts::is_check(
            checked,
            if indextts::is_complete(size, file.minimum_size) {
                None
            } else {
                Some("导入后的 "@ + file.label@ + " 不完整。"@)
            },
        ),
{
    if indextts::complete_file(size, file.minimum_size) {
        Ok(())
    } else {
        Err("导入后的 ".to_string().concat(file.label).concat(" 不完整。"))
    }
}

/// Whether a file of another cache is taken over: it is complete and what is there is not.
pub fn should_reuse(source: Option<u64>, installed: Option<u64>, minimum: u64) -> (reuse: bool)
    ensures
        reuse == (indextts::is_complete(source, minimum) && !indextts::is_complete(
            installed,
            minimum,
        )),
{
    indextts::complete_file(source, minimum) && !indextts::complete_file(installed, minimum)
}

/// The files that the two versions of the model share.
pub fn shared_assets() -> (files: Vec<(&'static str, u64)>)
    ensures
        indextts::file_table(files@) == seq![
            ("speech_tokenizer/model.safetensors"@, 500_000_000u64),
            ("tokenizer.json"@, 1_000_000u64),
        ],
{
    let mut files: Vec<(&'static str, u64)> = Vec::new();
    files.push(("speech_tokenizer/model.safetensors", 500_000_000));
    files.push(("tokenizer.json", 1_000_000));
    assert(indextts::file_table(files@) =~= seq![
        ("speech_tokenizer/model.safetensors"@, 500_000_000u64),
        ("tokenizer.json"@, 1_000_000u64),
    ]);
    files
}

/// The address of a file.
pub fn download_url(file: &ModelFile) -> (url: String)
    ensures
        url@ == "https://huggingface.co/"@ + file@.repository + "/resolve/main/"@ + file@.remote_path,
{
    "https://huggingface.co/".to_string().concat(file.repository).concat("/resolve/main/").concat(
        file.remote_path,
    )
}

/// The header that asks for what is still missing; none when nothing is there yet.
pub fn range_header(existing_bytes: u64) -> (header: Option<String>)
    ensures
        match header {
            Some(header) => existing_bytes > 0 && header@ == "bytes="@ + text::decimal(
                existing_bytes as nat,
            ) + "-"@,
            None => existing_bytes == 0,
        },
{
    if existing_bytes == 0 {
        return None;
    }
    let number = text::number_text(existing_bytes);
    Some("bytes=".to_string().concat(number.as_str()).concat("-"))
}

/// The number of bytes after which progress is reported again.
pub const REPORT_BYTES: u64 = 8_388_608;

/// The number of attempts that are made to fetch a file.
pub const MAX_ATTEMPTS: u64 = 3;

/// A file on its way: how much of it is there, how much there will be, and how much was there when
/// it was last reported. A total of zero is not known.
#[derive(Clone, Copy, Debug, PartialEq, Eq, Structural)]
pub struct Transfer {
    pub downloaded: u64,
    pub total: u64,
    pub last_reported: u64,
}

/// Whether the answer of the server continues the part that is on the disk.
pub open spec fn continues_part(partial_content: bool, existing_bytes: u64) -> bool {
    partial_content && existing_bytes > 0
}

/// The transfer at its beginning.
pub open spec fn started(
    partial_content: bool,
    existing_bytes: u64,
    content_length: Option<u64>,
) -> Transfer {
    let base = if continues_part(partial_content, existing_bytes) {
        existing_bytes
    } else {
        0
    };
    Transfer {
        downloaded: base,
        total: match content_length {
            Some(length) => if length + base <= u64::MAX {
                (length + base) as u64
            } else {
                u64::MAX
            },
            None => 0,
        },
        last_reported: if base >= REPORT_BYTES {
            (base - REPORT_BYTES) as u64
        } else {
            0
        },
    }
}

/// Begins to read the answer of the server. Says whether it is appended to the part that is on the
/// disk, which it is when the server sends the missing rest only.
pub fn begin_transfer(partial_content: bool, existing_bytes: u64, content_length: Option<u64>) -> (begun: (
    bool,
    Transfer,
))
    ensures
        begun.0 == continues_part(partial_content, existing_bytes),
        begun.1 == started(partial_content, existing_bytes, content_length),
{
    let resumed = partial_content && existing_bytes > 0;
    let base: u64 = if resumed {
        existing_bytes
    } else {
        0
    };
    let total: u64 = match content_length {
        Some(length) => length.saturating_add(base),
        None => 0,
    };
    (resumed, Transfer { downloaded: base, total, last_reported: base.saturating_sub(REPORT_BYTES) })
}

/// The transfer with more bytes.
pub open spec fn received(transfer: Transfer, bytes: usize) -> u64 {
    if transfer.downloaded + bytes <= u64::MAX {
        (transfer.downloaded + bytes) as u64
    } else {
        u64::MAX
    }
}

/// Whether progress is reported at the given position: enough has come since the last report, or
/// all is there.
pub open spec fn is_reported(transfer: Transfer, downloaded: u64) -> bool {
    downloaded - transfer.last_reported >= REPORT_BYTES || (transfer.total > 0 && downloaded
        >= transfer.total)
}

impl Transfer {
    /// The report has not run ahead of the bytes.
    pub open spec fn is_sound(&self) -> bool {
        self.last_reported <= self.downloaded
    }

    /// Takes in bytes that were read. Says whether progress is to be reported now.
    pub fn advance(&mut self, bytes: usize) -> (report: bool)
        requires
            old(self).is_sound(),
        ensures
            final(self).is_sound(),
            report == is_reported(*old(self), received(*old(self), bytes)),
            *final(self) == (Transfer {
                downloaded: received(*old(self), bytes),
                total: old(self).total,
                last_reported: if report {
                    received(*old(self), bytes)
                } else {
                    old(self).last_reported
                },
            }),
    {
        self.downloaded = self.downloaded.saturating_add(bytes as u64);
        if self.downloaded - self.last_reported >= REPORT_BYTES || (self.total > 0
            && self.downloaded >= self.total) {
            self.last_reported = self.downloaded;
            true
        } else {
            false
        }
    }
}

/// Why an attempt did not deliver the file.
#[derive(Debug)]
pub enum AttemptFailure {
    /// The server could not be asked, or the answer broke off.
    Network(String),
    /// The server refused.
    Status(String),
    /// Less came than was announced.
    Incomplete { downloaded: u64, total: u64 },
    /// What came is too small to be the file.
    TooSmall { downloaded: u64 },
}

/// What the user is told of a failed attempt.
pub open spec fn failure_text(failure: AttemptFailure) -> Seq<char> {
    match failure {
        AttemptFailure::Network(error) => error@,
        AttemptFailure::Status(status) => "HTTP "@ + status@,
        AttemptFailure::Incomplete { downloaded, total } => "下载不完整："@ + text::decimal(
            downloaded as nat,
        ) + "/"@ + text::decimal(total as nat) + " 字节"@,
        AttemptFailure::TooSmall { downloaded } => "文件异常小："@ + text::decimal(downloaded as nat)
            + " 字节"@,
    }
}

/// The verdict on a transfer that has ended.
pub open spec fn transfer_failure(transfer: Transfer, minimum_size: u64) -> bool {
    (transfer.total > 0 && transfer.downloaded < transfer.total) || transfer.downloaded < minimum_size
}

/// The verdict on a transfer that has ended without an error: the file is complete, or the reason
/// why it is not.
pub fn judge_transfer(transfer: &Transfer, minimum_size: u64) -> (failure: Option<AttemptFailure>)
    ensures
        match failure {
            Some(AttemptFailure::Incomplete { downloaded, total }) => {
                &&& transfer.total > 0
                &&& transfer.downloaded < transfer.total
                &&& downloaded == transfer.downloaded
                &&& total == transfer.total
            },
            Some(AttemptFailure::TooSmall { downloaded }) => {
                &&& !(transfer.total > 0 && transfer.downloaded < transfer.total)
                &&& transfer.downloaded < minimum_size
                &&& downloaded == transfer.downloaded
            },
            Some(_) => false,
            None => !transfer_failure(*transfer, minimum_size),
        },
{
    if transfer.total > 0 && transfer.downloaded < transfer.total {
        Some(
            AttemptFailure::Incomplete { downloaded: transfer.downloaded, total: transfer.total },
        )
    } else if transfer.downloaded < minimum_size {
        Some(AttemptFailure::TooSmall { downloaded: transfer.downloaded })
    } else {
        None
    }
}

/// What follows a failed attempt.
#[derive(Debug)]
pub struct RetryStep {
    /// How long to wait, in seconds.
    pub wait_seconds: u64,
    /// Whether the part on the disk is of no use and is removed.
    pub remove_part: bool,
    /// The number of the next attempt; none when there were enough.
    pub next_attempt: Option<u64>,
    /// What the user is told when there is no next attempt.
    pub error: String,
}

/// What follows a failed attempt: after an error of the network or the server a pause that grows
/// with the attempts, and another attempt while there are any left.
pub fn after_attempt(file: &ModelFile, attempt: u64, failure: &AttemptFailure) -> (step: RetryStep)
    requires
        1 <= attempt <= MAX_ATTEMPTS,
    ensures
        step.wait_seconds == (match *failure {
            AttemptFailure::Network(_) => (attempt * 2) as u64,
            AttemptFailure::Status(_) => (attempt * 2) as u64,
            _ => 0,
        }),
        step.remove_part == (failure is TooSmall),
        step.next_attempt == (if attempt < MAX_ATTEMPTS {
            Some((attempt + 1) as u64)
        } else {
            None
        }),
        step.error@ == "下载 "@ + file@.label + " 失败（已重试 3 次）："@ + failure_text(*failure),
{
    let mut wait_seconds: u64 = 0;
    let mut remove_part = false;
    let reason: String = match failure {
        AttemptFailure::Network(error) => {
            wait_seconds = attempt * 2;
            error.clone()
        },
        AttemptFailure::Status(status) => {
            wait_seconds = attempt * 2;
            "HTTP ".to_string().concat(status.as_str())
        },
        AttemptFailure::Incomplete { downloaded, total } => {
            let downloaded = text::number_text(*downloaded);
            let total = text::number_text(*total);
            "下载不完整：".to_string().concat(downloaded.as_str()).concat("/").concat(
                total.as_str(),
            ).concat(" 字节")
        },
        AttemptFailure::TooSmall { downloaded } => {
            remove_part = true;
            let downloaded = text::number_text(*downloaded);
            "文件异常小：".to_string().concat(downloaded.as_str()).concat(" 字节")
        },
    };
    RetryStep {
        wait_seconds,
        remove_part,
        next_attempt: if attempt < MAX_ATTEMPTS {
            Some(attempt + 1)
        } else {
            None
        },
        error: "下载 ".to_string().concat(file.label).concat(" 失败（已重试 3 次）：").concat(
            reason.as_str(),
        ),
    }
}

/// The transfer after pieces of the given lengths have been read.
pub open spec fn transfer_after(transfer: Transfer, pieces: Seq<usize>) -> Transfer
    decreases pieces.len(),
{
    if pieces.len() == 0 {
        transfer
    } else {
        let before = transfer_after(transfer, pieces.drop_last());
        let downloaded = received(before, pieces.last());
        Transfer {
            downloaded,
            total: before.total,
            last_reported: if is_reported(before, downloaded) {
                downloaded
            } else {
                before.last_reported
            },
        }
    }
}

/// The sum of the lengths of pieces.
pub open spec fn length_sum(pieces: Seq<usize>) -> nat
    decreases pieces.len(),
{
    if pieces.len() == 0 {
        0
    } else {
        length_sum(pieces.drop_last()) + pieces.last() as nat
    }
}

proof fn lemma_transfer_after(transfer: Transfer, pieces: Seq<usize>)
    requires
        transfer.is_sound(),
        transfer.downloaded + length_sum(pieces) <= u64::MAX,
    ensures
        transfer_after(transfer, pieces).is_sound(),
        transfer_after(transfer, pieces).downloaded == transfer.downloaded + length_sum(pieces),
        transfer_after(transfer, pieces).total == transfer.total,
    decreases pieces.len(),
{
    if pieces.len() > 0 {
        lemma_transfer_after(transfer, pieces.drop_last());
    }
}

/// A download that broke off is completed by the rest alone: when the server sends exactly the
/// bytes that are missing, the file counts as complete and has its full size.
pub proof fn resumed_download_is_completed(
    existing_bytes: u64,
    pieces: Seq<usize>,
    minimum_size: u64,
)
    requires
        existing_bytes > 0,
        existing_bytes + length_sum(pieces) <= u64::MAX,
        minimum_size <= existing_bytes + length_sum(pieces),
    ensures
        ({
            let begun = started(true, existing_bytes, Some(length_sum(pieces) as u64));
            let ended = transfer_after(begun, pieces);
            &&& ended.downloaded == existing_bytes + length_sum(pieces)
            &&& !transfer_failure(ended, minimum_size)
        }),
{
    let begun = started(true, existing_bytes, Some(length_sum(pieces) as u64));
    lemma_transfer_after(begun, pieces);
}

} // verus!
