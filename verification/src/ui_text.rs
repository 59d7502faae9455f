//! The words of the user interface: its two languages, status messages and short descriptions.
use vstd::prelude::*;

use crate::asr;
use crate::asr::SubtitleExportFormat;
use crate::file_names;
use crate::text;

verus! {

/// The language of the user interface.
#[derive(Clone, Copy, Debug, PartialEq, Eq, Structural)]
pub enum UiLanguage {
    Chinese,
    English,
}

/// The one of two texts that is in the given language.
pub open spec fn in_language(language: UiLanguage, chinese: Seq<char>, english: Seq<char>) -> Seq<char> {
    match language {
        UiLanguage::Chinese => chinese,
        UiLanguage::English => english,
    }
}

impl UiLanguage {
    /// The one of two texts that is in this language.
    pub fn text<'a>(self, chinese: &'a str, english: &'a str) -> (chosen: &'a str)
        ensures
            chosen@ == in_language(self, chinese@, english@),
    {
        match self {
            UiLanguage::Chinese => chinese,
            UiLanguage::English => english,
        }
    }
}

/// What a status message tells.
#[derive(Clone, Copy, Debug, PartialEq, Eq, Structural)]
pub enum StatusKind {
    Info,
    Success,
    Warning,
    Error,
}

/// A message to the user in both languages.
#[derive(Debug)]
pub struct StatusMessage {
    pub kind: StatusKind,
    pub chinese: String,
    pub english: String,
}

/// The content of a status message.
#[verifier::ext_equal]
pub struct Status {
    pub kind: StatusKind,
    pub chinese: Seq<char>,
    pub english: Seq<char>,
}

impl View for StatusMessage {
    type V = Status;

    open spec fn view(&self) -> Status {
        Status { kind: self.kind, chinese: self.chinese@, english: self.english@ }
    }
}

/// A status message with the given content.
pub open spec fn status(kind: StatusKind, chinese: Seq<char>, english: Seq<char>) -> Status {
    Status { kind, chinese, english }
}

impl StatusMessage {
    pub fn new(kind: StatusKind, chinese: String, english: String) -> (message: Self)
        ensures
            message@ == status(kind, chinese@, english@),
    {
        StatusMessage { kind, chinese, english }
    }

    /// A message that needs nothing filled in.
    pub fn fixed(kind: StatusKind, chinese: &str, english: &str) -> (message: Self)
        ensures
            message@ == status(kind, chinese@, english@),
    {
        StatusMessage { kind, chinese: chinese.to_string(), english: english.to_string() }
    }

    /// The message in the given language.
    pub fn text(&self, language: UiLanguage) -> (shown: &str)
        ensures
            shown@ == in_language(language, self.chinese@, self.english@),
    {
        match language {
            UiLanguage::Chinese => self.chinese.as_str(),
            UiLanguage::English => self.english.as_str(),
        }
    }
}

/// The longest excerpt of a text that is spoken as a preview, in characters.
pub const PREVIEW_CHARACTERS: usize = 80;

/// What is spoken to preview a voice: the beginning of the text, or a sentence when there is none.
pub open spec fn preview_of(s: Seq<char>, language: UiLanguage) -> Seq<char> {
    let trimmed = text::trimmed(s);
    if trimmed.len() == 0 {
        in_language(
            language,
            "你好，这是当前音色的试听效果。"@,
            "Hello, this is a preview of the selected voice."@,
        )
    } else if trimmed.len() > PREVIEW_CHARACTERS {
        trimmed.take(PREVIEW_CHARACTERS as int).push('…')
    } else {
        trimmed
    }
}

pub fn preview_text(s: &str, language: UiLanguage) -> (preview: String)
    ensures
        preview@ == preview_of(s@, language),
{
    let chars = text::chars_of(s);
    let trimmed = text::trim(chars.as_slice());
    if trimmed.len() == 0 {
        return language.text(
            "你好，这是当前音色的试听效果。",
            "Hello, this is a preview of the selected voice.",
        ).to_string();
    }
    if trimmed.len() > PREVIEW_CHARACTERS {
        let head = text::part(trimmed, 0, PREVIEW_CHARACTERS);
        assert(head@ == trimmed@.take(PREVIEW_CHARACTERS as int));
        let mut preview = text::string_of(head);
        preview.push('…');
        preview
    } else {
        text::string_of(trimmed)
    }
}

/// A preview is never empty and never longer than its excerpt and the dots behind it.
pub proof fn preview_is_short(s: Seq<char>, language: UiLanguage)
    ensures
        0 < preview_of(s, language).len() <= PREVIEW_CHARACTERS + 1,
{
    reveal_strlit("你好，这是当前音色的试听效果。");
    reveal_strlit("Hello, this is a preview of the selected voice.");
}

/// A duration as it is shown: seconds, or minutes and seconds.
pub open spec fn duration_text(seconds: nat) -> Seq<char> {
    if seconds >= 60 {
        text::decimal(seconds / 60) + ":"@ + text::zero_padded(text::decimal(seconds % 60), 2)
    } else {
        text::decimal(seconds) + "s"@
    }
}

pub fn format_duration_seconds(seconds: u64) -> (shown: String)
    ensures
        shown@ == duration_text(seconds as nat),
{
    let mut shown: Vec<char> = Vec::new();
    if seconds >= 60 {
        text::append_number(&mut shown, seconds / 60, 0);
        text::append_str(&mut shown, ":");
        text::append_number(&mut shown, seconds % 60, 2);
    } else {
        text::append_number(&mut shown, seconds, 0);
        text::append_str(&mut shown, "s");
    }
    assert(shown@ == duration_text(seconds as nat));
    text::string_of(shown.as_slice())
}

/// A position in a recording, in whole seconds.
pub open spec fn playback_text(seconds: nat) -> Seq<char> {
    if seconds >= 3_600 {
        text::decimal(seconds / 3_600) + ":"@ + text::zero_padded(
            text::decimal(seconds / 60 % 60),
            2,
        ) + ":"@ + text::zero_padded(text::decimal(seconds % 60), 2)
    } else {
        text::decimal(seconds / 60) + ":"@ + text::zero_padded(text::decimal(seconds % 60), 2)
    }
}

pub fn format_playback_seconds(seconds: u64) -> (shown: String)
    ensures
        shown@ == playback_text(seconds as nat),
{
    let mut shown: Vec<char> = Vec::new();
    if seconds >= 3_600 {
        text::append_number(&mut shown, seconds / 3_600, 0);
        text::append_str(&mut shown, ":");
        text::append_number(&mut shown, seconds / 60 % 60, 2);
    } else {
        text::append_number(&mut shown, seconds / 60, 0);
    }
    text::append_str(&mut shown, ":");
    text::append_number(&mut shown, seconds % 60, 2);
    assert(shown@ == playback_text(seconds as nat));
    text::string_of(shown.as_slice())
}

/// The short name of a file of the recognition model.
pub open spec fn source_name(source: Seq<char>) -> Seq<char> {
    if text::occurs_at(source, "Model"@, 0) {
        "Whisper Large-v3 Turbo"@
    } else if text::occurs_at(source, "Tokenizer"@, 0) {
        "Tokenizer"@
    } else if text::occurs_at(source, "Config"@, 0) {
        "Config"@
    } else {
        source
    }
}

pub fn compact_model_source(source: &str) -> (name: &str)
    ensures
        name@ == source_name(source@),
{
    let chars = text::chars_of(source);
    if text::starts_with(chars.as_slice(), "Model") {
        "Whisper Large-v3 Turbo"
    } else if text::starts_with(chars.as_slice(), "Tokenizer") {
        "Tokenizer"
    } else if text::starts_with(chars.as_slice(), "Config") {
        "Config"
    } else {
        source
    }
}

/// The error of a transcription as it is told in Chinese.
pub open spec fn chinese_transcription_error(error: Seq<char>) -> Seq<char> {
    if text::occurs(error, "No speech was recognized"@) {
        "没有识别到清晰语音。中英文交替的音频请选择“中英混合”，并确认音量足够且人声清楚。"@
    } else if text::occurs(error, "does not contain decodable audio"@) || text::occurs(
        error,
        "Could not decode the MP3 file"@,
    ) || text::occurs(error, "audio codec is not supported"@) || text::occurs(
        error,
        "No supported audio track"@,
    ) {
        "无法解码所选媒体的音轨，请确认文件完整、未受保护且音频编码受支持。详细信息："@ + error
    } else if text::occurs(error, "Could not load the local Whisper model"@) {
        "无法加载本地 Whisper 模型，请检查首次下载是否完成。详细信息："@ + error
    } else if text::occurs(error, "Could not read the MP3 file"@) || text::occurs(
        error,
        "Could not open the selected media file"@,
    ) {
        "无法读取所选媒体，请检查文件权限。详细信息："@ + error
    } else {
        error
    }
}

pub fn localized_transcription_error(error: &str) -> (told: String)
    ensures
        told@ == chinese_transcription_error(error@),
{
    let chars = text::chars_of(error);
    let chars = chars.as_slice();
    if text::contains(chars, "No speech was recognized") {
        "没有识别到清晰语音。中英文交替的音频请选择“中英混合”，并确认音量足够且人声清楚。".to_string()
    } else if text::contains(chars, "does not contain decodable audio") || text::contains(
        chars,
        "Could not decode the MP3 file",
    ) || text::contains(chars, "audio codec is not supported") || text::contains(
        chars,
        "No supported audio track",
    ) {
        "无法解码所选媒体的音轨，请确认文件完整、未受保护且音频编码受支持。详细信息：".to_string().concat(
            error,
        )
    } else if text::contains(chars, "Could not load the local Whisper model") {
        "无法加载本地 Whisper 模型，请检查首次下载是否完成。详细信息：".to_string().concat(error)
    } else if text::contains(chars, "Could not read the MP3 file") || text::contains(
        chars,
        "Could not open the selected media file",
    ) {
        "无法读取所选媒体，请检查文件权限。详细信息：".to_string().concat(error)
    } else {
        error.to_string()
    }
}

/// Whether a file name has the given extension, whatever the case of its letters.
pub open spec fn has_extension(name: Seq<char>, extension: Seq<char>) -> bool {
    match file_names::extension_of(name) {
        Some(found) => text::ascii_lowered(found) == text::ascii_lowered(extension),
        None => false,
    }
}

/// A file name with the given extension: kept where it already has it, or names no file.
pub open spec fn named_with(name: Seq<char>, extension: Seq<char>) -> Seq<char> {
    if has_extension(name, extension) {
        name
    } else {
        file_names::with_extension(name, extension)
    }
}

fn ensure_extension(name: &str, extension: &str) -> (named: String)
    ensures
        named@ == named_with(name@, extension@),
{
    let chars = text::chars_of(name);
    let matches = match file_names::extension(chars.as_slice()) {
        Some(found) => text::eq_ignore_ascii_case(found, extension),
        None => false,
    };
    if matches {
        name.to_string()
    } else {
        let named = file_names::set_extension(chars.as_slice(), extension);
        text::string_of(named.as_slice())
    }
}

/// The name of an MP3 file: other extensions are replaced.
pub fn ensure_mp3_extension(name: &str) -> (named: String)
    ensures
        named@ == named_with(name@, "mp3"@),
{
    ensure_extension(name, "mp3")
}

/// The name of a subtitle file in the given format: other extensions are replaced.
pub fn ensure_subtitle_extension(name: &str, format: SubtitleExportFormat) -> (named: String)
    ensures
        named@ == named_with(name@, asr::export_extension(format)),
{
    ensure_extension(name, format.extension())
}

/// Naming a file twice is naming it once.
pub proof fn naming_twice_changes_nothing(name: Seq<char>, extension: Seq<char>)
    requires
        file_names::is_file_name(name),
        extension.len() > 0,
        forall|i: int| 0 <= i < extension.len() ==> #[trigger] extension[i] != '.',
    ensures
        has_extension(named_with(name, extension), extension),
        named_with(named_with(name, extension), extension) == named_with(name, extension),
{
    if !has_extension(name, extension) {
        file_names::set_extension_is_read_back(name, extension);
    }
}

} // verus!
