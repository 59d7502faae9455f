//! The local Qwen3-TTS engine: its models and voices, the language and the length of what it
//! speaks, and the files that it needs.
use vstd::prelude::*;

use crate::asr;
use crate::asr_laws;
use crate::indextts;
use crate::text;

verus! {

#[derive(Clone, Copy, Debug, PartialEq, Eq, Structural)]
pub enum QwenModelVersion {
    Small0_6B,
    Large1_7B,
}

/// What a model can do: speak with its own voices, or with a voice that it was given.
#[derive(Clone, Copy, Debug, PartialEq, Eq, Structural)]
pub enum QwenModelKind {
    CustomVoice,
    VoiceClone,
}

/// The short name of a model kind.
pub open spec fn kind_label(kind: QwenModelKind) -> Seq<char> {
    match kind {
        QwenModelKind::CustomVoice => "CustomVoice"@,
        QwenModelKind::VoiceClone => "Base"@,
    }
}

impl QwenModelKind {
    pub fn short_label(self) -> (label: &'static str)
        ensures
            label@ == kind_label(self),
    {
        match self {
            QwenModelKind::CustomVoice => "CustomVoice",
            QwenModelKind::VoiceClone => "Base",
        }
    }
}

/// The short name of a model version.
pub open spec fn version_label(version: QwenModelVersion) -> Seq<char> {
    match version {
        QwenModelVersion::Small0_6B => "0.6B"@,
        QwenModelVersion::Large1_7B => "1.7B"@,
    }
}

/// The name of a model among those of its publisher.
pub open spec fn folder_name(version: QwenModelVersion) -> Seq<char> {
    match version {
        QwenModelVersion::Small0_6B => "Qwen3-TTS-12Hz-0.6B-CustomVoice"@,
        QwenModelVersion::Large1_7B => "Qwen3-TTS-12Hz-1.7B-CustomVoice"@,
    }
}

/// The repository of a model.
pub open spec fn repository(version: QwenModelVersion) -> Seq<char> {
    match version {
        QwenModelVersion::Small0_6B => "Qwen/Qwen3-TTS-12Hz-0.6B-CustomVoice"@,
        QwenModelVersion::Large1_7B => "Qwen/Qwen3-TTS-12Hz-1.7B-CustomVoice"@,
    }
}

/// How much is fetched for a model.
pub open spec fn size_label(version: QwenModelVersion) -> Seq<char> {
    match version {
        QwenModelVersion::Small0_6B => "2.4 GB"@,
        QwenModelVersion::Large1_7B => "4.5 GB"@,
    }
}

/// The least size of the weights of a model.
pub open spec fn weights_size(version: QwenModelVersion) -> u64 {
    match version {
        QwenModelVersion::Small0_6B => 1_500_000_000,
        QwenModelVersion::Large1_7B => 3_500_000_000,
    }
}

/// The width of a model, by which its version is told.
pub open spec fn hidden_size(version: QwenModelVersion) -> u64 {
    match version {
        QwenModelVersion::Small0_6B => 1024,
        QwenModelVersion::Large1_7B => 2048,
    }
}

/// The other version.
pub open spec fn other_version(version: QwenModelVersion) -> QwenModelVersion {
    match version {
        QwenModelVersion::Small0_6B => QwenModelVersion::Large1_7B,
        QwenModelVersion::Large1_7B => QwenModelVersion::Small0_6B,
    }
}

impl QwenModelVersion {
    /// The version that is selected at first.
    pub const DEFAULT: QwenModelVersion = QwenModelVersion::Small0_6B;

    pub fn short_label(self) -> (label: &'static str)
        ensures
            label@ == version_label(self),
    {
        match self {
            QwenModelVersion::Small0_6B => "0.6B",
            QwenModelVersion::Large1_7B => "1.7B",
        }
    }

    pub fn model_id(self) -> (id: &'static str)
        ensures
            id@ == repository(self),
    {
        match self {
            QwenModelVersion::Small0_6B => "Qwen/Qwen3-TTS-12Hz-0.6B-CustomVoice",
            QwenModelVersion::Large1_7B => "Qwen/Qwen3-TTS-12Hz-1.7B-CustomVoice",
        }
    }

    pub fn model_folder_name(self) -> (name: &'static str)
        ensures
            name@ == folder_name(self),
    {
        match self {
            QwenModelVersion::Small0_6B => "Qwen3-TTS-12Hz-0.6B-CustomVoice",
            QwenModelVersion::Large1_7B => "Qwen3-TTS-12Hz-1.7B-CustomVoice",
        }
    }

    pub fn hugging_face_url(self) -> (url: &'static str)
        ensures
            url@ == (match self {
                QwenModelVersion::Small0_6B => "https://huggingface.co/Qwen/Qwen3-TTS-12Hz-0.6B-CustomVoice"@,
                QwenModelVersion::Large1_7B => "https://huggingface.co/Qwen/Qwen3-TTS-12Hz-1.7B-CustomVoice"@,
            }),
    {
        match self {
            QwenModelVersion::Small0_6B => "https://huggingface.co/Qwen/Qwen3-TTS-12Hz-0.6B-CustomVoice",
            QwenModelVersion::Large1_7B => "https://huggingface.co/Qwen/Qwen3-TTS-12Hz-1.7B-CustomVoice",
        }
    }

    pub fn model_scope_url(self) -> (url: &'static str)
        ensures
            url@ == (match self {
                QwenModelVersion::Small0_6B => "https://modelscope.cn/models/Qwen/Qwen3-TTS-12Hz-0.6B-CustomVoice"@,
                QwenModelVersion::Large1_7B => "https://modelscope.cn/models/Qwen/Qwen3-TTS-12Hz-1.7B-CustomVoice"@,
            }),
    {
        match self {
            QwenModelVersion::Small0_6B => "https://modelscope.cn/models/Qwen/Qwen3-TTS-12Hz-0.6B-CustomVoice",
            QwenModelVersion::Large1_7B => "https://modelscope.cn/models/Qwen/Qwen3-TTS-12Hz-1.7B-CustomVoice",
        }
    }

    pub fn download_size_label(self) -> (label: &'static str)
        ensures
            label@ == size_label(self),
    {
        match self {
            QwenModelVersion::Small0_6B => "2.4 GB",
            QwenModelVersion::Large1_7B => "4.5 GB",
        }
    }

    /// The folder of the model in the cache of the studio.
    pub fn cache_folder(self) -> (name: &'static str)
        ensures
            name@ == (match self {
                QwenModelVersion::Small0_6B => "qwen3-tts-12hz-0.6b-customvoice"@,
                QwenModelVersion::Large1_7B => "qwen3-tts-12hz-1.7b-customvoice"@,
            }),
    {
        match self {
            QwenModelVersion::Small0_6B => "qwen3-tts-12hz-0.6b-customvoice",
            QwenModelVersion::Large1_7B => "qwen3-tts-12hz-1.7b-customvoice",
        }
    }

    /// The folder of the model in the cache of Hugging Face.
    pub fn hugging_face_repo_folder(self) -> (name: &'static str)
        ensures
            name@ == (match self {
                QwenModelVersion::Small0_6B => "models--Qwen--Qwen3-TTS-12Hz-0.6B-CustomVoice/snapshots"@,
                QwenModelVersion::Large1_7B => "models--Qwen--Qwen3-TTS-12Hz-1.7B-CustomVoice/snapshots"@,
            }),
    {
        match self {
            QwenModelVersion::Small0_6B => "models--Qwen--Qwen3-TTS-12Hz-0.6B-CustomVoice/snapshots",
            QwenModelVersion::Large1_7B => "models--Qwen--Qwen3-TTS-12Hz-1.7B-CustomVoice/snapshots",
        }
    }

    pub fn minimum_main_model_size(self) -> (size: u64)
        ensures
            size == weights_size(self),
    {
        match self {
            QwenModelVersion::Small0_6B => 1_500_000_000,
            QwenModelVersion::Large1_7B => 3_500_000_000,
        }
    }

    pub fn expected_hidden_size(self) -> (size: u64)
        ensures
            size == hidden_size(self),
    {
        match self {
            QwenModelVersion::Small0_6B => 1024,
            QwenModelVersion::Large1_7B => 2048,
        }
    }

    /// The other version, with which the decoder and the tokenizer can be shared.
    pub fn other(self) -> (version: QwenModelVersion)
        ensures
            version == other_version(self),
    {
        match self {
            QwenModelVersion::Small0_6B => QwenModelVersion::Large1_7B,
            QwenModelVersion::Large1_7B => QwenModelVersion::Small0_6B,
        }
    }
}

/// The two versions are each other's other one, and nothing by which they are told apart is shared.
pub proof fn versions_are_distinct(version: QwenModelVersion)
    ensures
        other_version(version) != version,
        other_version(other_version(version)) == version,
        repository(other_version(version)) != repository(version),
        folder_name(other_version(version)) != folder_name(version),
        hidden_size(other_version(version)) != hidden_size(version),
        weights_size(other_version(version)) != weights_size(version),
{
    reveal_strlit("Qwen/Qwen3-TTS-12Hz-0.6B-CustomVoice");
    reveal_strlit("Qwen/Qwen3-TTS-12Hz-1.7B-CustomVoice");
    reveal_strlit("Qwen3-TTS-12Hz-0.6B-CustomVoice");
    reveal_strlit("Qwen3-TTS-12Hz-1.7B-CustomVoice");
    assert("Qwen/Qwen3-TTS-12Hz-0.6B-CustomVoice"@[20] != "Qwen/Qwen3-TTS-12Hz-1.7B-CustomVoice"@[20]);
    assert("Qwen3-TTS-12Hz-0.6B-CustomVoice"@[15] != "Qwen3-TTS-12Hz-1.7B-CustomVoice"@[15]);
}

/// The name of a model of a kind among those of its publisher.
pub open spec fn model_name(version: QwenModelVersion, kind: QwenModelKind) -> Seq<char> {
    match kind {
        QwenModelKind::CustomVoice => folder_name(version),
        QwenModelKind::VoiceClone => match version {
            QwenModelVersion::Small0_6B => "Qwen3-TTS-12Hz-0.6B-Base"@,
            QwenModelVersion::Large1_7B => "Qwen3-TTS-12Hz-1.7B-Base"@,
        },
    }
}

/// The repository of a model of a kind.
pub open spec fn model_repository(version: QwenModelVersion, kind: QwenModelKind) -> Seq<char> {
    match kind {
        QwenModelKind::CustomVoice => repository(version),
        QwenModelKind::VoiceClone => match version {
            QwenModelVersion::Small0_6B => "Qwen/Qwen3-TTS-12Hz-0.6B-Base"@,
            QwenModelVersion::Large1_7B => "Qwen/Qwen3-TTS-12Hz-1.7B-Base"@,
        },
    }
}

/// The type by which the configuration of a model tells its kind.
pub open spec fn model_type(kind: QwenModelKind) -> Seq<char> {
    match kind {
        QwenModelKind::CustomVoice => "custom_voice"@,
        QwenModelKind::VoiceClone => "base"@,
    }
}

/// The version and the kind of a model, which together say what is fetched and where it is kept.
#[derive(Clone, Copy, Debug, PartialEq, Eq, Structural)]
pub struct QwenModel {
    pub version: QwenModelVersion,
    pub kind: QwenModelKind,
}

impl QwenModel {
    /// The repository of the model.
    pub fn id(self) -> (id: &'static str)
        ensures
            id@ == model_repository(self.version, self.kind),
    {
        match (self.kind, self.version) {
            (QwenModelKind::CustomVoice, version) => version.model_id(),
            (QwenModelKind::VoiceClone, QwenModelVersion::Small0_6B) => "Qwen/Qwen3-TTS-12Hz-0.6B-Base",
            (QwenModelKind::VoiceClone, QwenModelVersion::Large1_7B) => "Qwen/Qwen3-TTS-12Hz-1.7B-Base",
        }
    }

    /// The name of the model, which is that of its folder.
    pub fn folder_name(self) -> (name: &'static str)
        ensures
            name@ == model_name(self.version, self.kind),
    {
        match (self.kind, self.version) {
            (QwenModelKind::CustomVoice, version) => version.model_folder_name(),
            (QwenModelKind::VoiceClone, QwenModelVersion::Small0_6B) => "Qwen3-TTS-12Hz-0.6B-Base",
            (QwenModelKind::VoiceClone, QwenModelVersion::Large1_7B) => "Qwen3-TTS-12Hz-1.7B-Base",
        }
    }

    /// The page of the model at Hugging Face.
    pub fn hugging_face_url(self) -> (url: String)
        ensures
            url@ == "https://huggingface.co/"@ + model_repository(self.version, self.kind),
    {
        "https://huggingface.co/".to_string().concat(self.id())
    }

    /// The page of the model at ModelScope.
    pub fn model_scope_url(self) -> (url: String)
        ensures
            url@ == "https://modelscope.cn/models/"@ + model_repository(self.version, self.kind),
    {
        "https://modelscope.cn/models/".to_string().concat(self.id())
    }

    /// The folder of the model in the cache of the studio.
    pub fn cache_folder(self) -> (name: &'static str)
        ensures
            name@ == (match (self.kind, self.version) {
                (QwenModelKind::CustomVoice, QwenModelVersion::Small0_6B) => "qwen3-tts-12hz-0.6b-customvoice"@,
                (QwenModelKind::CustomVoice, QwenModelVersion::Large1_7B) => "qwen3-tts-12hz-1.7b-customvoice"@,
                (QwenModelKind::VoiceClone, QwenModelVersion::Small0_6B) => "qwen3-tts-12hz-0.6b-base"@,
                (QwenModelKind::VoiceClone, QwenModelVersion::Large1_7B) => "qwen3-tts-12hz-1.7b-base"@,
            }),
    {
        match (self.kind, self.version) {
            (QwenModelKind::CustomVoice, version) => version.cache_folder(),
            (QwenModelKind::VoiceClone, QwenModelVersion::Small0_6B) => "qwen3-tts-12hz-0.6b-base",
            (QwenModelKind::VoiceClone, QwenModelVersion::Large1_7B) => "qwen3-tts-12hz-1.7b-base",
        }
    }

    /// The folder of the model in the cache of Hugging Face.
    pub fn hugging_face_repo_folder(self) -> (name: String)
        ensures
            name@ == "models--Qwen--"@ + model_name(self.version, self.kind) + "/snapshots"@,
    {
        "models--Qwen--".to_string().concat(self.folder_name()).concat("/snapshots")
    }

    /// The model of the other version and the same kind.
    pub fn other(self) -> (model: QwenModel)
        ensures
            model.version == other_version(self.version),
            model.kind == self.kind,
    {
        QwenModel { version: self.version.other(), kind: self.kind }
    }
}

/// No two models have the same repository or the same name, and no two kinds the same type.
pub proof fn models_are_distinct(first: QwenModel, second: QwenModel)
    requires
        first != second,
    ensures
        model_repository(first.version, first.kind) != model_repository(
            second.version,
            second.kind,
        ),
        model_name(first.version, first.kind) != model_name(second.version, second.kind),
        first.kind != second.kind ==> model_type(first.kind) != model_type(second.kind),
{
    reveal_strlit("Qwen/Qwen3-TTS-12Hz-0.6B-CustomVoice");
    reveal_strlit("Qwen/Qwen3-TTS-12Hz-1.7B-CustomVoice");
    reveal_strlit("Qwen/Qwen3-TTS-12Hz-0.6B-Base");
    reveal_strlit("Qwen/Qwen3-TTS-12Hz-1.7B-Base");
    reveal_strlit("Qwen3-TTS-12Hz-0.6B-CustomVoice");
    reveal_strlit("Qwen3-TTS-12Hz-1.7B-CustomVoice");
    reveal_strlit("Qwen3-TTS-12Hz-0.6B-Base");
    reveal_strlit("Qwen3-TTS-12Hz-1.7B-Base");
    reveal_strlit("custom_voice");
    reveal_strlit("base");
    let repository = model_repository(first.version, first.kind);
    let other_repository = model_repository(second.version, second.kind);
    let name = model_name(first.version, first.kind);
    let other_name = model_name(second.version, second.kind);
    if first.kind == second.kind {
        assert(repository[20] != other_repository[20]);
        assert(name[15] != other_name[15]);
    } else {
        assert(repository.len() != other_repository.len());
        assert(name.len() != other_name.len());
        assert(model_type(first.kind).len() != model_type(second.kind).len());
    }
}

/// How much of a file has been fetched.
#[derive(Debug)]
pub struct DownloadProgress {
    pub file: &'static str,
    pub downloaded_bytes: u64,
    pub total_bytes: u64,
}

/// The voices that the model brings with it.
#[derive(Clone, Copy, Debug, PartialEq, Eq, Structural)]
pub enum QwenVoice {
    Vivian,
    Serena,
    UncleFu,
    Dylan,
    Eric,
    Ryan,
    Aiden,
    OnoAnna,
    Sohee,
}

pub open spec fn voice_id(voice: QwenVoice) -> Seq<char> {
    match voice {
        QwenVoice::Vivian => "Vivian"@,
        QwenVoice::Serena => "Serena"@,
        QwenVoice::UncleFu => "Uncle_Fu"@,
        QwenVoice::Dylan => "Dylan"@,
        QwenVoice::Eric => "Eric"@,
        QwenVoice::Ryan => "Ryan"@,
        QwenVoice::Aiden => "Aiden"@,
        QwenVoice::OnoAnna => "Ono_Anna"@,
        QwenVoice::Sohee => "Sohee"@,
    }
}

pub open spec fn voice_chinese_label(voice: QwenVoice) -> Seq<char> {
    match voice {
        QwenVoice::Vivian => "Vivian · 明亮女声 · 普通话"@,
        QwenVoice::Serena => "Serena · 温柔女声 · 普通话"@,
        QwenVoice::UncleFu => "Uncle Fu · 沉稳男声 · 普通话"@,
        QwenVoice::Dylan => "Dylan · 北京男声 · 北京话"@,
        QwenVoice::Eric => "Eric · 活力男声 · 四川话"@,
        QwenVoice::Ryan => "Ryan · 动感男声 · 英语"@,
        QwenVoice::Aiden => "Aiden · 阳光男声 · 美式英语"@,
        QwenVoice::OnoAnna => "Ono Anna · 活泼女声 · 日语"@,
        QwenVoice::Sohee => "Sohee · 温暖女声 · 韩语"@,
    }
}

pub open spec fn voice_english_label(voice: QwenVoice) -> Seq<char> {
    match voice {
        QwenVoice::Vivian => "Vivian · Bright female · Chinese"@,
        QwenVoice::Serena => "Serena · Warm female · Chinese"@,
        QwenVoice::UncleFu => "Uncle Fu · Mellow male · Chinese"@,
        QwenVoice::Dylan => "Dylan · Young male · Beijing dialect"@,
        QwenVoice::Eric => "Eric · Lively male · Sichuan dialect"@,
        QwenVoice::Ryan => "Ryan · Dynamic male · English"@,
        QwenVoice::Aiden => "Aiden · Sunny male · American English"@,
        QwenVoice::OnoAnna => "Ono Anna · Playful female · Japanese"@,
        QwenVoice::Sohee => "Sohee · Warm female · Korean"@,
    }
}

/// Whether a search matches a voice, given the search and the texts of the voice, all in lower
/// case: the search is empty or stands in one of the texts.
pub open spec fn search_matches(
    query: Seq<char>,
    id: Seq<char>,
    chinese: Seq<char>,
    english: Seq<char>,
) -> bool {
    query.len() == 0 || text::occurs(id, query) || text::occurs(chinese, query) || text::occurs(
        english,
        query,
    )
}

/// Whether a search matches a voice, given the search and the texts of the voice in lower case.
pub fn matches_lowercase(query: &str, id: &str, chinese: &str, english: &str) -> (found: bool)
    ensures
        found == search_matches(query@, id@, chinese@, english@),
{
    if query.is_empty() {
        return true;
    }
    let id = text::chars_of(id);
    let chinese = text::chars_of(chinese);
    let english = text::chars_of(english);
    text::contains(id.as_slice(), query) || text::contains(chinese.as_slice(), query)
        || text::contains(english.as_slice(), query)
}

/// Whether a search finds a voice: a blank one does, and any other does when it stands in one of the
/// texts of the voice, whatever the case of the letters.
pub open spec fn voice_found(voice: QwenVoice, filter: Seq<char>) -> bool {
    text::trimmed(filter).len() == 0 || search_matches(
        text::lowercased(text::trimmed(filter)),
        text::lowercased(voice_id(voice)),
        text::lowercased(voice_chinese_label(voice)),
        text::lowercased(voice_english_label(voice)),
    )
}

/// The voices among the first `count` that a search finds, in the order in which they are shown.
pub open spec fn found_voices(count: nat, filter: Seq<char>) -> Seq<QwenVoice>
    decreases count,
{
    if count == 0 {
        Seq::empty()
    } else {
        let voice = QwenVoice::ALL@[count - 1];
        let before = found_voices((count - 1) as nat, filter);
        if voice_found(voice, filter) {
            before.push(voice)
        } else {
            before
        }
    }
}

/// The voices that a search finds, in the order in which they are shown.
pub fn matching_voices(filter: &str) -> (found: Vec<QwenVoice>)
    ensures
        found@ == found_voices(9, filter@),
{
    let mut found: Vec<QwenVoice> = Vec::new();
    let mut i: usize = 0;
    while i < 9
        invariant
            i <= 9,
            found@ == found_voices(i as nat, filter@),
        decreases 9 - i,
    {
        let voice = QwenVoice::ALL[i];
        if voice.matches(filter) {
            found.push(voice);
        }
        i += 1;
    }
    found
}

impl QwenVoice {
    /// All voices, in the order in which they are shown.
    pub const ALL: [QwenVoice; 9] = [
        QwenVoice::Vivian,
        QwenVoice::Serena,
        QwenVoice::UncleFu,
        QwenVoice::Dylan,
        QwenVoice::Eric,
        QwenVoice::Ryan,
        QwenVoice::Aiden,
        QwenVoice::OnoAnna,
        QwenVoice::Sohee,
    ];

    pub fn id(self) -> (id: &'static str)
        ensures
            id@ == voice_id(self),
    {
        match self {
            QwenVoice::Vivian => "Vivian",
            QwenVoice::Serena => "Serena",
            QwenVoice::UncleFu => "Uncle_Fu",
            QwenVoice::Dylan => "Dylan",
            QwenVoice::Eric => "Eric",
            QwenVoice::Ryan => "Ryan",
            QwenVoice::Aiden => "Aiden",
            QwenVoice::OnoAnna => "Ono_Anna",
            QwenVoice::Sohee => "Sohee",
        }
    }

    pub fn chinese_label(self) -> (label: &'static str)
        ensures
            label@ == voice_chinese_label(self),
    {
        match self {
            QwenVoice::Vivian => "Vivian · 明亮女声 · 普通话",
            QwenVoice::Serena => "Serena · 温柔女声 · 普通话",
            QwenVoice::UncleFu => "Uncle Fu · 沉稳男声 · 普通话",
            QwenVoice::Dylan => "Dylan · 北京男声 · 北京话",
            QwenVoice::Eric => "Eric · 活力男声 · 四川话",
            QwenVoice::Ryan => "Ryan · 动感男声 · 英语",
            QwenVoice::Aiden => "Aiden · 阳光男声 · 美式英语",
            QwenVoice::OnoAnna => "Ono Anna · 活泼女声 · 日语",
            QwenVoice::Sohee => "Sohee · 温暖女声 · 韩语",
        }
    }

    pub fn english_label(self) -> (label: &'static str)
        ensures
            label@ == voice_english_label(self),
    {
        match self {
            QwenVoice::Vivian => "Vivian · Bright female · Chinese",
            QwenVoice::Serena => "Serena · Warm female · Chinese",
            QwenVoice::UncleFu => "Uncle Fu · Mellow male · Chinese",
            QwenVoice::Dylan => "Dylan · Young male · Beijing dialect",
            QwenVoice::Eric => "Eric · Lively male · Sichuan dialect",
            QwenVoice::Ryan => "Ryan · Dynamic male · English",
            QwenVoice::Aiden => "Aiden · Sunny male · American English",
            QwenVoice::OnoAnna => "Ono Anna · Playful female · Japanese",
            QwenVoice::Sohee => "Sohee · Warm female · Korean",
        }
    }

    /// Whether the voice is found with the given search, whatever the case of its letters.
    pub fn matches(self, filter: &str) -> (found: bool)
        ensures
            found == voice_found(self, filter@),
    {
        let chars = text::chars_of(filter);
        let visible = text::trim(chars.as_slice());
        if visible.len() == 0 {
            return true;
        }
        let trimmed = text::string_of(visible);
        let query = text::to_lowercase(trimmed.as_str());
        let id = text::to_lowercase(self.id());
        let chinese = text::to_lowercase(self.chinese_label());
        let english = text::to_lowercase(self.english_label());
        matches_lowercase(query.as_str(), id.as_str(), chinese.as_str(), english.as_str())
    }

    /// The language that the voice speaks by nature.
    pub fn default_language(self) -> (language: QwenSynthesisLanguage)
        ensures
            language == native_language(self),
    {
        match self {
            QwenVoice::OnoAnna => QwenSynthesisLanguage::Japanese,
            QwenVoice::Sohee => QwenSynthesisLanguage::Korean,
            QwenVoice::Ryan => QwenSynthesisLanguage::English,
            QwenVoice::Aiden => QwenSynthesisLanguage::English,
            _ => QwenSynthesisLanguage::Chinese,
        }
    }
}

/// A blank search finds all voices, in the order in which they are shown.
pub proof fn blank_search_finds_all_voices(filter: Seq<char>)
    requires
        text::trimmed(filter).len() == 0,
    ensures
        found_voices(9, filter) == QwenVoice::ALL@,
{
    reveal_with_fuel(found_voices, 10);
    assert(found_voices(9, filter) =~= QwenVoice::ALL@);
}

/// Every voice is among all voices, once.
pub proof fn all_voices_are_listed_once(voice: QwenVoice)
    ensures
        exists|i: int| 0 <= i < 9 && #[trigger] QwenVoice::ALL@[i] == voice,
        forall|i: int, j: int|
            0 <= i < j < 9 ==> #[trigger] QwenVoice::ALL@[i] != #[trigger] QwenVoice::ALL@[j],
{
    let all = QwenVoice::ALL@;
    assert(all[0] == QwenVoice::Vivian && all[1] == QwenVoice::Serena && all[2]
        == QwenVoice::UncleFu && all[3] == QwenVoice::Dylan && all[4] == QwenVoice::Eric && all[5]
        == QwenVoice::Ryan && all[6] == QwenVoice::Aiden && all[7] == QwenVoice::OnoAnna && all[8]
        == QwenVoice::Sohee);
}

/// The language of a voice.
pub open spec fn native_language(voice: QwenVoice) -> QwenSynthesisLanguage {
    match voice {
        QwenVoice::OnoAnna => QwenSynthesisLanguage::Japanese,
        QwenVoice::Sohee => QwenSynthesisLanguage::Korean,
        QwenVoice::Ryan => QwenSynthesisLanguage::English,
        QwenVoice::Aiden => QwenSynthesisLanguage::English,
        _ => QwenSynthesisLanguage::Chinese,
    }
}

/// The language that the model is told. It is chosen once for a whole preview, article or subtitle
/// track, so that a voice does not change its accent from one cue to the next.
#[derive(Clone, Copy, Debug, PartialEq, Eq, Structural)]
pub enum QwenSynthesisLanguage {
    Chinese,
    English,
    Japanese,
    Korean,
}

pub open spec fn is_han_char(c: char) -> bool {
    ('\u{3400}' <= c <= '\u{4DBF}') || ('\u{4E00}' <= c <= '\u{9FFF}') || ('\u{F900}' <= c
        <= '\u{FAFF}')
}

pub open spec fn is_kana_char(c: char) -> bool {
    ('\u{3040}' <= c <= '\u{30FF}') || ('\u{31F0}' <= c <= '\u{31FF}')
}

pub open spec fn is_hangul_char(c: char) -> bool {
    ('\u{1100}' <= c <= '\u{11FF}') || ('\u{3130}' <= c <= '\u{318F}') || ('\u{AC00}' <= c
        <= '\u{D7AF}')
}

pub open spec fn is_latin_char(c: char) -> bool {
    ('A' <= c <= 'Z') || ('a' <= c <= 'z')
}

pub fn is_han(c: char) -> (han: bool)
    ensures
        han == is_han_char(c),
{
    ('\u{3400}' <= c && c <= '\u{4DBF}') || ('\u{4E00}' <= c && c <= '\u{9FFF}') || ('\u{F900}' <= c
        && c <= '\u{FAFF}')
}

pub fn is_japanese_kana(c: char) -> (kana: bool)
    ensures
        kana == is_kana_char(c),
{
    ('\u{3040}' <= c && c <= '\u{30FF}') || ('\u{31F0}' <= c && c <= '\u{31FF}')
}

pub fn is_hangul(c: char) -> (hangul: bool)
    ensures
        hangul == is_hangul_char(c),
{
    ('\u{1100}' <= c && c <= '\u{11FF}') || ('\u{3130}' <= c && c <= '\u{318F}') || ('\u{AC00}' <= c
        && c <= '\u{D7AF}')
}

/// Which scripts occur in some texts.
#[derive(Clone, Copy, Debug, PartialEq, Eq, Structural)]
pub struct Scripts {
    pub han: bool,
    pub kana: bool,
    pub hangul: bool,
    pub latin: bool,
}

/// The scripts of one text.
pub open spec fn scripts_of(s: Seq<char>) -> Scripts {
    Scripts {
        han: exists|i: int| 0 <= i < s.len() && is_han_char(#[trigger] s[i]),
        kana: exists|i: int| 0 <= i < s.len() && is_kana_char(#[trigger] s[i]),
        hangul: exists|i: int| 0 <= i < s.len() && is_hangul_char(#[trigger] s[i]),
        latin: exists|i: int| 0 <= i < s.len() && is_latin_char(#[trigger] s[i]),
    }
}

/// The scripts of two texts together.
pub open spec fn both_scripts(a: Scripts, b: Scripts) -> Scripts {
    Scripts {
        han: a.han || b.han,
        kana: a.kana || b.kana,
        hangul: a.hangul || b.hangul,
        latin: a.latin || b.latin,
    }
}

/// The scripts of all texts.
pub open spec fn all_scripts(texts: Seq<Seq<char>>) -> Scripts
    decreases texts.len(),
{
    if texts.len() == 0 {
        Scripts { han: false, kana: false, hangul: false, latin: false }
    } else {
        both_scripts(all_scripts(texts.drop_last()), scripts_of(texts.last()))
    }
}

/// The language of texts with the given scripts. Japanese and Korean are told by scripts of their
/// own, since both may hold Chinese characters too; one Chinese character makes a whole track
/// Chinese; and Latin letters alone make it English. Texts with none of these are spoken in the
/// given language.
pub open spec fn language_of(scripts: Scripts, otherwise: QwenSynthesisLanguage) -> QwenSynthesisLanguage {
    if scripts.kana {
        QwenSynthesisLanguage::Japanese
    } else if scripts.hangul {
        QwenSynthesisLanguage::Korean
    } else if scripts.han {
        QwenSynthesisLanguage::Chinese
    } else if scripts.latin {
        QwenSynthesisLanguage::English
    } else {
        otherwise
    }
}

/// The texts that a list of string slices stands for.
pub open spec fn str_texts(texts: Seq<&str>) -> Seq<Seq<char>> {
    Seq::new(texts.len(), |i: int| texts[i]@)
}

fn text_scripts(s: &[char]) -> (scripts: Scripts)
    ensures
        scripts == scripts_of(s@),
{
    let mut scripts = Scripts { han: false, kana: false, hangul: false, latin: false };
    let mut i: usize = 0;
    while i < s.len()
        invariant
            i <= s.len(),
            scripts.han <==> exists|k: int| 0 <= k < i && is_han_char(#[trigger] s@[k]),
            scripts.kana <==> exists|k: int| 0 <= k < i && is_kana_char(#[trigger] s@[k]),
            scripts.hangul <==> exists|k: int| 0 <= k < i && is_hangul_char(#[trigger] s@[k]),
            scripts.latin <==> exists|k: int| 0 <= k < i && is_latin_char(#[trigger] s@[k]),
        decreases s.len() - i,
    {
        let c = s[i];
        assert(s@[i as int] == c);
        scripts = Scripts {
            han: scripts.han || is_han(c),
            kana: scripts.kana || is_japanese_kana(c),
            hangul: scripts.hangul || is_hangul(c),
            latin: scripts.latin || ('A' <= c && c <= 'Z') || ('a' <= c && c <= 'z'),
        };
        i += 1;
    }
    scripts
}

fn track_scripts(texts: &[&str]) -> (scripts: Scripts)
    ensures
        scripts == all_scripts(str_texts(texts@)),
{
    let ghost all = str_texts(texts@);
    let mut scripts = Scripts { han: false, kana: false, hangul: false, latin: false };
    let mut i: usize = 0;
    while i < texts.len()
        invariant
            i <= texts.len(),
            all == str_texts(texts@),
            scripts == all_scripts(all.take(i as int)),
        decreases texts.len() - i,
    {
        assert(all.take(i as int + 1).drop_last() == all.take(i as int));
        assert(all.take(i as int + 1).last() == texts@[i as int]@);
        let chars = text::chars_of(texts[i]);
        let more = text_scripts(chars.as_slice());
        scripts = Scripts {
            han: scripts.han || more.han,
            kana: scripts.kana || more.kana,
            hangul: scripts.hangul || more.hangul,
            latin: scripts.latin || more.latin,
        };
        i += 1;
    }
    assert(all.take(i as int) == all);
    scripts
}

fn choose_language(scripts: Scripts, otherwise: QwenSynthesisLanguage) -> (language:
    QwenSynthesisLanguage)
    ensures
        language == language_of(scripts, otherwise),
{
    if scripts.kana {
        QwenSynthesisLanguage::Japanese
    } else if scripts.hangul {
        QwenSynthesisLanguage::Korean
    } else if scripts.han {
        QwenSynthesisLanguage::Chinese
    } else if scripts.latin {
        QwenSynthesisLanguage::English
    } else {
        otherwise
    }
}

/// The one language in which all of the texts are spoken.
pub fn synthesis_language(texts: &[&str], voice: QwenVoice) -> (language: QwenSynthesisLanguage)
    ensures
        language == language_of(all_scripts(str_texts(texts@)), native_language(voice)),
{
    choose_language(track_scripts(texts), voice.default_language())
}

/// A script occurs in a list of texts when it occurs in one of them.
proof fn lemma_all_scripts(texts: Seq<Seq<char>>, i: int)
    requires
        0 <= i < texts.len(),
    ensures
        scripts_of(texts[i]).han ==> all_scripts(texts).han,
        scripts_of(texts[i]).kana ==> all_scripts(texts).kana,
        scripts_of(texts[i]).hangul ==> all_scripts(texts).hangul,
        scripts_of(texts[i]).latin ==> all_scripts(texts).latin,
    decreases texts.len(),
{
    if i < texts.len() - 1 {
        assert(texts.drop_last()[i] == texts[i]);
        lemma_all_scripts(texts.drop_last(), i);
    }
}

/// One cue with Chinese characters makes a track Chinese for every voice, unless some cue holds
/// Japanese or Korean letters.
pub proof fn one_chinese_cue_decides_the_track(
    texts: Seq<Seq<char>>,
    i: int,
    otherwise: QwenSynthesisLanguage,
)
    requires
        0 <= i < texts.len(),
        scripts_of(texts[i]).han,
        !all_scripts(texts).kana,
        !all_scripts(texts).hangul,
    ensures
        language_of(all_scripts(texts), otherwise) == QwenSynthesisLanguage::Chinese,
{
    lemma_all_scripts(texts, i);
}

/// An ASCII punctuation character.
pub open spec fn is_ascii_punctuation_char(c: char) -> bool {
    ('!' <= c <= '/') || (':' <= c <= '@') || ('[' <= c <= '`') || ('{' <= c <= '~')
}

/// A punctuation mark at which a speaker pauses.
pub open spec fn is_pause(c: char) -> bool {
    is_ascii_punctuation_char(c) || c == '，' || c == '。' || c == '！' || c == '？' || c == '；'
        || c == '：' || c == '、' || c == '…'
}

pub open spec fn is_cjk(c: char) -> bool {
    is_han_char(c) || is_kana_char(c) || is_hangul_char(c)
}

/// The number of Chinese, Japanese and Korean characters.
pub open spec fn cjk_count(s: Seq<char>) -> nat
    decreases s.len(),
{
    if s.len() == 0 {
        0
    } else {
        cjk_count(s.drop_last()) + (if is_cjk(s.last()) {
            1nat
        } else {
            0
        })
    }
}

/// The number of pauses.
pub open spec fn pause_count(s: Seq<char>) -> nat
    decreases s.len(),
{
    if s.len() == 0 {
        0
    } else {
        pause_count(s.drop_last()) + (if is_pause(s.last()) {
            1nat
        } else {
            0
        })
    }
}

/// A Latin word begins at a position.
pub open spec fn word_begins(s: Seq<char>, i: int) -> bool {
    text::is_ascii_word(s[i]) && (i == 0 || !text::is_ascii_word(s[i - 1]))
}

/// The number of Latin words.
pub open spec fn latin_word_count(s: Seq<char>) -> nat
    decreases s.len(),
{
    if s.len() == 0 {
        0
    } else {
        latin_word_count(s.drop_last()) + (if word_begins(s, s.len() - 1) {
            1nat
        } else {
            0
        })
    }
}

/// The number of audio frames that are reserved for a text: enough to speak it slowly, and at
/// most a fixed number.
pub open spec fn frame_budget(s: Seq<char>) -> int {
    let wanted = cjk_count(s) * 5 + latin_word_count(s) * 10 + pause_count(s) * 2 + 64;
    if wanted < 128 {
        128
    } else if wanted > 1_024 {
        1_024
    } else {
        wanted as int
    }
}

fn pause(c: char) -> (found: bool)
    ensures
        found == is_pause(c),
{
    ('!' <= c && c <= '/') || (':' <= c && c <= '@') || ('[' <= c && c <= '`') || ('{' <= c && c
        <= '~') || c == '，' || c == '。' || c == '！' || c == '？' || c == '；' || c == '：' || c
        == '、' || c == '…'
}

/// The number of audio frames that are reserved for a text when no more than `limit` are wanted.
pub fn limited_frame_budget(s: &str, limit: usize) -> (frames: usize)
    ensures
        frames == (if frame_budget(s@) <= limit {
            frame_budget(s@) as int
        } else {
            limit as int
        }),
{
    let frames = synthesis_frame_budget(s);
    if frames <= limit {
        frames
    } else {
        limit
    }
}

/// The number of audio frames that are reserved for a text.
pub fn synthesis_frame_budget(s: &str) -> (frames: usize)
    ensures
        frames == frame_budget(s@),
        128 <= frames <= 1_024,
{
    let chars = text::chars_of(s);
    let mut cjk: usize = 0;
    let mut words: usize = 0;
    let mut pauses: usize = 0;
    let mut i: usize = 0;
    while i < chars.len()
        invariant
            i <= chars.len(),
            chars@ == s@,
            cjk == cjk_count(s@.take(i as int)),
            words == latin_word_count(s@.take(i as int)),
            pauses == pause_count(s@.take(i as int)),
            cjk <= i,
            words <= i,
            pauses <= i,
        decreases chars.len() - i,
    {
        let c = chars[i];
        let ghost after = s@.take(i as int + 1);
        assert(after.drop_last() == s@.take(i as int));
        assert(after.last() == c);
        assert(word_begins(after, i as int) == word_begins(s@, i as int));
        if is_han(c) || is_japanese_kana(c) || is_hangul(c) {
            cjk += 1;
        }
        if text::is_ascii_alphanumeric(c) && (i == 0 || !text::is_ascii_alphanumeric(chars[i - 1])) {
            words += 1;
        }
        if pause(c) {
            pauses += 1;
        }
        i += 1;
    }
    assert(s@.take(i as int) == s@);
    let wanted: u128 = cjk as u128 * 5 + words as u128 * 10 + pauses as u128 * 2 + 64;
    if wanted < 128 {
        128
    } else if wanted > 1_024 {
        1_024
    } else {
        wanted as usize
    }
}

/// Whether an error says that the graphics memory of a Mac is exhausted.
pub open spec fn tells_metal_buffer(error: Seq<char>) -> bool {
    text::occurs(text::ascii_lowered(error), "metal"@) && text::occurs(
        text::ascii_lowered(error),
        "buffer"@,
    )
}

pub fn is_metal_buffer_error(error: &str) -> (found: bool)
    ensures
        found == tells_metal_buffer(error@),
{
    let chars = text::chars_of(error);
    let lower = text::to_ascii_lowercase(chars.as_slice());
    text::contains(lower.as_slice(), "metal") && text::contains(lower.as_slice(), "buffer")
}

/// What is done after a synthesis has failed.
#[derive(Debug)]
pub enum SynthesisStep {
    /// Try once more with fewer frames.
    Retry { frames: usize },
    /// Tell the user.
    Fail(String),
}

/// What is done after the first attempt has failed: exhausted graphics memory is worth a second
/// attempt with half of the frames, any other error is not.
pub fn after_first_failure(frames: usize, error: &str) -> (step: SynthesisStep)
    ensures
        match step {
            SynthesisStep::Retry { frames: fewer } => tells_metal_buffer(error@) && fewer == (
            if frames / 2 >= 128 {
                (frames / 2) as int
            } else {
                128
            }),
            SynthesisStep::Fail(message) => !tells_metal_buffer(error@) && message@
                == "Qwen3-TTS 本地合成失败："@ + error@,
        },
{
    if is_metal_buffer_error(error) {
        let half = frames / 2;
        SynthesisStep::Retry {
            frames: if half >= 128 {
                half
            } else {
                128
            },
        }
    } else {
        SynthesisStep::Fail("Qwen3-TTS 本地合成失败：".to_string().concat(error))
    }
}

/// What the user is told when the second attempt has failed too.
pub fn second_failure(error: &str) -> (message: String)
    ensures
        message@
            == "Qwen3-TTS 本地合成失败：Apple Metal 内存不足，缩小缓存重试后仍失败。请关闭占用内存较大的程序，或改用 Qwen 0.6B 后重试。详情："@
            + error@,
{
    "Qwen3-TTS 本地合成失败：Apple Metal 内存不足，缩小缓存重试后仍失败。请关闭占用内存较大的程序，或改用 Qwen 0.6B 后重试。详情：".to_string().concat(error)
}

/// The longest part into which a long text is split, in characters.
pub const MAX_PART_CHARACTERS: usize = 260;

/// A character behind which a long text may be split.
pub open spec fn is_break(c: char) -> bool {
    c == '。' || c == '！' || c == '？' || c == '；' || c == '.' || c == '!' || c == '?' || c == ';'
        || c == '\n'
}

fn break_char(c: char) -> (found: bool)
    ensures
        found == is_break(c),
{
    c == '。' || c == '！' || c == '？' || c == '；' || c == '.' || c == '!' || c == '?' || c == ';'
        || c == '\n'
}

/// Whether a part of `count` characters ends with its last character `c`.
pub open spec fn part_ends(c: char, count: int) -> bool {
    (is_break(c) && count >= 40) || count >= MAX_PART_CHARACTERS
}

/// The end of the part that begins at `start`, looked for from `at` on.
pub open spec fn part_end(s: Seq<char>, start: int, at: int) -> Option<int>
    decreases s.len() - at,
{
    if at >= s.len() {
        None
    } else if part_ends(s[at], at + 1 - start) {
        Some(at + 1)
    } else {
        part_end(s, start, at + 1)
    }
}

/// The parts of a text from `start` on.
pub open spec fn parts_from(s: Seq<char>, start: int) -> Seq<Seq<char>>
    decreases s.len() - start,
    via parts_decreases
{
    match part_end(s, start, start) {
        None => asr::visible_piece(s.skip(start)),
        Some(end) => asr::visible_piece(s.subrange(start, end)) + parts_from(s, end),
    }
}

#[via_fn]
proof fn parts_decreases(s: Seq<char>, start: int) {
    lemma_part_end(s, start, start);
}

/// The parts in which a long text is spoken.
pub open spec fn synthesis_parts(s: Seq<char>) -> Seq<Seq<char>> {
    parts_from(text::trimmed(s), 0)
}

proof fn lemma_part_end(s: Seq<char>, start: int, at: int)
    requires
        start <= at,
        at - start < MAX_PART_CHARACTERS,
    ensures
        match part_end(s, start, at) {
            Some(end) => at < end <= s.len() && end - start <= MAX_PART_CHARACTERS,
            None => s.len() - start < MAX_PART_CHARACTERS || s.len() <= at,
        },
    decreases s.len() - at,
{
    if at < s.len() && !part_ends(s[at], at + 1 - start) {
        lemma_part_end(s, start, at + 1);
    }
}

fn push_nonempty(parts: &mut Vec<String>, piece: &[char])
    ensures
        asr::strings_of(final(parts)@) == asr::strings_of(old(parts)@) + asr::visible_piece(piece@),
{
    let trimmed = text::trim(piece);
    if trimmed.len() > 0 {
        let ghost before = parts@;
        parts.push(text::string_of(trimmed));
        assert(asr::strings_of(parts@) == asr::strings_of(before) + seq![trimmed@]);
    } else {
        assert(asr::strings_of(parts@) + Seq::<Seq<char>>::empty() == asr::strings_of(parts@));
    }
}

/// Splits a long text into parts that the model speaks reliably: behind a line break or the end of
/// a sentence where it can, and at the length limit where it must.
pub fn split_for_synthesis(s: &str) -> (parts: Vec<String>)
    ensures
        asr::strings_of(parts@) == synthesis_parts(s@),
{
    let chars = text::chars_of(s);
    let s = text::trim(chars.as_slice());
    let mut parts: Vec<String> = Vec::new();
    let mut start: usize = 0;
    let mut at: usize = 0;
    while at < s.len()
        invariant
            start <= at <= s.len(),
            parts_from(s@, 0) == asr::strings_of(parts@) + parts_from(s@, start as int),
            part_end(s@, start as int, start as int) == part_end(s@, start as int, at as int),
        decreases s.len() - at,
    {
        let c = s[at];
        let count: usize = at + 1 - start;
        at += 1;
        if (break_char(c) && count >= 40) || count >= MAX_PART_CHARACTERS {
            let ghost before = parts@;
            let piece = text::part(s, start, at);
            push_nonempty(&mut parts, piece);
            assert(asr::strings_of(parts@) + parts_from(s@, at as int) == asr::strings_of(before) + (
            asr::visible_piece(piece@) + parts_from(s@, at as int)));
            start = at;
        }
    }
    let rest = text::part(s, start, s.len());
    assert(rest@ == s@.skip(start as int));
    push_nonempty(&mut parts, rest);
    parts
}

proof fn lemma_parts(s: Seq<char>, start: int)
    requires
        0 <= start <= s.len(),
    ensures
        asr_laws::all_ink(parts_from(s, start)) == asr_laws::ink(s.skip(start)),
        forall|i: int|
            0 <= i < parts_from(s, start).len() ==> 0 < (#[trigger] parts_from(s, start)[i]).len()
                <= MAX_PART_CHARACTERS,
    decreases s.len() - start,
{
    lemma_part_end(s, start, start);
    match part_end(s, start, start) {
        None => {
            let rest = s.skip(start);
            asr_laws::lemma_visible_piece_ink(rest);
            text::lemma_trimmed_len(rest);
            text::lemma_trimmed_len(text::trimmed_start(rest));
        },
        Some(end) => {
            lemma_parts(s, end);
            let head = s.subrange(start, end);
            let first = asr::visible_piece(head);
            let rest = parts_from(s, end);
            asr_laws::lemma_visible_piece_ink(head);
            asr_laws::lemma_all_ink_sum(first, rest);
            assert(s.skip(start) == head + s.skip(end));
            asr_laws::lemma_ink_sum(head, s.skip(end));
            text::lemma_trimmed_len(head);
            text::lemma_trimmed_len(text::trimmed_start(head));
            let all = parts_from(s, start);
            assert forall|i: int| 0 <= i < all.len() implies 0 < (#[trigger] all[i]).len()
                <= MAX_PART_CHARACTERS by {
                if i >= first.len() {
                    assert(all[i] == rest[i - first.len()]);
                }
            }
        },
    }
}

/// Splitting a long text loses none of its visible characters, and no part is empty or longer than
/// the limit.
pub proof fn long_text_is_split_without_loss(s: Seq<char>)
    ensures
        asr_laws::all_ink(synthesis_parts(s)) == asr_laws::ink(s),
        forall|i: int|
            0 <= i < synthesis_parts(s).len() ==> 0 < (#[trigger] synthesis_parts(s)[i]).len()
                <= MAX_PART_CHARACTERS,
{
    let trimmed = text::trimmed(s);
    lemma_parts(trimmed, 0);
    assert(trimmed.skip(0) == trimmed);
    asr_laws::trimming_keeps_visible_characters(s);
}

/// What `serde_json` makes of a document at a JSON pointer: the string that stands there, when one
/// does, or the text of the error when the bytes are no JSON.
pub uninterp spec fn json_text(bytes: Seq<u8>, pointer: Seq<char>) -> Result<
    Option<Seq<char>>,
    Seq<char>,
>;

/// Parses bytes with `serde_json::from_slice` into a `serde_json::Value` and looks up a string in
/// it with `Value::pointer` and `Value::as_str`. The result depends on the bytes and the pointer
/// alone.
#[verifier::external_body]
fn json_text_at(bytes: &[u8], pointer: &str) -> (found: Result<Option<String>, String>)
    ensures
        match found {
            Ok(Some(value)) => json_text(bytes@, pointer@) == Ok::<Option<Seq<char>>, Seq<char>>(
                Some(value@),
            ),
            Ok(None) => json_text(bytes@, pointer@) == Ok::<Option<Seq<char>>, Seq<char>>(None),
            Err(error) => json_text(bytes@, pointer@) == Err::<Option<Seq<char>>, Seq<char>>(error@),
        },
{
    match serde_json::from_slice::<serde_json::Value>(bytes) {
        Ok(value) => {
            let found = value.pointer(pointer).and_then(|found| found.as_str());
            Ok(found.map(|found| found.to_owned()))
        },
        Err(error) => Err(error.to_string()),
    }
}

/// What `serde_json` makes of a document at a JSON pointer: the unsigned number that stands there,
/// when one does, or the text of the error when the bytes are no JSON.
pub uninterp spec fn json_number(bytes: Seq<u8>, pointer: Seq<char>) -> Result<
    Option<u64>,
    Seq<char>,
>;

/// Parses bytes with `serde_json::from_slice` into a `serde_json::Value` and looks up a number in
/// it with `Value::pointer` and `Value::as_u64`. The result depends on the bytes and the pointer
/// alone.
#[verifier::external_body]
fn json_number_at(bytes: &[u8], pointer: &str) -> (found: Result<Option<u64>, String>)
    ensures
        match found {
            Ok(value) => json_number(bytes@, pointer@) == Ok::<Option<u64>, Seq<char>>(value),
            Err(error) => json_number(bytes@, pointer@) == Err::<Option<u64>, Seq<char>>(error@),
        },
{
    match serde_json::from_slice::<serde_json::Value>(bytes) {
        Ok(value) => Ok(value.pointer(pointer).and_then(|found| found.as_u64())),
        Err(error) => Err(error.to_string()),
    }
}

/// What the configuration of a model says of its type and its width.
#[derive(Debug)]
pub struct ModelConfig {
    pub tts_model_type: Option<String>,
    pub hidden_size: Option<u64>,
}

/// The version that a width belongs to, as the user is told it.
pub open spec fn detected_version(width: u64) -> Seq<char> {
    if width == hidden_size(QwenModelVersion::Small0_6B) {
        "0.6B"@
    } else if width == hidden_size(QwenModelVersion::Large1_7B) {
        "1.7B"@
    } else {
        "未知版本"@
    }
}

/// What the user is told of a folder that holds another kind of model.
pub open spec fn kind_error(kind: QwenModelKind) -> Seq<char> {
    match kind {
        QwenModelKind::CustomVoice => "所选目录不是 Qwen3-TTS CustomVoice 模型。"@,
        QwenModelKind::VoiceClone => "所选目录不是 Qwen3-TTS Base 模型。"@,
    }
}

/// What is wrong with a model of the given type and width, when the given version and kind are
/// selected.
pub open spec fn config_error(
    found_type: Option<Seq<char>>,
    width: Option<u64>,
    version: QwenModelVersion,
    kind: QwenModelKind,
) -> Option<Seq<char>> {
    if found_type != Some(model_type(kind)) {
        Some(kind_error(kind))
    } else {
        match width {
            None => Some("config.json 缺少 talker_config.hidden_size。"@),
            Some(width) => if width == hidden_size(version) {
                None
            } else {
                Some(
                    "模型版本不匹配：当前选择 "@ + version_label(version) + "，但文件夹内检测为 "@
                        + detected_version(width) + "。"@,
                )
            },
        }
    }
}

/// The text of an optional string.
pub open spec fn optional_text(value: Option<String>) -> Option<Seq<char>> {
    match value {
        Some(value) => Some(value@),
        None => None,
    }
}

/// Checks what the configuration of a model with voices of its own says against the selected
/// version.
pub fn validate_model_config_value(config: &ModelConfig, version: QwenModelVersion) -> (checked: Result<
    (),
    String,
>)
    ensures
        indextts::is_check(
            checked,
            config_error(
                optional_text(config.tts_model_type),
                config.hidden_size,
                version,
                QwenModelKind::CustomVoice,
            ),
        ),
{
    validate_config_of_kind(config, version, QwenModelKind::CustomVoice)
}

/// Checks what the configuration of a model says against the selected version and kind.
pub fn validate_config_of_kind(
    config: &ModelConfig,
    version: QwenModelVersion,
    kind: QwenModelKind,
) -> (checked: Result<(), String>)
    ensures
        indextts::is_check(
            checked,
            config_error(optional_text(config.tts_model_type), config.hidden_size, version, kind),
        ),
{
    let (wanted, other_kind) = match kind {
        QwenModelKind::CustomVoice => (
            "custom_voice",
            "所选目录不是 Qwen3-TTS CustomVoice 模型。",
        ),
        QwenModelKind::VoiceClone => ("base", "所选目录不是 Qwen3-TTS Base 模型。"),
    };
    let is_of_kind = match &config.tts_model_type {
        Some(found) => {
            let chars = text::chars_of(found.as_str());
            text::same_text(chars.as_slice(), wanted)
        },
        None => false,
    };
    if !is_of_kind {
        return Err(other_kind.to_string());
    }
    match config.hidden_size {
        None => Err("config.json 缺少 talker_config.hidden_size。".to_string()),
        Some(width) => {
            if width == version.expected_hidden_size() {
                return Ok(());
            }
            let detected = if width == QwenModelVersion::Small0_6B.expected_hidden_size() {
                "0.6B"
            } else if width == QwenModelVersion::Large1_7B.expected_hidden_size() {
                "1.7B"
            } else {
                "未知版本"
            };
            Err(
                "模型版本不匹配：当前选择 ".to_string().concat(version.short_label()).concat(
                    "，但文件夹内检测为 ",
                ).concat(detected).concat("。"),
            )
        },
    }
}

/// What is wrong with the configuration file of a model.
pub open spec fn config_file_error(
    bytes: Seq<u8>,
    version: QwenModelVersion,
    kind: QwenModelKind,
) -> Option<Seq<char>> {
    match (
        json_text(bytes, "/tts_model_type"@),
        json_number(bytes, "/talker_config/hidden_size"@),
    ) {
        (Err(error), _) => Some("模型 config.json 格式无效："@ + error),
        (Ok(_), Err(error)) => Some("模型 config.json 格式无效："@ + error),
        (Ok(found_type), Ok(width)) => config_error(found_type, width, version, kind),
    }
}

/// Checks the configuration file of a model against the selected version and kind.
pub fn validate_model_config(bytes: &[u8], version: QwenModelVersion, kind: QwenModelKind) -> (checked: Result<
    (),
    String,
>)
    ensures
        indextts::is_check(checked, config_file_error(bytes@, version, kind)),
{
    let tts_model_type = match json_text_at(bytes, "/tts_model_type") {
        Ok(value) => value,
        Err(error) => {
            return Err("模型 config.json 格式无效：".to_string().concat(error.as_str()));
        },
    };
    let hidden_size = match json_number_at(bytes, "/talker_config/hidden_size") {
        Ok(value) => value,
        Err(error) => {
            return Err("模型 config.json 格式无效：".to_string().concat(error.as_str()));
        },
    };
    validate_config_of_kind(&ModelConfig { tts_model_type, hidden_size }, version, kind)
}

} // verus!
