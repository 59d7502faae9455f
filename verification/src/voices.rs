//! The voices of the online service: how they are named, described and found.
use vstd::prelude::*;

use crate::text;
use crate::ui_text::UiLanguage;

verus! {

/// A voice of the online service.
#[derive(Debug)]
pub struct VoiceChoice {
    pub short_name: String,
    pub locale: String,
    pub gender: String,
    pub friendly_name: Option<String>,
}

/// The content of a voice.
#[verifier::ext_equal]
pub struct Voice {
    pub short_name: Seq<char>,
    pub locale: Seq<char>,
    pub gender: Seq<char>,
    pub friendly_name: Option<Seq<char>>,
}

impl View for VoiceChoice {
    type V = Voice;

    open spec fn view(&self) -> Voice {
        Voice {
            short_name: self.short_name@,
            locale: self.locale@,
            gender: self.gender@,
            friendly_name: match self.friendly_name {
                Some(name) => Some(name@),
                None => None,
            },
        }
    }
}

impl Clone for VoiceChoice {
    fn clone(&self) -> (copy: Self)
        ensures
            copy@ == self@,
    {
        VoiceChoice {
            short_name: self.short_name.clone(),
            locale: self.locale.clone(),
            gender: self.gender.clone(),
            friendly_name: match &self.friendly_name {
                Some(name) => Some(name.clone()),
                None => None,
            },
        }
    }
}

/// The Chinese names of the Chinese voices.
pub const CHINESE_VOICE_NAMES: [(&'static str, &'static str); 14] = [
    ("zh-CN-XiaoxiaoNeural", "晓晓"),
    ("zh-CN-XiaoyiNeural", "晓伊"),
    ("zh-CN-YunjianNeural", "云健"),
    ("zh-CN-YunxiNeural", "云希"),
    ("zh-CN-YunxiaNeural", "云夏"),
    ("zh-CN-YunyangNeural", "云扬"),
    ("zh-CN-liaoning-XiaobeiNeural", "晓北"),
    ("zh-CN-shaanxi-XiaoniNeural", "晓妮"),
    ("zh-HK-HiuGaaiNeural", "晓佳"),
    ("zh-HK-HiuMaanNeural", "晓曼"),
    ("zh-HK-WanLungNeural", "云龙"),
    ("zh-TW-HsiaoChenNeural", "晓臻"),
    ("zh-TW-HsiaoYuNeural", "晓雨"),
    ("zh-TW-YunJheNeural", "云哲"),
];

/// The Chinese names of languages, by their codes.
pub const CHINESE_LANGUAGE_NAMES: [(&'static str, &'static str); 77] = [
    ("af", "南非荷兰语"),
    ("am", "阿姆哈拉语"),
    ("ar", "阿拉伯语"),
    ("az", "阿塞拜疆语"),
    ("bg", "保加利亚语"),
    ("bn", "孟加拉语"),
    ("bs", "波斯尼亚语"),
    ("ca", "加泰罗尼亚语"),
    ("cs", "捷克语"),
    ("cy", "威尔士语"),
    ("da", "丹麦语"),
    ("de", "德语"),
    ("el", "希腊语"),
    ("en", "英语"),
    ("es", "西班牙语"),
    ("et", "爱沙尼亚语"),
    ("eu", "巴斯克语"),
    ("fa", "波斯语"),
    ("fi", "芬兰语"),
    ("fil", "菲律宾语"),
    ("fr", "法语"),
    ("ga", "爱尔兰语"),
    ("gl", "加利西亚语"),
    ("gu", "古吉拉特语"),
    ("he", "希伯来语"),
    ("hi", "印地语"),
    ("hr", "克罗地亚语"),
    ("hu", "匈牙利语"),
    ("id", "印度尼西亚语"),
    ("is", "冰岛语"),
    ("it", "意大利语"),
    ("ja", "日语"),
    ("jv", "爪哇语"),
    ("ka", "格鲁吉亚语"),
    ("kk", "哈萨克语"),
    ("km", "高棉语"),
    ("kn", "卡纳达语"),
    ("ko", "韩语"),
    ("lo", "老挝语"),
    ("lt", "立陶宛语"),
    ("lv", "拉脱维亚语"),
    ("mk", "马其顿语"),
    ("ml", "马拉雅拉姆语"),
    ("mn", "蒙古语"),
    ("mr", "马拉地语"),
    ("ms", "马来语"),
    ("mt", "马耳他语"),
    ("my", "缅甸语"),
    ("nb", "挪威语"),
    ("ne", "尼泊尔语"),
    ("nl", "荷兰语"),
    ("pl", "波兰语"),
    ("ps", "普什图语"),
    ("pt", "葡萄牙语"),
    ("ro", "罗马尼亚语"),
    ("ru", "俄语"),
    ("si", "僧伽罗语"),
    ("sk", "斯洛伐克语"),
    ("sl", "斯洛文尼亚语"),
    ("so", "索马里语"),
    ("sq", "阿尔巴尼亚语"),
    ("sr", "塞尔维亚语"),
    ("su", "巽他语"),
    ("sv", "瑞典语"),
    ("sw", "斯瓦希里语"),
    ("ta", "泰米尔语"),
    ("te", "泰卢固语"),
    ("th", "泰语"),
    ("tr", "土耳其语"),
    ("uk", "乌克兰语"),
    ("ur", "乌尔都语"),
    ("uz", "乌兹别克语"),
    ("vi", "越南语"),
    ("wuu", "吴语"),
    ("yue", "粤语"),
    ("zh", "中文"),
    ("zu", "祖鲁语"),
];

/// The Chinese names of regions, by their codes.
pub const CHINESE_REGION_NAMES: [(&'static str, &'static str); 28] = [
    ("AR", "阿根廷"),
    ("AT", "奥地利"),
    ("AU", "澳大利亚"),
    ("BE", "比利时"),
    ("BR", "巴西"),
    ("CA", "加拿大"),
    ("CH", "瑞士"),
    ("CN", "中国大陆"),
    ("DE", "德国"),
    ("ES", "西班牙"),
    ("FR", "法国"),
    ("GB", "英国"),
    ("HK", "中国香港"),
    ("IE", "爱尔兰"),
    ("IN", "印度"),
    ("IT", "意大利"),
    ("JP", "日本"),
    ("KR", "韩国"),
    ("MX", "墨西哥"),
    ("MY", "马来西亚"),
    ("NL", "荷兰"),
    ("NZ", "新西兰"),
    ("PT", "葡萄牙"),
    ("RU", "俄罗斯"),
    ("SG", "新加坡"),
    ("TW", "中国台湾"),
    ("US", "美国"),
    ("ZA", "南非"),
];

/// The first entry with the given key, at or after `from`.
pub open spec fn entry(table: Seq<(&'static str, &'static str)>, key: Seq<char>, from: int) -> Option<
    Seq<char>,
>
    decreases table.len() - from,
{
    if from >= table.len() {
        None
    } else if table[from].0@ == key {
        Some(table[from].1@)
    } else {
        entry(table, key, from + 1)
    }
}

fn lookup(table: &[(&'static str, &'static str)], key: &[char]) -> (found: Option<&'static str>)
    ensures
        match found {
            Some(found) => entry(table@, key@, 0) == Some(found@),
            None => entry(table@, key@, 0) is None,
        },
{
    let mut i: usize = 0;
    while i < table.len()
        invariant
            i <= table.len(),
            entry(table@, key@, 0) == entry(table@, key@, i as int),
        decreases table.len() - i,
    {
        if text::same_text(key, table[i].0) {
            return Some(table[i].1);
        }
        i += 1;
    }
    None
}

/// The name of a code: the code itself when the table has none.
pub open spec fn name_or_code(table: Seq<(&'static str, &'static str)>, code: Seq<char>) -> Seq<char> {
    match entry(table, code, 0) {
        Some(name) => name,
        None => code,
    }
}

/// The Chinese name of a voice, when it has one.
pub fn chinese_voice_name(short_name: &str) -> (name: Option<&'static str>)
    ensures
        match name {
            Some(name) => entry(CHINESE_VOICE_NAMES@, short_name@, 0) == Some(name@),
            None => entry(CHINESE_VOICE_NAMES@, short_name@, 0) is None,
        },
{
    let chars = text::chars_of(short_name);
    lookup(CHINESE_VOICE_NAMES.as_slice(), chars.as_slice())
}

/// The Chinese name of a language.
pub fn chinese_language_name(code: &str) -> (name: String)
    ensures
        name@ == name_or_code(CHINESE_LANGUAGE_NAMES@, code@),
{
    let chars = text::chars_of(code);
    match lookup(CHINESE_LANGUAGE_NAMES.as_slice(), chars.as_slice()) {
        Some(name) => name.to_string(),
        None => code.to_string(),
    }
}

/// The Chinese name of a region.
pub fn chinese_region_name(code: &str) -> (name: String)
    ensures
        name@ == name_or_code(CHINESE_REGION_NAMES@, code@),
{
    let chars = text::chars_of(code);
    match lookup(CHINESE_REGION_NAMES.as_slice(), chars.as_slice()) {
        Some(name) => name.to_string(),
        None => code.to_string(),
    }
}

/// What stands before the first occurrence of a pattern; all of the text when there is none.
pub open spec fn before_pattern(s: Seq<char>, pattern: Seq<char>) -> Seq<char> {
    match text::find(s, pattern) {
        Some(at) => s.take(at),
        None => s,
    }
}

fn cut_before<'a>(s: &'a [char], pattern: &str) -> (head: &'a [char])
    ensures
        head@ == before_pattern(s@, pattern@),
{
    match text::find_str(s, pattern) {
        Some(at) => {
            assert(s@.subrange(0, at as int) == s@.take(at as int));
            text::part(s, 0, at)
        },
        None => s,
    }
}

/// What stands behind the last hyphen; all of the text when there is none.
pub open spec fn after_last_hyphen(s: Seq<char>) -> Seq<char>
    decreases s.len(),
{
    if s.len() == 0 || s.last() == '-' {
        Seq::empty()
    } else {
        after_last_hyphen(s.drop_last()).push(s.last())
    }
}

proof fn lemma_after_last_hyphen(s: Seq<char>)
    ensures
        after_last_hyphen(s).len() <= s.len(),
        after_last_hyphen(s) == s.skip(s.len() - after_last_hyphen(s).len()),
    decreases s.len(),
{
    if s.len() > 0 && s.last() != '-' {
        lemma_after_last_hyphen(s.drop_last());
        let rest = after_last_hyphen(s.drop_last());
        assert(s.skip(s.len() - rest.len() - 1) =~= s.drop_last().skip(
            s.drop_last().len() - rest.len(),
        ).push(s.last()));
    } else {
        assert(s.skip(s.len() as int) =~= Seq::<char>::empty());
    }
}

fn last_part(s: &[char]) -> (tail: &[char])
    ensures
        tail@ == after_last_hyphen(s@),
{
    let mut at: usize = s.len();
    proof {
        lemma_after_last_hyphen(s@);
    }
    assert(s@.take(at as int) == s@);
    assert(s@.skip(at as int) == Seq::<char>::empty());
    while at > 0 && s[at - 1] != '-'
        invariant
            at <= s.len(),
            after_last_hyphen(s@) == after_last_hyphen(s@.take(at as int)) + s@.skip(at as int),
        decreases at,
    {
        assert(s@.take(at as int).drop_last() == s@.take(at - 1));
        assert(s@.take(at as int).last() == s@[at - 1]);
        assert(after_last_hyphen(s@.take(at - 1)).push(s@[at - 1]) + s@.skip(at as int)
            == after_last_hyphen(s@.take(at - 1)) + s@.skip(at - 1));
        at -= 1;
    }
    assert(after_last_hyphen(s@.take(at as int)) == Seq::<char>::empty());
    assert(s@.subrange(at as int, s@.len() as int) == s@.skip(at as int));
    text::part(s, at, s.len())
}

/// A text without the given ending.
pub open spec fn without_ending(s: Seq<char>, ending: Seq<char>) -> Seq<char> {
    if text::occurs_at(s, ending, s.len() - ending.len()) {
        s.take(s.len() - ending.len())
    } else {
        s
    }
}

/// The name of a voice as the service spells it out, when it does.
pub open spec fn spelled_name(voice: Voice) -> Option<Seq<char>> {
    match voice.friendly_name {
        Some(friendly) => match text::after_prefix(friendly, "Microsoft "@) {
            Some(rest) => if before_pattern(rest, " Online"@).len() > 0 {
                Some(before_pattern(rest, " Online"@))
            } else {
                None
            },
            None => None,
        },
        None => None,
    }
}

/// The English name of a voice: as the service spells it out, or else from its short name.
pub open spec fn english_name_of(voice: Voice) -> Seq<char> {
    match spelled_name(voice) {
        Some(name) => name,
        None => without_ending(after_last_hyphen(voice.short_name), "Neural"@),
    }
}

/// The name under which a voice is shown.
pub open spec fn display_name_of(voice: Voice, language: UiLanguage) -> Seq<char> {
    match entry(CHINESE_VOICE_NAMES@, voice.short_name, 0) {
        Some(chinese) => if language == UiLanguage::Chinese {
            chinese + " "@ + english_name_of(voice)
        } else {
            english_name_of(voice)
        },
        None => english_name_of(voice),
    }
}

/// The language of a voice as the service spells it out; its locale when it does not.
pub open spec fn english_language_of(voice: Voice) -> Seq<char> {
    match voice.friendly_name {
        Some(friendly) => match text::find(friendly, " - "@) {
            Some(at) => before_pattern(friendly.skip(at + 3), " - "@),
            None => voice.locale,
        },
        None => voice.locale,
    }
}

/// The region in a locale; empty when it has none.
pub open spec fn region_code(locale: Seq<char>) -> Seq<char> {
    let parts = text::pieces(locale, '-');
    if parts.len() > 1 {
        parts[1]
    } else {
        Seq::empty()
    }
}

/// The language of a voice in Chinese, with its region or else its locale in brackets.
pub open spec fn chinese_language_of(voice: Voice) -> Seq<char> {
    let language = name_or_code(CHINESE_LANGUAGE_NAMES@, text::pieces(voice.locale, '-')[0]);
    let code = region_code(voice.locale);
    let region = name_or_code(CHINESE_REGION_NAMES@, code);
    if region == code || region.len() == 0 {
        language + "（"@ + voice.locale + "）"@
    } else {
        language + "（"@ + region + "）"@
    }
}

/// The language of a voice as it is shown.
pub open spec fn language_name_of(voice: Voice, language: UiLanguage) -> Seq<char> {
    match language {
        UiLanguage::English => english_language_of(voice),
        UiLanguage::Chinese => chinese_language_of(voice),
    }
}

/// The gender of a voice as it is shown.
pub open spec fn gender_name_of(voice: Voice, language: UiLanguage) -> Seq<char> {
    if language == UiLanguage::Chinese && voice.gender == "Female"@ {
        "女声"@
    } else if language == UiLanguage::Chinese && voice.gender == "Male"@ {
        "男声"@
    } else {
        voice.gender
    }
}

/// The full description of a voice.
pub open spec fn label_of(voice: Voice, language: UiLanguage) -> Seq<char> {
    display_name_of(voice, language) + "  ·  "@ + language_name_of(voice, language) + "  ·  "@
        + gender_name_of(voice, language) + "  ·  "@ + voice.locale
}

/// The texts in which a search looks for a voice.
pub open spec fn search_texts(voice: Voice) -> Seq<Seq<char>> {
    seq![
        voice.short_name,
        voice.locale,
        voice.gender,
        match voice.friendly_name {
            Some(name) => name,
            None => Seq::empty(),
        },
        label_of(voice, UiLanguage::Chinese),
        label_of(voice, UiLanguage::English),
    ]
}

/// The query stands in one of the texts.
pub open spec fn found_in(texts: Seq<Seq<char>>, query: Seq<char>) -> bool {
    exists|i: int| 0 <= i < texts.len() && text::occurs(#[trigger] texts[i], query)
}

/// Whether a search finds a voice: an empty one does, and any other does when it stands in one of
/// the texts of the voice, whatever the case of the letters.
pub open spec fn search_finds(voice: Voice, query: Seq<char>) -> bool {
    text::trimmed(query).len() == 0 || found_in(
        search_texts(voice).map_values(|s: Seq<char>| text::lowercased(s)),
        text::lowercased(text::trimmed(query)),
    )
}

/// Whether the query stands in one of the texts.
pub fn any_contains(texts: &Vec<String>, query: &str) -> (found: bool)
    ensures
        found == found_in(crate::asr::strings_of(texts@), query@),
{
    let ghost all = crate::asr::strings_of(texts@);
    let mut i: usize = 0;
    while i < texts.len()
        invariant
            i <= texts.len(),
            all == crate::asr::strings_of(texts@),
            forall|k: int| 0 <= k < i ==> !text::occurs(#[trigger] all[k], query@),
        decreases texts.len() - i,
    {
        assert(all[i as int] == texts@[i as int]@);
        let chars = text::chars_of(texts[i].as_str());
        if text::contains(chars.as_slice(), query) {
            return true;
        }
        i += 1;
    }
    false
}

impl VoiceChoice {
    /// The English name of the voice.
    pub fn english_name(&self) -> (name: String)
        ensures
            name@ == english_name_of(self@),
    {
        if let Some(friendly) = &self.friendly_name {
            let chars = text::chars_of(friendly.as_str());
            if let Some(rest) = text::strip_prefix(chars.as_slice(), "Microsoft ") {
                let name = cut_before(rest, " Online");
                if name.len() > 0 {
                    return text::string_of(name);
                }
            }
        }
        proof {
            reveal_strlit("Neural");
        }
        let chars = text::chars_of(self.short_name.as_str());
        let raw = last_part(chars.as_slice());
        let ending = text::chars_of("Neural");
        if raw.len() >= ending.len() && text::matches_at(
            raw,
            ending.as_slice(),
            raw.len() - ending.len(),
        ) {
            let stem = text::part(raw, 0, raw.len() - ending.len());
            assert(stem@ == raw@.take(raw@.len() - "Neural"@.len()));
            text::string_of(stem)
        } else {
            text::string_of(raw)
        }
    }

    /// The name under which the voice is shown.
    pub fn display_name(&self, language: UiLanguage) -> (name: String)
        ensures
            name@ == display_name_of(self@, language),
    {
        let english = self.english_name();
        if language == UiLanguage::Chinese {
            if let Some(chinese) = chinese_voice_name(self.short_name.as_str()) {
                return chinese.to_string().concat(" ").concat(english.as_str());
            }
        }
        english
    }

    /// The language of the voice as it is shown.
    pub fn language_name(&self, language: UiLanguage) -> (name: String)
        ensures
            name@ == language_name_of(self@, language),
    {
        match language {
            UiLanguage::English => {
                if let Some(friendly) = &self.friendly_name {
                    proof {
                        reveal_strlit(" - ");
                    }
                    let chars = text::chars_of(friendly.as_str());
                    if let Some(at) = text::find_str(chars.as_slice(), " - ") {
                        let rest = text::part(chars.as_slice(), at + 3, chars.len());
                        assert(rest@ == friendly@.skip(at + 3));
                        return text::string_of(cut_before(rest, " - "));
                    }
                }
                self.locale.clone()
            },
            UiLanguage::Chinese => {
                let locale = text::chars_of(self.locale.as_str());
                let parts = text::split(locale.as_slice(), '-');
                proof {
                    text::lemma_pieces_not_empty(locale@, '-');
                }
                assert(text::texts(parts@).len() == parts@.len());
                assert(text::texts(parts@)[0] == parts@[0]@);
                let code = text::string_of(parts[0]);
                let language_name = chinese_language_name(code.as_str());
                let region_code = if parts.len() > 1 {
                    assert(text::texts(parts@)[1] == parts@[1]@);
                    text::string_of(parts[1])
                } else {
                    String::new()
                };
                let region_name = chinese_region_name(region_code.as_str());
                let region_chars = text::chars_of(region_name.as_str());
                if region_chars.len() == 0 || text::same_text(
                    region_chars.as_slice(),
                    region_code.as_str(),
                ) {
                    language_name.concat("（").concat(self.locale.as_str()).concat("）")
                } else {
                    language_name.concat("（").concat(region_name.as_str()).concat("）")
                }
            },
        }
    }

    /// The gender of the voice as it is shown.
    pub fn gender_name(&self, language: UiLanguage) -> (name: String)
        ensures
            name@ == gender_name_of(self@, language),
    {
        if language == UiLanguage::Chinese {
            let gender = text::chars_of(self.gender.as_str());
            if text::same_text(gender.as_slice(), "Female") {
                return "女声".to_string();
            }
            if text::same_text(gender.as_slice(), "Male") {
                return "男声".to_string();
            }
        }
        self.gender.clone()
    }

    /// The full description of the voice.
    pub fn label(&self, language: UiLanguage) -> (label: String)
        ensures
            label@ == label_of(self@, language),
    {
        let language_name = self.language_name(language);
        let gender_name = self.gender_name(language);
        self.display_name(language).concat("  ·  ").concat(language_name.as_str()).concat(
            "  ·  ",
        ).concat(gender_name.as_str()).concat("  ·  ").concat(self.locale.as_str())
    }

    /// Whether a search finds the voice.
    pub fn matches(&self, query: &str) -> (found: bool)
        ensures
            found == search_finds(self@, query@),
    {
        let chars = text::chars_of(query);
        let trimmed = text::trim(chars.as_slice());
        if trimmed.len() == 0 {
            return true;
        }
        let trimmed = text::string_of(trimmed);
        let lowered = text::to_lowercase(trimmed.as_str());
        let friendly = match &self.friendly_name {
            Some(name) => name.clone(),
            None => String::new(),
        };
        let chinese = self.label(UiLanguage::Chinese);
        let english = self.label(UiLanguage::English);
        let mut texts: Vec<String> = Vec::new();
        texts.push(text::to_lowercase(self.short_name.as_str()));
        texts.push(text::to_lowercase(self.locale.as_str()));
        texts.push(text::to_lowercase(self.gender.as_str()));
        texts.push(text::to_lowercase(friendly.as_str()));
        texts.push(text::to_lowercase(chinese.as_str()));
        texts.push(text::to_lowercase(english.as_str()));
        assert(friendly@ =~= search_texts(self@)[3]);
        assert(crate::asr::strings_of(texts@) =~= search_texts(self@).map_values(
            |s: Seq<char>| text::lowercased(s),
        ));
        any_contains(&texts, lowered.as_str())
    }
}

/// The voices of a list.
pub open spec fn voices_of(voices: Seq<VoiceChoice>) -> Seq<Voice> {
    Seq::new(voices.len(), |i: int| voices[i]@)
}

/// The first voice with the given short name, at or after `from`.
pub open spec fn voice_position(voices: Seq<Voice>, short_name: Seq<char>, from: int) -> Option<int>
    decreases voices.len() - from,
{
    if from >= voices.len() {
        None
    } else if voices[from].short_name == short_name {
        Some(from)
    } else {
        voice_position(voices, short_name, from + 1)
    }
}

/// The first voice with the given short name.
pub fn find_voice(voices: &Vec<VoiceChoice>, short_name: &str) -> (at: Option<usize>)
    ensures
        match at {
            Some(at) => voice_position(voices_of(voices@), short_name@, 0) == Some(at as int) && at
                < voices@.len(),
            None => voice_position(voices_of(voices@), short_name@, 0) is None,
        },
{
    let ghost all = voices_of(voices@);
    let mut i: usize = 0;
    while i < voices.len()
        invariant
            i <= voices.len(),
            all == voices_of(voices@),
            voice_position(all, short_name@, 0) == voice_position(all, short_name@, i as int),
        decreases voices.len() - i,
    {
        assert(all[i as int] == voices@[i as int]@);
        let name = text::chars_of(voices[i].short_name.as_str());
        if text::same_text(name.as_slice(), short_name) {
            return Some(i);
        }
        i += 1;
    }
    None
}

/// The positions of the voices that a search finds, in order.
pub open spec fn found_positions(voices: Seq<Voice>, query: Seq<char>) -> Seq<usize>
    decreases voices.len(),
{
    if voices.len() == 0 {
        Seq::empty()
    } else if search_finds(voices.last(), query) {
        found_positions(voices.drop_last(), query).push((voices.len() - 1) as usize)
    } else {
        found_positions(voices.drop_last(), query)
    }
}

/// The positions of the voices that a search finds, in order.
pub fn matching_positions(voices: &Vec<VoiceChoice>, query: &str) -> (positions: Vec<usize>)
    ensures
        positions@ == found_positions(voices_of(voices@), query@),
{
    let ghost all = voices_of(voices@);
    let mut positions: Vec<usize> = Vec::new();
    let mut i: usize = 0;
    while i < voices.len()
        invariant
            i <= voices.len(),
            all == voices_of(voices@),
            positions@ == found_positions(all.take(i as int), query@),
        decreases voices.len() - i,
    {
        assert(all.take(i as int + 1).drop_last() == all.take(i as int));
        assert(all.take(i as int + 1).last() == voices@[i as int]@);
        if voices[i].matches(query) {
            positions.push(i);
        }
        i += 1;
    }
    assert(all.take(i as int) == all);
    positions
}

/// An empty search finds every voice.
pub proof fn empty_search_finds_every_voice(voice: Voice, query: Seq<char>)
    requires
        !text::is_visible(query),
    ensures
        search_finds(voice, query),
{
    text::lemma_trimmed_visible(query);
}

/// A voice is found by any text that has the same lower case form as its short name.
pub proof fn voice_is_found_by_its_name_in_any_case(voice: Voice, query: Seq<char>)
    requires
        text::lowercased(text::trimmed(query)) == text::lowercased(voice.short_name),
    ensures
        search_finds(voice, query),
{
    let texts = search_texts(voice).map_values(|s: Seq<char>| text::lowercased(s));
    let name = text::lowercased(voice.short_name);
    assert(texts[0] == name);
    assert(name.subrange(0, name.len() as int) == name);
    assert(text::occurs_at(name, name, 0));
    assert(text::occurs(texts[0], name));
}

} // verus!
