//! Which language is spoken, told by the characters of the texts alone.
//!
//! The scripts are given here by their code points. Every law says what becomes of any list of
//! texts that holds, or does not hold, a character of a script.
use vstd::prelude::*;

use crate::indextts;
use crate::qwen_local;
use crate::qwen_local::{QwenSynthesisLanguage, QwenVoice};

verus! {

/// One of the texts holds a character with a code point from `first` up to `last`.
pub open spec fn hold(texts: Seq<Seq<char>>, first: int, last: int) -> bool {
    exists|i: int, k: int|
        0 <= i < texts.len() && 0 <= k < texts[i].len() && first <= #[trigger] texts[i][k] as int
            && texts[i][k] as int <= last
}

/// One of the texts holds a Japanese syllable: Hiragana, Katakana or one of their extensions.
pub open spec fn hold_kana(texts: Seq<Seq<char>>) -> bool {
    hold(texts, 0x3040, 0x30FF) || hold(texts, 0x31F0, 0x31FF)
}

/// One of the texts holds a Korean letter or syllable.
pub open spec fn hold_hangul(texts: Seq<Seq<char>>) -> bool {
    hold(texts, 0x1100, 0x11FF) || hold(texts, 0x3130, 0x318F) || hold(texts, 0xAC00, 0xD7AF)
}

/// One of the texts holds a Chinese character.
pub open spec fn hold_han(texts: Seq<Seq<char>>) -> bool {
    hold(texts, 0x3400, 0x4DBF) || hold(texts, 0x4E00, 0x9FFF) || hold(texts, 0xF900, 0xFAFF)
}

/// One of the texts holds a Latin letter.
pub open spec fn hold_latin(texts: Seq<Seq<char>>) -> bool {
    hold(texts, 0x41, 0x5A) || hold(texts, 0x61, 0x7A)
}

/// The language in which the texts are spoken with a voice.
pub open spec fn spoken_in(texts: Seq<Seq<char>>, voice: QwenVoice) -> QwenSynthesisLanguage {
    qwen_local::language_of(qwen_local::all_scripts(texts), qwen_local::native_language(voice))
}

proof fn lemma_script_kept(texts: Seq<Seq<char>>, i: int, k: int)
    requires
        0 <= i < texts.len(),
        0 <= k < texts[i].len(),
    ensures
        qwen_local::is_kana_char(texts[i][k]) ==> qwen_local::all_scripts(texts).kana,
        qwen_local::is_hangul_char(texts[i][k]) ==> qwen_local::all_scripts(texts).hangul,
        qwen_local::is_han_char(texts[i][k]) ==> qwen_local::all_scripts(texts).han,
        qwen_local::is_latin_char(texts[i][k]) ==> qwen_local::all_scripts(texts).latin,
    decreases texts.len(),
{
    if i < texts.len() - 1 {
        assert(texts.drop_last()[i] == texts[i]);
        lemma_script_kept(texts.drop_last(), i, k);
    }
}

proof fn lemma_script_found(texts: Seq<Seq<char>>)
    ensures
        qwen_local::all_scripts(texts).kana ==> hold_kana(texts),
        qwen_local::all_scripts(texts).hangul ==> hold_hangul(texts),
        qwen_local::all_scripts(texts).han ==> hold_han(texts),
        qwen_local::all_scripts(texts).latin ==> hold_latin(texts),
    decreases texts.len(),
{
    if texts.len() > 0 {
        let rest = texts.drop_last();
        lemma_script_found(rest);
        assert forall|first: int, last: int| #[trigger] hold(rest, first, last) implies hold(
            texts,
            first,
            last,
        ) by {
            let (i, k) = choose|i: int, k: int|
                0 <= i < rest.len() && 0 <= k < rest[i].len() && first <= #[trigger] rest[i][k] as int
                    && rest[i][k] as int <= last;
            assert(texts[i][k] == rest[i][k]);
        }
        let n = texts.len() - 1;
        let s = texts[n];
        assert forall|k: int| 0 <= k < s.len() implies {
            &&& qwen_local::is_kana_char(#[trigger] s[k]) ==> hold_kana(texts)
            &&& qwen_local::is_hangul_char(s[k]) ==> hold_hangul(texts)
            &&& qwen_local::is_han_char(s[k]) ==> hold_han(texts)
            &&& qwen_local::is_latin_char(s[k]) ==> hold_latin(texts)
        } by {
            let c = texts[n][k] as int;
        }
    }
}

/// Kana make a track Japanese whatever other scripts occur. Without kana, Hangul make it Korean,
/// Chinese characters or Latin letters beside them or not. Without both, a Chinese character makes
/// it Chinese, English cues or not, and Latin letters alone make it English for every voice.
pub proof fn the_most_telling_script_decides(texts: Seq<Seq<char>>, voice: QwenVoice)
    ensures
        hold_kana(texts) ==> spoken_in(texts, voice) == QwenSynthesisLanguage::Japanese,
        !hold_kana(texts) && hold_hangul(texts) ==> spoken_in(texts, voice)
            == QwenSynthesisLanguage::Korean,
        !hold_kana(texts) && !hold_hangul(texts) && hold_han(texts) ==> spoken_in(texts, voice)
            == QwenSynthesisLanguage::Chinese,
        !hold_kana(texts) && !hold_hangul(texts) && !hold_han(texts) && hold_latin(texts)
            ==> spoken_in(texts, voice) == QwenSynthesisLanguage::English,
{
    lemma_script_found(texts);
    assert forall|i: int, k: int| 0 <= i < texts.len() && 0 <= k < texts[i].len() implies {
        let c = #[trigger] texts[i][k] as int;
        let all = qwen_local::all_scripts(texts);
        &&& 0x3040 <= c <= 0x30FF || 0x31F0 <= c <= 0x31FF ==> all.kana
        &&& 0x1100 <= c <= 0x11FF || 0x3130 <= c <= 0x318F || 0xAC00 <= c <= 0xD7AF ==> all.hangul
        &&& 0x3400 <= c <= 0x4DBF || 0x4E00 <= c <= 0x9FFF || 0xF900 <= c <= 0xFAFF ==> all.han
        &&& 0x41 <= c <= 0x5A || 0x61 <= c <= 0x7A ==> all.latin
    } by {
        lemma_script_kept(texts, i, k);
    }
}

/// Texts without letters of any of these scripts are spoken in the language of the voice.
pub proof fn without_letters_the_voice_decides(texts: Seq<Seq<char>>, voice: QwenVoice)
    requires
        !hold_kana(texts),
        !hold_hangul(texts),
        !hold_han(texts),
        !hold_latin(texts),
    ensures
        spoken_in(texts, voice) == (match voice {
            QwenVoice::OnoAnna => QwenSynthesisLanguage::Japanese,
            QwenVoice::Sohee => QwenSynthesisLanguage::Korean,
            QwenVoice::Ryan => QwenSynthesisLanguage::English,
            QwenVoice::Aiden => QwenSynthesisLanguage::English,
            QwenVoice::Vivian => QwenSynthesisLanguage::Chinese,
            QwenVoice::Serena => QwenSynthesisLanguage::Chinese,
            QwenVoice::UncleFu => QwenSynthesisLanguage::Chinese,
            QwenVoice::Dylan => QwenSynthesisLanguage::Chinese,
            QwenVoice::Eric => QwenSynthesisLanguage::Chinese,
        }),
{
    lemma_script_found(texts);
}

/// The order of the texts does not matter for the language, nor how they are divided into cues:
/// a track that holds the scripts of another one is spoken in its language.
pub proof fn only_the_scripts_decide(
    texts: Seq<Seq<char>>,
    others: Seq<Seq<char>>,
    voice: QwenVoice,
)
    requires
        hold_kana(texts) == hold_kana(others),
        hold_hangul(texts) == hold_hangul(others),
        hold_han(texts) == hold_han(others),
        hold_latin(texts) == hold_latin(others),
    ensures
        spoken_in(texts, voice) == spoken_in(others, voice),
{
    the_most_telling_script_decides(texts, voice);
    the_most_telling_script_decides(others, voice);
    lemma_script_found(texts);
    lemma_script_found(others);
}

/// The language that IndexTTS is told of a text: Japanese where it holds kana, else Arabic where it
/// holds an Arabic letter, else Chinese where it holds a Chinese character, else Spanish where it
/// holds a letter or mark of its own, and English otherwise.
pub proof fn a_text_is_told_by_its_letters(s: Seq<char>)
    ensures
        ({
            let kana = hold(seq![s], 0x3040, 0x30FF) || hold(seq![s], 0x31F0, 0x31FF);
            let arabic = hold(seq![s], 0x0600, 0x06FF) || hold(seq![s], 0x0750, 0x077F);
            let han = hold(seq![s], 0x3400, 0x4DBF) || hold(seq![s], 0x4E00, 0x9FFF);
            let spanish = hold(seq![s], 0xD1, 0xD1) || hold(seq![s], 0xF1, 0xF1) || hold(
                seq![s],
                0xBF,
                0xBF,
            ) || hold(seq![s], 0xA1, 0xA1);
            &&& kana ==> indextts::language_code(s) == "JA"@
            &&& !kana && arabic ==> indextts::language_code(s) == "AR"@
            &&& !kana && !arabic && han ==> indextts::language_code(s) == "ZH"@
            &&& !kana && !arabic && !han && spanish ==> indextts::language_code(s) == "ES"@
            &&& !kana && !arabic && !han && !spanish ==> indextts::language_code(s) == "EN"@
        }),
{
    assert(seq![s][0] == s);
    assert forall|k: int| 0 <= k < s.len() implies #[trigger] s[k] == seq![s][0][k] by {}
    assert forall|first: int, last: int| #[trigger]
        hold(seq![s], first, last) implies exists|k: int|
        0 <= k < s.len() && first <= #[trigger] s[k] as int && s[k] as int <= last by {
        let (i, k) = choose|i: int, k: int|
            0 <= i < seq![s].len() && 0 <= k < seq![s][i].len() && first <= #[trigger] seq![s][i][k] as int
                && seq![s][i][k] as int <= last;
        assert(seq![s][i][k] == s[k]);
    }
}

} // verus!
