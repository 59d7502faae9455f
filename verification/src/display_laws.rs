//! What is shown: durations, names of files and of voices.
use vstd::prelude::*;

use crate::file_names;
use crate::system_proxy;
use crate::text;
use crate::ui_text;
use crate::ui_text::UiLanguage;
use crate::voice_order;
use crate::voices;
use crate::voices::Voice;

verus! {

/// A duration from a minute on is shown by its minutes and seconds; a shorter one by its seconds.
pub proof fn a_duration_shows_minutes_and_seconds(minutes: nat, seconds: nat)
    requires
        seconds < 60,
    ensures
        minutes > 0 ==> ui_text::duration_text(minutes * 60 + seconds) == text::decimal(minutes)
            + seq![':'] + text::zero_padded(text::decimal(seconds), 2),
        ui_text::duration_text(seconds) == text::decimal(seconds) + seq!['s'],
{
    reveal_strlit(":");
    reveal_strlit("s");
    assert(":"@ =~= seq![':']);
    assert("s"@ =~= seq!['s']);
    assert((minutes * 60 + seconds) / 60 == minutes);
    assert((minutes * 60 + seconds) % 60 == seconds);
}

/// A position is shown by its minutes and seconds, and from an hour on with the hours before them.
pub proof fn a_position_shows_its_clock(hours: nat, minutes: nat, seconds: nat)
    requires
        minutes < 60,
        seconds < 60,
    ensures
        hours > 0 ==> ui_text::playback_text(hours * 3_600 + minutes * 60 + seconds)
            == text::decimal(hours) + seq![':'] + text::zero_padded(text::decimal(minutes), 2)
            + seq![':'] + text::zero_padded(text::decimal(seconds), 2),
        ui_text::playback_text(minutes * 60 + seconds) == text::decimal(minutes) + seq![':']
            + text::zero_padded(text::decimal(seconds), 2),
{
    reveal_strlit(":");
    assert(":"@ =~= seq![':']);
    let all = hours * 3_600 + minutes * 60 + seconds;
    assert(all / 3_600 == hours);
    assert(all / 60 == hours * 60 + minutes);
    assert(all / 60 % 60 == minutes);
    assert(all % 60 == seconds);
    assert((minutes * 60 + seconds) / 60 == minutes);
    assert((minutes * 60 + seconds) % 60 == seconds);
}

/// A preview speaks a text of up to 80 characters whole, and of a longer one the first 80.
pub proof fn a_preview_speaks_the_beginning(s: Seq<char>, language: UiLanguage)
    requires
        text::is_visible(s),
    ensures
        ({
            let trimmed = text::trimmed(s);
            let preview = ui_text::preview_of(s, language);
            &&& trimmed.len() <= 80 ==> preview == trimmed
            &&& trimmed.len() > 80 ==> preview.len() == 81 && preview.take(80) == trimmed.take(80)
                && preview[80] == '…'
        }),
{
    text::lemma_trimmed_visible(s);
    let trimmed = text::trimmed(s);
    if trimmed.len() > 80 {
        assert(ui_text::preview_of(s, language).take(80) =~= trimmed.take(80));
    }
}

proof fn lemma_last_point_is(stem: Seq<char>, extension: Seq<char>)
    requires
        text::lacks(extension, '.'),
    ensures
        file_names::last_point(stem + seq!['.'] + extension) == Some(stem.len() as int),
    decreases extension.len(),
{
    let name = stem + seq!['.'] + extension;
    if extension.len() == 0 {
        assert(name.last() == '.');
    } else {
        assert(extension[extension.len() - 1] != '.');
        lemma_last_point_is(stem, extension.drop_last());
        assert(name.drop_last() =~= stem + seq!['.'] + extension.drop_last());
    }
}

proof fn lemma_no_point(name: Seq<char>)
    requires
        text::lacks(name, '.'),
    ensures
        file_names::last_point(name) is None,
    decreases name.len(),
{
    if name.len() > 0 {
        assert(name[name.len() - 1] != '.');
        lemma_no_point(name.drop_last());
    }
}

/// The stem and the extension of a name are what stands before and behind its last point.
pub proof fn a_name_is_taken_apart(stem: Seq<char>, extension: Seq<char>)
    requires
        stem.len() > 0,
        extension.len() > 0,
        text::lacks(extension, '.'),
    ensures
        file_names::stem_of(stem + seq!['.'] + extension) == stem,
        file_names::extension_of(stem + seq!['.'] + extension) == Some(extension),
{
    reveal_strlit("..");
    let name = stem + seq!['.'] + extension;
    lemma_last_point_is(stem, extension);
    assert(name[name.len() - 1] == extension[extension.len() - 1]);
    assert(name != ".."@) by {
        if name == ".."@ {
            assert(name.last() == '.');
        }
    }
    assert(name.take(stem.len() as int) =~= stem);
    assert(name.skip(stem.len() as int + 1) =~= extension);
}

/// A file is named with its extension: one that it has already is kept, another one is replaced,
/// and where there is none it is added.
pub proof fn a_file_is_named_with_its_extension(
    stem: Seq<char>,
    other: Seq<char>,
    extension: Seq<char>,
)
    requires
        stem.len() > 0,
        other.len() > 0,
        text::lacks(other, '.'),
        extension.len() > 0,
    ensures
        text::ascii_lowered(other) != text::ascii_lowered(extension) ==> ui_text::named_with(
            stem + seq!['.'] + other,
            extension,
        ) == stem + seq!['.'] + extension,
        text::ascii_lowered(other) == text::ascii_lowered(extension) ==> ui_text::named_with(
            stem + seq!['.'] + other,
            extension,
        ) == stem + seq!['.'] + other,
        text::lacks(stem, '.') ==> ui_text::named_with(stem, extension) == stem + seq!['.']
            + extension,
{
    reveal_strlit(".");
    reveal_strlit("..");
    assert("."@ =~= seq!['.']);
    let name = stem + seq!['.'] + other;
    a_name_is_taken_apart(stem, other);
    assert(name.len() >= 3);
    if text::lacks(stem, '.') {
        lemma_no_point(stem);
        assert(stem[0] != '.');
    }
}

/// A voice whose name the service spells out is shown by that name, and its language by what the
/// service puts behind a dash.
pub proof fn a_spelled_name_is_shown(voice: Voice, name: Seq<char>, rest: Seq<char>, tongue: Seq<char>)
    requires
        name.len() > 0,
        text::lacks(name, ' '),
        text::lacks(name, '-'),
        text::lacks(rest, '-'),
        text::lacks(tongue, '-'),
        voice.friendly_name == Some(
            "Microsoft "@ + name + " Online"@ + rest + " - "@ + tongue,
        ),
    ensures
        voices::english_name_of(voice) == name,
        voices::english_language_of(voice) == tongue,
{
    reveal_strlit("Microsoft ");
    reveal_strlit(" Online");
    reveal_strlit(" - ");
    let prefix = "Microsoft "@;
    let online = " Online"@;
    let dash = " - "@;
    let friendly = prefix + name + online + rest + dash + tongue;
    let tail = name + online + rest + dash + tongue;
    assert(friendly =~= prefix + tail);
    assert(friendly.subrange(0, prefix.len() as int) =~= prefix);
    assert(friendly.skip(prefix.len() as int) =~= tail);
    let n = name.len() as int;
    assert(tail.subrange(n, n + online.len()) =~= online);
    assert forall|i: int| 0 <= i < n implies !#[trigger] text::occurs_at(tail, online, i) by {
        if text::occurs_at(tail, online, i) {
            assert(tail.subrange(i, i + online.len())[0] == tail[i]);
            assert(tail[i] == name[i]);
        }
    }
    text::lemma_find_is(tail, online, n);
    assert(tail.take(n) =~= name);
    let at = (prefix + name + online + rest).len() as int;
    assert(friendly.subrange(at, at + 3) =~= dash);
    assert forall|i: int| 0 <= i < at implies !#[trigger] text::occurs_at(friendly, dash, i) by {
        if text::occurs_at(friendly, dash, i) {
            assert(friendly.subrange(i, i + 3)[1] == friendly[i + 1]);
            assert(friendly[i + 1] == '-');
            if i + 1 < prefix.len() {
                assert(friendly[i + 1] == prefix[i + 1]);
            } else if i + 1 < prefix.len() + n {
                assert(friendly[i + 1] == name[i + 1 - prefix.len()]);
            } else if i + 1 < prefix.len() + n + online.len() {
                assert(friendly[i + 1] == online[i + 1 - prefix.len() - n]);
            } else if i + 1 < at {
                assert(friendly[i + 1] == rest[i + 1 - prefix.len() - n - online.len()]);
            } else {
                assert(friendly[i + 1] == dash[0]);
            }
        }
    }
    text::lemma_find_is(friendly, dash, at);
    assert(friendly.skip(at + 3) =~= tongue);
    if text::occurs(tongue, dash) {
        let i = choose|i: int| text::occurs_at(tongue, dash, i);
        assert(tongue.subrange(i, i + 3)[1] == tongue[i + 1]);
    }
    text::lemma_occurs_iff_found(tongue, dash);
}

proof fn lemma_after_hyphen(before: Seq<char>, name: Seq<char>)
    requires
        text::lacks(name, '-'),
    ensures
        voices::after_last_hyphen(before + seq!['-'] + name) == name,
    decreases name.len(),
{
    let all = before + seq!['-'] + name;
    if name.len() == 0 {
        assert(all.last() == '-');
    } else {
        assert(name[name.len() - 1] != '-');
        lemma_after_hyphen(before, name.drop_last());
        assert(all.drop_last() =~= before + seq!['-'] + name.drop_last());
        assert(name.drop_last().push(name.last()) =~= name);
    }
}

/// A voice without a spelled name is shown by the last part of its short name, and without a
/// spelled language by its locale.
pub proof fn else_the_short_name_is_shown(voice: Voice, before: Seq<char>, name: Seq<char>)
    requires
        voice.friendly_name is None,
        text::lacks(name, '-'),
        voice.short_name == before + seq!['-'] + name + "Neural"@,
    ensures
        voices::english_name_of(voice) == name,
        voices::english_language_of(voice) == voice.locale,
{
    reveal_strlit("Neural");
    let ending = "Neural"@;
    let full = name + ending;
    assert(voice.short_name =~= before + seq!['-'] + full);
    assert forall|i: int| 0 <= i < full.len() implies #[trigger] full[i] != '-' by {
        if i < name.len() {
            assert(full[i] == name[i]);
        } else {
            assert(full[i] == ending[i - name.len()]);
        }
    }
    lemma_after_hyphen(before, full);
    assert(full.subrange(name.len() as int, full.len() as int) =~= ending);
    assert(full.take(name.len() as int) =~= name);
}

/// The parts of a locale are told apart by its hyphens: the first one is the language and the second
/// one the region, whatever follows.
pub proof fn a_locale_is_taken_apart(tongue: Seq<char>, region: Seq<char>, more: Seq<char>)
    requires
        text::lacks(tongue, '-'),
        text::lacks(region, '-'),
    ensures
        voices::region_code(tongue + seq!['-'] + region) == region,
        voices::region_code(tongue + seq!['-'] + (region + seq!['-'] + more)) == region,
        voices::region_code(tongue).len() == 0,
{
    text::lemma_pieces_single(region, '-');
    text::lemma_pieces_single(tongue, '-');
    text::lemma_pieces_cons(tongue, '-', region);
    text::lemma_pieces_cons(region, '-', more);
    text::lemma_pieces_cons(tongue, '-', region + seq!['-'] + more);
}

/// In Chinese the language of a voice is told with its region in brackets, and with the locale where
/// the region has no name.
pub proof fn a_language_is_told_with_its_region(voice: Voice, tongue: Seq<char>, region: Seq<char>)
    requires
        text::lacks(tongue, '-'),
        text::lacks(region, '-'),
        voice.locale == tongue + seq!['-'] + region,
    ensures
        ({
            let name = voices::name_or_code(voices::CHINESE_LANGUAGE_NAMES@, tongue);
            let place = voices::name_or_code(voices::CHINESE_REGION_NAMES@, region);
            let told = voices::language_name_of(voice, UiLanguage::Chinese);
            &&& place != region && place.len() > 0 ==> told == name + seq!['（'] + place + seq!['）']
            &&& place == region ==> told == name + seq!['（'] + voice.locale + seq!['）']
        }),
{
    reveal_strlit("（");
    reveal_strlit("）");
    assert("（"@ =~= seq!['（']);
    assert("）"@ =~= seq!['）']);
    a_locale_is_taken_apart(tongue, region, Seq::empty());
    text::lemma_pieces_single(region, '-');
    text::lemma_pieces_cons(tongue, '-', region);
    assert(text::pieces(voice.locale, '-')[0] == tongue);
}

/// A voice with a Chinese name is shown by it in a Chinese window, with the English name behind it;
/// else it is shown by its English name.
pub proof fn a_chinese_name_is_shown_first(voice: Voice, i: int)
    requires
        0 <= i < voices::CHINESE_VOICE_NAMES@.len(),
        voices::CHINESE_VOICE_NAMES@[i].0@ == voice.short_name,
        forall|k: int|
            0 <= k < i ==> (#[trigger] voices::CHINESE_VOICE_NAMES@[k]).0@ != voice.short_name,
    ensures
        voices::display_name_of(voice, UiLanguage::Chinese) == voices::CHINESE_VOICE_NAMES@[i].1@
            + seq![' '] + voices::english_name_of(voice),
        voices::display_name_of(voice, UiLanguage::English) == voices::english_name_of(voice),
{
    reveal_strlit(" ");
    assert(" "@ =~= seq![' ']);
    lemma_entry(voices::CHINESE_VOICE_NAMES@, i, 0);
}

/// The gender of a voice is told in Chinese where there is a word for it; else it stays as it is.
pub proof fn genders_are_told(voice: Voice)
    ensures
        voices::gender_name_of(voice, UiLanguage::English) == voice.gender,
        voice.gender == "Female"@ ==> voices::gender_name_of(voice, UiLanguage::Chinese) == "女声"@,
        voice.gender == "Male"@ ==> voices::gender_name_of(voice, UiLanguage::Chinese) == "男声"@,
        voice.gender != "Female"@ && voice.gender != "Male"@ ==> voices::gender_name_of(
            voice,
            UiLanguage::Chinese,
        ) == voice.gender,
{
    reveal_strlit("Female");
    reveal_strlit("Male");
    assert("Female"@.len() != "Male"@.len());
}

/// Every entry of a table is found by its key when no entry before it has the same.
pub proof fn a_name_is_found_by_its_code(table: Seq<(&'static str, &'static str)>, i: int)
    requires
        0 <= i < table.len(),
        forall|k: int| 0 <= k < i ==> (#[trigger] table[k]).0@ != table[i].0@,
    ensures
        voices::name_or_code(table, table[i].0@) == table[i].1@,
{
    lemma_entry(table, i, 0);
}

proof fn lemma_entry(table: Seq<(&'static str, &'static str)>, i: int, from: int)
    requires
        0 <= from <= i < table.len(),
        forall|k: int| 0 <= k < i ==> (#[trigger] table[k]).0@ != table[i].0@,
    ensures
        voices::entry(table, table[i].0@, from) == Some(table[i].1@),
    decreases i - from,
{
    if from < i {
        lemma_entry(table, i, from + 1);
    }
}

/// A search finds exactly the voices in one of whose texts it stands, whatever the case: the short
/// name, the locale, the gender, the spelled name, or what is shown of it in either language.
pub proof fn a_search_looks_at_all_that_is_known(voice: Voice, query: Seq<char>)
    requires
        text::is_visible(query),
    ensures
        ({
            let wanted = text::lowercased(text::trimmed(query));
            let holds = |s: Seq<char>| text::occurs(text::lowercased(s), wanted);
            voices::search_finds(voice, query) <==> holds(voice.short_name) || holds(voice.locale)
                || holds(voice.gender) || holds(
                match voice.friendly_name {
                    Some(name) => name,
                    None => Seq::empty(),
                },
            ) || holds(voices::label_of(voice, UiLanguage::Chinese)) || holds(
                voices::label_of(voice, UiLanguage::English),
            )
        }),
{
    text::lemma_trimmed_visible(query);
    let wanted = text::lowercased(text::trimmed(query));
    let lower = voices::search_texts(voice).map_values(|s: Seq<char>| text::lowercased(s));
    assert(lower.len() == 6);
    assert(lower[0] == text::lowercased(voice.short_name));
    assert(lower[1] == text::lowercased(voice.locale));
    assert(lower[2] == text::lowercased(voice.gender));
    assert(lower[4] == text::lowercased(voices::label_of(voice, UiLanguage::Chinese)));
    assert(lower[5] == text::lowercased(voices::label_of(voice, UiLanguage::English)));
    match voice.friendly_name {
        Some(name) => {
            assert(lower[3] == text::lowercased(name));
        },
        None => {
            assert(lower[3] == text::lowercased(Seq::empty()));
        },
    }
}

/// What is shown of a voice holds its name, its language, its gender and its locale.
pub proof fn a_label_holds_all_parts(voice: Voice, language: UiLanguage)
    ensures
        text::occurs(
            voices::label_of(voice, language),
            voices::display_name_of(voice, language),
        ),
        text::occurs(
            voices::label_of(voice, language),
            voices::language_name_of(voice, language),
        ),
        text::occurs(voices::label_of(voice, language), voices::gender_name_of(voice, language)),
        text::occurs(voices::label_of(voice, language), voice.locale),
{
    let label = voices::label_of(voice, language);
    let dot = "  ·  "@;
    let a = voices::display_name_of(voice, language);
    let b = voices::language_name_of(voice, language);
    let c = voices::gender_name_of(voice, language);
    let d = voice.locale;
    assert(label.subrange(0, a.len() as int) =~= a);
    assert(text::occurs_at(label, a, 0));
    let at_b = (a + dot).len() as int;
    assert(label.subrange(at_b, at_b + b.len()) =~= b);
    assert(text::occurs_at(label, b, at_b));
    let at_c = (a + dot + b + dot).len() as int;
    assert(label.subrange(at_c, at_c + c.len()) =~= c);
    assert(text::occurs_at(label, c, at_c));
    let at_d = (a + dot + b + dot + c + dot).len() as int;
    assert(label.subrange(at_d, at_d + d.len()) =~= d);
    assert(text::occurs_at(label, d, at_d));
}

/// The positions that a search gives are those of the voices that it finds, each once and in order.
pub proof fn a_search_gives_what_it_finds(all: Seq<Voice>, query: Seq<char>)
    requires
        all.len() <= usize::MAX,
    ensures
        ({
            let positions = voices::found_positions(all, query);
            &&& forall|i: int|
                #![trigger positions[i]]
                0 <= i < positions.len() ==> positions[i] < all.len() && voices::search_finds(
                    all[positions[i] as int],
                    query,
                )
            &&& forall|k: int|
                #![trigger all[k]]
                0 <= k < all.len() && voices::search_finds(all[k], query) ==> positions.contains(
                    k as usize,
                )
            &&& forall|i: int, j: int|
                #![trigger positions[i], positions[j]]
                0 <= i < j < positions.len() ==> positions[i] < positions[j]
        }),
    decreases all.len(),
{
    if all.len() > 0 {
        let rest = all.drop_last();
        let n = all.len() - 1;
        a_search_gives_what_it_finds(rest, query);
        let before = voices::found_positions(rest, query);
        let positions = voices::found_positions(all, query);
        assert forall|i: int|
            #![trigger positions[i]]
            0 <= i < positions.len() implies positions[i] < all.len() && voices::search_finds(
            all[positions[i] as int],
            query,
        ) by {
            if i < before.len() {
                assert(positions[i] == before[i]);
                assert(rest[before[i] as int] == all[before[i] as int]);
            }
        }
        assert forall|k: int|
            #![trigger all[k]]
            0 <= k < all.len() && voices::search_finds(
                all[k],
                query,
            ) implies positions.contains(k as usize) by {
            if k < n {
                assert(rest[k] == all[k]);
                assert(before.contains(k as usize));
                let i = choose|i: int| 0 <= i < before.len() && before[i] == k as usize;
                assert(positions[i] == k as usize);
            } else {
                assert(positions[before.len() as int] == k as usize);
            }
        }
        assert forall|i: int, j: int|
            #![trigger positions[i], positions[j]]
            0 <= i < j < positions.len() implies positions[i] < positions[j] by {
            assert(positions[i] == before[i]);
            if j < before.len() {
                assert(positions[j] == before[j]);
            }
        }
    }
}

/// The voice with a name is the first one that has it.
pub proof fn a_voice_is_the_first_of_its_name(all: Seq<Voice>, name: Seq<char>, i: int)
    requires
        0 <= i < all.len(),
        all[i].short_name == name,
        forall|k: int| 0 <= k < i ==> (#[trigger] all[k]).short_name != name,
    ensures
        voices::voice_position(all, name, 0) == Some(i),
{
    lemma_position(all, name, i, 0);
}

proof fn lemma_position(all: Seq<Voice>, name: Seq<char>, i: int, from: int)
    requires
        0 <= from <= i < all.len(),
        all[i].short_name == name,
        forall|k: int| 0 <= k < i ==> (#[trigger] all[k]).short_name != name,
    ensures
        voices::voice_position(all, name, from) == Some(i),
    decreases i - from,
{
    if from < i {
        lemma_position(all, name, i, from + 1);
    }
}

/// A text comes before another when it has the smaller character where they first differ, or when
/// it is the beginning of the other.
pub proof fn texts_are_ordered_by_their_first_difference(a: Seq<char>, b: Seq<char>, n: int)
    requires
        0 <= n <= a.len(),
        n < b.len(),
        forall|i: int| 0 <= i < n ==> #[trigger] a[i] == b[i],
        n < a.len() ==> a[n] != b[n],
    ensures
        n == a.len() ==> voice_order::text_before(a, b) && !voice_order::text_before(b, a),
        n < a.len() ==> (voice_order::text_before(a, b) <==> (a[n] as u32) < (b[n] as u32)),
    decreases n,
{
    if n > 0 {
        assert(a[0] == b[0]);
        let c = a.drop_first();
        let d = b.drop_first();
        assert forall|i: int| 0 <= i < n - 1 implies #[trigger] c[i] == d[i] by {
            assert(a[i + 1] == b[i + 1]);
        }
        if n < a.len() {
            assert(c[n - 1] == a[n] && d[n - 1] == b[n]);
        }
        texts_are_ordered_by_their_first_difference(c, d, n - 1);
    }
}

/// Voices are listed by their locale, and those of one locale by their name.
pub proof fn voices_are_listed_by_locale_and_name(a: Voice, b: Voice)
    ensures
        a.locale == b.locale ==> (voice_order::voice_before(a, b) <==> voice_order::text_before(
            a.short_name,
            b.short_name,
        )),
        a.locale != b.locale ==> (voice_order::voice_before(a, b) <==> voice_order::text_before(
            a.locale,
            b.locale,
        )),
{
    if a.locale == b.locale {
        lemma_not_before_itself(a.locale);
    }
}

proof fn lemma_not_before_itself(s: Seq<char>)
    ensures
        !voice_order::text_before(s, s),
    decreases s.len(),
{
    if s.len() > 0 {
        lemma_not_before_itself(s.drop_first());
    }
}

/// A proxy of the system is used exactly when the user has set none.
pub proof fn the_proxy_of_the_system_is_used(values: Seq<Option<String>>, proxy: Seq<char>)
    requires
        proxy.len() > 0,
        forall|i: int|
            0 <= i < values.len() ==> (#[trigger] values[i] is None || values[i]->0@.len() == 0),
    ensures
        system_proxy::chosen_proxy(values, Some(proxy)) == Some(proxy),
        system_proxy::chosen_proxy(values, None) is None,
{
}

} // verus!
