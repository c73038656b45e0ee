//! Reading text in captures: which languages the recognizer is asked for.

use vstd::prelude::*;

use crate::capture::frame;
use crate::capture::frame::RgbaImage;
use crate::clipboard;
use crate::commands::history::CaptureFault;
use crate::text;

verus! {

/// The recognizer's name for a language.
pub open spec fn tess_code(lang: Seq<char>, region: Option<Seq<char>>) -> Option<Seq<char>> {
    if lang == "en"@ {
        Some("eng"@)
    } else if lang == "de"@ {
        Some("deu"@)
    } else if lang == "fr"@ {
        Some("fra"@)
    } else if lang == "es"@ {
        Some("spa"@)
    } else if lang == "it"@ {
        Some("ita"@)
    } else if lang == "pt"@ {
        Some("por"@)
    } else if lang == "ru"@ {
        Some("rus"@)
    } else if lang == "ja"@ {
        Some("jpn"@)
    } else if lang == "ko"@ {
        Some("kor"@)
    } else if lang == "nl"@ {
        Some("nld"@)
    } else if lang == "pl"@ {
        Some("pol"@)
    } else if lang == "sv"@ {
        Some("swe"@)
    } else if lang == "fi"@ {
        Some("fin"@)
    } else if lang == "da"@ {
        Some("dan"@)
    } else if lang == "nb"@ {
        Some("nor"@)
    } else if lang == "no"@ {
        Some("nor"@)
    } else if lang == "cs"@ {
        Some("ces"@)
    } else if lang == "hu"@ {
        Some("hun"@)
    } else if lang == "tr"@ {
        Some("tur"@)
    } else if lang == "uk"@ {
        Some("ukr"@)
    } else if lang == "el"@ {
        Some("ell"@)
    } else if lang == "ro"@ {
        Some("ron"@)
    } else if lang == "bg"@ {
        Some("bul"@)
    } else if lang == "ar"@ {
        Some("ara"@)
    } else if lang == "he"@ {
        Some("heb"@)
    } else if lang == "hi"@ {
        Some("hin"@)
    } else if lang == "th"@ {
        Some("tha"@)
    } else if lang == "vi"@ {
        Some("vie"@)
    } else if lang == "zh"@ {
        if region == Some("TW"@) || region == Some("HK"@) || region == Some("MO"@) {
            Some("chi_tra"@)
        } else {
            Some("chi_sim"@)
        }
    } else {
        None
    }
}

/// The recognizer's name for a language. Chinese is written in two ways.
pub fn locale_to_tess(lang: &str, region: Option<&str>) -> (r: Option<&'static str>)
    ensures
        text::opt(r) == tess_code(lang@, text::opt(region)),
{
    if text::same(lang, "en") {
        Some("eng")
    } else if text::same(lang, "de") {
        Some("deu")
    } else if text::same(lang, "fr") {
        Some("fra")
    } else if text::same(lang, "es") {
        Some("spa")
    } else if text::same(lang, "it") {
        Some("ita")
    } else if text::same(lang, "pt") {
        Some("por")
    } else if text::same(lang, "ru") {
        Some("rus")
    } else if text::same(lang, "ja") {
        Some("jpn")
    } else if text::same(lang, "ko") {
        Some("kor")
    } else if text::same(lang, "nl") {
        Some("nld")
    } else if text::same(lang, "pl") {
        Some("pol")
    } else if text::same(lang, "sv") {
        Some("swe")
    } else if text::same(lang, "fi") {
        Some("fin")
    } else if text::same(lang, "da") {
        Some("dan")
    } else if text::same(lang, "nb") {
        Some("nor")
    } else if text::same(lang, "no") {
        Some("nor")
    } else if text::same(lang, "cs") {
        Some("ces")
    } else if text::same(lang, "hu") {
        Some("hun")
    } else if text::same(lang, "tr") {
        Some("tur")
    } else if text::same(lang, "uk") {
        Some("ukr")
    } else if text::same(lang, "el") {
        Some("ell")
    } else if text::same(lang, "ro") {
        Some("ron")
    } else if text::same(lang, "bg") {
        Some("bul")
    } else if text::same(lang, "ar") {
        Some("ara")
    } else if text::same(lang, "he") {
        Some("heb")
    } else if text::same(lang, "hi") {
        Some("hin")
    } else if text::same(lang, "th") {
        Some("tha")
    } else if text::same(lang, "vi") {
        Some("vie")
    } else if text::same(lang, "zh") {
        match region {
            Some(r) => if text::same(r, "TW") || text::same(r, "HK") || text::same(r, "MO") {
                Some("chi_tra")
            } else {
                Some("chi_sim")
            },
            None => Some("chi_sim"),
        }
    } else {
        None
    }
}

/// A locale without its encoding and its modifier.
pub open spec fn bare_locale(s: Seq<char>) -> Seq<char>
    decreases s.len(),
{
    if s.len() == 0 || s[0] == '.' || s[0] == '@' {
        Seq::empty()
    } else {
        seq![s[0]] + bare_locale(s.skip(1))
    }
}

fn read_bare_locale(s: &str) -> (r: String)
    ensures
        r@ == bare_locale(s@),
{
    let a = text::chars_of(s);
    let mut r = String::new();
    let mut i: usize = 0;
    assert(a@.skip(0) =~= a@);
    assert(r@ + bare_locale(a@) =~= bare_locale(a@));
    while i < a.len() && a[i] != '.' && a[i] != '@'
        invariant
            a@ == s@,
            i <= a@.len(),
            r@ + bare_locale(a@.skip(i as int)) == bare_locale(s@),
        decreases a@.len() - i,
    {
        let ghost t = a@.skip(i as int);
        assert(t[0] == a@[i as int]);
        assert(t.skip(1) =~= a@.skip(i + 1));
        assert(r@.push(a@[i as int]) + bare_locale(a@.skip(i + 1)) =~= r@ + (seq![a@[i as int]]
            + bare_locale(a@.skip(i + 1))));
        r.push(a[i]);
        i = i + 1;
    }
    assert(bare_locale(a@.skip(i as int)) =~= Seq::<char>::empty());
    assert(r@ + Seq::<char>::empty() =~= r@);
    r
}

/// The recognizer's name for the language of a locale. `C` and `POSIX` name no
/// language.
pub open spec fn locale_code(locale: Seq<char>) -> Option<Seq<char>> {
    let l = bare_locale(locale);
    if l.len() == 0 || l == "C"@ || l == "POSIX"@ {
        None
    } else {
        let k = text::find(l, '_');
        if k < l.len() {
            tess_code(l.take(k), Some(l.skip(k + 1)))
        } else {
            tess_code(l, None)
        }
    }
}

fn code_of(locale: &str) -> (r: Option<&'static str>)
    ensures
        text::opt(r) == locale_code(locale@),
{
    let l = read_bare_locale(locale);
    if l.as_str().is_empty() || text::same(l.as_str(), "C") || text::same(l.as_str(), "POSIX") {
        return None;
    }
    let a = text::chars_of(l.as_str());
    let n: usize = a.len();
    for k in 0..n
        invariant
            n == a@.len(),
            a@ == l@,
            l@ == bare_locale(locale@),
            !(l@.len() == 0 || l@ == "C"@ || l@ == "POSIX"@),
            forall|j: int| 0 <= j < k ==> a@[j] != '_',
    {
        if a[k] == '_' {
            let lang = text::part_of(&a, 0, k);
            let region = text::part_of(&a, k + 1, n);
            proof {
                text::lemma_find_is(l@, '_', k as int);
            }
            assert(lang@ =~= l@.take(k as int));
            assert(region@ =~= l@.skip(k + 1));
            return locale_to_tess(lang.as_str(), Some(region.as_str()));
        }
    }
    proof {
        text::lemma_find(l@, '_');
    }
    locale_to_tess(l.as_str(), None)
}

/// The recognizer's names for the languages of the locales, those that have one.
pub open spec fn codes(locales: Seq<Seq<char>>) -> Seq<Seq<char>>
    decreases locales.len(),
{
    if locales.len() == 0 {
        Seq::empty()
    } else {
        match locale_code(locales.last()) {
            Some(c) => codes(locales.drop_last()).push(c),
            None => codes(locales.drop_last()),
        }
    }
}

/// A variable that is set and not empty.
pub open spec fn given(v: Option<Seq<char>>) -> bool {
    v matches Some(s) && s.len() > 0
}

/// The locales that the user prefers, the most preferred first.
pub open spec fn locales(
    language: Option<Seq<char>>,
    lc_all: Option<Seq<char>>,
    lang: Option<Seq<char>>,
) -> Seq<Seq<char>> {
    if given(language) {
        text::split(language->0, ':')
    } else if given(lc_all) {
        seq![lc_all->0]
    } else if given(lang) {
        seq![lang->0]
    } else {
        Seq::empty()
    }
}

fn is_given(v: Option<&str>) -> (r: bool)
    ensures
        r == given(text::opt(v)),
{
    match v {
        Some(s) => !s.is_empty(),
        None => false,
    }
}

/// The languages that the recognizer is asked for: those of the `LANGUAGE` list,
/// else of `LC_ALL`, else of `LANG`; none stands twice.
pub fn desired_tess_langs(language: Option<&str>, lc_all: Option<&str>, lang: Option<&str>) -> (r: Vec<
    String,
>)
    ensures
        text::texts(r@) == text::distinct(
            codes(locales(text::opt(language), text::opt(lc_all), text::opt(lang))),
        ),
{
    let ghost want = locales(text::opt(language), text::opt(lc_all), text::opt(lang));
    let mut raw: Vec<String> = Vec::new();
    if is_given(language) {
        match language {
            Some(list) => {
                raw = text::pieces(list, ':');
            },
            None => {},
        }
    } else if is_given(lc_all) {
        match lc_all {
            Some(l) => raw.push(l.to_owned()),
            None => {},
        }
    } else if is_given(lang) {
        match lang {
            Some(l) => raw.push(l.to_owned()),
            None => {},
        }
    }
    assert(text::texts(raw@) =~= want);
    let mut mapped: Vec<String> = Vec::new();
    let n: usize = raw.len();
    assert(text::texts(mapped@) =~= Seq::<Seq<char>>::empty());
    assert(want.take(0) =~= Seq::<Seq<char>>::empty());
    for i in 0..n
        invariant
            n == raw@.len(),
            text::texts(raw@) == want,
            text::texts(mapped@) == text::distinct(codes(want.take(i as int))),
    {
        let ghost before = codes(want.take(i as int));
        assert(want.take(i + 1).drop_last() =~= want.take(i as int));
        assert(want.take(i + 1).last() == raw@[i as int]@);
        match code_of(raw[i].as_str()) {
            Some(code) => {
                assert(before.push(code@).drop_last() =~= before);
                text::push_distinct(&mut mapped, code.to_owned());
            },
            None => {},
        }
    }
    assert(want.take(n as int) =~= want);
    mapped
}

// ---- what is installed -----------------------------------------------------------------------

/// The lines without white space around them, those that hold something.
pub open spec fn names_in(lines: Seq<Seq<char>>) -> Seq<Seq<char>>
    decreases lines.len(),
{
    if lines.len() == 0 {
        Seq::empty()
    } else {
        let t = text::trim(lines.last());
        if t.len() == 0 {
            names_in(lines.drop_last())
        } else {
            names_in(lines.drop_last()).push(t)
        }
    }
}

/// The languages in the list that the recognizer prints, behind its first line.
pub fn installed_tess_langs(listing: &str) -> (r: Vec<String>)
    ensures
        text::texts(r@) == names_in(text::split(listing@, '\n').skip(1)),
{
    let lines = text::pieces(listing, '\n');
    let n: usize = lines.len();
    let ghost t = text::split(listing@, '\n');
    let ghost rest = t.skip(1);
    assert(n >= 1);
    let mut out: Vec<String> = Vec::new();
    assert(text::texts(out@) =~= Seq::<Seq<char>>::empty());
    assert(rest.take(0) =~= Seq::<Seq<char>>::empty());
    for i in 1..n
        invariant
            n == lines@.len(),
            text::texts(lines@) == t,
            rest == t.skip(1),
            text::texts(out@) == names_in(rest.take(i - 1)),
    {
        assert(rest.take(i as int).drop_last() =~= rest.take(i - 1));
        assert(rest.take(i as int).last() == lines@[i as int]@);
        let name = text::trimmed(lines[i].as_str());
        if !name.as_str().is_empty() {
            let ghost before = text::texts(out@);
            out.push(name);
            assert(text::texts(out@) =~= before.push(name@));
        }
    }
    assert(rest.take(n - 1) =~= rest);
    out
}

/// Those of the languages that are installed.
pub open spec fn kept(desired: Seq<Seq<char>>, installed: Seq<Seq<char>>) -> Seq<Seq<char>>
    decreases desired.len(),
{
    if desired.len() == 0 {
        desired
    } else if installed.contains(desired.last()) {
        kept(desired.drop_last(), installed).push(desired.last())
    } else {
        kept(desired.drop_last(), installed)
    }
}

/// The texts, with a plus sign between them.
pub open spec fn with_plus(s: Seq<Seq<char>>) -> Seq<char>
    decreases s.len(),
{
    if s.len() == 0 {
        Seq::empty()
    } else if s.len() == 1 {
        s[0]
    } else {
        with_plus(s.drop_last()) + "+"@ + s.last()
    }
}

/// The recognizer's argument for the languages, if any of them is installed.
pub fn tesseract_lang_args(desired: &[String], installed: &[String]) -> (r: Option<String>)
    ensures
        text::opt_owned(r) == ({
            let k = kept(text::texts(desired@), text::texts(installed@));
            if k.len() == 0 {
                None
            } else {
                Some(with_plus(k))
            }
        }),
{
    let n: usize = desired.len();
    let ghost d = text::texts(desired@);
    let ghost have = text::texts(installed@);
    let mut any = false;
    let mut s = String::new();
    assert(s@ =~= Seq::<char>::empty());
    assert(d.take(0) =~= Seq::<Seq<char>>::empty());
    for i in 0..n
        invariant
            n == desired@.len(),
            d == text::texts(desired@),
            have == text::texts(installed@),
            s@ == with_plus(kept(d.take(i as int), have)),
            any == (kept(d.take(i as int), have).len() > 0),
    {
        let ghost k = kept(d.take(i as int), have);
        assert(d.take(i + 1).drop_last() =~= d.take(i as int));
        assert(d.take(i + 1).last() == desired@[i as int]@);
        if text::list_has(installed, desired[i].as_str()) {
            assert(k.push(desired@[i as int]@).drop_last() =~= k);
            if any {
                s.append("+");
            } else {
                assert(s@ + desired@[i as int]@ =~= desired@[i as int]@);
            }
            s.append(desired[i].as_str());
            any = true;
        }
    }
    assert(d.take(n as int) =~= d);
    if any {
        Some(s)
    } else {
        None
    }
}

/// What the recognizer is called with.
pub fn tesseract_args(langs: Option<&str>) -> (r: Vec<String>)
    ensures
        text::texts(r@) == (match text::opt(langs) {
            Some(l) => seq!["stdin"@, "stdout"@, "-l"@, l],
            None => seq!["stdin"@, "stdout"@],
        }),
{
    let mut v: Vec<String> = Vec::new();
    v.push("stdin".to_owned());
    v.push("stdout".to_owned());
    match langs {
        Some(l) => {
            v.push("-l".to_owned());
            v.push(l.to_owned());
            assert(text::texts(v@) =~= seq!["stdin"@, "stdout"@, "-l"@, l@]);
        },
        None => {
            assert(text::texts(v@) =~= seq!["stdin"@, "stdout"@]);
        },
    }
    v
}

/// What came of running the recognizer.
#[derive(Debug)]
pub enum Recognition {
    /// It is not there.
    Missing,
    /// It ended with a status that is no success, in words.
    Failed { status: String },
    /// It printed the text.
    Printed { text: String },
}

/// The text in an image, or why there is none, from what came of running the
/// recognizer.
pub fn ocr_image_bytes(outcome: &Recognition) -> (r: Result<String, String>)
    ensures
        match *outcome {
            Recognition::Missing => r matches Err(e) && e@
                == "OCR needs tesseract — install the tesseract-ocr package"@,
            Recognition::Failed { status } => r matches Err(e) && e@
                == "tesseract failed with status "@ + status@,
            Recognition::Printed { text } => r matches Ok(t) && t@ == text::trim(text@),
        },
{
    match outcome {
        Recognition::Missing => Err(
            "OCR needs tesseract — install the tesseract-ocr package".to_owned(),
        ),
        Recognition::Failed { status } => {
            let mut s = String::from_str("tesseract failed with status ");
            s.append(status.as_str());
            Err(s)
        },
        Recognition::Printed { text } => Ok(text::trimmed(text.as_str())),
    }
}

/// Whether the text in a file is read.
pub fn run_ocr(path_allowed: bool) -> (r: Result<(), CaptureFault>)
    ensures
        r == (if path_allowed {
            Ok::<(), CaptureFault>(())
        } else {
            Err(CaptureFault::Outside)
        }),
{
    if path_allowed {
        Ok(())
    } else {
        Err(CaptureFault::Outside)
    }
}

// ---- captures --------------------------------------------------------------------------------

/// An image as a PNG, by the `image` crate. Nothing where it cannot be encoded.
pub uninterp spec fn png_of(raw: Seq<u8>, width: u32, height: u32) -> Option<Seq<u8>>;

/// `image::codecs::png::PngEncoder::write_image`: the bytes of the image as a
/// PNG, a function of the image alone.
#[verifier::external_body]
fn encode_png(raw: &[u8], width: u32, height: u32) -> (r: Option<Vec<u8>>)
    requires
        raw@.len() == width * height * 4,
    ensures
        text::opt_bytes(r) == png_of(raw@, width, height),
{
    let mut png = Vec::new();
    let encoder = image::codecs::png::PngEncoder::new(&mut png);
    let color = image::ExtendedColorType::Rgba8;
    image::ImageEncoder::write_image(encoder, raw, width, height, color).ok()?;
    Some(png)
}

/// What the recognizer reads to find the text in a capture: its PNG.
pub fn ocr_capture(image: &RgbaImage) -> (r: Option<Vec<u8>>)
    requires
        image.wf(),
    ensures
        text::opt_bytes(r) == png_of(
            clipboard::raw_pixels(*image),
            image.spec_width(),
            image.spec_height(),
        ),
{
    let raw = frame::raw_of(image);
    proof {
        clipboard::lemma_raw_pixels(*image, raw@);
    }
    encode_png(&raw, image.width(), image.height())
}

// ---- laws --------------------------------------------------------------------------------------

/// The two letters of a language have the three of the recognizer, in every
/// region. Only Chinese depends on it: it is written in the old way in Taiwan,
/// Hong Kong and Macau, and in the simple way elsewhere.
#[verifier::rlimit(40)]
pub proof fn lemma_languages_have_their_codes(
    lang: &str,
    region: Option<&str>,
    r: Option<&'static str>,
)
    requires
        call_ensures(locale_to_tess, (lang, region), r),
    ensures
        lang@ == "en"@ ==> (r matches Some(c) && c@ == "eng"@),
        lang@ == "de"@ ==> (r matches Some(c) && c@ == "deu"@),
        lang@ == "fr"@ ==> (r matches Some(c) && c@ == "fra"@),
        lang@ == "es"@ ==> (r matches Some(c) && c@ == "spa"@),
        lang@ == "it"@ ==> (r matches Some(c) && c@ == "ita"@),
        lang@ == "pt"@ ==> (r matches Some(c) && c@ == "por"@),
        lang@ == "ru"@ ==> (r matches Some(c) && c@ == "rus"@),
        lang@ == "ja"@ ==> (r matches Some(c) && c@ == "jpn"@),
        lang@ == "ko"@ ==> (r matches Some(c) && c@ == "kor"@),
        lang@ == "nl"@ ==> (r matches Some(c) && c@ == "nld"@),
        lang@ == "pl"@ ==> (r matches Some(c) && c@ == "pol"@),
        lang@ == "sv"@ ==> (r matches Some(c) && c@ == "swe"@),
        lang@ == "fi"@ ==> (r matches Some(c) && c@ == "fin"@),
        lang@ == "da"@ ==> (r matches Some(c) && c@ == "dan"@),
        lang@ == "nb"@ ==> (r matches Some(c) && c@ == "nor"@),
        lang@ == "no"@ ==> (r matches Some(c) && c@ == "nor"@),
        lang@ == "cs"@ ==> (r matches Some(c) && c@ == "ces"@),
        lang@ == "hu"@ ==> (r matches Some(c) && c@ == "hun"@),
        lang@ == "tr"@ ==> (r matches Some(c) && c@ == "tur"@),
        lang@ == "uk"@ ==> (r matches Some(c) && c@ == "ukr"@),
        lang@ == "el"@ ==> (r matches Some(c) && c@ == "ell"@),
        lang@ == "ro"@ ==> (r matches Some(c) && c@ == "ron"@),
        lang@ == "bg"@ ==> (r matches Some(c) && c@ == "bul"@),
        lang@ == "ar"@ ==> (r matches Some(c) && c@ == "ara"@),
        lang@ == "he"@ ==> (r matches Some(c) && c@ == "heb"@),
        lang@ == "hi"@ ==> (r matches Some(c) && c@ == "hin"@),
        lang@ == "th"@ ==> (r matches Some(c) && c@ == "tha"@),
        lang@ == "vi"@ ==> (r matches Some(c) && c@ == "vie"@),
        lang@ == "zh"@ ==> (r matches Some(c) && c@ == (if region is Some && (region->0@ == "TW"@
            || region->0@ == "HK"@ || region->0@ == "MO"@) {
            "chi_tra"@
        } else {
            "chi_sim"@
        })),
        lang@.len() != 2 ==> r is None,
{
    reveal_strlit("en");
    assert("en"@[0] == 'e' && "en"@[1] == 'n');
    reveal_strlit("de");
    assert("de"@[0] == 'd' && "de"@[1] == 'e');
    reveal_strlit("fr");
    assert("fr"@[0] == 'f' && "fr"@[1] == 'r');
    reveal_strlit("es");
    assert("es"@[0] == 'e' && "es"@[1] == 's');
    reveal_strlit("it");
    assert("it"@[0] == 'i' && "it"@[1] == 't');
    reveal_strlit("pt");
    assert("pt"@[0] == 'p' && "pt"@[1] == 't');
    reveal_strlit("ru");
    assert("ru"@[0] == 'r' && "ru"@[1] == 'u');
    reveal_strlit("ja");
    assert("ja"@[0] == 'j' && "ja"@[1] == 'a');
    reveal_strlit("ko");
    assert("ko"@[0] == 'k' && "ko"@[1] == 'o');
    reveal_strlit("nl");
    assert("nl"@[0] == 'n' && "nl"@[1] == 'l');
    reveal_strlit("pl");
    assert("pl"@[0] == 'p' && "pl"@[1] == 'l');
    reveal_strlit("sv");
    assert("sv"@[0] == 's' && "sv"@[1] == 'v');
    reveal_strlit("fi");
    assert("fi"@[0] == 'f' && "fi"@[1] == 'i');
    reveal_strlit("da");
    assert("da"@[0] == 'd' && "da"@[1] == 'a');
    reveal_strlit("nb");
    assert("nb"@[0] == 'n' && "nb"@[1] == 'b');
    reveal_strlit("no");
    assert("no"@[0] == 'n' && "no"@[1] == 'o');
    reveal_strlit("cs");
    assert("cs"@[0] == 'c' && "cs"@[1] == 's');
    reveal_strlit("hu");
    assert("hu"@[0] == 'h' && "hu"@[1] == 'u');
    reveal_strlit("tr");
    assert("tr"@[0] == 't' && "tr"@[1] == 'r');
    reveal_strlit("uk");
    assert("uk"@[0] == 'u' && "uk"@[1] == 'k');
    reveal_strlit("el");
    assert("el"@[0] == 'e' && "el"@[1] == 'l');
    reveal_strlit("ro");
    assert("ro"@[0] == 'r' && "ro"@[1] == 'o');
    reveal_strlit("bg");
    assert("bg"@[0] == 'b' && "bg"@[1] == 'g');
    reveal_strlit("ar");
    assert("ar"@[0] == 'a' && "ar"@[1] == 'r');
    reveal_strlit("he");
    assert("he"@[0] == 'h' && "he"@[1] == 'e');
    reveal_strlit("hi");
    assert("hi"@[0] == 'h' && "hi"@[1] == 'i');
    reveal_strlit("th");
    assert("th"@[0] == 't' && "th"@[1] == 'h');
    reveal_strlit("vi");
    assert("vi"@[0] == 'v' && "vi"@[1] == 'i');
    reveal_strlit("zh");
    assert("zh"@[0] == 'z' && "zh"@[1] == 'h');
}

/// Where a list of languages is given, nothing else is asked. Without one,
/// `LC_ALL` counts before `LANG`. No language is asked for twice.
pub proof fn lemma_given_languages_count(
    list: Option<&str>,
    all: Option<&str>,
    lang: Option<&str>,
    r: Vec<String>,
    q: Vec<String>,
    i: int,
    j: int,
)
    requires
        call_ensures(desired_tess_langs, (list, all, lang), r),
        (list is Some && list->0@.len() > 0 && call_ensures(
            desired_tess_langs,
            (list, None, None),
            q,
        )) || (list is None && all is Some && all->0@.len() > 0 && call_ensures(
            desired_tess_langs,
            (None, all, None),
            q,
        )),
    ensures
        text::texts(r@) == text::texts(q@),
        0 <= i < j < r@.len() ==> r@[i]@ != r@[j]@,
{
    text::lemma_distinct(codes(locales(text::opt(list), text::opt(all), text::opt(lang))));
    if 0 <= i < j < r@.len() {
        assert(text::texts(r@)[i] == r@[i]@);
        assert(text::texts(r@)[j] == r@[j]@);
    }
}

proof fn lemma_bare_locale(bare: Seq<char>, rest: Seq<char>)
    requires
        !bare.contains('.'),
        !bare.contains('@'),
        rest.len() == 0 || rest[0] == '.' || rest[0] == '@',
    ensures
        bare_locale(bare + rest) == bare,
    decreases bare.len(),
{
    let s = bare + rest;
    if bare.len() == 0 {
        assert(s =~= rest);
        assert(bare_locale(s) =~= bare);
    } else {
        assert(bare.contains(bare[0]));
        assert(s[0] == bare[0]);
        let tail = bare.skip(1);
        assert(!tail.contains('.')) by {
            if tail.contains('.') {
                let k = choose|k: int| 0 <= k < tail.len() && tail[k] == '.';
                assert(bare[k + 1] == '.');
            }
        }
        assert(!tail.contains('@')) by {
            if tail.contains('@') {
                let k = choose|k: int| 0 <= k < tail.len() && tail[k] == '@';
                assert(bare[k + 1] == '@');
            }
        }
        lemma_bare_locale(tail, rest);
        assert(s.skip(1) =~= tail + rest);
        assert(seq![bare[0]] + tail =~= bare);
    }
}

/// A locale is a language, an underscore and a region, before what says how it is
/// written: the language of that region is asked for.
pub proof fn lemma_locale_names_language_and_region(
    language: &str,
    region: &str,
    rest: Seq<char>,
    locale: &str,
    r: Vec<String>,
    code: Option<&'static str>,
)
    requires
        locale@ == language@ + seq!['_'] + region@ + rest,
        !language@.contains('_') && !language@.contains('.') && !language@.contains('@'),
        !region@.contains('.') && !region@.contains('@'),
        rest.len() == 0 || rest[0] == '.' || rest[0] == '@',
        call_ensures(desired_tess_langs, (None, None, Some(locale)), r),
        call_ensures(locale_to_tess, (language, Some(region)), code),
    ensures
        code matches Some(c) ==> r@.len() == 1 && r@[0]@ == c@,
        code is None ==> r@.len() == 0,
{
    let bare = language@ + seq!['_'] + region@;
    assert forall|k: int| 0 <= k < bare.len() implies bare[k] != '.' && bare[k] != '@' by {
        if k < language@.len() {
            assert(language@.contains(bare[k]));
        } else if k > language@.len() {
            assert(region@[k - language@.len() - 1] == bare[k]);
            assert(region@.contains(bare[k]));
        }
    }
    lemma_bare_locale(bare, rest);
    assert(bare + rest =~= locale@);
    assert forall|k: int| 0 <= k < language@.len() implies bare[k] != '_' by {
        assert(language@.contains(bare[k]));
    }
    assert(bare[language@.len() as int] == '_');
    text::lemma_find_is(bare, '_', language@.len() as int);
    assert(bare.take(language@.len() as int) =~= language@);
    assert(bare.skip((language@.len() + 1) as int) =~= region@);
    reveal_strlit("C");
    reveal_strlit("POSIX");
    assert(bare != "C"@) by {
        if bare == "C"@ {
            assert("C"@[0] == 'C');
        }
    }
    assert(bare != "POSIX"@) by {
        if bare == "POSIX"@ {
            let p = "POSIX"@;
            assert(p[0] == 'P' && p[1] == 'O' && p[2] == 'S' && p[3] == 'I' && p[4] == 'X');
        }
    }
    let want = seq![locale@];
    assert(locales(None, None, Some(locale@)) =~= want) by {
        assert(locale@.len() > 0);
    }
    assert(want.drop_last() =~= Seq::<Seq<char>>::empty());
    assert(codes(want.drop_last()) =~= Seq::<Seq<char>>::empty());
    let c = codes(want);
    if code is Some {
        assert(c =~= seq![code->0@]);
        assert(c.drop_last() =~= Seq::<Seq<char>>::empty());
        assert(text::distinct(c.drop_last()) =~= Seq::<Seq<char>>::empty());
        assert(text::distinct(c) =~= c);
        assert(text::texts(r@).len() == 1);
        assert(text::texts(r@)[0] == r@[0]@);
    } else {
        assert(c =~= Seq::<Seq<char>>::empty());
        assert(text::texts(r@).len() == 0);
    }
}

proof fn lemma_kept(desired: Seq<Seq<char>>, installed: Seq<Seq<char>>)
    ensures
        forall|i: int|
            0 <= i < kept(desired, installed).len() ==> installed.contains(
                #[trigger] kept(desired, installed)[i],
            ) && desired.contains(kept(desired, installed)[i]),
        (forall|i: int| 0 <= i < desired.len() ==> installed.contains(#[trigger] desired[i]))
            ==> kept(desired, installed) == desired,
        (forall|i: int| 0 <= i < desired.len() ==> !installed.contains(#[trigger] desired[i]))
            ==> kept(desired, installed).len() == 0,
    decreases desired.len(),
{
    if desired.len() > 0 {
        let rest = desired.drop_last();
        let k = kept(desired, installed);
        lemma_kept(rest, installed);
        assert(desired[desired.len() - 1] == desired.last());
        assert forall|i: int| 0 <= i < rest.len() implies #[trigger] rest[i] == desired[i] by {}
        assert forall|i: int| 0 <= i < k.len() implies installed.contains(#[trigger] k[i])
            && desired.contains(k[i]) by {
            if i < kept(rest, installed).len() {
                assert(k[i] == kept(rest, installed)[i]);
                assert(rest.contains(k[i]));
                let q = choose|q: int| 0 <= q < rest.len() && rest[q] == k[i];
                assert(desired[q] == k[i]);
            } else {
                assert(desired.contains(desired.last()));
            }
        }
        if forall|i: int| 0 <= i < desired.len() ==> installed.contains(#[trigger] desired[i]) {
            assert(kept(desired, installed) =~= desired);
        }
    }
}

/// Languages that are not installed are not asked for. Those that are stand with
/// a plus sign between them.
pub proof fn lemma_installed_languages_are_asked_for(
    a: String,
    b: String,
    desired: &[String],
    installed: &[String],
    r: Option<String>,
)
    requires
        desired@ == seq![a, b],
        call_ensures(tesseract_lang_args, (desired, installed), r),
    ensures
        ({
            let has_a = text::texts(installed@).contains(a@);
            let has_b = text::texts(installed@).contains(b@);
            &&& has_a && has_b ==> (r matches Some(s) && s@ == a@ + "+"@ + b@)
            &&& has_a && !has_b ==> (r matches Some(s) && s@ == a@)
            &&& !has_a && has_b ==> (r matches Some(s) && s@ == b@)
            &&& !has_a && !has_b ==> r is None
        }),
{
    let d = text::texts(desired@);
    let have = text::texts(installed@);
    assert(d =~= seq![a@, b@]);
    let one = seq![a@];
    assert(d.drop_last() =~= one);
    assert(one.drop_last() =~= Seq::<Seq<char>>::empty());
    assert(kept(one.drop_last(), have) =~= Seq::<Seq<char>>::empty());
    if have.contains(a@) {
        assert(kept(one, have) =~= seq![a@]);
        if have.contains(b@) {
            assert(kept(d, have) =~= seq![a@, b@]);
            assert(seq![a@, b@].drop_last() =~= seq![a@]);
            assert(with_plus(seq![a@]) == a@);
            assert(with_plus(seq![a@, b@]) == a@ + "+"@ + b@);
        } else {
            assert(kept(d, have) =~= seq![a@]);
        }
    } else {
        assert(kept(one, have) =~= Seq::<Seq<char>>::empty());
        if have.contains(b@) {
            assert(kept(d, have) =~= seq![b@]);
        } else {
            assert(kept(d, have) =~= Seq::<Seq<char>>::empty());
        }
    }
}

/// Nothing is asked for where nothing of it is installed, and where something is
/// asked for some of it is.
pub proof fn lemma_missing_languages_are_not_asked_for(
    desired: &[String],
    installed: &[String],
    r: Option<String>,
)
    requires
        call_ensures(tesseract_lang_args, (desired, installed), r),
    ensures
        r is Some <==> exists|i: int|
            0 <= i < desired@.len() && text::texts(installed@).contains((#[trigger] desired@[i])@),
{
    let d = text::texts(desired@);
    let have = text::texts(installed@);
    lemma_kept(d, have);
    if r is Some {
        assert(d.contains(kept(d, have)[0]) && have.contains(kept(d, have)[0]));
        let i = choose|i: int| 0 <= i < d.len() && d[i] == kept(d, have)[0];
        assert(d[i] == desired@[i]@);
    }
    if exists|i: int| 0 <= i < desired@.len() && have.contains((#[trigger] desired@[i])@) {
        let i = choose|i: int| 0 <= i < desired@.len() && have.contains((#[trigger] desired@[i])@);
        lemma_kept_has(d, have, i);
    }
}

proof fn lemma_kept_has(desired: Seq<Seq<char>>, installed: Seq<Seq<char>>, i: int)
    requires
        0 <= i < desired.len(),
        installed.contains(desired[i]),
    ensures
        kept(desired, installed).len() > 0,
    decreases desired.len(),
{
    if i < desired.len() - 1 {
        assert(desired.drop_last()[i] == desired[i]);
        lemma_kept_has(desired.drop_last(), installed, i);
    }
}

/// The text in an image is what was printed, without the white space around it.
pub proof fn lemma_printed_text_is_read(printed: String, shown: &str, t: String, r: Result<String, String>)
    requires
        shown@ == printed@,
        call_ensures(text::trimmed, (shown,), t),
        call_ensures(ocr_image_bytes, (&Recognition::Printed { text: printed },), r),
    ensures
        r matches Ok(s) && s@ == t@,
{
}

} // verus!
