//! The encoder that is downloaded: it is kept only where its checksum holds.

use vstd::prelude::*;

use crate::commands::after;
use crate::commands::after::Notice;
use crate::text;

verus! {

/// Why a download is not kept.
#[derive(Clone, Copy, PartialEq, Eq, Structural, Debug)]
pub enum DownloadFault {
    /// What came as a checksum is none.
    NoChecksum,
    Mismatch,
    /// The archive does not hold the program.
    NotFound,
}

impl DownloadFault {
    pub open spec fn spec_message(self) -> Seq<char> {
        match self {
            DownloadFault::NoChecksum => {
                "ffmpeg checksum sidecar missing or malformed; refusing to install unverified binary"@
            },
            DownloadFault::Mismatch => {
                "ffmpeg download failed its integrity check (sha256 mismatch)"@
            },
            DownloadFault::NotFound => "ffmpeg binary not found in zip archive"@,
        }
    }

    pub fn message(&self) -> (r: &'static str)
        ensures
            r@ == self.spec_message(),
    {
        match *self {
            DownloadFault::NoChecksum => {
                "ffmpeg checksum sidecar missing or malformed; refusing to install unverified binary"
            },
            DownloadFault::Mismatch => {
                "ffmpeg download failed its integrity check (sha256 mismatch)"
            },
            DownloadFault::NotFound => "ffmpeg binary not found in zip archive",
        }
    }
}

// ---- checksums -------------------------------------------------------------------------------

/// The first word of a text, empty where it has none.
pub open spec fn first_word(s: Seq<char>) -> Seq<char> {
    if text::words(s).len() > 0 {
        text::words(s)[0]
    } else {
        Seq::empty()
    }
}

fn read_first_word(s: &str) -> (r: String)
    ensures
        r@ == first_word(s@),
{
    let words = text::words_of(s);
    if words.len() > 0 {
        assert(text::texts(words@)[0] == words@[0]@);
        words[0].clone()
    } else {
        let r = String::new();
        assert(r@ =~= Seq::<char>::empty());
        r
    }
}

pub open spec fn hex_lower_or_upper(c: char) -> bool {
    '0' <= c <= '9' || 'a' <= c <= 'f' || 'A' <= c <= 'F'
}

pub open spec fn all_hex(s: Seq<char>) -> bool {
    forall|i: int| 0 <= i < s.len() ==> hex_lower_or_upper(#[trigger] s[i])
}

fn is_all_hex(s: &str) -> (r: bool)
    ensures
        r == all_hex(s@),
{
    let a = text::chars_of(s);
    for i in 0..a.len()
        invariant
            a@ == s@,
            forall|k: int| 0 <= k < i ==> hex_lower_or_upper(#[trigger] a@[k]),
    {
        let c = a[i];
        if !(('0' <= c && c <= '9') || ('a' <= c && c <= 'f') || ('A' <= c && c <= 'F')) {
            assert(!hex_lower_or_upper(s@[i as int]));
            return false;
        }
    }
    true
}

/// The checksum that is published: the first word of what came, in lower case,
/// where it is 64 digits of base sixteen.
pub open spec fn published(s: Seq<char>) -> Option<Seq<char>> {
    let w = text::lowercase(first_word(s));
    if text::byte_len(w) == 64 && all_hex(w) {
        Some(w)
    } else {
        None
    }
}

/// The checksum that is published.
pub fn read_checksum(s: &str) -> (r: Option<String>)
    ensures
        text::opt_owned(r) == published(s@),
{
    let w = read_first_word(s).as_str().to_lowercase();
    if text::len_of(w.as_str()) == 64 && is_all_hex(w.as_str()) {
        Some(w)
    } else {
        None
    }
}

/// The SHA-256 digest of the bytes, by the `sha2` crate.
pub uninterp spec fn sha256(bytes: Seq<u8>) -> Seq<u8>;

/// `sha2::Sha256::digest`: the digest of the bytes, 32 bytes that are a function
/// of them alone.
#[verifier::external_body]
fn digest(bytes: &[u8]) -> (r: Vec<u8>)
    ensures
        r@ == sha256(bytes@),
        r@.len() == 32,
{
    <sha2::Sha256 as sha2::Digest>::digest(bytes).to_vec()
}

/// A digit of base sixteen, in lower case.
pub open spec fn hex_digit(n: int) -> char {
    if n < 10 {
        ('0' as u32 + n) as char
    } else {
        ('a' as u32 + (n - 10)) as char
    }
}

/// The bytes in base sixteen, two digits to each.
pub open spec fn hex_text(bytes: Seq<u8>) -> Seq<char> {
    Seq::new(
        bytes.len() * 2,
        |i: int|
            if i % 2 == 0 {
                hex_digit((bytes[i / 2] / 16) as int)
            } else {
                hex_digit((bytes[i / 2] % 16) as int)
            },
    )
}

/// `hex::encode`: the bytes in base sixteen, in lower case, two digits to each
/// byte and the higher one first.
#[verifier::external_body]
fn hex_of(bytes: &[u8]) -> (r: String)
    ensures
        r@ == hex_text(bytes@),
{
    hex::encode(bytes)
}

/// Whether the download is what was published: its digest is the published
/// checksum.
pub fn check_download(bytes: &[u8], checksum: &str) -> (r: Result<(), DownloadFault>)
    ensures
        r == (match published(checksum@) {
            None => Err::<(), DownloadFault>(DownloadFault::NoChecksum),
            Some(w) => if hex_text(sha256(bytes@)) == w {
                Ok(())
            } else {
                Err(DownloadFault::Mismatch)
            },
        }),
{
    match read_checksum(checksum) {
        None => Err(DownloadFault::NoChecksum),
        Some(w) => {
            let d = digest(bytes);
            let got = hex_of(&d);
            if text::same(got.as_str(), w.as_str()) {
                Ok(())
            } else {
                Err(DownloadFault::Mismatch)
            }
        },
    }
}

// ---- archives --------------------------------------------------------------------------------

/// How many entries an archive holds, by the `zip` crate, or what it says of bytes
/// that are no archive.
pub uninterp spec fn zip_count(bytes: Seq<u8>) -> Result<usize, Seq<char>>;

/// The name of an entry of an archive, by the `zip` crate, or what it says of an
/// entry that cannot be opened.
pub uninterp spec fn zip_name(bytes: Seq<u8>, i: usize) -> Result<Seq<char>, Seq<char>>;

/// The content of an entry of an archive, by the `zip` crate, or what it says of an
/// entry that cannot be read.
pub uninterp spec fn zip_content(bytes: Seq<u8>, i: usize) -> Result<Seq<u8>, Seq<char>>;

/// The view of a count, or of the words that say why there is none.
pub open spec fn count_or_words(r: Result<usize, String>) -> Result<usize, Seq<char>> {
    match r {
        Ok(n) => Ok(n),
        Err(e) => Err(e@),
    }
}

/// `zip::ZipArchive::new` and `len`: how many entries the archive holds, or the
/// error in words, a function of the bytes alone.
#[verifier::external_body]
fn count_entries(bytes: &[u8]) -> (r: Result<usize, String>)
    ensures
        count_or_words(r) == zip_count(bytes@),
{
    match zip::ZipArchive::new(std::io::Cursor::new(bytes)) {
        Ok(archive) => Ok(archive.len()),
        Err(e) => Err(e.to_string()),
    }
}

/// `zip::ZipArchive::by_index` and `name`: the name of an entry, or the error in
/// words, a function of the bytes and the place alone.
#[verifier::external_body]
fn entry_name(bytes: &[u8], i: usize) -> (r: Result<String, String>)
    ensures
        text::text_or_words(r) == zip_name(bytes@, i),
{
    let mut archive =
        zip::ZipArchive::new(std::io::Cursor::new(bytes)).map_err(|e| e.to_string())?;
    let entry = archive.by_index(i).map_err(|e| e.to_string())?;
    Ok(entry.name().to_string())
}

/// `zip::ZipArchive::by_index`, read to its end: the content of an entry, or the
/// error in words, a function of the bytes and the place alone.
#[verifier::external_body]
fn entry_content(bytes: &[u8], i: usize) -> (r: Result<Vec<u8>, String>)
    ensures
        text::bytes_or_words(r) == zip_content(bytes@, i),
{
    let mut archive =
        zip::ZipArchive::new(std::io::Cursor::new(bytes)).map_err(|e| e.to_string())?;
    let mut entry = archive.by_index(i).map_err(|e| e.to_string())?;
    let mut out = Vec::new();
    std::io::copy(&mut entry, &mut out).map_err(|e| e.to_string())?;
    Ok(out)
}

/// The name is that of the program.
pub open spec fn is_program(name: Seq<char>) -> bool {
    text::ends_with(name, "bin/ffmpeg.exe"@) || text::ends_with(name, "bin/ffmpeg"@)
}

/// What looking for the program from entry `i` on gives, or what is said where it
/// cannot be had.
pub open spec fn program_from(bytes: Seq<u8>, i: int, count: int) -> Result<Seq<u8>, Seq<char>>
    decreases count - i,
{
    if i >= count {
        Err(DownloadFault::NotFound.spec_message())
    } else {
        match zip_name(bytes, i as usize) {
            Err(why) => Err(why),
            Ok(n) => if is_program(n) {
                zip_content(bytes, i as usize)
            } else {
                program_from(bytes, i + 1, count)
            },
        }
    }
}

/// The program in an archive: the first entry with its name.
pub open spec fn program_in(bytes: Seq<u8>) -> Result<Seq<u8>, Seq<char>> {
    match zip_count(bytes) {
        Err(why) => Err(why),
        Ok(n) => program_from(bytes, 0, n as int),
    }
}

fn extract_program(bytes: &[u8]) -> (r: Result<Vec<u8>, String>)
    ensures
        text::bytes_or_words(r) == program_in(bytes@),
{
    let count: usize = match count_entries(bytes) {
        Err(why) => return Err(why),
        Ok(n) => n,
    };
    for i in 0..count
        invariant
            zip_count(bytes@) == Ok::<usize, Seq<char>>(count),
            program_in(bytes@) == program_from(bytes@, i as int, count as int),
    {
        match entry_name(bytes, i) {
            Err(why) => return Err(why),
            Ok(n) => {
                if text::has_suffix(n.as_str(), "bin/ffmpeg.exe") || text::has_suffix(
                    n.as_str(),
                    "bin/ffmpeg",
                ) {
                    return entry_content(bytes, i);
                }
            },
        }
    }
    Err(DownloadFault::NotFound.message().to_owned())
}

/// What a download with a checksum gives: the program in it where the published
/// checksum holds, or what is said where there is none.
pub open spec fn download(bytes: Seq<u8>, checksum: Seq<char>) -> Result<Seq<u8>, Seq<char>> {
    match published(checksum) {
        None => Err(DownloadFault::NoChecksum.spec_message()),
        Some(w) => if hex_text(sha256(bytes)) == w {
            program_in(bytes)
        } else {
            Err(DownloadFault::Mismatch.spec_message())
        },
    }
}

/// The program in a download, which is looked at only where the published
/// checksum holds.
pub fn perform_ffmpeg_download(bytes: &[u8], checksum: &str) -> (r: Result<Vec<u8>, String>)
    ensures
        text::bytes_or_words(r) == download(bytes@, checksum@),
{
    match check_download(bytes, checksum) {
        Err(f) => Err(f.message().to_owned()),
        Ok(()) => extract_program(bytes),
    }
}

/// Nothing is taken out of a download whose digest is not the published one.
pub proof fn lemma_only_published_bytes_are_kept(
    bytes: Seq<u8>,
    checksum: Seq<char>,
    kept: Seq<u8>,
)
    requires
        download(bytes, checksum) == Ok::<Seq<u8>, Seq<char>>(kept),
    ensures
        published(checksum) == Some(hex_text(sha256(bytes))),
        program_in(bytes) == Ok::<Seq<u8>, Seq<char>>(kept),
{
}

/// What to do where the encoder is missing.
#[derive(Clone, Copy, PartialEq, Eq, Structural, Debug)]
pub enum MissingStep {
    /// Tell the user how to install it.
    Explain,
    /// Tell the user that it is being downloaded.
    Wait,
    /// Ask the user whether to download it.
    Ask,
}

impl MissingStep {
    /// What the user is told.
    pub fn message(&self) -> (r: &'static str)
        ensures
            r@ == (match *self {
                MissingStep::Explain => {
                    "Recording MP4 requires FFmpeg, which was not found on your system.\n\nInstall it with your package manager, e.g.\nsudo apt install ffmpeg   (Debian/Ubuntu)\nsudo dnf install ffmpeg   (Fedora)"@
                },
                MissingStep::Wait => {
                    "FFmpeg is already downloading in the background. Please wait."@
                },
                MissingStep::Ask => {
                    "Recording MP4 requires FFmpeg, which was not found on your system.\n\nWould you like to automatically download and configure it?"@
                },
            }),
    {
        match *self {
            MissingStep::Explain => {
                "Recording MP4 requires FFmpeg, which was not found on your system.\n\nInstall it with your package manager, e.g.\nsudo apt install ffmpeg   (Debian/Ubuntu)\nsudo dnf install ffmpeg   (Fedora)"
            },
            MissingStep::Wait => {
                "FFmpeg is already downloading in the background. Please wait."
            },
            MissingStep::Ask => {
                "Recording MP4 requires FFmpeg, which was not found on your system.\n\nWould you like to automatically download and configure it?"
            },
        }
    }
}

/// What to do where the encoder is missing. Only on Windows can it be
/// downloaded, and only once at a time.
pub fn handle_missing_ffmpeg(windows: bool, downloading: bool) -> (r: MissingStep)
    ensures
        r == (if !windows {
            MissingStep::Explain
        } else if downloading {
            MissingStep::Wait
        } else {
            MissingStep::Ask
        }),
{
    if !windows {
        MissingStep::Explain
    } else if downloading {
        MissingStep::Wait
    } else {
        MissingStep::Ask
    }
}

/// What the user is told of a download: that it began, and how it ended.
#[derive(Clone, Copy, PartialEq, Eq, Structural, Debug)]
pub enum DownloadNews {
    Began,
    Configured,
    Failed,
}

/// The notification of a download. `why` is what went wrong with one that
/// failed.
pub fn download_notice(news: DownloadNews, why: &str) -> (n: Notice)
    ensures
        match news {
            DownloadNews::Began => after::says(
                n,
                "FFmpeg Download"@,
                "Starting FFmpeg download (approx. 90MB)..."@,
            ),
            DownloadNews::Configured => after::says(
                n,
                "FFmpeg Configured"@,
                "FFmpeg has been downloaded and configured. You can now record MP4 videos."@,
            ),
            DownloadNews::Failed => after::says(
                n,
                "FFmpeg Download Failed"@,
                "Could not configure FFmpeg: "@ + why@,
            ),
        },
{
    match news {
        DownloadNews::Began => Notice {
            title: "FFmpeg Download".to_owned(),
            body: "Starting FFmpeg download (approx. 90MB)...".to_owned(),
        },
        DownloadNews::Configured => Notice {
            title: "FFmpeg Configured".to_owned(),
            body: "FFmpeg has been downloaded and configured. You can now record MP4 videos.".to_owned(),
        },
        DownloadNews::Failed => {
            let mut body = "Could not configure FFmpeg: ".to_owned();
            body.append(why);
            Notice { title: "FFmpeg Download Failed".to_owned(), body }
        },
    }
}

// ---- laws --------------------------------------------------------------------------------------

/// A checksum is 64 digits of base sixteen in small letters, and the first word
/// of what came.
pub proof fn lemma_checksums_are_sixty_four_digits(s: &str, r: Option<String>, i: int)
    requires
        call_ensures(read_checksum, (s,), r),
        r is Some,
    ensures
        text::byte_len(r->0@) == 64,
        0 <= i < r->0@.len() ==> '0' <= r->0@[i] <= '9' || 'a' <= r->0@[i] <= 'f' || 'A'
            <= r->0@[i] <= 'F',
        r->0@ == text::lowercase(first_word(s@)),
{
}

/// A download is kept where its digest, written in base sixteen, is the published
/// checksum. Where no checksum was published, nothing is kept.
pub proof fn lemma_downloads_are_checked(
    bytes: &[u8],
    checksum: &str,
    published_sum: Option<String>,
    r: Result<(), DownloadFault>,
    i: int,
)
    requires
        call_ensures(read_checksum, (checksum,), published_sum),
        call_ensures(check_download, (bytes, checksum), r),
        sha256(bytes@).len() == 32,
    ensures
        published_sum is None ==> r == Err::<(), DownloadFault>(DownloadFault::NoChecksum),
        r is Ok && 0 <= i < 32 ==> (published_sum matches Some(w) && w@.len() == 64
            && digit_worth(w@[i * 2]) * 16 + digit_worth(w@[i * 2 + 1]) == sha256(bytes@)[i]),
{
    if r is Ok && 0 <= i < 32 {
        let w = published_sum->0@;
        assert(w == hex_text(sha256(bytes@)));
        assert((i * 2) / 2 == i && (i * 2 + 1) / 2 == i);
        assert((i * 2) % 2 == 0 && (i * 2 + 1) % 2 == 1);
        let b = sha256(bytes@)[i];
        assert(w[i * 2] == hex_digit((b / 16) as int));
        assert(w[i * 2 + 1] == hex_digit((b % 16) as int));
    }
}

/// What a digit of base sixteen counts.
pub open spec fn digit_worth(c: char) -> int {
    if '0' <= c <= '9' {
        c as int - '0' as int
    } else {
        c as int - 'a' as int + 10
    }
}

/// A program is taken out of a download only where its checksum holds, and what is
/// taken out is an entry that is called like the program.
pub proof fn lemma_programs_come_from_checked_downloads(
    bytes: &[u8],
    checksum: &str,
    checked: Result<(), DownloadFault>,
    r: Result<Vec<u8>, String>,
)
    requires
        call_ensures(check_download, (bytes, checksum), checked),
        call_ensures(perform_ffmpeg_download, (bytes, checksum), r),
    ensures
        checked is Err ==> r is Err,
        r matches Ok(v) ==> exists|i: int, n: Seq<char>|
            #[trigger] zip_name(bytes@, i as usize) == Ok::<Seq<char>, Seq<char>>(n) && (
            #[trigger] text::ends_with(n, "bin/ffmpeg"@) || text::ends_with(
                n,
                "bin/ffmpeg.exe"@,
            )) && zip_content(bytes@, i as usize) == Ok::<Seq<u8>, Seq<char>>(v@),
{
    if let Ok(v) = r {
        lemma_program_is_an_entry(bytes@, 0, zip_count(bytes@)->Ok_0 as int, v@);
    }
}

proof fn lemma_program_is_an_entry(bytes: Seq<u8>, i: int, count: int, v: Seq<u8>)
    requires
        program_from(bytes, i, count) == Ok::<Seq<u8>, Seq<char>>(v),
    ensures
        exists|k: int, n: Seq<char>|
            #[trigger] zip_name(bytes, k as usize) == Ok::<Seq<char>, Seq<char>>(n) && (
            #[trigger] text::ends_with(n, "bin/ffmpeg"@) || text::ends_with(
                n,
                "bin/ffmpeg.exe"@,
            )) && zip_content(bytes, k as usize) == Ok::<Seq<u8>, Seq<char>>(v),
    decreases count - i,
{
    let n = zip_name(bytes, i as usize)->Ok_0;
    if is_program(n) {
        assert(zip_name(bytes, i as usize) == Ok::<Seq<char>, Seq<char>>(n));
        let hit = text::ends_with(n, "bin/ffmpeg"@);
    } else {
        lemma_program_is_an_entry(bytes, i + 1, count, v);
    }
}

/// The encoder is offered for download on Windows alone, and not while it is being
/// downloaded.
pub proof fn lemma_downloads_are_offered_on_windows(windows: bool, downloading: bool, r: MissingStep)
    requires
        call_ensures(handle_missing_ffmpeg, (windows, downloading), r),
    ensures
        r == MissingStep::Ask <==> windows && !downloading,
        r == MissingStep::Wait <==> windows && downloading,
        r == MissingStep::Explain <==> !windows,
{
}

} // verus!
