//! Putting captures on the clipboard and into files, and telling the user.

use vstd::prelude::*;

use crate::capture::frame::RgbaImage;
use crate::capture::frame;
use crate::config::ImageFormat;
use crate::paths;
use crate::text;

verus! {

pub const MAX_IMAGE_DIMENSION: u32 = 16384;

pub const MAX_NOTIFICATION_LEN: usize = 256;

pub const CLIPBOARD_MAX_RETRIES: u32 = 20;

pub const CLIPBOARD_RETRY_DELAY_MS: u64 = 100;

pub const NOTIFICATION_DEDUPE_MS: u64 = 1500;

// ---- trying again ----------------------------------------------------------------------------

/// How an attempt on the clipboard ended.
#[derive(Clone, Copy, PartialEq, Eq, Structural, Debug)]
pub enum ClipboardReply {
    Done,
    /// Another program has the clipboard open.
    Occupied,
    Failed,
}

/// What follows an attempt on the clipboard.
#[derive(Clone, Copy, PartialEq, Eq, Structural, Debug)]
pub enum RetryStep {
    Done,
    /// Wait and try again.
    Again { sleep_ms: u64 },
    /// The clipboard stayed occupied.
    GiveUp,
    Failed,
}

impl RetryStep {
    /// What is said of a step that ends in failure. `detail` is what the
    /// clipboard said.
    pub open spec fn spec_message(self, detail: Seq<char>) -> Option<Seq<char>> {
        match self {
            RetryStep::GiveUp => Some("Clipboard occupied after 20 retries: "@ + detail),
            RetryStep::Failed => Some("Clipboard error: "@ + detail),
            _ => None,
        }
    }

    pub fn message(&self, detail: &str) -> (r: Option<String>)
        ensures
            text::opt_owned(r) == self.spec_message(detail@),
    {
        let mut s = match self {
            RetryStep::GiveUp => "Clipboard occupied after 20 retries: ".to_owned(),
            RetryStep::Failed => "Clipboard error: ".to_owned(),
            _ => return None,
        };
        s.append(detail);
        Some(s)
    }
}

/// What follows the attempt of the given number, counted from nought.
pub open spec fn after_attempt(attempt: u32, reply: ClipboardReply) -> RetryStep {
    match reply {
        ClipboardReply::Done => RetryStep::Done,
        ClipboardReply::Failed => RetryStep::Failed,
        ClipboardReply::Occupied => if attempt + 1 < CLIPBOARD_MAX_RETRIES {
            RetryStep::Again { sleep_ms: CLIPBOARD_RETRY_DELAY_MS }
        } else {
            RetryStep::GiveUp
        },
    }
}

/// What follows the attempt of the given number. Only an occupied clipboard is
/// tried again, and twenty times in all.
pub fn retry_with_backoff(attempt: u32, reply: ClipboardReply) -> (r: RetryStep)
    requires
        attempt < CLIPBOARD_MAX_RETRIES,
    ensures
        r == after_attempt(attempt, reply),
{
    match reply {
        ClipboardReply::Done => RetryStep::Done,
        ClipboardReply::Failed => RetryStep::Failed,
        ClipboardReply::Occupied => if attempt + 1 < CLIPBOARD_MAX_RETRIES {
            RetryStep::Again { sleep_ms: CLIPBOARD_RETRY_DELAY_MS }
        } else {
            RetryStep::GiveUp
        },
    }
}

/// No attempt follows the twentieth.
pub proof fn lemma_attempts_end(reply: ClipboardReply)
    ensures
        !(after_attempt((CLIPBOARD_MAX_RETRIES - 1) as u32, reply) is Again),
{
}

// ---- what fits on the clipboard --------------------------------------------------------------

/// Why something does not go on the clipboard or into a file.
#[derive(Clone, Copy, PartialEq, Eq, Structural, Debug)]
pub enum CopyFault {
    TooLarge,
    ZeroDimension,
    PathTooLong,
    TextTooLong,
}

impl CopyFault {
    /// What is said of something that does not go on the clipboard, or into a
    /// file where it is being saved.
    pub open spec fn spec_message(self, saving: bool) -> Seq<char> {
        match self {
            CopyFault::TooLarge => if saving {
                "Image too large to save"@
            } else {
                "Image too large for clipboard"@
            },
            CopyFault::ZeroDimension => "Image has zero dimension"@,
            CopyFault::PathTooLong => "Path too long for clipboard"@,
            CopyFault::TextTooLong => "Text too long for clipboard"@,
        }
    }

    pub fn message(&self, saving: bool) -> (s: &'static str)
        ensures
            s@ == self.spec_message(saving),
    {
        match self {
            CopyFault::TooLarge => if saving {
                "Image too large to save"
            } else {
                "Image too large for clipboard"
            },
            CopyFault::ZeroDimension => "Image has zero dimension",
            CopyFault::PathTooLong => "Path too long for clipboard",
            CopyFault::TextTooLong => "Text too long for clipboard",
        }
    }
}

pub open spec fn size_fault(width: u32, height: u32) -> Option<CopyFault> {
    if width > MAX_IMAGE_DIMENSION || height > MAX_IMAGE_DIMENSION {
        Some(CopyFault::TooLarge)
    } else if width == 0 || height == 0 {
        Some(CopyFault::ZeroDimension)
    } else {
        None
    }
}

/// Whether an image of the size goes on the clipboard or into a file.
pub fn check_image_size(width: u32, height: u32) -> (r: Result<(), CopyFault>)
    ensures
        r == (match size_fault(width, height) {
            Some(f) => Err::<(), CopyFault>(f),
            None => Ok(()),
        }),
{
    if width > MAX_IMAGE_DIMENSION || height > MAX_IMAGE_DIMENSION {
        Err(CopyFault::TooLarge)
    } else if width == 0 || height == 0 {
        Err(CopyFault::ZeroDimension)
    } else {
        Ok(())
    }
}

/// The bytes of an image as they go on the clipboard, where it does.
pub fn copy_image(image: &RgbaImage) -> (r: Result<Vec<u8>, CopyFault>)
    requires
        image.wf(),
    ensures
        match size_fault(image.spec_width(), image.spec_height()) {
            Some(f) => r matches Err(e) && e == f,
            None => r matches Ok(raw) && raw@.len() == image.pixels().len() * 4 && forall|k: int|
                0 <= k < image.pixels().len() ==> frame::pixel_of(raw@, k)
                    == #[trigger] image.pixels()[k],
        },
{
    match check_image_size(image.width(), image.height()) {
        Err(f) => Err(f),
        Ok(()) => Ok(frame::raw_of(image)),
    }
}

/// Whether a path goes on the clipboard.
pub fn copy_file_path(path: &str) -> (r: Result<(), CopyFault>)
    ensures
        r == (if text::byte_len(path@) > 4096 {
            Err::<(), CopyFault>(CopyFault::PathTooLong)
        } else {
            Ok(())
        }),
{
    if text::len_of(path) > 4096 {
        Err(CopyFault::PathTooLong)
    } else {
        Ok(())
    }
}

/// Whether a text goes on the clipboard.
pub fn copy_text(s: &str) -> (r: Result<(), CopyFault>)
    ensures
        r == (if text::byte_len(s@) > 4096 {
            Err::<(), CopyFault>(CopyFault::TextTooLong)
        } else {
            Ok(())
        }),
{
    if text::len_of(s) > 4096 {
        Err(CopyFault::TextTooLong)
    } else {
        Ok(())
    }
}

// ---- a file on the clipboard -----------------------------------------------------------------

/// A path without the prefix that some programs do not understand. A path to
/// another machine keeps it.
pub open spec fn plain_path(path: Seq<char>) -> Seq<char> {
    if text::starts_with(path, "\\\\?\\"@) && !text::starts_with(path.skip(4), "UNC\\"@) {
        path.skip(4)
    } else {
        path
    }
}

/// A path without the prefix that some programs do not understand.
pub fn strip_verbatim(path: &str) -> (r: String)
    ensures
        r@ == plain_path(path@),
{
    proof {
        reveal_strlit("\\\\?\\");
    }
    if text::has_prefix(path, "\\\\?\\") {
        let a = text::chars_of(path);
        let n: usize = a.len();
        let rest = text::part_of(&a, 4, n);
        assert(rest@ =~= path@.skip(4));
        if !text::has_prefix(rest.as_str(), "UNC\\") {
            return rest;
        }
    }
    path.to_owned()
}

/// The bytes of code units, lowest byte first.
pub open spec fn unit_bytes(units: Seq<u16>) -> Seq<u8> {
    Seq::new(
        units.len() * 2,
        |i: int|
            if i % 2 == 0 {
                (units[i / 2] % 256) as u8
            } else {
                (units[i / 2] / 256) as u8
            },
    )
}

/// The head of a list of files: where the list begins, a point at the origin,
/// and that the names are of wide characters.
pub open spec fn drop_head() -> Seq<u8> {
    seq![20u8, 0, 0, 0, 0, 0, 0, 0, 0, 0, 0, 0, 0, 0, 0, 0, 1, 0, 0, 0]
}

/// A list of the one file, as programs take it from the clipboard: its head,
/// the path without its prefix, and two noughts that end the path and the list.
pub fn file_list(path: &str) -> (r: Vec<u8>)
    ensures
        r@ == drop_head() + unit_bytes(text::utf16(plain_path(path@)).push(0).push(0)),
{
    let plain = strip_verbatim(path);
    let mut units = text::utf16_units(plain.as_str());
    units.push(0);
    units.push(0);
    let mut r: Vec<u8> = Vec::new();
    r.push(20);
    let mut k: usize = 1;
    while k < 20
        invariant
            1 <= k <= 20,
            r@ =~= drop_head().take(k as int),
        decreases 20 - k,
    {
        r.push(
            if k == 16 {
                1
            } else {
                0
            },
        );
        k = k + 1;
    }
    assert(drop_head().take(20) =~= drop_head());
    let n: usize = units.len();
    for i in 0..n
        invariant
            n == units@.len(),
            r@ =~= drop_head() + unit_bytes(units@).take(i * 2),
    {
        r.push((units[i] % 256) as u8);
        r.push((units[i] / 256) as u8);
        assert(unit_bytes(units@)[i * 2] == (units@[i as int] % 256) as u8);
        assert(unit_bytes(units@)[i * 2 + 1] == (units@[i as int] / 256) as u8);
        assert(r@ =~= drop_head() + unit_bytes(units@).take((i + 1) * 2));
    }
    assert(unit_bytes(units@).take(n * 2) =~= unit_bytes(units@));
    r
}

/// Why a file does not go on the clipboard.
#[derive(Clone, Copy, PartialEq, Eq, Structural, Debug)]
pub enum FileFault {
    NotAbsolute,
    Missing,
}

impl FileFault {
    /// What is said of the file at the path.
    pub open spec fn spec_message(self, path: Seq<char>) -> Seq<char> {
        match self {
            FileFault::NotAbsolute => "Clipboard file copy requires an absolute path"@,
            FileFault::Missing => "File does not exist: "@ + path,
        }
    }

    pub fn message(&self, path: &str) -> (s: String)
        ensures
            s@ == self.spec_message(path@),
    {
        match self {
            FileFault::NotAbsolute => "Clipboard file copy requires an absolute path".to_owned(),
            FileFault::Missing => {
                let mut s = "File does not exist: ".to_owned();
                s.append(path);
                s
            },
        }
    }
}

/// What goes on the clipboard for a file: only one that is there, and whose
/// path is absolute.
pub fn copy_file_to_clipboard(path: &str, absolute: bool, there: bool) -> (r: Result<
    Vec<u8>,
    FileFault,
>)
    ensures
        if !absolute {
            r matches Err(f) && f == FileFault::NotAbsolute
        } else if !there {
            r matches Err(f) && f == FileFault::Missing
        } else {
            r matches Ok(v) && v@ == drop_head() + unit_bytes(
                text::utf16(plain_path(path@)).push(0).push(0),
            )
        },
{
    if !absolute {
        return Err(FileFault::NotAbsolute);
    }
    if !there {
        return Err(FileFault::Missing);
    }
    Ok(file_list(path))
}

// ---- names that are free ---------------------------------------------------------------------

/// The name before its extension, or `file` where there is none.
pub open spec fn base_of(name: Seq<char>) -> Seq<char> {
    if name.len() == 0 || name == ".."@ {
        "file"@
    } else {
        paths::stem(name)
    }
}

/// The name with a number before its extension.
pub open spec fn numbered(name: Seq<char>, n: nat) -> Seq<char> {
    let ext = paths::extension(name);
    if ext.len() == 0 {
        base_of(name) + "_"@ + text::dec(n)
    } else {
        base_of(name) + "_"@ + text::dec(n) + "."@ + ext
    }
}

fn number_name(name: &str, n: u64) -> (r: String)
    ensures
        r@ == numbered(name@, n as nat),
{
    let mut s = if name.is_empty() || text::same(name, "..") {
        String::from_str("file")
    } else {
        paths::file_stem(name)
    };
    s.append("_");
    text::push_dec(&mut s, n);
    let ext = paths::file_extension(name);
    if !ext.as_str().is_empty() {
        s.append(".");
        s.append(ext.as_str());
    }
    s
}

/// The name that is tried at the given number, counted from nought: the name
/// itself, then the name with a number.
pub open spec fn candidate(name: Seq<char>, i: nat) -> Seq<char> {
    if i == 0 {
        name
    } else {
        numbered(name, i)
    }
}

/// What follows an attempt to claim a file.
#[derive(Debug)]
pub enum ClaimStep {
    /// The file is the one to write.
    Take { path: String },
    /// Try to claim this file.
    Try { path: String },
}

/// The search for a name that is free.
#[derive(Debug)]
pub struct UniquePath {
    dir: String,
    name: String,
    sep: char,
    tried: u32,
}

impl UniquePath {
    pub closed spec fn spec_dir(&self) -> Seq<char> {
        self.dir@
    }

    pub closed spec fn spec_name(&self) -> Seq<char> {
        self.name@
    }

    pub closed spec fn spec_sep(&self) -> char {
        self.sep
    }

    /// The number of the name that is being tried.
    pub closed spec fn at(&self) -> nat {
        self.tried as nat
    }

    #[verifier::type_invariant]
    spec fn wf(&self) -> bool {
        self.tried <= 1000
    }

    /// The path of the name that is tried at the given number.
    pub open spec fn path_at(&self, i: nat) -> Seq<char> {
        paths::joined(self.spec_dir(), candidate(self.spec_name(), i), self.spec_sep())
    }

    /// A search that begins with the name itself.
    pub fn new(dir: &str, name: &str, sep: char) -> (r: (UniquePath, String))
        ensures
            r.0.spec_dir() == dir@,
            r.0.spec_name() == name@,
            r.0.spec_sep() == sep,
            r.0.at() == 0,
            r.1@ == r.0.path_at(0),
    {
        (
            UniquePath { dir: dir.to_owned(), name: name.to_owned(), sep, tried: 0 },
            paths::join(dir, name, sep),
        )
    }

    /// What follows: the file that was tried where it could be claimed, or the
    /// next name, and behind the thousandth the name with the time, which is
    /// taken without a try.
    pub fn get_unique_filepath(&mut self, claimed: bool, now_ms: u64) -> (r: ClaimStep)
        ensures
            final(self).spec_dir() == old(self).spec_dir(),
            final(self).spec_name() == old(self).spec_name(),
            final(self).spec_sep() == old(self).spec_sep(),
            if claimed && old(self).at() <= 999 {
                r matches ClaimStep::Take { path } && path@ == old(self).path_at(old(self).at())
                    && final(self).at() == old(self).at()
            } else if old(self).at() < 999 {
                r matches ClaimStep::Try { path } && path@ == old(self).path_at(old(self).at() + 1)
                    && final(self).at() == old(self).at() + 1
            } else {
                r matches ClaimStep::Take { path } && path@ == paths::joined(
                    old(self).spec_dir(),
                    numbered(old(self).spec_name(), now_ms as nat),
                    old(self).spec_sep(),
                ) && final(self).at() == 1000
            },
    {
        proof {
            use_type_invariant(&*self);
        }
        if claimed && self.tried <= 999 {
            let name = if self.tried == 0 {
                self.name.clone()
            } else {
                number_name(self.name.as_str(), self.tried as u64)
            };
            return ClaimStep::Take {
                path: paths::join(self.dir.as_str(), name.as_str(), self.sep),
            };
        }
        if self.tried < 999 {
            self.tried = self.tried + 1;
            let name = number_name(self.name.as_str(), self.tried as u64);
            return ClaimStep::Try {
                path: paths::join(self.dir.as_str(), name.as_str(), self.sep),
            };
        }
        self.tried = 1000;
        let name = number_name(self.name.as_str(), now_ms);
        ClaimStep::Take { path: paths::join(self.dir.as_str(), name.as_str(), self.sep) }
    }
}

/// No numbered name is tried twice.
pub proof fn lemma_numbered_names_differ(name: Seq<char>, i: nat, j: nat)
    requires
        i != j,
    ensures
        numbered(name, i) != numbered(name, j),
{
    text::lemma_dec_injective(i, j);
    let a = text::dec(i);
    let b = text::dec(j);
    let front = base_of(name) + "_"@;
    let ext = paths::extension(name);
    let back = if ext.len() == 0 {
        Seq::empty()
    } else {
        "."@ + ext
    };
    assert(numbered(name, i) =~= front + a + back);
    assert(numbered(name, j) =~= front + b + back);
    if front + a + back == front + b + back {
        assert((front + a + back).len() == (front + b + back).len());
        assert(a.len() == b.len());
        assert forall|k: int| 0 <= k < a.len() implies a[k] == b[k] by {
            assert((front + a + back)[front.len() + k] == a[k]);
            assert((front + b + back)[front.len() + k] == b[k]);
        }
        assert(a =~= b);
    }
}

// ---- names that are allowed ------------------------------------------------------------------

/// Why a file cannot have a name.
#[derive(Clone, Copy, PartialEq, Eq, Structural, Debug)]
pub enum FilenameFault {
    Empty,
    TooLong,
    DotDot,
    InvalidChar { c: char },
    Control,
    BadEnd,
    Reserved,
}

/// The characters that no file name may hold, in the order in which they are
/// looked for.
pub open spec fn invalid_chars() -> Seq<char> {
    seq!['<', '>', ':', '"', '/', '\\', '|', '?', '*']
}

/// The first character on the list from `i` on that the name holds.
pub open spec fn invalid_char_from(name: Seq<char>, i: int) -> Option<char>
    decreases invalid_chars().len() - i,
{
    if i < 0 || i >= invalid_chars().len() {
        None
    } else if name.contains(invalid_chars()[i]) {
        Some(invalid_chars()[i])
    } else {
        invalid_char_from(name, i + 1)
    }
}

pub open spec fn has_control(name: Seq<char>) -> bool {
    exists|i: int| 0 <= i < name.len() && text::control_code(#[trigger] name[i])
}

/// The name is that of a device.
pub open spec fn reserved(upper: Seq<char>) -> bool {
    ||| upper == "CON"@ || upper == "PRN"@ || upper == "AUX"@ || upper == "NUL"@
    ||| upper == "COM1"@ || upper == "COM2"@ || upper == "COM3"@ || upper == "COM4"@
    ||| upper == "COM5"@ || upper == "COM6"@ || upper == "COM7"@ || upper == "COM8"@
    ||| upper == "COM9"@ || upper == "LPT1"@ || upper == "LPT2"@ || upper == "LPT3"@
    ||| upper == "LPT4"@ || upper == "LPT5"@ || upper == "LPT6"@ || upper == "LPT7"@
    ||| upper == "LPT8"@ || upper == "LPT9"@
}

fn is_reserved(u: &str) -> (r: bool)
    ensures
        r == reserved(u@),
{
    text::same(u, "CON") || text::same(u, "PRN") || text::same(u, "AUX") || text::same(u, "NUL")
        || text::same(u, "COM1") || text::same(u, "COM2") || text::same(u, "COM3") || text::same(
        u,
        "COM4",
    ) || text::same(u, "COM5") || text::same(u, "COM6") || text::same(u, "COM7") || text::same(
        u,
        "COM8",
    ) || text::same(u, "COM9") || text::same(u, "LPT1") || text::same(u, "LPT2") || text::same(
        u,
        "LPT3",
    ) || text::same(u, "LPT4") || text::same(u, "LPT5") || text::same(u, "LPT6") || text::same(
        u,
        "LPT7",
    ) || text::same(u, "LPT8") || text::same(u, "LPT9")
}

/// Why a file cannot have the name, in the order in which it is looked at.
pub open spec fn filename_fault(name: Seq<char>) -> Option<FilenameFault> {
    if name.len() == 0 {
        Some(FilenameFault::Empty)
    } else if text::byte_len(name) > 255 {
        Some(FilenameFault::TooLong)
    } else if text::contains(name, ".."@) {
        Some(FilenameFault::DotDot)
    } else if invalid_char_from(name, 0) is Some {
        Some(FilenameFault::InvalidChar { c: invalid_char_from(name, 0)->0 })
    } else if has_control(name) {
        Some(FilenameFault::Control)
    } else if name.last() == '.' || name.last() == ' ' {
        Some(FilenameFault::BadEnd)
    } else if reserved(text::uppercase(text::split(name, '.')[0])) {
        Some(FilenameFault::Reserved)
    } else {
        None
    }
}

fn find_invalid(name: &str) -> (r: Option<char>)
    ensures
        r == invalid_char_from(name@, 0),
{
    let list: [char; 9] = ['<', '>', ':', '"', '/', '\\', '|', '?', '*'];
    assert(list@ =~= invalid_chars());
    let mut i: usize = 0;
    while i < 9
        invariant
            i <= 9,
            list@ == invalid_chars(),
            invalid_char_from(name@, 0) == invalid_char_from(name@, i as int),
        decreases 9 - i,
    {
        if text::has_char(name, list[i]) {
            return Some(list[i]);
        }
        i = i + 1;
    }
    None
}

fn find_control(a: &[char]) -> (r: bool)
    ensures
        r == has_control(a@),
{
    for i in 0..a.len()
        invariant
            forall|k: int| 0 <= k < i ==> !text::control_code(#[trigger] a@[k]),
    {
        if a[i].is_control() {
            assert(text::control_code(a@[i as int]));
            return true;
        }
    }
    false
}

/// Whether a file can have the name on every system.
pub fn validate_filename(filename: &str) -> (r: Result<(), FilenameFault>)
    ensures
        r == (match filename_fault(filename@) {
            Some(f) => Err::<(), FilenameFault>(f),
            None => Ok(()),
        }),
{
    if filename.is_empty() {
        return Err(FilenameFault::Empty);
    }
    if text::len_of(filename) > 255 {
        return Err(FilenameFault::TooLong);
    }
    if text::has_text(filename, "..") {
        return Err(FilenameFault::DotDot);
    }
    if let Some(c) = find_invalid(filename) {
        return Err(FilenameFault::InvalidChar { c });
    }
    let a = text::chars_of(filename);
    if find_control(&a) {
        return Err(FilenameFault::Control);
    }
    let n: usize = a.len();
    if a[n - 1] == '.' || a[n - 1] == ' ' {
        return Err(FilenameFault::BadEnd);
    }
    let parts = text::pieces(filename, '.');
    assert(text::split(filename@, '.').len() > 0);
    assert(text::texts(parts@)[0] == parts@[0]@);
    if is_reserved(parts[0].as_str().to_uppercase().as_str()) {
        return Err(FilenameFault::Reserved);
    }
    Ok(())
}

proof fn lemma_invalid_char_from(name: Seq<char>, i: int, k: int)
    requires
        0 <= i <= k < invalid_chars().len(),
        invalid_char_from(name, i) is None,
    ensures
        !name.contains(invalid_chars()[k]),
    decreases k - i,
{
    if i < k {
        lemma_invalid_char_from(name, i + 1, k);
    }
}

/// A name that is allowed leads to no other directory.
pub proof fn lemma_allowed_name_stays_inside(name: Seq<char>)
    requires
        filename_fault(name) is None,
    ensures
        !name.contains('/'),
        !name.contains('\\'),
        !text::contains(name, ".."@),
{
    lemma_invalid_char_from(name, 0, 4);
    lemma_invalid_char_from(name, 0, 5);
}

impl FilenameFault {
    /// What is said of the fault of a name.
    pub open spec fn told(&self, name: Seq<char>) -> Seq<char> {
        match *self {
            FilenameFault::Empty => "Empty filename"@,
            FilenameFault::TooLong => "Filename too long (max 255 characters)"@,
            FilenameFault::DotDot => "Invalid filename: contains '..'"@,
            FilenameFault::InvalidChar { c } => "Invalid character '"@ + seq![c]
                + "' in filename"@,
            FilenameFault::Control => "Control characters not allowed in filename"@,
            FilenameFault::BadEnd => "Filename cannot end with '.' or space"@,
            FilenameFault::Reserved => "'"@ + text::split(name, '.')[0]
                + "' is a reserved filename on Windows"@,
        }
    }

    pub fn message(&self, name: &str) -> (r: String)
        ensures
            r@ == self.told(name@),
    {
        match *self {
            FilenameFault::Empty => String::from_str("Empty filename"),
            FilenameFault::TooLong => String::from_str("Filename too long (max 255 characters)"),
            FilenameFault::DotDot => String::from_str("Invalid filename: contains '..'"),
            FilenameFault::InvalidChar { c } => {
                let mut s = String::from_str("Invalid character '");
                s.push(c);
                s.append("' in filename");
                assert(s@ =~= self.told(name@));
                s
            },
            FilenameFault::Control => String::from_str(
                "Control characters not allowed in filename",
            ),
            FilenameFault::BadEnd => String::from_str("Filename cannot end with '.' or space"),
            FilenameFault::Reserved => {
                let parts = text::pieces(name, '.');
                assert(text::texts(parts@)[0] == parts@[0]@);
                let mut s = String::from_str("'");
                s.append(parts[0].as_str());
                s.append("' is a reserved filename on Windows");
                s
            },
        }
    }
}

// ---- files -----------------------------------------------------------------------------------

/// Why an image could not be written.
#[derive(Clone, Copy, PartialEq, Eq, Structural, Debug)]
pub enum SaveFault {
    Name { fault: FilenameFault },
    Size { fault: CopyFault },
    /// The image could not be encoded.
    Encode,
}

impl SaveFault {
    /// What is said of an image that was to get the name. `detail` is what the
    /// encoder said.
    pub open spec fn spec_message(self, name: Seq<char>, detail: Seq<char>) -> Seq<char> {
        match self {
            SaveFault::Name { fault } => fault.told(name),
            SaveFault::Size { fault } => fault.spec_message(true),
            SaveFault::Encode => detail,
        }
    }

    pub fn message(&self, name: &str, detail: &str) -> (s: String)
        ensures
            s@ == self.spec_message(name@, detail@),
    {
        match self {
            SaveFault::Name { fault } => fault.message(name),
            SaveFault::Size { fault } => fault.message(true).to_owned(),
            SaveFault::Encode => detail.to_owned(),
        }
    }
}

/// An image of four bytes to the pixel in the format that its file name stands
/// for, by the `image` crate. Nothing where it cannot be encoded so.
pub uninterp spec fn encoded_for_name(raw: Seq<u8>, width: u32, height: u32, name: Seq<char>) -> Option<
    Seq<u8>,
>;

/// An image of three bytes to the pixel as a JPEG of the quality, by the
/// `image` crate. Nothing where it cannot be encoded.
pub uninterp spec fn jpeg_of(rgb: Seq<u8>, width: u32, height: u32, quality: u8) -> Option<Seq<u8>>;

/// `image::ImageFormat::from_path` and `image::ImageBuffer::write_to`: the
/// bytes of the image in the format of the name's extension, a function of the
/// image and the name alone.
#[verifier::external_body]
fn encode_for_name(raw: Vec<u8>, width: u32, height: u32, name: &str) -> (r: Option<Vec<u8>>)
    requires
        0 < width <= MAX_IMAGE_DIMENSION,
        0 < height <= MAX_IMAGE_DIMENSION,
        raw@.len() == width * height * 4,
    ensures
        text::opt_bytes(r) == encoded_for_name(raw@, width, height, name@),
{
    let format = image::ImageFormat::from_path(name).ok()?;
    let mut out = std::io::Cursor::new(Vec::new());
    image::RgbaImage::from_raw(width, height, raw)?.write_to(&mut out, format).ok()?;
    Some(out.into_inner())
}

/// `image::codecs::jpeg::JpegEncoder::new_with_quality` and `encode`: the bytes
/// of the image as a JPEG, a function of the image and the quality alone.
#[verifier::external_body]
pub(crate) fn encode_jpeg(rgb: &[u8], width: u32, height: u32, quality: u8) -> (r: Option<Vec<u8>>)
    requires
        0 < width,
        0 < height,
        rgb@.len() == width * height * 3,
    ensures
        text::opt_bytes(r) == jpeg_of(rgb@, width, height, quality),
{
    let mut out = Vec::new();
    let mut encoder = image::codecs::jpeg::JpegEncoder::new_with_quality(&mut out, quality);
    encoder.encode(rgb, width, height, image::ExtendedColorType::Rgb8).ok()?;
    Some(out)
}

/// The image without its alpha.
pub open spec fn without_alpha(raw: Seq<u8>) -> Seq<u8> {
    Seq::new((raw.len() / 4 * 3) as nat, |i: int| raw[i / 3 * 4 + i % 3])
}

pub(crate) fn drop_alpha(raw: &[u8]) -> (r: Vec<u8>)
    requires
        raw@.len() % 4 == 0,
    ensures
        r@ == without_alpha(raw@),
{
    let n: usize = raw.len();
    let mut r: Vec<u8> = Vec::new();
    let mut k: usize = 0;
    while k < n / 4
        invariant
            n == raw@.len(),
            k <= n / 4,
            r@ =~= without_alpha(raw@).take(k * 3),
        decreases n / 4 - k,
    {
        r.push(raw[k * 4]);
        r.push(raw[k * 4 + 1]);
        r.push(raw[k * 4 + 2]);
        assert(without_alpha(raw@)[k * 3] == raw@[k * 4]);
        assert(without_alpha(raw@)[k * 3 + 1] == raw@[k * 4 + 1]);
        assert(without_alpha(raw@)[k * 3 + 2] == raw@[k * 4 + 2]);
        k = k + 1;
    }
    assert(without_alpha(raw@).take((n / 4) * 3) =~= without_alpha(raw@));
    r
}

/// The quality that a JPEG is written with.
pub open spec fn jpeg_quality(quality: u8) -> u8 {
    if quality > 100 {
        100
    } else {
        quality
    }
}

/// The bytes of the image's pixels, four to each.
pub open spec fn raw_pixels(img: RgbaImage) -> Seq<u8> {
    Seq::new(
        img.pixels().len() * 4,
        |i: int|
            {
                let p = img.pixels()[i / 4];
                if i % 4 == 0 {
                    p.r
                } else if i % 4 == 1 {
                    p.g
                } else if i % 4 == 2 {
                    p.b
                } else {
                    p.a
                }
            },
    )
}

/// Bytes that hold the pixels one behind the other are those of the image.
pub proof fn lemma_raw_pixels(img: RgbaImage, raw: Seq<u8>)
    requires
        raw.len() == img.pixels().len() * 4,
        forall|k: int|
            0 <= k < img.pixels().len() ==> frame::pixel_of(raw, k) == #[trigger] img.pixels()[k],
    ensures
        raw == raw_pixels(img),
{
    assert forall|i: int| 0 <= i < raw.len() implies raw[i] == raw_pixels(img)[i] by {
        assert(frame::pixel_of(raw, i / 4) == img.pixels()[i / 4]);
    }
    assert(raw =~= raw_pixels(img));
}

/// What is written for an image under a name: a JPEG of the quality, or else
/// the format that the name's extension stands for.
pub open spec fn file_bytes(img: RgbaImage, name: Seq<char>, format: ImageFormat, quality: u8) -> Option<
    Seq<u8>,
> {
    if format == ImageFormat::Jpeg {
        jpeg_of(
            without_alpha(raw_pixels(img)),
            img.spec_width(),
            img.spec_height(),
            jpeg_quality(quality),
        )
    } else {
        encoded_for_name(raw_pixels(img), img.spec_width(), img.spec_height(), name)
    }
}

/// The bytes to write for an image under a name.
pub fn save_image(img: &RgbaImage, filename: &str, format: ImageFormat, quality: u8) -> (r: Result<
    Vec<u8>,
    SaveFault,
>)
    requires
        img.wf(),
    ensures
        match filename_fault(filename@) {
            Some(fault) => r matches Err(e) && e == (SaveFault::Name { fault }),
            None => match size_fault(img.spec_width(), img.spec_height()) {
                Some(fault) => r matches Err(e) && e == (SaveFault::Size { fault }),
                None => match file_bytes(*img, filename@, format, quality) {
                    Some(bytes) => r matches Ok(v) && v@ == bytes,
                    None => r matches Err(e) && e == SaveFault::Encode,
                },
            },
        },
{
    if let Err(fault) = validate_filename(filename) {
        return Err(SaveFault::Name { fault });
    }
    let w: u32 = img.width();
    let h: u32 = img.height();
    if let Err(fault) = check_image_size(w, h) {
        return Err(SaveFault::Size { fault });
    }
    let raw = frame::raw_of(img);
    proof {
        lemma_raw_pixels(*img, raw@);
        assert(raw@.len() == w * h * 4);
    }
    let out = match format {
        ImageFormat::Jpeg => {
            let rgb = drop_alpha(&raw);
            assert(rgb@.len() == w * h * 3);
            encode_jpeg(
                &rgb,
                w,
                h,
                if quality > 100 {
                    100
                } else {
                    quality
                },
            )
        },
        _ => encode_for_name(raw, w, h, filename),
    };
    match out {
        Some(v) => Ok(v),
        None => Err(SaveFault::Encode),
    }
}

// ---- telling the user --------------------------------------------------------------------------

/// The characters of a text that a notification shows.
pub open spec fn shown_chars(s: Seq<char>) -> Seq<char>
    decreases s.len(),
{
    if s.len() == 0 {
        Seq::empty()
    } else if !text::control_code(s.last()) || s.last() == '\n' {
        shown_chars(s.drop_last()).push(s.last())
    } else {
        shown_chars(s.drop_last())
    }
}

/// What a notification shows of a text: no control codes but line breaks, and
/// 256 characters at most.
pub open spec fn shown(s: Seq<char>) -> Seq<char> {
    if shown_chars(s).len() > MAX_NOTIFICATION_LEN {
        shown_chars(s).take(MAX_NOTIFICATION_LEN as int)
    } else {
        shown_chars(s)
    }
}

/// What a notification shows of a text.
pub fn sanitize_notification_text(s: &str) -> (r: String)
    ensures
        r@ == shown(s@),
{
    let a = text::chars_of(s);
    let mut r = String::new();
    let mut n: usize = 0;
    for i in 0..a.len()
        invariant
            a@ == s@,
            n <= MAX_NOTIFICATION_LEN,
            n == r@.len(),
            r@ == shown(a@.take(i as int)),
    {
        let ghost before = shown_chars(a@.take(i as int));
        assert(a@.take(i + 1).drop_last() =~= a@.take(i as int));
        let c = a[i];
        if !c.is_control() || c == '\n' {
            if n < MAX_NOTIFICATION_LEN {
                r.push(c);
                n = n + 1;
                assert(r@ =~= before.push(c));
            } else {
                assert(r@ =~= before.push(c).take(MAX_NOTIFICATION_LEN as int));
            }
        }
    }
    assert(a@.take(a@.len() as int) =~= a@);
    r
}

/// The last notification that was shown.
#[derive(Debug)]
pub struct NotificationGate {
    last: Option<Shown>,
}

/// A notification and when it was shown, in nanoseconds of a clock that does
/// not go back.
#[derive(Debug)]
pub struct Shown {
    pub title: String,
    pub body: String,
    pub at: u64,
}

/// So soon after the other that it is the same news.
pub open spec fn too_soon(was: u64, now: u64) -> bool {
    now <= was || (now - was) / 1_000_000 < NOTIFICATION_DEDUPE_MS
}

impl NotificationGate {
    pub closed spec fn spec_last(&self) -> Option<(Seq<char>, Seq<char>, u64)> {
        match self.last {
            Some(s) => Some((s.title@, s.body@, s.at)),
            None => None,
        }
    }

    pub fn new() -> (r: Self)
        ensures
            r.spec_last() is None,
    {
        NotificationGate { last: None }
    }

    /// Whether the notification is to be shown. One that is, is remembered; one
    /// that says what the last one said less than a second and a half ago is
    /// not.
    pub fn should_emit(&mut self, title: &str, body: &str, now: u64) -> (r: bool)
        ensures
            r == !(old(self).spec_last() matches Some(l) && l.0 == title@ && l.1 == body@
                && too_soon(l.2, now)),
            final(self).spec_last() == (if r {
                Some((title@, body@, now))
            } else {
                old(self).spec_last()
            }),
    {
        if let Some(s) = &self.last {
            if text::same(s.title.as_str(), title) && text::same(s.body.as_str(), body) && (now
                <= s.at || (now - s.at) / 1_000_000 < NOTIFICATION_DEDUPE_MS) {
                return false;
            }
        }
        self.last = Some(Shown { title: title.to_owned(), body: body.to_owned(), at: now });
        true
    }

    /// A notification is to be shown: what it shows, unless it is the same news
    /// as the last.
    pub fn show_notification(&mut self, title: &str, body: &str, now: u64) -> (r: Option<
        (String, String),
    >)
        ensures
            ({
                let again = old(self).spec_last() matches Some(l) && l.0 == shown(title@) && l.1
                    == shown(body@) && too_soon(l.2, now);
                if again {
                    r is None && final(self).spec_last() == old(self).spec_last()
                } else {
                    (r matches Some(p) && p.0@ == shown(title@) && p.1@ == shown(body@))
                        && final(self).spec_last() == Some((shown(title@), shown(body@), now))
                }
            }),
    {
        let t = sanitize_notification_text(title);
        let b = sanitize_notification_text(body);
        if self.should_emit(t.as_str(), b.as_str(), now) {
            Some((t, b))
        } else {
            None
        }
    }
}

// ---- laws --------------------------------------------------------------------------------------

/// What is handed to the JPEG encoder holds the red of each pixel, then its
/// green, then its blue, and nothing else.
pub proof fn lemma_jpegs_are_red_green_blue(img: RgbaImage, rgb: Seq<u8>, k: int)
    requires
        rgb == without_alpha(raw_pixels(img)),
        0 <= k < img.pixels().len(),
    ensures
        rgb.len() == img.pixels().len() * 3,
        rgb[k * 3] == img.pixels()[k].r,
        rgb[k * 3 + 1] == img.pixels()[k].g,
        rgb[k * 3 + 2] == img.pixels()[k].b,
{
    assert(raw_pixels(img).len() == img.pixels().len() * 4);
}

/// The bytes hold the red, green and blue of each pixel in turn, and nothing
/// else.
pub open spec fn holds_colours(rgb: Seq<u8>, img: RgbaImage) -> bool {
    &&& rgb.len() == img.pixels().len() * 3
    &&& forall|k: int|
        #![trigger img.pixels()[k]]
        0 <= k < img.pixels().len() ==> rgb[k * 3] == img.pixels()[k].r && rgb[k * 3 + 1]
            == img.pixels()[k].g && rgb[k * 3 + 2] == img.pixels()[k].b
}

/// The bytes hold the red, green, blue and alpha of each pixel in turn, and
/// nothing else.
pub open spec fn holds_pixels(raw: Seq<u8>, img: RgbaImage) -> bool {
    &&& raw.len() == img.pixels().len() * 4
    &&& forall|k: int|
        #![trigger img.pixels()[k]]
        0 <= k < img.pixels().len() ==> raw[k * 4] == img.pixels()[k].r && raw[k * 4 + 1]
            == img.pixels()[k].g && raw[k * 4 + 2] == img.pixels()[k].b && raw[k * 4 + 3]
            == img.pixels()[k].a
}

/// A file that is written is the image's own: a JPEG of its red, green and blue
/// at the quality that was asked for where that is the format, and otherwise its
/// pixels with their alpha in the format of the name.
pub proof fn lemma_saved_file_shows_the_image(
    img: &RgbaImage,
    filename: &str,
    format: ImageFormat,
    quality: u8,
    v: Vec<u8>,
)
    requires
        call_ensures(save_image, (img, filename, format, quality), Ok(v)),
    ensures
        format == ImageFormat::Jpeg && quality <= 100 ==> forall|rgb: Seq<u8>| #[trigger]
            holds_colours(rgb, *img) ==> Some(v@) == jpeg_of(
                rgb,
                img.spec_width(),
                img.spec_height(),
                quality,
            ),
        format == ImageFormat::Jpeg && quality > 100 ==> forall|rgb: Seq<u8>| #[trigger]
            holds_colours(rgb, *img) ==> Some(v@) == jpeg_of(
                rgb,
                img.spec_width(),
                img.spec_height(),
                100,
            ),
        format != ImageFormat::Jpeg ==> forall|raw: Seq<u8>| #[trigger]
            holds_pixels(raw, *img) ==> Some(v@) == encoded_for_name(
                raw,
                img.spec_width(),
                img.spec_height(),
                filename@,
            ),
{
    assert forall|rgb: Seq<u8>| #[trigger] holds_colours(rgb, *img) implies rgb
        == without_alpha(raw_pixels(*img)) by {
        let w = without_alpha(raw_pixels(*img));
        assert forall|i: int| 0 <= i < rgb.len() implies rgb[i] == w[i] by {
            lemma_jpegs_are_red_green_blue(*img, w, i / 3);
            let p = img.pixels()[i / 3];
        }
        assert(w.len() == rgb.len());
        assert(rgb =~= w);
    }
    assert forall|raw: Seq<u8>| #[trigger] holds_pixels(raw, *img) implies raw == raw_pixels(
        *img,
    ) by {
        assert forall|i: int| 0 <= i < raw.len() implies raw[i] == raw_pixels(*img)[i] by {
            let p = img.pixels()[i / 4];
        }
        assert(raw =~= raw_pixels(*img));
    }
}

/// An image is saved and copied only where both of its sides are between 1 and
/// 16384 pixels, and under no name but a valid one.
pub proof fn lemma_only_sound_images_are_saved(
    img: &RgbaImage,
    filename: &str,
    format: ImageFormat,
    quality: u8,
    r: Result<Vec<u8>, SaveFault>,
)
    requires
        call_ensures(save_image, (img, filename, format, quality), r),
    ensures
        r is Ok ==> 1 <= img.spec_width() <= 16384 && 1 <= img.spec_height() <= 16384,
        r is Ok ==> 0 < text::byte_len(filename@) <= 255 && !filename@.contains('/')
            && !filename@.contains('\\') && !filename@.contains(':') && !text::contains(
            filename@,
            ".."@,
        ) && filename@.last() != '.' && filename@.last() != ' ',
{
    if r is Ok {
        lemma_allowed_name_stays_inside(filename@);
        lemma_invalid_char_from(filename@, 0, 2);
        text::lemma_len_bound(filename@);
    }
}

/// What goes on the clipboard is the image's own pixels: red, green, blue and
/// alpha of each in turn.
pub proof fn lemma_copied_image_is_the_image(
    img: &RgbaImage,
    r: Result<Vec<u8>, CopyFault>,
    k: int,
)
    requires
        call_ensures(copy_image, (img,), r),
        0 <= k < img.pixels().len(),
    ensures
        r is Ok <==> 1 <= img.spec_width() <= 16384 && 1 <= img.spec_height() <= 16384,
        r matches Ok(raw) ==> raw@.len() == img.pixels().len() * 4 && raw@[k * 4]
            == img.pixels()[k].r && raw@[k * 4 + 1] == img.pixels()[k].g && raw@[k * 4 + 2]
            == img.pixels()[k].b && raw@[k * 4 + 3] == img.pixels()[k].a,
{
    if r is Ok {
        let p = img.pixels()[k];
        assert(frame::pixel_of(r->Ok_0@, k) == p);
    }
}

/// A clipboard that is occupied is tried again a tenth of a second later, until
/// it was tried twenty times; nothing else is tried again.
pub proof fn lemma_occupied_clipboard_is_tried_again(attempt: u32, reply: ClipboardReply, r: RetryStep)
    requires
        call_ensures(retry_with_backoff, (attempt, reply), r),
        attempt < 20,
    ensures
        r is Again <==> reply == ClipboardReply::Occupied && attempt < 19,
        r matches RetryStep::Again { sleep_ms } ==> sleep_ms == 100,
        r is GiveUp <==> reply == ClipboardReply::Occupied && attempt == 19,
        r is Done <==> reply == ClipboardReply::Done,
        r is Failed <==> reply == ClipboardReply::Failed,
{
}

/// A text or a path goes on the clipboard exactly where it has 4096 bytes at
/// most.
pub proof fn lemma_long_texts_stay_off_the_clipboard(s: &str)
    ensures
        call_ensures(copy_text, (s,), Ok(())) ==> text::byte_len(s@) <= 4096,
        call_ensures(copy_file_path, (s,), Ok(())) ==> text::byte_len(s@) <= 4096,
        call_ensures(copy_text, (s,), Err(CopyFault::TextTooLong)) ==> text::byte_len(s@) > 4096,
        call_ensures(copy_file_path, (s,), Err(CopyFault::PathTooLong)) ==> text::byte_len(s@)
            > 4096,
{
}

/// The list of one file tells where the names begin and that they are wide, then
/// each unit of the path with its lower byte first, and ends with two noughts.
pub proof fn lemma_file_list_holds_the_path(path: &str, r: Vec<u8>, units: Seq<u16>, i: int)
    requires
        call_ensures(file_list, (path,), r),
        units == text::utf16(plain_path(path@)),
        0 <= i < units.len(),
    ensures
        r@.len() == 20 + units.len() * 2 + 4,
        r@[0] == 20 && r@[1] == 0 && r@[2] == 0 && r@[3] == 0,
        r@[16] == 1 && r@[17] == 0 && r@[18] == 0 && r@[19] == 0,
        r@[20 + i * 2] + 0x100 * r@[20 + i * 2 + 1] == units[i],
        r@[r@.len() - 1] == 0 && r@[r@.len() - 2] == 0 && r@[r@.len() - 3] == 0 && r@[r@.len() - 4]
            == 0,
{
    let all = units.push(0).push(0);
    let bytes = unit_bytes(all);
    assert(bytes.len() == all.len() * 2);
    assert(r@[20 + i * 2] == bytes[i * 2]);
    assert(r@[20 + i * 2 + 1] == bytes[i * 2 + 1]);
    assert(all[i] == units[i]);
    let n = all.len() as int;
    assert(r@[20 + n * 2 - 1] == bytes[n * 2 - 1]);
    assert(r@[20 + n * 2 - 2] == bytes[n * 2 - 2]);
    assert(r@[20 + n * 2 - 3] == bytes[n * 2 - 3]);
    assert(r@[20 + n * 2 - 4] == bytes[n * 2 - 4]);
    assert(all[n - 1] == 0 && all[n - 2] == 0);
}

/// A path loses the prefix `\\\\?\\` and nothing else, and only where it leads to
/// no other machine.
pub proof fn lemma_only_the_prefix_is_stripped(path: &str, r: String)
    requires
        call_ensures(strip_verbatim, (path,), r),
    ensures
        r@ == path@ || "\\\\?\\"@ + r@ == path@,
        !text::starts_with(path@, "\\\\?\\"@) ==> r@ == path@,
{
    reveal_strlit("\\\\?\\");
    if r@ != path@ {
        assert("\\\\?\\"@ + r@ =~= path@);
    }
}

/// A name that is taken gets a number before its extension: the extension stays,
/// and the name still begins with what stood before it.
pub proof fn lemma_numbered_name_keeps_its_extension(name: Seq<char>, n: nat)
    requires
        name.len() > 0,
        name != ".."@,
    ensures
        paths::stem(name).is_prefix_of(numbered(name, n)),
        paths::extension(name).is_suffix_of(numbered(name, n)) || paths::extension(name).len() == 0,
        numbered(name, n).len() > paths::stem(name).len() + paths::extension(name).len(),
        candidate(name, 0) == name,
        n > 0 ==> candidate(name, n) == numbered(name, n),
{
    let s = numbered(name, n);
    let ext = paths::extension(name);
    reveal_strlit("_");
    assert(paths::stem(name) =~= s.take(paths::stem(name).len() as int));
    if ext.len() > 0 {
        assert(ext =~= s.skip(s.len() - ext.len()));
    }
}

/// A notification shows no more than 256 characters, no control code but line
/// breaks, and a short text without control codes as it is.
pub proof fn lemma_notifications_are_short_and_clean(s: &str, r: String)
    requires
        call_ensures(sanitize_notification_text, (s,), r),
    ensures
        r@.len() <= 256,
        forall|i: int|
            0 <= i < r@.len() ==> !text::control_code(#[trigger] r@[i]) || r@[i] == '\n',
        s@.len() <= 256 && (forall|i: int|
            0 <= i < s@.len() ==> !text::control_code(#[trigger] s@[i])) ==> r@ == s@,
{
    lemma_shown_chars(s@);
}

proof fn lemma_shown_chars(s: Seq<char>)
    ensures
        forall|i: int|
            0 <= i < shown_chars(s).len() ==> !text::control_code(#[trigger] shown_chars(s)[i])
                || shown_chars(s)[i] == '\n',
        (forall|i: int| 0 <= i < s.len() ==> !text::control_code(#[trigger] s[i])) ==> shown_chars(
            s,
        ) == s,
    decreases s.len(),
{
    if s.len() > 0 {
        lemma_shown_chars(s.drop_last());
        let before = shown_chars(s.drop_last());
        assert forall|i: int| 0 <= i < shown_chars(s).len() implies !text::control_code(
            #[trigger] shown_chars(s)[i],
        ) || shown_chars(s)[i] == '\n' by {
            if i < before.len() {
                assert(shown_chars(s)[i] == before[i]);
            }
        }
        if forall|i: int| 0 <= i < s.len() ==> !text::control_code(#[trigger] s[i]) {
            assert forall|i: int| 0 <= i < s.drop_last().len() implies !text::control_code(
                #[trigger] s.drop_last()[i],
            ) by {
                assert(!text::control_code(s[i]));
            }
            assert(!text::control_code(s.last()));
            assert(s.drop_last().push(s.last()) =~= s);
        }
    } else {
        assert(shown_chars(s) =~= s);
    }
}

/// The same news is held back for a second and a half, and shown again behind
/// that; other news is never held back.
pub proof fn lemma_same_news_waits(was: u64, now: u64)
    ensures
        was <= now < was + 1_500_000_000 ==> too_soon(was, now),
        now >= was + 1_500_000_000 ==> !too_soon(was, now),
{
}

} // verus!
