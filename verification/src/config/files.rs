//! Where captures go and what they are called, and what becomes of a settings
//! file.

use vstd::prelude::*;

use crate::config::rules::ConfigFault;
use crate::config::rules;
use crate::config::secrets;
use crate::config::CaptureTask;
use crate::config::Config;
use crate::paths;
use crate::text;

verus! {

// ---- time ----------------------------------------------------------------------------------

/// A moment, and how far the local clock is ahead of universal time.
#[derive(Clone, Copy, PartialEq, Eq, Structural, Debug)]
pub struct LocalTime {
    secs: i64,
    nanos: u32,
    offset_secs: i32,
}

impl LocalTime {
    /// Seconds since 1970 in universal time.
    pub closed spec fn spec_secs(&self) -> i64 {
        self.secs
    }

    pub closed spec fn spec_nanos(&self) -> u32 {
        self.nanos
    }

    pub closed spec fn spec_offset(&self) -> i32 {
        self.offset_secs
    }

    #[verifier::type_invariant]
    spec fn plausible(&self) -> bool {
        self.nanos < 1_000_000_000 && -86_400 < self.offset_secs < 86_400
    }

    /// The moment, where the nanoseconds make no second and the offset is under
    /// a day.
    pub fn new(secs: i64, nanos: u32, offset_secs: i32) -> (r: Option<LocalTime>)
        ensures
            r is Some <==> nanos < 1_000_000_000 && -86_400 < offset_secs < 86_400,
            r matches Some(t) ==> t.spec_secs() == secs && t.spec_nanos() == nanos
                && t.spec_offset() == offset_secs,
    {
        if nanos < 1_000_000_000 && -86_400 < offset_secs && offset_secs < 86_400 {
            Some(LocalTime { secs, nanos, offset_secs })
        } else {
            None
        }
    }

    /// Seconds since 1970 in universal time.
    pub fn timestamp(&self) -> (r: i64)
        ensures
            r == self.spec_secs(),
    {
        self.secs
    }

    /// The moment written by the template, where the template can be read and
    /// the calendar reaches the moment.
    pub fn format(&self, template: &str) -> (r: Option<String>)
        ensures
            text::opt_owned(r) == self.written(template@),
    {
        format_time(self.secs, self.nanos, self.offset_secs, template)
    }

    pub open spec fn written(&self, template: Seq<char>) -> Option<Seq<char>> {
        time_text(self.spec_secs(), self.spec_nanos(), self.spec_offset(), template)
    }
}

/// A moment written by a `strftime` template, by the `chrono` crate. Nothing
/// where the template holds a field that there is not, or the moment lies
/// outside the crate's calendar.
pub uninterp spec fn time_text(secs: i64, nanos: u32, offset_secs: i32, template: Seq<char>) -> Option<
    Seq<char>,
>;

/// `chrono::DateTime::format` and `DelayedFormat::write_to`: the moment that is
/// `secs` and `nanos` after the start of 1970, on a clock that is `offset_secs`
/// ahead, written by the template. A function of these alone; nothing where the
/// template cannot be read for that moment, or where `DateTime::from_timestamp`
/// or `FixedOffset::east_opt` has no such moment or offset.
#[verifier::external_body]
fn format_time(secs: i64, nanos: u32, offset_secs: i32, template: &str) -> (r: Option<String>)
    ensures
        text::opt_owned(r) == time_text(secs, nanos, offset_secs, template@),
{
    let zone = chrono::FixedOffset::east_opt(offset_secs)?;
    let at = chrono::DateTime::from_timestamp(secs, nanos)?.with_timezone(&zone);
    let mut s = String::new();
    at.format(template).write_to(&mut s).ok()?;
    Some(s)
}

// ---- names ---------------------------------------------------------------------------------

/// A character that a file name may hold.
pub open spec fn name_char(c: char) -> bool {
    text::alphanumeric(c) || c == '_' || c == '-'
}

/// The characters of a text that a file name may hold.
pub open spec fn name_chars(s: Seq<char>) -> Seq<char>
    decreases s.len(),
{
    if s.len() == 0 {
        Seq::empty()
    } else if name_char(s.last()) {
        name_chars(s.drop_last()).push(s.last())
    } else {
        name_chars(s.drop_last())
    }
}

/// At most the first `n` characters.
pub open spec fn at_most(s: Seq<char>, n: int) -> Seq<char> {
    if s.len() > n {
        s.take(n)
    } else {
        s
    }
}

/// The name of a file: what the template gave, with only the characters that
/// it may hold and 200 of them at most, or `capture_` and the time where
/// nothing is left.
pub open spec fn file_name(formatted: Seq<char>, timestamp: i64, extension: Seq<char>) -> Seq<char> {
    let kept = at_most(name_chars(formatted), 200);
    let name = if kept.len() == 0 {
        "capture_"@ + text::dec_int(timestamp as int)
    } else {
        kept
    };
    name + "."@ + extension
}

fn keep_name_chars(s: &str) -> (r: String)
    ensures
        r@ == at_most(name_chars(s@), 200),
{
    let a = text::chars_of(s);
    let mut r = String::new();
    let mut n: usize = 0;
    for i in 0..a.len()
        invariant
            a@ == s@,
            n <= 200,
            n == r@.len(),
            r@ == at_most(name_chars(a@.take(i as int)), 200),
    {
        let ghost before = name_chars(a@.take(i as int));
        assert(a@.take(i + 1).drop_last() =~= a@.take(i as int));
        let c = a[i];
        if c.is_alphanumeric() || c == '_' || c == '-' {
            if n < 200 {
                r.push(c);
                n = n + 1;
                assert(r@ =~= at_most(before.push(c), 200));
            } else {
                assert(r@ =~= at_most(before.push(c), 200));
            }
        }
    }
    assert(a@.take(a@.len() as int) =~= a@);
    r
}

/// The name of a file, given what the template gave for the moment.
pub fn name_from(formatted: &str, timestamp: i64, extension: &str) -> (r: String)
    ensures
        r@ == file_name(formatted@, timestamp, extension@),
{
    let mut s = keep_name_chars(formatted);
    if s.as_str().is_empty() {
        s = String::from_str("capture_");
        text::push_int(&mut s, timestamp);
    }
    s.append(".");
    s.append(extension);
    s
}

proof fn lemma_name_chars(s: Seq<char>, i: int)
    requires
        0 <= i < name_chars(s).len(),
    ensures
        name_char(name_chars(s)[i]),
    decreases s.len(),
{
    if s.len() > 0 {
        if name_char(s.last()) {
            if i < name_chars(s.drop_last()).len() {
                lemma_name_chars(s.drop_last(), i);
            }
        } else {
            lemma_name_chars(s.drop_last(), i);
        }
    }
}

/// No template makes a name that leads out of the directory: the name of a file
/// holds no separator, and no dot before the one of its extension.
pub proof fn lemma_names_stay_inside(formatted: Seq<char>, timestamp: i64, extension: Seq<char>, i: int)
    requires
        0 <= i < file_name(formatted, timestamp, extension).len() - extension.len() - 1,
    ensures
        file_name(formatted, timestamp, extension)[i] != '/',
        file_name(formatted, timestamp, extension)[i] != '\\',
        file_name(formatted, timestamp, extension)[i] != '.',
{
    let kept = at_most(name_chars(formatted), 200);
    reveal_strlit(".");
    if kept.len() == 0 {
        reveal_strlit("capture_");
        if i >= 8 {
            text::lemma_dec_int_chars(timestamp as int, i - 8);
        }
    } else {
        lemma_name_chars(formatted, i);
    }
}

impl Config {
    /// The name of a capture made at the moment, where the template can be
    /// read.
    pub fn generate_filename(&self, now: LocalTime) -> (r: Option<String>)
        ensures
            text::opt_owned(r) == (match now.written(self.output.filename_template@) {
                Some(t) => Some(
                    file_name(t, now.spec_secs(), self.output.format.spec_extension()),
                ),
                None => None,
            }),
    {
        match now.format(self.output.filename_template.as_str()) {
            Some(t) => Some(
                name_from(t.as_str(), now.timestamp(), self.output.format.extension()),
            ),
            None => None,
        }
    }

    /// The path of a capture made at the moment, where the template can be
    /// read.
    pub fn output_path(&self, now: LocalTime, sep: char) -> (r: Option<String>)
        ensures
            text::opt_owned(r) == (match now.written(self.output.filename_template@) {
                Some(t) => Some(
                    paths::joined(
                        self.output.directory@,
                        file_name(t, now.spec_secs(), self.output.format.spec_extension()),
                        sep,
                    ),
                ),
                None => None,
            }),
    {
        match self.generate_filename(now) {
            Some(n) => Some(paths::join(self.output.directory.as_str(), n.as_str(), sep)),
            None => None,
        }
    }
}

/// The file in which the settings are kept.
pub fn config_path(config_dir: Option<&str>, sep: char) -> (r: Option<String>)
    ensures
        text::opt_owned(r) == (match text::opt(config_dir) {
            Some(d) => Some(paths::joined(d, "config.toml"@, sep)),
            None => None,
        }),
{
    match config_dir {
        Some(d) => Some(paths::join(d, "config.toml", sep)),
        None => None,
    }
}

/// The name under which a settings file is kept that could not be used.
pub fn backup_name(now: LocalTime) -> (r: Option<String>)
    ensures
        text::opt_owned(r) == (match now.written("%Y%m%d-%H%M%S"@) {
            Some(t) => Some("config.bad."@ + t + ".toml"@),
            None => None,
        }),
{
    match now.format("%Y%m%d-%H%M%S") {
        Some(t) => {
            let mut s = String::from_str("config.bad.");
            s.append(t.as_str());
            s.append(".toml");
            Some(s)
        },
        None => None,
    }
}

// ---- the directory -------------------------------------------------------------------------

/// Why captures cannot go to a directory.
#[derive(Clone, Copy, PartialEq, Eq, Structural, Debug)]
pub enum DirectoryFault {
    Empty,
    Traversal,
    Network,
    /// It lies neither in the home directory nor among the pictures nor in a
    /// temporary directory.
    Outside,
}

impl DirectoryFault {
    pub fn message(&self) -> (r: &'static str)
        ensures
            r@ == (match *self {
                DirectoryFault::Empty => "Output directory path is empty"@,
                DirectoryFault::Traversal => "Output directory contains path traversal"@,
                DirectoryFault::Network => "Network paths are not allowed"@,
                DirectoryFault::Outside => {
                    "Output directory must be within user home, pictures, or temp directory"@
                },
            }),
    {
        match *self {
            DirectoryFault::Empty => "Output directory path is empty",
            DirectoryFault::Traversal => "Output directory contains path traversal",
            DirectoryFault::Network => "Network paths are not allowed",
            DirectoryFault::Outside => {
                "Output directory must be within user home, pictures, or temp directory"
            },
        }
    }
}

/// Whether the directory may be made: what is wrong with its path as it stands.
pub fn check_directory(dir: &str, windows: bool) -> (r: Result<(), DirectoryFault>)
    ensures
        r == (if dir@.len() == 0 {
            Err::<(), DirectoryFault>(DirectoryFault::Empty)
        } else if text::contains(dir@, ".."@) {
            Err(DirectoryFault::Traversal)
        } else if windows && text::starts_with(dir@, "\\\\"@) {
            Err(DirectoryFault::Network)
        } else {
            Ok(())
        }),
{
    if dir.is_empty() {
        Err(DirectoryFault::Empty)
    } else if text::has_text(dir, "..") {
        Err(DirectoryFault::Traversal)
    } else if windows && text::has_prefix(dir, "\\\\") {
        Err(DirectoryFault::Network)
    } else {
        Ok(())
    }
}

/// Captures may go to the directory, whose path is a canonical one.
pub open spec fn directory_allowed(
    dir: Seq<char>,
    home: Option<Seq<char>>,
    pictures: Option<Seq<char>>,
    windows: bool,
    sep: char,
) -> bool {
    ||| home matches Some(h) && paths::below(dir, h, sep)
    ||| pictures matches Some(p) && paths::below(dir, p, sep)
    ||| !windows && (paths::below(dir, "/tmp"@, sep) || paths::below(dir, "/var/tmp"@, sep))
    ||| windows && {
        let low = text::lowercase(dir);
        text::contains(low, "\\temp\\"@) || text::contains(low, "\\tmp\\"@) || text::starts_with(
            low,
            "c:\\users\\"@,
        )
    }
}

/// Whether captures may go to the directory. The paths are canonical ones; a
/// home or picture directory that there is not is missing.
pub fn check_place(dir: &str, home: Option<&str>, pictures: Option<&str>, windows: bool, sep: char)
    -> (r: Result<(), DirectoryFault>)
    ensures
        r == (if directory_allowed(dir@, text::opt(home), text::opt(pictures), windows, sep) {
            Ok::<(), DirectoryFault>(())
        } else {
            Err(DirectoryFault::Outside)
        }),
{
    if let Some(h) = home {
        if paths::lies_below(dir, h, sep) {
            return Ok(());
        }
    }
    if let Some(p) = pictures {
        if paths::lies_below(dir, p, sep) {
            return Ok(());
        }
    }
    if windows {
        let low = dir.to_lowercase();
        if text::has_text(low.as_str(), "\\temp\\") || text::has_text(low.as_str(), "\\tmp\\")
            || text::has_prefix(low.as_str(), "c:\\users\\") {
            return Ok(());
        }
    } else if paths::lies_below(dir, "/tmp", sep) || paths::lies_below(dir, "/var/tmp", sep) {
        return Ok(());
    }
    Err(DirectoryFault::Outside)
}

// ---- loading -------------------------------------------------------------------------------

/// What to do about a settings file that was read.
#[derive(Clone, Copy, PartialEq, Eq, Structural, Debug)]
pub enum LoadStep {
    /// The settings are ready.
    Ready,
    /// The settings are ready, but for secrets that have to be sealed and
    /// saved.
    Migrate,
    /// The file cannot be used. It is kept under another name, and the settings
    /// are those of a first start.
    Backup,
}

/// Settles what a settings file held, where it could be read: the settings put
/// right, or those of a first start where they cannot be put right.
pub fn settle_loaded(parsed: Option<Config>, fresh: Config) -> (r: (Config, LoadStep))
    requires
        fresh.is_default(),
    ensures
        r.0.fault() is None,
        r.1 is Backup ==> r.0 == fresh,
        match parsed {
            None => r.1 is Backup,
            Some(c) => forall|s: Config| #[trigger]
                rules::sanitized(c, s) ==> (r.1 is Backup) == (s.fault() is Some),
        },
        !(r.1 is Backup) ==> (parsed matches Some(c) && rules::sanitized(c, r.0)) && (r.1
            is Migrate) == secrets::has_unsealed(r.0.upload),
{
    proof {
        rules::lemma_default_is_valid(fresh);
    }
    match parsed {
        None => (fresh, LoadStep::Backup),
        Some(c) => {
            let ghost was = c;
            let mut c = c;
            c.sanitize();
            proof {
                assert forall|s: Config| #[trigger] rules::sanitized(was, s) implies s.fault()
                    == c.fault() by {
                    rules::lemma_sanitized_alike(was, s, c);
                }
            }
            match c.validate() {
                Err(_) => (fresh, LoadStep::Backup),
                Ok(()) => if c.needs_secret_migration() {
                    (c, LoadStep::Migrate)
                } else {
                    (c, LoadStep::Ready)
                },
            }
        },
    }
}

// ---- taking settings over ------------------------------------------------------------------

/// What follows from settings that were taken over.
#[derive(Debug)]
pub struct SettingsChange {
    pub config: Config,
    /// The tasks whose hotkeys are to be listened for.
    pub tasks: Vec<CaptureTask>,
    /// Whether input devices are to be read directly, where the user has said.
    pub advanced_input: Option<bool>,
    /// Whether the program is to start by itself, where that is to change.
    pub autostart: Option<bool>,
}

fn copy_tasks(tasks: &Vec<CaptureTask>) -> (r: Vec<CaptureTask>)
    ensures
        r@ == tasks@,
{
    let mut r: Vec<CaptureTask> = Vec::new();
    for i in 0..tasks.len()
        invariant
            r@ == tasks@.take(i as int),
    {
        r.push(tasks[i].clone());
        assert(r@ =~= tasks@.take(i + 1));
    }
    assert(tasks@.take(tasks@.len() as int) =~= tasks@);
    r
}

/// The tasks whose hotkeys are to be listened for: none while hotkeys are
/// switched off.
pub fn tasks_to_register(tasks: &Vec<CaptureTask>, hotkeys_disabled: bool) -> (r: Vec<CaptureTask>)
    ensures
        r@ == (if hotkeys_disabled {
            Seq::empty()
        } else {
            tasks@
        }),
{
    if hotkeys_disabled {
        Vec::new()
    } else {
        copy_tasks(tasks)
    }
}

/// The settings as they are taken over: with the sealed secrets that were
/// stored, and with the hotkey switch as it stands.
pub open spec fn taken_over(config: Config, stored: Config, hotkeys_disabled: bool) -> Config {
    Config {
        upload: secrets::with_kept_secrets(config.upload, stored.upload),
        hotkeys: crate::config::HotkeyConfig {
            disabled_globally: hotkeys_disabled,
            ..config.hotkeys
        },
        ..config
    }
}

/// Takes over settings that the user changed.
pub fn set_config(config: Config, stored: &Config, hotkeys_disabled: bool, autostart_on: bool) -> (r:
    Result<SettingsChange, ConfigFault>)
    ensures
        ({
            let c = taken_over(config, *stored, hotkeys_disabled);
            match c.fault() {
                Some(f) => r matches Err(e) && e == f,
                None => r matches Ok(s) && s.config == c && s.tasks@ == (if hotkeys_disabled {
                    Seq::empty()
                } else {
                    c.capture_tasks@
                }) && s.advanced_input == c.hotkeys.advanced_input && s.autostart == (if autostart_on
                    != c.ui.auto_start {
                    Some(c.ui.auto_start)
                } else {
                    None
                }),
            }
        }),
{
    let mut c = config;
    c.upload.keep_stored_secrets(&stored.upload);
    c.hotkeys.disabled_globally = hotkeys_disabled;
    match c.validate() {
        Err(e) => Err(e),
        Ok(()) => {
            let tasks = tasks_to_register(&c.capture_tasks, hotkeys_disabled);
            let advanced_input = c.hotkeys.advanced_input;
            let autostart = if autostart_on != c.ui.auto_start {
                Some(c.ui.auto_start)
            } else {
                None
            };
            Ok(SettingsChange { config: c, tasks, advanced_input, autostart })
        },
    }
}

// ---- laws --------------------------------------------------------------------------------------

proof fn lemma_name_chars_keep_all(s: Seq<char>)
    requires
        forall|i: int|
            0 <= i < s.len() ==> text::alphanumeric(#[trigger] s[i]) || s[i] == '_' || s[i] == '-',
    ensures
        name_chars(s) == s,
    decreases s.len(),
{
    if s.len() > 0 {
        lemma_name_chars_keep_all(s.drop_last());
        assert(s[s.len() - 1] == s.last());
        assert(name_chars(s) =~= s);
    }
}

/// A name that holds only letters, digits, `_` and `-` stays as the template gave
/// it, cut to its first 200 characters.
pub proof fn lemma_plain_name_is_kept(formatted: &str, timestamp: i64, extension: &str, r: String)
    requires
        formatted@.len() > 0,
        forall|i: int|
            0 <= i < formatted@.len() ==> text::alphanumeric(#[trigger] formatted@[i])
                || formatted@[i] == '_' || formatted@[i] == '-',
        call_ensures(name_from, (formatted, timestamp, extension), r),
    ensures
        formatted@.len() <= 200 ==> r@ == formatted@ + "."@ + extension@,
        formatted@.len() > 200 ==> r@ == formatted@.take(200) + "."@ + extension@,
{
    lemma_name_chars_keep_all(formatted@);
}

proof fn lemma_name_chars_add(a: Seq<char>, b: Seq<char>)
    ensures
        name_chars(a + b) == name_chars(a) + name_chars(b),
    decreases b.len(),
{
    if b.len() > 0 {
        lemma_name_chars_add(a, b.drop_last());
        assert((a + b).drop_last() =~= a + b.drop_last());
        assert((a + b).last() == b.last());
        assert(name_chars(a + b) =~= name_chars(a) + name_chars(b));
    } else {
        assert(a + b =~= a);
        assert(name_chars(a + b) =~= name_chars(a) + name_chars(b));
    }
}

/// A character that a name may not hold leaves no trace in it: the name is the
/// one of the text without it.
pub proof fn lemma_other_characters_go(
    before: Seq<char>,
    c: char,
    behind: Seq<char>,
    with: &str,
    without: &str,
    timestamp: i64,
    extension: &str,
    r: String,
    q: String,
)
    requires
        !text::alphanumeric(c) && c != '_' && c != '-',
        with@ == before + seq![c] + behind,
        without@ == before + behind,
        call_ensures(name_from, (with, timestamp, extension), r),
        call_ensures(name_from, (without, timestamp, extension), q),
    ensures
        r@ == q@,
{
    let one = seq![c];
    assert(one.drop_last() =~= Seq::<char>::empty());
    assert(name_chars(one.drop_last()) =~= Seq::<char>::empty());
    assert(one.last() == c);
    assert(name_chars(one) =~= Seq::<char>::empty());
    lemma_name_chars_add(before + one, behind);
    lemma_name_chars_add(before, one);
    lemma_name_chars_add(before, behind);
    assert(name_chars(before) + name_chars(one) =~= name_chars(before));
}

/// Where the template leaves nothing, the name tells the time.
pub proof fn lemma_empty_name_tells_the_time(
    formatted: &str,
    timestamp: i64,
    extension: &str,
    r: String,
)
    requires
        formatted@.len() == 0,
        timestamp >= 0,
        call_ensures(name_from, (formatted, timestamp, extension), r),
    ensures
        exists|digits: Seq<char>|
            text::dec_value(digits) == timestamp && r@ == #[trigger] ("capture_"@ + digits + "."@
                + extension@),
{
    text::lemma_dec_value(timestamp as nat);
    let digits = text::dec(timestamp as nat);
    assert(text::dec_value(digits) == timestamp);
    assert(r@ == "capture_"@ + digits + "."@ + extension@);
}

/// A capture goes to the directory of the settings, under the name that is made
/// for the moment, and that name ends in the extension of the format.
pub proof fn lemma_capture_goes_to_the_directory(
    c: Config,
    now: LocalTime,
    sep: char,
    path: Option<String>,
    name: Option<String>,
    ext: &'static str,
)
    requires
        call_ensures(Config::output_path, (&c, now, sep), path),
        call_ensures(Config::generate_filename, (&c, now), name),
        call_ensures(crate::config::ImageFormat::extension, (&c.output.format,), ext),
        c.output.directory@.len() > 0,
        c.output.directory@.last() != sep,
    ensures
        path is Some <==> name is Some,
        path matches Some(p) ==> (name matches Some(n) && p@ == c.output.directory@ + seq![sep]
            + n@),
        name matches Some(n) ==> text::ends_with(n@, "."@ + ext@),
{
    assert(c.output.directory@.push(sep) =~= c.output.directory@ + seq![sep]);
    if let Some(t) = now.written(c.output.filename_template@) {
        let n = file_name(t, now.spec_secs(), c.output.format.spec_extension());
        assert(n.skip(n.len() - ("."@ + ext@).len()) =~= "."@ + ext@);
    }
}

/// A directory is refused where it is named by nothing, where its path holds two
/// dots in a row and, on Windows, where it lies on another machine; no other is.
pub proof fn lemma_refused_directories(
    dir: &str,
    windows: bool,
    r: Result<(), DirectoryFault>,
    a: Seq<char>,
    b: Seq<char>,
)
    requires
        call_ensures(check_directory, (dir, windows), r),
    ensures
        dir@.len() == 0 ==> r is Err,
        dir@ == a + ".."@ + b ==> r is Err,
        dir@ == "\\\\"@ + b ==> r is Err || !windows,
        r == Err::<(), DirectoryFault>(DirectoryFault::Network) ==> windows,
        r is Err ==> dir@.len() == 0 || text::contains(dir@, ".."@) || windows
            && text::starts_with(dir@, "\\\\"@),
{
    if dir@ == a + ".."@ + b {
        assert(dir@.subrange(a.len() as int, (a.len() + ".."@.len()) as int) =~= ".."@);
        assert(text::occurs_at(dir@, ".."@, a.len() as int));
    }
    if dir@ == "\\\\"@ + b {
        assert(dir@.take("\\\\"@.len() as int) =~= "\\\\"@);
    }
}

/// Captures may go below the home directory, below the pictures and, where the
/// system is not Windows, below a temporary directory.
pub proof fn lemma_captures_go_to_the_users_places(
    dir: &str,
    home: Option<&str>,
    pictures: Option<&str>,
    windows: bool,
    sep: char,
    r: Result<(), DirectoryFault>,
    place: Seq<char>,
    rest: Seq<char>,
)
    requires
        call_ensures(check_place, (dir, home, pictures, windows, sep), r),
        dir@ == place.push(sep) + rest,
        place.len() > 0,
        place.last() != sep,
        (home matches Some(h) && h@ == place) || (pictures matches Some(p) && p@ == place)
            || !windows && (place == "/tmp"@ || place == "/var/tmp"@),
    ensures
        r is Ok,
{
    assert(text::trim_end_of(place, sep) == place);
    assert(dir@.take((place.len() + 1) as int) =~= place.push(sep));
}

/// Where the user has neither a home nor pictures, captures go nowhere on
/// another system than Windows but to what begins with a temporary directory.
pub proof fn lemma_captures_go_nowhere_else(
    dir: &str,
    sep: char,
    r: Result<(), DirectoryFault>,
)
    requires
        call_ensures(check_place, (dir, None, None, false, sep), r),
        sep == '/',
        !text::starts_with(dir@, "/tmp"@),
        !text::starts_with(dir@, "/var/tmp"@),
    ensures
        r == Err::<(), DirectoryFault>(DirectoryFault::Outside),
{
    reveal_strlit("/tmp");
    reveal_strlit("/var/tmp");
    let t = "/tmp"@;
    let v = "/var/tmp"@;
    assert(text::trim_end_of(t, sep) == t);
    assert(text::trim_end_of(v, sep) == v);
    if dir@ == t {
        assert(dir@.take(t.len() as int) =~= t);
    }
    if dir@ == v {
        assert(dir@.take(v.len() as int) =~= v);
    }
    if text::starts_with(dir@, t.push(sep)) {
        assert(dir@.take(t.len() as int) =~= t.push(sep).take(t.len() as int));
        assert(t.push(sep).take(t.len() as int) =~= t);
    }
    if text::starts_with(dir@, v.push(sep)) {
        assert(dir@.take(v.len() as int) =~= v.push(sep).take(v.len() as int));
        assert(v.push(sep).take(v.len() as int) =~= v);
    }
}

/// Settings that the user changed are taken over as they are, but for the switch
/// of the hotkeys, which stays as it stands, and the sealed secrets. No hotkey is
/// listened for while they are switched off, and the start of the program changes
/// only where the user changed it.
pub proof fn lemma_changed_settings_are_taken_over(
    config: Config,
    stored: Config,
    off: bool,
    starts: bool,
    s: SettingsChange,
)
    requires
        call_ensures(set_config, (config, &stored, off, starts), Ok(s)),
    ensures
        s.config.capture_tasks == config.capture_tasks,
        s.config.output == config.output,
        s.config.capture == config.capture,
        s.config.ui == config.ui,
        s.config.post_capture == config.post_capture,
        s.config.performance == config.performance,
        s.config.marketplace == config.marketplace,
        s.config.hotkeys.screenshot == config.hotkeys.screenshot,
        s.config.hotkeys.record_gif == config.hotkeys.record_gif,
        s.config.hotkeys.disabled_globally == off,
        s.config.upload.destination == config.upload.destination,
        s.config.upload.custom_url == config.upload.custom_url,
        off ==> s.tasks@.len() == 0,
        !off ==> s.tasks@ == config.capture_tasks@,
        s.advanced_input == config.hotkeys.advanced_input,
        s.autostart is Some <==> starts != config.ui.auto_start,
        s.autostart matches Some(on) ==> on == config.ui.auto_start,
        config.upload.ftp.password@.len() == 0 && config.upload.ftp.password_encrypted@.len() == 0
            ==> s.config.upload.ftp.password_encrypted@ == stored.upload.ftp.password_encrypted@,
{
}

/// Settings from a file are used where they can be put right. Where they hold no
/// fault they are used as they are.
pub proof fn lemma_sound_file_is_used(c: Config, fresh: Config, r: (Config, LoadStep))
    requires
        fresh.is_default(),
        call_ensures(settle_loaded, (Some(c), fresh), r),
        c.fault() is None,
    ensures
        r.0 == c,
        !(r.1 is Backup),
        r.1 is Migrate <==> secrets::has_unsealed(c.upload),
{
    assert(rules::sanitized(c, c));
    rules::lemma_sanitize_keeps_valid_settings(c, r.0);
}

} // verus!
