//! What the settings may hold.

use vstd::prelude::*;

use crate::config::CaptureConfig;
use crate::config::CaptureTask;
use crate::config::Config;
use crate::config::OutputConfig;
use crate::config::UploadConfig;
use crate::text;

verus! {

pub const MAX_QUALITY: u8 = 100;

pub const MIN_GIF_FPS: u32 = 1;

pub const MAX_GIF_FPS: u32 = 60;

pub const MAX_GIF_DURATION_SECS: u32 = 300;

pub const MAX_DELAY_MS: u32 = 30000;

pub const MAX_FILENAME_TEMPLATE_LEN: usize = 128;

pub const MAX_HOTKEY_LEN: usize = 64;

pub const MAX_CUSTOM_URL_LEN: usize = 512;

pub const MAX_FORM_NAME_LEN: usize = 64;

pub const MAX_RESPONSE_PATH_LEN: usize = 128;

pub const MIN_TICK_INTERVAL_MS: u32 = 16;

pub const MAX_TICK_INTERVAL_MS: u32 = 500;

// ---- characters ----------------------------------------------------------------------------

pub open spec fn hotkey_char(c: char) -> bool {
    text::alphanumeric(c) || c == '+' || c == ' '
}

pub open spec fn form_char(c: char) -> bool {
    text::ascii_alphanumeric(c) || c == '_' || c == '-'
}

pub open spec fn path_char(c: char) -> bool {
    form_char(c) || c == '.'
}

pub open spec fn id_char(c: char) -> bool {
    'a' <= c <= 'z' || '0' <= c <= '9' || c == '-'
}

pub open spec fn hotkey_text(s: Seq<char>) -> bool {
    forall|i: int| 0 <= i < s.len() ==> hotkey_char(#[trigger] s[i])
}

pub open spec fn form_text(s: Seq<char>) -> bool {
    forall|i: int| 0 <= i < s.len() ==> form_char(#[trigger] s[i])
}

pub open spec fn path_text(s: Seq<char>) -> bool {
    forall|i: int| 0 <= i < s.len() ==> path_char(#[trigger] s[i])
}

pub open spec fn id_text(s: Seq<char>) -> bool {
    forall|i: int| 0 <= i < s.len() ==> id_char(#[trigger] s[i])
}

fn is_form_char(c: char) -> (r: bool)
    ensures
        r == form_char(c),
{
    ('a' <= c && c <= 'z') || ('A' <= c && c <= 'Z') || ('0' <= c && c <= '9') || c == '_' || c
        == '-'
}

fn is_hotkey_text(s: &str) -> (r: bool)
    ensures
        r == hotkey_text(s@),
{
    let a = text::chars_of(s);
    for i in 0..a.len()
        invariant
            a@ == s@,
            forall|k: int| 0 <= k < i ==> hotkey_char(#[trigger] a@[k]),
    {
        if !(a[i].is_alphanumeric() || a[i] == '+' || a[i] == ' ') {
            assert(!hotkey_char(s@[i as int]));
            return false;
        }
    }
    true
}

fn is_form_text(s: &str) -> (r: bool)
    ensures
        r == form_text(s@),
{
    let a = text::chars_of(s);
    for i in 0..a.len()
        invariant
            a@ == s@,
            forall|k: int| 0 <= k < i ==> form_char(#[trigger] a@[k]),
    {
        if !is_form_char(a[i]) {
            assert(!form_char(s@[i as int]));
            return false;
        }
    }
    true
}

fn is_path_text(s: &str) -> (r: bool)
    ensures
        r == path_text(s@),
{
    let a = text::chars_of(s);
    for i in 0..a.len()
        invariant
            a@ == s@,
            forall|k: int| 0 <= k < i ==> path_char(#[trigger] a@[k]),
    {
        if !(is_form_char(a[i]) || a[i] == '.') {
            assert(!path_char(s@[i as int]));
            return false;
        }
    }
    true
}

fn is_id_text(s: &str) -> (r: bool)
    ensures
        r == id_text(s@),
{
    let a = text::chars_of(s);
    for i in 0..a.len()
        invariant
            a@ == s@,
            forall|k: int| 0 <= k < i ==> id_char(#[trigger] a@[k]),
    {
        let c = a[i];
        if !(('a' <= c && c <= 'z') || ('0' <= c && c <= '9') || c == '-') {
            assert(!id_char(s@[i as int]));
            return false;
        }
    }
    true
}

// ---- texts ---------------------------------------------------------------------------------

/// The template leads out of the directory.
pub open spec fn escapes(s: Seq<char>) -> bool {
    s.contains('/') || s.contains('\\') || text::contains(s, ".."@)
}

fn leads_out(s: &str) -> (r: bool)
    ensures
        r == escapes(s@),
{
    text::has_char(s, '/') || text::has_char(s, '\\') || text::has_text(s, "..")
}

/// The address is not one of the secure web.
pub open spec fn insecure(url: Seq<char>) -> bool {
    url.len() > 0 && !text::starts_with(url, "https://"@)
}

fn is_insecure(url: &str) -> (r: bool)
    ensures
        r == insecure(url@),
{
    !url.is_empty() && !text::has_prefix(url, "https://")
}

/// The dots in the path do not separate names.
pub open spec fn misplaced_dots(s: Seq<char>) -> bool {
    text::starts_with(s, "."@) || text::ends_with(s, "."@) || text::contains(s, ".."@)
}

fn has_misplaced_dots(s: &str) -> (r: bool)
    ensures
        r == misplaced_dots(s@),
{
    text::has_prefix(s, ".") || text::has_suffix(s, ".") || text::has_text(s, "..")
}

// ---- numbers -------------------------------------------------------------------------------

/// The bits of a 32-bit float without its sign. Of two floats that are not
/// negative, the larger has the larger number.
pub open spec fn magnitude(bits: u32) -> int {
    (bits % 0x8000_0000) as int
}

/// The bits are those of a finite number between nought and the number whose
/// bits are `limit`. Minus nought is nought.
pub open spec fn float_within(bits: u32, limit: u32) -> bool {
    if bits < 0x8000_0000 {
        bits < 0x7f80_0000 && bits <= limit
    } else {
        magnitude(bits) == 0
    }
}

fn is_float_within(bits: u32, limit: u32) -> (r: bool)
    ensures
        r == float_within(bits, limit),
{
    if bits < 0x8000_0000 {
        bits < 0x7f80_0000 && bits <= limit
    } else {
        bits % 0x8000_0000 == 0
    }
}

// ---- faults --------------------------------------------------------------------------------

/// What is wrong with a task.
#[derive(Clone, Copy, PartialEq, Eq, Structural, Debug)]
pub enum TaskFault {
    BadId,
    LongId,
    DuplicateId,
    DuplicateHotkey,
    BadName,
    LongHotkey,
    BadHotkey,
}

/// What is wrong with the settings.
#[derive(Clone, Copy, PartialEq, Eq, Structural, Debug)]
pub enum ConfigFault {
    Quality,
    GifFps,
    GifDuration,
    Delay,
    LongTemplate,
    TemplatePath,
    LongHotkey,
    BadHotkey,
    LongUrl,
    InsecureUrl,
    LongFormName,
    BadFormName,
    LongResponsePath,
    BadResponsePath,
    ResponsePathDots,
    TickInterval,
    Brightness,
    BrightnessScale,
    Task { index: usize, fault: TaskFault },
}

/// What is wrong with the hotkey.
pub open spec fn hotkey_fault(s: Seq<char>) -> Option<ConfigFault> {
    if text::byte_len(s) > MAX_HOTKEY_LEN {
        Some(ConfigFault::LongHotkey)
    } else if !hotkey_text(s) {
        Some(ConfigFault::BadHotkey)
    } else {
        None
    }
}

/// An earlier task has the id of the task at `i`.
pub open spec fn id_taken(tasks: Seq<CaptureTask>, i: int) -> bool {
    exists|j: int| 0 <= j < i && (#[trigger] tasks[j]).id@ == tasks[i].id@
}

/// An earlier task has the hotkey of the task at `i`.
pub open spec fn hotkey_taken(tasks: Seq<CaptureTask>, i: int) -> bool {
    exists|j: int| 0 <= j < i && (#[trigger] tasks[j]).hotkey@ == tasks[i].hotkey@
}

/// What is wrong with the task at `i`.
pub open spec fn task_fault(tasks: Seq<CaptureTask>, i: int) -> Option<TaskFault> {
    let t = tasks[i];
    if t.id@.len() == 0 || !id_text(t.id@) {
        Some(TaskFault::BadId)
    } else if text::byte_len(t.id@) > 64 {
        Some(TaskFault::LongId)
    } else if id_taken(tasks, i) {
        Some(TaskFault::DuplicateId)
    } else if t.hotkey@.len() > 0 && hotkey_taken(tasks, i) {
        Some(TaskFault::DuplicateHotkey)
    } else if t.name@.len() == 0 || text::byte_len(t.name@) > 128 {
        Some(TaskFault::BadName)
    } else if text::byte_len(t.hotkey@) > MAX_HOTKEY_LEN {
        Some(TaskFault::LongHotkey)
    } else if !hotkey_text(t.hotkey@) {
        Some(TaskFault::BadHotkey)
    } else {
        None
    }
}

/// The first fault of a task, looking from `i` on.
pub open spec fn tasks_fault(tasks: Seq<CaptureTask>, i: int) -> Option<ConfigFault>
    decreases tasks.len() - i,
{
    if i >= tasks.len() {
        None
    } else {
        match task_fault(tasks, i) {
            Some(fault) => Some(ConfigFault::Task { index: i as usize, fault }),
            None => tasks_fault(tasks, i + 1),
        }
    }
}

impl Config {
    /// What is wrong with the settings, in the order in which they are looked
    /// at.
    pub open spec fn fault(&self) -> Option<ConfigFault> {
        if self.output.quality > MAX_QUALITY {
            Some(ConfigFault::Quality)
        } else if !(MIN_GIF_FPS <= self.capture.gif_fps <= MAX_GIF_FPS) {
            Some(ConfigFault::GifFps)
        } else if self.capture.gif_max_duration_secs > MAX_GIF_DURATION_SECS {
            Some(ConfigFault::GifDuration)
        } else if self.capture.delay_ms > MAX_DELAY_MS {
            Some(ConfigFault::Delay)
        } else if text::byte_len(self.output.filename_template@) > MAX_FILENAME_TEMPLATE_LEN {
            Some(ConfigFault::LongTemplate)
        } else if escapes(self.output.filename_template@) {
            Some(ConfigFault::TemplatePath)
        } else if hotkey_fault(self.hotkeys.screenshot@) is Some {
            hotkey_fault(self.hotkeys.screenshot@)
        } else if hotkey_fault(self.hotkeys.record_gif@) is Some {
            hotkey_fault(self.hotkeys.record_gif@)
        } else if text::byte_len(self.upload.custom_url@) > MAX_CUSTOM_URL_LEN {
            Some(ConfigFault::LongUrl)
        } else if insecure(self.upload.custom_url@) {
            Some(ConfigFault::InsecureUrl)
        } else if text::byte_len(self.upload.custom_form_name@) > MAX_FORM_NAME_LEN {
            Some(ConfigFault::LongFormName)
        } else if !form_text(self.upload.custom_form_name@) {
            Some(ConfigFault::BadFormName)
        } else if text::byte_len(self.upload.custom_response_path@) > MAX_RESPONSE_PATH_LEN {
            Some(ConfigFault::LongResponsePath)
        } else if !path_text(self.upload.custom_response_path@) {
            Some(ConfigFault::BadResponsePath)
        } else if misplaced_dots(self.upload.custom_response_path@) {
            Some(ConfigFault::ResponsePathDots)
        } else if !(MIN_TICK_INTERVAL_MS <= self.performance.tick_interval_ms
            <= MAX_TICK_INTERVAL_MS) {
            Some(ConfigFault::TickInterval)
        } else if !float_within(self.capture.hdr.brightness_nits_bits, 0x461c_4000) {
            Some(ConfigFault::Brightness)
        } else if !(float_within(self.capture.hdr.user_brightness_scale_bits, 0x42c8_0000)
            && magnitude(self.capture.hdr.user_brightness_scale_bits) > 0) {
            Some(ConfigFault::BrightnessScale)
        } else {
            tasks_fault(self.capture_tasks@, 0)
        }
    }

    /// Whether the settings may be used: the first fault in them, where there
    /// is one.
    pub fn validate(&self) -> (r: Result<(), ConfigFault>)
        ensures
            r == (match self.fault() {
                Some(f) => Err::<(), ConfigFault>(f),
                None => Ok(()),
            }),
    {
        if self.output.quality > MAX_QUALITY {
            return Err(ConfigFault::Quality);
        }
        if self.capture.gif_fps < MIN_GIF_FPS || self.capture.gif_fps > MAX_GIF_FPS {
            return Err(ConfigFault::GifFps);
        }
        if self.capture.gif_max_duration_secs > MAX_GIF_DURATION_SECS {
            return Err(ConfigFault::GifDuration);
        }
        if self.capture.delay_ms > MAX_DELAY_MS {
            return Err(ConfigFault::Delay);
        }
        if text::len_of(self.output.filename_template.as_str()) > MAX_FILENAME_TEMPLATE_LEN {
            return Err(ConfigFault::LongTemplate);
        }
        if leads_out(self.output.filename_template.as_str()) {
            return Err(ConfigFault::TemplatePath);
        }
        check_hotkey(self.hotkeys.screenshot.as_str())?;
        check_hotkey(self.hotkeys.record_gif.as_str())?;
        if text::len_of(self.upload.custom_url.as_str()) > MAX_CUSTOM_URL_LEN {
            return Err(ConfigFault::LongUrl);
        }
        if is_insecure(self.upload.custom_url.as_str()) {
            return Err(ConfigFault::InsecureUrl);
        }
        if text::len_of(self.upload.custom_form_name.as_str()) > MAX_FORM_NAME_LEN {
            return Err(ConfigFault::LongFormName);
        }
        if !is_form_text(self.upload.custom_form_name.as_str()) {
            return Err(ConfigFault::BadFormName);
        }
        if text::len_of(self.upload.custom_response_path.as_str()) > MAX_RESPONSE_PATH_LEN {
            return Err(ConfigFault::LongResponsePath);
        }
        if !is_path_text(self.upload.custom_response_path.as_str()) {
            return Err(ConfigFault::BadResponsePath);
        }
        if has_misplaced_dots(self.upload.custom_response_path.as_str()) {
            return Err(ConfigFault::ResponsePathDots);
        }
        if self.performance.tick_interval_ms < MIN_TICK_INTERVAL_MS
            || self.performance.tick_interval_ms > MAX_TICK_INTERVAL_MS {
            return Err(ConfigFault::TickInterval);
        }
        if !is_float_within(self.capture.hdr.brightness_nits_bits, 0x461c_4000) {
            return Err(ConfigFault::Brightness);
        }
        if !is_float_within(self.capture.hdr.user_brightness_scale_bits, 0x42c8_0000)
            || self.capture.hdr.user_brightness_scale_bits % 0x8000_0000 == 0 {
            return Err(ConfigFault::BrightnessScale);
        }
        let n: usize = self.capture_tasks.len();
        for i in 0..n
            invariant
                n == self.capture_tasks@.len(),
                self.fault() == tasks_fault(self.capture_tasks@, i as int),
        {
            match find_task_fault(&self.capture_tasks, i) {
                Some(fault) => {
                    return Err(ConfigFault::Task { index: i, fault });
                },
                None => {},
            }
        }
        Ok(())
    }
}

fn check_hotkey(s: &str) -> (r: Result<(), ConfigFault>)
    ensures
        r == (match hotkey_fault(s@) {
            Some(f) => Err::<(), ConfigFault>(f),
            None => Ok(()),
        }),
{
    if text::len_of(s) > MAX_HOTKEY_LEN {
        Err(ConfigFault::LongHotkey)
    } else if !is_hotkey_text(s) {
        Err(ConfigFault::BadHotkey)
    } else {
        Ok(())
    }
}

fn is_id_taken(tasks: &Vec<CaptureTask>, i: usize) -> (r: bool)
    requires
        i < tasks@.len(),
    ensures
        r == id_taken(tasks@, i as int),
{
    for j in 0..i
        invariant
            i < tasks@.len(),
            forall|k: int| 0 <= k < j ==> (#[trigger] tasks@[k]).id@ != tasks@[i as int].id@,
    {
        if text::same(tasks[j].id.as_str(), tasks[i].id.as_str()) {
            assert(tasks@[j as int].id@ == tasks@[i as int].id@);
            return true;
        }
    }
    false
}

fn is_hotkey_taken(tasks: &Vec<CaptureTask>, i: usize) -> (r: bool)
    requires
        i < tasks@.len(),
    ensures
        r == hotkey_taken(tasks@, i as int),
{
    for j in 0..i
        invariant
            i < tasks@.len(),
            forall|k: int|
                0 <= k < j ==> (#[trigger] tasks@[k]).hotkey@ != tasks@[i as int].hotkey@,
    {
        if text::same(tasks[j].hotkey.as_str(), tasks[i].hotkey.as_str()) {
            assert(tasks@[j as int].hotkey@ == tasks@[i as int].hotkey@);
            return true;
        }
    }
    false
}

fn find_task_fault(tasks: &Vec<CaptureTask>, i: usize) -> (r: Option<TaskFault>)
    requires
        i < tasks@.len(),
    ensures
        r == task_fault(tasks@, i as int),
{
    let t = &tasks[i];
    if t.id.as_str().is_empty() || !is_id_text(t.id.as_str()) {
        Some(TaskFault::BadId)
    } else if text::len_of(t.id.as_str()) > 64 {
        Some(TaskFault::LongId)
    } else if is_id_taken(tasks, i) {
        Some(TaskFault::DuplicateId)
    } else if !t.hotkey.as_str().is_empty() && is_hotkey_taken(tasks, i) {
        Some(TaskFault::DuplicateHotkey)
    } else if t.name.as_str().is_empty() || text::len_of(t.name.as_str()) > 128 {
        Some(TaskFault::BadName)
    } else if text::len_of(t.hotkey.as_str()) > MAX_HOTKEY_LEN {
        Some(TaskFault::LongHotkey)
    } else if !is_hotkey_text(t.hotkey.as_str()) {
        Some(TaskFault::BadHotkey)
    } else {
        None
    }
}

// ---- putting settings right ---------------------------------------------------------------

/// The template is one that `sanitize` replaces.
pub open spec fn unusable_template(s: Seq<char>) -> bool {
    text::byte_len(s) > MAX_FILENAME_TEMPLATE_LEN || escapes(s)
}

/// The name is one that `sanitize` replaces.
pub open spec fn unusable_form_name(s: Seq<char>) -> bool {
    text::byte_len(s) > MAX_FORM_NAME_LEN || !form_text(s)
}

/// The path is one that `sanitize` replaces.
pub open spec fn unusable_response_path(s: Seq<char>) -> bool {
    text::byte_len(s) > MAX_RESPONSE_PATH_LEN || !path_text(s) || misplaced_dots(s)
}

/// The address is one that `sanitize` replaces.
pub open spec fn unusable_url(s: Seq<char>) -> bool {
    text::byte_len(s) > MAX_CUSTOM_URL_LEN || insecure(s)
}

/// The nearest number within the bounds.
pub open spec fn clamped(n: u32, low: u32, high: u32) -> u32 {
    if n < low {
        low
    } else if n > high {
        high
    } else {
        n
    }
}

fn clamp(n: u32, low: u32, high: u32) -> (r: u32)
    ensures
        r == clamped(n, low, high),
{
    if n < low {
        low
    } else if n > high {
        high
    } else {
        n
    }
}

/// The text after it was put right: `was` where it can stay.
pub open spec fn put_right(is: String, was: String, unusable: bool, instead: Seq<char>) -> bool {
    if unusable {
        is@ == instead
    } else {
        is == was
    }
}

/// `r` is `c` put right.
pub open spec fn sanitized(c: Config, r: Config) -> bool {
    &&& r.output.directory == c.output.directory
    &&& r.output.format == c.output.format
    &&& r.output.quality == (if c.output.quality > MAX_QUALITY {
        MAX_QUALITY
    } else {
        c.output.quality
    })
    &&& put_right(
        r.output.filename_template,
        c.output.filename_template,
        unusable_template(c.output.filename_template@),
        "capture_%Y%m%d_%H%M%S"@,
    )
    &&& r.output.preserve_hdr == c.output.preserve_hdr
    &&& r.capture.show_cursor == c.capture.show_cursor
    &&& r.capture.delay_ms == clamped(c.capture.delay_ms, 0, MAX_DELAY_MS)
    &&& r.capture.gif_fps == clamped(c.capture.gif_fps, MIN_GIF_FPS, MAX_GIF_FPS)
    &&& r.capture.gif_max_duration_secs == clamped(
        c.capture.gif_max_duration_secs,
        0,
        MAX_GIF_DURATION_SECS,
    )
    &&& r.capture.hdr == c.capture.hdr
    &&& r.hotkeys == c.hotkeys
    &&& r.ui == c.ui
    &&& r.post_capture == c.post_capture
    &&& r.upload.destination == c.upload.destination
    &&& r.upload.copy_url_to_clipboard == c.upload.copy_url_to_clipboard
    &&& put_right(
        r.upload.custom_url,
        c.upload.custom_url,
        unusable_url(c.upload.custom_url@),
        ""@,
    )
    &&& put_right(
        r.upload.custom_form_name,
        c.upload.custom_form_name,
        unusable_form_name(c.upload.custom_form_name@),
        "file"@,
    )
    &&& put_right(
        r.upload.custom_response_path,
        c.upload.custom_response_path,
        unusable_response_path(c.upload.custom_response_path@),
        "url"@,
    )
    &&& r.upload.imgur_client_id == c.upload.imgur_client_id
    &&& r.upload.ftp == c.upload.ftp
    &&& r.upload.sftp == c.upload.sftp
    &&& r.upload.s3 == c.upload.s3
    &&& r.performance.tick_interval_ms == clamped(
        c.performance.tick_interval_ms,
        MIN_TICK_INTERVAL_MS,
        MAX_TICK_INTERVAL_MS,
    )
    &&& r.performance.renderer == c.performance.renderer
    &&& r.performance.lazy_init_upload == c.performance.lazy_init_upload
    &&& r.performance.lazy_init_plugins == c.performance.lazy_init_plugins
    &&& r.marketplace == c.marketplace
    &&& r.capture_tasks == c.capture_tasks
}

fn right_text(t: &mut String, unusable: bool, instead: &str)
    ensures
        put_right(*final(t), *old(t), unusable, instead@),
{
    if unusable {
        *t = instead.to_owned();
    }
}

fn right_output(o: &mut OutputConfig)
    ensures
        final(o).directory == old(o).directory,
        final(o).format == old(o).format,
        final(o).quality == (if old(o).quality > MAX_QUALITY {
            MAX_QUALITY
        } else {
            old(o).quality
        }),
        put_right(
            final(o).filename_template,
            old(o).filename_template,
            unusable_template(old(o).filename_template@),
            "capture_%Y%m%d_%H%M%S"@,
        ),
        final(o).preserve_hdr == old(o).preserve_hdr,
{
    if o.quality > MAX_QUALITY {
        o.quality = MAX_QUALITY;
    }
    let bad = text::len_of(o.filename_template.as_str()) > MAX_FILENAME_TEMPLATE_LEN || leads_out(
        o.filename_template.as_str(),
    );
    right_text(&mut o.filename_template, bad, "capture_%Y%m%d_%H%M%S");
}

fn right_upload(u: &mut UploadConfig)
    ensures
        final(u).destination == old(u).destination,
        final(u).copy_url_to_clipboard == old(u).copy_url_to_clipboard,
        put_right(final(u).custom_url, old(u).custom_url, unusable_url(old(u).custom_url@), ""@),
        put_right(
            final(u).custom_form_name,
            old(u).custom_form_name,
            unusable_form_name(old(u).custom_form_name@),
            "file"@,
        ),
        put_right(
            final(u).custom_response_path,
            old(u).custom_response_path,
            unusable_response_path(old(u).custom_response_path@),
            "url"@,
        ),
        final(u).imgur_client_id == old(u).imgur_client_id,
        final(u).ftp == old(u).ftp,
        final(u).sftp == old(u).sftp,
        final(u).s3 == old(u).s3,
{
    let bad_name = text::len_of(u.custom_form_name.as_str()) > MAX_FORM_NAME_LEN || !is_form_text(
        u.custom_form_name.as_str(),
    );
    right_text(&mut u.custom_form_name, bad_name, "file");
    let bad_path = text::len_of(u.custom_response_path.as_str()) > MAX_RESPONSE_PATH_LEN
        || !is_path_text(u.custom_response_path.as_str()) || has_misplaced_dots(
        u.custom_response_path.as_str(),
    );
    right_text(&mut u.custom_response_path, bad_path, "url");
    let bad_url = text::len_of(u.custom_url.as_str()) > MAX_CUSTOM_URL_LEN || is_insecure(
        u.custom_url.as_str(),
    );
    right_text(&mut u.custom_url, bad_url, "");
}

impl Config {
    /// Puts right what can be put right without asking: numbers go to the
    /// nearest that is allowed, texts to what they are on a first start.
    pub fn sanitize(&mut self)
        ensures
            sanitized(*old(self), *final(self)),
    {
        right_output(&mut self.output);
        self.capture = CaptureConfig {
            show_cursor: self.capture.show_cursor,
            delay_ms: clamp(self.capture.delay_ms, 0, MAX_DELAY_MS),
            gif_fps: clamp(self.capture.gif_fps, MIN_GIF_FPS, MAX_GIF_FPS),
            gif_max_duration_secs: clamp(
                self.capture.gif_max_duration_secs,
                0,
                MAX_GIF_DURATION_SECS,
            ),
            hdr: self.capture.hdr,
        };
        right_upload(&mut self.upload);
        self.performance.tick_interval_ms = clamp(
            self.performance.tick_interval_ms,
            MIN_TICK_INTERVAL_MS,
            MAX_TICK_INTERVAL_MS,
        );
    }
}

// ---- laws ----------------------------------------------------------------------------------

/// What settings are put right to is allowed.
proof fn lemma_replacements_are_usable()
    ensures
        !unusable_template("capture_%Y%m%d_%H%M%S"@),
        !unusable_form_name("file"@),
        !unusable_response_path("url"@),
        !unusable_url(""@),
{
    reveal_strlit("capture_%Y%m%d_%H%M%S");
    reveal_strlit("file");
    reveal_strlit("url");
    reveal_strlit("");
    reveal_strlit("..");
    reveal_strlit(".");
    text::lemma_ascii_len("capture_%Y%m%d_%H%M%S"@);
    text::lemma_ascii_len("file"@);
    text::lemma_ascii_len("url"@);
    text::lemma_ascii_len(""@);
    lemma_no_two_dots("capture_%Y%m%d_%H%M%S"@);
    lemma_no_two_dots("url"@);
    assert("url"@.subrange(0, 1)[0] == 'u' && "."@[0] == '.');
    assert("url"@.subrange(2, 3)[0] == 'l');
}

/// A text without a dot does not hold two in a row.
proof fn lemma_no_two_dots(s: Seq<char>)
    requires
        !s.contains('.'),
    ensures
        !text::contains(s, ".."@),
{
    reveal_strlit("..");
    if text::contains(s, ".."@) {
        let i = choose|i: int| text::occurs_at(s, ".."@, i);
        assert(s.subrange(i, i + 2)[0] == '.');
        assert(s[i] == '.');
        assert(s.contains('.'));
    }
}

/// Settings that were put right once stay as they are when they are put right
/// again.
pub proof fn lemma_sanitize_is_stable(c: Config, once: Config, twice: Config)
    requires
        sanitized(c, once),
        sanitized(once, twice),
    ensures
        twice == once,
{
    lemma_replacements_are_usable();
}

/// Two results of putting the same settings right have the same fault.
pub proof fn lemma_sanitized_alike(c: Config, a: Config, b: Config)
    requires
        sanitized(c, a),
        sanitized(c, b),
    ensures
        a.fault() == b.fault(),
{
}

/// Settings without a fault stay as they are when they are put right.
pub proof fn lemma_sanitize_keeps_valid_settings(c: Config, r: Config)
    requires
        c.fault() is None,
        sanitized(c, r),
    ensures
        r == c,
{
}

/// After settings were put right, the only faults left are those that nothing
/// can put right without asking: hotkeys, brightness and tasks.
pub proof fn lemma_sanitize_leaves_few_faults(c: Config, r: Config)
    requires
        sanitized(c, r),
    ensures
        match r.fault() {
            None => true,
            Some(f) => f is LongHotkey || f is BadHotkey || f is Brightness || f is BrightnessScale
                || f is Task,
        },
{
    lemma_replacements_are_usable();
    lemma_tasks_fault(r.capture_tasks@, 0);
}

/// A fault of the tasks is one of a task.
proof fn lemma_tasks_fault(tasks: Seq<CaptureTask>, i: int)
    requires
        0 <= i,
    ensures
        tasks_fault(tasks, i) matches Some(f) ==> f is Task,
        tasks_fault(tasks, i) is None <==> (forall|k: int|
            i <= k < tasks.len() ==> (#[trigger] task_fault(tasks, k)) is None),
    decreases tasks.len() - i,
{
    if i < tasks.len() {
        lemma_tasks_fault(tasks, i + 1);
    }
}

/// In settings without a fault no two tasks share an id, and no two share a
/// hotkey but for tasks that have none.
pub proof fn lemma_valid_tasks_are_apart(c: Config, i: int, j: int)
    requires
        c.fault() is None,
        0 <= i < j < c.capture_tasks@.len(),
    ensures
        c.capture_tasks@[i].id@ != c.capture_tasks@[j].id@,
        c.capture_tasks@[i].hotkey@.len() > 0 ==> c.capture_tasks@[i].hotkey@
            != c.capture_tasks@[j].hotkey@,
{
    lemma_tasks_fault(c.capture_tasks@, 0);
    assert(task_fault(c.capture_tasks@, j) is None);
}

/// The template of settings without a fault cannot lead out of the directory.
pub proof fn lemma_valid_template_stays_inside(c: Config)
    requires
        c.fault() is None,
    ensures
        !c.output.filename_template@.contains('/'),
        !c.output.filename_template@.contains('\\'),
        !text::contains(c.output.filename_template@, ".."@),
{
}

/// With settings without a fault, captures go to no address that is not of the
/// secure web.
pub proof fn lemma_valid_uploads_are_secure(c: Config)
    requires
        c.fault() is None,
    ensures
        c.upload.custom_url@.len() > 0 ==> text::starts_with(c.upload.custom_url@, "https://"@),
{
}

/// With settings without a fault, a recording has between one and sixty frames a
/// second and ends after five minutes at the latest, and no capture waits longer
/// than half a minute.
pub proof fn lemma_valid_settings_are_bounded(c: Config)
    requires
        c.fault() is None,
    ensures
        1 <= c.capture.gif_fps <= 60,
        c.capture.gif_max_duration_secs <= 300,
        c.capture.delay_ms <= 30_000,
        c.output.quality <= 100,
{
}

/// The settings of a first start have no fault.
pub proof fn lemma_default_is_valid(c: Config)
    requires
        c.is_default(),
    ensures
        c.fault() is None,
{
    lemma_replacements_are_usable();
    reveal_strlit("");
    reveal_strlit("Ctrl+Shift+S");
    reveal_strlit("Ctrl+Shift+G");
    reveal_strlit("Ctrl+Shift+V");
    reveal_strlit("screenshot-save-clipboard");
    reveal_strlit("gif-save");
    reveal_strlit("mp4-save");
    reveal_strlit("Screenshot — save + clipboard");
    reveal_strlit("Region GIF to file");
    reveal_strlit("Region MP4 to file");
    text::lemma_ascii_len(""@);
    text::lemma_ascii_len("Ctrl+Shift+S"@);
    text::lemma_ascii_len("Ctrl+Shift+G"@);
    text::lemma_ascii_len("Ctrl+Shift+V"@);
    text::lemma_ascii_len("screenshot-save-clipboard"@);
    text::lemma_ascii_len("gif-save"@);
    text::lemma_ascii_len("mp4-save"@);
    text::lemma_len_bound("Screenshot — save + clipboard"@);
    text::lemma_len_bound("Region GIF to file"@);
    text::lemma_len_bound("Region MP4 to file"@);
    let tasks = c.capture_tasks@;
    assert(tasks[0].id@[0] == 's' && tasks[1].id@[0] == 'g' && tasks[2].id@[0] == 'm');
    assert(tasks[1].hotkey@[11] == 'G' && tasks[2].hotkey@[11] == 'V');
    assert(task_fault(tasks, 0) is None);
    assert(task_fault(tasks, 1) is None);
    assert(task_fault(tasks, 2) is None);
    lemma_tasks_fault(tasks, 0);
}

// ---- messages ------------------------------------------------------------------------------

/// What is said of a fault in a task with the given id and hotkey.
pub open spec fn task_fault_text(fault: TaskFault, id: Seq<char>, hotkey: Seq<char>) -> Seq<char> {
    match fault {
        TaskFault::BadId => "capture_task id '"@ + id
            + "' must be lowercase alphanumeric with hyphens"@,
        TaskFault::LongId => "capture_task id too long: "@ + id,
        TaskFault::DuplicateId => "duplicate capture_task id: "@ + id,
        TaskFault::DuplicateHotkey => "duplicate hotkey '"@ + hotkey + "' on task '"@ + id + "'"@,
        TaskFault::BadName => "capture_task name length invalid for "@ + id,
        TaskFault::LongHotkey => "capture_task '"@ + id + "' hotkey too long"@,
        TaskFault::BadHotkey => "capture_task '"@ + id + "' hotkey contains invalid characters"@,
    }
}

fn tell_task_fault(fault: TaskFault, id: &str, hotkey: &str) -> (r: String)
    ensures
        r@ == task_fault_text(fault, id@, hotkey@),
{
    match fault {
        TaskFault::BadId => {
            let mut s = String::from_str("capture_task id '");
            s.append(id);
            s.append("' must be lowercase alphanumeric with hyphens");
            s
        },
        TaskFault::LongId => {
            let mut s = String::from_str("capture_task id too long: ");
            s.append(id);
            s
        },
        TaskFault::DuplicateId => {
            let mut s = String::from_str("duplicate capture_task id: ");
            s.append(id);
            s
        },
        TaskFault::DuplicateHotkey => {
            let mut s = String::from_str("duplicate hotkey '");
            s.append(hotkey);
            s.append("' on task '");
            s.append(id);
            s.append("'");
            s
        },
        TaskFault::BadName => {
            let mut s = String::from_str("capture_task name length invalid for ");
            s.append(id);
            s
        },
        TaskFault::LongHotkey => {
            let mut s = String::from_str("capture_task '");
            s.append(id);
            s.append("' hotkey too long");
            s
        },
        TaskFault::BadHotkey => {
            let mut s = String::from_str("capture_task '");
            s.append(id);
            s.append("' hotkey contains invalid characters");
            s
        },
    }
}

/// What is said of a fault.
pub open spec fn fault_text(fault: ConfigFault, tasks: Seq<CaptureTask>) -> Seq<char> {
    match fault {
        ConfigFault::Quality => "quality must be <= 100"@,
        ConfigFault::GifFps => "gif_fps must be between 1 and 60"@,
        ConfigFault::GifDuration => "gif_max_duration_secs must be <= 300"@,
        ConfigFault::Delay => "delay_ms must be <= 30000"@,
        ConfigFault::LongTemplate => "filename_template too long"@,
        ConfigFault::TemplatePath => "filename_template contains invalid path characters"@,
        ConfigFault::LongHotkey => "hotkey string too long"@,
        ConfigFault::BadHotkey => "hotkey contains invalid characters"@,
        ConfigFault::LongUrl => "custom upload URL too long"@,
        ConfigFault::InsecureUrl => "custom upload URL must use HTTPS"@,
        ConfigFault::LongFormName => "custom form name too long"@,
        ConfigFault::BadFormName => "custom form name contains invalid characters"@,
        ConfigFault::LongResponsePath => "custom response path too long"@,
        ConfigFault::BadResponsePath => "custom response path contains invalid characters"@,
        ConfigFault::ResponsePathDots => "custom response path has invalid format"@,
        ConfigFault::TickInterval => "tick_interval_ms must be between 16 and 500"@,
        ConfigFault::Brightness => {
            "hdr.brightness_nits must be 0 (auto-detect) or between 1 and 10000"@
        },
        ConfigFault::BrightnessScale => {
            "hdr.user_brightness_scale must be between 0 (exclusive) and 100"@
        },
        ConfigFault::Task { index, fault } => task_fault_text(
            fault,
            tasks[index as int].id@,
            tasks[index as int].hotkey@,
        ),
    }
}

impl Config {
    /// What to say of a fault that `validate` found.
    pub fn describe_fault(&self, fault: ConfigFault) -> (r: String)
        requires
            fault matches ConfigFault::Task { index, .. } ==> index < self.capture_tasks@.len(),
        ensures
            r@ == fault_text(fault, self.capture_tasks@),
    {
        let said = match fault {
            ConfigFault::Quality => "quality must be <= 100",
            ConfigFault::GifFps => "gif_fps must be between 1 and 60",
            ConfigFault::GifDuration => "gif_max_duration_secs must be <= 300",
            ConfigFault::Delay => "delay_ms must be <= 30000",
            ConfigFault::LongTemplate => "filename_template too long",
            ConfigFault::TemplatePath => "filename_template contains invalid path characters",
            ConfigFault::LongHotkey => "hotkey string too long",
            ConfigFault::BadHotkey => "hotkey contains invalid characters",
            ConfigFault::LongUrl => "custom upload URL too long",
            ConfigFault::InsecureUrl => "custom upload URL must use HTTPS",
            ConfigFault::LongFormName => "custom form name too long",
            ConfigFault::BadFormName => "custom form name contains invalid characters",
            ConfigFault::LongResponsePath => "custom response path too long",
            ConfigFault::BadResponsePath => "custom response path contains invalid characters",
            ConfigFault::ResponsePathDots => "custom response path has invalid format",
            ConfigFault::TickInterval => "tick_interval_ms must be between 16 and 500",
            ConfigFault::Brightness => {
                "hdr.brightness_nits must be 0 (auto-detect) or between 1 and 10000"
            },
            ConfigFault::BrightnessScale => {
                "hdr.user_brightness_scale must be between 0 (exclusive) and 100"
            },
            ConfigFault::Task { index, fault } => {
                let t = &self.capture_tasks[index];
                return tell_task_fault(fault, t.id.as_str(), t.hotkey.as_str());
            },
        };
        said.to_owned()
    }
}

// ---- laws on what is allowed ----------------------------------------------------------------

/// A text of letters, digits, plus signs and blanks, of 64 bytes at most.
pub open spec fn hotkey_is_sound(s: Seq<char>) -> bool {
    text::byte_len(s) <= 64 && forall|i: int|
        0 <= i < s.len() ==> text::alphanumeric(#[trigger] s[i]) || s[i] == '+' || s[i] == ' '
}

/// Settings are accepted exactly where every number lies within its bounds,
/// every text is short enough and holds only what it may hold, and the tasks can
/// be told apart.
pub proof fn lemma_accepted_settings(c: Config, r: Result<(), ConfigFault>)
    requires
        call_ensures(Config::validate, (&c,), r),
    ensures
        r is Ok <==> {
            &&& c.output.quality <= 100
            &&& 1 <= c.capture.gif_fps <= 60
            &&& c.capture.gif_max_duration_secs <= 300
            &&& c.capture.delay_ms <= 30_000
            &&& text::byte_len(c.output.filename_template@) <= 128
            &&& !c.output.filename_template@.contains('/')
            &&& !c.output.filename_template@.contains('\\')
            &&& !text::contains(c.output.filename_template@, ".."@)
            &&& hotkey_is_sound(c.hotkeys.screenshot@)
            &&& hotkey_is_sound(c.hotkeys.record_gif@)
            &&& text::byte_len(c.upload.custom_url@) <= 512
            &&& c.upload.custom_url@.len() == 0 || text::starts_with(
                c.upload.custom_url@,
                "https://"@,
            )
            &&& text::byte_len(c.upload.custom_form_name@) <= 64
            &&& forall|i: int|
                0 <= i < c.upload.custom_form_name@.len() ==> text::ascii_alphanumeric(
                    #[trigger] c.upload.custom_form_name@[i],
                ) || c.upload.custom_form_name@[i] == '_' || c.upload.custom_form_name@[i] == '-'
            &&& text::byte_len(c.upload.custom_response_path@) <= 128
            &&& forall|i: int|
                0 <= i < c.upload.custom_response_path@.len() ==> text::ascii_alphanumeric(
                    #[trigger] c.upload.custom_response_path@[i],
                ) || c.upload.custom_response_path@[i] == '_' || c.upload.custom_response_path@[i]
                    == '-' || c.upload.custom_response_path@[i] == '.'
            &&& !text::starts_with(c.upload.custom_response_path@, "."@)
            &&& !text::ends_with(c.upload.custom_response_path@, "."@)
            &&& !text::contains(c.upload.custom_response_path@, ".."@)
            &&& 16 <= c.performance.tick_interval_ms <= 500
            &&& c.capture.hdr.brightness_nits_bits <= 0x461c_4000
                || c.capture.hdr.brightness_nits_bits == 0x8000_0000
            &&& 0 < c.capture.hdr.user_brightness_scale_bits <= 0x42c8_0000
            &&& forall|i: int|
                0 <= i < c.capture_tasks@.len() ==> task_is_sound(#[trigger] c.capture_tasks@[i])
            &&& forall|i: int, j: int|
                0 <= i < j < c.capture_tasks@.len() ==> (#[trigger] c.capture_tasks@[i]).id@
                    != (#[trigger] c.capture_tasks@[j]).id@ && (c.capture_tasks@[j].hotkey@.len()
                    > 0 ==> c.capture_tasks@[i].hotkey@ != c.capture_tasks@[j].hotkey@)
        },
{
    let tasks = c.capture_tasks@;
    lemma_tasks_fault(tasks, 0);
    assert(hotkey_fault(c.hotkeys.screenshot@) is None <==> hotkey_is_sound(
        c.hotkeys.screenshot@,
    ));
    assert(hotkey_fault(c.hotkeys.record_gif@) is None <==> hotkey_is_sound(
        c.hotkeys.record_gif@,
    ));
    if tasks_fault(tasks, 0) is None {
        assert forall|i: int| 0 <= i < tasks.len() implies task_is_sound(#[trigger] tasks[i]) by {
            assert(task_fault(tasks, i) is None);
        }
        assert forall|i: int, j: int| 0 <= i < j < tasks.len() implies (#[trigger] tasks[i]).id@
            != (#[trigger] tasks[j]).id@ && (tasks[j].hotkey@.len() > 0 ==> tasks[i].hotkey@
            != tasks[j].hotkey@) by {
            assert(task_fault(tasks, j) is None);
        }
    }
    if (forall|i: int| 0 <= i < tasks.len() ==> task_is_sound(#[trigger] tasks[i])) && (forall|
        i: int,
        j: int,
    |
        0 <= i < j < tasks.len() ==> (#[trigger] tasks[i]).id@ != (#[trigger] tasks[j]).id@ && (
        tasks[j].hotkey@.len() > 0 ==> tasks[i].hotkey@ != tasks[j].hotkey@)) {
        assert forall|k: int| 0 <= k < tasks.len() implies (#[trigger] task_fault(
            tasks,
            k,
        )) is None by {
            assert(task_is_sound(tasks[k]));
            assert(!id_taken(tasks, k));
            assert(tasks[k].hotkey@.len() > 0 ==> !hotkey_taken(tasks, k));
        }
    }
}

/// A task with a name of 128 bytes at most, an id of 64 small letters, digits and
/// hyphens at most, and a hotkey that can be one.
pub open spec fn task_is_sound(t: CaptureTask) -> bool {
    &&& 0 < t.id@.len()
    &&& text::byte_len(t.id@) <= 64
    &&& forall|i: int|
        0 <= i < t.id@.len() ==> 'a' <= #[trigger] t.id@[i] <= 'z' || '0' <= t.id@[i] <= '9'
            || t.id@[i] == '-'
    &&& 0 < t.name@.len()
    &&& text::byte_len(t.name@) <= 128
    &&& hotkey_is_sound(t.hotkey@)
}

/// What is said to be wrong with settings is wrong with them.
pub proof fn lemma_faults_are_true(c: Config, f: ConfigFault)
    requires
        call_ensures(Config::validate, (&c,), Err(f)),
    ensures
        f is Quality ==> c.output.quality > 100,
        f is GifFps ==> c.capture.gif_fps < 1 || c.capture.gif_fps > 60,
        f is GifDuration ==> c.capture.gif_max_duration_secs > 300,
        f is Delay ==> c.capture.delay_ms > 30_000,
        f is LongTemplate ==> text::byte_len(c.output.filename_template@) > 128,
        f is TemplatePath ==> c.output.filename_template@.contains('/')
            || c.output.filename_template@.contains('\\') || text::contains(
            c.output.filename_template@,
            ".."@,
        ),
        f is LongHotkey ==> text::byte_len(c.hotkeys.screenshot@) > 64 || text::byte_len(
            c.hotkeys.record_gif@,
        ) > 64,
        f is BadHotkey ==> !hotkey_is_sound(c.hotkeys.screenshot@) || !hotkey_is_sound(
            c.hotkeys.record_gif@,
        ),
        f is LongUrl ==> text::byte_len(c.upload.custom_url@) > 512,
        f is InsecureUrl ==> c.upload.custom_url@.len() > 0 && !text::starts_with(
            c.upload.custom_url@,
            "https://"@,
        ),
        f is LongFormName ==> text::byte_len(c.upload.custom_form_name@) > 64,
        f is LongResponsePath ==> text::byte_len(c.upload.custom_response_path@) > 128,
        f is TickInterval ==> c.performance.tick_interval_ms < 16 || c.performance.tick_interval_ms
            > 500,
        f is Brightness ==> c.capture.hdr.brightness_nits_bits > 0x461c_4000,
        f is BrightnessScale ==> c.capture.hdr.user_brightness_scale_bits == 0
            || c.capture.hdr.user_brightness_scale_bits > 0x42c8_0000,
{
    let tasks = c.capture_tasks@;
    lemma_tasks_fault(tasks, 0);
}

/// How far two numbers are apart.
pub open spec fn apart(a: int, b: int) -> int {
    if a < b {
        b - a
    } else {
        a - b
    }
}

/// A number goes to the nearest that is allowed: none of those lies nearer.
pub proof fn lemma_numbers_go_to_the_nearest(c: Config, r: Config, n: int)
    requires
        sanitized(c, r),
    ensures
        r.output.quality <= 100,
        1 <= r.capture.gif_fps <= 60,
        r.capture.gif_max_duration_secs <= 300,
        r.capture.delay_ms <= 30_000,
        16 <= r.performance.tick_interval_ms <= 500,
        0 <= n <= 100 ==> apart(r.output.quality as int, c.output.quality as int) <= apart(
            n,
            c.output.quality as int,
        ),
        1 <= n <= 60 ==> apart(r.capture.gif_fps as int, c.capture.gif_fps as int) <= apart(
            n,
            c.capture.gif_fps as int,
        ),
        0 <= n <= 300 ==> apart(
            r.capture.gif_max_duration_secs as int,
            c.capture.gif_max_duration_secs as int,
        ) <= apart(n, c.capture.gif_max_duration_secs as int),
        0 <= n <= 30_000 ==> apart(r.capture.delay_ms as int, c.capture.delay_ms as int) <= apart(
            n,
            c.capture.delay_ms as int,
        ),
        16 <= n <= 500 ==> apart(
            r.performance.tick_interval_ms as int,
            c.performance.tick_interval_ms as int,
        ) <= apart(n, c.performance.tick_interval_ms as int),
{
}

/// Putting settings right touches nothing but the numbers and the four texts
/// that it can put right: tasks, hotkeys, servers and what the user chose stay.
pub proof fn lemma_sanitize_keeps_what_the_user_chose(c: Config, r: Config)
    requires
        sanitized(c, r),
    ensures
        r.capture_tasks == c.capture_tasks,
        r.hotkeys == c.hotkeys,
        r.ui == c.ui,
        r.post_capture == c.post_capture,
        r.marketplace == c.marketplace,
        r.capture.hdr == c.capture.hdr,
        r.capture.show_cursor == c.capture.show_cursor,
        r.output.directory == c.output.directory,
        r.output.format == c.output.format,
        r.output.preserve_hdr == c.output.preserve_hdr,
        r.upload.destination == c.upload.destination,
        r.upload.imgur_client_id == c.upload.imgur_client_id,
        r.upload.copy_url_to_clipboard == c.upload.copy_url_to_clipboard,
        r.upload.ftp == c.upload.ftp,
        r.upload.sftp == c.upload.sftp,
        r.upload.s3 == c.upload.s3,
        r.performance.renderer == c.performance.renderer,
        r.performance.lazy_init_upload == c.performance.lazy_init_upload,
        r.performance.lazy_init_plugins == c.performance.lazy_init_plugins,
{
}

/// A text that cannot be used gives way to the one of a first start, and a text
/// that can be used stays.
pub proof fn lemma_texts_go_back_to_the_first_start(c: Config, r: Config, d: Config)
    requires
        sanitized(c, r),
        d.is_default(),
    ensures
        r.output.filename_template@ == c.output.filename_template@
            || r.output.filename_template@ == d.output.filename_template@,
        r.upload.custom_url@ == c.upload.custom_url@ || r.upload.custom_url@
            == d.upload.custom_url@,
        r.upload.custom_form_name@ == c.upload.custom_form_name@ || r.upload.custom_form_name@
            == d.upload.custom_form_name@,
        r.upload.custom_response_path@ == c.upload.custom_response_path@
            || r.upload.custom_response_path@ == d.upload.custom_response_path@,
        text::byte_len(c.output.filename_template@) <= 128 && !c.output.filename_template@.contains(
            '/',
        ) && !c.output.filename_template@.contains('\\') && !text::contains(
            c.output.filename_template@,
            ".."@,
        ) ==> r.output.filename_template@ == c.output.filename_template@,
        text::byte_len(c.upload.custom_url@) <= 512 && text::starts_with(
            c.upload.custom_url@,
            "https://"@,
        ) ==> r.upload.custom_url@ == c.upload.custom_url@,
{
}

} // verus!
