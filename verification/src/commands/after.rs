//! What is done with a capture, and what the user is told of it.

use vstd::prelude::*;

use crate::capture::hdr_png::HdrTransfer;
use crate::config::files::LocalTime;
use crate::config::Config;
use crate::config::HdrOutputFormat;
use crate::config::PostCaptureAction;
use crate::paths;
use crate::text;

verus! {

/// A notification.
#[derive(Debug)]
pub struct Notice {
    pub title: String,
    pub body: String,
}

pub open spec fn says(n: Notice, title: Seq<char>, body: Seq<char>) -> bool {
    n.title@ == title && n.body@ == body
}

fn notice(title: &str, body: &str) -> (n: Notice)
    ensures
        says(n, title@, body@),
{
    Notice { title: title.to_owned(), body: body.to_owned() }
}

/// A sound.
#[derive(Clone, Copy, PartialEq, Eq, Structural, Debug)]
pub enum Sound {
    Screenshot,
    Upload,
}

// ---- errors ----------------------------------------------------------------------------------

/// The failure was in the graphics device.
pub open spec fn blames_device(s: Seq<char>) -> bool {
    text::contains(s, "d3d11"@) || text::contains(s, "device"@) || text::contains(s, "dxgi"@)
}

pub open spec fn blames_display(s: Seq<char>) -> bool {
    text::contains(s, "no monitor"@) || text::contains(s, "no display"@) || text::contains(
        s,
        "monitor not found"@,
    )
}

pub open spec fn blames_permission(s: Seq<char>) -> bool {
    text::contains(s, "access is denied"@) || text::contains(s, "permission"@) || text::contains(
        s,
        "denied"@,
    )
}

/// What the user is told of a failure: what can be done about it, or the
/// failure itself where nothing is known.
pub open spec fn friendly(raw: Seq<char>) -> Seq<char> {
    let s = text::lowercase(raw);
    if blames_device(s) {
        "GPU couldn't initialise the capture pipeline. Try updating your graphics driver or rebooting."@
    } else if blames_display(s) {
        "capscr couldn't find a display. If you just unplugged a monitor, try again or restart capscr."@
    } else if blames_permission(s) {
        "Windows blocked the capture. Run capscr as administrator or check Settings > Privacy > Screen recording."@
    } else if text::contains(s, "hdr"@) {
        "HDR capture failed. Turn HDR off in Windows display settings, or disable HDR in capscr Settings > capture > hdr."@
    } else if text::contains(s, "shader"@) || text::contains(s, "compile"@) {
        "Shader compilation failed. Update your graphics driver. (If this keeps happening, file an issue with your GPU model.)"@
    } else if text::contains(s, "clipboard"@) {
        "Couldn't write to the clipboard. Another app may be holding it open — try the capture again."@
    } else if text::contains(s, "region"@) && (text::contains(s, "invalid"@) || text::contains(
        s,
        "zero"@,
    )) {
        "Selected region is too small or off-screen. Drag a larger area."@
    } else if text::contains(s, "window"@) && text::contains(s, "not found"@) {
        "The selected window vanished before we could capture it (minimised, closed, or moved off-screen). Try the selector again."@
    } else {
        raw
    }
}

/// What the user is told of a failure.
pub fn humanize_capture_error(raw: &str) -> (r: String)
    ensures
        r@ == friendly(raw@),
{
    let low = raw.to_lowercase();
    let s = low.as_str();
    let told = if text::has_text(s, "d3d11") || text::has_text(s, "device") || text::has_text(
        s,
        "dxgi",
    ) {
        "GPU couldn't initialise the capture pipeline. Try updating your graphics driver or rebooting."
    } else if text::has_text(s, "no monitor") || text::has_text(s, "no display") || text::has_text(
        s,
        "monitor not found",
    ) {
        "capscr couldn't find a display. If you just unplugged a monitor, try again or restart capscr."
    } else if text::has_text(s, "access is denied") || text::has_text(s, "permission")
        || text::has_text(s, "denied") {
        "Windows blocked the capture. Run capscr as administrator or check Settings > Privacy > Screen recording."
    } else if text::has_text(s, "hdr") {
        "HDR capture failed. Turn HDR off in Windows display settings, or disable HDR in capscr Settings > capture > hdr."
    } else if text::has_text(s, "shader") || text::has_text(s, "compile") {
        "Shader compilation failed. Update your graphics driver. (If this keeps happening, file an issue with your GPU model.)"
    } else if text::has_text(s, "clipboard") {
        "Couldn't write to the clipboard. Another app may be holding it open — try the capture again."
    } else if text::has_text(s, "region") && (text::has_text(s, "invalid") || text::has_text(
        s,
        "zero",
    )) {
        "Selected region is too small or off-screen. Drag a larger area."
    } else if text::has_text(s, "window") && text::has_text(s, "not found") {
        "The selected window vanished before we could capture it (minimised, closed, or moved off-screen). Try the selector again."
    } else {
        raw
    };
    told.to_owned()
}

/// An error as the windows of the program are told of it.
#[derive(Debug)]
pub struct ErrorEventPayload {
    pub kind: String,
    pub msg: String,
}

/// A capture failed: what the windows of the program and the user are told.
pub fn capture_failed(raw: &str, show_notifications: bool) -> (r: (ErrorEventPayload, Option<
    Notice,
>))
    ensures
        r.0.kind@ == "capture"@,
        r.0.msg@ == friendly(raw@),
        show_notifications ==> (r.1 matches Some(n) && says(
            n,
            "Capture failed"@,
            friendly(raw@),
        )),
        !show_notifications ==> r.1 is None,
{
    let told = humanize_capture_error(raw);
    let n = if show_notifications {
        Some(notice("Capture failed", told.as_str()))
    } else {
        None
    };
    (ErrorEventPayload { kind: "capture".to_owned(), msg: told }, n)
}

/// A task failed: what the windows of the program and the user are told.
pub fn task_failed(name: &str, error: &str, show_notifications: bool) -> (r: (
    ErrorEventPayload,
    Option<Notice>,
))
    ensures
        r.0.kind@ == "task"@,
        r.0.msg@ == name@ + ": "@ + error@,
        show_notifications ==> (r.1 matches Some(n) && says(
            n,
            "Task '"@ + name@ + "' failed"@,
            error@,
        )),
        !show_notifications ==> r.1 is None,
{
    let mut msg = name.to_owned();
    msg.append(": ");
    msg.append(error);
    let n = if show_notifications {
        let mut title = String::from_str("Task '");
        title.append(name);
        title.append("' failed");
        Some(notice(title.as_str(), error))
    } else {
        None
    };
    (ErrorEventPayload { kind: "task".to_owned(), msg }, n)
}

// ---- colours ---------------------------------------------------------------------------------

/// A digit of base sixteen, in capitals.
pub open spec fn hex_digit(n: int) -> char {
    if n < 10 {
        ('0' as u32 + n) as char
    } else {
        ('A' as u32 + (n - 10)) as char
    }
}

fn hex_char(n: u8) -> (c: char)
    requires
        n < 16,
    ensures
        c == hex_digit(n as int),
{
    if n < 10 {
        (48u8 + n) as char
    } else {
        (55u8 + n) as char
    }
}

/// A byte in base sixteen.
pub open spec fn hex_byte(b: u8) -> Seq<char> {
    seq![hex_digit((b / 16) as int), hex_digit((b % 16) as int)]
}

/// A colour as it is written.
pub open spec fn color_text(r: u8, g: u8, b: u8) -> Seq<char> {
    "#"@ + hex_byte(r) + hex_byte(g) + hex_byte(b)
}

/// A colour as it is written: a hash sign and its bytes in base sixteen.
pub fn color_hex(r: u8, g: u8, b: u8) -> (s: String)
    ensures
        s@ == color_text(r, g, b),
{
    let mut s = String::from_str("#");
    s.push(hex_char(r / 16));
    s.push(hex_char(r % 16));
    s.push(hex_char(g / 16));
    s.push(hex_char(g % 16));
    s.push(hex_char(b / 16));
    s.push(hex_char(b % 16));
    assert(s@ =~= color_text(r, g, b));
    s
}

/// A colour was copied: what the user is told.
pub fn color_picked(r: u8, g: u8, b: u8) -> (n: Notice)
    ensures
        says(n, "Color picked"@, color_text(r, g, b)),
{
    notice("Color picked", color_hex(r, g, b).as_str())
}

// ---- text in a capture -----------------------------------------------------------------------

/// At most the first 80 characters.
pub open spec fn preview(s: Seq<char>) -> Seq<char> {
    if s.len() > 80 {
        s.take(80)
    } else {
        s
    }
}

/// What to do with the text that was read in a capture: copy it where there is
/// any, and tell the user.
pub fn text_read(found: &str) -> (r: (Option<String>, Notice))
    ensures
        ({
            let t = text::trim(found@);
            if t.len() == 0 {
                r.0 is None && says(
                    r.1,
                    "No text found"@,
                    "the capture had no detectable text"@,
                )
            } else {
                (r.0 matches Some(s) && s@ == t) && says(r.1, "Text copied"@, preview(t))
            }
        }),
{
    let t = text::trimmed(found);
    if t.as_str().is_empty() {
        return (None, notice("No text found", "the capture had no detectable text"));
    }
    let a = text::chars_of(t.as_str());
    let n: usize = a.len();
    let shown = if n > 80 {
        let s = text::part_of(&a, 0, 80);
        assert(s@ =~= t@.take(80));
        s
    } else {
        t.clone()
    };
    let told = notice("Text copied", shown.as_str());
    (Some(t), told)
}

// ---- actions ---------------------------------------------------------------------------------

/// The title and the body of what the user is told once the action is done.
/// `subject` is the path that was written, or the address of an upload.
pub open spec fn announced(action: PostCaptureAction, copied: bool, subject: Seq<char>) -> (
    Seq<char>,
    Seq<char>,
) {
    match action {
        PostCaptureAction::SaveToFile => ("Capture saved"@, subject),
        PostCaptureAction::CopyToClipboard => if copied {
            ("Copied"@, "Capture on clipboard"@)
        } else {
            ("Clipboard busy"@, "Capture ready but clipboard was occupied"@)
        },
        PostCaptureAction::SaveAndCopy => if copied {
            ("Capture saved + copied"@, subject)
        } else {
            ("Capture saved (clipboard busy)"@, subject)
        },
        PostCaptureAction::PromptUser => if copied {
            ("Capture saved + copied"@, subject)
        } else {
            ("Capture saved (clipboard busy)"@, subject)
        },
        PostCaptureAction::Upload => ("Uploaded"@, subject),
        PostCaptureAction::DoNothing => (
            "Capture complete"@,
            "Screenshot taken successfully."@,
        ),
    }
}

/// What the user is told once the action is done.
pub fn announce(action: PostCaptureAction, copied: bool, subject: &str) -> (n: Notice)
    ensures
        says(
            n,
            announced(action, copied, subject@).0,
            announced(action, copied, subject@).1,
        ),
{
    match action {
        PostCaptureAction::SaveToFile => notice("Capture saved", subject),
        PostCaptureAction::CopyToClipboard => if copied {
            notice("Copied", "Capture on clipboard")
        } else {
            notice("Clipboard busy", "Capture ready but clipboard was occupied")
        },
        PostCaptureAction::SaveAndCopy | PostCaptureAction::PromptUser => if copied {
            notice("Capture saved + copied", subject)
        } else {
            notice("Capture saved (clipboard busy)", subject)
        },
        PostCaptureAction::Upload => notice("Uploaded", subject),
        PostCaptureAction::DoNothing => notice(
            "Capture complete",
            "Screenshot taken successfully.",
        ),
    }
}

/// The capture could not be written: what the windows of the program and the
/// user are told.
pub fn save_failed(show_notifications: bool) -> (r: (ErrorEventPayload, Option<Notice>))
    ensures
        r.0.kind@ == "save"@,
        r.0.msg@ == "couldn't write the capture to disk"@,
        show_notifications ==> (r.1 matches Some(n) && says(
            n,
            "Capture failed"@,
            "couldn't write the capture to disk"@,
        )),
        !show_notifications ==> r.1 is None,
{
    let n = if show_notifications {
        Some(notice("Capture failed", "couldn't write the capture to disk"))
    } else {
        None
    };
    (
        ErrorEventPayload {
            kind: "save".to_owned(),
            msg: "couldn't write the capture to disk".to_owned(),
        },
        n,
    )
}

/// The capture was opened in the editor: what the user is told.
pub fn editor_opened(path: &str) -> (n: Notice)
    ensures
        says(n, "Capture opened"@, path@),
{
    notice("Capture opened", path)
}

// ---- names of files --------------------------------------------------------------------------

/// The name of the HDR file beside a capture.
pub open spec fn sidecar(name: Seq<char>) -> Seq<char> {
    paths::stem(name) + ".hdr.png"@
}

/// The name of the HDR file beside a capture.
pub fn sidecar_name(name: &str) -> (r: String)
    ensures
        r@ == sidecar(name@),
{
    let mut s = paths::file_stem(name);
    s.append(".hdr.png");
    s
}

/// Whether an HDR file is written beside a capture, under which name and with
/// which signal: only where the user wants it and there is an HDR frame.
pub fn maybe_write_hdr_sidecar(
    preserve_hdr: bool,
    has_hdr: bool,
    output_format: HdrOutputFormat,
    name: &str,
) -> (r: Option<(String, HdrTransfer)>)
    ensures
        r is Some <==> preserve_hdr && has_hdr && name@.len() > 0 && name@ != ".."@,
        r matches Some(p) ==> p.0@ == sidecar(name@) && p.1 == (match output_format {
            HdrOutputFormat::Pq => HdrTransfer::Pq,
            HdrOutputFormat::Hlg => HdrTransfer::Hlg,
        }),
{
    if !preserve_hdr || !has_hdr || name.is_empty() || text::same(name, "..") {
        return None;
    }
    let transfer = match output_format {
        HdrOutputFormat::Pq => HdrTransfer::Pq,
        HdrOutputFormat::Hlg => HdrTransfer::Hlg,
    };
    Some((sidecar_name(name), transfer))
}

/// The directory of the history.
pub fn history_dir(config_dir: Option<&str>, sep: char) -> (r: Option<String>)
    ensures
        text::opt_owned(r) == (match text::opt(config_dir) {
            Some(d) => Some(paths::joined(d, "history"@, sep)),
            None => None,
        }),
{
    match config_dir {
        Some(d) => Some(paths::join(d, "history", sep)),
        None => None,
    }
}

/// The name of a capture in the history, made at the moment, where the template
/// can be read.
pub fn history_name(config: &Config, now: LocalTime) -> (r: Option<String>)
    ensures
        text::opt_owned(r) == (match now.written(config.output.filename_template@) {
            Some(t) => Some(t + "."@ + config.output.format.spec_extension()),
            None => None,
        }),
{
    match now.format(config.output.filename_template.as_str()) {
        Some(t) => {
            let mut s = t;
            s.append(".");
            s.append(config.output.format.extension());
            Some(s)
        },
        None => None,
    }
}

/// What is said of a capture that broke off, with what it left behind.
pub fn pipeline_panicked(message: Option<&str>) -> (r: String)
    ensures
        r@ == "capture pipeline panicked: "@ + (match text::opt(message) {
            Some(m) => m,
            None => "internal panic (no message)"@,
        }),
{
    let mut s = String::from_str("capture pipeline panicked: ");
    s.append(
        match message {
            Some(m) => m,
            None => "internal panic (no message)",
        },
    );
    s
}

// ---- laws --------------------------------------------------------------------------------------

/// The value of a digit of base sixteen.
pub open spec fn digit_value(c: char) -> int {
    if '0' <= c <= '9' {
        c as int - '0' as int
    } else {
        c as int - 'A' as int + 10
    }
}

/// A colour is written as a hash sign and six digits in capitals: the first two
/// give its red, the next two its green and the last two its blue.
pub proof fn lemma_colour_reads_back(r: u8, g: u8, b: u8, s: String)
    requires
        call_ensures(color_hex, (r, g, b), s),
    ensures
        s@.len() == 7,
        s@[0] == '#',
        digit_value(s@[1]) * 16 + digit_value(s@[2]) == r,
        digit_value(s@[3]) * 16 + digit_value(s@[4]) == g,
        digit_value(s@[5]) * 16 + digit_value(s@[6]) == b,
        forall|i: int|
            1 <= i < 7 ==> '0' <= #[trigger] s@[i] <= '9' || 'A' <= s@[i] <= 'F',
{
    reveal_strlit("#");
    assert(s@ =~= seq![
        '#',
        hex_digit((r / 16) as int),
        hex_digit((r % 16) as int),
        hex_digit((g / 16) as int),
        hex_digit((g % 16) as int),
        hex_digit((b / 16) as int),
        hex_digit((b % 16) as int),
    ]);
}

/// The colour that the user is told of is the one that was picked, as it is
/// copied.
pub proof fn lemma_picked_colour_is_told(r: u8, g: u8, b: u8, n: Notice, s: String)
    requires
        call_ensures(color_picked, (r, g, b), n),
        call_ensures(color_hex, (r, g, b), s),
    ensures
        n.body@ == s@,
        n.title@ == "Color picked"@,
{
}

/// Text is copied exactly where there is any, without the blanks around it, and
/// the user is shown its beginning, eighty characters at most.
pub proof fn lemma_text_is_copied_whole(found: &str, r: (Option<String>, Notice))
    requires
        call_ensures(text_read, (found,), r),
    ensures
        r.0 is Some <==> text::trim(found@).len() > 0,
        r.0 matches Some(s) ==> s@ == text::trim(found@) && r.1.body@.is_prefix_of(s@)
            && r.1.body@.len() <= 80 && (s@.len() <= 80 ==> r.1.body@ == s@) && (s@.len() > 80
            ==> r.1.body@.len() == 80),
{
    if let Some(s) = r.0 {
        assert(r.1.body@ =~= s@.take(r.1.body@.len() as int));
    }
}

/// An HDR file is written beside a capture exactly where the user wants it and
/// there is an HDR frame, with the signal that the settings say, and under the
/// name of the capture with another end.
pub proof fn lemma_hdr_is_kept_on_request(
    preserve_hdr: bool,
    has_hdr: bool,
    output_format: HdrOutputFormat,
    name: &str,
    r: Option<(String, HdrTransfer)>,
)
    requires
        call_ensures(maybe_write_hdr_sidecar, (preserve_hdr, has_hdr, output_format, name), r),
        name@.len() > 0,
        name@ != ".."@,
    ensures
        r is Some <==> preserve_hdr && has_hdr,
        r matches Some(p) ==> p.0@ == paths::stem(name@) + ".hdr.png"@,
        r matches Some(p) ==> (p.1 == HdrTransfer::Hlg <==> output_format == HdrOutputFormat::Hlg)
            && (p.1 == HdrTransfer::Pq <==> output_format == HdrOutputFormat::Pq),
{
}

/// A notice of a file says where the file is, and one of an upload where it can
/// be found; a clipboard that was occupied is never said to hold the capture.
pub proof fn lemma_notices_tell_what_was_done(
    action: PostCaptureAction,
    copied: bool,
    subject: &str,
    n: Notice,
)
    requires
        call_ensures(announce, (action, copied, subject), n),
    ensures
        action == PostCaptureAction::SaveToFile || action == PostCaptureAction::SaveAndCopy
            || action == PostCaptureAction::PromptUser || action == PostCaptureAction::Upload
            ==> n.body@ == subject@,
        action == PostCaptureAction::SaveAndCopy && !copied ==> n.title@
            == "Capture saved (clipboard busy)"@,
        action == PostCaptureAction::SaveAndCopy && copied ==> n.title@
            == "Capture saved + copied"@,
        action == PostCaptureAction::CopyToClipboard ==> (n.title@ == "Copied"@ <==> copied),
        action == PostCaptureAction::Upload ==> n.title@ == "Uploaded"@,
        action == PostCaptureAction::SaveToFile ==> n.title@ == "Capture saved"@,
{
    reveal_strlit("Copied");
    reveal_strlit("Clipboard busy");
    assert("Copied"@.len() != "Clipboard busy"@.len());
}

/// A capture in the history is named by the moment and has the extension of the
/// format.
pub proof fn lemma_history_names_have_the_extension(config: &Config, now: LocalTime, r: Option<String>)
    requires
        call_ensures(history_name, (config, now), r),
    ensures
        r matches Some(s) ==> config.output.format.spec_extension().is_suffix_of(s@),
        r is Some <==> now.written(config.output.filename_template@) is Some,
        r matches Some(s) ==> now.written(config.output.filename_template@)->0.is_prefix_of(s@),
{
    if let Some(s) = r {
        let t = now.written(config.output.filename_template@)->0;
        let e = config.output.format.spec_extension();
        assert(e =~= s@.skip(s@.len() - e.len()));
        assert(t =~= s@.take(t.len() as int));
    }
}

} // verus!
