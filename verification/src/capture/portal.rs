//! The desktop portal: whether there is one to ask, how a request is named, and
//! what its answers mean.

use vstd::prelude::*;

use crate::capture::pipewire_stream::StreamInfo;
use crate::paths;
use crate::text;

verus! {

/// The two texts are equal but for the case of ASCII letters.
pub open spec fn same_ignoring_case(a: Seq<char>, b: Seq<char>) -> bool {
    text::ascii_lower_all(a) == text::ascii_lower_all(b)
}

/// The session is a Wayland one: it has a Wayland display, or says so.
pub open spec fn wayland(display_set: bool, session_type: Option<Seq<char>>) -> bool {
    display_set || (session_type matches Some(t) && same_ignoring_case(t, "wayland"@))
}

/// Whether the session is a Wayland one, given what its environment says.
pub fn is_wayland_session(display_set: bool, session_type: Option<&str>) -> (r: bool)
    ensures
        r == wayland(display_set, text::opt(session_type)),
{
    if display_set {
        return true;
    }
    match session_type {
        Some(t) => text::same_but_for_case(t, "wayland"),
        None => false,
    }
}

/// Whether the toolkit runs as a Wayland client: the session is a Wayland one
/// and the backend is not pinned to X11.
pub fn gui_is_wayland(gdk_backend: Option<&str>, display_set: bool, session_type: Option<&str>)
    -> (r: bool)
    ensures
        r == (!(text::opt(gdk_backend) matches Some(b) && same_ignoring_case(b, "x11"@)) && wayland(
            display_set,
            text::opt(session_type),
        )),
{
    if let Some(b) = gdk_backend {
        if text::same_but_for_case(b, "x11") {
            return false;
        }
    }
    is_wayland_session(display_set, session_type)
}

// ---- requests ------------------------------------------------------------------------------

/// A connection's name as it stands in paths: without the leading colons, and
/// with underscores for dots.
pub open spec fn path_name(unique: Seq<char>) -> Seq<char>
    decreases unique.len(),
{
    if unique.len() > 0 && unique[0] == ':' {
        path_name(unique.skip(1))
    } else {
        unique.map_values(
            |c: char|
                if c == '.' {
                    '_'
                } else {
                    c
                },
        )
    }
}

fn path_name_of(unique: &str) -> (r: String)
    ensures
        r@ == path_name(unique@),
{
    let a = text::chars_of(unique);
    let mut i: usize = 0;
    assert(a@.skip(0) =~= a@);
    while i < a.len() && a[i] == ':'
        invariant
            i <= a@.len(),
            path_name(a@) == path_name(a@.skip(i as int)),
        decreases a@.len() - i,
    {
        assert(a@.skip(i as int).skip(1) =~= a@.skip(i + 1));
        i = i + 1;
    }
    let ghost rest = a@.skip(i as int);
    let ghost named = rest.map_values(
        |c: char|
            if c == '.' {
                '_'
            } else {
                c
            },
    );
    let mut s = String::new();
    for k in i..a.len()
        invariant
            i <= k <= a@.len(),
            rest == a@.skip(i as int),
            named == rest.map_values(
                |c: char|
                    if c == '.' {
                        '_'
                    } else {
                        c
                    },
            ),
            s@ == named.take(k - i),
    {
        assert(rest[k - i] == a@[k as int]);
        s.push(if a[k] == '.' { '_' } else { a[k] });
        assert(s@ =~= named.take(k + 1 - i));
    }
    assert(s@ =~= named);
    s
}

/// The token of a request.
pub open spec fn token_text(pid: u32, count: u32) -> Seq<char> {
    "capscr_"@ + text::dec(pid as nat) + "_"@ + text::dec(count as nat)
}

/// The token of the request of the given number.
pub fn request_token(pid: u32, count: u32) -> (r: String)
    ensures
        r@ == token_text(pid, count),
{
    let mut s = String::from_str("capscr_");
    text::push_dec(&mut s, pid as u64);
    s.append("_");
    text::push_dec(&mut s, count as u64);
    s
}

/// The path on which a request will be answered.
pub fn request_path(unique: &str, token: &str) -> (r: String)
    ensures
        r@ == "/org/freedesktop/portal/desktop/request/"@ + path_name(unique@) + "/"@ + token@,
{
    let mut s = String::from_str("/org/freedesktop/portal/desktop/request/");
    s.append(path_name_of(unique).as_str());
    s.append("/");
    s.append(token);
    s
}

// ---- answers -------------------------------------------------------------------------------

/// Why the portal gave nothing.
#[derive(Clone, Copy, PartialEq, Eq, Structural, Debug)]
pub enum PortalError {
    Denied,
    NoUri,
    NotAUrl,
    NotALocalFile,
    SessionDenied,
    NoSession,
    SelectionCancelled,
    StartCancelled,
    NoStream,
}

impl PortalError {
    /// The error in words. `uri` is what the portal named, and `detail` is what
    /// is wrong with it where it is no URL.
    pub open spec fn spec_message(self, uri: Seq<char>, detail: Seq<char>) -> Seq<char> {
        match self {
            PortalError::Denied => "screenshot request was denied or cancelled"@,
            PortalError::NoUri => "portal response carried no uri"@,
            PortalError::NotAUrl => detail,
            PortalError::NotALocalFile => "portal uri is not a local file: "@ + uri,
            PortalError::SessionDenied => "screencast session was denied"@,
            PortalError::NoSession => "portal returned no session handle"@,
            PortalError::SelectionCancelled => "screencast source selection was cancelled"@,
            PortalError::StartCancelled => "screencast start was cancelled"@,
            PortalError::NoStream => "portal returned no screencast stream"@,
        }
    }

    pub fn message(&self, uri: &str, detail: &str) -> (s: String)
        ensures
            s@ == self.spec_message(uri@, detail@),
    {
        match self {
            PortalError::Denied => "screenshot request was denied or cancelled".to_owned(),
            PortalError::NoUri => "portal response carried no uri".to_owned(),
            PortalError::NotAUrl => detail.to_owned(),
            PortalError::NotALocalFile => {
                let mut s = "portal uri is not a local file: ".to_owned();
                s.append(uri);
                s
            },
            PortalError::SessionDenied => "screencast session was denied".to_owned(),
            PortalError::NoSession => "portal returned no session handle".to_owned(),
            PortalError::SelectionCancelled => "screencast source selection was cancelled".to_owned(),
            PortalError::StartCancelled => "screencast start was cancelled".to_owned(),
            PortalError::NoStream => "portal returned no screencast stream".to_owned(),
        }
    }
}

/// Whether the `url` crate reads the text as a URL.
pub uninterp spec fn url_parses(uri: Seq<char>) -> bool;

/// The bytes of the path that the `url` crate gives for a URL of a local file.
pub uninterp spec fn url_path(uri: Seq<char>) -> Option<Seq<u8>>;

/// `url::Url::parse`: whether the text is a URL, a function of the text alone.
#[verifier::external_body]
fn is_url(uri: &str) -> (r: bool)
    ensures
        r == url_parses(uri@),
{
    url::Url::parse(uri).is_ok()
}

/// `url::Url::to_file_path` on a text that is a URL: the bytes of the path of a
/// local file, Unicode or not, or nothing where the URL names none.
#[verifier::external_body]
fn local_path(uri: &str) -> (r: Option<Vec<u8>>)
    requires
        url_parses(uri@),
    ensures
        text::opt_bytes(r) == url_path(uri@),
{
    let path = url::Url::parse(uri).ok()?.to_file_path().ok()?;
    Some(path.into_os_string().into_encoded_bytes())
}

/// Where a screenshot was put, by the portal's answer.
pub open spec fn answered_path(code: u32, uri: Option<Seq<char>>) -> Result<Seq<u8>, PortalError> {
    if code != 0 {
        Err(PortalError::Denied)
    } else {
        match uri {
            None => Err(PortalError::NoUri),
            Some(u) => if !url_parses(u) {
                Err(PortalError::NotAUrl)
            } else {
                match url_path(u) {
                    None => Err(PortalError::NotALocalFile),
                    Some(p) => Ok(p),
                }
            },
        }
    }
}

/// The file that a screenshot was written to, by the portal's answer: the bytes
/// of its path.
pub fn screenshot_path(code: u32, uri: Option<&str>) -> (r: Result<Vec<u8>, PortalError>)
    ensures
        match answered_path(code, text::opt(uri)) {
            Ok(p) => r matches Ok(s) && s@ == p,
            Err(e) => r == Err::<Vec<u8>, PortalError>(e),
        },
{
    if code != 0 {
        return Err(PortalError::Denied);
    }
    match uri {
        None => Err(PortalError::NoUri),
        Some(u) => {
            if !is_url(u) {
                return Err(PortalError::NotAUrl);
            }
            match local_path(u) {
                None => Err(PortalError::NotALocalFile),
                Some(p) => Ok(p),
            }
        },
    }
}

// ---- screencasts ----------------------------------------------------------------------------

/// The steps of opening a screencast.
#[derive(Clone, Copy, PartialEq, Eq, Structural, Debug)]
pub enum CastStep {
    CreateSession,
    SelectSources,
    Start,
}

/// Whether a step of opening a screencast went through.
pub fn check_cast_step(step: CastStep, code: u32) -> (r: Result<(), PortalError>)
    ensures
        r == (if code == 0 {
            Ok::<(), PortalError>(())
        } else {
            match step {
                CastStep::CreateSession => Err(PortalError::SessionDenied),
                CastStep::SelectSources => Err(PortalError::SelectionCancelled),
                CastStep::Start => Err(PortalError::StartCancelled),
            }
        }),
{
    if code == 0 {
        return Ok(());
    }
    match step {
        CastStep::CreateSession => Err(PortalError::SessionDenied),
        CastStep::SelectSources => Err(PortalError::SelectionCancelled),
        CastStep::Start => Err(PortalError::StartCancelled),
    }
}

/// How the pointer is shown in a screencast: hidden, or painted in.
pub fn cursor_mode(embed_cursor: bool) -> (m: u32)
    ensures
        m == (if embed_cursor { 2u32 } else { 1u32 }),
{
    if embed_cursor {
        2
    } else {
        1
    }
}

/// What the portal says of a stream.
#[derive(Clone, Copy, Debug)]
pub struct CastStream {
    pub node_id: u32,
    pub position: Option<(i32, i32)>,
    pub size: Option<(i32, i32)>,
}

/// The stream to record: the first, at the desktop's origin and without a size
/// where the portal does not say more.
pub fn choose_stream(streams: &[CastStream]) -> (r: Result<StreamInfo, PortalError>)
    ensures
        streams@.len() == 0 ==> r == Err::<StreamInfo, PortalError>(PortalError::NoStream),
        streams@.len() > 0 ==> (r matches Ok(s) && s.node_id == streams@[0].node_id && s.position
            == (match streams@[0].position {
            Some(p) => p,
            None => (0i32, 0i32),
        }) && s.size == (match streams@[0].size {
            Some(p) => p,
            None => (0i32, 0i32),
        })),
{
    if streams.len() == 0 {
        return Err(PortalError::NoStream);
    }
    let s = &streams[0];
    Ok(
        StreamInfo {
            node_id: s.node_id,
            position: match s.position {
                Some(p) => p,
                None => (0, 0),
            },
            size: match s.size {
                Some(p) => p,
                None => (0, 0),
            },
        },
    )
}

/// The file that holds the token with which a screencast is restored.
pub fn token_path(config_dir: Option<&str>, sep: char) -> (r: Option<String>)
    ensures
        text::opt_owned(r) == (match text::opt(config_dir) {
            Some(d) => Some(paths::joined(d, "screencast-restore-token"@, sep)),
            None => None,
        }),
{
    match config_dir {
        Some(d) => Some(paths::join(d, "screencast-restore-token", sep)),
        None => None,
    }
}

/// The token in the file's text, or nothing where the file holds none.
pub fn restore_token(content: &str) -> (r: Option<String>)
    ensures
        text::opt_owned(r) == (if text::trim(content@).len() == 0 {
            None
        } else {
            Some(text::trim(content@))
        }),
{
    let t = text::trimmed(content);
    if t.as_str().is_empty() {
        None
    } else {
        Some(t)
    }
}

// ---- laws --------------------------------------------------------------------------------------

/// A session with a Wayland display is a Wayland one, and so is one that calls
/// itself so in letters of any case. The toolkit follows it unless it is pinned
/// to X11.
pub proof fn lemma_wayland_is_told_by_display_or_name(
    display_set: bool,
    session: &str,
    backend: Option<&str>,
    low: String,
    r: bool,
    unnamed: bool,
    gui: bool,
)
    requires
        call_ensures(text::ascii_lowered, (session,), low),
        call_ensures(is_wayland_session, (display_set, Some(session)), r),
        call_ensures(is_wayland_session, (display_set, None), unnamed),
        call_ensures(gui_is_wayland, (backend, display_set, Some(session)), gui),
    ensures
        display_set ==> r && unnamed,
        !display_set ==> !unnamed,
        !display_set ==> (r <==> low@ == "wayland"@),
        backend is None ==> gui == r,
        gui ==> r,
        backend matches Some(b) ==> (b@ == "x11"@ ==> !gui),
{
    reveal_strlit("wayland");
    assert(text::ascii_lower_all("wayland"@) =~= "wayland"@);
}

proof fn lemma_path_name(unique: Seq<char>)
    requires
        unique.len() == 0 || unique[0] != ':',
    ensures
        path_name(seq![':'] + unique) == path_name(unique),
        path_name(unique).len() == unique.len(),
        forall|i: int|
            0 <= i < unique.len() ==> #[trigger] path_name(unique)[i] == (if unique[i] == '.' {
                '_'
            } else {
                unique[i]
            }),
{
    assert((seq![':'] + unique).skip(1) =~= unique);
}

/// A request is answered on the path of its own connection and token: the name
/// of the connection without the colon in front and with underscores for dots.
pub proof fn lemma_request_is_answered_on_its_path(
    unique: &str,
    name: Seq<char>,
    token: &str,
    r: String,
)
    requires
        unique@ == seq![':'] + name,
        name.len() == 0 || name[0] != ':',
        call_ensures(request_path, (unique, token), r),
    ensures
        exists|n: Seq<char>|
            n.len() == name.len() && (forall|i: int|
                0 <= i < name.len() ==> #[trigger] n[i] == (if name[i] == '.' {
                    '_'
                } else {
                    name[i]
                })) && r@ == #[trigger] ("/org/freedesktop/portal/desktop/request/"@ + n + "/"@
                + token@),
{
    lemma_path_name(name);
    let n = path_name(name);
    assert(r@ == "/org/freedesktop/portal/desktop/request/"@ + n + "/"@ + token@);
}

/// Two requests of a process have different tokens.
pub proof fn lemma_tokens_differ(pid: u32, a: u32, b: u32, x: String, y: String)
    requires
        a != b,
        call_ensures(request_token, (pid, a), x),
        call_ensures(request_token, (pid, b), y),
    ensures
        x@ != y@,
{
    text::lemma_dec_injective(a as nat, b as nat);
    let front = "capscr_"@ + text::dec(pid as nat) + "_"@;
    if x@ == y@ {
        assert(x@.skip(front.len() as int) =~= text::dec(a as nat));
        assert(y@.skip(front.len() as int) =~= text::dec(b as nat));
    }
}

/// An answer other than nought gives no screenshot and opens no screencast.
pub proof fn lemma_refused_requests_give_nothing(
    code: u32,
    uri: Option<&str>,
    r: Result<Vec<u8>, PortalError>,
    step: CastStep,
    q: Result<(), PortalError>,
)
    requires
        call_ensures(screenshot_path, (code, uri), r),
        call_ensures(check_cast_step, (step, code), q),
    ensures
        code != 0 ==> r == Err::<Vec<u8>, PortalError>(PortalError::Denied),
        code == 0 && uri is None ==> r == Err::<Vec<u8>, PortalError>(PortalError::NoUri),
        q is Ok <==> code == 0,
        r matches Ok(p) ==> (uri matches Some(u) && url_path(u@) == Some(p@)),
{
}

/// The first stream is recorded, where it is.
pub proof fn lemma_first_stream_is_recorded(
    streams: &[CastStream],
    r: Result<StreamInfo, PortalError>,
)
    requires
        call_ensures(choose_stream, (streams,), r),
    ensures
        r is Ok <==> streams@.len() > 0,
        r matches Ok(s) ==> s.node_id == streams@[0].node_id && (streams@[0].position matches Some(p)
            ==> s.position == p) && (streams@[0].size matches Some(z) ==> s.size == z),
{
}

/// A token is what the file holds without the white space around it.
pub proof fn lemma_token_is_what_the_file_holds(content: &str, r: Option<String>, t: String)
    requires
        call_ensures(restore_token, (content,), r),
        call_ensures(text::trimmed, (content,), t),
    ensures
        r is Some <==> t@.len() > 0,
        r matches Some(k) ==> k@ == t@,
{
}

} // verus!
