//! The order in which a Wayland desktop's pixel sources are asked, and what
//! becomes of their answers.

use vstd::prelude::*;

use crate::capture::MonitorInfo;
use crate::text;

verus! {

/// A source of pixels.
#[derive(Clone, Copy, PartialEq, Eq, Structural, Debug)]
pub enum SourceKind {
    KwinScreenshot2,
    ExtImageCopy,
    WlrScreencopy,
    PortalScreenshot,
}

impl SourceKind {
    pub open spec fn spec_name(self) -> Seq<char> {
        match self {
            SourceKind::KwinScreenshot2 => "kwin-screenshot2"@,
            SourceKind::ExtImageCopy => "ext-image-copy"@,
            SourceKind::WlrScreencopy => "wlr-screencopy"@,
            SourceKind::PortalScreenshot => "portal-screenshot"@,
        }
    }

    /// The source's name.
    pub fn name(self) -> (s: &'static str)
        ensures
            s@ == self.spec_name(),
    {
        match self {
            SourceKind::KwinScreenshot2 => "kwin-screenshot2",
            SourceKind::ExtImageCopy => "ext-image-copy",
            SourceKind::WlrScreencopy => "wlr-screencopy",
            SourceKind::PortalScreenshot => "portal-screenshot",
        }
    }

    /// The source of that name, if there is one.
    pub fn from_name(name: &str) -> (r: Option<Self>)
        ensures
            r matches Some(k) ==> name@ == k.spec_name(),
            r is None ==> forall|k: SourceKind| name@ != #[trigger] k.spec_name(),
    {
        if text::same(name, "kwin-screenshot2") {
            Some(SourceKind::KwinScreenshot2)
        } else if text::same(name, "ext-image-copy") {
            Some(SourceKind::ExtImageCopy)
        } else if text::same(name, "wlr-screencopy") {
            Some(SourceKind::WlrScreencopy)
        } else if text::same(name, "portal-screenshot") {
            Some(SourceKind::PortalScreenshot)
        } else {
            None
        }
    }
}

/// No two sources share a name, so a name read back gives its source.
pub proof fn lemma_names_differ(a: SourceKind, b: SourceKind)
    ensures
        a.spec_name() == b.spec_name() ==> a == b,
{
    reveal_strlit("kwin-screenshot2");
    reveal_strlit("ext-image-copy");
    reveal_strlit("wlr-screencopy");
    reveal_strlit("portal-screenshot");
    assert("kwin-screenshot2"@[0] == 'k');
    assert("ext-image-copy"@[0] == 'e');
    assert("wlr-screencopy"@[0] == 'w');
    assert("portal-screenshot"@[0] == 'p');
}

/// The capture protocols that the compositor offers.
#[derive(Clone, Copy, PartialEq, Eq, Structural, Debug)]
pub struct WaylandGlobals {
    pub ext_image_copy: bool,
    pub wlr_screencopy: bool,
}

impl Default for WaylandGlobals {
    fn default() -> (r: Self)
        ensures
            r == (WaylandGlobals { ext_image_copy: false, wlr_screencopy: false }),
    {
        WaylandGlobals { ext_image_copy: false, wlr_screencopy: false }
    }
}

/// One source where it is there, and nothing where it is not.
pub open spec fn source_if(there: bool, k: SourceKind) -> Seq<SourceKind> {
    if there {
        seq![k]
    } else {
        Seq::empty()
    }
}

/// The sources that a desktop offers, the best first: KWin's own service, the
/// standard protocol, the one it replaces, and the portal always last.
pub open spec fn chain_order(kwin_service: bool, caps: WaylandGlobals) -> Seq<SourceKind> {
    source_if(kwin_service, SourceKind::KwinScreenshot2) + source_if(
        caps.ext_image_copy,
        SourceKind::ExtImageCopy,
    ) + source_if(caps.wlr_screencopy, SourceKind::WlrScreencopy) + seq![
        SourceKind::PortalScreenshot,
    ]
}

/// The sources that a desktop offers, the best first.
pub fn compute_order(kwin_service: bool, caps: WaylandGlobals) -> (order: Vec<SourceKind>)
    ensures
        order@ == chain_order(kwin_service, caps),
{
    let mut order: Vec<SourceKind> = Vec::new();
    if kwin_service {
        order.push(SourceKind::KwinScreenshot2);
    }
    if caps.ext_image_copy {
        order.push(SourceKind::ExtImageCopy);
    }
    if caps.wlr_screencopy {
        order.push(SourceKind::WlrScreencopy);
    }
    order.push(SourceKind::PortalScreenshot);
    assert(order@ =~= chain_order(kwin_service, caps));
    order
}

/// Whatever the desktop offers, there is a source to ask, none is asked twice,
/// and the portal is the last resort.
pub proof fn lemma_chain_always_ends_in_the_portal(kwin_service: bool, caps: WaylandGlobals)
    ensures
        chain_order(kwin_service, caps).len() >= 1,
        chain_order(kwin_service, caps).no_duplicates(),
        chain_order(kwin_service, caps).last() == SourceKind::PortalScreenshot,
{
}

/// The source that a pin names.
pub open spec fn pinned(forced: Option<Seq<char>>, k: SourceKind) -> bool {
    forced matches Some(f) && text::trim(f) == k.spec_name()
}

/// KDE is asked through KWin first, a desktop that offers the copy protocol
/// through that, and one that offers nothing through the portal alone.
pub proof fn lemma_each_desktop_has_its_source(caps: WaylandGlobals)
    ensures
        chain_order(true, caps)[0] == SourceKind::KwinScreenshot2,
        caps.ext_image_copy ==> chain_order(false, caps)[0] == SourceKind::ExtImageCopy,
        !caps.ext_image_copy && !caps.wlr_screencopy ==> chain_order(false, caps) == seq![
            SourceKind::PortalScreenshot,
        ],
{
    assert(!caps.ext_image_copy && !caps.wlr_screencopy ==> chain_order(false, caps) =~= seq![
        SourceKind::PortalScreenshot,
    ]);
}

/// The order in which still pictures are asked for: a source that is pinned by
/// its name stands alone; a pin that names no source is ignored.
pub fn still_order(forced: Option<&str>, kwin_service: bool, caps: WaylandGlobals) -> (order: Vec<
    SourceKind,
>)
    ensures
        forall|k: SourceKind| #[trigger] pinned(text::opt(forced), k) ==> order@ == seq![k],
        (forall|k: SourceKind| !#[trigger] pinned(text::opt(forced), k)) ==> order@ == chain_order(
            kwin_service,
            caps,
        ),
{
    if let Some(f) = forced {
        let t = text::trimmed(f);
        if let Some(kind) = SourceKind::from_name(t.as_str()) {
            let mut order: Vec<SourceKind> = Vec::new();
            order.push(kind);
            proof {
                assert(pinned(text::opt(forced), kind));
                assert forall|k: SourceKind| #[trigger] pinned(text::opt(forced), k) implies order@
                    == seq![k] by {
                    lemma_names_differ(k, kind);
                    assert(order@ =~= seq![k]);
                }
            }
            return order;
        }
    }
    compute_order(kwin_service, caps)
}

// ---- asking the sources in turn ------------------------------------------------------------

/// What a source answered.
#[derive(Clone, Copy, PartialEq, Eq, Structural, Debug)]
pub enum SourceAnswer {
    Picture,
    Black,
    Failed,
}

/// Why no source answered with a picture: the last thing that went wrong.
#[derive(Clone, Copy, PartialEq, Eq, Structural, Debug)]
pub enum ChainError {
    NoSource,
    AllBlack(SourceKind),
    SourceFailed(SourceKind),
}

impl ChainError {
    /// The error in words, for a still or a recording. `detail` is what the
    /// source said that failed.
    pub open spec fn spec_message(self, recording: bool, detail: Seq<char>) -> Seq<char> {
        match self {
            ChainError::NoSource => if recording {
                "no wayland recording source available"@
            } else {
                "no wayland pixel source available"@
            },
            ChainError::AllBlack(kind) => kind.spec_name() + if recording {
                " probe frame is all-black"@
            } else {
                " returned an all-black frame"@
            },
            ChainError::SourceFailed(_) => detail,
        }
    }

    pub fn message(&self, recording: bool, detail: &str) -> (s: String)
        ensures
            s@ == self.spec_message(recording, detail@),
    {
        match self {
            ChainError::NoSource => if recording {
                "no wayland recording source available".to_owned()
            } else {
                "no wayland pixel source available".to_owned()
            },
            ChainError::AllBlack(kind) => {
                let mut s = kind.name().to_owned();
                s.append(
                    if recording {
                        " probe frame is all-black"
                    } else {
                        " returned an all-black frame"
                    },
                );
                s
            },
            ChainError::SourceFailed(_) => detail.to_owned(),
        }
    }
}

/// What to do next.
#[derive(Clone, Copy, PartialEq, Eq, Structural, Debug)]
pub enum ChainAction {
    Ask(SourceKind),
    /// The last picture is the one.
    Accept(SourceKind),
    GiveUp(ChainError),
}

/// Sources that are asked in turn. A recording skips the portal, which would
/// ask the user for every frame.
#[derive(Debug)]
pub struct Chain {
    order: Vec<SourceKind>,
    next: usize,
    skip_portal: bool,
    last_error: ChainError,
}

/// The sources that are asked, in turn.
pub open spec fn asked(order: Seq<SourceKind>, skip_portal: bool) -> Seq<SourceKind>
    decreases order.len(),
{
    if order.len() == 0 {
        order
    } else if skip_portal && order[0] == SourceKind::PortalScreenshot {
        asked(order.skip(1), skip_portal)
    } else {
        seq![order[0]] + asked(order.skip(1), skip_portal)
    }
}

impl Chain {
    /// The sources that are still to be asked.
    pub closed spec fn left(&self) -> Seq<SourceKind> {
        asked(self.order@.skip(self.next as int), self.skip_portal)
    }

    /// What went wrong last.
    pub closed spec fn error(&self) -> ChainError {
        self.last_error
    }

    pub closed spec fn wf(&self) -> bool {
        self.next <= self.order@.len()
    }

    pub fn new(order: Vec<SourceKind>, skip_portal: bool) -> (c: Self)
        ensures
            c.wf(),
            c.left() == asked(order@, skip_portal),
            c.error() == ChainError::NoSource,
    {
        assert(order@.skip(0) =~= order@);
        Chain { order, next: 0, skip_portal, last_error: ChainError::NoSource }
    }

    /// The next source to ask, or the last error where none is left.
    pub fn advance(&mut self) -> (a: ChainAction)
        requires
            old(self).wf(),
        ensures
            final(self).wf(),
            final(self).error() == old(self).error(),
            old(self).left().len() > 0 ==> a == ChainAction::Ask(old(self).left()[0])
                && final(self).left() == old(self).left().skip(1),
            old(self).left().len() == 0 ==> a == ChainAction::GiveUp(old(self).error())
                && final(self).left().len() == 0,
    {
        while self.next < self.order.len()
            invariant
                self.wf(),
                self.order@ == old(self).order@,
                self.skip_portal == old(self).skip_portal,
                self.last_error == old(self).last_error,
                self.left() == old(self).left(),
            decreases self.order@.len() - self.next,
        {
            let kind = self.order[self.next];
            let ghost rest = self.order@.skip(self.next as int);
            assert(rest[0] == kind);
            assert(rest.skip(1) =~= self.order@.skip(self.next + 1));
            self.next = self.next + 1;
            let portal = match kind {
                SourceKind::PortalScreenshot => true,
                _ => false,
            };
            if !(self.skip_portal && portal) {
                assert(asked(rest, self.skip_portal).skip(1) =~= asked(
                    rest.skip(1),
                    self.skip_portal,
                ));
                return ChainAction::Ask(kind);
            }
        }
        ChainAction::GiveUp(self.last_error)
    }

    /// Takes what the source answered: a picture that shows something is the
    /// one; otherwise the next source is asked.
    pub fn answer(&mut self, kind: SourceKind, answer: SourceAnswer) -> (a: ChainAction)
        requires
            old(self).wf(),
        ensures
            final(self).wf(),
            answer == SourceAnswer::Picture ==> a == ChainAction::Accept(kind),
            answer != SourceAnswer::Picture ==> {
                let e = if answer == SourceAnswer::Black {
                    ChainError::AllBlack(kind)
                } else {
                    ChainError::SourceFailed(kind)
                };
                if old(self).left().len() > 0 {
                    a == ChainAction::Ask(old(self).left()[0]) && final(self).left() == old(self).left().skip(1) && final(self).error() == e
                } else {
                    a == ChainAction::GiveUp(e)
                }
            },
    {
        match answer {
            SourceAnswer::Picture => return ChainAction::Accept(kind),
            SourceAnswer::Black => {
                self.last_error = ChainError::AllBlack(kind);
            },
            SourceAnswer::Failed => {
                self.last_error = ChainError::SourceFailed(kind);
            },
        }
        self.advance()
    }
}

/// A recording never asks the portal, and asks every other source in order.
pub proof fn lemma_recording_skips_the_portal(order: Seq<SourceKind>)
    ensures
        !asked(order, true).contains(SourceKind::PortalScreenshot),
        asked(order, false) == order,
    decreases order.len(),
{
    if order.len() > 0 {
        lemma_recording_skips_the_portal(order.skip(1));
        assert(seq![order[0]] + order.skip(1) =~= order);
        let rest = asked(order.skip(1), true);
        if order[0] != SourceKind::PortalScreenshot {
            let all = asked(order, true);
            assert forall|i: int| 0 <= i < all.len() implies all[i]
                != SourceKind::PortalScreenshot by {
                if i > 0 {
                    assert(all[i] == rest[i - 1]);
                    assert(rest.contains(rest[i - 1]));
                }
            }
        }
    }
}

/// The display of that name, if there is one.
pub fn monitor_by_name<'a>(monitors: &'a [MonitorInfo], name: &str) -> (r: Option<&'a MonitorInfo>)
    ensures
        r is None <==> forall|i: int|
            0 <= i < monitors@.len() ==> (#[trigger] monitors@[i]).name@ != name@,
        r matches Some(m) ==> exists|k: int|
            0 <= k < monitors@.len() && *m == #[trigger] monitors@[k] && m.name@ == name@
                && forall|i: int| 0 <= i < k ==> (#[trigger] monitors@[i]).name@ != name@,
{
    for i in 0..monitors.len()
        invariant
            forall|k: int| 0 <= k < i ==> (#[trigger] monitors@[k]).name@ != name@,
    {
        if text::same(monitors[i].name.as_str(), name) {
            return Some(&monitors[i]);
        }
    }
    None
}

/// A source is asked exactly where the desktop offers it, and never after one
/// that is worse: KWin's service before the standard protocol, that before the
/// one it replaces, and the portal behind them all.
pub proof fn lemma_offered_sources_are_asked_in_order(
    kwin: bool,
    caps: WaylandGlobals,
    order: Vec<SourceKind>,
    i: int,
    j: int,
)
    requires
        call_ensures(compute_order, (kwin, caps), order),
        0 <= i < j < order@.len(),
    ensures
        order@.contains(SourceKind::KwinScreenshot2) <==> kwin,
        order@.contains(SourceKind::ExtImageCopy) <==> caps.ext_image_copy,
        order@.contains(SourceKind::WlrScreencopy) <==> caps.wlr_screencopy,
        order@.contains(SourceKind::PortalScreenshot),
        order@[j] != SourceKind::KwinScreenshot2,
        order@[j] == SourceKind::ExtImageCopy ==> order@[i] == SourceKind::KwinScreenshot2,
        order@[i] == SourceKind::WlrScreencopy ==> order@[j] == SourceKind::PortalScreenshot,
        order@[i] != SourceKind::PortalScreenshot,
{
    let o = order@;
    if kwin {
        assert(o[0] == SourceKind::KwinScreenshot2);
    }
    if caps.ext_image_copy {
        assert(o[if kwin { 1 } else { 0int }] == SourceKind::ExtImageCopy);
    }
    if caps.wlr_screencopy {
        assert(o[o.len() - 2] == SourceKind::WlrScreencopy);
    }
    assert(o[o.len() - 1] == SourceKind::PortalScreenshot);
}

/// A source that is named alone is asked alone, and its name is its own.
pub proof fn lemma_named_source_is_asked_alone(
    forced: &str,
    kwin: bool,
    caps: WaylandGlobals,
    order: Vec<SourceKind>,
)
    requires
        call_ensures(still_order, (Some(forced), kwin, caps), order),
    ensures
        text::trim(forced@) == "kwin-screenshot2"@ ==> order@ == seq![SourceKind::KwinScreenshot2],
        text::trim(forced@) == "ext-image-copy"@ ==> order@ == seq![SourceKind::ExtImageCopy],
        text::trim(forced@) == "wlr-screencopy"@ ==> order@ == seq![SourceKind::WlrScreencopy],
        text::trim(forced@) == "portal-screenshot"@ ==> order@ == seq![
            SourceKind::PortalScreenshot,
        ],
{
    let f = text::opt(Some(forced));
    assert(text::trim(forced@) == "kwin-screenshot2"@ ==> pinned(f, SourceKind::KwinScreenshot2));
    assert(text::trim(forced@) == "ext-image-copy"@ ==> pinned(f, SourceKind::ExtImageCopy));
    assert(text::trim(forced@) == "wlr-screencopy"@ ==> pinned(f, SourceKind::WlrScreencopy));
    assert(text::trim(forced@) == "portal-screenshot"@ ==> pinned(f, SourceKind::PortalScreenshot));
}

} // verus!
