//! Grabbing the picture of an HDR display, as a machine: the program performs
//! a step with the graphics system, and hands back what came of it.

use vstd::prelude::*;

use crate::capture::hdr;
use crate::capture::hdr::{
    plan_readback, AcquireAction, AcquireEvent, AcquireLoop, HdrCapture, HdrFormat, TextureFormat,
    ACQUIRE_ATTEMPTS, MAX_HDR_DIMENSION,
};
use crate::text;

verus! {

/// How long a new duplication is left alone before the first frame is asked
/// for.
pub const SETTLE_MS: u64 = 10;

/// What is made of the picture.
#[derive(Clone, Copy, PartialEq, Eq, Structural, Debug)]
pub enum GrabRoute {
    /// The samples as the display has them.
    Raw,
    /// An SDR picture that the graphics system has tone-mapped.
    Mapped,
}

/// A texture that is to be read: rows of `row_bytes` bytes, padding apart.
#[derive(Clone, Copy, PartialEq, Eq, Structural, Debug)]
pub struct MapPlan {
    pub width: u32,
    pub height: u32,
    pub format: HdrFormat,
    pub row_bytes: u64,
}

/// How far the grab has come.
#[derive(Clone, Copy, PartialEq, Eq, Structural, Debug)]
pub enum GrabPhase {
    Idle,
    /// The display is being duplicated: with a list of formats, or without.
    Duplicating { modern: bool },
    Settling,
    Acquiring,
    Resting,
    Describing,
    /// The brightness of the display is being read.
    Measuring { texture: TextureFormat, width: u32, height: u32 },
    Drawing { plan: MapPlan },
    Mapping { plan: MapPlan },
    Over,
}

/// What came of a step.
#[derive(Clone, Copy, PartialEq, Eq, Structural, Debug)]
pub enum GrabEvent {
    /// The display and its device are there. `modern` is whether the display
    /// can be asked for HDR formats.
    Begin { modern: bool },
    Duplicated { ok: bool },
    /// A pause is over.
    Waited,
    Acquired { event: AcquireEvent },
    /// The frame comes with no texture.
    NoResource,
    Described { texture: TextureFormat, width: u32, height: u32 },
    Measured,
    Drawn,
    /// The texture can be read, with rows that begin `pitch` bytes apart.
    Mapped { pitch: u64, null: bool },
    /// The graphics system refused.
    Failed,
}

/// Why there is no picture.
#[derive(Clone, Copy, PartialEq, Eq, Structural, Debug)]
pub enum GrabFault {
    NoDuplication { modern: bool },
    NoFrame,
    NoResource,
    NoDimensions,
    TooLarge,
    SdrSource,
    ShortPitch { pitch: u64, row_bytes: u64 },
    NullPointer,
    /// The graphics system refused.
    Refused,
}

/// What to do next.
#[derive(Clone, Copy, PartialEq, Eq, Structural, Debug)]
pub enum GrabStep {
    /// Nothing: the event does not belong here.
    Ignore,
    /// Duplicate the display, with HDR formats asked for first. `plain` is
    /// whether SDR pixels will do as well.
    DuplicateHdr { plain: bool },
    /// Duplicate the display in whatever format it has.
    Duplicate,
    Wait { ms: u64 },
    /// Ask for the next frame.
    Acquire,
    /// The frame was none: do this, and pause.
    Retry { action: AcquireAction },
    /// Look at the texture of the frame.
    Describe,
    /// Read how bright the display is.
    Measure,
    /// Tone-map the texture.
    Draw { plan: MapPlan },
    /// Copy the texture to where it can be read.
    MapTexture { plan: MapPlan },
    /// Read the rows, which begin `pitch` bytes apart. The grab is done.
    Read { plan: MapPlan, pitch: u64 },
    Fail { fault: GrabFault },
}

/// The grab of a display's picture.
#[derive(Clone, Copy, PartialEq, Eq, Structural, Debug)]
pub struct HdrGrab {
    pub route: GrabRoute,
    pub phase: GrabPhase,
    pub tries: AcquireLoop,
}

impl HdrGrab {
    pub open spec fn to(self, phase: GrabPhase) -> HdrGrab {
        HdrGrab { phase, ..self }
    }

    pub open spec fn failing(self, fault: GrabFault) -> (HdrGrab, GrabStep) {
        (self.to(GrabPhase::Over), GrabStep::Fail { fault })
    }

    /// A frame is asked for, if there may be another attempt.
    pub open spec fn asking(self) -> (HdrGrab, GrabStep) {
        if self.tries.spec_running() {
            (self.to(GrabPhase::Acquiring), GrabStep::Acquire)
        } else {
            self.failing(GrabFault::NoFrame)
        }
    }

    /// An attempt has come to an end.
    pub open spec fn tried(self, event: AcquireEvent) -> (HdrGrab, GrabStep) {
        let action = self.tries.answer(event);
        let tries = AcquireLoop {
            attempt: (self.tries.attempt + 1) as u32,
            trust_first: self.tries.trust_first,
            acquired: action == AcquireAction::Take,
        };
        if action == AcquireAction::Take {
            (HdrGrab { phase: GrabPhase::Describing, tries, ..self }, GrabStep::Describe)
        } else {
            (HdrGrab { phase: GrabPhase::Resting, tries, ..self }, GrabStep::Retry { action })
        }
    }

    /// The frame's texture is known.
    pub open spec fn described(self, texture: TextureFormat, width: u32, height: u32) -> (
        HdrGrab,
        GrabStep,
    ) {
        if width == 0 || height == 0 {
            self.failing(GrabFault::NoDimensions)
        } else if self.route == GrabRoute::Mapped {
            (self.to(GrabPhase::Measuring { texture, width, height }), GrabStep::Measure)
        } else if width > MAX_HDR_DIMENSION || height > MAX_HDR_DIMENSION {
            self.failing(GrabFault::TooLarge)
        } else {
            let plan = MapPlan {
                width,
                height,
                format: hdr::format_of(texture),
                row_bytes: (width * hdr::pixel_bytes(texture)) as u64,
            };
            (self.to(GrabPhase::Mapping { plan }), GrabStep::MapTexture { plan })
        }
    }

    /// The display's brightness is known.
    pub open spec fn measured(self, texture: TextureFormat, width: u32, height: u32) -> (
        HdrGrab,
        GrabStep,
    ) {
        if hdr::format_of(texture) == HdrFormat::Sdr {
            self.failing(GrabFault::SdrSource)
        } else {
            let plan = MapPlan {
                width,
                height,
                format: HdrFormat::Sdr,
                row_bytes: (width * 4) as u64,
            };
            (self.to(GrabPhase::Drawing { plan }), GrabStep::Draw { plan })
        }
    }

    /// What an event leads to.
    pub open spec fn step(self, event: GrabEvent) -> (HdrGrab, GrabStep) {
        match (self.phase, event) {
            (GrabPhase::Idle, GrabEvent::Begin { modern }) => (
                self.to(GrabPhase::Duplicating { modern }),
                if modern {
                    GrabStep::DuplicateHdr { plain: self.route == GrabRoute::Raw }
                } else {
                    GrabStep::Duplicate
                },
            ),
            (GrabPhase::Idle, GrabEvent::Failed) => self.failing(GrabFault::Refused),
            (GrabPhase::Duplicating { modern }, GrabEvent::Duplicated { ok }) => if ok {
                (self.to(GrabPhase::Settling), GrabStep::Wait { ms: SETTLE_MS })
            } else if modern && self.route == GrabRoute::Raw {
                (self.to(GrabPhase::Duplicating { modern: false }), GrabStep::Duplicate)
            } else {
                self.failing(GrabFault::NoDuplication { modern })
            },
            (GrabPhase::Settling, GrabEvent::Waited) => self.asking(),
            (GrabPhase::Acquiring, GrabEvent::Acquired { event }) => if self.tries.spec_running() {
                self.tried(event)
            } else {
                self.failing(GrabFault::NoFrame)
            },
            (GrabPhase::Resting, GrabEvent::Waited) => self.asking(),
            (GrabPhase::Describing, GrabEvent::NoResource) => self.failing(GrabFault::NoResource),
            (GrabPhase::Describing, GrabEvent::Failed) => self.failing(GrabFault::Refused),
            (
                GrabPhase::Describing,
                GrabEvent::Described { texture, width, height },
            ) => self.described(texture, width, height),
            (
                GrabPhase::Measuring { texture, width, height },
                GrabEvent::Measured,
            ) => self.measured(texture, width, height),
            (GrabPhase::Measuring { .. }, GrabEvent::Failed) => self.failing(GrabFault::Refused),
            (GrabPhase::Drawing { plan }, GrabEvent::Drawn) => (
                self.to(GrabPhase::Mapping { plan }),
                GrabStep::MapTexture { plan },
            ),
            (GrabPhase::Drawing { .. }, GrabEvent::Failed) => self.failing(GrabFault::Refused),
            (GrabPhase::Mapping { plan }, GrabEvent::Mapped { pitch, null }) => if pitch
                < plan.row_bytes {
                self.failing(GrabFault::ShortPitch { pitch, row_bytes: plan.row_bytes })
            } else if null {
                self.failing(GrabFault::NullPointer)
            } else {
                (self.to(GrabPhase::Over), GrabStep::Read { plan, pitch })
            },
            (GrabPhase::Mapping { .. }, GrabEvent::Failed) => self.failing(GrabFault::Refused),
            _ => (self, GrabStep::Ignore),
        }
    }

    // ---- the machine -------------------------------------------------------------------------

    /// A grab that has not begun. A frame that is asked for its raw samples is
    /// taken with the first texture there is; a tone-mapped one is not, unless
    /// it is known to have been presented.
    pub fn new(route: GrabRoute) -> (r: Self)
        ensures
            r == (HdrGrab {
                route,
                phase: GrabPhase::Idle,
                tries: AcquireLoop {
                    attempt: 0,
                    trust_first: route == GrabRoute::Raw,
                    acquired: false,
                },
            }),
    {
        HdrGrab {
            route,
            phase: GrabPhase::Idle,
            tries: AcquireLoop::new(
                match route {
                    GrabRoute::Raw => true,
                    GrabRoute::Mapped => false,
                },
            ),
        }
    }

    fn fail(&mut self, fault: GrabFault) -> (s: GrabStep)
        ensures
            (*final(self), s) == old(self).failing(fault),
    {
        self.phase = GrabPhase::Over;
        GrabStep::Fail { fault }
    }

    fn ask(&mut self) -> (s: GrabStep)
        ensures
            (*final(self), s) == old(self).asking(),
    {
        if self.tries.running() {
            self.phase = GrabPhase::Acquiring;
            GrabStep::Acquire
        } else {
            self.fail(GrabFault::NoFrame)
        }
    }

    fn take_attempt(&mut self, event: AcquireEvent) -> (s: GrabStep)
        requires
            old(self).tries.spec_running(),
        ensures
            (*final(self), s) == old(self).tried(event),
    {
        let mut tries = self.tries;
        let action = tries.step(event);
        self.tries = tries;
        match action {
            AcquireAction::Take => {
                self.phase = GrabPhase::Describing;
                GrabStep::Describe
            },
            _ => {
                self.phase = GrabPhase::Resting;
                GrabStep::Retry { action }
            },
        }
    }

    fn describe(&mut self, texture: TextureFormat, width: u32, height: u32) -> (s: GrabStep)
        ensures
            (*final(self), s) == old(self).described(texture, width, height),
    {
        if width == 0 || height == 0 {
            return self.fail(GrabFault::NoDimensions);
        }
        match self.route {
            GrabRoute::Mapped => {
                self.phase = GrabPhase::Measuring { texture, width, height };
                GrabStep::Measure
            },
            GrabRoute::Raw => match plan_readback(width, height, texture) {
                Ok(r) => {
                    let plan = MapPlan {
                        width,
                        height,
                        format: r.format,
                        row_bytes: r.row_bytes as u64,
                    };
                    self.phase = GrabPhase::Mapping { plan };
                    GrabStep::MapTexture { plan }
                },
                Err(_) => self.fail(GrabFault::TooLarge),
            },
        }
    }

    fn measure(&mut self, texture: TextureFormat, width: u32, height: u32) -> (s: GrabStep)
        ensures
            (*final(self), s) == old(self).measured(texture, width, height),
    {
        match hdr::check_hdr_source(texture) {
            Err(_) => self.fail(GrabFault::SdrSource),
            Ok(()) => {
                let plan = MapPlan {
                    width,
                    height,
                    format: HdrFormat::Sdr,
                    row_bytes: width as u64 * 4,
                };
                self.phase = GrabPhase::Drawing { plan };
                GrabStep::Draw { plan }
            },
        }
    }

    /// Takes in what came of the last step, and says what to do next.
    pub fn advance(&mut self, event: GrabEvent) -> (s: GrabStep)
        ensures
            (*final(self), s) == old(self).step(event),
    {
        match (self.phase, event) {
            (GrabPhase::Idle, GrabEvent::Begin { modern }) => {
                self.phase = GrabPhase::Duplicating { modern };
                if modern {
                    GrabStep::DuplicateHdr { plain: self.route == GrabRoute::Raw }
                } else {
                    GrabStep::Duplicate
                }
            },
            (GrabPhase::Duplicating { modern }, GrabEvent::Duplicated { ok }) => if ok {
                self.phase = GrabPhase::Settling;
                GrabStep::Wait { ms: SETTLE_MS }
            } else if modern && self.route == GrabRoute::Raw {
                self.phase = GrabPhase::Duplicating { modern: false };
                GrabStep::Duplicate
            } else {
                self.fail(GrabFault::NoDuplication { modern })
            },
            (GrabPhase::Settling, GrabEvent::Waited) => self.ask(),
            (GrabPhase::Acquiring, GrabEvent::Acquired { event }) => if self.tries.running() {
                self.take_attempt(event)
            } else {
                self.fail(GrabFault::NoFrame)
            },
            (GrabPhase::Resting, GrabEvent::Waited) => self.ask(),
            (GrabPhase::Describing, GrabEvent::NoResource) => self.fail(GrabFault::NoResource),
            (
                GrabPhase::Describing,
                GrabEvent::Described { texture, width, height },
            ) => self.describe(texture, width, height),
            (
                GrabPhase::Measuring { texture, width, height },
                GrabEvent::Measured,
            ) => self.measure(texture, width, height),
            (GrabPhase::Drawing { plan }, GrabEvent::Drawn) => {
                self.phase = GrabPhase::Mapping { plan };
                GrabStep::MapTexture { plan }
            },
            (GrabPhase::Mapping { plan }, GrabEvent::Mapped { pitch, null }) => if pitch
                < plan.row_bytes {
                self.fail(GrabFault::ShortPitch { pitch, row_bytes: plan.row_bytes })
            } else if null {
                self.fail(GrabFault::NullPointer)
            } else {
                self.phase = GrabPhase::Over;
                GrabStep::Read { plan, pitch }
            },
            (GrabPhase::Idle, GrabEvent::Failed) => self.fail(GrabFault::Refused),
            (GrabPhase::Describing, GrabEvent::Failed) => self.fail(GrabFault::Refused),
            (GrabPhase::Measuring { .. }, GrabEvent::Failed) => self.fail(GrabFault::Refused),
            (GrabPhase::Drawing { .. }, GrabEvent::Failed) => self.fail(GrabFault::Refused),
            (GrabPhase::Mapping { .. }, GrabEvent::Failed) => self.fail(GrabFault::Refused),
            _ => GrabStep::Ignore,
        }
    }
}

// ---- the faults in words ---------------------------------------------------------------------

impl GrabFault {
    /// The fault in words. `detail` is what the graphics system said, or, of
    /// an SDR texture, the name of its format.
    pub open spec fn spec_message(self, route: GrabRoute, detail: Seq<char>) -> Seq<char> {
        let raw = route == GrabRoute::Raw;
        match self {
            GrabFault::NoDuplication { modern: true } => "DuplicateOutput1 failed: "@ + detail,
            GrabFault::NoDuplication { modern: false } => "DuplicateOutput failed: "@ + detail,
            GrabFault::NoFrame => if raw {
                "Failed to acquire HDR frame after 30 attempts — display may be sleeping or no recent updates"@
            } else {
                "D2D: no frame acquired after 30 attempts"@
            },
            GrabFault::NoResource => if raw {
                "No desktop resource"@
            } else {
                "no desktop resource"@
            },
            GrabFault::NoDimensions => if raw {
                "Invalid texture dimensions"@
            } else {
                "desktop texture has zero dimensions"@
            },
            GrabFault::TooLarge => "Texture dimensions exceed maximum"@,
            GrabFault::SdrSource => "D2D tonemap: source is SDR ("@ + detail + "), fall back to GDI"@,
            GrabFault::ShortPitch { pitch, row_bytes } => if raw {
                "Invalid row pitch from GPU"@
            } else {
                "row_pitch "@ + text::dec(pitch as nat) + " < row_bytes "@ + text::dec(
                    row_bytes as nat,
                )
            },
            GrabFault::NullPointer => if raw {
                "Null pointer from GPU mapping"@
            } else {
                "staging Map null pointer"@
            },
            GrabFault::Refused => detail,
        }
    }

    pub fn message(&self, route: GrabRoute, detail: &str) -> (s: String)
        ensures
            s@ == self.spec_message(route, detail@),
    {
        let raw: bool = match route {
            GrabRoute::Raw => true,
            GrabRoute::Mapped => false,
        };
        match self {
            GrabFault::NoDuplication { modern } => {
                let mut s = if *modern {
                    "DuplicateOutput1 failed: ".to_owned()
                } else {
                    "DuplicateOutput failed: ".to_owned()
                };
                s.append(detail);
                s
            },
            GrabFault::NoFrame => if raw {
                "Failed to acquire HDR frame after 30 attempts — display may be sleeping or no recent updates".to_owned()
            } else {
                "D2D: no frame acquired after 30 attempts".to_owned()
            },
            GrabFault::NoResource => if raw {
                "No desktop resource".to_owned()
            } else {
                "no desktop resource".to_owned()
            },
            GrabFault::NoDimensions => if raw {
                "Invalid texture dimensions".to_owned()
            } else {
                "desktop texture has zero dimensions".to_owned()
            },
            GrabFault::TooLarge => "Texture dimensions exceed maximum".to_owned(),
            GrabFault::SdrSource => {
                let mut s = "D2D tonemap: source is SDR (".to_owned();
                s.append(detail);
                s.append("), fall back to GDI");
                s
            },
            GrabFault::ShortPitch { pitch, row_bytes } => if raw {
                "Invalid row pitch from GPU".to_owned()
            } else {
                let mut s = "row_pitch ".to_owned();
                text::push_dec(&mut s, *pitch);
                s.append(" < row_bytes ");
                text::push_dec(&mut s, *row_bytes);
                s
            },
            GrabFault::NullPointer => if raw {
                "Null pointer from GPU mapping".to_owned()
            } else {
                "staging Map null pointer".to_owned()
            },
            GrabFault::Refused => detail.to_owned(),
        }
    }
}

// ---- what always holds -----------------------------------------------------------------------

impl HdrGrab {
    /// A texture that is being read has pixels, and its rows are counted by
    /// them.
    pub open spec fn fitting(self) -> bool {
        &&& self.tries.attempt <= ACQUIRE_ATTEMPTS
        &&& match self.phase {
            GrabPhase::Measuring { texture, width, height } => self.route == GrabRoute::Mapped
                && width > 0 && height > 0,
            GrabPhase::Drawing { plan } => self.route == GrabRoute::Mapped && plan_fits(
                plan,
                self.route,
            ),
            GrabPhase::Mapping { plan } => plan_fits(plan, self.route),
            _ => true,
        }
    }

    /// How much of the grab may still lie ahead.
    pub open spec fn ahead(self) -> int {
        match self.phase {
            GrabPhase::Idle => 1000,
            GrabPhase::Duplicating { modern } => if modern {
                900
            } else {
                890
            },
            GrabPhase::Settling => 880,
            GrabPhase::Acquiring => 100 + 10 * (ACQUIRE_ATTEMPTS - self.tries.attempt) + 5,
            GrabPhase::Resting => 100 + 10 * (ACQUIRE_ATTEMPTS - self.tries.attempt) + 9,
            GrabPhase::Describing => 50,
            GrabPhase::Measuring { .. } => 40,
            GrabPhase::Drawing { .. } => 30,
            GrabPhase::Mapping { .. } => 20,
            GrabPhase::Over => 0,
        }
    }
}

/// The rows of a plan hold its pixels: SDR ones of four bytes where the
/// picture was tone-mapped, and four or eight bytes a pixel where it was not.
pub open spec fn plan_fits(plan: MapPlan, route: GrabRoute) -> bool {
    &&& plan.width > 0
    &&& plan.height > 0
    &&& match route {
        GrabRoute::Mapped => plan.format == HdrFormat::Sdr && plan.row_bytes == plan.width * 4,
        GrabRoute::Raw => plan.width <= MAX_HDR_DIMENSION && plan.height <= MAX_HDR_DIMENSION
            && plan.row_bytes == plan.width * (if plan.format == HdrFormat::ScRgb {
            8int
        } else {
            4int
        }),
    }
}

/// A grab stays fitting whatever happens, and one that has not begun is.
pub proof fn lemma_grab_stays_fitting(g: HdrGrab, event: GrabEvent)
    requires
        g.fitting() || g.phase == GrabPhase::Idle && g.tries.attempt == 0,
    ensures
        g.step(event).0.fitting(),
        g.step(event).0.route == g.route,
{
}

/// The grab ends: every event that belongs to it brings it nearer to its end,
/// and nothing belongs to one that is over.
pub proof fn lemma_grab_ends(g: HdrGrab, event: GrabEvent)
    requires
        g.fitting(),
    ensures
        0 <= g.ahead() <= 1000,
        g.step(event).1 != GrabStep::Ignore ==> g.step(event).0.ahead() < g.ahead(),
        g.step(event).1 == GrabStep::Ignore ==> g.step(event).0 == g,
        g.phase == GrabPhase::Over ==> g.step(event).1 == GrabStep::Ignore,
{
}

/// Rows are read only where they lie apart far enough to hold the pixels.
pub proof fn lemma_read_rows_are_whole(g: HdrGrab, event: GrabEvent)
    requires
        g.fitting(),
    ensures
        g.step(event).1 matches GrabStep::Read { plan, pitch } ==> plan_fits(plan, g.route) && pitch
            >= plan.row_bytes,
{
}

/// Nothing but an HDR texture is tone-mapped, and nothing at all where the raw
/// samples are asked for.
pub proof fn lemma_only_hdr_is_tone_mapped(g: HdrGrab, event: GrabEvent)
    requires
        g.fitting(),
    ensures
        g.step(event).1 is Draw ==> g.route == GrabRoute::Mapped && g.phase is Measuring
            && hdr::format_of(g.phase->Measuring_texture) != HdrFormat::Sdr,
{
}

/// A frame that came is used or given back at once.
pub proof fn lemma_frames_are_used_or_given_back(
    g: HdrGrab,
    last_present: i64,
    accumulated: u32,
    has_resource: bool,
)
    requires
        g.phase == GrabPhase::Acquiring,
        g.tries.spec_running(),
    ensures
        ({
            let event = AcquireEvent::Frame { last_present, accumulated, has_resource };
            let s = g.step(GrabEvent::Acquired { event }).1;
            s == GrabStep::Describe || s == (GrabStep::Retry {
                action: AcquireAction::Release { sleep_ms: 2 },
            })
        }),
{
}

// ---- a capture with its HDR samples ----------------------------------------------------------

/// Where the picture of a display comes from.
#[derive(Clone, Copy, PartialEq, Eq, Structural, Debug)]
pub enum HdrSource {
    /// The plain capture of the display.
    Plain,
    /// Its raw samples, tone-mapped afterwards.
    Raw,
}

/// Why raw samples make no picture.
#[derive(Clone, Copy, PartialEq, Eq, Structural, Debug)]
pub enum RawFault {
    NoDimensions,
    TooLarge,
}

impl RawFault {
    pub open spec fn spec_message(self) -> Seq<char> {
        match self {
            RawFault::NoDimensions => "Invalid capture dimensions"@,
            RawFault::TooLarge => "Capture dimensions exceed maximum"@,
        }
    }

    /// The fault in words.
    pub fn message(&self) -> (s: &'static str)
        ensures
            s@ == self.spec_message(),
    {
        match self {
            RawFault::NoDimensions => "Invalid capture dimensions",
            RawFault::TooLarge => "Capture dimensions exceed maximum",
        }
    }
}

/// What becomes of raw samples.
pub open spec fn settled(width: u32, height: u32, format: HdrFormat) -> Result<bool, RawFault> {
    if width == 0 || height == 0 {
        Err(RawFault::NoDimensions)
    } else if width > MAX_HDR_DIMENSION || height > MAX_HDR_DIMENSION {
        Err(RawFault::TooLarge)
    } else {
        Ok(format != HdrFormat::Sdr)
    }
}

impl HdrCapture {
    /// Where a picture and its HDR samples come from: raw samples are read
    /// only on Windows, and only where HDR is switched on.
    pub fn capture_with_hdr_at(&self, windows: bool, hdr_enabled: bool) -> (r: HdrSource)
        ensures
            r == (if windows && hdr_enabled {
                HdrSource::Raw
            } else {
                HdrSource::Plain
            }),
    {
        if windows && hdr_enabled {
            HdrSource::Raw
        } else {
            HdrSource::Plain
        }
    }

    /// What becomes of raw samples: whether they are kept beside the
    /// tone-mapped picture. SDR samples are not.
    pub fn settle_raw(&self, width: u32, height: u32, format: HdrFormat) -> (r: Result<
        bool,
        RawFault,
    >)
        ensures
            r == settled(width, height, format),
    {
        if width == 0 || height == 0 {
            return Err(RawFault::NoDimensions);
        }
        if width > MAX_HDR_DIMENSION || height > MAX_HDR_DIMENSION {
            return Err(RawFault::TooLarge);
        }
        match format {
            HdrFormat::Sdr => Ok(false),
            _ => Ok(true),
        }
    }
}

/// Raw samples that the grab lets through always make a picture.
pub proof fn lemma_grabbed_samples_make_a_picture(g: HdrGrab, event: GrabEvent)
    requires
        g.fitting(),
        g.route == GrabRoute::Raw,
    ensures
        g.step(event).1 matches GrabStep::Read { plan, pitch } ==> settled(
            plan.width,
            plan.height,
            plan.format,
        ) == Ok::<bool, RawFault>(plan.format != HdrFormat::Sdr),
{
}

/// HDR formats are asked for where the display can be asked. Only where the raw
/// samples are wanted does a refusal lead to a plain duplication. A new
/// duplication rests for ten milliseconds.
pub proof fn lemma_hdr_is_asked_for_first(g: HdrGrab, modern: bool, ok: bool)
    ensures
        g.phase is Idle ==> ({
            let s = g.step(GrabEvent::Begin { modern }).1;
            if modern {
                s == (GrabStep::DuplicateHdr { plain: g.route == GrabRoute::Raw })
            } else {
                s == GrabStep::Duplicate
            }
        }),
        g.phase matches GrabPhase::Duplicating { modern: m } ==> ({
            let s = g.step(GrabEvent::Duplicated { ok }).1;
            if ok {
                s == (GrabStep::Wait { ms: 10 })
            } else if m && g.route == GrabRoute::Raw {
                s == GrabStep::Duplicate
            } else {
                s is Fail
            }
        }),
{
}

/// The texture of a raw grab is mapped as it is: half floats take eight bytes a
/// pixel, all others four. Sides beyond 16384 are refused, and so is a texture
/// without sides.
pub proof fn lemma_raw_textures_are_mapped(
    g: HdrGrab,
    texture: TextureFormat,
    width: u32,
    height: u32,
)
    requires
        g.phase is Describing,
        g.route == GrabRoute::Raw,
    ensures
        ({
            let s = g.step(GrabEvent::Described { texture, width, height }).1;
            if 1 <= width <= 16384 && 1 <= height <= 16384 {
                s matches GrabStep::MapTexture { plan } && plan.width == width && plan.height
                    == height && plan.row_bytes == width * (if texture
                    == TextureFormat::Rgba16Float {
                    8int
                } else {
                    4
                }) && (plan.format == HdrFormat::ScRgb <==> texture == TextureFormat::Rgba16Float)
                    && (plan.format == HdrFormat::Hdr10 <==> texture == TextureFormat::Rgb10A2)
            } else {
                s is Fail
            }
        }),
{
}

/// A tone-mapped grab measures the display, draws and then maps what was drawn,
/// four bytes to a pixel.
pub proof fn lemma_mapped_textures_are_drawn(
    g: HdrGrab,
    texture: TextureFormat,
    width: u32,
    height: u32,
)
    requires
        g.route == GrabRoute::Mapped,
        width > 0,
        height > 0,
    ensures
        g.phase is Describing ==> g.step(GrabEvent::Described { texture, width, height }).1
            == GrabStep::Measure,
        g.phase == (GrabPhase::Measuring { texture, width, height }) && (texture
            == TextureFormat::Rgba16Float || texture == TextureFormat::Rgb10A2) ==> (g.step(
            GrabEvent::Measured,
        ).1 matches GrabStep::Draw { plan } && plan.width == width && plan.height == height
            && plan.row_bytes == width * 4),
        g.phase == (GrabPhase::Measuring { texture, width, height }) && !(texture
            == TextureFormat::Rgba16Float || texture == TextureFormat::Rgb10A2) ==> g.step(
            GrabEvent::Measured,
        ).1 == (GrabStep::Fail { fault: GrabFault::SdrSource }),
        g.phase matches GrabPhase::Drawing { plan } ==> g.step(GrabEvent::Drawn).1
            == (GrabStep::MapTexture { plan }),
{
}

/// Raw samples make a picture where both sides are between 1 and 16384, and are
/// kept beside it unless they are plain ones.
pub proof fn lemma_raw_samples_are_kept_beside(
    c: HdrCapture,
    width: u32,
    height: u32,
    format: HdrFormat,
    r: Result<bool, RawFault>,
)
    requires
        call_ensures(HdrCapture::settle_raw, (&c, width, height, format), r),
    ensures
        r is Ok <==> 1 <= width <= 16384 && 1 <= height <= 16384,
        r matches Ok(kept) ==> (kept <==> format != HdrFormat::Sdr),
        r == Err::<bool, RawFault>(RawFault::NoDimensions) <==> width == 0 || height == 0,
{
}

/// Raw samples are read on Windows alone, and only where HDR is switched on.
pub proof fn lemma_raw_samples_are_read_on_windows(
    c: HdrCapture,
    windows: bool,
    hdr_enabled: bool,
    r: HdrSource,
)
    requires
        call_ensures(HdrCapture::capture_with_hdr_at, (&c, windows, hdr_enabled), r),
    ensures
        r == HdrSource::Raw <==> windows && hdr_enabled,
        r == HdrSource::Plain <==> !windows || !hdr_enabled,
{
}

/// A new grab has begun nothing. The first texture is trusted where the raw
/// samples are wanted, and not where they are tone-mapped.
pub proof fn lemma_new_grab_has_not_begun(route: GrabRoute, g: HdrGrab, modern: bool)
    requires
        call_ensures(HdrGrab::new, (route,), g),
    ensures
        g.route == route,
        g.tries.attempt == 0 && !g.tries.acquired,
        g.tries.trust_first <==> route == GrabRoute::Raw,
        g.step(GrabEvent::Begin { modern: false }).1 == GrabStep::Duplicate,
        g.step(GrabEvent::Waited).1 == GrabStep::Ignore,
{
}

} // verus!
