//! HDR sources: what a display's signal is, and how its raw pixels are checked
//! and unpacked.

use vstd::prelude::*;

use crate::capture::frame::{from_raw, image_from_rows, ByteOrder, RgbaImage};
use crate::capture::frame;

verus! {

/// The longest side of an HDR capture.
pub const MAX_HDR_DIMENSION: u32 = 16384;

/// The most pixels of an HDR capture.
pub const MAX_HDR_PIXELS: u64 = 268_435_456;

/// How the pixels of an HDR source are encoded.
#[derive(Clone, Copy, PartialEq, Eq, Structural, Debug)]
pub enum HdrFormat {
    Sdr,
    Hdr10,
    ScRgb,
    Hlg,
}

/// The signal of a display, by the number of its colour space.
pub open spec fn signal_of(color_space: i32) -> Option<HdrFormat> {
    if color_space == 12 {
        Some(HdrFormat::Hdr10)
    } else if color_space == 13 {
        Some(HdrFormat::Hlg)
    } else if color_space == 14 {
        Some(HdrFormat::ScRgb)
    } else {
        None
    }
}

/// The HDR signal that a colour space stands for, or `None` where it is not
/// an HDR one.
pub fn hdr_signal(color_space: i32) -> (r: Option<HdrFormat>)
    ensures
        r == signal_of(color_space),
{
    match color_space {
        12 => Some(HdrFormat::Hdr10),
        13 => Some(HdrFormat::Hlg),
        14 => Some(HdrFormat::ScRgb),
        _ => None,
    }
}

/// Captures of HDR displays.
#[derive(Clone, Copy, PartialEq, Eq, Structural, Debug)]
pub struct HdrCapture;

impl HdrCapture {
    pub fn new() -> (r: Self)
        ensures
            r == HdrCapture,
    {
        HdrCapture
    }

    /// Whether HDR can be captured, given the signals of the displays in the
    /// order in which they are listed: one of them is HDR.
    pub fn is_hdr_available(color_spaces: &[i32]) -> (r: bool)
        ensures
            r == exists|i: int|
                0 <= i < color_spaces@.len() && signal_of(#[trigger] color_spaces@[i]) is Some,
    {
        HdrCapture::first_hdr(color_spaces).is_some()
    }

    /// The first display with an HDR signal, and that signal.
    pub fn first_hdr(color_spaces: &[i32]) -> (r: Option<(usize, HdrFormat)>)
        ensures
            r is None <==> forall|i: int|
                0 <= i < color_spaces@.len() ==> signal_of(#[trigger] color_spaces@[i]) is None,
            r matches Some((k, f)) ==> k < color_spaces@.len() && signal_of(
                color_spaces@[k as int],
            ) == Some(f) && forall|i: int|
                0 <= i < k ==> signal_of(#[trigger] color_spaces@[i]) is None,
    {
        for k in 0..color_spaces.len()
            invariant
                forall|i: int| 0 <= i < k ==> signal_of(#[trigger] color_spaces@[i]) is None,
        {
            if let Some(f) = hdr_signal(color_spaces[k]) {
                return Some((k, f));
            }
        }
        None
    }
}

impl Default for HdrCapture {
    fn default() -> (r: Self)
        ensures
            r == HdrCapture,
    {
        HdrCapture::new()
    }
}

// ---- device names and white levels -----------------------------------------------------

/// Two zero-terminated names agree up to the first zero, as far as both reach.
pub open spec fn names_match(a: Seq<u16>, b: Seq<u16>) -> bool {
    forall|i: int|
        #![trigger a[i]]
        0 <= i < a.len() && i < b.len() && (forall|j: int| 0 <= j < i ==> a[j] != 0) ==> a[i]
            == b[i]
}

/// Whether two zero-terminated device names agree.
pub fn device_names_match(a: &[u16], b: &[u16]) -> (r: bool)
    ensures
        r == names_match(a@, b@),
{
    let len: usize = if a.len() <= b.len() { a.len() } else { b.len() };
    for i in 0..len
        invariant
            len <= a@.len(),
            len <= b@.len(),
            len == a@.len() || len == b@.len(),
            forall|j: int| 0 <= j < i ==> a@[j] == b@[j] && a@[j] != 0,
    {
        if a[i] != b[i] {
            assert(a@[i as int] != b@[i as int]);
            return false;
        }
        if a[i] == 0 {
            assert forall|k: int|
                #![trigger a@[k]]
                0 <= k < a@.len() && k < b@.len() && (forall|j: int|
                    0 <= j < k ==> a@[j] != 0) implies a@[k] == b@[k] by {
                if k > i {
                    assert(a@[i as int] != 0);
                }
            }
            return true;
        }
    }
    true
}

/// What a display path answers: the name of its source and its white level,
/// each where it could be asked for.
#[derive(Debug)]
pub struct DisplayPath {
    pub name: Option<Vec<u16>>,
    pub white_level: Option<u32>,
}

/// The path belongs to the display and has a white level between 80 and 10000
/// nits, which are the levels 1000 and 125000.
pub open spec fn white_path(p: DisplayPath, device: Seq<u16>) -> bool {
    &&& p.name matches Some(n) && names_match(n@, device)
    &&& p.white_level matches Some(l) && 1000 <= l <= 125_000
}

/// The white level of the display whose device name is `device`: that of the
/// first of its paths that has one in range.
pub fn pick_sdr_white(paths: &[DisplayPath], device: &[u16]) -> (r: Option<u32>)
    ensures
        r is None <==> forall|i: int|
            0 <= i < paths@.len() ==> !white_path(#[trigger] paths@[i], device@),
        r matches Some(l) ==> exists|k: int|
            0 <= k < paths@.len() && white_path(#[trigger] paths@[k], device@)
                && paths@[k].white_level == Some(l) && forall|i: int|
                0 <= i < k ==> !white_path(#[trigger] paths@[i], device@),
{
    for k in 0..paths.len()
        invariant
            forall|i: int| 0 <= i < k ==> !white_path(#[trigger] paths@[i], device@),
    {
        let p = &paths[k];
        if let Some(n) = &p.name {
            if device_names_match(n.as_slice(), device) {
                if let Some(l) = p.white_level {
                    if 1000 <= l && l <= 125_000 {
                        assert(white_path(paths@[k as int], device@));
                        return Some(l);
                    }
                }
            }
        }
        assert(!white_path(paths@[k as int], device@));
    }
    None
}

/// The part of the desktop that an output shows: its edges, the right and
/// bottom one excluded.
#[derive(Clone, Copy, PartialEq, Eq, Structural, Debug)]
pub struct OutputEdges {
    pub left: i32,
    pub top: i32,
    pub right: i32,
    pub bottom: i32,
}

impl OutputEdges {
    pub open spec fn covers(self, p: (i32, i32)) -> bool {
        self.left <= p.0 < self.right && self.top <= p.1 < self.bottom
    }
}

/// Output `o` of adapter `a` shows the point.
pub open spec fn output_covers(
    adapters: Seq<Vec<Option<OutputEdges>>>,
    a: int,
    o: int,
    p: (i32, i32),
) -> bool {
    &&& 0 <= a < adapters.len()
    &&& 0 <= o < adapters[a]@.len()
    &&& adapters[a]@[o] matches Some(e) && e.covers(p)
}

/// `(a, o)` comes before `(b, q)`.
pub open spec fn output_before(a: int, o: int, b: int, q: int) -> bool {
    a < b || a == b && o < q
}

/// The adapter and output to capture: the first that shows the target, and the
/// very first where there is no target or none shows it.
pub fn pick_adapter_output(adapters: &[Vec<Option<OutputEdges>>], target: Option<(i32, i32)>)
    -> (r: (usize, usize))
    ensures
        target matches Some(p) ==> {
            ||| output_covers(adapters@, r.0 as int, r.1 as int, p) && forall|a: int, o: int|
                output_before(a, o, r.0 as int, r.1 as int) ==> !#[trigger] output_covers(
                    adapters@,
                    a,
                    o,
                    p,
                )
            ||| r == (0usize, 0usize) && forall|a: int, o: int|
                !#[trigger] output_covers(adapters@, a, o, p)
        },
        target is None ==> r == (0usize, 0usize),
{
    let p = match target {
        None => return (0, 0),
        Some(p) => p,
    };
    for a in 0..adapters.len()
        invariant
            target == Some(p),
            forall|b: int, q: int| b < a ==> !#[trigger] output_covers(adapters@, b, q, p),
    {
        let outputs = &adapters[a];
        for o in 0..outputs.len()
            invariant
                target == Some(p),
                a < adapters@.len(),
                *outputs == adapters@[a as int],
                forall|b: int, q: int|
                    output_before(b, q, a as int, o as int) ==> !#[trigger] output_covers(
                        adapters@,
                        b,
                        q,
                        p,
                    ),
        {
            if let Some(e) = outputs[o] {
                if p.0 >= e.left && p.0 < e.right && p.1 >= e.top && p.1 < e.bottom {
                    assert(output_covers(adapters@, a as int, o as int, p));
                    return (a, o);
                }
            }
            assert(!output_covers(adapters@, a as int, o as int, p));
        }
    }
    (0, 0)
}

// ---- waiting for a frame ----------------------------------------------------------------

/// How often a frame is asked for.
pub const ACQUIRE_ATTEMPTS: u32 = 30;

/// What came of asking for the next frame.
#[derive(Clone, Copy, PartialEq, Eq, Structural, Debug)]
pub enum AcquireEvent {
    /// A frame, with when it was presented, how many updates it gathers, and
    /// whether it carries a picture.
    Frame { last_present: i64, accumulated: u32, has_resource: bool },
    AccessLost,
    Timeout,
    Failed,
}

/// What to do next.
#[derive(Clone, Copy, PartialEq, Eq, Structural, Debug)]
pub enum AcquireAction {
    /// The frame is the one: keep it.
    Take,
    /// The frame is stale: hand it back and sleep.
    Release { sleep_ms: u64 },
    /// Access was lost: set the duplication up again and sleep.
    Rebuild { sleep_ms: u64 },
    Sleep { sleep_ms: u64 },
}

/// A loop that asks for frames. `trust_first` takes a picture from the first
/// attempt on, even where nothing was presented yet; otherwise the first such
/// picture counts as stale.
#[derive(Clone, Copy, PartialEq, Eq, Structural, Debug)]
pub struct AcquireLoop {
    pub attempt: u32,
    pub trust_first: bool,
    pub acquired: bool,
}

impl AcquireLoop {
    /// A frame that shows the desktop as it is.
    pub open spec fn is_real(self, last_present: i64, accumulated: u32, has_resource: bool) -> bool {
        last_present != 0 || accumulated > 0 || has_resource && (self.trust_first || self.attempt
            >= 1)
    }

    pub open spec fn answer(self, e: AcquireEvent) -> AcquireAction {
        match e {
            AcquireEvent::Frame { last_present, accumulated, has_resource } => if self.is_real(
                last_present,
                accumulated,
                has_resource,
            ) {
                AcquireAction::Take
            } else {
                AcquireAction::Release { sleep_ms: 2 }
            },
            AcquireEvent::AccessLost => if self.attempt < ACQUIRE_ATTEMPTS - 1 {
                AcquireAction::Rebuild { sleep_ms: 10 }
            } else {
                AcquireAction::Sleep { sleep_ms: 5 }
            },
            AcquireEvent::Timeout => AcquireAction::Sleep { sleep_ms: 2 },
            AcquireEvent::Failed => AcquireAction::Sleep { sleep_ms: 5 },
        }
    }

    /// The loop still asks.
    pub open spec fn spec_running(self) -> bool {
        !self.acquired && self.attempt < ACQUIRE_ATTEMPTS
    }

    pub fn new(trust_first: bool) -> (r: Self)
        ensures
            r == (AcquireLoop { attempt: 0, trust_first, acquired: false }),
            r.spec_running(),
    {
        AcquireLoop { attempt: 0, trust_first, acquired: false }
    }

    /// Whether the loop still asks: it stops with a frame, or without one
    /// after the last attempt.
    pub fn running(&self) -> (r: bool)
        ensures
            r == self.spec_running(),
    {
        !self.acquired && self.attempt < ACQUIRE_ATTEMPTS
    }

    /// Takes what came of an attempt and says what to do.
    pub fn step(&mut self, e: AcquireEvent) -> (a: AcquireAction)
        requires
            old(self).spec_running(),
        ensures
            a == old(self).answer(e),
            final(self).attempt == old(self).attempt + 1,
            final(self).trust_first == old(self).trust_first,
            final(self).acquired == (a == AcquireAction::Take),
    {
        let attempt: u32 = self.attempt;
        self.attempt = attempt + 1;
        match e {
            AcquireEvent::Frame { last_present, accumulated, has_resource } => {
                if last_present != 0 || accumulated > 0 || (has_resource && (self.trust_first
                    || attempt >= 1)) {
                    self.acquired = true;
                    AcquireAction::Take
                } else {
                    AcquireAction::Release { sleep_ms: 2 }
                }
            },
            AcquireEvent::AccessLost => if attempt < ACQUIRE_ATTEMPTS - 1 {
                AcquireAction::Rebuild { sleep_ms: 10 }
            } else {
                AcquireAction::Sleep { sleep_ms: 5 }
            },
            AcquireEvent::Timeout => AcquireAction::Sleep { sleep_ms: 2 },
            AcquireEvent::Failed => AcquireAction::Sleep { sleep_ms: 5 },
        }
    }
}

/// The loop after a series of events, as far as it asks for them.
pub open spec fn run_loop(l: AcquireLoop, events: Seq<AcquireEvent>) -> AcquireLoop
    decreases events.len(),
{
    if events.len() == 0 || !l.spec_running() {
        l
    } else {
        run_loop(
            AcquireLoop {
                attempt: (l.attempt + 1) as u32,
                trust_first: l.trust_first,
                acquired: l.answer(events[0]) == AcquireAction::Take,
            },
            events.skip(1),
        )
    }
}

/// However the attempts turn out, the loop has stopped after as many of them
/// as it makes.
pub proof fn lemma_loop_stops(l: AcquireLoop, events: Seq<AcquireEvent>)
    requires
        l.attempt <= ACQUIRE_ATTEMPTS,
        events.len() >= ACQUIRE_ATTEMPTS - l.attempt,
    ensures
        !run_loop(l, events).spec_running(),
        run_loop(l, events).attempt <= ACQUIRE_ATTEMPTS,
    decreases events.len(),
{
    if events.len() > 0 && l.spec_running() {
        lemma_loop_stops(
            AcquireLoop {
                attempt: (l.attempt + 1) as u32,
                trust_first: l.trust_first,
                acquired: l.answer(events[0]) == AcquireAction::Take,
            },
            events.skip(1),
        );
    }
}

// ---- reading a captured texture back -------------------------------------------------------

/// The formats in which a captured texture comes.
#[derive(Clone, Copy, PartialEq, Eq, Structural, Debug)]
pub enum TextureFormat {
    Rgba16Float,
    Rgb10A2,
    Bgra8,
    Rgba8,
    Other,
}

/// Why a captured texture cannot be used.
#[derive(Clone, Copy, PartialEq, Eq, Structural, Debug)]
pub enum ReadbackError {
    NoDimensions,
    TooLarge,
    ShortPitch,
    SdrSource,
}

/// The encoding of a texture's pixels.
pub open spec fn format_of(t: TextureFormat) -> HdrFormat {
    match t {
        TextureFormat::Rgba16Float => HdrFormat::ScRgb,
        TextureFormat::Rgb10A2 => HdrFormat::Hdr10,
        _ => HdrFormat::Sdr,
    }
}

/// How many bytes a pixel of the texture takes.
pub open spec fn pixel_bytes(t: TextureFormat) -> int {
    match t {
        TextureFormat::Rgba16Float => 8,
        _ => 4,
    }
}

/// How a captured texture is read: the encoding of its pixels, and the bytes
/// of a row and of all rows without padding.
#[derive(Clone, Copy, PartialEq, Eq, Structural, Debug)]
pub struct Readback {
    pub format: HdrFormat,
    pub row_bytes: usize,
    pub total_bytes: usize,
}

/// Checks a captured texture's sides and says how it is read.
pub fn plan_readback(width: u32, height: u32, texture: TextureFormat) -> (r: Result<
    Readback,
    ReadbackError,
>)
    ensures
        r == Err::<Readback, ReadbackError>(ReadbackError::NoDimensions) <==> width == 0 || height
            == 0,
        r == Err::<Readback, ReadbackError>(ReadbackError::TooLarge) <==> width != 0 && height != 0
            && (width > MAX_HDR_DIMENSION || height > MAX_HDR_DIMENSION),
        r is Ok <==> 0 < width <= MAX_HDR_DIMENSION && 0 < height <= MAX_HDR_DIMENSION,
        r matches Ok(p) ==> p.format == format_of(texture) && p.row_bytes == width * pixel_bytes(
            texture,
        ) && p.total_bytes == width * pixel_bytes(texture) * height,
{
    if width == 0 || height == 0 {
        return Err(ReadbackError::NoDimensions);
    }
    if width > MAX_HDR_DIMENSION || height > MAX_HDR_DIMENSION {
        return Err(ReadbackError::TooLarge);
    }
    let bytes: usize = match texture {
        TextureFormat::Rgba16Float => 8,
        _ => 4,
    };
    let format = match texture {
        TextureFormat::Rgba16Float => HdrFormat::ScRgb,
        TextureFormat::Rgb10A2 => HdrFormat::Hdr10,
        _ => HdrFormat::Sdr,
    };
    let row_bytes: usize = width as usize * bytes;
    assert(row_bytes * height <= 131_072 * 16_384) by (nonlinear_arith)
        requires
            0 <= row_bytes <= 131_072,
            0 <= height <= 16_384,
    ;
    Ok(Readback { format, row_bytes, total_bytes: row_bytes * height as usize })
}

/// The rows of a buffer without their padding: byte `i` is byte `i % row_bytes`
/// of row `i / row_bytes`, and rows begin `pitch` bytes apart.
pub open spec fn unpadded(raw: Seq<u8>, pitch: int, row_bytes: int, height: int) -> Seq<u8> {
    Seq::new(
        (row_bytes * height) as nat,
        |i: int| raw[(i / row_bytes) * pitch + i % row_bytes],
    )
}

/// Copies the rows of a mapped texture without their padding.
pub fn read_rows(raw: &[u8], pitch: usize, row_bytes: usize, height: u32) -> (r: Result<
    Vec<u8>,
    ReadbackError,
>)
    requires
        row_bytes > 0,
        height > 0,
        row_bytes * height <= usize::MAX,
        pitch >= row_bytes ==> raw@.len() >= (height - 1) * pitch + row_bytes,
    ensures
        r == Err::<Vec<u8>, ReadbackError>(ReadbackError::ShortPitch) <==> pitch < row_bytes,
        r matches Ok(v) ==> v@ == unpadded(raw@, pitch as int, row_bytes as int, height as int),
        r is Ok <==> pitch >= row_bytes,
{
    if pitch < row_bytes {
        return Err(ReadbackError::ShortPitch);
    }
    let n: usize = raw.len();
    let mut out: Vec<u8> = Vec::new();
    let mut y: u32 = 0;
    let mut row: usize = 0;
    while y < height
        invariant
            n == raw@.len(),
            n >= (height - 1) * pitch + row_bytes,
            row_bytes > 0,
            y <= height,
            y < height ==> row == y * pitch,
            out@.len() == y * row_bytes,
            forall|i: int|
                0 <= i < out@.len() ==> #[trigger] out@[i] == raw@[(i / row_bytes as int) * pitch
                    + i % row_bytes as int],
        decreases height - y,
    {
        proof {
            assert(y * pitch <= (height - 1) * pitch) by (nonlinear_arith)
                requires
                    0 <= y <= height - 1,
                    0 <= pitch,
            ;
        }
        let mut x: usize = 0;
        while x < row_bytes
            invariant
                n == raw@.len(),
                y < height,
                x <= row_bytes,
                row_bytes > 0,
                row == y * pitch,
                row + row_bytes <= n,
                out@.len() == y * row_bytes + x,
                forall|i: int|
                    0 <= i < out@.len() ==> #[trigger] out@[i] == raw@[(i / row_bytes as int)
                        * pitch + i % row_bytes as int],
            decreases row_bytes - x,
        {
            proof {
                vstd::arithmetic::div_mod::lemma_fundamental_div_mod_converse(
                    y * row_bytes + x,
                    row_bytes as int,
                    y as int,
                    x as int,
                );
            }
            out.push(raw[row + x]);
            x = x + 1;
        }
        y = y + 1;
        proof {
            assert(y * row_bytes == (y - 1) * row_bytes + row_bytes) by (nonlinear_arith);
            assert(y * pitch == (y - 1) * pitch + pitch) by (nonlinear_arith);
            if y < height {
                assert(y * pitch <= (height - 1) * pitch) by (nonlinear_arith)
                    requires
                        0 <= y <= height - 1,
                        0 <= pitch,
                ;
            }
        }
        if y < height {
            row = row + pitch;
        }
    }
    proof {
        assert(height * row_bytes == row_bytes * height) by (nonlinear_arith);
        assert(out@ =~= unpadded(raw@, pitch as int, row_bytes as int, height as int));
    }
    Ok(out)
}

/// Reads a tone-mapped texture back: BGRA rows that begin `pitch` bytes apart.
pub fn read_bgra(raw: &[u8], width: u32, height: u32, pitch: usize) -> (r: Result<
    RgbaImage,
    ReadbackError,
>)
    requires
        pitch >= width * 4 ==> frame::rows_fit(raw@.len(), width, height, pitch),
        width * 4 <= usize::MAX,
    ensures
        r == Err::<RgbaImage, ReadbackError>(ReadbackError::NoDimensions) <==> width == 0 || height
            == 0,
        r == Err::<RgbaImage, ReadbackError>(ReadbackError::ShortPitch) <==> width != 0 && height
            != 0 && pitch < width * 4,
        r is Ok <==> width != 0 && height != 0 && pitch >= width * 4,
        r matches Ok(img) ==> frame::shows_rows(
            img,
            raw@,
            width,
            height,
            pitch,
            ByteOrder::Bgra,
            false,
        ),
{
    if width == 0 || height == 0 {
        return Err(ReadbackError::NoDimensions);
    }
    if pitch < width as usize * 4 {
        return Err(ReadbackError::ShortPitch);
    }
    Ok(image_from_rows(raw, width, height, pitch, ByteOrder::Bgra, false))
}

/// Only an HDR texture is tone-mapped; a plain one is left to the plain
/// capture.
pub fn check_hdr_source(texture: TextureFormat) -> (r: Result<(), ReadbackError>)
    ensures
        r == (match texture {
            TextureFormat::Rgba16Float | TextureFormat::Rgb10A2 => Ok::<(), ReadbackError>(()),
            _ => Err::<(), ReadbackError>(ReadbackError::SdrSource),
        }),
{
    match texture {
        TextureFormat::Rgba16Float => Ok(()),
        TextureFormat::Rgb10A2 => Ok(()),
        _ => Err(ReadbackError::SdrSource),
    }
}

// ---- half floats ---------------------------------------------------------------------------

/// The magnitude of a finite half float, in units of its smallest one.
pub open spec fn half_units(bits: u16) -> int {
    let exp = (bits as int / 1024) % 32;
    let mant = bits as int % 1024;
    if exp == 0 {
        mant
    } else {
        (1024 + mant) * vstd::arithmetic::power2::pow2((exp - 1) as nat)
    }
}

/// `out` is the single float of the same value as the half float `bits`: the
/// same sign, infinities and not-a-numbers kept, zero kept, and otherwise the
/// same magnitude.
pub open spec fn same_float(bits: u16, out: u32) -> bool {
    let exp = (bits as int / 1024) % 32;
    let mant = bits as int % 1024;
    let e = (out as int / 8_388_608) % 256;
    let m = out as int % 8_388_608;
    &&& out as int / 2_147_483_648 == bits as int / 32_768
    &&& exp == 31 ==> e == 255 && m == mant * 8192
    &&& exp == 0 && mant == 0 ==> e == 0 && m == 0
    &&& exp != 31 && (exp != 0 || mant != 0) ==> 103 <= e <= 142 && (8_388_608 + m)
        * vstd::arithmetic::power2::pow2((e - 103) as nat) == half_units(bits) * 8_388_608
}

proof fn lemma_half_fields(bits: u16)
    ensures
        ((bits >> 15) & 1) as int == bits as int / 32_768,
        ((bits >> 10) & 0x1F) as int == (bits as int / 1024) % 32,
        (bits & 0x3FF) as int == bits as int % 1024,
{
    assert((bits >> 15) & 1 == bits / 32_768) by (bit_vector);
    assert((bits >> 10) & 0x1F == (bits / 1024) % 32) by (bit_vector);
    assert(bits & 0x3FF == bits % 1024) by (bit_vector);
}

proof fn lemma_single_fields(sign: u32, exp: u32, mant: u32)
    requires
        sign <= 1,
        exp <= 255,
        mant <= 1023,
    ensures
        ((sign << 31) | (exp << 23) | (mant << 13)) == sign * 2_147_483_648 + exp * 8_388_608 + mant
            * 8192,
        ({
            let out = ((sign << 31) | (exp << 23) | (mant << 13)) as int;
            out / 2_147_483_648 == sign && (out / 8_388_608) % 256 == exp && out % 8_388_608 == mant
                * 8192
        }),
{
    assert(((sign << 31) | (exp << 23) | (mant << 13)) == sign * 2_147_483_648 + exp * 8_388_608
        + mant * 8192) by (bit_vector)
        requires
            sign <= 1,
            exp <= 255,
            mant <= 1023,
    ;
}

/// The single float of the same value as a half float, both as their bits.
pub fn f16_to_f32_bits(bits: u16) -> (out: u32)
    ensures
        same_float(bits, out),
{
    proof {
        lemma_half_fields(bits);
    }
    let sign: u32 = ((bits >> 15) & 1) as u32;
    let exp: u32 = ((bits >> 10) & 0x1F) as u32;
    let mant: u32 = (bits & 0x3FF) as u32;
    if exp == 0 {
        if mant == 0 {
            proof {
                lemma_single_fields(sign, 0, 0);
                assert((0u32 << 23) == 0u32) by (bit_vector);
                assert((0u32 << 13) == 0u32) by (bit_vector);
                assert(((sign << 31) | 0u32 | 0u32) == sign << 31) by (bit_vector);
            }
            return sign << 31;
        }
        let mut m: u32 = mant;
        let mut e: i32 = 1;
        proof {
            vstd::arithmetic::power2::lemma2_to64();
            assert(vstd::arithmetic::power2::pow2((1 - e) as nat) == 1);
        }
        while m < 1024
            invariant
                0 < mant < 1024,
                0 < m < 2048,
                -9 <= e <= 1,
                m == mant * vstd::arithmetic::power2::pow2((1 - e) as nat),
                e < -8 ==> m >= 1024,
            decreases e + 10,
        {
            let ghost p = vstd::arithmetic::power2::pow2((1 - e) as nat);
            proof {
                vstd::arithmetic::power2::lemma_pow2_unfold((2 - e) as nat);
                assert(mant * (2 * p) == 2 * (mant * p)) by (nonlinear_arith);
                vstd::arithmetic::power2::lemma2_to64();
                if e == -8 {
                    assert(mant * 1024 >= 1024);
                }
            }
            m = m * 2;
            e = e - 1;
        }
        let low: u32 = m - 1024;
        let single_exp: u32 = (e + 112) as u32;
        proof {
            lemma_single_fields(sign, single_exp, low);
            let a = vstd::arithmetic::power2::pow2((1 - e) as nat);
            let b = vstd::arithmetic::power2::pow2((e + 9) as nat);
            vstd::arithmetic::power2::lemma_pow2_adds((1 - e) as nat, (e + 9) as nat);
            vstd::arithmetic::power2::lemma2_to64();
            assert(a * b == 1024);
            assert((8_388_608 + low * 8192) == m * 8192);
            assert((m * 8192) * b == mant * 8_388_608) by (nonlinear_arith)
                requires
                    m == mant * a,
                    a * b == 1024,
            ;
        }
        return (sign << 31) | (single_exp << 23) | (low << 13);
    }
    if exp == 31 {
        proof {
            lemma_single_fields(sign, 255, mant);
        }
        return (sign << 31) | (255u32 << 23) | (mant << 13);
    }
    let single_exp: u32 = exp + 112;
    proof {
        lemma_single_fields(sign, single_exp, mant);
        let a = vstd::arithmetic::power2::pow2((exp - 1) as nat);
        vstd::arithmetic::power2::lemma_pow2_adds((exp - 1) as nat, 10);
        vstd::arithmetic::power2::lemma2_to64();
        assert(single_exp - 103 == (exp - 1) + 10);
        assert((8_388_608 + mant * 8192) * (a * 1024) == ((1024 + mant) * a) * 8_388_608)
            by (nonlinear_arith);
    }
    (sign << 31) | (single_exp << 23) | (mant << 13)
}

// ---- what the tone mapper is given --------------------------------------------------------

/// The samples of a half-float picture of `n` pixels as single floats; what is
/// not finite becomes zero.
pub open spec fn shows_floats(raw: Seq<u8>, n: int, floats: Seq<u32>) -> bool {
    &&& floats.len() == n * 4
    &&& forall|i: int|
        0 <= i < n * 4 ==> {
            let half = (raw[i * 2] + raw[i * 2 + 1] * 256) as u16;
            let v = #[trigger] floats[i];
            if (half as int / 1024) % 32 == 31 {
                v == 0
            } else {
                same_float(half, v)
            }
        }
}

fn floats_of(raw: &[u8], n: usize) -> (r: Vec<u32>)
    requires
        n * 8 <= raw@.len(),
        raw@.len() <= usize::MAX,
    ensures
        shows_floats(raw@, n as int, r@),
{
    let total: usize = n * 4;
    let mut out: Vec<u32> = Vec::new();
    let mut i: usize = 0;
    while i < total
        invariant
            total == n * 4,
            n * 8 <= raw@.len(),
            raw@.len() <= usize::MAX,
            i <= total,
            out@.len() == i,
            forall|k: int|
                0 <= k < i ==> {
                    let half = (raw@[k * 2] + raw@[k * 2 + 1] * 256) as u16;
                    let v = #[trigger] out@[k];
                    if (half as int / 1024) % 32 == 31 {
                        v == 0
                    } else {
                        same_float(half, v)
                    }
                },
        decreases total - i,
    {
        let half: u16 = raw[i * 2] as u16 + raw[i * 2 + 1] as u16 * 256;
        let v: u32 = if (half / 1024) % 32 == 31 { 0 } else { f16_to_f32_bits(half) };
        out.push(v);
        i = i + 1;
    }
    out
}

/// What is left to do with a raw capture.
#[derive(Debug)]
pub enum TonemapInput {
    /// Nothing to show: a transparent frame of this size.
    Blank { width: u32, height: u32 },
    /// Linear samples, as the bits of single floats.
    ScRgb { floats: Vec<u32> },
    /// PQ samples on the full 16-bit range.
    Hdr10 { samples: Vec<u16> },
    /// HLG pixels, four bytes each.
    Hlg { pixels: Vec<u8> },
    /// A plain frame, which needs no tone mapping.
    Sdr { image: RgbaImage },
}

/// The least bytes that a capture of `n` pixels takes.
pub open spec fn least_bytes(format: HdrFormat, n: int) -> int {
    match format {
        HdrFormat::ScRgb => n * 8,
        _ => n * 4,
    }
}

/// Checks a raw capture and unpacks its pixels for the tone mapper. A capture
/// without a side, or with too many pixels, shows one transparent pixel; one
/// whose buffer is too short shows a transparent frame.
pub fn tonemap_input(raw: &[u8], width: u32, height: u32, format: HdrFormat) -> (r: TonemapInput)
    ensures
        ({
            let n = width * height;
            if width == 0 || height == 0 || n > MAX_HDR_PIXELS {
                r == (TonemapInput::Blank { width: 1, height: 1 })
            } else if raw@.len() < least_bytes(format, n) {
                r == (TonemapInput::Blank { width, height })
            } else {
                match format {
                    HdrFormat::ScRgb => r matches TonemapInput::ScRgb { floats } && shows_floats(
                        raw@,
                        n,
                        floats@,
                    ),
                    HdrFormat::Hdr10 => r matches TonemapInput::Hdr10 { samples } && samples@
                        == crate::capture::hdr_png::samples(raw@, n),
                    HdrFormat::Hlg => r matches TonemapInput::Hlg { pixels } && pixels@
                        == raw@.take(n * 4),
                    HdrFormat::Sdr => r matches TonemapInput::Sdr { image } && image.wf()
                        && image.spec_width() == width && image.spec_height() == height
                        && forall|k: int|
                        0 <= k < n ==> #[trigger] image.pixels()[k] == frame::pixel_of(raw@, k),
                }
            }
        }),
{
    if width == 0 || height == 0 {
        return TonemapInput::Blank { width: 1, height: 1 };
    }
    let n: u64 = frame::area(width, height);
    if n > MAX_HDR_PIXELS {
        return TonemapInput::Blank { width: 1, height: 1 };
    }
    let least: u64 = match format {
        HdrFormat::ScRgb => n * 8,
        _ => n * 4,
    };
    let len: usize = raw.len();
    if (len as u64) < least {
        return TonemapInput::Blank { width, height };
    }
    match format {
        HdrFormat::ScRgb => TonemapInput::ScRgb { floats: floats_of(raw, n as usize) },
        HdrFormat::Hdr10 => TonemapInput::Hdr10 {
            samples: crate::capture::hdr_png::unpack_all(raw, n as usize),
        },
        HdrFormat::Hlg => {
            let mut pixels: Vec<u8> = Vec::new();
            let bytes: usize = n as usize * 4;
            for i in 0..bytes
                invariant
                    bytes <= raw@.len(),
                    pixels@ == raw@.take(i as int),
            {
                pixels.push(raw[i]);
                assert(pixels@ =~= raw@.take(i + 1));
            }
            TonemapInput::Hlg { pixels }
        },
        HdrFormat::Sdr => {
            let bytes: usize = n as usize * 4;
            let packed = vstd::slice::slice_subrange(raw, 0, bytes);
            let image = from_raw(width, height, packed).unwrap();
            proof {
                assert forall|k: int| 0 <= k < n implies #[trigger] image.pixels()[k]
                    == frame::pixel_of(raw@, k) by {
                    assert(image.pixels()[k] == frame::pixel_of(packed@, k));
                }
            }
            TonemapInput::Sdr { image }
        },
    }
}

// ---- the work of the tone mapper -----------------------------------------------------------

/// The longest side that is tone mapped.
pub const MAX_TONEMAP_DIMENSION: u32 = 16384;

/// How much of a frame the tone mapper has to do.
#[derive(Clone, Copy, PartialEq, Eq, Structural, Debug)]
pub enum TonemapSize {
    /// The sides cannot be used: one transparent pixel.
    OnePixel,
    /// Samples are missing: a transparent frame.
    Blank,
    /// All pixels.
    Whole { pixels: usize },
}

/// Checks the sides of a frame, and that there are four samples for each pixel.
pub fn tonemap_size(width: u32, height: u32, samples: usize) -> (r: TonemapSize)
    ensures
        r == (if width == 0 || height == 0 || width > MAX_TONEMAP_DIMENSION || height
            > MAX_TONEMAP_DIMENSION {
            TonemapSize::OnePixel
        } else if samples < width * height * 4 {
            TonemapSize::Blank
        } else {
            TonemapSize::Whole { pixels: (width * height) as usize }
        }),
{
    if width == 0 || height == 0 || width > MAX_TONEMAP_DIMENSION || height
        > MAX_TONEMAP_DIMENSION {
        return TonemapSize::OnePixel;
    }
    assert(width * height <= MAX_TONEMAP_DIMENSION * MAX_TONEMAP_DIMENSION) by (nonlinear_arith)
        requires
            width <= MAX_TONEMAP_DIMENSION,
            height <= MAX_TONEMAP_DIMENSION,
    ;
    let pixels: usize = width as usize * height as usize;
    if samples < pixels * 4 {
        TonemapSize::Blank
    } else {
        TonemapSize::Whole { pixels }
    }
}

/// How far apart the pixels stand whose peak is taken: about a hundred thousand
/// of them are looked at.
pub fn peak_stride(pixels: usize) -> (r: usize)
    ensures
        r == (if pixels / 100_000 == 0 {
            1
        } else {
            pixels / 100_000
        }),
{
    let stride: usize = pixels / 100_000;
    if stride == 0 {
        1
    } else {
        stride
    }
}

/// Which of the looked-at pixels, from the darkest to the brightest, gives the
/// peak: the brightest, or where outliers are ignored the one that no more than
/// one in a hundred outshine. None where no pixel was looked at.
pub fn peak_rank(looked_at: usize, ignore_outliers: bool) -> (r: Option<usize>)
    ensures
        r == (if looked_at == 0 {
            None::<usize>
        } else if ignore_outliers {
            Some((looked_at - looked_at / 100 - 1) as usize)
        } else {
            Some((looked_at - 1) as usize)
        }),
{
    if looked_at == 0 {
        None
    } else if ignore_outliers {
        Some(looked_at - looked_at / 100 - 1)
    } else {
        Some(looked_at - 1)
    }
}

/// How many pixels each of up to sixteen threads takes: as few as let the
/// threads cover the frame.
pub fn pixels_per_thread(pixels: usize, threads: usize) -> (r: usize)
    requires
        threads > 0,
    ensures
        ({
            let n = if threads < 16 {
                threads as int
            } else {
                16
            };
            r * n >= pixels && (pixels > 0 ==> (r - 1) * n < pixels) && (pixels == 0 ==> r == 0)
        }),
{
    let n: usize = if threads < 16 {
        threads
    } else {
        16
    };
    let whole: usize = pixels / n;
    let rest: usize = pixels % n;
    proof {
        vstd::arithmetic::div_mod::lemma_fundamental_div_mod(pixels as int, n as int);
        assert(pixels == whole * n + rest) by (nonlinear_arith)
            requires
                pixels == n * whole + rest,
        ;
        assert((whole + 1) * n == whole * n + n) by (nonlinear_arith);
        assert((whole - 1) * n == whole * n - n) by (nonlinear_arith);
        assert(whole <= pixels) by (nonlinear_arith)
            requires
                pixels == whole * n + rest,
                n >= 1,
                rest >= 0,
        ;
        assert(pixels == 0 ==> whole == 0) by (nonlinear_arith)
            requires
                pixels == whole * n + rest,
                n >= 1,
                rest >= 0,
                whole >= 0,
        ;
        assert(n == 1 ==> rest == 0);
        assert(rest > 0 ==> whole < pixels) by (nonlinear_arith)
            requires
                pixels == whole * n + rest,
                n >= 1,
        ;
    }
    if rest == 0 {
        whole
    } else {
        whole + 1
    }
}

/// A tone-mapped texture that is read back has the colours of its bytes, blue
/// first.
pub proof fn lemma_textures_begin_with_blue(
    raw: &[u8],
    width: u32,
    height: u32,
    pitch: usize,
    img: RgbaImage,
    x: int,
    y: int,
)
    requires
        call_ensures(read_bgra, (raw, width, height, pitch), Ok(img)),
        0 <= x < width,
        0 <= y < height,
    ensures
        img.spec_width() == width,
        img.spec_height() == height,
        ({
            let p = img.pixels()[y * width + x];
            let o = y * pitch + x * 4;
            &&& p.b == raw@[o]
            &&& p.g == raw@[o + 1]
            &&& p.r == raw@[o + 2]
            &&& p.a == raw@[o + 3]
        }),
{
    assert(img.inside(x, y));
    let p = img.px(x, y);
}

// ---- laws -----------------------------------------------------------------------------------

/// Only three colour spaces are HDR: 12 is HDR10, 13 is HLG and 14 is scRGB.
pub proof fn lemma_hdr_colour_spaces(color_space: i32, r: Option<HdrFormat>)
    requires
        call_ensures(hdr_signal, (color_space,), r),
    ensures
        r is Some <==> 12 <= color_space <= 14,
        color_space == 12 <==> r == Some(HdrFormat::Hdr10),
        color_space == 13 <==> r == Some(HdrFormat::Hlg),
        color_space == 14 <==> r == Some(HdrFormat::ScRgb),
{
}

/// HDR can be captured where some display has an HDR signal, and then the first
/// such display is taken.
pub proof fn lemma_first_hdr_display_is_taken(
    color_spaces: &[i32],
    available: bool,
    r: Option<(usize, HdrFormat)>,
    i: int,
)
    requires
        call_ensures(HdrCapture::is_hdr_available, (color_spaces,), available),
        call_ensures(HdrCapture::first_hdr, (color_spaces,), r),
        0 <= i < color_spaces@.len(),
    ensures
        available == (r is Some),
        12 <= color_spaces@[i] <= 14 ==> (r matches Some((k, f)) && k <= i),
        r matches Some((k, f)) ==> k < color_spaces@.len() && 12 <= color_spaces@[k as int] <= 14,
{
}

/// Names agree with themselves. They do not agree where they differ before
/// either ends.
pub proof fn lemma_names_agree_up_to_their_end(
    a: &[u16],
    b: &[u16],
    r: bool,
    i: int,
)
    requires
        call_ensures(device_names_match, (a, b), r),
        0 <= i < a@.len(),
        i < b@.len(),
        forall|j: int| 0 <= j < i ==> a@[j] != 0,
    ensures
        a@ == b@ ==> r,
        a@[i] != b@[i] ==> !r,
        a@[i] == 0 && a@.take(i + 1) == b@.take(i + 1) ==> r,
{
    if a@[i] == 0 && a@.take(i + 1) == b@.take(i + 1) {
        assert forall|k: int|
            #![trigger a@[k]]
            0 <= k < a@.len() && k < b@.len() && (forall|j: int| 0 <= j < k ==> a@[j] != 0) implies a@[k]
            == b@[k] by {
            if k <= i {
                assert(a@.take(i + 1)[k] == b@.take(i + 1)[k]);
            } else {
                assert(a@[i] != 0);
            }
        }
    }
}

/// The white level of a display lies between 80 and 10000 nits, at twelve and a
/// half steps to the nit, and comes from one of its paths.
pub proof fn lemma_white_levels_are_sensible(paths: &[DisplayPath], device: &[u16], l: u32)
    requires
        call_ensures(pick_sdr_white, (paths, device), Some(l)),
    ensures
        80 * 25 <= l * 2 <= 10_000 * 25,
        exists|k: int| 0 <= k < paths@.len() && (#[trigger] paths@[k]).white_level == Some(l),
{
}

/// The output that is captured shows the target, unless none does.
pub proof fn lemma_target_is_shown(
    adapters: &[Vec<Option<OutputEdges>>],
    p: (i32, i32),
    r: (usize, usize),
    a: int,
    o: int,
    e: OutputEdges,
)
    requires
        call_ensures(pick_adapter_output, (adapters, Some(p)), r),
        0 <= a < adapters@.len(),
        0 <= o < adapters@[a]@.len(),
        adapters@[a]@[o] == Some(e),
        e.left <= p.0 < e.right,
        e.top <= p.1 < e.bottom,
    ensures
        r.0 < a || r.0 == a && r.1 <= o,
        r.0 < adapters@.len() && r.1 < adapters@[r.0 as int]@.len(),
        adapters@[r.0 as int]@[r.1 as int] matches Some(d) && d.left <= p.0 < d.right && d.top
            <= p.1 < d.bottom,
{
    assert(output_covers(adapters@, a, o, p));
}

/// A frame that was presented, or that gathers updates, is taken. A picture alone
/// is taken from the second attempt on, or at once where the first is trusted.
/// Nothing else is taken, and no wait is longer than a hundredth of a second.
pub proof fn lemma_shown_frames_are_taken(l: AcquireLoop, e: AcquireEvent)
    requires
        l.spec_running(),
    ensures
        e matches AcquireEvent::Frame { last_present, accumulated, has_resource } ==> (l.answer(e)
            == AcquireAction::Take <==> last_present != 0 || accumulated > 0 || has_resource && (
        l.trust_first || l.attempt > 0)),
        !(e is Frame) ==> l.answer(e) != AcquireAction::Take,
        e is AccessLost && l.attempt < 29 ==> l.answer(e) is Rebuild,
        l.answer(e) matches AcquireAction::Sleep { sleep_ms } ==> sleep_ms <= 10,
        l.answer(e) matches AcquireAction::Release { sleep_ms } ==> sleep_ms <= 10 && e is Frame,
        l.answer(e) matches AcquireAction::Rebuild { sleep_ms } ==> sleep_ms <= 10 && e
            is AccessLost,
        l.attempt < 30,
{
}

/// A texture is read where both sides are between 1 and 16384. Half floats take
/// eight bytes a pixel and are scRGB; ten-bit pixels take four and are HDR10; all
/// others take four and are plain.
pub proof fn lemma_textures_are_read_by_their_format(
    width: u32,
    height: u32,
    texture: TextureFormat,
    r: Result<Readback, ReadbackError>,
)
    requires
        call_ensures(plan_readback, (width, height, texture), r),
    ensures
        r is Ok <==> 1 <= width <= 16384 && 1 <= height <= 16384,
        r matches Ok(p) ==> {
            &&& p.format == HdrFormat::ScRgb <==> texture == TextureFormat::Rgba16Float
            &&& p.format == HdrFormat::Hdr10 <==> texture == TextureFormat::Rgb10A2
            &&& p.format != HdrFormat::Hlg
            &&& texture == TextureFormat::Rgba16Float ==> p.row_bytes == width * 8
            &&& texture != TextureFormat::Rgba16Float ==> p.row_bytes == width * 4
            &&& p.total_bytes == p.row_bytes * height
        },
{
}

/// Byte `x` of row `y` stands `y` pitches and `x` bytes into the mapped texture.
pub proof fn lemma_padding_is_left_out(
    raw: &[u8],
    pitch: usize,
    row_bytes: usize,
    height: u32,
    v: Vec<u8>,
    x: int,
    y: int,
)
    requires
        call_ensures(read_rows, (raw, pitch, row_bytes, height), Ok(v)),
        0 <= x < row_bytes,
        0 <= y < height,
    ensures
        v@.len() == row_bytes * height,
        v@[y * row_bytes + x] == raw@[y * pitch + x],
{
    let i = y * row_bytes + x;
    assert(0 <= i < row_bytes * height) by (nonlinear_arith)
        requires
            0 <= x < row_bytes,
            0 <= y < height,
            i == y * row_bytes + x,
    ;
    vstd::arithmetic::div_mod::lemma_fundamental_div_mod_converse(
        i,
        row_bytes as int,
        y,
        x,
    );
}

proof fn lemma_one_scale(a: int, i: nat, b: int, j: nat)
    requires
        8_388_608 <= a < 16_777_216,
        8_388_608 <= b < 16_777_216,
        a * vstd::arithmetic::power2::pow2(i) == b * vstd::arithmetic::power2::pow2(j),
    ensures
        i == j,
        a == b,
{
    let p = vstd::arithmetic::power2::pow2(i) as int;
    let q = vstd::arithmetic::power2::pow2(j) as int;
    vstd::arithmetic::power2::lemma_pow2_pos(i);
    vstd::arithmetic::power2::lemma_pow2_pos(j);
    if i < j {
        let d = (j - i) as nat;
        vstd::arithmetic::power2::lemma_pow2_adds(i, d);
        vstd::arithmetic::power2::lemma_pow2_unfold(d);
        vstd::arithmetic::power2::lemma_pow2_pos((d - 1) as nat);
        let s = vstd::arithmetic::power2::pow2(d) as int;
        assert(a == b * s) by (nonlinear_arith)
            requires
                a * p == b * q,
                p * s == q,
                p > 0,
        ;
        assert(b * s >= b * 2) by (nonlinear_arith)
            requires
                s >= 2,
                b > 0,
        ;
    } else if j < i {
        let d = (i - j) as nat;
        vstd::arithmetic::power2::lemma_pow2_adds(j, d);
        vstd::arithmetic::power2::lemma_pow2_unfold(d);
        vstd::arithmetic::power2::lemma_pow2_pos((d - 1) as nat);
        let s = vstd::arithmetic::power2::pow2(d) as int;
        assert(b == a * s) by (nonlinear_arith)
            requires
                a * p == b * q,
                q * s == p,
                q > 0,
        ;
        assert(a * s >= a * 2) by (nonlinear_arith)
            requires
                s >= 2,
                a > 0,
        ;
    } else {
        assert(a == b) by (nonlinear_arith)
            requires
                a * p == b * p,
                p > 0,
        ;
    }
}

proof fn lemma_common_half(bits: u16, out: u32)
    requires
        same_float(bits, out),
        1 <= (bits / 1024) % 32 <= 30,
    ensures
        out == (bits / 32_768) * 2_147_483_648 + ((bits / 1024) % 32 + 127 - 15) * 8_388_608 + (bits
            % 1024) * 8192,
{
    let exp = (bits as int / 1024) % 32;
    let mant = bits as int % 1024;
    let e = (out as int / 8_388_608) % 256;
    let m = out as int % 8_388_608;
    let a = 8_388_608 + m;
    let b = 8_388_608 + mant * 8192;
    let half = vstd::arithmetic::power2::pow2((exp - 1) as nat) as int;
    vstd::arithmetic::power2::lemma_pow2_adds((exp - 1) as nat, 10);
    vstd::arithmetic::power2::lemma2_to64();
    let full = vstd::arithmetic::power2::pow2((exp + 9) as nat) as int;
    assert((exp - 1) + 10 == exp + 9);
    assert(full == half * 1024);
    assert(((1024 + mant) * half) * 8_388_608 == b * (half * 1024)) by (nonlinear_arith)
        requires
            b == 8_388_608 + mant * 8192,
    ;
    lemma_one_scale(a, (e - 103) as nat, b, (exp + 9) as nat);
}

/// A half float that is neither tiny nor infinite becomes the single float with
/// the same sign, the exponent moved by the distance of the two biases, 127 and
/// 15, and the fraction with thirteen noughts behind it.
pub proof fn lemma_half_floats_keep_their_value(bits: u16, out: u32)
    requires
        call_ensures(f16_to_f32_bits, (bits,), out),
        1 <= (bits / 1024) % 32 <= 30,
    ensures
        out == (bits / 32_768) * 2_147_483_648 + ((bits / 1024) % 32 + 127 - 15) * 8_388_608 + (bits
            % 1024) * 8192,
{
    lemma_common_half(bits, out);
}

/// The sign of a half float is kept, nought stays nought, and what is infinite or
/// no number stays so.
pub proof fn lemma_special_half_floats(bits: u16, out: u32)
    requires
        call_ensures(f16_to_f32_bits, (bits,), out),
    ensures
        bits < 0x8000 <==> out < 0x8000_0000,
        bits == 0 ==> out == 0,
        bits == 0x8000 ==> out == 0x8000_0000,
        bits == 0x7c00 ==> out == 0x7f80_0000,
        bits == 0xfc00 ==> out == 0xff80_0000,
        0x7c00 < bits < 0x8000 ==> out > 0x7f80_0000,
{
}

/// The linear samples of a half-float picture are its own, each of two bytes with
/// the lower first, and what is not finite is nought.
pub proof fn lemma_linear_samples_are_those_of_the_picture(
    raw: &[u8],
    width: u32,
    height: u32,
    floats: Vec<u32>,
    i: int,
    half: u16,
)
    requires
        call_ensures(
            tonemap_input,
            (raw, width, height, HdrFormat::ScRgb),
            TonemapInput::ScRgb { floats },
        ),
        0 <= i < width * height * 4,
        half == raw@[i * 2] + raw@[i * 2 + 1] * 256,
    ensures
        floats@.len() == width * height * 4,
        (half / 1024) % 32 == 31 ==> floats@[i] == 0,
        1 <= (half / 1024) % 32 <= 30 ==> floats@[i] == (half / 32_768) * 2_147_483_648 + ((half
            / 1024) % 32 + 112) * 8_388_608 + (half % 1024) * 8192,
{
    let v = floats@[i];
    if 1 <= (half / 1024) % 32 <= 30 {
        assert(same_float(half, v));
        lemma_common_half(half, v);
    }
}

/// Every capture is unpacked as what it is. One with too few bytes is blank, at
/// eight bytes a pixel for half floats and four for all others.
pub proof fn lemma_captures_are_unpacked_as_what_they_are(
    raw: &[u8],
    width: u32,
    height: u32,
    format: HdrFormat,
    r: TonemapInput,
)
    requires
        call_ensures(tonemap_input, (raw, width, height, format), r),
    ensures
        r is ScRgb ==> format == HdrFormat::ScRgb,
        r is Hdr10 ==> format == HdrFormat::Hdr10,
        r is Hlg ==> format == HdrFormat::Hlg,
        r is Sdr ==> format == HdrFormat::Sdr,
        !(r is Blank) <==> width > 0 && height > 0 && width * height <= 268_435_456 && raw@.len()
            >= width * height * (if format == HdrFormat::ScRgb {
            8int
        } else {
            4
        }),
        r matches TonemapInput::Hlg { pixels } ==> pixels@ == raw@.take(width * height * 4),
        r matches TonemapInput::Blank { width: w, height: h } ==> (w == width && h == height || w
            == 1 && h == 1),
{
}

/// A plain frame has the colours of its bytes, red first.
pub proof fn lemma_plain_frames_begin_with_red(
    raw: &[u8],
    width: u32,
    height: u32,
    image: RgbaImage,
    k: int,
)
    requires
        call_ensures(
            tonemap_input,
            (raw, width, height, HdrFormat::Sdr),
            TonemapInput::Sdr { image },
        ),
        0 <= k < width * height,
    ensures
        image.pixels()[k].r == raw@[k * 4],
        image.pixels()[k].g == raw@[k * 4 + 1],
        image.pixels()[k].b == raw@[k * 4 + 2],
        image.pixels()[k].a == raw@[k * 4 + 3],
{
    let p = image.pixels()[k];
}

/// A frame is tone mapped where both sides are between 1 and 16384 and each pixel
/// has four samples.
pub proof fn lemma_whole_frames_are_tone_mapped(
    width: u32,
    height: u32,
    samples: usize,
    r: TonemapSize,
)
    requires
        call_ensures(tonemap_size, (width, height, samples), r),
        width * height <= usize::MAX,
    ensures
        r is OnePixel <==> !(1 <= width <= 16384 && 1 <= height <= 16384),
        r matches TonemapSize::Whole { pixels } ==> pixels == width * height && samples >= pixels * 4,
        r is Blank ==> samples < width * height * 4,
{
}

/// About a hundred thousand pixels are looked at: no fewer where there are as
/// many, and fewer than twice as many.
pub proof fn lemma_enough_pixels_are_looked_at(pixels: usize, r: usize)
    requires
        call_ensures(peak_stride, (pixels,), r),
    ensures
        r >= 1,
        pixels >= 100_000 ==> r * 100_000 <= pixels,
        pixels < (r + 1) * 100_000,
{
}

/// No more than one in a hundred of the pixels outshine the peak where outliers
/// are ignored, and as many as that; none where they are not.
pub proof fn lemma_few_pixels_outshine_the_peak(looked_at: usize, ignore: bool, k: usize)
    requires
        call_ensures(peak_rank, (looked_at, ignore), Some(k)),
    ensures
        k < looked_at,
        !ignore ==> k + 1 == looked_at,
        ignore ==> (looked_at - 1 - k) * 100 <= looked_at < (looked_at - k) * 100,
{
}

} // verus!
