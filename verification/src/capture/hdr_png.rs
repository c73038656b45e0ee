//! HDR pictures: 16 bits for each channel, with a `cICP` chunk that names the
//! colour primaries and the transfer function.

use vstd::prelude::*;

use crate::capture::hdr::HdrFormat;
use crate::text;

verus! {

/// A picture straight from an HDR source.
///
/// In an `Hdr10` picture each pixel is a little-endian word: red in bits 0 to
/// 9, green in 10 to 19, blue in 20 to 29 and alpha in the top two.
#[derive(Debug)]
pub struct HdrBitmap {
    pub width: u32,
    pub height: u32,
    pub format: HdrFormat,
    pub data: Vec<u8>,
}

impl HdrBitmap {
    /// How many pixels the picture has.
    pub fn pixel_count(&self) -> (n: u64)
        ensures
            n == self.width * self.height,
    {
        crate::capture::frame::area(self.width, self.height)
    }
}

/// The transfer function of a written picture: that of the source, or HLG.
#[derive(Clone, Copy, PartialEq, Eq, Structural, Debug)]
pub enum HdrTransfer {
    Pq,
    Hlg,
}

/// Why an HDR picture cannot be written.
#[derive(Clone, Copy, PartialEq, Eq, Structural, Debug)]
pub enum HdrPngError {
    ScRgb,
    Hlg,
    Sdr,
    Overflow,
    BufferTooSmall { have: usize, need: u64 },
    Empty,
}

impl HdrPngError {
    /// The error in words. `detail` is what the PNG writer said of an empty
    /// picture.
    pub open spec fn spec_message(self, detail: Seq<char>) -> Seq<char> {
        match self {
            HdrPngError::ScRgb => "scRGB HDR encoding not supported (needs matrix + PQ pass); falling back to SDR"@,
            HdrPngError::Hlg => "HLG HDR encoding not supported (needs upsample to 16-bit); falling back to SDR"@,
            HdrPngError::Sdr => "encode_hdr_png called with SDR bitmap — programmer error"@,
            HdrPngError::Overflow => "hdr10 dimensions overflow byte count"@,
            HdrPngError::BufferTooSmall { have, need } => "hdr10 source buffer too small: have "@
                + text::dec(have as nat) + ", need "@ + text::dec(need as nat),
            HdrPngError::Empty => detail,
        }
    }

    pub fn message(&self, detail: &str) -> (s: String)
        ensures
            s@ == self.spec_message(detail@),
    {
        match self {
            HdrPngError::ScRgb => "scRGB HDR encoding not supported (needs matrix + PQ pass); falling back to SDR".to_owned(),
            HdrPngError::Hlg => "HLG HDR encoding not supported (needs upsample to 16-bit); falling back to SDR".to_owned(),
            HdrPngError::Sdr => "encode_hdr_png called with SDR bitmap — programmer error".to_owned(),
            HdrPngError::Overflow => "hdr10 dimensions overflow byte count".to_owned(),
            HdrPngError::BufferTooSmall { have, need } => {
                let mut s = "hdr10 source buffer too small: have ".to_owned();
                text::push_dec(&mut s, *have as u64);
                s.append(", need ");
                text::push_dec(&mut s, *need);
                s
            },
            HdrPngError::Empty => detail.to_owned(),
        }
    }
}

// ---- unpacking ---------------------------------------------------------------------------

/// A 10-bit value on the full 16-bit range: the top bits are repeated below.
pub open spec fn widen10(v: int) -> int {
    v * 64 + v / 16
}

/// The channels of a packed word on the full 16-bit range.
pub open spec fn channels(word: u32) -> Seq<u16> {
    seq![
        widen10(word as int % 1024) as u16,
        widen10((word as int / 1024) % 1024) as u16,
        widen10((word as int / 1_048_576) % 1024) as u16,
        ((word as int / 1_073_741_824) * 21845) as u16,
    ]
}

proof fn lemma_word_fields(word: u32)
    ensures
        word & 0x3FF == word % 1024,
        (word >> 10) & 0x3FF == (word / 1024) % 1024,
        (word >> 20) & 0x3FF == (word / 1_048_576) % 1024,
        (word >> 30) & 0x3 == word / 1_073_741_824,
{
    assert(word & 0x3FF == word % 1024) by (bit_vector);
    assert((word >> 10) & 0x3FF == (word / 1024) % 1024) by (bit_vector);
    assert((word >> 20) & 0x3FF == (word / 1_048_576) % 1024) by (bit_vector);
    assert((word >> 30) & 0x3 == word / 1_073_741_824) by (bit_vector);
}

fn widen(v: u32) -> (r: u16)
    requires
        v < 1024,
    ensures
        r == widen10(v as int),
{
    assert((v << 6) | (v >> 4) == v * 64 + v / 16) by (bit_vector)
        requires
            v < 1024,
    ;
    ((v << 6) | (v >> 4)) as u16
}

/// Widens one packed pixel to 16 bits for each channel.
pub fn unpack_rgb10a2(word: u32) -> (r: [u16; 4])
    ensures
        r@ == channels(word),
{
    proof {
        lemma_word_fields(word);
    }
    let alpha: u16 = ((word >> 30) & 0x3) as u16;
    let r: [u16; 4] = [
        widen(word & 0x3FF),
        widen((word >> 10) & 0x3FF),
        widen((word >> 20) & 0x3FF),
        alpha * 21845,
    ];
    assert(r@ =~= channels(word));
    r
}

/// Widening keeps the order of values, maps nothing to nothing and the
/// largest value to the largest.
pub proof fn lemma_widen_is_monotone(a: int, b: int)
    requires
        0 <= a < b < 1024,
    ensures
        widen10(a) < widen10(b),
        widen10(0) == 0,
        widen10(1023) == 65535,
{
}

/// The little-endian word that begins at `o`.
pub open spec fn le32(raw: Seq<u8>, o: int) -> u32 {
    (raw[o] + raw[o + 1] * 256 + raw[o + 2] * 65536 + raw[o + 3] * 16_777_216) as u32
}

/// Reads the little-endian word that begins at `o`.
pub fn read_le32(raw: &[u8], o: usize) -> (w: u32)
    requires
        o + 4 <= raw@.len(),
        raw@.len() <= usize::MAX,
    ensures
        w == le32(raw@, o as int),
{
    raw[o] as u32 + raw[o + 1] as u32 * 256 + raw[o + 2] as u32 * 65536 + raw[o + 3] as u32
        * 16_777_216
}

/// The 16-bit samples of a packed picture of `n` pixels: four for each pixel.
pub open spec fn samples(raw: Seq<u8>, n: int) -> Seq<u16> {
    Seq::new((n * 4) as nat, |i: int| channels(le32(raw, (i / 4) * 4))[i % 4])
}

/// Unpacks the first `n` packed pixels.
pub fn unpack_all(raw: &[u8], n: usize) -> (r: Vec<u16>)
    requires
        n * 4 <= raw@.len(),
        raw@.len() <= usize::MAX,
    ensures
        r@ == samples(raw@, n as int),
{
    let mut out: Vec<u16> = Vec::new();
    let mut k: usize = 0;
    while k < n
        invariant
            n * 4 <= raw@.len(),
            raw@.len() <= usize::MAX,
            k <= n,
            out@ == samples(raw@, k as int),
        decreases n - k,
    {
        let c = unpack_rgb10a2(read_le32(raw, k * 4));
        out.push(c[0]);
        out.push(c[1]);
        out.push(c[2]);
        out.push(c[3]);
        assert(out@ =~= samples(raw@, k + 1));
        k = k + 1;
    }
    out
}

// ---- writing -----------------------------------------------------------------------------

/// `b` is the two bytes of each sample, the higher one first.
pub open spec fn big_endian(s: Seq<u16>) -> Seq<u8> {
    Seq::new(
        s.len() * 2,
        |i: int|
            if i % 2 == 0 {
                (s[i / 2] / 256) as u8
            } else {
                (s[i / 2] % 256) as u8
            },
    )
}

fn to_big_endian(s: &[u16]) -> (r: Vec<u8>)
    requires
        s@.len() * 2 <= usize::MAX,
    ensures
        r@ == big_endian(s@),
{
    let mut out: Vec<u8> = Vec::new();
    for i in 0..s.len()
        invariant
            out@ == big_endian(s@.take(i as int)),
    {
        let v: u16 = s[i];
        out.push((v / 256) as u8);
        out.push((v % 256) as u8);
        assert(out@ =~= big_endian(s@.take(i + 1)));
    }
    assert(s@.take(s@.len() as int) =~= s@);
    out
}

/// The samples with each colour sample replaced by its entry in the table.
/// The alpha is kept.
pub open spec fn transcode(s: Seq<u16>, table: Seq<u16>) -> Seq<u16> {
    Seq::new(
        s.len(),
        |i: int|
            if i % 4 == 3 {
                s[i]
            } else {
                table[s[i] as int]
            },
    )
}

fn transcoded(s: &[u16], table: &[u16]) -> (r: Vec<u16>)
    requires
        table@.len() == 65536,
    ensures
        r@ == transcode(s@, table@),
{
    let mut out: Vec<u16> = Vec::new();
    for i in 0..s.len()
        invariant
            table@.len() == 65536,
            out@ == transcode(s@, table@).take(i as int),
    {
        let v: u16 = s[i];
        if i % 4 == 3 {
            out.push(v);
        } else {
            out.push(table[v as usize]);
        }
        assert(out@ =~= transcode(s@, table@).take(i + 1));
    }
    assert(transcode(s@, table@).take(s@.len() as int) =~= transcode(s@, table@));
    out
}

/// What the `png` crate writes for a picture of 16-bit RGBA samples with one
/// extra chunk before them.
pub uninterp spec fn png_rgba16(
    width: u32,
    height: u32,
    kind: Seq<u8>,
    chunk: Seq<u8>,
    data: Seq<u8>,
) -> Seq<u8>;

/// The eight bytes with which every PNG begins.
pub open spec fn png_signature() -> Seq<u8> {
    seq![137u8, 80, 78, 71, 13, 10, 26, 10]
}

/// A chunk that begins at `o`: its length, its kind and its data.
pub open spec fn chunk_at(bytes: Seq<u8>, o: int, kind: Seq<u8>, data: Seq<u8>) -> bool {
    &&& o + 12 + data.len() <= bytes.len()
    &&& be32(bytes, o) == data.len()
    &&& bytes.subrange(o + 4, o + 8) == kind
    &&& bytes.subrange(o + 8, o + 8 + data.len()) == data
}

/// The signature, a header chunk of 13 bytes, and then the given chunk.
pub open spec fn begins_with(v: Seq<u8>, kind: Seq<u8>, chunk: Seq<u8>) -> bool {
    &&& v.len() >= 49
    &&& v.subrange(0, 8) == png_signature()
    &&& be32(v, 8) == 13
    &&& v.subrange(12, 16) == seq![73u8, 72, 68, 82]
    &&& chunk_at(v, 33, kind, chunk)
}

/// `png::Encoder` with colour type RGBA and 16 bits for each channel, written
/// to memory: `write_header`, `write_chunk` with the extra chunk,
/// `write_image_data` and `finish`. It fails exactly where a side is zero.
/// What it writes begins with the signature, a header chunk of 13 bytes, and
/// the extra chunk.
#[verifier::external_body]
fn write_png16(width: u32, height: u32, kind: [u8; 4], chunk: [u8; 4], data: &[u8]) -> (r: Option<
    Vec<u8>,
>)
    requires
        data@.len() == width * height * 8,
    ensures
        (r is Some) == (width != 0 && height != 0),
        r matches Some(v) ==> v@ == png_rgba16(width, height, kind@, chunk@, data@) && begins_with(
            v@,
            kind@,
            chunk@,
        ),
{
    let mut out: Vec<u8> = Vec::new();
    let mut encoder = png::Encoder::new(&mut out, width, height);
    encoder.set_color(png::ColorType::Rgba);
    encoder.set_depth(png::BitDepth::Sixteen);
    let mut writer = encoder.write_header().ok()?;
    writer.write_chunk(png::chunk::ChunkType(kind), &chunk).ok()?;
    writer.write_image_data(data).ok()?;
    writer.finish().ok()?;
    Some(out)
}

/// The `cICP` chunk of a transfer function: BT.2020 primaries, PQ or HLG, no
/// matrix, full range.
pub open spec fn cicp_of(transfer: HdrTransfer) -> Seq<u8> {
    match transfer {
        HdrTransfer::Pq => seq![9u8, 16, 0, 1],
        HdrTransfer::Hlg => seq![9u8, 18, 0, 1],
    }
}

/// The samples that are written for a picture.
pub open spec fn written(bitmap: HdrBitmap, transfer: HdrTransfer, table: Seq<u16>) -> Seq<u16> {
    let s = samples(bitmap.data@, bitmap.width * bitmap.height);
    match transfer {
        HdrTransfer::Pq => s,
        HdrTransfer::Hlg => transcode(s, table),
    }
}

/// Why the picture cannot be written, if it cannot.
pub open spec fn refusal(bitmap: HdrBitmap) -> Option<HdrPngError> {
    let need = bitmap.width * bitmap.height * 4;
    match bitmap.format {
        HdrFormat::ScRgb => Some(HdrPngError::ScRgb),
        HdrFormat::Hlg => Some(HdrPngError::Hlg),
        HdrFormat::Sdr => Some(HdrPngError::Sdr),
        HdrFormat::Hdr10 => if need > u64::MAX {
            Some(HdrPngError::Overflow)
        } else if bitmap.data@.len() < need {
            Some(
                HdrPngError::BufferTooSmall { have: bitmap.data@.len() as usize, need: need as u64 },
            )
        } else if bitmap.width == 0 || bitmap.height == 0 {
            Some(HdrPngError::Empty)
        } else {
            None
        },
    }
}

/// Writes an HDR10 picture as a PNG of 16-bit samples with a `cICP` chunk. PQ
/// keeps the samples of the source; HLG looks each colour sample up in `table`,
/// which holds the HLG value of every PQ value. Reading the chunk back gives
/// the transfer function that was asked for.
pub fn encode_hdr_png(bitmap: &HdrBitmap, transfer: HdrTransfer, table: &[u16]) -> (r: Result<
    Vec<u8>,
    HdrPngError,
>)
    requires
        table@.len() == 65536,
        bitmap.data@.len() <= isize::MAX,
    ensures
        match refusal(*bitmap) {
            Some(e) => r == Err::<Vec<u8>, HdrPngError>(e),
            None => r matches Ok(v) && v@ == png_rgba16(
                bitmap.width,
                bitmap.height,
                cicp_kind(),
                cicp_of(transfer),
                big_endian(written(*bitmap, transfer, table@)),
            ) && find_cicp(v@) == Some(
                CicpInfo {
                    colour_primaries: 9,
                    transfer: (match transfer {
                        HdrTransfer::Pq => 16u8,
                        HdrTransfer::Hlg => 18u8,
                    }),
                    matrix: 0,
                    full_range: 1,
                },
            ),
        },
{
    match bitmap.format {
        HdrFormat::ScRgb => return Err(HdrPngError::ScRgb),
        HdrFormat::Hlg => return Err(HdrPngError::Hlg),
        HdrFormat::Sdr => return Err(HdrPngError::Sdr),
        HdrFormat::Hdr10 => {},
    }
    let pixels: u64 = bitmap.pixel_count();
    if pixels > u64::MAX / 4 {
        return Err(HdrPngError::Overflow);
    }
    let need: u64 = pixels * 4;
    if (bitmap.data.len() as u64) < need {
        return Err(HdrPngError::BufferTooSmall { have: bitmap.data.len(), need });
    }
    let s = unpack_all(bitmap.data.as_slice(), pixels as usize);
    let cicp: [u8; 4] = match transfer {
        HdrTransfer::Pq => [9u8, 16, 0, 1],
        HdrTransfer::Hlg => [9u8, 18, 0, 1],
    };
    let kind: [u8; 4] = [99u8, 73, 67, 80];
    assert(cicp@ =~= cicp_of(transfer));
    assert(kind@ =~= cicp_kind());
    let data = match transfer {
        HdrTransfer::Pq => to_big_endian(s.as_slice()),
        HdrTransfer::Hlg => to_big_endian(transcoded(s.as_slice(), table).as_slice()),
    };
    match write_png16(bitmap.width, bitmap.height, kind, cicp, data.as_slice()) {
        None => {
            assert(bitmap.width == 0 || bitmap.height == 0);
            Err(HdrPngError::Empty)
        },
        Some(v) => {
            proof {
                lemma_cicp_found(v@, cicp@);
            }
            Ok(v)
        },
    }
}

// ---- reading back -------------------------------------------------------------------------

/// What a `cICP` chunk says.
#[derive(Clone, Copy, PartialEq, Eq, Structural, Debug)]
pub struct CicpInfo {
    pub colour_primaries: u8,
    pub transfer: u8,
    pub matrix: u8,
    pub full_range: u8,
}

impl CicpInfo {
    /// Whether the transfer function is an HDR one: PQ or HLG.
    pub fn is_hdr(&self) -> (r: bool)
        ensures
            r == (self.transfer == 16 || self.transfer == 18),
    {
        self.transfer == 16 || self.transfer == 18
    }
}

pub open spec fn cicp_kind() -> Seq<u8> {
    seq![99u8, 73, 67, 80]
}

pub open spec fn idat_kind() -> Seq<u8> {
    seq![73u8, 68, 65, 84]
}

pub open spec fn iend_kind() -> Seq<u8> {
    seq![73u8, 69, 78, 68]
}

/// The big-endian word that begins at `o`.
pub open spec fn be32(raw: Seq<u8>, o: int) -> u32 {
    (raw[o] * 16_777_216 + raw[o + 1] * 65536 + raw[o + 2] * 256 + raw[o + 3]) as u32
}

/// What the chunks from `i` on say: the first `cICP` chunk before the picture's
/// data, where it is whole and has its four bytes.
pub open spec fn cicp_from(bytes: Seq<u8>, i: int) -> Option<CicpInfo>
    decreases bytes.len() - i,
{
    if i < 0 || i + 12 > bytes.len() {
        None
    } else {
        let len = be32(bytes, i) as int;
        let kind = bytes.subrange(i + 4, i + 8);
        if i + 12 + len > bytes.len() {
            None
        } else if kind == cicp_kind() {
            if len < 4 {
                None
            } else {
                Some(
                    CicpInfo {
                        colour_primaries: bytes[i + 8],
                        transfer: bytes[i + 9],
                        matrix: bytes[i + 10],
                        full_range: bytes[i + 11],
                    },
                )
            }
        } else if kind == idat_kind() || kind == iend_kind() {
            None
        } else {
            cicp_from(bytes, i + 12 + len)
        }
    }
}

/// What the `cICP` chunk of a PNG says, if it is a PNG that has one.
pub open spec fn find_cicp(bytes: Seq<u8>) -> Option<CicpInfo> {
    if bytes.len() < 8 || bytes.subrange(0, 8) != png_signature() {
        None
    } else {
        cicp_from(bytes, 8)
    }
}

fn is_kind(bytes: &[u8], o: usize, a: u8, b: u8, c: u8, d: u8) -> (r: bool)
    requires
        o + 4 <= bytes@.len(),
        bytes@.len() <= usize::MAX,
    ensures
        r == (bytes@.subrange(o as int, o + 4) == seq![a, b, c, d]),
{
    let r = bytes[o] == a && bytes[o + 1] == b && bytes[o + 2] == c && bytes[o + 3] == d;
    proof {
        let s = bytes@.subrange(o as int, o + 4);
        assert(s[0] == bytes@[o as int] && s[1] == bytes@[o + 1] && s[2] == bytes@[o + 2] && s[3]
            == bytes@[o + 3]);
        if r {
            assert(s =~= seq![a, b, c, d]);
        }
    }
    r
}

/// Looks for the `cICP` chunk of a PNG.
pub fn parse_cicp(bytes: &[u8]) -> (r: Option<CicpInfo>)
    ensures
        r == find_cicp(bytes@),
{
    let n: usize = bytes.len();
    if n < 8 {
        return None;
    }
    if !(is_kind(bytes, 0, 137, 80, 78, 71) && is_kind(bytes, 4, 13, 10, 26, 10)) {
        proof {
            if bytes@.subrange(0, 8) == png_signature() {
                assert(bytes@.subrange(0, 4) =~= bytes@.subrange(0, 8).subrange(0, 4));
                assert(bytes@.subrange(4, 8) =~= bytes@.subrange(0, 8).subrange(4, 8));
                assert(png_signature().subrange(0, 4) =~= seq![137u8, 80, 78, 71]);
                assert(png_signature().subrange(4, 8) =~= seq![13u8, 10, 26, 10]);
            }
        }
        return None;
    }
    assert(bytes@.subrange(0, 8) =~= bytes@.subrange(0, 4) + bytes@.subrange(4, 8));
    assert(png_signature() =~= seq![137u8, 80, 78, 71] + seq![13u8, 10, 26, 10]);
    let mut i: usize = 8;
    while n >= 12 && i <= n - 12
        invariant
            n == bytes@.len(),
            8 <= i <= n,
            find_cicp(bytes@) == cicp_from(bytes@, i as int),
        decreases n - i,
    {
        let len: usize = (bytes[i] as u32 * 16_777_216 + bytes[i + 1] as u32 * 65536 + bytes[i + 2]
            as u32 * 256 + bytes[i + 3] as u32) as usize;
        if len > n - i - 12 {
            return None;
        }
        if is_kind(bytes, i + 4, 99, 73, 67, 80) {
            if len < 4 {
                return None;
            }
            return Some(
                CicpInfo {
                    colour_primaries: bytes[i + 8],
                    transfer: bytes[i + 9],
                    matrix: bytes[i + 10],
                    full_range: bytes[i + 11],
                },
            );
        }
        if is_kind(bytes, i + 4, 73, 68, 65, 84) || is_kind(bytes, i + 4, 73, 69, 78, 68) {
            return None;
        }
        i = i + 12 + len;
    }
    None
}

/// A PNG whose header is followed by a `cICP` chunk answers with that chunk.
pub proof fn lemma_cicp_found(v: Seq<u8>, cicp: Seq<u8>)
    requires
        cicp.len() == 4,
        begins_with(v, cicp_kind(), cicp),
    ensures
        find_cicp(v) == Some(
            CicpInfo {
                colour_primaries: cicp[0],
                transfer: cicp[1],
                matrix: cicp[2],
                full_range: cicp[3],
            },
        ),
{
    assert(seq![73u8, 72, 68, 82][1] == 72);
    assert(cicp_kind()[1] == 73);
    assert(idat_kind()[1] == 68);
    assert(iend_kind()[1] == 69);
    assert(cicp_from(v, 8) == cicp_from(v, 33));
    assert(v.subrange(41, 45)[0] == v[41] && v.subrange(41, 45)[1] == v[42] && v.subrange(
        41,
        45,
    )[2] == v[43] && v.subrange(41, 45)[3] == v[44]);
}

// ---- laws ---------------------------------------------------------------------------------

proof fn lemma_fields_of_word(w: int, red: int, green: int, blue: int, alpha: int)
    requires
        0 <= red < 1024,
        0 <= green < 1024,
        0 <= blue < 1024,
        0 <= alpha < 4,
        w == red + green * 1024 + blue * 1_048_576 + alpha * 1_073_741_824,
    ensures
        w % 1024 == red,
        (w / 1024) % 1024 == green,
        (w / 1_048_576) % 1024 == blue,
        w / 1_073_741_824 == alpha,
{
    let two = blue + alpha * 1024;
    let one = green + two * 1024;
    vstd::arithmetic::div_mod::lemma_fundamental_div_mod_converse(w, 1024, one, red);
    vstd::arithmetic::div_mod::lemma_fundamental_div_mod_converse(one, 1024, two, green);
    vstd::arithmetic::div_mod::lemma_fundamental_div_mod_converse(
        w,
        1_048_576,
        two,
        red + green * 1024,
    );
    vstd::arithmetic::div_mod::lemma_fundamental_div_mod_converse(two, 1024, alpha, blue);
    vstd::arithmetic::div_mod::lemma_fundamental_div_mod_converse(
        w,
        1_073_741_824,
        alpha,
        red + green * 1024 + blue * 1_048_576,
    );
}

proof fn lemma_widened_share(v: int)
    requires
        0 <= v < 1024,
    ensures
        0 <= widen10(v) < 65536,
        -1023 <= widen10(v) * 1023 - v * 65535 <= 1023,
        widen10(v) / 64 == v,
        v == 1023 ==> widen10(v) == 65535,
{
}

/// Red lies in the lowest ten bits of a packed word, then green, then blue, and
/// alpha in the two bits on top. Each keeps its share of the full range, to within
/// one step of the ten bits; alpha keeps it exactly.
pub proof fn lemma_packed_pixel_is_red_green_blue_alpha(
    red: int,
    green: int,
    blue: int,
    alpha: int,
    word: u32,
    r: [u16; 4],
)
    requires
        0 <= red < 1024,
        0 <= green < 1024,
        0 <= blue < 1024,
        0 <= alpha < 4,
        word == red + green * 1024 + blue * 1_048_576 + alpha * 1_073_741_824,
        call_ensures(unpack_rgb10a2, (word,), r),
    ensures
        -1023 <= r@[0] * 1023 - red * 65535 <= 1023,
        -1023 <= r@[1] * 1023 - green * 65535 <= 1023,
        -1023 <= r@[2] * 1023 - blue * 65535 <= 1023,
        r@[0] / 64 == red,
        r@[1] / 64 == green,
        r@[2] / 64 == blue,
        r@[3] * 3 == alpha * 65535,
        red == 1023 ==> r@[0] == 65535,
        green == 1023 ==> r@[1] == 65535,
        blue == 1023 ==> r@[2] == 65535,
{
    lemma_fields_of_word(word as int, red, green, blue, alpha);
    lemma_widened_share(red);
    lemma_widened_share(green);
    lemma_widened_share(blue);
    assert(r@[0] == widen10(red));
    assert(r@[1] == widen10(green));
    assert(r@[2] == widen10(blue));
    assert(r@[3] == alpha * 21845);
}

/// The samples of a packed picture are those of its words, each of which is four
/// bytes with the lowest first.
pub proof fn lemma_words_are_unpacked_in_order(
    raw: &[u8],
    n: usize,
    r: Vec<u16>,
    k: int,
    word: u32,
    c: [u16; 4],
)
    requires
        n * 4 <= raw@.len(),
        call_ensures(unpack_all, (raw, n), r),
        0 <= k < n,
        word == raw@[k * 4] + raw@[k * 4 + 1] * 256 + raw@[k * 4 + 2] * 65536 + raw@[k * 4 + 3]
            * 16_777_216,
        call_ensures(unpack_rgb10a2, (word,), c),
    ensures
        r@.len() == n * 4,
        r@[k * 4] == c@[0],
        r@[k * 4 + 1] == c@[1],
        r@[k * 4 + 2] == c@[2],
        r@[k * 4 + 3] == c@[3],
{
    assert(le32(raw@, k * 4) == word);
    assert((k * 4) / 4 == k && (k * 4 + 1) / 4 == k && (k * 4 + 2) / 4 == k && (k * 4 + 3) / 4
        == k);
    assert((k * 4) % 4 == 0 && (k * 4 + 1) % 4 == 1 && (k * 4 + 2) % 4 == 2 && (k * 4 + 3) % 4
        == 3);
}

/// The bytes hold the samples, two to each, the higher byte first.
pub open spec fn holds_samples(data: Seq<u8>, s: Seq<u16>) -> bool {
    data.len() == s.len() * 2 && forall|i: int|
        0 <= i < s.len() ==> #[trigger] s[i] == data[i * 2] * 256 + data[i * 2 + 1]
}

proof fn lemma_big_endian_holds(s: Seq<u16>)
    ensures
        holds_samples(big_endian(s), s),
{
    let data = big_endian(s);
    assert forall|i: int| 0 <= i < s.len() implies #[trigger] s[i] == data[i * 2] * 256 + data[i * 2
        + 1] by {
        assert((i * 2) / 2 == i && (i * 2 + 1) / 2 == i);
        assert((i * 2) % 2 == 0 && (i * 2 + 1) % 2 == 1);
        assert(data[i * 2] == s[i] / 256);
        assert(data[i * 2 + 1] == s[i] % 256);
    }
}

/// What is written of an HDR10 picture under PQ are its own samples, in a file
/// whose `cICP` chunk names PQ and the primaries of BT.2020.
pub proof fn lemma_pq_is_written_as_it_is(
    bitmap: HdrBitmap,
    table: &[u16],
    v: Vec<u8>,
    raw: &[u8],
    n: usize,
    s: Vec<u16>,
)
    requires
        call_ensures(encode_hdr_png, (&bitmap, HdrTransfer::Pq, table), Ok(v)),
        raw@ == bitmap.data@,
        n == bitmap.width * bitmap.height,
        call_ensures(unpack_all, (raw, n), s),
    ensures
        exists|data: Seq<u8>|
            v@ == png_rgba16(
                bitmap.width,
                bitmap.height,
                seq![99u8, 73, 67, 80],
                seq![9u8, 16, 0, 1],
                data,
            ) && #[trigger] holds_samples(data, s@),
{
    let data = big_endian(s@);
    lemma_big_endian_holds(s@);
    assert(v@ == png_rgba16(
        bitmap.width,
        bitmap.height,
        seq![99u8, 73, 67, 80],
        seq![9u8, 16, 0, 1],
        data,
    ));
}

/// What is written under HLG are the entries of the table for the colours of the
/// picture, with its alpha as it is, in a file whose `cICP` chunk names HLG.
pub proof fn lemma_hlg_is_written_by_the_table(
    bitmap: HdrBitmap,
    table: &[u16],
    v: Vec<u8>,
    raw: &[u8],
    n: usize,
    s: Vec<u16>,
)
    requires
        call_ensures(encode_hdr_png, (&bitmap, HdrTransfer::Hlg, table), Ok(v)),
        raw@ == bitmap.data@,
        n == bitmap.width * bitmap.height,
        call_ensures(unpack_all, (raw, n), s),
    ensures
        exists|data: Seq<u8>, t: Seq<u16>|
            v@ == png_rgba16(
                bitmap.width,
                bitmap.height,
                seq![99u8, 73, 67, 80],
                seq![9u8, 18, 0, 1],
                data,
            ) && #[trigger] holds_samples(data, t) && t.len() == s@.len() && forall|k: int|
                0 <= k < s@.len() ==> #[trigger] t[k] == (if k % 4 < 3 {
                    table@[s@[k] as int]
                } else {
                    s@[k]
                }),
{
    let t = transcode(s@, table@);
    let data = big_endian(t);
    lemma_big_endian_holds(t);
    assert(v@ == png_rgba16(
        bitmap.width,
        bitmap.height,
        seq![99u8, 73, 67, 80],
        seq![9u8, 18, 0, 1],
        data,
    ));
}

/// A picture is written where it is an HDR10 one, has both sides and holds four
/// bytes for each pixel, and nowhere else.
pub proof fn lemma_whole_hdr10_pictures_are_written(
    bitmap: HdrBitmap,
    transfer: HdrTransfer,
    table: &[u16],
    r: Result<Vec<u8>, HdrPngError>,
)
    requires
        call_ensures(encode_hdr_png, (&bitmap, transfer, table), r),
        bitmap.data@.len() <= usize::MAX,
    ensures
        r is Ok <==> bitmap.format == HdrFormat::Hdr10 && bitmap.width > 0 && bitmap.height > 0
            && bitmap.data@.len() >= bitmap.width * bitmap.height * 4,
        r == Err::<Vec<u8>, HdrPngError>(HdrPngError::ScRgb) <==> bitmap.format == HdrFormat::ScRgb,
        r == Err::<Vec<u8>, HdrPngError>(HdrPngError::Hlg) <==> bitmap.format == HdrFormat::Hlg,
        r == Err::<Vec<u8>, HdrPngError>(HdrPngError::Sdr) <==> bitmap.format == HdrFormat::Sdr,
{
}

/// The bytes begin like a PNG whose header is followed by a `cICP` chunk of four
/// bytes.
pub open spec fn has_marked_header(bytes: Seq<u8>) -> bool {
    &&& bytes.len() >= 49
    &&& bytes.subrange(0, 8) == seq![137u8, 80, 78, 71, 13, 10, 26, 10]
    &&& bytes.subrange(8, 16) == seq![0u8, 0, 0, 13, 73, 72, 68, 82]
    &&& bytes.subrange(33, 41) == seq![0u8, 0, 0, 4, 99, 73, 67, 80]
}

/// The chunk behind the header is read: its first byte names the primaries, its
/// second the transfer, and then come the matrix and the range.
pub proof fn lemma_mark_behind_the_header_is_read(bytes: &[u8], r: Option<CicpInfo>)
    requires
        has_marked_header(bytes@),
        call_ensures(parse_cicp, (bytes,), r),
    ensures
        r matches Some(info) && info.colour_primaries == bytes@[41] && info.transfer == bytes@[42]
            && info.matrix == bytes@[43] && info.full_range == bytes@[44],
{
    let v = bytes@;
    let cicp = v.subrange(41, 45);
    let head = v.subrange(8, 16);
    let mark = v.subrange(33, 41);
    assert(v[8] == head[0] && v[9] == head[1] && v[10] == head[2] && v[11] == head[3]);
    assert(v[33] == mark[0] && v[34] == mark[1] && v[35] == mark[2] && v[36] == mark[3]);
    assert(v.subrange(12, 16) =~= head.subrange(4, 8));
    assert(head.subrange(4, 8) =~= seq![73u8, 72, 68, 82]);
    assert(v.subrange(37, 41) =~= mark.subrange(4, 8));
    assert(mark.subrange(4, 8) =~= cicp_kind());
    assert(be32(v, 8) == 13);
    assert(be32(v, 33) == 4);
    lemma_cicp_found(v, cicp);
}

/// Bytes that do not begin like a PNG say nothing of their colours.
pub proof fn lemma_only_pngs_are_read(bytes: &[u8], r: Option<CicpInfo>)
    requires
        call_ensures(parse_cicp, (bytes,), r),
        r is Some,
    ensures
        bytes@.len() >= 20,
        bytes@.take(8) == seq![137u8, 80, 78, 71, 13, 10, 26, 10],
{
    assert(bytes@.take(8) =~= bytes@.subrange(0, 8));
}

} // verus!
