//! Pictures of the installer's window, as PNG files.

use vstd::prelude::*;

verus! {

// ---- checksums -------------------------------------------------------------------------------

/// One step of the division by the polynomial.
pub open spec fn step(c: u32) -> u32 {
    if c & 1 != 0 {
        0xEDB88320 ^ (c >> 1)
    } else {
        c >> 1
    }
}

/// Eight steps, which take in one byte.
pub open spec fn byte_steps(c: u32) -> u32 {
    step(step(step(step(step(step(step(step(c))))))))
}

/// The remainder once the bytes were taken in, from a remainder of all ones.
pub open spec fn remainder(bytes: Seq<u8>) -> u32
    decreases bytes.len(),
{
    if bytes.len() == 0 {
        0xFFFF_FFFF
    } else {
        byte_steps(remainder(bytes.drop_last()) ^ (bytes.last() as u32))
    }
}

/// The CRC-32 of the bytes.
pub open spec fn crc(bytes: Seq<u8>) -> u32 {
    remainder(bytes) ^ 0xFFFF_FFFF
}

fn one_step(c: u32) -> (r: u32)
    ensures
        r == step(c),
{
    if c & 1 != 0 {
        0xEDB88320 ^ (c >> 1)
    } else {
        c >> 1
    }
}

fn table() -> (t: Vec<u32>)
    ensures
        t@.len() == 256,
        forall|n: int| 0 <= n < 256 ==> #[trigger] t@[n] == byte_steps(n as u32),
{
    let mut t: Vec<u32> = Vec::new();
    for n in 0..256u32
        invariant
            t@.len() == n,
            forall|k: int| 0 <= k < n ==> #[trigger] t@[k] == byte_steps(k as u32),
    {
        let a: u32 = one_step(one_step(one_step(one_step(n))));
        t.push(one_step(one_step(one_step(one_step(a)))));
    }
    t
}

proof fn lemma_by_table(c: u32)
    ensures
        byte_steps(c) == byte_steps(c & 0xff) ^ (c >> 8),
        (c & 0xff) < 256,
{
    assert(byte_steps(c) == byte_steps(c & 0xff) ^ (c >> 8)) by (bit_vector);
    assert((c & 0xff) < 256) by (bit_vector);
}

proof fn lemma_byte_keeps_high_bits(c: u32, b: u8)
    ensures
        (c ^ (b as u32)) >> 8 == c >> 8,
{
    assert((c ^ (b as u32)) >> 8 == c >> 8) by (bit_vector);
}

/// The CRC-32 of the bytes, by a table of the remainders of single bytes.
pub fn crc32(bytes: &[u8]) -> (r: u32)
    ensures
        r == crc(bytes@),
{
    let t = table();
    let n: usize = bytes.len();
    let mut c: u32 = 0xFFFF_FFFF;
    assert(bytes@.take(0) =~= Seq::<u8>::empty());
    for i in 0..n
        invariant
            n == bytes@.len(),
            t@.len() == 256,
            forall|k: int| 0 <= k < 256 ==> #[trigger] t@[k] == byte_steps(k as u32),
            c == remainder(bytes@.take(i as int)),
    {
        assert(bytes@.take(i + 1).drop_last() =~= bytes@.take(i as int));
        assert(bytes@.take(i + 1).last() == bytes@[i as int]);
        let x: u32 = c ^ (bytes[i] as u32);
        proof {
            lemma_by_table(x);
            lemma_byte_keeps_high_bits(c, bytes@[i as int]);
        }
        let k: usize = (x & 0xff) as usize;
        assert(t@[k as int] == byte_steps(x & 0xff));
        c = t[k] ^ (c >> 8);
    }
    assert(bytes@.take(n as int) =~= bytes@);
    c ^ 0xFFFF_FFFF
}

// ---- chunks ----------------------------------------------------------------------------------

/// The four bytes of a number, the highest first.
pub open spec fn be(n: u32) -> Seq<u8> {
    seq![
        (n / 0x100_0000) as u8,
        (n / 0x1_0000 % 0x100) as u8,
        (n / 0x100 % 0x100) as u8,
        (n % 0x100) as u8,
    ]
}

/// A chunk: the length of its data, its kind, the data, and the checksum of the
/// last two.
pub open spec fn chunk(kind: Seq<u8>, data: Seq<u8>) -> Seq<u8> {
    be(data.len() as u32) + kind + data + be(crc(kind + data))
}

fn push_be(out: &mut Vec<u8>, n: u32)
    ensures
        final(out)@ == old(out)@ + be(n),
{
    let a: u8 = (n / 0x100_0000) as u8;
    let b: u8 = (n / 0x1_0000 % 0x100) as u8;
    let c: u8 = (n / 0x100 % 0x100) as u8;
    let d: u8 = (n % 0x100) as u8;
    out.push(a);
    out.push(b);
    out.push(c);
    out.push(d);
    assert(out@ =~= old(out)@ + be(n));
}

fn push_bytes(out: &mut Vec<u8>, bytes: &[u8])
    ensures
        final(out)@ == old(out)@ + bytes@,
{
    let n: usize = bytes.len();
    for i in 0..n
        invariant
            n == bytes@.len(),
            out@ == old(out)@ + bytes@.take(i as int),
    {
        assert(bytes@.take(i + 1) =~= bytes@.take(i as int).push(bytes@[i as int]));
        out.push(bytes[i]);
        assert(out@ =~= old(out)@ + bytes@.take(i + 1));
    }
    assert(bytes@.take(n as int) =~= bytes@);
}

fn push_chunk(out: &mut Vec<u8>, kind: &[u8], data: &[u8])
    ensures
        final(out)@ == old(out)@ + chunk(kind@, data@),
{
    let n: usize = data.len();
    push_be(out, n as u32);
    push_bytes(out, kind);
    push_bytes(out, data);
    let mut checked: Vec<u8> = Vec::new();
    push_bytes(&mut checked, kind);
    push_bytes(&mut checked, data);
    assert(checked@ =~= kind@ + data@);
    let c: u32 = crc32(&checked);
    push_be(out, c);
    assert(out@ =~= old(out)@ + chunk(kind@, data@));
}

// ---- files -----------------------------------------------------------------------------------

/// The rows of the picture as they are compressed: each behind a zero, which says
/// that its bytes stand as they are.
pub open spec fn rows(rgba: Seq<u8>, width: u32, height: int) -> Seq<u8>
    decreases height,
{
    if height <= 0 {
        Seq::empty()
    } else {
        rows(rgba, width, height - 1) + seq![0u8] + rgba.subrange(
            (height - 1) * (width * 4),
            height * (width * 4),
        )
    }
}

proof fn lemma_row_lies_inside(y: int, height: int, row: int, len: int)
    requires
        0 <= y < height,
        0 <= row,
        height * row <= len,
    ensures
        0 <= y * row,
        y * row + row == (y + 1) * row,
        (y + 1) * row <= len,
        row <= len,
{
    assert(y * row + row == (y + 1) * row && (y + 1) * row <= height * row && 0 <= y * row && row
        <= (y + 1) * row) by (nonlinear_arith)
        requires
            0 <= y < height,
            0 <= row,
    ;
}

fn filtered(rgba: &[u8], width: u32, height: u32) -> (r: Vec<u8>)
    requires
        rgba@.len() == height * (width * 4),
    ensures
        r@ == rows(rgba@, width, height as int),
{
    let mut raw: Vec<u8> = Vec::new();
    let len: usize = rgba.len();
    let mut at: usize = 0;
    assert(raw@ =~= rows(rgba@, width, 0));
    for y in 0..height
        invariant
            len == rgba@.len(),
            rgba@.len() == height * (width * 4),
            at == y * (width * 4),
            raw@ == rows(rgba@, width, y as int),
    {
        proof {
            lemma_row_lies_inside(y as int, height as int, width * 4, len as int);
        }
        let row: usize = width as usize * 4;
        raw.push(0);
        push_bytes(&mut raw, vstd::slice::slice_subrange(rgba, at, at + row));
        assert(raw@ =~= rows(rgba@, width, y + 1));
        at = at + row;
    }
    raw
}

/// The bytes compressed with a zlib header, by the `miniz_oxide` crate.
pub uninterp spec fn zlib_of(bytes: Seq<u8>, level: u8) -> Seq<u8>;

/// `miniz_oxide::deflate::compress_to_vec_zlib`: the bytes compressed, a function
/// of them and the level alone.
#[verifier::external_body]
fn zlib(bytes: &[u8], level: u8) -> (r: Vec<u8>)
    requires
        level <= 10,
    ensures
        r@ == zlib_of(bytes@, level),
{
    miniz_oxide::deflate::compress_to_vec_zlib(bytes, level)
}

/// The file of a picture whose rows were compressed.
pub open spec fn file_of(width: u32, height: u32, idat: Seq<u8>) -> Seq<u8> {
    seq![137u8, 80, 78, 71, 13, 10, 26, 10] + chunk(
        seq![73u8, 72, 68, 82],
        be(width) + be(height) + seq![8u8, 6, 0, 0, 0],
    ) + chunk(seq![73u8, 68, 65, 84], idat) + chunk(seq![73u8, 69, 78, 68], Seq::empty())
}

/// The file of a picture whose rows were compressed: the signature, the header,
/// the rows and the end.
pub fn png_file(width: u32, height: u32, idat: &[u8]) -> (r: Vec<u8>)
    ensures
        r@ == file_of(width, height, idat@),
{
    let mut png: Vec<u8> = vec![137u8, 80, 78, 71, 13, 10, 26, 10];
    assert(png@ =~= seq![137u8, 80, 78, 71, 13, 10, 26, 10]);
    let mut ihdr: Vec<u8> = Vec::new();
    push_be(&mut ihdr, width);
    push_be(&mut ihdr, height);
    ihdr.push(8);
    ihdr.push(6);
    ihdr.push(0);
    ihdr.push(0);
    ihdr.push(0);
    assert(ihdr@ =~= be(width) + be(height) + seq![8u8, 6, 0, 0, 0]);
    let kind: Vec<u8> = vec![73u8, 72, 68, 82];
    assert(kind@ =~= seq![73u8, 72, 68, 82]);
    push_chunk(&mut png, &kind, &ihdr);
    let kind: Vec<u8> = vec![73u8, 68, 65, 84];
    assert(kind@ =~= seq![73u8, 68, 65, 84]);
    push_chunk(&mut png, &kind, idat);
    let kind: Vec<u8> = vec![73u8, 69, 78, 68];
    assert(kind@ =~= seq![73u8, 69, 78, 68]);
    let none: Vec<u8> = Vec::new();
    assert(none@ =~= Seq::<u8>::empty());
    push_chunk(&mut png, &kind, &none);
    png
}

/// The file of a picture.
pub fn write_png(width: u32, height: u32, rgba: &[u8]) -> (r: Vec<u8>)
    requires
        rgba@.len() == height * (width * 4),
    ensures
        r@ == file_of(width, height, zlib_of(rows(rgba@, width, height as int), 6)),
{
    let raw = filtered(rgba, width, height);
    let idat = zlib(&raw, 6);
    png_file(width, height, &idat)
}

/// The pixel at place `i` is the one there with blue first, now with red first
/// and opaque.
pub open spec fn turned(bgra: Seq<u8>, rgba: Seq<u8>, i: int) -> bool {
    &&& rgba[i * 4] == bgra[i * 4 + 2]
    &&& rgba[i * 4 + 1] == bgra[i * 4 + 1]
    &&& rgba[i * 4 + 2] == bgra[i * 4]
    &&& rgba[i * 4 + 3] == 255
}

/// The pixels of a picture that stand with blue first, with red first and
/// opaque.
pub fn opaque_rgba(bgra: &[u8]) -> (r: Vec<u8>)
    ensures
        r@.len() == bgra@.len() / 4 * 4,
        forall|i: int| 0 <= i < bgra@.len() / 4 ==> #[trigger] turned(bgra@, r@, i),
{
    let len: usize = bgra.len();
    let n: usize = len / 4;
    let mut out: Vec<u8> = Vec::new();
    for i in 0..n
        invariant
            len == bgra@.len(),
            n == len / 4,
            out@.len() == i * 4,
            forall|k: int| 0 <= k < i ==> #[trigger] turned(bgra@, out@, k),
    {
        let ghost before = out@;
        out.push(bgra[i * 4 + 2]);
        out.push(bgra[i * 4 + 1]);
        out.push(bgra[i * 4]);
        out.push(255);
        assert forall|k: int| 0 <= k < i + 1 implies #[trigger] turned(bgra@, out@, k) by {
            if k < i {
                assert(turned(bgra@, before, k));
            }
        }
    }
    out
}

// ---- laws --------------------------------------------------------------------------------------

/// A pixel with blue first comes out with red first, and opaque.
pub proof fn lemma_blue_first_becomes_red_first(bgra: &[u8], r: Vec<u8>, i: int)
    requires
        call_ensures(opaque_rgba, (bgra,), r),
        0 <= i,
        i * 4 + 4 <= bgra@.len(),
    ensures
        r@.len() <= bgra@.len(),
        r@[i * 4] == bgra@[i * 4 + 2],
        r@[i * 4 + 1] == bgra@[i * 4 + 1],
        r@[i * 4 + 2] == bgra@[i * 4],
        r@[i * 4 + 3] == 255,
{
    assert(turned(bgra@, r@, i));
}

/// The number in the four bytes from `o` on, the highest first.
pub open spec fn number_at(v: Seq<u8>, o: int) -> int {
    v[o] * 0x100_0000 + v[o + 1] * 0x1_0000 + v[o + 2] * 0x100 + v[o + 3]
}

proof fn lemma_be(n: u32)
    ensures
        be(n).len() == 4,
        number_at(be(n), 0) == n,
{
    let a = n as int / 0x100_0000;
    let b = n as int / 0x1_0000 % 0x100;
    let c = n as int / 0x100 % 0x100;
    let d = n as int % 0x100;
    assert(a * 0x100_0000 + b * 0x1_0000 + c * 0x100 + d == n);
    assert(be(n)[0] == a && be(n)[1] == b && be(n)[2] == c && be(n)[3] == d);
}

/// A file begins with the signature and a header of 13 bytes that says how wide
/// and high the picture is, at eight bits for each of red, green, blue and alpha.
/// Behind it stand the compressed rows under the name `IDAT`, and the file ends
/// with an empty chunk under the name `IEND`.
#[verifier::rlimit(40)]
pub proof fn lemma_file_has_three_chunks(width: u32, height: u32, idat: &[u8], v: Vec<u8>)
    requires
        call_ensures(png_file, (width, height, idat), v),
        idat@.len() <= u32::MAX,
    ensures
        v@.len() == idat@.len() + 57,
        v@.take(8) == seq![137u8, 80, 78, 71, 13, 10, 26, 10],
        number_at(v@, 8) == 13,
        v@.subrange(12, 16) == seq![73u8, 72, 68, 82],
        number_at(v@, 16) == width,
        number_at(v@, 20) == height,
        v@.subrange(24, 29) == seq![8u8, 6, 0, 0, 0],
        number_at(v@, 33) == idat@.len(),
        v@.subrange(37, 41) == seq![73u8, 68, 65, 84],
        v@.subrange(41, (41 + idat@.len()) as int) == idat@,
        v@.subrange(v@.len() - 8, v@.len() - 4) == seq![73u8, 69, 78, 68],
{
    let head = be(width) + be(height) + seq![8u8, 6, 0, 0, 0];
    let ihdr = seq![73u8, 72, 68, 82];
    let idat_kind = seq![73u8, 68, 65, 84];
    let iend = seq![73u8, 69, 78, 68];
    lemma_be(width);
    lemma_be(height);
    lemma_be(13);
    lemma_be(idat@.len() as u32);
    lemma_be(0);
    lemma_be(crc(ihdr + head));
    lemma_be(crc(idat_kind + idat@));
    lemma_be(crc(iend + Seq::<u8>::empty()));
    let sig = seq![137u8, 80, 78, 71, 13, 10, 26, 10];
    let one = chunk(ihdr, head);
    let two = chunk(idat_kind, idat@);
    let three = chunk(iend, Seq::<u8>::empty());
    assert(head.len() == 13);
    assert(one.len() == 25);
    assert(two.len() == idat@.len() + 12);
    assert(three.len() == 12);
    assert(v@ == sig + one + two + three);
    assert(v@.take(8) =~= sig);
    assert(v@.subrange(8, 33) =~= one);
    assert(v@.subrange(33, (45 + idat@.len()) as int) =~= two);
    assert(v@.subrange(v@.len() - 12, v@.len() as int) =~= three);
    assert(one.subrange(0, 4) =~= be(13));
    assert(v@[8] == one[0] && v@[9] == one[1] && v@[10] == one[2] && v@[11] == one[3]);
    assert(one[0] == be(13)[0] && one[1] == be(13)[1] && one[2] == be(13)[2] && one[3] == be(13)[3]);
    assert(v@.subrange(12, 16) =~= ihdr);
    assert(v@.subrange(16, 29) =~= head);
    assert(v@[16] == be(width)[0] && v@[17] == be(width)[1] && v@[18] == be(width)[2] && v@[19]
        == be(width)[3]);
    assert(v@[20] == be(height)[0] && v@[21] == be(height)[1] && v@[22] == be(height)[2] && v@[23]
        == be(height)[3]);
    assert(v@.subrange(24, 29) =~= seq![8u8, 6, 0, 0, 0]);
    let n = be(idat@.len() as u32);
    assert(v@[33] == n[0] && v@[34] == n[1] && v@[35] == n[2] && v@[36] == n[3]);
    assert(v@.subrange(37, 41) =~= idat_kind);
    assert(v@.subrange(41, (41 + idat@.len()) as int) =~= idat@);
    assert(v@.subrange(v@.len() - 8, v@.len() - 4) =~= iend);
}

proof fn lemma_rows_len(rgba: Seq<u8>, width: u32, height: int)
    requires
        0 <= height,
        rgba.len() >= height * (width * 4),
    ensures
        rows(rgba, width, height).len() == height * (width * 4 + 1),
    decreases height,
{
    if height > 0 {
        let row = width * 4;
        assert((height - 1) * row + row == height * row) by (nonlinear_arith);
        assert((height - 1) * (row + 1) + (row + 1) == height * (row + 1)) by (nonlinear_arith);
        assert(0 <= (height - 1) * row) by (nonlinear_arith)
            requires
                height >= 1,
                row >= 0,
        ;
        lemma_rows_len(rgba, width, height - 1);
    } else {
        assert(0 * (width * 4 + 1) == 0);
    }
}

proof fn lemma_row_bytes(rgba: Seq<u8>, width: u32, height: int, y: int, x: int)
    requires
        0 <= y < height,
        0 <= x < width * 4,
        rgba.len() >= height * (width * 4),
    ensures
        rows(rgba, width, height)[y * (width * 4 + 1)] == 0,
        rows(rgba, width, height)[y * (width * 4 + 1) + 1 + x] == rgba[y * (width * 4) + x],
    decreases height,
{
    let row = width * 4;
    assert((height - 1) * row + row == height * row) by (nonlinear_arith);
    assert(0 <= (height - 1) * row) by (nonlinear_arith)
        requires
            height >= 1,
            row >= 0,
    ;
    lemma_rows_len(rgba, width, height - 1);
    let before = rows(rgba, width, height - 1);
    let last = rgba.subrange((height - 1) * row, height * row);
    assert(rows(rgba, width, height) == before + seq![0u8] + last);
    if y < height - 1 {
        lemma_row_bytes(rgba, width, height - 1, y, x);
        assert(y * (row + 1) + (row + 1) <= (height - 1) * (row + 1)) by (nonlinear_arith)
            requires
                y + 1 <= height - 1,
                row >= 0,
        ;
        assert(0 <= y * (row + 1)) by (nonlinear_arith)
            requires
                y >= 0,
                row >= 0,
        ;
    } else {
        assert(before.len() == y * (row + 1));
        assert(last[x] == rgba[y * row + x]);
    }
}

/// What is compressed are the rows of the picture from the top, each behind a
/// nought, and the file is the one that holds them.
pub proof fn lemma_rows_are_written_from_the_top(
    width: u32,
    height: u32,
    rgba: &[u8],
    v: Vec<u8>,
    y: int,
    x: int,
    idat: &[u8],
    f: Vec<u8>,
)
    requires
        rgba@.len() == height * (width * 4),
        call_ensures(write_png, (width, height, rgba), v),
        0 <= y < height,
        0 <= x < width * 4,
        idat@ == zlib_of(rows(rgba@, width, height as int), 6),
        call_ensures(png_file, (width, height, idat), f),
    ensures
        v@ == f@,
        ({
            let raw = rows(rgba@, width, height as int);
            &&& raw.len() == height * (width * 4 + 1)
            &&& raw[y * (width * 4 + 1)] == 0
            &&& raw[y * (width * 4 + 1) + 1 + x] == rgba@[y * (width * 4) + x]
        }),
{
    lemma_rows_len(rgba@, width, height as int);
    lemma_row_bytes(rgba@, width, height as int, y, x);
}

} // verus!
