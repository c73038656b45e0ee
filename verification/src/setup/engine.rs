//! What the installer does: it hands the package that it carries to the system's
//! own installer, and finds what that has installed.

use vstd::prelude::*;

use crate::capture::gdi;
use crate::paths;
use crate::text;

verus! {

// ---- the package -----------------------------------------------------------------------------

/// The number in the eight bytes from `o` on, the lowest first.
pub open spec fn le64(raw: Seq<u8>, o: int) -> int {
    raw[o] + raw[o + 1] * 0x100 + raw[o + 2] * 0x1_0000 + raw[o + 3] * 0x100_0000 + raw[o + 4]
        * 0x1_0000_0000 + raw[o + 5] * 0x100_0000_0000 + raw[o + 6] * 0x1_0000_0000_0000 + raw[o
        + 7] * 0x100_0000_0000_0000
}

fn read_le64(raw: &[u8]) -> (n: u64)
    requires
        raw@.len() >= 8,
    ensures
        n == le64(raw@, 0),
{
    raw[0] as u64 + raw[1] as u64 * 0x100 + raw[2] as u64 * 0x1_0000 + raw[3] as u64 * 0x100_0000
        + raw[4] as u64 * 0x1_0000_0000 + raw[5] as u64 * 0x100_0000_0000 + raw[6] as u64
        * 0x1_0000_0000_0000 + raw[7] as u64 * 0x100_0000_0000_0000
}

/// Whether a package is carried: its length, which is not zero, and its bytes.
pub fn has_payload(blob: &[u8]) -> (r: bool)
    ensures
        r == (blob@.len() > 8 && le64(blob@, 0) > 0),
{
    blob.len() > 8 && read_le64(blob) > 0
}

/// What deflated bytes hold, by the `miniz_oxide` crate, or what it says of bytes
/// that cannot be inflated.
pub uninterp spec fn inflated(bytes: Seq<u8>) -> Result<Seq<u8>, Seq<char>>;

/// The first bytes hold the second ones.
pub open spec fn inflates_to(bytes: Seq<u8>, raw: Seq<u8>) -> bool {
    inflated(bytes) == Ok::<Seq<u8>, Seq<char>>(raw)
}

/// The bytes deflated, by the `miniz_oxide` crate.
pub uninterp spec fn deflated(bytes: Seq<u8>, level: u8) -> Seq<u8>;

/// `miniz_oxide::inflate::decompress_to_vec`: what the bytes hold, or the `Debug`
/// text of the error, a function of the bytes alone.
#[verifier::external_body]
fn inflate(bytes: &[u8]) -> (r: Result<Vec<u8>, String>)
    ensures
        text::bytes_or_words(r) == inflated(bytes@),
{
    match miniz_oxide::inflate::decompress_to_vec(bytes) {
        Ok(raw) => Ok(raw),
        Err(e) => Err(format!("{:?}", e)),
    }
}

/// `miniz_oxide::deflate::compress_to_vec`: the bytes deflated, a function of them
/// and the level alone, from which inflating gives the bytes back.
#[verifier::external_body]
fn deflate(bytes: &[u8], level: u8) -> (r: Vec<u8>)
    requires
        level <= 10,
    ensures
        r@ == deflated(bytes@, level),
        inflates_to(r@, bytes@),
{
    miniz_oxide::deflate::compress_to_vec(bytes, level)
}

/// The package that is carried, or what is said where there is none.
pub open spec fn carried(blob: Seq<u8>) -> Result<Seq<u8>, Seq<char>> {
    if le64(blob, 0) == 0 {
        Err("this build carries no MSI (dev binary)"@)
    } else {
        match inflated(blob.skip(8)) {
            Ok(raw) => Ok(raw),
            Err(why) => Err("decompress MSI: "@ + why),
        }
    }
}

/// The package that is carried.
pub fn extract_msi(blob: &[u8]) -> (r: Result<Vec<u8>, String>)
    requires
        blob@.len() >= 8,
    ensures
        text::bytes_or_words(r) == carried(blob@),
{
    if read_le64(blob) == 0 {
        return Err("this build carries no MSI (dev binary)".to_owned());
    }
    let n: usize = blob.len();
    let rest = vstd::slice::slice_subrange(blob, 8, n);
    assert(rest@ =~= blob@.skip(8));
    match inflate(rest) {
        Ok(raw) => Ok(raw),
        Err(why) => {
            let mut s = "decompress MSI: ".to_owned();
            s.append(why.as_str());
            Err(s)
        },
    }
}

/// What the installer carries: the length of the package and its bytes, deflated;
/// or a length of zero.
pub fn pack_msi(package: Option<&[u8]>) -> (r: Vec<u8>)
    ensures
        r@.len() >= 8,
        package is None ==> r@ == Seq::new(8, |i: int| 0u8),
        package matches Some(p) ==> le64(r@, 0) == p@.len() && r@.skip(8) == deflated(p@, 8)
            && inflates_to(r@.skip(8), p@),
{
    let mut out: Vec<u8> = Vec::new();
    match package {
        None => {
            push_le64(&mut out, 0);
            assert(out@ =~= Seq::new(8, |i: int| 0u8));
            out
        },
        Some(p) => {
            let n: usize = p.len();
            push_le64(&mut out, n as u64);
            let ghost head = out@;
            let mut body = deflate(p, 8);
            let ghost packed = body@;
            out.append(&mut body);
            assert(out@.skip(8) =~= packed);
            assert(le64(out@, 0) == le64(head, 0));
            out
        },
    }
}

fn push_le64(out: &mut Vec<u8>, n: u64)
    requires
        old(out)@.len() == 0,
    ensures
        final(out)@.len() == 8,
        le64(final(out)@, 0) == n,
        n == 0 ==> forall|i: int| 0 <= i < 8 ==> final(out)@[i] == 0,
{
    let mut rest: u64 = n;
    let a0: u8 = (rest % 256) as u8;
    rest = rest / 256;
    let a1: u8 = (rest % 256) as u8;
    rest = rest / 256;
    let a2: u8 = (rest % 256) as u8;
    rest = rest / 256;
    let a3: u8 = (rest % 256) as u8;
    rest = rest / 256;
    let a4: u8 = (rest % 256) as u8;
    rest = rest / 256;
    let a5: u8 = (rest % 256) as u8;
    rest = rest / 256;
    let a6: u8 = (rest % 256) as u8;
    let a7: u8 = (rest / 256) as u8;
    out.push(a0);
    out.push(a1);
    out.push(a2);
    out.push(a3);
    out.push(a4);
    out.push(a5);
    out.push(a6);
    out.push(a7);
}

/// What is carried comes out as it was put in, unless it is empty.
pub proof fn lemma_package_is_given_back(package: Seq<u8>, blob: Seq<u8>)
    requires
        package.len() > 0,
        le64(blob, 0) == package.len(),
        inflates_to(blob.skip(8), package),
    ensures
        carried(blob) == Ok::<Seq<u8>, Seq<char>>(package),
{
}

/// The name of the file that the package is written to.
pub fn package_name(version: &str) -> (r: String)
    ensures
        r@ == "capscr-"@ + version@ + ".msi"@,
{
    let mut s = String::from_str("capscr-");
    s.append(version);
    s.append(".msi");
    s
}

// ---- the system's installer ------------------------------------------------------------------

fn push(v: &mut Vec<String>, s: &str)
    ensures
        text::texts(final(v)@) == text::texts(old(v)@).push(s@),
{
    v.push(s.to_owned());
    assert(text::texts(v@) =~= text::texts(old(v)@).push(s@));
}

/// What the system's installer is called with to install the package.
pub fn install_args(package: &str) -> (r: Vec<String>)
    ensures
        text::texts(r@) == seq!["/i"@, package@, "/qn"@, "/norestart"@],
{
    let mut v: Vec<String> = Vec::new();
    push(&mut v, "/i");
    push(&mut v, package);
    push(&mut v, "/qn");
    push(&mut v, "/norestart");
    assert(text::texts(v@) =~= seq!["/i"@, package@, "/qn"@, "/norestart"@]);
    v
}

/// What the system's installer is called with to remove the product, if it is
/// installed.
pub fn uninstall_args(product: Option<&str>) -> (r: Result<Vec<String>, String>)
    ensures
        match text::opt(product) {
            Some(p) => r matches Ok(v) && text::texts(v@) == seq![
                "/x"@,
                p,
                "/qn"@,
                "/norestart"@,
            ],
            None => r matches Err(e) && e@ == "capscr is not installed"@,
        },
{
    match product {
        None => Err("capscr is not installed".to_owned()),
        Some(p) => {
            let mut v: Vec<String> = Vec::new();
            push(&mut v, "/x");
            push(&mut v, p);
            push(&mut v, "/qn");
            push(&mut v, "/norestart");
            assert(text::texts(v@) =~= seq!["/x"@, p@, "/qn"@, "/norestart"@]);
            Ok(v)
        },
    }
}

/// What is said of the code that the system's installer ended with, or nothing
/// where it did its work. With 3010 it asks for a restart, and 1602 says that the
/// user declined.
pub open spec fn complaint(code: Option<i32>, removing: bool) -> Option<Seq<char>> {
    match code {
        Some(c) => if c == 0 || c == 3010 {
            None
        } else if c == 1602 {
            Some(
                if removing {
                    "removal was cancelled"@
                } else {
                    "installation was cancelled"@
                },
            )
        } else {
            Some("msiexec exited with code "@ + text::dec_int(c as int))
        },
        None => Some("msiexec was terminated"@),
    }
}

fn judge(code: Option<i32>, removing: bool) -> (r: Result<(), String>)
    ensures
        match complaint(code, removing) {
            None => r is Ok,
            Some(m) => r matches Err(e) && e@ == m,
        },
{
    match code {
        Some(c) => if c == 0 || c == 3010 {
            Ok(())
        } else if c == 1602 {
            if removing {
                Err("removal was cancelled".to_owned())
            } else {
                Err("installation was cancelled".to_owned())
            }
        } else {
            let mut s = String::from_str("msiexec exited with code ");
            text::push_int(&mut s, c as i64);
            Err(s)
        },
        None => Err("msiexec was terminated".to_owned()),
    }
}

/// Whether the package was installed, by the code that the system's installer
/// ended with.
pub fn install(code: Option<i32>) -> (r: Result<(), String>)
    ensures
        match complaint(code, false) {
            None => r is Ok,
            Some(m) => r matches Err(e) && e@ == m,
        },
{
    judge(code, false)
}

/// Whether the product was removed, by the code that the system's installer ended
/// with.
pub fn uninstall(code: Option<i32>) -> (r: Result<(), String>)
    ensures
        match complaint(code, true) {
            None => r is Ok,
            Some(m) => r matches Err(e) && e@ == m,
        },
{
    judge(code, true)
}

// ---- what is installed -----------------------------------------------------------------------

/// The text in a value of the registry: what its units spell, without the zeros
/// at its end.
pub open spec fn registry_text(units: Seq<u16>, bytes: u32) -> Seq<char> {
    text::trim_end_of(
        gdi::utf16_text(
            units.take(
                if bytes / 2 < units.len() {
                    (bytes / 2) as int
                } else {
                    units.len() as int
                },
            ),
        ),
        '\0',
    )
}

/// The text in a value of the registry. `bytes` is how long the registry says
/// that it is.
pub fn read_registry_text(units: &[u16], bytes: u32) -> (r: String)
    ensures
        r@ == registry_text(units@, bytes),
{
    let n: usize = units.len();
    let half: usize = (bytes / 2) as usize;
    let k: usize = if half < n {
        half
    } else {
        n
    };
    let part = vstd::slice::slice_subrange(units, 0, k);
    assert(part@ =~= units@.take(k as int));
    let s = gdi::text_of_units(part);
    text::without_trailing(s.as_str(), '\0')
}

/// A product in the registry, with the values that could be read of it.
#[derive(Debug)]
pub struct Product {
    /// The name of its key.
    pub key: String,
    pub display_name: String,
    pub install_location: Option<String>,
}

/// The entry is that of the program, installed from a package.
pub open spec fn is_capscr(p: Product) -> bool {
    p.display_name@ == "capscr"@ && p.key@.len() > 0 && p.key@[0] == '{'
}

fn matches_capscr(p: &Product) -> (r: bool)
    ensures
        r == is_capscr(*p),
{
    proof {
        reveal_strlit("{");
    }
    let starts = text::has_prefix(p.key.as_str(), "{");
    proof {
        if p.key@.len() > 0 {
            assert(p.key@.subrange(0, 1)[0] == p.key@[0]);
            if p.key@[0] == '{' {
                assert(p.key@.subrange(0, 1) =~= "{"@);
            }
        }
        assert("{"@[0] == '{');
    }
    text::same(p.display_name.as_str(), "capscr") && starts
}

/// The first entry of the program is at `i`.
pub open spec fn is_first(products: Seq<Product>, i: int) -> bool {
    &&& 0 <= i < products.len()
    &&& is_capscr(products[i])
    &&& forall|k: int| 0 <= k < i ==> !is_capscr(#[trigger] products[k])
}

/// The code of the product that is installed, which is the name of its key.
pub fn find_product(products: &[Product]) -> (r: Option<String>)
    ensures
        forall|i: int| is_first(products@, i) ==> text::opt_owned(r) == Some(products@[i].key@),
        (forall|i: int| !is_first(products@, i)) ==> r is None,
{
    for i in 0..products.len()
        invariant
            forall|k: int| 0 <= k < i ==> !is_capscr(#[trigger] products@[k]),
    {
        if matches_capscr(&products[i]) {
            assert(is_first(products@, i as int));
            return Some(products[i].key.clone());
        }
    }
    None
}

/// The first entry of the program that says where it is installed is at `i`.
pub open spec fn is_first_placed(products: Seq<Product>, i: int) -> bool {
    &&& 0 <= i < products.len()
    &&& is_capscr(products[i])
    &&& products[i].install_location is Some
    &&& forall|k: int|
        0 <= k < i ==> !(is_capscr(#[trigger] products[k]) && products[k].install_location is Some)
}

/// Where the program is installed.
pub fn arp_value(products: &[Product]) -> (r: Option<String>)
    ensures
        forall|i: int|
            is_first_placed(products@, i) ==> text::opt_owned(r) == text::opt_owned(
                products@[i].install_location,
            ),
        (forall|i: int| !is_first_placed(products@, i)) ==> r is None,
{
    for i in 0..products.len()
        invariant
            forall|k: int|
                0 <= k < i ==> !(is_capscr(#[trigger] products@[k])
                    && products@[k].install_location is Some),
    {
        if matches_capscr(&products[i]) {
            match &products[i].install_location {
                Some(l) => {
                    assert(is_first_placed(products@, i as int));
                    return Some(l.clone());
                },
                None => {},
            }
        }
    }
    None
}

/// The first of the values that is there and not empty is at `i`.
pub open spec fn is_first_value(values: Seq<Option<String>>, i: int) -> bool {
    &&& 0 <= i < values.len()
    &&& values[i] is Some
    &&& values[i]->0@.len() > 0
    &&& forall|k: int|
        0 <= k < i ==> ((#[trigger] values[k]) is None || values[k]->0@.len() == 0)
}

/// A value of a product, which can stand in several parts of the registry: the
/// first that is not empty.
pub fn read_sub_value(values: &[Option<String>]) -> (r: Option<String>)
    ensures
        forall|i: int|
            is_first_value(values@, i) ==> text::opt_owned(r) == text::opt_owned(values@[i]),
        (forall|i: int| !is_first_value(values@, i)) ==> r is None,
{
    for i in 0..values.len()
        invariant
            forall|k: int|
                0 <= k < i ==> ((#[trigger] values@[k]) is None || values@[k]->0@.len() == 0),
    {
        match &values[i] {
            Some(v) => {
                if !v.as_str().is_empty() {
                    assert(is_first_value(values@, i as int));
                    return Some(v.clone());
                }
            },
            None => {},
        }
    }
    None
}

/// The program in the directory that it is installed in.
pub fn installed_exe(location: &str) -> (r: String)
    ensures
        r@ == paths::joined(text::trim_end_of(location@, '\\'), "capscr.exe"@, '\\'),
{
    let dir = text::without_trailing(location, '\\');
    paths::join(dir.as_str(), "capscr.exe", '\\')
}

// ---- laws --------------------------------------------------------------------------------------

/// What was packed is a payload, and comes out as it was put in.
pub proof fn lemma_packed_package_comes_out(
    package: &[u8],
    packed: Vec<u8>,
    blob: &[u8],
    r: Result<Vec<u8>, String>,
    carries: bool,
)
    requires
        package@.len() > 0,
        call_ensures(pack_msi, (Some(package),), packed),
        blob@ == packed@,
        call_ensures(extract_msi, (blob,), r),
        call_ensures(has_payload, (blob,), carries),
    ensures
        r matches Ok(v) && v@ == package@,
        blob@.len() > 8 ==> carries,
{
}

/// Without a package nothing is carried, and nothing comes out.
pub proof fn lemma_nothing_is_carried_without_a_package(
    packed: Vec<u8>,
    blob: &[u8],
    r: Result<Vec<u8>, String>,
    carries: bool,
)
    requires
        call_ensures(pack_msi, (None,), packed),
        blob@ == packed@,
        call_ensures(extract_msi, (blob,), r),
        call_ensures(has_payload, (blob,), carries),
    ensures
        !carries,
        r is Err,
{
}

/// The length of the package stands in front of it, in eight bytes with the
/// lowest first.
pub proof fn lemma_length_stands_in_front(package: &[u8], packed: Vec<u8>)
    requires
        call_ensures(pack_msi, (Some(package),), packed),
        package@.len() < 0x100_0000,
    ensures
        packed@[0] + packed@[1] * 256 + packed@[2] * 65536 == package@.len(),
        packed@[3] == 0 && packed@[4] == 0 && packed@[5] == 0 && packed@[6] == 0 && packed@[7] == 0,
{
}

/// The system's installer did its work where it ended with 0 or asks for a
/// restart with 3010. The user declined with 1602.
pub proof fn lemma_two_codes_are_success(
    code: i32,
    put_in: Result<(), String>,
    removed: Result<(), String>,
    killed: Result<(), String>,
)
    requires
        call_ensures(install, (Some(code),), put_in),
        call_ensures(uninstall, (Some(code),), removed),
        call_ensures(install, (None,), killed),
    ensures
        put_in is Ok <==> code == 0 || code == 3010,
        removed is Ok <==> code == 0 || code == 3010,
        code == 1602 ==> (put_in matches Err(e) && e@ == "installation was cancelled"@),
        code == 1602 ==> (removed matches Err(e) && e@ == "removal was cancelled"@),
        killed is Err,
{
}

/// The package is installed, and the product removed, without a window and
/// without a restart.
pub proof fn lemma_installer_is_called_quietly(
    package: &str,
    product: &str,
    i: Vec<String>,
    x: Result<Vec<String>, String>,
    none: Result<Vec<String>, String>,
)
    requires
        call_ensures(install_args, (package,), i),
        call_ensures(uninstall_args, (Some(product),), x),
        call_ensures(uninstall_args, (None,), none),
    ensures
        i@.len() == 4,
        i@[0]@ == "/i"@ && i@[1]@ == package@ && i@[2]@ == "/qn"@ && i@[3]@ == "/norestart"@,
        x matches Ok(v) && v@.len() == 4 && v@[0]@ == "/x"@ && v@[1]@ == product@ && v@[2]@ == "/qn"@
            && v@[3]@ == "/norestart"@,
        none is Err,
{
    let t = text::texts(i@);
    assert(t.len() == i@.len());
    assert(t[0] == i@[0]@ && t[1] == i@[1]@ && t[2] == i@[2]@ && t[3] == i@[3]@);
    let v = x->Ok_0;
    let u = text::texts(v@);
    assert(u.len() == v@.len());
    assert(u[0] == v@[0]@ && u[1] == v@[1]@ && u[2] == v@[2]@ && u[3] == v@[3]@);
}

/// The product that counts is the first that is called `capscr` and was installed
/// from a package, so that its key begins with a brace.
pub proof fn lemma_first_product_is_the_program(products: Seq<Product>, i: int, j: int)
    requires
        is_first(products, i),
        0 <= j < products.len(),
        products[j].display_name@ == "capscr"@,
        products[j].key@.len() > 0,
        products[j].key@[0] == '{',
    ensures
        i <= j,
        products[i].display_name@ == "capscr"@,
        products[i].key@.len() > 0 && products[i].key@[0] == '{',
{
}

/// Where the program is installed is said by the first of its products that says
/// so.
pub proof fn lemma_first_place_is_the_programs(products: Seq<Product>, i: int, j: int)
    requires
        is_first_placed(products, i),
        0 <= j < products.len(),
        products[j].display_name@ == "capscr"@,
        products[j].key@.len() > 0,
        products[j].key@[0] == '{',
        products[j].install_location is Some,
    ensures
        i <= j,
        products[i].display_name@ == "capscr"@,
        products[i].install_location is Some,
{
}

/// The program lies in its directory, behind one backslash, however many the
/// directory ends in.
pub proof fn lemma_program_lies_in_its_directory(location: &str, dir: String, r: String)
    requires
        call_ensures(text::without_trailing, (location, '\\'), dir),
        call_ensures(installed_exe, (location,), r),
        dir@.len() > 0,
    ensures
        r@ == dir@ + seq!['\\'] + "capscr.exe"@,
{
    text::lemma_only_the_trailing_character_goes(location, '\\', dir);
    assert(dir@.push('\\') =~= dir@ + seq!['\\']);
}

} // verus!
