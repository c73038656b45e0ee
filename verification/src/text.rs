//! Text helpers: strings are sequences of characters, and what std computes
//! from Unicode's tables is named where it cannot be written down in a line.

use vstd::prelude::*;

verus! {

// ---- what std computes from Unicode's tables --------------------------------

/// Unicode's `White_Space` property.
pub open spec fn white_space(c: char) -> bool {
    ||| '\u{9}' <= c <= '\u{d}'
    ||| c == ' '
    ||| c == '\u{85}'
    ||| c == '\u{a0}'
    ||| c == '\u{1680}'
    ||| '\u{2000}' <= c <= '\u{200a}'
    ||| c == '\u{2028}'
    ||| c == '\u{2029}'
    ||| c == '\u{202f}'
    ||| c == '\u{205f}'
    ||| c == '\u{3000}'
}

/// `char::is_whitespace`: whether the character has Unicode's `White_Space`
/// property, which is the fixed list in `white_space`.
pub assume_specification[ char::is_whitespace ](c: char) -> (r: bool)
    ensures
        r == white_space(c),
;

/// Unicode's general category `Cc`, the control codes.
pub open spec fn control_code(c: char) -> bool {
    c <= '\u{1f}' || '\u{7f}' <= c <= '\u{9f}'
}

/// `char::is_control`: whether the character is in the general category `Cc`.
pub assume_specification[ char::is_control ](c: char) -> (r: bool)
    ensures
        r == control_code(c),
;

/// An ASCII letter or digit.
pub open spec fn ascii_alphanumeric(c: char) -> bool {
    'a' <= c <= 'z' || 'A' <= c <= 'Z' || '0' <= c <= '9'
}

/// What `char::is_alphanumeric` answers beyond ASCII, by Unicode's tables.
pub uninterp spec fn alphanumeric_by_tables(c: char) -> bool;

/// A letter or a number.
pub open spec fn alphanumeric(c: char) -> bool {
    if c <= '\u{7f}' {
        ascii_alphanumeric(c)
    } else {
        alphanumeric_by_tables(c)
    }
}

/// `char::is_alphanumeric`: a function of the character alone. On ASCII it is
/// the letters and digits.
pub assume_specification[ char::is_alphanumeric ](c: char) -> (r: bool)
    ensures
        c <= '\u{7f}' ==> r == ascii_alphanumeric(c),
        !(c <= '\u{7f}') ==> r == alphanumeric_by_tables(c),
;

/// What `str::to_lowercase` answers for text that is not all ASCII.
pub uninterp spec fn lowercase_by_tables(s: Seq<char>) -> Seq<char>;

/// The text in lower case.
pub open spec fn lowercase(s: Seq<char>) -> Seq<char> {
    if is_ascii(s) {
        ascii_lower_all(s)
    } else {
        lowercase_by_tables(s)
    }
}

/// `str::to_lowercase`: a function of the text alone. On ASCII text it
/// lowers the letters A to Z and keeps the rest.
pub assume_specification[ str::to_lowercase ](s: &str) -> (r: String)
    ensures
        is_ascii(s@) ==> r@ == ascii_lower_all(s@),
        !is_ascii(s@) ==> r@ == lowercase_by_tables(s@),
;

/// What `str::to_uppercase` answers for text that is not all ASCII.
pub uninterp spec fn uppercase_by_tables(s: Seq<char>) -> Seq<char>;

/// The text in capitals.
pub open spec fn uppercase(s: Seq<char>) -> Seq<char> {
    if is_ascii(s) {
        ascii_upper_all(s)
    } else {
        uppercase_by_tables(s)
    }
}

/// `str::to_uppercase`: a function of the text alone. On ASCII text it
/// raises the letters a to z and keeps the rest.
pub assume_specification[ str::to_uppercase ](s: &str) -> (r: String)
    ensures
        is_ascii(s@) ==> r@ == ascii_upper_all(s@),
        !is_ascii(s@) ==> r@ == uppercase_by_tables(s@),
;

/// `std::str::from_utf8`: the text that the bytes encode, where they are UTF-8.
#[verifier::external_body]
pub(crate) fn text_of_bytes(bytes: &[u8]) -> (r: Option<String>)
    ensures
        (r is Some) == vstd::utf8::valid_utf8(bytes@),
        r matches Some(s) ==> s@ == vstd::utf8::decode_utf8(bytes@),
{
    std::str::from_utf8(bytes).ok().map(|s| s.to_string())
}

/// `String::push`: puts the character behind the text.
pub assume_specification[ String::push ](s: &mut String, c: char)
    ensures
        final(s)@ == old(s)@.push(c),
;

// ---- ASCII ------------------------------------------------------------------

pub open spec fn is_ascii(s: Seq<char>) -> bool {
    forall|i: int| 0 <= i < s.len() ==> s[i] <= '\u{7f}'
}

pub open spec fn ascii_lower(c: char) -> char {
    if 'A' <= c <= 'Z' {
        (c as u32 + 32) as char
    } else {
        c
    }
}

pub open spec fn ascii_upper(c: char) -> char {
    if 'a' <= c <= 'z' {
        (c as u32 - 32) as char
    } else {
        c
    }
}

pub open spec fn ascii_lower_all(s: Seq<char>) -> Seq<char> {
    s.map_values(|c: char| ascii_lower(c))
}

pub open spec fn ascii_upper_all(s: Seq<char>) -> Seq<char> {
    s.map_values(|c: char| ascii_upper(c))
}

// ---- characters and strings --------------------------------------------------

/// The characters of a string.
pub fn chars_of(s: &str) -> (v: Vec<char>)
    ensures
        v@ == s@,
{
    let mut v: Vec<char> = Vec::new();
    for c in it: s.chars()
        invariant
            v@ == it.seq().take(it.index()),
            it.seq() == s@,
    {
        v.push(c);
    }
    v
}

/// The string of the characters.
pub fn string_of(v: &[char]) -> (s: String)
    ensures
        s@ == v@,
{
    let mut s = String::new();
    for i in 0..v.len()
        invariant
            s@ == v@.take(i as int),
    {
        s.push(v[i]);
    }
    s
}

/// Whether two texts hold the same characters.
pub fn same(a: &str, b: &str) -> (r: bool)
    ensures
        r == (a@ == b@),
{
    a.to_owned() == b.to_owned()
}

/// The length of the text in UTF-8.
pub open spec fn byte_len(s: Seq<char>) -> nat {
    vstd::utf8::encode_utf8(s).len()
}

proof fn lemma_ascii_width(c: char)
    requires
        c <= '\u{7f}',
    ensures
        vstd::utf8::encode_scalar(c as u32).len() == 1,
{
}

/// ASCII text takes one byte to the character.
pub proof fn lemma_ascii_len(s: Seq<char>)
    requires
        is_ascii(s),
    ensures
        byte_len(s) == s.len(),
    decreases s.len(),
{
    if s.len() > 0 {
        lemma_ascii_len(s.drop_first());
        lemma_ascii_width(s[0]);
    }
}

/// No character takes more than four bytes.
pub proof fn lemma_len_bound(s: Seq<char>)
    ensures
        s.len() <= byte_len(s) <= 4 * s.len(),
    decreases s.len(),
{
    if s.len() > 0 {
        lemma_len_bound(s.drop_first());
    }
}

/// Two texts behind each other take the bytes of both.
pub proof fn lemma_byte_len_add(a: Seq<char>, b: Seq<char>)
    ensures
        byte_len(a + b) == byte_len(a) + byte_len(b),
    decreases a.len(),
{
    if a.len() > 0 {
        lemma_byte_len_add(a.drop_first(), b);
        assert((a + b).drop_first() =~= a.drop_first() + b);
        assert((a + b)[0] == a[0]);
    } else {
        assert(a + b =~= b);
    }
}

/// How many bytes the text takes in UTF-8.
pub fn len_of(s: &str) -> (n: usize)
    ensures
        n == byte_len(s@),
{
    s.as_bytes().len()
}

/// The text of an optional string.
pub open spec fn opt(s: Option<&str>) -> Option<Seq<char>> {
    match s {
        Some(t) => Some(t@),
        None => None,
    }
}

/// The views of bytes that were read, or of the words that say why they were not.
pub open spec fn bytes_or_words(r: Result<Vec<u8>, String>) -> Result<Seq<u8>, Seq<char>> {
    match r {
        Ok(v) => Ok(v@),
        Err(e) => Err(e@),
    }
}

/// The views of a text that was read, or of the words that say why it was not.
pub open spec fn text_or_words(r: Result<String, String>) -> Result<Seq<char>, Seq<char>> {
    match r {
        Ok(s) => Ok(s@),
        Err(e) => Err(e@),
    }
}

/// The text of an optional owned string.
pub open spec fn opt_owned(s: Option<String>) -> Option<Seq<char>> {
    match s {
        Some(t) => Some(t@),
        None => None,
    }
}

/// The bytes, where there are any.
pub open spec fn opt_bytes(b: Option<Vec<u8>>) -> Option<Seq<u8>> {
    match b {
        Some(v) => Some(v@),
        None => None,
    }
}

/// The texts that a list of strings holds.
pub open spec fn texts(v: Seq<String>) -> Seq<Seq<char>> {
    v.map_values(|s: String| s@)
}

/// The characters from `i` up to `j`, as a string.
pub fn part_of(v: &[char], i: usize, j: usize) -> (s: String)
    requires
        i <= j <= v@.len(),
    ensures
        s@ == v@.subrange(i as int, j as int),
{
    let mut s = String::new();
    for k in i..j
        invariant
            j <= v@.len(),
            i <= k <= j,
            s@ == v@.subrange(i as int, k as int),
    {
        s.push(v[k]);
        assert(s@ =~= v@.subrange(i as int, k + 1));
    }
    s
}

/// The text with its ASCII capitals lowered.
pub fn ascii_lowered(s: &str) -> (r: String)
    ensures
        r@ == ascii_lower_all(s@),
{
    let a = chars_of(s);
    let mut r = String::new();
    for i in 0..a.len()
        invariant
            a@ == s@,
            r@ == ascii_lower_all(s@).take(i as int),
    {
        r.push(lowered(a[i]));
        assert(r@ =~= ascii_lower_all(s@).take(i + 1));
    }
    assert(ascii_lower_all(s@).take(s@.len() as int) =~= ascii_lower_all(s@));
    r
}

fn lowered(c: char) -> (r: char)
    ensures
        r == ascii_lower(c),
{
    if 'A' <= c && c <= 'Z' {
        (c as u8 + 32) as char
    } else {
        c
    }
}

/// The text with its ASCII letters raised to capitals.
pub fn ascii_uppered(s: &str) -> (r: String)
    ensures
        r@ == ascii_upper_all(s@),
{
    let a = chars_of(s);
    let mut r = String::new();
    for i in 0..a.len()
        invariant
            a@ == s@,
            r@ == ascii_upper_all(s@).take(i as int),
    {
        r.push(raised(a[i]));
        assert(r@ =~= ascii_upper_all(s@).take(i + 1));
    }
    assert(ascii_upper_all(s@).take(s@.len() as int) =~= ascii_upper_all(s@));
    r
}

fn raised(c: char) -> (r: char)
    ensures
        r == ascii_upper(c),
{
    if 'a' <= c && c <= 'z' {
        (c as u8 - 32) as char
    } else {
        c
    }
}

/// Whether two texts are equal but for the case of ASCII letters.
pub fn same_but_for_case(a: &str, b: &str) -> (r: bool)
    ensures
        r == (ascii_lower_all(a@) == ascii_lower_all(b@)),
{
    same(ascii_lowered(a).as_str(), ascii_lowered(b).as_str())
}

// ---- searching ---------------------------------------------------------------

pub open spec fn starts_with(s: Seq<char>, p: Seq<char>) -> bool {
    p.len() <= s.len() && s.take(p.len() as int) == p
}

pub open spec fn ends_with(s: Seq<char>, p: Seq<char>) -> bool {
    p.len() <= s.len() && s.skip(s.len() - p.len()) == p
}

/// `p` stands in `s` at `i`.
pub open spec fn occurs_at(s: Seq<char>, p: Seq<char>, i: int) -> bool {
    0 <= i <= s.len() - p.len() && s.subrange(i, i + p.len()) == p
}

pub open spec fn contains(s: Seq<char>, p: Seq<char>) -> bool {
    exists|i: int| occurs_at(s, p, i)
}

fn matches_at(s: &[char], p: &[char], i: usize) -> (r: bool)
    requires
        i + p@.len() <= s@.len(),
    ensures
        r == occurs_at(s@, p@, i as int),
{
    let n: usize = s.len();
    for k in 0..p.len()
        invariant
            n == s@.len(),
            i + p@.len() <= n,
            forall|j: int| 0 <= j < k ==> s@[i + j] == p@[j],
    {
        if s[i + k] != p[k] {
            assert(s@.subrange(i as int, i + p@.len())[k as int] != p@[k as int]);
            return false;
        }
    }
    assert(s@.subrange(i as int, i + p@.len()) =~= p@);
    true
}

/// Whether the text begins with `p`.
pub fn has_prefix(s: &str, p: &str) -> (r: bool)
    ensures
        r == starts_with(s@, p@),
{
    let a = chars_of(s);
    let b = chars_of(p);
    if b.len() > a.len() {
        return false;
    }
    let r = matches_at(&a, &b, 0);
    assert(s@.take(p@.len() as int) =~= s@.subrange(0, p@.len() as int));
    r
}

/// Whether the text ends with `p`.
pub fn has_suffix(s: &str, p: &str) -> (r: bool)
    ensures
        r == ends_with(s@, p@),
{
    let a = chars_of(s);
    let b = chars_of(p);
    if b.len() > a.len() {
        return false;
    }
    let r = matches_at(&a, &b, a.len() - b.len());
    assert(s@.skip(s@.len() - p@.len()) =~= s@.subrange(s@.len() - p@.len(), s@.len() as int));
    r
}

/// Whether `p` stands anywhere in the text.
pub fn has_text(s: &str, p: &str) -> (r: bool)
    ensures
        r == contains(s@, p@),
{
    let a = chars_of(s);
    let b = chars_of(p);
    if b.len() > a.len() {
        return false;
    }
    let last: usize = a.len() - b.len();
    let mut i: usize = 0;
    while i <= last
        invariant
            a@ == s@,
            b@ == p@,
            last == a@.len() - b@.len(),
            i <= last + 1,
            forall|j: int| 0 <= j < i ==> !occurs_at(s@, p@, j),
        decreases last + 1 - i,
    {
        if matches_at(&a, &b, i) {
            return true;
        }
        if i == last {
            return false;
        }
        i = i + 1;
    }
    false
}

/// Whether the character stands anywhere in the text.
pub fn has_char(s: &str, c: char) -> (r: bool)
    ensures
        r == s@.contains(c),
{
    let a = chars_of(s);
    for i in 0..a.len()
        invariant
            a@ == s@,
            forall|j: int| 0 <= j < i ==> s@[j] != c,
    {
        if a[i] == c {
            assert(s@[i as int] == c);
            return true;
        }
    }
    false
}

/// Where `c` first stands in `s`, or the length where it does not.
pub open spec fn find(s: Seq<char>, c: char) -> int
    decreases s.len(),
{
    if s.len() == 0 || s[0] == c {
        0
    } else {
        1 + find(s.skip(1), c)
    }
}

/// The place of a character is that of its first occurrence.
pub proof fn lemma_find(s: Seq<char>, c: char)
    ensures
        0 <= find(s, c) <= s.len(),
        find(s, c) < s.len() ==> s[find(s, c)] == c,
        forall|i: int| 0 <= i < find(s, c) ==> s[i] != c,
    decreases s.len(),
{
    if s.len() > 0 && s[0] != c {
        lemma_find(s.skip(1), c);
        let f = find(s.skip(1), c);
        assert forall|i: int| 0 <= i < find(s, c) implies s[i] != c by {
            if i > 0 {
                assert(s.skip(1)[i - 1] == s[i]);
            }
        }
    }
}

/// The first occurrence of a character is its place.
pub proof fn lemma_find_is(s: Seq<char>, c: char, k: int)
    requires
        0 <= k <= s.len(),
        k < s.len() ==> s[k] == c,
        forall|i: int| 0 <= i < k ==> s[i] != c,
    ensures
        find(s, c) == k,
{
    lemma_find(s, c);
}

// ---- taking text apart --------------------------------------------------------

pub open spec fn trim_start(s: Seq<char>) -> Seq<char>
    decreases s.len(),
{
    if s.len() > 0 && white_space(s[0]) {
        trim_start(s.skip(1))
    } else {
        s
    }
}

pub open spec fn trim_end(s: Seq<char>) -> Seq<char>
    decreases s.len(),
{
    if s.len() > 0 && white_space(s.last()) {
        trim_end(s.drop_last())
    } else {
        s
    }
}

/// The text without the white space around it.
pub open spec fn trim(s: Seq<char>) -> Seq<char> {
    trim_end(trim_start(s))
}

/// The text without the white space around it.
pub fn trimmed(s: &str) -> (r: String)
    ensures
        r@ == trim(s@),
{
    let a = chars_of(s);
    let mut i: usize = 0;
    assert(a@.skip(0) =~= a@);
    while i < a.len() && a[i].is_whitespace()
        invariant
            i <= a@.len(),
            trim_start(a@) == trim_start(a@.skip(i as int)),
        decreases a@.len() - i,
    {
        assert(a@.skip(i as int).skip(1) =~= a@.skip(i + 1));
        i = i + 1;
    }
    let mut j: usize = a.len();
    assert(a@.subrange(i as int, j as int) =~= a@.skip(i as int));
    while j > i && a[j - 1].is_whitespace()
        invariant
            i <= j <= a@.len(),
            trim_end(trim_start(a@)) == trim_end(a@.subrange(i as int, j as int)),
        decreases j,
    {
        assert(a@.subrange(i as int, j as int).drop_last() =~= a@.subrange(i as int, j - 1));
        j = j - 1;
    }
    part_of(&a, i, j)
}

/// The text without any `c` at its end.
pub open spec fn trim_end_of(s: Seq<char>, c: char) -> Seq<char>
    decreases s.len(),
{
    if s.len() > 0 && s.last() == c {
        trim_end_of(s.drop_last(), c)
    } else {
        s
    }
}

/// The text without any `c` at its end.
pub fn without_trailing(s: &str, c: char) -> (r: String)
    ensures
        r@ == trim_end_of(s@, c),
{
    let a = chars_of(s);
    let mut j: usize = a.len();
    assert(a@.subrange(0, j as int) =~= a@);
    while j > 0 && a[j - 1] == c
        invariant
            j <= a@.len(),
            trim_end_of(a@, c) == trim_end_of(a@.subrange(0, j as int), c),
        decreases j,
    {
        assert(a@.subrange(0, j as int).drop_last() =~= a@.subrange(0, j - 1));
        j = j - 1;
    }
    part_of(&a, 0, j)
}

/// The pieces of the text between the separators.
pub open spec fn split(s: Seq<char>, sep: char) -> Seq<Seq<char>>
    decreases s.len(),
{
    let i = find(s, sep);
    if 0 <= i < s.len() {
        seq![s.take(i)] + split(s.skip(i + 1), sep)
    } else {
        seq![s]
    }
}

/// The pieces of the text between the separators.
pub fn pieces(s: &str, sep: char) -> (r: Vec<String>)
    ensures
        texts(r@) == split(s@, sep),
        r@.len() > 0,
{
    let a = chars_of(s);
    let mut out: Vec<String> = Vec::new();
    let mut start: usize = 0;
    let mut i: usize = 0;
    assert(a@.skip(0) =~= a@);
    assert(texts(out@) + split(a@, sep) =~= split(a@, sep));
    while i < a.len()
        invariant
            a@ == s@,
            start <= i <= a@.len(),
            forall|k: int| start <= k < i ==> a@[k] != sep,
            texts(out@) + split(a@.skip(start as int), sep) == split(a@, sep),
        decreases a@.len() - i,
    {
        if a[i] == sep {
            let piece = part_of(&a, start, i);
            proof {
                let rest = a@.skip(start as int);
                lemma_find_is(rest, sep, i - start);
                assert(rest.take(i - start) =~= piece@);
                assert(rest.skip(i - start + 1) =~= a@.skip(i + 1));
                assert(texts(out@.push(piece)) =~= texts(out@).push(piece@));
                assert(texts(out@) + (seq![piece@] + split(a@.skip(i + 1), sep))
                    =~= texts(out@).push(piece@) + split(a@.skip(i + 1), sep));
            }
            out.push(piece);
            start = i + 1;
        }
        i = i + 1;
    }
    let piece = part_of(&a, start, a.len());
    proof {
        let rest = a@.skip(start as int);
        lemma_find_is(rest, sep, rest.len() as int);
        assert(rest =~= piece@);
        assert(texts(out@.push(piece)) =~= texts(out@).push(piece@));
        assert(texts(out@) + seq![piece@] =~= texts(out@).push(piece@));
    }
    out.push(piece);
    out
}

// ---- words ----------------------------------------------------------------------

/// The words that end before the end of the text, and what has begun of the next.
pub open spec fn words_so_far(s: Seq<char>) -> (Seq<Seq<char>>, Seq<char>)
    decreases s.len(),
{
    if s.len() == 0 {
        (Seq::empty(), Seq::empty())
    } else {
        let (done, word) = words_so_far(s.drop_last());
        if !white_space(s.last()) {
            (done, word.push(s.last()))
        } else if word.len() > 0 {
            (done.push(word), Seq::empty())
        } else {
            (done, word)
        }
    }
}

/// The words of a text: its longest parts without white space.
pub open spec fn words(s: Seq<char>) -> Seq<Seq<char>> {
    let (done, word) = words_so_far(s);
    if word.len() > 0 {
        done.push(word)
    } else {
        done
    }
}

/// The words of a text.
pub fn words_of(s: &str) -> (r: Vec<String>)
    ensures
        texts(r@) == words(s@),
{
    let a = chars_of(s);
    let n: usize = a.len();
    let mut out: Vec<String> = Vec::new();
    let mut word = String::new();
    let mut begun = false;
    assert(a@.take(0) =~= Seq::<char>::empty());
    assert(texts(out@) =~= Seq::<Seq<char>>::empty());
    assert(word@ =~= Seq::<char>::empty());
    for i in 0..n
        invariant
            n == a@.len(),
            words_so_far(a@.take(i as int)) == (texts(out@), word@),
            begun == (word@.len() > 0),
    {
        assert(a@.take(i + 1).drop_last() =~= a@.take(i as int));
        assert(a@.take(i + 1).last() == a@[i as int]);
        if !a[i].is_whitespace() {
            word.push(a[i]);
            begun = true;
        } else if begun {
            let ghost before = texts(out@);
            out.push(word);
            assert(texts(out@) =~= before.push(word@));
            word = String::new();
            assert(word@ =~= Seq::<char>::empty());
            begun = false;
        }
    }
    assert(a@.take(n as int) =~= s@);
    if begun {
        let ghost before = texts(out@);
        out.push(word);
        assert(texts(out@) =~= before.push(word@));
    }
    out
}

// ---- lists of texts -------------------------------------------------------------

/// The texts without those that came before, in their order.
pub open spec fn distinct(s: Seq<Seq<char>>) -> Seq<Seq<char>>
    decreases s.len(),
{
    if s.len() == 0 {
        s
    } else {
        let r = distinct(s.drop_last());
        if r.contains(s.last()) {
            r
        } else {
            r.push(s.last())
        }
    }
}

/// Nothing stands twice in the distinct texts, and they hold what the texts
/// hold.
pub proof fn lemma_distinct(s: Seq<Seq<char>>)
    ensures
        distinct(s).no_duplicates(),
        forall|t: Seq<char>| distinct(s).contains(t) <==> s.contains(t),
    decreases s.len(),
{
    if s.len() > 0 {
        lemma_distinct(s.drop_last());
        let r = distinct(s.drop_last());
        assert forall|t: Seq<char>| distinct(s).contains(t) <==> s.contains(t) by {
            if s.contains(t) {
                let i = choose|i: int| 0 <= i < s.len() && s[i] == t;
                if i < s.len() - 1 {
                    assert(s.drop_last()[i] == t);
                    assert(s.drop_last().contains(t));
                    assert(r.contains(t));
                    let j = choose|j: int| 0 <= j < r.len() && r[j] == t;
                    assert(distinct(s)[j] == t);
                } else {
                    if r.contains(t) {
                        assert(distinct(s) == r);
                    } else {
                        assert(distinct(s)[r.len() as int] == t);
                    }
                }
            }
            if distinct(s).contains(t) {
                let j = choose|j: int| 0 <= j < distinct(s).len() && distinct(s)[j] == t;
                if j < r.len() {
                    assert(r[j] == t);
                    assert(s.drop_last().contains(t));
                    let i = choose|i: int| 0 <= i < s.drop_last().len() && s.drop_last()[i] == t;
                    assert(s[i] == t);
                } else {
                    assert(s[s.len() - 1] == t);
                }
            }
        }
    }
}

/// Whether the list holds the text.
pub fn list_has(v: &[String], t: &str) -> (r: bool)
    ensures
        r == texts(v@).contains(t@),
{
    for i in 0..v.len()
        invariant
            forall|j: int| 0 <= j < i ==> v@[j]@ != t@,
    {
        if same(v[i].as_str(), t) {
            assert(texts(v@)[i as int] == t@);
            return true;
        }
    }
    proof {
        assert forall|j: int| 0 <= j < texts(v@).len() implies texts(v@)[j] != t@ by {
            assert(v@[j]@ != t@);
        }
    }
    false
}

/// Puts the text behind the list unless it stands in it.
pub fn push_distinct(v: &mut Vec<String>, t: String)
    ensures
        texts(final(v)@) == (if texts(old(v)@).contains(t@) {
            texts(old(v)@)
        } else {
            texts(old(v)@).push(t@)
        }),
{
    if !list_has(v.as_slice(), t.as_str()) {
        v.push(t);
        assert(texts(v@) =~= texts(old(v)@).push(t@));
    }
}

// ---- numbers ------------------------------------------------------------------

pub open spec fn digit(n: nat) -> char {
    ('0' as u32 + n) as char
}

/// The decimal digits of a number.
pub open spec fn dec(n: nat) -> Seq<char>
    decreases n,
{
    if n < 10 {
        seq![digit(n)]
    } else {
        dec(n / 10).push(digit(n % 10))
    }
}

/// The number with its sign.
pub open spec fn dec_int(n: int) -> Seq<char> {
    if n < 0 {
        seq!['-'] + dec((-n) as nat)
    } else {
        dec(n as nat)
    }
}

/// Decimal numbers are written in digits.
pub proof fn lemma_dec_chars(n: nat, i: int)
    requires
        0 <= i < dec(n).len(),
    ensures
        '0' <= dec(n)[i] <= '9',
    decreases n,
{
    if n >= 10 && i < dec(n / 10).len() {
        lemma_dec_chars(n / 10, i);
    }
}

/// Whole numbers are written in digits, behind a minus sign where they are
/// negative.
pub proof fn lemma_dec_int_chars(n: int, i: int)
    requires
        0 <= i < dec_int(n).len(),
    ensures
        '0' <= dec_int(n)[i] <= '9' || i == 0 && n < 0 && dec_int(n)[i] == '-',
{
    if n < 0 {
        if i > 0 {
            lemma_dec_chars((-n) as nat, i - 1);
        }
    } else {
        lemma_dec_chars(n as nat, i);
    }
}

fn digit_char(n: u8) -> (c: char)
    requires
        n < 10,
    ensures
        c == digit(n as nat),
{
    (48u8 + n) as char
}

/// Puts the number's decimal digits behind the text.
pub fn push_dec(s: &mut String, n: u64)
    ensures
        final(s)@ == old(s)@ + dec(n as nat),
    decreases n,
{
    if n >= 10 {
        push_dec(s, n / 10);
    }
    s.push(digit_char((n % 10) as u8));
}

/// Puts the number, with a minus sign where it is negative, behind the text.
pub fn push_int(s: &mut String, n: i64)
    ensures
        final(s)@ == old(s)@ + dec_int(n as int),
{
    if n < 0 {
        s.push('-');
        let m: u64 = if n == i64::MIN { 9223372036854775808u64 } else { (-n) as u64 };
        push_dec(s, m);
        assert(old(s)@.push('-') + dec(m as nat) =~= old(s)@ + (seq!['-'] + dec(m as nat)));
    } else {
        push_dec(s, n as u64);
    }
}

/// The value of a number that is written in decimal digits.
pub open spec fn dec_value(s: Seq<char>) -> int
    decreases s.len(),
{
    if s.len() == 0 {
        0
    } else {
        dec_value(s.drop_last()) * 10 + (s.last() as int - '0' as int)
    }
}

proof fn lemma_digit(n: nat)
    requires
        n < 10,
    ensures
        digit(n) as int == '0' as int + n,
{
}

/// The digits that are written of a number read back as that number.
pub proof fn lemma_dec_value(n: nat)
    ensures
        dec_value(dec(n)) == n,
    decreases n,
{
    lemma_digit(n % 10);
    if n < 10 {
        assert(dec(n).drop_last() =~= Seq::<char>::empty());
        assert(dec_value(dec(n).drop_last()) == 0);
        assert(dec(n).last() == digit(n));
    } else {
        lemma_dec_value(n / 10);
        assert(dec(n).drop_last() =~= dec(n / 10));
        assert(dec(n).last() == digit(n % 10));
    }
}

/// Two numbers are not written alike.
pub proof fn lemma_dec_injective(a: nat, b: nat)
    requires
        a != b,
    ensures
        dec(a) != dec(b),
{
    lemma_dec_value(a);
    lemma_dec_value(b);
}

// ---- wide characters --------------------------------------------------------------------------

/// The UTF-16 code units of a character.
pub open spec fn utf16_char(c: char) -> Seq<u16> {
    if (c as u32) < 0x10000 {
        seq![(c as u32) as u16]
    } else {
        seq![
            (0xd800 + (c as u32 - 0x10000) / 0x400) as u16,
            (0xdc00 + (c as u32 - 0x10000) % 0x400) as u16,
        ]
    }
}

/// The UTF-16 code units of a text.
pub open spec fn utf16(s: Seq<char>) -> Seq<u16>
    decreases s.len(),
{
    if s.len() == 0 {
        Seq::empty()
    } else {
        utf16(s.drop_last()) + utf16_char(s.last())
    }
}

/// The UTF-16 code units of a text.
pub fn utf16_units(s: &str) -> (r: Vec<u16>)
    ensures
        r@ == utf16(s@),
{
    let a = chars_of(s);
    let mut r: Vec<u16> = Vec::new();
    for i in 0..a.len()
        invariant
            a@ == s@,
            r@ == utf16(a@.take(i as int)),
    {
        assert(a@.take(i + 1).drop_last() =~= a@.take(i as int));
        let ch = a[i];
        let c: u32 = ch as u32;
        if c < 0x10000 {
            r.push(c as u16);
        } else {
            let over: u32 = c - 0x10000;
            r.push((0xd800 + over / 0x400) as u16);
            r.push((0xdc00 + over % 0x400) as u16);
        }
        assert(r@ =~= utf16(a@.take(i as int)) + utf16_char(ch));
    }
    assert(a@.take(a@.len() as int) =~= a@);
    r
}

// ---- laws ---------------------------------------------------------------------

/// A text begins with another where it is that text with something behind it.
pub proof fn lemma_beginning_comes_first(s: &str, p: &str, r: bool, rest: Seq<char>)
    requires
        call_ensures(has_prefix, (s, p), r),
    ensures
        s@ == p@ + rest ==> r,
        r ==> s@ == p@ + s@.skip(p@.len() as int),
{
    if s@ == p@ + rest {
        assert(s@.take(p@.len() as int) =~= p@);
    }
    if r {
        assert(s@ =~= s@.take(p@.len() as int) + s@.skip(p@.len() as int));
    }
}

/// A text ends with another where it is that text with something before it.
pub proof fn lemma_ending_comes_last(s: &str, p: &str, r: bool, rest: Seq<char>)
    requires
        call_ensures(has_suffix, (s, p), r),
    ensures
        s@ == rest + p@ ==> r,
        r ==> s@ == s@.take(s@.len() - p@.len()) + p@,
{
    if s@ == rest + p@ {
        assert(s@.skip(s@.len() - p@.len()) =~= p@);
    }
    if r {
        assert(s@ =~= s@.take(s@.len() - p@.len()) + s@.skip(s@.len() - p@.len()));
    }
}

/// A text holds another where something stands before it and something behind it.
pub proof fn lemma_held_text_stands_inside(s: &str, p: &str, r: bool, a: Seq<char>, b: Seq<char>)
    requires
        call_ensures(has_text, (s, p), r),
    ensures
        s@ == a + p@ + b ==> r,
        r ==> exists|x: Seq<char>, y: Seq<char>| s@ == #[trigger] (x + p@ + y),
{
    if s@ == a + p@ + b {
        assert(s@.subrange(a.len() as int, (a.len() + p@.len()) as int) =~= p@);
        assert(occurs_at(s@, p@, a.len() as int));
    }
    if r {
        let i = choose|i: int| occurs_at(s@, p@, i);
        let x = s@.take(i);
        let y = s@.skip(i + p@.len());
        assert(s@ =~= x + s@.subrange(i, i + p@.len()) + y);
        assert(s@ == x + p@ + y);
    }
}

/// Letters differ in case by the same distance, and nothing else has a case.
pub proof fn lemma_lowered_and_raised(s: &str, low: String, high: String, i: int)
    requires
        call_ensures(ascii_lowered, (s,), low),
        call_ensures(ascii_uppered, (s,), high),
        0 <= i < s@.len(),
    ensures
        low@.len() == s@.len() && high@.len() == s@.len(),
        !('A' <= low@[i] <= 'Z'),
        !('a' <= high@[i] <= 'z'),
        low@[i] == s@[i] || 'A' <= s@[i] <= 'Z' && low@[i] as u32 == s@[i] as u32 + 32,
        high@[i] == s@[i] || 'a' <= s@[i] <= 'z' && high@[i] as u32 == s@[i] as u32 - 32,
{
}

proof fn lemma_trim_start(s: Seq<char>)
    ensures
        trim_start(s).len() <= s.len(),
        trim_start(s) == s.skip(s.len() - trim_start(s).len()),
        forall|k: int| 0 <= k < s.len() - trim_start(s).len() ==> white_space(#[trigger] s[k]),
        trim_start(s).len() > 0 ==> !white_space(trim_start(s)[0]),
    decreases s.len(),
{
    if s.len() > 0 && white_space(s[0]) {
        let t = s.skip(1);
        lemma_trim_start(t);
        assert(t.skip(t.len() - trim_start(t).len()) =~= s.skip(s.len() - trim_start(s).len()));
        assert forall|k: int| 0 <= k < s.len() - trim_start(s).len() implies white_space(
            #[trigger] s[k],
        ) by {
            if k > 0 {
                assert(t[k - 1] == s[k]);
            }
        }
    } else {
        assert(s.skip(0) =~= s);
    }
}

proof fn lemma_trim_end(s: Seq<char>)
    ensures
        trim_end(s).len() <= s.len(),
        trim_end(s) == s.take(trim_end(s).len() as int),
        forall|k: int| trim_end(s).len() <= k < s.len() ==> white_space(#[trigger] s[k]),
        trim_end(s).len() > 0 ==> !white_space(trim_end(s).last()),
    decreases s.len(),
{
    if s.len() > 0 && white_space(s.last()) {
        let t = s.drop_last();
        lemma_trim_end(t);
        assert(t.take(trim_end(t).len() as int) =~= s.take(trim_end(s).len() as int));
        assert forall|k: int| trim_end(s).len() <= k < s.len() implies white_space(
            #[trigger] s[k],
        ) by {
            if k < s.len() - 1 {
                assert(t[k] == s[k]);
            }
        }
    } else {
        assert(s.take(s.len() as int) =~= s);
    }
}

/// What is left of a text that was trimmed has white space at neither end, and
/// nothing but white space was taken from around it.
pub proof fn lemma_only_white_space_is_trimmed(s: &str, r: String)
    requires
        call_ensures(trimmed, (s,), r),
    ensures
        r@.len() > 0 ==> !white_space(r@[0]) && !white_space(r@.last()),
        exists|i: int, j: int|
            0 <= i <= j <= s@.len() && r@ == #[trigger] s@.subrange(i, j) && (forall|k: int|
                0 <= k < i || j <= k < s@.len() ==> white_space(#[trigger] s@[k])),
{
    lemma_trim_start(s@);
    let t = trim_start(s@);
    lemma_trim_end(t);
    let i = s@.len() - t.len();
    let j = i + r@.len();
    assert(r@ =~= s@.subrange(i, j));
    assert forall|k: int| 0 <= k < i || j <= k < s@.len() implies white_space(
        #[trigger] s@[k],
    ) by {
        if k >= j {
            assert(t[k - i] == s@[k]);
        }
    }
    if r@.len() > 0 {
        assert(r@[0] == t[0]);
    }
}

proof fn lemma_trim_end_of(s: Seq<char>, c: char)
    ensures
        trim_end_of(s, c).len() <= s.len(),
        trim_end_of(s, c) == s.take(trim_end_of(s, c).len() as int),
        forall|k: int| trim_end_of(s, c).len() <= k < s.len() ==> #[trigger] s[k] == c,
        trim_end_of(s, c).len() > 0 ==> trim_end_of(s, c).last() != c,
    decreases s.len(),
{
    if s.len() > 0 && s.last() == c {
        let t = s.drop_last();
        lemma_trim_end_of(t, c);
        assert(t.take(trim_end_of(t, c).len() as int) =~= s.take(trim_end_of(s, c).len() as int));
        assert forall|k: int| trim_end_of(s, c).len() <= k < s.len() implies #[trigger] s[k]
            == c by {
            if k < s.len() - 1 {
                assert(t[k] == s[k]);
            }
        }
    } else {
        assert(s.take(s.len() as int) =~= s);
    }
}

/// Nothing but the character is taken from the end of a text, and none of it is
/// left there.
pub proof fn lemma_only_the_trailing_character_goes(s: &str, c: char, r: String)
    requires
        call_ensures(without_trailing, (s, c), r),
    ensures
        r@.len() > 0 ==> r@.last() != c,
        r@.len() <= s@.len(),
        r@ == s@.take(r@.len() as int),
        forall|k: int| r@.len() <= k < s@.len() ==> #[trigger] s@[k] == c,
{
    lemma_trim_end_of(s@, c);
}

/// The pieces behind each other, with the separator between them.
pub open spec fn put_together(pieces: Seq<Seq<char>>, sep: char) -> Seq<char>
    decreases pieces.len(),
{
    if pieces.len() == 0 {
        Seq::empty()
    } else if pieces.len() == 1 {
        pieces[0]
    } else {
        pieces[0].push(sep) + put_together(pieces.skip(1), sep)
    }
}

proof fn lemma_split(s: Seq<char>, sep: char)
    ensures
        split(s, sep).len() > 0,
        put_together(split(s, sep), sep) == s,
        forall|k: int| 0 <= k < split(s, sep).len() ==> !(#[trigger] split(s, sep)[k]).contains(sep),
    decreases s.len(),
{
    lemma_find(s, sep);
    let i = find(s, sep);
    if i < s.len() {
        let rest = s.skip(i + 1);
        lemma_split(rest, sep);
        let all = split(s, sep);
        assert(all.skip(1) =~= split(rest, sep));
        assert(all[0] == s.take(i));
        assert(s =~= s.take(i).push(sep) + rest);
        assert forall|k: int| 0 <= k < all.len() implies !(#[trigger] all[k]).contains(sep) by {
            if k > 0 {
                assert(all[k] == split(rest, sep)[k - 1]);
            }
        }
    }
}

/// The pieces of a text hold no separator, and put together with separators they
/// are the text.
pub proof fn lemma_pieces_make_the_text(s: &str, sep: char, r: Vec<String>, k: int)
    requires
        call_ensures(pieces, (s, sep), r),
    ensures
        put_together(texts(r@), sep) == s@,
        0 <= k < r@.len() ==> !r@[k]@.contains(sep),
{
    lemma_split(s@, sep);
    if 0 <= k < r@.len() {
        assert(texts(r@)[k] == r@[k]@);
    }
}

/// The text holds something, and no white space.
pub open spec fn is_word(w: Seq<char>) -> bool {
    w.len() > 0 && forall|i: int| 0 <= i < w.len() ==> !white_space(#[trigger] w[i])
}

proof fn lemma_words_so_far(s: Seq<char>)
    ensures
        forall|k: int|
            0 <= k < words_so_far(s).0.len() ==> is_word(#[trigger] words_so_far(s).0[k]),
        words_so_far(s).1.len() > 0 ==> is_word(words_so_far(s).1),
    decreases s.len(),
{
    if s.len() > 0 {
        let (done, word) = words_so_far(s.drop_last());
        lemma_words_so_far(s.drop_last());
        let (now, next) = words_so_far(s);
        assert forall|k: int| 0 <= k < now.len() implies is_word(#[trigger] now[k]) by {
            if k < done.len() {
                assert(now[k] == done[k]);
            } else {
                assert(now[k] == word);
            }
        }
        if !white_space(s.last()) {
            assert forall|i: int| 0 <= i < next.len() implies !white_space(#[trigger] next[i]) by {
                if i < word.len() {
                    assert(next[i] == word[i]);
                }
            }
        }
    }
}

/// No word is empty, and none holds white space.
pub proof fn lemma_words_hold_no_white_space(s: &str, r: Vec<String>, k: int, i: int)
    requires
        call_ensures(words_of, (s,), r),
        0 <= k < r@.len(),
    ensures
        r@[k]@.len() > 0,
        0 <= i < r@[k]@.len() ==> !white_space(r@[k]@[i]),
{
    lemma_words_so_far(s@);
    assert(texts(r@)[k] == r@[k]@);
    let (done, word) = words_so_far(s@);
    if k < done.len() {
        assert(texts(r@)[k] == done[k]);
    } else {
        assert(word.len() > 0) by {
            assert(texts(r@).len() == r@.len());
        }
        assert(texts(r@)[k] == done.push(word)[k]);
    }
    assert(is_word(r@[k]@));
}

proof fn lemma_one_word(s: Seq<char>)
    requires
        forall|i: int| 0 <= i < s.len() ==> !white_space(#[trigger] s[i]),
    ensures
        words_so_far(s) == (Seq::<Seq<char>>::empty(), s),
    decreases s.len(),
{
    if s.len() > 0 {
        lemma_one_word(s.drop_last());
        assert(s.drop_last().push(s.last()) =~= s);
    }
}

/// A text without white space is one word.
pub proof fn lemma_text_without_white_space_is_one_word(s: &str, r: Vec<String>)
    requires
        call_ensures(words_of, (s,), r),
        s@.len() > 0,
        forall|i: int| 0 <= i < s@.len() ==> !white_space(#[trigger] s@[i]),
    ensures
        r@.len() == 1,
        r@[0]@ == s@,
{
    lemma_one_word(s@);
    assert(texts(r@).len() == 1);
    assert(texts(r@)[0] == s@);
}

proof fn lemma_words_join(a: Seq<char>, c: char, b: Seq<char>)
    requires
        white_space(c),
    ensures
        words_so_far(a.push(c) + b).0 == words(a) + words_so_far(b).0,
        words_so_far(a.push(c) + b).1 == words_so_far(b).1,
    decreases b.len(),
{
    let s = a.push(c) + b;
    if b.len() == 0 {
        assert(s.drop_last() =~= a);
        assert(s.last() == c);
        assert(words(a) + words_so_far(b).0 =~= words(a));
        lemma_words_so_far(a);
        if words_so_far(a).1.len() == 0 {
            assert(words_so_far(a).1 =~= Seq::<char>::empty());
        }
    } else {
        lemma_words_join(a, c, b.drop_last());
        assert(s.drop_last() =~= a.push(c) + b.drop_last());
        assert(s.last() == b.last());
        let w = words_so_far(b.drop_last());
        assert(words(a) + w.0.push(w.1) =~= (words(a) + w.0).push(w.1));
    }
}

/// White space parts words: the words of two texts with white space between them
/// are those of the one and then those of the other.
pub proof fn lemma_white_space_parts_words(
    a: &str,
    b: &str,
    s: &str,
    c: char,
    ra: Vec<String>,
    rb: Vec<String>,
    rs: Vec<String>,
)
    requires
        white_space(c),
        s@ == a@.push(c) + b@,
        call_ensures(words_of, (a,), ra),
        call_ensures(words_of, (b,), rb),
        call_ensures(words_of, (s,), rs),
    ensures
        texts(rs@) == texts(ra@) + texts(rb@),
{
    lemma_words_join(a@, c, b@);
    let w = words_so_far(b@);
    assert(words(a@) + w.0.push(w.1) =~= (words(a@) + w.0).push(w.1));
}

proof fn lemma_leading_digit(n: nat)
    requires
        n > 0,
    ensures
        dec(n).len() > 0,
        dec(n)[0] != '0',
    decreases n,
{
    if n >= 10 {
        lemma_leading_digit(n / 10);
    } else {
        lemma_digit(n);
    }
}

/// No number but nought is written with a nought in front.
pub proof fn lemma_numbers_begin_with_a_digit_that_counts(n: nat)
    requires
        n > 0,
    ensures
        dec(n).len() > 0,
        dec(n)[0] != '0',
{
    lemma_leading_digit(n);
}

/// A negative number is a minus sign and the number without it.
pub proof fn lemma_minus_stands_in_front(n: int)
    requires
        n > 0,
    ensures
        dec_int(-n) == seq!['-'] + dec_int(n),
        dec_value(dec_int(n)) == n,
{
    lemma_dec_value(n as nat);
}

proof fn lemma_wide_pair(c: char)
    ensures
        (c as u32) >= 0x10000 ==> {
            let r = utf16_char(c);
            0xd800 <= r[0] < 0xdc00 && 0xdc00 <= r[1] < 0xe000 && 0x10000 + (r[0] - 0xd800) * 0x400
                + (r[1] - 0xdc00) == c as u32
        },
{
    let n: u32 = c as u32;
    assert(n <= 0x10ffff);
    if n >= 0x10000 {
        let over: int = n - 0x10000;
        assert(over == over / 0x400 * 0x400 + over % 0x400);
        assert(0 <= over / 0x400 < 0x400);
        let r = utf16_char(c);
        assert(r[0] == 0xd800 + over / 0x400);
        assert(r[1] == 0xdc00 + over % 0x400);
    }
}

/// A character of the basic plane is one unit, its number. Any other is two: the
/// first holds its upper ten bits, the second its lower ten.
pub proof fn lemma_wide_units_hold_the_character(s: &str, r: Vec<u16>)
    requires
        call_ensures(utf16_units, (s,), r),
        s@.len() == 1,
    ensures
        (s@[0] as u32) < 0x10000 ==> r@.len() == 1 && r@[0] == s@[0] as u32,
        (s@[0] as u32) >= 0x10000 ==> r@.len() == 2 && 0xd800 <= r@[0] < 0xdc00 && 0xdc00 <= r@[1]
            < 0xe000 && 0x10000 + (r@[0] - 0xd800) * 0x400 + (r@[1] - 0xdc00) == s@[0] as u32,
{
    assert(s@.drop_last() =~= Seq::<char>::empty());
    assert(utf16(s@.drop_last()) =~= Seq::<u16>::empty());
    assert(r@ =~= utf16_char(s@[0]));
    lemma_wide_pair(s@[0]);
}

/// The units of a text are those of its beginning and then those of its last
/// character.
pub proof fn lemma_wide_units_follow_the_text(
    s: &str,
    front: &str,
    back: &str,
    r: Vec<u16>,
    rf: Vec<u16>,
    rb: Vec<u16>,
)
    requires
        back@.len() == 1,
        s@ == front@ + back@,
        call_ensures(utf16_units, (s,), r),
        call_ensures(utf16_units, (front,), rf),
        call_ensures(utf16_units, (back,), rb),
    ensures
        r@ == rf@ + rb@,
{
    assert(s@.drop_last() =~= front@);
    assert(back@.drop_last() =~= Seq::<char>::empty());
    assert(utf16(back@.drop_last()) =~= Seq::<u16>::empty());
    assert(rb@ =~= utf16_char(back@[0]));
}

} // verus!
