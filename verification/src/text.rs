//! Text: the handful of string operations the rest of the library is built on.
//!
//! A text is seen as the sequence of its characters. Everything here is proved over that
//! sequence; what the standard library does to a single character or a whole buffer is
//! taken from its documentation.
use vstd::prelude::*;
use vstd::utf8::{decode_utf8, encode_utf8, is_ascii_chars, valid_utf8};

verus! {

/// `String::push`: appends one character.
pub assume_specification[ String::push ](s: &mut String, c: char)
    ensures
        final(s)@ == old(s)@.push(c),
;

/// `String::pop`: takes the last character off, if there is one.
pub assume_specification[ String::pop ](s: &mut String) -> (r: Option<char>)
    ensures
        old(s)@.len() == 0 ==> r is None && final(s)@ == old(s)@,
        old(s)@.len() > 0 ==> r == Some(old(s)@.last()) && final(s)@ == old(s)@.drop_last(),
;

/// Whether a character is white space: one of the code points with the Unicode property `White_Space`.
pub open spec fn is_white(c: char) -> bool {
    let n = c as u32;
    0x9 <= n <= 0xd || n == 0x20 || n == 0x85 || n == 0xa0 || n == 0x1680 || 0x2000 <= n <= 0x200a || n == 0x2028 || n
        == 0x2029 || n == 0x202f || n == 0x205f || n == 0x3000
}

/// `char::is_whitespace`: whether the character has the Unicode property `White_Space`, which the
/// code points of [`is_white`] have and no others.
#[verifier::external_body]
fn white(c: char) -> (r: bool)
    ensures
        r == is_white(c),
{
    c.is_whitespace()
}

/// What `str::to_lowercase` makes of a text.
pub uninterp spec fn lowercase(s: Seq<char>) -> Seq<char>;

/// `str::to_lowercase`: the lower-case form of a text under the Unicode derived core
/// property `Lowercase`, named [`lowercase`]. An ASCII text has its letters `A` to `Z` turned into
/// `a` to `z`.
#[verifier::external_body]
fn std_lowercase(s: &str) -> (r: String)
    ensures
        r@ == lowercase(s@),
        is_ascii_chars(s@) ==> r@ == ascii_lower(s@),
{
    s.to_lowercase()
}

/// A text in lower case: letter by letter where it is ASCII, else as `str::to_lowercase` has it.
pub open spec fn lower(s: Seq<char>) -> Seq<char> {
    if is_ascii_chars(s) {
        ascii_lower(s)
    } else {
        lowercase(s)
    }
}

/// A text in lower case.
pub fn to_lowercase(s: &str) -> (r: String)
    ensures
        r@ == lower(s@),
{
    std_lowercase(s)
}

/// What `str::to_uppercase` makes of a text.
pub uninterp spec fn uppercase(s: Seq<char>) -> Seq<char>;

/// `str::to_uppercase`: the upper-case form of a text under the Unicode derived core property
/// `Uppercase`, named [`uppercase`]. An ASCII text has its letters `a` to `z` turned into `A` to `Z`.
#[verifier::external_body]
fn std_uppercase(s: &str) -> (r: String)
    ensures
        r@ == uppercase(s@),
        is_ascii_chars(s@) ==> r@ == ascii_upper(s@),
{
    s.to_uppercase()
}

/// A text in upper case: letter by letter where it is ASCII, else as `str::to_uppercase` has it.
pub open spec fn upper(s: Seq<char>) -> Seq<char> {
    if is_ascii_chars(s) {
        ascii_upper(s)
    } else {
        uppercase(s)
    }
}

/// A text in upper case.
pub fn to_uppercase(s: &str) -> (r: String)
    ensures
        r@ == upper(s@),
{
    std_uppercase(s)
}

/// The first character of the upper case of a character.
pub uninterp spec fn upper_first(c: char) -> char;

/// `char::to_uppercase`: the first character of the upper-case mapping, named [`upper_first`]. The
/// letters `a` to `z` are mapped to `A` to `Z`, and every other ASCII character to itself.
#[verifier::external_body]
fn std_upper_first(c: char) -> (r: char)
    ensures
        r == upper_first(c),
        (c as u32) < 0x80 ==> r == ascii_upper_char(c),
{
    c.to_uppercase().next().unwrap_or(c)
}

/// A character in upper case, the first where there are several.
pub open spec fn capital(c: char) -> char {
    if (c as u32) < 0x80 {
        ascii_upper_char(c)
    } else {
        upper_first(c)
    }
}

/// A character in upper case, the first where there are several.
pub fn to_capital(c: char) -> (r: char)
    ensures
        r == capital(c),
{
    std_upper_first(c)
}

/// What `String::from_utf8_lossy` makes of bytes.
pub uninterp spec fn lossy(bytes: Seq<u8>) -> Seq<char>;

/// `String::from_utf8_lossy`: the text that bytes encode, with a replacement character in
/// place of what is not UTF-8, named [`lossy`]. Valid UTF-8 is read as it stands.
#[verifier::external_body]
fn std_from_utf8_lossy(bytes: &[u8]) -> (r: String)
    ensures
        r@ == lossy(bytes@),
        valid_utf8(bytes@) ==> r@ == decode_utf8(bytes@),
{
    String::from_utf8_lossy(bytes).into_owned()
}

/// The text that bytes encode; where they are not UTF-8, what `String::from_utf8_lossy` makes of them.
pub open spec fn read_as_text(bytes: Seq<u8>) -> Seq<char> {
    if valid_utf8(bytes) {
        decode_utf8(bytes)
    } else {
        lossy(bytes)
    }
}

/// The text that bytes encode, as well as can be.
pub fn from_utf8_lossy(bytes: &[u8]) -> (r: String)
    ensures
        r@ == read_as_text(bytes@),
{
    std_from_utf8_lossy(bytes)
}

/// `core::str::from_utf8`: the text that bytes encode, if they are valid UTF-8.
#[verifier::external_body]
pub(crate) fn from_utf8(bytes: &[u8]) -> (r: Option<String>)
    ensures
        r is Some <==> valid_utf8(bytes@),
        r matches Some(s) ==> s@ == decode_utf8(bytes@),
{
    core::str::from_utf8(bytes).ok().map(String::from)
}

/// How many bytes a text takes in UTF-8.
pub open spec fn utf8_len(s: Seq<char>) -> nat {
    encode_utf8(s).len()
}

/// The length of a text in bytes.
pub fn byte_len(s: &str) -> (r: usize)
    ensures
        r == utf8_len(s@),
{
    s.as_bytes().len()
}

/// The characters of a text.
pub fn chars_of(s: &str) -> (r: Vec<char>)
    ensures
        r@ == s@,
{
    let mut v: Vec<char> = Vec::new();
    for c in it: s.chars()
        invariant
            v@ == it.seq().take(it.index() as int),
            it.seq() == s@,
    {
        v.push(c);
    }
    assert(v@ =~= s@);
    v
}

/// The text of the characters from `from` up to `to`.
pub fn text_of(v: &[char], from: usize, to: usize) -> (r: String)
    requires
        from <= to <= v@.len(),
    ensures
        r@ == v@.subrange(from as int, to as int),
{
    let mut s = String::new();
    let mut i: usize = from;
    while i < to
        invariant
            from <= i <= to <= v@.len(),
            s@ == v@.subrange(from as int, i as int),
        decreases to - i,
    {
        s.push(v[i]);
        assert(v@.subrange(from as int, i + 1) =~= v@.subrange(from as int, i as int).push(v@[i as int]));
        i += 1;
    }
    s
}

/// A text of its own from a borrowed one.
pub fn owned(s: &str) -> (r: String)
    ensures
        r@ == s@,
{
    s.to_owned()
}

/// Whether two texts are the same.
pub fn same(a: &str, b: &str) -> (r: bool)
    ensures
        r == (a@ == b@),
{
    let x = a.to_owned();
    let y = b.to_owned();
    x == y
}

/// The letters `A` to `Z` for `a` to `z`; every other character as it is.
pub open spec fn ascii_upper_char(c: char) -> char {
    if 'a' <= c <= 'z' {
        (c as u32 - 32) as char
    } else {
        c
    }
}

/// A text with its ASCII letters in upper case.
pub open spec fn ascii_upper(s: Seq<char>) -> Seq<char> {
    s.map_values(|c: char| ascii_upper_char(c))
}

/// The letters `a` to `z` for `A` to `Z`; every other character as it is.
pub open spec fn ascii_lower_char(c: char) -> char {
    if 'A' <= c <= 'Z' {
        (c as u32 + 32) as char
    } else {
        c
    }
}

fn upper_char(c: char) -> (r: char)
    ensures
        r == ascii_upper_char(c),
{
    if 'a' <= c && c <= 'z' {
        ((c as u8) - 32) as char
    } else {
        c
    }
}

pub(crate) fn lower_char(c: char) -> (r: char)
    ensures
        r == ascii_lower_char(c),
{
    if 'A' <= c && c <= 'Z' {
        ((c as u8) + 32) as char
    } else {
        c
    }
}

/// A text with its ASCII letters in upper case.
pub fn to_ascii_upper(s: &str) -> (r: String)
    ensures
        r@ == ascii_upper(s@),
{
    let v = chars_of(s);
    let mut out = String::new();
    let mut i: usize = 0;
    while i < v.len()
        invariant
            i <= v@.len(),
            v@ == s@,
            out@ == ascii_upper(v@.take(i as int)),
        decreases v@.len() - i,
    {
        out.push(upper_char(v[i]));
        assert(out@ =~= ascii_upper(v@.take(i + 1)));
        i += 1;
    }
    assert(v@.take(i as int) =~= v@);
    out
}

/// A text without the white space in front.
pub open spec fn trim_start(s: Seq<char>) -> Seq<char>
    decreases s.len(),
{
    if s.len() > 0 && is_white(s[0]) {
        trim_start(s.skip(1))
    } else {
        s
    }
}

/// A text without the white space behind.
pub open spec fn trim_end(s: Seq<char>) -> Seq<char>
    decreases s.len(),
{
    if s.len() > 0 && is_white(s.last()) {
        trim_end(s.drop_last())
    } else {
        s
    }
}

/// A text without the white space around it.
pub open spec fn trimmed(s: Seq<char>) -> Seq<char> {
    trim_end(trim_start(s))
}

/// A text without the white space around it.
pub fn trim(s: &str) -> (r: String)
    ensures
        r@ == trimmed(s@),
{
    let v = chars_of(s);
    let mut a: usize = 0;
    assert(v@.skip(0) =~= v@);
    while a < v.len() && white(v[a])
        invariant
            a <= v@.len(),
            trim_start(v@) == trim_start(v@.skip(a as int)),
        decreases v@.len() - a,
    {
        assert(v@.skip(a as int).skip(1) =~= v@.skip(a + 1));
        a += 1;
    }
    let mut b: usize = v.len();
    assert(v@.subrange(a as int, b as int) =~= v@.skip(a as int));
    while a < b && white(v[b - 1])
        invariant
            a <= b <= v@.len(),
            trimmed(v@) == trim_end(v@.subrange(a as int, b as int)),
        decreases b,
    {
        assert(v@.subrange(a as int, b as int).drop_last() =~= v@.subrange(a as int, b - 1));
        b -= 1;
    }
    text_of(&v, a, b)
}

/// Whether a text starts with another.
pub fn starts_with(s: &str, p: &str) -> (r: bool)
    ensures
        r == p@.is_prefix_of(s@),
{
    let v = chars_of(s);
    let w = chars_of(p);
    if w.len() > v.len() {
        return false;
    }
    let mut i: usize = 0;
    while i < w.len()
        invariant
            i <= w@.len() <= v@.len(),
            v@ == s@,
            w@ == p@,
            forall|j: int| 0 <= j < i ==> v@[j] == w@[j],
        decreases w@.len() - i,
    {
        if v[i] != w[i] {
            assert(v@.subrange(0, w@.len() as int)[i as int] != w@[i as int]);
            return false;
        }
        i += 1;
    }
    assert(w@ =~= v@.subrange(0, w@.len() as int));
    true
}

/// Whether a text ends with another.
pub fn ends_with(s: &str, p: &str) -> (r: bool)
    ensures
        r == p@.is_suffix_of(s@),
{
    let v = chars_of(s);
    let w = chars_of(p);
    if w.len() > v.len() {
        return false;
    }
    let at: usize = v.len() - w.len();
    let mut i: usize = 0;
    while i < w.len()
        invariant
            i <= w@.len() <= v@.len(),
            v@ == s@,
            w@ == p@,
            at == v.len() - w.len(),
            forall|j: int| 0 <= j < i ==> v@[at + j] == w@[j],
        decreases w@.len() - i,
    {
        if v[at + i] != w[i] {
            assert(v@.subrange(at as int, v@.len() as int)[i as int] != w@[i as int]);
            return false;
        }
        i += 1;
    }
    assert(w@ =~= v@.subrange(at as int, v@.len() as int));
    true
}

/// What follows `p` in a text that starts with it.
pub open spec fn after(s: Seq<char>, p: Seq<char>) -> Option<Seq<char>> {
    if p.is_prefix_of(s) {
        Some(s.skip(p.len() as int))
    } else {
        None
    }
}

/// What follows `p` in a text that starts with it.
pub fn strip_prefix(s: &str, p: &str) -> (r: Option<String>)
    ensures
        r is Some <==> after(s@, p@) is Some,
        r matches Some(t) ==> after(s@, p@) == Some(t@),
{
    if starts_with(s, p) {
        let v = chars_of(s);
        let n: usize = chars_of(p).len();
        assert(v@.subrange(n as int, v@.len() as int) =~= v@.skip(n as int));
        Some(text_of(&v, n, v.len()))
    } else {
        None
    }
}

/// What stands before `p` in a text that ends with it.
pub open spec fn before(s: Seq<char>, p: Seq<char>) -> Option<Seq<char>> {
    if p.is_suffix_of(s) {
        Some(s.take(s.len() - p.len()))
    } else {
        None
    }
}

/// What stands before `p` in a text that ends with it.
pub fn strip_suffix(s: &str, p: &str) -> (r: Option<String>)
    ensures
        r is Some <==> before(s@, p@) is Some,
        r matches Some(t) ==> before(s@, p@) == Some(t@),
{
    if ends_with(s, p) {
        let v = chars_of(s);
        let n: usize = v.len() - chars_of(p).len();
        assert(v@.subrange(0, n as int) =~= v@.take(n as int));
        Some(text_of(&v, 0, n))
    } else {
        None
    }
}

/// Where the first `c` stands, or the length of a text without one.
pub open spec fn first_at(s: Seq<char>, c: char) -> int
    decreases s.len(),
{
    if s.len() == 0 || s[0] == c {
        0
    } else {
        1 + first_at(s.skip(1), c)
    }
}

/// Where the first `c` stands, or the length of a text without one.
pub fn find_char(v: &[char], c: char) -> (r: usize)
    ensures
        r == first_at(v@, c),
        r <= v@.len(),
        r < v@.len() ==> v@[r as int] == c,
{
    let mut i: usize = 0;
    assert(v@.skip(0) =~= v@);
    while i < v.len() && v[i] != c
        invariant
            i <= v@.len(),
            first_at(v@, c) == i + first_at(v@.skip(i as int), c),
        decreases v@.len() - i,
    {
        assert(v@.skip(i as int).skip(1) =~= v@.skip(i + 1));
        i += 1;
    }
    i
}

/// Whether a character occurs in a text.
pub fn has_char(s: &str, c: char) -> (r: bool)
    ensures
        r == s@.contains(c),
{
    let v = chars_of(s);
    let mut i: usize = 0;
    while i < v.len()
        invariant
            i <= v@.len(),
            v@ == s@,
            forall|j: int| 0 <= j < i ==> v@[j] != c,
        decreases v@.len() - i,
    {
        if v[i] == c {
            assert(s@[i as int] == c);
            return true;
        }
        i += 1;
    }
    false
}

/// Where one text occurs in another.
pub open spec fn occurs_at(s: Seq<char>, p: Seq<char>, i: int) -> bool {
    0 <= i && i + p.len() <= s.len() && s.subrange(i, i + p.len()) == p
}

/// Whether one text occurs in another.
pub open spec fn has_text(s: Seq<char>, p: Seq<char>) -> bool {
    exists|i: int| occurs_at(s, p, i)
}

/// Whether one text occurs in another.
pub fn contains(s: &str, p: &str) -> (r: bool)
    ensures
        r == has_text(s@, p@),
{
    let v = chars_of(s);
    let w = chars_of(p);
    if w.len() > v.len() {
        return false;
    }
    let mut i: usize = 0;
    while i <= v.len() - w.len()
        invariant
            w@.len() <= v@.len(),
            v@ == s@,
            w@ == p@,
            i <= v@.len() - w@.len() + 1,
            forall|k: int| 0 <= k < i ==> !occurs_at(v@, w@, k),
        decreases v@.len() + 1 - i,
    {
        let mut j: usize = 0;
        while j < w.len() && v[i + j] == w[j]
            invariant
                j <= w@.len(),
                i + w.len() <= v.len(),
                forall|k: int| 0 <= k < j ==> v@[i + k] == w@[k],
            decreases w@.len() - j,
        {
            j += 1;
        }
        if j == w.len() {
            assert(v@.subrange(i as int, i + w@.len()) =~= w@);
            assert(occurs_at(v@, w@, i as int));
            return true;
        }
        assert(v@.subrange(i as int, i + w@.len())[j as int] != w@[j as int]);
        i += 1;
    }
    false
}

/// A text cut at every `sep`: one piece more than there are separators.
pub open spec fn pieces(s: Seq<char>, sep: char) -> Seq<Seq<char>>
    decreases s.len(),
{
    if s.len() == 0 {
        seq![Seq::empty()]
    } else if s.last() == sep {
        pieces(s.drop_last(), sep).push(Seq::empty())
    } else {
        let before = pieces(s.drop_last(), sep);
        before.drop_last().push(before.last().push(s.last()))
    }
}

/// The contents of a list of texts.
pub open spec fn texts(v: Seq<String>) -> Seq<Seq<char>> {
    v.map_values(|s: String| s@)
}

/// There is always at least one piece.
pub proof fn lemma_pieces_nonempty(s: Seq<char>, sep: char)
    ensures
        pieces(s, sep).len() >= 1,
    decreases s.len(),
{
    if s.len() > 0 {
        lemma_pieces_nonempty(s.drop_last(), sep);
    }
}

/// A text cut at every `sep`.
pub fn split(s: &str, sep: char) -> (r: Vec<String>)
    ensures
        texts(r@) == pieces(s@, sep),
{
    let v = chars_of(s);
    let mut out: Vec<String> = Vec::new();
    let mut cur = String::new();
    let mut i: usize = 0;
    assert(texts(out@).push(cur@) =~= pieces(v@.take(0), sep));
    while i < v.len()
        invariant
            i <= v@.len(),
            texts(out@).push(cur@) == pieces(v@.take(i as int), sep),
        decreases v@.len() - i,
    {
        let ghost before = texts(out@);
        assert(v@.take(i + 1).drop_last() =~= v@.take(i as int));
        if v[i] == sep {
            let mut done = String::new();
            core::mem::swap(&mut done, &mut cur);
            out.push(done);
            assert(texts(out@) =~= before.push(done@));
        } else {
            assert(before.push(cur@).drop_last() =~= before);
            cur.push(v[i]);
        }
        i += 1;
    }
    assert(v@.take(i as int) =~= v@);
    let ghost before = texts(out@);
    out.push(cur);
    assert(texts(out@) =~= before.push(cur@));
    out
}

/// A separator between two texts, the second of which holds none, parts them.
pub proof fn lemma_pieces_join(a: Seq<char>, sep: char, b: Seq<char>)
    requires
        !b.contains(sep),
    ensures
        pieces(a.push(sep) + b, sep) == pieces(a, sep).push(b),
    decreases b.len(),
{
    let s = a.push(sep) + b;
    if b.len() == 0 {
        assert(s.drop_last() =~= a);
        assert(b =~= Seq::empty());
    } else {
        assert(b.contains(b.last()));
        assert forall|i: int| 0 <= i < b.len() - 1 implies b.drop_last()[i] != sep by {
            assert(b.contains(b[i]));
        }
        lemma_pieces_join(a, sep, b.drop_last());
        assert(s.drop_last() =~= a.push(sep) + b.drop_last());
        let p = pieces(s.drop_last(), sep);
        assert(p.drop_last() =~= pieces(a, sep));
        assert(p.last().push(s.last()) =~= b);
    }
}

/// No piece holds the separator.
pub proof fn lemma_pieces_hold_no_separator(s: Seq<char>, sep: char, i: int)
    requires
        0 <= i < pieces(s, sep).len(),
    ensures
        !pieces(s, sep)[i].contains(sep),
    decreases s.len(),
{
    if s.len() > 0 {
        let p = pieces(s.drop_last(), sep);
        lemma_pieces_nonempty(s.drop_last(), sep);
        if s.last() == sep {
            if i < p.len() {
                lemma_pieces_hold_no_separator(s.drop_last(), sep, i);
            }
        } else {
            lemma_pieces_hold_no_separator(s.drop_last(), sep, i);
            let t = pieces(s, sep)[i];
            assert forall|k: int| 0 <= k < t.len() implies t[k] != sep by {
                if i == p.len() - 1 {
                    if k < p.last().len() {
                        assert(p.last().contains(p.last()[k]));
                    }
                } else {
                    assert(p[i].contains(p[i][k]));
                }
            }
        }
    }
}

/// The decimal digits of a number.
pub open spec fn decimal(n: nat) -> Seq<char>
    decreases n,
{
    if n < 10 {
        seq![digit(n)]
    } else {
        decimal(n / 10).push(digit(n % 10))
    }
}

/// One decimal digit.
pub open spec fn digit(d: nat) -> char {
    (48 + d) as char
}

/// The decimal digits of a number.
pub fn number(n: u64) -> (r: String)
    ensures
        r@ == decimal(n as nat),
    decreases n,
{
    let mut s = if n < 10 { String::new() } else { number(n / 10) };
    s.push((48u8 + (n % 10) as u8) as char);
    assert(s@ =~= decimal(n as nat));
    s
}

/// The decimal digits of a number below a hundred, always two of them.
pub open spec fn two_digits(n: nat) -> Seq<char> {
    if n < 10 {
        seq!['0', digit(n)]
    } else {
        decimal(n)
    }
}

/// A number with a zero in front where it would be a single digit.
pub fn number02(n: u64) -> (r: String)
    ensures
        r@ == two_digits(n as nat),
{
    if n < 10 {
        let mut s = String::new();
        s.push('0');
        s.push((48u8 + n as u8) as char);
        assert(s@ =~= two_digits(n as nat));
        s
    } else {
        number(n)
    }
}

/// Two texts one after the other.
pub fn join2(a: &str, b: &str) -> (r: String)
    ensures
        r@ == a@ + b@,
{
    let mut s = owned(a);
    s.append(b);
    s
}

/// Three texts one after the other.
pub fn join3(a: &str, b: &str, c: &str) -> (r: String)
    ensures
        r@ == a@ + b@ + c@,
{
    let mut s = owned(a);
    s.append(b);
    s.append(c);
    s
}

/// A text with its ASCII letters in lower case.
pub open spec fn ascii_lower(s: Seq<char>) -> Seq<char> {
    s.map_values(|c: char| ascii_lower_char(c))
}

/// Whether two texts are the same but for the case of ASCII letters.
pub fn same_ignoring_case(a: &str, b: &str) -> (r: bool)
    ensures
        r == (ascii_lower(a@) == ascii_lower(b@)),
{
    let v = chars_of(a);
    let w = chars_of(b);
    if v.len() != w.len() {
        assert(ascii_lower(a@).len() != ascii_lower(b@).len());
        return false;
    }
    let mut i: usize = 0;
    while i < v.len()
        invariant
            i <= v@.len() == w@.len(),
            v@ == a@,
            w@ == b@,
            forall|j: int| 0 <= j < i ==> ascii_lower_char(v@[j]) == ascii_lower_char(w@[j]),
        decreases v@.len() - i,
    {
        if lower_char(v[i]) != lower_char(w[i]) {
            assert(ascii_lower(a@)[i as int] != ascii_lower(b@)[i as int]);
            return false;
        }
        i += 1;
    }
    assert(ascii_lower(a@) =~= ascii_lower(b@));
    true
}

/// The words of a text: its longest runs without white space.
pub open spec fn words(s: Seq<char>) -> Seq<Seq<char>>
    decreases s.len(),
{
    if s.len() == 0 {
        Seq::empty()
    } else {
        let before = words(s.drop_last());
        if is_white(s.last()) {
            before
        } else if s.len() == 1 || is_white(s[s.len() - 2]) {
            before.push(seq![s.last()])
        } else {
            before.drop_last().push(before.last().push(s.last()))
        }
    }
}

/// The words of a text.
pub fn split_words(s: &str) -> (r: Vec<String>)
    ensures
        texts(r@) == words(s@),
{
    let v = chars_of(s);
    let mut out: Vec<String> = Vec::new();
    let mut cur = String::new();
    let mut in_word = false;
    let mut i: usize = 0;
    assert(texts(out@) =~= words(v@.take(0)));
    while i < v.len()
        invariant
            i <= v@.len(),
            in_word == (i > 0 && !is_white(v@[i - 1])),
            !in_word ==> cur@.len() == 0 && texts(out@) == words(v@.take(i as int)),
            in_word ==> texts(out@).push(cur@) == words(v@.take(i as int)),
        decreases v@.len() - i,
    {
        let ghost before = texts(out@);
        let ghost sofar = v@.take(i + 1);
        assert(sofar.drop_last() =~= v@.take(i as int));
        if white(v[i]) {
            if in_word {
                let mut done = String::new();
                core::mem::swap(&mut done, &mut cur);
                out.push(done);
                assert(texts(out@) =~= before.push(done@));
            }
            in_word = false;
        } else {
            assert(before.push(cur@).drop_last() =~= before);
            let ghost c0 = cur@;
            cur.push(v[i]);
            assert(!in_word ==> cur@ =~= seq![v@[i as int]]);
            in_word = true;
        }
        i += 1;
    }
    assert(v@.take(i as int) =~= v@);
    if in_word {
        let ghost before = texts(out@);
        out.push(cur);
        assert(texts(out@) =~= before.push(cur@));
    }
    out
}

/// Texts one after the other, with `sep` between them.
pub open spec fn joined_by(v: Seq<Seq<char>>, sep: Seq<char>) -> Seq<char>
    decreases v.len(),
{
    if v.len() == 0 {
        Seq::empty()
    } else if v.len() == 1 {
        v[0]
    } else {
        joined_by(v.drop_last(), sep) + sep + v.last()
    }
}

/// Texts one after the other, with `sep` between them.
pub fn join_by(v: &Vec<String>, sep: &str) -> (r: String)
    ensures
        r@ == joined_by(texts(v@), sep@),
{
    let ghost ts = texts(v@);
    if v.len() == 0 {
        return String::new();
    }
    let mut out = v[0].clone();
    assert(ts.take(1)[0] == out@);
    let mut i: usize = 1;
    while i < v.len()
        invariant
            1 <= i <= v@.len(),
            ts == texts(v@),
            out@ == joined_by(ts.take(i as int), sep@),
        decreases v@.len() - i,
    {
        assert(ts.take(i + 1).drop_last() =~= ts.take(i as int));
        out.append(sep);
        out.append(&v[i]);
        i += 1;
    }
    assert(ts.take(i as int) =~= ts);
    out
}

/// The longest start of a text that fits in `max` bytes.
pub open spec fn clipped(s: Seq<char>, max: nat) -> Seq<char>
    decreases s.len(),
{
    if s.len() == 0 || utf8_len(s) <= max {
        s
    } else {
        clipped(s.drop_last(), max)
    }
}

/// The longest start of a text that fits in `max` bytes.
pub fn clip(s: &str, max: usize) -> (r: String)
    ensures
        r@ == clipped(s@, max as nat),
{
    let v = chars_of(s);
    let mut n: usize = v.len();
    let mut out = text_of(&v, 0, n);
    assert(out@ =~= s@);
    while n > 0 && byte_len(&out) > max
        invariant
            n <= v@.len(),
            out@ == v@.take(n as int),
            clipped(s@, max as nat) == clipped(out@, max as nat),
        decreases n,
    {
        assert(out@.drop_last() =~= v@.take(n - 1));
        n -= 1;
        out = text_of(&v, 0, n);
        assert(out@ =~= v@.take(n as int));
    }
    out
}

/// Clipping keeps a text that fits, and always gives one that does.
pub proof fn law_clipped_fits(s: Seq<char>, max: nat)
    ensures
        utf8_len(clipped(s, max)) <= max,
        utf8_len(s) <= max ==> clipped(s, max) == s,
        clipped(s, max).is_prefix_of(s),
    decreases s.len(),
{
    if s.len() > 0 && utf8_len(s) > max {
        law_clipped_fits(s.drop_last(), max);
        let c = clipped(s.drop_last(), max);
        assert(c =~= s.subrange(0, c.len() as int)) by {
            assert(c =~= s.drop_last().subrange(0, c.len() as int));
        }
    } else {
        assert(s =~= s.subrange(0, s.len() as int));
    }
}

proof fn lemma_words_of_word(s: Seq<char>)
    requires
        s.len() > 0,
        !is_white(s.last()),
    ensures
        words(s).len() > 0,
    decreases s.len(),
{
    if s.len() > 1 && !is_white(s[s.len() - 2]) {
        lemma_words_of_word(s.drop_last());
    }
}

/// The words of two texts with a space between are the words of the one and then those of the other.
pub proof fn law_words_of_two(a: Seq<char>, b: Seq<char>)
    ensures
        words(a.push(' ') + b) == words(a) + words(b),
    decreases b.len(),
{
    let s = a.push(' ') + b;
    if b.len() == 0 {
        assert(s =~= a.push(' '));
        assert(s.drop_last() =~= a);
        assert(words(a) + words(b) =~= words(a));
    } else {
        law_words_of_two(a, b.drop_last());
        assert(s.drop_last() =~= a.push(' ') + b.drop_last());
        assert(s.last() == b.last());
        if is_white(b.last()) {
        } else if b.len() == 1 {
            assert(s[s.len() - 2] == ' ');
            assert(words(b) =~= seq![seq![b.last()]]);
            assert(words(s) =~= words(a) + words(b));
        } else {
            assert(s[s.len() - 2] == b[b.len() - 2]);
            let before = words(b.drop_last());
            if is_white(b[b.len() - 2]) {
                assert(words(s) =~= words(a) + words(b));
            } else {
                lemma_words_of_word(b.drop_last());
                assert((words(a) + before).drop_last() =~= words(a) + before.drop_last());
                assert((words(a) + before).last() == before.last());
                assert(words(s) =~= words(a) + words(b));
            }
        }
    }
}

/// No word holds white space, and every word holds something.
pub proof fn law_words_are_whole(s: Seq<char>, k: int)
    requires
        0 <= k < words(s).len(),
    ensures
        words(s)[k].len() > 0,
        forall|i: int| 0 <= i < words(s)[k].len() ==> !is_white(#[trigger] words(s)[k][i]),
    decreases s.len(),
{
    let before = words(s.drop_last());
    if is_white(s.last()) {
        law_words_are_whole(s.drop_last(), k);
    } else if s.len() == 1 || is_white(s[s.len() - 2]) {
        if k < before.len() {
            law_words_are_whole(s.drop_last(), k);
        }
    } else {
        lemma_words_of_word(s.drop_last());
        law_words_are_whole(s.drop_last(), k);
    }
}

/// A text holds another exactly where it is that one with something before and something after.
pub proof fn law_held_text_stands_somewhere(before: Seq<char>, held: Seq<char>, after: Seq<char>)
    ensures
        has_text(before + held + after, held),
{
    let s = before + held + after;
    assert(s.subrange(before.len() as int, (before.len() + held.len()) as int) =~= held);
    assert(occurs_at(s, held, before.len() as int));
}

/// A text that is held is no longer than what holds it, and its characters stand there in a row.
pub proof fn law_held_text_is_a_part(s: Seq<char>, held: Seq<char>)
    requires
        has_text(s, held),
    ensures
        exists|before: Seq<char>, after: Seq<char>| s == #[trigger] (before + held + after),
{
    let i = choose|i: int| occurs_at(s, held, i);
    let before = s.take(i);
    let after = s.skip(i + held.len());
    assert forall|k: int| 0 <= k < held.len() implies s[i + k] == held[k] by {
        assert(s.subrange(i, i + held.len())[k] == held[k]);
    }
    assert(s =~= before + held + after);
}

/// Trimming takes white space off the ends and nothing else.
pub proof fn law_trimming_takes_white_space_alone(s: Seq<char>)
    ensures
        trimmed(s).len() > 0 ==> !is_white(trimmed(s)[0]) && !is_white(trimmed(s).last()),
        exists|before: Seq<char>, after: Seq<char>|
            s == #[trigger] (before + trimmed(s) + after) && (forall|i: int| 0 <= i < before.len() ==> is_white(before[i])) && (
            forall|i: int| 0 <= i < after.len() ==> is_white(after[i])),
{
    let before = lemma_trim_start(s);
    let t = trim_start(s);
    let after = lemma_trim_end(t);
    assert(s =~= before + trimmed(s) + after);
    if trimmed(s).len() > 0 {
        assert(trimmed(s)[0] == t[0]);
    }
}

proof fn lemma_trim_start(s: Seq<char>) -> (cut: Seq<char>)
    ensures
        s == cut + trim_start(s),
        forall|i: int| 0 <= i < cut.len() ==> is_white(cut[i]),
        trim_start(s).len() > 0 ==> !is_white(trim_start(s)[0]),
    decreases s.len(),
{
    if s.len() > 0 && is_white(s[0]) {
        let cut = lemma_trim_start(s.skip(1));
        let all = seq![s[0]] + cut;
        assert(s =~= all + trim_start(s)) by {
            assert(s.skip(1) == cut + trim_start(s));
            assert(s =~= seq![s[0]] + s.skip(1));
        }
        all
    } else {
        assert(s =~= Seq::<char>::empty() + s);
        Seq::empty()
    }
}

proof fn lemma_trim_end(s: Seq<char>) -> (cut: Seq<char>)
    ensures
        s == trim_end(s) + cut,
        forall|i: int| 0 <= i < cut.len() ==> is_white(cut[i]),
        trim_end(s).len() > 0 ==> !is_white(trim_end(s).last()),
    decreases s.len(),
{
    if s.len() > 0 && is_white(s.last()) {
        let cut = lemma_trim_end(s.drop_last());
        let all = cut.push(s.last());
        assert(s =~= trim_end(s) + all) by {
            assert(s.drop_last() == trim_end(s) + cut);
            assert(s =~= s.drop_last().push(s.last()));
        }
        all
    } else {
        assert(s =~= s + Seq::<char>::empty());
        Seq::empty()
    }
}

/// Lower case leaves no capital letter of the alphabet, upper case no small one; each undoes the other, and what is
/// no letter stays.
pub proof fn law_letters_have_two_cases(c: char)
    ensures
        !('A' <= ascii_lower_char(c) <= 'Z'),
        !('a' <= ascii_upper_char(c) <= 'z'),
        'a' <= c <= 'z' ==> ascii_lower_char(ascii_upper_char(c)) == c && 'A' <= ascii_upper_char(c) <= 'Z',
        'A' <= c <= 'Z' ==> ascii_upper_char(ascii_lower_char(c)) == c && 'a' <= ascii_lower_char(c) <= 'z',
        !('a' <= c <= 'z') && !('A' <= c <= 'Z') ==> ascii_lower_char(c) == c && ascii_upper_char(c) == c,
{
}

/// The number that decimal digits stand for.
pub open spec fn value_of(digits: Seq<char>) -> int
    decreases digits.len(),
{
    if digits.len() == 0 {
        0
    } else {
        value_of(digits.drop_last()) * 10 + (digits.last() as int - '0' as int)
    }
}

/// A number is written with digits that stand for it, without a zero in front.
pub proof fn law_decimal_reads_back(n: nat)
    ensures
        value_of(decimal(n)) == n,
        decimal(n).len() > 0,
        forall|i: int| 0 <= i < decimal(n).len() ==> '0' <= #[trigger] decimal(n)[i] <= '9',
        n > 0 ==> decimal(n)[0] != '0',
    decreases n,
{
    reveal_with_fuel(value_of, 2);
    if n < 10 {
        assert(decimal(n).drop_last() =~= Seq::empty());
    } else {
        law_decimal_reads_back(n / 10);
        assert(decimal(n).drop_last() =~= decimal(n / 10));
    }
}

/// Two digits are two characters that stand for the number, below a hundred.
pub proof fn law_two_digits_read_back(n: nat)
    requires
        n < 100,
    ensures
        two_digits(n).len() == 2,
        value_of(two_digits(n)) == n,
{
    reveal_with_fuel(value_of, 3);
    reveal_with_fuel(decimal, 2);
    law_decimal_reads_back(n);
    if n < 10 {
        assert(two_digits(n).drop_last() =~= seq!['0']);
        assert(seq!['0'].drop_last() =~= Seq::empty());
    }
}

/// The first of a character is found behind all that does not hold it; where it is not there, the end is.
pub proof fn law_first_stands_before(s: Seq<char>, c: char, rest: Seq<char>)
    requires
        !s.contains(c),
    ensures
        first_at(s, c) == s.len(),
        first_at(s.push(c) + rest, c) == s.len(),
    decreases s.len(),
{
    let t = s.push(c) + rest;
    if s.len() == 0 {
        assert(t[0] == c);
    } else {
        assert(s[0] != c);
        assert forall|i: int| 0 <= i < s.skip(1).len() implies s.skip(1)[i] != c by {
            assert(s[i + 1] != c);
        }
        law_first_stands_before(s.skip(1), c, rest);
        assert(t.skip(1) =~= s.skip(1).push(c) + rest);
    }
}

/// A text that is cut keeps as much as fits: with one character more it would be too long.
pub proof fn law_cut_texts_keep_what_fits(s: Seq<char>, max: nat)
    requires
        clipped(s, max).len() < s.len(),
    ensures
        utf8_len(s.take(clipped(s, max).len() as int + 1)) > max,
    decreases s.len(),
{
    let c = clipped(s.drop_last(), max);
    law_clipped_fits(s.drop_last(), max);
    if c.len() == s.len() - 1 {
        assert(s.take(c.len() as int + 1) =~= s);
    } else {
        law_cut_texts_keep_what_fits(s.drop_last(), max);
        assert(s.drop_last().take(c.len() as int + 1) =~= s.take(c.len() as int + 1));
    }
}

/// Texts that are joined stand in their order with the separator between, and each of them can be found there.
pub proof fn law_joined_texts_stand_in_order(v: Seq<Seq<char>>, sep: Seq<char>, i: int)
    requires
        0 <= i < v.len(),
    ensures
        has_text(joined_by(v, sep), v[i]),
        v.len() == 1 ==> joined_by(v, sep) == v[0],
        v.len() == 2 ==> joined_by(v, sep) == v[0] + sep + v[1],
    decreases v.len(),
{
    reveal_with_fuel(joined_by, 3);
    let none = Seq::<char>::empty();
    if v.len() == 1 {
        law_held_text_stands_somewhere(none, v[0], none);
        assert(none + v[0] + none =~= v[0]);
    } else {
        let front = joined_by(v.drop_last(), sep);
        if i < v.len() - 1 {
            law_joined_texts_stand_in_order(v.drop_last(), sep, i);
            assert(v.drop_last()[i] == v[i]);
            let k = choose|k: int| occurs_at(front, v[i], k);
            let all = joined_by(v, sep);
            assert(all.subrange(k, k + v[i].len()) =~= front.subrange(k, k + v[i].len()));
            assert(occurs_at(all, v[i], k));
        } else {
            law_held_text_stands_somewhere(front + sep, v.last(), none);
            assert(front + sep + v.last() + none =~= joined_by(v, sep));
        }
    }
}

} // verus!
