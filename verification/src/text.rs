//! Text helpers: null-terminated names, UTF-8 decoding, string equality and
//! decimal formatting of integers.
use vstd::prelude::*;
use vstd::utf8::*;
use vstd::string::StringSliceAdditionalSpecFns;

verus! {

broadcast use group_utf8_lib;

#[verifier::external_type_specification]
#[verifier::external_body]
pub struct ExUtf8Error(core::str::Utf8Error);

/// The length of the longest prefix of `v[..i]` that is valid UTF-8.
pub open spec fn spec_valid_prefix_from(v: Seq<u8>, i: int) -> int
    decreases i,
{
    if i <= 0 {
        0
    } else if valid_utf8(v.take(i)) {
        i
    } else {
        spec_valid_prefix_from(v, i - 1)
    }
}

/// The length of the longest prefix of `v` that is valid UTF-8.
pub open spec fn spec_valid_prefix_len(v: Seq<u8>) -> int {
    spec_valid_prefix_from(v, v.len() as int)
}

/// What `Utf8Error::valid_up_to` returns for an error.
pub uninterp spec fn spec_valid_up_to(e: core::str::Utf8Error) -> usize;

/// `core::str::from_utf8`: succeeds exactly when the bytes are valid UTF-8,
/// and then returns the string whose UTF-8 encoding is those bytes. On an
/// error, `valid_up_to` is, as its documentation says, the greatest index up
/// to which the bytes are valid UTF-8. The error's `error_len` is left
/// unsaid.
#[verifier::external_body]
pub(crate) fn str_from_utf8(v: &[u8]) -> (res: Result<&str, core::str::Utf8Error>)
    ensures
        res is Ok <==> valid_utf8(v@),
        res matches Ok(s) ==> s.spec_bytes() == v@,
        res matches Err(e) ==> spec_valid_up_to(e) == spec_valid_prefix_len(v@),
{
    core::str::from_utf8(v)
}

/// The index of the first zero byte at or after `i`, or the length when there
/// is none.
pub open spec fn spec_nul_end_from(b: Seq<u8>, i: int) -> int
    decreases b.len() - i,
{
    if i >= b.len() {
        b.len() as int
    } else if b[i] == 0 {
        i
    } else {
        spec_nul_end_from(b, i + 1)
    }
}

/// The length of the text that a zero byte terminates in `b`: the index of
/// the first zero byte, or the whole length.
pub open spec fn spec_nul_end(b: Seq<u8>) -> int {
    spec_nul_end_from(b, 0)
}

proof fn lemma_nul_end_bounds(b: Seq<u8>, i: int)
    requires
        0 <= i <= b.len(),
    ensures
        i <= spec_nul_end_from(b, i) <= b.len(),
        spec_nul_end_from(b, i) < b.len() ==> b[spec_nul_end_from(b, i)] == 0,
        forall|j: int| i <= j < spec_nul_end_from(b, i) ==> b[j] != 0,
    decreases b.len() - i,
{
    if i < b.len() && b[i] != 0 {
        lemma_nul_end_bounds(b, i + 1);
    }
}

/// Public for the properties of null-terminated names that callers rely on.
pub proof fn lemma_nul_end(b: Seq<u8>)
    ensures
        0 <= spec_nul_end(b) <= b.len(),
        spec_nul_end(b) < b.len() ==> b[spec_nul_end(b)] == 0,
        forall|j: int| 0 <= j < spec_nul_end(b) ==> b[j] != 0,
{
    lemma_nul_end_bounds(b, 0);
}

/// The error of [`null_terminated_bytes_to_str`]: the text before the first
/// zero byte (of length `end`) is not valid UTF-8; `str_error` says how far
/// it is.
#[derive(Debug)]
pub struct NullTerminatedStrError {
    pub end: usize,
    pub str_error: core::str::Utf8Error,
}

/// Interprets `bytes` up to the first zero byte (or all of them) as UTF-8 text.
pub fn null_terminated_bytes_to_str<'a>(bytes: &'a [u8]) -> (res: Result<
    &'a str,
    NullTerminatedStrError,
>)
    ensures
        res is Ok <==> valid_utf8(bytes@.subrange(0, spec_nul_end(bytes@))),
        res matches Ok(s) ==> s.spec_bytes() == bytes@.subrange(0, spec_nul_end(bytes@)),
        res matches Err(e) ==> e.end == spec_nul_end(bytes@) && spec_valid_up_to(e.str_error)
            == spec_valid_prefix_len(bytes@.subrange(0, spec_nul_end(bytes@))),
{
    let n = bytes.len();
    let mut end: usize = 0;
    while end < n && bytes[end] != 0
        invariant
            n == bytes@.len(),
            0 <= end <= n,
            spec_nul_end_from(bytes@, 0) == spec_nul_end_from(bytes@, end as int),
        decreases n - end,
    {
        end += 1;
    }
    proof {
        lemma_nul_end_bounds(bytes@, 0);
    }
    match str_from_utf8(&bytes[0..end]) {
        Ok(string) => Ok(string),
        Err(err) => Err(NullTerminatedStrError { end, str_error: err }),
    }
}

/// Whether two strings hold the same characters.
pub fn str_eq(a: &str, b: &str) -> (res: bool)
    ensures
        res == (a@ == b@),
{
    let ab = a.as_bytes();
    let bb = b.as_bytes();
    let n = ab.len();
    if n != bb.len() {
        return false;
    }
    let mut i: usize = 0;
    while i < n
        invariant
            n == ab@.len(),
            n == bb@.len(),
            ab@ == a.spec_bytes(),
            bb@ == b.spec_bytes(),
            0 <= i <= n,
            forall|j: int| 0 <= j < i ==> ab@[j] == bb@[j],
        decreases n - i,
    {
        if ab[i] != bb[i] {
            return false;
        }
        i += 1;
    }
    assert(ab@ =~= bb@);
    assert(decode_utf8(encode_utf8(a@)) == a@);
    assert(decode_utf8(encode_utf8(b@)) == b@);
    true
}

/// The character of a decimal digit `d` (0 to 9).
pub open spec fn spec_digit(d: nat) -> char {
    (48 + d) as char
}

/// The decimal text of `n`, most significant digit first, without leading zeros.
pub open spec fn spec_decimal(n: nat) -> Seq<char>
    decreases n,
{
    if n < 10 {
        seq![spec_digit(n)]
    } else {
        spec_decimal(n / 10).push(spec_digit(n % 10))
    }
}

/// The decimal text of a signed integer: a minus sign before the digits of a
/// negative value.
pub open spec fn spec_signed_decimal(i: int) -> Seq<char> {
    if i < 0 {
        seq!['-'] + spec_decimal((-i) as nat)
    } else {
        spec_decimal(i as nat)
    }
}

/// The text of a single decimal digit.
fn digit_text(d: u64) -> (res: &'static str)
    requires
        d < 10,
    ensures
        res@ == seq![spec_digit(d as nat)],
{
    proof {
        reveal_strlit("0");
        reveal_strlit("1");
        reveal_strlit("2");
        reveal_strlit("3");
        reveal_strlit("4");
        reveal_strlit("5");
        reveal_strlit("6");
        reveal_strlit("7");
        reveal_strlit("8");
        reveal_strlit("9");
    }
    match d {
        0 => "0",
        1 => "1",
        2 => "2",
        3 => "3",
        4 => "4",
        5 => "5",
        6 => "6",
        7 => "7",
        8 => "8",
        _ => "9",
    }
}

/// The decimal text of an unsigned value.
pub fn decimal(x: u64) -> (res: String)
    ensures
        res@ == spec_decimal(x as nat),
    decreases x,
{
    if x < 10 {
        String::from_str(digit_text(x))
    } else {
        let mut text = decimal(x / 10);
        text.append(digit_text(x % 10));
        text
    }
}

/// The decimal text of a signed value.
pub fn signed_decimal(x: i64) -> (res: String)
    ensures
        res@ == spec_signed_decimal(x as int),
{
    if x < 0 {
        let magnitude: u64 = (0i128 - x as i128) as u64;
        let mut text = String::from_str("-");
        proof {
            reveal_strlit("-");
        }
        text.append(decimal(magnitude).as_str());
        text
    } else {
        decimal(x as u64)
    }
}

/// The start of `b[s..e]` once leading bytes `c` are removed.
pub open spec fn spec_trim_start(b: Seq<u8>, s: int, e: int, c: u8) -> int
    decreases e - s,
{
    if s < e && b[s] == c {
        spec_trim_start(b, s + 1, e, c)
    } else {
        s
    }
}

/// The end of `b[s..e]` once trailing bytes `c` are removed.
pub open spec fn spec_trim_end(b: Seq<u8>, s: int, e: int, c: u8) -> int
    decreases e - s,
{
    if s < e && b[e - 1] == c {
        spec_trim_end(b, s, e - 1, c)
    } else {
        e
    }
}

pub proof fn lemma_trim_start_props(b: Seq<u8>, s: int, e: int, c: u8)
    requires
        0 <= s <= e <= b.len(),
    ensures
        s <= spec_trim_start(b, s, e, c) <= e,
        spec_trim_start(b, s, e, c) > s ==> b[spec_trim_start(b, s, e, c) - 1] == c,
    decreases e - s,
{
    if s < e && b[s] == c {
        lemma_trim_start_props(b, s + 1, e, c);
    }
}

pub proof fn lemma_trim_end_props(b: Seq<u8>, s: int, e: int, c: u8)
    requires
        0 <= s <= e <= b.len(),
    ensures
        s <= spec_trim_end(b, s, e, c) <= e,
        spec_trim_end(b, s, e, c) < e ==> b[spec_trim_end(b, s, e, c) as int] == c,
    decreases e - s,
{
    if s < e && b[e - 1] == c {
        lemma_trim_end_props(b, s, e - 1, c);
    }
}

pub fn trim_start(b: &[u8], s: usize, e: usize, c: u8) -> (res: usize)
    requires
        s <= e <= b@.len(),
    ensures
        res == spec_trim_start(b@, s as int, e as int, c),
{
    let mut i = s;
    while i < e && b[i] == c
        invariant
            s <= i <= e <= b@.len(),
            spec_trim_start(b@, s as int, e as int, c) == spec_trim_start(b@, i as int, e as int, c),
        decreases e - i,
    {
        i += 1;
    }
    i
}

pub fn trim_end(b: &[u8], s: usize, e: usize, c: u8) -> (res: usize)
    requires
        s <= e <= b@.len(),
    ensures
        res == spec_trim_end(b@, s as int, e as int, c),
{
    let mut j = e;
    while j > s && b[j - 1] == c
        invariant
            s <= j <= e <= b@.len(),
            spec_trim_end(b@, s as int, e as int, c) == spec_trim_end(b@, s as int, j as int, c),
        decreases j - s,
    {
        j -= 1;
    }
    j
}

pub proof fn lemma_ascii_boundaries(b: Seq<u8>, i: int)
    requires
        valid_utf8(b),
        0 <= i < b.len(),
        b[i] < 0x80,
    ensures
        is_char_boundary(b, i),
        is_char_boundary(b, i + 1),
    decreases b.len(),
{
    let l = length_of_first_scalar(b);
    let p = pop_first_scalar(b);
    assert(valid_first_scalar(b));
    assert(valid_utf8(p));
    if i < l {
        if i > 0 {
            assert(is_continuation_byte(b[i]));
        }
        assert(l == 1);
        assert(is_char_boundary(p, 0));
    } else {
        assert(p.len() == b.len() - l);
        assert(p[i - l] == b[i]);
        lemma_ascii_boundaries(p, i - l);
    }
}

/// A position next to an ASCII byte, or at either end, is a character boundary.
pub proof fn lemma_boundary(b: Seq<u8>, i: int)
    requires
        valid_utf8(b),
        0 <= i <= b.len(),
        i == 0 || i == b.len() || b[i] < 0x80 || b[i - 1] < 0x80,
    ensures
        is_char_boundary(b, i),
{
    is_char_boundary_start_end_of_seq(b);
    if i == 0 || i == b.len() {
    } else if b[i] < 0x80 {
        lemma_ascii_boundaries(b, i);
    } else {
        lemma_ascii_boundaries(b, i - 1);
    }
}

/// The text of `s` between two character boundaries.
pub fn substr<'a>(s: &'a str, i: usize, j: usize) -> (r: &'a str)
    requires
        i <= j <= s.spec_bytes().len(),
        is_char_boundary(s.spec_bytes(), i as int),
        is_char_boundary(s.spec_bytes(), j as int),
    ensures
        r.spec_bytes() == s.spec_bytes().subrange(i as int, j as int),
{
    let ghost b = s.spec_bytes();
    proof {
        assert(valid_utf8(b));
        valid_utf8_split(b, i as int);
    }
    let (_, rest) = s.split_at(i);
    let ghost rb = rest.spec_bytes();
    proof {
        assert(rb =~= b.subrange(i as int, b.len() as int));
        if j < b.len() {
            is_char_boundary_iff_not_is_continuation_byte(b, j as int);
            is_char_boundary_iff_not_is_continuation_byte(rb, (j - i) as int);
            assert(rb[(j - i) as int] == b[j as int]);
        } else {
            is_char_boundary_start_end_of_seq(rb);
        }
    }
    let (mid, _) = rest.split_at(j - i);
    proof {
        assert(mid.spec_bytes() =~= b.subrange(i as int, j as int));
    }
    mid
}

/// `name` without its leading and trailing zero bytes.
pub open spec fn spec_trim_nul(name: Seq<u8>) -> Seq<u8> {
    let s = spec_trim_start(name, 0, name.len() as int, 0);
    name.subrange(s, spec_trim_end(name, s, name.len() as int, 0))
}

/// `s` without its leading and trailing NUL characters.
pub fn trim_nul(s: &str) -> (r: &str)
    ensures
        r.spec_bytes() == spec_trim_nul(s.spec_bytes()),
{
    let b = s.as_bytes();
    let ghost nb = s.spec_bytes();
    let n = b.len();
    proof {
        lemma_trim_start_props(nb, 0, n as int, 0);
    }
    let st = trim_start(b, 0, n, 0);
    proof {
        lemma_trim_end_props(nb, st as int, n as int, 0);
    }
    let e = trim_end(b, st, n, 0);
    proof {
        lemma_boundary(nb, st as int);
        lemma_boundary(nb, e as int);
    }
    substr(s, st, e)
}

/// The text that `String::from_utf8_lossy` makes of some bytes.
pub uninterp spec fn spec_utf8_lossy(b: Seq<u8>) -> Seq<char>;

/// `String::from_utf8_lossy`, made owned: the bytes decoded as UTF-8, with
/// each invalid sequence replaced by U+FFFD. Its documentation says that valid
/// UTF-8 comes back unchanged; the replacement rules are left to the name.
#[verifier::external_body]
fn string_from_utf8_lossy(v: &[u8]) -> (res: String)
    ensures
        res@ == spec_utf8_lossy(v@),
        valid_utf8(v@) ==> res@ == decode_utf8(v@),
{
    String::from_utf8_lossy(v).into_owned()
}

/// The text that `str::to_uppercase` makes of `s`: each character replaced
/// by its Unicode upper case mapping, which may be several characters.
pub uninterp spec fn spec_to_uppercase(s: Seq<char>) -> Seq<char>;

/// `str::to_uppercase`. Its result depends on the text alone (the mapping is
/// the Unicode tables of the standard library); the mapping is left to the
/// name.
#[verifier::external_body]
pub(crate) fn to_uppercase(s: &str) -> (res: String)
    ensures
        res@ == spec_to_uppercase(s@),
{
    s.to_uppercase()
}

/// A fixed-size name field decoded leniently: invalid UTF-8 becomes U+FFFD,
/// and leading and trailing NUL characters are removed.
pub fn lossy_name(name: &[u8]) -> (res: String)
    ensures
        res@ == decode_utf8(spec_trim_nul(encode_utf8(spec_utf8_lossy(name@)))),
        valid_utf8(name@) ==> res@ == decode_utf8(spec_trim_nul(name@)),
{
    let full = string_from_utf8_lossy(name);
    let trimmed = trim_nul(full.as_str());
    proof {
        assert(decode_utf8(trimmed.spec_bytes()) == trimmed@);
        if valid_utf8(name@) {
            assert(encode_utf8(decode_utf8(name@)) == name@);
        }
    }
    trimmed.to_owned()
}

/// A fixed-size name field that must be valid UTF-8, without leading and
/// trailing NUL characters; `None` when it is not valid UTF-8.
pub fn utf8_name(name: &[u8]) -> (res: Option<String>)
    ensures
        res is Some <==> valid_utf8(name@),
        res matches Some(s) ==> s@ == decode_utf8(spec_trim_nul(name@)),
{
    match str_from_utf8(name) {
        Ok(full) => {
            let trimmed = trim_nul(full);
            proof {
                assert(decode_utf8(trimmed.spec_bytes()) == trimmed@);
            }
            Some(trimmed.to_owned())
        },
        Err(_) => None,
    }
}

} // verus!
