//! Typed values of map entities: names, model references, integers and
//! integer vectors, read from an entity's key/value pairs, and the entity
//! kinds whose fields are all of these.
use vstd::prelude::*;
use vstd::utf8::*;
use vstd::slice::slice_to_vec;
use vstd::string::{StringSliceAdditionalSpecFns, StringExecFns};
use crate::entities::{BspEntity, spec_entity_get};
use crate::bytes::F32Bits;
use crate::text::{spec_trim_start, lemma_trim_start_props, trim_start, lemma_boundary, substr, str_eq};

verus! {

broadcast use vstd::string::group_string_axioms, group_utf8_lib;

// ---- characters ---------------------------------------------------------------

/// The characters of `s`.
pub fn chars_of(s: &str) -> (res: Vec<char>)
    ensures
        res@ == s@,
{
    let mut out: Vec<char> = Vec::new();
    for c in it: s.chars()
        invariant
            out@ == it.seq().take(it.index() as int),
    {
        out.push(c);
    }
    assert(out@ =~= s@);
    out
}

/// The characters with the Unicode `White_Space` property, which
/// `char::is_whitespace` tests.
pub open spec fn spec_is_whitespace(c: char) -> bool {
    let u = c as u32;
    ||| 9 <= u <= 13
    ||| u == 32
    ||| u == 0x85
    ||| u == 0xA0
    ||| u == 0x1680
    ||| 0x2000 <= u <= 0x200A
    ||| u == 0x2028
    ||| u == 0x2029
    ||| u == 0x202F
    ||| u == 0x205F
    ||| u == 0x3000
}

fn is_whitespace(c: char) -> (res: bool)
    ensures
        res == spec_is_whitespace(c),
{
    let u = c as u32;
    (9 <= u && u <= 13) || u == 32 || u == 0x85 || u == 0xA0 || u == 0x1680 || (0x2000 <= u && u
        <= 0x200A) || u == 0x2028 || u == 0x2029 || u == 0x202F || u == 0x205F || u == 0x3000
}

/// The first position at or after `i` that is not whitespace.
pub open spec fn spec_skip_ws(s: Seq<char>, i: int) -> int
    decreases s.len() - i,
{
    if 0 <= i < s.len() && spec_is_whitespace(s[i]) {
        spec_skip_ws(s, i + 1)
    } else {
        i
    }
}

/// The first position at or after `i` that is whitespace.
pub open spec fn spec_word_end(s: Seq<char>, i: int) -> int
    decreases s.len() - i,
{
    if 0 <= i < s.len() && !spec_is_whitespace(s[i]) {
        spec_word_end(s, i + 1)
    } else {
        i
    }
}

pub proof fn lemma_skip_ws(s: Seq<char>, i: int)
    requires
        0 <= i <= s.len(),
    ensures
        i <= spec_skip_ws(s, i) <= s.len(),
        spec_skip_ws(s, i) < s.len() ==> !spec_is_whitespace(s[spec_skip_ws(s, i)]),
    decreases s.len() - i,
{
    if i < s.len() && spec_is_whitespace(s[i]) {
        lemma_skip_ws(s, i + 1);
    }
}

pub proof fn lemma_word_end(s: Seq<char>, i: int)
    requires
        0 <= i <= s.len(),
    ensures
        i <= spec_word_end(s, i) <= s.len(),
        i < s.len() && !spec_is_whitespace(s[i]) ==> i < spec_word_end(s, i),
    decreases s.len() - i,
{
    if i < s.len() && !spec_is_whitespace(s[i]) {
        lemma_word_end(s, i + 1);
    }
}

/// The words of `s` from position `i` on: its maximal runs of characters
/// that are not whitespace, in order.
pub open spec fn spec_words_from(s: Seq<char>, i: int) -> Seq<Seq<char>>
    decreases s.len() - i,
{
    if i < 0 || i > s.len() {
        Seq::empty()
    } else {
        let j = spec_skip_ws(s, i);
        proof {
            lemma_skip_ws(s, i);
        }
        if j >= s.len() {
            Seq::empty()
        } else {
            let k = spec_word_end(s, j);
            proof {
                lemma_word_end(s, j);
            }
            seq![s.subrange(j, k)] + spec_words_from(s, k)
        }
    }
}

/// What `str::split_whitespace` yields for text `s`.
pub open spec fn spec_split_whitespace(s: Seq<char>) -> Seq<Seq<char>> {
    spec_words_from(s, 0)
}

pub open spec fn spec_words_view(w: Seq<Vec<char>>) -> Seq<Seq<char>> {
    w.map_values(|x: Vec<char>| x@)
}

/// The words of `s`.
pub fn split_whitespace(s: &Vec<char>) -> (res: Vec<Vec<char>>)
    ensures
        spec_words_view(res@) == spec_split_whitespace(s@),
{
    let n = s.len();
    let mut words: Vec<Vec<char>> = Vec::new();
    let mut i: usize = 0;
    loop
        invariant
            n == s@.len(),
            0 <= i <= n,
            spec_split_whitespace(s@) == spec_words_view(words@) + spec_words_from(s@, i as int),
        decreases n - i,
    {
        proof {
            lemma_skip_ws(s@, i as int);
        }
        let mut j = i;
        while j < n && is_whitespace(s[j])
            invariant
                n == s@.len(),
                i <= j <= n,
                spec_skip_ws(s@, i as int) == spec_skip_ws(s@, j as int),
            decreases n - j,
        {
            j += 1;
        }
        if j >= n {
            assert(spec_words_view(words@) + Seq::<Seq<char>>::empty() =~= spec_words_view(words@));
            return words;
        }
        proof {
            lemma_word_end(s@, j as int);
        }
        let mut k = j;
        while k < n && !is_whitespace(s[k])
            invariant
                n == s@.len(),
                j <= k <= n,
                spec_word_end(s@, j as int) == spec_word_end(s@, k as int),
            decreases n - k,
        {
            k += 1;
        }
        let word = slice_to_vec(&s.as_slice()[j..k]);
        let ghost old_view = spec_words_view(words@);
        words.push(word);
        proof {
            assert(spec_words_view(words@) =~= old_view.push(s@.subrange(j as int, k as int)));
            assert(old_view + (seq![s@.subrange(j as int, k as int)] + spec_words_from(s@, k as int))
                =~= old_view.push(s@.subrange(j as int, k as int)) + spec_words_from(s@, k as int));
        }
        i = k;
    }
}

// ---- integers ---------------------------------------------------------------

pub open spec fn spec_is_digit(c: char) -> bool {
    48 <= c as u32 <= 57
}

/// The value of the decimal digits `d`, most significant first.
pub open spec fn spec_digits_value(d: Seq<char>) -> int
    decreases d.len(),
{
    if d.len() == 0 {
        0
    } else {
        spec_digits_value(d.drop_last()) * 10 + (d.last() as u32 - 48)
    }
}

/// `d` is one or more decimal digits.
pub open spec fn spec_all_digits(d: Seq<char>) -> bool {
    d.len() > 0 && forall|i: int| 0 <= i < d.len() ==> spec_is_digit(#[trigger] d[i])
}

proof fn lemma_digits_value_nonneg(d: Seq<char>)
    requires
        forall|i: int| 0 <= i < d.len() ==> spec_is_digit(#[trigger] d[i]),
    ensures
        spec_digits_value(d) >= 0,
    decreases d.len(),
{
    if d.len() > 0 {
        lemma_digits_value_nonneg(d.drop_last());
    }
}

/// A longer run of digits has at least the value of its prefix.
proof fn lemma_digits_value_grows(d: Seq<char>, m: int)
    requires
        0 <= m <= d.len(),
        forall|i: int| 0 <= i < d.len() ==> spec_is_digit(#[trigger] d[i]),
    ensures
        spec_digits_value(d.take(m)) <= spec_digits_value(d),
    decreases d.len(),
{
    if m < d.len() {
        let p = d.drop_last();
        assert(p.take(m) =~= d.take(m));
        lemma_digits_value_grows(p, m);
        lemma_digits_value_nonneg(p);
    } else {
        assert(d.take(m) =~= d);
    }
}

/// The value of the digits of `d` from `start` on, when they are one or more
/// decimal digits whose value is at most `limit`.
fn parse_digits(d: &Vec<char>, start: usize, limit: u64) -> (res: Option<u64>)
    requires
        start <= d@.len(),
    ensures
        res matches Some(m) ==> m == spec_digits_value(d@.skip(start as int)),
        res == (if spec_all_digits(d@.skip(start as int)) && spec_digits_value(d@.skip(start as int))
            <= limit {
            Some(spec_digits_value(d@.skip(start as int)) as u64)
        } else {
            None::<u64>
        }),
{
    let n = d.len();
    if start >= n {
        assert(d@.skip(start as int).len() == 0);
        return None;
    }
    let ghost t = d@.skip(start as int);
    let mut v: u64 = 0;
    let mut i: usize = start;
    while i < n
        invariant
            n == d@.len(),
            start < n,
            t == d@.skip(start as int),
            start <= i <= n,
            forall|j: int| 0 <= j < i - start ==> spec_is_digit(#[trigger] t[j]),
            v == spec_digits_value(t.take(i - start)),
            v <= limit,
        decreases n - i,
    {
        let c = d[i];
        let u = c as u32;
        if u < 48 || u > 57 {
            assert(!spec_is_digit(t[i - start]));
            return None;
        }
        let next: u128 = v as u128 * 10 + (u - 48) as u128;
        proof {
            assert(t.take(i - start + 1).drop_last() =~= t.take(i - start));
            assert(t.take(i - start + 1).last() == c);
        }
        if next > limit as u128 {
            proof {
                if spec_all_digits(t) {
                    lemma_digits_value_grows(t, i - start + 1);
                }
            }
            return None;
        }
        v = next as u64;
        i += 1;
    }
    assert(t.take(n - start) =~= t);
    Some(v)
}

/// What `str::parse::<i32>` gives for text `s`: an optional `+` or `-` sign
/// and one or more decimal digits, whose value must fit 32 signed bits.
pub open spec fn spec_parse_i32(s: Seq<char>) -> Option<i32> {
    if s.len() > 0 && s[0] == '-' {
        let t = s.skip(1);
        if spec_all_digits(t) && spec_digits_value(t) <= 0x8000_0000 {
            Some((-spec_digits_value(t)) as i32)
        } else {
            None
        }
    } else {
        let t = if s.len() > 0 && s[0] == '+' { s.skip(1) } else { s };
        if spec_all_digits(t) && spec_digits_value(t) <= 0x7fff_ffff {
            Some(spec_digits_value(t) as i32)
        } else {
            None
        }
    }
}

/// What `str::parse::<usize>` gives for text `s`: an optional `+` sign and one
/// or more decimal digits, whose value must fit `usize`.
pub open spec fn spec_parse_usize(s: Seq<char>) -> Option<usize> {
    let t = if s.len() > 0 && s[0] == '+' { s.skip(1) } else { s };
    if spec_all_digits(t) && spec_digits_value(t) <= usize::MAX {
        Some(spec_digits_value(t) as usize)
    } else {
        None
    }
}

/// Parses text as a signed 32-bit decimal integer.
pub fn parse_i32(s: &Vec<char>) -> (res: Option<i32>)
    ensures
        res == spec_parse_i32(s@),
{
    let n = s.len();
    if n > 0 && s[0] == '-' {
        match parse_digits(s, 1, 0x8000_0000) {
            Some(m) => Some((0 - m as i64) as i32),
            None => None,
        }
    } else if n > 0 && s[0] == '+' {
        match parse_digits(s, 1, 0x7fff_ffff) {
            Some(m) => Some(m as i32),
            None => None,
        }
    } else {
        assert(s@.skip(0) =~= s@);
        match parse_digits(s, 0, 0x7fff_ffff) {
            Some(m) => Some(m as i32),
            None => None,
        }
    }
}

/// Parses text as an unsigned decimal integer of pointer width.
pub fn parse_usize(s: &Vec<char>) -> (res: Option<usize>)
    ensures
        res == spec_parse_usize(s@),
{
    let n = s.len();
    let start: usize = if n > 0 && s[0] == '+' { 1 } else { 0 };
    assert(s@.skip(0) =~= s@);
    match parse_digits(s, start, usize::MAX as u64) {
        Some(m) => Some(m as usize),
        None => None,
    }
}

// ---- entity values ------------------------------------------------------------

/// The name of another entity.
pub struct TargetName(pub String);

/// The model of a brush entity: an index into the map's models (written
/// `*` and the index), or a path.
pub enum ModelReference {
    Index(usize),
    Path(String),
}

/// Why an entity value could not be read.
#[derive(Copy, Clone, Debug)]
pub enum EntityParseError<'a> {
    InvalidValue { value_name: &'a str, value_str: &'a str },
    MissingValue { value_name: &'a str },
}

/// The text of an error.
pub open spec fn spec_error_text(e: EntityParseError) -> Seq<char> {
    match e {
        EntityParseError::InvalidValue { value_name, value_str } => "InvalidValue{ name: "@
            + value_name@ + ", value: "@ + value_str@ + " }"@,
        EntityParseError::MissingValue { value_name } => "MissingValue{ name: "@ + value_name@
            + " }"@,
    }
}

impl<'a> EntityParseError<'a> {
    /// The text of the error, as it is displayed.
    pub fn to_string(&self) -> (res: String)
        ensures
            res@ == spec_error_text(*self),
    {
        match *self {
            EntityParseError::InvalidValue { value_name, value_str } => {
                let mut s = String::from_str("InvalidValue{ name: ");
                s.append(value_name);
                s.append(", value: ");
                s.append(value_str);
                s.append(" }");
                s
            },
            EntityParseError::MissingValue { value_name } => {
                let mut s = String::from_str("MissingValue{ name: ");
                s.append(value_name);
                s.append(" }");
                s
            },
        }
    }
}

/// Turns the result of parsing text into a value into a result with an
/// error of the caller's choice. It applies to a result with any error
/// type.
pub trait OkOr<T>: Sized {
    fn ok_or<E>(self, err: E) -> Result<T, E>;
}

impl<T, X> OkOr<T> for Result<T, X> {
    fn ok_or<E>(self, err: E) -> (res: Result<T, E>)
        ensures
            match self {
                Ok(v) => res == Ok::<T, E>(v),
                Err(_) => res == Err::<T, E>(err),
            },
    {
        match self {
            Ok(value) => Ok(value),
            Err(_) => Err(err),
        }
    }
}

/// A value type that can be read from the value of an entity key.
pub trait ParseEntityValue: Sized {
    /// Whether an absent key is read as a value (and not as an error).
    spec fn spec_absent_ok() -> bool;

    /// The value an absent key is read as, when it is.
    spec fn spec_absent_value(v: Self) -> bool;

    /// Whether the text of a present key reads as a value.
    spec fn spec_parses(text: &str) -> bool;

    /// `v` is the value that the text reads as.
    spec fn spec_value_of(text: &str, v: Self) -> bool;

    /// The text that the error about an unreadable value reports.
    spec fn spec_reported(text: &str) -> Seq<char>;

    /// Reading the text stops on an assertion of the format.
    spec fn spec_fails(text: &str) -> bool;

    /// Reading an absent key stops on an assertion.
    spec fn spec_absent_fails() -> bool;

    /// Reads the value of key `name`.
    fn parse<'a>(name: &'a str, values: &BspEntity<'a>) -> (res: Result<Self, EntityParseError<'a>>)
        requires
            spec_entity_get(values.0@, name) matches Some(t) ==> !Self::spec_fails(t),
            spec_entity_get(values.0@, name) is None ==> !Self::spec_absent_fails(),
        ensures
            match spec_entity_get(values.0@, name) {
                None => if Self::spec_absent_ok() {
                    res matches Ok(v) && Self::spec_absent_value(v)
                } else {
                    res matches Err(e) && e == EntityParseError::MissingValue { value_name: name }
                },
                Some(t) => if Self::spec_parses(t) {
                    res matches Ok(v) && Self::spec_value_of(t, v)
                } else {
                    res matches Err(e) && e matches EntityParseError::InvalidValue {
                        value_name,
                        value_str,
                    } && value_name == name && value_str@ == Self::spec_reported(t)
                },
            },
    ;
}

impl ParseEntityValue for TargetName {
    open spec fn spec_absent_ok() -> bool {
        false
    }

    open spec fn spec_absent_value(v: Self) -> bool {
        false
    }

    open spec fn spec_parses(text: &str) -> bool {
        true
    }

    open spec fn spec_value_of(text: &str, v: Self) -> bool {
        v.0@ == text@
    }

    open spec fn spec_reported(text: &str) -> Seq<char> {
        text@
    }

    open spec fn spec_fails(text: &str) -> bool {
        false
    }

    open spec fn spec_absent_fails() -> bool {
        false
    }

    fn parse<'a>(name: &'a str, values: &BspEntity<'a>) -> (res: Result<Self, EntityParseError<'a>>) {
        match values.get(name) {
            Some(value) => Ok(TargetName(value.to_owned())),
            None => Err(EntityParseError::MissingValue { value_name: name }),
        }
    }
}

impl ParseEntityValue for String {
    open spec fn spec_absent_ok() -> bool {
        false
    }

    open spec fn spec_absent_value(v: Self) -> bool {
        false
    }

    open spec fn spec_parses(text: &str) -> bool {
        true
    }

    open spec fn spec_value_of(text: &str, v: Self) -> bool {
        v@ == text@
    }

    open spec fn spec_reported(text: &str) -> Seq<char> {
        text@
    }

    open spec fn spec_fails(text: &str) -> bool {
        false
    }

    open spec fn spec_absent_fails() -> bool {
        false
    }

    fn parse<'a>(name: &'a str, values: &BspEntity<'a>) -> (res: Result<Self, EntityParseError<'a>>) {
        match values.get(name) {
            Some(value) => Ok(value.to_owned()),
            None => Err(EntityParseError::MissingValue { value_name: name }),
        }
    }
}

/// The text of a model reference after its leading `*` characters.
pub open spec fn spec_model_index_text(text: &str) -> Seq<char> {
    let b = text.spec_bytes();
    decode_utf8(b.subrange(spec_trim_start(b, 0, b.len() as int, 42), b.len() as int))
}

/// The text begins with `*`.
pub open spec fn spec_is_model_index(text: &str) -> bool {
    text.spec_bytes().len() > 0 && text.spec_bytes()[0] == 42
}

impl ParseEntityValue for ModelReference {
    open spec fn spec_absent_ok() -> bool {
        false
    }

    open spec fn spec_absent_value(v: Self) -> bool {
        false
    }

    open spec fn spec_parses(text: &str) -> bool {
        spec_is_model_index(text) ==> spec_parse_usize(spec_model_index_text(text)) is Some
    }

    open spec fn spec_value_of(text: &str, v: Self) -> bool {
        if spec_is_model_index(text) {
            spec_parse_usize(spec_model_index_text(text)) matches Some(i) && v
                == ModelReference::Index(i)
        } else {
            v matches ModelReference::Path(p) && p@ == text@
        }
    }

    open spec fn spec_reported(text: &str) -> Seq<char> {
        spec_model_index_text(text)
    }

    open spec fn spec_fails(text: &str) -> bool {
        false
    }

    open spec fn spec_absent_fails() -> bool {
        false
    }

    fn parse<'a>(name: &'a str, values: &BspEntity<'a>) -> (res: Result<Self, EntityParseError<'a>>) {
        let str_value = match values.get(name) {
            Some(v) => v,
            None => return Err(EntityParseError::MissingValue { value_name: name }),
        };
        let b = str_value.as_bytes();
        let n = b.len();
        if n > 0 && b[0] == 42 {
            let ghost sb = str_value.spec_bytes();
            proof {
                lemma_trim_start_props(sb, 0, n as int, 42);
            }
            let s = trim_start(b, 0, n, 42);
            proof {
                lemma_boundary(sb, s as int);
                lemma_boundary(sb, n as int);
            }
            let index_text = substr(str_value, s, n);
            proof {
                assert(decode_utf8(index_text.spec_bytes()) == index_text@);
            }
            match parse_usize(&chars_of(index_text)) {
                Some(model_index) => Ok(ModelReference::Index(model_index)),
                None => Err(EntityParseError::InvalidValue { value_name: name, value_str: index_text }),
            }
        } else {
            Ok(ModelReference::Path(str_value.to_owned()))
        }
    }
}

impl ParseEntityValue for i32 {
    open spec fn spec_absent_ok() -> bool {
        false
    }

    open spec fn spec_absent_value(v: Self) -> bool {
        false
    }

    open spec fn spec_parses(text: &str) -> bool {
        spec_parse_i32(text@) is Some
    }

    open spec fn spec_value_of(text: &str, v: Self) -> bool {
        spec_parse_i32(text@) == Some(v)
    }

    open spec fn spec_reported(text: &str) -> Seq<char> {
        text@
    }

    open spec fn spec_fails(text: &str) -> bool {
        false
    }

    open spec fn spec_absent_fails() -> bool {
        false
    }

    fn parse<'a>(name: &'a str, values: &BspEntity<'a>) -> (res: Result<Self, EntityParseError<'a>>) {
        let str_value = match values.get(name) {
            Some(v) => v,
            None => return Err(EntityParseError::MissingValue { value_name: name }),
        };
        match parse_i32(&chars_of(str_value)) {
            Some(value) => Ok(value),
            None => Err(EntityParseError::InvalidValue { value_name: name, value_str: str_value }),
        }
    }
}

/// How the words of a vector value read: `x y z`, or a lone `0` for all
/// zeroes.
pub open spec fn spec_parse_i32x3(w: Seq<Seq<char>>) -> Option<[i32; 3]> {
    if w.len() == 0 {
        None
    } else {
        match spec_parse_i32(w[0]) {
            None => None,
            Some(x) => if x == 0 && w.len() == 1 {
                Some([0, 0, 0])
            } else if w.len() < 2 {
                None
            } else {
                match spec_parse_i32(w[1]) {
                    None => None,
                    Some(y) => if w.len() < 3 {
                        None
                    } else {
                        match spec_parse_i32(w[2]) {
                            None => None,
                            Some(z) => Some([x, y, z]),
                        }
                    },
                }
            },
        }
    }
}

impl ParseEntityValue for [i32; 3] {
    open spec fn spec_absent_ok() -> bool {
        false
    }

    open spec fn spec_absent_value(v: Self) -> bool {
        false
    }

    open spec fn spec_parses(text: &str) -> bool {
        spec_parse_i32x3(spec_split_whitespace(text@)) is Some
    }

    open spec fn spec_value_of(text: &str, v: Self) -> bool {
        spec_parse_i32x3(spec_split_whitespace(text@)) == Some(v)
    }

    open spec fn spec_reported(text: &str) -> Seq<char> {
        text@
    }

    /// Three numbers followed by more words.
    open spec fn spec_fails(text: &str) -> bool {
        let w = spec_split_whitespace(text@);
        &&& w.len() > 3
        &&& spec_parse_i32(w[0]) is Some
        &&& spec_parse_i32(w[1]) is Some
        &&& spec_parse_i32(w[2]) is Some
    }

    open spec fn spec_absent_fails() -> bool {
        false
    }

    fn parse<'a>(name: &'a str, values: &BspEntity<'a>) -> (res: Result<Self, EntityParseError<'a>>) {
        let str_value = match values.get(name) {
            Some(v) => v,
            None => return Err(EntityParseError::MissingValue { value_name: name }),
        };
        let invalid_value_err = EntityParseError::InvalidValue { value_name: name, value_str: str_value };
        let parts = split_whitespace(&chars_of(str_value));
        let ghost w = spec_split_whitespace(str_value@);
        proof {
            assert(spec_words_view(parts@).len() == parts@.len());
        }
        if parts.len() == 0 {
            return Err(invalid_value_err);
        }
        assert(parts@[0]@ == w[0]);
        let x = match parse_i32(&parts[0]) {
            Some(v) => v,
            None => return Err(invalid_value_err),
        };
        if x == 0 && parts.len() == 1 {
            return Ok([0, 0, 0]);
        }
        if parts.len() < 2 {
            return Err(invalid_value_err);
        }
        assert(parts@[1]@ == w[1]);
        let y = match parse_i32(&parts[1]) {
            Some(v) => v,
            None => return Err(invalid_value_err),
        };
        if parts.len() < 3 {
            return Err(invalid_value_err);
        }
        assert(parts@[2]@ == w[2]);
        let z = match parse_i32(&parts[2]) {
            Some(v) => v,
            None => return Err(invalid_value_err),
        };
        Ok([x, y, z])
    }
}

impl<T: ParseEntityValue> ParseEntityValue for Option<T> {
    open spec fn spec_absent_ok() -> bool {
        true
    }

    open spec fn spec_absent_value(v: Self) -> bool {
        v is None
    }

    open spec fn spec_parses(text: &str) -> bool {
        T::spec_parses(text)
    }

    open spec fn spec_value_of(text: &str, v: Self) -> bool {
        v matches Some(x) && T::spec_value_of(text, x)
    }

    open spec fn spec_reported(text: &str) -> Seq<char> {
        T::spec_reported(text)
    }

    open spec fn spec_fails(text: &str) -> bool {
        T::spec_fails(text)
    }

    open spec fn spec_absent_fails() -> bool {
        false
    }

    fn parse<'a>(name: &'a str, values: &BspEntity<'a>) -> (res: Result<Self, EntityParseError<'a>>) {
        if values.contains_key(name) {
            match T::parse(name, values) {
                Ok(value) => Ok(Some(value)),
                Err(e) => Err(e),
            }
        } else {
            Ok(None)
        }
    }
}

// ---- entity kinds -------------------------------------------------------------

/// The parts of an entity that keep all its pairs.
pub struct UnknownEntityValues(pub Vec<(String, String)>);

/// A wall that moves with nothing.
pub struct FuncWall {}

/// Where the player starts.
pub struct InfoPlayerStart {}

/// A trigger that changes the level.
pub struct TriggerChangeLevel {
    pub map: String,
    pub landmark: TargetName,
    pub change_target: Option<TargetName>,
}

/// An entity kind that can be read from an entity's pairs.
pub trait ParseEntity: Sized {
    fn parse<'a>(values: &BspEntity<'a>) -> (res: Result<Self, EntityParseError<'a>>);
}

impl ParseEntity for FuncWall {
    fn parse<'a>(values: &BspEntity<'a>) -> (res: Result<Self, EntityParseError<'a>>)
        ensures
            res is Ok,
    {
        Ok(FuncWall {})
    }
}

impl ParseEntity for InfoPlayerStart {
    fn parse<'a>(values: &BspEntity<'a>) -> (res: Result<Self, EntityParseError<'a>>)
        ensures
            res is Ok,
    {
        Ok(InfoPlayerStart {})
    }
}

impl ParseEntity for UnknownEntityValues {
    /// Copies every pair of the entity.
    fn parse<'a>(values: &BspEntity<'a>) -> (res: Result<Self, EntityParseError<'a>>)
        ensures
            res matches Ok(u) && u.0@.len() == values.0@.len() && forall|i: int|
                0 <= i < u.0@.len() ==> (#[trigger] u.0@[i]).0@ == values.0@[i].0@ && u.0@[i].1@
                    == values.0@[i].1@,
    {
        let mut new_values: Vec<(String, String)> = Vec::new();
        let n = values.0.len();
        let mut i: usize = 0;
        while i < n
            invariant
                n == values.0@.len(),
                0 <= i <= n,
                new_values@.len() == i,
                forall|j: int|
                    0 <= j < i ==> (#[trigger] new_values@[j]).0@ == values.0@[j].0@
                        && new_values@[j].1@ == values.0@[j].1@,
            decreases n - i,
        {
            let (key, value) = values.0[i];
            new_values.push((key.to_owned(), value.to_owned()));
            i += 1;
        }
        Ok(UnknownEntityValues(new_values))
    }
}

impl ParseEntity for TriggerChangeLevel {
    /// Reads the `map`, `landmark` and `changetarget` keys; the first missing
    /// required key is the error.
    fn parse<'a>(values: &BspEntity<'a>) -> (res: Result<Self, EntityParseError<'a>>)
        ensures
            match (spec_entity_get(values.0@, "map"), spec_entity_get(values.0@, "landmark")) {
                (Some(m), Some(l)) => res matches Ok(t) && t.map@ == m@ && t.landmark.0@ == l@
                    && match spec_entity_get(values.0@, "changetarget") {
                    Some(c) => t.change_target matches Some(ct) && ct.0@ == c@,
                    None => t.change_target is None,
                },
                (None, _) => res matches Err(e) && e == EntityParseError::MissingValue {
                    value_name: "map",
                },
                (Some(_), None) => res matches Err(e) && e == EntityParseError::MissingValue {
                    value_name: "landmark",
                },
            },
    {
        let map = match <String as ParseEntityValue>::parse("map", values) {
            Ok(v) => v,
            Err(e) => return Err(e),
        };
        let landmark = match <TargetName as ParseEntityValue>::parse("landmark", values) {
            Ok(v) => v,
            Err(e) => return Err(e),
        };
        let change_target = match <Option<TargetName> as ParseEntityValue>::parse("changetarget", values) {
            Ok(v) => v,
            Err(e) => return Err(e),
        };
        Ok(TriggerChangeLevel { map, landmark, change_target })
    }
}

/// The entity kinds told apart by an entity's `classname`.
#[derive(PartialEq, Eq, Structural, Clone, Copy, Debug)]
pub enum EntityClass {
    FuncWall,
    FuncDoor,
    InfoPlayerStart,
    TriggerChangeLevel,
    Unknown,
}

/// The kind that a class name stands for; any other name is `Unknown`.
pub open spec fn spec_entity_class(class_name: Seq<char>) -> EntityClass {
    if class_name == "func_wall"@ {
        EntityClass::FuncWall
    } else if class_name == "func_door"@ {
        EntityClass::FuncDoor
    } else if class_name == "info_player_start"@ {
        EntityClass::InfoPlayerStart
    } else if class_name == "trigger_changelevel"@ {
        EntityClass::TriggerChangeLevel
    } else {
        EntityClass::Unknown
    }
}

/// The kind of entity that a class name stands for, which decides the
/// fields read from the rest of its pairs.
pub fn entity_class(class_name: &str) -> (res: EntityClass)
    ensures
        res == spec_entity_class(class_name@),
{
    if str_eq(class_name, "func_wall") {
        EntityClass::FuncWall
    } else if str_eq(class_name, "func_door") {
        EntityClass::FuncDoor
    } else if str_eq(class_name, "info_player_start") {
        EntityClass::InfoPlayerStart
    } else if str_eq(class_name, "trigger_changelevel") {
        EntityClass::TriggerChangeLevel
    } else {
        EntityClass::Unknown
    }
}

/// A door. Its speed is a single-precision value (as bits).
pub struct FuncDoor {
    pub angle: Option<i32>,
    pub lip: Option<i32>,
    pub speed: Option<F32Bits>,
}

impl FuncDoor {
    /// The direction the door opens in, 0 when not given.
    pub fn angle(&self) -> (res: i32)
        ensures
            res == match self.angle {
                Some(a) => a,
                None => 0i32,
            },
    {
        match self.angle {
            Some(a) => a,
            None => 0,
        }
    }
}

// ---- render modes -------------------------------------------------------------

/// Why text is not a value of an enumeration: it is not a number, or the
/// number is not one of the enumeration's values.
#[derive(Debug, PartialEq, Eq)]
pub enum BasicEnumParseError<T> {
    InvalidStr,
    InvalidValue(T),
}

/// How an entity's model is drawn.
#[derive(Copy, Clone, Debug, PartialEq, Eq, Structural)]
pub enum RenderMode {
    Normal,
    Color,
    Texture,
    Glow,
    TransparentAlpha,
    TransparentAdd,
}

/// The render mode of value `v`.
pub open spec fn spec_render_mode(v: i32) -> Option<RenderMode> {
    if v == 0 {
        Some(RenderMode::Normal)
    } else if v == 1 {
        Some(RenderMode::Color)
    } else if v == 2 {
        Some(RenderMode::Texture)
    } else if v == 3 {
        Some(RenderMode::Glow)
    } else if v == 4 {
        Some(RenderMode::TransparentAlpha)
    } else if v == 5 {
        Some(RenderMode::TransparentAdd)
    } else {
        None
    }
}

/// How text reads as a render mode: a 32-bit integer that is one of the
/// modes' values.
pub open spec fn spec_parse_render_mode(text: Seq<char>) -> Result<RenderMode, BasicEnumParseError<i32>> {
    match spec_parse_i32(text) {
        None => Err(BasicEnumParseError::InvalidStr),
        Some(v) => match spec_render_mode(v) {
            Some(m) => Ok(m),
            None => Err(BasicEnumParseError::InvalidValue(v)),
        },
    }
}

impl RenderMode {
    pub fn from_value(value: i32) -> (res: Option<Self>)
        ensures
            res == spec_render_mode(value),
    {
        match value {
            0 => Some(RenderMode::Normal),
            1 => Some(RenderMode::Color),
            2 => Some(RenderMode::Texture),
            3 => Some(RenderMode::Glow),
            4 => Some(RenderMode::TransparentAlpha),
            5 => Some(RenderMode::TransparentAdd),
            _ => None,
        }
    }

    /// Reads a render mode from its decimal value.
    pub fn from_str(s: &str) -> (res: Result<Self, BasicEnumParseError<i32>>)
        ensures
            res == spec_parse_render_mode(s@),
    {
        match parse_i32(&chars_of(s)) {
            None => Err(BasicEnumParseError::InvalidStr),
            Some(value) => match Self::from_value(value) {
                Some(m) => Ok(m),
                None => Err(BasicEnumParseError::InvalidValue(value)),
            },
        }
    }
}

impl ParseEntityValue for RenderMode {
    open spec fn spec_absent_ok() -> bool {
        false
    }

    open spec fn spec_absent_value(v: Self) -> bool {
        false
    }

    open spec fn spec_parses(text: &str) -> bool {
        spec_parse_render_mode(text@) is Ok
    }

    open spec fn spec_value_of(text: &str, v: Self) -> bool {
        spec_parse_render_mode(text@) == Ok::<RenderMode, BasicEnumParseError<i32>>(v)
    }

    open spec fn spec_reported(text: &str) -> Seq<char> {
        text@
    }

    /// A value that is not a render mode stops the reading.
    open spec fn spec_fails(text: &str) -> bool {
        spec_parse_render_mode(text@) is Err
    }

    /// A missing render mode stops the reading.
    open spec fn spec_absent_fails() -> bool {
        true
    }

    fn parse<'a>(name: &'a str, values: &BspEntity<'a>) -> (res: Result<Self, EntityParseError<'a>>) {
        match values.get(name) {
            Some(str_value) => match Self::from_str(str_value) {
                Ok(m) => Ok(m),
                Err(_) => Err(EntityParseError::InvalidValue { value_name: name, value_str: str_value }),
            },
            None => Err(EntityParseError::MissingValue { value_name: name }),
        }
    }
}

} // verus!
