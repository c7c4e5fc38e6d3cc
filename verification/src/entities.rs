//! Parsing the entity lump of a BSP map: a list of `{ ... }` blocks, one
//! `"key" "value"` pair per line.
use vstd::prelude::*;
use vstd::utf8::*;
use vstd::string::StringSliceAdditionalSpecFns;
use crate::text::{spec_trim_start, spec_trim_end, lemma_trim_start_props, lemma_trim_end_props, trim_start, trim_end, lemma_boundary, substr};

verus! {

broadcast use group_utf8_lib;

pub const QUOTE: u8 = 0x22;
pub const NEWLINE: u8 = 0x0a;
pub const CARRIAGE_RETURN: u8 = 0x0d;
pub const OPEN_BRACE: u8 = 0x7b;
pub const CLOSE_BRACE: u8 = 0x7d;
pub const SPACE: u8 = 0x20;

/// The key/value pairs of one entity, each as the UTF-8 bytes of its text.
pub type SpecEntity = Seq<(Seq<u8>, Seq<u8>)>;

/// The entities completed so far, and the one being read, if any.
pub type SpecParseState = (Seq<SpecEntity>, Option<SpecEntity>);

/// The first index at or after `from` that holds byte `c`, or the length.
pub open spec fn spec_find_byte(b: Seq<u8>, from: int, c: u8) -> int
    decreases b.len() - from,
{
    if from >= b.len() {
        b.len() as int
    } else if b[from] == c {
        from
    } else {
        spec_find_byte(b, from + 1, c)
    }
}

/// The first index `k >= from` with `k + 3 <= to` where the three bytes `" "`
/// (quote, space, quote) start, or -1 when there is none.
pub open spec fn spec_find_sep(b: Seq<u8>, from: int, to: int) -> int
    decreases to - from,
{
    if from + 3 > to {
        -1
    } else if b[from] == QUOTE && b[from + 1] == SPACE && b[from + 2] == QUOTE {
        from
    } else {
        spec_find_sep(b, from + 1, to)
    }
}

/// `b[s..e]` with every leading and trailing quote removed.
pub open spec fn spec_trim_quotes(b: Seq<u8>, s: int, e: int) -> Seq<u8> {
    let s2 = spec_trim_start(b, s, e, QUOTE);
    b.subrange(s2, spec_trim_end(b, s2, e, QUOTE))
}

/// The index of the first pair whose key is `k`, or -1.
pub open spec fn spec_key_index_from(e: SpecEntity, k: Seq<u8>, i: int) -> int
    decreases e.len() - i,
{
    if i >= e.len() {
        -1
    } else if e[i].0 == k {
        i
    } else {
        spec_key_index_from(e, k, i + 1)
    }
}

/// Sets key `k` to `v`: the value of an existing pair is replaced, otherwise
/// the pair is appended.
pub open spec fn spec_insert(e: SpecEntity, k: Seq<u8>, v: Seq<u8>) -> SpecEntity {
    let i = spec_key_index_from(e, k, 0);
    if i >= 0 {
        e.update(i, (k, v))
    } else {
        e.push((k, v))
    }
}

/// The effect of the line `b[ls..le]` on the parse state; `None` when the
/// line is a closing brace or a pair outside any entity, or a pair line
/// without the `" "` separator.
pub open spec fn spec_step(b: Seq<u8>, ls: int, le: int, st: SpecParseState) -> Option<SpecParseState> {
    if le - ls == 1 && b[ls] == OPEN_BRACE {
        Some((st.0, Some(Seq::empty())))
    } else if le - ls == 1 && b[ls] == CLOSE_BRACE {
        match st.1 {
            Some(e) => Some((st.0.push(e), None)),
            None => None,
        }
    } else {
        match st.1 {
            Some(e) => {
                let p = spec_find_sep(b, ls, le);
                if p < 0 {
                    None
                } else {
                    let q = spec_find_sep(b, p + 3, le);
                    let second_end = if q < 0 { le } else { q };
                    let key = spec_trim_quotes(b, ls, p);
                    let value = spec_trim_quotes(b, p + 3, second_end);
                    Some((st.0, Some(spec_insert(e, key, value))))
                }
            },
            None => None,
        }
    }
}

/// Where the line starting at `pos` ends: at the next newline, one byte
/// earlier when a carriage return precedes it, or at the end of the text.
pub open spec fn spec_line_end(b: Seq<u8>, pos: int) -> int {
    let nl = spec_find_byte(b, pos, NEWLINE);
    if nl < b.len() && nl > pos && b[nl - 1] == CARRIAGE_RETURN {
        nl - 1
    } else {
        nl
    }
}

/// Where the line after the one starting at `pos` starts.
pub open spec fn spec_next_line(b: Seq<u8>, pos: int) -> int {
    let nl = spec_find_byte(b, pos, NEWLINE);
    if nl < b.len() {
        nl + 1
    } else {
        b.len() as int
    }
}

proof fn lemma_find_byte_bounds(b: Seq<u8>, from: int, c: u8)
    requires
        0 <= from <= b.len(),
    ensures
        from <= spec_find_byte(b, from, c) <= b.len(),
        spec_find_byte(b, from, c) < b.len() ==> b[spec_find_byte(b, from, c)] == c,
    decreases b.len() - from,
{
    if from < b.len() && b[from] != c {
        lemma_find_byte_bounds(b, from + 1, c);
    }
}

/// The entities of the text from `pos` on, given the state reached before it.
pub open spec fn spec_parse_from(b: Seq<u8>, pos: int, st: SpecParseState) -> Option<Seq<SpecEntity>>
    decreases b.len() - pos,
{
    if pos < 0 || pos >= b.len() {
        Some(st.0)
    } else {
        match spec_step(b, pos, spec_line_end(b, pos), st) {
            Some(st2) => {
                let next = spec_next_line(b, pos);
                if next > pos {
                    spec_parse_from(b, next, st2)
                } else {
                    None
                }
            },
            None => None,
        }
    }
}

/// The entities of an entity lump's text `b` (its UTF-8 bytes): each `{`
/// line opens an entity, each `}` line closes it, and each other line sets a
/// key to a value. `None` when the text is not of that form. An entity that
/// is never closed is not part of the result.
pub open spec fn spec_parse_entities(b: Seq<u8>) -> Option<Seq<SpecEntity>> {
    spec_parse_from(b, 0, (Seq::empty(), None))
}

/// No key occurs twice in `e`.
pub open spec fn spec_keys_unique(e: SpecEntity) -> bool {
    forall|i: int, j: int| 0 <= i < j < e.len() ==> e[i].0 != e[j].0
}

/// The UTF-8 bytes of the key/value pairs of an entity.
pub open spec fn spec_pairs_view(e: Seq<(&str, &str)>) -> SpecEntity {
    Seq::new(e.len(), |i: int| (e[i].0.spec_bytes(), e[i].1.spec_bytes()))
}

/// One entity of a map: its key/value pairs, each key once, in the order in
/// which the keys first appear.
pub struct BspEntity<'a>(pub Vec<(&'a str, &'a str)>);

/// The UTF-8 bytes of the pairs of each entity.
pub open spec fn spec_entities_view(v: Seq<BspEntity>) -> Seq<SpecEntity> {
    Seq::new(v.len(), |i: int| spec_pairs_view(v[i].0@))
}

proof fn lemma_find_sep_props(b: Seq<u8>, from: int, to: int)
    requires
        0 <= from,
        to <= b.len(),
    ensures
        spec_find_sep(b, from, to) == -1 || ({
            let r = spec_find_sep(b, from, to);
            &&& from <= r
            &&& r + 3 <= to
            &&& b[r] == QUOTE
            &&& b[r + 1] == SPACE
            &&& b[r + 2] == QUOTE
        }),
    decreases to - from,
{
    if from + 3 <= to && !(b[from] == QUOTE && b[from + 1] == SPACE && b[from + 2] == QUOTE) {
        lemma_find_sep_props(b, from + 1, to);
    }
}

fn find_byte(b: &[u8], from: usize, c: u8) -> (res: usize)
    requires
        from <= b@.len(),
    ensures
        res == spec_find_byte(b@, from as int, c),
{
    let n = b.len();
    let mut i = from;
    while i < n && b[i] != c
        invariant
            n == b@.len(),
            from <= i <= n,
            spec_find_byte(b@, from as int, c) == spec_find_byte(b@, i as int, c),
        decreases n - i,
    {
        i += 1;
    }
    i
}

fn find_sep(b: &[u8], from: usize, to: usize) -> (res: Option<usize>)
    requires
        to <= b@.len(),
    ensures
        match res {
            Some(r) => r as int == spec_find_sep(b@, from as int, to as int),
            None => spec_find_sep(b@, from as int, to as int) == -1,
        },
{
    let mut k = from;
    while k < to && to - k >= 3
        invariant
            to <= b@.len(),
            from <= k,
            spec_find_sep(b@, from as int, to as int) == spec_find_sep(b@, k as int, to as int),
        decreases to - k,
    {
        if b[k] == QUOTE && b[k + 1] == SPACE && b[k + 2] == QUOTE {
            return Some(k);
        }
        k += 1;
    }
    None
}

/// Whether two byte slices hold the same bytes.
pub fn bytes_eq(a: &[u8], b: &[u8]) -> (res: bool)
    ensures
        res == (a@ == b@),
{
    let n = a.len();
    if n != b.len() {
        return false;
    }
    let mut i: usize = 0;
    while i < n
        invariant
            n == a@.len(),
            n == b@.len(),
            0 <= i <= n,
            forall|j: int| 0 <= j < i ==> a@[j] == b@[j],
        decreases n - i,
    {
        if a[i] != b[i] {
            return false;
        }
        i += 1;
    }
    assert(a@ =~= b@);
    true
}

proof fn lemma_key_index_range(e: SpecEntity, k: Seq<u8>, i: int)
    requires
        0 <= i,
    ensures
        spec_key_index_from(e, k, i) == -1 || (i <= spec_key_index_from(e, k, i) < e.len()
            && e[spec_key_index_from(e, k, i)].0 == k),
    decreases e.len() - i,
{
    if i < e.len() && e[i].0 != k {
        lemma_key_index_range(e, k, i + 1);
    }
}

fn key_index(e: &Vec<(&str, &str)>, k: &str) -> (res: Option<usize>)
    ensures
        match res {
            Some(i) => i < e@.len() && i as int == spec_key_index_from(spec_pairs_view(e@), k.spec_bytes(), 0),
            None => spec_key_index_from(spec_pairs_view(e@), k.spec_bytes(), 0) == -1,
        },
{
    let ghost ev = spec_pairs_view(e@);
    proof {
        lemma_key_index_range(ev, k.spec_bytes(), 0);
    }
    let kb = k.as_bytes();
    let n = e.len();
    let mut i: usize = 0;
    while i < n
        invariant
            n == e@.len(),
            ev == spec_pairs_view(e@),
            kb@ == k.spec_bytes(),
            0 <= i <= n,
            spec_key_index_from(ev, k.spec_bytes(), 0) == spec_key_index_from(ev, k.spec_bytes(), i as int),
        decreases n - i,
    {
        let pair_key = e[i].0;
        if bytes_eq(pair_key.as_bytes(), kb) {
            return Some(i);
        }
        i += 1;
    }
    None
}

fn insert_pair<'a>(e: &mut Vec<(&'a str, &'a str)>, k: &'a str, v: &'a str)
    ensures
        spec_pairs_view(final(e)@) == spec_insert(spec_pairs_view(old(e)@), k.spec_bytes(), v.spec_bytes()),
{
    let ghost old_view = spec_pairs_view(e@);
    match key_index(e, k) {
        Some(i) => {
            e[i] = (k, v);
            assert(spec_pairs_view(e@) =~= old_view.update(i as int, (k.spec_bytes(), v.spec_bytes())));
        },
        None => {
            e.push((k, v));
            assert(spec_pairs_view(e@) =~= old_view.push((k.spec_bytes(), v.spec_bytes())));
        },
    }
}

pub open spec fn spec_current_view(c: Option<Vec<(&str, &str)>>) -> Option<SpecEntity> {
    match c {
        Some(v) => Some(spec_pairs_view(v@)),
        None => None,
    }
}

/// Applies the line `b[ls..le]` to the parse state; `false` when
/// [`spec_step`] fails on it.
fn apply_line<'a>(
    source: &'a str,
    b: &[u8],
    ls: usize,
    le: usize,
    entities: &mut Vec<BspEntity<'a>>,
    current: &mut Option<Vec<(&'a str, &'a str)>>,
) -> (ok: bool)
    requires
        b@ == source.spec_bytes(),
        valid_utf8(b@),
        ls < le <= b@.len() || (ls == le && le <= b@.len()),
        ls == 0 || b@[ls - 1] == NEWLINE,
        le == b@.len() || b@[le as int] < 0x80,
    ensures
        ok == (spec_step(b@, ls as int, le as int, (spec_entities_view(old(entities)@), spec_current_view(*old(current)))) is Some),
        ok ==> spec_step(b@, ls as int, le as int, (spec_entities_view(old(entities)@), spec_current_view(*old(current))))
            == Some((spec_entities_view(final(entities)@), spec_current_view(*final(current)))),
{
    let ghost bb = b@;
    if le - ls == 1 && b[ls] == OPEN_BRACE {
        *current = Some(Vec::new());
        proof {
            assert(spec_pairs_view(Seq::<(&str, &str)>::empty()) =~= Seq::<(Seq<u8>, Seq<u8>)>::empty());
        }
        return true;
    }
    if le - ls == 1 && b[ls] == CLOSE_BRACE {
        let cur = current.take();
        match cur {
            Some(e) => {
                let ghost old_entities = entities@;
                entities.push(BspEntity(e));
                proof {
                    assert(spec_entities_view(entities@) =~= spec_entities_view(old_entities).push(
                        spec_pairs_view(e@),
                    ));
                }
                return true;
            },
            None => {
                return false;
            },
        }
    }
    let cur = current.take();
    match cur {
        Some(mut e) => {
            let p = match find_sep(b, ls, le) {
                Some(p) => p,
                None => {
                    *current = Some(e);
                    return false;
                },
            };
            proof {
                lemma_find_sep_props(bb, ls as int, le as int);
                lemma_find_sep_props(bb, p + 3, le as int);
            }
            let second_end = match find_sep(b, p + 3, le) {
                Some(q) => q,
                None => le,
            };
            let ks = trim_start(b, ls, p, QUOTE);
            proof {
                lemma_trim_start_props(bb, ls as int, p as int, QUOTE);
            }
            let ke = trim_end(b, ks, p, QUOTE);
            let vs = trim_start(b, p + 3, second_end, QUOTE);
            proof {
                lemma_trim_start_props(bb, p + 3, second_end as int, QUOTE);
            }
            let ve = trim_end(b, vs, second_end, QUOTE);
            proof {
                lemma_trim_end_props(bb, ks as int, p as int, QUOTE);
                lemma_trim_end_props(bb, vs as int, second_end as int, QUOTE);
                lemma_boundary(bb, ks as int);
                lemma_boundary(bb, ke as int);
                lemma_boundary(bb, vs as int);
                lemma_boundary(bb, ve as int);
            }
            let key = substr(source, ks, ke);
            let value = substr(source, vs, ve);
            insert_pair(&mut e, key, value);
            *current = Some(e);
            true
        },
        None => false,
    }
}

proof fn lemma_insert_unique(e: SpecEntity, k: Seq<u8>, v: Seq<u8>)
    requires
        spec_keys_unique(e),
    ensures
        spec_keys_unique(spec_insert(e, k, v)),
{
    lemma_key_index_range(e, k, 0);
    let i = spec_key_index_from(e, k, 0);
    if i < 0 {
        lemma_key_absent(e, k, 0);
    }
}

proof fn lemma_key_absent(e: SpecEntity, k: Seq<u8>, i: int)
    requires
        0 <= i,
        spec_key_index_from(e, k, i) == -1,
    ensures
        forall|j: int| i <= j < e.len() ==> e[j].0 != k,
    decreases e.len() - i,
{
    if i < e.len() {
        lemma_key_absent(e, k, i + 1);
    }
}

proof fn lemma_step_unique(b: Seq<u8>, ls: int, le: int, st: SpecParseState)
    requires
        forall|i: int| 0 <= i < st.0.len() ==> spec_keys_unique(#[trigger] st.0[i]),
        st.1 matches Some(e) ==> spec_keys_unique(e),
    ensures
        spec_step(b, ls, le, st) matches Some(st2) ==> {
            &&& forall|i: int| 0 <= i < st2.0.len() ==> spec_keys_unique(#[trigger] st2.0[i])
            &&& st2.1 matches Some(e) ==> spec_keys_unique(e)
        },
{
    if !(le - ls == 1 && b[ls] == OPEN_BRACE) && !(le - ls == 1 && b[ls] == CLOSE_BRACE) {
        if let Some(e) = st.1 {
            let p = spec_find_sep(b, ls, le);
            if p >= 0 {
                let q = spec_find_sep(b, p + 3, le);
                let second_end = if q < 0 { le } else { q };
                lemma_insert_unique(e, spec_trim_quotes(b, ls, p), spec_trim_quotes(b, p + 3, second_end));
            }
        }
    } else if le - ls == 1 && b[ls] == CLOSE_BRACE && !(b[ls] == OPEN_BRACE) {
        if let Some(e) = st.1 {
            let es = st.0.push(e);
            assert forall|i: int| 0 <= i < es.len() implies spec_keys_unique(#[trigger] es[i]) by {
                if i < st.0.len() {
                    assert(es[i] == st.0[i]);
                }
            }
        }
    } else {
        assert(spec_keys_unique(Seq::<(Seq<u8>, Seq<u8>)>::empty()));
    }
}

proof fn lemma_parse_from_unique(b: Seq<u8>, pos: int, st: SpecParseState)
    requires
        forall|i: int| 0 <= i < st.0.len() ==> spec_keys_unique(#[trigger] st.0[i]),
        st.1 matches Some(e) ==> spec_keys_unique(e),
    ensures
        spec_parse_from(b, pos, st) matches Some(es) ==> forall|i: int|
            0 <= i < es.len() ==> spec_keys_unique(#[trigger] es[i]),
    decreases b.len() - pos,
{
    if 0 <= pos < b.len() {
        lemma_step_unique(b, pos, spec_line_end(b, pos), st);
        if let Some(st2) = spec_step(b, pos, spec_line_end(b, pos), st) {
            let next = spec_next_line(b, pos);
            if next > pos {
                lemma_parse_from_unique(b, next, st2);
            }
        }
    }
}

/// Within each parsed entity no key occurs twice: setting a key again
/// replaces its value.
pub proof fn lemma_parsed_keys_unique(b: Seq<u8>)
    ensures
        spec_parse_entities(b) matches Some(es) ==> forall|i: int|
            0 <= i < es.len() ==> spec_keys_unique(#[trigger] es[i]),
{
    lemma_parse_from_unique(b, 0, (Seq::empty(), None));
}

impl<'a> BspEntity<'a> {
    /// Parses the entity lump's text; `None` exactly when the text is not a
    /// list of entity blocks (see [`spec_parse_entities`]).
    pub fn try_parse_entities(source: &'a str) -> (res: Option<Vec<BspEntity<'a>>>)
        ensures
            res is Some <==> spec_parse_entities(source.spec_bytes()) is Some,
            res matches Some(v) ==> spec_entities_view(v@) == spec_parse_entities(
                source.spec_bytes(),
            ).unwrap(),
    {
        let b = source.as_bytes();
        let ghost bb = source.spec_bytes();
        proof {
            assert(valid_utf8(bb));
        }
        let n = b.len();
        let mut entities: Vec<BspEntity<'a>> = Vec::new();
        let mut current: Option<Vec<(&'a str, &'a str)>> = None;
        let mut pos: usize = 0;
        proof {
            assert(spec_entities_view(entities@) =~= Seq::<SpecEntity>::empty());
        }
        while pos < n
            invariant
                b@ == bb,
                bb == source.spec_bytes(),
                valid_utf8(bb),
                n == bb.len(),
                0 <= pos <= n,
                pos == 0 || pos == n || bb[pos - 1] == NEWLINE,
                spec_parse_entities(bb) == spec_parse_from(
                    bb,
                    pos as int,
                    (spec_entities_view(entities@), spec_current_view(current)),
                ),
            decreases n - pos,
        {
            proof {
                lemma_find_byte_bounds(bb, pos as int, NEWLINE);
            }
            let nl = find_byte(b, pos, NEWLINE);
            let le = if nl < n && nl > pos && b[nl - 1] == CARRIAGE_RETURN {
                nl - 1
            } else {
                nl
            };
            let next = if nl < n {
                nl + 1
            } else {
                n
            };
            assert(le == spec_line_end(bb, pos as int));
            assert(next == spec_next_line(bb, pos as int));
            let ghost st0 = (spec_entities_view(entities@), spec_current_view(current));
            let ok = apply_line(source, b, pos, le, &mut entities, &mut current);
            if !ok {
                assert(spec_parse_from(bb, pos as int, st0) is None);
                return None;
            }
            assert(next > pos);
            assert(spec_parse_from(bb, pos as int, st0) == spec_parse_from(
                bb,
                next as int,
                (spec_entities_view(entities@), spec_current_view(current)),
            ));
            pos = next;
        }
        Some(entities)
    }

    /// Parses the entity lump's text, which must be a list of entity blocks.
    pub fn parse_entities(source: &'a str) -> (res: Vec<BspEntity<'a>>)
        requires
            spec_parse_entities(source.spec_bytes()) is Some,
        ensures
            spec_entities_view(res@) == spec_parse_entities(source.spec_bytes()).unwrap(),
    {
        match Self::try_parse_entities(source) {
            Some(v) => v,
            None => Vec::new(),
        }
    }
}

/// The value of key `name` in the pairs `e`, if the key is present.
pub open spec fn spec_entity_get<'a>(e: Seq<(&'a str, &'a str)>, name: &str) -> Option<&'a str> {
    let i = spec_key_index_from(spec_pairs_view(e), name.spec_bytes(), 0);
    if 0 <= i < e.len() {
        Some(e[i].1)
    } else {
        None
    }
}

impl<'a> BspEntity<'a> {
    /// The value of key `name`, if present.
    pub fn get(&self, name: &str) -> (res: Option<&'a str>)
        ensures
            res == spec_entity_get(self.0@, name),
    {
        match key_index(&self.0, name) {
            Some(i) => Some(self.0[i].1),
            None => None,
        }
    }

    /// Whether key `name` is present.
    pub fn contains_key(&self, name: &str) -> (res: bool)
        ensures
            res == (spec_entity_get(self.0@, name) is Some),
    {
        key_index(&self.0, name).is_some()
    }
}

} // verus!
