//! The wire-text machinery of the gateway envelope and the REST bodies: a
//! scanner for delimiting values, a reader for strings and numbers, and a
//! single-key object walker. Everything is specified over `Seq<char>` and
//! the executable readers are proved to match those specifications exactly.
//!
//! The grammar read here is the compact object form the platform emits:
//! an object is `{"key":value,...}` without blank space between tokens;
//! values are strings of plain characters, non-negative integers, nested
//! objects or arrays (delimited but not interpreted), `true`, `false` and
//! `null`. Escape sequences are honoured inside delimited (uninterpreted)
//! text but a reified string value containing an escape is not accepted.

use vstd::prelude::*;

verus! {

use crate::text::all_digits;
use crate::text::is_digit_char;
use crate::text::parse_u64_from;

/// The shape of a delimited value.
#[derive(Clone, Copy, Debug, PartialEq, Eq, Structural)]
pub enum JsonKind {
    KNum,
    KStr,
    KObj,
    KTrue,
    KFalse,
    KNull,
}

/// A character that may stand unescaped inside a reified string value.
pub open spec fn plain_str_char(c: char) -> bool {
    c != '"' && c != '\\' && (c as u32) >= 0x20
}

pub open spec fn all_plain(s: Seq<char>) -> bool {
    forall|k: int| 0 <= k < s.len() ==> plain_str_char(#[trigger] s[k])
}

/// Position just past the closing quote of a string whose content starts at
/// `i`; `None` if the content contains an escape, a control character or no
/// closing quote.
pub open spec fn str_end(s: Seq<char>, i: int) -> Option<int>
    decreases s.len() - i,
{
    if !(0 <= i < s.len()) {
        None
    } else if s[i] == '"' {
        Some(i + 1)
    } else if plain_str_char(s[i]) {
        str_end(s, i + 1)
    } else {
        None
    }
}

/// End of the run of decimal digits starting at `i`.
pub open spec fn num_end(s: Seq<char>, i: int) -> int
    decreases s.len() - i,
{
    if !(0 <= i < s.len()) {
        i
    } else if is_digit_char(s[i]) {
        num_end(s, i + 1)
    } else {
        i
    }
}

/// Position just past the bracket that closes the value whose interior scan
/// stands at `i` with `depth` open brackets; strings are honoured, including
/// escapes, and bracketed interiors are delimited without interpretation.
pub open spec fn blob_end(s: Seq<char>, i: int, depth: int, in_str: bool, esc: bool) -> Option<int>
    decreases s.len() - i,
{
    if !(0 <= i < s.len()) || depth <= 0 {
        None
    } else {
        let c = s[i];
        if in_str {
            if esc {
                blob_end(s, i + 1, depth, true, false)
            } else if c == '\\' {
                blob_end(s, i + 1, depth, true, true)
            } else if c == '"' {
                blob_end(s, i + 1, depth, false, false)
            } else {
                blob_end(s, i + 1, depth, true, false)
            }
        } else {
            if c == '"' {
                blob_end(s, i + 1, depth, true, false)
            } else if c == '{' || c == '[' {
                blob_end(s, i + 1, depth + 1, false, false)
            } else if c == '}' || c == ']' {
                if depth == 1 {
                    Some(i + 1)
                } else {
                    blob_end(s, i + 1, depth - 1, false, false)
                }
            } else {
                blob_end(s, i + 1, depth, false, false)
            }
        }
    }
}

/// A self-contained object blob: text that opens with `{` and whose scan
/// closes exactly at its end.
pub open spec fn obj_blob_wf(o: Seq<char>) -> bool {
    o.len() >= 2 && o[0] == '{' && blob_end(o, 1, 1, false, false) == Some(o.len() as int)
}

/// `lit` occurs in `s` starting at `i`.
pub open spec fn match_at(s: Seq<char>, i: int, lit: Seq<char>) -> bool {
    0 <= i && i + lit.len() <= s.len() && s.subrange(i, i + lit.len()) == lit
}

/// Delimits the value starting at `i`: its kind, the bounds of its content
/// and the position just past the whole value. String content excludes the
/// quotes; every other content spans the full value text.
pub open spec fn spec_value_span(s: Seq<char>, i: int) -> Option<(JsonKind, int, int, int)> {
    if !(0 <= i < s.len()) {
        None
    } else {
        let c = s[i];
        if c == '"' {
            match str_end(s, i + 1) {
                Some(j) => Some((JsonKind::KStr, i + 1, j - 1, j)),
                None => None,
            }
        } else if c == '{' || c == '[' {
            match blob_end(s, i + 1, 1, false, false) {
                Some(j) => Some((JsonKind::KObj, i, j, j)),
                None => None,
            }
        } else if is_digit_char(c) {
            let j = num_end(s, i);
            Some((JsonKind::KNum, i, j, j))
        } else if c == 't' {
            if match_at(s, i, "true"@) {
                Some((JsonKind::KTrue, i, i + 4, i + 4))
            } else {
                None
            }
        } else if c == 'f' {
            if match_at(s, i, "false"@) {
                Some((JsonKind::KFalse, i, i + 5, i + 5))
            } else {
                None
            }
        } else if c == 'n' {
            if match_at(s, i, "null"@) {
                Some((JsonKind::KNull, i, i + 4, i + 4))
            } else {
                None
            }
        } else {
            None
        }
    }
}

/// Walks `"key":value` pairs from `i` to the closing `}` of the object,
/// returning the content span of the first pair whose key equals `key`
/// (if any) and the position just past the closing brace. `None` when the
/// pair structure is broken.
pub open spec fn spec_obj_walk(s: Seq<char>, i: int, key: Seq<char>) -> Option<
    (Option<(JsonKind, int, int)>, int),
>
    decreases s.len() - i,
{
    if !(0 <= i < s.len()) {
        None
    } else if s[i] != '"' {
        None
    } else {
        match str_end(s, i + 1) {
            None => None,
            Some(jk) => {
                if !(jk < s.len() && s[jk] == ':') {
                    None
                } else {
                    match spec_value_span(s, jk + 1) {
                        None => None,
                        Some((kind, a, b, next)) => {
                            let here = if s.subrange(i + 1, jk - 1) == key {
                                Some((kind, a, b))
                            } else {
                                None
                            };
                            if !(i < next && next < s.len()) {
                                None
                            } else if s[next] == '}' {
                                Some((here, next + 1))
                            } else if s[next] == ',' {
                                match spec_obj_walk(s, next + 1, key) {
                                    None => None,
                                    Some((found, end)) => Some(
                                        (
                                            if here is Some {
                                                here
                                            } else {
                                                found
                                            },
                                            end,
                                        ),
                                    ),
                                }
                            } else {
                                None
                            }
                        },
                    }
                }
            },
        }
    }
}

/// Looks `key` up in a whole object text: the object must open with `{`,
/// and the walk result is paired with the position just past its closing
/// brace, which callers compare against the text length.
pub open spec fn spec_obj_lookup(s: Seq<char>, key: Seq<char>) -> Option<
    (Option<(JsonKind, int, int)>, int),
> {
    if s.len() >= 2 && s[0] == '{' {
        if s[1] == '}' {
            Some((None, 2))
        } else {
            spec_obj_walk(s, 1, key)
        }
    } else {
        None
    }
}

/// A string scan over plain content ends just past the closing quote.
pub proof fn lemma_str_end_scan(s: Seq<char>, i: int, j: int)
    requires
        0 <= i <= j < s.len(),
        s[j] == '"',
        forall|k: int| i <= k < j ==> plain_str_char(#[trigger] s[k]),
    ensures
        str_end(s, i) == Some(j + 1),
    decreases j - i,
{
    if i < j {
        assert(plain_str_char(s[i]));
        lemma_str_end_scan(s, i + 1, j);
    }
}

/// A digit scan over a digit run delimited by a non-digit ends exactly at
/// the delimiter.
pub proof fn lemma_num_end_scan(s: Seq<char>, i: int, j: int)
    requires
        0 <= i <= j <= s.len(),
        forall|k: int| i <= k < j ==> is_digit_char(#[trigger] s[k]),
        j == s.len() || !is_digit_char(s[j]),
    ensures
        num_end(s, i) == j,
    decreases j - i,
{
    if i < j {
        lemma_num_end_scan(s, i + 1, j);
    }
}

/// The blob scan is local: a scan that closes within `a` closes at the
/// same offset when `a` is embedded in any surrounding text.
pub proof fn lemma_blob_end_shift(
    a: Seq<char>,
    x: Seq<char>,
    y: Seq<char>,
    i: int,
    depth: int,
    in_str: bool,
    esc: bool,
    j: int,
)
    requires
        0 <= i <= a.len(),
        blob_end(a, i, depth, in_str, esc) == Some(j),
    ensures
        blob_end(x + a + y, x.len() + i, depth, in_str, esc) == Some(x.len() + j),
    decreases a.len() - i,
{
    lemma_blob_end_range(a, i, depth, in_str, esc, j);
    let s = x + a + y;
    assert(s[x.len() + i] == a[i]);
    let c = a[i];
    if in_str {
        if esc {
            lemma_blob_end_shift(a, x, y, i + 1, depth, true, false, j);
        } else if c == '\\' {
            lemma_blob_end_shift(a, x, y, i + 1, depth, true, true, j);
        } else if c == '"' {
            lemma_blob_end_shift(a, x, y, i + 1, depth, false, false, j);
        } else {
            lemma_blob_end_shift(a, x, y, i + 1, depth, true, false, j);
        }
    } else {
        if c == '"' {
            lemma_blob_end_shift(a, x, y, i + 1, depth, true, false, j);
        } else if c == '{' || c == '[' {
            lemma_blob_end_shift(a, x, y, i + 1, depth + 1, false, false, j);
        } else if c == '}' || c == ']' {
            if depth != 1 {
                lemma_blob_end_shift(a, x, y, i + 1, depth - 1, false, false, j);
            }
        } else {
            lemma_blob_end_shift(a, x, y, i + 1, depth, false, false, j);
        }
    }
}

/// A scan outside strings over characters with no structural meaning
/// advances through them unchanged.
pub proof fn lemma_blob_step_plain(s: Seq<char>, i: int, j: int, depth: int)
    requires
        0 <= i <= j <= s.len(),
        depth >= 1,
        forall|k: int|
            i <= k < j ==> {
                let c = #[trigger] s[k];
                c != '"' && c != '\\' && c != '{' && c != '[' && c != '}' && c != ']'
            },
    ensures
        blob_end(s, i, depth, false, false) == blob_end(s, j, depth, false, false),
    decreases j - i,
{
    if i < j {
        lemma_blob_step_plain(s, i + 1, j, depth);
    }
}

/// A scan that meets a quoted run of plain characters passes over the
/// whole string value.
pub proof fn lemma_blob_step_string(s: Seq<char>, i: int, j: int, depth: int)
    requires
        0 <= i < j < s.len(),
        depth >= 1,
        s[i] == '"',
        s[j] == '"',
        forall|k: int|
            i < k < j ==> {
                let c = #[trigger] s[k];
                c != '"' && c != '\\'
            },
    ensures
        blob_end(s, i, depth, false, false) == blob_end(s, j + 1, depth, false, false),
    decreases j - i,
{
    assert(blob_end(s, i, depth, false, false) == blob_end(s, i + 1, depth, true, false));
    lemma_blob_in_string_run(s, i + 1, j, depth);
}

proof fn lemma_blob_in_string_run(s: Seq<char>, i: int, j: int, depth: int)
    requires
        0 <= i <= j < s.len(),
        depth >= 1,
        s[j] == '"',
        forall|k: int|
            i <= k < j ==> {
                let c = #[trigger] s[k];
                c != '"' && c != '\\'
            },
    ensures
        blob_end(s, i, depth, true, false) == blob_end(s, j + 1, depth, false, false),
    decreases j - i,
{
    if i < j {
        lemma_blob_in_string_run(s, i + 1, j, depth);
    }
}

/// A span found by the walker sits inside the text.
pub proof fn lemma_walk_found_range(s: Seq<char>, i: int, key: Seq<char>)
    requires
        spec_obj_walk(s, i, key) matches Some((Some(f), end)),
    ensures
        ({
            let (kind, a, b) = spec_obj_walk(s, i, key)->Some_0.0->Some_0;
            0 <= a <= b <= s.len()
        }),
    decreases s.len() - i,
{
    let jk = str_end(s, i + 1)->Some_0;
    lemma_str_end_range(s, i + 1, jk);
    let (kind, a, b, next) = spec_value_span(s, jk + 1)->Some_0;
    lemma_value_span_range(s, jk + 1);
    if s[next] == ',' && !(s.subrange(i + 1, jk - 1) == key) {
        lemma_walk_found_range(s, next + 1, key);
    }
}

/// A span found by the lookup sits inside the text.
pub proof fn lemma_lookup_found_range(s: Seq<char>, key: Seq<char>)
    requires
        spec_obj_lookup(s, key) matches Some((Some(f), end)),
    ensures
        ({
            let (kind, a, b) = spec_obj_lookup(s, key)->Some_0.0->Some_0;
            0 <= a <= b <= s.len()
        }),
{
    lemma_walk_found_range(s, 1, key);
}

/// One rendered `"key":value` pair of a canonical object text: the pair's
/// key, the rendered value text, its kind and the content bounds within
/// the value text.
pub struct PairR {
    pub key: Seq<char>,
    pub vtext: Seq<char>,
    pub kind: JsonKind,
    pub a: int,
    pub b: int,
}

/// The text of one pair.
pub open spec fn pair_text(p: PairR) -> Seq<char> {
    seq!['"'] + p.key + seq!['"', ':'] + p.vtext
}

/// The comma-joined text of a run of pairs.
pub open spec fn pairs_text(ps: Seq<PairR>) -> Seq<char>
    decreases ps.len(),
{
    if ps.len() == 0 {
        Seq::<char>::empty()
    } else if ps.len() == 1 {
        pair_text(ps[0])
    } else {
        pair_text(ps[0]) + seq![','] + pairs_text(ps.drop_first())
    }
}

/// The whole canonical object text of a run of pairs.
pub open spec fn obj_text(ps: Seq<PairR>) -> Seq<char> {
    seq!['{'] + pairs_text(ps) + seq!['}']
}

/// A key the walker reads back exactly: non-empty plain text.
pub open spec fn key_ok(k: Seq<char>) -> bool {
    k.len() >= 1 && all_plain(k)
}

/// A rendered value the scanner delimits exactly at its own length, with
/// the stated content bounds.
pub open spec fn value_ok(p: PairR) -> bool {
    match p.kind {
        JsonKind::KNum => p.vtext.len() >= 1 && all_digits(p.vtext) && p.a == 0 && p.b
            == p.vtext.len(),
        JsonKind::KStr => p.vtext.len() >= 2 && p.vtext[0] == '"' && p.vtext[p.vtext.len() - 1]
            == '"' && (forall|k: int|
            1 <= k < p.vtext.len() - 1 ==> plain_str_char(#[trigger] p.vtext[k])) && p.a == 1
            && p.b == p.vtext.len() - 1,
        JsonKind::KObj => obj_blob_wf(p.vtext) && p.a == 0 && p.b == p.vtext.len(),
        JsonKind::KTrue => p.vtext == "true"@ && p.a == 0 && p.b == 4,
        JsonKind::KFalse => p.vtext == "false"@ && p.a == 0 && p.b == 5,
        JsonKind::KNull => p.vtext == "null"@ && p.a == 0 && p.b == 4,
    }
}

pub open spec fn pair_ok(p: PairR) -> bool {
    key_ok(p.key) && value_ok(p)
}

/// The first pair with key `key` in a run starting at text position
/// `base`, together with the position of its value text.
pub open spec fn pairs_found(ps: Seq<PairR>, key: Seq<char>, base: int) -> Option<(PairR, int)>
    decreases ps.len(),
{
    if ps.len() == 0 {
        None
    } else {
        let voff = base + 1 + ps[0].key.len() + 2;
        if ps[0].key == key {
            Some((ps[0], voff))
        } else {
            pairs_found(ps.drop_first(), key, base + pair_text(ps[0]).len() + 1)
        }
    }
}

/// The content span a found pair stands for.
pub open spec fn found_span(r: Option<(PairR, int)>) -> Option<(JsonKind, int, int)> {
    match r {
        Some((p, voff)) => Some((p.kind, voff + p.a, voff + p.b)),
        None => None,
    }
}

/// The text length a run of pairs occupies, separators included.
pub open spec fn pairs_adv(ps: Seq<PairR>) -> int
    decreases ps.len(),
{
    if ps.len() == 0 {
        0
    } else {
        pair_text(ps[0]).len() + 1 + pairs_adv(ps.drop_first())
    }
}

/// A lookup skips over a leading run of pairs whose keys all differ from
/// the one sought, advancing the base by the text they occupy.
pub proof fn lemma_found_skip(a: Seq<PairR>, b: Seq<PairR>, key: Seq<char>, base: int)
    requires
        forall|k: int| 0 <= k < a.len() ==> (#[trigger] a[k].key) != key,
    ensures
        pairs_found(a + b, key, base) == pairs_found(b, key, base + pairs_adv(a)),
    decreases a.len(),
{
    if a.len() == 0 {
        assert(a + b =~= b);
    } else {
        let ab = a + b;
        assert(ab[0] == a[0]);
        assert(ab.len() > 0);
        assert(a[0].key != key);
        assert(ab.drop_first() =~= a.drop_first() + b);
        lemma_found_skip(a.drop_first(), b, key, base + pair_text(a[0]).len() + 1);
    }
}

/// A lookup among pairs whose keys all differ from the one sought finds
/// nothing.
pub proof fn lemma_found_absent(a: Seq<PairR>, key: Seq<char>, base: int)
    requires
        forall|k: int| 0 <= k < a.len() ==> (#[trigger] a[k].key) != key,
    ensures
        pairs_found(a, key, base) is None,
    decreases a.len(),
{
    if a.len() > 0 {
        lemma_found_absent(a.drop_first(), key, base + pair_text(a[0]).len() + 1);
    }
}

/// The text of a non-empty run prefixed to another non-empty run is the
/// two texts joined by a comma.
pub proof fn lemma_pairs_text_append(a: Seq<PairR>, b: Seq<PairR>)
    ensures
        a.len() == 0 ==> pairs_text(a + b) == pairs_text(b),
        b.len() == 0 ==> pairs_text(a + b) == pairs_text(a),
        (a.len() > 0 && b.len() > 0) ==> pairs_text(a + b) == pairs_text(a) + seq![',']
            + pairs_text(b),
    decreases a.len(),
{
    if a.len() == 0 {
        assert(a + b =~= b);
    } else if b.len() == 0 {
        assert(a + b =~= a);
    } else {
        let ab = a + b;
        assert(ab.len() >= 2);
        assert(ab[0] == a[0]);
        assert(ab.drop_first() =~= a.drop_first() + b);
        lemma_pairs_text_append(a.drop_first(), b);
        if a.len() == 1 {
            assert(a.drop_first().len() == 0);
            assert(pairs_text(ab) == pair_text(a[0]) + seq![','] + pairs_text(b));
            assert(pairs_text(a) == pair_text(a[0]));
        } else {
            assert(pairs_text(ab) == pair_text(ab[0]) + seq![','] + pairs_text(ab.drop_first()));
            assert(pairs_text(a) == pair_text(a[0]) + seq![','] + pairs_text(a.drop_first()));
            assert(pairs_text(a + b) =~= pairs_text(a) + seq![','] + pairs_text(b));
        }
    }
}

/// The text a run occupies in an object, separators included: its joined
/// text plus one separator.
pub proof fn lemma_pairs_adv_len(ps: Seq<PairR>)
    requires
        ps.len() >= 1,
    ensures
        pairs_adv(ps) == pairs_text(ps).len() + 1,
    decreases ps.len(),
{
    if ps.len() > 1 {
        lemma_pairs_adv_len(ps.drop_first());
    } else {
        assert(ps.drop_first().len() == 0);
        assert(pairs_adv(ps.drop_first()) == 0);
        assert(pairs_text(ps) == pair_text(ps[0]));
    }
}

/// Delimiting a rendered value embedded at position `v` of `s`: the span
/// is the stated content and the scan stops exactly at the value's end.
proof fn lemma_value_span_embed(s: Seq<char>, v: int, p: PairR)
    requires
        value_ok(p),
        0 <= v,
        v + p.vtext.len() < s.len(),
        s.subrange(v, v + p.vtext.len()) == p.vtext,
        !is_digit_char(s[v + p.vtext.len()]),
    ensures
        spec_value_span(s, v) == Some((p.kind, v + p.a, v + p.b, v + p.vtext.len())),
{
    let n = p.vtext.len() as int;
    assert forall|k: int| v <= k < v + n implies #[trigger] s[k] == p.vtext[k - v] by {
        assert(s.subrange(v, v + n)[k - v] == s[k]);
        assert(s.subrange(v, v + n)[k - v] == p.vtext[k - v]);
    }
    match p.kind {
        JsonKind::KNum => {
            assert(is_digit_char(s[v]));
            assert(s[v] != '"' && s[v] != '{' && s[v] != '[');
            lemma_num_end_scan(s, v, v + n);
        },
        JsonKind::KStr => {
            assert(s[v] == '"');
            lemma_str_end_scan(s, v + 1, v + n - 1);
        },
        JsonKind::KObj => {
            assert(s[v] == '{');
            let x = s.take(v);
            let y = s.skip(v + n);
            assert(s =~= x + p.vtext + y);
            lemma_blob_end_shift(p.vtext, x, y, 1, 1, false, false, n);
        },
        JsonKind::KTrue => {
            reveal_strlit("true");
            assert(s[v] == 't');
            assert(!is_digit_char(s[v]) && s[v] != '"' && s[v] != '{' && s[v] != '[');
            assert(s.subrange(v, v + 4) =~= "true"@);
            assert(match_at(s, v, "true"@));
        },
        JsonKind::KFalse => {
            reveal_strlit("false");
            assert(s[v] == 'f');
            assert(!is_digit_char(s[v]) && s[v] != '"' && s[v] != '{' && s[v] != '[');
            assert(s.subrange(v, v + 5) =~= "false"@);
            assert(match_at(s, v, "false"@));
        },
        JsonKind::KNull => {
            reveal_strlit("null");
            assert(s[v] == 'n');
            assert(!is_digit_char(s[v]) && s[v] != '"' && s[v] != '{' && s[v] != '[');
            assert(s.subrange(v, v + 4) =~= "null"@);
            assert(match_at(s, v, "null"@));
        },
    }
}

/// Walking a canonical run of pairs that fills the rest of the text up to
/// its closing brace finds exactly what [`pairs_lookup`] names, and ends
/// at the text's end.
pub proof fn lemma_walk_pairs(s: Seq<char>, i: int, ps: Seq<PairR>, key: Seq<char>)
    requires
        ps.len() >= 1,
        forall|k: int| 0 <= k < ps.len() ==> pair_ok(#[trigger] ps[k]),
        1 <= i,
        i + pairs_text(ps).len() + 1 == s.len(),
        s.subrange(i, s.len() as int) == pairs_text(ps) + seq!['}'],
    ensures
        spec_obj_walk(s, i, key) == Some((found_span(pairs_found(ps, key, i)), s.len() as int)),
        (match pairs_found(ps, key, i) {
            Some((p, voff)) => 1 <= voff && voff + p.vtext.len() < s.len() && s.subrange(
                voff,
                voff + p.vtext.len() as int,
            ) == p.vtext,
            None => true,
        }),
    decreases ps.len(),
{
    let p = ps[0];
    let klen = p.key.len() as int;
    let vlen = p.vtext.len() as int;
    let ptext = pair_text(p);
    let tail = s.subrange(i, s.len() as int);
    assert(pair_ok(p));
    if ps.len() == 1 {
        assert(pairs_text(ps) == ptext);
    } else {
        assert(pairs_text(ps) == ptext + seq![','] + pairs_text(ps.drop_first()));
    }
    assert forall|k: int| i <= k < i + ptext.len() implies #[trigger] s[k] == ptext[k - i] by {
        assert(tail[k - i] == s[k]);
        assert(tail[k - i] == (pairs_text(ps) + seq!['}'])[k - i]);
        if ps.len() == 1 {
        } else {
            assert((ptext + seq![','] + pairs_text(ps.drop_first()))[k - i] == ptext[k - i]);
        }
    }
    assert(s[i] == '"');
    assert forall|k: int| i + 1 <= k < i + 1 + klen implies plain_str_char(#[trigger] s[k]) by {
        assert(ptext[k - i] == p.key[k - i - 1]);
    }
    assert(s[i + 1 + klen] == '"');
    lemma_str_end_scan(s, i + 1, i + 1 + klen);
    let jk = i + klen + 2;
    assert(str_end(s, i + 1) == Some(jk));
    assert(s[jk] == ':');
    let voff = jk + 1;
    assert forall|k: int| voff <= k < voff + vlen implies #[trigger] s[k] == p.vtext[k - voff] by {
        assert(ptext[k - i] == p.vtext[k - voff]);
    }
    assert(s.subrange(voff, voff + vlen) =~= p.vtext);
    let nxt = voff + vlen;
    let close: char = if ps.len() == 1 {
        '}'
    } else {
        ','
    };
    assert(s[nxt] == close) by {
        if ps.len() == 1 {
            assert(tail[ptext.len() as int] == (pairs_text(ps) + seq!['}'])[ptext.len() as int]);
        } else {
            assert(tail[ptext.len() as int] == (pairs_text(ps) + seq!['}'])[ptext.len() as int]);
            assert((ptext + seq![','] + pairs_text(ps.drop_first()))[ptext.len() as int] == ',');
        }
    }
    assert(!is_digit_char(s[nxt]));
    lemma_value_span_embed(s, voff, p);
    assert(spec_value_span(s, jk + 1) == Some((p.kind, voff + p.a, voff + p.b, nxt)));
    let here_is = s.subrange(i + 1, jk - 1) == key;
    assert(s.subrange(i + 1, jk - 1) =~= p.key);
    if ps.len() == 1 {
        assert(s[nxt] == '}');
        assert(nxt + 1 == s.len());
        assert(spec_obj_walk(s, i, key) == Some(
            (
                if p.key == key {
                    Some((p.kind, voff + p.a, voff + p.b))
                } else {
                    None
                },
                s.len() as int,
            ),
        ));
    } else {
        assert(s[nxt] == ',');
        let rest = ps.drop_first();
        let i2 = nxt + 1;
        assert(i2 == i + ptext.len() + 1);
        assert forall|k: int| 0 <= k < rest.len() implies pair_ok(#[trigger] rest[k]) by {
            assert(rest[k] == ps[k + 1]);
        }
        assert(s.subrange(i2, s.len() as int) =~= pairs_text(rest) + seq!['}']) by {
            assert forall|k: int| 0 <= k < s.len() - i2 implies s.subrange(i2, s.len() as int)[k]
                == (pairs_text(rest) + seq!['}'])[k] by {
                assert(s.subrange(i2, s.len() as int)[k] == tail[i2 - i + k]);
                assert(tail[i2 - i + k] == (pairs_text(ps) + seq!['}'])[i2 - i + k]);
                if i2 - i + k < pairs_text(ps).len() {
                    assert((ptext + seq![','] + pairs_text(rest))[i2 - i + k] == pairs_text(
                        rest,
                    )[k]);
                }
            }
        }
        lemma_walk_pairs(s, i2, rest, key);
        if p.key == key {
            assert(here_is);
            assert(spec_obj_walk(s, i, key) == Some(
                (Some((p.kind, voff + p.a, voff + p.b)), s.len() as int),
            ));
        } else {
            assert(!here_is);
            assert(spec_obj_walk(s, i, key) == Some(
                (found_span(pairs_found(rest, key, i2)), s.len() as int),
            ));
        }
        assert(pairs_found(ps, key, i) == (if p.key == key {
            Some((p, voff))
        } else {
            pairs_found(rest, key, i2)
        }));
    }
}

/// `Option<usize>` results of the executable readers, as mathematical
/// indices.
pub open spec fn span4_model(r: Option<(JsonKind, usize, usize, usize)>) -> Option<
    (JsonKind, int, int, int),
> {
    match r {
        Some((kind, a, b, next)) => Some((kind, a as int, b as int, next as int)),
        None => None,
    }
}

/// Result of the executable walker, as mathematical indices.
pub open spec fn walk_model(r: Option<(Option<(JsonKind, usize, usize)>, usize)>) -> Option<
    (Option<(JsonKind, int, int)>, int),
> {
    match r {
        Some((found, end)) => Some(
            (
                match found {
                    Some((kind, a, b)) => Some((kind, a as int, b as int)),
                    None => None,
                },
                end as int,
            ),
        ),
        None => None,
    }
}

/// A successful string scan ends past `i`, within the text, on a quote,
/// with plain content.
pub proof fn lemma_str_end_range(s: Seq<char>, i: int, j: int)
    requires
        str_end(s, i) == Some(j),
    ensures
        0 <= i < j <= s.len(),
        s[j - 1] == '"',
        forall|k: int| i <= k < j - 1 ==> plain_str_char(#[trigger] s[k]),
    decreases s.len() - i,
{
    if 0 <= i < s.len() && s[i] != '"' && plain_str_char(s[i]) {
        lemma_str_end_range(s, i + 1, j);
    }
}

/// The digit run ends within the text, contains only digits, and stops at a
/// non-digit or the end.
pub proof fn lemma_num_end_range(s: Seq<char>, i: int)
    requires
        0 <= i <= s.len(),
    ensures
        i <= num_end(s, i) <= s.len(),
        forall|k: int| i <= k < num_end(s, i) ==> is_digit_char(#[trigger] s[k]),
        num_end(s, i) < s.len() ==> !is_digit_char(s[num_end(s, i)]),
    decreases s.len() - i,
{
    if i < s.len() && is_digit_char(s[i]) {
        lemma_num_end_range(s, i + 1);
    }
}

/// A successful blob scan ends past `i` and within the text.
pub proof fn lemma_blob_end_range(s: Seq<char>, i: int, depth: int, in_str: bool, esc: bool, j: int)
    requires
        blob_end(s, i, depth, in_str, esc) == Some(j),
    ensures
        0 <= i < j <= s.len(),
    decreases s.len() - i,
{
    if 0 <= i < s.len() && depth > 0 {
        let c = s[i];
        if in_str {
            if esc {
                lemma_blob_end_range(s, i + 1, depth, true, false, j);
            } else if c == '\\' {
                lemma_blob_end_range(s, i + 1, depth, true, true, j);
            } else if c == '"' {
                lemma_blob_end_range(s, i + 1, depth, false, false, j);
            } else {
                lemma_blob_end_range(s, i + 1, depth, true, false, j);
            }
        } else {
            if c == '"' {
                lemma_blob_end_range(s, i + 1, depth, true, false, j);
            } else if c == '{' || c == '[' {
                lemma_blob_end_range(s, i + 1, depth + 1, false, false, j);
            } else if c == '}' || c == ']' {
                if depth != 1 {
                    lemma_blob_end_range(s, i + 1, depth - 1, false, false, j);
                }
            } else {
                lemma_blob_end_range(s, i + 1, depth, false, false, j);
            }
        }
    }
}

/// A successful value span sits inside the text and moves forward.
pub proof fn lemma_value_span_range(s: Seq<char>, i: int)
    requires
        spec_value_span(s, i) is Some,
    ensures
        ({
            let (kind, a, b, next) = spec_value_span(s, i)->Some_0;
            i < next <= s.len() && 0 <= a <= b <= next
        }),
{
    let c = s[i];
    if c == '"' {
        lemma_str_end_range(s, i + 1, str_end(s, i + 1)->Some_0);
    } else if c == '{' || c == '[' {
        lemma_blob_end_range(s, i + 1, 1, false, false, blob_end(s, i + 1, 1, false, false)->Some_0);
    } else if is_digit_char(c) {
        lemma_num_end_range(s, i);
    } else {
        reveal_strlit("true");
        reveal_strlit("false");
        reveal_strlit("null");
    }
}

/// Whether `lit` occurs in `s` at position `i`.
pub fn match_lit(s: &str, i: usize, lit: &str) -> (r: bool)
    ensures
        r == match_at(s@, i as int, lit@),
{
    let sl = s.unicode_len();
    let ll = lit.unicode_len();
    if i > sl || ll > sl - i {
        return false;
    }
    let mut k: usize = 0;
    while k < ll
        invariant
            sl == s@.len(),
            ll == lit@.len(),
            i + ll <= sl,
            0 <= k <= ll,
            forall|m: int| 0 <= m < k ==> s@[i + m] == lit@[m],
        decreases ll - k,
    {
        if s.get_char(i + k) != lit.get_char(k) {
            proof {
                assert(s@.subrange(i as int, i + ll)[k as int] != lit@[k as int]);
            }
            return false;
        }
        k = k + 1;
    }
    proof {
        assert(s@.subrange(i as int, i + ll) =~= lit@);
    }
    true
}

/// Whether the characters of `s` in `[a, b)` equal `key`.
pub fn span_eq(s: &str, a: usize, b: usize, key: &str) -> (r: bool)
    requires
        a <= b <= s@.len(),
    ensures
        r == (s@.subrange(a as int, b as int) == key@),
{
    let kl = key.unicode_len();
    if b - a != kl {
        proof {
            assert(s@.subrange(a as int, b as int).len() != key@.len());
        }
        return false;
    }
    let mut k: usize = 0;
    while k < kl
        invariant
            kl == key@.len(),
            a + kl == b,
            b <= s@.len(),
            0 <= k <= kl,
            forall|m: int| 0 <= m < k ==> s@[a + m] == key@[m],
        decreases kl - k,
    {
        if s.get_char(a + k) != key.get_char(k) {
            proof {
                assert(s@.subrange(a as int, b as int)[k as int] != key@[k as int]);
            }
            return false;
        }
        k = k + 1;
    }
    proof {
        assert(s@.subrange(a as int, b as int) =~= key@);
    }
    true
}

/// Scans for the closing quote of a string whose content starts at `i`.
pub fn scan_str_end(s: &str, i: usize) -> (r: Option<usize>)
    ensures
        (match r {
            Some(j) => str_end(s@, i as int) == Some(j as int),
            None => str_end(s@, i as int) is None,
        }),
{
    let len = s.unicode_len();
    let mut k: usize = i;
    while k < len
        invariant
            len == s@.len(),
            i <= k,
            str_end(s@, i as int) == str_end(s@, k as int),
        decreases len - k,
    {
        let c = s.get_char(k);
        if c == '"' {
            return Some(k + 1);
        }
        if c == '\\' || (c as u32) < 0x20 {
            return None;
        }
        k = k + 1;
    }
    None
}

/// End of the digit run starting at `i`.
pub fn scan_num_end(s: &str, i: usize) -> (r: usize)
    requires
        i <= s@.len(),
    ensures
        r == num_end(s@, i as int),
{
    let len = s.unicode_len();
    let mut k: usize = i;
    while k < len
        invariant
            len == s@.len(),
            i <= k <= len,
            num_end(s@, i as int) == num_end(s@, k as int),
        decreases len - k,
    {
        let c = s.get_char(k);
        let u = c as u32;
        if !(48 <= u && u <= 57) {
            return k;
        }
        k = k + 1;
    }
    k
}

/// Scans past the bracketed value whose interior starts at `i` with one
/// open bracket.
pub fn scan_blob_end(s: &str, i: usize) -> (r: Option<usize>)
    requires
        1 <= i,
    ensures
        (match r {
            Some(j) => blob_end(s@, i as int, 1, false, false) == Some(j as int),
            None => blob_end(s@, i as int, 1, false, false) is None,
        }),
{
    let len = s.unicode_len();
    let mut k: usize = i;
    let mut depth: usize = 1;
    let mut in_str: bool = false;
    let mut esc: bool = false;
    while k < len
        invariant
            len == s@.len(),
            i <= k,
            1 <= depth <= k,
            !in_str ==> !esc,
            blob_end(s@, i as int, 1, false, false) == blob_end(
                s@,
                k as int,
                depth as int,
                in_str,
                esc,
            ),
        decreases len - k,
    {
        let c = s.get_char(k);
        let ghost d0 = depth as int;
        let ghost s0 = in_str;
        let ghost e0 = esc;
        if in_str {
            if esc {
                esc = false;
            } else if c == '\\' {
                esc = true;
            } else if c == '"' {
                in_str = false;
            }
        } else {
            if c == '"' {
                in_str = true;
            } else if c == '{' || c == '[' {
                depth = depth + 1;
            } else if c == '}' || c == ']' {
                if depth == 1 {
                    return Some(k + 1);
                }
                depth = depth - 1;
            }
        }
        k = k + 1;
        proof {
            assert(blob_end(s@, k - 1, d0, s0, e0) == blob_end(
                s@,
                k as int,
                depth as int,
                in_str,
                esc,
            ));
        }
    }
    None
}

/// Delimits the value starting at `i`.
pub fn scan_value(s: &str, i: usize) -> (r: Option<(JsonKind, usize, usize, usize)>)
    ensures
        span4_model(r) == spec_value_span(s@, i as int),
{
    let len = s.unicode_len();
    if i >= len {
        return None;
    }
    let c = s.get_char(i);
    if c == '"' {
        match scan_str_end(s, i + 1) {
            Some(j) => {
                proof {
                    lemma_str_end_range(s@, i + 1, j as int);
                }
                Some((JsonKind::KStr, i + 1, j - 1, j))
            },
            None => None,
        }
    } else if c == '{' || c == '[' {
        match scan_blob_end(s, i + 1) {
            Some(j) => Some((JsonKind::KObj, i, j, j)),
            None => None,
        }
    } else if {
        let u = c as u32;
        48 <= u && u <= 57
    } {
        let j = scan_num_end(s, i);
        Some((JsonKind::KNum, i, j, j))
    } else if c == 't' {
        if match_lit(s, i, "true") {
            proof {
                reveal_strlit("true");
            }
            Some((JsonKind::KTrue, i, i + 4, i + 4))
        } else {
            None
        }
    } else if c == 'f' {
        if match_lit(s, i, "false") {
            proof {
                reveal_strlit("false");
            }
            Some((JsonKind::KFalse, i, i + 5, i + 5))
        } else {
            None
        }
    } else if c == 'n' {
        if match_lit(s, i, "null") {
            proof {
                reveal_strlit("null");
            }
            Some((JsonKind::KNull, i, i + 4, i + 4))
        } else {
            None
        }
    } else {
        None
    }
}

/// Reads the digits of `s[i .. j)` as a `u64`.
pub fn parse_u64_span(s: &str, i: usize, j: usize) -> (r: Option<u64>)
    requires
        i <= j <= s@.len(),
    ensures
        r == parse_u64_from(s@, i as int, j as int, 0),
{
    let mut k: usize = i;
    let mut acc: u64 = 0;
    while k < j
        invariant
            i <= k <= j <= s@.len(),
            parse_u64_from(s@, i as int, j as int, 0) == parse_u64_from(
                s@,
                k as int,
                j as int,
                acc,
            ),
        decreases j - k,
    {
        let c = s.get_char(k);
        let u = c as u32;
        if !(48 <= u && u <= 57) {
            return None;
        }
        let d: u64 = ((u - 48) as u64);
        match acc.checked_mul(10) {
            None => {
                return None;
            },
            Some(m) => {
                match m.checked_add(d) {
                    None => {
                        return None;
                    },
                    Some(n) => {
                        acc = n;
                    },
                }
            },
        }
        k = k + 1;
    }
    Some(acc)
}

/// Walks the `"key":value` pairs from `i`, looking `key` up.
pub fn obj_walk(s: &str, i: usize, key: &str) -> (r: Option<
    (Option<(JsonKind, usize, usize)>, usize),
>)
    ensures
        walk_model(r) == spec_obj_walk(s@, i as int, key@),
    decreases s@.len() - i,
{
    let len = s.unicode_len();
    if i >= len {
        return None;
    }
    if s.get_char(i) != '"' {
        return None;
    }
    match scan_str_end(s, i + 1) {
        None => None,
        Some(jk) => {
            proof {
                lemma_str_end_range(s@, i + 1, jk as int);
            }
            if !(jk < len) {
                return None;
            }
            if s.get_char(jk) != ':' {
                return None;
            }
            match scan_value(s, jk + 1) {
                None => None,
                Some((kind, a, b, next)) => {
                    proof {
                        lemma_value_span_range(s@, jk + 1);
                    }
                    let here_is = span_eq(s, i + 1, jk - 1, key);
                    if !(i < next && next < len) {
                        return None;
                    }
                    let nc = s.get_char(next);
                    if nc == '}' {
                        if here_is {
                            Some((Some((kind, a, b)), next + 1))
                        } else {
                            Some((None, next + 1))
                        }
                    } else if nc == ',' {
                        match obj_walk(s, next + 1, key) {
                            None => None,
                            Some((found, end)) => {
                                if here_is {
                                    Some((Some((kind, a, b)), end))
                                } else {
                                    Some((found, end))
                                }
                            },
                        }
                    } else {
                        None
                    }
                },
            }
        },
    }
}

/// Looks `key` up in a whole object text.
pub fn obj_lookup(s: &str, key: &str) -> (r: Option<(Option<(JsonKind, usize, usize)>, usize)>)
    ensures
        walk_model(r) == spec_obj_lookup(s@, key@),
{
    let len = s.unicode_len();
    if len < 2 {
        return None;
    }
    if s.get_char(0) != '{' {
        return None;
    }
    if s.get_char(1) == '}' {
        return Some((None, 2));
    }
    obj_walk(s, 1, key)
}

} // verus!
