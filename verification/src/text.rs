//! Character-level helpers shared by the codec and the REST body readers:
//! decimal digits, plain string comparison and number rendering.

use vstd::prelude::*;

verus! {

/// Whether `c` is a decimal digit.
pub open spec fn is_digit_char(c: char) -> bool {
    48 <= (c as u32) && (c as u32) <= 57
}

/// Numeric value of a decimal digit character.
pub open spec fn digit_val(c: char) -> int {
    (c as u32) - 48
}

/// The decimal digit character for a value below ten.
pub open spec fn digit_char(d: int) -> char {
    if d == 0 {
        '0'
    } else if d == 1 {
        '1'
    } else if d == 2 {
        '2'
    } else if d == 3 {
        '3'
    } else if d == 4 {
        '4'
    } else if d == 5 {
        '5'
    } else if d == 6 {
        '6'
    } else if d == 7 {
        '7'
    } else if d == 8 {
        '8'
    } else {
        '9'
    }
}

/// Decimal rendering of a non-negative integer, most significant digit first.
pub open spec fn spec_udigits(n: int) -> Seq<char>
    decreases n,
{
    if n < 10 {
        seq![digit_char(n)]
    } else {
        spec_udigits(n / 10) + seq![digit_char(n % 10)]
    }
}

pub open spec fn all_digits(s: Seq<char>) -> bool {
    forall|k: int| 0 <= k < s.len() ==> is_digit_char(#[trigger] s[k])
}

/// Left-to-right decimal reading of `s[i .. j)` starting from `acc`; `None`
/// exactly when a non-digit occurs or the value leaves the `u64` range.
pub open spec fn parse_u64_from(s: Seq<char>, i: int, j: int, acc: u64) -> Option<u64>
    decreases j - i,
{
    if i >= j {
        Some(acc)
    } else if !(0 <= i < s.len()) {
        None
    } else if !is_digit_char(s[i]) {
        None
    } else if acc * 10 + digit_val(s[i]) > u64::MAX {
        None
    } else {
        parse_u64_from(s, i + 1, j, (acc * 10 + digit_val(s[i])) as u64)
    }
}

proof fn lemma_digit_roundtrip(d: int)
    requires
        0 <= d < 10,
    ensures
        is_digit_char(digit_char(d)),
        digit_val(digit_char(d)) == d,
{
}

/// Every character of a decimal rendering is a digit, and the rendering is
/// non-empty.
pub proof fn lemma_udigits_shape(n: int)
    requires
        n >= 0,
    ensures
        spec_udigits(n).len() >= 1,
        all_digits(spec_udigits(n)),
    decreases n,
{
    if n < 10 {
        lemma_digit_roundtrip(n);
    } else {
        lemma_udigits_shape(n / 10);
        lemma_digit_roundtrip(n % 10);
        assert forall|k: int| 0 <= k < spec_udigits(n).len() implies is_digit_char(
            #[trigger] spec_udigits(n)[k],
        ) by {
            if k < spec_udigits(n / 10).len() {
                assert(spec_udigits(n)[k] == spec_udigits(n / 10)[k]);
            } else {
                assert(spec_udigits(n)[k] == digit_char(n % 10));
            }
        }
    }
}

/// Reading one more digit after a successful read appends it in the usual
/// base-ten way.
proof fn lemma_parse_snoc(s: Seq<char>, i: int, j: int, acc: u64)
    requires
        i <= j < s.len(),
        0 <= i,
        is_digit_char(s[j]),
    ensures
        parse_u64_from(s, i, j + 1, acc) == (match parse_u64_from(s, i, j, acc) {
            Some(v) => if v * 10 + digit_val(s[j]) > u64::MAX {
                None
            } else {
                Some((v * 10 + digit_val(s[j])) as u64)
            },
            None => None::<u64>,
        }),
    decreases j - i,
{
    if i >= j {
    } else {
        if is_digit_char(s[i]) && acc * 10 + digit_val(s[i]) <= u64::MAX {
            lemma_parse_snoc(s, i + 1, j, (acc * 10 + digit_val(s[i])) as u64);
        }
    }
}

/// Reading back the decimal rendering of `n` embedded in a larger sequence
/// yields `n` again.
pub proof fn lemma_parse_udigits(s: Seq<char>, i: int, n: u64)
    requires
        0 <= i,
        i + spec_udigits(n as int).len() <= s.len(),
        s.subrange(i, i + spec_udigits(n as int).len()) == spec_udigits(n as int),
    ensures
        parse_u64_from(s, i, i + spec_udigits(n as int).len(), 0) == Some(n),
    decreases n,
{
    let ds = spec_udigits(n as int);
    if n < 10 {
        lemma_digit_roundtrip(n as int);
        assert(s[i] == ds[0]);
        assert(parse_u64_from(s, i + 1, i + 1, (digit_val(s[i])) as u64) == Some(n));
    } else {
        let hi = (n / 10) as u64;
        let dhi = spec_udigits(hi as int);
        lemma_udigits_shape(hi as int);
        lemma_digit_roundtrip((n % 10) as int);
        assert(s.subrange(i, i + dhi.len()) =~= dhi) by {
            assert forall|k: int| 0 <= k < dhi.len() implies s.subrange(i, i + dhi.len())[k]
                == dhi[k] by {
                assert(s.subrange(i, i + ds.len())[k] == ds[k]);
            }
        }
        lemma_parse_udigits(s, i, hi);
        let j = i + dhi.len();
        assert(s[j] == ds[dhi.len() as int]);
        assert(s[j] == digit_char(n as int % 10));
        lemma_parse_snoc(s, i, j, 0);
        assert(hi * 10 + digit_val(s[j]) == n);
    }
}

/// Renders `n` in decimal.
pub fn render_u64(n: u64) -> (r: String)
    ensures
        r@ == spec_udigits(n as int),
    decreases n,
{
    let d: u64 = n % 10;
    let lit: &str = if d == 0 {
        "0"
    } else if d == 1 {
        "1"
    } else if d == 2 {
        "2"
    } else if d == 3 {
        "3"
    } else if d == 4 {
        "4"
    } else if d == 5 {
        "5"
    } else if d == 6 {
        "6"
    } else if d == 7 {
        "7"
    } else if d == 8 {
        "8"
    } else {
        "9"
    };
    proof {
        reveal_strlit("0");
        reveal_strlit("1");
        reveal_strlit("2");
        reveal_strlit("3");
        reveal_strlit("4");
        reveal_strlit("5");
        reveal_strlit("6");
        reveal_strlit("7");
        reveal_strlit("8");
        reveal_strlit("9");
        assert(lit@ =~= seq![digit_char(d as int)]);
    }
    if n < 10 {
        let r = lit.to_owned();
        proof {
            assert(r@ =~= spec_udigits(n as int));
        }
        r
    } else {
        let mut r = render_u64(n / 10);
        r.append(lit);
        proof {
            assert(r@ =~= spec_udigits(n as int));
        }
        r
    }
}

/// Character-by-character string comparison; equal exactly when the views
/// are equal.
pub fn str_eq(a: &str, b: &str) -> (r: bool)
    ensures
        r == (a@ == b@),
{
    let la = a.unicode_len();
    let lb = b.unicode_len();
    if la != lb {
        return false;
    }
    let mut i: usize = 0;
    while i < la
        invariant
            la == a@.len(),
            la == b@.len(),
            0 <= i <= la,
            forall|k: int| 0 <= k < i ==> a@[k] == b@[k],
        decreases la - i,
    {
        if a.get_char(i) != b.get_char(i) {
            return false;
        }
        i = i + 1;
    }
    proof {
        assert(a@ =~= b@);
    }
    true
}

} // verus!
