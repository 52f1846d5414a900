//! Localized decimal prices: a price cell uses a decimal comma and may
//! hold stray spaces.  Normalization replaces the comma by a point and
//! strips spaces; the result must be a plain decimal with at most
//! twelve integer digits and five fractional digits, and is held
//! exactly as an integer count of money units.

use vstd::prelude::*;
use crate::model::{MONEY_LIMIT, MONEY_SCALE};
use crate::text::{find_char_from, lemma_find_char_some, lemma_find_in_suffix, spec_find_char};
use vstd::arithmetic::mul::{
    lemma_mul_basics, lemma_mul_by_zero_is_zero, lemma_mul_inequality, lemma_mul_is_associative,
    lemma_mul_is_distributive_sub_other_way, lemma_mul_upper_bound,
};

verus! {

/// Whether `c` is a decimal digit.
pub open spec fn spec_is_digit(c: char) -> bool {
    48 <= c as u32 && c as u32 <= 57
}

/// The value of a decimal digit.
pub open spec fn spec_digit_val(c: char) -> int {
    c as u32 - 48
}

/// Whether every character of `s` is a decimal digit.
pub open spec fn spec_all_digits(s: Seq<char>) -> bool {
    forall|i: int| 0 <= i < s.len() ==> spec_is_digit(#[trigger] s[i])
}

/// The value of a digit string read in base ten.
pub open spec fn spec_digits_val(s: Seq<char>) -> int
    decreases s.len(),
{
    if s.len() == 0 {
        0int
    } else {
        spec_digits_val(s.drop_last()) * 10 + spec_digit_val(s.last())
    }
}

/// Ten to the `k`.
pub open spec fn spec_pow10(k: nat) -> int
    decreases k,
{
    if k == 0 {
        1int
    } else {
        10 * spec_pow10((k - 1) as nat)
    }
}

/// The value of the twelfth power of ten, the parser's integer-digit
/// bound.
pub proof fn lemma_pow10_12()
    ensures
        spec_pow10(12) == 1_000_000_000_000,
        spec_pow10(5) == 100_000,
        spec_pow10(0) == 1,
{
    reveal_with_fuel(spec_pow10, 13);
}

/// A digit string's value is non-negative and below ten to its length.
pub proof fn lemma_digits_val_bound(s: Seq<char>)
    requires
        spec_all_digits(s),
    ensures
        0 <= spec_digits_val(s) < spec_pow10(s.len()),
    decreases s.len(),
{
    if s.len() > 0 {
        assert(spec_all_digits(s.drop_last()));
        lemma_digits_val_bound(s.drop_last());
    }
}

/// Powers of ten grow with the exponent.
pub proof fn lemma_pow10_mono(a: nat, b: nat)
    requires
        a <= b,
    ensures
        1 <= spec_pow10(a) <= spec_pow10(b),
    decreases b,
{
    if b > 0 {
        if a == b {
            lemma_pow10_mono((b - 1) as nat, (b - 1) as nat);
        } else {
            lemma_pow10_mono(a, (b - 1) as nat);
        }
    }
}

/// Powers of ten multiply by adding exponents.
pub proof fn lemma_pow10_add(a: nat, b: nat)
    ensures
        spec_pow10(a) * spec_pow10(b) == spec_pow10(a + b),
    decreases a,
{
    if a == 0 {
        lemma_mul_basics(spec_pow10(b));
    } else {
        lemma_pow10_add((a - 1) as nat, b);
        lemma_mul_is_associative(10, spec_pow10((a - 1) as nat), spec_pow10(b));
    }
}

/// A table cell's normalized characters: decimal commas become points
/// and spaces vanish.
pub open spec fn spec_normalize(s: Seq<char>) -> Seq<char>
    decreases s.len(),
{
    if s.len() == 0 {
        Seq::<char>::empty()
    } else {
        let rest = spec_normalize(s.drop_last());
        let d = if s.last() == ',' {
            '.'
        } else {
            s.last()
        };
        if d == ' ' {
            rest
        } else {
            rest.push(d)
        }
    }
}

/// The money value of a normalized cell, in money units, or `None`
/// where the characters do not form a plain decimal the model can hold
/// (at most twelve integer digits and five fractional digits).
pub open spec fn spec_money_val(n: Seq<char>) -> Option<int> {
    match spec_find_char(n, '.') {
        None => if 1 <= n.len() <= 12 && spec_all_digits(n) {
            Some(spec_digits_val(n) * MONEY_SCALE)
        } else {
            None
        },
        Some(i) => {
            let ip = n.take(i);
            let fp = n.skip(i + 1);
            if spec_find_char(fp, '.') is None && spec_all_digits(ip) && spec_all_digits(fp)
                && ip.len() <= 12 && fp.len() <= 5 && ip.len() + fp.len() >= 1 {
                Some(
                    spec_digits_val(ip) * MONEY_SCALE + spec_digits_val(fp) * spec_pow10(
                        (5 - fp.len()) as nat,
                    ),
                )
            } else {
                None
            }
        },
    }
}

/// What one raw (already trimmed) price cell means.
#[derive(Clone, Copy, PartialEq, Eq, Structural, Debug)]
pub enum CellValue {
    /// The cell is empty: no value for this category.
    Empty,
    /// A price in money units.
    Price(u64),
    /// The cell is not a representable localized decimal.
    Malformed,
}

/// The meaning of a raw price cell, at the specification level.
pub open spec fn spec_cell_value(cell: Seq<char>) -> CellValue {
    if cell.len() == 0 {
        CellValue::Empty
    } else {
        match spec_money_val(spec_normalize(cell)) {
            Some(v) => CellValue::Price(v as u64),
            None => CellValue::Malformed,
        }
    }
}

/// A parsed money value is bounded, so the cast in `spec_cell_value`
/// never truncates.
pub proof fn lemma_money_val_bound(n: Seq<char>)
    requires
        spec_money_val(n) is Some,
    ensures
        0 <= spec_money_val(n)->Some_0 < MONEY_LIMIT,
{
    lemma_pow10_12();
    match spec_find_char(n, '.') {
        None => {
            lemma_digits_val_bound(n);
            lemma_pow10_mono(n.len(), 12);
        },
        Some(i) => {
            lemma_find_char_some(n, '.');
            let ip = n.take(i);
            let fp = n.skip(i + 1);
            let f = fp.len();
            let scale = spec_pow10((5 - f) as nat);
            lemma_digits_val_bound(ip);
            lemma_digits_val_bound(fp);
            lemma_pow10_mono(ip.len(), 12);
            lemma_pow10_mono((5 - f) as nat, 5);
            lemma_pow10_add(f, (5 - f) as nat);
            // 0 <= digits(fp) * scale < pow10(5)
            lemma_mul_by_zero_is_zero(scale);
            lemma_mul_inequality(0, spec_digits_val(fp), scale);
            lemma_mul_inequality(spec_digits_val(fp), spec_pow10(f) - 1, scale);
            lemma_mul_is_distributive_sub_other_way(scale, spec_pow10(f), 1);
            lemma_mul_basics(scale);
        },
    }
}

/// Executable digit test.
pub fn is_digit(c: char) -> (r: bool)
    ensures
        r == spec_is_digit(c),
{
    let u = c as u32;
    48 <= u && u <= 57
}

/// The value of the digit characters of `v` from `from` to `to`.
#[verifier::loop_isolation(false)]
pub fn digits_value(v: &Vec<char>, from: usize, to: usize) -> (r: u64)
    requires
        from <= to <= v@.len(),
        to - from <= 12,
        spec_all_digits(v@.subrange(from as int, to as int)),
    ensures
        r as int == spec_digits_val(v@.subrange(from as int, to as int)),
        r < 1_000_000_000_000,
{
    let ghost whole = v@.subrange(from as int, to as int);
    let mut acc: u64 = 0;
    let mut i: usize = from;
    proof {
        lemma_pow10_12();
        assert(whole.take(0) =~= Seq::<char>::empty());
    }
    while i < to
        invariant
            from <= i <= to,
            acc as int == spec_digits_val(whole.take(i - from as int)),
            (acc as int) < spec_pow10((i - from) as nat),
        decreases to - i,
    {
        proof {
            let k = i - from as int;
            assert(whole.take(k + 1).drop_last() =~= whole.take(k));
            assert(whole.take(k + 1).last() == whole[k]);
            assert(whole[k] == v@[i as int]);
            assert(spec_is_digit(whole[k]));
            lemma_pow10_mono((i - from) as nat, 12);
            lemma_pow10_mono((i + 1 - from) as nat, 12);
        }
        let c = v[i];
        let d = (c as u32 - 48) as u64;
        acc = acc * 10 + d;
        i = i + 1;
    }
    proof {
        assert(whole.take(to - from as int) =~= whole);
        lemma_pow10_mono((to - from) as nat, 12);
    }
    acc
}

/// Ten to the `k`, for small `k`.
pub fn pow10_small(k: usize) -> (r: u64)
    requires
        k <= 5,
    ensures
        r as int == spec_pow10(k as nat),
{
    proof {
        reveal_with_fuel(spec_pow10, 6);
    }
    if k == 0 {
        1
    } else if k == 1 {
        10
    } else if k == 2 {
        100
    } else if k == 3 {
        1000
    } else if k == 4 {
        10_000
    } else {
        100_000
    }
}

/// Whether every character of `v` in `[from, to)` is a digit.
#[verifier::loop_isolation(false)]
fn all_digits_in(v: &Vec<char>, from: usize, to: usize) -> (r: bool)
    requires
        from <= to <= v@.len(),
    ensures
        r == spec_all_digits(v@.subrange(from as int, to as int)),
{
    let ghost whole = v@.subrange(from as int, to as int);
    let mut i: usize = from;
    while i < to
        invariant
            from <= i <= to,
            forall|j: int| 0 <= j < i - from ==> spec_is_digit(#[trigger] whole[j]),
        decreases to - i,
    {
        if !is_digit(v[i]) {
            proof {
                assert(whole[i - from as int] == v@[i as int]);
                assert(!spec_is_digit(whole[i - from as int]));
            }
            return false;
        }
        proof {
            assert(whole[i - from as int] == v@[i as int]);
        }
        i = i + 1;
    }
    true
}

/// Parse one trimmed price cell: `Empty` for an empty cell, the exact
/// money value for a representable localized decimal, `Malformed`
/// otherwise.
#[verifier::loop_isolation(false)]
pub fn parse_cell(cell: &Vec<char>) -> (r: CellValue)
    ensures
        r == spec_cell_value(cell@),
        r matches CellValue::Price(v) ==> v < MONEY_LIMIT,
{
    if cell.len() == 0 {
        return CellValue::Empty;
    }
    // Normalize: comma to point, spaces removed.
    let mut n: Vec<char> = Vec::new();
    let mut i: usize = 0;
    proof {
        assert(cell@.take(0) =~= Seq::<char>::empty());
        assert(n@ =~= spec_normalize(cell@.take(0)));
    }
    while i < cell.len()
        invariant
            i <= cell@.len(),
            n@ == spec_normalize(cell@.take(i as int)),
        decreases cell@.len() - i,
    {
        let c = cell[i];
        let d = if c == ',' {
            '.'
        } else {
            c
        };
        proof {
            assert(cell@.take(i as int + 1).drop_last() =~= cell@.take(i as int));
            assert(cell@.take(i as int + 1).last() == cell@[i as int]);
        }
        if d != ' ' {
            n.push(d);
        }
        i = i + 1;
    }
    proof {
        assert(cell@.take(cell@.len() as int) =~= cell@);
    }
    // One optional point, digits around it.
    let dot = find_char_from(&n, '.', 0);
    proof {
        lemma_find_in_suffix(n@, '.', 0, dot as int);
        assert(n@.skip(0) =~= n@);
    }
    if dot == n.len() {
        // No point: one to twelve digits.
        proof {
            assert(n@.subrange(0, n@.len() as int) =~= n@);
        }
        if n.len() >= 1 && n.len() <= 12 && all_digits_in(&n, 0, n.len()) {
            let v = digits_value(&n, 0, n.len());
            proof {
                lemma_money_val_bound(n@);
            }
            CellValue::Price(v * MONEY_SCALE)
        } else {
            CellValue::Malformed
        }
    } else {
        let ghost ip = n@.take(dot as int);
        let ghost fp = n@.skip(dot as int + 1);
        let dot2 = find_char_from(&n, '.', dot + 1);
        proof {
            lemma_find_in_suffix(n@, '.', dot as int + 1, dot2 as int);
            assert(ip =~= n@.subrange(0, dot as int));
            assert(fp =~= n@.subrange(dot as int + 1, n@.len() as int));
        }
        let fplen = n.len() - (dot + 1);
        if dot2 == n.len() && dot <= 12 && fplen <= 5 && n.len() >= 2 && all_digits_in(&n, 0, dot)
            && all_digits_in(&n, dot + 1, n.len()) {
            let iv = digits_value(&n, 0, dot);
            let fv = digits_value(&n, dot + 1, n.len());
            let scale = pow10_small(5 - fplen);
            proof {
                lemma_pow10_12();
                lemma_digits_val_bound(fp);
                lemma_pow10_mono(fp.len(), 5);
                lemma_pow10_mono((5 - fp.len()) as nat, 5);
                lemma_mul_upper_bound(fv as int, 100_000, scale as int, 100_000);
                lemma_money_val_bound(n@);
            }
            CellValue::Price(iv * MONEY_SCALE + fv * scale)
        } else {
            CellValue::Malformed
        }
    }
}

} // verus!
