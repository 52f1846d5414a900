//! Text rendering of a calculation result's breakdown: the ordered
//! price components joined as one comma-separated line, e.g.
//! `Legend (Fabia), per-minute tariff 06:00–20:00, extra distance`.

use vstd::prelude::*;
use crate::model::{BreakdownPart, CalculationResult, PartV, parts_view};
use crate::text::{clone_chars, str_to_chars};

verus! {

/// The character of one decimal digit.
pub open spec fn spec_digit_char(d: int) -> char {
    if d == 0 {
        '0'
    } else if d == 1 {
        '1'
    } else if d == 2 {
        '2'
    } else if d == 3 {
        '3'
    } else if d == 4 {
        '4'
    } else if d == 5 {
        '5'
    } else if d == 6 {
        '6'
    } else if d == 7 {
        '7'
    } else if d == 8 {
        '8'
    } else {
        '9'
    }
}

/// A minute of day written as HH:MM.
pub open spec fn spec_clock(minute_of_day: u16) -> Seq<char> {
    let h = minute_of_day as int / 60;
    let m = minute_of_day as int % 60;
    seq![
        spec_digit_char(h / 10),
        spec_digit_char(h % 10),
        ':',
        spec_digit_char(m / 10),
        spec_digit_char(m % 10),
    ]
}

/// The text of one breakdown component.
pub open spec fn spec_part_text(p: PartV) -> Seq<char> {
    match p {
        PartV::Category { category } => category.spec_display_name(),
        PartV::PackageUsed { name } => name,
        PartV::RateSegment { start_min, end_min } => "per-minute tariff "@ + spec_clock(start_min)
            + "–"@ + spec_clock(end_min),
        PartV::ExtraDistance => "extra distance"@,
    }
}

/// The whole breakdown joined with commas, in order.
pub open spec fn spec_breakdown_text(parts: Seq<PartV>) -> Seq<char>
    decreases parts.len(),
{
    if parts.len() == 0 {
        Seq::<char>::empty()
    } else if parts.len() == 1 {
        spec_part_text(parts[0])
    } else {
        spec_breakdown_text(parts.drop_last()) + ", "@ + spec_part_text(parts.last())
    }
}

/// The character of one decimal digit, executably.
fn digit_char(d: u16) -> (r: char)
    ensures
        r == spec_digit_char(d as int),
{
    if d == 0 {
        '0'
    } else if d == 1 {
        '1'
    } else if d == 2 {
        '2'
    } else if d == 3 {
        '3'
    } else if d == 4 {
        '4'
    } else if d == 5 {
        '5'
    } else if d == 6 {
        '6'
    } else if d == 7 {
        '7'
    } else if d == 8 {
        '8'
    } else {
        '9'
    }
}

/// Append HH:MM for a minute of day.
fn push_clock(out: &mut Vec<char>, minute_of_day: u16)
    ensures
        final(out)@ == old(out)@ + spec_clock(minute_of_day),
{
    let h = minute_of_day / 60;
    let m = minute_of_day % 60;
    out.push(digit_char(h / 10));
    out.push(digit_char(h % 10));
    out.push(':');
    out.push(digit_char(m / 10));
    out.push(digit_char(m % 10));
    proof {
        assert(final(out)@ =~= old(out)@ + spec_clock(minute_of_day));
    }
}

/// Append the characters of `s`.
fn push_chars(out: &mut Vec<char>, s: &Vec<char>)
    ensures
        final(out)@ == old(out)@ + s@,
{
    let mut i: usize = 0;
    proof {
        assert(out@ =~= old(out)@ + s@.take(0));
    }
    while i < s.len()
        invariant
            i <= s@.len(),
            out@ == old(out)@ + s@.take(i as int),
        decreases s@.len() - i,
    {
        out.push(s[i]);
        i = i + 1;
        proof {
            assert(old(out)@ + s@.take(i - 1) + seq![s@[i - 1]] =~= old(out)@ + s@.take(i as int));
        }
    }
    proof {
        assert(s@.take(s@.len() as int) =~= s@);
    }
}

/// Append one component's text.
fn push_part(out: &mut Vec<char>, part: &BreakdownPart)
    ensures
        final(out)@ == old(out)@ + spec_part_text(part@),
{
    match part {
        BreakdownPart::Category { category } => {
            let name = str_to_chars(category.display_name());
            push_chars(out, &name);
        },
        BreakdownPart::PackageUsed { name } => {
            let name = clone_chars(name);
            push_chars(out, &name);
        },
        BreakdownPart::RateSegment { start_min, end_min } => {
            let prefix = str_to_chars("per-minute tariff ");
            push_chars(out, &prefix);
            push_clock(out, *start_min);
            let dash = str_to_chars("–");
            push_chars(out, &dash);
            push_clock(out, *end_min);
            proof {
                assert(final(out)@ =~= old(out)@ + spec_part_text(part@));
            }
        },
        BreakdownPart::ExtraDistance => {
            let text = str_to_chars("extra distance");
            push_chars(out, &text);
        },
    }
}

impl CalculationResult {
    /// The ordered price components joined as one comma-separated
    /// line of text.
    #[verifier::loop_isolation(false)]
    pub fn breakdown_text(&self) -> (r: Vec<char>)
        ensures
            r@ == spec_breakdown_text(self@.parts),
    {
        let ghost parts_v = parts_view(self.parts@);
        let mut out: Vec<char> = Vec::new();
        let mut i: usize = 0;
        proof {
            assert(parts_v.take(0) =~= Seq::<PartV>::empty());
        }
        while i < self.parts.len()
            invariant
                i <= self.parts@.len(),
                out@ == spec_breakdown_text(parts_v.take(i as int)),
            decreases self.parts@.len() - i,
        {
            if i > 0 {
                let sep = str_to_chars(", ");
                push_chars(&mut out, &sep);
            }
            push_part(&mut out, &self.parts[i]);
            i = i + 1;
            proof {
                assert(parts_v.take(i as int).drop_last() =~= parts_v.take(i - 1));
                assert(parts_v.take(i as int).last() == parts_v[i - 1]);
                assert(parts_v[i - 1] == self.parts@[i - 1]@);
                if i == 1 {
                    assert(Seq::<char>::empty() + spec_part_text(parts_v[0]) =~= spec_part_text(
                        parts_v[0],
                    ));
                    assert(out@ =~= spec_breakdown_text(parts_v.take(1)));
                } else {
                    assert(out@ =~= spec_breakdown_text(parts_v.take(i - 1)) + ", "@
                        + spec_part_text(parts_v[i - 1]));
                }
            }
        }
        proof {
            assert(parts_v.take(self.parts@.len() as int) =~= parts_v);
        }
        out
    }
}

} // verus!
