use vstd::prelude::*;
use crate::colors::Span;
use crate::colors::Style;
use crate::plan::Plan;
use crate::text::digit_char;
use crate::text::fixed2_to_string;
use crate::text::round_signed;
use crate::text::spec_digits;
use crate::text::spec_fixed2_str;
use crate::text::spec_join;
use crate::text::spec_round_div;
use crate::text::spec_round_signed;
use crate::text::u128_to_string;
use crate::text::views_of_strings;
use crate::text::join_strings;

verus! {

/// The non-empty ones of the node's scan direction and strategy, in that
/// order.
pub open spec fn spec_details_list(p: Plan) -> Seq<Seq<char>> {
    (if p.scan_direction@.len() > 0 {
        seq![p.scan_direction@]
    } else {
        Seq::<Seq<char>>::empty()
    }) + (if p.strategy@.len() > 0 {
        seq![p.strategy@]
    } else {
        Seq::<Seq<char>>::empty()
    })
}

pub open spec fn spec_details(p: Plan) -> Seq<char> {
    spec_join(spec_details_list(p), ", "@)
}

/// The details clause of a node's header: its non-empty scan-direction and
/// strategy fields joined with a comma.
pub fn format_details(plan: &Plan) -> (r: String)
    ensures
        r@ == spec_details(*plan),
{
    let mut details: Vec<String> = Vec::new();
    if !plan.scan_direction.as_str().is_empty() {
        details.push(plan.scan_direction.clone());
    }
    if !plan.strategy.as_str().is_empty() {
        details.push(plan.strategy.clone());
    }
    proof {
        assert(views_of_strings(details@) =~~= spec_details_list(*plan));
    }
    join_strings(&details, ", ")
}

/// The tag texts a node's header carries, in fixed order: slowest,
/// costliest, largest, bad estimate (an error factor of at least 100).
pub open spec fn spec_tag_list(p: Plan) -> Seq<Seq<char>> {
    (if p.slowest {
        seq![" slowest "@]
    } else {
        Seq::<Seq<char>>::empty()
    }) + (if p.costliest {
        seq![" costliest "@]
    } else {
        Seq::<Seq<char>>::empty()
    }) + (if p.largest {
        seq![" largest "@]
    } else {
        Seq::<Seq<char>>::empty()
    }) + (if p.planner_row_estimate_factor.spec_at_least(100) {
        seq![" bad estimate "@]
    } else {
        Seq::<Seq<char>>::empty()
    })
}

pub open spec fn spec_tags(p: Plan) -> Seq<char> {
    spec_join(spec_tag_list(p), " "@)
}

pub fn format_tags(plan: &Plan) -> (r: String)
    requires
        plan.planner_row_estimate_factor.den > 0,
    ensures
        r@ == spec_tags(*plan),
{
    let mut tags: Vec<String> = Vec::new();
    if plan.slowest {
        tags.push(" slowest ".to_owned());
    }
    if plan.costliest {
        tags.push(" costliest ".to_owned());
    }
    if plan.largest {
        tags.push(" largest ".to_owned());
    }
    if plan.planner_row_estimate_factor.at_least(100) {
        tags.push(" bad estimate ".to_owned());
    }
    proof {
        assert(views_of_strings(tags@) =~~= spec_tag_list(*plan));
    }
    join_strings(&tags, " ")
}

/// The glyph prefixed to a wrapped output-expression line: the first line
/// and continuation lines differ, and so do nodes with and without
/// children.
pub open spec fn spec_terminator(index: int, has_children: bool) -> Seq<char> {
    if index == 0 {
        if !has_children {
            "⌡► "@
        } else {
            "├►  "@
        }
    } else if !has_children {
        "   "@
    } else {
        "│  "@
    }
}

pub fn get_terminator(index: usize, plan: &Plan) -> (r: String)
    ensures
        r@ == spec_terminator(index as int, plan.plans@.len() > 0),
{
    if index == 0 {
        if plan.plans.is_empty() {
            "⌡► ".to_owned()
        } else {
            "├►  ".to_owned()
        }
    } else if plan.plans.is_empty() {
        "   ".to_owned()
    } else {
        "│  ".to_owned()
    }
}

/// The duration display: a two-decimal number with a unit, in milliseconds
/// below one second, in seconds below a minute, else in minutes; styled by
/// how alarming the duration is.  The seconds figure divides the
/// millisecond value by 2000, a deliberate oddity of this tool.
pub open spec fn spec_duration_text(t: int) -> Seq<char> {
    if t < 1000000 {
        spec_fixed2_str(spec_round_signed(t, 10)) + " ms"@
    } else if t < 60000000 {
        spec_fixed2_str(spec_round_signed(t, 20000)) + " s"@
    } else {
        spec_fixed2_str(spec_round_signed(t, 600000)) + " m"@
    }
}

pub open spec fn spec_duration_style(t: int) -> Style {
    if t < 100000 {
        Style::Good
    } else if t < 1000000 {
        Style::Warning
    } else {
        Style::Critical
    }
}

pub fn duration_to_string(value: i64) -> (r: Span)
    requires
        -9000000000000000000 <= value <= 9000000000000000000,
    ensures
        r.text@ == spec_duration_text(value as int),
        r.style == spec_duration_style(value as int),
{
    if value < 100000 {
        Span { text: fixed2_to_string(round_signed(value, 10)).concat(" ms"), style: Style::Good }
    } else if value < 1000000 {
        Span {
            text: fixed2_to_string(round_signed(value, 10)).concat(" ms"),
            style: Style::Warning,
        }
    } else if value < 60000000 {
        Span {
            text: fixed2_to_string(round_signed(value, 20000)).concat(" s"),
            style: Style::Critical,
        }
    } else {
        Span {
            text: fixed2_to_string(round_signed(value, 600000)).concat(" m"),
            style: Style::Critical,
        }
    }
}

/// The estimate factor to two decimal places with an `x` suffix, the value
/// rounded half away from zero.
pub open spec fn spec_factor_str(f: crate::plan::Factor) -> Seq<char>
    recommends
        f.den > 0,
{
    crate::text::spec_fixed2_nonneg(spec_round_div(f.num * 100, f.den as int)) + "x"@
}

pub fn factor_to_string(f: &crate::plan::Factor) -> (r: String)
    requires
        f.den > 0,
    ensures
        r@ == spec_factor_str(*f),
{
    let num100: u128 = (f.num as u128) * 100;
    let h: u128 = (num100 + (f.den as u128) / 2) / (f.den as u128);
    crate::text::fixed2_u128_to_string(h).concat("x")
}

pub open spec fn spec_tenths_nonneg(t: int) -> Seq<char>
    recommends
        t >= 0,
{
    spec_digits(t / 10) + seq!['.', digit_char(t % 10)]
}

pub open spec fn spec_tenths_str(t: int) -> Seq<char> {
    if t < 0 {
        seq!['-'] + spec_tenths_nonneg(-t)
    } else {
        spec_tenths_nonneg(t)
    }
}

/// A ratio shown as a percentage with one decimal place; a zero
/// denominator shows as `NaN%` or a signed `inf%`, the way a binary-float
/// division would have displayed it.
pub open spec fn spec_percent(num: int, den: int) -> Seq<char>
    recommends
        den >= 0,
{
    if den == 0 {
        if num == 0 {
            "NaN%"@
        } else if num > 0 {
            "inf%"@
        } else {
            "-inf%"@
        }
    } else {
        spec_tenths_str(spec_round_signed(num * 1000, den)) + "%"@
    }
}

pub fn format_percent(num: i64, den: i64) -> (r: String)
    requires
        den >= 0,
        num > i64::MIN,
    ensures
        r@ == spec_percent(num as int, den as int),
{
    if den == 0 {
        if num == 0 {
            return "NaN%".to_owned();
        } else if num > 0 {
            return "inf%".to_owned();
        } else {
            return "-inf%".to_owned();
        }
    }
    let neg: bool = num < 0;
    let mag: u128 = if neg {
        ((-num) as u128) * 1000
    } else {
        (num as u128) * 1000
    };
    let t: u128 = (mag + (den as u128) / 2) / (den as u128);
    proof {
        assert(t == spec_round_div(mag as int, den as int));
        vstd::arithmetic::div_mod::lemma_div_nonincreasing(
            (mag + (den as u128) / 2) as int,
            den as int,
        );
    }
    let mut out: String = String::new();
    if neg && t > 0 {
        out.push('-');
    }
    let digits: String = u128_to_string(t / 10);
    out.append(digits.as_str());
    out.push('.');
    out.push(crate::text::digit_char_of((t % 10) as u64));
    out.push('%');
    proof {
        reveal_strlit("%");
        assert("%"@ =~= seq!['%']);
        assert(out@ =~= spec_percent(num as int, den as int));
    }
    out
}

} // verus!
