use vstd::prelude::*;

verus! {

/// Character-wise string equality, specified on the views.
pub fn str_eq(a: &str, b: &str) -> (r: bool)
    ensures
        r == (a@ == b@),
{
    let a_len = a.unicode_len();
    let b_len = b.unicode_len();
    if a_len != b_len {
        return false;
    }
    let mut i: usize = 0;
    while i < a_len
        invariant
            i <= a_len,
            a_len == a@.len(),
            a_len == b@.len(),
            forall|j: int| 0 <= j < i ==> a@[j] == b@[j],
        decreases a_len - i,
    {
        if a.get_char(i) != b.get_char(i) {
            return false;
        }
        i = i + 1;
    }
    proof {
        assert(a@ =~= b@);
    }
    true
}

/// Relies on String::push: appends the given character to the end of the
/// string.
pub assume_specification[ String::push ](s: &mut String, ch: char)
    ensures
        final(s)@ == old(s)@.push(ch),
;

pub open spec fn digit_char(d: int) -> char {
    if d == 0 {
        '0'
    } else if d == 1 {
        '1'
    } else if d == 2 {
        '2'
    } else if d == 3 {
        '3'
    } else if d == 4 {
        '4'
    } else if d == 5 {
        '5'
    } else if d == 6 {
        '6'
    } else if d == 7 {
        '7'
    } else if d == 8 {
        '8'
    } else {
        '9'
    }
}

/// The decimal digits of a non-negative integer, most significant first.
pub open spec fn spec_digits(n: int) -> Seq<char>
    recommends
        n >= 0,
    decreases n,
{
    if n < 10 {
        seq![digit_char(n)]
    } else {
        spec_digits(n / 10) + seq![digit_char(n % 10)]
    }
}

fn digit_str(d: u64) -> (r: &'static str)
    requires
        d < 10,
    ensures
        r@ == seq![digit_char(d as int)],
{
    let r: &'static str = if d == 0 {
        "0"
    } else if d == 1 {
        "1"
    } else if d == 2 {
        "2"
    } else if d == 3 {
        "3"
    } else if d == 4 {
        "4"
    } else if d == 5 {
        "5"
    } else if d == 6 {
        "6"
    } else if d == 7 {
        "7"
    } else if d == 8 {
        "8"
    } else {
        "9"
    };
    proof {
        reveal_strlit("0");
        reveal_strlit("1");
        reveal_strlit("2");
        reveal_strlit("3");
        reveal_strlit("4");
        reveal_strlit("5");
        reveal_strlit("6");
        reveal_strlit("7");
        reveal_strlit("8");
        reveal_strlit("9");
        assert(r@ =~= seq![digit_char(d as int)]);
    }
    r
}

/// Decimal rendering of a non-negative integer.
pub fn u128_to_string(n: u128) -> (r: String)
    ensures
        r@ == spec_digits(n as int),
    decreases n,
{
    if n < 10 {
        digit_str(n as u64).to_owned()
    } else {
        let rest: String = u128_to_string(n / 10);
        rest.concat(digit_str((n % 10) as u64))
    }
}

pub fn u64_to_string(n: u64) -> (r: String)
    ensures
        r@ == spec_digits(n as int),
{
    u128_to_string(n as u128)
}

/// Signed decimal text: a minus sign followed by the digits of the
/// magnitude, or just the digits when non-negative.
pub open spec fn spec_int_str(n: int) -> Seq<char> {
    if n < 0 {
        seq!['-'] + spec_digits(-n)
    } else {
        spec_digits(n)
    }
}

pub fn i64_to_string(n: i64) -> (r: String)
    requires
        n > i64::MIN,
    ensures
        r@ == spec_int_str(n as int),
{
    if n < 0 {
        let digits: String = u128_to_string((-n) as u128);
        let mut out: String = String::new();
        out.push('-');
        out.append(digits.as_str());
        proof {
            assert(out@ =~= spec_int_str(n as int));
        }
        out
    } else {
        u128_to_string(n as u128)
    }
}

/// Display of a non-negative fixed-point number held in hundredths, with
/// trailing zeros of the fraction dropped, as a binary float formatter
/// would show these values: `2510 -> "25.1"`, `1000 -> "10"`, `5 -> "0.05"`.
pub open spec fn spec_cost_str(c: int) -> Seq<char>
    recommends
        c >= 0,
{
    if c % 100 == 0 {
        spec_digits(c / 100)
    } else if c % 10 == 0 {
        spec_digits(c / 100) + seq!['.', digit_char((c / 10) % 10)]
    } else {
        spec_digits(c / 100) + seq!['.', digit_char((c / 10) % 10), digit_char(c % 10)]
    }
}

pub fn cost_to_string(c: i64) -> (r: String)
    requires
        c >= 0,
    ensures
        r@ == spec_cost_str(c as int),
{
    let whole: String = u128_to_string((c / 100) as u128);
    if c % 100 == 0 {
        whole
    } else if c % 10 == 0 {
        let mut out: String = whole;
        out.push('.');
        out.push(digit_char_of(((c / 10) % 10) as u64));
        proof {
            assert(out@ =~= spec_cost_str(c as int));
        }
        out
    } else {
        let mut out: String = whole;
        out.push('.');
        out.push(digit_char_of(((c / 10) % 10) as u64));
        out.push(digit_char_of((c % 10) as u64));
        proof {
            assert(out@ =~= spec_cost_str(c as int));
        }
        out
    }
}

pub fn digit_char_of(d: u64) -> (c: char)
    requires
        d < 10,
    ensures
        c == digit_char(d as int),
{
    if d == 0 {
        '0'
    } else if d == 1 {
        '1'
    } else if d == 2 {
        '2'
    } else if d == 3 {
        '3'
    } else if d == 4 {
        '4'
    } else if d == 5 {
        '5'
    } else if d == 6 {
        '6'
    } else if d == 7 {
        '7'
    } else if d == 8 {
        '8'
    } else {
        '9'
    }
}

/// A signed value held in hundredths, shown with exactly two decimal
/// places: `217 -> "2.17"`, `-50 -> "-0.50"`.
pub open spec fn spec_fixed2_str(h: int) -> Seq<char> {
    if h < 0 {
        seq!['-'] + spec_fixed2_nonneg(-h)
    } else {
        spec_fixed2_nonneg(h)
    }
}

pub open spec fn spec_fixed2_nonneg(h: int) -> Seq<char>
    recommends
        h >= 0,
{
    spec_digits(h / 100) + seq!['.', digit_char((h / 10) % 10), digit_char(h % 10)]
}

pub fn fixed2_to_string(h: i64) -> (r: String)
    requires
        h > i64::MIN,
    ensures
        r@ == spec_fixed2_str(h as int),
{
    let mag: u128 = if h < 0 {
        (-h) as u128
    } else {
        h as u128
    };
    let mut out: String = String::new();
    if h < 0 {
        out.push('-');
    }
    let whole: String = u128_to_string(mag / 100);
    out.append(whole.as_str());
    out.push('.');
    out.push(digit_char_of(((mag / 10) % 10) as u64));
    out.push(digit_char_of((mag % 10) as u64));
    proof {
        assert(out@ =~= spec_fixed2_str(h as int));
    }
    out
}

/// As `fixed2_to_string`, for magnitudes beyond the signed range.
pub fn fixed2_u128_to_string(h: u128) -> (r: String)
    ensures
        r@ == spec_fixed2_nonneg(h as int),
{
    let mut out: String = String::new();
    let whole: String = u128_to_string(h / 100);
    out.append(whole.as_str());
    out.push('.');
    out.push(digit_char_of(((h / 10) % 10) as u64));
    out.push(digit_char_of((h % 10) as u64));
    proof {
        assert(out@ =~= spec_fixed2_nonneg(h as int));
    }
    out
}

/// Division rounded half away from zero, on a non-negative dividend.
pub open spec fn spec_round_div(a: int, b: int) -> int
    recommends
        a >= 0,
        b > 0,
{
    (a + b / 2) / b
}

/// Division of a signed value by a positive one, rounded half away from
/// zero.
pub open spec fn spec_round_signed(a: int, b: int) -> int
    recommends
        b > 0,
{
    if a < 0 {
        -spec_round_div(-a, b)
    } else {
        spec_round_div(a, b)
    }
}

pub fn round_signed(a: i64, b: u64) -> (r: i64)
    requires
        b > 0,
        b <= 1000000,
        -9000000000000000000 <= a <= 9000000000000000000,
    ensures
        r == spec_round_signed(a as int, b as int),
{
    if a < 0 {
        let num: u64 = ((-a) as u64) + b / 2;
        let mag: u64 = num / b;
        proof {
            vstd::arithmetic::div_mod::lemma_div_nonincreasing(num as int, b as int);
        }
        -(mag as i64)
    } else {
        let num: u64 = (a as u64) + b / 2;
        let q: u64 = num / b;
        proof {
            vstd::arithmetic::div_mod::lemma_div_nonincreasing(num as int, b as int);
        }
        q as i64
    }
}

pub open spec fn views_of_strings(v: Seq<String>) -> Seq<Seq<char>> {
    v.map_values(|s: String| s@)
}

/// The parts joined with the separator between consecutive parts.
pub open spec fn spec_join(parts: Seq<Seq<char>>, sep: Seq<char>) -> Seq<char>
    decreases parts,
{
    if parts.len() == 0 {
        Seq::<char>::empty()
    } else if parts.len() == 1 {
        parts[0]
    } else {
        parts[0] + sep + spec_join(parts.drop_first(), sep)
    }
}

fn join_from(parts: &Vec<String>, sep: &str, from: usize) -> (r: String)
    requires
        from <= parts@.len(),
    ensures
        r@ == spec_join(views_of_strings(parts@.skip(from as int)), sep@),
    decreases parts@.len() - from,
{
    let n = parts.len();
    if from == n {
        proof {
            assert(views_of_strings(parts@.skip(from as int)) =~~= Seq::<Seq<char>>::empty());
        }
        String::new()
    } else if from + 1 == n {
        let r: String = parts[from].clone();
        proof {
            assert(views_of_strings(parts@.skip(from as int)).len() == 1);
            assert(views_of_strings(parts@.skip(from as int))[0] == parts@[from as int]@);
        }
        r
    } else {
        let rest: String = join_from(parts, sep, from + 1);
        let r: String = parts[from].clone().concat(sep).concat(rest.as_str());
        proof {
            let vs = views_of_strings(parts@.skip(from as int));
            assert(vs[0] == parts@[from as int]@);
            assert(vs.drop_first() =~~= views_of_strings(parts@.skip(from as int + 1)));
        }
        r
    }
}

/// The strings joined with the separator, for detail clauses and output
/// expression lists.
pub fn join_strings(parts: &Vec<String>, sep: &str) -> (r: String)
    ensures
        r@ == spec_join(views_of_strings(parts@), sep@),
{
    let r = join_from(parts, sep, 0);
    proof {
        assert(parts@.skip(0) =~= parts@);
    }
    r
}

/// The pieces of a character sequence between its newline characters; one
/// more piece than there are newlines, empty pieces kept.
pub open spec fn spec_split_nl(s: Seq<char>) -> Seq<Seq<char>>
    decreases s.len(),
{
    if s.len() == 0 {
        seq![Seq::<char>::empty()]
    } else if s[0] == '\n' {
        seq![Seq::<char>::empty()] + spec_split_nl(s.drop_first())
    } else {
        let rest = spec_split_nl(s.drop_first());
        seq![seq![s[0]] + rest[0]] + rest.drop_first()
    }
}

pub proof fn lemma_split_nl_nonempty(s: Seq<char>)
    ensures
        spec_split_nl(s).len() >= 1,
    decreases s.len(),
{
    if s.len() > 0 {
        lemma_split_nl_nonempty(s.drop_first());
    }
}

/// Splits on newline characters, for walking wrapped text line by line.
pub fn split_lines(s: &str) -> (r: Vec<String>)
    ensures
        views_of_strings(r@) == spec_split_nl(s@),
        r@.len() >= 1,
{
    let n = s.unicode_len();
    let mut acc: Vec<String> = Vec::new();
    acc.push(String::new());
    proof {
        assert(s@.skip(n as int) =~= Seq::<char>::empty());
        assert(views_of_strings(acc@) =~~= spec_split_nl(s@.skip(n as int)));
    }
    let mut i: usize = n;
    while i > 0
        invariant
            i <= n,
            n == s@.len(),
            acc@.len() >= 1,
            views_of_strings(acc@) == spec_split_nl(s@.skip(i as int)),
        decreases i,
    {
        i = i - 1;
        let c = s.get_char(i);
        proof {
            assert(s@.skip(i as int).drop_first() =~= s@.skip(i as int + 1));
            assert(s@.skip(i as int)[0] == s@[i as int]);
            lemma_split_nl_nonempty(s@.skip(i as int + 1));
        }
        if c == '\n' {
            acc.insert(0, String::new());
            proof {
                assert(views_of_strings(acc@) =~~= spec_split_nl(s@.skip(i as int)));
            }
        } else {
            let mut first: String = String::new();
            first.push(c);
            first.append(acc[0].as_str());
            acc.set(0, first);
            proof {
                assert(views_of_strings(acc@) =~~= spec_split_nl(s@.skip(i as int)));
            }
        }
    }
    proof {
        assert(s@.skip(0) =~= s@);
    }
    acc
}

} // verus!
