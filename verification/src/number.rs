//! Reading numbers and booleans from text.
use vstd::prelude::*;
use vstd::string::*;

use crate::text::{chars_of, same_text, text_of, to_ascii_lowercase};

verus! {

/// Whether `c` is a decimal digit.
pub open spec fn is_digit(c: char) -> bool {
    '0' <= c && c <= '9'
}

/// Whether `c` is a plus or a minus sign.
pub open spec fn is_sign(c: char) -> bool {
    c == '+' || c == '-'
}

/// The number that a sequence of decimal digits stands for.
pub open spec fn digits_value(s: Seq<char>) -> nat
    decreases s.len(),
{
    if s.len() == 0 {
        0
    } else {
        digits_value(s.drop_last()) * 10 + ((s.last() as u32 - '0' as u32) as nat)
    }
}

/// Whether `s` is one digit or more, and nothing else.
pub open spec fn all_digits(s: Seq<char>) -> bool {
    s.len() > 0 && forall|i: int| 0 <= i < s.len() ==> is_digit(#[trigger] s[i])
}

/// The number written as digits with an optional plus sign.
pub open spec fn unsigned_literal(s: Seq<char>) -> Option<int> {
    if all_digits(s) {
        Some(digits_value(s) as int)
    } else if s.len() > 0 && s[0] == '+' && all_digits(s.skip(1)) {
        Some(digits_value(s.skip(1)) as int)
    } else {
        None
    }
}

/// The number written as digits with an optional sign.
pub open spec fn signed_literal(s: Seq<char>) -> Option<int> {
    if s.len() > 0 && s[0] == '-' && all_digits(s.skip(1)) {
        Some(-(digits_value(s.skip(1)) as int))
    } else {
        unsigned_literal(s)
    }
}

/// What a text means where an `i64` is asked for.
pub open spec fn i64_literal(s: Seq<char>) -> Option<int> {
    match signed_literal(s) {
        Some(n) => if i64::MIN <= n <= i64::MAX {
            Some(n)
        } else {
            None
        },
        None => None,
    }
}

/// What a text means where a `usize` is asked for.
pub open spec fn usize_literal(s: Seq<char>) -> Option<int> {
    match unsigned_literal(s) {
        Some(n) => if n <= usize::MAX {
            Some(n)
        } else {
            None
        },
        None => None,
    }
}

/// The message of the error of `str::parse::<i64>` on a text that it refuses.
pub uninterp spec fn i64_refusal(s: Seq<char>) -> Seq<char>;

/// The message of the error of `str::parse::<usize>` on a text that it refuses.
pub uninterp spec fn usize_refusal(s: Seq<char>) -> Seq<char>;

/// `str::parse::<i64>`: succeeds on an optional sign followed by digits only, where the number
/// fits.
///
/// The wording of the error is std's own and is named, not spelled out.
#[verifier::external_body]
pub(crate) fn parse_i64(s: &str) -> (r: Result<i64, String>)
    ensures
        match r {
            Ok(n) => i64_literal(s@) == Some(n as int),
            Err(e) => i64_literal(s@) is None && e@ == i64_refusal(s@),
        },
{
    s.parse::<i64>().map_err(|e| e.to_string())
}

/// `str::parse::<usize>`: succeeds on an optional plus sign followed by digits only, where the
/// number fits.
///
/// The wording of the error is std's own and is named, not spelled out.
#[verifier::external_body]
pub(crate) fn parse_usize(s: &str) -> (r: Result<usize, String>)
    ensures
        match r {
            Ok(n) => usize_literal(s@) == Some(n as int),
            Err(e) => usize_literal(s@) is None && e@ == usize_refusal(s@),
        },
{
    s.parse::<usize>().map_err(|e| e.to_string())
}

/// The end of the run of digits in `s` that starts at `from`.
pub open spec fn digit_end(s: Seq<char>, from: int) -> int
    decreases s.len() - from,
{
    if 0 <= from < s.len() && is_digit(s[from]) {
        digit_end(s, from + 1)
    } else {
        from
    }
}

/// Whether `s[at..]` is empty or a decimal exponent.
pub open spec fn exponent_tail(s: Seq<char>, at: int) -> bool {
    at == s.len() || {
        &&& at < s.len()
        &&& s[at] == 'e' || s[at] == 'E'
        &&& {
            let p = if at + 1 < s.len() && is_sign(s[at + 1]) {
                at + 2
            } else {
                at + 1
            };
            p < s.len() && digit_end(s, p) == s.len()
        }
    }
}

/// Whether `s` is a decimal number: digits with an optional point among, before or behind them,
/// and an optional exponent.
pub open spec fn is_decimal_number(s: Seq<char>) -> bool {
    let a = digit_end(s, 0);
    if a < s.len() && s[a] == '.' {
        let f = digit_end(s, a + 1);
        a + (f - (a + 1)) > 0 && exponent_tail(s, f)
    } else {
        a > 0 && exponent_tail(s, a)
    }
}

/// Whether `s` names an infinity or the absence of a number, in any letter case.
pub open spec fn is_special_number(s: Seq<char>) -> bool {
    let low = crate::text::lower_text(s);
    low == "inf"@ || low == "infinity"@ || low == "nan"@
}

/// Whether `s` is a floating-point literal: an optional sign, then a decimal number or one of
/// `inf`, `infinity` and `nan`.
pub open spec fn is_float_literal(s: Seq<char>) -> bool {
    let body = if s.len() > 0 && is_sign(s[0]) {
        s.skip(1)
    } else {
        s
    };
    is_special_number(body) || is_decimal_number(body)
}

/// Finds the end of the run of digits that starts at `from`.
fn scan_digits(s: &Vec<char>, from: usize) -> (r: usize)
    requires
        from <= s@.len(),
    ensures
        r == digit_end(s@, from as int),
        from <= r <= s@.len(),
{
    let mut i: usize = from;
    while i < s.len() && '0' <= s[i] && s[i] <= '9'
        invariant
            from <= i <= s@.len(),
            digit_end(s@, from as int) == digit_end(s@, i as int),
        decreases s@.len() - i,
    {
        i = i + 1;
    }
    i
}

/// Decides [`exponent_tail`].
fn check_exponent(s: &Vec<char>, at: usize) -> (r: bool)
    requires
        at <= s@.len(),
    ensures
        r == exponent_tail(s@, at as int),
{
    if at == s.len() {
        return true;
    }
    if s[at] != 'e' && s[at] != 'E' {
        return false;
    }
    let mut p: usize = at + 1;
    if p < s.len() && (s[p] == '+' || s[p] == '-') {
        p = p + 1;
    }
    if p >= s.len() {
        return false;
    }
    scan_digits(s, p) == s.len()
}

/// Decides [`is_decimal_number`].
fn check_decimal_number(s: &Vec<char>) -> (r: bool)
    ensures
        r == is_decimal_number(s@),
{
    let a: usize = scan_digits(s, 0);
    if a < s.len() && s[a] == '.' {
        let f: usize = scan_digits(s, a + 1);
        if a == 0 && f == a + 1 {
            return false;
        }
        check_exponent(s, f)
    } else {
        a > 0 && check_exponent(s, a)
    }
}

/// Whether `s` is a floating-point literal.
pub fn float_literal(s: &str) -> (r: bool)
    ensures
        r == is_float_literal(s@),
{
    let all: Vec<char> = chars_of(s);
    let start: usize = if all.len() > 0 && (all[0] == '+' || all[0] == '-') {
        1
    } else {
        0
    };
    let body: String = text_of(&all, start, all.len());
    assert(start == 1 ==> body@ =~= s@.skip(1));
    assert(start == 0 ==> body@ =~= s@);
    let low: String = to_ascii_lowercase(body.as_str());
    if same_text(low.as_str(), "inf") || same_text(low.as_str(), "infinity") || same_text(
        low.as_str(),
        "nan",
    ) {
        return true;
    }
    let chars: Vec<char> = chars_of(body.as_str());
    check_decimal_number(&chars)
}

/// The message on a text that is no floating-point literal.
pub open spec fn float_refusal(s: Seq<char>) -> Seq<char> {
    if s.len() == 0 {
        "cannot parse float from empty string"@
    } else {
        "invalid float literal"@
    }
}

/// Checks that `s` is a floating-point literal.
pub fn check_float(s: &str) -> (r: Result<(), String>)
    ensures
        match r {
            Ok(()) => is_float_literal(s@),
            Err(e) => !is_float_literal(s@) && e@ == float_refusal(s@),
        },
{
    if float_literal(s) {
        Ok(())
    } else if s.unicode_len() == 0 {
        Err("cannot parse float from empty string".to_owned())
    } else {
        Err("invalid float literal".to_owned())
    }
}

/// The message on a text that is neither `true` nor `false`.
pub open spec fn bool_refusal() -> Seq<char> {
    "provided string was not `true` or `false`"@
}

/// Reads `true` or `false`.
pub fn parse_bool(s: &str) -> (r: Result<bool, String>)
    ensures
        match r {
            Ok(b) => s@ == (if b {
                "true"@
            } else {
                "false"@
            }),
            Err(e) => s@ != "true"@ && s@ != "false"@ && e@ == bool_refusal(),
        },
{
    if same_text(s, "true") {
        Ok(true)
    } else if same_text(s, "false") {
        Ok(false)
    } else {
        Err("provided string was not `true` or `false`".to_owned())
    }
}

proof fn lemma_digits_read_back(n: nat)
    ensures
        all_digits(crate::text::digits(n)),
        digits_value(crate::text::digits(n)) == n,
    decreases n,
{
    let s = crate::text::digits(n);
    if n < 10 {
        assert(s.drop_last() =~= Seq::<char>::empty());
        assert(digits_value(s.drop_last()) == 0);
    } else {
        lemma_digits_read_back(n / 10);
        assert(s.drop_last() =~= crate::text::digits(n / 10));
    }
    assert(is_digit(s.last()));
}

/// The decimal text of a number reads as that number, so no two numbers have one text.
pub proof fn law_decimal_reads_back(n: int)
    ensures
        signed_literal(crate::text::decimal(n)) == Some(n),
        n >= 0 ==> unsigned_literal(crate::text::decimal(n)) == Some(n),
        i64::MIN <= n <= i64::MAX ==> i64_literal(crate::text::decimal(n)) == Some(n),
        0 <= n <= usize::MAX ==> usize_literal(crate::text::decimal(n)) == Some(n),
        forall|m: int| crate::text::decimal(n) == #[trigger] crate::text::decimal(m) ==> n == m,
{
    lemma_reads_back(n);
    assert forall|m: int| crate::text::decimal(n) == #[trigger] crate::text::decimal(m) implies n
        == m by {
        lemma_reads_back(m);
    }
}

proof fn lemma_reads_back(n: int)
    ensures
        signed_literal(crate::text::decimal(n)) == Some(n),
        n >= 0 ==> unsigned_literal(crate::text::decimal(n)) == Some(n),
{
    let s = crate::text::decimal(n);
    if n < 0 {
        lemma_digits_read_back((-n) as nat);
        assert(s.skip(1) =~= crate::text::digits((-n) as nat));
    } else {
        lemma_digits_read_back(n as nat);
        assert(is_digit(s[0]));
    }
}

proof fn lemma_digit_run(s: Seq<char>, from: int, to: int)
    requires
        0 <= from <= to <= s.len(),
        forall|i: int| from <= i < to ==> is_digit(#[trigger] s[i]),
        to == s.len() || !is_digit(s[to]),
    ensures
        digit_end(s, from) == to,
    decreases to - from,
{
    if from < to {
        lemma_digit_run(s, from + 1, to);
    }
}

/// Digits are a floating-point literal, and so are digits with a point and digits behind them, with
/// an exponent, or with a sign before them.
pub proof fn law_float_literals(a: Seq<char>, b: Seq<char>)
    requires
        all_digits(a),
        all_digits(b),
    ensures
        is_float_literal(a),
        is_float_literal(seq!['-'] + a),
        is_float_literal(a + seq!['.'] + b),
        is_float_literal(seq!['-'] + (a + seq!['.'] + b)),
        is_float_literal(a + seq!['e'] + b),
{
    lemma_plain_literal(a);
    lemma_point_literal(a, b);
    assert((seq!['-'] + a).skip(1) =~= a);
    let c = a + seq!['.'] + b;
    assert((seq!['-'] + c).skip(1) =~= c);
    assert(is_digit(a[0]));
    let e = a + seq!['e'] + b;
    assert forall|i: int| 0 <= i < a.len() implies is_digit(#[trigger] e[i]) by {
        assert(e[i] == a[i]);
    }
    lemma_digit_run(e, 0, a.len() as int);
    assert forall|i: int| a.len() + 1 <= i < e.len() implies is_digit(#[trigger] e[i]) by {
        assert(e[i] == b[i - a.len() - 1]);
    }
    lemma_digit_run(e, a.len() as int + 1, e.len() as int);
    assert(e[a.len() as int + 1] == b[0]);
    assert(e[0] == a[0]);
    assert(c[0] == a[0]);
}

proof fn lemma_plain_literal(a: Seq<char>)
    requires
        all_digits(a),
    ensures
        is_decimal_number(a),
{
    lemma_digit_run(a, 0, a.len() as int);
}

proof fn lemma_point_literal(a: Seq<char>, b: Seq<char>)
    requires
        all_digits(a),
        all_digits(b),
    ensures
        is_decimal_number(a + seq!['.'] + b),
{
    let c = a + seq!['.'] + b;
    assert forall|i: int| 0 <= i < a.len() implies is_digit(#[trigger] c[i]) by {
        assert(c[i] == a[i]);
    }
    lemma_digit_run(c, 0, a.len() as int);
    assert forall|i: int| a.len() + 1 <= i < c.len() implies is_digit(#[trigger] c[i]) by {
        assert(c[i] == b[i - a.len() - 1]);
    }
    lemma_digit_run(c, a.len() as int + 1, c.len() as int);
}

/// A plus sign before digits changes nothing, a minus sign turns the number round, and a digit
/// behind them makes ten times the number and that digit.
pub proof fn law_signs_and_digits(a: Seq<char>, d: int)
    requires
        all_digits(a),
        0 <= d < 10,
    ensures
        unsigned_literal(a) is Some,
        signed_literal(a) == unsigned_literal(a),
        signed_literal(seq!['+'] + a) == unsigned_literal(a),
        unsigned_literal(seq!['+'] + a) == unsigned_literal(a),
        signed_literal(seq!['-'] + a) == Some(-unsigned_literal(a)->0),
        unsigned_literal(seq!['-'] + a) is None,
        unsigned_literal(a.push(crate::text::digit_char(d))) == Some(
            unsigned_literal(a)->0 * 10 + d,
        ),
        unsigned_literal(seq![crate::text::digit_char(d)]) == Some(d),
{
    assert(is_digit(a[0]));
    assert((seq!['+'] + a).skip(1) =~= a);
    assert((seq!['-'] + a).skip(1) =~= a);
    assert((seq!['+'] + a)[0] == '+' && (seq!['-'] + a)[0] == '-');
    assert(!is_digit('+') && !is_digit('-'));
    let c = crate::text::digit_char(d);
    let more = a.push(c);
    assert(more.drop_last() =~= a);
    assert(is_digit(c));
    assert(all_digits(more));
    let one = seq![c];
    assert(one.drop_last() =~= Seq::<char>::empty());
    assert(all_digits(one));
    assert(digits_value(one.drop_last()) == 0);
    assert(!all_digits(seq!['-'] + a)) by {
        assert(!is_digit((seq!['-'] + a)[0]));
    }
    assert(!all_digits(seq!['+'] + a)) by {
        assert(!is_digit((seq!['+'] + a)[0]));
    }
}

} // verus!
