//! Characters and strings: the conversions between text and numbers that the
//! scanner, the tokenizer and the interpreter share.
use vstd::prelude::*;
use vstd::std_specs::iter::IteratorSpec;

verus! {

/// `String::push` appends one character to the end of the string.
pub assume_specification[ std::string::String::push ](s: &mut std::string::String, c: char)
    ensures
        final(s)@ == old(s)@.push(c),
;

/// Whether `cp` is a Unicode scalar value: a code point that is no
/// surrogate.
pub open spec fn is_scalar(cp: int) -> bool {
    0 <= cp <= 0xD7FF || 0xE000 <= cp <= 0x10FFFF
}

/// `char::from_u32` gives the character of a code point, and `None` for a
/// number that is no Unicode scalar value.
pub assume_specification[ char::from_u32 ](i: u32) -> (r: Option<char>)
    ensures
        r == (if is_scalar(i as int) {
            Some(i as char)
        } else {
            None::<char>
        }),
;

/// Whether `c` has the Unicode property `White_Space`.
pub uninterp spec fn white_space(c: char) -> bool;

/// `char::is_whitespace` tells whether the character has the Unicode
/// property `White_Space`.
pub assume_specification[ char::is_whitespace ](c: char) -> (r: bool)
    ensures
        r == white_space(c),
;

/// The contents of a list of strings, in order.
pub open spec fn strings_view(strings: Seq<String>) -> Seq<Seq<char>> {
    Seq::new(strings.len(), |i: int| strings[i]@)
}

/// The characters of `s`, in order.
pub fn chars_of(s: &str) -> (r: Vec<char>)
    ensures
        r@ == s@,
{
    broadcast use vstd::string::axiom_spec_iter, vstd::string::next_postcondition;

    let mut out: Vec<char> = Vec::new();
    let mut rest = s.chars();
    loop
        invariant
            out@ + rest.remaining() == s@,
            rest.decrease() is Some,
        ensures
            out@ == s@,
        decreases rest.decrease()->0,
    {
        let ghost before = rest;
        match rest.next() {
            Some(c) => {
                out.push(c);
                assert(out@ + rest.remaining() =~= s@) by {
                    assert(before.remaining() =~= seq![c] + rest.remaining());
                }
            },
            None => {
                assert(out@ =~= s@);
                break;
            },
        }
    }
    out
}

/// The string made of `chars[from..to]`.
pub fn string_of(chars: &Vec<char>, from: usize, to: usize) -> (r: String)
    requires
        from <= to <= chars@.len(),
    ensures
        r@ == chars@.subrange(from as int, to as int),
{
    let mut out = String::new();
    let mut i: usize = from;
    while i < to
        invariant
            from <= i <= to <= chars@.len(),
            out@ == chars@.subrange(from as int, i as int),
        decreases to - i,
    {
        out.push(chars[i]);
        assert(chars@.subrange(from as int, i as int).push(chars@[i as int]) =~= chars@.subrange(
            from as int,
            i + 1,
        ));
        i += 1;
    }
    out
}

/// The character that writes the digit `d`.
pub open spec fn digit_char(d: int) -> char {
    if d == 0 {
        '0'
    } else if d == 1 {
        '1'
    } else if d == 2 {
        '2'
    } else if d == 3 {
        '3'
    } else if d == 4 {
        '4'
    } else if d == 5 {
        '5'
    } else if d == 6 {
        '6'
    } else if d == 7 {
        '7'
    } else if d == 8 {
        '8'
    } else {
        '9'
    }
}

/// The decimal numeral of `n`, without leading zeros.
pub open spec fn decimal(n: nat) -> Seq<char>
    decreases n,
{
    if n < 10 {
        seq![digit_char(n as int)]
    } else {
        decimal(n / 10).push(digit_char((n % 10) as int))
    }
}

/// The decimal numeral of `i`, with a leading `-` where it is negative.
pub open spec fn signed_decimal(i: int) -> Seq<char> {
    if i < 0 {
        seq!['-'] + decimal((-i) as nat)
    } else {
        decimal(i as nat)
    }
}

fn digit_of(d: u64) -> (c: char)
    requires
        d < 10,
    ensures
        c == digit_char(d as int),
{
    if d == 0 {
        '0'
    } else if d == 1 {
        '1'
    } else if d == 2 {
        '2'
    } else if d == 3 {
        '3'
    } else if d == 4 {
        '4'
    } else if d == 5 {
        '5'
    } else if d == 6 {
        '6'
    } else if d == 7 {
        '7'
    } else if d == 8 {
        '8'
    } else {
        '9'
    }
}

/// Appends the decimal numeral of `n` to `out`.
pub fn push_decimal(out: &mut String, n: u64)
    ensures
        final(out)@ == old(out)@ + decimal(n as nat),
    decreases n,
{
    if n >= 10 {
        push_decimal(out, n / 10);
    }
    out.push(digit_of(n % 10));
    assert(out@ =~= old(out)@ + decimal(n as nat));
}

/// Appends the decimal numeral of `i` to `out`.
pub fn push_signed_decimal(out: &mut String, i: i64)
    ensures
        final(out)@ == old(out)@ + signed_decimal(i as int),
{
    if i < 0 {
        out.push('-');
        let magnitude: u64 = (0 - (i as i128)) as u64;
        push_decimal(out, magnitude);
        assert(out@ =~= old(out)@ + signed_decimal(i as int));
    } else {
        push_decimal(out, i as u64);
    }
}

/// Whether `c` is one of the ten decimal digits.
pub open spec fn is_digit(c: char) -> bool {
    '0' <= c <= '9'
}

/// The number that the digits of `s` write, read as a decimal numeral.
pub open spec fn digits_value(s: Seq<char>) -> nat
    decreases s.len(),
{
    if s.len() == 0 {
        0
    } else {
        digits_value(s.drop_last()) * 10 + ((s.last() as int) - ('0' as int)) as nat
    }
}

/// Whether `s` is a non-empty run of decimal digits.
pub open spec fn is_numeral(s: Seq<char>) -> bool {
    s.len() > 0 && forall|i: int| 0 <= i < s.len() ==> is_digit(#[trigger] s[i])
}

/// The integer that `s` writes: an optional sign, then a numeral. `None`
/// where `s` has another shape.
pub open spec fn integer_literal(s: Seq<char>) -> Option<int> {
    if s.len() > 0 && s[0] == '-' {
        if is_numeral(s.skip(1)) {
            Some(-(digits_value(s.skip(1)) as int))
        } else {
            None
        }
    } else if s.len() > 0 && s[0] == '+' {
        if is_numeral(s.skip(1)) {
            Some(digits_value(s.skip(1)) as int)
        } else {
            None
        }
    } else if is_numeral(s) {
        Some(digits_value(s) as int)
    } else {
        None
    }
}

/// The unsigned integer that `s` writes: an optional `+`, then a numeral.
pub open spec fn unsigned_literal(s: Seq<char>) -> Option<int> {
    if s.len() > 0 && s[0] == '-' {
        None
    } else {
        integer_literal(s)
    }
}

/// The signed 64-bit integer that `s` writes, where it writes one that fits.
pub open spec fn parsed_i64(s: Seq<char>) -> Option<i64> {
    match integer_literal(s) {
        Some(v) => if i64::MIN <= v <= i64::MAX {
            Some(v as i64)
        } else {
            None
        },
        None => None,
    }
}

/// The unsigned integer of at most `limit` that `s` writes, where it writes
/// one.
pub open spec fn parsed_unsigned(s: Seq<char>, limit: nat) -> Option<nat> {
    match unsigned_literal(s) {
        Some(v) => if v <= limit {
            Some(v as nat)
        } else {
            None
        },
        None => None,
    }
}

/// Reads `chars[from..]` as a numeral whose value is at most `limit`.
fn parse_numeral(chars: &Vec<char>, from: usize, limit: u64) -> (r: Option<u64>)
    requires
        from <= chars@.len(),
    ensures
        r is Some <==> is_numeral(chars@.skip(from as int)) && digits_value(
            chars@.skip(from as int),
        ) <= limit,
        r is Some ==> r->0 == digits_value(chars@.skip(from as int)),
{
    let ghost body = chars@.skip(from as int);
    if from == chars.len() {
        return None;
    }
    let mut value: u64 = 0;
    let mut over = false;
    let mut i: usize = from;
    while i < chars.len()
        invariant
            from <= i <= chars@.len(),
            body == chars@.skip(from as int),
            forall|j: int| 0 <= j < i - from ==> is_digit(#[trigger] body[j]),
            over ==> digits_value(body.take(i - from)) > limit,
            !over ==> value == digits_value(body.take(i - from)) && value <= limit,
        decreases chars@.len() - i,
    {
        let c = chars[i];
        if !('0' <= c && c <= '9') {
            assert(!is_digit(body[i - from]));
            return None;
        }
        let d: u64 = (c as u32 - '0' as u32) as u64;
        proof {
            let next = body.take(i - from + 1);
            assert(next.drop_last() =~= body.take(i - from));
            assert(next.last() == c);
        }
        if !over {
            if limit < d || value > (limit - d) / 10 {
                over = true;
            } else {
                value = value * 10 + d;
            }
        }
        i += 1;
    }
    assert(body.take(i - from) =~= body);
    if over {
        None
    } else {
        Some(value)
    }
}

/// Reads `chars` as a signed 64-bit integer in decimal.
pub fn parse_i64(chars: &Vec<char>) -> (r: Option<i64>)
    ensures
        r == parsed_i64(chars@),
{
    if chars.len() > 0 && chars[0] == '-' {
        match parse_numeral(chars, 1, 0x8000_0000_0000_0000) {
            Some(m) => Some((0 - (m as i128)) as i64),
            None => None,
        }
    } else if chars.len() > 0 && chars[0] == '+' {
        match parse_numeral(chars, 1, 0x7fff_ffff_ffff_ffff) {
            Some(m) => Some(m as i64),
            None => None,
        }
    } else {
        assert(chars@.skip(0) =~= chars@);
        match parse_numeral(chars, 0, 0x7fff_ffff_ffff_ffff) {
            Some(m) => Some(m as i64),
            None => None,
        }
    }
}

/// Reads `chars` as an unsigned integer in decimal that is at most `limit`.
pub fn parse_unsigned(chars: &Vec<char>, limit: u64) -> (r: Option<u64>)
    ensures
        r is Some <==> parsed_unsigned(chars@, limit as nat) is Some,
        r is Some ==> r->0 == parsed_unsigned(chars@, limit as nat)->0,
{
    if chars.len() > 0 && chars[0] == '-' {
        None
    } else if chars.len() > 0 && chars[0] == '+' {
        parse_numeral(chars, 1, limit)
    } else {
        assert(chars@.skip(0) =~= chars@);
        parse_numeral(chars, 0, limit)
    }
}

/// The number of decimal digits that stand in `s` from index `from` on,
/// up to the first character that is none.
pub open spec fn digit_run(s: Seq<char>, from: int) -> nat
    decreases s.len() - from,
{
    if 0 <= from < s.len() && is_digit(s[from]) {
        1 + digit_run(s, from + 1)
    } else {
        0
    }
}

/// Whether `c` is the lower-case letter `letter` or its capital.
pub open spec fn same_letter(c: char, letter: char) -> bool {
    c == letter || (c as int) + 32 == (letter as int)
}

/// Whether `s` spells `word`, a word in lower-case letters, in capitals or
/// small letters.
pub open spec fn spells(s: Seq<char>, word: Seq<char>) -> bool {
    s.len() == word.len() && forall|i: int|
        0 <= i < s.len() ==> same_letter(#[trigger] s[i], word[i])
}

/// Whether `s` is a decimal number: digits with an optional point among
/// them, at least one digit in all, then an optional exponent, which is the
/// letter `e`, an optional sign and at least one digit.
pub open spec fn is_float_number(s: Seq<char>) -> bool {
    let whole = digit_run(s, 0) as int;
    let pointed = whole < s.len() && s[whole] == '.';
    let fraction = if pointed {
        digit_run(s, whole + 1) as int
    } else {
        0
    };
    let mantissa_end = if pointed {
        whole + 1 + fraction
    } else {
        whole
    };
    whole + fraction > 0 && (mantissa_end == s.len() || {
        let signed = mantissa_end + 1 < s.len() && (s[mantissa_end + 1] == '+' || s[mantissa_end
            + 1] == '-');
        let digits_from = if signed {
            mantissa_end + 2
        } else {
            mantissa_end + 1
        };
        same_letter(s[mantissa_end], 'e') && digit_run(s, digits_from) > 0 && digits_from
            + digit_run(s, digits_from) == s.len()
    })
}

/// Whether `s` writes a floating-point number: an optional sign, then a
/// decimal number or one of the words `inf`, `infinity` and `nan`.
pub open spec fn float_literal(s: Seq<char>) -> bool {
    let body = if s.len() > 0 && (s[0] == '+' || s[0] == '-') {
        s.skip(1)
    } else {
        s
    };
    spells(body, seq!['i', 'n', 'f']) || spells(
        body,
        seq!['i', 'n', 'f', 'i', 'n', 'i', 't', 'y'],
    ) || spells(body, seq!['n', 'a', 'n']) || is_float_number(body)
}

/// The index of the first character from `from` on that is no digit.
fn skip_digits(chars: &Vec<char>, from: usize) -> (to: usize)
    requires
        from <= chars@.len(),
    ensures
        to == from + digit_run(chars@, from as int),
        to <= chars@.len(),
{
    let mut i: usize = from;
    while i < chars.len() && '0' <= chars[i] && chars[i] <= '9'
        invariant
            from <= i <= chars@.len(),
            digit_run(chars@, from as int) == (i - from) + digit_run(chars@, i as int),
        decreases chars@.len() - i,
    {
        i += 1;
    }
    i
}

fn is_letter(c: char, letter: char) -> (r: bool)
    ensures
        r == same_letter(c, letter),
{
    c == letter || (c as u32) + 32 == (letter as u32)
}

/// Whether `chars[from..]` spells `word`.
fn spells_word(chars: &Vec<char>, from: usize, word: &Vec<char>) -> (r: bool)
    requires
        from <= chars@.len(),
    ensures
        r == spells(chars@.skip(from as int), word@),
{
    if chars.len() - from != word.len() {
        return false;
    }
    let mut i: usize = 0;
    while i < word.len()
        invariant
            from <= chars@.len() <= usize::MAX,
            chars@.len() - from == word@.len(),
            i <= word@.len(),
            forall|j: int|
                0 <= j < i ==> same_letter(#[trigger] chars@.skip(from as int)[j], word@[j]),
        decreases word@.len() - i,
    {
        if !is_letter(chars[from + i], word[i]) {
            assert(!same_letter(chars@.skip(from as int)[i as int], word@[i as int]));
            return false;
        }
        i += 1;
    }
    true
}

/// Whether `chars[from..]` is a decimal number.
fn is_number_from(chars: &Vec<char>, from: usize) -> (r: bool)
    requires
        from <= chars@.len(),
    ensures
        r == is_float_number(chars@.skip(from as int)),
{
    let ghost s = chars@.skip(from as int);
    proof {
        lemma_digit_run_skip(chars@, from as int, 0);
    }
    let whole_end = skip_digits(chars, from);
    let pointed = whole_end < chars.len() && chars[whole_end] == '.';
    let mantissa_end = if pointed {
        proof {
            lemma_digit_run_skip(chars@, from as int, whole_end - from + 1);
        }
        skip_digits(chars, whole_end + 1)
    } else {
        whole_end
    };
    let digits: usize = if pointed {
        mantissa_end - from - 1
    } else {
        mantissa_end - from
    };
    if digits == 0 {
        return false;
    }
    if mantissa_end == chars.len() {
        return true;
    }
    if !is_letter(chars[mantissa_end], 'e') {
        return false;
    }
    let signed = mantissa_end + 1 < chars.len() && (chars[mantissa_end + 1] == '+'
        || chars[mantissa_end + 1] == '-');
    let digits_from: usize = if signed {
        mantissa_end + 2
    } else {
        mantissa_end + 1
    };
    proof {
        lemma_digit_run_skip(chars@, from as int, digits_from - from);
    }
    let end = skip_digits(chars, digits_from);
    end > digits_from && end == chars.len()
}

/// Counting digits in what is left after skipping `from` characters is
/// counting them in the whole, `from` places further on.
pub proof fn lemma_digit_run_skip(s: Seq<char>, from: int, at: int)
    requires
        0 <= from <= s.len(),
        0 <= at,
    ensures
        digit_run(s.skip(from), at) == digit_run(s, from + at),
    decreases s.len() - from - at,
{
    if at < s.len() - from && is_digit(s[from + at]) {
        lemma_digit_run_skip(s, from, at + 1);
    }
}

/// Whether `chars` writes a floating-point number.
pub fn is_float_literal(chars: &Vec<char>) -> (r: bool)
    ensures
        r == float_literal(chars@),
{
    let from: usize = if chars.len() > 0 && (chars[0] == '+' || chars[0] == '-') {
        1
    } else {
        0
    };
    assert(chars@.skip(0) =~= chars@);
    let inf = vec!['i', 'n', 'f'];
    let infinity = vec!['i', 'n', 'f', 'i', 'n', 'i', 't', 'y'];
    let nan = vec!['n', 'a', 'n'];
    assert(inf@ =~= seq!['i', 'n', 'f']);
    assert(infinity@ =~= seq!['i', 'n', 'f', 'i', 'n', 'i', 't', 'y']);
    assert(nan@ =~= seq!['n', 'a', 'n']);
    spells_word(chars, from, &inf) || spells_word(chars, from, &infinity) || spells_word(
        chars,
        from,
        &nan,
    ) || is_number_from(chars, from)
}

} // verus!
