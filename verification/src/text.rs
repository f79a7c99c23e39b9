//! Numbers as text, and text put together piece by piece.

use vstd::prelude::*;

verus! {

/// `String::push` appends one character at the end of the string.
pub assume_specification[ String::push ](s: &mut String, ch: char)
    ensures
        final(s)@ == old(s)@.push(ch),
;

/// The character for the digit `d` below sixteen, in lower case.
pub open spec fn digit(d: nat) -> char {
    if d < 10 {
        ('0' as int + d) as char
    } else {
        ('a' as int + d - 10) as char
    }
}

/// `n` in the given radix, without leading zeros.
pub open spec fn digits(n: nat, radix: nat) -> Seq<char>
    decreases n,
{
    if radix < 2 || n < radix {
        seq![digit(n)]
    } else {
        proof {
            assert(0 <= n / radix < n) by (nonlinear_arith)
                requires
                    n >= radix,
                    radix >= 2,
            ;
        }
        digits(n / radix, radix).push(digit(n % radix))
    }
}

/// `n` in decimal.
pub open spec fn decimal(n: nat) -> Seq<char> {
    digits(n, 10)
}

/// `n` in decimal, with a minus sign where it is negative.
pub open spec fn signed_decimal(n: int) -> Seq<char> {
    if n < 0 {
        seq!['-'] + decimal((-n) as nat)
    } else {
        decimal(n as nat)
    }
}

/// `n` in hexadecimal, filled up with zeros on the left to at least `width`
/// characters.
pub open spec fn padded_hex(n: nat, width: nat) -> Seq<char>
    decreases width,
{
    if width <= 1 {
        digits(n, 16)
    } else {
        padded_hex(n / 16, (width - 1) as nat).push(digit(n % 16))
    }
}

/// The texts of a list of strings.
pub open spec fn texts(lines: Seq<String>) -> Seq<Seq<char>> {
    lines.map_values(|line: String| line@)
}

fn digit_char(d: u64) -> (ch: char)
    requires
        d < 16,
    ensures
        ch == digit(d as nat),
{
    if d < 10 {
        (48u8 + d as u8) as char
    } else {
        (87u8 + d as u8) as char
    }
}

/// Appends `n` in the given radix.
pub fn push_digits(out: &mut String, n: u64, radix: u64)
    requires
        2 <= radix <= 16,
    ensures
        final(out)@ == old(out)@ + digits(n as nat, radix as nat),
    decreases n,
{
    assert((n / radix) as nat == n as nat / radix as nat);
    assert((n % radix) as nat == n as nat % radix as nat);
    if n >= radix {
        assert(n / radix < n) by (nonlinear_arith)
            requires
                n >= radix,
                radix >= 2,
        ;
        push_digits(out, n / radix, radix);
    }
    let ghost before = out@;
    assert(n % radix < radix) by (nonlinear_arith)
        requires
            radix >= 2,
    ;
    assert(n < radix ==> n % radix == n) by (nonlinear_arith)
        requires
            radix >= 2,
    ;
    out.push(digit_char(n % radix));
    assert(out@ == before.push(digit((n % radix) as nat)));
}

/// Appends `n` in decimal.
pub fn push_decimal(out: &mut String, n: usize)
    ensures
        final(out)@ == old(out)@ + decimal(n as nat),
{
    push_digits(out, n as u64, 10);
}

/// Appends `n` in decimal, with its sign where it is negative.
pub fn push_signed(out: &mut String, n: i32)
    ensures
        final(out)@ == old(out)@ + signed_decimal(n as int),
{
    let wide: i64 = n as i64;
    if wide < 0 {
        out.push('-');
        push_digits(out, (-wide) as u64, 10);
    } else {
        push_digits(out, wide as u64, 10);
    }
}

/// Appends `n` in hexadecimal, at least `width` characters wide.
pub fn push_padded_hex(out: &mut String, n: u64, width: usize)
    ensures
        final(out)@ == old(out)@ + padded_hex(n as nat, width as nat),
    decreases width,
{
    if width <= 1 {
        push_digits(out, n, 16);
    } else {
        push_padded_hex(out, n / 16, width - 1);
        out.push(digit_char(n % 16));
    }
}

/// What a character counts for as a digit: `0` to `9` for zero to nine, `a` to `f` for ten
/// to fifteen. Any other character is no digit.
pub open spec fn digit_value(ch: char) -> Option<nat> {
    if '0' <= ch && ch <= '9' {
        Some((ch as int - '0' as int) as nat)
    } else if 'a' <= ch && ch <= 'f' {
        Some((ch as int - 'a' as int + 10) as nat)
    } else {
        None
    }
}

/// The text is a number in the given radix: there is at least one character, and all are
/// digits below the radix.
pub open spec fn is_number(text: Seq<char>, radix: nat) -> bool {
    &&& text.len() > 0
    &&& forall|i: int|
        0 <= i < text.len() ==> digit_value(#[trigger] text[i]) is Some && digit_value(text[i])->0
            < radix
}

/// The number that a text of digits stands for in the given radix.
pub open spec fn number_of(text: Seq<char>, radix: nat) -> nat
    decreases text.len(),
{
    if text.len() == 0 {
        0
    } else {
        number_of(text.drop_last(), radix) * radix + digit_value(text.last())->0
    }
}

proof fn lemma_digit(d: nat)
    requires
        d < 16,
    ensures
        digit_value(digit(d)) == Some(d),
        digit(d) == '0' <==> d == 0,
{
}

proof fn lemma_number_of_push(text: Seq<char>, d: nat, radix: nat)
    requires
        d < radix <= 16,
    ensures
        number_of(text.push(digit(d)), radix) == number_of(text, radix) * radix + d,
        is_number(text, radix) ==> is_number(text.push(digit(d)), radix),
{
    lemma_digit(d);
    assert(text.push(digit(d)).drop_last() =~= text);
}

/// A number that was written in some radix reads back as itself: what is written are
/// digits of that radix, they stand for the number, and there are no more of them than
/// needed, as only zero itself starts with a zero.
pub proof fn law_number_reads_back(n: nat, radix: nat)
    requires
        2 <= radix <= 16,
    ensures
        is_number(digits(n, radix), radix),
        number_of(digits(n, radix), radix) == n,
        n > 0 ==> digits(n, radix)[0] != '0',
        n == 0 ==> digits(n, radix).len() == 1,
    decreases n,
{
    if n < radix {
        lemma_digit(n);
        assert(digits(n, radix).drop_last() =~= Seq::empty());
        assert(number_of(Seq::empty(), radix) == 0);
        assert(0 * radix == 0) by (nonlinear_arith);
    } else {
        assert(0 < n / radix < n) by (nonlinear_arith)
            requires
                n >= radix,
                radix >= 2,
        ;
        assert(0 <= n % radix < radix) by (nonlinear_arith)
            requires
                radix >= 2,
        ;
        assert(n == (n / radix) * radix + n % radix) by (nonlinear_arith)
            requires
                radix >= 2,
        ;
        law_number_reads_back(n / radix, radix);
        lemma_number_of_push(digits(n / radix, radix), n % radix, radix);
    }
}

/// A signed number starts with a minus sign exactly where it is negative, and what
/// follows is its amount.
pub proof fn law_signed_number_reads_back(n: int)
    ensures
        ({
            let text = signed_decimal(n);
            &&& n < 0 <==> text[0] == '-'
            &&& n >= 0 ==> is_number(text, 10) && number_of(text, 10) == n
            &&& n < 0 ==> is_number(text.skip(1), 10) && number_of(text.skip(1), 10) == -n
        }),
{
    if n < 0 {
        law_number_reads_back((-n) as nat, 10);
        assert(signed_decimal(n).skip(1) =~= decimal((-n) as nat));
    } else {
        law_number_reads_back(n as nat, 10);
    }
}

/// A number that was filled up on the left reads back as itself, is at least as wide as
/// it was asked to be, and is wider only where the number needs it.
pub proof fn law_padded_number_reads_back(n: nat, width: nat)
    ensures
        is_number(padded_hex(n, width), 16),
        number_of(padded_hex(n, width), 16) == n,
        padded_hex(n, width).len() >= width,
        padded_hex(n, width).len() > width && width > 0 ==> padded_hex(n, width)[0] != '0',
        width == 0 ==> padded_hex(n, width) == digits(n, 16),
    decreases width,
{
    if width <= 1 {
        law_number_reads_back(n, 16);
    } else {
        law_padded_number_reads_back(n / 16, (width - 1) as nat);
        lemma_number_of_push(padded_hex(n / 16, (width - 1) as nat), n % 16, 16);
    }
}

} // verus!
