use vstd::prelude::*;
use vstd::string::StringExecFns;

verus! {

/// Calls `String::push`, which appends one character to the end of the string.
#[verifier::external_body]
pub(crate) fn string_push(s: &mut String, c: char)
    ensures
        final(s)@ == old(s)@.push(c),
{
    s.push(c)
}

/// The lower-case hexadecimal digit of `d` (for `d < 16`).
pub open spec fn hex_char(d: nat) -> char {
    if d == 0 { '0' }
    else if d == 1 { '1' }
    else if d == 2 { '2' }
    else if d == 3 { '3' }
    else if d == 4 { '4' }
    else if d == 5 { '5' }
    else if d == 6 { '6' }
    else if d == 7 { '7' }
    else if d == 8 { '8' }
    else if d == 9 { '9' }
    else if d == 10 { 'a' }
    else if d == 11 { 'b' }
    else if d == 12 { 'c' }
    else if d == 13 { 'd' }
    else if d == 14 { 'e' }
    else { 'f' }
}

/// The lower-case hexadecimal digits of `n`, most significant first, without
/// leading zeros (`0` is one digit).
pub open spec fn hex_digits(n: nat) -> Seq<char>
    decreases n,
{
    if n < 16 {
        seq![hex_char(n)]
    } else {
        hex_digits(n / 16).push(hex_char(n % 16))
    }
}

/// `n` in the alternate hexadecimal form: `0x` and the digits.
pub open spec fn hex_text(n: nat) -> Seq<char> {
    "0x"@ + hex_digits(n)
}

fn hex_digit(d: usize) -> (c: char)
    requires
        d < 16,
    ensures
        c == hex_char(d as nat),
{
    if d == 0 { '0' }
    else if d == 1 { '1' }
    else if d == 2 { '2' }
    else if d == 3 { '3' }
    else if d == 4 { '4' }
    else if d == 5 { '5' }
    else if d == 6 { '6' }
    else if d == 7 { '7' }
    else if d == 8 { '8' }
    else if d == 9 { '9' }
    else if d == 10 { 'a' }
    else if d == 11 { 'b' }
    else if d == 12 { 'c' }
    else if d == 13 { 'd' }
    else if d == 14 { 'e' }
    else { 'f' }
}

/// Appends the hexadecimal digits of `n`.
fn push_hex_digits(s: &mut String, n: usize)
    ensures
        final(s)@ == old(s)@ + hex_digits(n as nat),
    decreases n,
{
    if n >= 16 {
        push_hex_digits(s, n / 16);
    }
    string_push(s, hex_digit(n % 16));
    proof {
        if n >= 16 {
            assert(old(s)@ + hex_digits((n / 16) as nat) + seq![hex_char((n % 16) as nat)]
                =~= old(s)@ + hex_digits(n as nat));
        } else {
            assert(old(s)@.push(hex_char(n as nat)) =~= old(s)@ + hex_digits(n as nat));
        }
    }
}

/// Appends `n` in the form `0x` followed by its lower-case hexadecimal digits.
pub fn push_hex(s: &mut String, n: usize)
    ensures
        final(s)@ == old(s)@ + hex_text(n as nat),
{
    let ghost start = s@;
    s.append("0x");
    push_hex_digits(s, n);
    assert(start + "0x"@ + hex_digits(n as nat) =~= start + hex_text(n as nat));
}

/// The decimal digits of `n`, most significant first, without leading zeros
/// (`0` is one digit).
pub open spec fn dec_digits(n: nat) -> Seq<char>
    decreases n,
{
    if n < 10 {
        seq![hex_char(n)]
    } else {
        dec_digits(n / 10).push(hex_char(n % 10))
    }
}

/// Appends the decimal digits of `n`.
pub fn push_dec(s: &mut String, n: usize)
    ensures
        final(s)@ == old(s)@ + dec_digits(n as nat),
    decreases n,
{
    if n >= 10 {
        push_dec(s, n / 10);
    }
    string_push(s, hex_digit(n % 10));
    proof {
        if n >= 10 {
            assert(old(s)@ + dec_digits((n / 10) as nat) + seq![hex_char((n % 10) as nat)]
                =~= old(s)@ + dec_digits(n as nat));
        } else {
            assert(old(s)@.push(hex_char(n as nat)) =~= old(s)@ + dec_digits(n as nat));
        }
    }
}

/// The value of a hexadecimal digit character, read from its character
/// code: `0`..`9` count from the code of `0`, `a`..`f` from ten at `a`.
pub open spec fn digit_value(c: char) -> int {
    if '0' <= c <= '9' {
        c as int - '0' as int
    } else {
        c as int - 'a' as int + 10
    }
}

/// Whether `c` is one of `0`..`9`, `a`..`f`.
pub open spec fn is_lower_hex_char(c: char) -> bool {
    ('0' <= c <= '9') || ('a' <= c <= 'f')
}

/// The number that the digits `s` denote in base `b`, most significant first.
pub open spec fn digits_value(s: Seq<char>, b: int) -> int
    decreases s.len(),
{
    if s.len() == 0 {
        0
    } else {
        digits_value(s.drop_last(), b) * b + digit_value(s.last())
    }
}

/// Digit `d` is the `d`-th of `0123456789abcdef`: it reads back as `d`.
pub proof fn lemma_hex_char_value(d: nat)
    requires
        d < 16,
    ensures
        is_lower_hex_char(hex_char(d)),
        digit_value(hex_char(d)) == d,
        d < 10 ==> '0' <= hex_char(d) <= '9',
{
}

/// The hexadecimal text of `n` is made of lower-case hex digits and reads
/// back, in base 16, as `n`; its first digit is not a zero unless `n` is 0.
pub proof fn lemma_hex_digits_denote(n: nat)
    ensures
        digits_value(hex_digits(n), 16) == n,
        forall|i: int| 0 <= i < hex_digits(n).len() ==> #[trigger] is_lower_hex_char(hex_digits(n)[i]),
        n > 0 ==> hex_digits(n)[0] != '0',
    decreases n,
{
    lemma_hex_char_value(n % 16);
    if n >= 16 {
        lemma_hex_digits_denote(n / 16);
        let s = hex_digits(n);
        assert(s.drop_last() =~= hex_digits(n / 16));
        assert(s.last() == hex_char(n % 16));
        assert(n == (n / 16) * 16 + n % 16);
        assert(digits_value(s, 16) == digits_value(s.drop_last(), 16) * 16 + digit_value(s.last()));
        assert forall|i: int| 0 <= i < s.len() implies #[trigger] is_lower_hex_char(s[i]) by {
            if i < s.len() - 1 {
                assert(s[i] == hex_digits(n / 16)[i]);
            }
        }
        assert(s[0] == hex_digits(n / 16)[0]);
    } else {
        let s = hex_digits(n);
        assert(s.drop_last() =~= Seq::<char>::empty());
        assert(digits_value(s.drop_last(), 16) == 0);
        assert(digits_value(s, 16) == digits_value(s.drop_last(), 16) * 16 + digit_value(s.last()));
    }
}

/// The decimal text of `n` is made of the digits `0`..`9` and reads back,
/// in base 10, as `n`; its first digit is not a zero unless `n` is 0.
pub proof fn lemma_dec_digits_denote(n: nat)
    ensures
        digits_value(dec_digits(n), 10) == n,
        forall|i: int| 0 <= i < dec_digits(n).len() ==> '0' <= #[trigger] dec_digits(n)[i] <= '9',
        n > 0 ==> dec_digits(n)[0] != '0',
    decreases n,
{
    lemma_hex_char_value(n % 10);
    if n >= 10 {
        lemma_dec_digits_denote(n / 10);
        let s = dec_digits(n);
        assert(s.drop_last() =~= dec_digits(n / 10));
        assert(s.last() == hex_char(n % 10));
        assert(n == (n / 10) * 10 + n % 10);
        assert(digits_value(s, 10) == digits_value(s.drop_last(), 10) * 10 + digit_value(s.last()));
        assert forall|i: int| 0 <= i < s.len() implies '0' <= #[trigger] s[i] <= '9' by {
            if i < s.len() - 1 {
                assert(s[i] == dec_digits(n / 10)[i]);
            }
        }
        assert(s[0] == dec_digits(n / 10)[0]);
    } else {
        let s = dec_digits(n);
        assert(s.drop_last() =~= Seq::<char>::empty());
        assert(digits_value(s.drop_last(), 10) == 0);
        assert(digits_value(s, 10) == digits_value(s.drop_last(), 10) * 10 + digit_value(s.last()));
    }
}

} // verus!
