//! Writing numbers as text, in any radix from two to sixteen.
use vstd::prelude::*;
use vstd::string::StrSliceExecFns;
use vstd::string::StringExecFns;

verus! {

/// The characters that stand for the digits zero to fifteen.
pub open spec fn digit_chars() -> Seq<char> {
    seq!['0', '1', '2', '3', '4', '5', '6', '7', '8', '9', 'a', 'b', 'c', 'd', 'e', 'f']
}

/// The digits of `n` in radix `radix`, most significant first, without leading zeros.
pub open spec fn radix_digits(n: nat, radix: nat) -> Seq<char>
    recommends
        2 <= radix <= 16,
    decreases n,
{
    if radix < 2 || n < radix {
        seq![digit_chars()[n as int]]
    } else {
        proof {
            assert(n / radix < n) by (nonlinear_arith)
                requires
                    radix >= 2,
                    n >= radix,
            ;
        }
        radix_digits(n / radix, radix).push(digit_chars()[(n % radix) as int])
    }
}

/// The value of the digit character `c` by its character code: `0`-`9`
/// stand for zero to nine and `a`-`f` for ten to fifteen; any other
/// character is no digit (-1).
pub open spec fn char_digit_value(c: char) -> int {
    if '0' as int <= c as int && c as int <= '9' as int {
        c as int - '0' as int
    } else if 'a' as int <= c as int && c as int <= 'f' as int {
        c as int - 'a' as int + 10
    } else {
        -1
    }
}

/// The number that the digit characters `s` stand for in radix `radix`,
/// most significant first.
pub open spec fn digits_value(s: Seq<char>, radix: nat) -> int
    decreases s.len(),
{
    if s.len() == 0 {
        0
    } else {
        digits_value(s.drop_last(), radix) * radix + char_digit_value(s.last())
    }
}

/// Every character of `s` is a digit below `radix`.
pub open spec fn all_digits_below(s: Seq<char>, radix: nat) -> bool {
    forall|i: int| 0 <= i < s.len() ==> 0 <= #[trigger] char_digit_value(s[i]) < radix
}

/// Each digit below sixteen is written as the character that stands for it,
/// so distinct digits are written differently.
pub proof fn law_digit_chars_stand_for_their_value(d: nat)
    requires
        d < 16,
    ensures
        char_digit_value(digit_chars()[d as int]) == d,
{
    assert(digit_chars()[0] == '0');
    assert(digit_chars()[1] == '1');
    assert(digit_chars()[2] == '2');
    assert(digit_chars()[3] == '3');
    assert(digit_chars()[4] == '4');
    assert(digit_chars()[5] == '5');
    assert(digit_chars()[6] == '6');
    assert(digit_chars()[7] == '7');
    assert(digit_chars()[8] == '8');
    assert(digit_chars()[9] == '9');
    assert(digit_chars()[10] == 'a');
    assert(digit_chars()[11] == 'b');
    assert(digit_chars()[12] == 'c');
    assert(digit_chars()[13] == 'd');
    assert(digit_chars()[14] == 'e');
    assert(digit_chars()[15] == 'f');
}

/// The digits written for `n` are digits below the radix, at least one of
/// them, with no leading zero (zero itself is the single digit `0`), and
/// read back in that radix they give `n` again.
pub proof fn law_radix_digits_read_back(n: nat, radix: nat)
    requires
        2 <= radix <= 16,
    ensures
        digits_value(radix_digits(n, radix), radix) == n,
        all_digits_below(radix_digits(n, radix), radix),
        radix_digits(n, radix).len() >= 1,
        char_digit_value(radix_digits(n, radix)[0]) == 0 ==> radix_digits(n, radix).len() == 1,
    decreases n,
{
    if n < radix {
        law_digit_chars_stand_for_their_value(n);
        let s = radix_digits(n, radix);
        assert(s == seq![digit_chars()[n as int]]);
        assert(s.drop_last() =~= Seq::<char>::empty());
        assert(digits_value(Seq::<char>::empty(), radix) == 0);
        assert(digits_value(s, radix) == 0 * radix + char_digit_value(s.last()));
    } else {
        assert(n / radix < n) by (nonlinear_arith)
            requires
                radix >= 2,
                n >= radix,
        ;
        let q = n / radix;
        let r = n % radix;
        law_radix_digits_read_back(q, radix);
        law_digit_chars_stand_for_their_value(r);
        let prev = radix_digits(q, radix);
        let s = radix_digits(n, radix);
        assert(s == prev.push(digit_chars()[r as int]));
        assert(s.drop_last() =~= prev);
        vstd::arithmetic::div_mod::lemma_fundamental_div_mod(n as int, radix as int);
        assert(digits_value(s, radix) == q * radix + r) by {
            assert(digits_value(prev, radix) == q);
        }
        assert(q * radix == radix * q) by (nonlinear_arith);
        assert(q >= 1) by (nonlinear_arith)
            requires
                q == n / radix,
                n >= radix,
                radix >= 2,
        ;
        assert(s[0] == prev[0]);
        if char_digit_value(prev[0]) == 0 {
            assert(prev.len() == 1);
            assert(prev.drop_last() =~= Seq::<char>::empty());
            assert(digits_value(Seq::<char>::empty(), radix) == 0);
            assert(digits_value(prev, radix) == 0 * radix + char_digit_value(prev.last()));
            assert(false);
        }
        assert forall|i: int| 0 <= i < s.len() implies 0 <= #[trigger] char_digit_value(s[i])
            < radix by {
            if i < prev.len() {
                assert(s[i] == prev[i]);
            }
        }
    }
}

/// The one-character string of digit `d`.
fn digit_str(d: u64) -> (s: &'static str)
    requires
        d < 16,
    ensures
        s@ == seq![digit_chars()[d as int]],
{
    let all = "0123456789abcdef";
    proof {
        reveal_strlit("0123456789abcdef");
        assert(all@ =~= digit_chars());
    }
    let s = all.substring_char(d as usize, (d + 1) as usize);
    assert(s@ =~= seq![digit_chars()[d as int]]);
    s
}

/// Writes `n` in radix `radix`.
pub fn format_radix(n: u64, radix: u64) -> (s: String)
    requires
        2 <= radix <= 16,
    ensures
        s@ == radix_digits(n as nat, radix as nat),
        digits_value(s@, radix as nat) == n,
        all_digits_below(s@, radix as nat),
        char_digit_value(s@[0]) == 0 ==> s@.len() == 1,
    decreases n,
{
    proof {
        law_radix_digits_read_back(n as nat, radix as nat);
    }
    if n < radix {
        String::from_str(digit_str(n))
    } else {
        proof {
            assert(n / radix < n) by (nonlinear_arith)
                requires
                    radix >= 2,
                    n >= radix,
            ;
        }
        let mut s = format_radix(n / radix, radix);
        s.append(digit_str(n % radix));
        s
    }
}

/// Writes `n` in decimal.
pub fn format_decimal(n: u64) -> (s: String)
    ensures
        s@ == radix_digits(n as nat, 10),
        digits_value(s@, 10) == n,
        all_digits_below(s@, 10),
        char_digit_value(s@[0]) == 0 ==> s@.len() == 1,
{
    format_radix(n, 10)
}

/// Writes `n` in lower-case hexadecimal, without a prefix.
pub fn format_hex(n: u64) -> (s: String)
    ensures
        s@ == radix_digits(n as nat, 16),
        digits_value(s@, 16) == n,
        all_digits_below(s@, 16),
        char_digit_value(s@[0]) == 0 ==> s@.len() == 1,
{
    format_radix(n, 16)
}

} // verus!
