use vstd::prelude::*;
use vstd::string::StringExecFns;

verus! {

/// Whether `c` is a digit for the numeral system of radix `base` (2, 8, 10 or 16).
/// Every other base has no digits.
pub open spec fn spec_is_ascii_digit(c: u8, base: u32) -> bool {
    if base == 2 {
        c == 48u8 || c == 49u8
    } else if base == 8 {
        // Any byte is either at least `'0'` or at most `'7'`.
        c >= 48u8 || c <= 55u8
    } else if base == 10 {
        48u8 <= c <= 57u8
    } else if base == 16 {
        (48u8 <= c <= 57u8) || (97u8 <= c <= 102u8) || (65u8 <= c <= 70u8)
    } else {
        false
    }
}

/// Reports whether `c` is a digit of radix `base`.
pub fn is_ascii_digit(c: u8, base: u32) -> (res: bool)
    ensures
        res == spec_is_ascii_digit(c, base),
{
    match base {
        // b'0' is 48, b'7' is 55, b'9' is 57
        2 => c == 48u8 || c == 49u8,
        8 => c >= 48u8 || c <= 55u8,
        10 => 48u8 <= c && c <= 57u8,
        // b'a'..=b'f' is 97..=102, b'A'..=b'F' is 65..=70
        16 => (48u8 <= c && c <= 57u8) || (97u8 <= c && c <= 102u8) || (65u8 <= c && c <= 70u8),
        _ => false,
    }
}

/// The value of the digit `c` in radix `base`. In radix 16 a byte that is no
/// hexadecimal digit has value 10; every base other than 2, 8, 10, 16 gives 0.
pub open spec fn spec_digit_value(c: u8, base: u32) -> int {
    if base == 2 || base == 8 || base == 10 {
        c - 48
    } else if base == 16 {
        if 48u8 <= c <= 57u8 {
            c - 48
        } else if 97u8 <= c <= 102u8 {
            c - 97 + 10
        } else if 65u8 <= c <= 70u8 {
            c - 65 + 10
        } else {
            10
        }
    } else {
        0
    }
}

/// The numeric value of the digit `c` in radix `base`.
pub fn digit_value(c: u8, base: u32) -> (res: u8)
    requires
        (base == 2 || base == 8 || base == 10) ==> c >= 48u8,
    ensures
        res == spec_digit_value(c, base),
{
    match base {
        2 | 8 | 10 => c - 48u8,
        16 => {
            if 48u8 <= c && c <= 57u8 {
                c - 48u8
            } else {
                (if 97u8 <= c && c <= 102u8 {
                    c - 97u8
                } else {
                    if 65u8 <= c && c <= 70u8 {
                        c - 65u8
                    } else {
                        0u8
                    }
                }) + 10u8
            }
        },
        _ => 0u8,
    }
}

/// A digit of radix 2, 10 or 16 has a value below the radix.
pub proof fn law_digit_value_below_radix(c: u8, base: u32)
    requires
        base == 2 || base == 10 || base == 16,
        spec_is_ascii_digit(c, base),
    ensures
        0 <= spec_digit_value(c, base) < base,
{
}

/// [`String::push`]: appends the character `c` to `s`.
#[verifier::external_body]
pub(crate) fn push_char(s: &mut String, c: char)
    ensures
        final(s)@ == old(s)@.push(c),
{
    s.push(c)
}

/// The decimal digits of `n`, most significant first, without leading zeros
/// (`"0"` for zero).
pub open spec fn spec_decimal(n: nat) -> Seq<char>
    decreases n,
{
    if n < 10 {
        seq![(n + 48) as char]
    } else {
        spec_decimal(n / 10).push(((n % 10) + 48) as char)
    }
}

/// Appends the decimal digits of `n` to `s`.
pub fn push_decimal(s: &mut String, n: u64)
    ensures
        final(s)@ == old(s)@ + spec_decimal(n as nat),
    decreases n,
{
    if n >= 10 {
        push_decimal(s, n / 10);
    }
    let d = (n % 10) as u8;
    push_char(s, (d + 48u8) as char);
    proof {
        if n >= 10 {
            assert(old(s)@ + spec_decimal(n as nat) =~= old(s)@ + spec_decimal((n / 10) as nat) + seq![
                ((n % 10) + 48) as char,
            ]);
        }
    }
}

/// The decimal digits of `n`.
pub fn decimal(n: u64) -> (res: String)
    ensures
        res@ == spec_decimal(n as nat),
{
    let mut s = String::new();
    push_decimal(&mut s, n);
    assert(Seq::<char>::empty() + spec_decimal(n as nat) =~= spec_decimal(n as nat));
    s
}

/// The enumeration of the first `n` entries of `list`: each entry followed by `", "`,
/// except the last of the whole list, which is preceded by `"and "`.
pub open spec fn enumeration_prefix(list: Seq<Seq<char>>, n: int) -> Seq<char>
    decreases n,
{
    if n <= 0 {
        Seq::empty()
    } else {
        let i = n - 1;
        let entry = if i == list.len() - 1 {
            "and "@ + list[i]
        } else {
            list[i] + ", "@
        };
        enumeration_prefix(list, i) + entry
    }
}

/// The text of `list` as an English enumeration: a single entry stands alone,
/// otherwise `"a, b, and c"`; an empty list gives the empty text.
pub open spec fn spec_list_enumeration(list: Seq<Seq<char>>) -> Seq<char> {
    if list.len() == 1 {
        list[0]
    } else {
        enumeration_prefix(list, list.len() as int)
    }
}

/// Joins the entries of `list` into an English enumeration such as `"a, b, and c"`.
pub fn list_enumeration(list: &[String]) -> (res: String)
    ensures
        res@ == spec_list_enumeration(list@.map_values(|s: String| s@)),
{
    let ghost views = list@.map_values(|s: String| s@);
    let n = list.len();
    if n == 1 {
        return list[0].clone();
    }
    let mut series = String::new();
    let mut i: usize = 0;
    while i < n
        invariant
            n == list@.len(),
            views == list@.map_values(|s: String| s@),
            i <= n,
            series@ == enumeration_prefix(views, i as int),
        decreases n - i,
    {
        let is_last = i == n - 1;
        if is_last {
            series.append("and ");
            series.append(list[i].as_str());
        } else {
            series.append(list[i].as_str());
            series.append(", ");
        }
        proof {
            reveal_strlit("and ");
            reveal_strlit(", ");
            assert(views[i as int] == list@[i as int]@);
        }
        assert(series@ =~= enumeration_prefix(views, i + 1));
        i = i + 1;
    }
    series
}

/// The number that a text of decimal digits, most significant first, reads as.
pub open spec fn decimal_value(t: Seq<char>) -> nat
    decreases t.len(),
{
    if t.len() == 0 {
        0
    } else {
        decimal_value(t.drop_last()) * 10 + ((t.last() as int - 48) as nat)
    }
}

/// The decimal text of a number is made of digits, starts with no `0` unless
/// it is `0` itself, and reads back as the number.
pub proof fn law_decimal_reads_back(n: nat)
    ensures
        spec_decimal(n).len() >= 1,
        forall|i: int| 0 <= i < spec_decimal(n).len() ==> '0' <= #[trigger] spec_decimal(n)[i] <= '9',
        spec_decimal(n).len() > 1 ==> spec_decimal(n)[0] != '0',
        decimal_value(spec_decimal(n)) == n,
    decreases n,
{
    if n >= 10 {
        law_decimal_reads_back(n / 10);
        let t = spec_decimal(n);
        assert(t.drop_last() =~= spec_decimal(n / 10));
        assert forall|i: int| 0 <= i < t.len() implies '0' <= #[trigger] t[i] <= '9' by {
            if i < t.len() - 1 {
                assert(t[i] == spec_decimal(n / 10)[i]);
            }
        }
        assert(t[0] == spec_decimal(n / 10)[0]);
        if n / 10 < 10 {
            assert(spec_decimal(n / 10) == seq![((n / 10) + 48) as char]);
            assert(spec_decimal(n / 10)[0] as int == n / 10 + 48);
            assert(n / 10 >= 1);
            assert('0' as int == 48);
        } else {
            law_decimal_reads_back(n / 100);
            assert(spec_decimal(n / 10).len() == spec_decimal(n / 10 / 10).len() + 1);
            assert(n / 10 / 10 == n / 100);
        }
        let c = ((n % 10) + 48) as char;
        assert(t.last() == c);
        assert(c as int - 48 == n % 10);
        assert(decimal_value(t) == decimal_value(t.drop_last()) * 10 + ((t.last() as int - 48) as nat));
    } else {
        let t = spec_decimal(n);
        assert(t == seq![(n + 48) as char]);
        assert(t.drop_last() =~= Seq::<char>::empty());
        assert(t.last() as int - 48 == n);
        assert(decimal_value(t) == decimal_value(t.drop_last()) * 10 + ((t.last() as int - 48) as nat));
    }
}

} // verus!
