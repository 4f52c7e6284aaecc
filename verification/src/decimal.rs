use vstd::prelude::*;

verus! {

/// The character of a decimal digit `d` (0 to 9).
pub open spec fn digit_char(d: nat) -> char {
    (d + 48) as char
}

/// The decimal notation of `n`, most significant digit first, with no
/// leading zero (zero itself is written `0`).
pub open spec fn decimal(n: nat) -> Seq<char>
    decreases n,
{
    if n < 10 {
        seq![digit_char(n)]
    } else {
        decimal(n / 10).push(digit_char(n % 10))
    }
}

/// The number that a string of decimal digits denotes.
pub open spec fn decimal_value(s: Seq<char>) -> nat
    decreases s.len(),
{
    if s.len() == 0 {
        0
    } else {
        decimal_value(s.drop_last()) * 10 + ((s.last() as nat) - 48) as nat
    }
}

/// Reading the decimal notation of a number gives the number back: the
/// notation loses nothing, so distinct numbers are written differently.
pub proof fn lemma_decimal_round_trip(n: nat)
    ensures
        decimal_value(decimal(n)) == n,
    decreases n,
{
    let d: nat = n % 10;
    assert(digit_char(d) as nat == d + 48);
    if n >= 10 {
        lemma_decimal_round_trip(n / 10);
        assert(decimal(n).drop_last() =~= decimal(n / 10));
        assert(decimal(n).last() == digit_char(d));
        assert(decimal_value(decimal(n)) == decimal_value(decimal(n / 10)) * 10 + d);
        assert((n / 10) * 10 + d == n);
    } else {
        assert(decimal(n).drop_last() =~= Seq::<char>::empty());
        assert(decimal_value(Seq::<char>::empty()) == 0);
        assert(decimal(n).last() == digit_char(n));
    }
}

/// Whether `c` is one of the ASCII digits `0` to `9`.
pub open spec fn is_digit(c: char) -> bool {
    '0' <= c && c <= '9'
}

/// The decimal notation of a number is its standard base-10 notation: a
/// non-empty string of ASCII digits, with no leading zero, that reads back as
/// the number.
pub proof fn lemma_decimal_notation(n: nat)
    ensures
        decimal(n).len() > 0,
        forall|i: int| 0 <= i < decimal(n).len() ==> is_digit(#[trigger] decimal(n)[i]),
        decimal_value(decimal(n)) == n,
        decimal(n).len() > 1 ==> decimal(n)[0] != '0',
        n >= 10 ==> decimal(n).len() > 1,
    decreases n,
{
    lemma_decimal_round_trip(n);
    let d: nat = n % 10;
    assert(digit_char(d) as nat == d + 48);
    assert(is_digit(digit_char(d)));
    if n >= 10 {
        let m: nat = n / 10;
        lemma_decimal_notation(m);
        let s = decimal(n);
        assert(s == decimal(m).push(digit_char(d)));
        assert forall|i: int| 0 <= i < s.len() implies is_digit(#[trigger] s[i]) by {
            if i < decimal(m).len() {
                assert(s[i] == decimal(m)[i]);
            } else {
                assert(s[i] == digit_char(d));
            }
        }
        assert(s[0] == decimal(m)[0]);
        if m < 10 {
            assert(digit_char(m) as nat == m + 48);
            assert(decimal(m)[0] == digit_char(m));
        }
    } else {
        assert(decimal(n)[0] == digit_char(n));
    }
}

/// Distinct numbers have distinct decimal notations.
pub proof fn lemma_decimal_injective(a: nat, b: nat)
    requires
        a != b,
    ensures
        decimal(a) != decimal(b),
{
    lemma_decimal_round_trip(a);
    lemma_decimal_round_trip(b);
}

fn digit_str(d: u16) -> (s: &'static str)
    requires
        d < 10,
    ensures
        s@ == seq![digit_char(d as nat)],
{
    match d {
        0 => {
            proof {
                reveal_strlit("0");
            }
            "0"
        },
        1 => {
            proof {
                reveal_strlit("1");
            }
            "1"
        },
        2 => {
            proof {
                reveal_strlit("2");
            }
            "2"
        },
        3 => {
            proof {
                reveal_strlit("3");
            }
            "3"
        },
        4 => {
            proof {
                reveal_strlit("4");
            }
            "4"
        },
        5 => {
            proof {
                reveal_strlit("5");
            }
            "5"
        },
        6 => {
            proof {
                reveal_strlit("6");
            }
            "6"
        },
        7 => {
            proof {
                reveal_strlit("7");
            }
            "7"
        },
        8 => {
            proof {
                reveal_strlit("8");
            }
            "8"
        },
        _ => {
            proof {
                reveal_strlit("9");
            }
            "9"
        },
    }
}

/// Appends the decimal notation of `n` to `out`.
pub fn push_decimal(out: &mut String, n: u16)
    ensures
        final(out)@ == old(out)@ + decimal(n as nat),
        final(out)@.len() > old(out)@.len(),
        final(out)@.subrange(0, old(out)@.len() as int) == old(out)@,
        forall|i: int|
            old(out)@.len() <= i < final(out)@.len() ==> is_digit(#[trigger] final(out)@[i]),
        decimal_value(final(out)@.subrange(old(out)@.len() as int, final(out)@.len() as int))
            == n,
    decreases n,
{
    proof {
        lemma_decimal_notation(n as nat);
    }
    let ghost before = out@;
    if n >= 10 {
        push_decimal(out, n / 10);
    }
    let d: u16 = n % 10;
    out.append(digit_str(d));
    proof {
        let dec = decimal(n as nat);
        assert(out@ == before + dec);
        assert(out@.subrange(0, before.len() as int) =~= before);
        assert(out@.subrange(before.len() as int, out@.len() as int) =~= dec);
        assert forall|i: int| before.len() <= i < out@.len() implies is_digit(#[trigger] out@[i]) by {
            assert(out@[i] == dec[i - before.len()]);
        }
    }
}

} // verus!
