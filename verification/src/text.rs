//! Numbers as text: decimal, and bytes in hexadecimal.

use vstd::prelude::*;
use vstd::string::StringExecFns;

verus! {

/// The decimal digit `d`.
pub open spec fn digit(d: nat) -> char {
    if d == 0 {
        '0'
    } else if d == 1 {
        '1'
    } else if d == 2 {
        '2'
    } else if d == 3 {
        '3'
    } else if d == 4 {
        '4'
    } else if d == 5 {
        '5'
    } else if d == 6 {
        '6'
    } else if d == 7 {
        '7'
    } else if d == 8 {
        '8'
    } else {
        '9'
    }
}

/// The number `n` in decimal, without leading zeros.
pub open spec fn decimal(n: nat) -> Seq<char>
    decreases n,
{
    if n < 10 {
        seq![digit(n)]
    } else {
        decimal(n / 10).push(digit(n % 10))
    }
}

/// The digits `digits`, given from the least significant on, as text from
/// the most significant on.
pub open spec fn digits_text(digits: Seq<u8>) -> Seq<char> {
    Seq::new(digits.len(), |i: int| digit(digits[digits.len() - 1 - i] as nat))
}

/// The text of one decimal digit.
fn digit_str(d: u8) -> (text: &'static str)
    requires
        d < 10,
    ensures
        text@ == seq![digit(d as nat)],
{
    proof {
        reveal_strlit("0");
        reveal_strlit("1");
        reveal_strlit("2");
        reveal_strlit("3");
        reveal_strlit("4");
        reveal_strlit("5");
        reveal_strlit("6");
        reveal_strlit("7");
        reveal_strlit("8");
        reveal_strlit("9");
    }
    let text = if d == 0 {
        "0"
    } else if d == 1 {
        "1"
    } else if d == 2 {
        "2"
    } else if d == 3 {
        "3"
    } else if d == 4 {
        "4"
    } else if d == 5 {
        "5"
    } else if d == 6 {
        "6"
    } else if d == 7 {
        "7"
    } else if d == 8 {
        "8"
    } else {
        "9"
    };
    assert(text@ =~= seq![digit(d as nat)]);
    text
}

/// Appends `n` in decimal to `text`.
pub fn append_decimal(text: &mut String, n: u128)
    ensures
        final(text)@ == old(text)@ + decimal(n as nat),
{
    let mut digits: Vec<u8> = Vec::new();
    digits.push((n % 10) as u8);
    let mut rest: u128 = n / 10;
    assert(digits_text(digits@) =~= seq![digit((n % 10) as nat)]);
    while rest > 0
        invariant
            digits@.len() > 0,
            forall|i: int| 0 <= i < digits@.len() ==> digits@[i] < 10,
            decimal(n as nat) == if rest == 0 {
                digits_text(digits@)
            } else {
                decimal(rest as nat) + digits_text(digits@)
            },
        decreases rest,
    {
        let ghost before = digits@;
        let d: u8 = (rest % 10) as u8;
        digits.push(d);
        assert(digits_text(digits@) =~= seq![digit(d as nat)] + digits_text(before));
        proof {
            if rest >= 10 {
                assert(decimal(rest as nat) + digits_text(before) =~= decimal((rest / 10) as nat)
                    + digits_text(digits@));
            } else {
                assert(decimal(rest as nat) + digits_text(before) =~= digits_text(digits@));
            }
        }
        rest = rest / 10;
    }
    let ghost start = text@;
    let mut left: usize = digits.len();
    assert(text@ =~= start + digits_text(digits@).subrange(0, 0));
    while left > 0
        invariant
            left <= digits@.len(),
            forall|i: int| 0 <= i < digits@.len() ==> digits@[i] < 10,
            text@ == start + digits_text(digits@).subrange(0, digits@.len() - left),
        decreases left,
    {
        left -= 1;
        text.append(digit_str(digits[left]));
        assert(text@ =~= start + digits_text(digits@).subrange(0, digits@.len() - left));
    }
    assert(digits_text(digits@).subrange(0, digits@.len() as int) =~= digits_text(digits@));
}

/// A number in decimal has one character below ten and more from ten on.
pub proof fn decimal_length(n: nat)
    ensures
        decimal(n).len() >= 1,
        n < 10 <==> decimal(n).len() == 1,
    decreases n,
{
    if n >= 10 {
        decimal_length(n / 10);
    }
}

/// Two digits with one character are one digit.
pub proof fn digit_is_injective(a: nat, b: nat)
    requires
        a < 10,
        b < 10,
        digit(a) == digit(b),
    ensures
        a == b,
{
}

/// Two numbers with one decimal text are one number.
pub proof fn decimal_is_injective(a: nat, b: nat)
    requires
        decimal(a) == decimal(b),
    ensures
        a == b,
    decreases a,
{
    decimal_length(a);
    decimal_length(b);
    if a >= 10 {
        let left = decimal(a / 10).push(digit(a % 10));
        let right = decimal(b / 10).push(digit(b % 10));
        assert(left.last() == right.last());
        assert(left.drop_last() =~= decimal(a / 10));
        assert(right.drop_last() =~= decimal(b / 10));
        decimal_is_injective(a / 10, b / 10);
        digit_is_injective(a % 10, b % 10);
    } else {
        assert(decimal(a)[0] == digit(a));
        assert(decimal(b)[0] == digit(b));
        digit_is_injective(a, b);
    }
}

/// The hexadecimal digit `d`, in lower case.
pub open spec fn hex_digit(d: nat) -> char {
    if d < 10 {
        digit(d)
    } else if d == 10 {
        'a'
    } else if d == 11 {
        'b'
    } else if d == 12 {
        'c'
    } else if d == 13 {
        'd'
    } else if d == 14 {
        'e'
    } else {
        'f'
    }
}

/// The byte `byte` in hexadecimal, without a leading zero.
pub open spec fn hex(byte: u8) -> Seq<char> {
    if byte < 16 {
        seq![hex_digit(byte as nat)]
    } else {
        seq![hex_digit((byte / 16) as nat), hex_digit((byte % 16) as nat)]
    }
}

/// The bytes in hexadecimal, with a comma and a space between them.
pub open spec fn hex_list(bytes: Seq<u8>) -> Seq<char>
    decreases bytes.len(),
{
    if bytes.len() == 0 {
        Seq::empty()
    } else if bytes.len() == 1 {
        hex(bytes[0])
    } else {
        hex_list(bytes.drop_last()) + ", "@ + hex(bytes.last())
    }
}

/// The text of one hexadecimal digit.
fn hex_digit_str(d: u8) -> (text: &'static str)
    requires
        d < 16,
    ensures
        text@ == seq![hex_digit(d as nat)],
{
    if d < 10 {
        digit_str(d)
    } else {
        proof {
            reveal_strlit("a");
            reveal_strlit("b");
            reveal_strlit("c");
            reveal_strlit("d");
            reveal_strlit("e");
            reveal_strlit("f");
        }
        let text = if d == 10 {
            "a"
        } else if d == 11 {
            "b"
        } else if d == 12 {
            "c"
        } else if d == 13 {
            "d"
        } else if d == 14 {
            "e"
        } else {
            "f"
        };
        assert(text@ =~= seq![hex_digit(d as nat)]);
        text
    }
}

/// Appends `byte` in hexadecimal to `text`.
pub fn append_hex(text: &mut String, byte: u8)
    ensures
        final(text)@ == old(text)@ + hex(byte),
{
    if byte >= 16 {
        text.append(hex_digit_str(byte / 16));
    }
    text.append(hex_digit_str(byte % 16));
    assert(text@ =~= old(text)@ + hex(byte));
}

/// Appends the bytes in hexadecimal, with a comma and a space between them.
pub fn append_hex_list(text: &mut String, bytes: &[u8])
    ensures
        final(text)@ == old(text)@ + hex_list(bytes@),
{
    let ghost start = text@;
    let mut i: usize = 0;
    assert(bytes@.subrange(0, 0) =~= Seq::<u8>::empty());
    assert(text@ =~= start + hex_list(bytes@.subrange(0, 0)));
    while i < bytes.len()
        invariant
            i <= bytes@.len(),
            text@ == start + hex_list(bytes@.subrange(0, i as int)),
        decreases bytes@.len() - i,
    {
        let ghost done = bytes@.subrange(0, i as int);
        let ghost next = bytes@.subrange(0, i + 1);
        if i > 0 {
            text.append(", ");
        }
        append_hex(text, bytes[i]);
        proof {
            assert(next.drop_last() =~= done);
            assert(next.last() == bytes@[i as int]);
            if i == 0 {
                assert(text@ =~= start + hex_list(next));
            } else {
                assert(text@ =~= start + (hex_list(done) + ", "@ + hex(bytes@[i as int])));
            }
        }
        i += 1;
    }
    assert(bytes@.subrange(0, bytes@.len() as int) =~= bytes@);
}

} // verus!
