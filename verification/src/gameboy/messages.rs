use vstd::prelude::*;

verus! {

/// The upper-case hexadecimal digit for a value below 16.
pub open spec fn hex_digit(d: nat) -> char {
    if d < 10 {
        (48 + d) as char
    } else {
        (55 + d) as char
    }
}

/// The upper-case hexadecimal digits of `n`, without leading zeros
/// (`0` for zero).
pub open spec fn hex_digits(n: nat) -> Seq<char>
    decreases n,
{
    if n < 16 {
        seq![hex_digit(n)]
    } else {
        hex_digits(n / 16).push(hex_digit(n % 16))
    }
}

/// `n` as the `{:#X}` format writes it: `0x` and then its upper-case
/// hexadecimal digits.
pub open spec fn alt_hex(n: nat) -> Seq<char> {
    seq!['0', 'x'] + hex_digits(n)
}

/// The decimal digits of `n`, without leading zeros (`0` for zero).
pub open spec fn dec_digits(n: nat) -> Seq<char>
    decreases n,
{
    if n < 10 {
        seq![(48 + n) as char]
    } else {
        dec_digits(n / 10).push((48 + n % 10) as char)
    }
}

/// `n` as the `{}` format writes an integer: a minus sign where it is
/// negative, then its decimal digits.
pub open spec fn dec_text(n: int) -> Seq<char> {
    if n < 0 {
        seq!['-'] + dec_digits((-n) as nat)
    } else {
        dec_digits(n as nat)
    }
}

/// `s` padded on the right with spaces to `width` characters, as the
/// `{:<width$}` format writes a string; a longer string is left whole.
pub open spec fn padded(s: Seq<char>, width: nat) -> Seq<char> {
    if s.len() >= width {
        s
    } else {
        s + Seq::new((width - s.len()) as nat, |i: int| ' ')
    }
}

/// Padding keeps the string at the front, fills with spaces up to the
/// width, and never shortens: the result is as long as the longer of the
/// string and the width.
pub proof fn lemma_padded(s: Seq<char>, width: nat)
    ensures
        padded(s, width).len() == if s.len() >= width { s.len() } else { width },
        padded(s, width).take(s.len() as int) == s,
        forall|i: int| s.len() <= i < width ==> #[trigger] padded(s, width)[i] == ' ',
{
    assert(padded(s, width).take(s.len() as int) =~= s);
}

/// The value of a hexadecimal digit character: `0`-`9` and `A`-`F`.
pub open spec fn hex_digit_value(c: char) -> int {
    if '0' <= c && c <= '9' {
        c as int - '0' as int
    } else {
        c as int - 'A' as int + 10
    }
}

/// The number a string of hexadecimal digits stands for.
pub open spec fn hex_number(digits: Seq<char>) -> int
    decreases digits.len(),
{
    if digits.len() == 0 {
        0
    } else {
        hex_number(digits.drop_last()) * 16 + hex_digit_value(digits.last())
    }
}

/// The value of a decimal digit character.
pub open spec fn dec_number(digits: Seq<char>) -> int
    decreases digits.len(),
{
    if digits.len() == 0 {
        0
    } else {
        dec_number(digits.drop_last()) * 10 + (digits.last() as int - '0' as int)
    }
}

/// The hexadecimal digits of `n` are upper-case digits (`0`-`9`, `A`-`F`),
/// with no leading zero but for zero itself, and read back as `n`.
pub proof fn lemma_hex_digits_read_back(n: nat)
    ensures
        hex_number(hex_digits(n)) == n,
        hex_digits(n).len() >= 1,
        n > 0 ==> hex_digits(n)[0] != '0',
        forall|i: int|
            0 <= i < hex_digits(n).len() ==> ('0' <= #[trigger] hex_digits(n)[i] <= '9') || ('A'
                <= hex_digits(n)[i] <= 'F'),
    decreases n,
{
    let v = n % 16;
    if v < 10 {
        assert(((48 + v) as char) as int == 48 + v);
    } else {
        assert(((55 + v) as char) as int == 55 + v);
    }
    assert(hex_digit_value(hex_digit(v)) == v);
    let d = hex_digits(n);
    if n >= 16 {
        lemma_hex_digits_read_back(n / 16);
        assert(d.drop_last() =~= hex_digits(n / 16));
        assert(d.last() == hex_digit(v));
        assert(d[0] == hex_digits(n / 16)[0]);
        assert(hex_number(d) == hex_number(hex_digits(n / 16)) * 16 + v);
        assert(n == (n / 16) * 16 + v);
    } else {
        assert(d.drop_last() =~= Seq::<char>::empty());
        assert(d.last() == hex_digit(v));
        assert(hex_number(d) == hex_number(Seq::<char>::empty()) * 16 + v);
    }
}

/// The decimal digits of `n` are `0`-`9`, with no leading zero but for
/// zero itself, and read back as `n`.
pub proof fn lemma_dec_digits_read_back(n: nat)
    ensures
        dec_number(dec_digits(n)) == n,
        dec_digits(n).len() >= 1,
        n > 0 ==> dec_digits(n)[0] != '0',
        forall|i: int| 0 <= i < dec_digits(n).len() ==> '0' <= #[trigger] dec_digits(n)[i] <= '9',
    decreases n,
{
    let v = n % 10;
    assert(((48 + v) as char) as int == 48 + v);
    let d = dec_digits(n);
    if n >= 10 {
        lemma_dec_digits_read_back(n / 10);
        assert(d.drop_last() =~= dec_digits(n / 10));
        assert(d.last() == (48 + v) as char);
        assert(d[0] == dec_digits(n / 10)[0]);
        assert(dec_number(d) == dec_number(dec_digits(n / 10)) * 10 + v);
        assert(n == (n / 10) * 10 + v);
    } else {
        assert(d.drop_last() =~= Seq::<char>::empty());
        assert(d.last() == (48 + v) as char);
        assert(dec_number(d) == dec_number(Seq::<char>::empty()) * 10 + v);
    }
}

/// The text of the error for an opcode byte that is not known, at `address`.
pub open spec fn unknown_command_text(code: u8, address: u16) -> Seq<char> {
    "Unknown command "@ + alt_hex(code as nat) + " at address: "@ + alt_hex(address as nat)
}

/// The text of the error for a byte after the 0xCB prefix that is not known.
pub open spec fn unknown_cb_command_text(code: u8) -> Seq<char> {
    "Unknown command 0xCB "@ + alt_hex(code as nat)
}

/// The one-character string of a hexadecimal digit below 16.
fn digit_str(d: u16) -> (s: &'static str)
    requires
        d < 16,
    ensures
        s@ == seq![hex_digit(d as nat)],
{
    match d {
        0 => {
            proof {
                reveal_strlit("0");
            }
            "0"
        },
        1 => {
            proof {
                reveal_strlit("1");
            }
            "1"
        },
        2 => {
            proof {
                reveal_strlit("2");
            }
            "2"
        },
        3 => {
            proof {
                reveal_strlit("3");
            }
            "3"
        },
        4 => {
            proof {
                reveal_strlit("4");
            }
            "4"
        },
        5 => {
            proof {
                reveal_strlit("5");
            }
            "5"
        },
        6 => {
            proof {
                reveal_strlit("6");
            }
            "6"
        },
        7 => {
            proof {
                reveal_strlit("7");
            }
            "7"
        },
        8 => {
            proof {
                reveal_strlit("8");
            }
            "8"
        },
        9 => {
            proof {
                reveal_strlit("9");
            }
            "9"
        },
        10 => {
            proof {
                reveal_strlit("A");
            }
            "A"
        },
        11 => {
            proof {
                reveal_strlit("B");
            }
            "B"
        },
        12 => {
            proof {
                reveal_strlit("C");
            }
            "C"
        },
        13 => {
            proof {
                reveal_strlit("D");
            }
            "D"
        },
        14 => {
            proof {
                reveal_strlit("E");
            }
            "E"
        },
        15 => {
            proof {
                reveal_strlit("F");
            }
            "F"
        },
        _ => {
            proof {
                reveal_strlit("F");
            }
            "F"
        },
    }
}

/// Appends the upper-case hexadecimal digits of `n`.
fn push_hex_digits(s: &mut String, n: u16)
    ensures
        final(s)@ == old(s)@ + hex_digits(n as nat),
    decreases n,
{
    if n >= 16 {
        push_hex_digits(s, n / 16);
    }
    s.append(digit_str(n % 16));
    proof {
        assert(final(s)@ =~= old(s)@ + hex_digits(n as nat));
    }
}

/// Appends the decimal digits of `n`.
fn push_dec_digits(s: &mut String, n: u16)
    ensures
        final(s)@ == old(s)@ + dec_digits(n as nat),
    decreases n,
{
    if n >= 10 {
        push_dec_digits(s, n / 10);
    }
    s.append(digit_str(n % 10));
    proof {
        assert(final(s)@ =~= old(s)@ + dec_digits(n as nat));
    }
}

/// Appends `n` written as `{:#X}` writes it.
fn push_hex(s: &mut String, n: u16)
    ensures
        final(s)@ == old(s)@ + alt_hex(n as nat),
{
    s.append("0x");
    proof {
        reveal_strlit("0x");
        assert("0x"@ =~= seq!['0', 'x']);
    }
    push_hex_digits(s, n);
    proof {
        assert(final(s)@ =~= old(s)@ + alt_hex(n as nat));
    }
}

/// The error for an opcode byte that is not known, at `address`.
pub(crate) fn unknown_command_message(code: u8, address: u16) -> (s: String)
    ensures
        s@ == unknown_command_text(code, address),
{
    let mut s = String::from_str("Unknown command ");
    push_hex(&mut s, code as u16);
    s.append(" at address: ");
    push_hex(&mut s, address);
    s
}

/// The error for an unknown byte after the 0xCB prefix.
pub(crate) fn unknown_cb_command_message(code: u8) -> (s: String)
    ensures
        s@ == unknown_cb_command_text(code),
{
    let mut s = String::from_str("Unknown command 0xCB ");
    push_hex(&mut s, code as u16);
    s
}

/// The error for an operand name that is not known.
pub(crate) fn unknown_argument_message(name: &str) -> (s: String)
    ensures
        s@ == "Unknown argument: "@ + name@,
{
    let mut s = String::from_str("Unknown argument: ");
    s.append(name);
    s
}

/// An integer as `{}` writes it: a minus sign where it is negative, then
/// its decimal digits.
pub(crate) fn decimal_text(n: i16) -> (s: String)
    ensures
        s@ == dec_text(n as int),
{
    let mut s = String::new();
    if n < 0 {
        s.append("-");
        proof {
            reveal_strlit("-");
            assert("-"@ =~= seq!['-']);
        }
        push_dec_digits(&mut s, (-(n as i32)) as u16);
    } else {
        push_dec_digits(&mut s, n as u16);
    }
    s
}

/// An integer as `{:#X}` writes it: `0x` and then its upper-case
/// hexadecimal digits.
pub(crate) fn hex_text(n: u16) -> (s: String)
    ensures
        s@ == alt_hex(n as nat),
{
    let mut s = String::new();
    push_hex(&mut s, n);
    proof {
        assert(s@ =~= alt_hex(n as nat));
    }
    s
}

/// A display row: the name padded on the right with spaces to 8
/// characters, then ` : ` and the value.
pub(crate) fn row_text(name: &str, value: &str) -> (s: String)
    ensures
        s@ == padded(name@, 8) + " : "@ + value@,
{
    let mut s = String::from_str(name);
    let mut width = name.unicode_len();
    proof {
        reveal_strlit(" ");
        assert(" "@ =~= seq![' ']);
    }
    while width < 8
        invariant
            " "@ == seq![' '],
            width >= name@.len(),
            width <= 8 || width == name@.len(),
            s@ =~= name@ + Seq::new((width - name@.len()) as nat, |i: int| ' '),
        decreases 8 - width,
    {
        s.append(" ");
        width = width + 1;
    }
    proof {
        assert(padded(name@, 8) =~= name@ + Seq::new((width - name@.len()) as nat, |i: int| ' '));
    }
    s.append(" : ");
    s.append(value);
    s
}

} // verus!
