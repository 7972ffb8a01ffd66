//! Display text for decoded values: decimal for the numeric kinds, a
//! four-digit hex pattern for a bitfield. A float value has no text here:
//! its bit pattern only becomes a number in the presentation layer.

use vstd::prelude::*;

verus! {

use crate::datapoint::DataValue;
use vstd::string::StringExecFns;

/// The character for one decimal digit.
pub open spec fn digit_char(d: nat) -> char {
    if d == 0 {
        '0'
    } else if d == 1 {
        '1'
    } else if d == 2 {
        '2'
    } else if d == 3 {
        '3'
    } else if d == 4 {
        '4'
    } else if d == 5 {
        '5'
    } else if d == 6 {
        '6'
    } else if d == 7 {
        '7'
    } else if d == 8 {
        '8'
    } else {
        '9'
    }
}

/// The character for one upper-case hexadecimal digit.
pub open spec fn hex_digit_char(d: nat) -> char {
    if d < 10 {
        digit_char(d)
    } else if d == 10 {
        'A'
    } else if d == 11 {
        'B'
    } else if d == 12 {
        'C'
    } else if d == 13 {
        'D'
    } else if d == 14 {
        'E'
    } else {
        'F'
    }
}

/// Decimal text of a natural number, most significant digit first, no
/// leading zeros.
pub open spec fn dec_str(n: nat) -> Seq<char>
    decreases n,
{
    if n < 10 {
        seq![digit_char(n)]
    } else {
        dec_str(n / 10).push(digit_char(n % 10))
    }
}

/// Decimal text of an integer, with a leading minus when negative.
pub open spec fn dec_str_signed(v: int) -> Seq<char> {
    if v < 0 {
        seq!['-'] + dec_str((-v) as nat)
    } else {
        dec_str(v as nat)
    }
}

/// The "0x"-prefixed, four-digit, upper-case hex text of a 16-bit pattern.
pub open spec fn hex4_str(v: u16) -> Seq<char> {
    seq![
        '0',
        'x',
        hex_digit_char(((v >> 12) & 0xF) as nat),
        hex_digit_char(((v >> 8) & 0xF) as nat),
        hex_digit_char(((v >> 4) & 0xF) as nat),
        hex_digit_char((v & 0xF) as nat),
    ]
}

/// The display text each kind of value calls for; a float has none here.
pub open spec fn display_spec(v: DataValue) -> Option<Seq<char>> {
    match v {
        DataValue::U16(x) => Some(dec_str(x as nat)),
        DataValue::I16(x) => Some(dec_str_signed(x as int)),
        DataValue::U32(x) => Some(dec_str(x as nat)),
        DataValue::I32(x) => Some(dec_str_signed(x as int)),
        DataValue::F32(_) => None,
        DataValue::Bitfield(x) => Some(hex4_str(x)),
    }
}

/// The one-character text for a decimal digit.
fn digit_str(d: u32) -> (r: &'static str)
    requires
        d < 10,
    ensures
        r@ == seq![digit_char(d as nat)],
{
    if d == 0 {
        proof {
            reveal_strlit("0");
            assert("0"@ =~= seq![digit_char(0)]);
        }
        "0"
    } else if d == 1 {
        proof {
            reveal_strlit("1");
            assert("1"@ =~= seq![digit_char(1)]);
        }
        "1"
    } else if d == 2 {
        proof {
            reveal_strlit("2");
            assert("2"@ =~= seq![digit_char(2)]);
        }
        "2"
    } else if d == 3 {
        proof {
            reveal_strlit("3");
            assert("3"@ =~= seq![digit_char(3)]);
        }
        "3"
    } else if d == 4 {
        proof {
            reveal_strlit("4");
            assert("4"@ =~= seq![digit_char(4)]);
        }
        "4"
    } else if d == 5 {
        proof {
            reveal_strlit("5");
            assert("5"@ =~= seq![digit_char(5)]);
        }
        "5"
    } else if d == 6 {
        proof {
            reveal_strlit("6");
            assert("6"@ =~= seq![digit_char(6)]);
        }
        "6"
    } else if d == 7 {
        proof {
            reveal_strlit("7");
            assert("7"@ =~= seq![digit_char(7)]);
        }
        "7"
    } else if d == 8 {
        proof {
            reveal_strlit("8");
            assert("8"@ =~= seq![digit_char(8)]);
        }
        "8"
    } else {
        proof {
            reveal_strlit("9");
            assert("9"@ =~= seq![digit_char(9)]);
        }
        "9"
    }
}

/// The one-character text for an upper-case hex digit.
fn hex_digit_str(d: u16) -> (r: &'static str)
    requires
        d < 16,
    ensures
        r@ == seq![hex_digit_char(d as nat)],
{
    if d < 10 {
        digit_str(d as u32)
    } else if d == 10 {
        proof {
            reveal_strlit("A");
            assert("A"@ =~= seq![hex_digit_char(10)]);
        }
        "A"
    } else if d == 11 {
        proof {
            reveal_strlit("B");
            assert("B"@ =~= seq![hex_digit_char(11)]);
        }
        "B"
    } else if d == 12 {
        proof {
            reveal_strlit("C");
            assert("C"@ =~= seq![hex_digit_char(12)]);
        }
        "C"
    } else if d == 13 {
        proof {
            reveal_strlit("D");
            assert("D"@ =~= seq![hex_digit_char(13)]);
        }
        "D"
    } else if d == 14 {
        proof {
            reveal_strlit("E");
            assert("E"@ =~= seq![hex_digit_char(14)]);
        }
        "E"
    } else {
        proof {
            reveal_strlit("F");
            assert("F"@ =~= seq![hex_digit_char(15)]);
        }
        "F"
    }
}

/// Append the decimal text of `n`.
fn push_dec_u32(s: &mut String, n: u32)
    ensures
        final(s)@ == old(s)@ + dec_str(n as nat),
    decreases n,
{
    if n < 10 {
        s.append(digit_str(n));
        proof {
            assert(s@ =~= old(s)@ + dec_str(n as nat));
        }
    } else {
        proof {
            assert(n / 10 < n) by (nonlinear_arith)
                requires
                    n >= 10,
            ;
        }
        push_dec_u32(s, n / 10);
        s.append(digit_str(n % 10));
        proof {
            assert(dec_str(n as nat) == dec_str(n as nat / 10).push(digit_char(n as nat % 10)));
            assert(s@ =~= old(s)@ + dec_str(n as nat));
        }
    }
}

impl DataValue {
    /// Build the display text of this value: decimal for the numeric
    /// kinds, the hex pattern for a bitfield, nothing for a float.
    pub fn display_text(&self) -> (r: Option<String>)
        ensures
            r is Some <==> !(self is F32),
            r matches Some(s) ==> Some(s@) == display_spec(*self),
    {
        match self {
            DataValue::U16(x) => {
                let mut s = String::new();
                push_dec_u32(&mut s, *x as u32);
                Some(s)
            },
            DataValue::I16(x) => {
                let mut s = String::new();
                if *x < 0 {
                    proof {
                        reveal_strlit("-");
                        assert("-"@ =~= seq!['-']);
                    }
                    s.append("-");
                    let m = -(*x as i32);
                    push_dec_u32(&mut s, m as u32);
                    proof {
                        assert(s@ =~= dec_str_signed(*x as int));
                    }
                } else {
                    push_dec_u32(&mut s, *x as u32);
                }
                Some(s)
            },
            DataValue::U32(x) => {
                let mut s = String::new();
                push_dec_u32(&mut s, *x);
                Some(s)
            },
            DataValue::I32(x) => {
                let mut s = String::new();
                if *x < 0 {
                    proof {
                        reveal_strlit("-");
                        assert("-"@ =~= seq!['-']);
                    }
                    s.append("-");
                    let m = -(*x as i64);
                    push_dec_u32(&mut s, m as u32);
                    proof {
                        assert(s@ =~= dec_str_signed(*x as int));
                    }
                } else {
                    push_dec_u32(&mut s, *x as u32);
                }
                Some(s)
            },
            DataValue::F32(_) => None,
            DataValue::Bitfield(x) => {
                let v = *x;
                let mut s = String::new();
                proof {
                    reveal_strlit("0x");
                    assert("0x"@ =~= seq!['0', 'x']);
                    assert((v >> 12) & 0xF < 16 && (v >> 8) & 0xF < 16 && (v >> 4) & 0xF < 16 && v
                        & 0xF < 16) by (bit_vector);
                }
                s.append("0x");
                s.append(hex_digit_str((v >> 12) & 0xF));
                s.append(hex_digit_str((v >> 8) & 0xF));
                s.append(hex_digit_str((v >> 4) & 0xF));
                s.append(hex_digit_str(v & 0xF));
                proof {
                    assert(s@ =~= hex4_str(v));
                }
                Some(s)
            },
        }
    }
}

} // verus!
