//! Construction of the observability line emitted when a location resolves:
//! the location's name and its address at a fixed hexadecimal width.

use vstd::prelude::*;
use vstd::string::StringExecFns;

verus! {

/// The character standing for one hexadecimal digit.
pub open spec fn hex_digit(d: int) -> char {
    if d == 0 {
        '0'
    } else if d == 1 {
        '1'
    } else if d == 2 {
        '2'
    } else if d == 3 {
        '3'
    } else if d == 4 {
        '4'
    } else if d == 5 {
        '5'
    } else if d == 6 {
        '6'
    } else if d == 7 {
        '7'
    } else if d == 8 {
        '8'
    } else if d == 9 {
        '9'
    } else if d == 10 {
        'a'
    } else if d == 11 {
        'b'
    } else if d == 12 {
        'c'
    } else if d == 13 {
        'd'
    } else if d == 14 {
        'e'
    } else {
        'f'
    }
}

/// The `width` low hexadecimal digits of `v`, most significant first.
pub open spec fn hex_rep(v: int, width: nat) -> Seq<char>
    decreases width,
{
    if width == 0 {
        Seq::empty()
    } else {
        hex_rep(v / 16, (width - 1) as nat).push(hex_digit(v % 16))
    }
}

/// The full diagnostic line owed when the location named `name` resolved to
/// the absolute address `addr`.
pub open spec fn found_line_spec(name: Seq<char>, addr: int) -> Seq<char> {
    "found "@ + name + " at 0x"@ + hex_rep(addr, 16)
}

/// The digit characters of `digits` read back to front.
spec fn rev_digit_chars(digits: Seq<u8>) -> Seq<char> {
    Seq::new(digits.len(), |k: int| hex_digit(digits[digits.len() - 1 - k] as int))
}

/// Appends the character for the hexadecimal digit `d`.
fn append_hex_digit(s: &mut String, d: u8)
    requires
        d < 16,
    ensures
        final(s)@ == old(s)@.push(hex_digit(d as int)),
{
    match d {
        0 => {
            s.append("0");
            proof {
                reveal_strlit("0");
                assert(s@ =~= old(s)@.push(hex_digit(d as int)));
            }
        },
        1 => {
            s.append("1");
            proof {
                reveal_strlit("1");
                assert(s@ =~= old(s)@.push(hex_digit(d as int)));
            }
        },
        2 => {
            s.append("2");
            proof {
                reveal_strlit("2");
                assert(s@ =~= old(s)@.push(hex_digit(d as int)));
            }
        },
        3 => {
            s.append("3");
            proof {
                reveal_strlit("3");
                assert(s@ =~= old(s)@.push(hex_digit(d as int)));
            }
        },
        4 => {
            s.append("4");
            proof {
                reveal_strlit("4");
                assert(s@ =~= old(s)@.push(hex_digit(d as int)));
            }
        },
        5 => {
            s.append("5");
            proof {
                reveal_strlit("5");
                assert(s@ =~= old(s)@.push(hex_digit(d as int)));
            }
        },
        6 => {
            s.append("6");
            proof {
                reveal_strlit("6");
                assert(s@ =~= old(s)@.push(hex_digit(d as int)));
            }
        },
        7 => {
            s.append("7");
            proof {
                reveal_strlit("7");
                assert(s@ =~= old(s)@.push(hex_digit(d as int)));
            }
        },
        8 => {
            s.append("8");
            proof {
                reveal_strlit("8");
                assert(s@ =~= old(s)@.push(hex_digit(d as int)));
            }
        },
        9 => {
            s.append("9");
            proof {
                reveal_strlit("9");
                assert(s@ =~= old(s)@.push(hex_digit(d as int)));
            }
        },
        10 => {
            s.append("a");
            proof {
                reveal_strlit("a");
                assert(s@ =~= old(s)@.push(hex_digit(d as int)));
            }
        },
        11 => {
            s.append("b");
            proof {
                reveal_strlit("b");
                assert(s@ =~= old(s)@.push(hex_digit(d as int)));
            }
        },
        12 => {
            s.append("c");
            proof {
                reveal_strlit("c");
                assert(s@ =~= old(s)@.push(hex_digit(d as int)));
            }
        },
        13 => {
            s.append("d");
            proof {
                reveal_strlit("d");
                assert(s@ =~= old(s)@.push(hex_digit(d as int)));
            }
        },
        14 => {
            s.append("e");
            proof {
                reveal_strlit("e");
                assert(s@ =~= old(s)@.push(hex_digit(d as int)));
            }
        },
        _ => {
            s.append("f");
            proof {
                reveal_strlit("f");
                assert(s@ =~= old(s)@.push(hex_digit(d as int)));
            }
        },
    }
}

/// Appends the sixteen hexadecimal digits of `addr`, most significant first.
fn append_hex16(s: &mut String, addr: u64)
    ensures
        final(s)@ == old(s)@ + hex_rep(addr as int, 16),
{
    let mut digits: Vec<u8> = Vec::new();
    let mut v: u64 = addr;
    let mut i: usize = 0;
    while i < 16
        invariant
            0 <= i <= 16,
            digits@.len() == i,
            forall|k: int| 0 <= k < i ==> digits@[k] < 16,
            hex_rep(addr as int, 16) == hex_rep(v as int, (16 - i) as nat) + rev_digit_chars(
                digits@,
            ),
        decreases 16 - i,
    {
        let ghost pd = digits@;
        let ghost pv = v as int;
        let d = (v % 16) as u8;
        digits.push(d);
        v = v / 16;
        proof {
            assert(hex_rep(pv, (16 - i) as nat) == hex_rep(pv / 16, (15 - i) as nat).push(
                hex_digit(pv % 16),
            ));
            assert(rev_digit_chars(digits@) =~= seq![hex_digit(d as int)] + rev_digit_chars(pd));
            assert(hex_rep(pv, (16 - i) as nat) + rev_digit_chars(pd) =~= hex_rep(
                v as int,
                (15 - i) as nat,
            ) + rev_digit_chars(digits@));
        }
        i += 1;
    }
    proof {
        assert(hex_rep(addr as int, 16) =~= rev_digit_chars(digits@));
    }
    let mut k: usize = 0;
    while k < 16
        invariant
            0 <= k <= 16,
            digits@.len() == 16,
            forall|j: int| 0 <= j < 16 ==> digits@[j] < 16,
            hex_rep(addr as int, 16) == rev_digit_chars(digits@),
            s@ == old(s)@ + rev_digit_chars(digits@).subrange(0, k as int),
        decreases 16 - k,
    {
        let d = digits[15 - k];
        append_hex_digit(s, d);
        proof {
            assert(rev_digit_chars(digits@)[k as int] == hex_digit(digits@[15 - k] as int));
            assert(s@ =~= old(s)@ + rev_digit_chars(digits@).subrange(0, k + 1));
        }
        k += 1;
    }
    proof {
        assert(rev_digit_chars(digits@).subrange(0, 16) =~= rev_digit_chars(digits@));
    }
}

/// Builds the log line for the diagnostic sink: the location's name and the
/// address it resolved to, the address written as sixteen hexadecimal
/// digits so every line carries a fixed-width address field.
pub fn found_line(name: &str, addr: usize) -> (r: String)
    ensures
        r@ == found_line_spec(name@, addr as int),
{
    let mut line = String::new();
    line.append("found ");
    line.append(name);
    line.append(" at 0x");
    append_hex16(&mut line, addr as u64);
    proof {
        assert(line@ =~= found_line_spec(name@, addr as int));
    }
    line
}

} // verus!
