use vstd::prelude::*;

verus! {

/// The decimal digit character for `d`.
pub open spec fn digit_char(d: int) -> char {
    if d == 0 {
        '0'
    } else if d == 1 {
        '1'
    } else if d == 2 {
        '2'
    } else if d == 3 {
        '3'
    } else if d == 4 {
        '4'
    } else if d == 5 {
        '5'
    } else if d == 6 {
        '6'
    } else if d == 7 {
        '7'
    } else if d == 8 {
        '8'
    } else {
        '9'
    }
}

/// The decimal expansion of a nonnegative integer, most significant digit
/// first.
pub open spec fn dec_of(n: int) -> Seq<char>
    decreases n,
{
    if n < 10 {
        seq![digit_char(n)]
    } else {
        dec_of(n / 10) + seq![digit_char(n % 10)]
    }
}

/// The decimal expansion of a signed integer.
pub open spec fn dec_of_int(n: int) -> Seq<char> {
    if n < 0 {
        seq!['-'] + dec_of(-n)
    } else {
        dec_of(n)
    }
}

fn push_digit(s: &mut String, d: u32)
    requires
        d < 10,
    ensures
        final(s)@ == old(s)@ + seq![digit_char(d as int)],
{
    proof {
        reveal_strlit("0");
        reveal_strlit("1");
        reveal_strlit("2");
        reveal_strlit("3");
        reveal_strlit("4");
        reveal_strlit("5");
        reveal_strlit("6");
        reveal_strlit("7");
        reveal_strlit("8");
        reveal_strlit("9");
    }
    if d == 0 {
        s.append("0");
    } else if d == 1 {
        s.append("1");
    } else if d == 2 {
        s.append("2");
    } else if d == 3 {
        s.append("3");
    } else if d == 4 {
        s.append("4");
    } else if d == 5 {
        s.append("5");
    } else if d == 6 {
        s.append("6");
    } else if d == 7 {
        s.append("7");
    } else if d == 8 {
        s.append("8");
    } else {
        s.append("9");
    }
}

/// Append the decimal expansion of `n`.
pub fn push_u32(s: &mut String, n: u32)
    ensures
        final(s)@ == old(s)@ + dec_of(n as int),
    decreases n,
{
    if n >= 10 {
        push_u32(s, n / 10);
        push_digit(s, n % 10);
        proof {
            assert(s@ =~= old(s)@ + (dec_of(n as int / 10) + seq![digit_char(n as int % 10)]));
        }
    } else {
        push_digit(s, n);
    }
}

/// Append the decimal expansion of `n`, with a leading minus sign when
/// negative.
pub fn push_int(s: &mut String, n: i64)
    requires
        -0x1_0000_0000 < n < 0x1_0000_0000,
    ensures
        final(s)@ == old(s)@ + dec_of_int(n as int),
{
    if n < 0 {
        proof {
            reveal_strlit("-");
        }
        s.append("-");
        let ghost mid = s@;
        push_u32(s, (-n) as u32);
        proof {
            assert(s@ =~= old(s)@ + (seq!['-'] + dec_of(-n as int)));
        }
    } else {
        push_u32(s, n as u32);
    }
}

/// The hexadecimal digit character for `d`.
pub open spec fn hex_char(d: int) -> char {
    if d < 10 {
        digit_char(d)
    } else if d == 10 {
        'A'
    } else if d == 11 {
        'B'
    } else if d == 12 {
        'C'
    } else if d == 13 {
        'D'
    } else if d == 14 {
        'E'
    } else {
        'F'
    }
}

/// A byte as two uppercase hexadecimal digits.
pub open spec fn hex_of(b: int) -> Seq<char> {
    seq![hex_char(b / 16), hex_char(b % 16)]
}

fn push_hex_digit(s: &mut String, d: u32)
    requires
        d < 16,
    ensures
        final(s)@ == old(s)@ + seq![hex_char(d as int)],
{
    if d < 10 {
        push_digit(s, d);
    } else {
        proof {
            reveal_strlit("A");
            reveal_strlit("B");
            reveal_strlit("C");
            reveal_strlit("D");
            reveal_strlit("E");
            reveal_strlit("F");
        }
        if d == 10 {
            s.append("A");
        } else if d == 11 {
            s.append("B");
        } else if d == 12 {
            s.append("C");
        } else if d == 13 {
            s.append("D");
        } else if d == 14 {
            s.append("E");
        } else {
            s.append("F");
        }
    }
}

/// Append a byte as two uppercase hexadecimal digits.
pub fn push_hex_byte(s: &mut String, b: u8)
    ensures
        final(s)@ == old(s)@ + hex_of(b as int),
{
    push_hex_digit(s, (b as u32) / 16);
    push_hex_digit(s, (b as u32) % 16);
    proof {
        assert(s@ =~= old(s)@ + hex_of(b as int));
    }
}

/// The fill opacity for an alpha byte: "1" at full alpha, otherwise the
/// fraction alpha / 255 to six decimal places, truncated.
pub open spec fn opacity_of(a: int) -> Seq<char> {
    if a == 255 {
        seq!['1']
    } else {
        seq!['0', '.'] + frac6_of(a * 1000000 / 255)
    }
}

/// Six zero-padded decimal digits of a fraction numerator below one
/// million.
pub open spec fn frac6_of(f: int) -> Seq<char> {
    seq![
        digit_char(f / 100000 % 10),
        digit_char(f / 10000 % 10),
        digit_char(f / 1000 % 10),
        digit_char(f / 100 % 10),
        digit_char(f / 10 % 10),
        digit_char(f % 10),
    ]
}

/// The string with every occurrence of "fill" from position `i` on
/// replaced by "stroke".
pub open spec fn replace_fill_spec(s: Seq<char>, i: int) -> Seq<char>
    decreases s.len() - i,
{
    if i < 0 || i >= s.len() {
        Seq::empty()
    } else if i + 4 <= s.len() && s[i] == 'f' && s[i + 1] == 'i' && s[i + 2] == 'l' && s[i + 3]
        == 'l' {
        "stroke"@ + replace_fill_spec(s, i + 4)
    } else {
        seq![s[i]] + replace_fill_spec(s, i + 1)
    }
}

/// Replace every occurrence of "fill" in `attr` by "stroke", as the
/// stroked shapes need for their attribute string.
pub fn replace_fill(attr: &str) -> (r: String)
    ensures
        r@ == replace_fill_spec(attr@, 0),
{
    let n = attr.unicode_len();
    let mut out = String::from_str("");
    proof {
        reveal_strlit("");
        reveal_strlit("stroke");
        reveal_strlit("f");
        reveal_strlit("i");
        reveal_strlit("l");
    }
    let mut i: usize = 0;
    let mut seg_start: usize = 0;
    while i < n
        invariant
            seg_start <= i <= n == attr@.len(),
            out@ + attr@.subrange(seg_start as int, i as int) + replace_fill_spec(
                attr@,
                i as int,
            ) == replace_fill_spec(attr@, 0),
        decreases n - i,
    {
        if n - i >= 4 && attr.get_char(i) == 'f' && attr.get_char(i + 1) == 'i' && attr.get_char(
            i + 2,
        ) == 'l' && attr.get_char(i + 3) == 'l' {
            let seg = attr.substring_char(seg_start, i);
            out.append(seg);
            out.append("stroke");
            proof {
                assert(out@ + attr@.subrange(i + 4, i + 4) + replace_fill_spec(attr@, i + 4)
                    =~= replace_fill_spec(attr@, 0));
            }
            i += 4;
            seg_start = i;
        } else {
            i += 1;
            proof {
                assert(out@ + attr@.subrange(seg_start as int, i as int) + replace_fill_spec(
                    attr@,
                    i as int,
                ) =~= replace_fill_spec(attr@, 0));
            }
        }
    }
    let seg = attr.substring_char(seg_start, n);
    out.append(seg);
    proof {
        assert(out@ =~= replace_fill_spec(attr@, 0));
    }
    out
}

/// Append the fill opacity for alpha `a`.
pub fn push_opacity(s: &mut String, a: u8)
    ensures
        final(s)@ == old(s)@ + opacity_of(a as int),
{
    if a == 255 {
        push_digit(s, 1);
    } else {
        proof {
            reveal_strlit(".");
        }
        push_digit(s, 0);
        s.append(".");
        let f: u32 = (a as u32) * 1000000 / 255;
        push_digit(s, f / 100000 % 10);
        push_digit(s, f / 10000 % 10);
        push_digit(s, f / 1000 % 10);
        push_digit(s, f / 100 % 10);
        push_digit(s, f / 10 % 10);
        push_digit(s, f % 10);
        proof {
            assert(s@ =~= old(s)@ + opacity_of(a as int));
        }
    }
}

} // verus!
