//! ANSI-C quoting (`$'...'`) of arbitrary bytes, and the meaning a POSIX-style
//! shell such as bash gives to such a literal.

use vstd::prelude::*;
use crate::text::string_of;

verus! {

/// The lowercase hexadecimal digit for `n < 16`.
pub open spec fn hex_digit(n: int) -> char {
    if n < 10 {
        (n + 48) as char
    } else {
        (n + 87) as char
    }
}

/// The escape of one byte, as `std::ascii::escape_default` writes it: `\t`,
/// `\r`, `\n`, `\'`, `\"` and `\\` for those six bytes, other printable ASCII
/// as itself, and anything else as `\xHH`.
pub open spec fn byte_escape(b: u8) -> Seq<char> {
    if b == 9 {
        seq!['\\', 't']
    } else if b == 13 {
        seq!['\\', 'r']
    } else if b == 10 {
        seq!['\\', 'n']
    } else if b == 39 {
        seq!['\\', '\'']
    } else if b == 34 {
        seq!['\\', '"']
    } else if b == 92 {
        seq!['\\', '\\']
    } else if 0x20 <= b <= 0x7e {
        seq![b as char]
    } else {
        seq!['\\', 'x', hex_digit(b as int / 16), hex_digit(b as int % 16)]
    }
}

pub open spec fn escaped_bytes(b: Seq<u8>) -> Seq<char>
    decreases b.len(),
{
    if b.len() == 0 {
        seq![]
    } else {
        byte_escape(b[0]) + escaped_bytes(b.skip(1))
    }
}

/// The ANSI-C literal for a byte string.
pub open spec fn ansi_c_quoted(b: Seq<u8>) -> Seq<char> {
    seq!['$', '\''] + escaped_bytes(b) + seq!['\'']
}

/// The value of a hexadecimal digit, or -1.
pub open spec fn hex_value(c: char) -> int {
    if '0' <= c <= '9' {
        c as int - 48
    } else if 'a' <= c <= 'f' {
        c as int - 87
    } else if 'A' <= c <= 'F' {
        c as int - 55
    } else {
        -1
    }
}

/// The bytes that bash reads from the ASCII body of a `$'...'` literal: `\n`,
/// `\t`, `\r`, `\\`, `\'`, `\"` and `\xHH` are escapes, a backslash before
/// anything else stands for itself, and every other character for its code.
pub open spec fn ansi_c_body(s: Seq<char>) -> Seq<u8>
    decreases s.len(),
{
    if s.len() == 0 {
        seq![]
    } else if s[0] == '\\' && s.len() >= 2 {
        let e = s[1];
        if e == 'x' && s.len() >= 4 && hex_value(s[2]) >= 0 && hex_value(s[3]) >= 0 {
            seq![(hex_value(s[2]) * 16 + hex_value(s[3])) as u8] + ansi_c_body(s.skip(4))
        } else if e == 'n' {
            seq![10u8] + ansi_c_body(s.skip(2))
        } else if e == 't' {
            seq![9u8] + ansi_c_body(s.skip(2))
        } else if e == 'r' {
            seq![13u8] + ansi_c_body(s.skip(2))
        } else if e == '\\' || e == '\'' || e == '"' {
            seq![e as u8] + ansi_c_body(s.skip(2))
        } else {
            seq![92u8] + ansi_c_body(s.skip(1))
        }
    } else {
        seq![s[0] as u8] + ansi_c_body(s.skip(1))
    }
}

/// The bytes a `$'...'` word stands for, or `None` for a word of another shape.
pub open spec fn ansi_c_value(s: Seq<char>) -> Option<Seq<u8>> {
    if s.len() >= 3 && s[0] == '$' && s[1] == '\'' && s.last() == '\'' {
        Some(ansi_c_body(s.subrange(2, s.len() - 1)))
    } else {
        None
    }
}

proof fn lemma_escape_one(b: u8, r: Seq<char>)
    ensures
        ansi_c_body(byte_escape(b) + r) == seq![b] + ansi_c_body(r),
{
    let s = byte_escape(b) + r;
    let n = byte_escape(b).len() as int;
    assert(s.skip(n) =~= r);
    if 0x20 <= b <= 0x7e && b != 39 && b != 34 && b != 92 {
        assert(s[0] == b as char);
    } else if b == 9 || b == 13 || b == 10 || b == 39 || b == 34 || b == 92 {
        assert(s[0] == '\\');
        assert(s[1] == byte_escape(b)[1]);
    } else {
        assert(s[0] == '\\' && s[1] == 'x');
        assert(s[2] == hex_digit(b as int / 16));
        assert(s[3] == hex_digit(b as int % 16));
        assert(hex_value(s[2]) == b as int / 16);
        assert(hex_value(s[3]) == b as int % 16);
    }
}

proof fn lemma_escaped_decodes(b: Seq<u8>)
    ensures
        ansi_c_body(escaped_bytes(b)) == b,
    decreases b.len(),
{
    if b.len() > 0 {
        lemma_escaped_decodes(b.skip(1));
        lemma_escape_one(b[0], escaped_bytes(b.skip(1)));
        assert(seq![b[0]] + b.skip(1) =~= b);
    }
}

/// A shell that reads the ANSI-C literal of a byte string gets back exactly
/// those bytes, whether or not they are valid text.
pub proof fn lemma_ansi_c_round_trip(b: Seq<u8>)
    ensures
        ansi_c_value(ansi_c_quoted(b)) == Some(b),
{
    let s = ansi_c_quoted(b);
    assert(s.subrange(2, s.len() - 1) =~= escaped_bytes(b));
    lemma_escaped_decodes(b);
}

proof fn lemma_escaped_push(b: Seq<u8>, x: u8)
    ensures
        escaped_bytes(b.push(x)) == escaped_bytes(b) + byte_escape(x),
    decreases b.len(),
{
    if b.len() == 0 {
        assert(b.push(x).skip(1) =~= Seq::<u8>::empty());
        assert(b.push(x)[0] == x);
        assert(escaped_bytes(Seq::<u8>::empty()) == Seq::<char>::empty());
        assert(byte_escape(x) + Seq::<char>::empty() =~= byte_escape(x));
        assert(Seq::<char>::empty() + byte_escape(x) =~= byte_escape(x));
    } else {
        assert(b.push(x).skip(1) =~= b.skip(1).push(x));
        assert(b.push(x)[0] == b[0]);
        lemma_escaped_push(b.skip(1), x);
        assert(byte_escape(b[0]) + (escaped_bytes(b.skip(1)) + byte_escape(x))
            =~= (byte_escape(b[0]) + escaped_bytes(b.skip(1))) + byte_escape(x));
    }
}

fn hex_char(n: u8) -> (c: char)
    requires
        n < 16,
    ensures
        c == hex_digit(n as int),
{
    if n < 10 {
        (n + 48) as char
    } else {
        (n + 87) as char
    }
}

/// The ANSI-C (`$'...'`) literal of a byte string: every byte escaped as
/// `std::ascii::escape_default` escapes it, so that a path that is not valid
/// text survives a trip through the shell byte for byte.
pub fn bash_binary_quote(value: &[u8]) -> (r: String)
    ensures
        r@ == ansi_c_quoted(value@),
{
    let mut out: Vec<char> = vec!['$', '\''];
    let mut i: usize = 0;
    while i < value.len()
        invariant
            i <= value@.len(),
            out@ == seq!['$', '\''] + escaped_bytes(value@.take(i as int)),
        decreases value@.len() - i,
    {
        let b = value[i];
        let ghost before = out@;
        if b == 9 {
            out.push('\\');
            out.push('t');
        } else if b == 13 {
            out.push('\\');
            out.push('r');
        } else if b == 10 {
            out.push('\\');
            out.push('n');
        } else if b == 39 {
            out.push('\\');
            out.push('\'');
        } else if b == 34 {
            out.push('\\');
            out.push('"');
        } else if b == 92 {
            out.push('\\');
            out.push('\\');
        } else if 0x20 <= b && b <= 0x7e {
            out.push(b as char);
        } else {
            out.push('\\');
            out.push('x');
            out.push(hex_char(b / 16));
            out.push(hex_char(b % 16));
        }
        assert(out@ =~= before + byte_escape(b));
        assert(value@.take(i as int + 1) =~= value@.take(i as int).push(b));
        proof {
            lemma_escaped_push(value@.take(i as int), b);
        }
        i = i + 1;
    }
    assert(value@.take(i as int) =~= value@);
    out.push('\'');
    string_of(&out)
}

} // verus!
