use vstd::prelude::*;

use crate::text::push_char;

verus! {

/// The character that stands for the 6-bit value `v` in the RFC 4648 base64 alphabet
/// `A-Z a-z 0-9 + /`.
pub open spec fn alphabet_char(v: int) -> char {
    if v < 26 {
        (v + 65) as char
    } else if v < 52 {
        (v - 26 + 97) as char
    } else if v < 62 {
        (v - 52 + 48) as char
    } else if v == 62 {
        '+'
    } else {
        '/'
    }
}

/// The four characters that encode the first (up to three) bytes of `data`: the 24 bits of the
/// group are cut into four 6-bit values, and a group of one or two bytes is padded with `=`.
pub open spec fn encode_group(data: Seq<u8>) -> Seq<char>
    recommends
        data.len() > 0,
{
    let b1 = data[0] as int;
    let b2 = if data.len() > 1 {
        data[1] as int
    } else {
        0
    };
    let b3 = if data.len() > 2 {
        data[2] as int
    } else {
        0
    };
    seq![
        alphabet_char(b1 / 4),
        alphabet_char((b1 % 4) * 16 + b2 / 16),
        if data.len() > 1 {
            alphabet_char((b2 % 16) * 4 + b3 / 64)
        } else {
            '='
        },
        if data.len() > 2 {
            alphabet_char(b3 % 64)
        } else {
            '='
        },
    ]
}

/// RFC 4648 base64 encoding of `data`, with padding, as one run of characters (before it is
/// cut into lines).
pub open spec fn base64(data: Seq<u8>) -> Seq<char>
    decreases data.len(),
{
    if data.len() == 0 {
        seq![]
    } else if data.len() <= 3 {
        encode_group(data)
    } else {
        encode_group(data) + base64(data.skip(3))
    }
}

/// Text cut into lines of 76 characters joined by `\r\n`; the last line holds the rest, and
/// no line break ends the text.
pub open spec fn wrap_lines(s: Seq<char>) -> Seq<char>
    decreases s.len(),
{
    if s.len() <= 76 {
        s
    } else {
        s.take(76) + "\r\n"@ + wrap_lines(s.skip(76))
    }
}

/// The base64 text of `data` in lines of 76 characters, as sent in GNTP packets.
pub open spec fn base64_lines(data: Seq<u8>) -> Seq<char> {
    wrap_lines(base64(data))
}

/// The 6-bit value that a base64 alphabet character stands for.
pub open spec fn alphabet_value(c: char) -> int {
    if 'A' <= c <= 'Z' {
        c as int - 65
    } else if 'a' <= c <= 'z' {
        c as int - 97 + 26
    } else if '0' <= c <= '9' {
        c as int - 48 + 52
    } else if c == '+' {
        62
    } else {
        63
    }
}

/// The bytes of one group of four base64 characters, padding taken off.
pub open spec fn decode_group(g: Seq<char>) -> Seq<u8> {
    let a = alphabet_value(g[0]);
    let b = alphabet_value(g[1]);
    let c = alphabet_value(g[2]);
    let d = alphabet_value(g[3]);
    let v1 = (a * 4 + b / 16) as u8;
    let v2 = ((b % 16) * 16 + c / 4) as u8;
    let v3 = ((c % 4) * 64 + d) as u8;
    if g[2] == '=' {
        seq![v1]
    } else if g[3] == '=' {
        seq![v1, v2]
    } else {
        seq![v1, v2, v3]
    }
}

/// RFC 4648 base64 decoding of a text made of whole groups of four characters.
pub open spec fn base64_decode(s: Seq<char>) -> Seq<u8>
    decreases s.len(),
{
    if s.len() < 4 {
        Seq::empty()
    } else {
        decode_group(s.take(4)) + base64_decode(s.skip(4))
    }
}

/// The base64 character of a 6-bit value.
fn alphabet_char_of(v: u8) -> (c: char)
    requires
        v < 64,
    ensures
        c == alphabet_char(v as int),
{
    if v < 26 {
        (v + 65) as char
    } else if v < 52 {
        (v - 26 + 97) as char
    } else if v < 62 {
        (v - 52 + 48) as char
    } else if v == 62 {
        '+'
    } else {
        '/'
    }
}

fn encode_chars(data: &[u8]) -> (r: Vec<char>)
    ensures
        r@ == base64(data@),
{
    let len = data.len();
    let mut result: Vec<char> = Vec::new();
    let mut i: usize = 0;
    assert(data@.skip(0) =~= data@);
    while i < len
        invariant
            len == data@.len(),
            i <= len,
            base64(data@) == result@ + base64(data@.skip(i as int)),
        decreases len - i,
    {
        let rest = len - i;
        let b1 = data[i];
        let b2 = if rest > 1 {
            data[i + 1]
        } else {
            0
        };
        let b3 = if rest > 2 {
            data[i + 2]
        } else {
            0
        };
        let ghost tail = data@.skip(i as int);
        result.push(alphabet_char_of(b1 / 4));
        result.push(alphabet_char_of((b1 % 4) * 16 + b2 / 16));
        if rest > 1 {
            result.push(alphabet_char_of((b2 % 16) * 4 + b3 / 64));
        } else {
            result.push('=');
        }
        if rest > 2 {
            result.push(alphabet_char_of(b3 % 64));
        } else {
            result.push('=');
        }
        if rest <= 3 {
            assert(data@.skip(len as int) =~= Seq::<u8>::empty());
            i = len;
        } else {
            assert(tail.skip(3) =~= data@.skip(i + 3));
            i = i + 3;
        }
    }
    result
}

proof fn lemma_wrap_push(s: Seq<char>, c: char)
    ensures
        wrap_lines(s.push(c)) == wrap_lines(s) + (if s.len() > 0 && s.len() % 76 == 0 {
            "\r\n"@
        } else {
            Seq::<char>::empty()
        }) + seq![c],
    decreases s.len(),
{
    if s.len() < 76 {
        assert(wrap_lines(s) + Seq::<char>::empty() + seq![c] =~= s.push(c));
    } else if s.len() == 76 {
        let p = s.push(c);
        assert(p.take(76) =~= s);
        assert(p.skip(76) =~= seq![c]);
        assert(wrap_lines(seq![c]) == seq![c]);
        assert(wrap_lines(p) =~= s + "\r\n"@ + seq![c]);
    } else {
        let p = s.push(c);
        lemma_wrap_push(s.skip(76), c);
        assert(p.take(76) =~= s.take(76));
        assert(p.skip(76) =~= s.skip(76).push(c));
        assert((s.len() - 76) % 76 == s.len() % 76);
        assert(wrap_lines(p) =~= wrap_lines(s) + (if s.len() % 76 == 0 {
            "\r\n"@
        } else {
            Seq::<char>::empty()
        }) + seq![c]);
    }
}

/// Cuts text into lines of 76 characters (see `wrap_lines`), and counts the characters.
fn wrap_chars(cs: &Vec<char>) -> (r: (String, u128))
    ensures
        r.0@ == wrap_lines(cs@),
        r.1 == r.0@.len(),
{
    let mut out = String::new();
    let mut count: u128 = 0;
    let mut i: usize = 0;
    assert(cs@.take(0) =~= Seq::<char>::empty());
    while i < cs.len()
        invariant
            i <= cs@.len(),
            out@ == wrap_lines(cs@.take(i as int)),
            count == out@.len(),
            count <= 3 * i,
        decreases cs@.len() - i,
    {
        proof {
            lemma_wrap_push(cs@.take(i as int), cs@[i as int]);
            assert(cs@.take(i + 1) =~= cs@.take(i as int).push(cs@[i as int]));
        }
        if i > 0 && i % 76 == 0 {
            push_char(&mut out, '\r');
            push_char(&mut out, '\n');
            count = count + 2;
            assert(out@ =~= wrap_lines(cs@.take(i as int)) + "\r\n"@) by {
                reveal_strlit("\r\n");
            }
        }
        push_char(&mut out, cs[i]);
        count = count + 1;
        i = i + 1;
    }
    assert(cs@.take(i as int) =~= cs@);
    (out, count)
}

/// Encodes bytes as base64 (RFC 4648, standard alphabet, `=` padding) in lines of 76
/// characters joined by `\r\n`, and gives the length of the text.
pub fn base64_encode_counted(data: &[u8]) -> (r: (String, u128))
    ensures
        r.0@ == base64_lines(data@),
        r.1 == base64_lines(data@).len(),
{
    let cs = encode_chars(data);
    wrap_chars(&cs)
}

/// Encodes bytes as base64 (RFC 4648, standard alphabet, `=` padding) in lines of 76
/// characters joined by `\r\n`.
pub fn base64_encode(data: &[u8]) -> (r: String)
    ensures
        r@ == base64_lines(data@),
{
    base64_encode_counted(data).0
}

} // verus!
