//! Base64 text in the standard alphabet (`A`–`Z`, `a`–`z`, `0`–`9`, `+`,
//! `/`), padded with `=`, as aria2 takes the contents of a torrent file.
use vstd::prelude::*;

verus! {

/// The symbol of the standard alphabet for a six-bit value.
pub open spec fn base64_symbol(v: int) -> char {
    if v < 26 {
        (65 + v) as char
    } else if v < 52 {
        (97 + (v - 26)) as char
    } else if v < 62 {
        (48 + (v - 52)) as char
    } else if v == 62 {
        '+'
    } else {
        '/'
    }
}

/// The base64 text of some bytes: every three bytes become four symbols,
/// most significant bits first; a last one or two bytes become two or
/// three symbols, the missing bits zero, and `=` fills up the group of four.
pub open spec fn base64_standard(bytes: Seq<u8>) -> Seq<char>
    decreases bytes.len(),
{
    if bytes.len() == 0 {
        Seq::empty()
    } else if bytes.len() == 1 {
        let b0 = bytes[0] as int;
        seq![base64_symbol(b0 / 4), base64_symbol((b0 % 4) * 16), '=', '=']
    } else if bytes.len() == 2 {
        let b0 = bytes[0] as int;
        let b1 = bytes[1] as int;
        seq![
            base64_symbol(b0 / 4),
            base64_symbol((b0 % 4) * 16 + b1 / 16),
            base64_symbol((b1 % 16) * 4),
            '=',
        ]
    } else {
        let b0 = bytes[0] as int;
        let b1 = bytes[1] as int;
        let b2 = bytes[2] as int;
        seq![
            base64_symbol(b0 / 4),
            base64_symbol((b0 % 4) * 16 + b1 / 16),
            base64_symbol((b1 % 16) * 4 + b2 / 64),
            base64_symbol(b2 % 64),
        ] + base64_standard(bytes.subrange(3, bytes.len() as int))
    }
}

/// The six-bit value of a symbol of the standard alphabet.
pub open spec fn base64_value(c: char) -> Option<int> {
    let n = c as int;
    if 65 <= n <= 90 {
        Some(n - 65)
    } else if 97 <= n <= 122 {
        Some(n - 71)
    } else if 48 <= n <= 57 {
        Some(n + 4)
    } else if c == '+' {
        Some(62)
    } else if c == '/' {
        Some(63)
    } else {
        None
    }
}

/// The bytes that a base64 text stands for: nothing when it is not a
/// padded text of the standard alphabet, or when a padded group carries
/// bits beyond its last byte.
pub open spec fn base64_decode(text: Seq<char>) -> Option<Seq<u8>>
    decreases text.len(),
{
    if text.len() == 0 {
        Some(Seq::empty())
    } else if text.len() < 4 {
        None
    } else {
        match (base64_value(text[0]), base64_value(text[1])) {
            (Some(v0), Some(v1)) => if text.len() == 4 && text[2] == '=' && text[3] == '=' {
                if v1 % 16 == 0 {
                    Some(seq![(v0 * 4 + v1 / 16) as u8])
                } else {
                    None
                }
            } else {
                match base64_value(text[2]) {
                    Some(v2) => if text.len() == 4 && text[3] == '=' {
                        if v2 % 4 == 0 {
                            Some(seq![(v0 * 4 + v1 / 16) as u8, ((v1 % 16) * 16 + v2 / 4) as u8])
                        } else {
                            None
                        }
                    } else {
                        match (base64_value(text[3]), base64_decode(
                            text.subrange(4, text.len() as int),
                        )) {
                            (Some(v3), Some(rest)) => Some(
                                seq![
                                    (v0 * 4 + v1 / 16) as u8,
                                    ((v1 % 16) * 16 + v2 / 4) as u8,
                                    ((v2 % 4) * 64 + v3) as u8,
                                ] + rest,
                            ),
                            _ => None,
                        }
                    },
                    None => None,
                }
            },
            _ => None,
        }
    }
}

/// Every six-bit value has a symbol, and the symbol gives the value back.
pub proof fn lemma_symbol_value(v: int)
    requires
        0 <= v < 64,
    ensures
        base64_value(base64_symbol(v)) == Some(v),
        base64_symbol(v) != '=',
{
    if v < 26 {
        assert(((65 + v) as char) as int == 65 + v);
    } else if v < 52 {
        assert(((97 + (v - 26)) as char) as int == 97 + (v - 26));
    } else if v < 62 {
        assert(((48 + (v - 52)) as char) as int == 48 + (v - 52));
    }
}

/// Three bytes come back from their four six-bit values.
proof fn lemma_three_bytes(b0: int, b1: int, b2: int)
    requires
        0 <= b0 < 256,
        0 <= b1 < 256,
        0 <= b2 < 256,
    ensures
        0 <= b0 / 4 < 64,
        0 <= (b0 % 4) * 16 + b1 / 16 < 64,
        0 <= (b1 % 16) * 4 + b2 / 64 < 64,
        0 <= b2 % 64 < 64,
        (b0 / 4) * 4 + ((b0 % 4) * 16 + b1 / 16) / 16 == b0,
        (((b0 % 4) * 16 + b1 / 16) % 16) * 16 + ((b1 % 16) * 4 + b2 / 64) / 4 == b1,
        (((b1 % 16) * 4 + b2 / 64) % 4) * 64 + b2 % 64 == b2,
        ((b0 % 4) * 16) % 16 == 0,
        ((b1 % 16) * 4) % 4 == 0,
{
    assert(0 <= (b0 % 4) * 16 + b1 / 16 < 64) by (nonlinear_arith)
        requires 0 <= b0 < 256, 0 <= b1 < 256;
    assert(0 <= (b1 % 16) * 4 + b2 / 64 < 64) by (nonlinear_arith)
        requires 0 <= b1 < 256, 0 <= b2 < 256;
    assert((b0 / 4) * 4 + ((b0 % 4) * 16 + b1 / 16) / 16 == b0) by (nonlinear_arith)
        requires 0 <= b0 < 256, 0 <= b1 < 256;
    assert((((b0 % 4) * 16 + b1 / 16) % 16) * 16 + ((b1 % 16) * 4 + b2 / 64) / 4 == b1)
        by (nonlinear_arith)
        requires 0 <= b0 < 256, 0 <= b1 < 256, 0 <= b2 < 256;
    assert((((b1 % 16) * 4 + b2 / 64) % 4) * 64 + b2 % 64 == b2) by (nonlinear_arith)
        requires 0 <= b1 < 256, 0 <= b2 < 256;
    assert(((b0 % 4) * 16) % 16 == 0) by (nonlinear_arith)
        requires 0 <= b0 < 256;
    assert(((b1 % 16) * 4) % 4 == 0) by (nonlinear_arith)
        requires 0 <= b1 < 256;
}

/// Decoding the base64 text of some bytes gives back those bytes.
pub proof fn lemma_base64_round_trip(bytes: Seq<u8>)
    ensures
        base64_decode(base64_standard(bytes)) == Some(bytes),
    decreases bytes.len(),
{
    let text = base64_standard(bytes);
    if bytes.len() == 0 {
    } else {
        let b0 = bytes[0] as int;
        let b1: int = if bytes.len() > 1 { bytes[1] as int } else { 0 };
        let b2: int = if bytes.len() > 2 { bytes[2] as int } else { 0 };
        lemma_three_bytes(b0, b1, b2);
        lemma_symbol_value(b0 / 4);
        lemma_symbol_value((b0 % 4) * 16 + b1 / 16);
        lemma_symbol_value((b1 % 16) * 4 + b2 / 64);
        lemma_symbol_value(b2 % 64);
        if bytes.len() == 1 {
            lemma_three_bytes(b0, 0, 0);
            lemma_symbol_value((b0 % 4) * 16);
            assert(seq![(b0 / 4 * 4 + ((b0 % 4) * 16) / 16) as u8] =~= bytes);
        } else if bytes.len() == 2 {
            lemma_three_bytes(b0, b1, 0);
            lemma_symbol_value((b1 % 16) * 4);
            assert(seq![
                ((b0 / 4) * 4 + ((b0 % 4) * 16 + b1 / 16) / 16) as u8,
                ((((b0 % 4) * 16 + b1 / 16) % 16) * 16 + ((b1 % 16) * 4) / 4) as u8,
            ] =~= bytes);
        } else {
            let rest = bytes.subrange(3, bytes.len() as int);
            lemma_base64_round_trip(rest);
            assert(text.subrange(4, text.len() as int) =~= base64_standard(rest));
            let head = seq![b0 as u8, b1 as u8, b2 as u8];
            assert(head + rest =~= bytes);
        }
    }
}

} // verus!
