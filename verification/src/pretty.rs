//! Rendering of a byte sequence as an annotated, field-colored hex dump.
//!
//! Every forwarded message is rendered for the logging sink: a bracketed,
//! comma-separated list of `0x`-prefixed uppercase hex bytes, each wrapped
//! in the ANSI color of the protocol field its offset falls in, followed
//! by the byte length of the bracketed text in parentheses. Rendering is
//! observation only: it reads the bytes and nothing else, tolerates any
//! length, and colors only the fields that exist.

use vstd::prelude::*;

verus! {

/// The uppercase hex digit character for a value below 16.
pub open spec fn hex_digit(v: u8) -> u8 {
    if v < 10 {
        (48 + v) as u8
    } else {
        (55 + v) as u8
    }
}

/// The four text bytes of one data byte: `0x` then two uppercase digits.
pub open spec fn hex_bytes(b: u8) -> Seq<u8> {
    seq![48u8, 120u8, hex_digit((b / 16) as u8), hex_digit((b % 16) as u8)]
}

/// The ANSI color digit for the byte at `idx` of a sequence of length
/// `len`, or `None` for an uncolored payload byte: header red (1),
/// address green (2), packet id yellow (3), length blue (4), confirmation
/// code cyan (6), and the final two bytes magenta (5) for the checksum.
/// The earlier field wins where a short sequence makes fields overlap.
pub open spec fn color_digit(idx: int, len: int) -> Option<u8> {
    if idx < 2 {
        Some(49u8)
    } else if idx < 6 {
        Some(50u8)
    } else if idx == 6 {
        Some(51u8)
    } else if idx < 9 {
        Some(52u8)
    } else if idx == 9 {
        Some(54u8)
    } else if idx >= len - 2 {
        Some(53u8)
    } else {
        None
    }
}

/// The escape sequence that opens the color of one entry, or empty.
pub open spec fn color_prefix(idx: int, len: int) -> Seq<u8> {
    match color_digit(idx, len) {
        Some(d) => seq![27u8, 91u8, 51u8, d, 109u8],
        None => Seq::<u8>::empty(),
    }
}

/// The escape sequence that resets the color, or empty where none opened.
pub open spec fn color_suffix(idx: int, len: int) -> Seq<u8> {
    match color_digit(idx, len) {
        Some(d) => seq![27u8, 91u8, 48u8, 109u8],
        None => Seq::<u8>::empty(),
    }
}

/// The text of entry `idx`: a separating comma and space after the first
/// entry, then the colored hex of the byte.
pub open spec fn spec_entry(bytes: Seq<u8>, idx: int) -> Seq<u8> {
    (if idx == 0 {
        Seq::<u8>::empty()
    } else {
        seq![44u8, 32u8]
    }) + color_prefix(idx, bytes.len() as int) + hex_bytes(bytes[idx]) + color_suffix(
        idx,
        bytes.len() as int,
    )
}

/// The first `n` entries of the dump, concatenated in order.
pub open spec fn spec_entries(bytes: Seq<u8>, n: int) -> Seq<u8>
    decreases n,
{
    if n <= 0 {
        Seq::<u8>::empty()
    } else {
        spec_entries(bytes, n - 1) + spec_entry(bytes, n - 1)
    }
}

/// The decimal digit characters of `n`, most significant first.
pub open spec fn dec_digits(n: nat) -> Seq<u8>
    decreases n,
{
    if n < 10 {
        seq![(48 + n) as u8]
    } else {
        dec_digits(n / 10).push((48 + n % 10) as u8)
    }
}

/// The whole annotated dump: the bracketed entry list, then a space and,
/// in parentheses, the decimal byte length of the bracketed text.
pub open spec fn spec_pretty(bytes: Seq<u8>) -> Seq<u8> {
    let body = seq![91u8] + spec_entries(bytes, bytes.len() as int) + seq![93u8];
    body + seq![32u8, 40u8] + dec_digits(body.len()) + seq![41u8]
}

/// The uppercase hex digit character for a nibble.
pub fn hex_digit_of(v: u8) -> (r: u8)
    requires
        v < 16,
    ensures
        r == hex_digit(v),
{
    if v < 10 {
        48 + v
    } else {
        55 + v
    }
}

/// Appends the `0x`-prefixed uppercase hex text of one byte.
fn push_hex(out: &mut Vec<u8>, b: u8)
    ensures
        final(out)@ == old(out)@ + hex_bytes(b),
{
    out.push(48);
    out.push(120);
    out.push(hex_digit_of(b / 16));
    out.push(hex_digit_of(b % 16));
    proof {
        assert(out@ =~= old(out)@ + hex_bytes(b));
    }
}

/// Appends the decimal digits of `n`, most significant first.
fn push_dec(out: &mut Vec<u8>, n: usize)
    ensures
        final(out)@ == old(out)@ + dec_digits(n as nat),
    decreases n,
{
    if n < 10 {
        out.push(48 + (n as u8));
    } else {
        push_dec(out, n / 10);
        out.push(48 + ((n % 10) as u8));
        proof {
            assert(out@ =~= old(out)@ + dec_digits(n as nat));
        }
    }
}

/// The color digit of the entry at `idx`, as the specification gives it.
fn color_digit_of(idx: usize, len: usize) -> (r: Option<u8>)
    requires
        idx < len,
    ensures
        r == color_digit(idx as int, len as int),
{
    if idx < 2 {
        Some(49)
    } else if idx < 6 {
        Some(50)
    } else if idx == 6 {
        Some(51)
    } else if idx < 9 {
        Some(52)
    } else if idx == 9 {
        Some(54)
    } else if idx >= len - 2 {
        Some(53)
    } else {
        None
    }
}

/// Renders the bytes as the annotated hex dump text.
///
/// The text is a pure function of the bytes: rendering reads nothing else
/// and changes nothing, so repeated renderings of equal input are
/// byte-identical.
pub fn pretty_print(bytes: &[u8]) -> (r: Vec<u8>)
    ensures
        r@ == spec_pretty(bytes@),
{
    let mut out: Vec<u8> = Vec::new();
    out.push(91);
    let len = bytes.len();
    let mut i: usize = 0;
    while i < len
        invariant
            len == bytes@.len(),
            i <= len,
            out@ == seq![91u8] + spec_entries(bytes@, i as int),
        decreases len - i,
    {
        let ghost pre = out@;
        if i != 0 {
            out.push(44);
            out.push(32);
        }
        let c = color_digit_of(i, len);
        match c {
            Some(d) => {
                out.push(27);
                out.push(91);
                out.push(51);
                out.push(d);
                out.push(109);
            },
            None => {},
        }
        push_hex(&mut out, bytes[i]);
        match c {
            Some(_) => {
                out.push(27);
                out.push(91);
                out.push(48);
                out.push(109);
            },
            None => {},
        }
        proof {
            assert(out@ =~= pre + spec_entry(bytes@, i as int));
            assert(out@ =~= seq![91u8] + spec_entries(bytes@, i + 1));
        }
        i += 1;
    }
    out.push(93);
    let ghost body = seq![91u8] + spec_entries(bytes@, bytes@.len() as int) + seq![93u8];
    proof {
        assert(out@ =~= body);
    }
    let n = out.len();
    out.push(32);
    out.push(40);
    push_dec(&mut out, n);
    out.push(41);
    proof {
        assert(out@ =~= spec_pretty(bytes@));
    }
    out
}

/// Formatting is idempotent in the only sense an observation can be: the
/// text is a pure function of the input bytes, so texts rendered from
/// equal byte sequences are byte-identical, however often it is repeated.
pub proof fn lemma_pretty_deterministic(b1: Seq<u8>, b2: Seq<u8>)
    requires
        b1 == b2,
    ensures
        spec_pretty(b1) == spec_pretty(b2),
{
}

} // verus!
