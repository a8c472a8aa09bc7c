//! Plain-text encodings used throughout the engine: decimal rendering of
//! counters (player handles, game links), the compact hex rendering of
//! encrypted key material, hex decoding of client access keys, and the JSON
//! array rendering of a public key.

use vstd::prelude::*;

verus! {

/// The character for a single decimal digit.
pub open spec fn dec_digit(d: nat) -> char {
    if d == 0 {
        '0'
    } else if d == 1 {
        '1'
    } else if d == 2 {
        '2'
    } else if d == 3 {
        '3'
    } else if d == 4 {
        '4'
    } else if d == 5 {
        '5'
    } else if d == 6 {
        '6'
    } else if d == 7 {
        '7'
    } else if d == 8 {
        '8'
    } else {
        '9'
    }
}

/// The decimal rendering of `n`, without leading zeroes (a lone `0` for 0).
pub open spec fn dec_digits(n: nat) -> Seq<char>
    decreases n,
{
    if n < 10 {
        seq![dec_digit(n)]
    } else {
        dec_digits(n / 10).push(dec_digit(n % 10))
    }
}

/// The character for a single lower-case hexadecimal digit.
pub open spec fn hex_digit(d: nat) -> char {
    if d < 10 {
        dec_digit(d)
    } else if d == 10 {
        'a'
    } else if d == 11 {
        'b'
    } else if d == 12 {
        'c'
    } else if d == 13 {
        'd'
    } else if d == 14 {
        'e'
    } else {
        'f'
    }
}

/// The compact (unpadded) lower-case hex rendering of one byte: one digit
/// below 16, two digits otherwise.
pub open spec fn byte_hex(b: nat) -> Seq<char> {
    if b < 16 {
        seq![hex_digit(b)]
    } else {
        seq![hex_digit(b / 16), hex_digit(b % 16)]
    }
}

/// The concatenation of the compact hex renderings of each byte in order.
pub open spec fn bytes_hex(s: Seq<u8>) -> Seq<char>
    decreases s.len(),
{
    if s.len() == 0 {
        Seq::<char>::empty()
    } else {
        bytes_hex(s.drop_last()) + byte_hex(s.last() as nat)
    }
}

/// Whether `c` is a hexadecimal digit (either case).
pub open spec fn is_hex_char(c: char) -> bool {
    (48 <= c as u32 <= 57) || (97 <= c as u32 <= 102) || (65 <= c as u32 <= 70)
}

/// The value of a hexadecimal digit character.
pub open spec fn hex_char_val(c: char) -> nat {
    if 48 <= c as u32 <= 57 {
        (c as u32 - 48) as nat
    } else if 97 <= c as u32 <= 102 {
        (c as u32 - 87) as nat
    } else {
        (c as u32 - 55) as nat
    }
}

/// Whether every character taking part in pairwise hex decoding is a hex
/// digit; a trailing unpaired character is ignored.
pub open spec fn hex_pairs_ok(s: Seq<char>) -> bool {
    forall|i: int| 0 <= i < 2 * (s.len() / 2) ==> is_hex_char(#[trigger] s[i])
}

/// The bytes obtained by reading `s` as consecutive two-digit hex pairs,
/// ignoring a trailing unpaired character.
pub open spec fn hex_decoded(s: Seq<char>) -> Seq<u8> {
    Seq::new((s.len() / 2) as nat, |i: int| (hex_char_val(s[2 * i]) * 16 + hex_char_val(s[2 * i + 1])) as u8)
}

/// The bytes of an ASCII character sequence, character by character.
pub open spec fn ascii_bytes(s: Seq<char>) -> Seq<u8> {
    Seq::new(s.len(), |i: int| s[i] as u8)
}

/// The JSON rendering of a byte sequence as an array of decimal numbers.
pub open spec fn json_u8s(s: Seq<u8>) -> Seq<char> {
    seq!['['] + json_u8_items(s) + seq![']']
}

/// The comma-separated decimal items inside the JSON array rendering.
pub open spec fn json_u8_items(s: Seq<u8>) -> Seq<char>
    decreases s.len(),
{
    if s.len() == 0 {
        Seq::<char>::empty()
    } else if s.len() == 1 {
        dec_digits(s[0] as nat)
    } else {
        json_u8_items(s.drop_last()) + seq![','] + dec_digits(s.last() as nat)
    }
}

/// Appends the single decimal digit `d` to `s`.
pub fn append_dec_digit(s: &mut String, d: u64)
    requires
        d < 10,
    ensures
        final(s)@ == old(s)@ + seq![dec_digit(d as nat)],
{
    if d == 0 {
        proof { reveal_strlit("0"); }
        s.append("0");
    } else if d == 1 {
        proof { reveal_strlit("1"); }
        s.append("1");
    } else if d == 2 {
        proof { reveal_strlit("2"); }
        s.append("2");
    } else if d == 3 {
        proof { reveal_strlit("3"); }
        s.append("3");
    } else if d == 4 {
        proof { reveal_strlit("4"); }
        s.append("4");
    } else if d == 5 {
        proof { reveal_strlit("5"); }
        s.append("5");
    } else if d == 6 {
        proof { reveal_strlit("6"); }
        s.append("6");
    } else if d == 7 {
        proof { reveal_strlit("7"); }
        s.append("7");
    } else if d == 8 {
        proof { reveal_strlit("8"); }
        s.append("8");
    } else {
        proof { reveal_strlit("9"); }
        s.append("9");
    }
    proof {
        assert(final(s)@ =~= old(s)@ + seq![dec_digit(d as nat)]);
    }
}

/// Appends the decimal rendering of `n` to `s`.
pub fn append_dec_u64(s: &mut String, n: u64)
    ensures
        final(s)@ == old(s)@ + dec_digits(n as nat),
    decreases n,
{
    if n >= 10 {
        append_dec_u64(s, n / 10);
        append_dec_digit(s, n % 10);
        proof {
            assert(final(s)@ =~= old(s)@ + dec_digits(n as nat));
        }
    } else {
        append_dec_digit(s, n);
    }
}

/// The decimal rendering of `n` as a fresh string.
pub fn dec_string(n: u64) -> (r: String)
    ensures
        r@ == dec_digits(n as nat),
{
    let mut s = String::new();
    append_dec_u64(&mut s, n);
    proof {
        assert(s@ =~= dec_digits(n as nat));
    }
    s
}

/// Appends the single lower-case hex digit `d` to `s`.
pub fn append_hex_digit(s: &mut String, d: u8)
    requires
        d < 16,
    ensures
        final(s)@ == old(s)@ + seq![hex_digit(d as nat)],
{
    if d < 10 {
        append_dec_digit(s, d as u64);
    } else if d == 10 {
        proof { reveal_strlit("a"); }
        s.append("a");
    } else if d == 11 {
        proof { reveal_strlit("b"); }
        s.append("b");
    } else if d == 12 {
        proof { reveal_strlit("c"); }
        s.append("c");
    } else if d == 13 {
        proof { reveal_strlit("d"); }
        s.append("d");
    } else if d == 14 {
        proof { reveal_strlit("e"); }
        s.append("e");
    } else {
        proof { reveal_strlit("f"); }
        s.append("f");
    }
    proof {
        assert(final(s)@ =~= old(s)@ + seq![hex_digit(d as nat)]);
    }
}

/// The compact hex rendering of a byte sequence: one digit for a byte below
/// 16, two digits otherwise, all bytes concatenated in order.
pub fn hex_string(bytes: &Vec<u8>) -> (r: String)
    ensures
        r@ == bytes_hex(bytes@),
{
    let mut s = String::new();
    let mut i: usize = 0;
    while i < bytes.len()
        invariant
            i <= bytes.len(),
            s@ == bytes_hex(bytes@.subrange(0, i as int)),
        decreases bytes.len() - i,
    {
        let b = bytes[i];
        if b < 16 {
            append_hex_digit(&mut s, b);
        } else {
            append_hex_digit(&mut s, b / 16);
            append_hex_digit(&mut s, b % 16);
        }
        proof {
            let pre = bytes@.subrange(0, i as int);
            let cur = bytes@.subrange(0, i + 1 as int);
            assert(cur.drop_last() =~= pre);
            assert(cur.last() == bytes@[i as int]);
            assert(s@ =~= bytes_hex(cur));
        }
        i = i + 1;
    }
    proof {
        assert(bytes@.subrange(0, bytes@.len() as int) =~= bytes@);
    }
    s
}

/// Decodes a string of consecutive two-digit hex pairs into bytes, ignoring
/// a trailing unpaired character; rejects any non-hex character in a pair.
pub fn hex_decode(s: &str) -> (r: Option<Vec<u8>>)
    ensures
        r is Some <==> hex_pairs_ok(s@),
        r matches Some(v) ==> v@ == hex_decoded(s@),
{
    let n = s.unicode_len();
    let pairs = n / 2;
    let mut out: Vec<u8> = Vec::new();
    let mut i: usize = 0;
    while i < pairs
        invariant
            i <= pairs,
            pairs == s@.len() / 2,
            2 * pairs <= usize::MAX,
            out@.len() == i,
            forall|j: int| 0 <= j < 2 * i ==> is_hex_char(#[trigger] s@[j]),
            forall|j: int| 0 <= j < i ==> out@[j] == (hex_char_val(s@[2 * j]) * 16 + hex_char_val(
                s@[2 * j + 1],
            )) as u8,
        decreases pairs - i,
    {
        let c0 = s.get_char(2 * i);
        let c1 = s.get_char(2 * i + 1);
        let v0 = match hex_char_value(c0) {
            Some(v) => v,
            None => {
                return None;
            },
        };
        let v1 = match hex_char_value(c1) {
            Some(v) => v,
            None => {
                return None;
            },
        };
        out.push(v0 * 16 + v1);
        i = i + 1;
    }
    proof {
        assert(out@ =~= hex_decoded(s@));
    }
    Some(out)
}

/// The value of one hex digit character, or `None` for any other character.
pub fn hex_char_value(c: char) -> (r: Option<u8>)
    ensures
        r is Some <==> is_hex_char(c),
        r matches Some(v) ==> v == hex_char_val(c) && v < 16,
{
    let u = c as u32;
    if 48 <= u && u <= 57 {
        Some((u - 48) as u8)
    } else if 97 <= u && u <= 102 {
        Some((u - 87) as u8)
    } else if 65 <= u && u <= 70 {
        Some((u - 55) as u8)
    } else {
        None
    }
}

/// The JSON rendering of a byte vector as an array of decimal numbers,
/// such as `[4,255,0]`.
pub fn json_u8_string(bytes: &Vec<u8>) -> (r: String)
    ensures
        r@ == json_u8s(bytes@),
{
    let mut s = String::new();
    proof { reveal_strlit("["); }
    s.append("[");
    proof {
        assert(s@ =~= seq!['['] + json_u8_items(bytes@.subrange(0, 0)));
    }
    let mut i: usize = 0;
    while i < bytes.len()
        invariant
            i <= bytes.len(),
            s@ == seq!['['] + json_u8_items(bytes@.subrange(0, i as int)),
        decreases bytes.len() - i,
    {
        if i > 0 {
            proof { reveal_strlit(","); }
            s.append(",");
        }
        append_dec_u64(&mut s, bytes[i] as u64);
        proof {
            let pre = bytes@.subrange(0, i as int);
            let cur = bytes@.subrange(0, i + 1 as int);
            assert(cur.drop_last() =~= pre);
            assert(cur.last() == bytes@[i as int]);
            assert(s@ =~= seq!['['] + json_u8_items(cur));
        }
        i = i + 1;
    }
    proof { reveal_strlit("]"); }
    s.append("]");
    proof {
        assert(bytes@.subrange(0, bytes@.len() as int) =~= bytes@);
        assert(s@ =~= json_u8s(bytes@));
    }
    s
}

/// A copy of a vector of strings, entry by entry.
pub fn copy_strings(items: &Vec<String>) -> (r: Vec<String>)
    ensures
        r@ == items@,
{
    let mut v: Vec<String> = Vec::new();
    let mut i: usize = 0;
    while i < items.len()
        invariant
            i <= items@.len(),
            v@.len() == i,
            forall|j: int| 0 <= j < i ==> v@[j] == items@[j],
        decreases items@.len() - i,
    {
        v.push(items[i].clone());
        i = i + 1;
    }
    proof {
        assert(v@ =~= items@);
    }
    v
}

} // verus!
