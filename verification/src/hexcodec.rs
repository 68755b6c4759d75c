//! Hexadecimal encoding and decoding of byte strings.
//!
//! Keys and IVs enter the core as hex strings; generated keys and IVs leave
//! it as lowercase hex. Decoding accepts both cases and fails on any other
//! character or on an odd number of digits.

use vstd::prelude::*;

verus! {

/// A character that is a hexadecimal digit, in either case.
pub open spec fn is_hex_digit(c: char) -> bool {
    ||| c == '0' || c == '1' || c == '2' || c == '3' || c == '4'
    ||| c == '5' || c == '6' || c == '7' || c == '8' || c == '9'
    ||| c == 'a' || c == 'b' || c == 'c' || c == 'd' || c == 'e' || c == 'f'
    ||| c == 'A' || c == 'B' || c == 'C' || c == 'D' || c == 'E' || c == 'F'
}

/// A character that encoding may produce: a digit or a lowercase letter.
pub open spec fn is_lower_hex_digit(c: char) -> bool {
    ||| c == '0' || c == '1' || c == '2' || c == '3' || c == '4'
    ||| c == '5' || c == '6' || c == '7' || c == '8' || c == '9'
    ||| c == 'a' || c == 'b' || c == 'c' || c == 'd' || c == 'e' || c == 'f'
}

/// The numeric value of a hex digit.
pub open spec fn hex_digit_value(c: char) -> nat {
    if c == '0' { 0 } else if c == '1' { 1 } else if c == '2' { 2 }
    else if c == '3' { 3 } else if c == '4' { 4 } else if c == '5' { 5 }
    else if c == '6' { 6 } else if c == '7' { 7 } else if c == '8' { 8 }
    else if c == '9' { 9 }
    else if c == 'a' || c == 'A' { 10 } else if c == 'b' || c == 'B' { 11 }
    else if c == 'c' || c == 'C' { 12 } else if c == 'd' || c == 'D' { 13 }
    else if c == 'e' || c == 'E' { 14 } else if c == 'f' || c == 'F' { 15 }
    else { 0 }
}

/// The lowercase hex digit for a value below 16.
pub open spec fn hex_char_of(n: nat) -> char {
    if n == 0 { '0' } else if n == 1 { '1' } else if n == 2 { '2' }
    else if n == 3 { '3' } else if n == 4 { '4' } else if n == 5 { '5' }
    else if n == 6 { '6' } else if n == 7 { '7' } else if n == 8 { '8' }
    else if n == 9 { '9' } else if n == 10 { 'a' } else if n == 11 { 'b' }
    else if n == 12 { 'c' } else if n == 13 { 'd' } else if n == 14 { 'e' }
    else { 'f' }
}

/// The byte written as the hex digits `h` then `l`.
pub open spec fn hex_pair_byte(h: char, l: char) -> u8 {
    (hex_digit_value(h) * 16 + hex_digit_value(l)) as u8
}

/// A string that decodes as hexadecimal: an even number of hex digits.
pub open spec fn spec_hex_ok(s: Seq<char>) -> bool {
    &&& s.len() % 2 == 0
    &&& forall|i: int| 0 <= i < s.len() ==> is_hex_digit(#[trigger] s[i])
}

/// The bytes a hex string stands for, two digits per byte.
pub open spec fn spec_hex_decode(s: Seq<char>) -> Seq<u8>
    decreases s.len(),
{
    if s.len() < 2 {
        Seq::empty()
    } else {
        seq![hex_pair_byte(s[0], s[1])] + spec_hex_decode(s.skip(2))
    }
}

/// The lowercase hex spelling of a byte string, two digits per byte.
pub open spec fn spec_hex_encode(b: Seq<u8>) -> Seq<char>
    decreases b.len(),
{
    if b.len() == 0 {
        Seq::empty()
    } else {
        seq![hex_char_of((b[0] / 16) as nat), hex_char_of((b[0] % 16) as nat)]
            + spec_hex_encode(b.skip(1))
    }
}

proof fn lemma_hex_char_of_value(n: nat)
    requires
        n < 16,
    ensures
        is_lower_hex_digit(hex_char_of(n)),
        is_hex_digit(hex_char_of(n)),
        hex_digit_value(hex_char_of(n)) == n,
{
}

/// Encoding writes two digits per byte.
proof fn lemma_hex_encode_len(b: Seq<u8>)
    ensures
        spec_hex_encode(b).len() == 2 * b.len(),
    decreases b.len(),
{
    if b.len() > 0 {
        lemma_hex_encode_len(b.skip(1));
    }
}

/// Every character of an encoding is a lowercase hex digit.
proof fn lemma_hex_encode_chars(b: Seq<u8>)
    ensures
        forall|i: int|
            0 <= i < spec_hex_encode(b).len() ==> is_lower_hex_digit(
                #[trigger] spec_hex_encode(b)[i],
            ),
    decreases b.len(),
{
    if b.len() > 0 {
        lemma_hex_char_of_value((b[0] / 16) as nat);
        lemma_hex_char_of_value((b[0] % 16) as nat);
        lemma_hex_encode_chars(b.skip(1));
        assert forall|i: int| 0 <= i < spec_hex_encode(b).len() implies is_lower_hex_digit(
            #[trigger] spec_hex_encode(b)[i],
        ) by {
            if i >= 2 {
                assert(spec_hex_encode(b)[i] == spec_hex_encode(b.skip(1))[i - 2]);
            }
        }
    }
}

/// Appending a byte appends its two digits.
proof fn lemma_hex_encode_snoc(b: Seq<u8>, x: u8)
    ensures
        spec_hex_encode(b.push(x)) == spec_hex_encode(b) + seq![
            hex_char_of((x / 16) as nat),
            hex_char_of((x % 16) as nat),
        ],
    decreases b.len(),
{
    if b.len() == 0 {
        reveal_with_fuel(spec_hex_encode, 2);
        assert(b.push(x) =~= seq![x]);
        assert(seq![x].skip(1) =~= Seq::<u8>::empty());
        assert(spec_hex_encode(b.push(x)) =~= spec_hex_encode(b) + seq![
            hex_char_of((x / 16) as nat),
            hex_char_of((x % 16) as nat),
        ]);
    } else {
        assert(b.push(x)[0] == b[0]);
        assert(b.push(x).skip(1) =~= b.skip(1).push(x));
        lemma_hex_encode_snoc(b.skip(1), x);
        assert(spec_hex_encode(b.push(x)) =~= spec_hex_encode(b) + seq![
            hex_char_of((x / 16) as nat),
            hex_char_of((x % 16) as nat),
        ]);
    }
}

/// Appending a digit pair appends the byte they stand for.
proof fn lemma_hex_decode_snoc(s: Seq<char>, h: char, l: char)
    requires
        s.len() % 2 == 0,
    ensures
        spec_hex_decode(s + seq![h, l]) == spec_hex_decode(s).push(hex_pair_byte(h, l)),
    decreases s.len(),
{
    if s.len() == 0 {
        reveal_with_fuel(spec_hex_decode, 2);
        assert((s + seq![h, l]) =~= seq![h, l]);
        assert(seq![h, l].skip(2) =~= Seq::<char>::empty());
        assert(spec_hex_decode(s + seq![h, l]) =~= spec_hex_decode(s).push(
            hex_pair_byte(h, l),
        ));
    } else {
        assert((s + seq![h, l]).skip(2) =~= s.skip(2) + seq![h, l]);
        lemma_hex_decode_snoc(s.skip(2), h, l);
        assert(spec_hex_decode(s + seq![h, l]) =~= spec_hex_decode(s).push(
            hex_pair_byte(h, l),
        ));
    }
}

/// Law: decoding an encoding recovers the bytes, and an encoding always
/// passes the hex well-formedness check.
pub proof fn lemma_hex_round_trip(b: Seq<u8>)
    ensures
        spec_hex_ok(spec_hex_encode(b)),
        spec_hex_decode(spec_hex_encode(b)) == b,
    decreases b.len(),
{
    lemma_hex_encode_len(b);
    lemma_hex_encode_chars(b);
    assert forall|i: int| 0 <= i < spec_hex_encode(b).len() implies is_hex_digit(
        #[trigger] spec_hex_encode(b)[i],
    ) by {
        assert(is_lower_hex_digit(spec_hex_encode(b)[i]));
    }
    if b.len() == 0 {
        assert(spec_hex_decode(spec_hex_encode(b)) =~= b);
    } else {
        let h = hex_char_of((b[0] / 16) as nat);
        let l = hex_char_of((b[0] % 16) as nat);
        lemma_hex_char_of_value((b[0] / 16) as nat);
        lemma_hex_char_of_value((b[0] % 16) as nat);
        assert(hex_pair_byte(h, l) == b[0]);
        assert(spec_hex_encode(b).skip(2) =~= spec_hex_encode(b.skip(1)));
        lemma_hex_round_trip(b.skip(1));
        assert(spec_hex_decode(spec_hex_encode(b)) =~= b);
    }
}

/// The value of one hex digit character, or `None` for any other character.
fn hex_nibble(c: char) -> (r: Option<u8>)
    ensures
        match r {
            Some(v) => is_hex_digit(c) && v as nat == hex_digit_value(c) && v < 16,
            None => !is_hex_digit(c),
        },
{
    match c {
        '0' => Some(0),
        '1' => Some(1),
        '2' => Some(2),
        '3' => Some(3),
        '4' => Some(4),
        '5' => Some(5),
        '6' => Some(6),
        '7' => Some(7),
        '8' => Some(8),
        '9' => Some(9),
        'a' | 'A' => Some(10),
        'b' | 'B' => Some(11),
        'c' | 'C' => Some(12),
        'd' | 'D' => Some(13),
        'e' | 'E' => Some(14),
        'f' | 'F' => Some(15),
        _ => None,
    }
}

/// The bytes a hex string stands for, or `None` when the string is not
/// valid hexadecimal (an odd number of digits, or any non-hex character).
pub fn hex_decode(s: &str) -> (r: Option<Vec<u8>>)
    ensures
        match r {
            Some(v) => spec_hex_ok(s@) && v@ == spec_hex_decode(s@),
            None => !spec_hex_ok(s@),
        },
{
    let n = s.unicode_len();
    if n % 2 != 0 {
        return None;
    }
    let mut out: Vec<u8> = Vec::new();
    let mut i: usize = 0;
    while i < n
        invariant
            n == s@.len(),
            n % 2 == 0,
            i % 2 == 0,
            i <= n,
            forall|j: int| 0 <= j < i ==> is_hex_digit(#[trigger] s@[j]),
            out@ == spec_hex_decode(s@.take(i as int)),
        decreases n - i,
    {
        let h = s.get_char(i);
        let l = s.get_char(i + 1);
        let hv = match hex_nibble(h) {
            Some(v) => v,
            None => {
                return None;
            },
        };
        let lv = match hex_nibble(l) {
            Some(v) => v,
            None => {
                return None;
            },
        };
        out.push(hv * 16 + lv);
        proof {
            lemma_hex_decode_snoc(s@.take(i as int), h, l);
            assert(s@.take(i as int + 2) =~= s@.take(i as int) + seq![h, l]);
        }
        i = i + 2;
    }
    proof {
        assert(s@.take(n as int) =~= s@);
    }
    Some(out)
}

/// The lowercase hex digit for a nibble.
fn hex_digit_str(n: u8) -> (r: &'static str)
    requires
        n < 16,
    ensures
        r@ == seq![hex_char_of(n as nat)],
{
    let r: &'static str = match n {
        0 => "0",
        1 => "1",
        2 => "2",
        3 => "3",
        4 => "4",
        5 => "5",
        6 => "6",
        7 => "7",
        8 => "8",
        9 => "9",
        10 => "a",
        11 => "b",
        12 => "c",
        13 => "d",
        14 => "e",
        _ => "f",
    };
    proof {
        reveal_strlit("0");
        reveal_strlit("1");
        reveal_strlit("2");
        reveal_strlit("3");
        reveal_strlit("4");
        reveal_strlit("5");
        reveal_strlit("6");
        reveal_strlit("7");
        reveal_strlit("8");
        reveal_strlit("9");
        reveal_strlit("a");
        reveal_strlit("b");
        reveal_strlit("c");
        reveal_strlit("d");
        reveal_strlit("e");
        reveal_strlit("f");
        assert(r@ =~= seq![hex_char_of(n as nat)]);
    }
    r
}

/// The lowercase hex spelling of a byte string.
pub fn hex_encode(bytes: &[u8]) -> (r: String)
    ensures
        r@ == spec_hex_encode(bytes@),
        r@.len() == 2 * bytes@.len(),
        forall|i: int| 0 <= i < r@.len() ==> is_lower_hex_digit(#[trigger] r@[i]),
{
    let mut out = String::new();
    let mut i: usize = 0;
    let n = bytes.len();
    while i < n
        invariant
            n == bytes@.len(),
            i <= n,
            out@ == spec_hex_encode(bytes@.take(i as int)),
        decreases n - i,
    {
        let b = *vstd::slice::slice_index_get(bytes, i);
        out.append(hex_digit_str(b / 16));
        out.append(hex_digit_str(b % 16));
        proof {
            lemma_hex_encode_snoc(bytes@.take(i as int), b);
            assert(bytes@.take(i as int + 1) =~= bytes@.take(i as int).push(b));
        }
        i = i + 1;
    }
    proof {
        assert(bytes@.take(n as int) =~= bytes@);
        lemma_hex_encode_len(bytes@);
        lemma_hex_encode_chars(bytes@);
    }
    out
}

} // verus!
