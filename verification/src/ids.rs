use vstd::prelude::*;
use vstd::string::*;

use crate::util::{hex_digit, lemma_hex_string_digits, spec_byte_hex, spec_hex_string, string_push};

verus! {

broadcast use vstd::string::group_string_axioms;

/// `rand::random::<u32>()`: a number from the thread-local generator. Nothing
/// is promised of it: it is random.
#[verifier::external_body]
pub(crate) fn random_u32() -> u32 {
    rand::random::<u32>()
}

/// The character that `UpperHexadecimal` draws for a 32-bit random number:
/// its top four bits index the charset `ABCDEF0123456789`.
pub open spec fn upper_hex_char(bits: u32) -> char {
    let i = bits / 268435456;
    if i < 6 {
        (65 + i) as char
    } else {
        (42 + i) as char
    }
}

/// Upper-case hexadecimal characters: 0-9 and A-F.
pub open spec fn is_upper_hex(c: char) -> bool {
    ('0' <= c && c <= '9') || ('A' <= c && c <= 'F')
}

/// Allows for getting a random distribution of uppercase hex characters (0-9 and A-F)
#[derive(Debug)]
pub struct UpperHexadecimal;

impl UpperHexadecimal {
    /// The character drawn for the random number `bits`.
    pub fn char_for(&self, bits: u32) -> (c: char)
        ensures
            c == upper_hex_char(bits),
            is_upper_hex(c),
    {
        // The top four bits of a 32-bit number are always below 16, so the
        // first number drawn always gives a character.
        let var = bits >> 28u32;
        assert(var == bits / 268435456) by (bit_vector)
            requires
                var == bits >> 28u32,
        ;
        if var < 6 {
            (65u8 + var as u8) as char
        } else {
            (42u8 + var as u8) as char
        }
    }

    /// Draw one upper-case hexadecimal character.
    pub fn sample(&self) -> (c: char)
        ensures
            is_upper_hex(c),
    {
        self.char_for(random_u32())
    }
}

/// Generate a random hexstring room ID of the given length (default 5)
pub fn generate_room_id(length: Option<usize>) -> (id: String)
    ensures
        id@.len() == 4 + match length {
            Some(n) => n as int,
            None => 5,
        },
        id@.subrange(0, 4) == "Room"@,
        forall|i: int| 4 <= i < id@.len() ==> is_upper_hex(#[trigger] id@[i]),
{
    let n = match length {
        Some(n) => n,
        None => 5,
    };
    let mut id = String::new();
    id.append("Room");
    proof {
        reveal_strlit("Room");
    }
    let mut k: usize = 0;
    while k < n
        invariant
            k <= n,
            id@.len() == 4 + k,
            id@.subrange(0, 4) == "Room"@,
            forall|i: int| 4 <= i < id@.len() ==> is_upper_hex(#[trigger] id@[i]),
        decreases n - k,
    {
        let c = UpperHexadecimal.sample();
        let ghost before = id@;
        string_push(&mut id, c);
        assert(id@.subrange(0, 4) =~= before.subrange(0, 4));
        k += 1;
    }
    id
}

/// Decimal digits among the characters.
pub open spec fn is_ascii_digit(c: char) -> bool {
    '0' <= c && c <= '9'
}

/// Number of decimal digits among four characters.
pub open spec fn digit_count4(s: Seq<char>) -> int {
    (if is_ascii_digit(s[0]) { 1int } else { 0 }) + (if is_ascii_digit(s[1]) { 1int } else { 0 })
        + (if is_ascii_digit(s[2]) { 1int } else { 0 }) + (if is_ascii_digit(s[3]) { 1int } else { 0 })
}

/// The last four hexadecimal digits of a MAC address: those of its last two bytes.
pub open spec fn mac_tail(b: Seq<u8>) -> Seq<char> {
    spec_byte_hex(b[4]) + spec_byte_hex(b[5])
}

/// A random MAC address made locally administered and unicast, and adjusted so
/// that its last four hexadecimal digits are read neither as a number with a
/// leading zero nor as a number in exponent notation.
pub open spec fn spec_normalize_mac(b: Seq<u8>) -> Seq<u8> {
    let b0 = (b[0] & 254u8) | 2u8;
    let tail = mac_tail(b);
    let count = digit_count4(tail);
    let b4 = if tail[0] == '0' && count == 4 {
        b[4] | 17u8
    } else {
        b[4]
    };
    let b4 = if tail.contains('e') && count == 3 {
        b4 | 136u8
    } else {
        b4
    };
    b.update(0, b0).update(4, b4)
}

proof fn lemma_hex_digit_facts(n: int)
    requires
        0 <= n < 16,
    ensures
        is_ascii_digit(hex_digit(n)) <==> n < 10,
        (hex_digit(n) == '0') <==> n == 0,
        (hex_digit(n) == 'e') <==> n == 14,
{
}

/// Apply the MAC address rules to six random bytes.
pub fn normalize_mac(bytes: [u8; 6]) -> (result: [u8; 6])
    ensures
        result@ == spec_normalize_mac(bytes@),
{
    let mut result = bytes;
    result[0] = (result[0] & 254u8) | 2u8;
    let n0 = result[4] / 16;
    let n1 = result[4] % 16;
    let n2 = result[5] / 16;
    let n3 = result[5] % 16;
    let count: u8 = (if n0 < 10 { 1u8 } else { 0 }) + (if n1 < 10 { 1u8 } else { 0 }) + (if n2 < 10 {
        1u8
    } else {
        0
    }) + (if n3 < 10 { 1u8 } else { 0 });
    let has_e = n0 == 14 || n1 == 14 || n2 == 14 || n3 == 14;
    proof {
        let tail = mac_tail(bytes@);
        lemma_hex_digit_facts(n0 as int);
        lemma_hex_digit_facts(n1 as int);
        lemma_hex_digit_facts(n2 as int);
        lemma_hex_digit_facts(n3 as int);
        assert(tail =~= seq![hex_digit(n0 as int), hex_digit(n1 as int), hex_digit(n2 as int), hex_digit(n3 as int)]);
        assert(count == digit_count4(tail));
        if has_e {
            if n0 == 14 { assert(tail[0] == 'e'); }
            if n1 == 14 { assert(tail[1] == 'e'); }
            if n2 == 14 { assert(tail[2] == 'e'); }
            if n3 == 14 { assert(tail[3] == 'e'); }
        }
        assert(tail.contains('e') <==> has_e);
        assert((tail[0] == '0') <==> n0 == 0);
    }
    // Prevent NetsBlox leading zero truncation
    if n0 == 0 && count == 4 {
        result[4] = result[4] | 17u8;
    }
    // Accidental float prevention
    if has_e && count == 3 {
        result[4] = result[4] | 136u8;
    }
    assert(result@ =~= spec_normalize_mac(bytes@));
    result
}

/// Generate a random robot MAC address.
pub fn generate_random_mac_address() -> (mac: [u8; 6])
    ensures
        exists|b: Seq<u8>| b.len() == 6 && mac@ == spec_normalize_mac(b),
{
    let mut bytes = [0u8; 6];
    let mut i: usize = 0;
    while i < 6
        invariant
            i <= 6,
        decreases 6 - i,
    {
        bytes[i] = (random_u32() % 256) as u8;
        i += 1;
    }
    normalize_mac(bytes)
}

/// A generated MAC address is locally administered (second bit of the first
/// byte set) and unicast (first bit clear), and only its first and fifth bytes
/// differ from the random bytes it was drawn from.
pub proof fn lemma_mac_address_bits(b: Seq<u8>)
    requires
        b.len() == 6,
    ensures
        spec_normalize_mac(b).len() == 6,
        spec_normalize_mac(b)[0] & 1u8 == 0,
        spec_normalize_mac(b)[0] & 2u8 == 2,
        spec_normalize_mac(b)[1] == b[1],
        spec_normalize_mac(b)[2] == b[2],
        spec_normalize_mac(b)[3] == b[3],
        spec_normalize_mac(b)[5] == b[5],
{
    let x = b[0];
    assert(((x & 254u8) | 2u8) & 1u8 == 0) by (bit_vector);
    assert(((x & 254u8) | 2u8) & 2u8 == 2) by (bit_vector);
}

/// The robot id of a generated MAC address (its hexadecimal rendering) never
/// ends in four decimal digits that start with a zero.
pub proof fn lemma_mac_id_tail_not_zero_led_number(b: Seq<u8>)
    requires
        b.len() == 6,
    ensures
        ({
            let tail = spec_hex_string(spec_normalize_mac(b)).subrange(8, 12);
            !(tail[0] == '0' && digit_count4(tail) == 4)
        }),
{
    let r = spec_normalize_mac(b);
    lemma_hex_string_digits(r);
    let h = spec_hex_string(r);
    let tail = h.subrange(8, 12);
    assert(h[2 * 4int] == hex_digit((r[4] / 16) as int));
    assert(h[2 * 4int + 1] == hex_digit((r[4] % 16) as int));
    assert(h[2 * 5int] == hex_digit((r[5] / 16) as int));
    assert(h[2 * 5int + 1] == hex_digit((r[5] % 16) as int));
    assert(tail =~= mac_tail(r));
    let t0 = mac_tail(b);
    let count = digit_count4(t0);
    let x = b[4];
    assert((x | 17u8) / 16 >= 1) by (bit_vector);
    assert((x | 136u8) / 16 >= 8) by (bit_vector);
    assert(((x | 17u8) | 136u8) / 16 >= 8) by (bit_vector);
    assert((x | 136u8) % 16 >= 8) by (bit_vector);
    lemma_hex_digit_facts((b[4] / 16) as int);
    lemma_hex_digit_facts((b[4] % 16) as int);
    lemma_hex_digit_facts((b[5] / 16) as int);
    lemma_hex_digit_facts((b[5] % 16) as int);
    lemma_hex_digit_facts((r[4] / 16) as int);
    lemma_hex_digit_facts((r[4] % 16) as int);
    assert(t0 =~= seq![hex_digit((b[4] / 16) as int), hex_digit((b[4] % 16) as int), hex_digit((b[5] / 16) as int), hex_digit((b[5] % 16) as int)]);
    assert(tail =~= seq![hex_digit((r[4] / 16) as int), hex_digit((r[4] % 16) as int), hex_digit((b[5] / 16) as int), hex_digit((b[5] % 16) as int)]);
}

} // verus!
