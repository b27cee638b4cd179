//! Small helpers on bits and strings that the decoders and the beatmap
//! writers share.

use vstd::prelude::*;

verus! {

/// Whether bit `n` of `byte` is set, bit 0 being the least significant one.
pub open spec fn bit_is_set(byte: u8, n: u8) -> bool {
    (byte >> n) & 1u8 == 1u8
}

/// What a bit adds to a number: its weight where it is set.
pub open spec fn weighed(set: bool, weight: int) -> int {
    if set {
        weight
    } else {
        0
    }
}

/// The byte whose bit `i` is set exactly when `bits[i]` holds.
pub open spec fn bits_value(bits: Seq<bool>) -> int
    recommends
        bits.len() == 8,
{
    weighed(bits[0], 1) + weighed(bits[1], 2) + weighed(bits[2], 4) + weighed(bits[3], 8) + weighed(bits[4], 16)
        + weighed(bits[5], 32) + weighed(bits[6], 64) + weighed(bits[7], 128)
}

/// The sequence `values[0] + separator + values[1] + ... + values[n - 1]`.
pub open spec fn joined(values: Seq<Seq<char>>, separator: Seq<char>) -> Seq<char>
    decreases values.len(),
{
    if values.len() == 0 {
        Seq::empty()
    } else if values.len() == 1 {
        values[0]
    } else {
        joined(values.drop_last(), separator) + separator + values.last()
    }
}

/// The character for a digit.
pub open spec fn digit(d: nat) -> char
    recommends
        d < 10,
{
    if d == 0 {
        '0'
    } else if d == 1 {
        '1'
    } else if d == 2 {
        '2'
    } else if d == 3 {
        '3'
    } else if d == 4 {
        '4'
    } else if d == 5 {
        '5'
    } else if d == 6 {
        '6'
    } else if d == 7 {
        '7'
    } else if d == 8 {
        '8'
    } else {
        '9'
    }
}

/// The digits of `n` in base ten, without leading zeros.
pub open spec fn decimal(n: nat) -> Seq<char>
    decreases n,
{
    if n < 10 {
        seq![digit(n)]
    } else {
        decimal(n / 10).push(digit(n % 10))
    }
}

/// The digits of `n` in base ten, after a minus sign where `n` is negative.
pub open spec fn signed_decimal(n: int) -> Seq<char> {
    if n < 0 {
        seq!['-'] + decimal((-n) as nat)
    } else {
        decimal(n as nat)
    }
}

/// `String::push`: appends one character to the string.
#[verifier::external_body]
pub(crate) fn push_char(text: &mut String, c: char)
    ensures
        final(text)@ == old(text)@.push(c),
{
    text.push(c)
}

fn digit_char(d: u8) -> (c: char)
    requires
        d < 10,
    ensures
        c == digit(d as nat),
{
    match d {
        0 => '0',
        1 => '1',
        2 => '2',
        3 => '3',
        4 => '4',
        5 => '5',
        6 => '6',
        7 => '7',
        8 => '8',
        _ => '9',
    }
}

/// Appends the digits of `n` in base ten.
pub fn push_decimal(text: &mut String, n: u64)
    ensures
        final(text)@ == old(text)@ + decimal(n as nat),
    decreases n,
{
    if n >= 10 {
        push_decimal(text, n / 10);
    }
    push_char(text, digit_char((n % 10) as u8));
    assert(text@ =~= old(text)@ + decimal(n as nat));
}

/// Appends the digits of `n` in base ten, after a minus sign where `n` is
/// negative.
pub fn push_signed_decimal(text: &mut String, n: i64)
    ensures
        final(text)@ == old(text)@ + signed_decimal(n as int),
{
    if n < 0 {
        push_char(text, '-');
        push_decimal(text, (-(n as i128)) as u64);
        assert(text@ =~= old(text)@ + signed_decimal(n as int));
    } else {
        push_decimal(text, n as u64);
    }
}

/// Whether bit `n` of `byte` is set.
pub fn get_nth_bit(byte: u8, n: u8) -> (set: bool)
    requires
        n < 8,
    ensures
        set == bit_is_set(byte, n),
{
    assert((((byte & (1u8 << n)) >> n) != 0u8) == ((byte >> n) & 1u8 == 1u8)) by (bit_vector)
        requires
            n < 8,
    ;
    ((byte & (1u8 << n)) >> n) != 0
}

/// The bits of `byte`, the least significant one first.
pub fn byte_to_bitarray(byte: u8) -> (bitarray: [bool; 8])
    ensures
        forall|i: u8| i < 8 ==> bitarray@[i as int] == bit_is_set(byte, i),
        bits_value(bitarray@) == byte,
{
    let bitarray = [
        get_nth_bit(byte, 0),
        get_nth_bit(byte, 1),
        get_nth_bit(byte, 2),
        get_nth_bit(byte, 3),
        get_nth_bit(byte, 4),
        get_nth_bit(byte, 5),
        get_nth_bit(byte, 6),
        get_nth_bit(byte, 7),
    ];
    proof {
        lemma_bits_of_byte(byte);
    }
    bitarray
}

/// The inverse of [`byte_to_bitarray`].
pub fn bitarray_to_byte(bitarray: [bool; 8]) -> (byte: u8)
    ensures
        byte == bits_value(bitarray@),
        forall|i: u8| i < 8 ==> bit_is_set(byte, i) == bitarray@[i as int],
{
    let mut byte: u8 = 0;
    if bitarray[0] {
        byte = byte + 1;
    }
    if bitarray[1] {
        byte = byte + 2;
    }
    if bitarray[2] {
        byte = byte + 4;
    }
    if bitarray[3] {
        byte = byte + 8;
    }
    if bitarray[4] {
        byte = byte + 16;
    }
    if bitarray[5] {
        byte = byte + 32;
    }
    if bitarray[6] {
        byte = byte + 64;
    }
    if bitarray[7] {
        byte = byte + 128;
    }
    proof {
        lemma_bits_of_byte(byte);
    }
    byte
}

/// Joins the already formatted `values`, with `separator` between each two.
pub fn join_display_values(values: Vec<String>, separator: &str) -> (text: String)
    ensures
        text@ == joined(Seq::new(values@.len(), |i: int| values@[i]@), separator@),
{
    let ghost views = Seq::new(values@.len(), |i: int| values@[i]@);
    let mut text = String::new();
    let mut i: usize = 0;
    while i < values.len()
        invariant
            i <= values@.len(),
            views == Seq::new(values@.len(), |i: int| values@[i]@),
            text@ == joined(views.take(i as int), separator@),
        decreases values@.len() - i,
    {
        proof {
            let next = views.take(i as int + 1);
            assert(next.drop_last() == views.take(i as int));
            assert(next.last() == values@[i as int]@);
            if i > 0 {
                assert(joined(next, separator@) == joined(views.take(i as int), separator@) + separator@
                    + values@[i as int]@);
            } else {
                assert(joined(next, separator@) == values@[i as int]@);
                assert(text@ + values@[i as int]@ == values@[i as int]@);
            }
        }
        if i > 0 {
            text.append(separator);
        }
        text.append(values[i].as_str());
        i = i + 1;
    }
    proof {
        assert(views.take(values@.len() as int) == views);
    }
    text
}

/// A byte is the sum of the weights of its set bits.
pub proof fn lemma_bits_of_byte(byte: u8)
    ensures
        byte == weighed(bit_is_set(byte, 0), 1) + weighed(bit_is_set(byte, 1), 2) + weighed(bit_is_set(byte, 2), 4)
            + weighed(bit_is_set(byte, 3), 8) + weighed(bit_is_set(byte, 4), 16) + weighed(bit_is_set(byte, 5), 32)
            + weighed(bit_is_set(byte, 6), 64) + weighed(bit_is_set(byte, 7), 128),
{
    assert(byte == (byte & 1) + (byte & 2) + (byte & 4) + (byte & 8) + (byte & 16) + (byte & 32) + (byte & 64) + (byte
        & 128)) by (bit_vector);
    assert(byte & 1 == (if (byte >> 0u8) & 1u8 == 1u8 { 1u8 } else { 0u8 })) by (bit_vector);
    assert(byte & 2 == (if (byte >> 1u8) & 1u8 == 1u8 { 2u8 } else { 0u8 })) by (bit_vector);
    assert(byte & 4 == (if (byte >> 2u8) & 1u8 == 1u8 { 4u8 } else { 0u8 })) by (bit_vector);
    assert(byte & 8 == (if (byte >> 3u8) & 1u8 == 1u8 { 8u8 } else { 0u8 })) by (bit_vector);
    assert(byte & 16 == (if (byte >> 4u8) & 1u8 == 1u8 { 16u8 } else { 0u8 })) by (bit_vector);
    assert(byte & 32 == (if (byte >> 5u8) & 1u8 == 1u8 { 32u8 } else { 0u8 })) by (bit_vector);
    assert(byte & 64 == (if (byte >> 6u8) & 1u8 == 1u8 { 64u8 } else { 0u8 })) by (bit_vector);
    assert(byte & 128 == (if (byte >> 7u8) & 1u8 == 1u8 { 128u8 } else { 0u8 })) by (bit_vector);
}

/// Turning a byte into its bits and back gives the byte again.
pub proof fn lemma_byte_round_trip(byte: u8)
    ensures
        bits_value(Seq::new(8, |i: int| bit_is_set(byte, i as u8))) == byte,
{
    lemma_bits_of_byte(byte);
}

/// Turning eight bits into a byte and back gives the bits again.
pub proof fn lemma_bits_round_trip(bits: Seq<bool>, i: u8)
    requires
        bits.len() == 8,
        i < 8,
    ensures
        bit_is_set(bits_value(bits) as u8, i) == bits[i as int],
{
    let byte = bits_value(bits) as u8;
    lemma_bits_of_byte(byte);
}

} // verus!
