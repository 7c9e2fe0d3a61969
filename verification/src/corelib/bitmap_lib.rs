use vstd::prelude::*;

verus! {

/// Whether bit `bit` of `map` is set.
pub open spec fn bit_is_set(map: u128, bit: u64) -> bool {
    (map >> (bit as u128)) & 1 == 1
}

/// `map` with bit `bit` inverted.
pub open spec fn flip_bit(map: u128, bit: u64) -> u128 {
    map ^ (1u128 << (bit as u128))
}

proof fn lemma_flip_one(map: u128, bit: u128, other: u128)
    by (bit_vector)
    requires
        bit < 128,
        other < 128,
    ensures
        other == bit ==> (((map ^ (1u128 << bit)) >> other) & 1 == 1) == !((map >> other) & 1 == 1),
        other != bit ==> (((map ^ (1u128 << bit)) >> other) & 1 == 1) == ((map >> other) & 1 == 1),
{
}

proof fn lemma_zero_word(bit: u128)
    by (bit_vector)
    requires
        bit < 128,
    ensures
        !((0u128 >> bit) & 1 == 1),
{
}

/// Flipping a bit inverts it and leaves every other bit as it was.
pub proof fn lemma_flip_bit(map: u128, bit: u64)
    requires
        bit < 128,
    ensures
        bit_is_set(flip_bit(map, bit), bit) == !bit_is_set(map, bit),
        forall|other: u64|
            other < 128 && other != bit ==> #[trigger] bit_is_set(flip_bit(map, bit), other)
                == bit_is_set(map, other),
        flip_bit(flip_bit(map, bit), bit) == map,
{
    lemma_flip_one(map, bit as u128, bit as u128);
    assert forall|other: u64| other < 128 && other != bit implies #[trigger] bit_is_set(
        flip_bit(map, bit),
        other,
    ) == bit_is_set(map, other) by {
        lemma_flip_one(map, bit as u128, other as u128);
    }
    let b = bit as u128;
    assert((map ^ (1u128 << b)) ^ (1u128 << b) == map) by (bit_vector);
}

/// No bit of the empty word is set.
pub proof fn lemma_empty_word(bit: u64)
    requires
        bit < 128,
    ensures
        !bit_is_set(0, bit),
{
    lemma_zero_word(bit as u128);
}

pub fn _flip_bit(map: u128, bit: u64) -> (flipped: u128)
    requires
        bit < 128,
    ensures
        flipped == flip_bit(map, bit),
{
    map ^ (1u128 << (bit as u128))
}

pub fn _is_bit_set(map: u128, bit: u64) -> (set: bool)
    requires
        bit < 128,
    ensures
        set == bit_is_set(map, bit),
{
    (map >> (bit as u128)) & 1 == 1
}

/// The set bit of `map` nearest to `from_bit`, at it or beyond it: towards
/// the high bits when `ascending`, towards bit zero otherwise.
pub fn _next_set_bit(map: u128, from_bit: u64, ascending: bool) -> (found: Option<u64>)
    requires
        from_bit < 128,
    ensures
        match found {
            Some(bit) => {
                &&& bit < 128
                &&& bit_is_set(map, bit)
                &&& (ascending ==> from_bit <= bit)
                &&& (ascending ==> forall|b: u64| from_bit <= b < bit ==> !bit_is_set(map, b))
                &&& (!ascending ==> bit <= from_bit)
                &&& (!ascending ==> forall|b: u64| bit < b <= from_bit ==> !bit_is_set(map, b))
            },
            None => {
                &&& (ascending ==> forall|b: u64| from_bit <= b < 128 ==> !bit_is_set(map, b))
                &&& (!ascending ==> forall|b: u64| b <= from_bit ==> !bit_is_set(map, b))
            },
        },
{
    if ascending {
        let mut bit: u64 = from_bit;
        while bit < 128
            invariant
                ascending,
                from_bit <= bit <= 128,
                forall|b: u64| from_bit <= b < bit ==> !bit_is_set(map, b),
            decreases 128 - bit,
        {
            if _is_bit_set(map, bit) {
                return Some(bit);
            }
            bit = bit + 1;
        }
        None
    } else {
        let mut bit: u64 = from_bit;
        loop
            invariant
                !ascending,
                bit <= from_bit < 128,
                forall|b: u64| bit < b <= from_bit ==> !bit_is_set(map, b),
            decreases bit,
        {
            if _is_bit_set(map, bit) {
                return Some(bit);
            }
            if bit == 0 {
                return None;
            }
            bit = bit - 1;
        }
    }
}

} // verus!
