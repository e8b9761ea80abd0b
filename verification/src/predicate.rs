//! The compatibility predicate on blood types and its truth table.
//!
//! A blood type is a three-bit code: bit 2 is the A antigen, bit 1 the
//! B antigen, bit 0 the rhesus factor.
use vstd::prelude::*;

verus! {

/// The three attributes that a blood-type code stands for. Bits above the
/// third are not read.
pub open spec fn attributes(input: u8) -> (bool, bool, bool) {
    ((input & 4u8) != 0u8, (input & 2u8) != 0u8, (input & 1u8) != 0u8)
}

/// The code of a blood type with the given attributes.
pub open spec fn code(a: bool, b: bool, r: bool) -> u8 {
    ((if a { 4int } else { 0int }) + (if b { 2int } else { 0int }) + (if r { 1int } else { 0int })) as u8
}

/// A donor suits a recipient when the donor has no attribute that the
/// recipient lacks the other way round: each of the donor's bits is at least
/// the recipient's.
pub open spec fn compatible(donor: (bool, bool, bool), recipient: (bool, bool, bool)) -> bool {
    &&& donor.0 || !recipient.0
    &&& donor.1 || !recipient.1
    &&& donor.2 || !recipient.2
}

/// Row `i` of the truth table, its eight entries packed into a byte with the
/// entry of column 0 in the highest bit.
pub open spec fn table_row(i: u8) -> u8 {
    if i == 0 {
        0b1000_0000u8
    } else if i == 1 {
        0b1100_0000u8
    } else if i == 2 {
        0b1010_0000u8
    } else if i == 3 {
        0b1111_0000u8
    } else if i == 4 {
        0b1000_1000u8
    } else if i == 5 {
        0b1100_1100u8
    } else if i == 6 {
        0b1010_1010u8
    } else {
        0b1111_1111u8
    }
}

/// Entry `(i, j)` of the truth table: 1 when donor `i` suits recipient `j`.
pub open spec fn table_entry(i: u8, j: u8) -> u8 {
    (table_row(i) >> (7u8 - j) as u8) & 1u8
}

/// Splits a blood-type code into its attributes.
pub fn translate_input(input: u8) -> (out: (bool, bool, bool))
    ensures
        out == attributes(input),
{
    let a = (input & 4) != 0;
    let b = (input & 2) != 0;
    let r = (input & 1) != 0;
    (a, b, r)
}

/// Packs three attributes into a blood-type code.
pub fn translate_input_back(a: bool, b: bool, r: bool) -> (out: u8)
    ensures
        out == code(a, b, r),
        out < 8,
{
    let mut res: u8 = 0;
    if a {
        res += 4
    }
    if b {
        res += 2
    }
    if r {
        res += 1
    }
    res
}

/// Decides whether the donor `alice` suits the recipient `bob`.
pub fn blood_function(alice: (bool, bool, bool), bob: (bool, bool, bool)) -> (out: bool)
    ensures
        out == compatible(alice, bob),
{
    if !alice.0 && bob.0 {
        return false
    }
    if !alice.1 && bob.1 {
        return false
    }
    if !alice.2 && bob.2 {
        return false
    }
    true
}

/// Looks up entry `(i, j)` of the truth table.
pub fn truth_table(i: u8, j: u8) -> (out: u8)
    requires
        i < 8,
        j < 8,
    ensures
        out == table_entry(i, j),
        out == (if compatible(attributes(i), attributes(j)) { 1u8 } else { 0u8 }),
{
    let row: u8 = if i == 0 {
        0b1000_0000
    } else if i == 1 {
        0b1100_0000
    } else if i == 2 {
        0b1010_0000
    } else if i == 3 {
        0b1111_0000
    } else if i == 4 {
        0b1000_1000
    } else if i == 5 {
        0b1100_1100
    } else if i == 6 {
        0b1010_1010
    } else {
        0b1111_1111
    };
    proof {
        lemma_table_is_predicate(i, j);
    }
    (row >> (7 - j)) & 1
}

/// Packing attributes and splitting the code again gives the attributes back.
pub proof fn lemma_attributes_of_code(a: bool, b: bool, r: bool)
    ensures
        attributes(code(a, b, r)) == (a, b, r),
{
    assert(4u8 & 4u8 != 0u8 && 4u8 & 2u8 == 0u8 && 4u8 & 1u8 == 0u8) by (bit_vector);
    assert(5u8 & 4u8 != 0u8 && 5u8 & 2u8 == 0u8 && 5u8 & 1u8 != 0u8) by (bit_vector);
    assert(6u8 & 4u8 != 0u8 && 6u8 & 2u8 != 0u8 && 6u8 & 1u8 == 0u8) by (bit_vector);
    assert(7u8 & 4u8 != 0u8 && 7u8 & 2u8 != 0u8 && 7u8 & 1u8 != 0u8) by (bit_vector);
    assert(0u8 & 4u8 == 0u8 && 0u8 & 2u8 == 0u8 && 0u8 & 1u8 == 0u8) by (bit_vector);
    assert(1u8 & 4u8 == 0u8 && 1u8 & 2u8 == 0u8 && 1u8 & 1u8 != 0u8) by (bit_vector);
    assert(2u8 & 4u8 == 0u8 && 2u8 & 2u8 != 0u8 && 2u8 & 1u8 == 0u8) by (bit_vector);
    assert(3u8 & 4u8 == 0u8 && 3u8 & 2u8 != 0u8 && 3u8 & 1u8 != 0u8) by (bit_vector);
}

/// Splitting a three-bit code and packing the attributes gives the code back.
pub proof fn lemma_code_of_attributes(input: u8)
    requires
        input < 8,
    ensures
        code(attributes(input).0, attributes(input).1, attributes(input).2) == input,
{
    assert(input < 8 ==> ((input & 4u8 != 0u8) <==> input >= 4)) by (bit_vector);
    assert(input < 8 ==> ((input & 2u8 != 0u8) <==> (input == 2 || input == 3 || input == 6 || input
        == 7))) by (bit_vector);
    assert(input < 8 ==> ((input & 1u8 != 0u8) <==> (input == 1 || input == 3 || input == 5 || input
        == 7))) by (bit_vector);
}

/// The truth table is the compatibility predicate, entry by entry.
pub proof fn lemma_table_is_predicate(i: u8, j: u8)
    requires
        i < 8,
        j < 8,
    ensures
        table_entry(i, j) == (if compatible(attributes(i), attributes(j)) { 1u8 } else { 0u8 }),
        table_entry(i, j) == 1 <==> j & !i & 7 == 0,
{
    let row = table_row(i);
    assert(i < 8 && j < 8 && row == (if i == 0 { 0b1000_0000u8 } else if i == 1 { 0b1100_0000u8 } else if i == 2 { 0b1010_0000u8 } else if i == 3 { 0b1111_0000u8 } else if i == 4 { 0b1000_1000u8 } else if i == 5 { 0b1100_1100u8 } else if i == 6 { 0b1010_1010u8 } else { 0b1111_1111u8 })
        ==> {
        &&& ((row >> (7u8 - j) as u8) & 1u8 == 1u8 || (row >> (7u8 - j) as u8) & 1u8 == 0u8)
        &&& ((row >> (7u8 - j) as u8) & 1u8 == 1u8 <==> j & !i & 7 == 0)
        &&& (j & !i & 7 == 0 <==> ((i & 4u8 != 0u8 || j & 4u8 == 0u8) && (i & 2u8 != 0u8 || j & 2u8 == 0u8) && (i & 1u8 != 0u8 || j & 1u8 == 0u8)))
    }) by (bit_vector);
}

} // verus!
