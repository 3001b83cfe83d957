//! What is written in a partition table is what is read from it.

use vstd::prelude::*;
use crate::winflash::{
    gpt_signature, header_of, is_high_surrogate, is_low_surrogate, is_used, le_value, name_units,
    pair_char, partition_of, utf16_text, GptError, GptHeader,
};

verus! {

/// The `count` bytes that stand for a number, least significant byte first.
pub open spec fn le_bytes(number: nat, count: nat) -> Seq<u8>
    decreases count,
{
    if count == 0 {
        Seq::empty()
    } else {
        seq![(number % 256) as u8] + le_bytes(number / 256, (count - 1) as nat)
    }
}

/// How many numbers fit in `count` bytes.
pub open spec fn numbers_in(count: nat) -> nat
    decreases count,
{
    if count == 0 {
        1
    } else {
        256 * numbers_in((count - 1) as nat)
    }
}

/// A number that is written in bytes is read back.
pub proof fn lemma_number_is_read_back(number: nat, count: nat)
    requires
        number < numbers_in(count),
    ensures
        le_value(le_bytes(number, count)) == number,
        le_bytes(number, count).len() == count,
    decreases count,
{
    if count > 0 {
        lemma_number_is_read_back(number / 256, (count - 1) as nat);
        let bytes = le_bytes(number, count);
        assert(bytes.drop_first() =~= le_bytes(number / 256, (count - 1) as nat));
        assert(bytes[0] == number % 256);
    }
}

proof fn lemma_widths()
    ensures
        numbers_in(4) == 0x1_0000_0000,
        numbers_in(8) == 0x1_0000_0000_0000_0000,
{
    reveal_with_fuel(numbers_in, 9);
}

/// A header that names the first block of the entries, their number and their size
/// behind the signature `EFI PART` is read as that. It is accepted exactly if there is
/// an entry, and if entries have room for what they hold.
pub proof fn lemma_header_is_read_back(
    filler: Seq<u8>,
    block: u64,
    count: u32,
    size: u32,
    rest: Seq<u8>,
)
    requires
        filler.len() == 64,
    ensures
        ({
            let signature = "EFI PART"@.map_values(|c: char| c as u8);
            let buf = signature + filler + le_bytes(block as nat, 8) + le_bytes(count as nat, 4)
                + le_bytes(size as nat, 4) + rest;
            if size >= 128 && count >= 1 {
                &&& header_of(buf) == Ok::<GptHeader, GptError>(
                    GptHeader { partition_entry_lba: block, num_entries: count, entry_size: size },
                )
                &&& header_of(buf)->Ok_0.offset() == block * 512
                &&& header_of(buf)->Ok_0.extent() == count * size
            } else {
                header_of(buf) == Err::<GptHeader, GptError>(GptError::InvalidEntryFormat)
            }
        }),
{
    reveal_strlit("EFI PART");
    let signature = "EFI PART"@.map_values(|c: char| c as u8);
    let a = le_bytes(block as nat, 8);
    let b = le_bytes(count as nat, 4);
    let c = le_bytes(size as nat, 4);
    lemma_widths();
    lemma_number_is_read_back(block as nat, 8);
    lemma_number_is_read_back(count as nat, 4);
    lemma_number_is_read_back(size as nat, 4);
    let buf = signature + filler + a + b + c + rest;
    assert(buf.subrange(0, 8) =~= gpt_signature());
    assert(buf.subrange(72, 80) =~= a);
    assert(buf.subrange(80, 84) =~= b);
    assert(buf.subrange(84, 88) =~= c);
}

/// A table that does not begin with `EFI PART` is refused.
pub proof fn lemma_signature_is_needed(buf: Seq<u8>)
    requires
        buf.len() >= 8,
    ensures
        (exists|k: int| 0 <= k < 8 && #[trigger] buf[k] != "EFI PART"@[k] as u8) <==> header_of(buf)
            == Err::<GptHeader, GptError>(GptError::MissingSignature),
{
    reveal_strlit("EFI PART");
    let signature = gpt_signature();
    let start = buf.subrange(0, 8);
    if forall|k: int| 0 <= k < 8 ==> #[trigger] buf[k] == "EFI PART"@[k] as u8 {
        assert(start =~= signature);
    } else {
        let k = choose|k: int| 0 <= k < 8 && #[trigger] buf[k] != "EFI PART"@[k] as u8;
        assert(start[k] != signature[k]);
    }
}

/// An entry describes a partition exactly if its type is not all zeros.
pub proof fn lemma_zero_type_is_unused(entry: Seq<u8>)
    requires
        entry.len() >= 16,
    ensures
        is_used(entry) <==> entry.take(16) != Seq::new(16, |k: int| 0u8),
{
    let zeros = Seq::new(16, |k: int| 0u8);
    if !is_used(entry) {
        assert(entry.take(16) =~= zeros);
    } else {
        let k = choose|k: int| 0 <= k < 16 && #[trigger] entry[k] != 0;
        assert(entry.take(16)[k] != zeros[k]);
    }
}

/// An entry that holds a type, an identity, a first and a last block is read as that:
/// the partition has this type and these blocks, and it begins with the first byte of
/// the first block and ends with the last byte of the last.
pub proof fn lemma_entry_is_read_back(
    kind: Seq<u8>,
    identity: Seq<u8>,
    start: u64,
    end: u64,
    rest: Seq<u8>,
    i: int,
)
    requires
        kind.len() == 16,
        identity.len() == 16,
    ensures
        ({
            let entry = kind + identity + le_bytes(start as nat, 8) + le_bytes(end as nat, 8)
                + rest;
            let part = partition_of(entry, i);
            &&& part.index == i + 1
            &&& part.partition_type_guid == kind
            &&& part.start_lba == start
            &&& part.end_lba == end
            &&& part.byte_offset == 512 * start
            &&& part.byte_offset + part.byte_size == 512 * (end + 1)
        }),
{
    let a = le_bytes(start as nat, 8);
    let b = le_bytes(end as nat, 8);
    let entry = kind + identity + a + b + rest;
    lemma_widths();
    lemma_number_is_read_back(start as nat, 8);
    lemma_number_is_read_back(end as nat, 8);
    assert(entry.subrange(32, 40) =~= a);
    assert(entry.subrange(40, 48) =~= b);
    assert(entry.subrange(0, 16) =~= kind);
}

/// The code units of a character in UTF-16.
pub open spec fn units_of(c: char) -> Seq<u16> {
    let code = c as int;
    if code < 0x10000 {
        seq![code as u16]
    } else {
        seq![
            (0xd800 + (code - 0x10000) / 0x400) as u16,
            (0xdc00 + (code - 0x10000) % 0x400) as u16,
        ]
    }
}

/// The code units of a text in UTF-16.
pub open spec fn utf16_units(text: Seq<char>) -> Seq<u16>
    decreases text.len(),
{
    if text.len() == 0 {
        Seq::empty()
    } else {
        units_of(text[0]) + utf16_units(text.skip(1))
    }
}

/// The code of a character is a Unicode scalar value.
proof fn lemma_code_is_scalar(c: char)
    ensures
        0 <= c as int <= 0xd7ff || 0xe000 <= c as int <= 0x10ffff,
{
}

/// A text that is written in UTF-16 is read back.
pub proof fn lemma_text_is_read_back(text: Seq<char>)
    ensures
        utf16_text(utf16_units(text)) == text,
    decreases text.len(),
{
    let units = utf16_units(text);
    if text.len() > 0 {
        let c = text[0];
        let code = c as int;
        lemma_code_is_scalar(c);
        let rest = utf16_units(text.skip(1));
        lemma_text_is_read_back(text.skip(1));
        if code < 0x10000 {
            assert(units.skip(1) =~= rest);
            assert(units[0] == code);
            assert(units[0] as char == c);
            assert(seq![c] + text.skip(1) =~= text);
        } else {
            assert(units.skip(2) =~= rest);
            assert(is_high_surrogate(units[0]) && is_low_surrogate(units[1]));
            assert(pair_char(units[0], units[1]) == c);
            assert(seq![c] + text.skip(1) =~= text);
        }
    } else {
        assert(utf16_text(units) =~= text);
    }
}

/// A half of a pair that stands alone is read as U+FFFD, and what follows it is not
/// lost.
pub proof fn lemma_lone_half_is_replaced(unit: u16, rest: Seq<u16>)
    requires
        0xd800 <= unit <= 0xdfff,
        unit >= 0xdc00 || rest.len() == 0 || rest[0] < 0xdc00 || rest[0] > 0xdfff,
    ensures
        utf16_text(seq![unit] + rest) == seq!['\u{fffd}'] + utf16_text(rest),
{
    let units = seq![unit] + rest;
    assert(units.skip(1) =~= rest);
}

/// A name stands from byte 56 on, has 36 code units at most, and ends before the first
/// that is zero.
pub proof fn lemma_name_ends_at_zero(entry: Seq<u8>)
    requires
        entry.len() >= 128,
    ensures
        ({
            let units = name_units(entry, 0);
            let unit = |k: int| entry[56 + 2 * k] + 256 * entry[57 + 2 * k];
            &&& units.len() <= 36
            &&& forall|k: int|
                0 <= k < units.len() ==> #[trigger] units[k] == unit(k) && units[k] != 0
            &&& units.len() < 36 ==> unit(units.len() as int) == 0
        }),
{
    lemma_name_from(entry, 0);
}

proof fn lemma_name_from(entry: Seq<u8>, from: int)
    requires
        entry.len() >= 128,
        0 <= from <= 36,
    ensures
        ({
            let units = name_units(entry, from);
            let unit = |k: int| entry[56 + 2 * k] + 256 * entry[57 + 2 * k];
            &&& units.len() <= 36 - from
            &&& forall|k: int|
                0 <= k < units.len() ==> #[trigger] units[k] == unit(from + k) && units[k] != 0
            &&& units.len() < 36 - from ==> unit(from + units.len()) == 0
        }),
    decreases 36 - from,
{
    if from < 36 {
        lemma_name_from(entry, from + 1);
        let units = name_units(entry, from);
        let rest = name_units(entry, from + 1);
        if units.len() > 0 {
            assert forall|k: int| 0 <= k < units.len() implies #[trigger] units[k] == entry[56 + 2
                * (from + k)] + 256 * entry[57 + 2 * (from + k)] && units[k] != 0 by {
                if k > 0 {
                    assert(units[k] == rest[k - 1]);
                }
            }
        }
    }
}

} // verus!
