//! GUID partition tables, and the flashing of an image onto a physical drive.

use vstd::prelude::*;
use crate::process::{streams, streams_text, ProcessOutput};
use crate::size::{format_size, size_with_one_place};
use crate::text::{
    chars_of, concat2, decimal, decimal_of, first_word, is_space, join, joined, lemma_first_word,
    matches_at, occurs_at, starts_with, succeeded, texts, trim, trimmed,
};

verus! {

/// The number of bytes in a logical block.
pub const LBA_SIZE: u64 = 512;

/// The number of bytes in the part of the table's header that is read.
pub const HEADER_BYTES: usize = 92;

/// `char::from_u32` gives the character with this code point, and `None` for a
/// number that is no Unicode scalar value.
pub assume_specification[ char::from_u32 ](i: u32) -> (r: Option<char>)
    ensures
        r == (if i < 0xd800 || 0xdfff < i <= 0x10ffff {
            Some(i as char)
        } else {
            None
        }),
;

/// The number that `bytes` hold, least significant byte first.
pub open spec fn le_value(bytes: Seq<u8>) -> nat
    decreases bytes.len(),
{
    if bytes.len() == 0 {
        0
    } else {
        bytes[0] as nat + 256 * le_value(bytes.drop_first())
    }
}

/// 256 to the power of `n`.
pub open spec fn pow256(n: nat) -> nat
    decreases n,
{
    if n == 0 {
        1
    } else {
        256 * pow256((n - 1) as nat)
    }
}

proof fn lemma_le_value_bound(bytes: Seq<u8>)
    ensures
        le_value(bytes) < pow256(bytes.len()),
    decreases bytes.len(),
{
    if bytes.len() > 0 {
        lemma_le_value_bound(bytes.drop_first());
    }
}

fn le_number(bytes: &[u8], from: usize, count: usize) -> (r: u64)
    requires
        from + count <= bytes@.len(),
        count <= 8,
    ensures
        r == le_value(bytes@.subrange(from as int, from + count)),
        r < pow256(count as nat),
{
    let ghost end = from + count;
    assert(bytes@.len() == bytes.len());
    let mut r: u64 = 0;
    let mut k: usize = count;
    proof {
        reveal_with_fuel(pow256, 9);
        assert(bytes@.subrange(end, end) == Seq::<u8>::empty());
    }
    while k > 0
        invariant
            end == from + count,
            end <= bytes@.len() <= usize::MAX,
            k <= count <= 8,
            r == le_value(bytes@.subrange(from + k, end)),
        decreases k,
    {
        let ghost tail = bytes@.subrange(from + k, end);
        k -= 1;
        proof {
            let longer = bytes@.subrange(from + k, end);
            assert(longer.drop_first() == tail);
            lemma_le_value_bound(longer);
            reveal_with_fuel(pow256, 9);
        }
        r = bytes[from + k] as u64 + 256 * r;
    }
    proof {
        lemma_le_value_bound(bytes@.subrange(from as int, end));
    }
    r
}

/// Why a disk's partition table cannot be read.
#[derive(Debug, Clone, Copy, PartialEq, Eq, Structural)]
pub enum GptError {
    /// The disk ends before the table does.
    UnexpectedEof,
    /// The header does not begin with the signature of a partition table.
    MissingSignature,
    /// The table has no entries, or its entries are too short.
    InvalidEntryFormat,
}

impl GptError {
    /// The text that reports the error.
    pub open spec fn text(self) -> Seq<char> {
        match self {
            GptError::UnexpectedEof => "failed to fill whole buffer"@,
            GptError::MissingSignature => "Not a valid GPT disk (missing EFI PART signature)"@,
            GptError::InvalidEntryFormat => "Invalid GPT partition entry format"@,
        }
    }

    /// The text that reports the error.
    pub fn message(self) -> (r: String)
        ensures
            r@ == self.text(),
    {
        match self {
            GptError::UnexpectedEof => "failed to fill whole buffer".to_string(),
            GptError::MissingSignature => {
                "Not a valid GPT disk (missing EFI PART signature)".to_string()
            },
            GptError::InvalidEntryFormat => "Invalid GPT partition entry format".to_string(),
        }
    }
}

/// Where a partition table's entries stand, how many there are, and how many
/// bytes each of them takes.
#[derive(Debug, Clone, Copy, PartialEq, Eq, Structural)]
pub struct GptHeader {
    pub partition_entry_lba: u64,
    pub num_entries: u32,
    pub entry_size: u32,
}

/// The eight bytes `EFI PART`.
pub open spec fn gpt_signature() -> Seq<u8> {
    seq![0x45u8, 0x46u8, 0x49u8, 0x20u8, 0x50u8, 0x41u8, 0x52u8, 0x54u8]
}

/// The numbers that a header holds.
pub open spec fn header_fields(buf: Seq<u8>) -> GptHeader {
    GptHeader {
        partition_entry_lba: le_value(buf.subrange(72, 80)) as u64,
        num_entries: le_value(buf.subrange(80, 84)) as u32,
        entry_size: le_value(buf.subrange(84, 88)) as u32,
    }
}

/// What a header says, or why it is refused.
pub open spec fn header_of(buf: Seq<u8>) -> Result<GptHeader, GptError> {
    let h = header_fields(buf);
    if buf.subrange(0, 8) != gpt_signature() {
        Err(GptError::MissingSignature)
    } else if h.entry_size < 128 || h.num_entries == 0 {
        Err(GptError::InvalidEntryFormat)
    } else {
        Ok(h)
    }
}

/// Reads the header of a partition table, which stands in the disk's second
/// block.
pub fn parse_gpt_header(buf: &[u8]) -> (r: Result<GptHeader, GptError>)
    requires
        buf@.len() == HEADER_BYTES,
    ensures
        r == header_of(buf@),
{
    proof {
        reveal_with_fuel(pow256, 9);
    }
    if !(buf[0] == 0x45 && buf[1] == 0x46 && buf[2] == 0x49 && buf[3] == 0x20 && buf[4] == 0x50
        && buf[5] == 0x41 && buf[6] == 0x52 && buf[7] == 0x54) {
        proof {
            let s = buf@.subrange(0, 8);
            assert(s[0] == buf@[0] && s[1] == buf@[1] && s[2] == buf@[2] && s[3] == buf@[3] && s[4]
                == buf@[4] && s[5] == buf@[5] && s[6] == buf@[6] && s[7] == buf@[7]);
        }
        return Err(GptError::MissingSignature);
    }
    assert(buf@.subrange(0, 8) == gpt_signature());
    let partition_entry_lba: u64 = le_number(buf, 72, 8);
    let num_entries: u32 = le_number(buf, 80, 4) as u32;
    let entry_size: u32 = le_number(buf, 84, 4) as u32;
    if entry_size < 128 || num_entries == 0 {
        return Err(GptError::InvalidEntryFormat);
    }
    Ok(GptHeader { partition_entry_lba, num_entries, entry_size })
}

impl GptHeader {
    /// The byte at which the entries begin.
    pub open spec fn offset(self) -> int {
        self.partition_entry_lba * LBA_SIZE
    }

    /// The number of bytes that the entries take.
    pub open spec fn extent(self) -> int {
        self.num_entries * self.entry_size
    }

    /// Whether the byte at which the entries begin can be counted in 64 bits.
    pub fn offset_fits(&self) -> (r: bool)
        ensures
            r == (self.offset() <= u64::MAX),
    {
        self.partition_entry_lba <= u64::MAX / LBA_SIZE
    }

    /// The byte at which the entries begin.
    pub fn entries_byte_offset(&self) -> (r: u64)
        requires
            self.offset() <= u64::MAX,
        ensures
            r == self.offset(),
    {
        self.partition_entry_lba * LBA_SIZE
    }

    /// The number of bytes that the entries take.
    pub fn entries_total_size(&self) -> (r: u64)
        ensures
            r == self.extent(),
    {
        proof {
            assert(self.num_entries * self.entry_size <= 0xffff_ffff * 0xffff_ffff)
                by (nonlinear_arith)
                requires
                    self.num_entries <= 0xffff_ffff,
                    self.entry_size <= 0xffff_ffff,
            ;
        }
        self.num_entries as u64 * self.entry_size as u64
    }
}

/// Whether an entry describes a partition: its type is not all zeros.
pub open spec fn is_used(entry: Seq<u8>) -> bool {
    exists|k: int| 0 <= k < 16 && #[trigger] entry[k] != 0
}

/// The first block of an entry's partition.
pub open spec fn entry_start(entry: Seq<u8>) -> int {
    le_value(entry.subrange(32, 40)) as int
}

/// The last block of an entry's partition.
pub open spec fn entry_end(entry: Seq<u8>) -> int {
    le_value(entry.subrange(40, 48)) as int
}

/// Whether the place and the size of an entry's partition can be counted in
/// bytes with 64 bits.
pub open spec fn entry_in_range(entry: Seq<u8>) -> bool {
    &&& entry_start(entry) <= entry_end(entry)
    &&& entry_start(entry) * LBA_SIZE <= u64::MAX
    &&& (entry_end(entry) - entry_start(entry) + 1) * LBA_SIZE <= u64::MAX
}

/// The `k`th of the 36 UTF-16 code units in an entry's name.
pub open spec fn name_unit(entry: Seq<u8>, k: int) -> u16 {
    (entry[56 + 2 * k] + 256 * entry[57 + 2 * k]) as u16
}

/// The code units of an entry's name from the `k`th on, up to the first zero.
pub open spec fn name_units(entry: Seq<u8>, k: int) -> Seq<u16>
    decreases 36 - k,
{
    if k >= 36 || name_unit(entry, k) == 0 {
        Seq::empty()
    } else {
        seq![name_unit(entry, k)] + name_units(entry, k + 1)
    }
}

/// The first half of a surrogate pair.
pub open spec fn is_high_surrogate(u: u16) -> bool {
    0xd800 <= u <= 0xdbff
}

/// The second half of a surrogate pair.
pub open spec fn is_low_surrogate(u: u16) -> bool {
    0xdc00 <= u <= 0xdfff
}

/// The character that a surrogate pair stands for.
pub open spec fn pair_char(high: u16, low: u16) -> char {
    (0x10000 + (high - 0xd800) * 0x400 + (low - 0xdc00)) as char
}

/// The text that UTF-16 code units hold, with U+FFFD for each surrogate that is
/// not part of a pair.
pub open spec fn utf16_text(units: Seq<u16>) -> Seq<char>
    decreases units.len(),
{
    if units.len() == 0 {
        Seq::empty()
    } else if is_high_surrogate(units[0]) && units.len() > 1 && is_low_surrogate(units[1]) {
        seq![pair_char(units[0], units[1])] + utf16_text(units.skip(2))
    } else if is_high_surrogate(units[0]) || is_low_surrogate(units[0]) {
        seq!['\u{fffd}'] + utf16_text(units.skip(1))
    } else {
        seq![units[0] as char] + utf16_text(units.skip(1))
    }
}

/// Decodes UTF-16, with U+FFFD for each surrogate that is not part of a pair.
pub fn decode_utf16_lossy(units: &Vec<u16>) -> (r: String)
    ensures
        r@ == utf16_text(units@),
{
    let mut r = String::new();
    let mut i: usize = 0;
    assert(units@.skip(0) == units@);
    while i < units.len()
        invariant
            i <= units@.len(),
            r@ + utf16_text(units@.skip(i as int)) == utf16_text(units@),
        decreases units@.len() - i,
    {
        let u: u16 = units[i];
        let ghost before = r@;
        let ghost rest = units@.skip(i as int);
        assert(rest[0] == u);
        assert(rest.skip(1) == units@.skip(i + 1));
        if 0xd800 <= u && u <= 0xdbff && units.len() - i > 1 && 0xdc00 <= units[i + 1] && units[i
            + 1] <= 0xdfff {
            let low: u16 = units[i + 1];
            assert(rest[1] == low);
            assert(rest.skip(2) == units@.skip(i + 2));
            let code: u32 = 0x10000 + (u as u32 - 0xd800) * 0x400 + (low as u32 - 0xdc00);
            match char::from_u32(code) {
                Some(c) => {
                    r.push(c);
                    assert(code == 0x10000 + (u - 0xd800) * 0x400 + (low - 0xdc00));
                    assert(c == pair_char(u, low));
                    assert(r@ == before + seq![c]);
                },
                None => {
                    assert(false);
                },
            }
            i += 2;
        } else if 0xd800 <= u && u <= 0xdfff {
            r.push('\u{fffd}');
            assert(r@ == before + seq!['\u{fffd}']);
            i += 1;
        } else {
            match char::from_u32(u as u32) {
                Some(c) => {
                    r.push(c);
                    assert(c == u as char);
                    assert(r@ == before + seq![c]);
                },
                None => {
                    assert(false);
                },
            }
            i += 1;
        }
        assert(r@ + utf16_text(units@.skip(i as int)) == before + utf16_text(rest));
    }
    assert(units@.skip(i as int) == Seq::<u16>::empty());
    r
}

/// Information about a single GPT partition.
#[derive(Debug)]
pub struct GptPartition {
    pub index: u32,
    pub start_lba: u64,
    pub end_lba: u64,
    pub byte_offset: u64,
    pub byte_size: u64,
    pub partition_type_guid: [u8; 16],
    pub name: String,
}

/// What a partition table says of a partition.
pub struct PartitionView {
    pub index: int,
    pub start_lba: int,
    pub end_lba: int,
    pub byte_offset: int,
    pub byte_size: int,
    pub partition_type_guid: Seq<u8>,
    pub name: Seq<char>,
}

impl View for GptPartition {
    type V = PartitionView;

    open spec fn view(&self) -> PartitionView {
        PartitionView {
            index: self.index as int,
            start_lba: self.start_lba as int,
            end_lba: self.end_lba as int,
            byte_offset: self.byte_offset as int,
            byte_size: self.byte_size as int,
            partition_type_guid: self.partition_type_guid@,
            name: self.name@,
        }
    }
}

/// The partitions that a list holds.
pub open spec fn views(parts: Seq<GptPartition>) -> Seq<PartitionView> {
    parts.map_values(|p: GptPartition| p@)
}

/// The partition that the entry at position `i` describes.
pub open spec fn partition_of(entry: Seq<u8>, i: int) -> PartitionView {
    PartitionView {
        index: i + 1,
        start_lba: entry_start(entry),
        end_lba: entry_end(entry),
        byte_offset: entry_start(entry) * LBA_SIZE,
        byte_size: (entry_end(entry) - entry_start(entry) + 1) * LBA_SIZE,
        partition_type_guid: entry.subrange(0, 16),
        name: utf16_text(name_units(entry, 0)),
    }
}

/// The entry at position `i` of a table whose entries take `size` bytes each.
pub open spec fn entry_at(entries: Seq<u8>, size: int, i: int) -> Seq<u8> {
    entries.subrange(i * size, i * size + size)
}

/// The partitions that the first `n` entries of a table describe, in order.
pub open spec fn partitions_of(entries: Seq<u8>, size: int, n: int) -> Seq<PartitionView>
    decreases n,
{
    if n <= 0 {
        Seq::empty()
    } else {
        let rest = partitions_of(entries, size, n - 1);
        let entry = entry_at(entries, size, n - 1);
        if is_used(entry) {
            rest.push(partition_of(entry, n - 1))
        } else {
            rest
        }
    }
}

/// Whether each of the first `n` entries that describes a partition has one
/// that can be counted in bytes with 64 bits.
pub open spec fn all_in_range(entries: Seq<u8>, size: int, n: int) -> bool {
    forall|i: int|
        #![trigger entry_at(entries, size, i)]
        0 <= i < n && is_used(entry_at(entries, size, i)) ==> entry_in_range(
            entry_at(entries, size, i),
        )
}

fn entry_used(entry: &[u8]) -> (r: bool)
    requires
        entry@.len() >= 128,
    ensures
        r == is_used(entry@),
{
    let mut k: usize = 0;
    while k < 16
        invariant
            entry@.len() >= 128,
            k <= 16,
            forall|j: int| 0 <= j < k ==> entry@[j] == 0,
        decreases 16 - k,
    {
        if entry[k] != 0 {
            return true;
        }
        k += 1;
    }
    false
}

fn entry_fits(entry: &[u8]) -> (r: bool)
    requires
        entry@.len() >= 128,
    ensures
        r == entry_in_range(entry@),
{
    let start: u64 = le_number(entry, 32, 8);
    let end: u64 = le_number(entry, 40, 8);
    start <= end && start <= u64::MAX / LBA_SIZE && end - start < u64::MAX / LBA_SIZE
}

fn entry_name(entry: &[u8]) -> (r: String)
    requires
        entry@.len() >= 128,
    ensures
        r@ == utf16_text(name_units(entry@, 0)),
{
    let mut units: Vec<u16> = Vec::new();
    let mut k: usize = 0;
    while k < 36
        invariant
            entry@.len() >= 128,
            k <= 36,
            units@ + name_units(entry@, k as int) == name_units(entry@, 0),
        decreases 36 - k,
    {
        let unit: u16 = entry[56 + 2 * k] as u16 + 256 * entry[57 + 2 * k] as u16;
        assert(unit == name_unit(entry@, k as int));
        if unit == 0 {
            assert(units@ == name_units(entry@, 0));
            return decode_utf16_lossy(&units);
        }
        let ghost before = units@;
        units.push(unit);
        k += 1;
        assert(units@ + name_units(entry@, k as int) == before + (seq![unit] + name_units(
            entry@,
            k as int,
        )));
    }
    assert(units@ == name_units(entry@, 0));
    decode_utf16_lossy(&units)
}

fn entry_partition(entry: &[u8], i: u32) -> (r: GptPartition)
    requires
        entry@.len() >= 128,
        entry_in_range(entry@),
        i < u32::MAX,
    ensures
        r@ == partition_of(entry@, i as int),
{
    let start_lba: u64 = le_number(entry, 32, 8);
    let end_lba: u64 = le_number(entry, 40, 8);
    let guid: [u8; 16] = [
        entry[0],
        entry[1],
        entry[2],
        entry[3],
        entry[4],
        entry[5],
        entry[6],
        entry[7],
        entry[8],
        entry[9],
        entry[10],
        entry[11],
        entry[12],
        entry[13],
        entry[14],
        entry[15],
    ];
    assert(guid@ == entry@.subrange(0, 16));
    GptPartition {
        index: i + 1,
        start_lba,
        end_lba,
        byte_offset: start_lba * LBA_SIZE,
        byte_size: (end_lba - start_lba + 1) * LBA_SIZE,
        partition_type_guid: guid,
        name: entry_name(entry),
    }
}

impl GptHeader {
    /// Whether the header can stand before a table of `len` bytes.
    pub open spec fn covers(self, len: nat) -> bool {
        self.entry_size >= 128 && self.num_entries > 0 && self.extent() == len
    }

    /// Whether each partition in the table can be counted in bytes with 64 bits.
    pub fn entries_in_range(&self, entries: &[u8]) -> (r: bool)
        requires
            self.covers(entries@.len()),
        ensures
            r == all_in_range(entries@, self.entry_size as int, self.num_entries as int),
    {
        let mut i: u32 = 0;
        while i < self.num_entries
            invariant
                i <= self.num_entries,
                self.covers(entries@.len()),
                all_in_range(entries@, self.entry_size as int, i as int),
            decreases self.num_entries - i,
        {
            let entry = self.entry(entries, i);
            assert(entry@ == entry_at(entries@, self.entry_size as int, i as int));
            if entry_used(entry) && !entry_fits(entry) {
                return false;
            }
            i += 1;
        }
        true
    }

    fn entry<'a>(&self, entries: &'a [u8], i: u32) -> (r: &'a [u8])
        requires
            self.covers(entries@.len()),
            i < self.num_entries,
        ensures
            r@ == entry_at(entries@, self.entry_size as int, i as int),
            r@.len() == self.entry_size,
    {
        proof {
            assert(i * self.entry_size + self.entry_size <= self.extent()) by (nonlinear_arith)
                requires
                    i < self.num_entries,
                    self.extent() == self.num_entries * self.entry_size,
            ;
            assert(0 <= i * self.entry_size) by (nonlinear_arith);
            assert(entries@.len() == entries.len());
        }
        let size: usize = self.entry_size as usize;
        let start: usize = i as usize * size;
        vstd::slice::slice_subrange(entries, start, start + size)
    }
}

/// Reads the entries of a partition table.
pub fn parse_gpt_entries(header: &GptHeader, entries: &[u8]) -> (r: Vec<GptPartition>)
    requires
        header.covers(entries@.len()),
        all_in_range(entries@, header.entry_size as int, header.num_entries as int),
    ensures
        views(r@) == partitions_of(entries@, header.entry_size as int, header.num_entries as int),
{
    let mut parts: Vec<GptPartition> = Vec::new();
    let ghost size = header.entry_size as int;
    let mut i: u32 = 0;
    while i < header.num_entries
        invariant
            size == header.entry_size,
            i <= header.num_entries,
            header.covers(entries@.len()),
            all_in_range(entries@, size, header.num_entries as int),
            views(parts@) == partitions_of(entries@, size, i as int),
        decreases header.num_entries - i,
    {
        let entry = header.entry(entries, i);
        if entry_used(entry) {
            let ghost before = parts@;
            assert(entry_in_range(entry_at(entries@, size, i as int)));
            let part = entry_partition(entry, i);
            parts.push(part);
            assert(views(parts@) == views(before).push(part@));
        }
        i += 1;
    }
    parts
}

/// The header of the partition table on a disk, or why it is refused.
pub open spec fn disk_header(disk: Seq<u8>) -> Result<GptHeader, GptError> {
    if disk.len() < LBA_SIZE + HEADER_BYTES {
        Err(GptError::UnexpectedEof)
    } else {
        header_of(disk.subrange(LBA_SIZE as int, LBA_SIZE + HEADER_BYTES))
    }
}

/// The bytes of the table that a header stands for.
pub open spec fn disk_entries(disk: Seq<u8>, h: GptHeader) -> Seq<u8> {
    disk.subrange(h.offset(), h.offset() + h.extent())
}

/// The partitions on a disk, or why its table is refused.
pub open spec fn disk_partitions(disk: Seq<u8>) -> Result<Seq<PartitionView>, GptError> {
    match disk_header(disk) {
        Err(e) => Err(e),
        Ok(h) => if h.offset() + h.extent() > disk.len() {
            Err(GptError::UnexpectedEof)
        } else {
            Ok(partitions_of(disk_entries(disk, h), h.entry_size as int, h.num_entries as int))
        },
    }
}

/// Whether the places that a disk's partition table speaks of can be counted in
/// bytes with 64 bits.
pub open spec fn disk_in_range(disk: Seq<u8>) -> bool {
    disk_header(disk) matches Ok(h) ==> {
        &&& h.offset() <= u64::MAX
        &&& h.offset() + h.extent() <= disk.len() ==> all_in_range(
            disk_entries(disk, h),
            h.entry_size as int,
            h.num_entries as int,
        )
    }
}

/// Whether the places that a disk's partition table speaks of can be counted in
/// bytes with 64 bits.
pub fn places_in_range(disk: &[u8]) -> (r: bool)
    ensures
        r == disk_in_range(disk@),
{
    assert(disk@.len() == disk.len());
    let start: usize = LBA_SIZE as usize;
    if disk.len() < start + HEADER_BYTES {
        return true;
    }
    let header = match parse_gpt_header(
        vstd::slice::slice_subrange(disk, start, start + HEADER_BYTES),
    ) {
        Ok(h) => h,
        Err(_) => {
            return true;
        },
    };
    if !header.offset_fits() {
        return false;
    }
    let offset: u64 = header.entries_byte_offset();
    let extent: u64 = header.entries_total_size();
    let len: u64 = disk.len() as u64;
    if offset > len || extent > len - offset {
        return true;
    }
    let from: usize = offset as usize;
    let to: usize = from + extent as usize;
    let entries = vstd::slice::slice_subrange(disk, from, to);
    assert(entries@ == disk_entries(disk@, header));
    header.entries_in_range(entries)
}

/// Reads the partition table of a disk whose bytes are `disk`.
pub fn read_gpt_partitions(disk: &[u8]) -> (r: Result<Vec<GptPartition>, GptError>)
    requires
        disk_in_range(disk@),
    ensures
        match r {
            Ok(parts) => disk_partitions(disk@) == Ok::<Seq<PartitionView>, GptError>(
                views(parts@),
            ),
            Err(e) => disk_partitions(disk@) == Err::<Seq<PartitionView>, GptError>(e),
        },
{
    assert(disk@.len() == disk.len());
    let start: usize = LBA_SIZE as usize;
    if disk.len() < start + HEADER_BYTES {
        return Err(GptError::UnexpectedEof);
    }
    let header = match parse_gpt_header(
        vstd::slice::slice_subrange(disk, start, start + HEADER_BYTES),
    ) {
        Ok(h) => h,
        Err(e) => {
            return Err(e);
        },
    };
    let offset: u64 = header.entries_byte_offset();
    let extent: u64 = header.entries_total_size();
    let len: u64 = disk.len() as u64;
    if offset > len || extent > len - offset {
        return Err(GptError::UnexpectedEof);
    }
    let from: usize = offset as usize;
    let to: usize = from + extent as usize;
    let entries = vstd::slice::slice_subrange(disk, from, to);
    assert(entries@ == disk_entries(disk@, header));
    Ok(parse_gpt_entries(&header, entries))
}

/// A table lists its partitions in the order of its entries: each has its
/// entry's number, counted from one, and no two have the same.
pub proof fn lemma_partitions_are_ordered(entries: Seq<u8>, size: int, n: int)
    ensures
        partitions_of(entries, size, n).len() <= if n < 0 {
            0
        } else {
            n
        },
        forall|a: int|
            #![trigger partitions_of(entries, size, n)[a]]
            0 <= a < partitions_of(entries, size, n).len() ==> {
                let p = partitions_of(entries, size, n)[a];
                let entry = entry_at(entries, size, p.index - 1);
                &&& 1 <= p.index <= n
                &&& is_used(entry)
                &&& p == partition_of(entry, p.index - 1)
            },
        forall|a: int, b: int|
            0 <= a < b < partitions_of(entries, size, n).len() ==> (#[trigger] partitions_of(
                entries,
                size,
                n,
            )[a]).index < (#[trigger] partitions_of(entries, size, n)[b]).index,
    decreases n,
{
    if n > 0 {
        lemma_partitions_are_ordered(entries, size, n - 1);
    }
}

/// A table lists a partition for each of its entries that describes one.
pub proof fn lemma_partitions_are_complete(entries: Seq<u8>, size: int, n: int, i: int)
    requires
        0 <= i < n,
        is_used(entry_at(entries, size, i)),
    ensures
        partitions_of(entries, size, n).contains(partition_of(entry_at(entries, size, i), i)),
    decreases n,
{
    let all = partitions_of(entries, size, n);
    let p = partition_of(entry_at(entries, size, i), i);
    if i == n - 1 {
        assert(all[all.len() - 1] == p);
    } else {
        lemma_partitions_are_complete(entries, size, n - 1, i);
        let rest = partitions_of(entries, size, n - 1);
        let k = choose|k: int| 0 <= k < rest.len() && rest[k] == p;
        assert(all[k] == p);
    }
}

/// Where a partition fits, its bytes begin at its first block, it is not empty,
/// and it ends with its last block.
pub proof fn lemma_partition_extent(entry: Seq<u8>, i: int)
    requires
        entry_in_range(entry),
    ensures
        partition_of(entry, i).byte_size >= LBA_SIZE,
        partition_of(entry, i).byte_offset + partition_of(entry, i).byte_size == (partition_of(
            entry,
            i,
        ).end_lba + 1) * LBA_SIZE,
{
}

/// The image holds no partition, so that there is nothing to write.
#[derive(Debug, Clone, Copy, PartialEq, Eq, Structural)]
pub struct NoPartitions;

impl NoPartitions {
    /// The text that reports the error.
    pub fn message(self) -> (r: String)
        ensures
            r@ == "Image has no GPT partitions"@,
    {
        "Image has no GPT partitions".to_string()
    }
}

/// The byte at which a partition ends.
pub open spec fn end_of(part: GptPartition) -> int {
    part.byte_offset + part.byte_size
}

/// Whether the ends of all partitions can be counted in bytes with 64 bits.
pub open spec fn ends_fit(parts: Seq<GptPartition>) -> bool {
    forall|i: int| 0 <= i < parts.len() ==> end_of(#[trigger] parts[i]) <= u64::MAX
}

/// Whether the ends of all partitions can be counted in bytes with 64 bits.
pub fn ends_in_range(parts: &Vec<GptPartition>) -> (r: bool)
    ensures
        r == ends_fit(parts@),
{
    let mut i: usize = 0;
    while i < parts.len()
        invariant
            i <= parts@.len(),
            forall|k: int| 0 <= k < i ==> end_of(#[trigger] parts@[k]) <= u64::MAX,
        decreases parts@.len() - i,
    {
        if parts[i].byte_offset > u64::MAX - parts[i].byte_size {
            assert(end_of(parts@[i as int]) > u64::MAX);
            return false;
        }
        i += 1;
    }
    true
}

/// The furthest byte at which one of the partitions ends.
pub open spec fn furthest_end(parts: Seq<GptPartition>) -> int
    decreases parts.len(),
{
    if parts.len() == 0 {
        0
    } else {
        let before = furthest_end(parts.drop_last());
        if end_of(parts.last()) > before {
            end_of(parts.last())
        } else {
            before
        }
    }
}

/// No partition ends further out, and one of them ends there.
pub proof fn lemma_furthest_end(parts: Seq<GptPartition>)
    ensures
        forall|i: int| 0 <= i < parts.len() ==> end_of(#[trigger] parts[i]) <= furthest_end(parts),
        parts.len() > 0 ==> exists|i: int|
            0 <= i < parts.len() && end_of(#[trigger] parts[i]) == furthest_end(parts),
        furthest_end(parts) >= 0,
    decreases parts.len(),
{
    if parts.len() > 0 {
        let front = parts.drop_last();
        lemma_furthest_end(front);
        assert forall|i: int| 0 <= i < parts.len() implies end_of(#[trigger] parts[i])
            <= furthest_end(parts) by {
            if i < front.len() {
                assert(front[i] == parts[i]);
            }
        }
        if end_of(parts.last()) > furthest_end(front) || front.len() == 0 {
            assert(end_of(parts[parts.len() - 1]) == furthest_end(parts));
        } else {
            let i = choose|i: int|
                0 <= i < front.len() && end_of(#[trigger] front[i]) == furthest_end(front);
            assert(end_of(parts[i]) == furthest_end(parts));
        }
    }
}

/// The number of bytes from the start of an image to the end of the partition
/// that lies furthest out, whatever its place in the table: all of the image that
/// its table and its partitions take.
pub fn write_extent(parts: &Vec<GptPartition>) -> (r: Result<u64, NoPartitions>)
    requires
        forall|i: int|
            0 <= i < parts@.len() ==> (#[trigger] parts@[i]).byte_offset + parts@[i].byte_size
                <= u64::MAX,
    ensures
        match r {
            Ok(end) => {
                &&& parts@.len() > 0
                &&& end == furthest_end(parts@)
                &&& exists|i: int|
                    0 <= i < parts@.len() && end == (#[trigger] parts@[i]).byte_offset
                        + parts@[i].byte_size
                &&& forall|i: int|
                    0 <= i < parts@.len() ==> (#[trigger] parts@[i]).byte_offset
                        + parts@[i].byte_size <= end
            },
            Err(_) => parts@.len() == 0,
        },
{
    if parts.len() == 0 {
        return Err(NoPartitions);
    }
    let mut end: u64 = 0;
    let mut i: usize = 0;
    while i < parts.len()
        invariant
            i <= parts@.len(),
            forall|k: int|
                0 <= k < parts@.len() ==> (#[trigger] parts@[k]).byte_offset + parts@[k].byte_size
                    <= u64::MAX,
            end == furthest_end(parts@.take(i as int)),
        decreases parts@.len() - i,
    {
        let part_end: u64 = parts[i].byte_offset + parts[i].byte_size;
        assert(parts@.take(i + 1).drop_last() == parts@.take(i as int));
        assert(parts@.take(i + 1).last() == parts@[i as int]);
        if part_end > end {
            end = part_end;
        }
        i += 1;
    }
    proof {
        assert(parts@.take(i as int) == parts@);
        lemma_furthest_end(parts@);
        let k = choose|k: int|
            0 <= k < parts@.len() && end_of(#[trigger] parts@[k]) == furthest_end(parts@);
        assert(end == parts@[k].byte_offset + parts@[k].byte_size);
        assert forall|k: int| 0 <= k < parts@.len() implies (#[trigger] parts@[k]).byte_offset
            + parts@[k].byte_size <= end by {
            assert(end_of(parts@[k]) <= furthest_end(parts@));
        }
    }
    Ok(end)
}

/// The number of bytes that are copied at a time: 8 MiB.
pub const CHUNK_SIZE: u64 = 8388608;

/// The sizes of the chunks in which `remaining` bytes are copied.
pub open spec fn chunks(remaining: int) -> Seq<int>
    decreases remaining,
{
    if remaining <= 0 {
        Seq::empty()
    } else if remaining < CHUNK_SIZE {
        seq![remaining]
    } else {
        seq![CHUNK_SIZE as int] + chunks(remaining - CHUNK_SIZE)
    }
}

/// The number of bytes to copy next when `remaining` are left.
pub fn next_chunk(remaining: u64) -> (r: u64)
    ensures
        r == if remaining < CHUNK_SIZE {
            remaining
        } else {
            CHUNK_SIZE
        },
        remaining > 0 ==> r > 0 && chunks(remaining as int) == seq![r as int] + chunks(
            remaining - r,
        ),
{
    if remaining < CHUNK_SIZE {
        remaining
    } else {
        CHUNK_SIZE
    }
}

/// The sum of a list of sizes.
pub open spec fn total(sizes: Seq<int>) -> int
    decreases sizes.len(),
{
    if sizes.len() == 0 {
        0
    } else {
        sizes[0] + total(sizes.drop_first())
    }
}

/// Chunk by chunk, exactly the requested number of bytes is copied, and no chunk
/// is empty or larger than the buffer.
pub proof fn lemma_chunks_cover(remaining: int)
    requires
        0 <= remaining,
    ensures
        total(chunks(remaining)) == remaining,
        forall|i: int| 0 <= i < chunks(remaining).len() ==> 0 < #[trigger] chunks(remaining)[i] <= CHUNK_SIZE,
    decreases remaining,
{
    if remaining > 0 {
        let all = chunks(remaining);
        if remaining < CHUNK_SIZE {
            assert(all.drop_first() == Seq::<int>::empty());
            assert(total(Seq::<int>::empty()) == 0);
        } else {
            lemma_chunks_cover(remaining - CHUNK_SIZE);
            assert(all.drop_first() == chunks(remaining - CHUNK_SIZE));
            assert forall|i: int| 0 <= i < all.len() implies 0 < #[trigger] all[i] <= CHUNK_SIZE by {
                if i > 0 {
                    assert(all[i] == chunks(remaining - CHUNK_SIZE)[i - 1]);
                }
            }
        }
    }
}

/// How a partition is reported before an image is written.
pub open spec fn partition_line(p: PartitionView) -> Seq<char> {
    "#"@ + decimal(p.index as nat) + " "@ + p.name + " @ "@ + size_with_one_place(
        p.byte_offset as nat,
    ) + " size "@ + size_with_one_place(p.byte_size as nat)
}

/// How an image's partitions are reported before it is written.
pub fn describe_partitions(parts: &Vec<GptPartition>) -> (r: String)
    ensures
        r@ == joined(views(parts@).map_values(|p: PartitionView| partition_line(p)), ", "@),
{
    let mut lines: Vec<String> = Vec::new();
    let ghost all = views(parts@).map_values(|p: PartitionView| partition_line(p));
    let mut i: usize = 0;
    while i < parts.len()
        invariant
            i <= parts@.len(),
            all == views(parts@).map_values(|p: PartitionView| partition_line(p)),
            texts(lines@) == all.take(i as int),
        decreases parts@.len() - i,
    {
        let p = &parts[i];
        let mut line = "#".to_string();
        line.append(decimal_of(p.index as u64).as_str());
        line.append(" ");
        line.append(p.name.as_str());
        line.append(" @ ");
        line.append(format_size(p.byte_offset).as_str());
        line.append(" size ");
        line.append(format_size(p.byte_size).as_str());
        let ghost before = lines@;
        lines.push(line);
        assert(texts(lines@) == texts(before).push(line@));
        assert(line@ == all[i as int]);
        assert(all.take(i + 1) == all.take(i as int).push(all[i as int]));
        i += 1;
    }
    assert(all.take(parts@.len() as int) == all);
    join(&lines, ", ")
}

/// What stands before the number in the name of a physical drive.
pub const DRIVE_PREFIX: &'static str = r"\\.\PhysicalDrive";

/// The same in capitals.
pub const DRIVE_PREFIX_UPPER: &'static str = r"\\.\PHYSICALDRIVE";

/// The path of the physical drive with this index.
pub open spec fn drive_path(index: nat) -> Seq<char> {
    DRIVE_PREFIX@ + decimal(index)
}

/// How a physical drive is listed.
pub open spec fn drive_text(index: nat, model: Seq<char>, size: nat) -> Seq<char> {
    drive_path(index) + "  ("@ + size_with_one_place(size) + " - "@ + model + ")"@
}

/// The path of the physical drive with this index.
pub fn physical_drive_path(index: u32) -> (r: String)
    ensures
        r@ == drive_path(index as nat),
{
    let mut r = DRIVE_PREFIX.to_string();
    r.append(decimal_of(index as u64).as_str());
    r
}

/// How a physical drive is listed.
pub fn drive_label(index: u32, model: &str, size: u64) -> (r: String)
    ensures
        r@ == drive_text(index as nat, model@, size as nat),
{
    let mut r = physical_drive_path(index);
    r.append("  (");
    r.append(format_size(size).as_str());
    r.append(" - ");
    r.append(model);
    r.append(")");
    r
}

/// The lines with which `diskpart` removes all partitions from a drive.
pub fn clean_script(index: u32) -> (r: String)
    ensures
        r@ == "select disk "@ + decimal(index as nat) + "\r\nclean\r\n"@,
{
    let mut r = "select disk ".to_string();
    r.append(decimal_of(index as u64).as_str());
    r.append("\r\nclean\r\n");
    r
}

/// What is said when `diskpart` fails.
pub open spec fn clean_failed_text(output: ProcessOutput<Seq<char>>) -> Seq<char> {
    "diskpart clean failed: "@ + trimmed(output.stderr) + "\nstdout: "@ + trimmed(output.stdout)
}

/// What the end of `diskpart` comes to.
pub fn clean_finished(output: &ProcessOutput<String>) -> (r: Result<(), String>)
    ensures
        match r {
            Ok(_) => output.code == Some(0i32),
            Err(e) => output.code != Some(0i32) && e@ == clean_failed_text(output@),
        },
{
    if succeeded(output.code) {
        return Ok(());
    }
    let mut e = concat2("diskpart clean failed: ", trim(output.stderr.as_str()).as_str());
    e.append("\nstdout: ");
    e.append(trim(output.stdout.as_str()).as_str());
    Err(e)
}

/// `s` without `p` at its front, however often it stands there.
pub open spec fn strip_all(s: Seq<char>, p: Seq<char>) -> Seq<char>
    decreases s.len(),
{
    if p.len() > 0 && starts_with(s, p) {
        strip_all(s.skip(p.len() as int), p)
    } else {
        s
    }
}

/// Whether `c` is one of the digits 0 to 9.
pub open spec fn is_digit(c: char) -> bool {
    '0' <= c <= '9'
}

/// The digits with which `s` begins.
pub open spec fn leading_digits(s: Seq<char>) -> Seq<char>
    decreases s.len(),
{
    if s.len() > 0 && is_digit(s[0]) {
        seq![s[0]] + leading_digits(s.drop_first())
    } else {
        Seq::empty()
    }
}

/// The number that a row of digits stands for.
pub open spec fn number(digits: Seq<char>) -> nat
    decreases digits.len(),
{
    if digits.len() == 0 {
        0
    } else {
        (number(digits.drop_last()) * 10 + (digits.last() as nat - '0' as nat)) as nat
    }
}

/// The index in the name of a physical drive, where it has one that fits in 32
/// bits.
pub open spec fn drive_index(drive: Seq<char>) -> Option<u32> {
    let digits = leading_digits(
        strip_all(strip_all(drive, DRIVE_PREFIX@), DRIVE_PREFIX_UPPER@),
    );
    if digits.len() > 0 && number(digits) <= u32::MAX {
        Some(number(digits) as u32)
    } else {
        None
    }
}

proof fn lemma_occurs_after_skip(s: Seq<char>, p: Seq<char>, at: int)
    requires
        0 <= at <= s.len(),
    ensures
        starts_with(s.skip(at), p) == occurs_at(s, p, at),
{
    if at + p.len() <= s.len() {
        assert(s.skip(at).subrange(0, p.len() as int) == s.subrange(at, at + p.len()));
    }
}

/// The position in `v` from `from` on at which `p` no longer follows.
fn skip_all(v: &Vec<char>, p: &Vec<char>, from: usize) -> (r: usize)
    requires
        from <= v@.len(),
        p@.len() > 0,
    ensures
        from <= r <= v@.len(),
        v@.skip(r as int) == strip_all(v@.skip(from as int), p@),
{
    let mut at: usize = from;
    proof {
        lemma_occurs_after_skip(v@, p@, at as int);
    }
    while matches_at(v, p, at)
        invariant
            p@.len() > 0,
            from <= at <= v@.len(),
            starts_with(v@.skip(at as int), p@) == occurs_at(v@, p@, at as int),
            strip_all(v@.skip(at as int), p@) == strip_all(v@.skip(from as int), p@),
        decreases v@.len() - at,
    {
        assert(v@.skip(at as int).skip(p@.len() as int) == v@.skip(at + p@.len()));
        assert(at + p.len() <= v.len());
        at += p.len();
        proof {
            lemma_occurs_after_skip(v@, p@, at as int);
        }
    }
    at
}

proof fn lemma_number_grows(a: Seq<char>, b: Seq<char>)
    requires
        forall|i: int| 0 <= i < b.len() ==> is_digit(#[trigger] b[i]),
    ensures
        number(a + b) >= number(a),
    decreases b.len(),
{
    if b.len() == 0 {
        assert(a + b == a);
    } else {
        lemma_number_grows(a, b.drop_last());
        assert((a + b).drop_last() == a + b.drop_last());
        assert((a + b).last() == b.last());
    }
}

proof fn lemma_leading_digits(s: Seq<char>)
    ensures
        forall|i: int|
            0 <= i < leading_digits(s).len() ==> is_digit(#[trigger] leading_digits(s)[i]),
    decreases s.len(),
{
    if s.len() > 0 && is_digit(s[0]) {
        let rest = leading_digits(s.drop_first());
        lemma_leading_digits(s.drop_first());
        assert forall|i: int| 0 <= i < leading_digits(s).len() implies is_digit(
            #[trigger] leading_digits(s)[i],
        ) by {
            if i > 0 {
                assert(leading_digits(s)[i] == rest[i - 1]);
            }
        }
    }
}

/// The index in the name of a physical drive, such as `\\.\PhysicalDrive1` or a
/// name with text after the number.
pub fn parse_drive_index(drive: &str) -> (r: Option<u32>)
    ensures
        r == drive_index(drive@),
{
    proof {
        reveal_strlit(r"\\.\PhysicalDrive");
        reveal_strlit(r"\\.\PHYSICALDRIVE");
    }
    let v = chars_of(drive);
    assert(v@.skip(0) == v@);
    let plain: usize = skip_all(&v, &chars_of(DRIVE_PREFIX), 0);
    let start: usize = skip_all(&v, &chars_of(DRIVE_PREFIX_UPPER), plain);
    let ghost digits = leading_digits(v@.skip(start as int));
    let mut value: u64 = 0;
    let mut i: usize = start;
    assert(v@.subrange(start as int, start as int) == Seq::<char>::empty());
    while i < v.len() && '0' <= v[i] && v[i] <= '9'
        invariant
            start <= i <= v@.len(),
            digits == v@.subrange(start as int, i as int) + leading_digits(v@.skip(i as int)),
            drive_index(drive@) == (if digits.len() > 0 && number(digits) <= u32::MAX {
                Some(number(digits) as u32)
            } else {
                None
            }),
            value == number(v@.subrange(start as int, i as int)),
            value <= u32::MAX,
        decreases v@.len() - i,
    {
        let ghost before = v@.subrange(start as int, i as int);
        let ghost after = v@.subrange(start as int, i + 1);
        proof {
            assert(v@.skip(i as int)[0] == v@[i as int]);
            assert(v@.skip(i as int).drop_first() == v@.skip(i + 1));
            assert(after.drop_last() == before);
            assert(digits == after + leading_digits(v@.skip(i + 1)));
            lemma_leading_digits(v@.skip(i + 1));
            lemma_number_grows(after, leading_digits(v@.skip(i + 1)));
        }
        value = value * 10 + (v[i] as u32 - '0' as u32) as u64;
        i += 1;
        if value > u32::MAX as u64 {
            return None;
        }
    }
    proof {
        if i < v@.len() {
            assert(v@.skip(i as int)[0] == v@[i as int]);
        }
        assert(digits == v@.subrange(start as int, i as int));
    }
    if i == start {
        return None;
    }
    Some(value as u32)
}

proof fn lemma_decimal(n: nat)
    ensures
        decimal(n).len() > 0,
        forall|i: int| 0 <= i < decimal(n).len() ==> is_digit(#[trigger] decimal(n)[i]),
        number(decimal(n)) == n,
    decreases n,
{
    if n < 10 {
        assert(decimal(n).drop_last() == Seq::<char>::empty());
        assert(number(Seq::<char>::empty()) == 0);
    } else {
        lemma_decimal(n / 10);
        assert(decimal(n).drop_last() == decimal(n / 10));
    }
}

proof fn lemma_leading_digits_of(digits: Seq<char>, rest: Seq<char>)
    requires
        forall|i: int| 0 <= i < digits.len() ==> is_digit(#[trigger] digits[i]),
        rest.len() == 0 || !is_digit(rest[0]),
    ensures
        leading_digits(digits + rest) == digits,
    decreases digits.len(),
{
    if digits.len() == 0 {
        assert(digits + rest == rest);
    } else {
        assert((digits + rest).drop_first() == digits.drop_first() + rest);
        lemma_leading_digits_of(digits.drop_first(), rest);
        assert(seq![digits[0]] + digits.drop_first() == digits);
    }
}

/// The index of a listed drive, of a drive's path, and of the path that stands
/// first in the listing of a drive is found again.
pub proof fn lemma_drive_index_round_trip(index: u32, model: Seq<char>, size: nat)
    ensures
        drive_index(drive_path(index as nat)) == Some(index),
        drive_index(drive_text(index as nat, model, size)) == Some(index),
        drive_index(first_word(drive_text(index as nat, model, size))) == Some(index),
{
    let more = "  ("@ + size_with_one_place(size) + " - "@ + model + ")"@;
    reveal_strlit("  (");
    assert(drive_text(index as nat, model, size) == drive_path(index as nat) + more);
    assert(drive_path(index as nat) == drive_path(index as nat) + Seq::<char>::empty());
    lemma_drive_index_before(index, more);
    lemma_drive_index_before(index, Seq::empty());
    assert(first_word(drive_path(index as nat) + more) == drive_path(index as nat)) by {
        reveal_strlit(r"\\.\PhysicalDrive");
        lemma_decimal(index as nat);
        assert forall|k: int| 0 <= k < drive_path(index as nat).len() implies !is_space(
            #[trigger] drive_path(index as nat)[k],
        ) by {
            if k >= DRIVE_PREFIX@.len() {
                assert(drive_path(index as nat)[k] == decimal(index as nat)[k
                    - DRIVE_PREFIX@.len()]);
            }
        }
        lemma_first_word(drive_path(index as nat), more);
    }
}

proof fn lemma_drive_index_before(index: u32, rest: Seq<char>)
    requires
        rest.len() == 0 || !is_digit(rest[0]),
    ensures
        drive_index(drive_path(index as nat) + rest) == Some(index),
{
    reveal_strlit(r"\\.\PhysicalDrive");
    reveal_strlit(r"\\.\PHYSICALDRIVE");
    let digits = decimal(index as nat);
    let s = drive_path(index as nat) + rest;
    let tail = digits + rest;
    lemma_decimal(index as nat);
    lemma_leading_digits_of(digits, rest);
    assert(s == DRIVE_PREFIX@ + tail);
    assert(s.subrange(0, DRIVE_PREFIX@.len() as int) == DRIVE_PREFIX@);
    assert(s.skip(DRIVE_PREFIX@.len() as int) == tail);
    assert(is_digit(tail[0]));
    assert(!starts_with(tail, DRIVE_PREFIX@)) by {
        if starts_with(tail, DRIVE_PREFIX@) {
            assert(tail.subrange(0, DRIVE_PREFIX@.len() as int)[0] == DRIVE_PREFIX@[0]);
        }
    }
    assert(!starts_with(tail, DRIVE_PREFIX_UPPER@)) by {
        if starts_with(tail, DRIVE_PREFIX_UPPER@) {
            assert(tail.subrange(0, DRIVE_PREFIX_UPPER@.len() as int)[0] == DRIVE_PREFIX_UPPER@[0]);
        }
    }
    assert(strip_all(tail, DRIVE_PREFIX@) == tail);
}

/// What a listing of drives holds.
#[derive(Debug)]
pub enum DriveListing {
    /// Nothing.
    Empty,
    /// The JSON object of a single drive.
    One(String),
    /// The JSON array of several drives.
    Many(String),
}

impl DriveListing {
    /// Whether the listing is the one that was printed.
    pub open spec fn is_of(self, stdout: Seq<char>) -> bool {
        match self {
            DriveListing::Empty => trimmed(stdout).len() == 0,
            DriveListing::One(json) => json@ == trimmed(stdout) && json@.len() > 0 && json@[0]
                == '{',
            DriveListing::Many(json) => json@ == trimmed(stdout) && json@.len() > 0 && json@[0]
                != '{',
        }
    }
}

/// Tells apart the forms in which a listing of drives comes.
pub fn drive_listing(stdout: &str) -> (r: DriveListing)
    ensures
        r.is_of(stdout@),
{
    let json = trim(stdout);
    if json.as_str().is_empty() {
        DriveListing::Empty
    } else if json.as_str().get_char(0) == '{' {
        DriveListing::One(json)
    } else {
        DriveListing::Many(json)
    }
}

/// What a listing of drives comes to, by the end of the program that makes it.
pub fn listing_finished(output: &ProcessOutput<String>) -> (r: Result<DriveListing, String>)
    ensures
        match r {
            Ok(listing) => output.code == Some(0i32) && listing.is_of(output.stdout@),
            Err(e) => output.code != Some(0i32) && e@ == "PowerShell enumeration failed"@
                + streams_text(output.stdout@, output.stderr@),
        },
{
    if succeeded(output.code) {
        return Ok(drive_listing(output.stdout.as_str()));
    }
    Err(
        concat2(
            "PowerShell enumeration failed",
            streams(output.stdout.as_str(), output.stderr.as_str()).as_str(),
        ),
    )
}

/// A drive as it stands in a listing: its index, its model and its size, where
/// the listing gives them.
pub type RawDrive = (u32, Option<String>, Option<u64>);

/// Whether a drive is the one that stands in a listing, with an empty model and
/// no size where the listing leaves them out.
pub open spec fn is_entry(drive: (u32, String, u64), raw: RawDrive) -> bool {
    &&& drive.0 == raw.0
    &&& drive.1@ == (match raw.1 {
        Some(m) => m@,
        None => Seq::empty(),
    })
    &&& drive.2 == (match raw.2 {
        Some(s) => s,
        None => 0,
    })
}

/// A listed drive, with an empty model and no size where the listing leaves
/// them out.
pub fn drive_entry(raw: &RawDrive) -> (r: (u32, String, u64))
    ensures
        is_entry(r, *raw),
{
    let model = match &raw.1 {
        Some(m) => m.clone(),
        None => String::new(),
    };
    let size: u64 = match raw.2 {
        Some(s) => s,
        None => 0,
    };
    (raw.0, model, size)
}

/// The drives of a listing, in its order. A listing that cannot be read counts as
/// one without drives.
pub fn listed_drives(listing: Option<Vec<RawDrive>>) -> (r: Vec<(u32, String, u64)>)
    ensures
        match listing {
            None => r@.len() == 0,
            Some(raw) => r@.len() == raw@.len() && forall|i: int|
                0 <= i < raw@.len() ==> is_entry(#[trigger] r@[i], raw@[i]),
        },
{
    let mut drives: Vec<(u32, String, u64)> = Vec::new();
    if let Some(raw) = listing {
        let mut i: usize = 0;
        while i < raw.len()
            invariant
                i <= raw@.len(),
                drives@.len() == i,
                forall|k: int| 0 <= k < i ==> is_entry(#[trigger] drives@[k], raw@[k]),
            decreases raw@.len() - i,
        {
            drives.push(drive_entry(&raw[i]));
            i += 1;
        }
    }
    drives
}

} // verus!
