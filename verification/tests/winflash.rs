use pifrost::process::ProcessOutput;
use pifrost::winflash::{
    clean_finished, clean_script, decode_utf16_lossy, describe_partitions, drive_entry,
    drive_label, drive_listing, ends_in_range, listed_drives, listing_finished, next_chunk, parse_drive_index, parse_gpt_entries,
    parse_gpt_header, physical_drive_path, places_in_range, read_gpt_partitions, write_extent,
    DriveListing, GptError, GptPartition, NoPartitions, CHUNK_SIZE,
};

fn entry(kind: u8, start: u64, end: u64, name: &str, size: usize) -> Vec<u8> {
    let mut e = vec![0u8; size];
    for b in e[0..16].iter_mut() {
        *b = kind;
    }
    e[32..40].copy_from_slice(&start.to_le_bytes());
    e[40..48].copy_from_slice(&end.to_le_bytes());
    for (i, unit) in name.encode_utf16().enumerate() {
        e[56 + 2 * i..58 + 2 * i].copy_from_slice(&unit.to_le_bytes());
    }
    e
}

fn disk(entries: &[Vec<u8>], count: u32, size: u32) -> Vec<u8> {
    let mut d = vec![0u8; 1024];
    d[512..520].copy_from_slice(b"EFI PART");
    d[512 + 72..512 + 80].copy_from_slice(&2u64.to_le_bytes());
    d[512 + 80..512 + 84].copy_from_slice(&count.to_le_bytes());
    d[512 + 84..512 + 88].copy_from_slice(&size.to_le_bytes());
    for e in entries {
        d.extend_from_slice(e);
    }
    d
}

fn two_partitions() -> Vec<GptPartition> {
    let entries = [
        entry(0xef, 2048, 1050623, "ESP", 128),
        vec![0u8; 128],
        entry(0x83, 1050624, 9439231, "nixos", 128),
    ];
    read_gpt_partitions(&disk(&entries, 3, 128)).unwrap()
}

#[test]
fn partitions_are_read() {
    let parts = two_partitions();
    assert_eq!(parts.len(), 2);
    assert_eq!(parts[0].index, 1);
    assert_eq!(parts[0].start_lba, 2048);
    assert_eq!(parts[0].end_lba, 1050623);
    assert_eq!(parts[0].byte_offset, 1048576);
    assert_eq!(parts[0].byte_size, 536870912);
    assert_eq!(parts[0].partition_type_guid, [0xef; 16]);
    assert_eq!(parts[0].name, "ESP");
    assert_eq!(parts[1].index, 3);
    assert_eq!(parts[1].byte_offset, 537919488);
    assert_eq!(parts[1].byte_size, 4294967296);
    assert_eq!(parts[1].name, "nixos");
}

#[test]
fn longer_entries_are_read() {
    let entries = [entry(1, 1, 1, "a", 256), entry(2, 2, 3, "b", 256)];
    let parts = read_gpt_partitions(&disk(&entries, 2, 256)).unwrap();
    assert_eq!(parts.len(), 2);
    assert_eq!(parts[1].name, "b");
    assert_eq!(parts[1].byte_size, 1024);
}

#[test]
fn a_full_name_is_read() {
    let name = "abcdefghijklmnopqrstuvwxyz0123456789";
    let parts = read_gpt_partitions(&disk(&[entry(1, 1, 1, name, 128)], 1, 128)).unwrap();
    assert_eq!(parts[0].name, name);
}

#[test]
fn a_disk_that_is_too_short() {
    let r = read_gpt_partitions(&vec![0u8; 603]);
    assert_eq!(r.err(), Some(GptError::UnexpectedEof));
    let cut = disk(&[entry(1, 1, 1, "a", 128)], 2, 128);
    assert_eq!(read_gpt_partitions(&cut).err(), Some(GptError::UnexpectedEof));
    assert_eq!(GptError::UnexpectedEof.message(), "failed to fill whole buffer");
}

#[test]
fn a_disk_without_signature() {
    let mut d = disk(&[entry(1, 1, 1, "a", 128)], 1, 128);
    d[519] = b'X';
    assert_eq!(read_gpt_partitions(&d).err(), Some(GptError::MissingSignature));
    assert_eq!(
        GptError::MissingSignature.message(),
        "Not a valid GPT disk (missing EFI PART signature)"
    );
}

#[test]
fn a_table_of_invalid_format() {
    let short = disk(&[entry(1, 1, 1, "a", 128)], 1, 127);
    assert_eq!(read_gpt_partitions(&short).err(), Some(GptError::InvalidEntryFormat));
    let none = disk(&[], 0, 128);
    assert_eq!(read_gpt_partitions(&none).err(), Some(GptError::InvalidEntryFormat));
    assert_eq!(GptError::InvalidEntryFormat.message(), "Invalid GPT partition entry format");
}

#[test]
fn header_and_entries_apart() {
    let d = disk(&[entry(1, 5, 9, "x", 128)], 1, 128);
    let header = parse_gpt_header(&d[512..604]).unwrap();
    assert!(header.offset_fits());
    assert_eq!(header.entries_byte_offset(), 1024);
    assert_eq!(header.entries_total_size(), 128);
    assert!(header.entries_in_range(&d[1024..1152]));
    let parts = parse_gpt_entries(&header, &d[1024..1152]);
    assert_eq!(parts.len(), 1);
    assert_eq!(parts[0].byte_offset, 2560);
    let backwards = entry(1, 9, 5, "x", 128);
    assert!(!header.entries_in_range(&backwards));
    let far = entry(1, 1, u64::MAX / 256, "x", 128);
    assert!(!header.entries_in_range(&far));
}

#[test]
fn names_are_decoded_as_std_does() {
    let cases: [&[u16]; 8] = [
        &[],
        &[0x61, 0x62],
        &[0xd83d, 0xde00],
        &[0xd83d],
        &[0xde00, 0xd83d],
        &[0xd83d, 0xd83d, 0xde00],
        &[0xd83d, 0x61],
        &[0xdbff, 0xdfff, 0xffff, 0x20ac],
    ];
    for c in cases {
        assert_eq!(decode_utf16_lossy(&c.to_vec()), String::from_utf16_lossy(c));
    }
}

#[test]
fn the_extent_ends_with_the_last_partition() {
    assert_eq!(write_extent(&two_partitions()), Ok(4832886784));
    let out_of_order = [
        entry(0x83, 1050624, 9439231, "far", 128),
        entry(0xef, 2048, 1050623, "near", 128),
    ];
    let parts = read_gpt_partitions(&disk(&out_of_order, 2, 128)).unwrap();
    assert_eq!(parts[1].name, "near");
    assert!(ends_in_range(&parts));
    assert_eq!(write_extent(&parts), Ok(4832886784));
    assert_eq!(write_extent(&Vec::new()), Err(NoPartitions));
    assert_eq!(NoPartitions.message(), "Image has no GPT partitions");
}

#[test]
fn chunks_cover_the_extent() {
    for end in [0u64, 1, CHUNK_SIZE - 1, CHUNK_SIZE, CHUNK_SIZE + 1, 3 * CHUNK_SIZE + 5] {
        let mut remaining = end;
        let mut written = 0u64;
        while remaining > 0 {
            let n = next_chunk(remaining);
            assert!(0 < n && n <= CHUNK_SIZE);
            written += n;
            remaining -= n;
        }
        assert_eq!(written, end);
    }
    assert_eq!(CHUNK_SIZE, 8 * 1024 * 1024);
    assert_eq!(next_chunk(3 * CHUNK_SIZE), CHUNK_SIZE);
    assert_eq!(next_chunk(7), 7);
}

#[test]
fn partitions_are_described() {
    assert_eq!(
        describe_partitions(&two_partitions()),
        "#1 ESP @ 1.0 MiB size 512.0 MiB, #3 nixos @ 513.0 MiB size 4.0 GiB"
    );
    assert_eq!(describe_partitions(&Vec::new()), "");
}

#[test]
fn drives_are_named_and_listed() {
    assert_eq!(physical_drive_path(12), "\\\\.\\PhysicalDrive12");
    assert_eq!(
        drive_label(2, "SanDisk Ultra", 32010928128),
        "\\\\.\\PhysicalDrive2  (29.8 GiB - SanDisk Ultra)"
    );
    assert_eq!(clean_script(3), "select disk 3\r\nclean\r\n");
}

#[test]
fn drive_numbers_are_found_again() {
    for n in [0u32, 7, 10, 4294967295] {
        assert_eq!(parse_drive_index(&physical_drive_path(n)), Some(n));
        assert_eq!(parse_drive_index(&drive_label(n, "M 9", 5)), Some(n));
    }
    assert_eq!(parse_drive_index("\\\\.\\PHYSICALDRIVE4"), Some(4));
    assert_eq!(parse_drive_index("5"), Some(5));
    assert_eq!(parse_drive_index("/dev/sdb"), None);
    assert_eq!(parse_drive_index(""), None);
    assert_eq!(parse_drive_index("\\\\.\\PhysicalDrive4294967296"), None);
    assert_eq!(parse_drive_index("\\\\.\\PhysicalDrive"), None);
}

#[test]
fn drive_numbers_are_parsed_as_std_does() {
    for s in ["007", "1 2", "12x3", "+5", "-1", "99999999999999999999"] {
        let digits: String = s.chars().take_while(|c| c.is_ascii_digit()).collect();
        assert_eq!(parse_drive_index(s), digits.parse::<u32>().ok());
    }
}

#[test]
fn listings_are_told_apart() {
    assert!(matches!(drive_listing(" \r\n"), DriveListing::Empty));
    match drive_listing(" {\"Index\":0}\r\n") {
        DriveListing::One(json) => assert_eq!(json, "{\"Index\":0}"),
        other => panic!("{:?}", other),
    }
    match drive_listing("[{\"Index\":0}]") {
        DriveListing::Many(json) => assert_eq!(json, "[{\"Index\":0}]"),
        other => panic!("{:?}", other),
    }
    assert_eq!(drive_entry(&(1, None, None)), (1, String::new(), 0));
    assert_eq!(
        drive_entry(&(2, Some("M".to_string()), Some(9))),
        (2, "M".to_string(), 9)
    );
}

fn ended(code: Option<i32>, stdout: &str, stderr: &str) -> ProcessOutput<String> {
    ProcessOutput { stdout: stdout.to_string(), stderr: stderr.to_string(), code }
}

#[test]
fn the_end_of_diskpart() {
    assert_eq!(clean_finished(&ended(Some(0), "", "noise")), Ok(()));
    assert_eq!(
        clean_finished(&ended(Some(1), "o\r\n", " denied \r\n")),
        Err("diskpart clean failed: denied\nstdout: o".to_string())
    );
    assert!(clean_finished(&ended(None, "", "")).is_err());
}

#[test]
fn the_end_of_a_listing() {
    match listing_finished(&ended(Some(0), "[]\r\n", "")) {
        Ok(DriveListing::Many(json)) => assert_eq!(json, "[]"),
        other => panic!("{:?}", other),
    }
    assert_eq!(
        listing_finished(&ended(Some(1), "a\n", "b\n")).unwrap_err(),
        "PowerShell enumeration failed\nstdout: a\nstderr: b"
    );
}

#[test]
fn listed_drives_keep_their_order() {
    assert!(listed_drives(None).is_empty());
    assert!(listed_drives(Some(Vec::new())).is_empty());
    let raw = vec![
        (2, Some("B".to_string()), Some(9)),
        (0, None, None),
        (1, Some("A".to_string()), None),
    ];
    assert_eq!(
        listed_drives(Some(raw)),
        vec![(2, "B".to_string(), 9), (0, String::new(), 0), (1, "A".to_string(), 0)]
    );
}

#[test]
fn places_beyond_64_bits() {
    assert!(places_in_range(&disk(&[entry(1, 5, 9, "x", 128)], 1, 128)));
    assert!(places_in_range(&[]));
    assert!(!places_in_range(&disk(&[entry(1, 9, 5, "x", 128)], 1, 128)));
    let mut far = disk(&[entry(1, 5, 9, "x", 128)], 1, 128);
    far[512 + 72..512 + 80].copy_from_slice(&(u64::MAX / 2).to_le_bytes());
    assert!(!places_in_range(&far));
}

#[test]
fn ends_beyond_64_bits() {
    let part = |byte_offset: u64, byte_size: u64| GptPartition {
        index: 1,
        start_lba: 0,
        end_lba: 0,
        byte_offset,
        byte_size,
        partition_type_guid: [1; 16],
        name: String::new(),
    };
    assert!(ends_in_range(&vec![part(u64::MAX - 1, 1), part(0, 0)]));
    assert!(!ends_in_range(&vec![part(0, 0), part(u64::MAX, 1)]));
    assert!(ends_in_range(&Vec::new()));
    assert_eq!(write_extent(&vec![part(u64::MAX - 1, 1), part(0, 0)]), Ok(u64::MAX));
}
