use pifrost::flash::{FlashReply, FlashState};
use pifrost::process::ProcessOutput;
use pifrost::winflash::{GptError, GptPartition, CHUNK_SIZE};

fn part(byte_offset: u64, byte_size: u64) -> GptPartition {
    GptPartition {
        index: 1,
        start_lba: byte_offset / 512,
        end_lba: 0,
        byte_offset,
        byte_size,
        partition_type_guid: [1; 16],
        name: "p".to_string(),
    }
}

fn table(parts: Vec<GptPartition>) -> FlashReply {
    FlashReply::Table(Ok(parts))
}

fn cleaned(code: i32) -> FlashReply {
    FlashReply::Cleaned(ProcessOutput {
        stdout: "DiskPart\n".to_string(),
        stderr: " denied \n".to_string(),
        code: Some(code),
    })
}

fn refusal(state: FlashState<String>) -> String {
    match state {
        FlashState::Refused(reason) => reason,
        other => panic!("{:?}", other),
    }
}

fn copied(end: u64, image: &[u8]) -> Vec<u8> {
    let mut state = FlashState::start()
        .advance(table(vec![part(end / 2, end - end / 2), part(0, 1)]))
        .advance(cleaned(0))
        .advance(FlashReply::Done);
    let mut drive = Vec::new();
    while let Some((from, count)) = state.chunk() {
        assert_eq!(from as usize, drive.len());
        assert!(count <= CHUNK_SIZE);
        drive.extend_from_slice(&image[from as usize..(from + count) as usize]);
        state = state.advance(FlashReply::Done);
    }
    assert!(matches!(state, FlashState::Flush { .. }));
    let state = state.advance(FlashReply::Done);
    assert!(matches!(state, FlashState::Written { end: e } if e == end));
    drive
}

#[test]
fn the_drive_receives_the_image() {
    let n = CHUNK_SIZE as usize;
    let image: Vec<u8> = (0..2 * n + 100).map(|i| (i % 251) as u8).collect();
    for end in [2, n - 1, n, n + 1, 2 * n, 2 * n + 7] {
        assert!(copied(end as u64, &image) == image[..end]);
    }
}

#[test]
fn a_refused_image_touches_nothing() {
    let empty = FlashState::start().advance(table(Vec::new()));
    assert_eq!(refusal(empty), "Image has no GPT partitions");
    let broken = FlashState::start().advance(FlashReply::Table(Err(GptError::MissingSignature)));
    assert!(broken.chunk().is_none());
    let after = broken.advance(cleaned(0)).advance(FlashReply::Done);
    assert_eq!(refusal(after), "Not a valid GPT disk (missing EFI PART signature)");
}

#[test]
fn the_furthest_partition_counts() {
    let state = FlashState::start().advance(table(vec![part(5000, 1000), part(0, 512)]));
    assert!(matches!(state, FlashState::Clean { end: 6000 }));
}

#[test]
fn nothing_is_copied_before_the_drive_is_clean() {
    let state = FlashState::start().advance(table(vec![part(0, 512)]));
    let state = state.advance(FlashReply::Done);
    assert!(matches!(state, FlashState::Clean { .. }));
    assert!(state.chunk().is_none());
    let failed = state.advance(cleaned(1)).advance(cleaned(0));
    assert_eq!(refusal(failed), "diskpart clean failed: denied\nstdout: DiskPart");
}

#[test]
fn a_failure_ends_the_flashing() {
    let state = FlashState::start()
        .advance(table(vec![part(0, 512)]))
        .advance(cleaned(0))
        .advance(FlashReply::Done)
        .advance(FlashReply::Failed("Failed to write drive chunk".to_string()))
        .advance(FlashReply::Failed("later".to_string()))
        .advance(FlashReply::Done);
    assert_eq!(refusal(state), "Failed to write drive chunk");
}

#[test]
fn an_image_without_bytes() {
    let state = FlashState::start()
        .advance(table(vec![part(0, 0)]))
        .advance(cleaned(0))
        .advance(FlashReply::Done);
    assert!(matches!(state, FlashState::Flush { end: 0 }));
}
