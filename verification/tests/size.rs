use pifrost::size::{format_size, humansize};

fn scaled(bytes: u64) -> (f64, &'static str) {
    let units = ["B", "KiB", "MiB", "GiB", "TiB"];
    let mut size = bytes as f64;
    let mut unit = 0;
    while size >= 1024.0 && unit < units.len() - 1 {
        size /= 1024.0;
        unit += 1;
    }
    (size, units[unit])
}

fn one_place(bytes: u64) -> String {
    let (size, unit) = scaled(bytes);
    format!("{:.1} {}", size, unit)
}

fn two_places(bytes: u64) -> String {
    let (size, unit) = scaled(bytes);
    format!("{:.2} {}", size, unit)
}

#[test]
fn sizes_with_one_place() {
    assert_eq!(format_size(0), "0.0 B");
    assert_eq!(format_size(1023), "1023.0 B");
    assert_eq!(format_size(1024), "1.0 KiB");
    assert_eq!(format_size(1536), "1.5 KiB");
    assert_eq!(format_size(1280), "1.2 KiB");
    assert_eq!(format_size(1792), "1.8 KiB");
    assert_eq!(format_size(1024 * 1024 - 1), "1024.0 KiB");
    assert_eq!(format_size(536870912), "512.0 MiB");
    assert_eq!(format_size(4294967296), "4.0 GiB");
    assert_eq!(format_size(u64::MAX), "16777216.0 TiB");
}

#[test]
fn sizes_with_two_places() {
    assert_eq!(humansize(0), "0.00 B");
    assert_eq!(humansize(5242880000), "4.88 GiB");
    assert_eq!(humansize(1536), "1.50 KiB");
    assert_eq!(humansize(1029), "1.00 KiB");
    assert_eq!(humansize(1152), "1.12 KiB");
    assert_eq!(humansize(1920), "1.88 KiB");
}

#[test]
fn sizes_agree_with_floating_point() {
    let mut n: u64 = 1;
    for step in 0..4000u64 {
        for d in 0..3u64 {
            let b = n.wrapping_add(d).wrapping_sub(1);
            assert_eq!(format_size(b), one_place(b), "{}", b);
            assert_eq!(humansize(b), two_places(b), "{}", b);
        }
        n = n.wrapping_mul(6364136223846793005).wrapping_add(1442695040888963407 + step);
        n >>= (step % 60) as u32;
    }
}

#[test]
fn powers_of_two_agree_with_floating_point() {
    for shift in 0..64u32 {
        let p = 1u64 << shift;
        for b in [p.wrapping_sub(1), p, p + p / 2, p + p / 4, p + p / 8, p + 1] {
            assert_eq!(format_size(b), one_place(b), "{}", b);
            assert_eq!(humansize(b), two_places(b), "{}", b);
        }
    }
}

#[test]
fn numbers_beyond_53_bits_are_rounded_first() {
    for b in [
        (1u64 << 53) + 1,
        (1u64 << 53) + 3,
        (1u64 << 60) - 1,
        (1u64 << 50) - 1,
        u64::MAX - 1023,
        u64::MAX - 1024,
        u64::MAX - 1025,
    ] {
        assert_eq!(format_size(b), one_place(b), "{}", b);
        assert_eq!(humansize(b), two_places(b), "{}", b);
    }
}
