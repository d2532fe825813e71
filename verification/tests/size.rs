use dux::{format_count, format_size, format_size_short};

const KB: u64 = 1024;
const MB: u64 = KB * 1024;
const GB: u64 = MB * 1024;
const TB: u64 = GB * 1024;

fn float_size(bytes: u64) -> String {
    if bytes >= TB {
        format!("{:.1} TB", bytes as f64 / TB as f64)
    } else if bytes >= GB {
        format!("{:.1} GB", bytes as f64 / GB as f64)
    } else if bytes >= MB {
        format!("{:.1} MB", bytes as f64 / MB as f64)
    } else if bytes >= KB {
        format!("{:.1} KB", bytes as f64 / KB as f64)
    } else {
        format!("{} B", bytes)
    }
}

fn float_size_short(bytes: u64) -> String {
    if bytes >= TB {
        format!("{:.0}T", bytes as f64 / TB as f64)
    } else if bytes >= GB {
        format!("{:.1}G", bytes as f64 / GB as f64)
    } else if bytes >= MB {
        format!("{:.0}M", bytes as f64 / MB as f64)
    } else if bytes >= KB {
        format!("{:.0}K", bytes as f64 / KB as f64)
    } else {
        format!("{}B", bytes)
    }
}

fn samples() -> Vec<u64> {
    let mut v: Vec<u64> = vec![0, 1, 9, 10, 999, 1000, 1023, 1024, 1025, 1075, 1076, 1126, 1127, 1280, 1536, 1792];
    let mut shift = 0;
    while shift < 64 {
        let p: u64 = 1u64 << shift;
        for delta in [0u64, 1, 2, 3, 51, 52, 102, 103, 511, 512, 513, 1023] {
            v.push(p.wrapping_add(delta));
            v.push(p.wrapping_sub(delta));
            v.push(p.wrapping_add(p / 2).wrapping_add(delta));
            v.push(p.wrapping_add(p / 4).wrapping_sub(delta));
            v.push(p.wrapping_add(p / 20).wrapping_add(delta));
            v.push(p.wrapping_add(p / 8 * 3).wrapping_add(delta));
        }
        shift += 1;
    }
    let mut x: u64 = 0x9e37_79b9_7f4a_7c15;
    let mut i = 0;
    while i < 20000 {
        x ^= x << 13;
        x ^= x >> 7;
        x ^= x << 17;
        v.push(x);
        v.push(x >> (i % 64));
        i += 1;
    }
    v.push(u64::MAX);
    v.push(u64::MAX - 1);
    v.push(u64::MAX - 1024);
    v.push(u64::MAX - 2048);
    v
}

#[test]
fn test_format_size() {
    assert_eq!(format_size(0), "0 B");
    assert_eq!(format_size(512), "512 B");
    assert_eq!(format_size(1024), "1.0 KB");
    assert_eq!(format_size(1536), "1.5 KB");
    assert_eq!(format_size(1024 * 1024), "1.0 MB");
    assert_eq!(format_size(1024 * 1024 * 1024), "1.0 GB");
    assert_eq!(format_size(1024 * 1024 * 1024 * 1024), "1.0 TB");
}

#[test]
fn test_format_count() {
    assert_eq!(format_count(0), "0");
    assert_eq!(format_count(999), "999");
    assert_eq!(format_count(1000), "1,000");
    assert_eq!(format_count(12345), "12,345");
    assert_eq!(format_count(1234567), "1,234,567");
    assert_eq!(format_count(1178187), "1,178,187");
}

#[test]
fn format_size_rounds_halves_to_even() {
    assert_eq!(format_size(1280), "1.2 KB");
    assert_eq!(format_size(1024 + 358), "1.3 KB");
    assert_eq!(format_size(1024 + 359), "1.4 KB");
    assert_eq!(format_size(1792 + 128), "1.9 KB");
    assert_eq!(format_size(1048575), "1024.0 KB");
}

#[test]
fn format_size_agrees_with_floating_point() {
    for b in samples() {
        assert_eq!(format_size(b), float_size(b), "bytes = {}", b);
    }
}

#[test]
fn format_size_short_agrees_with_floating_point() {
    for b in samples() {
        assert_eq!(format_size_short(b), float_size_short(b), "bytes = {}", b);
    }
}

#[test]
fn format_size_short_units() {
    assert_eq!(format_size_short(0), "0B");
    assert_eq!(format_size_short(1023), "1023B");
    assert_eq!(format_size_short(1536), "2K");
    assert_eq!(format_size_short(2560), "2K");
    assert_eq!(format_size_short(3 * MB), "3M");
    assert_eq!(format_size_short(GB + GB / 2), "1.5G");
    assert_eq!(format_size_short(5 * TB), "5T");
}

#[test]
fn format_count_groups() {
    assert_eq!(format_count(1_000_000), "1,000,000");
    assert_eq!(format_count(1_001), "1,001");
    assert_eq!(format_count(10_010), "10,010");
    assert_eq!(format_count(u64::MAX), "18,446,744,073,709,551,615");
}
