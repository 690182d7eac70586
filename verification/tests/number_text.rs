use discord_bot::status::metrics::{format_bytes, push_f32_one_decimal, StatusSnapshot};

fn reference_format_bytes(value: u64) -> String {
    let gb = value as f64 / 1024.0 / 1024.0 / 1024.0;
    if gb >= 1.0 {
        format!("{:.2} GB", gb)
    } else {
        let mb = value as f64 / 1024.0 / 1024.0;
        format!("{:.0} MB", mb)
    }
}

fn cpu_text(bits: u32) -> String {
    let mut s = String::new();
    push_f32_one_decimal(&mut s, bits);
    s
}

struct Lcg(u64);

impl Lcg {
    fn next(&mut self) -> u64 {
        self.0 = self.0.wrapping_mul(6364136223846793005).wrapping_add(1442695040888963407);
        self.0
    }
}

#[test]
fn format_bytes_small_values_are_whole_megabytes() {
    assert_eq!(format_bytes(0), "0 MB");
    assert_eq!(format_bytes(1024 * 1024), "1 MB");
    assert_eq!(format_bytes(512 * 1024 * 1024), "512 MB");
    assert_eq!(format_bytes(1024 * 1024 * 1024 - 1), "1024 MB");
}

#[test]
fn format_bytes_large_values_are_gigabytes_with_two_decimals() {
    assert_eq!(format_bytes(1024 * 1024 * 1024), "1.00 GB");
    assert_eq!(format_bytes(8 * 1024 * 1024 * 1024), "8.00 GB");
    assert_eq!(format_bytes(16_000_000_000), "14.90 GB");
    assert_eq!(format_bytes(u64::MAX), "17179869184.00 GB");
}

#[test]
fn format_bytes_ties_round_to_even() {
    // 0.5 MB and 1.5 MB
    assert_eq!(format_bytes(512 * 1024), reference_format_bytes(512 * 1024));
    assert_eq!(format_bytes(3 * 512 * 1024), reference_format_bytes(3 * 512 * 1024));
    // 1.125 GB and 1.375 GB
    assert_eq!(format_bytes(9 << 27), reference_format_bytes(9 << 27));
    assert_eq!(format_bytes(11 << 27), reference_format_bytes(11 << 27));
}

#[test]
fn format_bytes_agrees_with_float_formatting() {
    let mut edges: Vec<u64> = vec![
        0,
        1,
        (1 << 19) - 1,
        1 << 19,
        (1 << 19) + 1,
        (1 << 20) - 1,
        (1 << 30) - 1,
        1 << 30,
        (1 << 30) + 1,
        (1 << 53) - 1,
        1 << 53,
        (1 << 53) + 1,
        (1 << 53) + 3,
        (1 << 54) + 2,
        (1 << 54) + 6,
        u64::MAX - 1,
        u64::MAX,
    ];
    for k in 0..64u32 {
        edges.push(1u64 << k);
        edges.push((1u64 << k).wrapping_sub(1));
        edges.push((1u64 << k).wrapping_add(1));
    }
    for v in edges {
        assert_eq!(format_bytes(v), reference_format_bytes(v), "value {v}");
    }
    let mut rng = Lcg(7);
    for _ in 0..200_000 {
        let r = rng.next();
        let shift = (rng.next() % 64) as u32;
        let v = r >> shift;
        assert_eq!(format_bytes(v), reference_format_bytes(v), "value {v}");
    }
}

#[test]
fn cpu_text_examples() {
    assert_eq!(cpu_text(12.34f32.to_bits()), "12.3");
    assert_eq!(cpu_text(0.0f32.to_bits()), "0.0");
    assert_eq!(cpu_text((-0.0f32).to_bits()), "-0.0");
    assert_eq!(cpu_text(100.0f32.to_bits()), "100.0");
    assert_eq!(cpu_text(f32::NAN.to_bits()), "NaN");
    assert_eq!(cpu_text(f32::INFINITY.to_bits()), "inf");
    assert_eq!(cpu_text(f32::NEG_INFINITY.to_bits()), "-inf");
}

#[test]
fn cpu_text_agrees_with_float_formatting() {
    let mut rng = Lcg(11);
    let specials = [
        0u32,
        0x8000_0000,
        1,
        0x8000_0001,
        0x7F7F_FFFF,
        0xFF7F_FFFF,
        0x7F80_0000,
        0xFF80_0000,
        0x7FC0_0000,
        0xFFC0_0001,
        0.05f32.to_bits(),
        0.25f32.to_bits(),
        0.35f32.to_bits(),
        0.45f32.to_bits(),
        2.25f32.to_bits(),
        (-2.25f32).to_bits(),
    ];
    for b in specials {
        assert_eq!(cpu_text(b), format!("{:.1}", f32::from_bits(b)), "bits {b:#x}");
    }
    for _ in 0..200_000 {
        let b = rng.next() as u32;
        assert_eq!(cpu_text(b), format!("{:.1}", f32::from_bits(b)), "bits {b:#x}");
    }
    for i in 0..100_000u32 {
        let x = i as f32 / 1000.0;
        assert_eq!(cpu_text(x.to_bits()), format!("{:.1}", x));
    }
}

#[test]
fn snapshot_from_readings_counts_a_missing_process_as_zero() {
    let s = StatusSnapshot::from_readings(1, 2, 3, None);
    assert_eq!(s.bot_ram, 0);
    let s = StatusSnapshot::from_readings(1, 2, 3, Some(9));
    assert_eq!(s, StatusSnapshot { cpu_bits: 1, total_ram: 2, used_ram: 3, bot_ram: 9 });
}
