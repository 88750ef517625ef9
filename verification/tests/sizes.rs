use in_web::sizes::{bytes_as_unit, human_bytes, human_size, quota_percent, trim_amount, unit_bytes, LimitUnit};

/// The same words by way of doubles.
fn by_doubles(bytes: u64, units: [&str; 5]) -> String {
    let mut value = bytes as f64;
    let mut unit = 0;
    while value >= 1024.0 && unit < 4 {
        value /= 1024.0;
        unit += 1;
    }
    if unit == 0 {
        format!("{bytes} {}", units[unit])
    } else {
        format!("{value:.1} {}", units[unit])
    }
}

fn amount_by_doubles(bytes: u64) -> (String, &'static str) {
    fn trimmed(value: f64) -> String {
        let rounded = (value * 100.0).round() / 100.0;
        let text = format!("{rounded:.2}");
        text.trim_end_matches('0').trim_end_matches('.').to_string()
    }
    if bytes >= 1_073_741_824 {
        (trimmed(bytes as f64 / 1_073_741_824.0), "GiB")
    } else {
        (trimmed(bytes as f64 / 1_048_576.0), "MiB")
    }
}

fn limit_by_doubles(amount: &str, unit: &str) -> Option<u64> {
    let per = match unit {
        "MiB" => 1_048_576.0,
        "GiB" => 1_073_741_824.0,
        _ => return None,
    };
    let value: f64 = amount.trim().parse().ok()?;
    if !value.is_finite() || value < 0.0 {
        return None;
    }
    Some((value * per).round() as u64)
}

fn bits_of(amount: &str) -> Option<u64> {
    amount.trim().parse::<f64>().ok().map(f64::to_bits)
}

/// Byte counts around every rounding edge, and many in between.
fn counts() -> Vec<u64> {
    let mut out = vec![0, 1, 511, 512, 1023, 1024, 1025, 1279, 1280, 1281, 1536, 1792, 2048, u64::MAX, u64::MAX - 1];
    for k in 0..64 {
        let p = 1u64 << k;
        for d in [0u64, 1, 2, 3, 511, 512, 513] {
            out.push(p.wrapping_add(d));
            out.push(p.wrapping_sub(d));
            out.push(p.wrapping_mul(5).wrapping_add(d));
            out.push((p / 4).wrapping_mul(5).wrapping_add(d));
            out.push((p / 20).wrapping_mul(33).wrapping_sub(d));
        }
    }
    let mut x: u64 = 88172645463325252;
    for _ in 0..20000 {
        x ^= x << 13;
        x ^= x >> 7;
        x ^= x << 17;
        out.push(x >> (x % 61));
    }
    out
}

#[test]
fn human_bytes_reads_at_a_glance() {
    assert_eq!(human_bytes(512), "512 B");
    assert_eq!(human_bytes(1536), "1.5 KiB");
    assert_eq!(human_bytes(2_147_483_648), "2.0 GiB");
    assert_eq!(human_bytes(1280), "1.2 KiB");
    assert_eq!(human_bytes(1_048_575), "1024.0 KiB");
    assert_eq!(human_bytes(u64::MAX), "16777216.0 TiB");
    assert_eq!(human_size(1536), "1.5 KB");
    assert_eq!(human_size(0), "0 B");
}

#[test]
fn human_bytes_agrees_with_the_doubles() {
    for bytes in counts() {
        assert_eq!(human_bytes(bytes), by_doubles(bytes, ["B", "KiB", "MiB", "GiB", "TiB"]), "{bytes}");
        assert_eq!(human_size(bytes), by_doubles(bytes, ["B", "KB", "MB", "GB", "TB"]), "{bytes}");
    }
}

#[test]
fn form_amounts_agree_with_the_doubles() {
    for bytes in counts() {
        let (amount, unit) = bytes_as_unit(bytes);
        let (want, word) = amount_by_doubles(bytes);
        assert_eq!((amount.as_str(), unit.as_str()), (want.as_str(), word), "{bytes}");
    }
    let (amount, unit) = bytes_as_unit(2_147_483_648);
    assert_eq!((amount.as_str(), unit), ("2", LimitUnit::GiB));
    let (amount, unit) = bytes_as_unit(536_870_912);
    assert_eq!((amount.as_str(), unit), ("512", LimitUnit::MiB));
    let (amount, unit) = bytes_as_unit(2_684_354_560);
    assert_eq!((amount.as_str(), unit), ("2.5", LimitUnit::GiB));
    assert_eq!(trim_amount(250), "2.5");
    assert_eq!(trim_amount(200), "2");
    assert_eq!(trim_amount(205), "2.05");
    assert_eq!(trim_amount(0), "0");
}

#[test]
fn a_form_saved_unedited_keeps_its_limit() {
    let mib = 0x10_0000u64;
    let gib = 0x4000_0000u64;
    let limits = [0, mib, 512 * mib, 1023 * mib, gib, 2 * gib, 1000 * gib, 0x3_ffff_ffff * gib];
    for limit in limits {
        let (amount, unit) = bytes_as_unit(limit);
        assert_eq!(unit_bytes(bits_of(&amount), unit.as_str()), Some(limit), "{limit}");
    }
    assert_eq!(bytes_as_unit(0x3_ffff_ffff * gib).0, "17179869183");
}

#[test]
fn limits_agree_with_the_doubles() {
    for amount in [
        "2", "2.5", "0", "-0", "0.5", "1e3", "1e-9", "1e300", "1e-320", "-1", "nan", "inf", "-inf", "", "x", " 3 ",
        "17179869184", "17179869183.9999", "16777216", "0.00000047683715", "0.00000047683716", "9007199254740993",
        "0.1", "1.1", "3.3333333333", "5e-324", "1.7976931348623157e308",
    ] {
        for unit in ["MiB", "GiB", "KiB", ""] {
            assert_eq!(unit_bytes(bits_of(amount), unit), limit_by_doubles(amount, unit), "{amount} {unit}");
        }
    }
    assert_eq!(unit_bytes(bits_of("2"), "GiB"), Some(2_147_483_648));
    assert_eq!(unit_bytes(bits_of("0"), "MiB"), Some(0));
    assert_eq!(unit_bytes(bits_of("1e300"), "GiB"), Some(u64::MAX));
    assert_eq!(unit_bytes(bits_of("-1"), "GiB"), None);
    assert_eq!(unit_bytes(None, "GiB"), None);
    assert_eq!(unit_bytes(bits_of("2"), "TiB"), None);
}

#[test]
fn quota_percent_stays_within_the_bar() {
    assert_eq!(quota_percent(0, 0), 100);
    assert_eq!(quota_percent(0, 10), 0);
    assert_eq!(quota_percent(1, 3), 33);
    assert_eq!(quota_percent(10, 10), 100);
    assert_eq!(quota_percent(11, 10), 100);
    assert_eq!(quota_percent(u64::MAX, u64::MAX), 1);
}
