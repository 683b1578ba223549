use fieldcad_desktop::catalog_window::template_extent;
use fieldcad_desktop::ids::ObjectId;
use fieldcad_desktop::measured::{Number, TimeUnit, Vec3, one, origin, time_unit, zero};
use fieldcad_desktop::number::{format_bytes, format_count, format_mebibytes};
use fieldcad_desktop::ordered::OrderedMap;
use fieldcad_desktop::text::{comes_before, decimal_text, is_blank, join, numbered, playback_speed_number, push_decimal, same_text, trim, trim_end, trim_start, white_space};

fn number(value: f64) -> Number {
    Number {
        bits: value.to_bits(),
    }
}

fn vec3(x: f64, y: f64, z: f64) -> Vec3 {
    Vec3 {
        x: number(x),
        y: number(y),
        z: number(z),
    }
}

fn binary_bytes(bytes: u64) -> String {
    const MIB: u64 = 1024 * 1024;
    if bytes >= MIB {
        format!("{:.2} MiB", bytes as f64 / MIB as f64)
    } else {
        format!("{bytes} B")
    }
}

fn grouped_count(count: usize) -> String {
    if count >= 1_000_000 {
        format!("{:.1}M", count as f64 / 1_000_000.0)
    } else if count >= 1_000 {
        format!("{}\u{202f}{:03}", count / 1_000, count % 1_000)
    } else {
        count.to_string()
    }
}

fn sample_counts() -> Vec<u64> {
    let mut counts = vec![0, 1, 9, 10, 512, 1023, 1024, 1025, 1075, 1076, 1331, 1536];
    for shift in 10..64 {
        let power = 1u64 << shift;
        counts.push(power - 1);
        counts.push(power);
        counts.push(power + 1);
        counts.push(power + power / 2);
        counts.push(power + power / 3);
    }
    let mut state: u64 = 0x9e37_79b9_7f4a_7c15;
    for i in 0..20000u32 {
        state = state
            .wrapping_mul(6_364_136_223_846_793_005)
            .wrapping_add(1_442_695_040_888_963_407);
        counts.push(state >> (i % 60));
    }
    counts
}

#[test]
fn byte_counts_read_as_binary_units() {
    assert_eq!(format_bytes(1023), "1023 B");
    assert_eq!(format_bytes(1536), "1536 B");
    assert_eq!(format_bytes(1024 * 1024 * 3 / 2), "1.50 MiB");
    for bytes in sample_counts() {
        assert_eq!(format_bytes(bytes), binary_bytes(bytes), "{bytes}");
    }
}

#[test]
fn process_memory_reads_in_mebibytes() {
    assert_eq!(format_mebibytes(1536), "1.5 MiB");
    for kibibytes in sample_counts() {
        assert_eq!(
            format_mebibytes(kibibytes),
            format!("{:.1} MiB", kibibytes as f64 / 1024.0),
            "{kibibytes}"
        );
    }
}

#[test]
fn large_counts_are_grouped_in_threes() {
    assert_eq!(format_count(0), "0");
    assert_eq!(format_count(999), "999");
    assert_eq!(format_count(1000), "1\u{202f}000");
    assert_eq!(format_count(999_999), "999\u{202f}999");
    assert_eq!(format_count(1_234_567), "1.2M");
    assert_eq!(format_count(1_250_000), "1.2M");
    for count in sample_counts() {
        let count = count as usize;
        assert_eq!(format_count(count), grouped_count(count), "{count}");
    }
    for count in 0..3_000_000usize {
        if count % 7 == 0 || count % 50_000 == 0 {
            assert_eq!(format_count(count), grouped_count(count), "{count}");
        }
    }
}

#[test]
fn white_space_is_what_text_is_trimmed_of() {
    for code in 0..0x11_0000u32 {
        if let Some(c) = char::from_u32(code) {
            assert_eq!(white_space(c), c.is_whitespace(), "{code:x}");
        }
    }
    for text in ["", " ", "\u{2003}a b\u{a0}", "a", " a", "a\n", "\t\n x y \r"] {
        assert_eq!(trim(text), text.trim());
        assert_eq!(trim_start(text), text.trim_start());
        assert_eq!(trim_end(text), text.trim_end());
        assert_eq!(is_blank(text), text.trim().is_empty());
    }
}

#[test]
fn texts_are_ordered_by_their_characters() {
    let texts = ["", "A", "a", "aa", "ab", "b", "é", "日本", "日"];
    for a in texts {
        for b in texts {
            assert_eq!(comes_before(a, b), a < b);
            assert_eq!(same_text(a, b), a == b);
        }
    }
}

#[test]
fn decimals_are_written_in_full() {
    for count in sample_counts() {
        assert_eq!(decimal_text(count), count.to_string());
    }
    let mut text = "n = ".to_owned();
    push_decimal(&mut text, u128::MAX);
    assert_eq!(text, format!("n = {}", u128::MAX));
    assert_eq!(numbered("Object ", 7), "Object 7");
    assert_eq!(
        join(&vec!["a".to_owned(), "b".to_owned()], ", "),
        "a, b"
    );
    assert_eq!(join(&Vec::new(), ", "), "");
}

fn sample_values() -> Vec<f64> {
    let mut values = vec![
        0.0,
        -0.0,
        1.0,
        -1.0,
        0.5,
        f64::MIN_POSITIVE,
        -f64::MIN_POSITIVE,
        f64::from_bits(1),
        f64::MAX,
        f64::MIN,
        f64::INFINITY,
        f64::NEG_INFINITY,
        f64::NAN,
        -f64::NAN,
    ];
    let mut exponent = -20;
    while exponent <= 20 {
        for mantissa in [1.0, 1.5, 9.999, -3.25] {
            values.push(mantissa * 10f64.powi(exponent));
        }
        exponent += 1;
    }
    values
}

#[test]
fn numbers_compare_as_floating_point_values_do() {
    for a in sample_values() {
        let x = number(a);
        assert_eq!(x.finite(), a.is_finite(), "{a}");
        assert_eq!(x.nan(), a.is_nan(), "{a}");
        assert_eq!(x.positive(), a.is_finite() && a > 0.0, "{a}");
        assert_eq!(
            f64::from_bits(x.absolute().bits).to_bits(),
            a.abs().to_bits()
        );
        for b in sample_values() {
            let y = number(b);
            assert_eq!(x.less(y), a < b, "{a} < {b}");
            assert_eq!(x.equals(y), a == b, "{a} == {b}");
            assert_eq!(x.at_most(y), a <= b, "{a} <= {b}");
            let greater = f64::from_bits(x.greater_of(y).bits);
            if a.is_nan() && b.is_nan() {
                assert!(greater.is_nan());
            } else {
                assert_eq!(greater, a.max(b), "max({a}, {b})");
            }
        }
    }
}

#[test]
fn named_numbers_are_the_values_they_stand_for() {
    assert_eq!(zero(), number(0.0));
    assert_eq!(one(), number(1.0));
    assert_eq!(template_extent(), number(0.1));
    assert_eq!(origin(), vec3(0.0, 0.0, 0.0));
    assert_eq!(TimeUnit::Millisecond.seconds(), number(1.0e-3));
    assert_eq!(TimeUnit::Microsecond.seconds(), number(1.0e-6));
    assert_eq!(TimeUnit::Nanosecond.seconds(), number(1.0e-9));
    assert_eq!(TimeUnit::Picosecond.seconds(), number(1.0e-12));
    assert_eq!(TimeUnit::Femtosecond.seconds(), number(1.0e-15));
}

#[test]
fn a_time_step_is_written_in_the_largest_unit_it_reaches() {
    for seconds in sample_values() {
        if !(seconds.is_finite() && seconds > 0.0) {
            continue;
        }
        let expected = if seconds >= 1.0 {
            TimeUnit::Second
        } else if seconds >= 1.0e-3 {
            TimeUnit::Millisecond
        } else if seconds >= 1.0e-6 {
            TimeUnit::Microsecond
        } else if seconds >= 1.0e-9 {
            TimeUnit::Nanosecond
        } else if seconds >= 1.0e-12 {
            TimeUnit::Picosecond
        } else {
            TimeUnit::Femtosecond
        };
        assert_eq!(time_unit(number(seconds)), expected, "{seconds}");
    }
}

#[test]
fn a_playback_speed_is_read_without_its_sign() {
    assert_eq!(playback_speed_number("2.5×"), "2.5");
    assert_eq!(playback_speed_number(" 2.5 x "), "2.5");
    assert_eq!(playback_speed_number("2"), "2");
}

#[test]
fn an_ordered_map_keeps_its_keys_sorted_and_unique() {
    let mut map: OrderedMap<ObjectId, u32> = OrderedMap::new();
    assert!(map.is_empty());
    for (key, value) in [(5u64, 1u32), (1, 2), (9, 3), (5, 4)] {
        map.insert(ObjectId::new(key), value);
    }
    assert_eq!(map.len(), 3);
    assert_eq!(map.get(&ObjectId::new(5)), Some(&4));
    assert_eq!(map.get(&ObjectId::new(2)), None);
    assert!(map.contains_key(&ObjectId::new(9)));
    map.remove(&ObjectId::new(1));
    assert!(!map.contains_key(&ObjectId::new(1)));
    assert_eq!(map.len(), 2);
}
