use cosmic_applet_ram::format::{auto_step_of, divisor, format_bytes, format_with_step};
use cosmic_applet_ram::units::{Prefix, Standard};

const STANDARDS: [Standard; 2] = [Standard::Si, Standard::Iec];

const FIXED: [Prefix; 8] = [
    Prefix::Kilo,
    Prefix::Mega,
    Prefix::Giga,
    Prefix::Tera,
    Prefix::Peta,
    Prefix::Exa,
    Prefix::Zeta,
    Prefix::Yotta,
];

fn step_of(prefix: Prefix) -> i32 {
    prefix.step().unwrap() as i32
}

/// What floating-point formatting makes of the same count; exact wherever
/// the quotient has an exact binary form.
fn by_floats(count: u64, standard: Standard, prefix: Prefix, precision: usize) -> String {
    let (k, infix) = match standard {
        Standard::Si => (1000f64, "i"),
        Standard::Iec => (1024f64, ""),
    };
    let symbols = ["", "K", "M", "G", "T", "P", "E", "Z", "Y"];
    let i = step_of(prefix);
    let f = (count as f64) / k.powi(i);
    format!("{f:.precision$} {}{infix}B", symbols[i as usize])
}

#[test]
fn zero_is_zero_bytes() {
    for standard in STANDARDS {
        for prefix in [Prefix::Auto, Prefix::Plain] {
            for precision in [0, 1, 2, 10, 1000] {
                assert_eq!(format_bytes(0, standard, prefix, precision), "0 B");
            }
        }
    }
}

#[test]
fn zero_under_a_fixed_prefix_keeps_the_prefix() {
    assert_eq!(format_bytes(0, Standard::Si, Prefix::Kilo, 0), "0 KiB");
    assert_eq!(format_bytes(0, Standard::Iec, Prefix::Giga, 2), "0.00 GB");
}

#[test]
fn si_scales_at_one_thousand() {
    assert_eq!(format_bytes(999, Standard::Si, Prefix::Auto, 0), "999 B");
    assert_eq!(format_bytes(1000, Standard::Si, Prefix::Auto, 0), "1 KiB");
}

#[test]
fn iec_scales_at_1024() {
    assert_eq!(format_bytes(1023, Standard::Iec, Prefix::Auto, 0), "1023 B");
    assert_eq!(format_bytes(1024, Standard::Iec, Prefix::Auto, 0), "1 KB");
}

#[test]
fn precision_gives_the_fractional_digits() {
    assert_eq!(format_bytes(1500, Standard::Si, Prefix::Kilo, 2), "1.50 KiB");
    assert_eq!(format_bytes(1500, Standard::Si, Prefix::Kilo, 0), "2 KiB");
    assert_eq!(format_bytes(1500, Standard::Si, Prefix::Kilo, 1), "1.5 KiB");
    assert_eq!(format_bytes(1536, Standard::Iec, Prefix::Kilo, 3), "1.500 KB");
}

#[test]
fn plain_prefix_never_scales() {
    assert_eq!(format_bytes(123_456_789, Standard::Si, Prefix::Plain, 3), "123456789 B");
    assert_eq!(
        format_bytes(u64::MAX, Standard::Iec, Prefix::Plain, 0),
        "18446744073709551615 B"
    );
}

#[test]
fn auto_picks_each_symbol_in_turn() {
    let symbols = ["K", "M", "G", "T", "P", "E"];
    let mut si: u64 = 1;
    let mut iec: u64 = 1;
    let mut below_si = String::from(" B");
    let mut below_iec = String::from(" B");
    for symbol in symbols {
        si *= 1000;
        iec *= 1024;
        assert_eq!(format_bytes(si, Standard::Si, Prefix::Auto, 0), format!("1 {symbol}iB"));
        assert_eq!(format_bytes(iec, Standard::Iec, Prefix::Auto, 0), format!("1 {symbol}B"));
        assert!(format_bytes(si - 1, Standard::Si, Prefix::Auto, 3).ends_with(&below_si));
        assert!(format_bytes(iec - 1, Standard::Iec, Prefix::Auto, 3).ends_with(&below_iec));
        below_si = format!(" {symbol}iB");
        below_iec = format!(" {symbol}B");
    }
    assert_eq!(format_bytes(999_999, Standard::Si, Prefix::Auto, 3), "999.999 KiB");
    assert_eq!(format_bytes(999_999, Standard::Si, Prefix::Auto, 0), "1000 KiB");
}

#[test]
fn auto_step_values() {
    assert_eq!(auto_step_of(0, Standard::Si), 0);
    assert_eq!(auto_step_of(999, Standard::Si), 0);
    assert_eq!(auto_step_of(1000, Standard::Si), 1);
    assert_eq!(auto_step_of(999_999, Standard::Si), 1);
    assert_eq!(auto_step_of(1_000_000, Standard::Si), 2);
    assert_eq!(auto_step_of(1_000_000, Standard::Iec), 1);
    assert_eq!(auto_step_of(1 << 20, Standard::Iec), 2);
    assert_eq!(auto_step_of(u64::MAX, Standard::Si), 6);
    assert_eq!(auto_step_of(u64::MAX, Standard::Iec), 6);
}

#[test]
fn auto_step_never_falls_as_the_count_grows() {
    for standard in STANDARDS {
        let mut last = 0;
        let mut count: u64 = 0;
        while count < u64::MAX / 3 {
            for probe in [count, count + 1, count + count / 2] {
                let step = auto_step_of(probe, standard);
                assert!(step >= last, "{probe}");
                last = step;
            }
            count = count * 2 + 1;
        }
        assert!(auto_step_of(u64::MAX, standard) >= last);
    }
}

#[test]
fn divisors_are_powers_of_the_base() {
    assert_eq!(divisor(Standard::Si, 0), 1);
    assert_eq!(divisor(Standard::Si, 3), 1_000_000_000);
    assert_eq!(divisor(Standard::Si, 8), 1_000_000_000_000_000_000_000_000);
    assert_eq!(divisor(Standard::Iec, 1), 1024);
    assert_eq!(divisor(Standard::Iec, 8), 1u128 << 80);
}

#[test]
fn ties_go_to_the_even_digit() {
    assert_eq!(format_bytes(512, Standard::Iec, Prefix::Kilo, 0), "0 KB");
    assert_eq!(format_bytes(1536, Standard::Iec, Prefix::Kilo, 0), "2 KB");
    assert_eq!(format_bytes(2560, Standard::Iec, Prefix::Kilo, 0), "2 KB");
    assert_eq!(format_bytes(3584, Standard::Iec, Prefix::Kilo, 0), "4 KB");
    assert_eq!(format_bytes(1280, Standard::Iec, Prefix::Kilo, 1), "1.2 KB");
    assert_eq!(format_bytes(1792, Standard::Iec, Prefix::Kilo, 1), "1.8 KB");
    assert_eq!(format_bytes(2500, Standard::Si, Prefix::Kilo, 0), "2 KiB");
    assert_eq!(format_bytes(1250, Standard::Si, Prefix::Kilo, 1), "1.2 KiB");
    assert_eq!(format_bytes(1150, Standard::Si, Prefix::Kilo, 1), "1.2 KiB");
    assert_eq!(format_bytes(1151, Standard::Si, Prefix::Kilo, 1), "1.2 KiB");
    assert_eq!(format_bytes(1149, Standard::Si, Prefix::Kilo, 1), "1.1 KiB");
}

#[test]
fn rounding_up_carries_through_nines() {
    assert_eq!(format_bytes(1023, Standard::Iec, Prefix::Kilo, 0), "1 KB");
    assert_eq!(format_bytes(1023, Standard::Iec, Prefix::Kilo, 2), "1.00 KB");
    assert_eq!(format_bytes(1023, Standard::Iec, Prefix::Kilo, 3), "0.999 KB");
    assert_eq!(format_bytes((1 << 20) - 1, Standard::Iec, Prefix::Mega, 2), "1.00 MB");
    assert_eq!(format_bytes(999_999, Standard::Si, Prefix::Kilo, 0), "1000 KiB");
    assert_eq!(format_bytes(9_999_999, Standard::Si, Prefix::Mega, 1), "10.0 MiB");
    assert_eq!(format_bytes(99_999_999, Standard::Si, Prefix::Mega, 7), "99.9999990 MiB");
    assert_eq!(format_bytes(99_999_999, Standard::Si, Prefix::Mega, 5), "100.00000 MiB");
}

#[test]
fn the_largest_prefixes_show_small_fractions() {
    assert_eq!(format_bytes(u64::MAX, Standard::Iec, Prefix::Auto, 0), "16 EB");
    assert_eq!(format_bytes(u64::MAX, Standard::Si, Prefix::Auto, 2), "18.45 EiB");
    assert_eq!(format_bytes(u64::MAX, Standard::Si, Prefix::Zeta, 3), "0.018 ZiB");
    assert_eq!(format_bytes(u64::MAX, Standard::Si, Prefix::Yotta, 6), "0.000018 YiB");
    assert_eq!(format_bytes(1 << 63, Standard::Iec, Prefix::Zeta, 10), "0.0078125000 ZB");
    assert_eq!(format_bytes(1 << 63, Standard::Iec, Prefix::Yotta, 6), "0.000008 YB");
    assert_eq!(format_bytes(1, Standard::Iec, Prefix::Yotta, 0), "0 YB");
}

#[test]
fn digits_past_the_exact_value_are_zeros() {
    assert_eq!(
        format_bytes(1, Standard::Iec, Prefix::Kilo, 30),
        "0.000976562500000000000000000000 KB"
    );
    assert_eq!(format_bytes(1, Standard::Si, Prefix::Mega, 8), "0.00000100 MiB");
    let long = format_bytes(3, Standard::Si, Prefix::Kilo, 5000);
    assert_eq!(long.len(), 2 + 5000 + " KiB".len());
    assert!(long.starts_with("0.0030000"));
}

#[test]
fn a_step_without_a_symbol_is_shown_as_plain_bytes() {
    assert_eq!(format_with_step(123_456, Standard::Si, 0, 4), "123456 B");
    assert_eq!(format_with_step(123_456, Standard::Si, 9, 4), "123456 B");
    assert_eq!(format_with_step(123_456, Standard::Iec, usize::MAX, 4), "123456 B");
    assert_eq!(format_with_step(123_456, Standard::Si, 1, 1), "123.5 KiB");
    assert_eq!(format_with_step(123_456, Standard::Iec, 8, 1), "0.0 YB");
}

#[test]
fn binary_quotients_agree_with_floating_point() {
    let counts: [u64; 14] = [
        0,
        1,
        511,
        512,
        513,
        1023,
        1024,
        1536,
        4_294_967_295,
        8_589_934_592,
        17_179_869_183,
        123_456_789_012,
        4_503_599_627_370_495,
        9_007_199_254_740_991,
    ];
    for count in counts {
        for prefix in FIXED {
            for precision in 0..12u32 {
                assert_eq!(
                    format_bytes(count, Standard::Iec, prefix, precision),
                    by_floats(count, Standard::Iec, prefix, precision as usize),
                    "{count} {prefix:?} {precision}"
                );
            }
        }
    }
}

#[test]
fn decimal_quotients_agree_with_floating_point_away_from_ties() {
    let counts: [u64; 8] =
        [1, 999, 1000, 1501, 16_384, 8_123_456_789, 16_000_000_000, 33_554_432_123];
    for count in counts {
        for prefix in [Prefix::Kilo, Prefix::Mega, Prefix::Giga, Prefix::Tera] {
            for precision in 0..3u32 {
                assert_eq!(
                    format_bytes(count, Standard::Si, prefix, precision),
                    by_floats(count, Standard::Si, prefix, precision as usize),
                    "{count} {prefix:?} {precision}"
                );
            }
        }
    }
}

#[test]
fn many_binary_quotients_agree_with_floating_point() {
    let mut seed: u64 = 0x9e37_79b9_7f4a_7c15;
    for round in 0..4000u32 {
        seed = seed.wrapping_mul(6364136223846793005).wrapping_add(1442695040888963407);
        let count = (seed >> 11) >> (round % 53);
        let prefix = FIXED[(seed % 8) as usize];
        let precision = (seed >> 3) as u32 % 40;
        assert_eq!(
            format_bytes(count, Standard::Iec, prefix, precision),
            by_floats(count, Standard::Iec, prefix, precision as usize),
            "{count} {prefix:?} {precision}"
        );
    }
}
