use hot_reload::args::parse_arguments;
use hot_reload::args::serialize_arguments;
use hot_reload::args::Arguments;
use hot_reload::errors::Error;
use hot_reload::hexnum::format_hex_u32;

#[test]
fn serialize_exact_form() {
    let a = Arguments { window_width: 300, window_height: 300 };
    assert_eq!(serialize_arguments(&a), "(window_width:300,window_height:300)");
}

#[test]
fn serialize_zero_and_one() {
    let a = Arguments { window_width: 0, window_height: 1 };
    assert_eq!(serialize_arguments(&a), "(window_width:0,window_height:1)");
}

#[test]
fn round_trip_plain() {
    let a = Arguments { window_width: 300, window_height: 200 };
    let s = serialize_arguments(&a);
    assert_eq!(parse_arguments(&s), Ok(a));
}

#[test]
fn round_trip_extremes() {
    for (w, h) in [
        (0usize, 0usize),
        (1, 0),
        (usize::MAX, 1),
        (usize::MAX, usize::MAX),
        (12345678901234567, 9),
    ] {
        let a = Arguments { window_width: w, window_height: h };
        let s = serialize_arguments(&a);
        assert_eq!(parse_arguments(&s), Ok(a));
    }
}

#[test]
fn parse_rejects_malformed() {
    for bad in [
        "",
        "(window_width:300,window_height:300",
        "window_width:300,window_height:300)",
        "(window_width:300,window_height:)",
        "(window_width:,window_height:300)",
        "(window_width:300,window_height:300) ",
        "(window_width: 300,window_height:300)",
        "(window_width:3a0,window_height:300)",
        "(window_height:300,window_width:300)",
    ] {
        assert_eq!(parse_arguments(bad), Err(Error::ArgumentMalformed));
    }
}

#[test]
fn parse_rejects_leading_zeros() {
    assert_eq!(
        parse_arguments("(window_width:007,window_height:300)"),
        Err(Error::ArgumentMalformed)
    );
    assert_eq!(parse_arguments("(window_width:0,window_height:300)"), Ok(Arguments {
        window_width: 0,
        window_height: 300,
    }));
}

#[test]
fn parse_rejects_overflow() {
    // one more than usize::MAX on 64-bit hosts
    assert_eq!(
        parse_arguments("(window_width:18446744073709551616,window_height:300)"),
        Err(Error::ArgumentMalformed)
    );
    let max = format!("(window_width:{},window_height:2)", usize::MAX);
    assert_eq!(parse_arguments(&max), Ok(Arguments {
        window_width: usize::MAX,
        window_height: 2,
    }));
}

#[test]
fn hex_rendering_matches_std() {
    for n in [0u32, 1, 9, 10, 15, 16, 255, 256, 0xB3FF00, 0xDEADBEEF, u32::MAX] {
        assert_eq!(format_hex_u32(n), format!("{:X}", n));
    }
}

#[test]
fn error_descriptions_distinct() {
    let kinds = [
        Error::IdentifierTooLong,
        Error::AllocationFailed,
        Error::NotFound,
        Error::ArgumentMissing,
        Error::ArgumentMalformed,
        Error::SpawnFailed,
    ];
    for (i, a) in kinds.iter().enumerate() {
        assert!(!a.describe().is_empty());
        for (j, b) in kinds.iter().enumerate() {
            if i != j {
                assert_ne!(a.describe(), b.describe());
            }
        }
    }
}
