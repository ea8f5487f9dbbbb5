use message_logger::color::derive_color;

#[test]
fn same_inputs_same_color() {
    let a = derive_color("#general", "user#1234", 1234567);
    let b = derive_color("#general", "user#1234", 1234567);
    assert_eq!(a, b);
}

#[test]
fn color_fits_24_bits() {
    let inputs = [
        ("#general", "user#1234", 0i64),
        ("#random", "someone#0001", 86399),
        ("", "", 1_700_000_000),
        ("#a-very-long-channel-name-with-text", "tag#9999", i64::MAX),
    ];
    for (channel, tag, t) in inputs {
        assert!(derive_color(channel, tag, t) <= 0xFFFFFF);
    }
}

#[test]
fn exact_color_values() {
    assert_eq!(derive_color("#general", "user#1234", 0), 0x629302);
    assert_eq!(derive_color("#general", "user#1234", 86399), 0xE6689E);
    assert_eq!(derive_color("#random", "user#1234", 0), 0x23DFAD);
}

#[test]
fn color_depends_only_on_second_of_day() {
    let a = derive_color("#general", "user#1234", 0);
    let b = derive_color("#general", "user#1234", 86400);
    assert_eq!(a, b);
}

#[test]
fn different_channels_differ_here() {
    let a = derive_color("#general", "user#1234", 0);
    let b = derive_color("#random", "user#1234", 0);
    assert_ne!(a, b);
}
