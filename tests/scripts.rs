use polyblocks::scripts::{
    decimal_text, get_battery_status, get_battery_string, get_brightness_command,
    get_percentage, get_volume_command, parse_i32, remove_whitespace, AppContext,
    BatteryFailure, BrightnessCommand, PulseError, Volume, VolumeCommand,
};

#[test]
fn whitespace_test() {
    assert_eq!(
        "Hello!".to_string(),
        remove_whitespace("Hello!\n\n".to_string())
    );
}

#[test]
fn whitespace_removal_covers_unicode_spaces() {
    assert_eq!(remove_whitespace(" a\tb\u{a0}c\u{2003}d\u{3000}".to_string()), "abcd");
    assert_eq!(remove_whitespace(String::new()), "");
}

#[test]
fn battery_charged() {
    assert_eq!(
        "\u{f1e6} 55%".to_string(),
        get_battery_string(55, "Charging".to_string())
    );
}

#[test]
fn battery_depleting() {
    assert_eq!(
        "\u{f242} 55%".to_string(),
        get_battery_string(55, "Discharging".to_string())
    );
}

#[test]
fn battery_levels() {
    let d = || "Discharging".to_string();
    assert_eq!(get_battery_string(100, d()), "\u{f240}100%");
    assert_eq!(get_battery_string(96, d()), "\u{f240}96%");
    assert_eq!(get_battery_string(95, d()), "\u{f241} 95%");
    assert_eq!(get_battery_string(76, d()), "\u{f241} 76%");
    assert_eq!(get_battery_string(51, d()), "\u{f242} 51%");
    assert_eq!(get_battery_string(26, d()), "\u{f243} 26%");
    assert_eq!(get_battery_string(1, d()), "\u{f244} 1%");
    assert_eq!(get_battery_string(0, d()), "? 0");
    assert_eq!(get_battery_string(-3, d()), "? -3");
}

#[test]
fn battery_status_from_files() {
    assert_eq!(
        get_battery_status(Some("42\n".to_string()), Some("Discharging\n".to_string())),
        Ok("\u{f243} 42%".to_string())
    );
    assert_eq!(
        get_battery_status(None, Some("Full".to_string())),
        Err(BatteryFailure::BadCapacity)
    );
    assert_eq!(
        get_battery_status(Some("4x".to_string()), None),
        Err(BatteryFailure::ParseError)
    );
    assert_eq!(
        get_battery_status(Some("4".to_string()), None),
        Err(BatteryFailure::BadStatus)
    );
}

#[test]
fn integers_read_and_write_like_std() {
    for text in ["0", "-0", "+7", "2147483647", "-2147483648", "2147483648", "-2147483649",
        "", "-", "+", "1 2", "12a", "99999999999999999999", "007"] {
        assert_eq!(parse_i32(text), text.parse::<i32>().ok(), "{:?}", text);
    }
    for n in [0, 7, -7, 10, 2147483647, -2147483648] {
        assert_eq!(decimal_text(n), format!("{}", n));
    }
}

#[test]
fn brightness_commands() {
    assert_eq!(get_brightness_command(Some("increase".to_string())), BrightnessCommand::Increase);
    assert_eq!(get_brightness_command(Some("decrease".to_string())), BrightnessCommand::Decrease);
    assert_eq!(get_brightness_command(Some("up".to_string())), BrightnessCommand::Unchanged);
    assert_eq!(get_brightness_command(None), BrightnessCommand::Unchanged);
}

#[test]
fn volume_commands_and_text() {
    assert_eq!(get_volume_command(Some("mute")), VolumeCommand::Mute);
    assert_eq!(get_volume_command(Some("increase")), VolumeCommand::Increase);
    assert_eq!(get_volume_command(Some("decrease")), VolumeCommand::Decrease);
    assert_eq!(get_volume_command(Some("louder")), VolumeCommand::Unchanged);
    assert_eq!(get_volume_command(None), VolumeCommand::Unchanged);
    let on = Volume { level: "40%".to_string(), muted: false };
    assert_eq!(on.print(), "\u{f028} 40%");
    let off = Volume { level: "40%".to_string(), muted: true };
    assert_eq!(off.print(), "\u{f05e} 40%");
}

#[test]
fn percentage_is_first_word_with_percent_sign() {
    assert_eq!(
        get_percentage("front-left: 26214 /  40% / -23.88 dB,   front-right: 26214 /  41%".to_string()),
        Ok("40%".to_string())
    );
    assert_eq!(get_percentage("no level here".to_string()), Err(PulseError::NoPercentage));
    assert_eq!(get_percentage(String::new()), Err(PulseError::NoPercentage));
}

#[test]
fn app_context_addresses_the_server() {
    let context = AppContext::new("3", "battery".to_string(), Some("increase".to_string()));
    assert_eq!(context.socket_addr, "\u{0}3_polyblocks_socket");
    assert_eq!(context.block, "battery");
    assert_eq!(context.command, Some("increase".to_string()));
}
