use smart_brite::light::{same_bytes, LightControl, LightState};
use smart_brite::time_sync::{parse_timestamp, ClockSetting};

#[test]
fn control_words() {
    assert_eq!(LightControl::from_bytes(b"close"), Some(LightControl::Close));
    assert_eq!(LightControl::from_bytes(b"open"), Some(LightControl::Open));
    assert_eq!(LightControl::from_bytes(b"reset"), Some(LightControl::Reset));
    assert_eq!(LightControl::from_bytes(b""), None);
    assert_eq!(LightControl::from_bytes(b"Open"), None);
    assert_eq!(LightControl::from_bytes(b"opened"), None);
    assert_eq!(LightControl::from_bytes(b"clos"), None);
}

#[test]
fn control_words_round_trip() {
    for c in [LightControl::Close, LightControl::Open, LightControl::Reset] {
        assert_eq!(LightControl::from_bytes(&c.to_bytes()), Some(c));
    }
    assert_eq!(LightControl::Close.to_bytes(), b"close".to_vec());
    assert_eq!(LightControl::Open.to_bytes(), b"open".to_vec());
    assert_eq!(LightControl::Reset.to_bytes(), b"reset".to_vec());
}

#[test]
fn state_words() {
    assert_eq!(LightState::Opened.to_bytes(), b"opened".to_vec());
    assert_eq!(LightState::Closed.to_bytes(), b"closed".to_vec());
    assert_eq!(LightState::from_bytes(b"opened"), Some(LightState::Opened));
    assert_eq!(LightState::from_bytes(b"closed"), Some(LightState::Closed));
    assert_eq!(LightState::from_bytes(b"open"), None);
    assert_eq!(LightState::from_bytes(b"closee"), None);
    assert_eq!(LightState::from_bytes(&[]), None);
}

#[test]
fn button_toggles_the_light() {
    assert_eq!(LightState::Closed.toggle(), LightControl::Open);
    assert_eq!(LightState::Opened.toggle(), LightControl::Close);
}

#[test]
fn same_bytes_compares_whole_strings() {
    assert!(same_bytes(b"", b""));
    assert!(same_bytes(b"abc", b"abc"));
    assert!(!same_bytes(b"abc", b"abd"));
    assert!(!same_bytes(b"abc", b"ab"));
    assert!(!same_bytes(b"ab", b"abc"));
}

#[test]
fn timestamp_sets_seconds_and_microseconds() {
    let millis: u64 = 1_700_000_000_123;
    assert_eq!(
        parse_timestamp(&millis.to_le_bytes()),
        Some(ClockSetting { secs: 1_700_000_000, micros: 123_000 })
    );
    assert_eq!(
        parse_timestamp(&[1, 0, 0, 0, 0, 0, 0, 0]),
        Some(ClockSetting { secs: 0, micros: 1000 })
    );
}

#[test]
fn timestamp_seconds_keep_their_low_32_bits() {
    let millis: u64 = (0x1_0000_0005u64) * 1000 + 999;
    assert_eq!(
        parse_timestamp(&millis.to_le_bytes()),
        Some(ClockSetting { secs: 5, micros: 999_000 })
    );
}

#[test]
fn timestamp_of_another_length_is_rejected() {
    assert_eq!(parse_timestamp(&[]), None);
    assert_eq!(parse_timestamp(&[0; 7]), None);
    assert_eq!(parse_timestamp(&[0; 9]), None);
}
