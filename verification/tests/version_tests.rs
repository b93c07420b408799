use chat::version::Version;
use chat::version_code::{convert_to_version, convert_to_version_code};
use chat::model::ChatError;

#[test]
fn test_convert_to_version_code_max() {
    assert_eq!(
        convert_to_version_code(&[u16::MAX, u16::MAX, u16::MAX].into(), u16::MAX),
        u64::MAX
    );
}

#[test]
fn test_convert_to_version_max() {
    assert_eq!(
        convert_to_version(u64::MAX),
        ([u16::MAX, u16::MAX, u16::MAX].into(), u16::MAX)
    )
}

#[test]
fn test_u32_into() {
    assert_eq!(
        Into::<Version>::into([1, 2, 3]),
        Version {
            major: 1,
            minor: 2,
            patch: 3,
        },
    )
}

#[test]
fn test_from_str() {
    assert_eq!(
        "1.2.3".parse::<Version>().unwrap(),
        Version {
            major: 1,
            minor: 2,
            patch: 3,
        }
    );
}

#[test]
fn test_display() {
    assert_eq!(
        Version {
            major: 1,
            minor: 2,
            patch: 3
        }
        .to_text(),
        "1.2.3"
    )
}

#[test]
fn test_compare() {
    assert!("1.2.3".parse::<Version>().unwrap() == "1.2.3".parse().unwrap());
    assert!("1.2.3".parse::<Version>().unwrap() < "1.2.4".parse().unwrap());
    assert!("1.2.3".parse::<Version>().unwrap() < "1.3.2".parse().unwrap());
    assert!("1.2.3".parse::<Version>().unwrap() < "2.1.2".parse().unwrap());
}

#[test]
fn version_code_round_trip_zero() {
    let v = Version { major: 0, minor: 0, patch: 0 };
    let code = convert_to_version_code(&v, 0);
    assert_eq!(code, 0);
    assert_eq!(convert_to_version(code), (v, 0));
}

#[test]
fn version_code_round_trip_mixed() {
    let v = Version { major: 2, minor: 17, patch: 409 };
    let code = convert_to_version_code(&v, 7);
    assert_eq!(
        code,
        2u64 * 0x1_0000_0000_0000 + 17u64 * 0x1_0000_0000 + 409u64 * 0x1_0000 + 7
    );
    assert_eq!(convert_to_version(code), (v, 7));
}

#[test]
fn version_parse_rejects_short_and_bad_input() {
    assert_eq!(Version::parse("1.2"), Err(ChatError::Parse));
    assert_eq!(Version::parse(""), Err(ChatError::Parse));
    assert_eq!(Version::parse("1.2.x"), Err(ChatError::Parse));
    assert_eq!(Version::parse("70000.0.0"), Err(ChatError::Parse));
    assert_eq!(Version::parse("1..3"), Err(ChatError::Parse));
}

#[test]
fn version_parse_ignores_extra_components() {
    assert_eq!(
        Version::parse("1.2.3.4").unwrap(),
        Version { major: 1, minor: 2, patch: 3 }
    );
}

#[test]
fn version_text_round_trip() {
    let v = Version { major: 0, minor: 3, patch: 0 };
    assert_eq!(Version::parse(&v.to_text()).unwrap(), v);
}
