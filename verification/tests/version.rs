use dibi::protocol::error::ParseVersionError;
use dibi::protocol::{parse_decimal_u16, ServerVersion};

#[test]
fn mariadb_server_version_should_be_parsed() {
    let version = "5.5.5-10.4.17-MariaDB-1:10.4.17+maria~bionic";
    let server_version = version.parse::<ServerVersion>().unwrap();
    assert_eq!(server_version.major(), 10);
    assert_eq!(server_version.minor(), 4);
    assert_eq!(server_version.patch(), 17);
    assert!(server_version.is_maria_db());
}

#[test]
fn mysql_server_version_should_be_parsed() {
    let version = "8.0.23";
    let server_version = version.parse::<ServerVersion>().unwrap();
    assert_eq!(server_version.major(), 8);
    assert_eq!(server_version.minor(), 0);
    assert_eq!(server_version.patch(), 23);
    assert!(!server_version.is_maria_db());
}

#[test]
fn invalid_server_version_should_fail() {
    let version = "8.0";
    let server_version = version.parse::<ServerVersion>();
    assert!(server_version.is_err());
}

#[test]
fn invalid_server_version_parts_should_fail() {
    let version = "hello.world.123";
    let server_version = version.parse::<ServerVersion>();
    assert!(server_version.is_err());
}

#[test]
fn missing_part_is_a_parse_error() {
    assert_eq!("8.0".parse::<ServerVersion>(), Err(ParseVersionError::Parse));
    assert_eq!("8".parse::<ServerVersion>(), Err(ParseVersionError::Parse));
}

#[test]
fn bad_number_is_an_int_error() {
    assert_eq!("hello.world.123".parse::<ServerVersion>(), Err(ParseVersionError::ParseIntError));
    assert_eq!("".parse::<ServerVersion>(), Err(ParseVersionError::ParseIntError));
    assert_eq!("8.x.1".parse::<ServerVersion>(), Err(ParseVersionError::ParseIntError));
    assert_eq!("8.0.".parse::<ServerVersion>(), Err(ParseVersionError::ParseIntError));
    assert_eq!("8.0.-log".parse::<ServerVersion>(), Err(ParseVersionError::ParseIntError));
    assert_eq!("8.0.65536".parse::<ServerVersion>(), Err(ParseVersionError::ParseIntError));
    assert_eq!("8. 0.1".parse::<ServerVersion>(), Err(ParseVersionError::ParseIntError));
}

#[test]
fn suffix_and_further_parts_are_ignored() {
    let v = "10.11.6-MariaDB-log".parse::<ServerVersion>().unwrap();
    assert_eq!((v.major(), v.minor(), v.patch(), v.is_maria_db()), (10, 11, 6, true));
    let v = "8.0.23.4".parse::<ServerVersion>().unwrap();
    assert_eq!((v.major(), v.minor(), v.patch(), v.is_maria_db()), (8, 0, 23, false));
    let v = "5.7.44-log".parse::<ServerVersion>().unwrap();
    assert_eq!((v.major(), v.minor(), v.patch(), v.is_maria_db()), (5, 7, 44, false));
}

#[test]
fn prefix_alone_marks_mariadb() {
    let v = "5.5.5-10.1.2".parse::<ServerVersion>().unwrap();
    assert_eq!((v.major(), v.minor(), v.patch(), v.is_maria_db()), (10, 1, 2, true));
    let v = "5.5.5".parse::<ServerVersion>().unwrap();
    assert_eq!((v.major(), v.minor(), v.patch(), v.is_maria_db()), (5, 5, 5, false));
}

#[test]
fn largest_numbers_fit() {
    let v = "65535.65535.65535".parse::<ServerVersion>().unwrap();
    assert_eq!((v.major(), v.minor(), v.patch()), (65535, 65535, 65535));
    let v = "+1.+02.003".parse::<ServerVersion>().unwrap();
    assert_eq!((v.major(), v.minor(), v.patch()), (1, 2, 3));
}

#[test]
fn from_bytes_agrees_with_from_str() {
    assert_eq!(ServerVersion::from_bytes(b"8.0.23"), "8.0.23".parse::<ServerVersion>());
    assert_eq!(ServerVersion::from_bytes(b"8.0"), Err(ParseVersionError::Parse));
}

#[test]
fn decimal_numbers_are_read_as_std_reads_them() {
    for text in ["0", "7", "+7", "007", "65535", "65536", "99999999999", "", "+", "-1", "1a", " 1", "++1"] {
        assert_eq!(parse_decimal_u16(text.as_bytes()), text.parse::<u16>().ok(), "{}", text);
    }
}

#[test]
fn new_version_is_mysql() {
    let v = ServerVersion::new(8, 4, 1);
    assert_eq!((v.major(), v.minor(), v.patch(), v.is_maria_db()), (8, 4, 1, false));
    assert_eq!(ServerVersion::default(), ServerVersion::new(0, 0, 0));
}
