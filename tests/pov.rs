use demoreel::decimal::read_u32;
use demoreel::pov::{is_pov_formatted, parse_port};

#[test]
fn host_and_port_is_pov() {
    assert!(is_pov_formatted("169.254.12.3:27015"));
    assert!(is_pov_formatted("localhost:0"));
    assert!(is_pov_formatted("host:65535"));
    assert!(is_pov_formatted("host:+80"));
    assert!(is_pov_formatted("host:0080"));
}

#[test]
fn server_names_are_not_pov() {
    assert!(!is_pov_formatted("SourceTV Demo"));
    assert!(!is_pov_formatted(""));
    assert!(!is_pov_formatted(":27015"));
    assert!(!is_pov_formatted("host:"));
    assert!(!is_pov_formatted("host:65536"));
    assert!(!is_pov_formatted("host:-1"));
    assert!(!is_pov_formatted("host:+"));
    assert!(!is_pov_formatted("a:b:1"));
    assert!(!is_pov_formatted("host:27015 "));
}

#[test]
fn ports_read_as_sixteen_bit_numbers() {
    assert!(parse_port("1"));
    assert!(parse_port("+65535"));
    assert!(parse_port("00000000000000065535"));
    assert!(!parse_port("99999999999"));
    assert!(!parse_port("12a"));
    assert!(!parse_port("++1"));
}

#[test]
fn thirty_two_bit_numbers_are_read() {
    assert_eq!(read_u32("4294967295"), Some(4294967295));
    assert_eq!(read_u32("+007"), Some(7));
    assert_eq!(read_u32("4294967296"), None);
    assert_eq!(read_u32(""), None);
    assert_eq!(read_u32("1 "), None);
}
