use angryether::error::ConfigError;
use angryether::ports::{
    default_ports_files, find_system_ports_file, first_existing, get_default_ports_file,
    read_ports_from_file, system_ports_files,
};

#[test]
fn test_read_ports_from_file() {
    let ports = read_ports_from_file(b"80,443,22,21\n").unwrap();
    assert_eq!(ports, vec![80, 443, 22, 21]);
}

#[test]
fn port_list_allows_white_space_and_line_breaks() {
    assert_eq!(read_ports_from_file(b" 80 , 443\r\n,22\t").unwrap(), vec![80, 443, 22]);
    assert_eq!(read_ports_from_file(b"80,44\n3").unwrap(), vec![80, 443]);
    assert_eq!(read_ports_from_file(b"21\r").unwrap(), vec![21]);
}

#[test]
fn port_list_keeps_order_and_repetitions() {
    assert_eq!(read_ports_from_file(b"443,80,443,1").unwrap(), vec![443, 80, 443, 1]);
}

#[test]
fn port_list_reads_numbers_as_the_standard_parser_does() {
    assert_eq!(read_ports_from_file(b"+80,0080,0,65535").unwrap(), vec![80, 80, 0, 65535]);
    assert_eq!("+80".parse::<u16>().unwrap(), 80);
    assert_eq!("0080".parse::<u16>().unwrap(), 80);
    assert!("65536".parse::<u16>().is_err());
    assert!("+".parse::<u16>().is_err());
    assert!("".parse::<u16>().is_err());
}

#[test]
fn port_list_with_a_bad_entry_is_malformed() {
    for content in [
        &b"65536"[..],
        b"",
        b"80,,443",
        b"80,",
        b"8a",
        b"-1",
        b"+",
        b"80 80",
        b"80;443",
        b"99999999999999999999",
        b"8\r0",
    ] {
        assert_eq!(read_ports_from_file(content), Err(ConfigError::MalformedPortList));
    }
}

#[test]
fn system_places_are_tried_in_order() {
    assert_eq!(
        system_ports_files("top.txt"),
        vec![
            "/usr/local/share/angryether/ports/top.txt".to_string(),
            "/usr/share/angryether/ports/top.txt".to_string(),
            "/opt/angryether/ports/top.txt".to_string(),
        ]
    );
    assert_eq!(
        default_ports_files(),
        vec![
            "ports/10000.txt".to_string(),
            "/usr/local/share/angryether/ports/10000.txt".to_string(),
            "/usr/share/angryether/ports/10000.txt".to_string(),
            "/opt/angryether/ports/10000.txt".to_string(),
        ]
    );
}

#[test]
fn the_first_place_with_a_file_is_chosen() {
    assert_eq!(first_existing(&[false, true, true]), Some(1));
    assert_eq!(first_existing(&[false, false]), None);
    assert_eq!(first_existing(&[]), None);
    assert_eq!(get_default_ports_file(&[false, false, true, false]), 2);
    assert_eq!(get_default_ports_file(&[true, true, true, true]), 0);
    assert_eq!(get_default_ports_file(&[false, false, false, false]), 0);
    assert_eq!(find_system_ports_file(&[false, false, true]), Ok(2));
    assert_eq!(find_system_ports_file(&[false, false, false]), Err(ConfigError::PortsFileNotFound));
}
