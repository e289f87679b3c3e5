use relay::error::{Error, ErrorKind};
use relay::net::{to_socket_addr, SocketAddr, SocketAddrV6};
use relay::root_listener::{check_address, inherited_fd, ListenerVariable};

fn refused(message: &'static str) -> Error {
    Error { kind: ErrorKind::InvalidInput, message }
}

#[test]
fn no_variable_means_no_listener() {
    assert_eq!(Ok(None), inherited_fd(ListenerVariable::NotPresent));
}

#[test]
fn variable_must_be_text() {
    assert_eq!(
        Err(refused("invalid inherited listener")),
        inherited_fd(ListenerVariable::NotUnicode)
    );
}

#[test]
fn descriptors_are_decimal_numbers() {
    for (text, fd) in [("3", 3), ("+7", 7), ("0042", 42), ("2147483647", i32::MAX)] {
        assert_eq!(Ok(Some(fd)), inherited_fd(ListenerVariable::Value(text)));
    }
    for text in ["", "+", "-", "fd", " 3", "3 ", "0x3", "3.0", "--3", "2147483648", "-2147483649"] {
        assert_eq!(
            Err(refused("invalid listener fd")),
            inherited_fd(ListenerVariable::Value(text))
        );
    }
}

#[test]
fn standard_streams_are_no_listeners() {
    for text in ["2", "0", "-1", "-0", "-2147483648"] {
        assert_eq!(
            Err(refused("listener fd must be at least 3")),
            inherited_fd(ListenerVariable::Value(text))
        );
    }
}

#[test]
fn listener_must_match_the_loopback_port() {
    let ipv6_localhost =
        SocketAddrV6 { ip: [0, 0, 0, 0, 0, 0, 0, 0, 0, 0, 0, 0, 0, 0, 0, 1], port: 31417 };
    assert_eq!(Ok(()), check_address(&to_socket_addr(0x7f_00_00_01, 31417), 31417));
    assert_eq!(Ok(()), check_address(&SocketAddr::V6(ipv6_localhost), 31417));
    let mismatch = refused("inherited listener must match the loopback port");
    assert_eq!(Err(mismatch), check_address(&to_socket_addr(0x7f_00_00_01, 31416), 31417));
    assert_eq!(Err(mismatch), check_address(&to_socket_addr(0x0a_00_00_01, 31417), 31417));
}
