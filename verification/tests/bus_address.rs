use bambusa::address::{bus_file_name, parse_address_file};

#[test]
fn bus_file_name_format() {
    assert_eq!(bus_file_name("abc123", "wayland-0"), "abc123-unix-wayland-0");
}

#[test]
fn parse_address_from_file() {
    let contents = "# some comment\nIBUS_ADDRESS=unix:abstract=/tmp/dbus-x,guid=ab\nIBUS_DAEMON_PID=42\n";
    assert_eq!(parse_address_file(contents).as_deref(), Some("unix:abstract=/tmp/dbus-x,guid=ab"));
    assert_eq!(parse_address_file("no address here\n"), None);
}
