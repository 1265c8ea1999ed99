use port_discovery::cell::{NotReadyError, PortCell};

#[test]
fn fresh_cell_is_empty_and_not_ready() {
    let cell = PortCell::new();
    assert_eq!(cell.read(), None);
    assert_eq!(cell.get_port(), Err(NotReadyError));
}

#[test]
fn first_write_is_visible_to_every_read() {
    let mut cell = PortCell::new();
    cell.write_once(54231);
    assert_eq!(cell.read(), Some(54231));
    assert_eq!(cell.get_port(), Ok(54231));
    assert_eq!(cell.read(), Some(54231));
}

#[test]
fn later_writes_are_ignored() {
    let mut cell = PortCell::new();
    cell.write_once(54231);
    cell.write_once(9999);
    cell.write_once(1);
    assert_eq!(cell.read(), Some(54231));
    assert_eq!(cell.get_port(), Ok(54231));
}

#[test]
fn not_ready_error_has_its_message() {
    assert_eq!(NotReadyError.message(), "Server not ready");
}
