use usbip_core::names::parse_contents;

const IDS: &str = "# comment\n1234  Acme Corp\n\t5678  Widget\n\t0001  Gadget\nC 9  Hub\n\t0  Unused\n\t\t1  Single TT\n";

#[test]
fn names_are_read() {
    let names = parse_contents(IDS);
    assert_eq!(names.vendor(1234), Some("Acme Corp"));
    assert_eq!(names.product(1234, 5678), Some("Widget"));
    assert_eq!(names.product(1234, 1), Some("Gadget"));
    assert_eq!(names.class(9), Some("Hub"));
    assert_eq!(names.subclass(9, 0), Some("Unused"));
    assert_eq!(names.protocol(9, 0, 1), Some("Single TT"));
    assert_eq!(names.vendor(4321), None);
}

#[test]
fn hex_ids_are_not_read() {
    let names = parse_contents("046d  Logitech\n");
    assert_eq!(names.vendor(46), None);
}

#[test]
fn product_display_text() {
    let names = parse_contents(IDS);
    assert_eq!(names.product_display(1234, 5678), "Acme Corp : Widget (04d2:162e)");
    assert_eq!(
        names.product_display(1, 2),
        "unknown vendor : unknown product (0001:0002)"
    );
}
