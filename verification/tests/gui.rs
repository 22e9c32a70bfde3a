use kisel::gui::{Pad, Ui};

#[test]
fn default_pad_holds_no_button() {
    let p = Pad::default();
    assert!(!(p.a || p.b || p.select || p.start || p.up || p.down || p.left || p.right));
}

#[test]
fn default_ui_requests_nothing() {
    let u = Ui::default();
    assert!(!(u.debug || u.save || u.load || u.rewind || u.load_rom || u.exit));
}
