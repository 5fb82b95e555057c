use scrap_wayland::errors::{DBusError, DBusFault, GStreamerError};

#[test]
fn errors_show_their_message() {
    assert_eq!(DBusError("a".to_owned()).to_text(), "a");
    assert_eq!(GStreamerError("b".to_owned()).to_text(), "b");
    let fault = DBusFault {
        name: Some("n".to_owned()),
        message: Some("m".to_owned()),
    };
    assert_eq!(fault.to_text(), "m");
    assert_eq!(fault.name_text(), "n");
    let empty = DBusFault {
        name: None,
        message: None,
    };
    assert_eq!(empty.to_text(), "");
    assert_eq!(empty.name_text(), "");
}
