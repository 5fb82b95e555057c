use scrap_wayland::launch::{exit_code, wants_gui};

fn args(list: &[&str]) -> Vec<String> {
    list.iter().map(|s| s.to_string()).collect()
}

#[test]
fn gui_is_wanted_without_or_with_its_arguments() {
    assert!(wants_gui(&args(&[])));
    assert!(wants_gui(&args(&["rustdesk"])));
    assert!(wants_gui(&args(&["rustdesk", "--cm"])));
    assert!(wants_gui(&args(&["rustdesk", "x", "--install"])));
    assert!(wants_gui(&args(&["rustdesk", "--noinstall"])));
    assert!(wants_gui(&args(&["--cm", "x"])));
    assert!(!wants_gui(&args(&["rustdesk", "--server"])));
    assert!(!wants_gui(&args(&["rustdesk", "--cmx"])));
}

#[test]
fn exit_code_is_that_of_the_program() {
    assert_eq!(exit_code(Some(Some(3))), 3);
    assert_eq!(exit_code(Some(None)), 0);
    assert_eq!(exit_code(None), 0);
}
