use mouse_listener::controls::{ControlType, FIRST_CONTROL_TYPE_ID, LAST_CONTROL_TYPE_ID};

#[test]
fn identifiers_of_some_control_types() {
    assert_eq!(ControlType::Button.id(), 50000);
    assert_eq!(ControlType::Edit.id(), 50004);
    assert_eq!(ControlType::Text.id(), 50020);
    assert_eq!(ControlType::Document.id(), 50030);
    assert_eq!(ControlType::Window.id(), 50032);
    assert_eq!(ControlType::Pane.id(), 50033);
    assert_eq!(ControlType::AppBar.id(), 50040);
}

#[test]
fn every_identifier_in_range_names_one_control_type() {
    assert_eq!(FIRST_CONTROL_TYPE_ID, 50000);
    assert_eq!(LAST_CONTROL_TYPE_ID, 50040);
    let mut seen: Vec<ControlType> = Vec::new();
    for id in FIRST_CONTROL_TYPE_ID..=LAST_CONTROL_TYPE_ID {
        let kind = ControlType::from_id(id).unwrap();
        assert_eq!(kind.id(), id);
        assert!(!seen.contains(&kind));
        seen.push(kind);
    }
    assert_eq!(seen.len(), 41);
}

#[test]
fn identifiers_out_of_range_name_nothing() {
    assert_eq!(ControlType::from_id(49999), None);
    assert_eq!(ControlType::from_id(50041), None);
    assert_eq!(ControlType::from_id(0), None);
    assert_eq!(ControlType::from_id(-1), None);
    assert_eq!(ControlType::from_id(i32::MAX), None);
    assert_eq!(ControlType::from_id(i32::MIN), None);
}
