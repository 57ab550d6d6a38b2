use niri_launcher::launch::{window_kind, KindError, WindowKind};

#[test]
fn terminal_and_editor_classes() {
    assert_eq!(window_kind(&Some("kitty".to_string())), Ok(WindowKind::Kitty));
    assert_eq!(window_kind(&Some("neovide".to_string())), Ok(WindowKind::Neovide));
}

#[test]
fn other_classes_are_unsupported() {
    assert_eq!(window_kind(&Some("firefox".to_string())), Err(KindError::Unsupported));
    assert_eq!(window_kind(&Some("Kitty".to_string())), Err(KindError::Unsupported));
    assert_eq!(window_kind(&Some("kitty2".to_string())), Err(KindError::Unsupported));
    assert_eq!(window_kind(&Some(String::new())), Err(KindError::Unsupported));
}

#[test]
fn missing_class() {
    assert_eq!(window_kind(&None), Err(KindError::NoClass));
}
