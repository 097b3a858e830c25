use flowshare_core::platform_handles::{
    check_source_descriptor, configure_state_root, descriptor_io_path, is_registered_source_token,
    register_owned_source_descriptor, release_source_descriptor, resolve_registered_source,
    validate_display_name, SourceRegistry,
};
use std::rc::Rc;

#[test]
fn display_name_rejects_paths_and_control_characters() {
    assert!(validate_display_name("movie.webm".into()).is_ok());
    for invalid in ["../movie", "folder/movie", "folder\\movie", "bad\nname", ""] {
        assert!(validate_display_name(invalid.into()).is_err());
    }
}

#[test]
fn a_registered_source_resolves_until_it_is_released() {
    let mut registry: SourceRegistry<u32> = SourceRegistry::new();
    let token =
        register_owned_source_descriptor(&mut registry, &[7; 16], 42, "movie.webm".into(), true)
            .unwrap();
    assert!(is_registered_source_token(&token));
    assert!(token.contains("07070707-0707-0707-0707-070707070707"));
    let source = resolve_registered_source(&registry, &token).unwrap();
    assert_eq!(source.handle, 42);
    assert_eq!(source.display_name(), "movie.webm");
    assert!(release_source_descriptor(&mut registry, &token));
    assert!(!release_source_descriptor(&mut registry, &token));
    assert!(resolve_registered_source(&registry, &token).is_err());
}

#[test]
fn directories_and_bad_descriptors_are_refused() {
    let mut registry: SourceRegistry<u32> = SourceRegistry::new();
    assert!(register_owned_source_descriptor(
        &mut registry,
        &[7; 16],
        42,
        "movie.webm".into(),
        false
    )
    .is_err());
    assert_eq!(
        check_source_descriptor(-1).unwrap_err(),
        "platform-source-descriptor-invalid"
    );
    assert!(check_source_descriptor(3).is_ok());
    assert_eq!(descriptor_io_path(3), "/proc/self/fd/3");
}

#[test]
fn a_handle_with_a_path_for_a_name_is_given_up() {
    let mut registry: SourceRegistry<Rc<()>> = SourceRegistry::new();
    let handle = Rc::new(());
    for invalid in ["folder/movie", "folder\\movie", " ", ".."] {
        assert_eq!(
            register_owned_source_descriptor(
                &mut registry,
                &[7; 16],
                Rc::clone(&handle),
                invalid.into(),
                true
            )
            .unwrap_err(),
            "platform-source-display-name-invalid"
        );
        assert_eq!(Rc::strong_count(&handle), 1);
    }
    let token = "android-fd:07070707-0707-0707-0707-070707070707".to_string();
    assert!(resolve_registered_source(&registry, &token).is_err());
    let kept = register_owned_source_descriptor(
        &mut registry,
        &[7; 16],
        Rc::clone(&handle),
        " movie.webm ".into(),
        true,
    );
    assert_eq!(kept.unwrap(), token);
    assert_eq!(Rc::strong_count(&handle), 2);
    let source = resolve_registered_source(&registry, &token).unwrap();
    assert_eq!(source.display_name(), "movie.webm");
}

#[test]
fn the_state_root_is_set_once() {
    let mut root = None;
    assert!(configure_state_root(&mut root, Some("/data".into())).unwrap());
    assert_eq!(root.as_deref(), Some("/data"));
    assert!(configure_state_root(&mut root, Some("/other".into())).is_err());
    assert_eq!(root.as_deref(), Some("/data"));
}
