//! The launching-data builder and the window-class rules.

use niri_integration::{
    classify_window_class, split_env_assignment, Error, KittyConn, LaunchSource, LaunchingData,
    NiriWindow, Vim, Win,
};

fn s(x: &str) -> String {
    String::from(x)
}

#[test]
fn default_is_empty() {
    let data = LaunchingData::default();
    assert!(data.env.is_empty());
    assert!(data.cwd.is_none());
    assert!(data.get_vim().is_none());
    assert!(data.get_kitty().is_none());
}

#[test]
fn add_env_overrides_by_name() {
    let data = LaunchingData::default()
        .add_env(s("A"), s("1"))
        .add_env(s("B"), s("2"))
        .add_env(s("A"), s("3"));
    assert_eq!(data.env, vec![(s("B"), s("2")), (s("A"), s("3"))]);
}

#[test]
fn set_env_replaces_everything() {
    let data = LaunchingData::default().add_env(s("A"), s("1")).set_env(s("B"), s("2"));
    assert_eq!(data.env, vec![(s("B"), s("2"))]);
}

#[test]
fn add_envs_applies_in_order() {
    let data = LaunchingData::default().add_env(s("A"), s("0")).add_envs(vec![
        (s("A"), s("1")),
        (s("B"), s("2")),
        (s("A"), s("3")),
    ]);
    assert_eq!(data.env, vec![(s("B"), s("2")), (s("A"), s("3"))]);
}

#[test]
fn set_envs_clears_first() {
    let data = LaunchingData::default().add_env(s("OLD"), s("x")).set_envs(vec![(s("N"), s("y"))]);
    assert_eq!(data.env, vec![(s("N"), s("y"))]);
}

#[test]
fn cwd_operations() {
    let data = LaunchingData::default().set_cwd(s("/home"));
    assert_eq!(data.cwd.as_deref(), Some("/home"));
    let data = data.clear_cwd();
    assert!(data.cwd.is_none());
    let data = data.maybe_cwd(Some(s("/tmp")));
    assert_eq!(data.cwd.as_deref(), Some("/tmp"));
    let data = data.maybe_cwd(None);
    assert!(data.cwd.is_none());
}

#[test]
fn vim_and_kitty_sources() {
    let vim = Vim::new(
        vec![Win::new(1, 0, 0, 80, 40, Some(80), String::new())],
        NiriWindow {
            id: 9,
            app_id: Some(s("neovide")),
            pid: Some(42),
            workspace_id: Some(1),
            is_focused: true,
            view_offset: 0,
        },
    );
    let data = LaunchingData::default().set_vim(vim);
    assert!(data.get_vim().is_some());
    assert!(data.get_kitty().is_none());
    let data = data.set_kitty(KittyConn { pid: 77 });
    assert!(data.get_vim().is_none());
    assert_eq!(data.get_kitty().map(|k| k.pid), Some(77));
}

#[test]
fn classify_known_classes() {
    assert_eq!(classify_window_class(&Some(s("kitty"))), Ok(LaunchSource::Kitty));
    assert_eq!(classify_window_class(&Some(s("neovide"))), Ok(LaunchSource::Neovide));
}

#[test]
fn classify_rejects_others() {
    assert_eq!(classify_window_class(&None), Err(Error::WindowHasNoClass));
    assert_eq!(classify_window_class(&Some(s("firefox"))), Err(Error::UnsupportedClass));
}

#[test]
fn env_record_splits_at_first_equals() {
    let line: Vec<u8> = b"PATH=/usr/bin:/bin".to_vec();
    let (name, value) = split_env_assignment(&line).expect("an assignment");
    assert_eq!(name, b"PATH".to_vec());
    assert_eq!(value, b"/usr/bin:/bin".to_vec());

    let tricky: Vec<u8> = b"A=b=c".to_vec();
    let (name, value) = split_env_assignment(&tricky).expect("an assignment");
    assert_eq!(name, b"A".to_vec());
    assert_eq!(value, b"b=c".to_vec());
}

#[test]
fn env_record_without_equals() {
    let line: Vec<u8> = b"NOEQUALS".to_vec();
    assert!(split_env_assignment(&line).is_none());
}
