use omapaste::paths::{
    config_dir, config_path, data_dir, db_path, home, images_dir, omarchy_theme_dir,
    omarchy_theme_name_path, path_join, runtime_dir, watch_paths, xdg_config_home, PathEnv,
    APP_ID, APP_NAME, ISSUES_URL, VERSION,
};

fn env(home: Option<&str>, config: Option<&str>, data: Option<&str>, runtime: Option<&str>) -> PathEnv {
    PathEnv {
        home: home.map(str::to_string),
        userprofile: None,
        xdg_config_home: config.map(str::to_string),
        xdg_data_home: data.map(str::to_string),
        xdg_runtime_dir: runtime.map(str::to_string),
    }
}

#[test]
fn constants() {
    assert_eq!(APP_NAME, "omapaste");
    assert_eq!(APP_ID, "io.github.pkayokay.omapaste");
    assert_eq!(ISSUES_URL, "https://github.com/pkayokay/omapaste/issues");
    assert!(!VERSION.is_empty());
}

#[test]
fn xdg_paths_honor_env() {
    let e = env(Some("/home/u"), Some("/x/cfg"), Some("/x/data"), None);
    assert_eq!(config_path(&e), "/x/cfg/omapaste/config.toml");
    assert_eq!(db_path(&e), "/x/data/omapaste/history.sqlite");
    assert_eq!(images_dir(&e), "/x/data/omapaste/images");
    assert_eq!(config_dir(&e), "/x/cfg/omapaste");
    assert_eq!(data_dir(&e), "/x/data/omapaste");
}

#[test]
fn runtime_dir_without_xdg_runtime_uses_private_data_runtime() {
    let e = env(Some("/home/u"), None, Some("/x/data"), None);
    assert_eq!(runtime_dir(&e), "/x/data/omapaste/runtime");
    let e = env(Some("/home/u"), None, None, Some("/run/user/1000"));
    assert_eq!(runtime_dir(&e), "/run/user/1000/omapaste");
}

#[test]
fn home_falls_back_to_home_env() {
    let e = env(Some("/home/u"), None, None, None);
    assert_eq!(home(&e), "/home/u");
    assert_eq!(xdg_config_home(&e), "/home/u/.config");
    assert_eq!(omarchy_theme_dir(&e), "/home/u/.local/state/omarchy/current/theme");
    let none = env(None, None, None, None);
    assert_eq!(home(&none), "/tmp");
    let mut profile = env(None, None, None, None);
    profile.userprofile = Some("C:/Users/u".into());
    assert_eq!(home(&profile), "C:/Users/u");
}

#[test]
fn watch_paths_follow_home() {
    let e = env(Some("/home/u"), None, None, None);
    let paths = watch_paths(&e);
    assert!(paths[0].ends_with("colors.toml"));
    assert!(paths[1].ends_with("theme.name"));
    assert!(paths[0].starts_with("/home/u"));
    assert_eq!(paths[1], omarchy_theme_name_path(&e));
}

#[test]
fn join_adds_one_separator() {
    assert_eq!(path_join("/a", "b"), "/a/b");
    assert_eq!(path_join("/a/", "b"), "/a/b");
    assert_eq!(path_join("", "b"), "b");
}
