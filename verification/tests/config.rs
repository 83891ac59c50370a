use p2pchat::config::{config_dir, db_path, identity_path, ConfigBase};
use p2pchat::VERSION;

#[test]
fn config_dir_is_absolute_or_relative_fallback() {
    for xdg in [false, true] {
        for home in [false, true] {
            let d = config_dir(xdg, home);
            // Either we got a real path or the relative fallback; either way it's non-empty.
            assert!(!d.parts.is_empty());
            assert!(d.parts.iter().all(|p| !p.is_empty()));
        }
    }
}

#[test]
fn version_is_nonempty() {
    assert!(!VERSION.is_empty());
}

#[test]
fn paths_are_exact() {
    let xdg = config_dir(true, true);
    assert_eq!((xdg.base, xdg.parts), (ConfigBase::XdgConfigHome, vec!["p2pchat".to_string()]));
    let home = identity_path(false, true);
    assert_eq!(home.base, ConfigBase::Home);
    assert_eq!(home.parts, [".config", "p2pchat", "identity.enc"]);
    let here = db_path(false, false);
    assert_eq!(here.base, ConfigBase::WorkingDir);
    assert_eq!(here.parts, [".p2pchat", "chat.db"]);
}
