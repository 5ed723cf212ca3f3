use quickicon::settings::{Args, Config};

fn args() -> Args {
    Args { language: None, icon_name: "Icon".to_string(), path: None, destination: None, size: None, default: false }
}

#[test]
fn standard_settings() {
    let config = Config::default();
    assert!(!config.is_javascript);
    assert_eq!(config.destination_folder, "./public/assets/icon");
    assert_eq!(config.size, 24);
}

#[test]
fn nothing_stored_and_nothing_given_is_standard() {
    assert_eq!(Config::resolve(None, &args()), Config::default());
}

#[test]
fn stored_settings_are_kept_where_nothing_is_given() {
    let stored = Config { is_javascript: true, destination_folder: "src/icons".to_string(), size: 32 };
    assert_eq!(Config::resolve(Some(stored.clone()), &args()), stored);
}

#[test]
fn given_values_override_stored_ones() {
    let stored = Config { is_javascript: true, destination_folder: "src/icons".to_string(), size: 32 };
    let given = Args {
        language: Some("typescript".to_string()),
        destination: Some("lib".to_string()),
        size: Some(48),
        ..args()
    };
    assert_eq!(
        Config::resolve(Some(stored.clone()), &given),
        Config { is_javascript: false, destination_folder: "lib".to_string(), size: 48 }
    );
    let only_size = Args { size: Some(12), ..args() };
    assert_eq!(
        Config::resolve(Some(stored), &only_size),
        Config { is_javascript: true, destination_folder: "src/icons".to_string(), size: 12 }
    );
}

#[test]
fn language_is_javascript_only_by_that_name() {
    let with = |language: &str| Config::resolve(None, &Args { language: Some(language.to_string()), ..args() });
    assert!(with("javascript").is_javascript);
    assert!(!with("typescript").is_javascript);
    assert!(!with("JavaScript").is_javascript);
    assert!(!with("").is_javascript);
}
