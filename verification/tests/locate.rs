use minecraft_assets::{
    vanilla_root_path, version_archive_path, EnvError, LocalPath, MinecraftError, Platform,
};

fn strings(parts: &[&str]) -> Vec<String> {
    parts.iter().map(|part| part.to_string()).collect()
}

#[test]
fn the_variable_is_appdata_on_windows_and_home_elsewhere() {
    assert_eq!(Platform::Windows.env_variable(), "APPDATA");
    assert_eq!(Platform::Linux.env_variable(), "HOME");
    assert_eq!(Platform::MacOs.env_variable(), "HOME");
}

#[test]
fn the_linux_root_is_dot_minecraft_under_home() {
    let root = vanilla_root_path(Platform::Linux, Ok("/home/steve".to_string())).unwrap();
    assert_eq!(root.base, "/home/steve");
    assert_eq!(root.segments, strings(&[".minecraft"]));
}

#[test]
fn the_windows_root_is_dot_minecraft_under_appdata() {
    let value = "C:\\Users\\Steve\\AppData\\Roaming".to_string();
    let root = vanilla_root_path(Platform::Windows, Ok(value)).unwrap();
    assert_eq!(root.base, "C:\\Users\\Steve\\AppData\\Roaming");
    assert_eq!(root.segments, strings(&[".minecraft"]));
}

#[test]
fn the_macos_root_lies_under_application_support() {
    let root = vanilla_root_path(Platform::MacOs, Ok("/Users/steve".to_string())).unwrap();
    assert_eq!(root.base, "/Users/steve");
    assert_eq!(
        root.segments,
        strings(&["Library", "Application Support", "cminecraft"])
    );
}

#[test]
fn the_value_is_taken_letter_for_letter() {
    let root = vanilla_root_path(Platform::Linux, Ok("/Home/STEVE/ÄÖ".to_string())).unwrap();
    assert_eq!(root.base, "/Home/STEVE/ÄÖ");
    let empty = vanilla_root_path(Platform::Linux, Ok(String::new())).unwrap();
    assert_eq!(empty.base, "");
    assert_eq!(empty.segments, strings(&[".minecraft"]));
}

#[test]
fn a_missing_variable_is_an_env_error_on_every_platform() {
    for platform in [Platform::Windows, Platform::Linux, Platform::MacOs] {
        let res = vanilla_root_path(platform, Err(EnvError::NotPresent));
        assert!(matches!(
            res,
            Err(MinecraftError::Env(EnvError::NotPresent))
        ));
    }
}

#[test]
fn a_value_that_is_no_text_is_an_env_error() {
    for platform in [Platform::Windows, Platform::Linux, Platform::MacOs] {
        let res = vanilla_root_path(platform, Err(EnvError::NotUnicode));
        assert!(matches!(
            res,
            Err(MinecraftError::Env(EnvError::NotUnicode))
        ));
    }
}

#[test]
fn the_archive_lies_under_versions() {
    let root = vanilla_root_path(Platform::Linux, Ok("/home/steve".to_string())).unwrap();
    let path = version_archive_path(root, "1.16.5");
    assert_eq!(path.base, "/home/steve");
    assert_eq!(
        path.segments,
        strings(&[".minecraft", "versions", "1.16.5", "1.16.5.jar"])
    );
}

#[test]
fn the_archive_of_a_macos_installation() {
    let root = vanilla_root_path(Platform::MacOs, Ok("/Users/steve".to_string())).unwrap();
    let path = version_archive_path(root, "20w14a");
    assert_eq!(path.base, "/Users/steve");
    assert_eq!(
        path.segments,
        strings(&[
            "Library",
            "Application Support",
            "cminecraft",
            "versions",
            "20w14a",
            "20w14a.jar"
        ])
    );
}

#[test]
fn the_version_is_not_checked() {
    let root = LocalPath {
        base: "r".to_string(),
        segments: Vec::new(),
    };
    let path = version_archive_path(root, "");
    assert_eq!(path.base, "r");
    assert_eq!(path.segments, strings(&["versions", "", ".jar"]));

    let root = LocalPath {
        base: "r".to_string(),
        segments: strings(&["x"]),
    };
    let path = version_archive_path(root, "../é v");
    assert_eq!(
        path.segments,
        strings(&["x", "versions", "../é v", "../é v.jar"])
    );
}
