use lazytail::update::detection::detect_from_path;
use lazytail::update::InstallMethod;

#[test]
fn test_detect_from_path_usr_bin() {
    let method = detect_from_path("/usr/bin/lazytail");
    match method {
        InstallMethod::PackageManager { name, .. } => {
            assert_eq!(name, "system");
        }
        InstallMethod::SelfManaged => panic!("Expected PackageManager"),
    }
}

#[test]
fn test_detect_from_path_home() {
    let method = detect_from_path("/home/user/.local/bin/lazytail");
    assert!(matches!(method, InstallMethod::SelfManaged));
}

#[test]
fn test_detect_from_path_cargo() {
    let method = detect_from_path("/home/user/.cargo/bin/lazytail");
    assert!(matches!(method, InstallMethod::SelfManaged));
}

#[test]
fn test_detect_from_path_opt() {
    let method = detect_from_path("/opt/lazytail/bin/lazytail");
    assert!(matches!(method, InstallMethod::SelfManaged));
}

#[test]
fn detect_from_path_usr_sbin() {
    match detect_from_path("/usr/sbin/lazytail") {
        InstallMethod::PackageManager { name, upgrade_cmd } => {
            assert_eq!(name, "system");
            assert_eq!(upgrade_cmd, "your system package manager");
        }
        InstallMethod::SelfManaged => panic!("Expected PackageManager"),
    }
    assert!(matches!(detect_from_path("/usr/binaries/x"), InstallMethod::SelfManaged));
}
