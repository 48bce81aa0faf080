use homework_backup::config::Configuration;

fn configured(
    server_address: Option<&str>,
    server_port: Option<&str>,
    attachment_path: Option<&str>,
    backup_path: Option<&str>,
    maximum_backups: Option<usize>,
) -> Configuration {
    Configuration {
        server_address: server_address.map(|s| s.to_string()),
        server_port: server_port.map(|s| s.to_string()),
        attachment_path: attachment_path.map(|s| s.to_string()),
        thumbnail_path: None,
        log_level: None,
        backup_path: backup_path.map(|s| s.to_string()),
        maximum_backups,
    }
}

#[test]
/// Tests if the `application_configuration_folder_path` function returns the correct path.
fn test_application_configuration_folder_path() {
    let p = std::path::PathBuf::from(Configuration::application_configuration_folder_path());
    assert_eq!(p.to_str().unwrap(), "application");
    assert!(p.is_relative());
}

#[test]
/// Tests if the `application_configuration_file_path` function returns the correct path.
fn test_application_configuration_file_path() {
    let p = std::path::PathBuf::from(Configuration::application_configuration_file_path());
    assert_eq!(p.to_str().unwrap(), "application/configuration.json");
    assert!(p.is_relative());
}

#[test]
fn database_file_path_is_inside_configuration_folder() {
    assert_eq!(
        Configuration::application_database_file_path(),
        "application/database.sqlite"
    );
}

#[test]
fn attachments_folder_path_defaults_and_obeys_configuration() {
    let default_config = Configuration::default();
    assert_eq!(
        default_config.application_attachments_folder_path(),
        "application/attachments"
    );
    let custom = configured(None, None, Some("/srv/attachments"), None, None);
    assert_eq!(custom.application_attachments_folder_path(), "/srv/attachments");
}

#[test]
fn thumbnail_folder_path_defaults() {
    let default_config = Configuration::default();
    assert_eq!(
        default_config.application_thumbnail_folder_path(),
        "application/thumbnails"
    );
}

#[test]
fn backup_folder_path_defaults_and_obeys_configuration() {
    let default_config = Configuration::default();
    assert_eq!(
        default_config.application_backup_folder_path(),
        "application/backups"
    );
    let custom = configured(None, None, None, Some("/srv/backups"), None);
    assert_eq!(custom.application_backup_folder_path(), "/srv/backups");
}

#[test]
fn server_address_and_port_default_to_loopback() {
    let default_config = Configuration::default();
    assert_eq!(default_config.server_address(), "127.0.0.1");
    assert_eq!(default_config.server_port(), "8080");
    assert_eq!(default_config.server_address_and_port(), "127.0.0.1:8080");
}

#[test]
fn server_address_and_port_obey_configuration() {
    let custom = configured(Some("0.0.0.0"), Some("9090"), None, None, None);
    assert_eq!(custom.server_address_and_port(), "0.0.0.0:9090");
}

#[test]
fn maximum_backups_defaults_to_three() {
    let default_config = Configuration::default();
    assert_eq!(default_config.maximum_backups(), 3);
    let custom = configured(None, None, None, None, Some(7));
    assert_eq!(custom.maximum_backups(), 7);
}

#[test]
fn thumbnail_widths_are_fixed() {
    assert_eq!(
        Configuration::thumbnail_widths(),
        vec![0, 100, 200, 400, 600, 800, 1000]
    );
}
