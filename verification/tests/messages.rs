use materia_forge::gamelib_helper::steam_proton::{CatalogError, RuntimeError};
use materia_forge::gamelib_helper::{
    BindingError, ConfigError, ConfigField, LaunchError, MaintenanceError,
};

#[test]
fn config_errors_name_the_missing_field() {
    assert_eq!(
        ConfigError::MalformedStructure(ConfigField::WinePrefix).message(),
        "configuration is malformed: missing winePrefix"
    );
    assert_eq!(
        ConfigError::MalformedStructure(ConfigField::WineVersion).message(),
        "configuration is malformed: missing wineVersion"
    );
    assert_eq!(
        ConfigError::MalformedStructure(ConfigField::Type).message(),
        "configuration is malformed: missing wineVersion type"
    );
    assert_eq!(
        ConfigError::MalformedStructure(ConfigField::Name).message(),
        "configuration is malformed: missing name"
    );
    assert_eq!(
        ConfigError::MalformedStructure(ConfigField::Bin).message(),
        "configuration is malformed: missing wineVersion bin"
    );
    assert_eq!(
        ConfigError::MalformedStructure(ConfigField::GamePath).message(),
        "configuration is malformed: missing game directory"
    );
    assert_eq!(
        ConfigError::MalformedStructure(ConfigField::Document).message(),
        "configuration is malformed: missing document"
    );
    assert_eq!(ConfigField::WinePrefix.name(), "winePrefix");
}

#[test]
fn config_errors_of_other_kinds_are_one_line() {
    assert_eq!(ConfigError::NotFound.message(), "no binding found for the application");
    assert_eq!(ConfigError::IoFailure.message(), "configuration could not be read or written");
}

#[test]
fn every_message_is_one_line_and_its_own() {
    let messages = vec![
        ConfigError::NotFound.message(),
        ConfigError::IoFailure.message(),
        ConfigError::MalformedStructure(ConfigField::Name).message(),
        BindingError::NoCompatibleRunnerFound.message(),
        LaunchError::MissingRunner.message(),
        LaunchError::MissingRuntime.message(),
        LaunchError::PrefixHasNoParent.message(),
        LaunchError::IoFailure.message(),
        LaunchError::ChildProcessFailed.message(),
        MaintenanceError::UnsafeDeletionTarget.message(),
        MaintenanceError::IoFailure.message(),
        RuntimeError::ManifestMissing.message(),
        RuntimeError::ManifestMalformed.message(),
        RuntimeError::FieldMissing.message(),
        RuntimeError::FieldMalformed.message(),
        RuntimeError::AppNotFound.message(),
        RuntimeError::AppUnnamed.message(),
        CatalogError::AppNameMissing.message(),
    ];
    for (i, m) in messages.iter().enumerate() {
        assert!(!m.is_empty() && !m.contains('\n'), "{m:?}");
        for other in &messages[i + 1..] {
            assert_ne!(m, other);
        }
    }
    assert_eq!(
        CatalogError::NoCompatibleRunnerFound.message(),
        BindingError::NoCompatibleRunnerFound.message()
    );
    assert_eq!(LaunchError::ChildProcessFailed.message(), "the process exited with an error");
    assert_eq!(
        MaintenanceError::UnsafeDeletionTarget.message(),
        "the path is not a directory of this game and is not removed"
    );
}
