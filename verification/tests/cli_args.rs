//! The command-line support types: help texts, flag-pair resolution and
//! configuration file candidates.

use snakedown::cli::{
    config_file_candidates, discover_config_file, CustomLogLevel, SkipPrivate, SkipUndoc,
    SkipWrite,
};

#[test]
fn mod_test_custom_log_level_interface() {
    assert_eq!(
        CustomLogLevel::quiet_help(),
        Some("suppress all logging output")
    );
    assert_eq!(
        CustomLogLevel::quiet_long_help(),
        Some("Suppress the logging output of the application, including errors.")
    );
    assert_eq!(
        CustomLogLevel::verbose_help(),
        Some("Increase verbosity of the logging (can be specified multiple times).")
    );
    assert_eq!(
        CustomLogLevel::verbose_long_help(),
        Some(
            "Increase the logging verbosity of the application by one level (ERROR, WARN, INFO, DEBUG, TRACE)"
        )
    );
}

#[test]
fn verbosity_test_custom_log_level_interface() {
    assert_eq!(
        CustomLogLevel::quiet_help(),
        Some("suppress all logging output")
    );
    assert_eq!(
        CustomLogLevel::quiet_long_help(),
        Some("Suppress the logging output of the application, including errors.")
    );
    assert_eq!(
        CustomLogLevel::verbose_help(),
        Some("Increase verbosity of the logging (can be specified multiple times).")
    );
    assert_eq!(
        CustomLogLevel::verbose_long_help(),
        Some(
            "Increase the logging verbosity of the application by one level (ERROR, WARN, INFO, DEBUG, TRACE)"
        )
    );
}

#[test]
fn skip_flag_pairs_resolve() {
    assert!(SkipWrite {
        skip_write: true,
        no_skip_write: false
    }
    .resolve());
    assert!(!SkipWrite {
        skip_write: false,
        no_skip_write: true
    }
    .resolve());
    assert!(SkipPrivate {
        skip_private: true,
        no_skip_private: false
    }
    .resolve());
    assert!(!SkipUndoc {
        skip_undoc: false,
        no_skip_undoc: true
    }
    .resolve());
}

#[test]
fn config_candidates_in_order() {
    let with_arg = config_file_candidates(Some("custom.toml".to_string()));
    assert_eq!(
        with_arg,
        vec![
            "custom.toml".to_string(),
            "snakedown.toml".to_string(),
            "$HOME/.config/snakedown/snakedown.toml".to_string()
        ]
    );
    let without = config_file_candidates(None);
    assert_eq!(without.len(), 2);
}

#[test]
fn discover_config_file_picks_first_existing() {
    let found = discover_config_file(
        Some("custom.toml".to_string()),
        &vec![false, true, true],
    );
    assert_eq!(found, Some("snakedown.toml".to_string()));
    let none = discover_config_file(None, &vec![false, false]);
    assert_eq!(none, None);
}
