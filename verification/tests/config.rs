use git_select_branch::config::{
    match_theme_config, Config, ConfigError, ConfigKey, Setting, Theme, ValueKind,
};
use git_select_branch::store::{map_git2_not_found_to_none, setting_of, text_setting_of};
use git_select_branch::text::integer_to_string;

fn absent<T>() -> Setting<T> {
    Setting::Absent
}

fn resolve_limit(text: Setting<String>, number: Setting<i64>) -> Result<Config, ConfigError> {
    Config::resolve(absent(), absent(), absent(), text, number)
}

fn snapshot_of(entries: &[(&str, &str)]) -> (tempfile::TempDir, git2::Config) {
    let dir = tempfile::TempDir::new().unwrap();
    let mut store = git2::Config::open(&dir.path().join("config")).unwrap();
    for (key, value) in entries {
        store.set_str(key, value).unwrap();
    }
    let snapshot = store.snapshot().unwrap();
    (dir, snapshot)
}

#[test]
fn default_config_has_documented_values() {
    let config = Config::default();
    assert_eq!(config.theme, Theme::Colorful);
    assert!(config.fuzzy);
    assert!(!config.show_remote_branches);
    assert_eq!(config.limit, Some(20));
}

#[test]
fn resolve_without_any_key_gives_the_defaults() {
    let config = Config::resolve(absent(), absent(), absent(), absent(), absent()).unwrap();
    assert_eq!(config, Config::default());
}

#[test]
fn resolve_takes_present_values() {
    let config = Config::resolve(
        Setting::Present(false),
        Setting::Present(true),
        Setting::Present("simple".to_string()),
        Setting::Present("7".to_string()),
        Setting::Present(7),
    )
    .unwrap();
    assert_eq!(
        config,
        Config { theme: Theme::Simple, fuzzy: false, show_remote_branches: true, limit: Some(7) }
    );
}

#[test]
fn limit_zero_is_rejected() {
    let error = resolve_limit(Setting::Present("0".to_string()), Setting::Present(0)).unwrap_err();
    assert_eq!(error, ConfigError::InvalidLimit { value: 0 });
}

#[test]
fn limit_minus_five_is_rejected() {
    let error =
        resolve_limit(Setting::Present("-5".to_string()), Setting::Present(-5)).unwrap_err();
    assert_eq!(error, ConfigError::InvalidLimit { value: -5 });
    assert_eq!(
        error.message(),
        "\"-5\" is not a valid \"select-branch.limit\" value.\n\
         The value must be either a positive integer, or \"none\". e.g.:\n\
         > git config --global select-branch.limit none\n\
         or\n\
         > git config --global select-branch.limit 20"
    );
}

#[test]
fn limit_none_means_unlimited() {
    let config = resolve_limit(
        Setting::Present("none".to_string()),
        Setting::Malformed("failed to parse 'none' as an integer".to_string()),
    )
    .unwrap();
    assert_eq!(config.limit, None);
}

#[test]
fn limit_absent_is_twenty() {
    let config = resolve_limit(absent(), absent()).unwrap();
    assert_eq!(config.limit, Some(20));
}

#[test]
fn limit_one_is_the_smallest_accepted() {
    let config = resolve_limit(Setting::Present("1".to_string()), Setting::Present(1)).unwrap();
    assert_eq!(config.limit, Some(1));
}

#[test]
fn limit_that_is_no_number_is_malformed() {
    let error = resolve_limit(
        Setting::Present("many".to_string()),
        Setting::Malformed("failed to parse 'many' as an integer".to_string()),
    )
    .unwrap_err();
    assert_eq!(
        error,
        ConfigError::Malformed {
            key: ConfigKey::Limit,
            kind: ValueKind::Integer,
            cause: "failed to parse 'many' as an integer".to_string(),
        }
    );
    assert_eq!(
        error.message(),
        "Error parsing integer value in select-branch.limit: \
         failed to parse 'many' as an integer\n\
         The value must be either a positive integer, or \"none\". e.g.:\n\
         > git config --global select-branch.limit none\n\
         or\n\
         > git config --global select-branch.limit 20"
    );
}

#[test]
fn limit_text_that_cannot_be_read_is_malformed() {
    let error =
        resolve_limit(Setting::Malformed("not utf8".to_string()), Setting::Present(3)).unwrap_err();
    assert_eq!(
        error,
        ConfigError::Malformed {
            key: ConfigKey::Limit,
            kind: ValueKind::Text,
            cause: "not utf8".to_string(),
        }
    );
}

#[test]
fn malformed_flag_is_not_defaulted() {
    let error = Config::resolve(
        Setting::Malformed("bad boolean".to_string()),
        absent(),
        absent(),
        absent(),
        absent(),
    )
    .unwrap_err();
    assert_eq!(
        error,
        ConfigError::Malformed {
            key: ConfigKey::Fuzzy,
            kind: ValueKind::Boolean,
            cause: "bad boolean".to_string(),
        }
    );
    assert_eq!(
        error.message(),
        "Error parsing boolean value in select-branch.fuzzy: bad boolean\n\
         The value must be either \"true\" or \"false\"."
    );
}

#[test]
fn first_fault_in_key_order_wins() {
    let error = Config::resolve(
        absent(),
        Setting::Malformed("second".to_string()),
        Setting::Present("plaid".to_string()),
        absent(),
        Setting::Present(0),
    )
    .unwrap_err();
    assert_eq!(
        error,
        ConfigError::Malformed {
            key: ConfigKey::ShowRemoteBranches,
            kind: ValueKind::Boolean,
            cause: "second".to_string(),
        }
    );
    let error = Config::resolve(
        absent(),
        absent(),
        Setting::Present("plaid".to_string()),
        absent(),
        Setting::Present(0),
    )
    .unwrap_err();
    assert_eq!(error, ConfigError::UnknownTheme { name: "plaid".to_string() });
}

#[test]
fn theme_names() {
    assert_eq!(match_theme_config("colorful"), Ok(Theme::Colorful));
    assert_eq!(match_theme_config("simple"), Ok(Theme::Simple));
    let error = match_theme_config("Colorful").unwrap_err();
    assert_eq!(error, ConfigError::UnknownTheme { name: "Colorful".to_string() });
    assert_eq!(
        error.message(),
        "\"Colorful\" is not a valid \"select-branch.theme\" value.\n\
         The value must be either \"colorful\" or \"simple\"."
    );
}

#[test]
fn limit_out_of_range_message() {
    let error = ConfigError::LimitOutOfRange { value: i64::MAX };
    assert_eq!(
        error.message(),
        "Can't convert 9223372036854775807 to usize: \
         \"9223372036854775807\" is not a valid \"select-branch.limit\" value.\n\
         The value must be either a positive integer, or \"none\". e.g.:\n\
         > git config --global select-branch.limit none\n\
         or\n\
         > git config --global select-branch.limit 20"
    );
}

#[test]
fn every_message_names_the_key_and_the_accepted_forms() {
    let errors = vec![
        ConfigError::Malformed {
            key: ConfigKey::ShowRemoteBranches,
            kind: ValueKind::Boolean,
            cause: "bad".to_string(),
        },
        ConfigError::Malformed {
            key: ConfigKey::Theme,
            kind: ValueKind::Text,
            cause: "not utf8".to_string(),
        },
        ConfigError::UnknownTheme { name: "plaid".to_string() },
        ConfigError::InvalidLimit { value: 0 },
        ConfigError::LimitOutOfRange { value: 5_000_000_000 },
    ];
    let keys = [
        "select-branch.show-remote-branches",
        "select-branch.theme",
        "select-branch.theme",
        "select-branch.limit",
        "select-branch.limit",
    ];
    let forms = [
        "\"true\" or \"false\".",
        "\"colorful\" or \"simple\".",
        "\"colorful\" or \"simple\".",
        "select-branch.limit 20",
        "select-branch.limit 20",
    ];
    let values = ["bad", "not utf8", "plaid", "\"0\"", "5000000000"];
    for i in 0..errors.len() {
        let message = errors[i].message();
        assert!(message.contains(keys[i]));
        assert!(message.ends_with(forms[i]));
        assert!(message.contains(values[i]));
    }
}

#[test]
fn key_names() {
    assert_eq!(ConfigKey::Fuzzy.name(), "select-branch.fuzzy");
    assert_eq!(ConfigKey::ShowRemoteBranches.name(), "select-branch.show-remote-branches");
    assert_eq!(ConfigKey::Theme.name(), "select-branch.theme");
    assert_eq!(ConfigKey::Limit.name(), "select-branch.limit");
}

#[test]
fn integers_in_decimal() {
    assert_eq!(integer_to_string(0), "0");
    assert_eq!(integer_to_string(7), "7");
    assert_eq!(integer_to_string(10), "10");
    assert_eq!(integer_to_string(-5), "-5");
    assert_eq!(integer_to_string(1203), "1203");
    assert_eq!(integer_to_string(i64::MAX), "9223372036854775807");
    assert_eq!(integer_to_string(i64::MIN), "-9223372036854775808");
}

#[test]
fn not_found_becomes_none() {
    let missing = git2::Error::new(git2::ErrorCode::NotFound, git2::ErrorClass::Config, "no key");
    assert_eq!(map_git2_not_found_to_none::<bool>(Err(missing)), Ok(None));
}

#[test]
fn other_errors_stay_errors() {
    let broken = git2::Error::new(git2::ErrorCode::Invalid, git2::ErrorClass::Config, "broken");
    let kept = map_git2_not_found_to_none::<bool>(Err(broken)).unwrap_err();
    assert_eq!(kept.code(), git2::ErrorCode::Invalid);
    assert_eq!(kept.message(), "broken");
}

#[test]
fn found_values_are_kept() {
    assert_eq!(map_git2_not_found_to_none(Ok(5i64)), Ok(Some(5)));
    assert_eq!(map_git2_not_found_to_none(Ok(true)), Ok(Some(true)));
}

#[test]
fn settings_of_lookups() {
    let missing = git2::Error::new(git2::ErrorCode::NotFound, git2::ErrorClass::Config, "no key");
    assert_eq!(setting_of::<i64>(Err(missing)), Setting::Absent);
    let broken = git2::Error::new(git2::ErrorCode::Invalid, git2::ErrorClass::Config, "broken");
    assert_eq!(setting_of::<i64>(Err(broken)), Setting::Malformed("broken".to_string()));
    assert_eq!(setting_of(Ok(3i64)), Setting::Present(3));
    assert_eq!(text_setting_of(Ok("none")), Setting::Present("none".to_string()));
    let broken = git2::Error::new(git2::ErrorCode::Invalid, git2::ErrorClass::Config, "broken");
    assert_eq!(text_setting_of(Err(broken)), Setting::Malformed("broken".to_string()));
}

#[test]
fn from_git_config_on_an_empty_store_gives_the_defaults() {
    let (_dir, snapshot) = snapshot_of(&[]);
    assert_eq!(Config::from_git_config(&snapshot), Ok(Config::default()));
}

#[test]
fn from_git_config_reads_every_key() {
    let (_dir, snapshot) = snapshot_of(&[
        ("select-branch.fuzzy", "false"),
        ("select-branch.show-remote-branches", "true"),
        ("select-branch.theme", "simple"),
        ("select-branch.limit", "3"),
    ]);
    assert_eq!(
        Config::from_git_config(&snapshot),
        Ok(Config { theme: Theme::Simple, fuzzy: false, show_remote_branches: true, limit: Some(3) })
    );
}

#[test]
fn from_git_config_limit_none() {
    let (_dir, snapshot) = snapshot_of(&[("select-branch.limit", "none")]);
    assert_eq!(Config::from_git_config(&snapshot).unwrap().limit, None);
}

#[test]
fn from_git_config_limit_zero_and_negative() {
    let (_dir, snapshot) = snapshot_of(&[("select-branch.limit", "0")]);
    assert_eq!(Config::from_git_config(&snapshot), Err(ConfigError::InvalidLimit { value: 0 }));
    let (_dir, snapshot) = snapshot_of(&[("select-branch.limit", "-5")]);
    assert_eq!(Config::from_git_config(&snapshot), Err(ConfigError::InvalidLimit { value: -5 }));
}

#[test]
fn from_git_config_rejects_a_malformed_flag() {
    let (_dir, snapshot) = snapshot_of(&[("select-branch.fuzzy", "perhaps")]);
    match Config::from_git_config(&snapshot) {
        Err(ConfigError::Malformed { key, kind, cause }) => {
            assert_eq!(key, ConfigKey::Fuzzy);
            assert_eq!(kind, ValueKind::Boolean);
            assert!(!cause.is_empty());
        }
        other => panic!("unexpected outcome: {:?}", other),
    }
}

#[test]
fn from_git_config_rejects_an_unknown_theme_and_a_limit_that_is_no_number() {
    let (_dir, snapshot) = snapshot_of(&[("select-branch.theme", "plaid")]);
    assert_eq!(
        Config::from_git_config(&snapshot),
        Err(ConfigError::UnknownTheme { name: "plaid".to_string() })
    );
    let (_dir, snapshot) = snapshot_of(&[("select-branch.limit", "many")]);
    match Config::from_git_config(&snapshot) {
        Err(ConfigError::Malformed { key, kind, .. }) => {
            assert_eq!(key, ConfigKey::Limit);
            assert_eq!(kind, ValueKind::Integer);
        }
        other => panic!("unexpected outcome: {:?}", other),
    }
}
