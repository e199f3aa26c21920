use deskcal::account::{AccountSettings, default_account_settings, default_auth_session,
    default_language, default_nickname, default_notifications_enabled, default_theme,
    default_timezone, default_user_preferences, normalize_nickname, validate_nickname};

#[test]
fn defaults_have_the_documented_values() {
    assert_eq!(default_nickname(), "DeskCal User");
    assert_eq!(default_theme(), "system");
    assert_eq!(default_language(), "ko");
    assert_eq!(default_timezone(), "Asia/Seoul");
    assert!(default_notifications_enabled());

    let settings = default_account_settings();
    assert_eq!(settings.nickname, "DeskCal User");
    assert_eq!(settings.profile_image_path, None);
    assert!(settings.reserved_nicknames.is_empty());

    let prefs = default_user_preferences();
    assert_eq!(prefs.theme, "system");
    assert_eq!(prefs.language, "ko");
    assert_eq!(prefs.timezone, "Asia/Seoul");
    assert!(prefs.notifications_enabled);

    let session = default_auth_session();
    assert_eq!(session.provider, None);
    assert_eq!(session.access_token, None);
    assert_eq!(session.refresh_token, None);
    assert_eq!(session.member_id, None);
    assert_eq!(session.nickname, None);
    assert_eq!(session.email, None);
    assert_eq!(session.expires_at_unix, None);
}

#[test]
fn normalize_nickname_trims_and_lowercases() {
    assert_eq!(normalize_nickname("  DeskCal User  "), "deskcal user");
    assert_eq!(normalize_nickname("ABC"), "abc");
    assert_eq!(normalize_nickname(""), "");
}

#[test]
fn validate_nickname_enforces_trimmed_length() {
    assert_eq!(validate_nickname("  neo  "), Ok("neo".to_string()));
    assert_eq!(validate_nickname("ab"), Ok("ab".to_string()));
    assert_eq!(validate_nickname("abcdefghijklmnopqrst"), Ok("abcdefghijklmnopqrst".to_string()));
    let err = "Nickname must be between 2 and 20 characters".to_string();
    assert_eq!(validate_nickname("a"), Err(err.clone()));
    assert_eq!(validate_nickname("   a   "), Err(err.clone()));
    assert_eq!(validate_nickname("abcdefghijklmnopqrstu"), Err(err.clone()));
    assert_eq!(validate_nickname(""), Err(err));
}

fn settings_with_reserved(own: &str, reserved: &[&str]) -> AccountSettings {
    AccountSettings {
        nickname: own.to_string(),
        profile_image_path: None,
        reserved_nicknames: reserved.iter().map(|s| s.to_string()).collect(),
    }
}

#[test]
fn nickname_availability_ignores_case_and_own_name() {
    let settings = settings_with_reserved("Neo", &["Trinity", "Morpheus"]);
    // The account's own nickname is always available to itself.
    assert_eq!(settings.is_nickname_available("  NEO "), Ok(true));
    // A reserved nickname clashes, whatever the case.
    assert_eq!(settings.is_nickname_available("trinity"), Ok(false));
    assert_eq!(settings.is_nickname_available(" MORPHEUS "), Ok(false));
    // A fresh nickname is free.
    assert_eq!(settings.is_nickname_available("Oracle"), Ok(true));
    // An invalid nickname is rejected before any lookup.
    assert_eq!(
        settings.is_nickname_available("x"),
        Err("Nickname must be between 2 and 20 characters".to_string())
    );
}

#[test]
fn update_nickname_rejects_taken_names_and_stores_trimmed() {
    let mut settings = settings_with_reserved("Neo", &["Trinity"]);
    assert_eq!(
        settings.update_nickname("Trinity"),
        Err("Nickname is already in use".to_string())
    );
    assert_eq!(settings.nickname, "Neo");

    settings.update_nickname("  Oracle  ").unwrap();
    assert_eq!(settings.nickname, "Oracle");
    assert_eq!(settings.reserved_nicknames, vec!["Trinity".to_string()]);

    // Re-casing one's own nickname is allowed even when reserved.
    let mut own = settings_with_reserved("Neo", &["neo"]);
    own.update_nickname("NEO").unwrap();
    assert_eq!(own.nickname, "NEO");
}

#[test]
fn set_reserved_nicknames_replaces_the_list() {
    let mut settings = settings_with_reserved("Neo", &["Trinity"]);
    settings.set_reserved_nicknames(vec!["Smith".to_string(), "Cypher".to_string()]);
    assert_eq!(settings.reserved_nicknames, vec!["Smith".to_string(), "Cypher".to_string()]);
    assert_eq!(settings.nickname, "Neo");
}
