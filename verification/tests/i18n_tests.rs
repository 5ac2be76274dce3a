use hub::i18n::{get_locale_json, is_valid_language, set_bot_language, t, LanguageSetting};

#[test]
fn test_translation() {
    let msg = t("en", "bot.util.pong", &[]);
    assert_eq!(msg, "Pong!");

    let msg = t("de", "bot.util.pong", &[]);
    assert_eq!(msg, "Pong!");
}

#[test]
fn test_params() {
    let msg = t("en", "bot.user.created", &[("name", "TestPlayer")]);
    assert_eq!(msg, "User for **TestPlayer** created!");
}

#[test]
fn test_fallback() {
    let msg = t("xx", "bot.util.pong", &[]);
    assert_eq!(msg, "Pong!"); // Falls back to English
}

#[test]
fn test_missing_key() {
    let msg = t("en", "nonexistent.key", &[]);
    assert_eq!(msg, "nonexistent.key");
}

#[test]
fn test_two_params() {
    let msg = t("en", "bot.planets.posted", &[("count", "7"), ("channel", "42")]);
    assert_eq!(msg, "7 planets posted to <#42>.");
}

#[test]
fn test_german_translation() {
    let msg = t("de", "bot.user.created", &[("name", "Spieler")]);
    assert_eq!(msg, "User fuer **Spieler** angelegt!");
}

#[test]
fn test_language_setting() {
    let mut setting = LanguageSetting { current: "en".to_string() };
    assert!(set_bot_language(&mut setting, "de"));
    assert_eq!(setting.current, "de");
    assert!(!set_bot_language(&mut setting, "fr"));
    assert_eq!(setting.current, "de");
    assert!(is_valid_language("en"));
    assert!(!is_valid_language("xx"));
}

#[test]
fn test_locale_json_is_json() {
    let en = get_locale_json("en");
    let de = get_locale_json("de");
    let en_doc: serde_json::Value = serde_json::from_str(en).unwrap();
    let de_doc: serde_json::Value = serde_json::from_str(de).unwrap();
    assert_eq!(en_doc["bot"]["util"]["pong"], "Pong!");
    assert_eq!(de_doc["bot"]["util"]["pong"], "Pong!");
    assert_eq!(en_doc["bot"]["user"]["created"], "User for **{{name}}** created!");
}
