use axis_core::guild_config::{
    build_guild_config, parse_mode, parse_targets, AiConfigError, AiGuildConfig, AiMode,
    AiConfiguration,
};
use axis_core::latency_status;

#[test]
fn default_config_is_off() {
    let cfg = AiGuildConfig::default();
    assert_eq!(cfg.mode, AiMode::Off);
    assert!(cfg.allowed_ids.is_empty());
}

#[test]
fn allows_channel_by_mode() {
    let off = AiGuildConfig { mode: AiMode::Off, allowed_ids: vec![1, 2] };
    assert!(!off.allows_channel(1));
    let global = AiGuildConfig { mode: AiMode::Global, allowed_ids: vec![] };
    assert!(global.allows_channel(99));
    let specific = AiGuildConfig { mode: AiMode::Specific, allowed_ids: vec![5, 7] };
    assert!(specific.allows_channel(5));
    assert!(specific.allows_channel(7));
    assert!(!specific.allows_channel(6));
}

#[test]
fn mode_parsing() {
    assert_eq!(parse_mode("off"), Some(AiMode::Off));
    assert_eq!(parse_mode("global"), Some(AiMode::Global));
    assert_eq!(parse_mode("specific"), Some(AiMode::Specific));
    assert_eq!(parse_mode("Off"), None);
    assert_eq!(parse_mode(""), None);
    assert_eq!(parse_mode("everywhere"), None);
}

#[test]
fn target_parsing() {
    assert_eq!(parse_targets(""), Vec::<u64>::new());
    assert_eq!(parse_targets("   "), Vec::<u64>::new());
    assert_eq!(parse_targets("123"), vec![123]);
    assert_eq!(parse_targets("<#789>"), vec![789]);
    assert_eq!(parse_targets("  12  <#34>  x9 "), vec![12, 34]);
    assert_eq!(parse_targets("<#>"), Vec::<u64>::new());
    assert_eq!(parse_targets("abc def"), Vec::<u64>::new());
    assert_eq!(parse_targets("99999999999999999999999"), Vec::<u64>::new());
    assert_eq!(parse_targets("18446744073709551615"), vec![u64::MAX]);
}

#[test]
fn build_rejects_unknown_mode() {
    let r = build_guild_config("loud", None);
    assert!(matches!(r, Err(AiConfigError::InvalidMode)));
}

#[test]
fn build_specific_needs_targets() {
    assert!(matches!(build_guild_config("specific", None), Err(AiConfigError::MissingTargets)));
    assert!(matches!(
        build_guild_config("specific", Some("junk words")),
        Err(AiConfigError::MissingTargets)
    ));
}

#[test]
fn build_specific_keeps_targets() {
    let cfg = build_guild_config("specific", Some("<#123> 456 junk")).unwrap();
    assert_eq!(cfg.mode, AiMode::Specific);
    assert_eq!(cfg.allowed_ids, vec![123, 456]);
}

#[test]
fn build_other_modes_drop_targets() {
    let cfg = build_guild_config("global", Some("<#123>")).unwrap();
    assert_eq!(cfg.mode, AiMode::Global);
    assert!(cfg.allowed_ids.is_empty());
    let cfg = build_guild_config("off", None).unwrap();
    assert_eq!(cfg.mode, AiMode::Off);
    assert!(cfg.allowed_ids.is_empty());
}

#[test]
fn settings_store_roundtrip() {
    let mut settings = AiConfiguration::new();
    let absent = settings.get_guild_config(42);
    assert_eq!(absent.mode, AiMode::Off);
    assert!(absent.allowed_ids.is_empty());

    settings.set_guild_config(42, AiGuildConfig { mode: AiMode::Specific, allowed_ids: vec![5] });
    settings.set_guild_config(43, AiGuildConfig { mode: AiMode::Global, allowed_ids: vec![] });

    let got = settings.get_guild_config(42);
    assert_eq!(got.mode, AiMode::Specific);
    assert_eq!(got.allowed_ids, vec![5]);
    let other = settings.get_guild_config(43);
    assert_eq!(other.mode, AiMode::Global);

    settings.set_guild_config(42, AiGuildConfig { mode: AiMode::Off, allowed_ids: vec![] });
    let replaced = settings.get_guild_config(42);
    assert_eq!(replaced.mode, AiMode::Off);
    assert!(replaced.allowed_ids.is_empty());
}

#[test]
fn latency_labels() {
    assert_eq!(latency_status(0), "Excellent");
    assert_eq!(latency_status(99), "Excellent");
    assert_eq!(latency_status(100), "Good");
    assert_eq!(latency_status(299), "Good");
    assert_eq!(latency_status(300), "High");
}
