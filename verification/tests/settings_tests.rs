use guild_shell::settings::{
    CommandOptionKind, ConfigField, ConfigWindow, Configurable, FieldValue, GuildConfig, RefEntry,
    SettingOutcome,
};
use guild_shell::text::{format_u64, parse_decimal, parse_u32, parse_u64};

#[test]
fn default_config_values() {
    let c = GuildConfig::new(7);
    assert_eq!(c.get_guild_id(), 7);
    assert_eq!(c.max_pressure(), 6_000_000);
    assert_eq!(c.message_pressure(), 1_000_000);
    assert_eq!(c.embed_pressure(), 830_000);
    assert_eq!(c.character_pressure(), 625);
    assert_eq!(c.newline_pressure(), 71_400);
    assert_eq!(c.unique_ping_pressure(), 250_000);
    assert_eq!(c.pressure_decay_per_second(), 800_000);
    assert_eq!(c.raid_trigger_timespan(), 90);
    assert_eq!(c.raid_trigger_new_user_limit(), 5);
    assert_eq!(c.raid_autoexpiration(), 600);
    assert_eq!(c.moderation_channel(), None);
    assert_eq!(c.log_channel(), None);
    assert_eq!(c.member_role(), None);
    assert_eq!(c.silence_role(), None);
    assert_eq!(c.new_role(), None);
    assert_eq!(c.get_configurable_fields().len(), 17);
}

#[test]
fn field_keys() {
    let f = ConfigField::new("max_pressure".to_string(), FieldValue::Decimal(0));
    assert_eq!(f.get_name(), "max_pressure");
    assert_eq!(f.get_pretty_name(), "max_pressure");
    assert_eq!(f.get_selection_key(), "select_max_pressure");
    assert_eq!(f.get_setting_key(), "set_max_pressure");
    assert_eq!(f.get_reset_key(), "set_max_pressure");
}

#[test]
fn empty_value_resets_optional_reference() {
    let mut f = ConfigField::new(
        "moderation_channel".to_string(),
        FieldValue::ChannelRef(Some(55)),
    );
    assert_eq!(f.set_value("".to_string()), Ok(()));
    assert_eq!(f.value(), FieldValue::ChannelRef(None));

    let mut r = ConfigField::new("member_role".to_string(), FieldValue::RoleRef(Some(9)));
    assert_eq!(r.set_value("".to_string()), Ok(()));
    assert_eq!(r.value(), FieldValue::RoleRef(None));
}

#[test]
fn bad_decimal_is_rejected_and_value_kept() {
    let mut f = ConfigField::new("max_pressure".to_string(), FieldValue::Decimal(4_500_000));
    let r = f.set_value("not-a-number".to_string());
    assert!(r.is_err());
    assert_eq!(f.value(), FieldValue::Decimal(4_500_000));
}

#[test]
fn reference_field_parses_plain_id() {
    let mut f = ConfigField::new("log_channel".to_string(), FieldValue::ChannelRef(None));
    assert_eq!(f.set_value("123456789".to_string()), Ok(()));
    assert_eq!(f.value(), FieldValue::ChannelRef(Some(123456789)));
    assert!(f.set_value("12x".to_string()).is_err());
    assert_eq!(f.value(), FieldValue::ChannelRef(Some(123456789)));
}

#[test]
fn integer_field_rejects_empty_and_overflow() {
    let mut f = ConfigField::new(
        "raid_trigger_timespan".to_string(),
        FieldValue::UInt(90),
    );
    assert!(f.set_value("".to_string()).is_err());
    assert!(f.set_value("4294967296".to_string()).is_err());
    assert_eq!(f.value(), FieldValue::UInt(90));
    assert_eq!(f.set_value("120".to_string()), Ok(()));
    assert_eq!(f.value(), FieldValue::UInt(120));
}

#[test]
fn setting_updated_matches_key() {
    let mut f = ConfigField::new("max_pressure".to_string(), FieldValue::Decimal(0));
    assert_eq!(
        f.setting_updated("set_other".to_string(), "1".to_string()),
        Ok(false)
    );
    assert_eq!(f.value(), FieldValue::Decimal(0));
    assert_eq!(
        f.setting_updated("set_max_pressure".to_string(), "2".to_string()),
        Ok(true)
    );
    assert_eq!(f.value(), FieldValue::Decimal(200_000));
}

#[test]
fn set_by_setting_key_walks_the_registry() {
    let mut c = GuildConfig::new(1);
    match c.set_by_setting_key(&"set_max_pressure".to_string(), "45".to_string()) {
        SettingOutcome::Updated(i) => assert_eq!(i, 10),
        _ => panic!("expected an update"),
    }
    assert_eq!(c.max_pressure(), 4_500_000);
    match c.set_by_setting_key(&"set_nothing".to_string(), "45".to_string()) {
        SettingOutcome::UnknownKey => {}
        _ => panic!("expected an unknown key"),
    }
    match c.set_by_setting_key(&"set_max_pressure".to_string(), "zzz".to_string()) {
        SettingOutcome::Rejected(i, e) => {
            assert_eq!(i, 10);
            assert_eq!(e, "Not a valid number");
        }
        _ => panic!("expected a rejection"),
    }
    assert_eq!(c.max_pressure(), 4_500_000);
}

#[test]
fn selection_options_list_every_field() {
    let c = GuildConfig::new(1);
    let options = c.list_selection_options();
    assert_eq!(options.len(), 17);
    assert_eq!(options[0].label, "moderation_channel");
    assert_eq!(options[0].value, "select_moderation_channel");
    assert_eq!(options[0].description, "Set the value for moderation_channel");
    assert_eq!(options[16].value, "select_pressure_decay_per_second");
}

#[test]
fn find_by_selection_key() {
    let c = GuildConfig::new(1);
    assert_eq!(
        c.find_by_selection_key(&"select_silence_role".to_string()),
        Some(5)
    );
    assert_eq!(c.find_by_selection_key(&"select_unknown".to_string()), None);
}

#[test]
fn config_window_for_reference_field_lists_channels() {
    let c = GuildConfig::new(1);
    let fields = c.get_configurable_fields();
    let channels = vec![
        RefEntry { id: 10, name: "general".to_string() },
        RefEntry { id: 11, name: "mod-log".to_string() },
    ];
    let roles: Vec<RefEntry> = Vec::new();
    match fields[3].make_config_window(&roles, &channels) {
        ConfigWindow::SelectMenu { custom_id, options } => {
            assert_eq!(custom_id, "set_log_channel");
            assert_eq!(options.len(), 2);
            assert_eq!(options[0].label, "general");
            assert_eq!(options[0].description, "Pick general");
            assert_eq!(options[0].value, "10");
            assert_eq!(options[1].value, "11");
        }
        _ => panic!("expected a select menu"),
    }
}

#[test]
fn config_window_for_role_field_lists_roles() {
    let c = GuildConfig::new(1);
    let fields = c.get_configurable_fields();
    let roles = vec![RefEntry { id: 4, name: "mods".to_string() }];
    let channels: Vec<RefEntry> = Vec::new();
    match fields[5].make_config_window(&roles, &channels) {
        ConfigWindow::SelectMenu { custom_id, options } => {
            assert_eq!(custom_id, "set_silence_role");
            assert_eq!(options.len(), 1);
            assert_eq!(options[0].description, "Choose mods");
            assert_eq!(options[0].value, "4");
        }
        _ => panic!("expected a select menu"),
    }
}

#[test]
fn config_window_for_scalar_field_is_a_reset_button() {
    let c = GuildConfig::new(1);
    let fields = c.get_configurable_fields();
    let roles: Vec<RefEntry> = Vec::new();
    let channels: Vec<RefEntry> = Vec::new();
    match fields[10].make_config_window(&roles, &channels) {
        ConfigWindow::ResetButton { label, custom_id } => {
            assert_eq!(label, "Reset max_pressure");
            assert_eq!(custom_id, "max_pressure");
        }
        _ => panic!("expected a reset button"),
    }
}

#[test]
fn slash_subcommands_carry_the_field_kind() {
    let c = GuildConfig::new(1);
    let fields = c.get_configurable_fields();
    let sub = fields[10].add_slash_command_subcommand();
    assert_eq!(sub.name, "max_pressure");
    assert_eq!(sub.description, "Set the value for max_pressure");
    assert_eq!(sub.value_name, "value");
    assert_eq!(
        sub.value_description,
        "Value to set (leave empty to reset to default)"
    );
    assert_eq!(sub.value_kind, CommandOptionKind::Number);
    assert_eq!(
        fields[0].add_slash_command_subcommand().value_kind,
        CommandOptionKind::Channel
    );
    assert_eq!(
        fields[4].add_slash_command_subcommand().value_kind,
        CommandOptionKind::Role
    );
    assert_eq!(
        fields[7].add_slash_command_subcommand().value_kind,
        CommandOptionKind::Integer
    );
}

#[test]
fn parse_u64_edges() {
    assert_eq!(parse_u64(""), None);
    assert_eq!(parse_u64("0"), Some(0));
    assert_eq!(parse_u64("18446744073709551615"), Some(u64::MAX));
    assert_eq!(parse_u64("18446744073709551616"), None);
    assert_eq!(parse_u64("12a"), None);
    assert_eq!(parse_u64("+1"), None);
}

#[test]
fn parse_u32_edges() {
    assert_eq!(parse_u32("4294967295"), Some(u32::MAX));
    assert_eq!(parse_u32("4294967296"), None);
    assert_eq!(parse_u32("007"), Some(7));
}

#[test]
fn parse_decimal_fixed_point() {
    assert_eq!(parse_decimal("8.3"), Some(830_000));
    assert_eq!(parse_decimal("0.00625"), Some(625));
    assert_eq!(parse_decimal("10"), Some(1_000_000));
    assert_eq!(parse_decimal(".5"), Some(50_000));
    assert_eq!(parse_decimal("5."), Some(500_000));
    assert_eq!(parse_decimal("1.999999"), Some(199_999));
    assert_eq!(parse_decimal("0.0000019"), Some(0));
    assert_eq!(parse_decimal(""), None);
    assert_eq!(parse_decimal("."), None);
    assert_eq!(parse_decimal("1e3"), None);
    assert_eq!(parse_decimal("-1"), None);
    assert_eq!(parse_decimal("1.2.3"), None);
}

#[test]
fn format_numbers() {
    assert_eq!(format_u64(0), "0");
    assert_eq!(format_u64(907), "907");
    assert_eq!(format_u64(u64::MAX), "18446744073709551615");
}

#[test]
fn duplicate_is_equal() {
    let mut c = GuildConfig::new(3);
    c.set_by_setting_key(&"set_member_role".to_string(), "88".to_string());
    let d = c.duplicate();
    assert_eq!(d.get_guild_id(), 3);
    assert_eq!(d.member_role(), Some(88));
    assert_eq!(d.max_pressure(), c.max_pressure());
}

#[test]
fn setup_help_lists_missing_fields() {
    let c = GuildConfig::new(1);
    let (text, target) = c.setup_help();
    assert_eq!(target, None);
    assert_eq!(
        text,
        "Recommended steps you should take:\nYou should setup a moderation channel! Make sure Bussy has the correct permissions to send messages there. Should be visible to mods only.\nConsider setting a log channel, where relevant info will be sent. Should be visible to mods only.\nConsider setting a member role. This is the base role assigned to everyone.\nConsider setting the 'silence' role. This will be assigned to users who spam and will restrict their permissionsOptional steps you could do to improve user experience."
    );
}

#[test]
fn setup_help_targets_the_moderation_channel() {
    let mut c = GuildConfig::new(1);
    c.set_by_setting_key(&"set_moderation_channel".to_string(), "31".to_string());
    c.set_by_setting_key(&"set_log_channel".to_string(), "32".to_string());
    c.set_by_setting_key(&"set_member_role".to_string(), "33".to_string());
    c.set_by_setting_key(&"set_silence_role".to_string(), "34".to_string());
    let (text, target) = c.setup_help();
    assert_eq!(target, Some(31));
    assert_eq!(
        text,
        "Recommended steps you should take:Optional steps you could do to improve user experience."
    );
}
