use guild_shell::pressure::{MessageFeatures, MessageLocation};
use guild_shell::settings::{GuildConfig, SettingOutcome};
use guild_shell::shell::{Action, GuildShell, Interaction, ShellEvent};

fn quiet_features() -> MessageFeatures {
    MessageFeatures { embeds: 0, characters: 0, newlines: 0, unique_mentions: 0 }
}

fn loc(n: u64) -> MessageLocation {
    MessageLocation { message_id: n, channel_id: 500 }
}

fn set(config: &mut GuildConfig, name: &str, value: &str) {
    match config.set_by_name(&name.to_string(), value.to_string()) {
        SettingOutcome::Updated(_) => {}
        _ => panic!("could not set {}", name),
    }
}

/// A configuration where each message scores exactly 10 points of
/// pressure and nothing else contributes.
fn flat_ten_config() -> GuildConfig {
    let mut c = GuildConfig::new(1);
    set(&mut c, "message_pressure", "10");
    set(&mut c, "embed_pressure", "0");
    set(&mut c, "character_pressure", "0");
    set(&mut c, "newline_pressure", "0");
    set(&mut c, "unique_ping_pressure", "0");
    set(&mut c, "pressure_decay_per_second", "0");
    set(&mut c, "max_pressure", "45");
    set(&mut c, "silence_role", "777");
    c
}

#[test]
fn message_scoring_uses_the_weights() {
    let c = GuildConfig::new(1);
    let shell = GuildShell::new(c);
    let f = MessageFeatures { embeds: 2, characters: 160, newlines: 3, unique_mentions: 1 };
    // 10 + 8.3*2 + 0.00625*160 + 0.714*3 + 2.5*1, in fixed-point units
    let expected = 1_000_000 + 830_000 * 2 + 625 * 160 + 71_400 * 3 + 250_000;
    assert_eq!(shell.calculate_message_pressure(&f), expected);
}

#[test]
fn five_flat_messages_trigger_silence() {
    let mut shell = GuildShell::new(flat_ten_config());
    for n in 0..4u64 {
        let actions = shell.message_created(9, loc(n), &quiet_features(), 100);
        assert!(actions.is_empty());
    }
    assert_eq!(shell.member_pressure(9), Some(4_000_000));
    let actions = shell.message_created(9, loc(4), &quiet_features(), 100);
    assert_eq!(shell.member_pressure(9), Some(5_000_000));
    assert_eq!(actions.len(), 6);
    match &actions[0] {
        Action::AssignRole { member, role } => {
            assert_eq!(*member, 9);
            assert_eq!(*role, 777);
        }
        _ => panic!("expected the silence role request first"),
    }
    for (k, a) in actions[1..].iter().enumerate() {
        match a {
            Action::DeleteMessage { location } => assert_eq!(location.message_id, k as u64),
            _ => panic!("expected a deletion request"),
        }
    }
    // the remembered messages were consumed by the pass
    assert_eq!(shell.member_recent_count(9), Some(0));
    assert_eq!(shell.member_cleanup_in_progress(9), Some(true));
}

#[test]
fn silence_is_idempotent_until_completed() {
    let mut shell = GuildShell::new(flat_ten_config());
    shell.message_created(9, loc(0), &quiet_features(), 0);
    let first = shell.silence_member(9, 5);
    assert_eq!(first.len(), 2); // role grant and one deletion
    let second = shell.silence_member(9, 6);
    assert!(second.is_empty());
    assert_eq!(shell.member_cleanup_in_progress(9), Some(true));
    shell.handle_event(ShellEvent::SilenceDone { member: 9 }, 7);
    assert_eq!(shell.member_cleanup_in_progress(9), Some(false));
    let third = shell.silence_member(9, 8);
    assert_eq!(third.len(), 1); // role grant again; no messages remembered
}

#[test]
fn decay_drains_exactly_and_bottoms_at_zero() {
    let mut c = flat_ten_config();
    set(&mut c, "pressure_decay_per_second", "1");
    let mut shell = GuildShell::new(c);
    shell.message_created(3, loc(0), &quiet_features(), 100);
    assert_eq!(shell.member_pressure(3), Some(1_000_000));
    // five quiet seconds drain five points
    set(&mut shell.config, "message_pressure", "0");
    shell.message_created(3, loc(1), &quiet_features(), 105);
    assert_eq!(shell.member_pressure(3), Some(500_000));
    assert_eq!(shell.member_recent_count(3), Some(2));
    // a long quiet spell is a full cool-down: score zero, history gone
    shell.message_created(3, loc(2), &quiet_features(), 200);
    assert_eq!(shell.member_pressure(3), Some(0));
    assert_eq!(shell.member_recent_count(3), Some(1));
}

#[test]
fn clock_going_backwards_never_raises_pressure() {
    let mut c = flat_ten_config();
    set(&mut c, "pressure_decay_per_second", "1");
    let mut shell = GuildShell::new(c);
    shell.message_created(3, loc(0), &quiet_features(), 100);
    set(&mut shell.config, "message_pressure", "0");
    shell.message_created(3, loc(1), &quiet_features(), 90);
    assert_eq!(shell.member_pressure(3), Some(1_000_000));
}

fn raid_config() -> GuildConfig {
    let mut c = GuildConfig::new(1);
    set(&mut c, "raid_trigger_new_user_limit", "3");
    set(&mut c, "raid_trigger_timespan", "60");
    set(&mut c, "raid_autoexpiration", "300");
    set(&mut c, "member_role", "42");
    c
}

#[test]
fn three_joins_in_window_open_a_raid() {
    let mut shell = GuildShell::new(raid_config());
    let a1 = shell.member_joined(1, 0);
    assert_eq!(a1.len(), 1);
    assert!(shell.current_raid().is_none());
    let a2 = shell.member_joined(2, 10);
    assert_eq!(a2.len(), 1);
    assert!(shell.current_raid().is_none());
    // the third join opens the window; the triggering member still
    // receives normal roles, subsequent joiners go onto the roster
    let a3 = shell.member_joined(3, 20);
    assert_eq!(a3.len(), 1);
    assert!(shell.current_raid().is_some());
    let a4 = shell.member_joined(4, 25);
    assert!(a4.is_empty());
    let raid = shell.current_raid().as_ref().unwrap();
    assert_eq!(raid.raid_started, 20);
    assert_eq!(raid.last_join, 25);
    assert_eq!(raid.raiders, vec![4]);
}

#[test]
fn lapsed_raid_window_restores_normal_roles() {
    let mut shell = GuildShell::new(raid_config());
    shell.member_joined(1, 0);
    shell.member_joined(2, 10);
    shell.member_joined(3, 20);
    shell.member_joined(4, 25);
    // expiration counts from the last roster join (25); 400 > 25 + 300
    let a5 = shell.member_joined(5, 400);
    assert_eq!(a5.len(), 1);
    match &a5[0] {
        Action::AssignRole { member, role } => {
            assert_eq!(*member, 5);
            assert_eq!(*role, 42);
        }
        _ => panic!("expected a role grant"),
    }
    assert!(shell.current_raid().is_none());
    let last = shell.last_raid().as_ref().unwrap();
    assert_eq!(last.raid_started, 20);
    assert_eq!(last.raiders, vec![4]);
}

#[test]
fn sparse_joins_never_open_a_raid() {
    let mut shell = GuildShell::new(raid_config());
    shell.member_joined(1, 0);
    shell.member_joined(2, 70);
    shell.member_joined(3, 140);
    shell.member_joined(4, 210);
    assert!(shell.current_raid().is_none());
}

#[test]
fn get_config_event_replies_with_a_copy() {
    let mut shell = GuildShell::new(flat_ten_config());
    let actions = shell.handle_event(ShellEvent::GetConfig, 0);
    assert_eq!(actions.len(), 1);
    match &actions[0] {
        Action::ReplyConfig(c) => {
            assert_eq!(c.get_guild_id(), 1);
            assert_eq!(c.max_pressure(), 4_500_000);
        }
        _ => panic!("expected a configuration reply"),
    }
}

#[test]
fn shutdown_stops_the_shell() {
    let mut shell = GuildShell::new(flat_ten_config());
    shell.handle_event(ShellEvent::Shutdown, 0);
    assert!(!shell.is_running());
    let actions = shell.handle_event(
        ShellEvent::MemberJoined { member: 1 },
        1,
    );
    assert!(actions.is_empty());
    assert_eq!(shell.member_count(), 0);
}

#[test]
fn events_apply_in_submission_order() {
    // processing a batch equals processing one event at a time
    let mut batched = GuildShell::new(flat_ten_config());
    let mut stepped = GuildShell::new(flat_ten_config());
    let events = vec![
        (ShellEvent::MemberJoined { member: 5 }, 0u64),
        (
            ShellEvent::NewMessage { author: 5, location: loc(0), features: quiet_features() },
            1,
        ),
        (
            ShellEvent::NewMessage { author: 5, location: loc(1), features: quiet_features() },
            2,
        ),
    ];
    let batch_actions = batched.process_events(events);
    let mut step_actions = Vec::new();
    step_actions.extend(stepped.handle_event(ShellEvent::MemberJoined { member: 5 }, 0));
    step_actions.extend(stepped.handle_event(
        ShellEvent::NewMessage { author: 5, location: loc(0), features: quiet_features() },
        1,
    ));
    step_actions.extend(stepped.handle_event(
        ShellEvent::NewMessage { author: 5, location: loc(1), features: quiet_features() },
        2,
    ));
    assert_eq!(batch_actions.len(), step_actions.len());
    assert_eq!(batched.member_pressure(5), stepped.member_pressure(5));
    assert_eq!(batched.member_pressure(5), Some(2_000_000));
    assert_eq!(batched.member_recent_count(5), Some(2));
}

#[test]
fn communities_are_independent() {
    let mut one = GuildShell::new(flat_ten_config());
    let mut two = GuildShell::new(raid_config());
    one.message_created(5, loc(0), &quiet_features(), 0);
    two.member_joined(5, 0);
    assert_eq!(one.member_pressure(5), Some(1_000_000));
    assert_eq!(two.member_pressure(5), Some(0));
    assert!(one.current_raid().is_none());
}

#[test]
fn config_command_lists_the_fields() {
    let mut shell = GuildShell::new(GuildConfig::new(1));
    let actions = shell.handle_interaction(&Interaction::ApplicationCommand {
        guild_id: Some(1),
        command_name: "config".to_string(),
        option_name: String::new(),
        option_value: None,
    });
    assert_eq!(actions.len(), 1);
    match &actions[0] {
        Action::ShowSelection { title, body, options } => {
            assert_eq!(title, "Bussy configuration");
            assert!(body.starts_with("Pick which setting"));
            assert_eq!(options.len(), 17);
        }
        _ => panic!("expected the selection menu"),
    }
}

#[test]
fn change_command_sets_a_field_by_name() {
    let mut shell = GuildShell::new(GuildConfig::new(1));
    let actions = shell.handle_interaction(&Interaction::ApplicationCommand {
        guild_id: Some(1),
        command_name: "change".to_string(),
        option_name: "max_pressure".to_string(),
        option_value: Some("99".to_string()),
    });
    assert_eq!(actions.len(), 1);
    match &actions[0] {
        Action::ShowMessage { title, body } => {
            assert_eq!(title, "Change successful");
            assert_eq!(body, "max_pressure changed successfully");
        }
        _ => panic!("expected a confirmation"),
    }
    assert_eq!(shell.get_config().max_pressure(), 9_900_000);
}

#[test]
fn change_command_reports_a_bad_value() {
    let mut shell = GuildShell::new(GuildConfig::new(1));
    let actions = shell.handle_interaction(&Interaction::ApplicationCommand {
        guild_id: Some(1),
        command_name: "change".to_string(),
        option_name: "max_pressure".to_string(),
        option_value: Some("wat".to_string()),
    });
    assert_eq!(actions.len(), 1);
    match &actions[0] {
        Action::ShowMessage { title, body } => {
            assert_eq!(title, "No.");
            assert_eq!(body, "Not a valid number");
        }
        _ => panic!("expected a refusal"),
    }
    assert_eq!(shell.get_config().max_pressure(), 6_000_000);
}

#[test]
fn interactions_for_other_guilds_are_ignored() {
    let mut shell = GuildShell::new(GuildConfig::new(1));
    let actions = shell.handle_interaction(&Interaction::ApplicationCommand {
        guild_id: Some(2),
        command_name: "change".to_string(),
        option_name: "max_pressure".to_string(),
        option_value: Some("99".to_string()),
    });
    assert!(actions.is_empty());
    assert_eq!(shell.get_config().max_pressure(), 6_000_000);
}

#[test]
fn component_selection_renders_the_field_window() {
    let mut shell = GuildShell::new(GuildConfig::new(1));
    let actions = shell.handle_interaction(&Interaction::MessageComponent {
        guild_id: Some(1),
        custom_id: "config_selection".to_string(),
        values: vec!["select_max_pressure".to_string()],
        roles: Vec::new(),
        channels: Vec::new(),
    });
    assert_eq!(actions.len(), 1);
    match &actions[0] {
        Action::ShowWindow { title, body, .. } => {
            assert_eq!(title, "Set max_pressure");
            assert_eq!(body, "Set value for max_pressure or reset it");
        }
        _ => panic!("expected the field window"),
    }
}

#[test]
fn component_setting_updates_and_reports() {
    let mut shell = GuildShell::new(GuildConfig::new(1));
    let actions = shell.handle_interaction(&Interaction::MessageComponent {
        guild_id: Some(1),
        custom_id: "set_pressure_decay_per_second".to_string(),
        values: vec!["2.5".to_string()],
        roles: Vec::new(),
        channels: Vec::new(),
    });
    assert_eq!(actions.len(), 1);
    match &actions[0] {
        Action::ShowSelection { title, body, options } => {
            assert_eq!(title, "Value change");
            assert_eq!(body, "Value changed successfully!");
            assert_eq!(options.len(), 17);
        }
        _ => panic!("expected the confirmation with the menu"),
    }
    assert_eq!(shell.get_config().pressure_decay_per_second(), 250_000);
}

#[test]
fn component_setting_reports_a_parse_error() {
    let mut shell = GuildShell::new(GuildConfig::new(1));
    let actions = shell.handle_interaction(&Interaction::MessageComponent {
        guild_id: Some(1),
        custom_id: "set_max_pressure".to_string(),
        values: vec!["nope".to_string()],
        roles: Vec::new(),
        channels: Vec::new(),
    });
    match &actions[0] {
        Action::ShowSelection { body, .. } => {
            assert_eq!(body, "Couldn't set value: Not a valid number");
        }
        _ => panic!("expected the failure report"),
    }
    assert_eq!(shell.get_config().max_pressure(), 6_000_000);
}

#[test]
fn unknown_component_key_is_ignored() {
    let mut shell = GuildShell::new(GuildConfig::new(1));
    let actions = shell.handle_interaction(&Interaction::MessageComponent {
        guild_id: Some(1),
        custom_id: "set_no_such_field".to_string(),
        values: vec!["1".to_string()],
        roles: Vec::new(),
        channels: Vec::new(),
    });
    assert!(actions.is_empty());
}

#[test]
fn clock_stamped_events_still_step_the_shell() {
    let mut shell = GuildShell::new(flat_ten_config());
    let actions = shell.handle_event_now(ShellEvent::GetConfig);
    assert_eq!(actions.len(), 1);
    match &actions[0] {
        Action::ReplyConfig(c) => assert_eq!(c.get_guild_id(), 1),
        _ => panic!("expected a configuration reply"),
    }
    shell.handle_event_now(ShellEvent::MemberJoined { member: 11 });
    assert_eq!(shell.member_count(), 1);
    assert_eq!(shell.member_pressure(11), Some(0));
}
