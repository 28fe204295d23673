use guild_shell::error_handling::BetterHandle;
use guild_shell::log::LogData;
use guild_shell::settings::{GuildConfig, SettingOutcome};
use guild_shell::shell::{Action, GuildShell};

fn set(config: &mut GuildConfig, name: &str, value: &str) {
    match config.set_by_name(&name.to_string(), value.to_string()) {
        SettingOutcome::Updated(_) => {}
        _ => panic!("could not set {}", name),
    }
}

#[test]
fn empty_log_dumps_nothing() {
    let log = LogData::new();
    assert!(log.dump().is_none());
}

#[test]
fn dump_renders_time_of_day_lines() {
    let mut log = LogData::new();
    log.slog(3661, "first".to_string());
    log.slog(86399, "second".to_string());
    assert_eq!(
        log.dump().unwrap(),
        "01:01:01 UTC: first\n23:59:59 UTC: second\n"
    );
    log.clear();
    assert!(log.dump().is_none());
}

#[test]
fn dump_logs_needs_a_log_channel() {
    let mut shell = GuildShell::new(GuildConfig::new(1));
    match shell.dump_logs() {
        Err(e) => assert_eq!(e, "No log channel configured"),
        Ok(_) => panic!("expected the missing-channel error"),
    }
}

#[test]
fn dump_logs_flushes_community_and_member_buffers() {
    let mut c = GuildConfig::new(1);
    set(&mut c, "log_channel", "100");
    let mut shell = GuildShell::new(c);
    shell.slog(5, "hello".to_string());
    // a join with no roles configured leaves two notes in the member log
    shell.member_joined(7, 5);
    let actions = shell.dump_logs().unwrap();
    assert_eq!(actions.len(), 2);
    match &actions[0] {
        Action::SendEmbed { channel, title, body } => {
            assert_eq!(*channel, 100);
            assert_eq!(title, "Server info");
            assert_eq!(body, "```00:00:05 UTC: hello\n```");
        }
        _ => panic!("expected the community embed"),
    }
    match &actions[1] {
        Action::SendEmbed { channel, title, body } => {
            assert_eq!(*channel, 100);
            assert_eq!(title, "Member 7");
            assert_eq!(
                body,
                "<@7>\n```00:00:05 UTC: Member role not configured so not assigned.\n00:00:05 UTC: 'New'' role not configured so not assigned.\n```"
            );
        }
        _ => panic!("expected the member embed"),
    }
    // the buffers are now empty: a second flush sends nothing
    let again = shell.dump_logs().unwrap();
    assert!(again.is_empty());
}

#[test]
fn dexpect_unwraps() {
    let mut log = LogData::new();
    let v: Option<u32> = Some(4);
    assert_eq!(v.dexpect("missing", &mut log), 4);
    let r: Result<u32, String> = Ok(9);
    assert_eq!(r.dexpect("missing", &mut log), 9);
    assert_eq!(log.len(), 0);
}

#[test]
fn dexpect_or_default_notes_the_failure() {
    let mut log = LogData::new();
    let v: Option<u32> = None;
    assert_eq!(v.dexpect_or_default("value was missing", &mut log, 3, 60), 3);
    assert_eq!(log.len(), 1);
    assert_eq!(log.record(0).at, 60);
    assert_eq!(log.record(0).text, "value was missing");
    let r: Result<u32, String> = Err("boom".to_string());
    assert_eq!(r.dexpect_or_default("call failed", &mut log, 8, 61), 8);
    assert_eq!(log.len(), 2);
    assert_eq!(log.record(1).text, "call failed: boom");
    let ok: Result<u32, String> = Ok(1);
    assert_eq!(ok.dexpect_or_default("call failed", &mut log, 8, 62), 1);
    assert_eq!(log.len(), 2);
}

#[test]
fn records_render_in_ascending_stamp_order() {
    let mut log = LogData::new();
    log.slog(30, "third".to_string());
    log.slog(10, "first".to_string());
    log.slog(20, "second".to_string());
    log.slog(20, "also second".to_string());
    assert_eq!(
        log.dump().unwrap(),
        "00:00:10 UTC: first\n00:00:20 UTC: second\n00:00:20 UTC: also second\n00:00:30 UTC: third\n"
    );
}
