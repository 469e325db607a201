use supervisor::args::parse_args;
use supervisor::args::Config;
use supervisor::elapsed::format_elapsed;
use supervisor::terminator::Escalation;
use supervisor::terminator::EscalationStep;
use supervisor::terminator::GRACE_POLL_MS;
use supervisor::terminator::GRACE_PROBES;

#[test]
fn escalation_reaps_on_early_exit() {
    let mut esc = Escalation::new();
    // two probes still find the process running
    for _ in 0..2 {
        match esc.step(false) {
            EscalationStep::WaitMore => {}
            _ => panic!("within the grace window the task keeps waiting"),
        }
    }
    // the third probe sees the exit: done, no forceful kill
    match esc.step(true) {
        EscalationStep::Reaped => {}
        _ => panic!("an exit within the grace window ends the escalation"),
    }
}

#[test]
fn escalation_force_kills_exactly_at_window_end() {
    let mut esc = Escalation::new();
    let mut waits: u64 = 0;
    loop {
        match esc.step(false) {
            EscalationStep::WaitMore => waits += 1,
            EscalationStep::ForceKill => break,
            EscalationStep::Reaped => panic!("the process never exits in this scenario"),
        }
    }
    // 14 waits, then the kill on the 15th probe: ~1.5 s after the close request
    assert_eq!(waits, GRACE_PROBES - 1);
    assert_eq!((waits + 1) * GRACE_POLL_MS, 1500);
}

#[test]
fn format_elapsed_minutes_and_seconds() {
    assert_eq!(format_elapsed(0), "00:00");
    assert_eq!(format_elapsed(9), "00:09");
    assert_eq!(format_elapsed(59), "00:59");
    assert_eq!(format_elapsed(60), "01:00");
    assert_eq!(format_elapsed(754), "12:34");
    assert_eq!(format_elapsed(3599), "59:59");
}

#[test]
fn format_elapsed_with_hours() {
    assert_eq!(format_elapsed(3600), "01:00:00");
    assert_eq!(format_elapsed(3661), "01:01:01");
    assert_eq!(format_elapsed(86399), "23:59:59");
    // hours keep growing past two digits
    assert_eq!(format_elapsed(360000), "100:00:00");
}

#[test]
fn parse_args_default_title() {
    let args = vec!["child.exe".to_string()];
    let config = parse_args(&args);
    assert_eq!(config.title, "DiscordQuest");
    let d = Config::default();
    assert_eq!(d.title, "DiscordQuest");
}

#[test]
fn parse_args_takes_title() {
    let args = vec![
        "child.exe".to_string(),
        "--title".to_string(),
        "My Game".to_string(),
    ];
    let config = parse_args(&args);
    assert_eq!(config.title, "My Game");
}

#[test]
fn parse_args_last_title_wins() {
    let args = vec![
        "child.exe".to_string(),
        "--title".to_string(),
        "First".to_string(),
        "ignored".to_string(),
        "--title".to_string(),
        "Second".to_string(),
    ];
    let config = parse_args(&args);
    assert_eq!(config.title, "Second");
}

#[test]
fn parse_args_trailing_flag_ignored() {
    let args = vec!["child.exe".to_string(), "--title".to_string()];
    let config = parse_args(&args);
    assert_eq!(config.title, "DiscordQuest");
}
