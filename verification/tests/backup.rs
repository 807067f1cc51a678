use mcadmin::backup::{
    backup_command_for, command_line, hex_nibbles, init_command_for, path_setting, rand_hex,
    seconds_setting, stats_command_for, BackupPlan, CycleAction, CycleEvent, ExecError, SettingError,
    SetupAction, SetupEvent,
};
use mcadmin::text::IntErrorKind;

fn plan() -> BackupPlan {
    BackupPlan::from_settings(None, None)
}

#[test]
fn hex_nibbles_takes_low_bits() {
    assert_eq!(hex_nibbles(&vec![0x00, 0x0f, 0xfa, 0x19, 0x3c]), "0FA9C");
    assert_eq!(hex_nibbles(&vec![]), "");
}

#[test]
fn rand_hex_gives_upper_hex_digits() {
    let s = rand_hex(32);
    assert_eq!(s.chars().count(), 32);
    assert!(s.chars().all(|c| matches!(c, '0'..='9' | 'A'..='F')));
    assert_eq!(rand_hex(0), "");
}

#[test]
fn command_line_splits_on_whitespace() {
    let c = command_line("restic stats  -r\tx").unwrap();
    assert_eq!(c.program, "restic");
    assert_eq!(c.args, vec!["stats", "-r", "x"]);
    let q = command_line("./mcrcon -p password 'save-off'").unwrap();
    assert_eq!(q.program, "./mcrcon");
    assert_eq!(q.args, vec!["-p", "password", "'save-off'"]);
}

#[test]
fn empty_command_is_refused() {
    assert_eq!(command_line("").err(), Some(ExecError::EmptyCommand));
    assert_eq!(command_line(" \t\u{2003}").err(), Some(ExecError::EmptyCommand));
}

#[test]
fn settings_and_defaults() {
    assert_eq!(path_setting(None, "/resticdb"), "/resticdb");
    assert_eq!(path_setting(Some("/data/db".to_string()), "/resticdb"), "/data/db");
    assert_eq!(seconds_setting(None), Ok(1200));
    assert_eq!(seconds_setting(Some("60".to_string())), Ok(60));
    assert_eq!(seconds_setting(Some("+5".to_string())), Ok(5));
    assert_eq!(
        seconds_setting(Some("abc".to_string())),
        Err(SettingError::NotANumber(IntErrorKind::InvalidDigit))
    );
    assert_eq!(
        seconds_setting(Some("-5".to_string())),
        Err(SettingError::NotANumber(IntErrorKind::InvalidDigit))
    );
    assert_eq!(seconds_setting(Some("".to_string())), Err(SettingError::NotANumber(IntErrorKind::Empty)));
    assert_eq!(
        seconds_setting(Some("18446744073709551616".to_string())),
        Err(SettingError::NotANumber(IntErrorKind::PosOverflow))
    );
}

#[test]
fn plan_paths_and_defaults() {
    let p = plan();
    assert_eq!(p.restic_db, "/resticdb");
    assert_eq!(p.restic_pass, "/resticpass/password");
    let q = BackupPlan::from_settings(Some("/data/db".to_string()), Some("/data/pw".to_string()));
    assert_eq!(q.restic_db, "/data/db");
    assert_eq!(q.restic_pass, "/data/pw");
}

#[test]
fn commands_for_quoted_paths() {
    assert_eq!(stats_command_for("\"p\"", "\"d\""), "restic stats --password-file \"p\" -r \"d\"");
    assert_eq!(init_command_for("D", "P"), "restic init --repo D --password-file P");
    assert_eq!(
        backup_command_for("D", "P"),
        "restic -r D --password-file P backup --exclude /mcserver/logs /mcserver"
    );
}

#[test]
fn backup_commands_quote_paths_as_debug() {
    let p = plan();
    let db = std::path::Path::new("/resticdb");
    let pass = std::path::Path::new("/resticpass/password");
    assert_eq!(p.stats_command(), "restic stats --password-file \"/resticpass/password\" -r \"/resticdb\"");
    assert_eq!(p.stats_command(), format!("restic stats --password-file {:?} -r {:?}", pass, db));
    assert_eq!(p.init_command(), format!("restic init --repo {:?} --password-file {:?}", db, pass));
    assert_eq!(
        p.backup_command(),
        format!("restic -r {:?} --password-file {:?} backup --exclude /mcserver/logs /mcserver", db, pass)
    );
}

#[test]
fn setup_with_existing_password() {
    let p = plan();
    match p.setup_step(SetupEvent::PasswordFileChecked { exists: true }) {
        SetupAction::RunStats { command } => assert_eq!(command, p.stats_command()),
        other => panic!("unexpected {:?}", other),
    }
    assert!(matches!(p.setup_step(SetupEvent::StatsFinished { ok: true }), SetupAction::Ready));
    match p.setup_step(SetupEvent::StatsFinished { ok: false }) {
        SetupAction::RunInit { announce, command } => {
            assert!(announce);
            assert_eq!(command, p.init_command());
        }
        other => panic!("unexpected {:?}", other),
    }
}

#[test]
fn setup_without_password() {
    let p = plan();
    match p.setup_step(SetupEvent::PasswordFileChecked { exists: false }) {
        SetupAction::WritePassword { announce, password } => {
            assert!(announce);
            assert_eq!(password.len(), 32);
            assert!(password.chars().all(|c| c.is_ascii_hexdigit() && !c.is_ascii_lowercase()));
        }
        other => panic!("unexpected {:?}", other),
    }
    match p.setup_step(SetupEvent::PasswordWritten) {
        SetupAction::RunInit { announce, command } => {
            assert!(!announce);
            assert_eq!(command, p.init_command());
        }
        other => panic!("unexpected {:?}", other),
    }
    assert!(matches!(p.setup_step(SetupEvent::InitFinished { ok: true }), SetupAction::Ready));
    assert!(matches!(p.setup_step(SetupEvent::InitFinished { ok: false }), SetupAction::Abort));
}

#[test]
fn successful_cycle_runs_all_steps_in_order() {
    let p = plan();
    let expected = [
        "./mcrcon -p password 'say now creating server backup.'".to_string(),
        "./mcrcon -p password 'save-off'".to_string(),
        p.backup_command(),
        "./mcrcon -p password 'save-on'".to_string(),
        "./mcrcon -p password 'say server backup complete.'".to_string(),
    ];
    let mut event = CycleEvent::Begin;
    for (i, want) in expected.iter().enumerate() {
        match p.cycle_step(event, 1200) {
            CycleAction::Run { step, notice, command } => {
                assert_eq!(step, i);
                assert_eq!(notice, i == 2);
                assert_eq!(&command, want);
                event = CycleEvent::StepFinished { step, ok: true };
            }
            other => panic!("unexpected {:?}", other),
        }
    }
    assert!(matches!(p.cycle_step(event, 1200), CycleAction::Sleep { seconds: 1200 }));
}

#[test]
fn failed_cycle_recovers_then_sleeps() {
    let p = plan();
    match p.cycle_step(CycleEvent::StepFinished { step: 2, ok: false }, 1200) {
        CycleAction::Recover { step, warn, command } => {
            assert_eq!(step, 0);
            assert!(warn);
            assert_eq!(command, "./mcrcon -p password 'say [WARN] server backup error.'");
        }
        other => panic!("unexpected {:?}", other),
    }
    match p.cycle_step(CycleEvent::RecoveryFinished { step: 0 }, 1200) {
        CycleAction::Recover { step, warn, command } => {
            assert_eq!(step, 1);
            assert!(!warn);
            assert_eq!(command, "./mcrcon -p password 'save-on'");
        }
        other => panic!("unexpected {:?}", other),
    }
    assert!(matches!(
        p.cycle_step(CycleEvent::RecoveryFinished { step: 1 }, 1200),
        CycleAction::Sleep { seconds: 1200 }
    ));
}
