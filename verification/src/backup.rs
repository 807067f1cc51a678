//! The periodic backup job: random passwords, command lines, settings, and
//! the decisions of setting up the backup repository and of each backup
//! cycle.

use vstd::prelude::*;
use vstd::string::*;
use crate::text::{
    digit_char, is_digit, parse_unsigned, IntErrorKind, push_char, spec_parse_unsigned, split_words,
    words,
};

verus! {

/// A random byte: `rand::random::<u8>()`, drawn from the thread-local
/// generator. Nothing is claimed of which byte comes back.
#[verifier::external_body]
fn random_byte() -> (b: u8) {
    rand::random::<u8>()
}

/// An upper-case hexadecimal digit.
pub open spec fn hex_upper(d: int) -> char {
    if d < 10 {
        digit_char(d)
    } else {
        (d - 10 + 'A' as int) as char
    }
}

/// An upper-case hexadecimal digit character.
pub open spec fn is_upper_hex(c: char) -> bool {
    is_digit(c) || ('A' <= c && c <= 'F')
}

/// The upper-case hexadecimal digit of a nibble.
fn nibble_char(n: u8) -> (c: char)
    requires
        n < 16,
    ensures
        c == hex_upper(n as int),
        is_upper_hex(c),
{
    if n < 10 {
        (n + 48) as char
    } else {
        (n - 10 + 65) as char
    }
}

/// The upper-case hexadecimal digits of the low four bits of each byte.
pub fn hex_nibbles(bytes: &Vec<u8>) -> (s: String)
    ensures
        s@.len() == bytes.len(),
        forall|i: int| 0 <= i < bytes.len() ==> #[trigger] s@[i] == hex_upper((bytes@[i] % 16) as int),
        forall|i: int| 0 <= i < bytes.len() ==> is_upper_hex(#[trigger] s@[i]),
{
    let mut s = String::new();
    let mut i: usize = 0;
    while i < bytes.len()
        invariant
            i <= bytes.len(),
            s@.len() == i,
            forall|j: int| 0 <= j < i ==> #[trigger] s@[j] == hex_upper((bytes@[j] % 16) as int),
            forall|j: int| 0 <= j < i ==> is_upper_hex(#[trigger] s@[j]),
        decreases bytes.len() - i,
    {
        let b = bytes[i];
        let n = b & 0x0f;
        assert(n == b % 16 && n < 16) by (bit_vector)
            requires
                n == b & 0x0f,
        ;
        push_char(&mut s, nibble_char(n));
        i = i + 1;
    }
    s
}

/// A random string of `len` upper-case hexadecimal digits.
pub fn rand_hex(len: usize) -> (s: String)
    ensures
        s@.len() == len,
        forall|i: int| 0 <= i < len ==> is_upper_hex(#[trigger] s@[i]),
{
    let mut bytes: Vec<u8> = Vec::new();
    let mut i: usize = 0;
    while i < len
        invariant
            i <= len,
            bytes.len() == i,
        decreases len - i,
    {
        bytes.push(random_byte());
        i = i + 1;
    }
    hex_nibbles(&bytes)
}

/// A command split into the program and its arguments.
pub struct CommandLine {
    pub program: String,
    pub args: Vec<String>,
}

/// Why a command could not be run.
#[derive(Clone, Copy, Debug, PartialEq, Eq, Structural)]
pub enum ExecError {
    /// The command has no words.
    EmptyCommand,
}

/// Splits a command into words: the first is the program, the others its
/// arguments. Quotes have no meaning; only whitespace separates.
pub fn command_line(cmd: &str) -> (res: Result<CommandLine, ExecError>)
    ensures
        words(cmd@).len() == 0 <==> res is Err,
        res matches Ok(c) ==> c.program@ == words(cmd@)[0] && c.args.deep_view() == words(
            cmd@,
        ).drop_first(),
{
    let mut terms = split_words(cmd);
    if terms.len() == 0 {
        return Err(ExecError::EmptyCommand);
    }
    let ghost all = terms.deep_view();
    let program = terms.remove(0);
    assert(terms.deep_view() =~= all.drop_first());
    Ok(CommandLine { program, args: terms })
}

/// A path setting: the given value, or `default` when none is given.
pub fn path_setting(value: Option<String>, default: &str) -> (p: String)
    ensures
        p@ == match value {
            Some(v) => v@,
            None => default@,
        },
{
    match value {
        Some(v) => v,
        None => {
            let mut p = String::new();
            p.append(default);
            p
        },
    }
}

/// Why a setting was refused.
#[derive(Clone, Copy, Debug, PartialEq, Eq, Structural)]
pub enum SettingError {
    /// The value is not an unsigned 64-bit number, for the reason given.
    NotANumber(IntErrorKind),
}

/// The seconds between backups when none are given: twenty minutes.
pub open spec fn default_backup_seconds() -> u64 {
    1200
}

/// The number of seconds between backups: the given value read as an
/// unsigned number, or [`default_backup_seconds`] when none is given.
pub fn seconds_setting(value: Option<String>) -> (res: Result<u64, SettingError>)
    ensures
        match value {
            None => res == Ok::<u64, SettingError>(default_backup_seconds()),
            Some(v) => match spec_parse_unsigned(v@, u64::MAX as nat) {
                Ok(n) => res == Ok::<u64, SettingError>(n as u64),
                Err(e) => res == Err::<u64, SettingError>(SettingError::NotANumber(e)),
            },
        },
{
    match value {
        None => Ok(20 * 60),
        Some(v) => match parse_unsigned(v.as_str(), u64::MAX) {
            Ok(n) => Ok(n),
            Err(e) => Err(SettingError::NotANumber(e)),
        },
    }
}


/// The `Debug` text of a path (`format!("{:?}", Path::new(p))`): how the
/// backup commands quote the repository and password paths.
pub uninterp spec fn path_debug_text(p: Seq<char>) -> Seq<char>;

/// Writes a path as its `Debug` text: `format!` with `{:?}` on
/// `std::path::Path::new(p)`. The claim is only that the text is a function
/// of the path, [`path_debug_text`]; how it quotes and escapes is left to the
/// standard library.
#[verifier::external_body]
fn path_debug(p: &str) -> (t: String)
    ensures
        t@ == path_debug_text(p@),
{
    format!("{:?}", std::path::Path::new(p))
}

/// The paths the backup job works with.
pub struct BackupPlan {
    /// The backup repository.
    pub restic_db: String,
    /// The file that holds the repository's password.
    pub restic_pass: String,
}

/// The backup repository when none is given.
pub open spec fn default_restic_db() -> Seq<char> {
    "/resticdb"@
}

/// The password file when none is given.
pub open spec fn default_restic_pass() -> Seq<char> {
    "/resticpass/password"@
}

/// The command that checks a repository, given the quoted password file and
/// repository.
pub open spec fn stats_text_for(pass: Seq<char>, db: Seq<char>) -> Seq<char> {
    "restic stats --password-file "@ + pass + " -r "@ + db
}

/// The command that creates a repository, given the quoted repository and
/// password file.
pub open spec fn init_text_for(db: Seq<char>, pass: Seq<char>) -> Seq<char> {
    "restic init --repo "@ + db + " --password-file "@ + pass
}

/// The command that backs up the server's files, given the quoted
/// repository and password file.
pub open spec fn backup_text_for(db: Seq<char>, pass: Seq<char>) -> Seq<char> {
    "restic -r "@ + db + " --password-file "@ + pass + " backup --exclude /mcserver/logs /mcserver"@
}

/// Writes the command that checks a repository (see [`stats_text_for`]).
pub fn stats_command_for(pass: &str, db: &str) -> (cmd: String)
    ensures
        cmd@ == stats_text_for(pass@, db@),
{
    let mut cmd = String::new();
    cmd.append("restic stats --password-file ");
    cmd.append(pass);
    cmd.append(" -r ");
    cmd.append(db);
    cmd
}

/// Writes the command that creates a repository (see [`init_text_for`]).
pub fn init_command_for(db: &str, pass: &str) -> (cmd: String)
    ensures
        cmd@ == init_text_for(db@, pass@),
{
    let mut cmd = String::new();
    cmd.append("restic init --repo ");
    cmd.append(db);
    cmd.append(" --password-file ");
    cmd.append(pass);
    cmd
}

/// Writes the command that backs up the server's files (see
/// [`backup_text_for`]).
pub fn backup_command_for(db: &str, pass: &str) -> (cmd: String)
    ensures
        cmd@ == backup_text_for(db@, pass@),
{
    let mut cmd = String::new();
    cmd.append("restic -r ");
    cmd.append(db);
    cmd.append(" --password-file ");
    cmd.append(pass);
    cmd.append(" backup --exclude /mcserver/logs /mcserver");
    cmd
}

/// The number of commands in a backup cycle.
pub open spec fn cycle_len() -> nat {
    5
}

/// The number of commands run after a failed cycle.
pub open spec fn recovery_len() -> nat {
    2
}

impl BackupPlan {
    /// The paths from their settings: each given value, or its default.
    pub fn from_settings(restic_db: Option<String>, restic_pass: Option<String>) -> (plan:
        BackupPlan)
        ensures
            plan.restic_db@ == match restic_db {
                Some(v) => v@,
                None => default_restic_db(),
            },
            plan.restic_pass@ == match restic_pass {
                Some(v) => v@,
                None => default_restic_pass(),
            },
    {
        BackupPlan {
            restic_db: path_setting(restic_db, "/resticdb"),
            restic_pass: path_setting(restic_pass, "/resticpass/password"),
        }
    }

    /// The command that checks that the repository opens with the password.
    pub open spec fn stats_text(&self) -> Seq<char> {
        stats_text_for(path_debug_text(self.restic_pass@), path_debug_text(self.restic_db@))
    }

    /// The command that creates the repository.
    pub open spec fn init_text(&self) -> Seq<char> {
        init_text_for(path_debug_text(self.restic_db@), path_debug_text(self.restic_pass@))
    }

    /// The command that backs up the server's files.
    pub open spec fn backup_text(&self) -> Seq<char> {
        backup_text_for(path_debug_text(self.restic_db@), path_debug_text(self.restic_pass@))
    }

    /// The command of step `step` of a backup cycle.
    pub open spec fn cycle_text(&self, step: int) -> Seq<char> {
        if step == 0 {
            "./mcrcon -p password 'say now creating server backup.'"@
        } else if step == 1 {
            "./mcrcon -p password 'save-off'"@
        } else if step == 2 {
            self.backup_text()
        } else if step == 3 {
            "./mcrcon -p password 'save-on'"@
        } else {
            "./mcrcon -p password 'say server backup complete.'"@
        }
    }

    /// The command of step `step` of the recovery after a failed cycle.
    pub open spec fn recovery_text(&self, step: int) -> Seq<char> {
        if step == 0 {
            "./mcrcon -p password 'say [WARN] server backup error.'"@
        } else {
            "./mcrcon -p password 'save-on'"@
        }
    }

    /// The command that checks that the repository opens with the password.
    pub fn stats_command(&self) -> (cmd: String)
        ensures
            cmd@ == self.stats_text(),
            cmd@ == stats_text_for(path_debug_text(self.restic_pass@), path_debug_text(self.restic_db@)),
    {
        let pass = path_debug(self.restic_pass.as_str());
        let db = path_debug(self.restic_db.as_str());
        stats_command_for(pass.as_str(), db.as_str())
    }

    /// The command that creates the repository.
    pub fn init_command(&self) -> (cmd: String)
        ensures
            cmd@ == self.init_text(),
            cmd@ == init_text_for(path_debug_text(self.restic_db@), path_debug_text(self.restic_pass@)),
    {
        let db = path_debug(self.restic_db.as_str());
        let pass = path_debug(self.restic_pass.as_str());
        init_command_for(db.as_str(), pass.as_str())
    }

    /// The command that backs up the server's files.
    pub fn backup_command(&self) -> (cmd: String)
        ensures
            cmd@ == self.backup_text(),
            cmd@ == backup_text_for(path_debug_text(self.restic_db@), path_debug_text(self.restic_pass@)),
    {
        let db = path_debug(self.restic_db.as_str());
        let pass = path_debug(self.restic_pass.as_str());
        backup_command_for(db.as_str(), pass.as_str())
    }

    /// The command of step `step` of a backup cycle.
    pub fn cycle_command(&self, step: usize) -> (cmd: String)
        ensures
            cmd@ == self.cycle_text(step as int),
            step == 2 ==> cmd@ == backup_text_for(
                path_debug_text(self.restic_db@),
                path_debug_text(self.restic_pass@),
            ),
    {
        if step == 2 {
            return self.backup_command();
        }
        let mut cmd = String::new();
        if step == 0 {
            cmd.append("./mcrcon -p password 'say now creating server backup.'");
        } else if step == 1 {
            cmd.append("./mcrcon -p password 'save-off'");
        } else if step == 3 {
            cmd.append("./mcrcon -p password 'save-on'");
        } else {
            cmd.append("./mcrcon -p password 'say server backup complete.'");
        }
        cmd
    }

    /// The command of step `step` of the recovery after a failed cycle.
    pub fn recovery_command(&self, step: usize) -> (cmd: String)
        ensures
            cmd@ == self.recovery_text(step as int),
    {
        let mut cmd = String::new();
        if step == 0 {
            cmd.append("./mcrcon -p password 'say [WARN] server backup error.'");
        } else {
            cmd.append("./mcrcon -p password 'save-on'");
        }
        cmd
    }
}


/// What happened last while setting up the repository.
#[derive(Clone, Copy, Debug, PartialEq, Eq, Structural)]
pub enum SetupEvent {
    /// Whether the password file exists has been checked.
    PasswordFileChecked { exists: bool },
    /// The repository check finished, successfully or not.
    StatsFinished { ok: bool },
    /// A new password has been written to the password file.
    PasswordWritten,
    /// Creating the repository finished, successfully or not.
    InitFinished { ok: bool },
}

/// The kind of the next setup action; `announce` asks to say that a new
/// repository is being created.
#[derive(Clone, Copy, Debug, PartialEq, Eq, Structural)]
pub enum SetupMove {
    RunStats,
    WritePassword { announce: bool },
    RunInit { announce: bool },
    Ready,
    Abort,
}

/// The next setup action after `event`. An existing password file is tried
/// on the repository; a missing one is written first; the repository is
/// created when the password file was missing or the check failed, and a
/// failure to create it ends the job.
pub open spec fn setup_move(event: SetupEvent) -> SetupMove {
    match event {
        SetupEvent::PasswordFileChecked { exists } => if exists {
            SetupMove::RunStats
        } else {
            SetupMove::WritePassword { announce: true }
        },
        SetupEvent::StatsFinished { ok } => if ok {
            SetupMove::Ready
        } else {
            SetupMove::RunInit { announce: true }
        },
        SetupEvent::PasswordWritten => SetupMove::RunInit { announce: false },
        SetupEvent::InitFinished { ok } => if ok {
            SetupMove::Ready
        } else {
            SetupMove::Abort
        },
    }
}

/// The next setup action, with what it needs.
#[derive(Debug)]
pub enum SetupAction {
    /// Run `command`, then report [`SetupEvent::StatsFinished`].
    RunStats { command: String },
    /// Write `password` to the password file, then report
    /// [`SetupEvent::PasswordWritten`].
    WritePassword { announce: bool, password: String },
    /// Run `command`, then report [`SetupEvent::InitFinished`].
    RunInit { announce: bool, command: String },
    /// The repository is ready: start the backup cycles.
    Ready,
    /// The repository could not be created: stop with a failure.
    Abort,
}

/// What happened last in a backup cycle.
#[derive(Clone, Copy, Debug, PartialEq, Eq, Structural)]
pub enum CycleEvent {
    /// A new cycle begins.
    Begin,
    /// Step `step` of the cycle finished, successfully or not.
    StepFinished { step: usize, ok: bool },
    /// Step `step` of the recovery finished, whatever its outcome.
    RecoveryFinished { step: usize },
}

/// The kind of the next cycle action. `notice` asks to say that the server is
/// being backed up; `warn` asks to warn that the backup failed.
#[derive(Clone, Copy, Debug, PartialEq, Eq, Structural)]
pub enum CycleMove {
    Run { step: usize, notice: bool },
    Recover { step: usize, warn: bool },
    Sleep,
}

/// The next cycle action after `event`: the cycle's commands run in order
/// while they succeed; the first failure starts the recovery, whose commands
/// all run; then the job sleeps until the next cycle.
pub open spec fn cycle_move(event: CycleEvent) -> CycleMove {
    match event {
        CycleEvent::Begin => CycleMove::Run { step: 0, notice: false },
        CycleEvent::StepFinished { step, ok } => if !ok {
            CycleMove::Recover { step: 0, warn: true }
        } else if step + 1 < cycle_len() {
            CycleMove::Run { step: (step + 1) as usize, notice: step + 1 == 2 }
        } else {
            CycleMove::Sleep
        },
        CycleEvent::RecoveryFinished { step } => if step + 1 < recovery_len() {
            CycleMove::Recover { step: (step + 1) as usize, warn: false }
        } else {
            CycleMove::Sleep
        },
    }
}

/// The next cycle action, with what it needs.
#[derive(Debug)]
pub enum CycleAction {
    /// Run `command`, then report [`CycleEvent::StepFinished`].
    Run { step: usize, notice: bool, command: String },
    /// Run `command`, then report [`CycleEvent::RecoveryFinished`].
    Recover { step: usize, warn: bool, command: String },
    /// Sleep `seconds` seconds, then begin the next cycle.
    Sleep { seconds: u64 },
}

impl BackupPlan {
    /// Decides the next step of setting up the repository.
    pub fn setup_step(&self, event: SetupEvent) -> (action: SetupAction)
        ensures
            match setup_move(event) {
                SetupMove::RunStats => {
                    &&& action matches SetupAction::RunStats { command }
                    &&& command@ == self.stats_text()
                    &&& command@ == stats_text_for(
                        path_debug_text(self.restic_pass@),
                        path_debug_text(self.restic_db@),
                    )
                },
                SetupMove::WritePassword { announce } => {
                    &&& action matches SetupAction::WritePassword { announce: a, password }
                    &&& a == announce
                    &&& password@.len() == 32
                    &&& forall|i: int| 0 <= i < 32 ==> is_upper_hex(#[trigger] password@[i])
                },
                SetupMove::RunInit { announce } => {
                    &&& action matches SetupAction::RunInit { announce: a, command }
                    &&& a == announce
                    &&& command@ == self.init_text()
                    &&& command@ == init_text_for(
                        path_debug_text(self.restic_db@),
                        path_debug_text(self.restic_pass@),
                    )
                },
                SetupMove::Ready => action is Ready,
                SetupMove::Abort => action is Abort,
            },
    {
        match event {
            SetupEvent::PasswordFileChecked { exists } => if exists {
                SetupAction::RunStats { command: self.stats_command() }
            } else {
                SetupAction::WritePassword { announce: true, password: rand_hex(32) }
            },
            SetupEvent::StatsFinished { ok } => if ok {
                SetupAction::Ready
            } else {
                SetupAction::RunInit { announce: true, command: self.init_command() }
            },
            SetupEvent::PasswordWritten => SetupAction::RunInit {
                announce: false,
                command: self.init_command(),
            },
            SetupEvent::InitFinished { ok } => if ok {
                SetupAction::Ready
            } else {
                SetupAction::Abort
            },
        }
    }

    /// Decides the next step of a backup cycle.
    pub fn cycle_step(&self, event: CycleEvent, seconds: u64) -> (action: CycleAction)
        ensures
            match cycle_move(event) {
                CycleMove::Run { step, notice } => {
                    &&& action matches CycleAction::Run { step: s, notice: n, command }
                    &&& s == step
                    &&& n == notice
                    &&& command@ == self.cycle_text(step as int)
                    &&& step == 2 ==> command@ == backup_text_for(
                        path_debug_text(self.restic_db@),
                        path_debug_text(self.restic_pass@),
                    )
                },
                CycleMove::Recover { step, warn } => {
                    &&& action matches CycleAction::Recover { step: s, warn: w, command }
                    &&& s == step
                    &&& w == warn
                    &&& command@ == self.recovery_text(step as int)
                },
                CycleMove::Sleep => action == CycleAction::Sleep { seconds },
            },
    {
        match event {
            CycleEvent::Begin => CycleAction::Run {
                step: 0,
                notice: false,
                command: self.cycle_command(0),
            },
            CycleEvent::StepFinished { step, ok } => if !ok {
                CycleAction::Recover { step: 0, warn: true, command: self.recovery_command(0) }
            } else if step < 4 {
                CycleAction::Run {
                    step: step + 1,
                    notice: step == 1,
                    command: self.cycle_command(step + 1),
                }
            } else {
                CycleAction::Sleep { seconds }
            },
            CycleEvent::RecoveryFinished { step } => if step < 1 {
                CycleAction::Recover {
                    step: step + 1,
                    warn: false,
                    command: self.recovery_command(step + 1),
                }
            } else {
                CycleAction::Sleep { seconds }
            },
        }
    }
}

/// Every command of a plan names that plan's own paths: the repository check
/// gives the password file after `--password-file` and the repository after
/// `-r`, creation and backup give the repository after `--repo` / `-r` and the
/// password file after `--password-file`, and the backup is a cycle's third
/// command. Each path is quoted as its `Debug` text.
pub proof fn lemma_plan_commands_use_its_paths(plan: BackupPlan)
    ensures
        plan.stats_text() == "restic stats --password-file "@ + path_debug_text(plan.restic_pass@)
            + " -r "@ + path_debug_text(plan.restic_db@),
        plan.init_text() == "restic init --repo "@ + path_debug_text(plan.restic_db@)
            + " --password-file "@ + path_debug_text(plan.restic_pass@),
        plan.backup_text() == "restic -r "@ + path_debug_text(plan.restic_db@) + " --password-file "@
            + path_debug_text(plan.restic_pass@) + " backup --exclude /mcserver/logs /mcserver"@,
        plan.cycle_text(2) == plan.backup_text(),
{
}

/// Two plans that differ in their repository's quoted path differ in the
/// repository check and in the backup command.
pub proof fn lemma_repository_reaches_commands(p1: BackupPlan, p2: BackupPlan)
    requires
        p1.restic_pass@ == p2.restic_pass@,
        path_debug_text(p1.restic_db@) != path_debug_text(p2.restic_db@),
    ensures
        p1.stats_text() != p2.stats_text(),
        p1.backup_text() != p2.backup_text(),
{
    let q = path_debug_text(p1.restic_pass@);
    let d1 = path_debug_text(p1.restic_db@);
    let d2 = path_debug_text(p2.restic_db@);
    let a = "restic stats --password-file "@ + q + " -r "@;
    if p1.stats_text() == p2.stats_text() {
        assert(p1.stats_text() == a + d1);
        assert(p2.stats_text() == a + d2);
        assert((a + d1).skip(a.len() as int) =~= d1);
        assert((a + d2).skip(a.len() as int) =~= d2);
    }
    let b = "restic -r "@;
    let c = " --password-file "@ + q + " backup --exclude /mcserver/logs /mcserver"@;
    if p1.backup_text() == p2.backup_text() {
        assert(p1.backup_text() =~= b + d1 + c);
        assert(p2.backup_text() =~= b + d2 + c);
        let n1 = (b + d1 + c).len();
        assert((b + d1 + c).subrange(b.len() as int, n1 - c.len()) =~= d1);
        assert((b + d2 + c).subrange(b.len() as int, n1 - c.len()) =~= d2);
    }
}

/// A new password is written only when the password file is missing, and
/// the repository is then created without checking it first.
pub proof fn lemma_password_written_only_when_missing(event: SetupEvent)
    ensures
        setup_move(event) is WritePassword <==> event == (SetupEvent::PasswordFileChecked {
            exists: false,
        }),
        setup_move(SetupEvent::PasswordWritten) == (SetupMove::RunInit { announce: false }),
{
}

/// The repository is ready only after a successful check or a successful
/// creation, and the job gives up only when creation fails.
pub proof fn lemma_setup_outcomes(event: SetupEvent)
    ensures
        setup_move(event) is Ready <==> (event == (SetupEvent::StatsFinished { ok: true })
            || event == (SetupEvent::InitFinished { ok: true })),
        setup_move(event) is Abort <==> event == (SetupEvent::InitFinished { ok: false }),
        setup_move(event) is RunInit <==> (event == (SetupEvent::StatsFinished { ok: false })
            || event == SetupEvent::PasswordWritten),
{
}

/// A cycle runs its commands in order, starting from the first, and sleeps
/// after the last one succeeds; only the backup itself is announced.
pub proof fn lemma_cycle_in_order(step: usize)
    ensures
        cycle_move(CycleEvent::Begin) == (CycleMove::Run { step: 0, notice: false }),
        step + 1 < cycle_len() ==> cycle_move(CycleEvent::StepFinished { step, ok: true }) == (
        CycleMove::Run { step: (step + 1) as usize, notice: step + 1 == 2 }),
        step + 1 >= cycle_len() ==> cycle_move(CycleEvent::StepFinished { step, ok: true })
            == CycleMove::Sleep,
{
}

/// Whichever command of a cycle fails, the recovery starts with a warning,
/// runs all its commands whatever their outcome, and then the job sleeps.
pub proof fn lemma_cycle_failure_recovers(step: usize)
    ensures
        cycle_move(CycleEvent::StepFinished { step, ok: false }) == (CycleMove::Recover {
            step: 0,
            warn: true,
        }),
        cycle_move(CycleEvent::RecoveryFinished { step: 0 }) == (CycleMove::Recover {
            step: 1,
            warn: false,
        }),
        step + 1 >= recovery_len() ==> cycle_move(CycleEvent::RecoveryFinished { step })
            == CycleMove::Sleep,
{
}

} // verus!
