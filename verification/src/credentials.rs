//! Saved login credentials for non-interactive re-authentication.
//!
//! `credentials.json` holds a username and either a plaintext `password` or
//! a `password_cmd` whose standard output is the password. The command is run
//! by the caller (through `sh -c`); the decisions around it — which source to
//! use, and whether what it printed is acceptable — are made here. Obvious
//! placeholder values are refused before the command runs and after.

use vstd::prelude::*;

use crate::error::Error;
use crate::paths::{join2, XdgDirs};
use crate::strs::{contains_seq, spec_debug_str, spec_to_uppercase, spec_trim};

verus! {

/// The contents of `credentials.json`.
#[derive(Debug, Clone)]
pub struct Credentials {
    pub username: String,
    /// Plaintext password, stored only if the user opted in.
    pub password: Option<String>,
    /// Shell command whose stdout becomes the password.
    pub password_cmd: Option<String>,
}

/// What reading and parsing `credentials.json` gave.
#[derive(Debug, Clone)]
pub enum CredentialsRead {
    /// The file could not be read.
    Unreadable,
    /// The file was read but is not valid credentials JSON; the parser's message.
    Malformed(String),
    /// The parsed credentials.
    Parsed(Credentials),
}

/// Where the password comes from.
#[derive(Debug, Clone)]
pub enum PasswordSource {
    /// The plaintext password field.
    Plain(String),
    /// Run this command through `sh -c` and read its stdout.
    Command(String),
}

/// How running the password command ended.
#[derive(Debug, Clone)]
pub enum CommandOutcome {
    /// The command could not be started; the system's message.
    SpawnFailed(String),
    /// The command ran.
    Exited {
        success: bool,
        /// The exit status as displayed (e.g. `exit status: 1`).
        status: String,
        /// Standard output, decoded lossily as UTF-8.
        stdout: String,
        /// Standard error, decoded lossily as UTF-8.
        stderr: String,
    },
}

/// A password command that is evidently a placeholder left in the file.
pub open spec fn is_placeholder_cmd(cmd: Seq<char>) -> bool {
    let upper = spec_to_uppercase(cmd);
    contains_seq(upper, "TODO"@) || contains_seq(upper, "PLACEHOLDER"@) || contains_seq(
        upper,
        "REPLACE WITH"@,
    )
}

/// A password value that is evidently a placeholder.
pub open spec fn looks_like_placeholder_value(pw: Seq<char>) -> bool {
    let upper = spec_to_uppercase(pw);
    "TODO"@.is_prefix_of(upper) || contains_seq(upper, "PLACEHOLDER"@) || contains_seq(
        upper,
        "REPLACE WITH"@,
    )
}

fn upper_has_placeholder(upper: &Vec<char>) -> (r: bool)
    ensures
        r == (contains_seq(upper@, "PLACEHOLDER"@) || contains_seq(upper@, "REPLACE WITH"@)),
{
    let a = crate::strs::chars_of("PLACEHOLDER");
    let b = crate::strs::chars_of("REPLACE WITH");
    crate::strs::contains_chars(upper, &a) || crate::strs::contains_chars(upper, &b)
}

fn placeholder_cmd(cmd: &str) -> (r: bool)
    ensures
        r == is_placeholder_cmd(cmd@),
{
    let up = crate::strs::to_uppercase(cmd);
    let v = crate::strs::chars_of(up.as_str());
    let t = crate::strs::chars_of("TODO");
    crate::strs::contains_chars(&v, &t) || upper_has_placeholder(&v)
}

fn placeholder_value(pw: &str) -> (r: bool)
    ensures
        r == looks_like_placeholder_value(pw@),
{
    let up = crate::strs::to_uppercase(pw);
    let v = crate::strs::chars_of(up.as_str());
    let t = crate::strs::chars_of("TODO");
    crate::strs::starts_with_chars(&v, &t) || upper_has_placeholder(&v)
}

/// The message for a placeholder password command.
pub open spec fn placeholder_cmd_msg(cmd: Seq<char>) -> Seq<char> {
    "password_cmd looks like a placeholder ("@ + spec_debug_str(cmd)
        + "); run `cool login` to set a real command or `cool logout --purge` to clear it"@
}

/// The message for a command that exited unsuccessfully.
pub open spec fn exit_msg(cmd: Seq<char>, status: Seq<char>, stderr: Seq<char>) -> Seq<char> {
    "command `"@ + cmd + "` exited with "@ + status + " (stderr: "@ + spec_trim(stderr) + ")"@
}

/// The message for a placeholder printed by the command.
pub open spec fn placeholder_value_msg(pw: Seq<char>) -> Seq<char> {
    "password_cmd output "@ + spec_debug_str(pw) + " looks like a placeholder; refusing to send to ADFS"@
}

/// What `Credentials::password_source` decides, as plain values:
/// `Ok((true, pw))` for the plaintext password, `Ok((false, cmd))` for a
/// command, `Err(v)` for the error whose `err_view` is `v`.
pub open spec fn spec_password_source(c: Credentials) -> Result<(bool, Seq<char>), (int, Seq<char>)> {
    match c.password {
        Some(pw) => if pw@.len() == 0 {
            Err((7, "password field is empty"@))
        } else {
            Ok((true, pw@))
        },
        None => match c.password_cmd {
            None => Err((4, "credentials.json has neither password nor password_cmd"@)),
            Some(cmd) => if is_placeholder_cmd(cmd@) {
                Err((7, placeholder_cmd_msg(cmd@)))
            } else {
                Ok((false, cmd@))
            },
        },
    }
}

/// The view of an error: its variant and message.
pub open spec fn err_view(e: Error) -> (int, Seq<char>) {
    match e {
        Error::Http(m) => (0, m@),
        Error::Json(m) => (1, m@),
        Error::SessionLoad(m) => (2, m@),
        Error::SessionSave(m) => (3, m@),
        Error::Auth(m) => (4, m@),
        Error::SessionExpired => (5, seq![]),
        Error::NoCredentials(m) => (6, m@),
        Error::PasswordCmd(m) => (7, m@),
        Error::Upload(m) => (8, m@),
        Error::Download(m) => (9, m@),
        Error::Io(m) => (10, m@),
    }
}

impl Credentials {
    /// `$XDG_CONFIG_HOME/ntucool/credentials.json`.
    pub fn default_path(dirs: &XdgDirs) -> (r: String)
        ensures
            r@ == join2(dirs.config_home@, "ntucool"@, "credentials.json"@),
    {
        crate::paths::credentials_path(dirs)
    }

    /// The credentials at the default path, given what reading and parsing
    /// that file gave: an unreadable file is `NoCredentials` naming the path,
    /// a malformed one is `Auth` with the parser's message.
    pub fn load(dirs: &XdgDirs, read: CredentialsRead) -> (r: Result<Credentials, Error>)
        ensures
            match read {
                CredentialsRead::Unreadable => r matches Err(Error::NoCredentials(p)) && p@ == join2(
                    dirs.config_home@,
                    "ntucool"@,
                    "credentials.json"@,
                ),
                CredentialsRead::Malformed(m) => r matches Err(Error::Auth(a)) && a@ == m@,
                CredentialsRead::Parsed(c) => r == Ok::<Credentials, Error>(c),
            },
    {
        match read {
            CredentialsRead::Unreadable => Err(Error::NoCredentials(Self::default_path(dirs))),
            CredentialsRead::Malformed(m) => Err(Error::Auth(m)),
            CredentialsRead::Parsed(c) => Ok(c),
        }
    }

    /// Where the password comes from: the plaintext field when present (an
    /// empty one is refused), else the command, unless it is a placeholder.
    pub fn password_source(&self) -> (r: Result<PasswordSource, Error>)
        ensures
            match spec_password_source(*self) {
                Ok((true, pw)) => r matches Ok(PasswordSource::Plain(p)) && p@ == pw,
                Ok((false, cmd)) => r matches Ok(PasswordSource::Command(c)) && c@ == cmd,
                Err(v) => r matches Err(e2) && err_view(e2) == v,
            },
    {
        match &self.password {
            Some(pw) => {
                if pw.as_str().is_empty() {
                    return Err(Error::PasswordCmd(crate::strs::owned("password field is empty")));
                }
                Ok(PasswordSource::Plain(pw.clone()))
            },
            None => match &self.password_cmd {
                None => Err(
                    Error::Auth(
                        crate::strs::owned("credentials.json has neither password nor password_cmd"),
                    ),
                ),
                Some(cmd) => {
                    if placeholder_cmd(cmd.as_str()) {
                        let mut m = crate::strs::owned("password_cmd looks like a placeholder (");
                        let d = crate::strs::debug_str(cmd.as_str());
                        crate::strs::push_str(&mut m, d.as_str());
                        crate::strs::push_str(
                            &mut m,
                            "); run `cool login` to set a real command or `cool logout --purge` to clear it",
                        );
                        return Err(Error::PasswordCmd(m));
                    }
                    Ok(PasswordSource::Command(cmd.clone()))
                },
            },
        }
    }
}

/// What the password command's outcome yields: the trimmed stdout, or the
/// reason it is refused.
pub open spec fn spec_command_password(cmd: Seq<char>, o: CommandOutcome) -> Result<Seq<char>, Seq<char>> {
    match o {
        CommandOutcome::SpawnFailed(m) => Err(m@),
        CommandOutcome::Exited { success, status, stdout, stderr } => if !success {
            Err(exit_msg(cmd, status@, stderr@))
        } else if spec_trim(stdout@).len() == 0 {
            Err("password_cmd succeeded but produced no output"@)
        } else if looks_like_placeholder_value(spec_trim(stdout@)) {
            Err(placeholder_value_msg(spec_trim(stdout@)))
        } else {
            Ok(spec_trim(stdout@))
        },
    }
}

/// The password printed by `cmd`, given how running it ended. Every refusal
/// is a `PasswordCmd` error.
pub fn command_password(cmd: &str, outcome: CommandOutcome) -> (r: Result<String, Error>)
    ensures
        match spec_command_password(cmd@, outcome) {
            Ok(pw) => r matches Ok(p) && p@ == pw,
            Err(m) => r matches Err(Error::PasswordCmd(e)) && e@ == m,
        },
{
    match outcome {
        CommandOutcome::SpawnFailed(m) => Err(Error::PasswordCmd(m)),
        CommandOutcome::Exited { success, status, stdout, stderr } => {
            if !success {
                let mut m = crate::strs::owned("command `");
                crate::strs::push_str(&mut m, cmd);
                crate::strs::push_str(&mut m, "` exited with ");
                crate::strs::push_str(&mut m, status.as_str());
                crate::strs::push_str(&mut m, " (stderr: ");
                let t = crate::strs::trim(stderr.as_str());
                crate::strs::push_str(&mut m, t.as_str());
                crate::strs::push_str(&mut m, ")");
                return Err(Error::PasswordCmd(m));
            }
            let pw = crate::strs::trim(stdout.as_str());
            if pw.as_str().is_empty() {
                return Err(
                    Error::PasswordCmd(crate::strs::owned("password_cmd succeeded but produced no output")),
                );
            }
            if placeholder_value(pw.as_str()) {
                let mut m = crate::strs::owned("password_cmd output ");
                let d = crate::strs::debug_str(pw.as_str());
                crate::strs::push_str(&mut m, d.as_str());
                crate::strs::push_str(&mut m, " looks like a placeholder; refusing to send to ADFS");
                return Err(Error::PasswordCmd(m));
            }
            Ok(pw)
        },
    }
}

// ───────────────────────────── re-login with saved credentials ─────────────────────────────

/// The password source of an automatic re-login: the plaintext field as it
/// is, else the command; this path does no placeholder checks.
pub fn saved_password_source(c: &Credentials) -> (r: Result<PasswordSource, Error>)
    ensures
        match c.password {
            Some(pw) => r matches Ok(PasswordSource::Plain(p)) && p@ == pw@,
            None => match c.password_cmd {
                Some(cmd) => r matches Ok(PasswordSource::Command(x)) && x@ == cmd@,
                None => r matches Err(Error::Auth(m)) && m@
                    == "credentials.json has neither password nor password_cmd"@,
            },
        },
{
    match &c.password {
        Some(pw) => Ok(PasswordSource::Plain(pw.clone())),
        None => match &c.password_cmd {
            Some(cmd) => Ok(PasswordSource::Command(cmd.clone())),
            None => Err(Error::Auth(crate::strs::owned("credentials.json has neither password nor password_cmd"))),
        },
    }
}

/// The password of an automatic re-login from how its command ended: the
/// trimmed stdout of a successful run (even empty).
pub fn saved_command_password(cmd: &str, outcome: CommandOutcome) -> (r: Result<String, Error>)
    ensures
        match outcome {
            CommandOutcome::SpawnFailed(m) => r matches Err(Error::PasswordCmd(x)) && x@ == m@,
            CommandOutcome::Exited { success, status, stdout, .. } => if success {
                r matches Ok(p) && p@ == spec_trim(stdout@)
            } else {
                r matches Err(Error::PasswordCmd(x)) && x@ == "command `"@ + cmd@ + "` exited with "@
                    + status@
            },
        },
{
    match outcome {
        CommandOutcome::SpawnFailed(m) => Err(Error::PasswordCmd(m)),
        CommandOutcome::Exited { success, status, stdout, stderr: _ } => {
            if success {
                Ok(crate::strs::trim(stdout.as_str()))
            } else {
                let mut m = crate::strs::owned("command `");
                crate::strs::push_str(&mut m, cmd);
                crate::strs::push_str(&mut m, "` exited with ");
                crate::strs::push_str(&mut m, status.as_str());
                Err(Error::PasswordCmd(m))
            }
        },
    }
}

/// A placeholder command is refused before anything runs, whatever else
/// the file holds, as long as no plaintext password is stored.
pub proof fn law_placeholder_cmd_never_runs(c: Credentials)
    requires
        c.password is None,
        c.password_cmd matches Some(cmd) && is_placeholder_cmd(cmd@),
    ensures
        spec_password_source(c) is Err,
{
}

/// A placeholder printed by the command is never accepted as the password.
pub proof fn law_placeholder_output_refused(cmd: Seq<char>, o: CommandOutcome)
    requires
        o matches CommandOutcome::Exited { stdout, .. } && looks_like_placeholder_value(
            spec_trim(stdout@),
        ),
    ensures
        spec_command_password(cmd, o) is Err,
{
}


// ───────────────────────────── saving a password command at login ─────────────────────────────

/// The password command typed at login, trimmed; an empty one is refused.
pub fn entered_password_cmd(input: &str) -> (r: Result<String, String>)
    ensures
        spec_trim(input@).len() == 0 ==> (r matches Err(m) && m@
            == "password_cmd is empty — refusing to save"@),
        spec_trim(input@).len() > 0 ==> (r matches Ok(c) && c@ == spec_trim(input@)),
{
    let t = crate::strs::trim(input);
    if crate::strs::chars_of(t.as_str()).len() == 0 {
        Err(crate::strs::owned("password_cmd is empty — refusing to save"))
    } else {
        Ok(t)
    }
}

/// Whether a trial run of a password command allows saving it: it must
/// start, exit successfully and print something.
pub open spec fn probe_verdict(o: CommandOutcome) -> Result<(), Seq<char>> {
    match o {
        CommandOutcome::SpawnFailed(m) => Err("password_cmd: failed to spawn shell: "@ + m@),
        CommandOutcome::Exited { success, status, stdout, stderr } => if !success {
            Err("password_cmd exited with "@ + status@ + " (stderr: "@ + spec_trim(stderr@) + ")"@)
        } else if stdout@.len() == 0 {
            Err("password_cmd succeeded but produced no output — refusing to save"@)
        } else {
            Ok(())
        },
    }
}

/// Check a trial run of a password command before saving it (see
/// `probe_verdict`).
pub fn check_password_cmd_probe(outcome: &CommandOutcome) -> (r: Result<(), String>)
    ensures
        match probe_verdict(*outcome) {
            Ok(()) => r is Ok,
            Err(m) => r matches Err(e) && e@ == m,
        },
{
    match outcome {
        CommandOutcome::SpawnFailed(m) => {
            let mut e = crate::strs::owned("password_cmd: failed to spawn shell: ");
            crate::strs::push_str(&mut e, m.as_str());
            Err(e)
        },
        CommandOutcome::Exited { success, status, stdout, stderr } => {
            if !*success {
                let mut e = crate::strs::owned("password_cmd exited with ");
                crate::strs::push_str(&mut e, status.as_str());
                crate::strs::push_str(&mut e, " (stderr: ");
                let t = crate::strs::trim(stderr.as_str());
                crate::strs::push_str(&mut e, t.as_str());
                crate::strs::push_str(&mut e, ")");
                Err(e)
            } else if crate::strs::chars_of(stdout.as_str()).len() == 0 {
                Err(crate::strs::owned("password_cmd succeeded but produced no output — refusing to save"))
            } else {
                Ok(())
            }
        },
    }
}

} // verus!
