//! `cvg doctor`: the verdict of each setup diagnostic, from what the
//! caller observed (directories, pid file, binaries' `--version`
//! output, the daemon's health and audit answers).
use vstd::prelude::*;
use crate::text::{chars_of, push_str, string_of, trim, trimmed};

verus! {

/// Verdict of one diagnostic.
#[derive(Debug, Clone, Copy, PartialEq, Eq, Structural)]
pub enum CheckStatus {
    /// Fine (`ok` on the wire).
    Pass,
    Warn,
    Fail,
}

/// One diagnostic line.
#[derive(Debug, Clone)]
pub struct DoctorCheck {
    pub name: &'static str,
    pub status: CheckStatus,
    pub message: String,
}

/// A diagnostic as text: name, status, message.
pub open spec fn check_view(c: DoctorCheck) -> (Seq<char>, CheckStatus, Seq<char>) {
    (c.name@, c.status, c.message@)
}

pub open spec fn checks_view(v: Seq<DoctorCheck>) -> Seq<(Seq<char>, CheckStatus, Seq<char>)> {
    v.map_values(|c: DoctorCheck| check_view(c))
}

fn owned(s: &str) -> (r: String)
    ensures
        r@ == s@,
{
    string_of(&chars_of(s))
}

/// A passing diagnostic.
pub fn ok(name: &'static str, message: &str) -> (c: DoctorCheck)
    ensures
        c.name == name,
        c.status == CheckStatus::Pass,
        c.message@ == message@,
{
    DoctorCheck { name, status: CheckStatus::Pass, message: owned(message) }
}

/// A warning.
pub fn warn(name: &'static str, message: &str) -> (c: DoctorCheck)
    ensures
        c.name == name,
        c.status == CheckStatus::Warn,
        c.message@ == message@,
{
    DoctorCheck { name, status: CheckStatus::Warn, message: owned(message) }
}

/// A failing diagnostic.
pub fn fail(name: &'static str, message: &str) -> (c: DoctorCheck)
    ensures
        c.name == name,
        c.status == CheckStatus::Fail,
        c.message@ == message@,
{
    DoctorCheck { name, status: CheckStatus::Fail, message: owned(message) }
}

fn push_check(checks: &mut Vec<DoctorCheck>, c: DoctorCheck)
    ensures
        checks_view(final(checks)@) == checks_view(old(checks)@).push(check_view(c)),
{
    let ghost before = checks_view(checks@);
    checks.push(c);
    assert(checks_view(checks@) =~= before.push(check_view(c)));
}

/// The diagnostics of the configuration directory (`home`, the
/// Convergio home, `None` when `HOME` is unset) and of its
/// `config.toml`.
pub open spec fn config_checks(home: Option<Seq<char>>, home_is_dir: bool, config_is_file: bool) -> Seq<
    (Seq<char>, CheckStatus, Seq<char>),
> {
    match home {
        None => seq![("config_dir"@, CheckStatus::Fail, "HOME is not set"@)],
        Some(h) => {
            let config = crate::service::join_path(h, "config.toml"@);
            seq![
                if home_is_dir {
                    ("config_dir"@, CheckStatus::Pass, h)
                } else {
                    ("config_dir"@, CheckStatus::Fail, h + " missing; run `cvg setup`"@)
                },
                if config_is_file {
                    ("config_file"@, CheckStatus::Pass, config)
                } else {
                    ("config_file"@, CheckStatus::Warn, config + " missing; run `cvg setup`"@)
                },
            ]
        },
    }
}

fn join_home(home: &str, rel: &str) -> (r: String)
    ensures
        r@ == crate::service::join_path(home@, rel@),
{
    let mut out: Vec<char> = Vec::new();
    let h = chars_of(home);
    push_str(&mut out, home);
    if h.len() > 0 && !crate::text::has_suffix(&h, "/") {
        push_str(&mut out, "/");
    }
    push_str(&mut out, rel);
    assert(out@ =~= crate::service::join_path(home@, rel@));
    string_of(&out)
}

fn missing(what: &str) -> (r: String)
    ensures
        r@ == what@ + " missing; run `cvg setup`"@,
{
    let mut m: Vec<char> = chars_of(what);
    push_str(&mut m, " missing; run `cvg setup`");
    string_of(&m)
}

/// Appends the configuration diagnostics.
pub fn check_config(checks: &mut Vec<DoctorCheck>, home: Option<&str>, home_is_dir: bool, config_is_file: bool)
    ensures
        checks_view(final(checks)@) == checks_view(old(checks)@) + config_checks(
            match home {
                Some(h) => Some(h@),
                None => None,
            },
            home_is_dir,
            config_is_file,
        ),
{
    let ghost before = checks_view(checks@);
    let h = match home {
        None => {
            push_check(checks, fail("config_dir", "HOME is not set"));
            assert(checks_view(checks@) =~= before + config_checks(None, home_is_dir, config_is_file));
            return;
        },
        Some(h) => h,
    };
    if home_is_dir {
        push_check(checks, ok("config_dir", h));
    } else {
        let m = missing(h);
        push_check(checks, fail("config_dir", m.as_str()));
    }
    let config = join_home(h, "config.toml");
    if config_is_file {
        push_check(checks, ok("config_file", config.as_str()));
    } else {
        let m = missing(config.as_str());
        push_check(checks, warn("config_file", m.as_str()));
    }
    assert(checks_view(checks@) =~= before + config_checks(Some(h@), home_is_dir, config_is_file));
}

/// The pid named by a pid file: its content, trimmed.
pub fn pid_text(raw: &str) -> (r: String)
    ensures
        r@ == trim(raw@),
{
    string_of(&trimmed(&chars_of(raw)))
}

/// The daemon pid diagnostic: none without a home; a warning when the
/// pid file is unreadable or blank; otherwise whether that process runs.
pub open spec fn pid_checks(home_set: bool, pid_file: Option<Seq<char>>, alive: bool) -> Seq<
    (Seq<char>, CheckStatus, Seq<char>),
> {
    if !home_set {
        Seq::empty()
    } else {
        match pid_file {
            None => seq![("daemon_pid"@, CheckStatus::Warn, "no daemon.pid found"@)],
            Some(raw) => {
                let pid = trim(raw);
                if pid.len() == 0 {
                    seq![("daemon_pid"@, CheckStatus::Warn, "daemon.pid is empty"@)]
                } else if alive {
                    seq![("daemon_pid"@, CheckStatus::Pass, "pid "@ + pid + " is running"@)]
                } else {
                    seq![("daemon_pid"@, CheckStatus::Warn, "stale pid "@ + pid)]
                }
            },
        }
    }
}

/// Appends the daemon pid diagnostic: `pid_file` is the pid file's
/// content (`None` when unreadable), `alive` whether `kill -0 <pid>`
/// succeeded.
pub fn check_pid(checks: &mut Vec<DoctorCheck>, home_set: bool, pid_file: Option<&str>, alive: bool)
    ensures
        checks_view(final(checks)@) == checks_view(old(checks)@) + pid_checks(
            home_set,
            match pid_file {
                Some(p) => Some(p@),
                None => None,
            },
            alive,
        ),
{
    let ghost before = checks_view(checks@);
    let ghost pf = match pid_file {
        Some(p) => Some(p@),
        None => None,
    };
    if !home_set {
        assert(checks_view(checks@) =~= before + pid_checks(home_set, pf, alive));
        return;
    }
    match pid_file {
        None => {
            push_check(checks, warn("daemon_pid", "no daemon.pid found"));
        },
        Some(raw) => {
            let pid = pid_text(raw);
            if pid.as_str().unicode_len() == 0 {
                push_check(checks, warn("daemon_pid", "daemon.pid is empty"));
            } else if alive {
                let mut m: Vec<char> = chars_of("pid ");
                push_str(&mut m, pid.as_str());
                push_str(&mut m, " is running");
                let ms = string_of(&m);
                push_check(checks, ok("daemon_pid", ms.as_str()));
            } else {
                let mut m: Vec<char> = chars_of("stale pid ");
                push_str(&mut m, pid.as_str());
                let ms = string_of(&m);
                push_check(checks, warn("daemon_pid", ms.as_str()));
            }
        },
    }
    assert(checks_view(checks@) =~= before + pid_checks(home_set, pf, alive));
}

} // verus!

verus! {

pub open spec fn opt_str(o: Option<&str>) -> Option<Seq<char>> {
    match o {
        Some(s) => Some(s@),
        None => None,
    }
}

/// The diagnostic of a binary: `output` is what `<name> --version`
/// printed when it ran and succeeded. A version that lacks the expected
/// one fails; a missing binary fails when required and warns otherwise.
pub open spec fn binary_check(name: Seq<char>, required: bool, expected: Option<Seq<char>>, output: Option<Seq<char>>) -> (
    Seq<char>,
    CheckStatus,
    Seq<char>,
) {
    match output {
        Some(out) => {
            let version = trim(out);
            match expected {
                Some(e) => if crate::text::contains(version, e) {
                    (name, CheckStatus::Pass, version)
                } else {
                    (name, CheckStatus::Fail, version + "; expected version "@ + e + ". Run install-local.sh"@)
                },
                None => (name, CheckStatus::Pass, version),
            }
        },
        None => if required {
            (name, CheckStatus::Fail, "`"@ + name + "` not found in PATH"@)
        } else {
            (name, CheckStatus::Warn, "`"@ + name + "` not found yet"@)
        },
    }
}

/// Appends the diagnostic of a binary.
pub fn check_binary(
    checks: &mut Vec<DoctorCheck>,
    name: &'static str,
    required: bool,
    expected: Option<&str>,
    output: Option<&str>,
)
    ensures
        checks_view(final(checks)@) == checks_view(old(checks)@).push(
            binary_check(name@, required, opt_str(expected), opt_str(output)),
        ),
{
    match output {
        Some(out) => {
            let version = pid_text(out);
            match expected {
                Some(e) => {
                    let vc = chars_of(version.as_str());
                    let ec = chars_of(e);
                    if crate::text::has_infix(&vc, &ec) {
                        push_check(checks, ok(name, version.as_str()));
                    } else {
                        let mut m: Vec<char> = vc;
                        push_str(&mut m, "; expected version ");
                        push_str(&mut m, e);
                        push_str(&mut m, ". Run install-local.sh");
                        let ms = string_of(&m);
                        push_check(checks, fail(name, ms.as_str()));
                    }
                },
                None => {
                    push_check(checks, ok(name, version.as_str()));
                },
            }
        },
        None => {
            let mut m: Vec<char> = chars_of("`");
            push_str(&mut m, name);
            if required {
                push_str(&mut m, "` not found in PATH");
                let ms = string_of(&m);
                push_check(checks, fail(name, ms.as_str()));
            } else {
                push_str(&mut m, "` not found yet");
                let ms = string_of(&m);
                push_check(checks, warn(name, ms.as_str()));
            }
        },
    }
}

/// What the daemon's health route answered.
#[derive(Debug, Clone)]
pub enum HealthProbe {
    /// The request failed.
    Unreachable { error: String },
    /// A non-success HTTP status.
    HttpError { status: String },
    /// The body was not JSON.
    InvalidJson { error: String },
    /// The `service` and `version` fields of the body, when strings.
    Answered { service: Option<String>, version: Option<String> },
}

pub open spec fn opt_string(o: Option<String>) -> Option<Seq<char>> {
    match o {
        Some(s) => Some(s@),
        None => None,
    }
}

/// The daemon diagnostic and whether the daemon is usable: it must be
/// `convergio` at exactly the expected version.
pub open spec fn daemon_check(h: HealthProbe, expected: Seq<char>) -> ((Seq<char>, CheckStatus, Seq<char>), bool) {
    match h {
        HealthProbe::Unreachable { error } => (("daemon"@, CheckStatus::Fail, "unreachable: "@ + error@), false),
        HealthProbe::HttpError { status } => (("daemon"@, CheckStatus::Fail, "HTTP "@ + status@), false),
        HealthProbe::InvalidJson { error } => (
            ("daemon"@, CheckStatus::Fail, "invalid health JSON: "@ + error@),
            false,
        ),
        HealthProbe::Answered { service, version } => {
            if opt_string(service) == Some("convergio"@) {
                let v = match version {
                    Some(v) => v@,
                    None => "?"@,
                };
                if v == expected {
                    (("daemon"@, CheckStatus::Pass, "version "@ + v), true)
                } else {
                    (("daemon"@, CheckStatus::Fail, "version "@ + v + "; expected "@ + expected), false)
                }
            } else {
                (("daemon"@, CheckStatus::Fail, "service is not convergio"@), false)
            }
        },
    }
}

fn prefixed(prefix: &str, s: &str) -> (r: String)
    ensures
        r@ == prefix@ + s@,
{
    let mut m: Vec<char> = chars_of(prefix);
    push_str(&mut m, s);
    string_of(&m)
}

/// Appends the daemon diagnostic; returns whether the daemon is usable.
pub fn check_daemon(checks: &mut Vec<DoctorCheck>, health: &HealthProbe, expected: &str) -> (usable: bool)
    ensures
        checks_view(final(checks)@) == checks_view(old(checks)@).push(daemon_check(*health, expected@).0),
        usable == daemon_check(*health, expected@).1,
{
    match health {
        HealthProbe::Unreachable { error } => {
            let m = prefixed("unreachable: ", error.as_str());
            push_check(checks, fail("daemon", m.as_str()));
            false
        },
        HealthProbe::HttpError { status } => {
            let m = prefixed("HTTP ", status.as_str());
            push_check(checks, fail("daemon", m.as_str()));
            false
        },
        HealthProbe::InvalidJson { error } => {
            let m = prefixed("invalid health JSON: ", error.as_str());
            push_check(checks, fail("daemon", m.as_str()));
            false
        },
        HealthProbe::Answered { service, version } => {
            let is_convergio = match service {
                Some(s) => crate::text::eq_str(&chars_of(s.as_str()), "convergio"),
                None => false,
            };
            if !is_convergio {
                push_check(checks, fail("daemon", "service is not convergio"));
                return false;
            }
            let v = match version {
                Some(v) => chars_of(v.as_str()),
                None => chars_of("?"),
            };
            let vs = string_of(&v);
            if crate::text::eq(&v, &chars_of(expected)) {
                let m = prefixed("version ", vs.as_str());
                push_check(checks, ok("daemon", m.as_str()));
                true
            } else {
                let mut m: Vec<char> = chars_of("version ");
                push_str(&mut m, vs.as_str());
                push_str(&mut m, "; expected ");
                push_str(&mut m, expected);
                let ms = string_of(&m);
                push_check(checks, fail("daemon", ms.as_str()));
                false
            }
        },
    }
}

/// What the audit verification route answered.
#[derive(Debug, Clone)]
pub enum AuditProbe {
    /// The chain verifies (`ok: true`).
    Verified,
    /// Any other answer, as JSON text.
    Failed { report: String },
    /// The request failed.
    Error { error: String },
}

/// The audit diagnostic: checked only when the daemon is usable.
pub open spec fn audit_check(daemon_usable: bool, a: AuditProbe) -> (Seq<char>, CheckStatus, Seq<char>) {
    if !daemon_usable {
        ("audit"@, CheckStatus::Warn, "skipped because daemon is not reachable"@)
    } else {
        match a {
            AuditProbe::Verified => ("audit"@, CheckStatus::Pass, "chain verifies"@),
            AuditProbe::Failed { report } => ("audit"@, CheckStatus::Fail, "chain failed: "@ + report@),
            AuditProbe::Error { error } => ("audit"@, CheckStatus::Fail, error@),
        }
    }
}

/// Appends the audit diagnostic (`audit` is only consulted when the
/// daemon is usable).
pub fn check_audit(checks: &mut Vec<DoctorCheck>, daemon_usable: bool, audit: &AuditProbe)
    ensures
        checks_view(final(checks)@) == checks_view(old(checks)@).push(audit_check(daemon_usable, *audit)),
{
    if !daemon_usable {
        push_check(checks, warn("audit", "skipped because daemon is not reachable"));
        return;
    }
    match audit {
        AuditProbe::Verified => push_check(checks, ok("audit", "chain verifies")),
        AuditProbe::Failed { report } => {
            let m = prefixed("chain failed: ", report.as_str());
            push_check(checks, fail("audit", m.as_str()));
        },
        AuditProbe::Error { error } => push_check(checks, fail("audit", error.as_str())),
    }
}

/// The doctor's report: healthy when no diagnostic fails.
#[derive(Debug)]
pub struct DoctorReport {
    pub ok: bool,
    pub url: String,
    pub checks: Vec<DoctorCheck>,
}

/// The report over `checks` for the daemon at `url`.
pub fn doctor_report(url: &str, checks: Vec<DoctorCheck>) -> (r: DoctorReport)
    ensures
        r.ok == (forall|i: int| 0 <= i < checks@.len() ==> checks@[i].status != CheckStatus::Fail),
        r.url@ == url@,
        r.checks@ == checks@,
{
    let mut all_ok = true;
    let mut i: usize = 0;
    while i < checks.len()
        invariant
            i <= checks.len(),
            all_ok == (forall|k: int| 0 <= k < i ==> checks@[k].status != CheckStatus::Fail),
        decreases checks.len() - i,
    {
        if checks[i].status == CheckStatus::Fail {
            all_ok = false;
        }
        i += 1;
    }
    DoctorReport { ok: all_ok, url: owned(url), checks }
}

/// The daemon is usable, and its check passes, exactly when it answers
/// as `convergio` with the expected version (a missing version reads as
/// `?`); a `convergio` daemon at any other version fails its check.
pub proof fn law_daemon_usable_only_at_expected_version(h: HealthProbe, expected: Seq<char>)
    ensures
        daemon_check(h, expected).1 <==> (h matches HealthProbe::Answered { service, version } && opt_string(service)
            == Some("convergio"@) && (opt_string(version) == Some(expected) || (version is None && expected
            == "?"@))),
        daemon_check(h, expected).0.1 == CheckStatus::Pass <==> daemon_check(h, expected).1,
        (h matches HealthProbe::Answered { service, version } && opt_string(service) == Some("convergio"@)
            && opt_string(version) is Some && opt_string(version) != Some(expected)) ==> daemon_check(h, expected).0.1
            == CheckStatus::Fail,
{
}

} // verus!
