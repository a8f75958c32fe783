//! The user-level daemon service: where its definition lives, what it
//! contains, and which service-manager commands start, stop and query
//! it, for launchd (macOS) and systemd (Linux).
use vstd::prelude::*;
use crate::text::{chars_of, ends_with, push_str, string_of};

verus! {

/// launchd label of the service.
pub const LABEL: &'static str = "com.convergio.v3";

/// systemd unit name of the service.
pub const SERVICE: &'static str = "convergio.service";

/// Service manager in charge.
#[derive(Debug, Clone, Copy, PartialEq, Eq, Structural)]
pub enum ServiceKind {
    Launchd,
    Systemd,
}

/// Operating system the command runs on.
#[derive(Debug, Clone, Copy, PartialEq, Eq, Structural)]
pub enum TargetOs {
    MacOs,
    Linux,
    Other,
}

/// User service management exists on macOS and Linux only.
#[derive(Debug, Clone, Copy, PartialEq, Eq, Structural)]
pub struct UnsupportedPlatform;

/// The service definition for this user.
#[derive(Debug, Clone)]
pub struct ServiceSpec {
    pub kind: ServiceKind,
    /// Where the definition file goes.
    pub path: String,
    /// The definition file's content.
    pub content: String,
}

/// A service-manager command line.
#[derive(Debug, Clone)]
pub struct CommandLine {
    pub program: &'static str,
    pub args: Vec<String>,
}

/// `Path::join` with a relative path: a `/` is inserted unless `base`
/// is empty or already ends with one.
pub open spec fn join_path(base: Seq<char>, rel: Seq<char>) -> Seq<char> {
    if base.len() == 0 || ends_with(base, "/"@) {
        base + rel
    } else {
        base + "/"@ + rel
    }
}

/// The launchd property list: runs `<binary> start` at load, kept alive,
/// logging under `~/.convergio`.
pub open spec fn launchd_plist_spec(binary: Seq<char>, home: Seq<char>) -> Seq<char> {
    "<?xml version=\"1.0\" encoding=\"UTF-8\"?>\n<!DOCTYPE plist PUBLIC \"-//Apple//DTD PLIST 1.0//EN\" \"http://www.apple.com/DTDs/PropertyList-1.0.dtd\">\n<plist version=\"1.0\"><dict>\n  <key>Label</key><string>"@
        + LABEL@ + "</string>\n  <key>ProgramArguments</key><array><string>"@ + binary
        + "</string><string>start</string></array>\n  <key>RunAtLoad</key><true/>\n  <key>KeepAlive</key><true/>\n  <key>StandardOutPath</key><string>"@
        + join_path(home, ".convergio/convergio.log"@) + "</string>\n  <key>StandardErrorPath</key><string>"@
        + join_path(home, ".convergio/convergio.err.log"@) + "</string>\n</dict></plist>\n"@
}

/// The systemd user unit running `<binary> start`.
pub open spec fn systemd_unit_spec(binary: Seq<char>) -> Seq<char> {
    "[Unit]\nDescription=Convergio local daemon\n\n[Service]\nExecStart="@ + binary
        + " start\nRestart=on-failure\n\n[Install]\nWantedBy=default.target\n"@
}

fn join_into(out: &mut Vec<char>, base: &str, rel: &str)
    ensures
        final(out)@ == old(out)@ + join_path(base@, rel@),
{
    let b = chars_of(base);
    push_str(out, base);
    if b.len() > 0 && !crate::text::has_suffix(&b, "/") {
        push_str(out, "/");
    }
    push_str(out, rel);
}

fn join_str(base: &str, rel: &str) -> (r: String)
    ensures
        r@ == join_path(base@, rel@),
{
    let mut out: Vec<char> = Vec::new();
    join_into(&mut out, base, rel);
    assert(out@ =~= join_path(base@, rel@));
    string_of(&out)
}

/// The launchd property list for `binary`, logging under `home`.
pub fn launchd_plist(binary: &str, home: &str) -> (r: String)
    ensures
        r@ == launchd_plist_spec(binary@, home@),
{
    let out_log = join_str(home, ".convergio/convergio.log");
    let err_log = join_str(home, ".convergio/convergio.err.log");
    let mut out: Vec<char> = Vec::new();
    push_str(
        &mut out,
        "<?xml version=\"1.0\" encoding=\"UTF-8\"?>\n<!DOCTYPE plist PUBLIC \"-//Apple//DTD PLIST 1.0//EN\" \"http://www.apple.com/DTDs/PropertyList-1.0.dtd\">\n<plist version=\"1.0\"><dict>\n  <key>Label</key><string>",
    );
    push_str(&mut out, LABEL);
    push_str(&mut out, "</string>\n  <key>ProgramArguments</key><array><string>");
    push_str(&mut out, binary);
    push_str(
        &mut out,
        "</string><string>start</string></array>\n  <key>RunAtLoad</key><true/>\n  <key>KeepAlive</key><true/>\n  <key>StandardOutPath</key><string>",
    );
    push_str(&mut out, out_log.as_str());
    push_str(&mut out, "</string>\n  <key>StandardErrorPath</key><string>");
    push_str(&mut out, err_log.as_str());
    push_str(&mut out, "</string>\n</dict></plist>\n");
    assert(out@ =~= launchd_plist_spec(binary@, home@));
    string_of(&out)
}

/// The systemd user unit for `binary`.
pub fn systemd_unit(binary: &str) -> (r: String)
    ensures
        r@ == systemd_unit_spec(binary@),
{
    let mut out: Vec<char> = Vec::new();
    push_str(&mut out, "[Unit]\nDescription=Convergio local daemon\n\n[Service]\nExecStart=");
    push_str(&mut out, binary);
    push_str(&mut out, " start\nRestart=on-failure\n\n[Install]\nWantedBy=default.target\n");
    assert(out@ =~= systemd_unit_spec(binary@));
    string_of(&out)
}

fn owned(s: &str) -> (r: String)
    ensures
        r@ == s@,
{
    string_of(&chars_of(s))
}

impl ServiceSpec {
    /// The service for this platform, for the user whose home is `home`
    /// and the daemon binary found at `binary`: a launchd agent under
    /// `~/Library/LaunchAgents` on macOS, a systemd user unit under
    /// `~/.config/systemd/user` on Linux, an error elsewhere.
    pub fn current(os: TargetOs, home: &str, binary: &str) -> (r: Result<ServiceSpec, UnsupportedPlatform>)
        ensures
            os == TargetOs::Other <==> r is Err,
            os == TargetOs::MacOs ==> (r matches Ok(s) && s.kind == ServiceKind::Launchd && s.path@ == join_path(
                join_path(home@, "Library/LaunchAgents"@),
                "com.convergio.v3.plist"@,
            ) && s.content@ == launchd_plist_spec(binary@, home@)),
            os == TargetOs::Linux ==> (r matches Ok(s) && s.kind == ServiceKind::Systemd && s.path@ == join_path(
                join_path(home@, ".config/systemd/user"@),
                SERVICE@,
            ) && s.content@ == systemd_unit_spec(binary@)),
    {
        match os {
            TargetOs::MacOs => {
                let dir = join_str(home, "Library/LaunchAgents");
                let mut file: Vec<char> = Vec::new();
                push_str(&mut file, LABEL);
                push_str(&mut file, ".plist");
                proof {
                    reveal_strlit("com.convergio.v3");
                    reveal_strlit(".plist");
                    reveal_strlit("com.convergio.v3.plist");
                    assert(file@ =~= "com.convergio.v3.plist"@);
                }
                let fname = string_of(&file);
                let path = join_str(dir.as_str(), fname.as_str());
                Ok(ServiceSpec { kind: ServiceKind::Launchd, path, content: launchd_plist(binary, home) })
            },
            TargetOs::Linux => {
                let dir = join_str(home, ".config/systemd/user");
                let path = join_str(dir.as_str(), SERVICE);
                Ok(ServiceSpec { kind: ServiceKind::Systemd, path, content: systemd_unit(binary) })
            },
            TargetOs::Other => Err(UnsupportedPlatform),
        }
    }

    /// Commands that start or reload the service (after the definition
    /// is installed): `launchctl bootstrap gui/<uid> <path>`, or a
    /// systemd daemon reload followed by `enable --now`.
    pub fn start(&self, uid: &str) -> (r: Vec<CommandLine>)
        ensures
            self.kind == ServiceKind::Launchd ==> r@.len() == 1 && r@[0].program@ == "launchctl"@
                && crate::text::string_views(r@[0].args@) == seq!["bootstrap"@, "gui/"@ + uid@, self.path@],
            self.kind == ServiceKind::Systemd ==> r@.len() == 2 && r@[0].program@ == "systemctl"@
                && crate::text::string_views(r@[0].args@) == seq!["--user"@, "daemon-reload"@] && r@[1].program@
                == "systemctl"@ && crate::text::string_views(r@[1].args@) == seq![
                "--user"@,
                "enable"@,
                "--now"@,
                SERVICE@,
            ],
    {
        match self.kind {
            ServiceKind::Launchd => {
                let mut gui: Vec<char> = chars_of("gui/");
                crate::text::push_all(&mut gui, &chars_of(uid));
                let args = vec![owned("bootstrap"), string_of(&gui), owned(self.path.as_str())];
                assert(crate::text::string_views(args@) =~= seq!["bootstrap"@, "gui/"@ + uid@, self.path@]);
                vec![CommandLine { program: "launchctl", args }]
            },
            ServiceKind::Systemd => {
                let a1 = vec![owned("--user"), owned("daemon-reload")];
                let a2 = vec![owned("--user"), owned("enable"), owned("--now"), owned(SERVICE)];
                assert(crate::text::string_views(a1@) =~= seq!["--user"@, "daemon-reload"@]);
                assert(crate::text::string_views(a2@) =~= seq!["--user"@, "enable"@, "--now"@, SERVICE@]);
                vec![CommandLine { program: "systemctl", args: a1 }, CommandLine { program: "systemctl", args: a2 }]
            },
        }
    }

    /// The command that stops the service: `launchctl bootout
    /// gui/<uid> <path>` or `systemctl --user stop convergio.service`.
    pub fn stop(&self, uid: &str) -> (r: CommandLine)
        ensures
            self.kind == ServiceKind::Launchd ==> r.program@ == "launchctl"@ && crate::text::string_views(r.args@)
                == seq!["bootout"@, "gui/"@ + uid@, self.path@],
            self.kind == ServiceKind::Systemd ==> r.program@ == "systemctl"@ && crate::text::string_views(r.args@)
                == seq!["--user"@, "stop"@, SERVICE@],
    {
        match self.kind {
            ServiceKind::Launchd => {
                let mut gui: Vec<char> = chars_of("gui/");
                crate::text::push_all(&mut gui, &chars_of(uid));
                let args = vec![owned("bootout"), string_of(&gui), owned(self.path.as_str())];
                assert(crate::text::string_views(args@) =~= seq!["bootout"@, "gui/"@ + uid@, self.path@]);
                CommandLine { program: "launchctl", args }
            },
            ServiceKind::Systemd => {
                let args = vec![owned("--user"), owned("stop"), owned(SERVICE)];
                assert(crate::text::string_views(args@) =~= seq!["--user"@, "stop"@, SERVICE@]);
                CommandLine { program: "systemctl", args }
            },
        }
    }

    /// The command whose success means the service is loaded:
    /// `launchctl print gui/<uid>/com.convergio.v3` or `systemctl --user
    /// is-active --quiet convergio.service`.
    pub fn is_loaded(&self, uid: &str) -> (r: CommandLine)
        ensures
            self.kind == ServiceKind::Launchd ==> r.program@ == "launchctl"@ && crate::text::string_views(r.args@)
                == seq!["print"@, "gui/"@ + uid@ + "/"@ + LABEL@],
            self.kind == ServiceKind::Systemd ==> r.program@ == "systemctl"@ && crate::text::string_views(r.args@)
                == seq!["--user"@, "is-active"@, "--quiet"@, SERVICE@],
    {
        match self.kind {
            ServiceKind::Launchd => {
                let mut target: Vec<char> = chars_of("gui/");
                crate::text::push_all(&mut target, &chars_of(uid));
                push_str(&mut target, "/");
                push_str(&mut target, LABEL);
                let args = vec![owned("print"), string_of(&target)];
                assert(crate::text::string_views(args@) =~= seq!["print"@, "gui/"@ + uid@ + "/"@ + LABEL@]);
                CommandLine { program: "launchctl", args }
            },
            ServiceKind::Systemd => {
                let args = vec![owned("--user"), owned("is-active"), owned("--quiet"), owned(SERVICE)];
                assert(crate::text::string_views(args@) =~= seq!["--user"@, "is-active"@, "--quiet"@, SERVICE@]);
                CommandLine { program: "systemctl", args }
            },
        }
    }
}

} // verus!
