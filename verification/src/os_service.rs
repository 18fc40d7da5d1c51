//! The background service: what each platform's service manager is asked
//! to do to install, start, stop, remove or query MemX, and the unit file,
//! property list and task command it is given.
//!
//! The functions here plan the work as a list of steps; running commands
//! and touching files is left to the caller.

use vstd::prelude::*;
use crate::config::is_non_blank;
use crate::paths::{join_path, spec_join};
use crate::text::{chars_of, push_all, push_str, string_of, string_views, trim, trim_chars};

verus! {

/// The operating system the service runs on.
#[derive(Debug, Clone, Copy, PartialEq, Eq, Structural)]
pub enum Platform {
    MacOs,
    Linux,
    Windows,
    Other,
}

/// A program to run with its arguments.
#[derive(Debug, Clone)]
pub struct ServiceCommand {
    pub program: String,
    pub args: Vec<String>,
}

/// One piece of work on the service's files or manager.
#[derive(Debug, Clone)]
pub enum ServiceStep {
    /// Create a directory and its parents.
    CreateDirAll { path: String },
    /// Write a file, replacing it.
    WriteFile { path: String, contents: String },
    /// Delete a file if it is there.
    RemoveFileIfExists { path: String },
    /// Run a command; when `must_succeed` a failure stops the work, otherwise
    /// it is ignored.
    Run { command: ServiceCommand, must_succeed: bool },
}

/// How to tell whether the service is installed.
#[derive(Debug, Clone)]
pub enum InstalledCheck {
    /// Installed when this file exists.
    FileExists { path: String },
    /// Installed when this command succeeds.
    CommandSucceeds { command: ServiceCommand },
    /// Never installed on this platform.
    NotSupported,
}

/// The service is not supported on this platform.
#[derive(Debug, Clone, Copy, PartialEq, Eq, Structural)]
pub struct UnsupportedPlatform;

/// What a step is, with its text as character sequences.
pub enum StepView {
    CreateDirAll(Seq<char>),
    WriteFile(Seq<char>, Seq<char>),
    RemoveFileIfExists(Seq<char>),
    Run(Seq<char>, Seq<Seq<char>>, bool),
}

/// The view of a step.
pub open spec fn step_view(s: ServiceStep) -> StepView {
    match s {
        ServiceStep::CreateDirAll { path } => StepView::CreateDirAll(path@),
        ServiceStep::WriteFile { path, contents } => StepView::WriteFile(path@, contents@),
        ServiceStep::RemoveFileIfExists { path } => StepView::RemoveFileIfExists(path@),
        ServiceStep::Run { command, must_succeed } => StepView::Run(
            command.program@,
            string_views(command.args@),
            must_succeed,
        ),
    }
}

/// The views of a list of steps.
pub open spec fn steps_view(v: Seq<ServiceStep>) -> Seq<StepView> {
    v.map_values(|x: ServiceStep| step_view(x))
}

/// A command step.
pub open spec fn run(program: Seq<char>, args: Seq<Seq<char>>, must_succeed: bool) -> StepView {
    StepView::Run(program, args, must_succeed)
}

/// What the caller knows of its surroundings: the platform, the user's home
/// directory and, on macOS, the launchd domain of the user.
pub struct ServiceContext {
    pub platform: Platform,
    pub home_dir: String,
    pub launchctl_target: String,
}

// ── Names ──────────────────────────────────────────────────────────────────

/// The name of the service manager used on a platform.
pub fn service_manager_name(platform: Platform) -> (r: &'static str)
    ensures
        r@ == match platform {
            Platform::MacOs => "launchd"@,
            Platform::Linux => "systemd --user"@,
            Platform::Windows => "Task Scheduler"@,
            Platform::Other => "unsupported"@,
        },
{
    match platform {
        Platform::MacOs => "launchd",
        Platform::Linux => "systemd --user",
        Platform::Windows => "Task Scheduler",
        Platform::Other => "unsupported",
    }
}

/// The systemd unit name.
pub fn linux_service_name() -> (r: &'static str)
    ensures
        r@ == "memx.service"@,
{
    "memx.service"
}

/// The launchd label.
pub fn macos_label() -> (r: &'static str)
    ensures
        r@ == "com.memx.memx"@,
{
    "com.memx.memx"
}

/// The scheduled task name.
pub fn windows_task_name() -> (r: &'static str)
    ensures
        r@ == "MemX"@,
{
    "MemX"
}

/// The command whose output is the user's numeric id (for the launchd
/// domain).
pub fn user_id_command() -> (r: ServiceCommand)
    ensures
        r.program@ == "id"@,
        string_views(r.args@) == seq!["-u"@],
{
    let mut args: Vec<String> = Vec::new();
    args.push("-u".to_owned());
    assert(string_views(args@) =~= seq!["-u"@]);
    ServiceCommand { program: "id".to_owned(), args }
}

/// The launchd domain of the user whose id command printed `uid_output`.
pub fn macos_launchctl_target(uid_output: &str) -> (r: String)
    ensures
        r@ == "gui/"@ + trim(uid_output@),
{
    let v = chars_of(uid_output);
    let t = trim_chars(&v);
    let mut out: Vec<char> = Vec::new();
    push_str(&mut out, "gui/");
    push_all(&mut out, &t);
    string_of(&out)
}

// ── Escaping ───────────────────────────────────────────────────────────────

/// `s` with backslashes and double quotes escaped by a backslash.
pub open spec fn spec_systemd_escape(s: Seq<char>) -> Seq<char>
    decreases s.len(),
{
    if s.len() == 0 {
        Seq::empty()
    } else {
        spec_systemd_escape(s.drop_last()) + if s.last() == '\\' {
            seq!['\\', '\\']
        } else if s.last() == '"' {
            seq!['\\', '"']
        } else {
            seq![s.last()]
        }
    }
}

/// Escapes a path for a quoted value in a systemd unit.
pub fn systemd_escape(path: &str) -> (r: String)
    ensures
        r@ == spec_systemd_escape(path@),
{
    let v = chars_of(path);
    let mut out: Vec<char> = Vec::new();
    let mut i: usize = 0;
    while i < v.len()
        invariant
            0 <= i <= v.len(),
            out@ == spec_systemd_escape(v@.take(i as int)),
        decreases v.len() - i,
    {
        assert(v@.take(i + 1).drop_last() =~= v@.take(i as int));
        let c = v[i];
        if c == '\\' {
            out.push('\\');
            out.push('\\');
        } else if c == '"' {
            out.push('\\');
            out.push('"');
        } else {
            out.push(c);
        }
        i = i + 1;
        assert(out@ =~= spec_systemd_escape(v@.take(i as int)));
    }
    assert(v@.take(v@.len() as int) =~= v@);
    string_of(&out)
}

/// The XML escape of one character.
pub open spec fn xml_char(c: char) -> Seq<char> {
    if c == '&' {
        "&amp;"@
    } else if c == '<' {
        "&lt;"@
    } else if c == '>' {
        "&gt;"@
    } else if c == '"' {
        "&quot;"@
    } else if c == '\'' {
        "&apos;"@
    } else {
        seq![c]
    }
}

/// `s` with `&`, `<`, `>`, `"` and `'` replaced by their XML entities.
pub open spec fn spec_xml_escape(s: Seq<char>) -> Seq<char>
    decreases s.len(),
{
    if s.len() == 0 {
        Seq::empty()
    } else {
        spec_xml_escape(s.drop_last()) + xml_char(s.last())
    }
}

/// Escapes text for an XML element.
pub fn xml_escape(value: &str) -> (r: String)
    ensures
        r@ == spec_xml_escape(value@),
{
    let v = chars_of(value);
    let mut out: Vec<char> = Vec::new();
    let mut i: usize = 0;
    while i < v.len()
        invariant
            0 <= i <= v.len(),
            out@ == spec_xml_escape(v@.take(i as int)),
        decreases v.len() - i,
    {
        assert(v@.take(i + 1).drop_last() =~= v@.take(i as int));
        let c = v[i];
        let ghost before = out@;
        if c == '&' {
            push_str(&mut out, "&amp;");
        } else if c == '<' {
            push_str(&mut out, "&lt;");
        } else if c == '>' {
            push_str(&mut out, "&gt;");
        } else if c == '"' {
            push_str(&mut out, "&quot;");
        } else if c == '\'' {
            push_str(&mut out, "&apos;");
        } else {
            out.push(c);
        }
        i = i + 1;
        assert(out@ =~= spec_xml_escape(v@.take(i as int)));
    }
    assert(v@.take(v@.len() as int) =~= v@);
    string_of(&out)
}

// ── Service definitions ────────────────────────────────────────────────────

/// The systemd user unit that runs `memx serve` from `binary` with
/// `MEMX_HOME` set to `home`, restarting it when it stops.
pub open spec fn spec_linux_unit(binary: Seq<char>, home: Seq<char>) -> Seq<char> {
    "[Unit]\nDescription=MemX background service\nAfter=network-online.target\nWants=network-online.target\n\n[Service]\nType=simple\nEnvironment=\"MEMX_HOME="@
        + spec_systemd_escape(home) + "\"\nExecStart=\""@ + spec_systemd_escape(binary)
        + "\" serve\nRestart=always\nRestartSec=3\n\n[Install]\nWantedBy=default.target\n"@
}

/// Renders the systemd unit.
pub fn render_linux_unit(binary_path: &str, memx_home: &str) -> (r: String)
    ensures
        r@ == spec_linux_unit(binary_path@, memx_home@),
{
    let mut out: Vec<char> = Vec::new();
    push_str(
        &mut out,
        "[Unit]\nDescription=MemX background service\nAfter=network-online.target\nWants=network-online.target\n\n[Service]\nType=simple\nEnvironment=\"MEMX_HOME=",
    );
    let h = systemd_escape(memx_home);
    push_str(&mut out, h.as_str());
    push_str(&mut out, "\"\nExecStart=\"");
    let b = systemd_escape(binary_path);
    push_str(&mut out, b.as_str());
    push_str(&mut out, "\" serve\nRestart=always\nRestartSec=3\n\n[Install]\nWantedBy=default.target\n");
    string_of(&out)
}

/// The launchd property list that runs `memx serve` from `binary` at login
/// with `MEMX_HOME` set to `home`, keeping it alive and logging under
/// `home/logs`.
pub open spec fn spec_macos_plist(binary: Seq<char>, home: Seq<char>) -> Seq<char> {
    "<?xml version=\"1.0\" encoding=\"UTF-8\"?>\n<!DOCTYPE plist PUBLIC \"-//Apple//DTD PLIST 1.0//EN\" \"http://www.apple.com/DTDs/PropertyList-1.0.dtd\">\n<plist version=\"1.0\">\n<dict>\n  <key>Label</key>\n  <string>"@
        + spec_xml_escape("com.memx.memx"@)
        + "</string>\n  <key>ProgramArguments</key>\n  <array>\n    <string>"@ + spec_xml_escape(binary)
        + "</string>\n    <string>serve</string>\n  </array>\n  <key>EnvironmentVariables</key>\n  <dict>\n    <key>MEMX_HOME</key>\n    <string>"@
        + spec_xml_escape(home)
        + "</string>\n  </dict>\n  <key>RunAtLoad</key>\n  <true/>\n  <key>KeepAlive</key>\n  <true/>\n  <key>StandardOutPath</key>\n  <string>"@
        + spec_xml_escape(spec_join(home, "logs/memx-service.out.log"@, false))
        + "</string>\n  <key>StandardErrorPath</key>\n  <string>"@ + spec_xml_escape(
        spec_join(home, "logs/memx-service.err.log"@, false),
    ) + "</string>\n</dict>\n</plist>\n"@
}

/// Renders the launchd property list.
pub fn render_macos_plist(binary_path: &str, memx_home: &str) -> (r: String)
    ensures
        r@ == spec_macos_plist(binary_path@, memx_home@),
{
    let stdout_path = join_path(memx_home, "logs/memx-service.out.log", false);
    let stderr_path = join_path(memx_home, "logs/memx-service.err.log", false);
    let mut out: Vec<char> = Vec::new();
    push_str(
        &mut out,
        "<?xml version=\"1.0\" encoding=\"UTF-8\"?>\n<!DOCTYPE plist PUBLIC \"-//Apple//DTD PLIST 1.0//EN\" \"http://www.apple.com/DTDs/PropertyList-1.0.dtd\">\n<plist version=\"1.0\">\n<dict>\n  <key>Label</key>\n  <string>",
    );
    let label = xml_escape(macos_label());
    push_str(&mut out, label.as_str());
    push_str(&mut out, "</string>\n  <key>ProgramArguments</key>\n  <array>\n    <string>");
    let b = xml_escape(binary_path);
    push_str(&mut out, b.as_str());
    push_str(
        &mut out,
        "</string>\n    <string>serve</string>\n  </array>\n  <key>EnvironmentVariables</key>\n  <dict>\n    <key>MEMX_HOME</key>\n    <string>",
    );
    let h = xml_escape(memx_home);
    push_str(&mut out, h.as_str());
    push_str(
        &mut out,
        "</string>\n  </dict>\n  <key>RunAtLoad</key>\n  <true/>\n  <key>KeepAlive</key>\n  <true/>\n  <key>StandardOutPath</key>\n  <string>",
    );
    let so = xml_escape(stdout_path.as_str());
    push_str(&mut out, so.as_str());
    push_str(&mut out, "</string>\n  <key>StandardErrorPath</key>\n  <string>");
    let se = xml_escape(stderr_path.as_str());
    push_str(&mut out, se.as_str());
    push_str(&mut out, "</string>\n</dict>\n</plist>\n");
    string_of(&out)
}

/// The command the Windows task runs: `memx serve` from `binary` under
/// `cmd.exe`, with `MEMX_HOME` set to `home`; the whole command is quoted
/// once for `cmd.exe /C`, and the assignment and the binary each in turn.
pub open spec fn spec_windows_task_command(binary: Seq<char>, home: Seq<char>) -> Seq<char> {
    "cmd.exe /C \"set \"MEMX_HOME="@ + home + "\" && \""@ + binary + "\" serve\""@
}

/// Renders the Windows task command.
pub fn windows_task_command(binary_path: &str, memx_home: &str) -> (r: String)
    ensures
        r@ == spec_windows_task_command(binary_path@, memx_home@),
{
    let mut out: Vec<char> = Vec::new();
    push_str(&mut out, "cmd.exe /C \"set \"MEMX_HOME=");
    push_str(&mut out, memx_home);
    push_str(&mut out, "\" && \"");
    push_str(&mut out, binary_path);
    push_str(&mut out, "\" serve\"");
    string_of(&out)
}


// ── Plans ──────────────────────────────────────────────────────────────────

/// The directory of the systemd user unit.
pub open spec fn spec_linux_unit_dir(home: Seq<char>) -> Seq<char> {
    spec_join(home, ".config/systemd/user"@, false)
}

/// The path of the systemd user unit.
pub open spec fn spec_linux_unit_path(home: Seq<char>) -> Seq<char> {
    spec_join(spec_linux_unit_dir(home), "memx.service"@, false)
}

/// The directory of the launchd property list.
pub open spec fn spec_plist_dir(home: Seq<char>) -> Seq<char> {
    spec_join(home, "Library/LaunchAgents"@, false)
}

/// The path of the launchd property list.
pub open spec fn spec_plist_path(home: Seq<char>) -> Seq<char> {
    spec_join(spec_plist_dir(home), "com.memx.memx.plist"@, false)
}

/// The launchd service target in the user's domain.
pub open spec fn spec_service_target(target: Seq<char>) -> Seq<char> {
    target + "/"@ + "com.memx.memx"@
}

fn push_arg(v: &mut Vec<String>, a: &str)
    ensures
        string_views(final(v)@) == string_views(old(v)@).push(a@),
{
    let ghost before = v@;
    v.push(a.to_owned());
    assert(string_views(v@) =~= string_views(before).push(a@));
}

fn args_of(a: &str, b: &str, c: &str) -> (r: Vec<String>)
    ensures
        string_views(r@) == seq![a@, b@, c@],
{
    let mut v: Vec<String> = Vec::new();
    push_arg(&mut v, a);
    push_arg(&mut v, b);
    push_arg(&mut v, c);
    assert(string_views(v@) =~= seq![a@, b@, c@]);
    v
}

fn run_step(program: &str, args: Vec<String>, must_succeed: bool) -> (r: ServiceStep)
    ensures
        step_view(r) == run(program@, string_views(args@), must_succeed),
{
    ServiceStep::Run { command: ServiceCommand { program: program.to_owned(), args }, must_succeed }
}

fn service_target(target: &str) -> (r: String)
    ensures
        r@ == spec_service_target(target@),
{
    let mut out: Vec<char> = Vec::new();
    push_str(&mut out, target);
    push_str(&mut out, "/");
    push_str(&mut out, macos_label());
    string_of(&out)
}

fn linux_unit_dir(home: &str) -> (r: String)
    ensures
        r@ == spec_linux_unit_dir(home@),
{
    join_path(home, ".config/systemd/user", false)
}

fn linux_unit_path(home: &str) -> (r: String)
    ensures
        r@ == spec_linux_unit_path(home@),
{
    let d = linux_unit_dir(home);
    join_path(d.as_str(), linux_service_name(), false)
}

fn plist_path(home: &str) -> (r: String)
    ensures
        r@ == spec_plist_path(home@),
{
    let d = join_path(home, "Library/LaunchAgents", false);
    join_path(d.as_str(), "com.memx.memx.plist", false)
}

/// The steps that start the service.
pub open spec fn spec_start_plan(p: Platform, target: Seq<char>) -> Option<Seq<StepView>> {
    match p {
        Platform::Linux => Some(seq![run("systemctl"@, seq!["--user"@, "restart"@, "memx.service"@], true)]),
        Platform::MacOs => Some(seq![run("launchctl"@, seq!["kickstart"@, "-k"@, spec_service_target(target)], true)]),
        Platform::Windows => Some(seq![run("schtasks"@, seq!["/Run"@, "/TN"@, "MemX"@], true)]),
        Platform::Other => None,
    }
}

/// Plans starting (or restarting) the service.
pub fn start(ctx: &ServiceContext) -> (r: Result<Vec<ServiceStep>, UnsupportedPlatform>)
    ensures
        match r {
            Ok(steps) => spec_start_plan(ctx.platform, ctx.launchctl_target@) == Some(steps_view(steps@)),
            Err(_) => spec_start_plan(ctx.platform, ctx.launchctl_target@) is None,
        },
{
    let step = match ctx.platform {
        Platform::Linux => run_step("systemctl", args_of("--user", "restart", "memx.service"), true),
        Platform::MacOs => {
            let t = service_target(ctx.launchctl_target.as_str());
            run_step("launchctl", args_of("kickstart", "-k", t.as_str()), true)
        },
        Platform::Windows => run_step("schtasks", args_of("/Run", "/TN", "MemX"), true),
        Platform::Other => {
            return Err(UnsupportedPlatform);
        },
    };
    let mut steps: Vec<ServiceStep> = Vec::new();
    steps.push(step);
    assert(steps_view(steps@) =~= spec_start_plan(ctx.platform, ctx.launchctl_target@)->0);
    Ok(steps)
}


/// The steps that stop the service.
pub open spec fn spec_stop_plan(p: Platform, target: Seq<char>) -> Option<Seq<StepView>> {
    match p {
        Platform::Linux => Some(seq![run("systemctl"@, seq!["--user"@, "stop"@, "memx.service"@], true)]),
        Platform::MacOs => Some(seq![run("launchctl"@, seq!["bootout"@, target, spec_service_target(target)], true)]),
        Platform::Windows => Some(seq![run("schtasks"@, seq!["/End"@, "/TN"@, "MemX"@], true)]),
        Platform::Other => None,
    }
}

/// Plans stopping the service.
pub fn stop(ctx: &ServiceContext) -> (r: Result<Vec<ServiceStep>, UnsupportedPlatform>)
    ensures
        match r {
            Ok(steps) => spec_stop_plan(ctx.platform, ctx.launchctl_target@) == Some(steps_view(steps@)),
            Err(_) => spec_stop_plan(ctx.platform, ctx.launchctl_target@) is None,
        },
{
    let step = match ctx.platform {
        Platform::Linux => run_step("systemctl", args_of("--user", "stop", "memx.service"), true),
        Platform::MacOs => {
            let t = service_target(ctx.launchctl_target.as_str());
            run_step("launchctl", args_of("bootout", ctx.launchctl_target.as_str(), t.as_str()), true)
        },
        Platform::Windows => run_step("schtasks", args_of("/End", "/TN", "MemX"), true),
        Platform::Other => {
            return Err(UnsupportedPlatform);
        },
    };
    let mut steps: Vec<ServiceStep> = Vec::new();
    steps.push(step);
    assert(steps_view(steps@) =~= spec_stop_plan(ctx.platform, ctx.launchctl_target@)->0);
    Ok(steps)
}

/// The command whose output is the service's status.
pub open spec fn spec_status_command(p: Platform, target: Seq<char>) -> Option<(Seq<char>, Seq<Seq<char>>)> {
    match p {
        Platform::Linux => Some(("systemctl"@, seq!["--user"@, "--no-pager"@, "--full"@, "status"@, "memx.service"@])),
        Platform::MacOs => Some(("launchctl"@, seq!["print"@, spec_service_target(target)])),
        Platform::Windows => Some(("schtasks"@, seq!["/Query"@, "/TN"@, "MemX"@, "/FO"@, "LIST"@])),
        Platform::Other => None,
    }
}

/// The command whose output reports the service's status.
pub fn status(ctx: &ServiceContext) -> (r: Result<ServiceCommand, UnsupportedPlatform>)
    ensures
        match r {
            Ok(c) => spec_status_command(ctx.platform, ctx.launchctl_target@) == Some((c.program@, string_views(c.args@))),
            Err(_) => spec_status_command(ctx.platform, ctx.launchctl_target@) is None,
        },
{
    let mut args: Vec<String> = Vec::new();
    match ctx.platform {
        Platform::Linux => {
            push_arg(&mut args, "--user");
            push_arg(&mut args, "--no-pager");
            push_arg(&mut args, "--full");
            push_arg(&mut args, "status");
            push_arg(&mut args, "memx.service");
            assert(string_views(args@) =~= seq!["--user"@, "--no-pager"@, "--full"@, "status"@, "memx.service"@]);
            Ok(ServiceCommand { program: "systemctl".to_owned(), args })
        },
        Platform::MacOs => {
            let t = service_target(ctx.launchctl_target.as_str());
            push_arg(&mut args, "print");
            push_arg(&mut args, t.as_str());
            assert(string_views(args@) =~= seq!["print"@, spec_service_target(ctx.launchctl_target@)]);
            Ok(ServiceCommand { program: "launchctl".to_owned(), args })
        },
        Platform::Windows => {
            push_arg(&mut args, "/Query");
            push_arg(&mut args, "/TN");
            push_arg(&mut args, "MemX");
            push_arg(&mut args, "/FO");
            push_arg(&mut args, "LIST");
            assert(string_views(args@) =~= seq!["/Query"@, "/TN"@, "MemX"@, "/FO"@, "LIST"@]);
            Ok(ServiceCommand { program: "schtasks".to_owned(), args })
        },
        Platform::Other => Err(UnsupportedPlatform),
    }
}

/// How to tell whether the service is installed.
pub open spec fn spec_installed_check(p: Platform, home: Seq<char>) -> InstalledCheckView {
    match p {
        Platform::Linux => InstalledCheckView::FileExists(spec_linux_unit_path(home)),
        Platform::MacOs => InstalledCheckView::FileExists(spec_plist_path(home)),
        Platform::Windows => InstalledCheckView::CommandSucceeds("schtasks"@, seq!["/Query"@, "/TN"@, "MemX"@]),
        Platform::Other => InstalledCheckView::NotSupported,
    }
}

/// What an installed check is, with its text as character sequences.
pub enum InstalledCheckView {
    FileExists(Seq<char>),
    CommandSucceeds(Seq<char>, Seq<Seq<char>>),
    NotSupported,
}

/// The view of an installed check.
pub open spec fn installed_check_view(c: InstalledCheck) -> InstalledCheckView {
    match c {
        InstalledCheck::FileExists { path } => InstalledCheckView::FileExists(path@),
        InstalledCheck::CommandSucceeds { command } => InstalledCheckView::CommandSucceeds(command.program@, string_views(command.args@)),
        InstalledCheck::NotSupported => InstalledCheckView::NotSupported,
    }
}

/// Says how to tell whether the service is installed: its definition file
/// exists (Linux, macOS) or its task can be queried (Windows).
pub fn is_installed(ctx: &ServiceContext) -> (r: InstalledCheck)
    ensures
        installed_check_view(r) == spec_installed_check(ctx.platform, ctx.home_dir@),
{
    match ctx.platform {
        Platform::Linux => InstalledCheck::FileExists { path: linux_unit_path(ctx.home_dir.as_str()) },
        Platform::MacOs => InstalledCheck::FileExists { path: plist_path(ctx.home_dir.as_str()) },
        Platform::Windows => InstalledCheck::CommandSucceeds {
            command: ServiceCommand { program: "schtasks".to_owned(), args: args_of("/Query", "/TN", "MemX") },
        },
        Platform::Other => InstalledCheck::NotSupported,
    }
}

/// The steps that remove the service: stop and unregister it (ignoring a
/// failure), then delete its definition.
pub open spec fn spec_remove_plan(p: Platform, home: Seq<char>, target: Seq<char>) -> Option<Seq<StepView>> {
    match p {
        Platform::Linux => Some(seq![
            run("systemctl"@, seq!["--user"@, "disable"@, "--now"@, "memx.service"@], false),
            StepView::RemoveFileIfExists(spec_linux_unit_path(home)),
            run("systemctl"@, seq!["--user"@, "daemon-reload"@], true),
        ]),
        Platform::MacOs => Some(seq![
            run("launchctl"@, seq!["bootout"@, target, spec_service_target(target)], false),
            StepView::RemoveFileIfExists(spec_plist_path(home)),
        ]),
        Platform::Windows => Some(seq![
            run("schtasks"@, seq!["/End"@, "/TN"@, "MemX"@], false),
            run("schtasks"@, seq!["/Delete"@, "/TN"@, "MemX"@, "/F"@], true),
        ]),
        Platform::Other => None,
    }
}

/// Plans removing the service.
pub fn remove(ctx: &ServiceContext) -> (r: Result<Vec<ServiceStep>, UnsupportedPlatform>)
    ensures
        match r {
            Ok(steps) => spec_remove_plan(ctx.platform, ctx.home_dir@, ctx.launchctl_target@) == Some(steps_view(steps@)),
            Err(_) => spec_remove_plan(ctx.platform, ctx.home_dir@, ctx.launchctl_target@) is None,
        },
{
    let mut steps: Vec<ServiceStep> = Vec::new();
    match ctx.platform {
        Platform::Linux => {
            let mut a: Vec<String> = Vec::new();
            push_arg(&mut a, "--user");
            push_arg(&mut a, "disable");
            push_arg(&mut a, "--now");
            push_arg(&mut a, "memx.service");
            assert(string_views(a@) =~= seq!["--user"@, "disable"@, "--now"@, "memx.service"@]);
            steps.push(run_step("systemctl", a, false));
            steps.push(ServiceStep::RemoveFileIfExists { path: linux_unit_path(ctx.home_dir.as_str()) });
            let mut b: Vec<String> = Vec::new();
            push_arg(&mut b, "--user");
            push_arg(&mut b, "daemon-reload");
            assert(string_views(b@) =~= seq!["--user"@, "daemon-reload"@]);
            steps.push(run_step("systemctl", b, true));
        },
        Platform::MacOs => {
            let t = service_target(ctx.launchctl_target.as_str());
            steps.push(run_step("launchctl", args_of("bootout", ctx.launchctl_target.as_str(), t.as_str()), false));
            steps.push(ServiceStep::RemoveFileIfExists { path: plist_path(ctx.home_dir.as_str()) });
        },
        Platform::Windows => {
            steps.push(run_step("schtasks", args_of("/End", "/TN", "MemX"), false));
            let mut a: Vec<String> = Vec::new();
            push_arg(&mut a, "/Delete");
            push_arg(&mut a, "/TN");
            push_arg(&mut a, "MemX");
            push_arg(&mut a, "/F");
            assert(string_views(a@) =~= seq!["/Delete"@, "/TN"@, "MemX"@, "/F"@]);
            steps.push(run_step("schtasks", a, true));
        },
        Platform::Other => {
            return Err(UnsupportedPlatform);
        },
    }
    assert(steps_view(steps@) =~= spec_remove_plan(ctx.platform, ctx.home_dir@, ctx.launchctl_target@)->0);
    Ok(steps)
}

/// The steps that install the service and start it: write its definition,
/// register it with the service manager, and start it.
pub open spec fn spec_install_plan(
    p: Platform,
    home: Seq<char>,
    target: Seq<char>,
    binary: Seq<char>,
    memx_home: Seq<char>,
) -> Option<Seq<StepView>> {
    match p {
        Platform::Linux => Some(seq![
            StepView::CreateDirAll(spec_linux_unit_dir(home)),
            StepView::WriteFile(spec_linux_unit_path(home), spec_linux_unit(binary, memx_home)),
            run("systemctl"@, seq!["--user"@, "daemon-reload"@], true),
            run("systemctl"@, seq!["--user"@, "enable"@, "memx.service"@], true),
            run("systemctl"@, seq!["--user"@, "restart"@, "memx.service"@], true),
        ]),
        Platform::MacOs => Some(seq![
            StepView::CreateDirAll(spec_plist_dir(home)),
            StepView::CreateDirAll(spec_join(memx_home, "logs"@, false)),
            StepView::WriteFile(spec_plist_path(home), spec_macos_plist(binary, memx_home)),
            run("launchctl"@, seq!["bootout"@, target, spec_plist_path(home)], false),
            run("launchctl"@, seq!["bootstrap"@, target, spec_plist_path(home)], true),
            run("launchctl"@, seq!["kickstart"@, "-k"@, spec_service_target(target)], true),
        ]),
        Platform::Windows => Some(seq![
            run("schtasks"@, seq!["/Create"@, "/TN"@, "MemX"@, "/SC"@, "ONLOGON"@, "/TR"@,
                spec_windows_task_command(binary, memx_home), "/F"@], true),
            run("schtasks"@, seq!["/Run"@, "/TN"@, "MemX"@], true),
        ]),
        Platform::Other => None,
    }
}

/// Plans installing and starting the service for the binary at
/// `binary_path` with its data in `memx_home`.
pub fn install(ctx: &ServiceContext, binary_path: &str, memx_home: &str) -> (r: Result<
    Vec<ServiceStep>,
    UnsupportedPlatform,
>)
    ensures
        match r {
            Ok(steps) => spec_install_plan(ctx.platform, ctx.home_dir@, ctx.launchctl_target@, binary_path@, memx_home@)
                == Some(steps_view(steps@)),
            Err(_) => spec_install_plan(ctx.platform, ctx.home_dir@, ctx.launchctl_target@, binary_path@, memx_home@)
                is None,
        },
{
    let mut steps: Vec<ServiceStep> = Vec::new();
    match ctx.platform {
        Platform::Linux => {
            let home = ctx.home_dir.as_str();
            steps.push(ServiceStep::CreateDirAll { path: linux_unit_dir(home) });
            steps.push(ServiceStep::WriteFile {
                path: linux_unit_path(home),
                contents: render_linux_unit(binary_path, memx_home),
            });
            let mut a: Vec<String> = Vec::new();
            push_arg(&mut a, "--user");
            push_arg(&mut a, "daemon-reload");
            assert(string_views(a@) =~= seq!["--user"@, "daemon-reload"@]);
            steps.push(run_step("systemctl", a, true));
            steps.push(run_step("systemctl", args_of("--user", "enable", "memx.service"), true));
            steps.push(run_step("systemctl", args_of("--user", "restart", "memx.service"), true));
        },
        Platform::MacOs => {
            let home = ctx.home_dir.as_str();
            let target = ctx.launchctl_target.as_str();
            let pp = plist_path(home);
            steps.push(ServiceStep::CreateDirAll { path: join_path(home, "Library/LaunchAgents", false) });
            steps.push(ServiceStep::CreateDirAll { path: join_path(memx_home, "logs", false) });
            steps.push(ServiceStep::WriteFile {
                path: pp.clone(),
                contents: render_macos_plist(binary_path, memx_home),
            });
            steps.push(run_step("launchctl", args_of("bootout", target, pp.as_str()), false));
            steps.push(run_step("launchctl", args_of("bootstrap", target, pp.as_str()), true));
            let t = service_target(target);
            steps.push(run_step("launchctl", args_of("kickstart", "-k", t.as_str()), true));
        },
        Platform::Windows => {
            let tr = windows_task_command(binary_path, memx_home);
            let mut a: Vec<String> = Vec::new();
            push_arg(&mut a, "/Create");
            push_arg(&mut a, "/TN");
            push_arg(&mut a, "MemX");
            push_arg(&mut a, "/SC");
            push_arg(&mut a, "ONLOGON");
            push_arg(&mut a, "/TR");
            push_arg(&mut a, tr.as_str());
            push_arg(&mut a, "/F");
            assert(string_views(a@) =~= seq!["/Create"@, "/TN"@, "MemX"@, "/SC"@, "ONLOGON"@, "/TR"@,
                spec_windows_task_command(binary_path@, memx_home@), "/F"@]);
            steps.push(run_step("schtasks", a, true));
            steps.push(run_step("schtasks", args_of("/Run", "/TN", "MemX"), true));
        },
        Platform::Other => {
            return Err(UnsupportedPlatform);
        },
    }
    assert(steps_view(steps@) =~= spec_install_plan(ctx.platform, ctx.home_dir@, ctx.launchctl_target@, binary_path@, memx_home@)->0);
    Ok(steps)
}

/// Law: installing ends by starting the service exactly as `start` would,
/// and every platform that can install the service can also start, stop,
/// query and remove it.
pub proof fn law_install_ends_with_start(p: Platform, home: Seq<char>, target: Seq<char>, binary: Seq<char>, memx_home: Seq<char>)
    ensures
        spec_install_plan(p, home, target, binary, memx_home) matches Some(steps) ==> {
            &&& spec_start_plan(p, target) matches Some(start_steps)
            &&& steps.last() == start_steps.last()
            &&& spec_stop_plan(p, target) is Some
            &&& spec_status_command(p, target) is Some
            &&& spec_remove_plan(p, home, target) is Some
        },
        spec_install_plan(p, home, target, binary, memx_home) is None <==> p == Platform::Other,
{
}


/// Whether running `program` with `args` takes down an earlier registration
/// of the service (`launchctl bootout`, `schtasks /End`, `systemctl --user
/// disable`), which may find nothing to take down.
pub open spec fn unloads(program: Seq<char>, args: Seq<Seq<char>>) -> bool {
    ||| program == "launchctl"@ && args.len() > 0 && args[0] == "bootout"@
    ||| program == "schtasks"@ && args.len() > 0 && args[0] == "/End"@
    ||| program == "systemctl"@ && args.len() > 1 && args[1] == "disable"@
}

/// Whether, among `steps`, exactly the commands that take down an earlier
/// registration are allowed to fail.
pub open spec fn only_unloading_may_fail(steps: Seq<StepView>) -> bool {
    forall|i: int|
        0 <= i < steps.len() ==> match #[trigger] steps[i] {
            StepView::Run(program, args, must_succeed) => must_succeed == !unloads(program, args),
            _ => true,
        }
}

/// Law: installing or removing the service goes on when a command that
/// takes down an earlier registration fails (on a first install there is
/// none to take down), and stops when any other command fails, those that
/// register and start the service among them.
pub proof fn law_only_unloading_may_fail(p: Platform, home: Seq<char>, target: Seq<char>, binary: Seq<char>, memx_home: Seq<char>)
    ensures
        spec_install_plan(p, home, target, binary, memx_home) matches Some(steps)
            ==> only_unloading_may_fail(steps),
        spec_remove_plan(p, home, target) matches Some(steps) ==> only_unloading_may_fail(steps),
{
    reveal_strlit("launchctl");
    reveal_strlit("schtasks");
    reveal_strlit("systemctl");
    reveal_strlit("bootout");
    reveal_strlit("bootstrap");
    reveal_strlit("kickstart");
    reveal_strlit("/End");
    reveal_strlit("/Create");
    reveal_strlit("/Run");
    reveal_strlit("/Delete");
    reveal_strlit("--user");
    reveal_strlit("disable");
    reveal_strlit("daemon-reload");
    reveal_strlit("enable");
    reveal_strlit("restart");
    assert("launchctl"@.len() != "schtasks"@.len());
    assert("schtasks"@.len() != "systemctl"@.len());
    assert("launchctl"@[0] != "systemctl"@[0]);
    assert("bootout"@.len() != "bootstrap"@.len());
    assert("bootout"@.len() != "kickstart"@.len());
    assert("/End"@.len() != "/Create"@.len());
    assert("/End"@.len() != "/Delete"@.len());
    assert("/End"@[1] != "/Run"@[1]);
    assert("disable"@.len() != "daemon-reload"@.len());
    assert("disable"@.len() != "enable"@.len());
    assert("disable"@[0] != "restart"@[0]);
}

/// What the status command prints for the service manager's output: the
/// output, or a note when it is blank.
pub fn status_report(output: &str) -> (r: String)
    ensures
        trim(output@).len() == 0 ==> r@ == "Service status returned no output."@,
        trim(output@).len() > 0 ==> r@ == output@,
{
    if is_non_blank(output) {
        output.to_owned()
    } else {
        "Service status returned no output.".to_owned()
    }
}


/// What a finished command gives: on success its output (standard output
/// when it printed any, otherwise standard error); on failure the details
/// (standard error when it printed any, otherwise standard output,
/// otherwise `no output`). Both outputs are taken trimmed.
pub open spec fn spec_command_result(success: bool, stdout: Seq<char>, stderr: Seq<char>) -> Result<Seq<char>, Seq<char>> {
    let out = trim(stdout);
    let err = trim(stderr);
    if success {
        Ok(if out.len() > 0 { out } else { err })
    } else {
        Err(if err.len() > 0 { err } else if out.len() > 0 { out } else { "no output"@ })
    }
}

/// Reads the outcome of a finished command.
pub fn command_result(success: bool, stdout: &str, stderr: &str) -> (r: Result<String, String>)
    ensures
        match r {
            Ok(o) => spec_command_result(success, stdout@, stderr@) == Ok::<Seq<char>, Seq<char>>(o@),
            Err(e) => spec_command_result(success, stdout@, stderr@) == Err::<Seq<char>, Seq<char>>(e@),
        },
{
    let o = chars_of(stdout);
    let out = trim_chars(&o);
    let e = chars_of(stderr);
    let err = trim_chars(&e);
    if success {
        if out.len() > 0 { Ok(string_of(&out)) } else { Ok(string_of(&err)) }
    } else if err.len() > 0 {
        Err(string_of(&err))
    } else if out.len() > 0 {
        Err(string_of(&out))
    } else {
        Err("no output".to_owned())
    }
}

} // verus!
