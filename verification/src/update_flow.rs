//! The course of a self-update: the file steps that put a new binary in
//! place of the running one, and the decisions taken between the outside
//! steps of an update (fetch, prepare, stop and start the service, replace).

use vstd::prelude::*;
use crate::paths::{
    binary_backup_path, ends_with_skippable, is_sep, is_verbatim, lemma_join_name_last, lemma_prefix_bounds, lemma_root_take,
    name_end, name_start, root_end, sep_in, spec_backup_path, spec_file_name, spec_managed,
    spec_parent, spec_with_extension, with_extension,
};
use crate::text::{push_str, string_of};
use crate::version::{is_newer, semver_precedes, SemVer, SemVerView};

verus! {

// ── Replacing the binary ───────────────────────────────────────────────────

/// One file-system step of putting a new binary in place.
#[derive(Debug, Clone, PartialEq, Eq)]
pub enum FileStep {
    /// Delete the file at `path` if there is one.
    RemoveIfExists { path: String },
    /// Copy `from` to `to`.
    Copy { from: String, to: String },
    /// Give `path` the permissions of an executable (`0o755`).
    MakeExecutable { path: String },
    /// Rename `from` to `to` if `from` exists.
    MoveIfExists { from: String, to: String },
    /// Rename `from` to `to`; when that fails, rename `restore_from` back to
    /// `to` if it exists, and fail.
    MoveOrRestore { from: String, to: String, restore_from: String },
}

/// A file step with its paths as text.
pub enum FileStepView {
    RemoveIfExists(Seq<char>),
    Copy(Seq<char>, Seq<char>),
    MakeExecutable(Seq<char>),
    MoveIfExists(Seq<char>, Seq<char>),
    MoveOrRestore(Seq<char>, Seq<char>, Seq<char>),
}

/// The view of a file step.
pub open spec fn file_step_view(s: FileStep) -> FileStepView {
    match s {
        FileStep::RemoveIfExists { path } => FileStepView::RemoveIfExists(path@),
        FileStep::Copy { from, to } => FileStepView::Copy(from@, to@),
        FileStep::MakeExecutable { path } => FileStepView::MakeExecutable(path@),
        FileStep::MoveIfExists { from, to } => FileStepView::MoveIfExists(from@, to@),
        FileStep::MoveOrRestore { from, to, restore_from } => FileStepView::MoveOrRestore(
            from@,
            to@,
            restore_from@,
        ),
    }
}

/// The views of a list of file steps.
pub open spec fn file_steps_view(v: Seq<FileStep>) -> Seq<FileStepView> {
    v.map_values(|x: FileStep| file_step_view(x))
}

/// Where the new binary is copied before it takes the old one's place: the
/// current binary's path with the extension `new`.
pub open spec fn spec_staging_path(current: Seq<char>, windows: bool) -> Seq<char> {
    spec_with_extension(current, "new"@, windows)
}

/// The steps that replace `current` by `new_binary` in place: clear out any
/// earlier backup and staging copy, stage an executable copy of the new
/// binary beside the current one, keep the current one as the backup, and
/// move the staged copy into place, putting the backup back if that move
/// fails.
pub open spec fn spec_replace_steps(current: Seq<char>, new_binary: Seq<char>, windows: bool) -> Seq<FileStepView> {
    let backup = spec_backup_path(current, windows);
    let staging = spec_staging_path(current, windows);
    seq![
        FileStepView::RemoveIfExists(backup),
        FileStepView::RemoveIfExists(staging),
        FileStepView::Copy(new_binary, staging),
        FileStepView::MakeExecutable(staging),
        FileStepView::MoveIfExists(current, backup),
        FileStepView::MoveOrRestore(staging, current, backup),
    ]
}

/// The staging path of the binary at `current`.
pub fn staging_path(current: &str, windows: bool) -> (r: String)
    ensures
        r@ == spec_staging_path(current@, windows),
{
    with_extension(current, "new", windows)
}

/// Plans putting `new_binary` in place of the binary at `current`.
pub fn replace_steps(current: &str, new_binary: &str, windows: bool) -> (r: Vec<FileStep>)
    ensures
        file_steps_view(r@) == spec_replace_steps(current@, new_binary@, windows),
{
    let backup = binary_backup_path(current, windows);
    let staging = staging_path(current, windows);
    let mut steps: Vec<FileStep> = Vec::new();
    steps.push(FileStep::RemoveIfExists { path: backup.clone() });
    steps.push(FileStep::RemoveIfExists { path: staging.clone() });
    steps.push(FileStep::Copy { from: new_binary.to_owned(), to: staging.clone() });
    steps.push(FileStep::MakeExecutable { path: staging.clone() });
    steps.push(FileStep::MoveIfExists { from: current.to_owned(), to: backup.clone() });
    steps.push(FileStep::MoveOrRestore { from: staging, to: current.to_owned(), restore_from: backup });
    assert(file_steps_view(steps@) =~= spec_replace_steps(current@, new_binary@, windows));
    steps
}


/// A path with a final component ends in that component's last character,
/// or in a separator or a `.` that follows it.
proof fn lemma_path_ends_in_name_or_separator(p: Seq<char>, windows: bool)
    requires
        spec_file_name(p, windows) is Some,
    ensures
        p.len() > 0,
        p.last() == spec_file_name(p, windows)->0.last() || is_sep(p.last(), windows) || p.last()
            == '.',
{
    let e = name_end(p, windows) as int;
    lemma_name_end_le(p, windows);
    if e < p.len() {
        assert(ends_with_skippable(p, windows));
    } else {
        let n = spec_file_name(p, windows)->0;
        let a = name_start(p, e, windows);
        lemma_name_start_le(p, e, windows);
        assert(n == p.subrange(a, e));
        assert(n.len() > 0);
        assert(n[n.len() - 1] == p[e - 1]);
    }
}

proof fn lemma_name_end_le(s: Seq<char>, windows: bool)
    ensures
        root_end(s, windows) <= name_end(s, windows) <= s.len(),
        name_end(s, windows) > root_end(s, windows) ==> !sep_in(
            s[name_end(s, windows) - 1],
            windows,
            is_verbatim(s, windows),
        ),
    decreases s.len(),
{
    lemma_prefix_bounds(s, windows);
    if ends_with_skippable(s, windows) {
        let d = s.drop_last();
        assert(d =~= s.take(s.len() - 1));
        lemma_root_take(s, windows, s.len() - 1);
        lemma_name_end_le(d, windows);
        if name_end(d, windows) > root_end(d, windows) {
            assert(d[name_end(d, windows) - 1] == s[name_end(d, windows) - 1]);
        }
    }
}

proof fn lemma_name_start_le(s: Seq<char>, e: int, windows: bool)
    requires
        0 <= e,
    ensures
        0 <= name_start(s, e, windows) <= e,
        e > root_end(s, windows) && !sep_in(s[e - 1], windows, is_verbatim(s, windows))
            ==> name_start(s, e, windows) < e,
    decreases e,
{
    lemma_prefix_bounds(s, windows);
    if e > 0 && e > root_end(s, windows) && !sep_in(s[e - 1], windows, is_verbatim(s, windows)) {
        lemma_name_start_le(s, e - 1, windows);
    }
}

/// Law: for a managed binary, the staging copy and the backup are files
/// other than the binary itself and other than each other, so no step of
/// the replacement removes or overwrites the running binary except the
/// final move of the staged copy onto it.
pub proof fn law_replacement_paths_are_distinct(current: Seq<char>, windows: bool)
    requires
        spec_managed(current, windows),
    ensures
        spec_staging_path(current, windows) != current,
        spec_backup_path(current, windows) != current,
        spec_staging_path(current, windows) != spec_backup_path(current, windows),
{
    reveal_strlit("new");
    lemma_path_ends_in_name_or_separator(current, windows);
    let n = spec_file_name(current, windows)->0;
    if n == seq!['m', 'e', 'm', 'x'] {
        assert(n.last() == seq!['m', 'e', 'm', 'x'][3]);
    } else {
        assert(n == seq!['m', 'e', 'm', 'x', '.', 'e', 'x', 'e']);
        assert(n.last() == seq!['m', 'e', 'm', 'x', '.', 'e', 'x', 'e'][7]);
    }
    assert(n.last() == 'x' || n.last() == 'e');
    let staging = spec_staging_path(current, windows);
    let backup = spec_backup_path(current, windows);
    assert(staging.len() > 0 && staging.last() == 'w');
    let rel = n + seq!['.', 'b', 'a', 'k'];
    if n == seq!['m', 'e', 'm', 'x'] {
        assert(rel =~= seq!['m', 'e', 'm', 'x', '.', 'b', 'a', 'k']);
    } else {
        assert(rel =~= seq!['m', 'e', 'm', 'x', '.', 'e', 'x', 'e', '.', 'b', 'a', 'k']);
    }
    assert(rel.last() == 'k');
    lemma_join_name_last(spec_parent(current, windows), rel, windows);
    assert(backup.len() > 0 && backup.last() == 'k');
}

// ── The course of an update ────────────────────────────────────────────────

/// Where an update stands.
#[derive(Debug, Clone, Copy, PartialEq, Eq, Structural)]
pub enum UpdatePhase {
    /// The latest release's metadata is being fetched.
    Fetching,
    /// The newer release is being downloaded, unpacked and checked.
    Preparing,
    /// It is being asked whether the background service is installed.
    CheckingService,
    /// The background service is being stopped.
    StoppingService,
    /// The binary is being replaced; `restart_service` says whether the
    /// service is to run the new binary, `service_was_stopped` whether it
    /// was stopped for the replacement.
    Replacing { restart_service: bool, service_was_stopped: bool },
    /// The service is being started again after a failed replacement.
    RecoveringService,
    /// The service is being started with the new binary.
    RestartingService,
    /// Nothing is left to do.
    Finished,
}

/// What the outside step under way reported.
#[derive(Debug, Clone, Copy, PartialEq, Eq, Structural)]
pub enum UpdateEvent {
    /// The release metadata was read; `newer` says whether its version is
    /// above the running one.
    ReleaseFetched { newer: bool },
    /// The new binary was downloaded, unpacked and checked.
    Prepared,
    /// Whether the service is installed (an error counts as not).
    ServiceChecked { installed: bool },
    /// Whether stopping the service succeeded.
    ServiceStopped { ok: bool },
    /// The binary was replaced, or (`scheduled`) its replacement was
    /// scheduled for after this process exits.
    Replaced { scheduled: bool },
    /// Replacing the binary failed.
    ReplaceFailed,
    /// Whether starting the service succeeded.
    ServiceStarted { ok: bool },
    /// The step under way failed.
    Failed,
}

/// How an update ended well.
#[derive(Debug, Clone, Copy, PartialEq, Eq, Structural)]
pub enum UpdateResult {
    /// The running version is the latest.
    UpToDate,
    /// The binary was replaced, and the service restarted if it was
    /// installed.
    Updated { restarted_service: bool },
    /// The replacement was scheduled for after this process exits.
    Scheduled { restarted_service: bool },
}

/// Why an update failed.
#[derive(Debug, Clone, Copy, PartialEq, Eq, Structural)]
pub enum UpdateFailure {
    /// The step under way failed; its own error is the answer.
    StepFailed,
    /// The binary could not be replaced.
    ReplaceFailed,
    /// The binary was replaced but the service did not start again.
    RestartFailed,
}

/// What to do next.
#[derive(Debug, Clone, Copy, PartialEq, Eq, Structural)]
pub enum UpdateAction {
    /// Download, unpack and check the newer release.
    Prepare,
    /// Ask whether the background service is installed.
    CheckService,
    /// Stop the background service.
    StopService,
    /// Replace (or, where the running binary cannot be replaced, schedule
    /// the replacement of) the binary.
    Replace { restart_service: bool },
    /// Start the background service.
    StartService,
    /// The update ended well.
    Finish(UpdateResult),
    /// The update failed.
    Fail(UpdateFailure),
}

/// Where an update starts: the latest release's metadata is fetched first.
pub fn initial_update_phase() -> (r: UpdatePhase)
    ensures
        r == UpdatePhase::Fetching,
{
    UpdatePhase::Fetching
}

/// The phase and action that follow `event` in `phase`.
pub open spec fn spec_update_step(phase: UpdatePhase, event: UpdateEvent) -> (UpdatePhase, UpdateAction) {
    match (phase, event) {
        (UpdatePhase::Fetching, UpdateEvent::ReleaseFetched { newer }) => if newer {
            (UpdatePhase::Preparing, UpdateAction::Prepare)
        } else {
            (UpdatePhase::Finished, UpdateAction::Finish(UpdateResult::UpToDate))
        },
        (UpdatePhase::Preparing, UpdateEvent::Prepared) => (UpdatePhase::CheckingService, UpdateAction::CheckService),
        (UpdatePhase::CheckingService, UpdateEvent::ServiceChecked { installed }) => if installed {
            (UpdatePhase::StoppingService, UpdateAction::StopService)
        } else {
            (
                UpdatePhase::Replacing { restart_service: false, service_was_stopped: false },
                UpdateAction::Replace { restart_service: false },
            )
        },
        (UpdatePhase::StoppingService, UpdateEvent::ServiceStopped { ok }) => (
            UpdatePhase::Replacing { restart_service: true, service_was_stopped: ok },
            UpdateAction::Replace { restart_service: true },
        ),
        (UpdatePhase::Replacing { restart_service, service_was_stopped }, UpdateEvent::ReplaceFailed) => if service_was_stopped {
            (UpdatePhase::RecoveringService, UpdateAction::StartService)
        } else {
            (UpdatePhase::Finished, UpdateAction::Fail(UpdateFailure::ReplaceFailed))
        },
        (UpdatePhase::Replacing { restart_service, service_was_stopped }, UpdateEvent::Replaced { scheduled }) => if scheduled {
            (UpdatePhase::Finished, UpdateAction::Finish(UpdateResult::Scheduled { restarted_service: restart_service }))
        } else if restart_service {
            (UpdatePhase::RestartingService, UpdateAction::StartService)
        } else {
            (UpdatePhase::Finished, UpdateAction::Finish(UpdateResult::Updated { restarted_service: false }))
        },
        (UpdatePhase::RecoveringService, UpdateEvent::ServiceStarted { ok }) => (
            UpdatePhase::Finished,
            UpdateAction::Fail(UpdateFailure::ReplaceFailed),
        ),
        (UpdatePhase::RestartingService, UpdateEvent::ServiceStarted { ok }) => if ok {
            (UpdatePhase::Finished, UpdateAction::Finish(UpdateResult::Updated { restarted_service: true }))
        } else {
            (UpdatePhase::Finished, UpdateAction::Fail(UpdateFailure::RestartFailed))
        },
        _ => (UpdatePhase::Finished, UpdateAction::Fail(UpdateFailure::StepFailed)),
    }
}

/// Decides what follows an outside step of an update. A release that is not
/// newer ends the update at once; an installed service is stopped before
/// the binary is replaced and started again afterwards (also after a failed
/// replacement, when it had been stopped); a scheduled replacement leaves
/// the restart to the scheduled job; any other failure ends the update.
pub fn update_step(phase: UpdatePhase, event: UpdateEvent) -> (r: (UpdatePhase, UpdateAction))
    ensures
        r == spec_update_step(phase, event),
{
    match (phase, event) {
        (UpdatePhase::Fetching, UpdateEvent::ReleaseFetched { newer }) => if newer {
            (UpdatePhase::Preparing, UpdateAction::Prepare)
        } else {
            (UpdatePhase::Finished, UpdateAction::Finish(UpdateResult::UpToDate))
        },
        (UpdatePhase::Preparing, UpdateEvent::Prepared) => (UpdatePhase::CheckingService, UpdateAction::CheckService),
        (UpdatePhase::CheckingService, UpdateEvent::ServiceChecked { installed }) => if installed {
            (UpdatePhase::StoppingService, UpdateAction::StopService)
        } else {
            (
                UpdatePhase::Replacing { restart_service: false, service_was_stopped: false },
                UpdateAction::Replace { restart_service: false },
            )
        },
        (UpdatePhase::StoppingService, UpdateEvent::ServiceStopped { ok }) => (
            UpdatePhase::Replacing { restart_service: true, service_was_stopped: ok },
            UpdateAction::Replace { restart_service: true },
        ),
        (UpdatePhase::Replacing { restart_service, service_was_stopped }, UpdateEvent::ReplaceFailed) => if service_was_stopped {
            (UpdatePhase::RecoveringService, UpdateAction::StartService)
        } else {
            (UpdatePhase::Finished, UpdateAction::Fail(UpdateFailure::ReplaceFailed))
        },
        (UpdatePhase::Replacing { restart_service, service_was_stopped }, UpdateEvent::Replaced { scheduled }) => if scheduled {
            (UpdatePhase::Finished, UpdateAction::Finish(UpdateResult::Scheduled { restarted_service: restart_service }))
        } else if restart_service {
            (UpdatePhase::RestartingService, UpdateAction::StartService)
        } else {
            (UpdatePhase::Finished, UpdateAction::Finish(UpdateResult::Updated { restarted_service: false }))
        },
        (UpdatePhase::RecoveringService, UpdateEvent::ServiceStarted { .. }) => (
            UpdatePhase::Finished,
            UpdateAction::Fail(UpdateFailure::ReplaceFailed),
        ),
        (UpdatePhase::RestartingService, UpdateEvent::ServiceStarted { ok }) => if ok {
            (UpdatePhase::Finished, UpdateAction::Finish(UpdateResult::Updated { restarted_service: true }))
        } else {
            (UpdatePhase::Finished, UpdateAction::Fail(UpdateFailure::RestartFailed))
        },
        _ => (UpdatePhase::Finished, UpdateAction::Fail(UpdateFailure::StepFailed)),
    }
}

/// How many outside steps an update in `phase` can still take at most.
pub open spec fn steps_left(phase: UpdatePhase) -> nat {
    match phase {
        UpdatePhase::Fetching => 6,
        UpdatePhase::Preparing => 5,
        UpdatePhase::CheckingService => 4,
        UpdatePhase::StoppingService => 3,
        UpdatePhase::Replacing { .. } => 2,
        UpdatePhase::RecoveringService => 1,
        UpdatePhase::RestartingService => 1,
        UpdatePhase::Finished => 0,
    }
}

/// A phase an update can reach: the service is only ever stopped when it
/// is to be restarted.
pub open spec fn update_phase_valid(phase: UpdatePhase) -> bool {
    phase matches UpdatePhase::Replacing { restart_service, service_was_stopped } ==> (service_was_stopped ==> restart_service)
}

/// Law: every update ends. Each outside step leads to a phase with fewer
/// steps left, and the phase reached is again one an update can be in; an
/// action that finishes or fails always goes with the finished phase, and
/// only the finished phase is left without another step.
pub proof fn law_update_ends(phase: UpdatePhase, event: UpdateEvent)
    requires
        update_phase_valid(phase),
    ensures
        phase != UpdatePhase::Finished ==> steps_left(spec_update_step(phase, event).0) < steps_left(phase),
        update_phase_valid(spec_update_step(phase, event).0),
        (spec_update_step(phase, event).1 is Finish || spec_update_step(phase, event).1 is Fail)
            <==> spec_update_step(phase, event).0 == UpdatePhase::Finished,
        update_phase_valid(UpdatePhase::Fetching),
{
}

/// Law: a service that was stopped for an update is started again, whether
/// the replacement failed or succeeded, unless the replacement was left to
/// a scheduled job (which restarts it itself).
pub proof fn law_stopped_service_is_started_again(restart_service: bool, event: UpdateEvent)
    requires
        event == UpdateEvent::ReplaceFailed || event == (UpdateEvent::Replaced { scheduled: false }),
    ensures
        spec_update_step(UpdatePhase::Replacing { restart_service: true, service_was_stopped: true }, event).1
            == UpdateAction::StartService,
        spec_update_step(UpdatePhase::Replacing { restart_service, service_was_stopped: false }, UpdateEvent::Replaced { scheduled: true }).1
            == UpdateAction::Finish(UpdateResult::Scheduled { restarted_service: restart_service }),
{
}

/// What fetching the latest release reports: whether its version has
/// higher precedence than the running one.
pub fn release_fetched(latest: &SemVer, current: &SemVer) -> (r: UpdateEvent)
    ensures
        r == (UpdateEvent::ReleaseFetched { newer: semver_precedes(current@, latest@) }),
{
    UpdateEvent::ReleaseFetched { newer: is_newer(latest, current) }
}

/// Law: an update goes on to install the latest release exactly when that
/// release's version has higher precedence than the running one; otherwise
/// it ends, reporting the running version as the latest.
pub proof fn law_only_a_newer_release_is_installed(latest: SemVerView, current: SemVerView)
    ensures
        ({
            let next = spec_update_step(
                UpdatePhase::Fetching,
                UpdateEvent::ReleaseFetched { newer: semver_precedes(current, latest) },
            );
            &&& next.1 == UpdateAction::Prepare <==> semver_precedes(current, latest)
            &&& !semver_precedes(current, latest) ==> next == (
                UpdatePhase::Finished,
                UpdateAction::Finish(UpdateResult::UpToDate),
            )
        }),
{
}


// ── Scheduled replacement on Windows ───────────────────────────────────────

/// The line of the replacement script that restarts the service, when it
/// is to be restarted.
pub open spec fn restart_line(restart_service: bool) -> Seq<char> {
    if restart_service { "schtasks /Run /TN MemX >NUL 2>&1"@ } else { Seq::empty() }
}

/// The batch script that replaces the binary on Windows once the running
/// process has exited: it waits a little, drops any earlier backup, keeps
/// the current binary as the backup, moves the new one into place,
/// restarts the service when asked to, and deletes itself.
pub open spec fn spec_windows_replace_script(current: Seq<char>, new_binary: Seq<char>, restart_service: bool) -> Seq<char> {
    let backup = spec_backup_path(current, true);
    "@echo off\r\nping 127.0.0.1 -n 3 >NUL\r\nif exist \""@ + backup + "\" del /f /q \""@ + backup
        + "\" >NUL 2>&1\r\nif exist \""@ + current + "\" move /y \""@ + current + "\" \""@ + backup
        + "\" >NUL\r\nmove /y \""@ + new_binary + "\" \""@ + current + "\" >NUL\r\n"@
        + restart_line(restart_service) + "\r\ndel /f /q \"%~f0\" >NUL 2>&1\r\n"@
}

/// Writes the Windows replacement script.
pub fn windows_replace_script(current: &str, new_binary: &str, restart_service: bool) -> (r: String)
    ensures
        r@ == spec_windows_replace_script(current@, new_binary@, restart_service),
{
    let backup = binary_backup_path(current, true);
    let mut out: Vec<char> = Vec::new();
    push_str(&mut out, "@echo off\r\nping 127.0.0.1 -n 3 >NUL\r\nif exist \"");
    push_str(&mut out, backup.as_str());
    push_str(&mut out, "\" del /f /q \"");
    push_str(&mut out, backup.as_str());
    push_str(&mut out, "\" >NUL 2>&1\r\nif exist \"");
    push_str(&mut out, current);
    push_str(&mut out, "\" move /y \"");
    push_str(&mut out, current);
    push_str(&mut out, "\" \"");
    push_str(&mut out, backup.as_str());
    push_str(&mut out, "\" >NUL\r\nmove /y \"");
    push_str(&mut out, new_binary);
    push_str(&mut out, "\" \"");
    push_str(&mut out, current);
    push_str(&mut out, "\" >NUL\r\n");
    if restart_service {
        push_str(&mut out, "schtasks /Run /TN MemX >NUL 2>&1");
    }
    push_str(&mut out, "\r\ndel /f /q \"%~f0\" >NUL 2>&1\r\n");
    proof {
        if !restart_service {
            assert(restart_line(restart_service) =~= Seq::<char>::empty());
        }
    }
    assert(out@ =~= spec_windows_replace_script(current@, new_binary@, restart_service));
    string_of(&out)
}

} // verus!
