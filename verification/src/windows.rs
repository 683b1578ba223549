//! The floating windows: diagnostics, the command queue and the embedded server.

use crate::command::{CommandPayload, McpAction, UiFrameOutput};
use crate::compute::ComputeView;
use crate::measured::{zero, Number};
use crate::model::DiagnosticsConfig;
use crate::number::{format_count, format_mebibytes};
use crate::source::{CommandLifecycle, CommandRecord, QueueStatus};
use crate::text::{concat2, concat3, decimal_text, numbered};
use crate::world::WorldSnapshot;
use vstd::prelude::*;
use vstd::string::*;

verus! {

/// What is said of the last command that was refused.
fn rejected_line(error: Option<&str>) -> (line: Option<String>)
    ensures
        line is Some <==> error is Some,
        line matches Some(text) ==> text@ == "Last command rejected: "@ + error->0@,
{
    match error {
        Some(error) => Some(concat2("Last command rejected: ", error)),
        None => None,
    }
}

/// What is measured of the running application.
#[derive(Clone, Copy, Debug, PartialEq, Eq, Structural)]
pub struct Metrics {
    pub frame_samples: usize,
    pub least_frame_ms: Number,
    /// The memory the process takes, or zero if it is not known.
    pub process_rss_kb: u64,
    pub process_cpu_ms: Number,
}

/// The sections of the diagnostics window, each only if it is shown.
#[derive(Debug, PartialEq, Eq)]
pub struct DiagnosticsView {
    /// Whether the range of frame times is shown beside the last one.
    pub frame: Option<bool>,
    pub memory: Option<String>,
    /// Whether the processor time is known.
    pub cpu: Option<bool>,
    /// Whether a step has been computed.
    pub step: Option<bool>,
    pub scene: Option<SceneInfo>,
    /// Whether the solver's own remarks are shown.
    pub solver: bool,
    pub error: Option<String>,
}

/// The size of the scene, in words.
#[derive(Debug, PartialEq, Eq)]
pub struct SceneInfo {
    pub objects: String,
    pub samples: String,
    pub compute: String,
}

/// Whether a section says that the scene has so many objects and samples.
pub open spec fn describes(info: SceneInfo, compute: ComputeView, world: WorldSnapshot) -> bool {
    &&& info.objects@ == crate::text::decimal(world.objects@.len())
    &&& info.samples@ == crate::number::count_text(compute.total_samples as nat)
    &&& info.compute@ == "Compute: "@ + compute.description@
}

/// What the diagnostics window shows. What is not known is a dash.
pub fn diagnostics_window(
    config: DiagnosticsConfig,
    metrics: Metrics,
    compute: &ComputeView,
    world: &WorldSnapshot,
    command_error: Option<&str>,
) -> (view: DiagnosticsView)
    ensures
        view.frame == if config.show_frame_time {
            Some(metrics.frame_samples > 0 && metrics.least_frame_ms.is_finite())
        } else {
            None
        },
        view.memory is Some <==> config.show_memory,
        view.memory matches Some(text) ==> text@ == if metrics.process_rss_kb > 0 {
            crate::number::mebibytes_text(metrics.process_rss_kb as nat)
        } else {
            "—"@
        },
        view.cpu == if config.show_cpu {
            Some(zero().value_less(metrics.process_cpu_ms))
        } else {
            None
        },
        view.step == if config.show_solver_step {
            Some(zero().value_less(compute.step_compute_ms))
        } else {
            None
        },
        view.scene is Some <==> config.show_scene_info,
        view.scene matches Some(info) ==> describes(info, *compute, *world),
        view.solver == (config.show_solver_diagnostics && compute.diagnostics@.len() > 0),
        view.error is Some <==> command_error is Some,
        view.error matches Some(text) ==> text@ == "Last command rejected: "@ + command_error->0@,
{
    let frame: Option<bool> = if config.show_frame_time {
        Some(metrics.frame_samples > 0 && metrics.least_frame_ms.finite())
    } else {
        None
    };
    let memory: Option<String> = if config.show_memory {
        Some(
            if metrics.process_rss_kb > 0 {
                format_mebibytes(metrics.process_rss_kb)
            } else {
                "—".to_owned()
            },
        )
    } else {
        None
    };
    let cpu: Option<bool> = if config.show_cpu {
        Some(zero().less(metrics.process_cpu_ms))
    } else {
        None
    };
    let step: Option<bool> = if config.show_solver_step {
        Some(zero().less(compute.step_compute_ms))
    } else {
        None
    };
    let scene: Option<SceneInfo> = if config.show_scene_info {
        Some(
            SceneInfo {
                objects: decimal_text(world.objects.len() as u64),
                samples: format_count(compute.total_samples),
                compute: concat2("Compute: ", compute.description.as_str()),
            },
        )
    } else {
        None
    };
    DiagnosticsView {
        frame,
        memory,
        cpu,
        step,
        scene,
        solver: config.show_solver_diagnostics && compute.diagnostics.len() > 0,
        error: rejected_line(command_error),
    }
}

impl CommandLifecycle {
    pub open spec fn word(self) -> Seq<char> {
        match self {
            CommandLifecycle::Submitted => "Submitted"@,
            CommandLifecycle::Queued => "Queued"@,
            CommandLifecycle::Applied => "Applied"@,
            CommandLifecycle::Rejected => "Rejected"@,
            CommandLifecycle::Cancelled => "Cancelled"@,
        }
    }

    pub fn label(self) -> (s: &'static str)
        ensures
            s@ == self.word(),
    {
        match self {
            CommandLifecycle::Submitted => "Submitted",
            CommandLifecycle::Queued => "Queued",
            CommandLifecycle::Applied => "Applied",
            CommandLifecycle::Rejected => "Rejected",
            CommandLifecycle::Cancelled => "Cancelled",
        }
    }
}

/// How a command of the queue is listed.
#[derive(Debug, PartialEq, Eq)]
pub struct QueueRow {
    pub number: String,
    pub kind: String,
    pub state: &'static str,
    /// Why it was rejected.
    pub warning: Option<String>,
    /// Whether it can be cancelled.
    pub cancellable: bool,
}

/// How a command of the queue is listed. Only a rejected one says why, and only a
/// queued one can be cancelled.
pub fn queue_record_row(record: &CommandRecord) -> (row: QueueRow)
    ensures
        row.number@ == "#"@ + crate::text::decimal(record.command.number() as nat),
        row.kind == record.kind,
        row.state@ == record.state.word(),
        row.warning == if record.state is Rejected {
            record.error
        } else {
            None
        },
        row.cancellable == (record.state is Queued),
{
    let warning = match (&record.state, &record.error) {
        (CommandLifecycle::Rejected, Some(error)) => Some(error.clone()),
        _ => None,
    };
    QueueRow {
        number: numbered("#", record.command.get()),
        kind: record.kind.clone(),
        state: record.state.label(),
        warning,
        cancellable: record.state == CommandLifecycle::Queued,
    }
}

/// Cancel a command of the queue, if it is still queued.
pub fn cancel_command(record: &CommandRecord, output: &mut UiFrameOutput)
    ensures
        if record.state is Queued {
            final(output).submits(
                *old(output),
                CommandPayload::CancelQueuedCommand(record.command),
            )
        } else {
            *final(output) == *old(output)
        },
{
    if record.state == CommandLifecycle::Queued {
        output.submit(CommandPayload::CancelQueuedCommand(record.command));
    }
}

/// The state of the queue, and the button that changes it.
pub fn queue_heading(queue: &QueueStatus) -> (heading: (&'static str, &'static str))
    ensures
        queue.paused ==> heading.0@ == "⏸ paused"@ && heading.1@ == "Resume queue"@,
        !queue.paused ==> heading.0@ == "● running"@ && heading.1@ == "Pause queue"@,
{
    if queue.paused {
        ("⏸ paused", "Resume queue")
    } else {
        ("● running", "Pause queue")
    }
}

/// Pause a running queue, or resume a paused one.
pub fn toggle_queue(queue: &QueueStatus, output: &mut UiFrameOutput)
    ensures
        final(output).submits(
            *old(output),
            if queue.paused {
                CommandPayload::ResumeQueue
            } else {
                CommandPayload::PauseQueue
            },
        ),
{
    if queue.paused {
        output.submit(CommandPayload::ResumeQueue);
    } else {
        output.submit(CommandPayload::PauseQueue);
    }
}

/// The positions of the finished commands as they are listed: the newest first.
pub fn history_order(queue: &QueueStatus) -> (positions: Vec<usize>)
    ensures
        positions.len() == queue.history.len(),
        forall|i: int|
            0 <= i < positions.len() ==> (#[trigger] positions[i]) == queue.history.len() - 1 - i,
{
    let count: usize = queue.history.len();
    let mut positions: Vec<usize> = Vec::new();
    let mut i: usize = 0;
    while i < count
        invariant
            count == queue.history.len(),
            i <= count,
            positions.len() == i,
            forall|k: int| 0 <= k < i ==> (#[trigger] positions[k]) == count - 1 - k,
        decreases count - i,
    {
        positions.push(count - 1 - i);
        i = i + 1;
    }
    positions
}

/// The embedded server through which another client drives the session.
#[derive(Debug, PartialEq, Eq)]
pub enum McpSession {
    Disabled,
    Running { token: String, address: String },
    Failed(String),
}

/// The action of the one button of the server window: a running server is
/// stopped, and one that is not running is started.
pub fn mcp_window(session: &McpSession, clicked: bool) -> (action: Option<McpAction>)
    ensures
        action == if !clicked {
            None
        } else if session is Running {
            Some(McpAction::Disable)
        } else {
            Some(McpAction::Enable)
        },
{
    if !clicked {
        return None;
    }
    match session {
        McpSession::Running { .. } => Some(McpAction::Disable),
        _ => Some(McpAction::Enable),
    }
}

/// The label of the one button of the server window.
pub fn mcp_button(session: &McpSession) -> (s: &'static str)
    ensures
        session is Running ==> s@ == "Disable MCP"@,
        !(session is Running) ==> s@ == "Enable MCP"@,
{
    match session {
        McpSession::Running { .. } => "Disable MCP",
        _ => "Enable MCP",
    }
}

/// How many clients are connected, as far as it is known.
pub fn connection_line(count: Option<usize>) -> (text: String)
    ensures
        text@ == match count {
            None => "Checking…"@,
            Some(n) => if n == 0 {
                "No client connected"@
            } else if n == 1 {
                crate::text::decimal(1) + " client connected"@
            } else {
                crate::text::decimal(n as nat) + " clients connected"@
            },
        },
{
    match count {
        None => "Checking…".to_owned(),
        Some(n) => {
            if n == 0 {
                return "No client connected".to_owned();
            }
            let mut text = crate::text::decimal_text(n as u64);
            if n == 1 {
                text.append(" client connected");
            } else {
                text.append(" clients connected");
            }
            text
        },
    }
}

/// Where the server is reached.
pub fn server_url(address: &str) -> (url: String)
    ensures
        url@ == "http://"@ + address@ + "/mcp"@,
{
    concat3("http://", address, "/mcp")
}

/// What is said of a server that failed.
pub fn server_failure_line(error: &str) -> (line: String)
    ensures
        line@ == "MCP server failed: "@ + error@,
{
    concat2("MCP server failed: ", error)
}

/// The size of the scene is told by its objects and samples, and the source by its own words.
pub proof fn a_scene_is_told_by_its_size(info: SceneInfo, compute: ComputeView, world: WorldSnapshot)
    requires
        describes(info, compute, world),
    ensures
        info.objects@ == crate::text::decimal(world.objects@.len()),
        info.samples@ == crate::number::count_text(compute.total_samples as nat),
        info.compute@ == "Compute: "@ + compute.description@,
{
}

/// Each state of a command is named by its own word.
pub proof fn lifecycles_are_named()
    ensures
        CommandLifecycle::Submitted.word() == "Submitted"@,
        CommandLifecycle::Queued.word() == "Queued"@,
        CommandLifecycle::Applied.word() == "Applied"@,
        CommandLifecycle::Rejected.word() == "Rejected"@,
        CommandLifecycle::Cancelled.word() == "Cancelled"@,
{
}

} // verus!
