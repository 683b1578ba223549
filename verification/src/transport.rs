//! The transport bar: file actions, tools, playback, edit history, and the
//! field brush.

use crate::command::{AppAction, CommandPayload, UiFrameOutput};
use crate::compute::ComputeView;
use crate::ids::{listed_in, ChannelId};
use crate::measured::Number;
use crate::model::{UiModel, ViewportTool};
use crate::ordered::MapKey;
use crate::source::{SimulationMode, SnapshotFreshness};
use crate::text::{concat2, concat4, decimal_text, texts};
use vstd::prelude::*;
use vstd::string::*;

verus! {

/// Which controls of the transport bar can be used, and what it says.
#[derive(Debug)]
pub struct MenuState {
    /// A background save disables every file action: opening would discard the
    /// session it is writing, and a second save would race the first.
    pub file_actions_enabled: bool,
    /// Recording is stopped rather than started.
    pub offers_stop: bool,
    pub play_enabled: bool,
    pub pause_enabled: bool,
    pub step_enabled: bool,
    /// Time step and playback speed can be changed.
    pub rates_enabled: bool,
    pub badge: String,
    pub shows_recording: bool,
    pub shows_paused_for_edit: bool,
    pub shows_stale: bool,
    /// How many edits wait, if any do.
    pub queued: Option<String>,
    pub shows_rejected: bool,
}

/// A notice that stands in the bar only while `shown`.
pub open spec fn notice(shown: bool, words: Seq<char>) -> Seq<Seq<char>> {
    if shown {
        seq![words]
    } else {
        Seq::empty()
    }
}

impl MenuState {
    /// What the bar says of the session, in the order it stands there.
    pub open spec fn notice_words(self) -> Seq<Seq<char>> {
        notice(true, self.badge@) + notice(self.shows_recording, "● Recording"@) + notice(
            self.shows_paused_for_edit,
            "⏸ paused for edit"@,
        ) + notice(self.shows_stale, "stale view"@) + match self.queued {
            Some(text) => seq![text@],
            None => Seq::empty(),
        } + notice(self.shows_rejected, "command rejected"@)
    }

    /// What the bar says of the session, in the order it stands there.
    pub fn notices(&self) -> (lines: Vec<String>)
        ensures
            texts(lines@) == self.notice_words(),
    {
        let mut lines: Vec<String> = Vec::new();
        lines.push(self.badge.clone());
        if self.shows_recording {
            lines.push("● Recording".to_owned());
        }
        if self.shows_paused_for_edit {
            lines.push("⏸ paused for edit".to_owned());
        }
        if self.shows_stale {
            lines.push("stale view".to_owned());
        }
        match &self.queued {
            Some(text) => lines.push(text.clone()),
            None => {},
        }
        if self.shows_rejected {
            lines.push("command rejected".to_owned());
        }
        assert(texts(lines@) =~= self.notice_words());
        lines
    }
}

/// What the transport bar shows.
pub fn menu_state(
    model: &UiModel,
    compute: &ComputeView,
    is_recording: bool,
    paused_for_edit: bool,
) -> (state: MenuState)
    ensures
        state.file_actions_enabled == !model.save_in_progress,
        state.offers_stop == is_recording,
        state.play_enabled == (compute.commandable() && compute.mode is Paused),
        state.pause_enabled == (compute.commandable() && compute.mode is Running),
        state.step_enabled == (compute.commandable() && compute.mode is Paused),
        state.rates_enabled == compute.commandable(),
        state.badge@ == "• "@ + compute.state().word(),
        state.shows_recording == is_recording,
        state.shows_paused_for_edit == paused_for_edit,
        state.shows_stale == (compute.freshness == Some(SnapshotFreshness::Stale)),
        state.queued is Some <==> compute.pending_commands > 0,
        state.queued matches Some(text) ==> text@ == crate::text::decimal(
            compute.pending_commands as nat,
        ) + " queued"@,
        state.shows_rejected == (model.command_error is Some),
{
    let live: bool = compute.accepts_commands();
    let paused: bool = compute.mode == SimulationMode::Paused;
    let queued: Option<String> = if compute.pending_commands > 0 {
        Some(concat2(decimal_text(compute.pending_commands as u64).as_str(), " queued"))
    } else {
        None
    };
    MenuState {
        file_actions_enabled: !model.save_in_progress,
        offers_stop: is_recording,
        play_enabled: live && paused,
        pause_enabled: live && !paused,
        step_enabled: live && paused,
        rates_enabled: live,
        badge: concat2("• ", compute.workbench_state().label()),
        shows_recording: is_recording,
        shows_paused_for_edit: paused_for_edit,
        shows_stale: match compute.freshness {
            Some(SnapshotFreshness::Stale) => true,
            _ => false,
        },
        queued,
        shows_rejected: model.command_error.is_some(),
    }
}

/// One use of a control of the transport bar.
#[derive(Clone, Copy, Debug, PartialEq, Eq, Structural)]
pub enum MenuEvent {
    NewEmpty,
    NewDemo,
    Save,
    SaveAs,
    Open,
    StartRecording,
    StopRecording,
    ReplayRecording,
    ReloadCatalog,
    ShowCatalog,
    SetSettings(bool),
    ChooseTool(ViewportTool),
    Play,
    Pause,
    Step,
    /// A new time step in seconds, and whether it is a time step at all.
    TimeStep { seconds: Number, valid: bool },
    /// A new playback multiplier, and whether it is a speed at all.
    Speed { multiplier: Number, valid: bool },
    ToggleHelp,
    SetDiagnostics(bool),
    SetMcp(bool),
    SetQueue(bool),
}

/// The request to the shell that a control stands for, while it can be used.
pub open spec fn menu_app_action(
    event: MenuEvent,
    file_actions: bool,
    is_recording: bool,
) -> Option<AppAction> {
    match event {
        MenuEvent::NewEmpty if file_actions => Some(AppAction::NewScene { template: false }),
        MenuEvent::NewDemo if file_actions => Some(AppAction::NewScene { template: true }),
        MenuEvent::Save if file_actions => Some(AppAction::SaveScene),
        MenuEvent::SaveAs if file_actions => Some(AppAction::SaveSceneAs),
        MenuEvent::Open if file_actions => Some(AppAction::OpenScene),
        MenuEvent::StartRecording if file_actions && !is_recording => Some(AppAction::StartRecording),
        MenuEvent::StopRecording if is_recording => Some(AppAction::StopRecording),
        MenuEvent::ReplayRecording if file_actions => Some(AppAction::ReplayRecording),
        MenuEvent::ReloadCatalog => Some(AppAction::ReloadCatalog),
        _ => None,
    }
}

/// The command a control stands for, while it can be used. A time step or speed
/// is submitted only if it is valid and differs from the current one.
pub open spec fn menu_command(event: MenuEvent, compute: ComputeView) -> Option<CommandPayload> {
    if !compute.commandable() {
        None
    } else {
        match event {
            MenuEvent::Play if compute.mode is Paused => Some(CommandPayload::Play),
            MenuEvent::Pause if compute.mode is Running => Some(CommandPayload::Pause),
            MenuEvent::Step if compute.mode is Paused => Some(CommandPayload::Step),
            MenuEvent::TimeStep { seconds, valid } if valid && !seconds.value_equal(
                compute.time_step_seconds,
            ) => Some(CommandPayload::SetTimeStep(seconds)),
            MenuEvent::Speed { multiplier, valid } if valid && !multiplier.value_equal(
                compute.playback_speed,
            ) => Some(CommandPayload::SetPlaybackSpeed(multiplier)),
            _ => None,
        }
    }
}

/// What a control does to the state of the user interface.
pub open spec fn menu_model(event: MenuEvent, model: UiModel) -> UiModel {
    match event {
        MenuEvent::ShowCatalog => UiModel { catalog_visible: true, ..model },
        MenuEvent::SetSettings(on) => UiModel { settings_visible: on, ..model },
        MenuEvent::ChooseTool(tool) => UiModel {
            viewport_tool: tool,
            field_brush_dialog_open: model.field_brush_dialog_open || tool is FieldBrush,
            ..model
        },
        MenuEvent::ToggleHelp => UiModel { help_visible: !model.help_visible, ..model },
        MenuEvent::SetDiagnostics(on) => UiModel { diagnostics_visible: on, ..model },
        MenuEvent::SetMcp(on) => UiModel { mcp_panel_open: on, ..model },
        MenuEvent::SetQueue(on) => UiModel { queue_panel_open: on, ..model },
        _ => model,
    }
}

/// The output with a request to the shell, if there is one.
pub open spec fn with_app_action(output: UiFrameOutput, action: Option<AppAction>) -> UiFrameOutput {
    match action {
        Some(action) => UiFrameOutput { app_action: Some(action), ..output },
        None => output,
    }
}

/// Whether the output is `before` and one more command, if there is one.
pub open spec fn submits_if(
    after: UiFrameOutput,
    before: UiFrameOutput,
    command: Option<CommandPayload>,
) -> bool {
    match command {
        Some(payload) => after.submits(before, payload),
        None => after == before,
    }
}

fn menu_shell(event: MenuEvent, file_actions: bool, is_recording: bool) -> (action: Option<AppAction>)
    ensures
        action == menu_app_action(event, file_actions, is_recording),
{
    match event {
        MenuEvent::NewEmpty if file_actions => Some(AppAction::NewScene { template: false }),
        MenuEvent::NewDemo if file_actions => Some(AppAction::NewScene { template: true }),
        MenuEvent::Save if file_actions => Some(AppAction::SaveScene),
        MenuEvent::SaveAs if file_actions => Some(AppAction::SaveSceneAs),
        MenuEvent::Open if file_actions => Some(AppAction::OpenScene),
        MenuEvent::StartRecording if file_actions && !is_recording => Some(AppAction::StartRecording),
        MenuEvent::StopRecording if is_recording => Some(AppAction::StopRecording),
        MenuEvent::ReplayRecording if file_actions => Some(AppAction::ReplayRecording),
        MenuEvent::ReloadCatalog => Some(AppAction::ReloadCatalog),
        _ => None,
    }
}

fn menu_transport(event: MenuEvent, compute: &ComputeView) -> (command: Option<CommandPayload>)
    ensures
        command == menu_command(event, *compute),
{
    if !compute.accepts_commands() {
        return None;
    }
    let paused: bool = compute.mode == SimulationMode::Paused;
    match event {
        MenuEvent::Play if paused => Some(CommandPayload::Play),
        MenuEvent::Pause if !paused => Some(CommandPayload::Pause),
        MenuEvent::Step if paused => Some(CommandPayload::Step),
        MenuEvent::TimeStep { seconds, valid } => {
            if valid && !seconds.equals(compute.time_step_seconds) {
                Some(CommandPayload::SetTimeStep(seconds))
            } else {
                None
            }
        },
        MenuEvent::Speed { multiplier, valid } => {
            if valid && !multiplier.equals(compute.playback_speed) {
                Some(CommandPayload::SetPlaybackSpeed(multiplier))
            } else {
                None
            }
        },
        _ => None,
    }
}

/// Open and close windows and choose tools.
#[verifier::spinoff_prover]
#[verifier::rlimit(50)]
fn menu_windows(model: &mut UiModel, event: MenuEvent)
    ensures
        *final(model) == menu_model(event, *old(model)),
{
    match event {
        MenuEvent::ShowCatalog => {
            model.catalog_visible = true;
        },
        MenuEvent::SetSettings(on) => {
            model.settings_visible = on;
        },
        MenuEvent::ChooseTool(tool) => {
            model.viewport_tool = tool;
            model.field_brush_dialog_open = model.field_brush_dialog_open || tool
                == ViewportTool::FieldBrush;
        },
        MenuEvent::ToggleHelp => {
            model.help_visible = !model.help_visible;
        },
        MenuEvent::SetDiagnostics(on) => {
            model.diagnostics_visible = on;
        },
        MenuEvent::SetMcp(on) => {
            model.mcp_panel_open = on;
        },
        MenuEvent::SetQueue(on) => {
            model.queue_panel_open = on;
        },
        _ => {},
    }
}

/// Act on one control of the transport bar.
pub fn menu_bar(
    model: &mut UiModel,
    compute: &ComputeView,
    is_recording: bool,
    event: MenuEvent,
    output: &mut UiFrameOutput,
)
    ensures
        *final(model) == menu_model(event, *old(model)),
        submits_if(
            *final(output),
            with_app_action(
                *old(output),
                menu_app_action(event, !old(model).save_in_progress, is_recording),
            ),
            menu_command(event, *compute),
        ),
{
    match menu_shell(event, !model.save_in_progress, is_recording) {
        Some(action) => {
            output.app_action = Some(action);
        },
        None => {},
    }
    match menu_transport(event, compute) {
        Some(payload) => output.submit(payload),
        None => {},
    }
    menu_windows(model, event);
}

/// A step through the edit history.
#[derive(Clone, Copy, Debug, PartialEq, Eq, Structural)]
pub enum HistoryStep {
    Undo,
    Redo,
}

impl HistoryStep {
    /// What the source would undo or redo.
    pub open spec fn entry(self, compute: ComputeView) -> Option<String> {
        match self {
            HistoryStep::Undo => compute.edit_history.undo,
            HistoryStep::Redo => compute.edit_history.redo,
        }
    }

    pub open spec fn payload(self) -> CommandPayload {
        match self {
            HistoryStep::Undo => CommandPayload::Undo,
            HistoryStep::Redo => CommandPayload::Redo,
        }
    }

    pub open spec fn verb(self) -> Seq<char> {
        match self {
            HistoryStep::Undo => "Undo"@,
            HistoryStep::Redo => "Redo"@,
        }
    }

    /// Whether the step can be taken: the source accepts history commands, no
    /// edit is still being made, and there is something to step to.
    pub open spec fn available(self, compute: ComputeView, edit_in_progress: bool) -> bool {
        compute.history_commandable() && !edit_in_progress && self.entry(compute) is Some
    }

    pub fn enabled(self, compute: &ComputeView, edit_in_progress: bool) -> (b: bool)
        ensures
            b == self.available(*compute, edit_in_progress),
    {
        let offered: bool = match self {
            HistoryStep::Undo => compute.edit_history.undo.is_some(),
            HistoryStep::Redo => compute.edit_history.redo.is_some(),
        };
        compute.accepts_history_commands() && !edit_in_progress && offered
    }
}

/// Why the edit history cannot be stepped through.
pub open spec fn history_reason(compute: ComputeView, edit_in_progress: bool) -> Seq<char> {
    if edit_in_progress {
        "Finish the edit in progress first."@
    } else if !compute.commandable() {
        "The compute source is not accepting commands."@
    } else {
        "Pause the simulation to step through the edit history."@
    }
}

/// What hovering over a history button says.
pub open spec fn history_words(
    step: HistoryStep,
    compute: ComputeView,
    edit_in_progress: bool,
    keys: Seq<char>,
) -> Seq<char> {
    match step.entry(compute) {
        Some(label) => if step.available(compute, edit_in_progress) {
            step.verb() + " · "@ + label@ + "   "@ + keys
        } else {
            step.verb() + " · "@ + label@ + "\n"@ + history_reason(compute, edit_in_progress)
        },
        None => match step {
            HistoryStep::Undo => "Nothing to undo"@,
            HistoryStep::Redo => "Nothing to redo"@,
        },
    }
}

/// What hovering over a history button says; `keys` is its shortcut in words.
pub fn history_hover(step: HistoryStep, compute: &ComputeView, edit_in_progress: bool, keys: &str) -> (
    text: String)
    ensures
        text@ == history_words(step, *compute, edit_in_progress, keys@),
{
    let (entry, verb, nothing): (&Option<String>, &'static str, &'static str) = match step {
        HistoryStep::Undo => (&compute.edit_history.undo, "Undo", "Nothing to undo"),
        HistoryStep::Redo => (&compute.edit_history.redo, "Redo", "Nothing to redo"),
    };
    match entry {
        Some(label) => {
            if step.enabled(compute, edit_in_progress) {
                let mut text = concat4(verb, " · ", label.as_str(), "   ");
                text.append(keys);
                text
            } else {
                let reason: &'static str = if edit_in_progress {
                    "Finish the edit in progress first."
                } else if !compute.accepts_commands() {
                    "The compute source is not accepting commands."
                } else {
                    "Pause the simulation to step through the edit history."
                };
                let mut text = concat4(verb, " · ", label.as_str(), "\n");
                text.append(reason);
                text
            }
        },
        None => nothing.to_owned(),
    }
}

/// Act on a history button or its shortcut.
pub fn history_controls(
    compute: &ComputeView,
    edit_in_progress: bool,
    step: HistoryStep,
    output: &mut UiFrameOutput,
)
    ensures
        submits_if(
            *final(output),
            *old(output),
            if step.available(*compute, edit_in_progress) {
                Some(step.payload())
            } else {
                None
            },
        ),
{
    if step.enabled(compute, edit_in_progress) {
        match step {
            HistoryStep::Undo => output.submit(CommandPayload::Undo),
            HistoryStep::Redo => output.submit(CommandPayload::Redo),
        }
    }
}

/// The edit history is never stepped through while the clock runs, while an edit
/// is still being made, or while there is nothing to step to.
pub proof fn history_needs_a_pause(step: HistoryStep, compute: ComputeView, edit_in_progress: bool)
    requires
        step.available(compute, edit_in_progress),
    ensures
        compute.mode is Paused,
        compute.status is Ready,
        !edit_in_progress,
        step.entry(compute) is Some,
{
}

/// A source that is not ready is sent no transport command.
pub proof fn no_transport_without_a_ready_source(event: MenuEvent, compute: ComputeView)
    requires
        compute.status !is Ready,
    ensures
        menu_command(event, compute) is None,
{
}

/// Playing and pausing are never offered together, and stepping goes with
/// playing.
pub proof fn playing_and_pausing_exclude_each_other(compute: ComputeView)
    ensures
        !(menu_command(MenuEvent::Play, compute) is Some && menu_command(
            MenuEvent::Pause,
            compute,
        ) is Some),
        menu_command(MenuEvent::Play, compute) is Some <==> menu_command(
            MenuEvent::Step,
            compute,
        ) is Some,
{
}

/// While a save is writing the session, no file action gets through but
/// stopping a recording and reloading the catalog.
pub proof fn a_save_holds_back_file_actions(event: MenuEvent, is_recording: bool)
    requires
        menu_app_action(event, false, is_recording) is Some,
    ensures
        event is StopRecording || event is ReloadCatalog,
{
}

/// What the field brush offers for one channel.
#[derive(Debug)]
pub struct BrushChoice {
    pub label: String,
    /// Whether the active solver lets the field be painted.
    pub writable: bool,
    pub selected: bool,
}

/// The field the brush is set to, in words.
pub fn brush_field_label(model: &UiModel, compute: &ComputeView) -> (text: String)
    ensures
        text@ == match model.field_brush.channel {
            Some(channel) => compute.channel_words(channel),
            None => "Choose a field"@,
        },
{
    match &model.field_brush.channel {
        Some(channel) => compute.channel_label(channel),
        None => "Choose a field".to_owned(),
    }
}

/// The choice of one drawable channel for the field brush.
pub fn brush_choice(model: &UiModel, compute: &ComputeView, i: usize) -> (choice: BrushChoice)
    requires
        i < compute.vector_channels.len(),
    ensures
        choice.label@ == compute.channel_words(compute.vector_channels[i as int]),
        choice.writable == crate::ids::lists(
            compute.mutable_vector_channels@,
            compute.vector_channels[i as int]@,
        ),
        choice.selected == (model.field_brush.channel matches Some(channel) && channel@
            == compute.vector_channels[i as int]@),
{
    let channel = &compute.vector_channels[i];
    BrushChoice {
        label: compute.channel_label(channel),
        writable: listed_in(&compute.mutable_vector_channels, channel),
        selected: match &model.field_brush.channel {
            Some(chosen) => chosen.same(channel),
            None => false,
        },
    }
}

/// Set the brush to a channel, if its solver lets it be painted.
pub fn choose_brush_field(model: &mut UiModel, compute: &ComputeView, i: usize)
    requires
        i < compute.vector_channels.len(),
    ensures
        *final(model) == if crate::ids::lists(
            compute.mutable_vector_channels@,
            compute.vector_channels[i as int]@,
        ) {
            UiModel {
                field_brush: crate::model::FieldBrushDraft {
                    channel: Some(compute.vector_channels[i as int]),
                    ..old(model).field_brush
                },
                ..*old(model)
            }
        } else {
            *old(model)
        },
{
    let channel = &compute.vector_channels[i];
    if listed_in(&compute.mutable_vector_channels, channel) {
        model.field_brush.channel = Some(channel.clone());
    }
}

/// What has to happen before the brush paints.
pub fn brush_hint(compute: &ComputeView) -> (s: &'static str)
    ensures
        compute.mode is Running ==> s@ == "Pause simulation to paint."@,
        compute.mode is Paused ==> s@
            == "Select a slice plane, then drag in the viewport. Positive strength follows the plane normal; negative strength reverses it."@,
{
    match compute.mode {
        SimulationMode::Running => "Pause simulation to paint.",
        SimulationMode::Paused => "Select a slice plane, then drag in the viewport. Positive strength follows the plane normal; negative strength reverses it.",
    }
}

/// A command is sent exactly for a control that can be used now: playing and stepping while
/// the clock stands, pausing while it runs, and a time step or speed that is valid and
/// another one, as it was given.
pub proof fn a_control_sends_its_own_command(event: MenuEvent, compute: ComputeView)
    requires
        compute.status is Ready,
    ensures
        event is Play ==> menu_command(event, compute) == if compute.mode == SimulationMode::Paused {
            Some(CommandPayload::Play)
        } else {
            None
        },
        event is Step ==> menu_command(event, compute) == if compute.mode == SimulationMode::Paused {
            Some(CommandPayload::Step)
        } else {
            None
        },
        event is Pause ==> menu_command(event, compute) == if compute.mode == SimulationMode::Running {
            Some(CommandPayload::Pause)
        } else {
            None
        },
        event matches MenuEvent::TimeStep { seconds, valid } ==> menu_command(event, compute) == if valid
            && !seconds.value_equal(compute.time_step_seconds) {
            Some(CommandPayload::SetTimeStep(seconds))
        } else {
            None
        },
        event matches MenuEvent::Speed { multiplier, valid } ==> menu_command(event, compute)
            == if valid && !multiplier.value_equal(compute.playback_speed) {
            Some(CommandPayload::SetPlaybackSpeed(multiplier))
        } else {
            None
        },
        !(event is Play) && !(event is Step) && !(event is Pause) && !(event is TimeStep) && !(
        event is Speed) ==> menu_command(event, compute) is None,
{
}

/// A file control asks the shell for its own action while file actions are free; a recording
/// is started only while none runs and stopped only while one does.
pub proof fn a_file_control_asks_for_its_own_action(event: MenuEvent, free: bool, is_recording: bool)
    ensures
        event is NewEmpty && free ==> menu_app_action(event, free, is_recording) == Some(
            AppAction::NewScene { template: false },
        ),
        event is NewDemo && free ==> menu_app_action(event, free, is_recording) == Some(
            AppAction::NewScene { template: true },
        ),
        event is Save && free ==> menu_app_action(event, free, is_recording) == Some(
            AppAction::SaveScene,
        ),
        event is SaveAs && free ==> menu_app_action(event, free, is_recording) == Some(
            AppAction::SaveSceneAs,
        ),
        event is Open && free ==> menu_app_action(event, free, is_recording) == Some(
            AppAction::OpenScene,
        ),
        event is ReplayRecording && free ==> menu_app_action(event, free, is_recording) == Some(
            AppAction::ReplayRecording,
        ),
        event is StartRecording ==> menu_app_action(event, free, is_recording) == if free
            && !is_recording {
            Some(AppAction::StartRecording)
        } else {
            None
        },
        event is StopRecording ==> menu_app_action(event, free, is_recording) == if is_recording {
            Some(AppAction::StopRecording)
        } else {
            None
        },
        event is ReloadCatalog ==> menu_app_action(event, free, is_recording) == Some(
            AppAction::ReloadCatalog,
        ),
        event is Play || event is Pause || event is Step || event is TimeStep || event is Speed
            || event is ChooseTool || event is ShowCatalog || event is SetSettings
            || event is ToggleHelp || event is SetDiagnostics || event is SetMcp || event is SetQueue
            ==> menu_app_action(event, free, is_recording) is None,
{
}

/// A window control opens or closes its own window and changes nothing else; choosing the
/// field brush opens its settings, and choosing another tool leaves them as they are.
pub proof fn a_window_control_touches_its_own_window(event: MenuEvent, model: UiModel)
    ensures
        event is ShowCatalog ==> menu_model(event, model) == (UiModel { catalog_visible: true, ..model }),
        event matches MenuEvent::SetSettings(on) ==> menu_model(event, model) == (UiModel {
            settings_visible: on,
            ..model
        }),
        event matches MenuEvent::SetDiagnostics(on) ==> menu_model(event, model) == (UiModel {
            diagnostics_visible: on,
            ..model
        }),
        event matches MenuEvent::SetMcp(on) ==> menu_model(event, model) == (UiModel {
            mcp_panel_open: on,
            ..model
        }),
        event matches MenuEvent::SetQueue(on) ==> menu_model(event, model) == (UiModel {
            queue_panel_open: on,
            ..model
        }),
        event is ToggleHelp ==> menu_model(event, model) == (UiModel {
            help_visible: !model.help_visible,
            ..model
        }),
        event matches MenuEvent::ChooseTool(tool) ==> menu_model(event, model) == (UiModel {
            viewport_tool: tool,
            field_brush_dialog_open: if tool == ViewportTool::FieldBrush {
                true
            } else {
                model.field_brush_dialog_open
            },
            ..model
        }),
        event is Play || event is Pause || event is Step || event is TimeStep || event is Speed
            || event is NewEmpty || event is NewDemo || event is Save || event is SaveAs
            || event is Open || event is StartRecording || event is StopRecording
            || event is ReplayRecording || event is ReloadCatalog ==> menu_model(event, model) == model,
{
}

/// A request to the shell is the only thing it changes, and a command comes last.
pub proof fn requests_and_commands_add_to_the_frame(
    output: UiFrameOutput,
    action: Option<AppAction>,
    after: UiFrameOutput,
    command: Option<CommandPayload>,
)
    requires
        submits_if(after, with_app_action(output, action), command),
    ensures
        action is Some ==> after.app_action == action,
        action is None ==> after.app_action == output.app_action,
        after.catalog_action == output.catalog_action,
        after.camera_action == output.camera_action,
        after.mcp_action == output.mcp_action,
        after.scene_edit_in_progress == output.scene_edit_in_progress,
        command is None ==> after.commands@ == output.commands@,
        command matches Some(payload) ==> after.commands@ == output.commands@.push(payload),
{
}

/// A history step undoes with undo and redoes with redo, exactly where there is something to
/// step to, the clock stands, the source is ready and no edit is being made.
pub proof fn a_step_goes_its_own_way(compute: ComputeView, edit: bool)
    ensures
        HistoryStep::Undo.available(compute, edit) <==> compute.status is Ready && compute.mode
            == SimulationMode::Paused && !edit && compute.edit_history.undo is Some,
        HistoryStep::Redo.available(compute, edit) <==> compute.status is Ready && compute.mode
            == SimulationMode::Paused && !edit && compute.edit_history.redo is Some,
        HistoryStep::Undo.payload() == CommandPayload::Undo,
        HistoryStep::Redo.payload() == CommandPayload::Redo,
        HistoryStep::Undo.verb() == "Undo"@,
        HistoryStep::Redo.verb() == "Redo"@,
        HistoryStep::Undo.entry(compute) == compute.edit_history.undo,
        HistoryStep::Redo.entry(compute) == compute.edit_history.redo,
{
}

/// A step that cannot be taken says why: an edit first, then the source, then the clock.
pub proof fn a_refused_step_says_why(
    step: HistoryStep,
    compute: ComputeView,
    edit: bool,
    keys: Seq<char>,
    label: String,
)
    ensures
        step.entry(compute) == Some(label) && step.available(compute, edit) ==> history_words(
            step,
            compute,
            edit,
            keys,
        ) == step.verb() + " · "@ + label@ + "   "@ + keys,
        step.entry(compute) == Some(label) && edit ==> history_words(step, compute, edit, keys)
            == step.verb() + " · "@ + label@ + "\n"@ + "Finish the edit in progress first."@,
        step.entry(compute) == Some(label) && !edit && !(compute.status is Ready) ==> history_words(
            step,
            compute,
            edit,
            keys,
        ) == step.verb() + " · "@ + label@ + "\n"@ + "The compute source is not accepting commands."@,
        step.entry(compute) == Some(label) && !edit && compute.status is Ready && compute.mode
            == SimulationMode::Running ==> history_words(step, compute, edit, keys) == step.verb() + " · "@
            + label@ + "\n"@ + "Pause the simulation to step through the edit history."@,
        step.entry(compute) is None && step is Undo ==> history_words(step, compute, edit, keys)
            == "Nothing to undo"@,
        step.entry(compute) is None && step is Redo ==> history_words(step, compute, edit, keys)
            == "Nothing to redo"@,
{
}

/// The bar starts with the state, and says of the session exactly what holds, in order.
pub proof fn the_bar_says_what_holds(state: MenuState)
    ensures
        state.notice_words().len() >= 1 && state.notice_words()[0] == state.badge@,
        state.shows_recording ==> state.notice_words()[1] == "● Recording"@,
        !state.shows_recording && state.shows_paused_for_edit ==> state.notice_words()[1]
            == "⏸ paused for edit"@,
        state.shows_rejected ==> state.notice_words().last() == "command rejected"@,
        !state.shows_rejected ==> (state.queued matches Some(text) ==> state.notice_words().last()
            == text@),
        !state.shows_rejected && state.queued is None && state.shows_stale
            ==> state.notice_words().last() == "stale view"@,
        state.notice_words().len() == 1 + (if state.shows_recording {
            1int
        } else {
            0
        }) + (if state.shows_paused_for_edit {
            1int
        } else {
            0
        }) + (if state.shows_stale {
            1int
        } else {
            0
        }) + (if state.queued is Some {
            1int
        } else {
            0
        }) + (if state.shows_rejected {
            1int
        } else {
            0
        }),
{
}

} // verus!
