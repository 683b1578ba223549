//! What a frame of the user interface asks for.

use crate::catalog::MapRow;
use crate::expression::ExpressionCommand;
use crate::ids::{ChannelId, CommandId, DistanceProbeId, ObjectId, PluginId, SchemeId};
use crate::measured::{zero, Number, Vec2};
use crate::source::{Domain, Subscription};
use crate::world::{CatalogReference, Component, ObjectShape, PropertyBag, WorldCommand};
use vstd::prelude::*;

verus! {

/// A request to the authority.
#[allow(inconsistent_fields)]
#[derive(Debug, PartialEq, Eq)]
pub enum CommandPayload {
    Play,
    Pause,
    Step,
    Undo,
    Redo,
    SetTimeStep(Number),
    SetPlaybackSpeed(Number),
    SetSceneScale(Number),
    SetIntegrationScheme(SchemeId),
    CommitWorld(Vec<WorldCommand>),
    CommitExpressions(Vec<ExpressionCommand>),
    ReconfigureDomain(Domain),
    SetFieldModel { channel: ChannelId, provider: Option<PluginId> },
    SetFieldSystemEnabled { plugin: PluginId, enabled: bool },
    SetFieldSystemRealtime { plugin: PluginId, realtime: bool },
    SetFieldSystemConfiguration { plugin: PluginId, configuration: PropertyBag },
    SetSubscription(Subscription),
    PauseQueue,
    ResumeQueue,
    CancelQueuedCommand(CommandId),
}

/// A standard viewpoint.
#[derive(Clone, Copy, Debug, PartialEq, Eq, Structural)]
pub enum AxisView {
    PositiveX,
    NegativeX,
    PositiveY,
    NegativeY,
    PositiveZ,
    NegativeZ,
}

impl AxisView {
    pub fn label(self) -> (s: &'static str)
        ensures
            self is PositiveX ==> s@ == "+X"@,
            self is NegativeX ==> s@ == "−X"@,
            self is PositiveY ==> s@ == "+Y"@,
            self is NegativeY ==> s@ == "−Y"@,
            self is PositiveZ ==> s@ == "+Z"@,
            self is NegativeZ ==> s@ == "−Z"@,
    {
        match self {
            AxisView::PositiveX => "+X",
            AxisView::NegativeX => "−X",
            AxisView::PositiveY => "+Y",
            AxisView::NegativeY => "−Y",
            AxisView::PositiveZ => "+Z",
            AxisView::NegativeZ => "−Z",
        }
    }
}

/// How the camera maps the scene to the screen.
#[derive(Clone, Copy, Debug, PartialEq, Eq, Structural)]
pub enum Projection {
    Perspective,
    Orthographic,
}

impl Projection {
    pub fn label(self) -> (s: &'static str)
        ensures
            self is Perspective ==> s@ == "Perspective"@,
            self is Orthographic ==> s@ == "Orthographic"@,
    {
        match self {
            Projection::Perspective => "Perspective",
            Projection::Orthographic => "Orthographic",
        }
    }
}

/// A request to the camera.
#[derive(Clone, Copy, Debug, PartialEq, Eq)]
pub enum CameraAction {
    Axis(AxisView),
    FocusSelection,
    Reset,
    SetProjection(Projection),
    /// Lock the camera onto an object, or let go of it.
    ToggleFollow(ObjectId),
    SetDistance(Number),
    SetYaw(Number),
    SetPitch(Number),
}

/// A request to the application shell.
#[derive(Clone, Copy, Debug, PartialEq, Eq)]
pub enum AppAction {
    NewScene { template: bool },
    SaveScene,
    SaveSceneAs,
    OpenScene,
    StartRecording,
    StopRecording,
    ReplayRecording,
    ReloadCatalog,
    /// Save the recorded history of one distance probe to a file of its own.
    ExportObservations(DistanceProbeId),
}

/// A request to start or stop the embedded server.
#[derive(Clone, Copy, Debug, PartialEq, Eq, Structural)]
pub enum McpAction {
    Enable,
    Disable,
}

/// A request to the catalog.
#[allow(inconsistent_fields)]
#[derive(Debug, PartialEq, Eq)]
pub enum CatalogAction {
    Open(Option<CatalogReference>),
    BeginLink { object: ObjectId },
    CreateGlobal { catalog: String, template: String },
    CreateDocument { catalog: String, template: String },
    SetQuickAddHidden { entry: CatalogReference, hidden: bool },
    SaveEntry {
        entry: CatalogReference,
        catalog: String,
        template: String,
        description: String,
        author: String,
        labels: Vec<MapRow>,
        annotations: Vec<MapRow>,
        object_kind: String,
        shape: Option<ObjectShape>,
        components: Vec<Component>,
    },
    DeleteEntry { entry: CatalogReference },
}

/// What the pointer did in the 3D view this frame.
#[derive(Clone, Copy, Debug, PartialEq, Eq, Structural)]
pub struct ViewportGesture {
    pub pointer_position: Option<Vec2>,
    pub drag_delta: Vec2,
    pub middle_dragged: bool,
    pub shift: bool,
    pub scroll_delta: Number,
    pub primary_clicked: bool,
    pub primary_pressed: bool,
    pub primary_released: bool,
    pub primary_dragged: bool,
}

impl ViewportGesture {
    /// No gesture: the pointer is away and nothing is pressed, dragged or scrolled.
    pub open spec fn rest() -> Self {
        ViewportGesture {
            pointer_position: None,
            drag_delta: Vec2 { x: zero(), y: zero() },
            middle_dragged: false,
            shift: false,
            scroll_delta: zero(),
            primary_clicked: false,
            primary_pressed: false,
            primary_released: false,
            primary_dragged: false,
        }
    }
}

/// The pointer as the window system reports it.
#[derive(Clone, Copy, Debug, PartialEq, Eq, Structural)]
pub struct PointerInput {
    pub position: Option<Vec2>,
    pub delta: Vec2,
    pub scroll: Number,
    pub shift: bool,
    /// Whether the pointer is over the 3D view and nothing floats between.
    pub over_view: bool,
    pub middle_dragged: bool,
    pub primary_dragged: bool,
    pub primary_clicked: bool,
    pub primary_pressed: bool,
    pub primary_released: bool,
}

/// The gesture a pointer makes: motion counts only while something is dragged,
/// and scrolling and pressing only over the 3D view.
pub fn viewport_gesture(input: PointerInput) -> (gesture: ViewportGesture)
    ensures
        gesture == (ViewportGesture {
            pointer_position: input.position,
            drag_delta: if input.middle_dragged || input.primary_dragged {
                input.delta
            } else {
                Vec2 { x: zero(), y: zero() }
            },
            middle_dragged: input.middle_dragged,
            shift: input.shift,
            scroll_delta: if input.over_view {
                input.scroll
            } else {
                zero()
            },
            primary_clicked: input.primary_clicked,
            primary_pressed: input.over_view && input.primary_pressed,
            primary_released: input.primary_released,
            primary_dragged: input.primary_dragged,
        }),
{
    ViewportGesture {
        pointer_position: input.position,
        drag_delta: if input.middle_dragged || input.primary_dragged {
            input.delta
        } else {
            Vec2 { x: zero(), y: zero() }
        },
        middle_dragged: input.middle_dragged,
        shift: input.shift,
        scroll_delta: if input.over_view {
            input.scroll
        } else {
            zero()
        },
        primary_clicked: input.primary_clicked,
        primary_pressed: input.over_view && input.primary_pressed,
        primary_released: input.primary_released,
        primary_dragged: input.primary_dragged,
    }
}

/// Everything a frame asks for.
#[derive(Debug)]
pub struct UiFrameOutput {
    pub viewport_gesture: ViewportGesture,
    pub camera_action: Option<CameraAction>,
    /// Every command the frame produced, in the order the widgets produced it.
    ///
    /// A single slot would silently discard all but the last, so two controls
    /// changing in one frame would lose an edit.
    pub commands: Vec<CommandPayload>,
    /// Whether a control that edits the world is being held this frame: a drag
    /// in progress, or a value being typed but not yet committed.
    pub scene_edit_in_progress: bool,
    pub mcp_action: Option<McpAction>,
    pub app_action: Option<AppAction>,
    pub catalog_action: Option<CatalogAction>,
}

impl UiFrameOutput {
    /// The output of a frame in which nothing happened.
    pub open spec fn silent(self) -> bool {
        &&& self.viewport_gesture == ViewportGesture::rest()
        &&& self.camera_action is None
        &&& self.commands@.len() == 0
        &&& !self.scene_edit_in_progress
        &&& self.mcp_action is None
        &&& self.app_action is None
        &&& self.catalog_action is None
    }

    /// Whether only the list of commands differs.
    pub open spec fn differs_in_commands(self, other: Self) -> bool {
        &&& self.viewport_gesture == other.viewport_gesture
        &&& self.camera_action == other.camera_action
        &&& self.scene_edit_in_progress == other.scene_edit_in_progress
        &&& self.mcp_action == other.mcp_action
        &&& self.app_action == other.app_action
        &&& self.catalog_action == other.catalog_action
    }

    /// Whether the output is `before` and one more command.
    pub open spec fn submits(self, before: Self, payload: CommandPayload) -> bool {
        self.differs_in_commands(before) && self.commands@ == before.commands@.push(payload)
    }

    /// Whether the output is `before` and one more transaction of one edit.
    pub open spec fn edits(self, before: Self, command: WorldCommand) -> bool {
        &&& self.differs_in_commands(before)
        &&& self.commands@.len() == before.commands@.len() + 1
        &&& self.commands@.drop_last() == before.commands@
        &&& self.commands@.last() matches CommandPayload::CommitWorld(list) && list@ == seq![command]
    }

    /// Whether the output is `before` and one more transaction of one edit, of
    /// which something holds.
    pub open spec fn edits_like(self, before: Self, holds: spec_fn(WorldCommand) -> bool) -> bool {
        &&& self.differs_in_commands(before)
        &&& self.commands@.len() == before.commands@.len() + 1
        &&& self.commands@.drop_last() == before.commands@
        &&& self.commands@.last() matches CommandPayload::CommitWorld(list) && list@.len() == 1
            && holds(list@[0])
    }

    /// Whether the output is `before` and one more edit of the expressions.
    pub open spec fn commits(self, before: Self, edits: Seq<ExpressionCommand>) -> bool {
        self.commits_all(before, seq![edits])
    }

    /// Whether the output is `before` and these edits of the expressions, in order.
    pub open spec fn commits_all(self, before: Self, lists: Seq<Seq<ExpressionCommand>>) -> bool {
        &&& self.differs_in_commands(before)
        &&& self.commands@.len() == before.commands@.len() + lists.len()
        &&& self.commands@.take(before.commands@.len() as int) == before.commands@
        &&& forall|i: int|
            0 <= i < lists.len() ==> (
            #[trigger] self.commands@[before.commands@.len() + i] matches CommandPayload::CommitExpressions(
                list,
            ) && list@ == lists[i])
    }

    /// Whether the output is `before` and one more edit of the expressions, a
    /// single one of which something holds.
    pub open spec fn commits_like(self, before: Self, holds: spec_fn(ExpressionCommand) -> bool) -> bool {
        &&& self.differs_in_commands(before)
        &&& self.commands@.len() == before.commands@.len() + 1
        &&& self.commands@.drop_last() == before.commands@
        &&& self.commands@.last() matches CommandPayload::CommitExpressions(list) && list@.len() == 1
            && holds(list@[0])
    }

    /// Submit a command.
    pub fn submit(&mut self, payload: CommandPayload)
        ensures
            final(self).submits(*old(self), payload),
    {
        self.commands.push(payload);
    }

    /// Submit a world transaction: one atomic edit at one revision.
    pub fn edit(&mut self, commands: Vec<WorldCommand>)
        ensures
            final(self).submits(*old(self), CommandPayload::CommitWorld(commands)),
    {
        self.submit(CommandPayload::CommitWorld(commands));
    }

    /// Submit a single edit of the expressions.
    pub fn commit_one(&mut self, command: ExpressionCommand)
        ensures
            final(self).commits(*old(self), seq![command]),
            final(self).commands@.drop_last() == old(self).commands@,
            final(self).commands@.last() matches CommandPayload::CommitExpressions(list) && list@
                == seq![command],
    {
        let mut list: Vec<ExpressionCommand> = Vec::new();
        list.push(command);
        assert(list@ =~= seq![command]);
        self.submit(CommandPayload::CommitExpressions(list));
        assert(self.commands@.drop_last() =~= old(self).commands@);
        assert(self.commands@.take(old(self).commands@.len() as int) =~= old(self).commands@);
    }

    /// Submit a world transaction of a single edit.
    pub fn edit_one(&mut self, command: WorldCommand)
        ensures
            final(self).edits(*old(self), command),
    {
        let mut commands: Vec<WorldCommand> = Vec::new();
        commands.push(command);
        assert(commands@ =~= seq![command]);
        self.edit(commands);
        assert(self.commands@.drop_last() =~= old(self).commands@);
    }
}

impl Default for UiFrameOutput {
    fn default() -> (output: Self)
        ensures
            output.silent(),
    {
        UiFrameOutput {
            viewport_gesture: ViewportGesture {
                pointer_position: None,
                drag_delta: Vec2 { x: zero(), y: zero() },
                middle_dragged: false,
                shift: false,
                scroll_delta: zero(),
                primary_clicked: false,
                primary_pressed: false,
                primary_released: false,
                primary_dragged: false,
            },
            camera_action: None,
            commands: Vec::new(),
            scene_edit_in_progress: false,
            mcp_action: None,
            app_action: None,
            catalog_action: None,
        }
    }
}

/// A later command never displaces an earlier one, nor its place in the order.
pub proof fn commands_keep_their_order(
    first: UiFrameOutput,
    second: UiFrameOutput,
    third: UiFrameOutput,
    a: CommandPayload,
    b: CommandPayload,
    i: int,
)
    requires
        second.submits(first, a),
        third.submits(second, b),
    ensures
        0 <= i < first.commands@.len() ==> third.commands@[i] == first.commands@[i],
        third.commands@[first.commands@.len() as int] == a,
        third.commands@[first.commands@.len() as int + 1] == b,
        third.commands@.len() == first.commands@.len() + 2,
{
}

/// An edit adds one transaction of exactly that edit behind every earlier command, and asks
/// for nothing else.
pub proof fn an_edit_adds_one_transaction(after: UiFrameOutput, before: UiFrameOutput, command: WorldCommand)
    requires
        after.edits(before, command),
    ensures
        after.commands@.len() == before.commands@.len() + 1,
        forall|i: int| 0 <= i < before.commands@.len() ==> after.commands@[i] == before.commands@[i],
        after.commands@[before.commands@.len() as int] matches CommandPayload::CommitWorld(list) && list@
            == seq![command],
        after.app_action == before.app_action,
        after.camera_action == before.camera_action,
        after.catalog_action == before.catalog_action,
        after.mcp_action == before.mcp_action,
        after.viewport_gesture == before.viewport_gesture,
        after.scene_edit_in_progress == before.scene_edit_in_progress,
{
    assert(after.commands@.drop_last() == before.commands@);
    assert forall|i: int| 0 <= i < before.commands@.len() implies after.commands@[i]
        == before.commands@[i] by {
        assert(after.commands@.drop_last()[i] == after.commands@[i]);
    }
}

/// A submitted command comes last, behind every earlier one, and nothing else is asked for.
pub proof fn a_command_comes_last(after: UiFrameOutput, before: UiFrameOutput, payload: CommandPayload)
    requires
        after.submits(before, payload),
    ensures
        after.commands@.len() == before.commands@.len() + 1,
        after.commands@.last() == payload,
        forall|i: int| 0 <= i < before.commands@.len() ==> after.commands@[i] == before.commands@[i],
        after.app_action == before.app_action,
        after.camera_action == before.camera_action,
        after.catalog_action == before.catalog_action,
        after.mcp_action == before.mcp_action,
        after.viewport_gesture == before.viewport_gesture,
        after.scene_edit_in_progress == before.scene_edit_in_progress,
{
}

/// A frame in which nothing happened asks for nothing and reports no gesture.
pub proof fn a_silent_frame_asks_for_nothing(output: UiFrameOutput)
    requires
        output.silent(),
    ensures
        output.commands@.len() == 0,
        output.camera_action is None,
        output.app_action is None,
        output.catalog_action is None,
        output.mcp_action is None,
        !output.scene_edit_in_progress,
        output.viewport_gesture.pointer_position is None,
        output.viewport_gesture.drag_delta == (Vec2 { x: zero(), y: zero() }),
        output.viewport_gesture.scroll_delta == zero(),
        !output.viewport_gesture.shift,
        !output.viewport_gesture.middle_dragged,
        !output.viewport_gesture.primary_clicked,
        !output.viewport_gesture.primary_pressed,
        !output.viewport_gesture.primary_released,
        !output.viewport_gesture.primary_dragged,
{
}

} // verus!
