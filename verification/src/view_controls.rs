//! Camera and display controls, floating over the 3D view.
//!
//! Nothing here edits the world: every control changes only how the scene is
//! presented.

use crate::command::{AxisView, CameraAction, CommandPayload, Projection, UiFrameOutput};
use crate::compute::ComputeView;
use crate::measured::Number;
use crate::model::UiModel;
use crate::text::concat2;
use crate::world::WorldSnapshot;
use vstd::prelude::*;
use vstd::string::*;

verus! {

impl Projection {
    /// The projections in the order they are offered.
    pub fn all() -> (projections: [Projection; 2])
        ensures
            projections@ == seq![Projection::Perspective, Projection::Orthographic],
    {
        [Projection::Perspective, Projection::Orthographic]
    }
}

impl AxisView {
    /// The viewpoints in the order they are offered, each axis's pair adjacent.
    pub fn all() -> (views: [AxisView; 6])
        ensures
            views@ == seq![
                AxisView::PositiveX,
                AxisView::NegativeX,
                AxisView::PositiveY,
                AxisView::NegativeY,
                AxisView::PositiveZ,
                AxisView::NegativeZ,
            ],
    {
        [
            AxisView::PositiveX,
            AxisView::NegativeX,
            AxisView::PositiveY,
            AxisView::NegativeY,
            AxisView::PositiveZ,
            AxisView::NegativeZ,
        ]
    }
}

/// What the user asked of the camera.
#[derive(Clone, Copy, Debug, PartialEq, Eq, Structural)]
pub enum CameraInput {
    Projection(Projection),
    Axis(AxisView),
    Focus,
    Reset,
    StopFollowing,
    Distance(Number),
    Yaw(Number),
    Pitch(Number),
}

/// The action the camera is asked for. The projection it has is not chosen again,
/// only a selected thing is focused, and distance and angle are set only while the
/// camera follows an object.
pub open spec fn camera_choice(
    model: UiModel,
    projection: Projection,
    input: CameraInput,
) -> Option<CameraAction> {
    match input {
        CameraInput::Projection(chosen) => if chosen == projection {
            None
        } else {
            Some(CameraAction::SetProjection(chosen))
        },
        CameraInput::Axis(view) => Some(CameraAction::Axis(view)),
        CameraInput::Focus => if model.selected() is Some {
            Some(CameraAction::FocusSelection)
        } else {
            None
        },
        CameraInput::Reset => Some(CameraAction::Reset),
        CameraInput::StopFollowing => match model.following {
            Some(object) => Some(CameraAction::ToggleFollow(object)),
            None => None,
        },
        CameraInput::Distance(distance) => if model.following is Some {
            Some(CameraAction::SetDistance(distance))
        } else {
            None
        },
        CameraInput::Yaw(yaw) => if model.following is Some {
            Some(CameraAction::SetYaw(yaw))
        } else {
            None
        },
        CameraInput::Pitch(pitch) => if model.following is Some {
            Some(CameraAction::SetPitch(pitch))
        } else {
            None
        },
    }
}

fn camera_action(model: &UiModel, projection: Projection, input: CameraInput) -> (action: Option<
    CameraAction,
>)
    ensures
        action == camera_choice(*model, projection, input),
{
    match input {
        CameraInput::Projection(chosen) => if chosen == projection {
            None
        } else {
            Some(CameraAction::SetProjection(chosen))
        },
        CameraInput::Axis(view) => Some(CameraAction::Axis(view)),
        CameraInput::Focus => if model.scene_selection().is_some() {
            Some(CameraAction::FocusSelection)
        } else {
            None
        },
        CameraInput::Reset => Some(CameraAction::Reset),
        CameraInput::StopFollowing => match model.following {
            Some(object) => Some(CameraAction::ToggleFollow(object)),
            None => None,
        },
        CameraInput::Distance(distance) => if model.following.is_some() {
            Some(CameraAction::SetDistance(distance))
        } else {
            None
        },
        CameraInput::Yaw(yaw) => if model.following.is_some() {
            Some(CameraAction::SetYaw(yaw))
        } else {
            None
        },
        CameraInput::Pitch(pitch) => if model.following.is_some() {
            Some(CameraAction::SetPitch(pitch))
        } else {
            None
        },
    }
}

/// Act on the camera controls. They never edit the world.
pub fn camera_controls(
    model: &UiModel,
    projection: Projection,
    input: CameraInput,
    output: &mut UiFrameOutput,
)
    ensures
        *final(output) == match camera_choice(*model, projection, input) {
            Some(action) => UiFrameOutput { camera_action: Some(action), ..*old(output) },
            None => *old(output),
        },
        final(output).commands@ == old(output).commands@,
{
    if let Some(action) = camera_action(model, projection, input) {
        output.camera_action = Some(action);
    }
}

/// What is said while the camera follows an object.
pub fn follow_line(model: &UiModel, world: &WorldSnapshot) -> (line: Option<String>)
    ensures
        match model.following {
            None => line is None,
            Some(id) => line matches Some(text) && text@ == "Following: "@
                + crate::probe_inspector::object_words(*world, id, "(deleted)"@),
        },
{
    match model.following {
        None => None,
        Some(id) => {
            let name = crate::probe_inspector::object_name(world, id, "(deleted)");
            Some(concat2("Following: ", name.as_str()))
        },
    }
}

/// A named scale of the scene.
#[derive(Clone, Copy, Debug, PartialEq, Eq, Structural)]
pub enum ScalePreset {
    Nanometre,
    Micrometre,
    Millimetre,
    Metre,
    Kilometre,
    AstronomicalUnit,
    LightYear,
}

impl ScalePreset {
    /// The presets from the smallest to the largest.
    pub fn all() -> (presets: [ScalePreset; 7])
        ensures
            presets@ == seq![
                ScalePreset::Nanometre,
                ScalePreset::Micrometre,
                ScalePreset::Millimetre,
                ScalePreset::Metre,
                ScalePreset::Kilometre,
                ScalePreset::AstronomicalUnit,
                ScalePreset::LightYear,
            ],
    {
        [
            ScalePreset::Nanometre,
            ScalePreset::Micrometre,
            ScalePreset::Millimetre,
            ScalePreset::Metre,
            ScalePreset::Kilometre,
            ScalePreset::AstronomicalUnit,
            ScalePreset::LightYear,
        ]
    }

    pub open spec fn word(self) -> Seq<char> {
        match self {
            ScalePreset::Nanometre => "Nanometre"@,
            ScalePreset::Micrometre => "Micrometre"@,
            ScalePreset::Millimetre => "Millimetre"@,
            ScalePreset::Metre => "Metre (default)"@,
            ScalePreset::Kilometre => "Kilometre"@,
            ScalePreset::AstronomicalUnit => "Astronomical unit"@,
            ScalePreset::LightYear => "Light-year"@,
        }
    }

    pub fn label(self) -> (s: &'static str)
        ensures
            s@ == self.word(),
    {
        match self {
            ScalePreset::Nanometre => "Nanometre",
            ScalePreset::Micrometre => "Micrometre",
            ScalePreset::Millimetre => "Millimetre",
            ScalePreset::Metre => "Metre (default)",
            ScalePreset::Kilometre => "Kilometre",
            ScalePreset::AstronomicalUnit => "Astronomical unit",
            ScalePreset::LightYear => "Light-year",
        }
    }
}

/// A preset and how many metres it is.
#[derive(Clone, Copy, Debug, PartialEq, Eq, Structural)]
pub struct NamedScale {
    pub preset: ScalePreset,
    pub metres: Number,
}

/// The name of a scale, searching the presets from position `n`.
pub open spec fn scale_words(scales: Seq<NamedScale>, scale: Number, n: nat) -> Seq<char>
    decreases scales.len() - n,
{
    if n >= scales.len() {
        "Custom"@
    } else if scales[n as int].metres.value_equal(scale) {
        scales[n as int].preset.word()
    } else {
        scale_words(scales, scale, n + 1)
    }
}

/// The name of a scale: that of the preset it is, if it is one.
pub fn scene_scale_label(scale: Number, scales: &Vec<NamedScale>) -> (s: &'static str)
    ensures
        s@ == scale_words(scales@, scale, 0),
{
    let mut i: usize = 0;
    while i < scales.len()
        invariant
            i <= scales.len(),
            scale_words(scales@, scale, 0) == scale_words(scales@, scale, i as nat),
        decreases scales.len() - i,
    {
        if scales[i].metres.equals(scale) {
            return scales[i].preset.label();
        }
        i = i + 1;
    }
    "Custom"
}

/// Choose a preset as the scale of the scene, unless it has it.
pub fn choose_scale(compute: &ComputeView, preset: Number, output: &mut UiFrameOutput)
    ensures
        if compute.scene_scale.value_equal(preset) {
            *final(output) == *old(output)
        } else {
            final(output).submits(*old(output), CommandPayload::SetSceneScale(preset))
        },
{
    if !compute.scene_scale.equals(preset) {
        output.submit(CommandPayload::SetSceneScale(preset));
    }
}

/// Type in a scale of the scene, which has to be one and another one.
pub fn type_scale(compute: &ComputeView, metres: Number, valid: bool, output: &mut UiFrameOutput)
    ensures
        if compute.commandable() && valid && !metres.value_equal(compute.scene_scale) {
            final(output).submits(*old(output), CommandPayload::SetSceneScale(metres))
        } else {
            *final(output) == *old(output)
        },
{
    if compute.accepts_commands() && valid && !metres.equals(compute.scene_scale) {
        output.submit(CommandPayload::SetSceneScale(metres));
    }
}

/// Whether the view window lists the published fields.
pub fn field_section_shown(compute: &ComputeView) -> (b: bool)
    ensures
        b == (compute.vector_channels@.len() > 0),
{
    compute.vector_channels.len() > 0
}

/// The floating windows of a frame.
#[derive(Clone, Copy, Debug, PartialEq, Eq, Structural)]
pub struct FrameWindows {
    pub help: bool,
    pub diagnostics: bool,
    pub mcp: bool,
    pub queue: bool,
    pub settings: bool,
    pub catalog: bool,
    pub field_brush: bool,
}

/// The floating windows that are open.
pub fn frame_windows(model: &UiModel) -> (windows: FrameWindows)
    ensures
        windows == (FrameWindows {
            help: model.help_visible,
            diagnostics: model.diagnostics_visible,
            mcp: model.mcp_panel_open,
            queue: model.queue_panel_open,
            settings: model.settings_visible,
            catalog: model.catalog_visible,
            field_brush: model.field_brush_dialog_open,
        }),
{
    FrameWindows {
        help: model.help_visible,
        diagnostics: model.diagnostics_visible,
        mcp: model.mcp_panel_open,
        queue: model.queue_panel_open,
        settings: model.settings_visible,
        catalog: model.catalog_visible,
        field_brush: model.field_brush_dialog_open,
    }
}

/// Begin a frame: every published field gets its layer, and nothing is asked for
/// yet.
pub fn show(model: &mut UiModel, compute: &ComputeView) -> (output: UiFrameOutput)
    ensures
        *final(model) == (UiModel { field_layers: final(model).field_layers, ..*old(model) }),
        crate::field_layers::synchronizes(
            old(model).field_layers.map(),
            final(model).field_layers.map(),
            compute.vector_channels@,
        ),
        output.silent(),
{
    model.synchronize_field_layers(compute);
    UiFrameOutput::default()
}

/// The camera does what it is asked for: it takes another projection, looks along the axis
/// that was chosen, resets, and looks at what is selected if anything is.
pub proof fn the_camera_does_as_it_is_asked(model: UiModel, now: Projection, chosen: Projection, view: AxisView)
    ensures
        chosen != now ==> camera_choice(model, now, CameraInput::Projection(chosen)) == Some(
            CameraAction::SetProjection(chosen),
        ),
        chosen == now ==> camera_choice(model, now, CameraInput::Projection(chosen)) is None,
        camera_choice(model, now, CameraInput::Axis(view)) == Some(CameraAction::Axis(view)),
        camera_choice(model, now, CameraInput::Reset) == Some(CameraAction::Reset),
        model.selected() is Some ==> camera_choice(model, now, CameraInput::Focus) == Some(
            CameraAction::FocusSelection,
        ),
        model.selected() is None ==> camera_choice(model, now, CameraInput::Focus) is None,
{
}

/// While the camera follows an object it takes a distance and angles as they are given, and
/// lets go of that object; otherwise there is nothing of this to set.
pub proof fn a_following_camera_is_steered(model: UiModel, now: Projection, value: Number)
    ensures
        model.following matches Some(object) ==> {
            &&& camera_choice(model, now, CameraInput::StopFollowing) == Some(
                CameraAction::ToggleFollow(object),
            )
            &&& camera_choice(model, now, CameraInput::Distance(value)) == Some(
                CameraAction::SetDistance(value),
            )
            &&& camera_choice(model, now, CameraInput::Yaw(value)) == Some(CameraAction::SetYaw(value))
            &&& camera_choice(model, now, CameraInput::Pitch(value)) == Some(
                CameraAction::SetPitch(value),
            )
        },
        model.following is None ==> {
            &&& camera_choice(model, now, CameraInput::StopFollowing) is None
            &&& camera_choice(model, now, CameraInput::Distance(value)) is None
            &&& camera_choice(model, now, CameraInput::Yaw(value)) is None
            &&& camera_choice(model, now, CameraInput::Pitch(value)) is None
        },
{
}

proof fn lemma_scale(scales: Seq<NamedScale>, scale: Number, n: nat)
    ensures
        forall|k: int|
            n <= k < scales.len() && (#[trigger] scales[k]).metres.value_equal(scale) && (forall|j: int|
                n <= j < k ==> !(#[trigger] scales[j]).metres.value_equal(scale)) ==> scale_words(
                scales,
                scale,
                n,
            ) == scales[k].preset.word(),
        (forall|j: int| n <= j < scales.len() ==> !(#[trigger] scales[j]).metres.value_equal(scale))
            ==> scale_words(scales, scale, n) == "Custom"@,
    decreases scales.len() - n,
{
    if n < scales.len() {
        lemma_scale(scales, scale, n + 1);
        assert(scales[n as int].metres.value_equal(scale) || !scales[n as int].metres.value_equal(
            scale,
        ));
    }
}

/// A scale is called by the first preset it numerically is, and custom if it is none.
pub proof fn a_scale_is_called_by_its_preset(scales: Seq<NamedScale>, scale: Number)
    ensures
        forall|k: int|
            0 <= k < scales.len() && (#[trigger] scales[k]).metres.value_equal(scale) && (forall|j: int|
                0 <= j < k ==> !(#[trigger] scales[j]).metres.value_equal(scale)) ==> scale_words(
                scales,
                scale,
                0,
            ) == scales[k].preset.word(),
        (forall|j: int| 0 <= j < scales.len() ==> !(#[trigger] scales[j]).metres.value_equal(scale))
            ==> scale_words(scales, scale, 0) == "Custom"@,
{
    lemma_scale(scales, scale, 0);
}

/// Each preset is called by its own unit.
pub proof fn presets_are_named()
    ensures
        ScalePreset::Nanometre.word() == "Nanometre"@,
        ScalePreset::Micrometre.word() == "Micrometre"@,
        ScalePreset::Millimetre.word() == "Millimetre"@,
        ScalePreset::Metre.word() == "Metre (default)"@,
        ScalePreset::Kilometre.word() == "Kilometre"@,
        ScalePreset::AstronomicalUnit.word() == "Astronomical unit"@,
        ScalePreset::LightYear.word() == "Light-year"@,
{
}

} // verus!
