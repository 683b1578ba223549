//! Inspecting the shapes that sample a field: planes, boxes and spheres.

use crate::command::UiFrameOutput;
use crate::measured::{identity, one, zero, Number, Vec2, Vec3};
use crate::world::{
    FieldBox, FieldBoxSpec, FieldSphere, FieldSphereSpec, SlicePlane, SlicePlaneSpec, WorldCommand,
};
use vstd::prelude::*;
use vstd::string::*;

verus! {

/// A plane along two axes of the world.
#[derive(Clone, Copy, Debug, PartialEq, Eq, Structural)]
pub enum PlanePreset {
    Xy,
    Xz,
    Yz,
}

/// The first axis.
#[verifier::allow_in_spec]
pub fn x_axis() -> Vec3
    returns
        (Vec3 { x: one(), y: zero(), z: zero() }),
{
    Vec3 { x: one(), y: zero(), z: zero() }
}

/// The second axis.
#[verifier::allow_in_spec]
pub fn y_axis() -> Vec3
    returns
        (Vec3 { x: zero(), y: one(), z: zero() }),
{
    Vec3 { x: zero(), y: one(), z: zero() }
}

/// The third axis.
#[verifier::allow_in_spec]
pub fn z_axis() -> Vec3
    returns
        (Vec3 { x: zero(), y: zero(), z: one() }),
{
    Vec3 { x: zero(), y: zero(), z: one() }
}

impl PlanePreset {
    /// The presets in the order they are offered.
    pub fn all() -> (presets: [PlanePreset; 3])
        ensures
            presets@ == seq![PlanePreset::Xy, PlanePreset::Xz, PlanePreset::Yz],
    {
        [PlanePreset::Xy, PlanePreset::Xz, PlanePreset::Yz]
    }

    pub fn label(self) -> (s: &'static str)
        ensures
            self is Xy ==> s@ == "XY"@,
            self is Xz ==> s@ == "XZ"@,
            self is Yz ==> s@ == "YZ"@,
    {
        match self {
            PlanePreset::Xy => "XY",
            PlanePreset::Xz => "XZ",
            PlanePreset::Yz => "YZ",
        }
    }

    /// The direction a plane of the preset faces.
    pub open spec fn facing(self) -> Vec3 {
        match self {
            PlanePreset::Xy => z_axis(),
            PlanePreset::Xz => y_axis(),
            PlanePreset::Yz => x_axis(),
        }
    }

    /// The first axis of a plane of the preset.
    pub open spec fn along(self) -> Vec3 {
        match self {
            PlanePreset::Xy => x_axis(),
            PlanePreset::Xz => x_axis(),
            PlanePreset::Yz => y_axis(),
        }
    }

    fn axes(self) -> (axes: (Vec3, Vec3))
        ensures
            axes == (self.facing(), self.along()),
    {
        match self {
            PlanePreset::Xy => (z_axis(), x_axis()),
            PlanePreset::Xz => (y_axis(), x_axis()),
            PlanePreset::Yz => (x_axis(), y_axis()),
        }
    }
}

/// A plane with another geometry. One that faces the same way keeps its first axis
/// and what it is attached to; one that was turned gets the axis its direction
/// implies, and stands in the world.
pub open spec fn replaced(plane: SlicePlane, origin: Vec3, normal: Vec3, half_extent: Vec2) -> SlicePlaneSpec {
    if normal.value_equal(plane.normal) {
        SlicePlaneSpec {
            name: plane.name,
            origin,
            normal: plane.normal,
            u_axis: Some(plane.u_axis),
            half_extent,
            visible: plane.visible,
            attached_to: plane.attached_to,
        }
    } else {
        SlicePlaneSpec {
            name: plane.name,
            origin,
            normal,
            u_axis: None,
            half_extent,
            visible: plane.visible,
            attached_to: None,
        }
    }
}

/// A plane with another geometry.
pub fn plane_spec(plane: &SlicePlane, origin: Vec3, normal: Vec3, half_extent: Vec2) -> (spec:
    SlicePlaneSpec)
    ensures
        spec == replaced(*plane, origin, normal, half_extent),
{
    if normal.equals(plane.normal) {
        SlicePlaneSpec {
            name: plane.name.clone(),
            origin,
            normal: plane.normal,
            u_axis: Some(plane.u_axis),
            half_extent,
            visible: plane.visible,
            attached_to: plane.attached_to,
        }
    } else {
        SlicePlaneSpec {
            name: plane.name.clone(),
            origin,
            normal,
            u_axis: None,
            half_extent,
            visible: plane.visible,
            attached_to: None,
        }
    }
}

/// A plane turned to a preset.
pub open spec fn turned(plane: SlicePlane, preset: PlanePreset) -> SlicePlaneSpec {
    SlicePlaneSpec {
        name: plane.name,
        origin: plane.origin,
        normal: preset.facing(),
        u_axis: Some(preset.along()),
        half_extent: plane.half_extent,
        visible: plane.visible,
        attached_to: None,
    }
}

/// A plane turned to a preset.
pub fn plane_preset(plane: &SlicePlane, preset: PlanePreset) -> (spec: SlicePlaneSpec)
    ensures
        spec == turned(*plane, preset),
{
    let (normal, u_axis) = preset.axes();
    SlicePlaneSpec {
        name: plane.name.clone(),
        origin: plane.origin,
        normal,
        u_axis: Some(u_axis),
        half_extent: plane.half_extent,
        visible: plane.visible,
        attached_to: None,
    }
}

/// A change of a plane. A changed geometry says whether it is one a plane can
/// have.
#[derive(Debug)]
pub enum PlaneInput {
    Name(String),
    Geometry { origin: Vec3, normal: Vec3, half_extent: Vec2, valid: bool },
    Preset { preset: PlanePreset, valid: bool },
}

/// The edit a change of a plane asks for.
pub open spec fn plane_edit(plane: SlicePlane, input: PlaneInput) -> Option<WorldCommand> {
    match input {
        PlaneInput::Name(name) => Some(WorldCommand::SetPlaneName { plane: plane.id, name }),
        PlaneInput::Geometry { origin, normal, half_extent, valid } => if valid {
            Some(
                WorldCommand::SetPlane {
                    plane: plane.id,
                    spec: replaced(plane, origin, normal, half_extent),
                },
            )
        } else {
            None
        },
        PlaneInput::Preset { preset, valid } => if valid {
            Some(WorldCommand::SetPlane { plane: plane.id, spec: turned(plane, preset) })
        } else {
            None
        },
    }
}

/// Act on a change of a plane.
pub fn plane_properties(plane: &SlicePlane, input: PlaneInput, output: &mut UiFrameOutput)
    ensures
        match plane_edit(*plane, input) {
            Some(command) => final(output).edits(*old(output), command),
            None => *final(output) == *old(output),
        },
{
    match input {
        PlaneInput::Name(name) => output.edit_one(
            WorldCommand::SetPlaneName { plane: plane.id, name },
        ),
        PlaneInput::Geometry { origin, normal, half_extent, valid } => {
            if valid {
                output.edit_one(
                    WorldCommand::SetPlane {
                        plane: plane.id,
                        spec: plane_spec(plane, origin, normal, half_extent),
                    },
                );
            }
        },
        PlaneInput::Preset { preset, valid } => {
            if valid {
                output.edit_one(
                    WorldCommand::SetPlane { plane: plane.id, spec: plane_preset(plane, preset) },
                );
            }
        },
    }
}

/// Moving or resizing a plane does not turn it: its direction, first axis and
/// attachment stay as they are.
pub proof fn moving_a_plane_does_not_turn_it(plane: SlicePlane, origin: Vec3, half_extent: Vec2)
    requires
        plane.normal.value_equal(plane.normal),
    ensures
        ({
            let spec = replaced(plane, origin, plane.normal, half_extent);
            &&& spec.normal == plane.normal
            &&& spec.u_axis == Some(plane.u_axis)
            &&& spec.attached_to == plane.attached_to
            &&& spec.visible == plane.visible
            &&& spec.name == plane.name
        }),
{
}

/// A change of a box. A changed geometry says whether it is one a box can have.
#[derive(Debug)]
pub enum BoxInput {
    Name(String),
    Geometry { origin: Vec3, half_extent: Vec3, valid: bool },
    ResetOrientation,
}

/// The edit a change of a box asks for.
pub open spec fn box_edit(field_box: FieldBox, input: BoxInput) -> Option<WorldCommand> {
    match input {
        BoxInput::Name(name) => Some(WorldCommand::SetBoxName { region: field_box.id, name }),
        BoxInput::Geometry { origin, half_extent, valid } => if valid {
            Some(
                WorldCommand::SetBox {
                    region: field_box.id,
                    spec: FieldBoxSpec {
                        name: field_box.name,
                        origin,
                        half_extent,
                        rotation: field_box.rotation,
                        visible: field_box.visible,
                    },
                },
            )
        } else {
            None
        },
        BoxInput::ResetOrientation => Some(
            WorldCommand::SetBox {
                region: field_box.id,
                spec: FieldBoxSpec {
                    name: field_box.name,
                    origin: field_box.origin,
                    half_extent: field_box.half_extent,
                    rotation: identity(),
                    visible: field_box.visible,
                },
            },
        ),
    }
}

/// Act on a change of a box.
pub fn box_properties(field_box: &FieldBox, input: BoxInput, output: &mut UiFrameOutput)
    ensures
        match box_edit(*field_box, input) {
            Some(command) => final(output).edits(*old(output), command),
            None => *final(output) == *old(output),
        },
{
    match input {
        BoxInput::Name(name) => output.edit_one(
            WorldCommand::SetBoxName { region: field_box.id, name },
        ),
        BoxInput::Geometry { origin, half_extent, valid } => {
            if valid {
                output.edit_one(
                    WorldCommand::SetBox {
                        region: field_box.id,
                        spec: FieldBoxSpec {
                            name: field_box.name.clone(),
                            origin,
                            half_extent,
                            rotation: field_box.rotation,
                            visible: field_box.visible,
                        },
                    },
                );
            }
        },
        BoxInput::ResetOrientation => output.edit_one(
            WorldCommand::SetBox {
                region: field_box.id,
                spec: FieldBoxSpec {
                    name: field_box.name.clone(),
                    origin: field_box.origin,
                    half_extent: field_box.half_extent,
                    rotation: identity(),
                    visible: field_box.visible,
                },
            },
        ),
    }
}

/// A change of a sphere. A changed geometry says whether it is one a sphere can
/// have.
#[derive(Debug)]
pub enum SphereInput {
    Name(String),
    Geometry { origin: Vec3, radius: Number, valid: bool },
}

/// The edit a change of a sphere asks for.
pub open spec fn sphere_edit(sphere: FieldSphere, input: SphereInput) -> Option<WorldCommand> {
    match input {
        SphereInput::Name(name) => Some(WorldCommand::SetSphereName { sphere: sphere.id, name }),
        SphereInput::Geometry { origin, radius, valid } => if valid {
            Some(
                WorldCommand::SetSphere {
                    sphere: sphere.id,
                    spec: FieldSphereSpec {
                        name: sphere.name,
                        origin,
                        radius,
                        visible: sphere.visible,
                    },
                },
            )
        } else {
            None
        },
    }
}

/// Act on a change of a sphere.
pub fn sphere_properties(sphere: &FieldSphere, input: SphereInput, output: &mut UiFrameOutput)
    ensures
        match sphere_edit(*sphere, input) {
            Some(command) => final(output).edits(*old(output), command),
            None => *final(output) == *old(output),
        },
{
    match input {
        SphereInput::Name(name) => output.edit_one(
            WorldCommand::SetSphereName { sphere: sphere.id, name },
        ),
        SphereInput::Geometry { origin, radius, valid } => {
            if valid {
                output.edit_one(
                    WorldCommand::SetSphere {
                        sphere: sphere.id,
                        spec: FieldSphereSpec {
                            name: sphere.name.clone(),
                            origin,
                            radius,
                            visible: sphere.visible,
                        },
                    },
                );
            }
        },
    }
}

/// What is said where a shape would draw a field that is hidden everywhere.
pub fn hidden_everywhere_warning(layer_visible: bool) -> (warning: Option<&'static str>)
    ensures
        warning is None <==> layer_visible,
        warning matches Some(text) ==> text@
            == "This field is hidden everywhere. Turn its layer on under Fields in the View window."@,
{
    if layer_visible {
        None
    } else {
        Some("This field is hidden everywhere. Turn its layer on under Fields in the View window.")
    }
}

/// A plane given another place or size takes exactly these; given another direction it takes
/// that one, with the first axis it implies, and stands in the world.
pub proof fn a_plane_takes_its_geometry(
    plane: SlicePlane,
    place: Vec3,
    normal: Vec3,
    size: Vec2,
)
    ensures
        plane_edit(
            plane,
            PlaneInput::Geometry { origin: place, normal, half_extent: size, valid: true },
        ) matches Some(WorldCommand::SetPlane { plane: id, spec }) && id == plane.id && spec.origin == place
            && spec.half_extent == size && spec.name == plane.name && spec.visible == plane.visible && (
        normal.value_equal(plane.normal) ==> spec.normal == plane.normal && spec.u_axis == Some(
            plane.u_axis,
        ) && spec.attached_to == plane.attached_to) && (!normal.value_equal(plane.normal)
            ==> spec.normal == normal && spec.u_axis is None && spec.attached_to is None),
        plane_edit(
            plane,
            PlaneInput::Geometry { origin: place, normal, half_extent: size, valid: false },
        ) is None,
{
}

/// A preset turns a plane across the axis it does not name, along the first one it names, and
/// leaves its place and size.
pub proof fn a_preset_turns_a_plane(plane: SlicePlane, preset: PlanePreset, name: String)
    ensures
        plane_edit(plane, PlaneInput::Preset { preset, valid: true }) matches Some(
            WorldCommand::SetPlane { plane: id, spec },
        ) && id == plane.id && spec.origin == plane.origin && spec.half_extent == plane.half_extent
            && spec.name == plane.name && spec.visible == plane.visible && spec.attached_to is None && (
        preset is Xy ==> spec.normal == (Vec3 { x: zero(), y: zero(), z: one() }) && spec.u_axis == Some(
            Vec3 { x: one(), y: zero(), z: zero() },
        )) && (preset is Xz ==> spec.normal == (Vec3 { x: zero(), y: one(), z: zero() }) && spec.u_axis
            == Some(Vec3 { x: one(), y: zero(), z: zero() })) && (preset is Yz ==> spec.normal == (Vec3 {
            x: one(),
            y: zero(),
            z: zero(),
        }) && spec.u_axis == Some(Vec3 { x: zero(), y: one(), z: zero() })),
        plane_edit(plane, PlaneInput::Preset { preset, valid: false }) is None,
        plane_edit(plane, PlaneInput::Name(name)) == Some(
            WorldCommand::SetPlaneName { plane: plane.id, name },
        ),
{
}

/// A box takes the place and size it is given and keeps its turn, until the turn is reset,
/// which leaves its place and size.
pub proof fn a_box_takes_its_geometry(field_box: FieldBox, place: Vec3, size: Vec3, name: String)
    ensures
        box_edit(field_box, BoxInput::Geometry { origin: place, half_extent: size, valid: true })
            matches Some(WorldCommand::SetBox { region, spec }) && region == field_box.id && spec.origin
            == place && spec.half_extent == size && spec.rotation == field_box.rotation && spec.name
            == field_box.name && spec.visible == field_box.visible,
        box_edit(field_box, BoxInput::Geometry { origin: place, half_extent: size, valid: false }) is None,
        box_edit(field_box, BoxInput::ResetOrientation) matches Some(
            WorldCommand::SetBox { region, spec },
        ) && region == field_box.id && spec.origin == field_box.origin && spec.half_extent
            == field_box.half_extent && spec.rotation == identity() && spec.name == field_box.name
            && spec.visible == field_box.visible,
        box_edit(field_box, BoxInput::Name(name)) == Some(
            WorldCommand::SetBoxName { region: field_box.id, name },
        ),
{
}

/// A sphere takes the place and radius it is given.
pub proof fn a_sphere_takes_its_geometry(sphere: FieldSphere, place: Vec3, radius: Number, name: String)
    ensures
        sphere_edit(sphere, SphereInput::Geometry { origin: place, radius, valid: true }) matches Some(
            WorldCommand::SetSphere { sphere: id, spec },
        ) && id == sphere.id && spec.origin == place && spec.radius == radius && spec.name
            == sphere.name && spec.visible == sphere.visible,
        sphere_edit(sphere, SphereInput::Geometry { origin: place, radius, valid: false }) is None,
        sphere_edit(sphere, SphereInput::Name(name)) == Some(
            WorldCommand::SetSphereName { sphere: sphere.id, name },
        ),
{
}

} // verus!
