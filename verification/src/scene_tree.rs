//! The scene tree: the simulation node, objects, and measurement instruments.

use crate::command::{CameraAction, CommandPayload, UiFrameOutput};
use crate::compute::ComputeView;
use crate::ids::{
    selects, BoxId, ChannelId, DistanceProbeId, MassAggregateProbeId, ObjectId, PlaneId, ProbeId,
    SphereId,
};
use crate::measured::{
    default_authoring_radius, identity, one, origin, zero, Number, Vec2, Vec3,
};
use crate::model::{SceneSelection, UiModel};
use crate::ordered::OrderedMap;
use crate::source::FieldSystemStatus;
use crate::text::{concat2, concat3, push_decimal};
use crate::world::{
    DistanceProbeSpec, FieldBox, FieldBoxSpec, FieldSphere, FieldSphereSpec, MassAggregateProbeSpec,
    MassSelection, ObjectShape, ObjectSpec, ProbePosition, ProbeSpec, SlicePlane, SlicePlaneSpec,
    Transform, Velocity, WorldCommand, WorldObject, WorldSnapshot,
};
use vstd::prelude::*;
use vstd::string::*;

verus! {

/// How a field system appears under the simulation node.
pub fn system_label(system: &FieldSystemStatus) -> (text: String)
    ensures
        text@ == (if system.enabled {
            "☑"@
        } else {
            "☐"@
        }) + "  "@ + system.plugin.display_name@,
{
    let mark: &'static str = if system.enabled {
        "☑"
    } else {
        "☐"
    };
    concat3(mark, "  ", system.plugin.display_name.as_str())
}

/// What hovering over a field system says.
pub fn system_hover(system: &FieldSystemStatus) -> (text: String)
    ensures
        text@ == system.plugin.description@ + "\n"@ + if system.enabled {
            "Active. Select Simulation to configure it."@
        } else {
            "Inactive: it does not simulate or publish. Select Simulation to enable it."@
        },
{
    let state: &'static str = if system.enabled {
        "Active. Select Simulation to configure it."
    } else {
        "Inactive: it does not simulate or publish. Select Simulation to enable it."
    };
    concat3(system.plugin.description.as_str(), "\n", state)
}

/// How many of the first `n` objects were authored rather than derived.
pub open spec fn authored(objects: Seq<WorldObject>, n: nat) -> nat
    decreases n,
{
    if n == 0 {
        0
    } else {
        authored(objects, (n - 1) as nat) + if objects[n - 1].derived {
            0nat
        } else {
            1nat
        }
    }
}

/// The positions of the authored ones of the first `n` objects.
pub open spec fn authored_at(objects: Seq<WorldObject>, n: nat) -> Seq<usize>
    decreases n,
{
    if n == 0 {
        Seq::empty()
    } else if objects[n - 1].derived {
        authored_at(objects, (n - 1) as nat)
    } else {
        authored_at(objects, (n - 1) as nat).push((n - 1) as usize)
    }
}

/// The positions of the objects that were authored, in order. Derived anchors
/// are not listed.
pub fn authored_objects(world: &WorldSnapshot) -> (positions: Vec<usize>)
    ensures
        positions@ == authored_at(world.objects@, world.objects@.len()),
        positions.len() == authored(world.objects@, world.objects@.len()),
        forall|k: int| 0 <= k < positions.len() ==> (#[trigger] positions[k]) < world.objects.len(),
{
    let objects = &world.objects;
    let mut positions: Vec<usize> = Vec::new();
    let mut i: usize = 0;
    while i < objects.len()
        invariant
            *objects == world.objects,
            i <= objects.len(),
            positions@ == authored_at(objects@, i as nat),
            positions.len() == authored(objects@, i as nat),
            forall|k: int| 0 <= k < positions.len() ==> (#[trigger] positions[k]) < i,
        decreases objects.len() - i,
    {
        if !objects[i].derived {
            positions.push(i);
        }
        i = i + 1;
    }
    positions
}

/// The title of the object section: how many objects were authored.
pub fn objects_title(world: &WorldSnapshot) -> (text: String)
    ensures
        text@ == "Objects ("@ + crate::text::decimal(authored(world.objects@, world.objects@.len()))
            + ")"@,
{
    let mut text = String::from_str("Objects (");
    push_decimal(&mut text, authored_objects(world).len() as u128);
    text.append(")");
    text
}

/// How many measurement instruments the scene has.
pub open spec fn instruments(world: WorldSnapshot) -> nat {
    world.probes@.len() + world.distance_probes@.len() + world.mass_aggregate_probes@.len()
        + world.planes@.len() + world.boxes@.len() + world.spheres@.len()
}

/// The title of the measurement section: how many instruments there are.
pub fn measurement_title(world: &WorldSnapshot) -> (text: String)
    ensures
        text@ == "Measurement ("@ + crate::text::decimal(instruments(*world)) + ")"@,
{
    let count: u128 = world.probes.len() as u128 + world.distance_probes.len() as u128
        + world.mass_aggregate_probes.len() as u128 + world.planes.len() as u128
        + world.boxes.len() as u128 + world.spheres.len() as u128;
    let mut text = String::from_str("Measurement (");
    push_decimal(&mut text, count);
    text.append(")");
    text
}

/// A thing listed in the scene tree.
#[derive(Clone, Copy, Debug, PartialEq, Eq)]
pub enum SceneItem {
    Object(ObjectId),
    Probe(ProbeId),
    DistanceProbe(DistanceProbeId),
    MassAggregateProbe(MassAggregateProbeId),
    Plane(PlaneId),
    Box(BoxId),
    Sphere(SphereId),
}

/// What the user asked of a listed thing.
#[derive(Clone, Copy, Debug, PartialEq, Eq, Structural)]
pub enum EntityRowAction {
    ToggleVisibility,
    Select,
    Delete,
}

/// The mark of a row's visibility button, and what hovering over it says.
pub fn visibility_mark(visible: bool) -> (mark: (&'static str, &'static str))
    ensures
        visible ==> mark.0@ == "☑"@ && mark.1@ == "Hide in viewport"@,
        !visible ==> mark.0@ == "☐"@ && mark.1@ == "Show in viewport"@,
{
    if visible {
        ("☑", "Hide in viewport")
    } else {
        ("☐", "Show in viewport")
    }
}

/// The one action of a row in which several buttons were hit: deleting goes
/// before selecting, and selecting before hiding.
pub fn row_action(toggled: bool, selected: bool, deleted: bool) -> (action: Option<EntityRowAction>)
    ensures
        action == if deleted {
            Some(EntityRowAction::Delete)
        } else if selected {
            Some(EntityRowAction::Select)
        } else if toggled {
            Some(EntityRowAction::ToggleVisibility)
        } else {
            None
        },
{
    if deleted {
        Some(EntityRowAction::Delete)
    } else if selected {
        Some(EntityRowAction::Select)
    } else if toggled {
        Some(EntityRowAction::ToggleVisibility)
    } else {
        None
    }
}

impl SceneItem {
    /// Whether the thing is the inspector's subject.
    pub open spec fn is_selected(self, model: UiModel) -> bool {
        match self {
            SceneItem::Object(id) => model.selection == Some(id),
            SceneItem::Probe(id) => model.probe_selection == Some(id),
            SceneItem::DistanceProbe(id) => model.distance_probe_selection == Some(id),
            SceneItem::MassAggregateProbe(id) => model.mass_aggregate_probe_selection == Some(id),
            SceneItem::Plane(id) => model.plane_selection == Some(id),
            SceneItem::Box(id) => model.box_selection == Some(id),
            SceneItem::Sphere(id) => model.sphere_selection == Some(id),
        }
    }

    pub fn selected(self, model: &UiModel) -> (b: bool)
        ensures
            b == self.is_selected(*model),
    {
        match self {
            SceneItem::Object(id) => selects(model.selection, id),
            SceneItem::Probe(id) => selects(model.probe_selection, id),
            SceneItem::DistanceProbe(id) => selects(model.distance_probe_selection, id),
            SceneItem::MassAggregateProbe(id) => selects(model.mass_aggregate_probe_selection, id),
            SceneItem::Plane(id) => selects(model.plane_selection, id),
            SceneItem::Box(id) => selects(model.box_selection, id),
            SceneItem::Sphere(id) => selects(model.sphere_selection, id),
        }
    }

    pub open spec fn glyph(self) -> Seq<char> {
        match self {
            SceneItem::Object(_) => "▣  "@,
            SceneItem::Probe(_) => "◎  "@,
            SceneItem::DistanceProbe(_) => "↔  "@,
            SceneItem::MassAggregateProbe(_) => "●  "@,
            SceneItem::Plane(_) => "▦  "@,
            SceneItem::Box(_) => "▧  "@,
            SceneItem::Sphere(_) => "◯  "@,
        }
    }

    /// How the thing is listed.
    pub fn label(self, name: &str) -> (text: String)
        ensures
            text@ == self.glyph() + name@,
    {
        let glyph: &'static str = match self {
            SceneItem::Object(_) => "▣  ",
            SceneItem::Probe(_) => "◎  ",
            SceneItem::DistanceProbe(_) => "↔  ",
            SceneItem::MassAggregateProbe(_) => "●  ",
            SceneItem::Plane(_) => "▦  ",
            SceneItem::Box(_) => "▧  ",
            SceneItem::Sphere(_) => "◯  ",
        };
        concat2(glyph, name)
    }

    pub fn delete_hover(self) -> (s: &'static str)
        ensures
            self is Object ==> s@ == "Delete object"@,
            self is Probe ==> s@ == "Delete probe"@,
            self is DistanceProbe ==> s@ == "Delete distance probe"@,
            self is MassAggregateProbe ==> s@ == "Delete center of mass"@,
            self is Plane ==> s@ == "Delete plane"@,
            self is Box ==> s@ == "Delete box"@,
            self is Sphere ==> s@ == "Delete sphere"@,
    {
        match self {
            SceneItem::Object(_) => "Delete object",
            SceneItem::Probe(_) => "Delete probe",
            SceneItem::DistanceProbe(_) => "Delete distance probe",
            SceneItem::MassAggregateProbe(_) => "Delete center of mass",
            SceneItem::Plane(_) => "Delete plane",
            SceneItem::Box(_) => "Delete box",
            SceneItem::Sphere(_) => "Delete sphere",
        }
    }

    /// The edit that shows or hides the thing.
    pub open spec fn visibility(self, visible: bool) -> WorldCommand {
        match self {
            SceneItem::Object(object) => WorldCommand::SetObjectVisible { object, visible },
            SceneItem::Probe(probe) => WorldCommand::SetProbeVisible { probe, visible },
            SceneItem::DistanceProbe(probe) => WorldCommand::SetDistanceProbeVisible { probe, visible },
            SceneItem::MassAggregateProbe(probe) => WorldCommand::SetMassAggregateProbeVisible {
                probe,
                visible,
            },
            SceneItem::Plane(plane) => WorldCommand::SetPlaneVisible { plane, visible },
            SceneItem::Box(region) => WorldCommand::SetBoxVisible { region, visible },
            SceneItem::Sphere(sphere) => WorldCommand::SetSphereVisible { sphere, visible },
        }
    }

    fn set_visible(self, visible: bool) -> (command: WorldCommand)
        ensures
            command == self.visibility(visible),
    {
        match self {
            SceneItem::Object(object) => WorldCommand::SetObjectVisible { object, visible },
            SceneItem::Probe(probe) => WorldCommand::SetProbeVisible { probe, visible },
            SceneItem::DistanceProbe(probe) => WorldCommand::SetDistanceProbeVisible { probe, visible },
            SceneItem::MassAggregateProbe(probe) => WorldCommand::SetMassAggregateProbeVisible {
                probe,
                visible,
            },
            SceneItem::Plane(plane) => WorldCommand::SetPlaneVisible { plane, visible },
            SceneItem::Box(region) => WorldCommand::SetBoxVisible { region, visible },
            SceneItem::Sphere(sphere) => WorldCommand::SetSphereVisible { sphere, visible },
        }
    }

    /// The edit that removes the thing.
    pub open spec fn removal(self) -> WorldCommand {
        match self {
            SceneItem::Object(id) => WorldCommand::RemoveObject(id),
            SceneItem::Probe(id) => WorldCommand::RemoveProbe(id),
            SceneItem::DistanceProbe(id) => WorldCommand::RemoveDistanceProbe(id),
            SceneItem::MassAggregateProbe(id) => WorldCommand::RemoveMassAggregateProbe(id),
            SceneItem::Plane(id) => WorldCommand::RemovePlane(id),
            SceneItem::Box(id) => WorldCommand::RemoveBox(id),
            SceneItem::Sphere(id) => WorldCommand::RemoveSphere(id),
        }
    }

    pub fn remove(self) -> (command: WorldCommand)
        ensures
            command == self.removal(),
    {
        match self {
            SceneItem::Object(id) => WorldCommand::RemoveObject(id),
            SceneItem::Probe(id) => WorldCommand::RemoveProbe(id),
            SceneItem::DistanceProbe(id) => WorldCommand::RemoveDistanceProbe(id),
            SceneItem::MassAggregateProbe(id) => WorldCommand::RemoveMassAggregateProbe(id),
            SceneItem::Plane(id) => WorldCommand::RemovePlane(id),
            SceneItem::Box(id) => WorldCommand::RemoveBox(id),
            SceneItem::Sphere(id) => WorldCommand::RemoveSphere(id),
        }
    }

    /// The model with the thing as the inspector's subject.
    pub open spec fn select_in(self, model: UiModel) -> UiModel {
        match self {
            SceneItem::Object(id) => model.with_selection(Some(SceneSelection::Object(id))),
            SceneItem::Probe(id) => model.with_selection(Some(SceneSelection::Probe(id))),
            SceneItem::DistanceProbe(id) => model.with_distance_probe(id),
            SceneItem::MassAggregateProbe(id) => model.with_selection(
                Some(SceneSelection::MassAggregateProbe(id)),
            ),
            SceneItem::Plane(id) => model.with_selection(Some(SceneSelection::Plane(id))),
            SceneItem::Box(id) => model.with_selection(Some(SceneSelection::Box(id))),
            SceneItem::Sphere(id) => model.with_selection(Some(SceneSelection::Sphere(id))),
        }
    }

    fn select(self, model: &mut UiModel)
        ensures
            *final(model) == self.select_in(*old(model)),
    {
        match self {
            SceneItem::Object(id) => model.set_scene_selection(Some(SceneSelection::Object(id))),
            SceneItem::Probe(id) => model.set_scene_selection(Some(SceneSelection::Probe(id))),
            SceneItem::DistanceProbe(id) => model.select_distance_probe(id),
            SceneItem::MassAggregateProbe(id) => model.set_scene_selection(
                Some(SceneSelection::MassAggregateProbe(id)),
            ),
            SceneItem::Plane(id) => model.set_scene_selection(Some(SceneSelection::Plane(id))),
            SceneItem::Box(id) => model.set_scene_selection(Some(SceneSelection::Box(id))),
            SceneItem::Sphere(id) => model.set_scene_selection(Some(SceneSelection::Sphere(id))),
        }
    }
}

/// Act on one row of the scene tree. Only selecting touches the user interface;
/// hiding and deleting are edits of the world.
pub fn entity_row(
    model: &mut UiModel,
    item: SceneItem,
    visible: bool,
    action: EntityRowAction,
    output: &mut UiFrameOutput,
)
    ensures
        match action {
            EntityRowAction::ToggleVisibility => *final(model) == *old(model) && final(output).edits(
                *old(output),
                item.visibility(!visible),
            ),
            EntityRowAction::Select => *final(model) == item.select_in(*old(model)) && *final(output)
                == *old(output),
            EntityRowAction::Delete => *final(model) == *old(model) && final(output).edits(
                *old(output),
                item.removal(),
            ),
        },
{
    match action {
        EntityRowAction::ToggleVisibility => output.edit_one(item.set_visible(!visible)),
        EntityRowAction::Select => item.select(model),
        EntityRowAction::Delete => output.edit_one(item.remove()),
    }
}

/// Selecting a listed thing makes it the only one selected.
pub proof fn a_selected_row_is_the_subject(model: UiModel, item: SceneItem, other: SceneItem)
    ensures
        item.is_selected(item.select_in(model)),
        !item.select_in(model).world_selected,
        other.is_selected(item.select_in(model)) ==> other == item,
{
}

/// The channels that the first `n` systems declare, in order.
pub open spec fn declared_channels(systems: Seq<FieldSystemStatus>, n: nat) -> Seq<ChannelId>
    decreases n,
{
    if n == 0 {
        Seq::empty()
    } else {
        declared_channels(systems, (n - 1) as nat) + systems[n - 1].channels@.map_values(
            |c: crate::source::ChannelSchema| c.id,
        )
    }
}

fn all_channels(systems: &Vec<FieldSystemStatus>) -> (channels: Vec<ChannelId>)
    ensures
        channels@ == declared_channels(systems@, systems@.len()),
{
    let mut channels: Vec<ChannelId> = Vec::new();
    let mut i: usize = 0;
    while i < systems.len()
        invariant
            i <= systems.len(),
            channels@ == declared_channels(systems@, i as nat),
        decreases systems.len() - i,
    {
        let declared = &systems[i].channels;
        let ghost before = channels@;
        let ghost ids = declared@.map_values(|c: crate::source::ChannelSchema| c.id);
        let mut j: usize = 0;
        assert(before + ids.take(0) =~= before);
        while j < declared.len()
            invariant
                j <= declared.len(),
                ids == declared@.map_values(|c: crate::source::ChannelSchema| c.id),
                channels@ == before + ids.take(j as int),
            decreases declared.len() - j,
        {
            channels.push(declared[j].id.clone());
            j = j + 1;
            assert(channels@ =~= before + ids.take(j as int));
        }
        assert(ids.take(j as int) =~= ids);
        i = i + 1;
    }
    channels
}

/// A name that counts on from the things there already are.
pub open spec fn next_name(prefix: Seq<char>, count: nat) -> Seq<char> {
    prefix + crate::text::decimal(count + 1)
}

fn name_after(prefix: &str, count: usize) -> (name: String)
    ensures
        name@ == next_name(prefix@, count as nat),
{
    let mut name = String::from_str(prefix);
    push_decimal(&mut name, count as u128 + 1);
    name
}

/// A measurement instrument to be added.
#[derive(Clone, Copy, Debug, PartialEq, Eq, Structural)]
pub enum Instrument {
    PointProbe,
    Distance,
    Plane,
    Box,
    Sphere,
    CenterOfMass,
}

/// The objects a new distance probe measures between: the first two.
pub fn distance_pair(world: &WorldSnapshot) -> (pair: Option<(ObjectId, ObjectId)>)
    ensures
        pair == if world.objects@.len() >= 2 {
            Some((world.objects@[0].id, world.objects@[1].id))
        } else {
            None
        },
{
    if world.objects.len() >= 2 {
        Some((world.objects[0].id, world.objects[1].id))
    } else {
        None
    }
}

/// The edit that adds a measurement instrument, named after how many of its kind
/// there are. A distance needs two objects to measure between.
pub fn measurement_command(world: &WorldSnapshot, compute: &ComputeView, instrument: Instrument) -> (
    command: Option<WorldCommand>)
    ensures
        command is None <==> instrument is Distance && world.objects@.len() < 2,
        instrument is PointProbe ==> (command matches Some(WorldCommand::CreateProbe(spec))
            && spec.name@ == next_name("Probe "@, world.probes@.len()) && spec.position
            == ProbePosition::World(
            Vec3 { x: one(), y: zero(), z: Number { bits: 0x3fe3_3333_3333_3333 } },
        ) && spec.channels@ == declared_channels(
            compute.field_systems@,
            compute.field_systems@.len(),
        )),
        instrument is Distance && world.objects@.len() >= 2 ==> (command matches Some(
            WorldCommand::CreateDistanceProbe(spec),
        ) && spec.name@ == next_name("Distance "@, world.distance_probes@.len()) && spec.object_a
            == world.objects@[0].id && spec.object_b == world.objects@[1].id),
        instrument is Plane ==> (command matches Some(WorldCommand::CreatePlane(spec)) && spec.name@
            == next_name("XY plane "@, world.planes@.len()) && spec.origin == origin() && spec.normal
            == (Vec3 { x: zero(), y: zero(), z: one() }) && spec.u_axis is None && spec.half_extent == (
        Vec2 {
            x: Number { bits: 0x4010_0000_0000_0000 },
            y: Number { bits: 0x4010_0000_0000_0000 },
        }) && spec.visible && spec.attached_to is None),
        instrument is Box ==> (command matches Some(WorldCommand::CreateBox(spec)) && spec.name@
            == next_name("Box "@, world.boxes@.len()) && spec.origin == origin() && spec.half_extent == (
        Vec3 { x: one(), y: one(), z: one() }) && spec.rotation == identity() && spec.visible),
        instrument is Sphere ==> (command matches Some(WorldCommand::CreateSphere(spec)) && spec.name@
            == next_name("Sphere "@, world.spheres@.len()) && spec.origin == origin() && spec.radius == (
        Number { bits: 0x3fe8_0000_0000_0000 }) && spec.visible),
        instrument is CenterOfMass ==> (command matches Some(
            WorldCommand::CreateMassAggregateProbe(spec),
        ) && spec.name@ == next_name("Center of mass "@, world.mass_aggregate_probes@.len())
            && (spec.selection matches MassSelection::Universe { excluded } && excluded.map()
            == Map::<u64, ()>::empty())),
{
    match instrument {
        Instrument::PointProbe => Some(
            WorldCommand::CreateProbe(
                ProbeSpec {
                    name: name_after("Probe ", world.probes.len()),
                    position: ProbePosition::World(
                        Vec3 { x: one(), y: zero(), z: Number { bits: 0x3fe3_3333_3333_3333 } },
                    ),
                    channels: all_channels(&compute.field_systems),
                },
            ),
        ),
        Instrument::Distance => match distance_pair(world) {
            Some((object_a, object_b)) => Some(
                WorldCommand::CreateDistanceProbe(
                    DistanceProbeSpec {
                        name: name_after("Distance ", world.distance_probes.len()),
                        object_a,
                        object_b,
                    },
                ),
            ),
            None => None,
        },
        Instrument::Plane => Some(
            WorldCommand::CreatePlane(
                SlicePlaneSpec {
                    name: name_after("XY plane ", world.planes.len()),
                    origin: origin(),
                    normal: Vec3 { x: zero(), y: zero(), z: one() },
                    u_axis: None,
                    half_extent: Vec2 {
                        x: Number { bits: 0x4010_0000_0000_0000 },
                        y: Number { bits: 0x4010_0000_0000_0000 },
                    },
                    visible: true,
                    attached_to: None,
                },
            ),
        ),
        Instrument::Box => Some(
            WorldCommand::CreateBox(
                FieldBoxSpec {
                    name: name_after("Box ", world.boxes.len()),
                    origin: origin(),
                    half_extent: Vec3::splat(one()),
                    rotation: identity(),
                    visible: true,
                },
            ),
        ),
        Instrument::Sphere => Some(
            WorldCommand::CreateSphere(
                FieldSphereSpec {
                    name: name_after("Sphere ", world.spheres.len()),
                    origin: origin(),
                    radius: Number { bits: 0x3fe8_0000_0000_0000 },
                    visible: true,
                },
            ),
        ),
        Instrument::CenterOfMass => Some(
            WorldCommand::CreateMassAggregateProbe(
                MassAggregateProbeSpec {
                    name: name_after("Center of mass ", world.mass_aggregate_probes.len()),
                    selection: MassSelection::Universe { excluded: OrderedMap::new() },
                },
            ),
        ),
    }
}

/// The transaction that adds a bare object at a position: a small point with no
/// physics attached and nothing holding it.
pub fn new_object_command(world: &WorldSnapshot, position: Vec3) -> (payload: CommandPayload)
    ensures
        payload matches CommandPayload::CommitWorld(commands) && commands@.len() == 1 && (
        commands@[0] matches WorldCommand::CreateObject(spec) && spec.name@ == next_name(
            "Object "@,
            world.objects@.len(),
        ) && !spec.pinned && spec.transform == (Transform {
            translation: position,
            rotation: identity(),
        }) && spec.velocity == (Velocity { linear: origin(), angular: origin() }) && spec.shape == Some(
            ObjectShape::Point { radius: default_authoring_radius() },
        ) && spec.components@.len() == 0 && spec.catalog_link is None),
{
    let mut commands: Vec<WorldCommand> = Vec::new();
    commands.push(
        WorldCommand::CreateObject(
            ObjectSpec {
                name: name_after("Object ", world.objects.len()),
                pinned: false,
                transform: Transform { translation: position, rotation: identity() },
                velocity: Velocity { linear: origin(), angular: origin() },
                shape: Some(ObjectShape::Point { radius: default_authoring_radius() }),
                components: Vec::new(),
                catalog_link: None,
            },
        ),
    );
    CommandPayload::CommitWorld(commands)
}

/// What the user asked of the inspected thing as a whole.
#[derive(Debug)]
pub enum EntityAction {
    /// Add a copy of it.
    Duplicate(WorldCommand),
    Focus,
    Remove(WorldCommand),
}

/// Act on the inspected thing as a whole.
pub fn entity_actions(action: EntityAction, output: &mut UiFrameOutput)
    ensures
        match action {
            EntityAction::Duplicate(command) => final(output).edits(*old(output), command),
            EntityAction::Focus => *final(output) == (UiFrameOutput {
                camera_action: Some(CameraAction::FocusSelection),
                ..*old(output)
            }),
            EntityAction::Remove(command) => final(output).edits(*old(output), command),
        },
{
    match action {
        EntityAction::Duplicate(command) => output.edit_one(command),
        EntityAction::Focus => {
            output.camera_action = Some(CameraAction::FocusSelection);
        },
        EntityAction::Remove(command) => output.edit_one(command),
    }
}

/// The edit that adds a copy of a plane.
pub fn duplicate_plane(plane: &SlicePlane) -> (command: WorldCommand)
    ensures
        command matches WorldCommand::CreatePlane(spec) && spec.name@ == plane.name@ + " copy"@
            && spec.origin == plane.origin && spec.normal == plane.normal && spec.u_axis == Some(
            plane.u_axis,
        ) && spec.half_extent == plane.half_extent && spec.visible == plane.visible && spec.attached_to
            == plane.attached_to,
{
    WorldCommand::CreatePlane(
        SlicePlaneSpec {
            name: concat2(plane.name.as_str(), " copy"),
            origin: plane.origin,
            normal: plane.normal,
            u_axis: Some(plane.u_axis),
            half_extent: plane.half_extent,
            visible: plane.visible,
            attached_to: plane.attached_to,
        },
    )
}

/// The edit that adds a copy of a box.
pub fn duplicate_box(field_box: &FieldBox) -> (command: WorldCommand)
    ensures
        command matches WorldCommand::CreateBox(spec) && spec.name@ == field_box.name@ + " copy"@
            && spec.origin == field_box.origin && spec.half_extent == field_box.half_extent
            && spec.rotation == field_box.rotation && spec.visible == field_box.visible,
{
    WorldCommand::CreateBox(
        FieldBoxSpec {
            name: concat2(field_box.name.as_str(), " copy"),
            origin: field_box.origin,
            half_extent: field_box.half_extent,
            rotation: field_box.rotation,
            visible: field_box.visible,
        },
    )
}

/// The edit that adds a copy of a sphere.
pub fn duplicate_sphere(sphere: &FieldSphere) -> (command: WorldCommand)
    ensures
        command matches WorldCommand::CreateSphere(spec) && spec.name@ == sphere.name@ + " copy"@
            && spec.origin == sphere.origin && spec.radius == sphere.radius && spec.visible
            == sphere.visible,
{
    WorldCommand::CreateSphere(
        FieldSphereSpec {
            name: concat2(sphere.name.as_str(), " copy"),
            origin: sphere.origin,
            radius: sphere.radius,
            visible: sphere.visible,
        },
    )
}

proof fn lemma_authored_objects_are_listed(objects: Seq<WorldObject>, n: nat)
    requires
        n <= objects.len() <= usize::MAX,
    ensures
        forall|k: int| 0 <= k < authored_at(objects, n).len() ==> (#[trigger] authored_at(objects, n)[k]) < n,
        forall|a: int, b: int|
            0 <= a < b < authored_at(objects, n).len() ==> (#[trigger] authored_at(objects, n)[a]) < (
            #[trigger] authored_at(objects, n)[b]),
        forall|i: int| 0 <= i < n ==> (authored_at(objects, n).contains(i as usize) <==> !(#[trigger] objects[i]).derived),
    decreases n,
{
    if n > 0 {
        lemma_authored_objects_are_listed(objects, (n - 1) as nat);
        let before = authored_at(objects, (n - 1) as nat);
        let whole = authored_at(objects, n);
        assert forall|i: int| 0 <= i < n implies (whole.contains(i as usize) <==> !(#[trigger] objects[i]).derived) by {
            if i < n - 1 {
                if before.contains(i as usize) {
                    let k = choose|k: int| 0 <= k < before.len() && before[k] == i as usize;
                    assert(whole[k] == i as usize);
                }
                if whole.contains(i as usize) {
                    let k = choose|k: int| 0 <= k < whole.len() && whole[k] == i as usize;
                    assert(before[k] == i as usize);
                }
            } else if whole.len() > before.len() {
                assert(whole[before.len() as int] == i as usize);
            } else if whole.contains(i as usize) {
                let k = choose|k: int| 0 <= k < whole.len() && whole[k] == i as usize;
                assert(before[k] < n - 1);
            }
        }
    }
}

/// Exactly the objects that were authored are listed, in the order they are in the scene.
pub proof fn authored_objects_are_listed(objects: Seq<WorldObject>)
    requires
        objects.len() <= usize::MAX,
    ensures
        forall|a: int, b: int|
            0 <= a < b < authored_at(objects, objects.len()).len() ==> (#[trigger] authored_at(
                objects,
                objects.len(),
            )[a]) < (#[trigger] authored_at(objects, objects.len())[b]),
        forall|i: int|
            0 <= i < objects.len() ==> (authored_at(objects, objects.len()).contains(i as usize) <==> !(#[trigger] objects[i]).derived),
{
    lemma_authored_objects_are_listed(objects, objects.len());
}

proof fn lemma_authored(objects: Seq<WorldObject>, n: nat)
    requires
        n <= objects.len(),
    ensures
        authored(objects, n) == authored_at(objects, n).len(),
    decreases n,
{
    if n > 0 {
        lemma_authored(objects, (n - 1) as nat);
    }
}

/// As many objects are counted as are listed.
pub proof fn every_listed_object_counts(objects: Seq<WorldObject>)
    ensures
        authored(objects, objects.len()) == authored_at(objects, objects.len()).len(),
{
    lemma_authored(objects, objects.len());
}

/// Every instrument counts once, whatever it measures.
pub proof fn every_instrument_counts(world: WorldSnapshot)
    ensures
        instruments(world) == world.probes@.len() + world.distance_probes@.len()
            + world.mass_aggregate_probes@.len() + world.planes@.len() + world.boxes@.len()
            + world.spheres@.len(),
{
}

/// Hiding, showing and deleting a listed thing are asked of that very thing.
pub proof fn a_row_acts_on_its_own_thing(item: SceneItem, shown: bool)
    ensures
        item matches SceneItem::Object(id) ==> item.visibility(shown)
            == (WorldCommand::SetObjectVisible { object: id, visible: shown }) && item.removal()
            == WorldCommand::RemoveObject(id),
        item matches SceneItem::Probe(id) ==> item.visibility(shown) == (WorldCommand::SetProbeVisible {
            probe: id,
            visible: shown,
        }) && item.removal() == WorldCommand::RemoveProbe(id),
        item matches SceneItem::DistanceProbe(id) ==> item.visibility(shown)
            == (WorldCommand::SetDistanceProbeVisible { probe: id, visible: shown }) && item.removal()
            == WorldCommand::RemoveDistanceProbe(id),
        item matches SceneItem::MassAggregateProbe(id) ==> item.visibility(shown)
            == (WorldCommand::SetMassAggregateProbeVisible { probe: id, visible: shown })
            && item.removal() == WorldCommand::RemoveMassAggregateProbe(id),
        item matches SceneItem::Plane(id) ==> item.visibility(shown) == (WorldCommand::SetPlaneVisible {
            plane: id,
            visible: shown,
        }) && item.removal() == WorldCommand::RemovePlane(id),
        item matches SceneItem::Box(id) ==> item.visibility(shown) == (WorldCommand::SetBoxVisible {
            region: id,
            visible: shown,
        }) && item.removal() == WorldCommand::RemoveBox(id),
        item matches SceneItem::Sphere(id) ==> item.visibility(shown)
            == (WorldCommand::SetSphereVisible { sphere: id, visible: shown }) && item.removal()
            == WorldCommand::RemoveSphere(id),
{
}

/// A listed thing is selected through the selection of its own kind.
pub proof fn a_row_is_selected_by_its_own_kind(item: SceneItem, model: UiModel)
    ensures
        item matches SceneItem::Object(id) ==> item.is_selected(model) == (model.selection == Some(id)),
        item matches SceneItem::Probe(id) ==> item.is_selected(model) == (model.probe_selection == Some(
            id,
        )),
        item matches SceneItem::DistanceProbe(id) ==> item.is_selected(model) == (
        model.distance_probe_selection == Some(id)),
        item matches SceneItem::MassAggregateProbe(id) ==> item.is_selected(model) == (
        model.mass_aggregate_probe_selection == Some(id)),
        item matches SceneItem::Plane(id) ==> item.is_selected(model) == (model.plane_selection == Some(
            id,
        )),
        item matches SceneItem::Box(id) ==> item.is_selected(model) == (model.box_selection == Some(id)),
        item matches SceneItem::Sphere(id) ==> item.is_selected(model) == (model.sphere_selection
            == Some(id)),
        item.select_in(model).probe_plots == model.probe_plots,
        item.select_in(model).field_layers == model.field_layers,
        item.select_in(model).following == model.following,
        item.select_in(model).view == model.view,
{
}

/// Each kind of thing is listed behind its own sign.
pub proof fn every_kind_has_its_own_sign(item: SceneItem)
    ensures
        item is Object ==> item.glyph() == "▣  "@,
        item is Probe ==> item.glyph() == "◎  "@,
        item is DistanceProbe ==> item.glyph() == "↔  "@,
        item is MassAggregateProbe ==> item.glyph() == "●  "@,
        item is Plane ==> item.glyph() == "▦  "@,
        item is Box ==> item.glyph() == "▧  "@,
        item is Sphere ==> item.glyph() == "◯  "@,
{
}

proof fn lemma_declared_channels(systems: Seq<FieldSystemStatus>, n: nat) -> (at: Seq<(int, int)>)
    requires
        n <= systems.len(),
    ensures
        at.len() == declared_channels(systems, n).len(),
        forall|a: int, b: int|
            0 <= a < b < at.len() ==> crate::source::pair_before(#[trigger] at[a], #[trigger] at[b]),
        forall|k: int|
            0 <= k < at.len() ==> {
                &&& 0 <= (#[trigger] at[k]).0 < n
                &&& 0 <= at[k].1 < systems[at[k].0].channels@.len()
                &&& declared_channels(systems, n)[k] == systems[at[k].0].channels@[at[k].1].id
            },
        forall|i: int, j: int|
            0 <= i < n && 0 <= j < systems[i].channels@.len() ==> #[trigger] at.contains((i, j)),
    decreases n,
{
    if n == 0 {
        Seq::empty()
    } else {
        let before = lemma_declared_channels(systems, (n - 1) as nat);
        let own = systems[n - 1].channels@;
        let pairs = Seq::new(own.len(), |k: int| (n - 1, k));
        let at = before + pairs;
        assert forall|i: int, j: int| 0 <= i < n && 0 <= j < systems[i].channels@.len() implies
            #[trigger] at.contains((i, j)) by {
            if i < n - 1 {
                assert(before.contains((i, j)));
                let k = choose|k: int| 0 <= k < before.len() && before[k] == (i, j);
                assert(at[k] == (i, j));
            } else {
                assert(at[before.len() + j] == (i, j));
            }
        }
        at
    }
}

/// A new probe records every channel that any system declares, system by system and in each
/// system's order.
pub proof fn a_new_probe_records_everything(systems: Seq<FieldSystemStatus>) -> (at: Seq<(int, int)>)
    ensures
        at.len() == declared_channels(systems, systems.len()).len(),
        forall|a: int, b: int|
            0 <= a < b < at.len() ==> (#[trigger] at[a]).0 < (#[trigger] at[b]).0 || (at[a].0 == at[b].0
                && at[a].1 < at[b].1),
        forall|k: int|
            0 <= k < at.len() ==> {
                &&& 0 <= (#[trigger] at[k]).0 < systems.len()
                &&& 0 <= at[k].1 < systems[at[k].0].channels@.len()
                &&& declared_channels(systems, systems.len())[k]
                    == systems[at[k].0].channels@[at[k].1].id
            },
        forall|i: int, j: int|
            0 <= i < systems.len() && 0 <= j < systems[i].channels@.len() ==> #[trigger] at.contains(
                (i, j),
            ),
{
    let at = lemma_declared_channels(systems, systems.len());
    assert forall|a: int, b: int| 0 <= a < b < at.len() implies (#[trigger] at[a]).0 < (
    #[trigger] at[b]).0 || (at[a].0 == at[b].0 && at[a].1 < at[b].1) by {
        assert(crate::source::pair_before(at[a], at[b]));
    }
    at
}

/// A new thing is numbered one more than there are of its kind.
pub proof fn a_new_thing_counts_on(prefix: Seq<char>, count: nat)
    ensures
        next_name(prefix, count) == prefix + crate::text::decimal(count + 1),
{
}

} // verus!
