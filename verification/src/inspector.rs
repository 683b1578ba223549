//! The inspector: which thing of the scene its editors are for.

use crate::ids::Id;
use crate::model::UiModel;
use crate::world::{find, Identified, WorldSnapshot};
use vstd::prelude::*;

verus! {

/// What the inspector shows: the simulation, a thing of the scene by its position
/// among its kind, or nothing.
#[derive(Clone, Copy, Debug, PartialEq, Eq, Structural)]
pub enum InspectorSubject {
    Simulation,
    Object(usize),
    Plane(usize),
    Box(usize),
    Sphere(usize),
    Probe(usize),
    DistanceProbe(usize),
    MassAggregateProbe(usize),
    Nothing,
}

impl InspectorSubject {
    pub fn heading(self) -> (s: &'static str)
        ensures
            self is Simulation ==> s@ == "Simulation"@,
            self is Object ==> s@ == "Object"@,
            self is Plane ==> s@ == "Slice plane"@,
            self is Box ==> s@ == "Field box"@,
            self is Sphere ==> s@ == "Field sphere"@,
            self is Probe ==> s@ == "Probe"@,
            self is DistanceProbe ==> s@ == "Distance probe"@,
            self is MassAggregateProbe ==> s@ == "Center of mass"@,
            self is Nothing ==> s@ == "Inspector"@,
    {
        match self {
            InspectorSubject::Simulation => "Simulation",
            InspectorSubject::Object(_) => "Object",
            InspectorSubject::Plane(_) => "Slice plane",
            InspectorSubject::Box(_) => "Field box",
            InspectorSubject::Sphere(_) => "Field sphere",
            InspectorSubject::Probe(_) => "Probe",
            InspectorSubject::DistanceProbe(_) => "Distance probe",
            InspectorSubject::MassAggregateProbe(_) => "Center of mass",
            InspectorSubject::Nothing => "Inspector",
        }
    }
}

/// Whether a selected thing is still in the scene.
pub open spec fn there<T: Identified, const KIND: u8>(list: Seq<T>, selection: Option<Id<KIND>>) -> bool {
    selection matches Some(id) && crate::world::present(list, id.number())
}

/// Whether a selected thing stands at a position of the scene.
pub open spec fn there_at<T: Identified, const KIND: u8>(
    list: Seq<T>,
    selection: Option<Id<KIND>>,
    i: int,
) -> bool {
    selection matches Some(id) && crate::world::first_at(list, id.number(), i)
}

fn look_up<T: Identified, const KIND: u8>(list: &Vec<T>, selection: Option<Id<KIND>>) -> (position: Option<
    usize,
>)
    ensures
        position is Some <==> there(list@, selection),
        position matches Some(i) ==> there_at(list@, selection, i as int),
{
    match selection {
        Some(id) => find(list, id.get()),
        None => None,
    }
}

/// Whether no selected shape or object is in the scene, and the simulation node is
/// not selected either.
pub open spec fn no_shape_there(model: UiModel, world: WorldSnapshot) -> bool {
    &&& !model.world_selected
    &&& !there(world.objects@, model.selection)
    &&& !there(world.planes@, model.plane_selection)
    &&& !there(world.boxes@, model.box_selection)
    &&& !there(world.spheres@, model.sphere_selection)
}

/// What the inspector shows. The simulation node goes before everything; a thing
/// that was selected but is no longer in the scene is passed over.
pub open spec fn inspects(model: UiModel, world: WorldSnapshot, subject: InspectorSubject) -> bool {
    match subject {
        InspectorSubject::Simulation => model.world_selected,
        InspectorSubject::Object(i) => !model.world_selected && there_at(
            world.objects@,
            model.selection,
            i as int,
        ),
        InspectorSubject::Plane(i) => !model.world_selected && !there(
            world.objects@,
            model.selection,
        ) && there_at(world.planes@, model.plane_selection, i as int),
        InspectorSubject::Box(i) => !model.world_selected && !there(
            world.objects@,
            model.selection,
        ) && !there(world.planes@, model.plane_selection) && there_at(
            world.boxes@,
            model.box_selection,
            i as int,
        ),
        InspectorSubject::Sphere(i) => !model.world_selected && !there(
            world.objects@,
            model.selection,
        ) && !there(world.planes@, model.plane_selection) && !there(world.boxes@, model.box_selection)
            && there_at(world.spheres@, model.sphere_selection, i as int),
        InspectorSubject::Probe(i) => no_shape_there(model, world) && there_at(
            world.probes@,
            model.probe_selection,
            i as int,
        ),
        InspectorSubject::DistanceProbe(i) => no_shape_there(model, world) && !there(
            world.probes@,
            model.probe_selection,
        ) && there_at(world.distance_probes@, model.distance_probe_selection, i as int),
        InspectorSubject::MassAggregateProbe(i) => no_shape_there(model, world) && !there(
            world.probes@,
            model.probe_selection,
        ) && !there(world.distance_probes@, model.distance_probe_selection) && there_at(
            world.mass_aggregate_probes@,
            model.mass_aggregate_probe_selection,
            i as int,
        ),
        InspectorSubject::Nothing => no_shape_there(model, world) && !there(
            world.probes@,
            model.probe_selection,
        ) && !there(world.distance_probes@, model.distance_probe_selection) && !there(
            world.mass_aggregate_probes@,
            model.mass_aggregate_probe_selection,
        ),
    }
}

/// What the inspector shows.
pub fn inspector(model: &UiModel, world: &WorldSnapshot) -> (subject: InspectorSubject)
    ensures
        inspects(*model, *world, subject),
{
    if model.world_selected {
        return InspectorSubject::Simulation;
    }
    if let Some(i) = look_up(&world.objects, model.selection) {
        return InspectorSubject::Object(i);
    }
    if let Some(i) = look_up(&world.planes, model.plane_selection) {
        return InspectorSubject::Plane(i);
    }
    if let Some(i) = look_up(&world.boxes, model.box_selection) {
        return InspectorSubject::Box(i);
    }
    if let Some(i) = look_up(&world.spheres, model.sphere_selection) {
        return InspectorSubject::Sphere(i);
    }
    if let Some(i) = look_up(&world.probes, model.probe_selection) {
        return InspectorSubject::Probe(i);
    }
    if let Some(i) = look_up(&world.distance_probes, model.distance_probe_selection) {
        return InspectorSubject::DistanceProbe(i);
    }
    if let Some(i) = look_up(
        &world.mass_aggregate_probes,
        model.mass_aggregate_probe_selection,
    ) {
        return InspectorSubject::MassAggregateProbe(i);
    }
    InspectorSubject::Nothing
}

proof fn there_at_is_there<T: Identified, const KIND: u8>(
    list: Seq<T>,
    selection: Option<Id<KIND>>,
    i: int,
    j: int,
)
    ensures
        there_at(list, selection, i) ==> there(list, selection),
        there_at(list, selection, i) && there_at(list, selection, j) ==> i == j,
{
    if there_at(list, selection, i) && there_at(list, selection, j) {
        let number = selection->0.number();
        if i < j {
            assert(list[i].number() != number);
        } else if j < i {
            assert(list[j].number() != number);
        }
    }
}

/// The inspector has one subject at a time.
pub proof fn the_inspector_has_one_subject(
    model: UiModel,
    world: WorldSnapshot,
    a: InspectorSubject,
    b: InspectorSubject,
)
    requires
        inspects(model, world, a),
        inspects(model, world, b),
    ensures
        a == b,
{
    let position = |s: InspectorSubject|
        match s {
            InspectorSubject::Object(i) => i as int,
            InspectorSubject::Plane(i) => i as int,
            InspectorSubject::Box(i) => i as int,
            InspectorSubject::Sphere(i) => i as int,
            InspectorSubject::Probe(i) => i as int,
            InspectorSubject::DistanceProbe(i) => i as int,
            InspectorSubject::MassAggregateProbe(i) => i as int,
            _ => 0,
        };
    let i = position(a);
    let j = position(b);
    there_at_is_there(world.objects@, model.selection, i, j);
    there_at_is_there(world.objects@, model.selection, j, i);
    there_at_is_there(world.planes@, model.plane_selection, i, j);
    there_at_is_there(world.planes@, model.plane_selection, j, i);
    there_at_is_there(world.boxes@, model.box_selection, i, j);
    there_at_is_there(world.boxes@, model.box_selection, j, i);
    there_at_is_there(world.spheres@, model.sphere_selection, i, j);
    there_at_is_there(world.spheres@, model.sphere_selection, j, i);
    there_at_is_there(world.probes@, model.probe_selection, i, j);
    there_at_is_there(world.probes@, model.probe_selection, j, i);
    there_at_is_there(world.distance_probes@, model.distance_probe_selection, i, j);
    there_at_is_there(world.distance_probes@, model.distance_probe_selection, j, i);
    there_at_is_there(world.mass_aggregate_probes@, model.mass_aggregate_probe_selection, i, j);
    there_at_is_there(world.mass_aggregate_probes@, model.mass_aggregate_probe_selection, j, i);
}

/// Of everything that is selected and still in the scene, the inspector shows the simulation
/// first, then an object, a plane, a box, a sphere, a probe, a distance probe and a center of
/// mass, and nothing only where none of these is there.
pub proof fn the_inspector_has_an_order(model: UiModel, world: WorldSnapshot, subject: InspectorSubject)
    requires
        inspects(model, world, subject),
    ensures
        model.world_selected <==> subject is Simulation,
        subject matches InspectorSubject::Object(i) ==> i < world.objects@.len() && model.selection
            is Some && world.objects@[i as int].number() == (model.selection->0).number(),
        subject matches InspectorSubject::Plane(i) ==> i < world.planes@.len() && model.plane_selection
            is Some && world.planes@[i as int].number() == (model.plane_selection->0).number(),
        subject matches InspectorSubject::Box(i) ==> i < world.boxes@.len() && model.box_selection
            is Some && world.boxes@[i as int].number() == (model.box_selection->0).number(),
        subject matches InspectorSubject::Sphere(i) ==> i < world.spheres@.len()
            && model.sphere_selection is Some && world.spheres@[i as int].number() == (
        model.sphere_selection->0).number(),
        subject matches InspectorSubject::Probe(i) ==> i < world.probes@.len() && model.probe_selection
            is Some && world.probes@[i as int].number() == (model.probe_selection->0).number(),
        subject matches InspectorSubject::DistanceProbe(i) ==> i < world.distance_probes@.len()
            && model.distance_probe_selection is Some && world.distance_probes@[i as int].number() == (
        model.distance_probe_selection->0).number(),
        subject matches InspectorSubject::MassAggregateProbe(i) ==> i
            < world.mass_aggregate_probes@.len() && model.mass_aggregate_probe_selection is Some
            && world.mass_aggregate_probes@[i as int].number() == (
        model.mass_aggregate_probe_selection->0).number(),
        !model.world_selected && there(world.objects@, model.selection) ==> subject is Object,
        !model.world_selected && !there(world.objects@, model.selection) && there(
            world.planes@,
            model.plane_selection,
        ) ==> subject is Plane,
        !model.world_selected && !there(world.objects@, model.selection) && !there(
            world.planes@,
            model.plane_selection,
        ) && there(world.boxes@, model.box_selection) ==> subject is Box,
        no_shape_there(model, world) ==> !(subject is Simulation) && !(subject is Object) && !(
        subject is Plane) && !(subject is Box) && !(subject is Sphere),
        no_shape_there(model, world) && there(world.probes@, model.probe_selection)
            ==> subject is Probe,
        no_shape_there(model, world) && !there(world.probes@, model.probe_selection) && there(
            world.distance_probes@,
            model.distance_probe_selection,
        ) ==> subject is DistanceProbe,
        no_shape_there(model, world) && !there(world.probes@, model.probe_selection) && !there(
            world.distance_probes@,
            model.distance_probe_selection,
        ) && there(world.mass_aggregate_probes@, model.mass_aggregate_probe_selection)
            ==> subject is MassAggregateProbe,
        subject is Nothing ==> !model.world_selected && !there(world.objects@, model.selection)
            && !there(world.planes@, model.plane_selection) && !there(world.boxes@, model.box_selection)
            && !there(world.spheres@, model.sphere_selection) && !there(
            world.probes@,
            model.probe_selection,
        ) && !there(world.distance_probes@, model.distance_probe_selection) && !there(
            world.mass_aggregate_probes@,
            model.mass_aggregate_probe_selection,
        ),
{
    match subject {
        InspectorSubject::Object(i) => there_at_is_there(world.objects@, model.selection, i as int, 0),
        InspectorSubject::Plane(i) => there_at_is_there(
            world.planes@,
            model.plane_selection,
            i as int,
            0,
        ),
        InspectorSubject::Box(i) => there_at_is_there(world.boxes@, model.box_selection, i as int, 0),
        InspectorSubject::Sphere(i) => there_at_is_there(
            world.spheres@,
            model.sphere_selection,
            i as int,
            0,
        ),
        InspectorSubject::Probe(i) => there_at_is_there(
            world.probes@,
            model.probe_selection,
            i as int,
            0,
        ),
        InspectorSubject::DistanceProbe(i) => there_at_is_there(
            world.distance_probes@,
            model.distance_probe_selection,
            i as int,
            0,
        ),
        InspectorSubject::MassAggregateProbe(i) => there_at_is_there(
            world.mass_aggregate_probes@,
            model.mass_aggregate_probe_selection,
            i as int,
            0,
        ),
        _ => {},
    }
}

/// A selected thing is there exactly where something is selected and the scene holds a thing
/// of its number.
pub proof fn a_selected_thing_is_in_the_scene<T: Identified, const KIND: u8>(
    list: Seq<T>,
    selection: Option<Id<KIND>>,
)
    ensures
        selection is None ==> !there(list, selection),
        selection matches Some(id) ==> (there(list, selection) <==> exists|i: int|
            0 <= i < list.len() && (#[trigger] list[i]).number() == id.number()),
{
}

} // verus!
