//! Inspecting recorders: probes, distance probes and centers of mass.

use crate::command::{AppAction, UiFrameOutput};
use crate::ids::{ChannelId, DistanceProbeId, MassAggregateProbeId, ObjectId};
use crate::measured::Vec3;
use crate::model::UiModel;
use crate::ordered::{copy_list, Copied, MapKey, OrderedMap, OrderedSet};
use crate::text::concat2;
use crate::world::{
    DistanceProbe, MassAggregateProbe, MassSelection, Probe, ProbePosition,
    WorldCommand, WorldObject, WorldSnapshot,
};
use vstd::prelude::*;
use vstd::string::*;

verus! {

/// A change of a probe.
#[derive(Debug)]
pub enum ProbeInput {
    Name(String),
    /// Another place, in the world or beside the object it is attached to.
    Move(Vec3),
    /// Let go of the object, at a place in the world if there is one.
    Detach(Option<Vec3>),
    Attach { object: ObjectId, offset: Vec3 },
    Remove,
}

/// The edit a change of a probe asks for.
pub open spec fn probe_edit(probe: Probe, input: ProbeInput) -> Option<WorldCommand> {
    match input {
        ProbeInput::Name(name) => Some(WorldCommand::SetProbeName { probe: probe.id, name }),
        ProbeInput::Move(place) => Some(
            WorldCommand::SetProbePosition {
                probe: probe.id,
                position: match probe.position {
                    ProbePosition::World(_) => ProbePosition::World(place),
                    ProbePosition::Attached { object, .. } => ProbePosition::Attached {
                        object,
                        offset: place,
                    },
                },
            },
        ),
        ProbeInput::Detach(place) => match (probe.position, place) {
            (ProbePosition::Attached { .. }, Some(position)) => Some(
                WorldCommand::SetProbePosition {
                    probe: probe.id,
                    position: ProbePosition::World(position),
                },
            ),
            _ => None,
        },
        ProbeInput::Attach { object, offset } => if attached_object(probe) == Some(object) {
            None
        } else {
            Some(
                WorldCommand::SetProbePosition {
                    probe: probe.id,
                    position: ProbePosition::Attached { object, offset },
                },
            )
        },
        ProbeInput::Remove => Some(WorldCommand::RemoveProbe(probe.id)),
    }
}

/// The object a probe is attached to.
pub open spec fn attached_object(probe: Probe) -> Option<ObjectId> {
    match probe.position {
        ProbePosition::World(_) => None,
        ProbePosition::Attached { object, .. } => Some(object),
    }
}

pub fn attached_to(probe: &Probe) -> (object: Option<ObjectId>)
    ensures
        object == attached_object(*probe),
{
    match probe.position {
        ProbePosition::World(_) => None,
        ProbePosition::Attached { object, .. } => Some(object),
    }
}

/// Act on a change of a probe.
pub fn probe_properties(probe: &Probe, input: ProbeInput, output: &mut UiFrameOutput)
    ensures
        match probe_edit(*probe, input) {
            Some(command) => final(output).edits(*old(output), command),
            None => *final(output) == *old(output),
        },
{
    match input {
        ProbeInput::Name(name) => output.edit_one(
            WorldCommand::SetProbeName { probe: probe.id, name },
        ),
        ProbeInput::Move(place) => {
            let position = match probe.position {
                ProbePosition::World(_) => ProbePosition::World(place),
                ProbePosition::Attached { object, .. } => ProbePosition::Attached {
                    object,
                    offset: place,
                },
            };
            output.edit_one(WorldCommand::SetProbePosition { probe: probe.id, position });
        },
        ProbeInput::Detach(place) => {
            if let (ProbePosition::Attached { .. }, Some(position)) = (probe.position, place) {
                output.edit_one(
                    WorldCommand::SetProbePosition {
                        probe: probe.id,
                        position: ProbePosition::World(position),
                    },
                );
            }
        },
        ProbeInput::Attach { object, offset } => {
            if !crate::ids::selects(attached_to(probe), object) {
                output.edit_one(
                    WorldCommand::SetProbePosition {
                        probe: probe.id,
                        position: ProbePosition::Attached { object, offset },
                    },
                );
            }
        },
        ProbeInput::Remove => output.edit_one(WorldCommand::RemoveProbe(probe.id)),
    }
}

/// Whether an object is the one in question.
pub open spec fn same_object(attached: Option<ObjectId>, object: ObjectId) -> bool {
    attached == Some(object)
}

/// The positions of the objects, of the first `n`, other than two.
pub open spec fn others(
    objects: Seq<WorldObject>,
    one: Option<ObjectId>,
    other: Option<ObjectId>,
    n: nat,
) -> Seq<usize>
    decreases n,
{
    if n == 0 {
        Seq::empty()
    } else if same_object(one, objects[n - 1].id) || same_object(other, objects[n - 1].id) {
        others(objects, one, other, (n - 1) as nat)
    } else {
        others(objects, one, other, (n - 1) as nat).push((n - 1) as usize)
    }
}

fn all_others(objects: &Vec<WorldObject>, one: Option<ObjectId>, other: Option<ObjectId>) -> (positions:
    Vec<usize>)
    ensures
        positions@ == others(objects@, one, other, objects@.len()),
        forall|k: int|
            0 <= k < positions.len() ==> (#[trigger] positions[k]) < objects.len() && !same_object(
                one,
                objects[positions[k] as int].id,
            ) && !same_object(other, objects[positions[k] as int].id),
{
    let mut positions: Vec<usize> = Vec::new();
    let mut i: usize = 0;
    while i < objects.len()
        invariant
            i <= objects.len(),
            positions@ == others(objects@, one, other, i as nat),
            forall|k: int|
                0 <= k < positions.len() ==> (#[trigger] positions[k]) < i && !same_object(
                    one,
                    objects[positions[k] as int].id,
                ) && !same_object(other, objects[positions[k] as int].id),
        decreases objects.len() - i,
    {
        if !crate::ids::selects(one, objects[i].id) && !crate::ids::selects(other, objects[i].id) {
            positions.push(i);
        }
        i = i + 1;
    }
    positions
}

/// The objects a probe or plane can be attached to, by their positions: every
/// object but the one it is attached to.
pub fn attachment_candidates(world: &WorldSnapshot, attached: Option<ObjectId>) -> (positions: Vec<usize>)
    ensures
        positions@ == others(world.objects@, attached, None, world.objects@.len()),
        forall|k: int|
            0 <= k < positions.len() ==> (#[trigger] positions[k]) < world.objects.len()
                && !same_object(attached, world.objects[positions[k] as int].id),
{
    all_others(&world.objects, attached, None)
}

/// The label before the choice of an object to attach to, if there is any object.
pub fn attachment_label(world: &WorldSnapshot, attached: Option<ObjectId>) -> (label: Option<
    &'static str,
>)
    ensures
        label is None <==> world.objects@.len() == 0,
        label matches Some(text) ==> text@ == if attached is Some {
            "Reattach to"@
        } else {
            "Attach to"@
        },
{
    if world.objects.len() == 0 {
        None
    } else if attached.is_some() {
        Some("Reattach to")
    } else {
        Some("Attach to")
    }
}

/// The name of an object, or its identity as it is written if it is gone.
pub open spec fn object_words(world: WorldSnapshot, id: ObjectId, written: Seq<char>) -> Seq<char> {
    object_name_from(world.objects@, id.number(), written, 0)
}

/// The name of the first object with an identity, from position `n`.
pub open spec fn object_name_from(objects: Seq<WorldObject>, number: u64, written: Seq<char>, n: nat) -> Seq<
    char,
>
    decreases objects.len() - n,
{
    if n >= objects.len() {
        written
    } else if objects[n as int].id.number() == number {
        objects[n as int].name@
    } else {
        object_name_from(objects, number, written, n + 1)
    }
}

pub fn object_name(world: &WorldSnapshot, id: ObjectId, written: &str) -> (name: String)
    ensures
        name@ == object_words(*world, id, written@),
{
    let objects = &world.objects;
    let mut i: usize = 0;
    while i < objects.len()
        invariant
            *objects == world.objects,
            i <= objects.len(),
            object_name_from(objects@, id.number(), written@, 0) == object_name_from(
                objects@,
                id.number(),
                written@,
                i as nat,
            ),
        decreases objects.len() - i,
    {
        if objects[i].id.get() == id.get() {
            return objects[i].name.clone();
        }
        i = i + 1;
    }
    written.to_owned()
}

/// What is said of an attached probe or plane.
pub fn attached_line(world: &WorldSnapshot, id: ObjectId, written: &str) -> (text: String)
    ensures
        text@ == "Attached to "@ + object_words(*world, id, written@),
{
    let name = object_name(world, id, written);
    concat2("Attached to ", name.as_str())
}

/// A channel that was ticked or unticked.
#[derive(Debug)]
pub struct ChannelToggle {
    pub channel: ChannelId,
    pub records: bool,
}

/// The list without one channel.
pub open spec fn without_channel(channels: Seq<ChannelId>, channel: (Seq<char>, Seq<char>), n: nat) -> Seq<
    ChannelId,
>
    decreases n,
{
    if n == 0 {
        Seq::empty()
    } else if channels[n - 1]@ == channel {
        without_channel(channels, channel, (n - 1) as nat)
    } else {
        without_channel(channels, channel, (n - 1) as nat).push(channels[n - 1])
    }
}

/// The recorded channels after the first `n` ticks: one that was ticked comes
/// last, one that was unticked is left out.
pub open spec fn recorded(channels: Seq<ChannelId>, toggles: Seq<ChannelToggle>, n: nat) -> Seq<ChannelId>
    decreases n,
{
    if n == 0 {
        channels
    } else {
        let before = recorded(channels, toggles, (n - 1) as nat);
        if toggles[n - 1].records {
            before.push(toggles[n - 1].channel)
        } else {
            without_channel(before, toggles[n - 1].channel@, before.len())
        }
    }
}

/// The channels an open plot shows after the first `n` ticks: what is ticked is
/// shown too, and what is unticked stays until it is unticked in the plot.
pub open spec fn plotted(
    shown: Map<(Seq<char>, Seq<char>), ()>,
    toggles: Seq<ChannelToggle>,
    n: nat,
) -> Map<(Seq<char>, Seq<char>), ()>
    decreases n,
{
    if n == 0 {
        shown
    } else {
        let before = plotted(shown, toggles, (n - 1) as nat);
        if toggles[n - 1].records {
            before.insert(toggles[n - 1].channel@, ())
        } else {
            before
        }
    }
}

fn drop_channel(channels: Vec<ChannelId>, channel: &ChannelId) -> (kept: Vec<ChannelId>)
    ensures
        kept@ == without_channel(channels@, channel@, channels@.len()),
{
    let mut kept: Vec<ChannelId> = Vec::new();
    let mut i: usize = 0;
    while i < channels.len()
        invariant
            i <= channels.len(),
            kept@ == without_channel(channels@, channel@, i as nat),
        decreases channels.len() - i,
    {
        if !channels[i].same(channel) {
            kept.push(channels[i].copied());
        }
        i = i + 1;
    }
    kept
}

/// The recorded channels of a probe after some were ticked or unticked.
pub fn recorded_channels(probe: &Probe, toggles: &Vec<ChannelToggle>) -> (channels: Vec<ChannelId>)
    ensures
        channels@ == recorded(probe.channels@, toggles@, toggles@.len()),
{
    let mut channels = copy_list(&probe.channels);
    let mut i: usize = 0;
    while i < toggles.len()
        invariant
            i <= toggles.len(),
            channels@ == recorded(probe.channels@, toggles@, i as nat),
        decreases toggles.len() - i,
    {
        if toggles[i].records {
            channels.push(toggles[i].channel.copied());
        } else {
            channels = drop_channel(channels, &toggles[i].channel);
        }
        i = i + 1;
    }
    channels
}

fn show_ticked(shown: &mut OrderedSet<ChannelId>, toggles: &Vec<ChannelToggle>)
    ensures
        final(shown).map() == plotted(old(shown).map(), toggles@, toggles@.len()),
{
    let mut i: usize = 0;
    while i < toggles.len()
        invariant
            i <= toggles.len(),
            shown.map() == plotted(old(shown).map(), toggles@, i as nat),
        decreases toggles.len() - i,
    {
        if toggles[i].records {
            shown.insert(toggles[i].channel.copied(), ());
        }
        i = i + 1;
    }
}

/// Whether the open plots are the same but for what the plot of one probe shows
/// more.
pub open spec fn plots_follow(
    before: Map<u64, crate::model::ProbePlotWindow>,
    now: Map<u64, crate::model::ProbePlotWindow>,
    probe: u64,
    toggles: Seq<ChannelToggle>,
) -> bool {
    &&& now.dom() == before.dom()
    &&& forall|key: u64|
        before.contains_key(key) && key != probe ==> #[trigger] now[key] == before[key]
    &&& before.contains_key(probe) ==> now[probe].channels.map() == plotted(
        before[probe].channels.map(),
        toggles,
        toggles.len(),
    )
}

/// Choose the channels a probe records. The probe's plot, if it is open, shows
/// what was ticked from then on.
pub fn probe_channel_picker(
    model: &mut UiModel,
    probe: &Probe,
    toggles: &Vec<ChannelToggle>,
    output: &mut UiFrameOutput,
)
    ensures
        *final(model) == (UiModel { probe_plots: final(model).probe_plots, ..*old(model) }),
        plots_follow(
            old(model).probe_plots.map(),
            final(model).probe_plots.map(),
            probe.id.number(),
            toggles@,
        ),
        toggles@.len() == 0 ==> *final(output) == *old(output),
        toggles@.len() > 0 ==> final(output).edits_like(
            *old(output),
            |command: WorldCommand|
                command matches WorldCommand::SetProbeChannels { probe: id, channels } && id
                    == probe.id && channels@ == recorded(probe.channels@, toggles@, toggles@.len()),
        ),
{
    if toggles.len() == 0 {
        return;
    }
    let ghost before = model.probe_plots.map();
    if let Some(mut plot) = model.probe_plots.remove(&probe.id) {
        show_ticked(&mut plot.channels, toggles);
        model.probe_plots.insert(probe.id, plot);
        assert(model.probe_plots.map().dom() =~= before.dom());
    } else {
        assert(model.probe_plots.map() =~= before);
    }
    output.edit_one(
        WorldCommand::SetProbeChannels {
            probe: probe.id,
            channels: recorded_channels(probe, toggles),
        },
    );
}

/// The objects offered for one end of a distance, by their positions: every object
/// but the two ends.
pub fn distance_probe_candidates(world: &WorldSnapshot, current: ObjectId, other: ObjectId) -> (positions:
    Vec<usize>)
    ensures
        positions@ == others(world.objects@, Some(current), Some(other), world.objects@.len()),
        forall|k: int|
            0 <= k < positions.len() ==> (#[trigger] positions[k]) < world.objects.len()
                && world.objects[positions[k] as int].id != current
                && world.objects[positions[k] as int].id != other,
{
    all_others(&world.objects, Some(current), Some(other))
}

proof fn every_other_is_listed(
    objects: Seq<WorldObject>,
    one: Option<ObjectId>,
    other: Option<ObjectId>,
    n: nat,
    i: int,
)
    requires
        n <= objects.len(),
        n <= usize::MAX,
        0 <= i < n,
    ensures
        others(objects, one, other, n).contains(i as usize) <==> !same_object(one, objects[i].id)
            && !same_object(other, objects[i].id),
        forall|k: int|
            0 <= k < others(objects, one, other, n).len() ==> (#[trigger] others(
                objects,
                one,
                other,
                n,
            )[k]) < n,
    decreases n,
{
    let rest = others(objects, one, other, (n - 1) as nat);
    let all = others(objects, one, other, n);
    if n >= 2 {
        let j = if i < n - 1 {
            i
        } else {
            0
        };
        every_other_is_listed(objects, one, other, (n - 1) as nat, j);
    }
    if all.len() > rest.len() {
        assert(all[rest.len() as int] == (n - 1) as usize);
        assert forall|k: int| 0 <= k < rest.len() implies all[k] == rest[k] by {}
        if rest.contains(i as usize) {
            let k = rest.index_of(i as usize);
            assert(all[k] == i as usize);
        }
    }
}

/// Exactly the objects other than the two ends of a distance are offered for one
/// of its ends.
pub proof fn a_picker_offers_every_other_object(
    objects: Seq<WorldObject>,
    current: ObjectId,
    other: ObjectId,
    i: int,
)
    requires
        0 <= i < objects.len() <= usize::MAX,
    ensures
        others(objects, Some(current), Some(other), objects.len()).contains(i as usize)
            <==> objects[i].id != current && objects[i].id != other,
{
    every_other_is_listed(objects, Some(current), Some(other), objects.len(), i);
}

/// A change of a distance probe.
#[derive(Debug)]
pub enum DistanceInput {
    Name(String),
    ObjectA(ObjectId),
    ObjectB(ObjectId),
    ShowLine(bool),
    Remove,
}

/// The edit a change of a distance probe asks for. One end is changed at a time,
/// and never to an end the probe has.
pub open spec fn distance_edit(probe: DistanceProbe, input: DistanceInput) -> Option<WorldCommand> {
    match input {
        DistanceInput::Name(name) => Some(
            WorldCommand::SetDistanceProbeName { probe: probe.id, name },
        ),
        DistanceInput::ObjectA(object) => if object == probe.object_a || object == probe.object_b {
            None
        } else {
            Some(
                WorldCommand::SetDistanceProbeObjects {
                    probe: probe.id,
                    object_a: object,
                    object_b: probe.object_b,
                },
            )
        },
        DistanceInput::ObjectB(object) => if object == probe.object_a || object == probe.object_b {
            None
        } else {
            Some(
                WorldCommand::SetDistanceProbeObjects {
                    probe: probe.id,
                    object_a: probe.object_a,
                    object_b: object,
                },
            )
        },
        DistanceInput::ShowLine(show_line) => Some(
            WorldCommand::SetDistanceProbeShowLine { probe: probe.id, show_line },
        ),
        DistanceInput::Remove => Some(WorldCommand::RemoveDistanceProbe(probe.id)),
    }
}

/// Act on a change of a distance probe.
pub fn distance_probe_properties(
    probe: &DistanceProbe,
    input: DistanceInput,
    output: &mut UiFrameOutput,
)
    ensures
        match distance_edit(*probe, input) {
            Some(command) => final(output).edits(*old(output), command),
            None => *final(output) == *old(output),
        },
{
    match input {
        DistanceInput::Name(name) => output.edit_one(
            WorldCommand::SetDistanceProbeName { probe: probe.id, name },
        ),
        DistanceInput::ObjectA(object) => {
            if !object.is(probe.object_a) && !object.is(probe.object_b) {
                output.edit_one(
                    WorldCommand::SetDistanceProbeObjects {
                        probe: probe.id,
                        object_a: object,
                        object_b: probe.object_b,
                    },
                );
            }
        },
        DistanceInput::ObjectB(object) => {
            if !object.is(probe.object_a) && !object.is(probe.object_b) {
                output.edit_one(
                    WorldCommand::SetDistanceProbeObjects {
                        probe: probe.id,
                        object_a: probe.object_a,
                        object_b: object,
                    },
                );
            }
        },
        DistanceInput::ShowLine(show_line) => output.edit_one(
            WorldCommand::SetDistanceProbeShowLine { probe: probe.id, show_line },
        ),
        DistanceInput::Remove => output.edit_one(WorldCommand::RemoveDistanceProbe(probe.id)),
    }
}

/// A distance is never measured from an object to itself.
pub proof fn a_distance_keeps_two_ends(probe: DistanceProbe, input: DistanceInput)
    ensures
        distance_edit(probe, input) matches Some(
            WorldCommand::SetDistanceProbeObjects { object_a, object_b, .. },
        ) ==> object_a != object_b,
{
}

/// The live reading of a distance probe: the distance as it is written, if both
/// objects are there.
pub fn distance_line(reading: Option<&str>) -> (text: String)
    ensures
        text@ == match reading {
            Some(distance) => distance@ + " m"@,
            None => "One object no longer exists"@,
        },
{
    match reading {
        Some(distance) => concat2(distance, " m"),
        None => "One object no longer exists".to_owned(),
    }
}

/// Ask for the recorded history of a distance probe to be saved on its own.
pub fn export_distance(probe: &DistanceProbe, output: &mut UiFrameOutput)
    ensures
        *final(output) == (UiFrameOutput {
            app_action: Some(AppAction::ExportObservations(probe.id)),
            ..*old(output)
        }),
{
    output.app_action = Some(AppAction::ExportObservations(probe.id));
}

impl UiModel {
    /// Open the plot of a distance probe in a window of its own.
    pub fn open_distance_probe_plot(&mut self, probe: DistanceProbeId)
        ensures
            *final(self) == (UiModel {
                distance_probe_plots: final(self).distance_probe_plots,
                ..*old(self)
            }),
            final(self).distance_probe_plots.map() == old(self).distance_probe_plots.map().insert(
                probe.number(),
                (),
            ),
    {
        self.distance_probe_plots.insert(probe, ());
    }

    /// Open the plot of a center of mass in a window of its own.
    pub fn open_mass_aggregate_probe_plot(&mut self, probe: MassAggregateProbeId)
        ensures
            *final(self) == (UiModel {
                mass_aggregate_probe_plots: final(self).mass_aggregate_probe_plots,
                ..*old(self)
            }),
            final(self).mass_aggregate_probe_plots.map() == old(
                self,
            ).mass_aggregate_probe_plots.map().insert(probe.number(), ()),
    {
        self.mass_aggregate_probe_plots.insert(probe, ());
    }
}

/// An object that was ticked or unticked.
#[derive(Clone, Copy, Debug, PartialEq, Eq)]
pub struct MemberToggle {
    pub object: ObjectId,
    pub checked: bool,
}

/// A change of a center of mass.
#[derive(Debug)]
pub enum MassInput {
    Name(String),
    /// Count every object but some.
    Universe,
    /// Count only some objects.
    Selection,
    /// Tick and untick objects, in order.
    Members(Vec<MemberToggle>),
    ShowMemberLines(bool),
    Remove,
}

/// The ticked objects after the first `n` ticks.
pub open spec fn ticked(members: Map<u64, ()>, toggles: Seq<MemberToggle>, n: nat) -> Map<u64, ()>
    decreases n,
{
    if n == 0 {
        members
    } else {
        let before = ticked(members, toggles, (n - 1) as nat);
        if toggles[n - 1].checked {
            before.insert(toggles[n - 1].object.number(), ())
        } else {
            before.remove(toggles[n - 1].object.number())
        }
    }
}

/// The objects listed by a selection, and whether they are left out.
pub open spec fn listed_members(selection: MassSelection) -> (bool, Map<u64, ()>) {
    match selection {
        MassSelection::Universe { excluded } => (true, excluded.map()),
        MassSelection::Selection { included } => (false, included.map()),
    }
}

/// Whether an edit gives a center of mass a selection.
pub open spec fn selects_members(
    command: WorldCommand,
    probe: MassAggregateProbeId,
    members: (bool, Map<u64, ()>),
) -> bool {
    command matches WorldCommand::SetMassAggregateProbeSelection { probe: id, selection } && id == probe
        && listed_members(selection) == members
}

fn toggle_members(members: &OrderedSet<ObjectId>, toggles: &Vec<MemberToggle>) -> (updated: OrderedSet<
    ObjectId,
>)
    ensures
        updated.map() == ticked(members.map(), toggles@, toggles@.len()),
{
    let mut updated = members.duplicate();
    let mut i: usize = 0;
    while i < toggles.len()
        invariant
            i <= toggles.len(),
            updated.map() == ticked(members.map(), toggles@, i as nat),
        decreases toggles.len() - i,
    {
        if toggles[i].checked {
            updated.insert(toggles[i].object, ());
        } else {
            let _ = updated.remove(&toggles[i].object);
        }
        i = i + 1;
    }
    updated
}

/// Act on a change of a center of mass. Choosing the mode it is in changes
/// nothing, and the other one starts without a ticked object.
pub fn mass_aggregate_probe_properties(
    probe: &MassAggregateProbe,
    input: MassInput,
    output: &mut UiFrameOutput,
)
    ensures
        match input {
            MassInput::Name(name) => final(output).edits(
                *old(output),
                WorldCommand::SetMassAggregateProbeName { probe: probe.id, name },
            ),
            MassInput::Universe => if probe.selection is Universe {
                *final(output) == *old(output)
            } else {
                final(output).edits_like(
                    *old(output),
                    |command: WorldCommand|
                        selects_members(command, probe.id, (true, Map::empty())),
                )
            },
            MassInput::Selection => if probe.selection is Selection {
                *final(output) == *old(output)
            } else {
                final(output).edits_like(
                    *old(output),
                    |command: WorldCommand|
                        selects_members(command, probe.id, (false, Map::empty())),
                )
            },
            MassInput::Members(toggles) => if toggles@.len() == 0 {
                *final(output) == *old(output)
            } else {
                final(output).edits_like(
                    *old(output),
                    |command: WorldCommand|
                        selects_members(
                            command,
                            probe.id,
                            (
                                listed_members(probe.selection).0,
                                ticked(
                                    listed_members(probe.selection).1,
                                    toggles@,
                                    toggles@.len(),
                                ),
                            ),
                        ),
                )
            },
            MassInput::ShowMemberLines(show_member_lines) => final(output).edits(
                *old(output),
                WorldCommand::SetMassAggregateProbeShowMemberLines {
                    probe: probe.id,
                    show_member_lines,
                },
            ),
            MassInput::Remove => final(output).edits(
                *old(output),
                WorldCommand::RemoveMassAggregateProbe(probe.id),
            ),
        },
{
    match input {
        MassInput::Name(name) => output.edit_one(
            WorldCommand::SetMassAggregateProbeName { probe: probe.id, name },
        ),
        MassInput::Universe => {
            if let MassSelection::Selection { .. } = &probe.selection {
                output.edit_one(
                    WorldCommand::SetMassAggregateProbeSelection {
                        probe: probe.id,
                        selection: MassSelection::Universe { excluded: OrderedMap::new() },
                    },
                );
            }
        },
        MassInput::Selection => {
            if let MassSelection::Universe { .. } = &probe.selection {
                output.edit_one(
                    WorldCommand::SetMassAggregateProbeSelection {
                        probe: probe.id,
                        selection: MassSelection::Selection { included: OrderedMap::new() },
                    },
                );
            }
        },
        MassInput::Members(toggles) => {
            if toggles.len() > 0 {
                let selection = match &probe.selection {
                    MassSelection::Universe { excluded } => MassSelection::Universe {
                        excluded: toggle_members(excluded, &toggles),
                    },
                    MassSelection::Selection { included } => MassSelection::Selection {
                        included: toggle_members(included, &toggles),
                    },
                };
                output.edit_one(
                    WorldCommand::SetMassAggregateProbeSelection { probe: probe.id, selection },
                );
            }
        },
        MassInput::ShowMemberLines(show_member_lines) => output.edit_one(
            WorldCommand::SetMassAggregateProbeShowMemberLines {
                probe: probe.id,
                show_member_lines,
            },
        ),
        MassInput::Remove => output.edit_one(WorldCommand::RemoveMassAggregateProbe(probe.id)),
    }
}

/// What is said above the list of objects of a center of mass.
pub fn membership_note(selection: &MassSelection) -> (s: &'static str)
    ensures
        selection is Universe ==> s@ == "Every mass-bearing object, except any checked below:"@,
        selection is Selection ==> s@ == "Only the objects checked below:"@,
{
    match selection {
        MassSelection::Universe { .. } => "Every mass-bearing object, except any checked below:",
        MassSelection::Selection { .. } => "Only the objects checked below:",
    }
}

/// A probe goes exactly where it is put: in the world if it stands there, and beside its
/// object if it is attached to one.
pub proof fn a_probe_goes_where_it_is_put(probe: Probe, place: Vec3)
    ensures
        probe.position is World ==> probe_edit(probe, ProbeInput::Move(place)) == Some(
            WorldCommand::SetProbePosition {
                probe: probe.id,
                position: ProbePosition::World(place),
            },
        ),
        probe.position matches ProbePosition::Attached { object, offset } ==> probe_edit(
            probe,
            ProbeInput::Move(place),
        ) == Some(
            WorldCommand::SetProbePosition {
                probe: probe.id,
                position: ProbePosition::Attached { object, offset: place },
            },
        ),
{
}

/// A probe is attached to the object it is given, unless it is attached to that one, and let
/// go where it was, if it is attached at all and that place is known.
pub proof fn a_probe_is_attached_and_let_go(probe: Probe, object: ObjectId, offset: Vec3, place: Vec3)
    ensures
        !(probe.position matches ProbePosition::Attached { object: other, .. } && other == object)
            ==> probe_edit(probe, ProbeInput::Attach { object, offset }) == Some(
            WorldCommand::SetProbePosition {
                probe: probe.id,
                position: ProbePosition::Attached { object, offset },
            },
        ),
        (probe.position matches ProbePosition::Attached { object: other, .. } && other == object)
            ==> probe_edit(probe, ProbeInput::Attach { object, offset }) is None,
        probe.position is Attached ==> probe_edit(probe, ProbeInput::Detach(Some(place))) == Some(
            WorldCommand::SetProbePosition {
                probe: probe.id,
                position: ProbePosition::World(place),
            },
        ),
        probe.position is World ==> probe_edit(probe, ProbeInput::Detach(Some(place))) is None,
        probe_edit(probe, ProbeInput::Detach(None)) is None,
        attached_object(probe) == Some(object) <==> (probe.position matches ProbePosition::Attached {
            object: other,
            ..
        } && other == object),
        probe.position is World ==> attached_object(probe) is None,
{
}

/// A probe is renamed as asked, and removed when asked.
pub proof fn a_probe_takes_its_name(probe: Probe, name: String)
    ensures
        probe_edit(probe, ProbeInput::Name(name)) == Some(
            WorldCommand::SetProbeName { probe: probe.id, name },
        ),
        probe_edit(probe, ProbeInput::Remove) == Some(WorldCommand::RemoveProbe(probe.id)),
{
}

proof fn lemma_object_name(objects: Seq<WorldObject>, number: u64, written: Seq<char>, n: nat)
    ensures
        forall|k: int|
            n <= k < objects.len() && (#[trigger] objects[k]).id.number() == number && (forall|j: int|
                n <= j < k ==> (#[trigger] objects[j]).id.number() != number) ==> object_name_from(
                objects,
                number,
                written,
                n,
            ) == objects[k].name@,
        (forall|j: int| n <= j < objects.len() ==> (#[trigger] objects[j]).id.number() != number)
            ==> object_name_from(objects, number, written, n) == written,
    decreases objects.len() - n,
{
    if n < objects.len() {
        lemma_object_name(objects, number, written, n + 1);
        assert(objects[n as int].id.number() == number || objects[n as int].id.number() != number);
    }
}

/// An object is called by its own name while it is in the scene, and by what is written of
/// it once it is gone.
pub proof fn an_object_is_called_by_its_own_name(world: WorldSnapshot, id: ObjectId, written: Seq<char>)
    ensures
        forall|k: int|
            0 <= k < world.objects@.len() && (#[trigger] world.objects@[k]).id.number() == id.number() && (
            forall|j: int|
                0 <= j < k ==> (#[trigger] world.objects@[j]).id.number() != id.number())
                ==> object_words(world, id, written) == world.objects@[k].name@,
        (forall|j: int|
            0 <= j < world.objects@.len() ==> (#[trigger] world.objects@[j]).id.number() != id.number())
            ==> object_words(world, id, written) == written,
{
    lemma_object_name(world.objects@, id.number(), written, 0);
}

proof fn lemma_unticking_leaves_every_other_channel(channels: Seq<ChannelId>, key: (Seq<char>, Seq<char>), n: nat) -> (at: Seq<int>)
    requires
        n <= channels.len(),
    ensures
        at.len() == without_channel(channels, key, n).len(),
        forall|a: int, b: int| 0 <= a < b < at.len() ==> #[trigger] at[a] < #[trigger] at[b],
        forall|k: int|
            0 <= k < at.len() ==> {
                &&& 0 <= #[trigger] at[k] < n
                &&& channels[at[k]]@ != key
                &&& without_channel(channels, key, n)[k] == channels[at[k]]
            },
        forall|i: int| 0 <= i < n && (#[trigger] channels[i])@ != key ==> at.contains(i),
    decreases n,
{
    if n == 0 {
        Seq::empty()
    } else {
        let before = lemma_unticking_leaves_every_other_channel(channels, key, (n - 1) as nat);
        if channels[n - 1]@ != key {
            let at = before.push(n - 1);
            assert forall|i: int| 0 <= i < n && (#[trigger] channels[i])@ != key implies at.contains(i) by {
                if i < n - 1 {
                    let k = choose|k: int| 0 <= k < before.len() && before[k] == i;
                    assert(at[k] == i);
                } else {
                    assert(at[before.len() as int] == i);
                }
            }
            at
        } else {
            before
        }
    }
}

/// A channel that is left out takes every mention of it along, and leaves all others as they
/// were and in their order.
pub proof fn unticking_leaves_every_other_channel(channels: Seq<ChannelId>, key: (Seq<char>, Seq<char>)) -> (at: Seq<int>)
    ensures
        at.len() == without_channel(channels, key, channels.len()).len(),
        forall|a: int, b: int| 0 <= a < b < at.len() ==> #[trigger] at[a] < #[trigger] at[b],
        forall|k: int|
            0 <= k < at.len() ==> {
                &&& 0 <= #[trigger] at[k] < channels.len()
                &&& channels[at[k]]@ != key
                &&& without_channel(channels, key, channels.len())[k] == channels[at[k]]
            },
        forall|i: int| 0 <= i < channels.len() && (#[trigger] channels[i])@ != key ==> at.contains(i),
{
    lemma_unticking_leaves_every_other_channel(channels, key, channels.len())
}

proof fn lemma_without_lists(channels: Seq<ChannelId>, key: (Seq<char>, Seq<char>), other: (Seq<char>, Seq<char>))
    ensures
        crate::ids::lists(without_channel(channels, key, channels.len()), other) <==> other != key
            && crate::ids::lists(channels, other),
{
    let kept = without_channel(channels, key, channels.len());
    let at = unticking_leaves_every_other_channel(channels, key);
    if crate::ids::lists(kept, other) {
        let k = choose|k: int| 0 <= k < kept.len() && (#[trigger] kept[k]).key() == other;
        assert(kept[k] == channels[at[k]]);
        assert(channels[at[k]].key() == other);
    }
    if other != key && crate::ids::lists(channels, other) {
        let i = choose|i: int| 0 <= i < channels.len() && (#[trigger] channels[i]).key() == other;
        assert(channels[i]@ != key);
        assert(at.contains(i));
        let k = choose|k: int| 0 <= k < at.len() && at[k] == i;
        assert(kept[k].key() == other);
    }
}

proof fn lemma_recorded(
    channels: Seq<ChannelId>,
    toggles: Seq<ChannelToggle>,
    n: nat,
    key: (Seq<char>, Seq<char>),
)
    requires
        n <= toggles.len(),
    ensures
        (forall|j: int| 0 <= j < n ==> (#[trigger] toggles[j]).channel@ != key) ==> (crate::ids::lists(
            recorded(channels, toggles, n),
            key,
        ) <==> crate::ids::lists(channels, key)),
        forall|j: int|
            0 <= j < n && (#[trigger] toggles[j]).channel@ == key && (forall|l: int|
                j < l < n ==> (#[trigger] toggles[l]).channel@ != key) ==> (crate::ids::lists(
                recorded(channels, toggles, n),
                key,
            ) <==> toggles[j].records),
    decreases n,
{
    if n > 0 {
        lemma_recorded(channels, toggles, (n - 1) as nat, key);
        let before = recorded(channels, toggles, (n - 1) as nat);
        let toggle = toggles[n - 1];
        let after = recorded(channels, toggles, n);
        if toggle.records {
            if crate::ids::lists(before, key) {
                let k = choose|k: int| 0 <= k < before.len() && (#[trigger] before[k]).key() == key;
                assert(after[k].key() == key);
            }
            if crate::ids::lists(after, key) && toggle.channel@ != key {
                let k = choose|k: int| 0 <= k < after.len() && (#[trigger] after[k]).key() == key;
                assert(k < before.len());
                assert(before[k].key() == key);
            }
            if toggle.channel@ == key {
                assert(after[before.len() as int].key() == key);
            }
        } else {
            lemma_without_lists(before, toggle.channel@, key);
        }
    }
}

/// A probe records exactly the channels that were ticked last, and those that it recorded
/// before and nobody touched.
pub proof fn a_probe_records_what_was_ticked_last(
    channels: Seq<ChannelId>,
    toggles: Seq<ChannelToggle>,
    key: (Seq<char>, Seq<char>),
)
    ensures
        (forall|j: int| 0 <= j < toggles.len() ==> (#[trigger] toggles[j]).channel@ != key) ==> (
        crate::ids::lists(recorded(channels, toggles, toggles.len()), key) <==> crate::ids::lists(
            channels,
            key,
        )),
        forall|j: int|
            0 <= j < toggles.len() && (#[trigger] toggles[j]).channel@ == key && (forall|l: int|
                j < l < toggles.len() ==> (#[trigger] toggles[l]).channel@ != key) ==> (
            crate::ids::lists(recorded(channels, toggles, toggles.len()), key) <==> toggles[j].records),
{
    lemma_recorded(channels, toggles, toggles.len(), key);
}

/// One tick puts the channel behind those that are recorded, and one unticked leaves it out.
pub proof fn one_tick_adds_one_channel(channels: Seq<ChannelId>, toggle: ChannelToggle)
    ensures
        toggle.records ==> recorded(channels, seq![toggle], 1) == channels.push(toggle.channel),
        !toggle.records ==> recorded(channels, seq![toggle], 1) == without_channel(
            channels,
            toggle.channel@,
            channels.len(),
        ),
        recorded(channels, Seq::empty(), 0) == channels,
{
    reveal_with_fuel(recorded, 2);
}

/// A plot goes on showing what it showed, and shows whatever was ticked.
pub proof fn a_plot_shows_what_was_ticked(
    shown: Map<(Seq<char>, Seq<char>), ()>,
    toggles: Seq<ChannelToggle>,
    n: nat,
    key: (Seq<char>, Seq<char>),
)
    requires
        n <= toggles.len(),
    ensures
        plotted(shown, toggles, n).contains_key(key) <==> shown.contains_key(key) || exists|j: int|
            0 <= j < n && (#[trigger] toggles[j]).records && toggles[j].channel@ == key,
    decreases n,
{
    if n > 0 {
        a_plot_shows_what_was_ticked(shown, toggles, (n - 1) as nat, key);
        if toggles[n - 1].records && toggles[n - 1].channel@ == key {
            assert(plotted(shown, toggles, n).contains_key(key));
        }
    }
}

/// An end of a distance is changed to the object it is given and leaves the other end, unless
/// the object is an end already; its name and line are set as asked.
pub proof fn a_distance_takes_its_ends(probe: DistanceProbe, object: ObjectId, name: String, shown: bool)
    ensures
        object != probe.object_a && object != probe.object_b ==> distance_edit(
            probe,
            DistanceInput::ObjectA(object),
        ) == Some(
            WorldCommand::SetDistanceProbeObjects {
                probe: probe.id,
                object_a: object,
                object_b: probe.object_b,
            },
        ),
        object != probe.object_a && object != probe.object_b ==> distance_edit(
            probe,
            DistanceInput::ObjectB(object),
        ) == Some(
            WorldCommand::SetDistanceProbeObjects {
                probe: probe.id,
                object_a: probe.object_a,
                object_b: object,
            },
        ),
        object == probe.object_a || object == probe.object_b ==> distance_edit(
            probe,
            DistanceInput::ObjectA(object),
        ) is None && distance_edit(probe, DistanceInput::ObjectB(object)) is None,
        distance_edit(probe, DistanceInput::Name(name)) == Some(
            WorldCommand::SetDistanceProbeName { probe: probe.id, name },
        ),
        distance_edit(probe, DistanceInput::ShowLine(shown)) == Some(
            WorldCommand::SetDistanceProbeShowLine { probe: probe.id, show_line: shown },
        ),
        distance_edit(probe, DistanceInput::Remove) == Some(
            WorldCommand::RemoveDistanceProbe(probe.id),
        ),
{
}

/// An object is a member exactly where it was ticked last, or was a member before and nobody
/// touched it.
pub proof fn members_are_those_ticked_last(
    members: Map<u64, ()>,
    toggles: Seq<MemberToggle>,
    n: nat,
    key: u64,
)
    requires
        n <= toggles.len(),
    ensures
        (forall|j: int| 0 <= j < n ==> (#[trigger] toggles[j]).object.number() != key) ==> (ticked(
            members,
            toggles,
            n,
        ).contains_key(key) <==> members.contains_key(key)),
        forall|j: int|
            0 <= j < n && (#[trigger] toggles[j]).object.number() == key && (forall|l: int|
                j < l < n ==> (#[trigger] toggles[l]).object.number() != key) ==> (ticked(
                members,
                toggles,
                n,
            ).contains_key(key) <==> toggles[j].checked),
    decreases n,
{
    if n > 0 {
        members_are_those_ticked_last(members, toggles, (n - 1) as nat, key);
    }
}

/// A center of mass that counts everything lists what is left out, and one that counts a
/// selection lists what is counted.
pub proof fn a_selection_lists_its_members(selection: MassSelection)
    ensures
        selection matches MassSelection::Universe { excluded } ==> listed_members(selection) == (
            true,
            excluded.map(),
        ),
        selection matches MassSelection::Selection { included } ==> listed_members(selection) == (
            false,
            included.map(),
        ),
{
}

/// A selection that is asked for is asked of that very center of mass.
pub proof fn a_selection_is_of_its_own_probe(
    command: WorldCommand,
    probe: MassAggregateProbeId,
    members: (bool, Map<u64, ()>),
)
    requires
        selects_members(command, probe, members),
    ensures
        command matches WorldCommand::SetMassAggregateProbeSelection { probe: id, selection } && id
            == probe && (selection is Universe <==> members.0) && listed_members(selection).1 == members.1,
{
}

/// Ticking channels of a probe changes the plot of that probe and no other one, and neither
/// opens nor closes any.
pub proof fn a_plot_follows_its_own_probe(
    before: Map<u64, crate::model::ProbePlotWindow>,
    now: Map<u64, crate::model::ProbePlotWindow>,
    probe: u64,
    toggles: Seq<ChannelToggle>,
)
    requires
        plots_follow(before, now, probe, toggles),
    ensures
        forall|key: u64| #[trigger] now.contains_key(key) <==> before.contains_key(key),
        forall|key: u64| #[trigger] now.contains_key(key) && key != probe ==> now[key] == before[key],
        toggles.len() == 0 && before.contains_key(probe) ==> now[probe].channels.map()
            == before[probe].channels.map(),
{
    assert forall|key: u64| #[trigger] now.contains_key(key) <==> before.contains_key(key) by {
        assert(now.dom().contains(key) == before.dom().contains(key));
    }
}

} // verus!
