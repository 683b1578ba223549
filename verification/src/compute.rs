//! The read-only, per-frame view of what a data source is reporting.
//!
//! Built once per frame so that panels take a plain value. Nothing here depends
//! on whether compute is local or remote, and nothing here can issue a command.

use crate::expression::{ExportedVariable, ExpressionDocument, ExpressionState};
use crate::fields::FieldRow;
use crate::ids::{ChannelId, ConstantId, MassAggregateProbeId, ObjectId, SchemeId};
use crate::measured::{Number, Vec3};
use crate::ordered::OrderedMap;
use crate::source::{
    count_samples, declared_names, diagnostics_of, drawable_channels, is_active, paintable_channels,
    queue_matches_summary, read_channel, summarise_domain, DataSourceStatus, Domain,
    EditHistoryStatus, FieldSnapshot, FieldSystemStatus, ProbeRow, QueueStatus, QueueSummary,
    SimulationMode, SnapshotFreshness, Subscription,
};
use crate::world::{Rgb, WorldSnapshot};
use vstd::prelude::*;

verus! {

/// Everything a data source reports at one moment.
#[derive(Debug)]
pub struct SourceReport {
    pub description: String,
    pub status: DataSourceStatus,
    pub domain: Domain,
    pub scene_scale: Number,
    pub mode: SimulationMode,
    pub tick: u64,
    pub time_seconds: Number,
    pub time_step_seconds: Number,
    pub playback_speed: Number,
    pub pending_commands: usize,
    pub queue_summary: QueueSummary,
    pub queue: QueueStatus,
    pub world_revision: u64,
    pub snapshot: Option<FieldSnapshot>,
    /// How the snapshot, if there is one, relates to the current scene.
    pub freshness: Option<SnapshotFreshness>,
    pub field_systems: Vec<FieldSystemStatus>,
    pub edit_history: EditHistoryStatus,
    pub subscription: Subscription,
    pub integration_scheme: SchemeId,
    pub expressions: ExpressionDocument,
    pub expression_state: ExpressionState,
    pub resolved_constants: OrderedMap<ConstantId, Number>,
    pub global_variables: Vec<ExportedVariable>,
    pub body_forces: OrderedMap<ObjectId, Vec3>,
    pub mass_aggregates: OrderedMap<MassAggregateProbeId, MassAggregateSample>,
    pub step_compute_ms: Number,
}

/// The live totals of a center of mass.
#[derive(Clone, Copy, Debug, PartialEq, Eq, Structural)]
pub struct MassAggregateSample {
    pub center_of_mass: Vec3,
    pub velocity: Vec3,
    pub total_momentum: Vec3,
    pub angular_momentum: Vec3,
    pub total_kinetic_energy_j: Number,
    pub total_mass_kg: Number,
    pub member_count: usize,
}

/// The part of a view that only a new snapshot can change.
#[derive(Debug)]
pub struct SnapshotDerived {
    pub total_samples: usize,
    pub domain_summary: String,
    pub probe_readings: Vec<ProbeRow>,
    pub channel_names: OrderedMap<ChannelId, String>,
    pub vector_channels: Vec<ChannelId>,
    pub diagnostics: Vec<String>,
    pub has_errors: bool,
    pub field_systems: Vec<FieldSystemStatus>,
    pub fields: Vec<FieldRow>,
    pub mutable_vector_channels: Vec<ChannelId>,
}

/// A per-frame, read-only summary of what the data source is reporting.
#[derive(Debug)]
pub struct ComputeView {
    pub description: String,
    pub status: DataSourceStatus,
    pub domain: Domain,
    /// How many metres one render unit represents.
    pub scene_scale: Number,
    pub mode: SimulationMode,
    pub tick: u64,
    pub time_seconds: Number,
    pub time_step_seconds: Number,
    pub playback_speed: Number,
    pub pending_commands: usize,
    pub queue: QueueStatus,
    pub world_revision: u64,
    pub snapshot_sequence: Option<u64>,
    pub freshness: Option<SnapshotFreshness>,
    pub total_samples: usize,
    pub domain_summary: String,
    pub probe_readings: Vec<ProbeRow>,
    pub channel_names: OrderedMap<ChannelId, String>,
    /// All equation systems composed into the scene, including inactive ones.
    pub field_systems: Vec<FieldSystemStatus>,
    /// The physical fields this scene can have, and which model computes each.
    pub fields: Vec<FieldRow>,
    /// Channels a generic vector layer can draw, in published order.
    pub vector_channels: Vec<ChannelId>,
    /// Active vector fields that their owning numerical solver permits painting.
    pub mutable_vector_channels: Vec<ChannelId>,
    pub diagnostics: Vec<String>,
    pub has_errors: bool,
    pub edit_history: EditHistoryStatus,
    pub subscription: Subscription,
    pub integration_scheme: SchemeId,
    pub expressions: ExpressionDocument,
    pub expression_state: ExpressionState,
    pub resolved_constants: OrderedMap<ConstantId, Number>,
    pub global_variables: Vec<ExportedVariable>,
    pub body_forces: OrderedMap<ObjectId, Vec3>,
    pub mass_aggregates: OrderedMap<MassAggregateProbeId, MassAggregateSample>,
    pub step_compute_ms: Number,
}

/// Whether the number of samples an active snapshot holds can be counted.
pub open spec fn samples_fit(snapshot: Option<FieldSnapshot>, systems: Seq<FieldSystemStatus>) -> bool {
    snapshot matches Some(s) ==> crate::source::sample_total(
        s.channels@,
        systems,
        s.channels@.len(),
    ) <= usize::MAX
}

impl SnapshotDerived {
    /// What a snapshot and the composed systems say of a scene.
    pub open spec fn derives(
        self,
        systems: Seq<FieldSystemStatus>,
        snapshot: Option<FieldSnapshot>,
        world: WorldSnapshot,
    ) -> bool {
        &&& self.field_systems@ == systems
        &&& self.mutable_vector_channels@ == crate::source::paintable(systems, systems.len())
        &&& crate::fields::rows_for(
            self.fields@,
            crate::fields::declared(systems, systems.len()),
        )
        &&& match snapshot {
            None => {
                &&& self.total_samples == 0
                &&& self.domain_summary@ == "No data"@
                &&& self.probe_readings@.len() == 0
                &&& self.channel_names.map() == crate::source::named_by_systems(systems, systems.len())
                &&& self.vector_channels@.len() == 0
                &&& self.diagnostics@.len() == 0
                &&& !self.has_errors
            },
            Some(s) => {
                let n = s.channels@.len();
                &&& self.total_samples == crate::source::sample_total(s.channels@, systems, n)
                &&& self.domain_summary@ == crate::source::domain_text(s.domain)
                &&& self.probe_readings@ == crate::source::readings(
                    s.channels@,
                    systems,
                    world.probes@,
                    n,
                )
                &&& self.channel_names.map() == crate::source::named_by_snapshot(
                    s.channels@,
                    systems,
                    n,
                )
                &&& self.vector_channels@ == crate::source::drawable(s.channels@, systems, n)
                &&& crate::text::texts(self.diagnostics@) == crate::source::diagnostic_lines(
                    s.diagnostics@,
                    systems,
                    s.diagnostics@.len(),
                )
                &&& self.has_errors == crate::source::reports_error(s.diagnostics@, systems)
            },
        }
    }
}

/// Everything that scales with the number of published channels and probes.
///
/// A remote source can acknowledge composition before the replacement snapshot
/// arrives, so the retained snapshot is filtered by the acknowledged system
/// state and a disabled field never remains visible during that gap.
pub fn snapshot_derived(
    field_systems: Vec<FieldSystemStatus>,
    snapshot: &Option<FieldSnapshot>,
    world: &WorldSnapshot,
) -> (derived: SnapshotDerived)
    requires
        samples_fit(*snapshot, field_systems@),
    ensures
        derived.derives(field_systems@, *snapshot, *world),
        derived.field_systems == field_systems,
{
    let mutable_vector_channels = paintable_channels(&field_systems);
    let fields = FieldRow::collect(&field_systems);
    let mut channel_names = declared_names(&field_systems);
    match snapshot {
        None => {
            SnapshotDerived {
                total_samples: 0,
                domain_summary: "No data".to_owned(),
                probe_readings: Vec::new(),
                channel_names,
                vector_channels: Vec::new(),
                diagnostics: Vec::new(),
                has_errors: false,
                field_systems,
                fields,
                mutable_vector_channels,
            }
        },
        Some(snapshot) => {
            let total_samples: usize = count_samples(snapshot, &field_systems);
            let vector_channels = drawable_channels(snapshot, &field_systems);
            let domain_summary = summarise_domain(&snapshot.domain);
            let (diagnostics, has_errors) = diagnostics_of(snapshot, &field_systems);
            let channels = &snapshot.channels;
            let mut probe_readings: Vec<ProbeRow> = Vec::new();
            let mut i: usize = 0;
            while i < channels.len()
                invariant
                    i <= channels.len(),
                    channel_names.map() == crate::source::named_by_snapshot(
                        channels@,
                        field_systems@,
                        i as nat,
                    ),
                    probe_readings@ == crate::source::readings(
                        channels@,
                        field_systems@,
                        world.probes@,
                        i as nat,
                    ),
                decreases channels.len() - i,
            {
                let channel = &channels[i];
                if is_active(&field_systems, &channel.provider) {
                    channel_names.insert(
                        channel.schema.id.clone(),
                        channel.schema.display_name.clone(),
                    );
                    let mut rows = read_channel(channel, &world.probes);
                    probe_readings.append(&mut rows);
                }
                i = i + 1;
            }
            SnapshotDerived {
                total_samples,
                domain_summary,
                probe_readings,
                channel_names,
                vector_channels,
                diagnostics,
                has_errors,
                field_systems,
                fields,
                mutable_vector_channels,
            }
        },
    }
}

/// The sequence number of a snapshot, if there is one.
pub open spec fn sequence_of(snapshot: Option<FieldSnapshot>) -> Option<u64> {
    match snapshot {
        Some(s) => Some(s.sequence),
        None => None,
    }
}

/// Whether last frame's view was built from the snapshot that is still current.
pub open spec fn reusable(previous: Option<ComputeView>, snapshot: Option<FieldSnapshot>) -> bool {
    previous matches Some(p) && p.snapshot_sequence == sequence_of(snapshot)
}

/// Whether last frame's queue is still the current one.
pub open spec fn queue_reusable(previous: Option<ComputeView>, summary: QueueSummary) -> bool {
    previous matches Some(p) && crate::source::summarised_by(p.queue, summary)
}

impl ComputeView {
    /// The part of the view that only a new snapshot can change.
    pub open spec fn derived(self) -> SnapshotDerived {
        SnapshotDerived {
            total_samples: self.total_samples,
            domain_summary: self.domain_summary,
            probe_readings: self.probe_readings,
            channel_names: self.channel_names,
            vector_channels: self.vector_channels,
            diagnostics: self.diagnostics,
            has_errors: self.has_errors,
            field_systems: self.field_systems,
            fields: self.fields,
            mutable_vector_channels: self.mutable_vector_channels,
        }
    }

    /// Whether the view is that of a source at one moment, after a view of last frame.
    pub open spec fn built_from(
        self,
        source: SourceReport,
        world: WorldSnapshot,
        previous: Option<ComputeView>,
    ) -> bool {
        &&& reusable(previous, source.snapshot) ==> self.derived() == (previous->0).derived()
        &&& !reusable(previous, source.snapshot) ==> self.derived().derives(
            source.field_systems@,
            source.snapshot,
            world,
        )
        &&& self.queue == if queue_reusable(previous, source.queue_summary) {
            (previous->0).queue
        } else {
            source.queue
        }
        &&& self.snapshot_sequence == sequence_of(source.snapshot)
        &&& self.description == source.description
        &&& self.status == source.status
        &&& self.domain == source.domain
        &&& self.scene_scale == source.scene_scale
        &&& self.mode == source.mode
        &&& self.tick == source.tick
        &&& self.time_seconds == source.time_seconds
        &&& self.time_step_seconds == source.time_step_seconds
        &&& self.playback_speed == source.playback_speed
        &&& self.pending_commands == source.pending_commands
        &&& self.world_revision == source.world_revision
        &&& self.freshness == if source.snapshot is Some {
            source.freshness
        } else {
            None
        }
        &&& self.edit_history == source.edit_history
        &&& self.subscription == source.subscription
        &&& self.integration_scheme == source.integration_scheme
        &&& self.expressions == source.expressions
        &&& self.expression_state == source.expression_state
        &&& self.resolved_constants == source.resolved_constants
        &&& self.global_variables == source.global_variables
        &&& self.body_forces == source.body_forces
        &&& self.mass_aggregates == source.mass_aggregates
        &&& self.step_compute_ms == source.step_compute_ms
    }

    /// The view of a source at one moment.
    ///
    /// `previous` is last frame's view, if there was one: what it derived from
    /// its snapshot is kept verbatim while the source still holds that snapshot,
    /// and its queue while the source's summary agrees with it. Everything else
    /// is read anew.
    pub fn build(source: SourceReport, world: &WorldSnapshot, previous: Option<ComputeView>) -> (view:
        ComputeView)
        requires
            !reusable(previous, source.snapshot) ==> samples_fit(
                source.snapshot,
                source.field_systems@,
            ),
        ensures
            view.built_from(source, *world, previous),
    {
        let snapshot_sequence: Option<u64> = match &source.snapshot {
            Some(snapshot) => Some(snapshot.sequence),
            None => None,
        };
        let freshness: Option<SnapshotFreshness> = match &source.snapshot {
            Some(_) => source.freshness,
            None => None,
        };
        let (derived, queue): (SnapshotDerived, QueueStatus) = match previous {
            Some(p) => {
                let same_snapshot: bool = match (p.snapshot_sequence, snapshot_sequence) {
                    (Some(a), Some(b)) => a == b,
                    (None, None) => true,
                    _ => false,
                };
                let queue = if queue_matches_summary(&p.queue, source.queue_summary) {
                    p.queue
                } else {
                    source.queue
                };
                if same_snapshot {
                    let kept = SnapshotDerived {
                        total_samples: p.total_samples,
                        domain_summary: p.domain_summary,
                        probe_readings: p.probe_readings,
                        channel_names: p.channel_names,
                        vector_channels: p.vector_channels,
                        diagnostics: p.diagnostics,
                        has_errors: p.has_errors,
                        field_systems: p.field_systems,
                        fields: p.fields,
                        mutable_vector_channels: p.mutable_vector_channels,
                    };
                    (kept, queue)
                } else {
                    (snapshot_derived(source.field_systems, &source.snapshot, world), queue)
                }
            },
            None => (snapshot_derived(source.field_systems, &source.snapshot, world), source.queue),
        };
        ComputeView {
            description: source.description,
            status: source.status,
            domain: source.domain,
            scene_scale: source.scene_scale,
            mode: source.mode,
            tick: source.tick,
            time_seconds: source.time_seconds,
            time_step_seconds: source.time_step_seconds,
            playback_speed: source.playback_speed,
            pending_commands: source.pending_commands,
            queue,
            world_revision: source.world_revision,
            snapshot_sequence,
            freshness,
            total_samples: derived.total_samples,
            domain_summary: derived.domain_summary,
            probe_readings: derived.probe_readings,
            channel_names: derived.channel_names,
            field_systems: derived.field_systems,
            fields: derived.fields,
            vector_channels: derived.vector_channels,
            mutable_vector_channels: derived.mutable_vector_channels,
            diagnostics: derived.diagnostics,
            has_errors: derived.has_errors,
            edit_history: source.edit_history,
            subscription: source.subscription,
            integration_scheme: source.integration_scheme,
            expressions: source.expressions,
            expression_state: source.expression_state,
            resolved_constants: source.resolved_constants,
            global_variables: source.global_variables,
            body_forces: source.body_forces,
            mass_aggregates: source.mass_aggregates,
            step_compute_ms: source.step_compute_ms,
        }
    }

    pub open spec fn commandable(self) -> bool {
        self.status is Ready
    }

    /// Transport controls are only meaningful against a connected source.
    pub fn accepts_commands(&self) -> (b: bool)
        ensures
            b == self.commandable(),
    {
        match self.status {
            DataSourceStatus::Ready => true,
            _ => false,
        }
    }

    pub open spec fn history_commandable(self) -> bool {
        self.commandable() && self.mode is Paused
    }

    /// Whether the scene can be stepped through its edit history right now.
    ///
    /// Paused, because an undo names a scene and a running clock is replacing
    /// that scene underneath it.
    pub fn accepts_history_commands(&self) -> (b: bool)
        ensures
            b == self.history_commandable(),
    {
        self.accepts_commands() && self.mode == SimulationMode::Paused
    }

    /// What the workbench as a whole is doing.
    pub open spec fn state(self) -> WorkbenchState {
        if self.has_errors || self.status is Failed || self.freshness == Some(
            SnapshotFreshness::Future,
        ) {
            WorkbenchState::Invalid
        } else {
            match self.status {
                DataSourceStatus::Connecting => WorkbenchState::Connecting,
                DataSourceStatus::Disconnected => WorkbenchState::Disconnected,
                DataSourceStatus::Failed(_) => WorkbenchState::Invalid,
                DataSourceStatus::Ready => if self.pending_commands > 0 || self.snapshot_sequence is None
                    || self.freshness == Some(SnapshotFreshness::Stale) {
                    WorkbenchState::Solving
                } else if self.mode is Running {
                    WorkbenchState::Running
                } else {
                    WorkbenchState::Paused
                },
            }
        }
    }

    pub fn workbench_state(&self) -> (state: WorkbenchState)
        ensures
            state == self.state(),
    {
        let future: bool = match self.freshness {
            Some(SnapshotFreshness::Future) => true,
            _ => false,
        };
        let stale: bool = match self.freshness {
            Some(SnapshotFreshness::Stale) => true,
            _ => false,
        };
        if self.has_errors || future {
            return WorkbenchState::Invalid;
        }
        match self.status {
            DataSourceStatus::Connecting => WorkbenchState::Connecting,
            DataSourceStatus::Disconnected => WorkbenchState::Disconnected,
            DataSourceStatus::Failed(_) => WorkbenchState::Invalid,
            DataSourceStatus::Ready => {
                if self.pending_commands > 0 || self.snapshot_sequence.is_none() || stale {
                    WorkbenchState::Solving
                } else {
                    match self.mode {
                        SimulationMode::Running => WorkbenchState::Running,
                        SimulationMode::Paused => WorkbenchState::Paused,
                    }
                }
            },
        }
    }

    /// The display name of a channel, or its identity where nothing names it.
    pub open spec fn channel_words(self, channel: ChannelId) -> Seq<char> {
        if self.channel_names.map().contains_key(channel@) {
            self.channel_names.map()[channel@]@
        } else {
            channel.written@
        }
    }

    pub fn channel_label(&self, channel: &ChannelId) -> (text: String)
        ensures
            text@ == self.channel_words(*channel),
    {
        match self.channel_names.get(channel) {
            Some(name) => name.clone(),
            None => channel.written.clone(),
        }
    }
}

/// What the workbench as a whole is doing.
#[derive(Clone, Copy, Debug, PartialEq, Eq, Structural)]
pub enum WorkbenchState {
    Connecting,
    Solving,
    Running,
    Paused,
    Disconnected,
    Invalid,
}

impl WorkbenchState {
    pub open spec fn word(self) -> Seq<char> {
        match self {
            WorkbenchState::Connecting => "Connecting"@,
            WorkbenchState::Solving => "Solving"@,
            WorkbenchState::Running => "Running"@,
            WorkbenchState::Paused => "Paused"@,
            WorkbenchState::Disconnected => "Disconnected"@,
            WorkbenchState::Invalid => "Invalid"@,
        }
    }

    pub fn label(self) -> (s: &'static str)
        ensures
            s@ == self.word(),
    {
        match self {
            WorkbenchState::Connecting => "Connecting",
            WorkbenchState::Solving => "Solving",
            WorkbenchState::Running => "Running",
            WorkbenchState::Paused => "Paused",
            WorkbenchState::Disconnected => "Disconnected",
            WorkbenchState::Invalid => "Invalid",
        }
    }

    /// The colour of the state's badge.
    pub fn color(self) -> (color: Rgb)
        ensures
            color == match self {
                WorkbenchState::Running => Rgb { r: 90, g: 205, b: 125 },
                WorkbenchState::Paused => Rgb { r: 120, g: 175, b: 235 },
                WorkbenchState::Solving | WorkbenchState::Connecting => Rgb { r: 235, g: 190, b: 75 },
                WorkbenchState::Disconnected | WorkbenchState::Invalid => Rgb {
                    r: 235,
                    g: 105,
                    b: 90,
                },
            },
    {
        match self {
            WorkbenchState::Running => Rgb { r: 90, g: 205, b: 125 },
            WorkbenchState::Paused => Rgb { r: 120, g: 175, b: 235 },
            WorkbenchState::Solving | WorkbenchState::Connecting => Rgb { r: 235, g: 190, b: 75 },
            WorkbenchState::Disconnected | WorkbenchState::Invalid => Rgb { r: 235, g: 105, b: 90 },
        }
    }
}

/// Whether two derivations say the same.
pub open spec fn same_derivation(a: SnapshotDerived, b: SnapshotDerived) -> bool {
    &&& a.total_samples == b.total_samples
    &&& a.domain_summary@ == b.domain_summary@
    &&& a.probe_readings@ == b.probe_readings@
    &&& a.channel_names.map() == b.channel_names.map()
    &&& a.vector_channels@ == b.vector_channels@
    &&& crate::text::texts(a.diagnostics@) == crate::text::texts(b.diagnostics@)
    &&& a.has_errors == b.has_errors
    &&& a.field_systems@ == b.field_systems@
    &&& crate::fields::same_rows(a.fields@, b.fields@)
    &&& a.mutable_vector_channels@ == b.mutable_vector_channels@
}

/// A snapshot, the composed systems and the scene fix everything that is derived
/// from them.
pub proof fn a_snapshot_is_derived_one_way(
    a: SnapshotDerived,
    b: SnapshotDerived,
    systems: Seq<FieldSystemStatus>,
    snapshot: Option<FieldSnapshot>,
    world: WorldSnapshot,
)
    requires
        a.derives(systems, snapshot, world),
        b.derives(systems, snapshot, world),
    ensures
        same_derivation(a, b),
{
    crate::fields::declarations_fix_the_fields(
        a.fields@,
        b.fields@,
        crate::fields::declared(systems, systems.len()),
    );
    if snapshot is None {
        assert(a.probe_readings@ =~= b.probe_readings@);
        assert(a.vector_channels@ =~= b.vector_channels@);
        assert(a.diagnostics@ =~= b.diagnostics@);
    }
}

/// While the source holds the snapshot of last frame's view, everything derived from
/// it is kept verbatim; once it holds another, the view is the one that would be
/// built without a last frame.
pub proof fn a_view_is_reused_or_rebuilt(
    source: SourceReport,
    world: WorldSnapshot,
    previous: Option<ComputeView>,
    view: ComputeView,
    fresh: ComputeView,
)
    requires
        view.built_from(source, world, previous),
        fresh.built_from(source, world, None),
    ensures
        view.snapshot_sequence == sequence_of(source.snapshot),
        reusable(previous, source.snapshot) ==> view.derived() == (previous->0).derived(),
        !reusable(previous, source.snapshot) ==> same_derivation(view.derived(), fresh.derived()),
{
    if !reusable(previous, source.snapshot) {
        a_snapshot_is_derived_one_way(
            view.derived(),
            fresh.derived(),
            source.field_systems@,
            source.snapshot,
            world,
        );
    }
}

/// A source that is not ready takes no command, of either kind.
pub proof fn an_unready_source_takes_no_command(view: ComputeView)
    requires
        view.status !is Ready,
    ensures
        !view.commandable(),
        !view.history_commandable(),
        view.state() !is Running && view.state() !is Paused && view.state() !is Solving,
{
}

/// A view that reports running or paused has a current snapshot and no queued
/// edit, no error and a connected source.
pub proof fn a_settled_state_is_backed_by_a_snapshot(view: ComputeView)
    requires
        view.state() is Running || view.state() is Paused,
    ensures
        view.commandable(),
        view.snapshot_sequence is Some,
        view.pending_commands == 0,
        !view.has_errors,
        view.freshness != Some(SnapshotFreshness::Stale),
        view.freshness != Some(SnapshotFreshness::Future),
{
}

/// The workbench is in exactly one state: something wrong goes before everything, then the
/// connection, then work that is still to be done, and only then the clock.
pub proof fn the_state_tells_the_worst_news(view: ComputeView)
    ensures
        ({
            let wrong = view.has_errors || view.status is Failed || view.freshness == Some(
                SnapshotFreshness::Future,
            );
            let waits = view.pending_commands > 0 || view.snapshot_sequence is None || view.freshness
                == Some(SnapshotFreshness::Stale);
            &&& view.state() == WorkbenchState::Invalid <==> wrong
            &&& view.state() == WorkbenchState::Connecting <==> !wrong && view.status is Connecting
            &&& view.state() == WorkbenchState::Disconnected <==> !wrong && view.status is Disconnected
            &&& view.state() == WorkbenchState::Solving <==> !wrong && view.status is Ready && waits
            &&& view.state() == WorkbenchState::Running <==> !wrong && view.status is Ready && !waits
                && view.mode == SimulationMode::Running
            &&& view.state() == WorkbenchState::Paused <==> !wrong && view.status is Ready && !waits
                && view.mode == SimulationMode::Paused
        }),
{
}

/// Each state is named by its own word.
pub proof fn states_are_named()
    ensures
        WorkbenchState::Connecting.word() == "Connecting"@,
        WorkbenchState::Solving.word() == "Solving"@,
        WorkbenchState::Running.word() == "Running"@,
        WorkbenchState::Paused.word() == "Paused"@,
        WorkbenchState::Disconnected.word() == "Disconnected"@,
        WorkbenchState::Invalid.word() == "Invalid"@,
{
}

/// A source takes commands exactly while it is ready, and history commands exactly while the
/// clock stands besides.
pub proof fn a_ready_source_takes_commands(view: ComputeView)
    ensures
        view.commandable() <==> view.status is Ready,
        view.history_commandable() <==> view.status is Ready && view.mode == SimulationMode::Paused,
{
}

/// A channel is called by the name it has, and by its identity where it has none.
pub proof fn a_channel_is_called_by_its_name(view: ComputeView, channel: ChannelId)
    ensures
        view.channel_names.map().contains_key(channel@) ==> view.channel_words(channel)
            == view.channel_names.map()[channel@]@,
        !view.channel_names.map().contains_key(channel@) ==> view.channel_words(channel)
            == channel.written@,
{
}

/// Last frame's view is reused exactly where it was built from a snapshot of the same
/// number, or both times there was none; its queue exactly where the summary still holds of
/// it.
pub proof fn a_view_is_reused_for_the_same_snapshot(
    previous: ComputeView,
    snapshot: Option<FieldSnapshot>,
    summary: QueueSummary,
)
    ensures
        !reusable(None, snapshot),
        !queue_reusable(None, summary),
        snapshot matches Some(s) ==> (reusable(Some(previous), snapshot)
            <==> previous.snapshot_sequence == Some(s.sequence)),
        snapshot is None ==> (reusable(Some(previous), snapshot) <==> previous.snapshot_sequence is None),
        queue_reusable(Some(previous), summary) <==> crate::source::summarised_by(
            previous.queue,
            summary,
        ),
{
}

/// What is derived from a snapshot is each part of a view in its own place.
pub proof fn a_view_holds_what_was_derived(view: ComputeView)
    ensures
        view.derived().total_samples == view.total_samples,
        view.derived().domain_summary == view.domain_summary,
        view.derived().probe_readings == view.probe_readings,
        view.derived().channel_names == view.channel_names,
        view.derived().vector_channels == view.vector_channels,
        view.derived().diagnostics == view.diagnostics,
        view.derived().has_errors == view.has_errors,
        view.derived().field_systems == view.field_systems,
        view.derived().fields == view.fields,
        view.derived().mutable_vector_channels == view.mutable_vector_channels,
{
}

/// Everything that is not derived from the snapshot is what the source reports now, whatever
/// last frame's view said.
pub proof fn a_view_reports_the_present(
    view: ComputeView,
    source: SourceReport,
    world: WorldSnapshot,
    previous: Option<ComputeView>,
)
    requires
        view.built_from(source, world, previous),
    ensures
        view.status == source.status,
        view.mode == source.mode,
        view.tick == source.tick,
        view.time_seconds == source.time_seconds,
        view.time_step_seconds == source.time_step_seconds,
        view.playback_speed == source.playback_speed,
        view.pending_commands == source.pending_commands,
        view.domain == source.domain,
        view.scene_scale == source.scene_scale,
        view.world_revision == source.world_revision,
        view.edit_history == source.edit_history,
        view.subscription == source.subscription,
        view.integration_scheme == source.integration_scheme,
        view.expressions == source.expressions,
        view.expression_state == source.expression_state,
        view.resolved_constants == source.resolved_constants,
        view.global_variables == source.global_variables,
        view.body_forces == source.body_forces,
        view.mass_aggregates == source.mass_aggregates,
        view.step_compute_ms == source.step_compute_ms,
        view.description == source.description,
        source.snapshot is Some ==> view.freshness == source.freshness,
        source.snapshot is None ==> view.freshness is None && view.snapshot_sequence is None,
        source.snapshot matches Some(s) ==> view.snapshot_sequence == Some(s.sequence),
        !queue_reusable(previous, source.queue_summary) ==> view.queue == source.queue,
{
}

/// Without a snapshot there is nothing to read, draw or complain of.
pub proof fn nothing_is_derived_from_no_snapshot(
    derived: SnapshotDerived,
    systems: Seq<FieldSystemStatus>,
    world: WorldSnapshot,
)
    requires
        derived.derives(systems, None, world),
    ensures
        derived.total_samples == 0,
        derived.domain_summary@ == "No data"@,
        derived.probe_readings@.len() == 0,
        derived.vector_channels@.len() == 0,
        derived.diagnostics@.len() == 0,
        !derived.has_errors,
        derived.field_systems@ == systems,
        derived.channel_names.map() == crate::source::named_by_systems(systems, systems.len()),
        derived.mutable_vector_channels@ == crate::source::paintable(systems, systems.len()),
{
}

/// From a snapshot, every part is derived of its own: the samples counted, the domain
/// summarised, the probes read, the channels named and drawn, and the remarks shown.
pub proof fn a_snapshot_is_told_part_by_part(
    derived: SnapshotDerived,
    systems: Seq<FieldSystemStatus>,
    snapshot: FieldSnapshot,
    world: WorldSnapshot,
)
    requires
        derived.derives(systems, Some(snapshot), world),
    ensures
        derived.total_samples == crate::source::sample_total(
            snapshot.channels@,
            systems,
            snapshot.channels@.len(),
        ),
        derived.domain_summary@ == crate::source::domain_text(snapshot.domain),
        derived.probe_readings@ == crate::source::readings(
            snapshot.channels@,
            systems,
            world.probes@,
            snapshot.channels@.len(),
        ),
        derived.channel_names.map() == crate::source::named_by_snapshot(
            snapshot.channels@,
            systems,
            snapshot.channels@.len(),
        ),
        derived.vector_channels@ == crate::source::drawable(
            snapshot.channels@,
            systems,
            snapshot.channels@.len(),
        ),
        crate::text::texts(derived.diagnostics@) == crate::source::diagnostic_lines(
            snapshot.diagnostics@,
            systems,
            snapshot.diagnostics@.len(),
        ),
        derived.has_errors == crate::source::reports_error(snapshot.diagnostics@, systems),
        derived.field_systems@ == systems,
        derived.mutable_vector_channels@ == crate::source::paintable(systems, systems.len()),
{
}

} // verus!
