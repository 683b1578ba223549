//! What a data source reports, and what is derived from its latest snapshot.

use crate::ids::{listed_in, ChannelId, CommandId, ComponentTypeId, PluginId, ProbeId};
use crate::measured::Vec3;
use crate::ordered::{Copied, MapKey, OrderedMap};
use crate::text::{concat2, concat4, decimal_text};
use crate::world::{Dimension, Probe, PropertyBag, PropertySchema};
use vstd::prelude::*;
use vstd::string::*;

verus! {

/// Whether the source can be talked to.
#[derive(Debug, PartialEq, Eq)]
pub enum DataSourceStatus {
    Connecting,
    Ready,
    Disconnected,
    Failed(String),
}

impl DataSourceStatus {
    pub fn label(&self) -> (s: &'static str)
        ensures
            self is Connecting ==> s@ == "Connecting"@,
            self is Ready ==> s@ == "Ready"@,
            self is Disconnected ==> s@ == "Disconnected"@,
            self is Failed ==> s@ == "Failed"@,
    {
        match self {
            DataSourceStatus::Connecting => "Connecting",
            DataSourceStatus::Ready => "Ready",
            DataSourceStatus::Disconnected => "Disconnected",
            DataSourceStatus::Failed(_) => "Failed",
        }
    }
}

/// Whether the simulation clock advances.
#[derive(Clone, Copy, Debug, PartialEq, Eq, Structural)]
pub enum SimulationMode {
    Running,
    Paused,
}

/// How a published snapshot relates to the current scene.
#[derive(Clone, Copy, Debug, PartialEq, Eq, Structural)]
pub enum SnapshotFreshness {
    Current,
    Stale,
    Future,
}

impl SnapshotFreshness {
    pub fn label(self) -> (s: &'static str)
        ensures
            self is Current ==> s@ == "Current"@,
            self is Stale ==> s@ == "Stale"@,
            self is Future ==> s@ == "Future"@,
    {
        match self {
            SnapshotFreshness::Current => "Current",
            SnapshotFreshness::Stale => "Stale",
            SnapshotFreshness::Future => "Future",
        }
    }
}

/// What happens at one pair of faces of the domain.
#[derive(Clone, Copy, Debug, PartialEq, Eq, Structural)]
pub enum BoundaryCondition {
    Periodic,
    Dirichlet,
    Neumann,
    Absorbing,
    Open,
}

impl BoundaryCondition {
    /// The word for the condition in running text.
    pub open spec fn word(self) -> Seq<char> {
        match self {
            BoundaryCondition::Periodic => "periodic"@,
            BoundaryCondition::Dirichlet => "Dirichlet"@,
            BoundaryCondition::Neumann => "Neumann"@,
            BoundaryCondition::Absorbing => "absorbing"@,
            BoundaryCondition::Open => "open"@,
        }
    }

    /// The word for the condition in running text.
    pub fn in_text(self) -> (s: &'static str)
        ensures
            s@ == self.word(),
    {
        match self {
            BoundaryCondition::Periodic => "periodic",
            BoundaryCondition::Dirichlet => "Dirichlet",
            BoundaryCondition::Neumann => "Neumann",
            BoundaryCondition::Absorbing => "absorbing",
            BoundaryCondition::Open => "open",
        }
    }
}

/// The conditions along the three axes.
#[derive(Clone, Copy, Debug, PartialEq, Eq, Structural)]
pub struct BoundaryConditions {
    pub x: BoundaryCondition,
    pub y: BoundaryCondition,
    pub z: BoundaryCondition,
}

impl BoundaryConditions {
    pub fn uniform(condition: BoundaryCondition) -> (conditions: Self)
        ensures
            conditions == (BoundaryConditions { x: condition, y: condition, z: condition }),
    {
        BoundaryConditions { x: condition, y: condition, z: condition }
    }
}

/// How the conditions of a domain are summarised.
pub open spec fn boundaries_text(b: BoundaryConditions) -> Seq<char> {
    if b.x == b.y && b.y == b.z {
        b.x.word() + " boundaries"@
    } else {
        "x "@ + b.x.word() + ", y "@ + b.y.word() + ", z "@ + b.z.word() + " boundaries"@
    }
}

/// One word for a uniform domain, else one per axis.
pub fn format_boundaries(boundaries: BoundaryConditions) -> (text: String)
    ensures
        text@ == boundaries_text(boundaries),
{
    if boundaries.x == boundaries.y && boundaries.y == boundaries.z {
        concat2(boundaries.x.in_text(), " boundaries")
    } else {
        let mut text = concat4("x ", boundaries.x.in_text(), ", y ", boundaries.y.in_text());
        text.append(", z ");
        text.append(boundaries.z.in_text());
        text.append(" boundaries");
        text
    }
}

/// The width of the numbers a solver computes with.
#[derive(Clone, Copy, Debug, PartialEq, Eq, Structural)]
pub enum Precision {
    F32,
    F64,
}

impl Precision {
    pub open spec fn word(self) -> Seq<char> {
        match self {
            Precision::F32 => "f32"@,
            Precision::F64 => "f64"@,
        }
    }

    pub fn label(self) -> (s: &'static str)
        ensures
            s@ == self.word(),
    {
        match self {
            Precision::F32 => "f32",
            Precision::F64 => "f64",
        }
    }
}

/// Counts along two axes.
#[derive(Clone, Copy, Debug, PartialEq, Eq, Structural)]
pub struct UVec2 {
    pub x: u32,
    pub y: u32,
}

/// Counts along three axes.
#[derive(Clone, Copy, Debug, PartialEq, Eq, Structural)]
pub struct UVec3 {
    pub x: u32,
    pub y: u32,
    pub z: u32,
}

/// The region and lattice a solver discretizes.
#[derive(Clone, Copy, Debug, PartialEq, Eq, Structural)]
pub struct Domain {
    pub min: Vec3,
    pub max: Vec3,
    pub cells: UVec3,
    /// The number of cells the domain counts.
    pub cell_count: u64,
    pub boundaries: BoundaryConditions,
    pub precision: Precision,
}

/// The state of a queued command.
#[derive(Clone, Copy, Debug, PartialEq, Eq, Structural)]
pub enum CommandLifecycle {
    Submitted,
    Queued,
    Applied,
    Rejected,
    Cancelled,
}

/// A command as the queue remembers it.
#[derive(Debug, PartialEq, Eq)]
pub struct CommandRecord {
    pub command: CommandId,
    /// What kind of command it is, in words.
    pub kind: String,
    pub state: CommandLifecycle,
    pub error: Option<String>,
}

/// The authoritative queue: pending commands and recent terminal history.
#[derive(Debug, PartialEq, Eq)]
pub struct QueueStatus {
    pub paused: bool,
    pub pending: Vec<CommandRecord>,
    pub history: Vec<CommandRecord>,
}

/// What a source says of its queue without listing it.
#[derive(Clone, Copy, Debug, PartialEq, Eq)]
pub struct QueueSummary {
    pub paused: bool,
    pub pending_len: usize,
    pub history_len: usize,
    pub newest_history: Option<CommandId>,
}

/// Whether a listed queue has the shape and the newest entry of a summary.
pub open spec fn summarised_by(queue: QueueStatus, summary: QueueSummary) -> bool {
    &&& queue.paused == summary.paused
    &&& queue.pending@.len() == summary.pending_len
    &&& queue.history@.len() == summary.history_len
    &&& summary.newest_history == if queue.history@.len() > 0 {
        Some(queue.history@.last().command)
    } else {
        None
    }
}

/// Whether last frame's queue already reflects this frame's summary.
pub fn queue_matches_summary(cached: &QueueStatus, summary: QueueSummary) -> (b: bool)
    ensures
        b == summarised_by(*cached, summary),
{
    let newest_matches: bool = if cached.history.len() == 0 {
        summary.newest_history.is_none()
    } else {
        crate::ids::selects(
            summary.newest_history,
            cached.history[cached.history.len() - 1].command,
        )
    };
    cached.paused == summary.paused && cached.pending.len() == summary.pending_len
        && cached.history.len() == summary.history_len && newest_matches
}

/// What undo and redo are offering.
#[derive(Debug, PartialEq, Eq)]
pub struct EditHistoryStatus {
    pub undo: Option<String>,
    pub redo: Option<String>,
}

/// What a source samples for its clients.
#[derive(Clone, Copy, Debug, PartialEq, Eq, Structural)]
pub struct Subscription {
    /// Samples along the two axes of each visible plane.
    pub planes: Option<UVec2>,
    pub domain_stride: Option<u32>,
    /// Samples along the three axes of each visible box.
    pub boxes: Option<UVec3>,
    pub spheres: Option<u32>,
}

/// Whether a channel carries numbers or vectors, and of which dimension.
#[derive(Debug, PartialEq, Eq)]
pub enum FieldValueKind {
    Scalar(Dimension),
    Vector(Dimension),
}

impl Copied for FieldValueKind {
    fn copied(&self) -> (copy: Self) {
        match self {
            FieldValueKind::Scalar(dimension) => FieldValueKind::Scalar(dimension.copied()),
            FieldValueKind::Vector(dimension) => FieldValueKind::Vector(dimension.copied()),
        }
    }
}

impl FieldValueKind {
    pub open spec fn dimension(self) -> Dimension {
        match self {
            FieldValueKind::Scalar(dimension) => dimension,
            FieldValueKind::Vector(dimension) => dimension,
        }
    }
}

/// A channel a field system declares.
#[derive(Debug, PartialEq, Eq)]
pub struct ChannelSchema {
    pub id: ChannelId,
    pub display_name: String,
    pub value_kind: FieldValueKind,
}

/// The plugin behind a field system.
#[derive(Debug, PartialEq, Eq)]
pub struct PluginDescriptor {
    pub id: PluginId,
    pub display_name: String,
    pub description: String,
    pub version: String,
}

/// An equation system composed into the scene.
#[derive(Debug, PartialEq, Eq)]
pub struct FieldSystemStatus {
    pub plugin: PluginDescriptor,
    pub enabled: bool,
    /// Whether it recomputes for every intermediate value of an edit.
    pub realtime: bool,
    pub channels: Vec<ChannelSchema>,
    pub mutable_vector_channels: Vec<ChannelId>,
    /// The kinds of component the plugin declares.
    pub component_schemas: Vec<ComponentTypeId>,
    pub configuration: PropertyBag,
    pub configuration_schema: Vec<PropertySchema>,
}

/// Why a sample has no value.
#[derive(Clone, Copy, Debug, PartialEq, Eq, Structural)]
pub enum UndefinedReason {
    InsideSourceRadius,
    OutsideDomain,
    NotConverged,
    NumericalOverflow,
    AcrossPeriodicSeam,
}

/// How far a sample can be trusted.
#[derive(Clone, Copy, Debug, PartialEq, Eq, Structural)]
pub enum SampleValidity {
    Exact,
    Interpolated,
    Undefined(UndefinedReason),
}

/// The remark shown in place of a value, if any.
pub open spec fn validity_words(validity: SampleValidity) -> Option<Seq<char>> {
    match validity {
        SampleValidity::Exact => None,
        SampleValidity::Interpolated => Some("interpolated"@),
        SampleValidity::Undefined(reason) => Some(
            match reason {
                UndefinedReason::InsideSourceRadius => "undefined — inside source radius"@,
                UndefinedReason::OutsideDomain => "undefined — outside domain"@,
                UndefinedReason::NotConverged => "undefined — not converged"@,
                UndefinedReason::NumericalOverflow => "undefined — numerical overflow"@,
                UndefinedReason::AcrossPeriodicSeam => "undefined — across periodic seam"@,
            },
        ),
    }
}

/// A sample that is not defined must never be shown as though it were measured.
pub fn validity_note(validity: SampleValidity) -> (note: Option<&'static str>)
    ensures
        note is Some <==> validity !is Exact,
        note matches Some(words) ==> Some(words@) == validity_words(validity),
{
    match validity {
        SampleValidity::Exact => None,
        SampleValidity::Interpolated => Some("interpolated"),
        SampleValidity::Undefined(UndefinedReason::InsideSourceRadius) => Some(
            "undefined — inside source radius",
        ),
        SampleValidity::Undefined(UndefinedReason::OutsideDomain) => Some("undefined — outside domain"),
        SampleValidity::Undefined(UndefinedReason::NotConverged) => Some("undefined — not converged"),
        SampleValidity::Undefined(UndefinedReason::NumericalOverflow) => Some(
            "undefined — numerical overflow",
        ),
        SampleValidity::Undefined(UndefinedReason::AcrossPeriodicSeam) => Some(
            "undefined — across periodic seam",
        ),
    }
}

/// What a channel holds at a probe: the value in words and how far it holds.
#[derive(Debug, PartialEq, Eq)]
pub struct ProbeSample {
    pub probe: ProbeId,
    pub value: String,
    pub validity: SampleValidity,
}

/// A published channel.
#[derive(Debug, PartialEq, Eq)]
pub struct SnapshotChannel {
    pub schema: ChannelSchema,
    /// The system that computed it.
    pub provider: PluginId,
    pub batch_lengths: Vec<usize>,
    pub probe_samples: Vec<ProbeSample>,
}

/// How bad a diagnostic is.
#[derive(Clone, Copy, Debug, PartialEq, Eq, Structural)]
pub enum DiagnosticSeverity {
    Info,
    Warning,
    Error,
}

impl DiagnosticSeverity {
    pub open spec fn word(self) -> Seq<char> {
        match self {
            DiagnosticSeverity::Info => "Info"@,
            DiagnosticSeverity::Warning => "Warning"@,
            DiagnosticSeverity::Error => "Error"@,
        }
    }

    pub fn label(self) -> (s: &'static str)
        ensures
            s@ == self.word(),
    {
        match self {
            DiagnosticSeverity::Info => "Info",
            DiagnosticSeverity::Warning => "Warning",
            DiagnosticSeverity::Error => "Error",
        }
    }
}

/// Something a solver has to say.
#[derive(Debug, PartialEq, Eq)]
pub struct SolverDiagnostic {
    pub plugin: PluginId,
    pub severity: DiagnosticSeverity,
    pub message: String,
}

/// What a source last published, channels in the order of their identities.
#[derive(Debug, PartialEq, Eq)]
pub struct FieldSnapshot {
    pub sequence: u64,
    pub domain: Domain,
    pub channels: Vec<SnapshotChannel>,
    pub diagnostics: Vec<SolverDiagnostic>,
}

/// A probe's reading of one channel.
#[derive(Debug, PartialEq, Eq)]
pub struct ProbeRow {
    pub probe_name: String,
    pub channel_name: String,
    pub value: String,
    pub validity: SampleValidity,
}

/// Whether an enabled system has this plugin.
pub open spec fn active(systems: Seq<FieldSystemStatus>, plugin: Seq<char>) -> bool {
    exists|i: int|
        0 <= i < systems.len() && (#[trigger] systems[i]).enabled && systems[i].plugin.id@ == plugin
}

/// Whether some system has this plugin.
pub open spec fn composed(systems: Seq<FieldSystemStatus>, plugin: Seq<char>) -> bool {
    exists|i: int| 0 <= i < systems.len() && (#[trigger] systems[i]).plugin.id@ == plugin
}

/// Whether an enabled system has this plugin.
pub fn is_active(systems: &Vec<FieldSystemStatus>, plugin: &PluginId) -> (b: bool)
    ensures
        b == active(systems@, plugin@),
{
    let mut i: usize = 0;
    while i < systems.len()
        invariant
            i <= systems.len(),
            forall|k: int|
                0 <= k < i ==> !((#[trigger] systems[k]).enabled && systems[k].plugin.id@ == plugin@),
        decreases systems.len() - i,
    {
        if systems[i].enabled && systems[i].plugin.id.same(plugin) {
            return true;
        }
        i = i + 1;
    }
    false
}

/// Whether some system has this plugin.
pub fn is_composed(systems: &Vec<FieldSystemStatus>, plugin: &PluginId) -> (b: bool)
    ensures
        b == composed(systems@, plugin@),
{
    let mut i: usize = 0;
    while i < systems.len()
        invariant
            i <= systems.len(),
            forall|k: int| 0 <= k < i ==> (#[trigger] systems[k]).plugin.id@ != plugin@,
        decreases systems.len() - i,
    {
        if systems[i].plugin.id.same(plugin) {
            return true;
        }
        i = i + 1;
    }
    false
}

/// The channels the enabled ones of the first `n` systems let the user paint.
pub open spec fn paintable(systems: Seq<FieldSystemStatus>, n: nat) -> Seq<ChannelId>
    decreases n,
{
    if n == 0 {
        Seq::empty()
    } else if systems[n - 1].enabled {
        paintable(systems, (n - 1) as nat) + systems[n - 1].mutable_vector_channels@
    } else {
        paintable(systems, (n - 1) as nat)
    }
}

/// Active vector fields that their owning solver permits painting.
pub fn paintable_channels(systems: &Vec<FieldSystemStatus>) -> (channels: Vec<ChannelId>)
    ensures
        channels@ == paintable(systems@, systems@.len()),
{
    let mut channels: Vec<ChannelId> = Vec::new();
    let mut i: usize = 0;
    while i < systems.len()
        invariant
            i <= systems.len(),
            channels@ == paintable(systems@, i as nat),
        decreases systems.len() - i,
    {
        if systems[i].enabled {
            let mut more = crate::ordered::copy_list(&systems[i].mutable_vector_channels);
            channels.append(&mut more);
        }
        i = i + 1;
        assert(channels@ =~= paintable(systems@, i as nat));
    }
    channels
}

/// The samples in the first `n` batches.
pub open spec fn batch_total(lengths: Seq<usize>, n: nat) -> nat
    decreases n,
{
    if n == 0 {
        0
    } else {
        batch_total(lengths, (n - 1) as nat) + lengths[n - 1] as nat
    }
}

/// The samples of the active ones of the first `n` channels.
pub open spec fn sample_total(
    channels: Seq<SnapshotChannel>,
    systems: Seq<FieldSystemStatus>,
    n: nat,
) -> nat
    decreases n,
{
    if n == 0 {
        0
    } else {
        sample_total(channels, systems, (n - 1) as nat) + if active(systems, channels[n - 1].provider@) {
            batch_total(channels[n - 1].batch_lengths@, channels[n - 1].batch_lengths@.len())
        } else {
            0
        }
    }
}

proof fn lemma_batch_total_grows(lengths: Seq<usize>, i: nat, n: nat)
    requires
        i <= n,
    ensures
        batch_total(lengths, i) <= batch_total(lengths, n),
    decreases n,
{
    if i < n {
        lemma_batch_total_grows(lengths, i, (n - 1) as nat);
    }
}

proof fn lemma_sample_total_grows(
    channels: Seq<SnapshotChannel>,
    systems: Seq<FieldSystemStatus>,
    i: nat,
    n: nat,
)
    requires
        i <= n,
    ensures
        sample_total(channels, systems, i) <= sample_total(channels, systems, n),
    decreases n,
{
    if i < n {
        lemma_sample_total_grows(channels, systems, i, (n - 1) as nat);
    }
}

/// The samples published by active systems.
pub fn count_samples(snapshot: &FieldSnapshot, systems: &Vec<FieldSystemStatus>) -> (total: usize)
    requires
        sample_total(snapshot.channels@, systems@, snapshot.channels@.len()) <= usize::MAX,
    ensures
        total == sample_total(snapshot.channels@, systems@, snapshot.channels@.len()),
{
    let channels = &snapshot.channels;
    let mut total: usize = 0;
    let mut i: usize = 0;
    while i < channels.len()
        invariant
            i <= channels.len(),
            total == sample_total(channels@, systems@, i as nat),
            sample_total(channels@, systems@, channels@.len()) <= usize::MAX,
        decreases channels.len() - i,
    {
        if is_active(systems, &channels[i].provider) {
            let lengths = &channels[i].batch_lengths;
            let ghost before = total;
            proof {
                lemma_sample_total_grows(channels@, systems@, (i + 1) as nat, channels@.len());
            }
            let mut j: usize = 0;
            while j < lengths.len()
                invariant
                    j <= lengths.len(),
                    total == before + batch_total(lengths@, j as nat),
                    before + batch_total(lengths@, lengths@.len()) <= usize::MAX,
                decreases lengths.len() - j,
            {
                proof {
                    lemma_batch_total_grows(lengths@, (j + 1) as nat, lengths@.len());
                }
                total = total + lengths[j];
                j = j + 1;
            }
        }
        i = i + 1;
    }
    total
}

/// The active vector channels among the first `n`.
pub open spec fn drawable(
    channels: Seq<SnapshotChannel>,
    systems: Seq<FieldSystemStatus>,
    n: nat,
) -> Seq<ChannelId>
    decreases n,
{
    if n == 0 {
        Seq::empty()
    } else {
        let channel = channels[n - 1];
        if channel.schema.value_kind is Vector && active(systems, channel.provider@) {
            drawable(channels, systems, (n - 1) as nat).push(channel.schema.id)
        } else {
            drawable(channels, systems, (n - 1) as nat)
        }
    }
}

/// Channels a vector layer can draw, in published order.
pub fn drawable_channels(snapshot: &FieldSnapshot, systems: &Vec<FieldSystemStatus>) -> (ids: Vec<ChannelId>)
    ensures
        ids@ == drawable(snapshot.channels@, systems@, snapshot.channels@.len()),
{
    let channels = &snapshot.channels;
    let mut ids: Vec<ChannelId> = Vec::new();
    let mut i: usize = 0;
    while i < channels.len()
        invariant
            i <= channels.len(),
            ids@ == drawable(channels@, systems@, i as nat),
        decreases channels.len() - i,
    {
        let vector: bool = match channels[i].schema.value_kind {
            FieldValueKind::Vector(_) => true,
            FieldValueKind::Scalar(_) => false,
        };
        if vector && is_active(systems, &channels[i].provider) {
            ids.push(channels[i].schema.id.clone());
        }
        i = i + 1;
    }
    ids
}

/// How a diagnostic reads.
pub open spec fn diagnostic_text(diagnostic: SolverDiagnostic) -> Seq<char> {
    "["@ + diagnostic.severity.word() + "] "@ + diagnostic.message@
}

/// What the active ones of the first `n` diagnostics say.
pub open spec fn diagnostic_lines(
    diagnostics: Seq<SolverDiagnostic>,
    systems: Seq<FieldSystemStatus>,
    n: nat,
) -> Seq<Seq<char>>
    decreases n,
{
    if n == 0 {
        Seq::empty()
    } else if active(systems, diagnostics[n - 1].plugin@) {
        diagnostic_lines(diagnostics, systems, (n - 1) as nat).push(diagnostic_text(diagnostics[n - 1]))
    } else {
        diagnostic_lines(diagnostics, systems, (n - 1) as nat)
    }
}

/// Whether an active system reports an error.
pub open spec fn reports_error(
    diagnostics: Seq<SolverDiagnostic>,
    systems: Seq<FieldSystemStatus>,
) -> bool {
    exists|i: int|
        0 <= i < diagnostics.len() && (#[trigger] diagnostics[i]).severity is Error && active(
            systems,
            diagnostics[i].plugin@,
        )
}

/// What active systems have to say, and whether any of it is an error.
pub fn diagnostics_of(snapshot: &FieldSnapshot, systems: &Vec<FieldSystemStatus>) -> (lines: (
    Vec<String>,
    bool,
))
    ensures
        crate::text::texts(lines.0@) == diagnostic_lines(
            snapshot.diagnostics@,
            systems@,
            snapshot.diagnostics@.len(),
        ),
        lines.1 == reports_error(snapshot.diagnostics@, systems@),
{
    let diagnostics = &snapshot.diagnostics;
    let mut lines: Vec<String> = Vec::new();
    let mut has_errors: bool = false;
    let mut i: usize = 0;
    while i < diagnostics.len()
        invariant
            i <= diagnostics.len(),
            crate::text::texts(lines@) == diagnostic_lines(diagnostics@, systems@, i as nat),
            has_errors == exists|k: int|
                0 <= k < i && (#[trigger] diagnostics[k]).severity is Error && active(
                    systems@,
                    diagnostics[k].plugin@,
                ),
        decreases diagnostics.len() - i,
    {
        let diagnostic = &diagnostics[i];
        if is_active(systems, &diagnostic.plugin) {
            if diagnostic.severity == DiagnosticSeverity::Error {
                has_errors = true;
            }
            let ghost before = lines@;
            let line = concat4("[", diagnostic.severity.label(), "] ", diagnostic.message.as_str());
            lines.push(line);
            assert(crate::text::texts(lines@) =~= crate::text::texts(before).push(line@));
        }
        i = i + 1;
    }
    (lines, has_errors)
}

/// The names that the first `n` channels of a system give, over earlier names.
pub open spec fn named_by_channels(
    names: Map<(Seq<char>, Seq<char>), String>,
    channels: Seq<ChannelSchema>,
    n: nat,
) -> Map<(Seq<char>, Seq<char>), String>
    decreases n,
{
    if n == 0 {
        names
    } else {
        named_by_channels(names, channels, (n - 1) as nat).insert(
            channels[n - 1].id@,
            channels[n - 1].display_name,
        )
    }
}

/// The names that the first `n` systems give, a later one over an earlier one.
pub open spec fn named_by_systems(systems: Seq<FieldSystemStatus>, n: nat) -> Map<
    (Seq<char>, Seq<char>),
    String,
>
    decreases n,
{
    if n == 0 {
        Map::empty()
    } else {
        named_by_channels(
            named_by_systems(systems, (n - 1) as nat),
            systems[n - 1].channels@,
            systems[n - 1].channels@.len(),
        )
    }
}

/// The names that the first `n` published channels give, over declared names.
pub open spec fn named_by_snapshot(
    channels: Seq<SnapshotChannel>,
    systems: Seq<FieldSystemStatus>,
    n: nat,
) -> Map<(Seq<char>, Seq<char>), String>
    decreases n,
{
    if n == 0 {
        named_by_systems(systems, systems.len())
    } else if active(systems, channels[n - 1].provider@) {
        named_by_snapshot(channels, systems, (n - 1) as nat).insert(
            channels[n - 1].schema.id@,
            channels[n - 1].schema.display_name,
        )
    } else {
        named_by_snapshot(channels, systems, (n - 1) as nat)
    }
}

/// The display name of every declared channel, published or not.
pub fn declared_names(systems: &Vec<FieldSystemStatus>) -> (names: OrderedMap<ChannelId, String>)
    ensures
        names.map() == named_by_systems(systems@, systems@.len()),
{
    let mut names: OrderedMap<ChannelId, String> = OrderedMap::new();
    let mut i: usize = 0;
    while i < systems.len()
        invariant
            i <= systems.len(),
            names.map() == named_by_systems(systems@, i as nat),
        decreases systems.len() - i,
    {
        let channels = &systems[i].channels;
        let ghost before = names.map();
        let mut j: usize = 0;
        while j < channels.len()
            invariant
                j <= channels.len(),
                names.map() == named_by_channels(before, channels@, j as nat),
            decreases channels.len() - j,
        {
            names.insert(channels[j].id.clone(), channels[j].display_name.clone());
            j = j + 1;
        }
        i = i + 1;
    }
    names
}

/// The sample of a probe, searching from position `n`.
pub open spec fn sample_from(samples: Seq<ProbeSample>, probe: ProbeId, n: nat) -> Option<ProbeSample>
    decreases samples.len() - n,
{
    if n >= samples.len() {
        None
    } else if samples[n as int].probe == probe {
        Some(samples[n as int])
    } else {
        sample_from(samples, probe, n + 1)
    }
}

fn probe_sample(samples: &Vec<ProbeSample>, probe: ProbeId) -> (sample: Option<&ProbeSample>)
    ensures
        sample is Some <==> sample_from(samples@, probe, 0) is Some,
        sample matches Some(s) ==> sample_from(samples@, probe, 0) == Some(*s),
{
    let mut i: usize = 0;
    while i < samples.len()
        invariant
            i <= samples.len(),
            sample_from(samples@, probe, 0) == sample_from(samples@, probe, i as nat),
        decreases samples.len() - i,
    {
        if samples[i].probe.is(probe) {
            return Some(&samples[i]);
        }
        i = i + 1;
    }
    None
}

/// The readings the first `n` probes take of a channel.
pub open spec fn readings_of(channel: SnapshotChannel, probes: Seq<Probe>, n: nat) -> Seq<ProbeRow>
    decreases n,
{
    if n == 0 {
        Seq::empty()
    } else {
        let before = readings_of(channel, probes, (n - 1) as nat);
        let probe = probes[n - 1];
        if crate::ids::lists(probe.channels@, channel.schema.id@) {
            match sample_from(channel.probe_samples@, probe.id, 0) {
                Some(sample) => before.push(
                    ProbeRow {
                        probe_name: probe.name,
                        channel_name: channel.schema.display_name,
                        value: sample.value,
                        validity: sample.validity,
                    },
                ),
                None => before,
            }
        } else {
            before
        }
    }
}

/// The readings of the active ones of the first `n` channels, channel by
/// channel and probe by probe.
pub open spec fn readings(
    channels: Seq<SnapshotChannel>,
    systems: Seq<FieldSystemStatus>,
    probes: Seq<Probe>,
    n: nat,
) -> Seq<ProbeRow>
    decreases n,
{
    if n == 0 {
        Seq::empty()
    } else if active(systems, channels[n - 1].provider@) {
        readings(channels, systems, probes, (n - 1) as nat) + readings_of(
            channels[n - 1],
            probes,
            probes.len(),
        )
    } else {
        readings(channels, systems, probes, (n - 1) as nat)
    }
}

/// What the probes that record a channel read of it.
pub fn read_channel(channel: &SnapshotChannel, probes: &Vec<Probe>) -> (rows: Vec<ProbeRow>)
    ensures
        rows@ == readings_of(*channel, probes@, probes@.len()),
{
    let mut rows: Vec<ProbeRow> = Vec::new();
    let mut i: usize = 0;
    while i < probes.len()
        invariant
            i <= probes.len(),
            rows@ == readings_of(*channel, probes@, i as nat),
        decreases probes.len() - i,
    {
        let probe = &probes[i];
        if listed_in(&probe.channels, &channel.schema.id) {
            match probe_sample(&channel.probe_samples, probe.id) {
                Some(sample) => {
                    rows.push(
                        ProbeRow {
                            probe_name: probe.name.clone(),
                            channel_name: channel.schema.display_name.clone(),
                            value: sample.value.clone(),
                            validity: sample.validity,
                        },
                    );
                },
                None => {},
            }
        }
        i = i + 1;
    }
    rows
}

/// How the domain of a snapshot is summarised.
pub open spec fn domain_text(domain: Domain) -> Seq<char> {
    crate::text::decimal(domain.cells.x as nat) + "×"@ + crate::text::decimal(domain.cells.y as nat)
        + "×"@ + crate::text::decimal(domain.cells.z as nat) + " = "@ + crate::text::decimal(
        domain.cell_count as nat,
    ) + " cells, "@ + domain.precision.word() + ", "@ + boundaries_text(domain.boundaries)
}

/// The lattice, precision and boundaries of a domain in one line.
pub fn summarise_domain(domain: &Domain) -> (text: String)
    ensures
        text@ == domain_text(*domain),
{
    let mut text = decimal_text(domain.cells.x as u64);
    text.append("×");
    crate::text::push_decimal(&mut text, domain.cells.y as u128);
    text.append("×");
    crate::text::push_decimal(&mut text, domain.cells.z as u128);
    text.append(" = ");
    crate::text::push_decimal(&mut text, domain.cell_count as u128);
    text.append(" cells, ");
    text.append(domain.precision.label());
    text.append(", ");
    text.append(format_boundaries(domain.boundaries).as_str());
    text
}

/// Whether every system is switched off.
pub open spec fn all_inactive(systems: Seq<FieldSystemStatus>) -> bool {
    forall|i: int| 0 <= i < systems.len() ==> !(#[trigger] systems[i]).enabled
}

proof fn inactive_channels_are_silent(
    channels: Seq<SnapshotChannel>,
    systems: Seq<FieldSystemStatus>,
    probes: Seq<Probe>,
    n: nat,
)
    requires
        all_inactive(systems),
    ensures
        sample_total(channels, systems, n) == 0,
        drawable(channels, systems, n).len() == 0,
        readings(channels, systems, probes, n).len() == 0,
    decreases n,
{
    if n > 0 {
        inactive_channels_are_silent(channels, systems, probes, (n - 1) as nat);
    }
}

proof fn inactive_diagnostics_are_silent(
    diagnostics: Seq<SolverDiagnostic>,
    systems: Seq<FieldSystemStatus>,
    n: nat,
)
    requires
        all_inactive(systems),
    ensures
        diagnostic_lines(diagnostics, systems, n).len() == 0,
    decreases n,
{
    if n > 0 {
        inactive_diagnostics_are_silent(diagnostics, systems, (n - 1) as nat);
    }
}

proof fn inactive_systems_are_not_painted(systems: Seq<FieldSystemStatus>, n: nat)
    requires
        all_inactive(systems),
        n <= systems.len(),
    ensures
        paintable(systems, n).len() == 0,
    decreases n,
{
    if n > 0 {
        inactive_systems_are_not_painted(systems, (n - 1) as nat);
    }
}

/// Of a scene whose systems are all switched off nothing is counted, drawn, read,
/// said or painted, whatever a retained snapshot holds.
pub proof fn inactive_systems_publish_nothing(
    snapshot: FieldSnapshot,
    systems: Seq<FieldSystemStatus>,
    probes: Seq<Probe>,
)
    requires
        all_inactive(systems),
    ensures
        sample_total(snapshot.channels@, systems, snapshot.channels@.len()) == 0,
        drawable(snapshot.channels@, systems, snapshot.channels@.len()).len() == 0,
        readings(snapshot.channels@, systems, probes, snapshot.channels@.len()).len() == 0,
        diagnostic_lines(snapshot.diagnostics@, systems, snapshot.diagnostics@.len()).len() == 0,
        !reports_error(snapshot.diagnostics@, systems),
        paintable(systems, systems.len()).len() == 0,
{
    inactive_channels_are_silent(snapshot.channels@, systems, probes, snapshot.channels@.len());
    inactive_diagnostics_are_silent(snapshot.diagnostics@, systems, snapshot.diagnostics@.len());
    inactive_systems_are_not_painted(systems, systems.len());
}

/// Every field that is drawn is a vector field that an active system published.
pub proof fn drawn_fields_have_an_active_provider(
    channels: Seq<SnapshotChannel>,
    systems: Seq<FieldSystemStatus>,
    n: nat,
    k: int,
)
    requires
        n <= channels.len(),
        0 <= k < drawable(channels, systems, n).len(),
    ensures
        exists|j: int|
            0 <= j < n && (#[trigger] channels[j]).schema.id == drawable(channels, systems, n)[k]
                && channels[j].schema.value_kind is Vector && active(systems, channels[j].provider@),
    decreases n,
{
    let rest = drawable(channels, systems, (n - 1) as nat);
    if k < rest.len() {
        drawn_fields_have_an_active_provider(channels, systems, (n - 1) as nat, k);
        let j = choose|j: int|
            0 <= j < n - 1 && (#[trigger] channels[j]).schema.id == rest[k]
                && channels[j].schema.value_kind is Vector && active(systems, channels[j].provider@);
        assert(channels[j].schema.id == drawable(channels, systems, n)[k]);
    } else {
        assert(channels[n - 1].schema.id == drawable(channels, systems, n)[k]);
    }
}

proof fn names_grow(
    names: Map<(Seq<char>, Seq<char>), String>,
    channels: Seq<ChannelSchema>,
    n: nat,
)
    requires
        n <= channels.len(),
    ensures
        forall|key: (Seq<char>, Seq<char>)| #[trigger]
            names.contains_key(key) ==> named_by_channels(names, channels, n).contains_key(key),
        forall|j: int|
            0 <= j < n ==> named_by_channels(names, channels, n).contains_key(
                (#[trigger] channels[j]).id@,
            ),
    decreases n,
{
    if n > 0 {
        names_grow(names, channels, (n - 1) as nat);
    }
}

proof fn systems_name_their_channels(systems: Seq<FieldSystemStatus>, n: nat, i: int, j: int)
    requires
        0 <= i < n <= systems.len(),
        0 <= j < systems[i].channels@.len(),
    ensures
        named_by_systems(systems, n).contains_key(systems[i].channels@[j].id@),
    decreases n,
{
    names_grow(
        named_by_systems(systems, (n - 1) as nat),
        systems[n - 1].channels@,
        systems[n - 1].channels@.len(),
    );
    if i < n - 1 {
        systems_name_their_channels(systems, (n - 1) as nat, i, j);
    }
}

proof fn snapshots_keep_names(
    channels: Seq<SnapshotChannel>,
    systems: Seq<FieldSystemStatus>,
    n: nat,
    key: (Seq<char>, Seq<char>),
)
    requires
        named_by_systems(systems, systems.len()).contains_key(key),
    ensures
        named_by_snapshot(channels, systems, n).contains_key(key),
    decreases n,
{
    if n > 0 {
        snapshots_keep_names(channels, systems, (n - 1) as nat, key);
    }
}

/// Every channel that a composed system declares has a name, whether or not the
/// system is active and whether or not the channel is published.
pub proof fn declared_channels_keep_a_name(
    channels: Seq<SnapshotChannel>,
    systems: Seq<FieldSystemStatus>,
    i: int,
    j: int,
)
    requires
        0 <= i < systems.len(),
        0 <= j < systems[i].channels@.len(),
    ensures
        named_by_systems(systems, systems.len()).contains_key(systems[i].channels@[j].id@),
        named_by_snapshot(channels, systems, channels.len()).contains_key(
            systems[i].channels@[j].id@,
        ),
{
    systems_name_their_channels(systems, systems.len(), i, j);
    snapshots_keep_names(channels, systems, channels.len(), systems[i].channels@[j].id@);
}

/// A plugin is active exactly where some enabled system is of it, and composed exactly
/// where some system is.
pub proof fn a_plugin_is_active_through_an_enabled_system(
    systems: Seq<FieldSystemStatus>,
    plugin: Seq<char>,
)
    ensures
        forall|i: int|
            0 <= i < systems.len() && (#[trigger] systems[i]).plugin.id@ == plugin ==> composed(
                systems,
                plugin,
            ) && (systems[i].enabled ==> active(systems, plugin)),
        (forall|i: int| 0 <= i < systems.len() ==> (#[trigger] systems[i]).plugin.id@ != plugin)
            ==> !composed(systems, plugin),
        (forall|i: int|
            0 <= i < systems.len() && (#[trigger] systems[i]).enabled ==> systems[i].plugin.id@ != plugin)
            ==> !active(systems, plugin),
{
}

proof fn lemma_a_probe_finds_its_own_sample(samples: Seq<ProbeSample>, probe: ProbeId, n: nat, k: int)
    requires
        n <= k < samples.len(),
        samples[k].probe == probe,
        forall|j: int| n <= j < k ==> !((#[trigger] samples[j]).probe == probe),
    ensures
        sample_from(samples, probe, n) == Some(samples[k]),
    decreases k - n,
{
    if n < k {
        assert(!(samples[n as int].probe == probe));
        lemma_a_probe_finds_its_own_sample(samples, probe, n + 1, k);
    }
}

proof fn lemma_a_probe_finds_its_own_sample_none(samples: Seq<ProbeSample>, probe: ProbeId, n: nat)
    requires
        forall|j: int| n <= j < samples.len() ==> !((#[trigger] samples[j]).probe == probe),
    ensures
        sample_from(samples, probe, n) is None,
    decreases samples.len() - n,
{
    if n < samples.len() {
        assert(!(samples[n as int].probe == probe));
        lemma_a_probe_finds_its_own_sample_none(samples, probe, n + 1);
    }
}

/// The sample found for a probe is the first that was taken at that very probe, and none if
/// none was.
pub proof fn a_probe_finds_its_own_sample(samples: Seq<ProbeSample>, probe: ProbeId)
    ensures
        forall|k: int|
            0 <= k < samples.len() && (#[trigger] samples[k]).probe == probe && (forall|j: int|
                0 <= j < k ==> !((#[trigger] samples[j]).probe == probe)) ==> sample_from(samples, probe, 0) == Some(
                samples[k],
            ),
        (forall|j: int| 0 <= j < samples.len() ==> !((#[trigger] samples[j]).probe == probe))
            ==> sample_from(samples, probe, 0) is None,
{
    assert forall|k: int|
        0 <= k < samples.len() && (#[trigger] samples[k]).probe == probe && (forall|j: int|
            0 <= j < k ==> !((#[trigger] samples[j]).probe == probe)) implies sample_from(samples, probe, 0) == Some(
        samples[k],
    ) by {
        lemma_a_probe_finds_its_own_sample(samples, probe, 0, k);
    }
    if forall|j: int| 0 <= j < samples.len() ==> !((#[trigger] samples[j]).probe == probe) {
        lemma_a_probe_finds_its_own_sample_none(samples, probe, 0);
    }
}

proof fn lemma_drawn_fields_are_published_vectors(channels: Seq<SnapshotChannel>, systems: Seq<FieldSystemStatus>, n: nat) -> (at: Seq<int>)
    requires
        n <= channels.len(),
    ensures
        at.len() == drawable(channels, systems, n).len(),
        forall|a: int, b: int| 0 <= a < b < at.len() ==> #[trigger] at[a] < #[trigger] at[b],
        forall|k: int|
            0 <= k < at.len() ==> {
                &&& 0 <= #[trigger] at[k] < n
                &&& channels[at[k]].schema.value_kind is Vector && active(systems, channels[at[k]].provider@)
                &&& drawable(channels, systems, n)[k] == channels[at[k]].schema.id
            },
        forall|i: int| 0 <= i < n && (#[trigger] channels[i]).schema.value_kind is Vector && active(systems, channels[i].provider@) ==> at.contains(i),
    decreases n,
{
    if n == 0 {
        Seq::empty()
    } else {
        let before = lemma_drawn_fields_are_published_vectors(channels, systems, (n - 1) as nat);
        if channels[n - 1].schema.value_kind is Vector && active(systems, channels[n - 1].provider@) {
            let at = before.push(n - 1);
            assert forall|i: int| 0 <= i < n && (#[trigger] channels[i]).schema.value_kind is Vector && active(systems, channels[i].provider@) implies at.contains(i) by {
                if i < n - 1 {
                    let k = choose|k: int| 0 <= k < before.len() && before[k] == i;
                    assert(at[k] == i);
                } else {
                    assert(at[before.len() as int] == i);
                }
            }
            at
        } else {
            before
        }
    }
}

/// The fields that can be drawn are the vector fields that an active system published, all
/// of them and in published order.
pub proof fn drawn_fields_are_published_vectors(channels: Seq<SnapshotChannel>, systems: Seq<FieldSystemStatus>) -> (at: Seq<int>)
    ensures
        at.len() == drawable(channels, systems, channels.len()).len(),
        forall|a: int, b: int| 0 <= a < b < at.len() ==> #[trigger] at[a] < #[trigger] at[b],
        forall|k: int|
            0 <= k < at.len() ==> {
                &&& 0 <= #[trigger] at[k] < channels.len()
                &&& channels[at[k]].schema.value_kind is Vector && active(systems, channels[at[k]].provider@)
                &&& drawable(channels, systems, channels.len())[k] == channels[at[k]].schema.id
            },
        forall|i: int| 0 <= i < channels.len() && (#[trigger] channels[i]).schema.value_kind is Vector && active(systems, channels[i].provider@) ==> at.contains(i),
{
    lemma_drawn_fields_are_published_vectors(channels, systems, channels.len())
}

proof fn lemma_remarks_are_those_of_active_systems(diagnostics: Seq<SolverDiagnostic>, systems: Seq<FieldSystemStatus>, n: nat) -> (at: Seq<int>)
    requires
        n <= diagnostics.len(),
    ensures
        at.len() == diagnostic_lines(diagnostics, systems, n).len(),
        forall|a: int, b: int| 0 <= a < b < at.len() ==> #[trigger] at[a] < #[trigger] at[b],
        forall|k: int|
            0 <= k < at.len() ==> {
                &&& 0 <= #[trigger] at[k] < n
                &&& active(systems, diagnostics[at[k]].plugin@)
                &&& diagnostic_lines(diagnostics, systems, n)[k] == "["@ + diagnostics[at[k]].severity.word() + "] "@ + diagnostics[at[k]].message@
            },
        forall|i: int| 0 <= i < n && active(systems, (#[trigger] diagnostics[i]).plugin@) ==> at.contains(i),
    decreases n,
{
    if n == 0 {
        Seq::empty()
    } else {
        let before = lemma_remarks_are_those_of_active_systems(diagnostics, systems, (n - 1) as nat);
        if active(systems, diagnostics[n - 1].plugin@) {
            let at = before.push(n - 1);
            assert forall|i: int| 0 <= i < n && active(systems, (#[trigger] diagnostics[i]).plugin@) implies at.contains(i) by {
                if i < n - 1 {
                    let k = choose|k: int| 0 <= k < before.len() && before[k] == i;
                    assert(at[k] == i);
                } else {
                    assert(at[before.len() as int] == i);
                }
            }
            at
        } else {
            before
        }
    }
}

/// The remarks that are shown are those of active systems, all of them and in order, each
/// behind its severity.
pub proof fn remarks_are_those_of_active_systems(diagnostics: Seq<SolverDiagnostic>, systems: Seq<FieldSystemStatus>) -> (at: Seq<int>)
    ensures
        at.len() == diagnostic_lines(diagnostics, systems, diagnostics.len()).len(),
        forall|a: int, b: int| 0 <= a < b < at.len() ==> #[trigger] at[a] < #[trigger] at[b],
        forall|k: int|
            0 <= k < at.len() ==> {
                &&& 0 <= #[trigger] at[k] < diagnostics.len()
                &&& active(systems, diagnostics[at[k]].plugin@)
                &&& diagnostic_lines(diagnostics, systems, diagnostics.len())[k] == "["@ + diagnostics[at[k]].severity.word() + "] "@ + diagnostics[at[k]].message@
            },
        forall|i: int| 0 <= i < diagnostics.len() && active(systems, (#[trigger] diagnostics[i]).plugin@) ==> at.contains(i),
{
    lemma_remarks_are_those_of_active_systems(diagnostics, systems, diagnostics.len())
}

/// Whether a probe reads a channel: it records the channel, and the channel holds a sample
/// taken at it.
pub open spec fn takes_reading(channel: SnapshotChannel, probe: Probe) -> bool {
    &&& exists|c: int| 0 <= c < probe.channels@.len() && (#[trigger] probe.channels@[c])@ == channel.schema.id@
    &&& exists|s: int|
        0 <= s < channel.probe_samples@.len() && (#[trigger] channel.probe_samples@[s]).probe == probe.id
}

/// Whether a row is a probe's reading of a channel: it names both, and holds the value and
/// the validity of the first sample taken at that very probe.
pub open spec fn is_reading(row: ProbeRow, channel: SnapshotChannel, probe: Probe) -> bool {
    &&& row.probe_name == probe.name
    &&& row.channel_name == channel.schema.display_name
    &&& exists|s: int|
        0 <= s < channel.probe_samples@.len() && (#[trigger] channel.probe_samples@[s]).probe
            == probe.id && (forall|t: int|
            0 <= t < s ==> (#[trigger] channel.probe_samples@[t]).probe != probe.id) && row.value
            == channel.probe_samples@[s].value && row.validity == channel.probe_samples@[s].validity
}

/// The first of the samples taken at a probe.
proof fn lemma_first_sample(samples: Seq<ProbeSample>, probe: ProbeId, n: nat) -> (s: int)
    requires
        n <= samples.len(),
        exists|t: int| 0 <= t < n && (#[trigger] samples[t]).probe == probe,
    ensures
        0 <= s < n,
        samples[s].probe == probe,
        forall|t: int| 0 <= t < s ==> (#[trigger] samples[t]).probe != probe,
    decreases n,
{
    if exists|t: int| 0 <= t < n - 1 && (#[trigger] samples[t]).probe == probe {
        lemma_first_sample(samples, probe, (n - 1) as nat)
    } else {
        n - 1
    }
}

proof fn lemma_recorded(channel: SnapshotChannel, probe: Probe)
    ensures
        takes_reading(channel, probe) <==> crate::ids::lists(probe.channels@, channel.schema.id@)
            && sample_from(channel.probe_samples@, probe.id, 0) is Some,
        takes_reading(channel, probe) ==> is_reading(
            ProbeRow {
                probe_name: probe.name,
                channel_name: channel.schema.display_name,
                value: sample_from(channel.probe_samples@, probe.id, 0)->0.value,
                validity: sample_from(channel.probe_samples@, probe.id, 0)->0.validity,
            },
            channel,
            probe,
        ),
{
    let samples = channel.probe_samples@;
    if crate::ids::lists(probe.channels@, channel.schema.id@) {
        let c = choose|c: int|
            0 <= c < probe.channels@.len() && (#[trigger] probe.channels@[c]).key() == channel.schema.id@;
        assert(probe.channels@[c]@ == channel.schema.id@);
    }
    if exists|c: int| 0 <= c < probe.channels@.len() && (#[trigger] probe.channels@[c])@ == channel.schema.id@ {
        let c = choose|c: int|
            0 <= c < probe.channels@.len() && (#[trigger] probe.channels@[c])@ == channel.schema.id@;
        assert(probe.channels@[c].key() == channel.schema.id@);
    }
    if exists|s: int| 0 <= s < samples.len() && (#[trigger] samples[s]).probe == probe.id {
        let s = lemma_first_sample(samples, probe.id, samples.len());
        lemma_a_probe_finds_its_own_sample(samples, probe.id, 0, s);
    } else {
        lemma_a_probe_finds_its_own_sample_none(samples, probe.id, 0);
    }
}

proof fn lemma_readings_of(channel: SnapshotChannel, probes: Seq<Probe>, n: nat) -> (at: Seq<int>)
    requires
        n <= probes.len(),
    ensures
        at.len() == readings_of(channel, probes, n).len(),
        forall|a: int, b: int| 0 <= a < b < at.len() ==> #[trigger] at[a] < #[trigger] at[b],
        forall|k: int|
            0 <= k < at.len() ==> {
                &&& 0 <= #[trigger] at[k] < n
                &&& takes_reading(channel, probes[at[k]])
                &&& is_reading(readings_of(channel, probes, n)[k], channel, probes[at[k]])
            },
        forall|i: int| 0 <= i < n && takes_reading(channel, #[trigger] probes[i]) ==> at.contains(i),
    decreases n,
{
    if n == 0 {
        Seq::empty()
    } else {
        let before = lemma_readings_of(channel, probes, (n - 1) as nat);
        lemma_recorded(channel, probes[n - 1]);
        if takes_reading(channel, probes[n - 1]) {
            let at = before.push(n - 1);
            assert forall|i: int| 0 <= i < n && takes_reading(channel, #[trigger] probes[i]) implies at.contains(
                i,
            ) by {
                if i < n - 1 {
                    let k = choose|k: int| 0 <= k < before.len() && before[k] == i;
                    assert(at[k] == i);
                } else {
                    assert(at[before.len() as int] == i);
                }
            }
            at
        } else {
            before
        }
    }
}

/// What is read of a channel is one row for each probe that records it and has a sample of
/// it, in the order of the probes. A row says what that probe's own sample says: its value,
/// and its validity. So a sample that is not defined is never read as though it were.
pub proof fn a_reading_is_what_the_sample_holds(channel: SnapshotChannel, probes: Seq<Probe>) -> (at: Seq<
    int,
>)
    ensures
        at.len() == readings_of(channel, probes, probes.len()).len(),
        forall|a: int, b: int| 0 <= a < b < at.len() ==> #[trigger] at[a] < #[trigger] at[b],
        forall|k: int|
            0 <= k < at.len() ==> {
                &&& 0 <= #[trigger] at[k] < probes.len()
                &&& takes_reading(channel, probes[at[k]])
                &&& is_reading(readings_of(channel, probes, probes.len())[k], channel, probes[at[k]])
            },
        forall|i: int|
            0 <= i < probes.len() && takes_reading(channel, #[trigger] probes[i]) ==> at.contains(i),
{
    lemma_readings_of(channel, probes, probes.len())
}

/// A row is exact only if a sample that was taken of the channel is, and an undefined sample
/// makes a row that is undefined for the same reason.
pub proof fn undefined_samples_stay_undefined(channel: SnapshotChannel, probes: Seq<Probe>, k: int)
    requires
        0 <= k < readings_of(channel, probes, probes.len()).len(),
    ensures
        exists|p: int, s: int|
            0 <= p < probes.len() && 0 <= s < channel.probe_samples@.len() && (
            #[trigger] channel.probe_samples@[s]).probe == (#[trigger] probes[p]).id && readings_of(
                channel,
                probes,
                probes.len(),
            )[k].probe_name == probes[p].name && readings_of(channel, probes, probes.len())[k].value
                == channel.probe_samples@[s].value && readings_of(channel, probes, probes.len())[k].validity
                == channel.probe_samples@[s].validity,
{
    let at = lemma_readings_of(channel, probes, probes.len());
    let p = at[k];
    let row = readings_of(channel, probes, probes.len())[k];
    assert(is_reading(row, channel, probes[p]));
    let s = choose|s: int|
        0 <= s < channel.probe_samples@.len() && (#[trigger] channel.probe_samples@[s]).probe
            == probes[p].id && (forall|t: int|
            0 <= t < s ==> (#[trigger] channel.probe_samples@[t]).probe != probes[p].id) && row.value
            == channel.probe_samples@[s].value && row.validity == channel.probe_samples@[s].validity;
    assert(channel.probe_samples@[s].probe == probes[p].id);
}

/// Whether one pair of positions stands before another.
pub open spec fn pair_before(a: (int, int), b: (int, int)) -> bool {
    a.0 < b.0 || (a.0 == b.0 && a.1 < b.1)
}

proof fn lemma_readings(
    channels: Seq<SnapshotChannel>,
    systems: Seq<FieldSystemStatus>,
    probes: Seq<Probe>,
    n: nat,
) -> (at: Seq<(int, int)>)
    requires
        n <= channels.len(),
    ensures
        at.len() == readings(channels, systems, probes, n).len(),
        forall|a: int, b: int|
            0 <= a < b < at.len() ==> pair_before(#[trigger] at[a], #[trigger] at[b]),
        forall|k: int|
            0 <= k < at.len() ==> {
                &&& 0 <= (#[trigger] at[k]).0 < n
                &&& 0 <= at[k].1 < probes.len()
                &&& active(systems, channels[at[k].0].provider@)
                &&& takes_reading(channels[at[k].0], probes[at[k].1])
                &&& is_reading(
                    readings(channels, systems, probes, n)[k],
                    channels[at[k].0],
                    probes[at[k].1],
                )
            },
        forall|c: int, p: int|
            0 <= c < n && 0 <= p < probes.len() && active(systems, channels[c].provider@)
                && #[trigger] takes_reading(channels[c], probes[p]) ==> at.contains((c, p)),
    decreases n,
{
    if n == 0 {
        Seq::empty()
    } else {
        let before = lemma_readings(channels, systems, probes, (n - 1) as nat);
        let channel = channels[n - 1];
        if active(systems, channel.provider@) {
            let own = lemma_readings_of(channel, probes, probes.len());
            let pairs = Seq::new(own.len(), |k: int| (n - 1, own[k]));
            let at = before + pairs;
            assert forall|c: int, p: int|
                0 <= c < n && 0 <= p < probes.len() && active(systems, channels[c].provider@)
                    && #[trigger] takes_reading(channels[c], probes[p]) implies at.contains((c, p)) by {
                if c < n - 1 {
                    let k = choose|k: int| 0 <= k < before.len() && before[k] == (c, p);
                    assert(at[k] == (c, p));
                } else {
                    let k = choose|k: int| 0 <= k < own.len() && own[k] == p;
                    assert(at[before.len() + k] == (c, p));
                }
            }
            at
        } else {
            before
        }
    }
}

/// What a view reads of a snapshot is one row for each active channel and each probe that
/// takes a reading of it, channel by channel and probe by probe, each saying what that
/// probe's own sample says.
pub proof fn readings_are_those_of_active_channels(
    channels: Seq<SnapshotChannel>,
    systems: Seq<FieldSystemStatus>,
    probes: Seq<Probe>,
) -> (at: Seq<(int, int)>)
    ensures
        at.len() == readings(channels, systems, probes, channels.len()).len(),
        forall|a: int, b: int|
            0 <= a < b < at.len() ==> (#[trigger] at[a]).0 < (#[trigger] at[b]).0 || (at[a].0 == at[b].0
                && at[a].1 < at[b].1),
        forall|k: int|
            0 <= k < at.len() ==> {
                &&& 0 <= (#[trigger] at[k]).0 < channels.len()
                &&& 0 <= at[k].1 < probes.len()
                &&& active(systems, channels[at[k].0].provider@)
                &&& takes_reading(channels[at[k].0], probes[at[k].1])
                &&& is_reading(
                    readings(channels, systems, probes, channels.len())[k],
                    channels[at[k].0],
                    probes[at[k].1],
                )
            },
        forall|c: int, p: int|
            0 <= c < channels.len() && 0 <= p < probes.len() && active(systems, channels[c].provider@)
                && #[trigger] takes_reading(channels[c], probes[p]) ==> at.contains((c, p)),
{
    let at = lemma_readings(channels, systems, probes, channels.len());
    assert forall|a: int, b: int| 0 <= a < b < at.len() implies (#[trigger] at[a]).0 < (
    #[trigger] at[b]).0 || (at[a].0 == at[b].0 && at[a].1 < at[b].1) by {
        assert(pair_before(at[a], at[b]));
    }
    at
}

proof fn lemma_paintable(systems: Seq<FieldSystemStatus>, n: nat) -> (at: Seq<(int, int)>)
    requires
        n <= systems.len(),
    ensures
        at.len() == paintable(systems, n).len(),
        forall|a: int, b: int|
            0 <= a < b < at.len() ==> pair_before(#[trigger] at[a], #[trigger] at[b]),
        forall|k: int|
            0 <= k < at.len() ==> {
                &&& 0 <= (#[trigger] at[k]).0 < n
                &&& systems[at[k].0].enabled
                &&& 0 <= at[k].1 < systems[at[k].0].mutable_vector_channels@.len()
                &&& paintable(systems, n)[k] == systems[at[k].0].mutable_vector_channels@[at[k].1]
            },
        forall|i: int, j: int|
            0 <= i < n && systems[i].enabled && 0 <= j < systems[i].mutable_vector_channels@.len()
                ==> #[trigger] at.contains((i, j)),
    decreases n,
{
    if n == 0 {
        Seq::empty()
    } else {
        let before = lemma_paintable(systems, (n - 1) as nat);
        if systems[n - 1].enabled {
            let own = systems[n - 1].mutable_vector_channels@;
            let pairs = Seq::new(own.len(), |k: int| (n - 1, k));
            let at = before + pairs;
            assert forall|i: int, j: int|
                0 <= i < n && systems[i].enabled && 0 <= j < systems[i].mutable_vector_channels@.len()
                    implies #[trigger] at.contains((i, j)) by {
                if i < n - 1 {
                    assert(before.contains((i, j)));
                    let k = choose|k: int| 0 <= k < before.len() && before[k] == (i, j);
                    assert(at[k] == (i, j));
                } else {
                    assert(at[before.len() + j] == (i, j));
                }
            }
            at
        } else {
            before
        }
    }
}

/// The channels that can be painted are those that the enabled systems let be painted, all
/// of them, system by system and in each system's order.
pub proof fn enabled_systems_let_their_channels_be_painted(systems: Seq<FieldSystemStatus>) -> (at: Seq<
    (int, int),
>)
    ensures
        at.len() == paintable(systems, systems.len()).len(),
        forall|a: int, b: int|
            0 <= a < b < at.len() ==> (#[trigger] at[a]).0 < (#[trigger] at[b]).0 || (at[a].0 == at[b].0
                && at[a].1 < at[b].1),
        forall|k: int|
            0 <= k < at.len() ==> {
                &&& 0 <= (#[trigger] at[k]).0 < systems.len()
                &&& systems[at[k].0].enabled
                &&& 0 <= at[k].1 < systems[at[k].0].mutable_vector_channels@.len()
                &&& paintable(systems, systems.len())[k]
                    == systems[at[k].0].mutable_vector_channels@[at[k].1]
            },
        forall|i: int, j: int|
            0 <= i < systems.len() && systems[i].enabled && 0 <= j
                < systems[i].mutable_vector_channels@.len() ==> #[trigger] at.contains((i, j)),
{
    let at = lemma_paintable(systems, systems.len());
    assert forall|a: int, b: int| 0 <= a < b < at.len() implies (#[trigger] at[a]).0 < (
    #[trigger] at[b]).0 || (at[a].0 == at[b].0 && at[a].1 < at[b].1) by {
        assert(pair_before(at[a], at[b]));
    }
    at
}

/// An error is reported exactly where some diagnostic is one and some enabled system is of
/// the plugin that gave it.
pub proof fn an_error_comes_from_an_active_system(
    diagnostics: Seq<SolverDiagnostic>,
    systems: Seq<FieldSystemStatus>,
)
    ensures
        reports_error(diagnostics, systems) <==> exists|i: int, j: int|
            0 <= i < diagnostics.len() && 0 <= j < systems.len() && (#[trigger] diagnostics[i]).severity
                == DiagnosticSeverity::Error && (#[trigger] systems[j]).enabled
                && systems[j].plugin.id@ == diagnostics[i].plugin@,
{
    if reports_error(diagnostics, systems) {
        let i = choose|i: int|
            0 <= i < diagnostics.len() && (#[trigger] diagnostics[i]).severity is Error && active(
                systems,
                diagnostics[i].plugin@,
            );
        let j = choose|j: int|
            0 <= j < systems.len() && (#[trigger] systems[j]).enabled && systems[j].plugin.id@
                == diagnostics[i].plugin@;
        assert(systems[j].enabled);
    }
}

/// Each batch counts with its own length.
pub proof fn every_batch_counts(lengths: Seq<usize>, n: nat)
    requires
        n < lengths.len(),
    ensures
        batch_total(lengths, 0) == 0,
        batch_total(lengths, n + 1) - batch_total(lengths, n) == lengths[n as int],
{
}

/// A channel counts with all its batches exactly where an enabled system computed it.
pub proof fn every_active_channel_counts(
    channels: Seq<SnapshotChannel>,
    systems: Seq<FieldSystemStatus>,
    n: nat,
)
    requires
        n < channels.len(),
    ensures
        sample_total(channels, systems, 0) == 0,
        (exists|i: int|
            0 <= i < systems.len() && (#[trigger] systems[i]).enabled && systems[i].plugin.id@
                == channels[n as int].provider@) ==> sample_total(channels, systems, n + 1)
            - sample_total(channels, systems, n) == batch_total(
            channels[n as int].batch_lengths@,
            channels[n as int].batch_lengths@.len(),
        ),
        (forall|i: int|
            0 <= i < systems.len() && (#[trigger] systems[i]).enabled ==> systems[i].plugin.id@
                != channels[n as int].provider@) ==> sample_total(channels, systems, n + 1)
            == sample_total(channels, systems, n),
{
}

/// Only an exact sample goes without a remark, and a remark says what the sample is.
pub proof fn every_doubt_is_remarked(validity: SampleValidity)
    ensures
        validity_words(validity) is None <==> validity == SampleValidity::Exact,
        validity == SampleValidity::Interpolated ==> validity_words(validity) == Some("interpolated"@),
        validity == SampleValidity::Undefined(UndefinedReason::InsideSourceRadius) ==> validity_words(
            validity,
        ) == Some("undefined — inside source radius"@),
        validity == SampleValidity::Undefined(UndefinedReason::OutsideDomain) ==> validity_words(
            validity,
        ) == Some("undefined — outside domain"@),
        validity == SampleValidity::Undefined(UndefinedReason::NotConverged) ==> validity_words(
            validity,
        ) == Some("undefined — not converged"@),
        validity == SampleValidity::Undefined(UndefinedReason::NumericalOverflow) ==> validity_words(
            validity,
        ) == Some("undefined — numerical overflow"@),
        validity == SampleValidity::Undefined(UndefinedReason::AcrossPeriodicSeam) ==> validity_words(
            validity,
        ) == Some("undefined — across periodic seam"@),
{
}

/// A uniform domain is summarised by its one condition, another by all three, axis by axis.
pub proof fn boundaries_are_named_by_axis(b: BoundaryConditions)
    ensures
        b.x == b.y && b.y == b.z ==> boundaries_text(b) == b.z.word() + " boundaries"@,
        !(b.x == b.y && b.y == b.z) ==> boundaries_text(b) == "x "@ + b.x.word() + ", y "@ + b.y.word()
            + ", z "@ + b.z.word() + " boundaries"@,
        BoundaryCondition::Periodic.word() == "periodic"@,
        BoundaryCondition::Dirichlet.word() == "Dirichlet"@,
        BoundaryCondition::Neumann.word() == "Neumann"@,
        BoundaryCondition::Absorbing.word() == "absorbing"@,
        BoundaryCondition::Open.word() == "open"@,
{
}

/// A domain is summarised by its lattice, how many cells it counts, its precision and its
/// boundaries.
pub proof fn a_domain_is_summarised_by_its_lattice(domain: Domain)
    ensures
        domain_text(domain) == crate::text::decimal(domain.cells.x as nat) + "×"@
            + crate::text::decimal(domain.cells.y as nat) + "×"@ + crate::text::decimal(
            domain.cells.z as nat,
        ) + " = "@ + crate::text::decimal(domain.cell_count as nat) + " cells, "@ + (
        match domain.precision {
            Precision::F32 => "f32"@,
            Precision::F64 => "f64"@,
        }) + ", "@ + boundaries_text(domain.boundaries),
{
}

/// A severity is named by its word.
pub proof fn severities_are_named(diagnostic: SolverDiagnostic)
    ensures
        DiagnosticSeverity::Info.word() == "Info"@,
        DiagnosticSeverity::Warning.word() == "Warning"@,
        DiagnosticSeverity::Error.word() == "Error"@,
        diagnostic_text(diagnostic) == "["@ + diagnostic.severity.word() + "] "@
            + diagnostic.message@,
{
}

/// A queue that is still the one it was summarised as has the same state, as many commands
/// waiting and finished, and the same newest one.
pub proof fn a_changed_queue_is_noticed(queue: QueueStatus, summary: QueueSummary)
    ensures
        queue.paused != summary.paused ==> !summarised_by(queue, summary),
        queue.pending@.len() != summary.pending_len ==> !summarised_by(queue, summary),
        queue.history@.len() != summary.history_len ==> !summarised_by(queue, summary),
        queue.history@.len() > 0 && summary.newest_history != Some(
            queue.history@[queue.history@.len() - 1].command,
        ) ==> !summarised_by(queue, summary),
        queue.history@.len() == 0 && summary.newest_history is Some ==> !summarised_by(queue, summary),
        queue.paused == summary.paused && queue.pending@.len() == summary.pending_len
            && queue.history@.len() == summary.history_len && queue.history@.len() > 0
            && summary.newest_history == Some(queue.history@[queue.history@.len() - 1].command)
            ==> summarised_by(queue, summary),
        queue.paused == summary.paused && queue.pending@.len() == summary.pending_len
            && queue.history@.len() == 0 && summary.history_len == 0 && summary.newest_history is None
            ==> summarised_by(queue, summary),
{
}

proof fn lemma_named_by_channels(
    names: Map<(Seq<char>, Seq<char>), String>,
    channels: Seq<ChannelSchema>,
    n: nat,
    key: (Seq<char>, Seq<char>),
)
    requires
        n <= channels.len(),
    ensures
        (forall|j: int| 0 <= j < n ==> (#[trigger] channels[j]).id@ != key) ==> {
            &&& named_by_channels(names, channels, n).contains_key(key) == names.contains_key(key)
            &&& named_by_channels(names, channels, n)[key] == names[key]
        },
        forall|j: int|
            0 <= j < n && (#[trigger] channels[j]).id@ == key && (forall|l: int|
                j < l < n ==> (#[trigger] channels[l]).id@ != key) ==> named_by_channels(
                names,
                channels,
                n,
            ).contains_key(key) && named_by_channels(names, channels, n)[key]
                == channels[j].display_name,
    decreases n,
{
    if n > 0 {
        lemma_named_by_channels(names, channels, (n - 1) as nat, key);
    }
}

proof fn lemma_named_by_systems(
    systems: Seq<FieldSystemStatus>,
    n: nat,
    key: (Seq<char>, Seq<char>),
)
    requires
        n <= systems.len(),
    ensures
        (forall|i: int, j: int|
            0 <= i < n && 0 <= j < systems[i].channels@.len() ==> (
            #[trigger] systems[i].channels@[j]).id@ != key) ==> !named_by_systems(
            systems,
            n,
        ).contains_key(key),
        forall|i: int, j: int|
            0 <= i < n && 0 <= j < systems[i].channels@.len() && (
            #[trigger] systems[i].channels@[j]).id@ == key && (forall|k: int, l: int|
                pair_before((i, j), (k, l)) && k < n && 0 <= l < systems[k].channels@.len() ==> (
                #[trigger] systems[k].channels@[l]).id@ != key) ==> named_by_systems(
                systems,
                n,
            ).contains_key(key) && named_by_systems(systems, n)[key]
                == systems[i].channels@[j].display_name,
    decreases n,
{
    if n > 0 {
        let before = named_by_systems(systems, (n - 1) as nat);
        let own = systems[n - 1].channels@;
        lemma_named_by_systems(systems, (n - 1) as nat, key);
        lemma_named_by_channels(before, own, own.len(), key);
        assert forall|i: int, j: int|
            0 <= i < n && 0 <= j < systems[i].channels@.len() && (
            #[trigger] systems[i].channels@[j]).id@ == key && (forall|k: int, l: int|
                pair_before((i, j), (k, l)) && k < n && 0 <= l < systems[k].channels@.len() ==> (
                #[trigger] systems[k].channels@[l]).id@ != key) implies named_by_systems(
            systems,
            n,
        ).contains_key(key) && named_by_systems(systems, n)[key]
            == systems[i].channels@[j].display_name by {
            if i == n - 1 {
                assert forall|l: int| j < l < own.len() implies (#[trigger] own[l]).id@ != key by {
                    assert(pair_before((i, j), (i, l)));
                    assert(systems[i].channels@[l].id@ != key);
                }
                assert(own[j].id@ == key);
            } else {
                assert forall|l: int| 0 <= l < own.len() implies (#[trigger] own[l]).id@ != key by {
                    assert(pair_before((i, j), (n - 1, l)));
                    assert(systems[n - 1].channels@[l].id@ != key);
                }
                assert forall|k: int, l: int|
                    pair_before((i, j), (k, l)) && k < n - 1 && 0 <= l < systems[k].channels@.len()
                        implies (#[trigger] systems[k].channels@[l]).id@ != key by {
                }
            }
        }
        if forall|i: int, j: int|
            0 <= i < n && 0 <= j < systems[i].channels@.len() ==> (
            #[trigger] systems[i].channels@[j]).id@ != key {
            assert forall|l: int| 0 <= l < own.len() implies (#[trigger] own[l]).id@ != key by {
                assert(systems[n - 1].channels@[l].id@ != key);
            }
        }
    }
}

/// A channel that no active system published is named as it was last declared, and one that
/// none declared either has no name.
pub proof fn declared_names_stand_until_published(
    channels: Seq<SnapshotChannel>,
    systems: Seq<FieldSystemStatus>,
    n: nat,
    key: (Seq<char>, Seq<char>),
)
    requires
        n <= channels.len(),
        forall|c: int|
            0 <= c < n && active(systems, (#[trigger] channels[c]).provider@)
                ==> channels[c].schema.id@ != key,
    ensures
        forall|i: int, j: int|
            0 <= i < systems.len() && 0 <= j < systems[i].channels@.len() && (
            #[trigger] systems[i].channels@[j]).id@ == key && (forall|k: int, l: int|
                pair_before((i, j), (k, l)) && k < systems.len() && 0 <= l
                    < systems[k].channels@.len() ==> (#[trigger] systems[k].channels@[l]).id@ != key)
                ==> named_by_snapshot(channels, systems, n).contains_key(key) && named_by_snapshot(
                channels,
                systems,
                n,
            )[key] == systems[i].channels@[j].display_name,
        (forall|i: int, j: int|
            0 <= i < systems.len() && 0 <= j < systems[i].channels@.len() ==> (
            #[trigger] systems[i].channels@[j]).id@ != key) ==> !named_by_snapshot(
            channels,
            systems,
            n,
        ).contains_key(key),
    decreases n,
{
    if n == 0 {
        lemma_named_by_systems(systems, systems.len(), key);
    } else {
        declared_names_stand_until_published(channels, systems, (n - 1) as nat, key);
    }
}

/// A channel that an active system published is named as it was last published.
pub proof fn a_published_channel_has_its_published_name(
    channels: Seq<SnapshotChannel>,
    systems: Seq<FieldSystemStatus>,
    n: nat,
    c: int,
)
    requires
        0 <= c < n <= channels.len(),
        active(systems, channels[c].provider@),
        forall|d: int|
            c < d < n && active(systems, (#[trigger] channels[d]).provider@) ==> channels[d].schema.id@
                != channels[c].schema.id@,
    ensures
        named_by_snapshot(channels, systems, n).contains_key(channels[c].schema.id@),
        named_by_snapshot(channels, systems, n)[channels[c].schema.id@]
            == channels[c].schema.display_name,
    decreases n,
{
    if c < n - 1 {
        a_published_channel_has_its_published_name(channels, systems, (n - 1) as nat, c);
    }
}

} // verus!
