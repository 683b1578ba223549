//! Inspecting the simulation: its domain, dynamics, fields, field systems and
//! sampling.

use crate::command::{CommandPayload, UiFrameOutput};
use crate::compute::ComputeView;
use crate::fields::FieldRow;
use crate::ids::{PluginId, PropertyId, SchemeId};
use crate::measured::{engineering_notation, zero, Notation, Number};
use crate::model::DomainDraft;
use crate::number::format_bytes;
use crate::ordered::{Copied, MapKey};
use crate::source::{
    BoundaryCondition, ChannelSchema, Domain, FieldSystemStatus, FieldValueKind, Precision,
    ProbeRow, SnapshotFreshness, Subscription, UVec2, UVec3,
};
use crate::text::{concat2, concat3, concat4, push_decimal, same_text};
use crate::world::{PropertyBag, PropertyValue};
use vstd::prelude::*;
use vstd::string::*;

verus! {

/// The domain draft the editor shows: the one being edited, or one of the current
/// domain.
pub fn domain_draft_for(kept: Option<DomainDraft>, domain: Domain) -> (draft: DomainDraft)
    ensures
        draft == match kept {
            Some(draft) => draft,
            None => DomainDraft {
                min: domain.min,
                max: domain.max,
                cells: domain.cells,
                boundaries: domain.boundaries,
                precision: domain.precision,
            },
        },
{
    match kept {
        Some(draft) => draft,
        None => DomainDraft::from_domain(domain),
    }
}

impl BoundaryCondition {
    /// The condition as a choice.
    pub fn label(self) -> (s: &'static str)
        ensures
            self is Periodic ==> s@ == "Periodic"@,
            self is Dirichlet ==> s@ == "Dirichlet"@,
            self is Neumann ==> s@ == "Neumann"@,
            self is Absorbing ==> s@ == "Absorbing"@,
            self is Open ==> s@ == "Open"@,
    {
        match self {
            BoundaryCondition::Periodic => "Periodic",
            BoundaryCondition::Dirichlet => "Dirichlet",
            BoundaryCondition::Neumann => "Neumann",
            BoundaryCondition::Absorbing => "Absorbing",
            BoundaryCondition::Open => "Open",
        }
    }

    /// The conditions that can be chosen, in order.
    pub fn all() -> (conditions: [BoundaryCondition; 5])
        ensures
            conditions@ == seq![
                BoundaryCondition::Periodic,
                BoundaryCondition::Dirichlet,
                BoundaryCondition::Neumann,
                BoundaryCondition::Absorbing,
                BoundaryCondition::Open,
            ],
    {
        [
            BoundaryCondition::Periodic,
            BoundaryCondition::Dirichlet,
            BoundaryCondition::Neumann,
            BoundaryCondition::Absorbing,
            BoundaryCondition::Open,
        ]
    }
}

/// The bytes one number takes.
pub open spec fn scalar_bytes(precision: Precision) -> int {
    match precision {
        Precision::F32 => 4,
        Precision::F64 => 8,
    }
}

/// The least memory two vector fields on a lattice take, as far as it can be
/// counted.
pub open spec fn minimum_field_bytes(domain: Domain) -> int {
    let bytes = domain.cell_count * 6 * scalar_bytes(domain.precision);
    if bytes <= u64::MAX {
        bytes
    } else {
        u64::MAX as int
    }
}

fn field_bytes(domain: Domain) -> (bytes: u64)
    ensures
        bytes == minimum_field_bytes(domain),
{
    let cells: u128 = domain.cell_count as u128;
    let width: u128 = match domain.precision {
        Precision::F32 => 4,
        Precision::F64 => 8,
    };
    let bytes: u128 = if width == 4 {
        cells * 24
    } else {
        cells * 48
    };
    assert(bytes == domain.cell_count * 6 * scalar_bytes(domain.precision)) by (nonlinear_arith)
        requires
            width == scalar_bytes(domain.precision),
            width == 4 || width == 8,
            cells == domain.cell_count,
            bytes == if width == 4 {
                cells * 24
            } else {
                cells * 48
            },
    ;
    if bytes <= 0xffff_ffff_ffff_ffff {
        bytes as u64
    } else {
        u64::MAX
    }
}

/// What is said of a candidate domain, after its cell size as it is written. The
/// memory that an electromagnetic solver takes is mentioned only while that
/// solver, of the plugin `solver`, is active.
pub fn domain_line(
    cell_size: &str,
    domain: Domain,
    systems: &Vec<FieldSystemStatus>,
    solver: &PluginId,
) -> (line: String)
    ensures
        line@ == "cell size "@ + cell_size@ + " m · "@ + crate::text::decimal(domain.cell_count as nat)
            + " cells"@ + if crate::source::active(systems@, solver@) {
            " · Maxwell E/B minimum "@ + crate::number::bytes_text(minimum_field_bytes(domain) as nat)
        } else {
            ""@
        },
{
    let mut line = concat3("cell size ", cell_size, " m · ");
    push_decimal(&mut line, domain.cell_count as u128);
    line.append(" cells");
    if crate::source::is_active(systems, solver) {
        let tail = concat2(" · Maxwell E/B minimum ", format_bytes(field_bytes(domain)).as_str());
        line.append(tail.as_str());
    } else {
        proof {
            reveal_strlit("");
            assert(line@ + ""@ =~= line@);
        }
    }
    line
}

/// Whether two domains are the same: numerically equal bounds, and the same
/// lattice, boundaries and precision.
pub open spec fn same_domain(a: Domain, b: Domain) -> bool {
    &&& a.min.value_equal(b.min)
    &&& a.max.value_equal(b.max)
    &&& a.cells == b.cells
    &&& a.boundaries == b.boundaries
    &&& a.precision == b.precision
}

pub fn domains_agree(a: Domain, b: Domain) -> (r: bool)
    ensures
        r == same_domain(a, b),
{
    a.min.equals(b.min) && a.max.equals(b.max) && a.cells == b.cells && a.boundaries == b.boundaries
        && a.precision == b.precision
}

/// Whether a candidate domain can be applied: the source takes commands, the
/// candidate is another domain, and no scene edit is in progress.
pub open spec fn domain_appliable(compute: ComputeView, domain: Domain, edit_in_progress: bool) -> bool {
    compute.commandable() && !same_domain(domain, compute.domain) && !edit_in_progress
}

pub fn can_apply_domain(compute: &ComputeView, domain: Domain, edit_in_progress: bool) -> (b: bool)
    ensures
        b == domain_appliable(*compute, domain, edit_in_progress),
{
    compute.accepts_commands() && !domains_agree(domain, compute.domain) && !edit_in_progress
}

/// Apply a candidate domain.
pub fn apply_domain(
    compute: &ComputeView,
    domain: Domain,
    edit_in_progress: bool,
    output: &mut UiFrameOutput,
)
    ensures
        if domain_appliable(*compute, domain, edit_in_progress) {
            final(output).submits(*old(output), CommandPayload::ReconfigureDomain(domain))
        } else {
            *final(output) == *old(output)
        },
{
    if can_apply_domain(compute, domain, edit_in_progress) {
        output.submit(CommandPayload::ReconfigureDomain(domain));
    }
}

/// What is said of a draft that is no domain.
pub fn invalid_domain_line(error: &str) -> (line: String)
    ensures
        line@ == "Invalid domain: "@ + error@,
{
    concat2("Invalid domain: ", error)
}

/// Choose how motion is integrated.
pub fn choose_scheme(compute: &ComputeView, scheme: SchemeId, output: &mut UiFrameOutput)
    ensures
        if compute.commandable() && scheme != compute.integration_scheme {
            final(output).submits(*old(output), CommandPayload::SetIntegrationScheme(scheme))
        } else {
            *final(output) == *old(output)
        },
{
    if compute.accepts_commands() && !scheme.is(compute.integration_scheme) {
        output.submit(CommandPayload::SetIntegrationScheme(scheme));
    }
}

/// The name of a plugin, searching the composed systems from position `n`, or its
/// identity if none is of it.
pub open spec fn plugin_name_from(systems: Seq<FieldSystemStatus>, plugin: PluginId, n: nat) -> Seq<char>
    decreases systems.len() - n,
{
    if n >= systems.len() {
        plugin.text@
    } else if systems[n as int].plugin.id@ == plugin@ {
        systems[n as int].plugin.display_name@
    } else {
        plugin_name_from(systems, plugin, n + 1)
    }
}

/// The name of a plugin.
pub fn plugin_name(systems: &Vec<FieldSystemStatus>, plugin: &PluginId) -> (name: String)
    ensures
        name@ == plugin_name_from(systems@, *plugin, 0),
{
    let mut i: usize = 0;
    while i < systems.len()
        invariant
            i <= systems.len(),
            plugin_name_from(systems@, *plugin, 0) == plugin_name_from(systems@, *plugin, i as nat),
        decreases systems.len() - i,
    {
        if systems[i].plugin.id.same(plugin) {
            return systems[i].plugin.display_name.clone();
        }
        i = i + 1;
    }
    plugin.text.clone()
}

/// The model shown as computing a field.
pub fn provider_label(field: &FieldRow, systems: &Vec<FieldSystemStatus>) -> (text: String)
    ensures
        text@ == match field.provider {
            Some(provider) => plugin_name_from(systems@, provider, 0),
            None => "Not computed"@,
        },
{
    match &field.provider {
        Some(provider) => plugin_name(systems, provider),
        None => "Not computed".to_owned(),
    }
}

/// What hovering over a field says.
pub fn field_hover(field: &FieldRow) -> (text: String)
    ensures
        text@ == field.channel.written@ + "\n"@ + field.kind_words(),
{
    let kind = field.kind_label();
    concat3(field.channel.written.as_str(), "\n", kind.as_str())
}

/// What hovering over the choice of a field's model says.
pub fn model_hover(field: &FieldRow) -> (s: &'static str)
    ensures
        field.candidates@.len() > 1 ==> s@ == "Which equation system computes this field"@,
        field.candidates@.len() <= 1 ==> s@ == "The only model of this field composed into the scene"@,
{
    if field.has_alternatives() {
        "Which equation system computes this field"
    } else {
        "The only model of this field composed into the scene"
    }
}

/// Whether a choice names the model that computes a field already.
pub open spec fn chosen_already(field: FieldRow, chosen: Option<PluginId>) -> bool {
    match (field.provider, chosen) {
        (Some(provider), Some(plugin)) => provider@ == plugin@,
        (None, None) => true,
        _ => false,
    }
}

/// Choose the model that computes a field, or none.
pub fn choose_model(
    compute: &ComputeView,
    field: &FieldRow,
    chosen: Option<PluginId>,
    output: &mut UiFrameOutput,
)
    ensures
        if compute.commandable() && !chosen_already(*field, chosen) {
            final(output).submits(
                *old(output),
                CommandPayload::SetFieldModel { channel: field.channel, provider: chosen },
            )
        } else {
            *final(output) == *old(output)
        },
{
    let same: bool = match (&field.provider, &chosen) {
        (Some(provider), Some(plugin)) => provider.same(plugin),
        (None, None) => true,
        _ => false,
    };
    if compute.accepts_commands() && !same {
        output.submit(
            CommandPayload::SetFieldModel { channel: field.channel.copied(), provider: chosen },
        );
    }
}

/// The field of a channel, from position `n`.
pub open spec fn field_from(fields: Seq<FieldRow>, channel: (Seq<char>, Seq<char>), n: nat) -> Option<
    FieldRow,
>
    decreases fields.len() - n,
{
    if n >= fields.len() {
        None
    } else if fields[n as int].channel@ == channel {
        Some(fields[n as int])
    } else {
        field_from(fields, channel, n + 1)
    }
}

fn find_field<'a>(fields: &'a Vec<FieldRow>, channel: &crate::ids::ChannelId) -> (field: Option<
    &'a FieldRow,
>)
    ensures
        field is Some <==> field_from(fields@, channel@, 0) is Some,
        field matches Some(f) ==> field_from(fields@, channel@, 0) == Some(*f),
{
    let mut i: usize = 0;
    while i < fields.len()
        invariant
            i <= fields.len(),
            field_from(fields@, channel@, 0) == field_from(fields@, channel@, i as nat),
        decreases fields.len() - i,
    {
        if fields[i].channel.same(channel) {
            return Some(&fields[i]);
        }
        i = i + 1;
    }
    None
}

/// The first field, among a system's channels from position `n`, that a model
/// computes already, and the model's plugin.
pub open spec fn taken_from(channels: Seq<ChannelSchema>, fields: Seq<FieldRow>, n: nat) -> Option<
    (FieldRow, PluginId),
>
    decreases channels.len() - n,
{
    if n >= channels.len() {
        None
    } else {
        match field_from(fields, channels[n as int].id@, 0) {
            Some(field) => match field.provider {
                Some(provider) => Some((field, provider)),
                None => taken_from(channels, fields, n + 1),
            },
            None => taken_from(channels, fields, n + 1),
        }
    }
}

/// The field that keeps an inactive system from being switched on, if there is
/// one.
pub open spec fn taken(system: FieldSystemStatus, compute: ComputeView) -> Option<(FieldRow, PluginId)> {
    if system.enabled {
        None
    } else {
        taken_from(system.channels@, compute.fields@, 0)
    }
}

/// The field that keeps an inactive system from being switched on, and the model
/// that computes it, by their names.
pub fn taken_field(system: &FieldSystemStatus, compute: &ComputeView) -> (names: Option<
    (String, String),
>)
    ensures
        match taken(*system, *compute) {
            Some((field, provider)) => names matches Some((field_name, model_name)) && field_name@
                == field.display_name@ && model_name@ == plugin_name_from(
                compute.field_systems@,
                provider,
                0,
            ),
            None => names is None,
        },
{
    if system.enabled {
        return None;
    }
    let channels = &system.channels;
    let mut i: usize = 0;
    while i < channels.len()
        invariant
            !system.enabled,
            *channels == system.channels,
            i <= channels.len(),
            taken_from(channels@, compute.fields@, 0) == taken_from(
                channels@,
                compute.fields@,
                i as nat,
            ),
        decreases channels.len() - i,
    {
        if let Some(field) = find_field(&compute.fields, &channels[i].id) {
            if let Some(provider) = &field.provider {
                return Some(
                    (field.display_name.clone(), plugin_name(&compute.field_systems, provider)),
                );
            }
        }
        i = i + 1;
    }
    None
}

/// Whether a system can be switched: the source takes commands, and the system is
/// active or nothing it computes is computed already.
pub open spec fn switchable(system: FieldSystemStatus, compute: ComputeView) -> bool {
    compute.commandable() && (system.enabled || taken(system, compute) is None)
}

pub fn can_switch(system: &FieldSystemStatus, compute: &ComputeView) -> (b: bool)
    ensures
        b == switchable(*system, *compute),
{
    compute.accepts_commands() && (system.enabled || taken_field(system, compute).is_none())
}

/// Switch a system on or off.
pub fn switch_system(
    system: &FieldSystemStatus,
    compute: &ComputeView,
    enabled: bool,
    output: &mut UiFrameOutput,
)
    ensures
        if switchable(*system, *compute) && enabled != system.enabled {
            final(output).submits(
                *old(output),
                CommandPayload::SetFieldSystemEnabled { plugin: system.plugin.id, enabled },
            )
        } else {
            *final(output) == *old(output)
        },
{
    if can_switch(system, compute) && enabled != system.enabled {
        output.submit(
            CommandPayload::SetFieldSystemEnabled { plugin: system.plugin.id.copied(), enabled },
        );
    }
}

/// An active system can always be switched off while the source takes commands,
/// and an inactive one cannot be switched on over a field that another model
/// computes.
pub proof fn models_do_not_displace_each_other(system: FieldSystemStatus, compute: ComputeView)
    requires
        compute.commandable(),
    ensures
        system.enabled ==> switchable(system, compute),
        !system.enabled ==> (switchable(system, compute) <==> taken_from(
            system.channels@,
            compute.fields@,
            0,
        ) is None),
{
}

/// What hovering over a system says.
pub fn system_hover(system: &FieldSystemStatus) -> (text: String)
    ensures
        text@ == system.plugin.description@ + "\n"@ + system.plugin.id.text@ + " · version "@
            + system.plugin.version@,
{
    let mut text = concat4(
        system.plugin.description.as_str(),
        "\n",
        system.plugin.id.text.as_str(),
        " · version ",
    );
    text.append(system.plugin.version.as_str());
    text
}

/// What hovering over a system that cannot be switched on says.
pub fn taken_hover(field: &str, model: &str) -> (text: String)
    ensures
        text@ == field@ + " is computed by "@ + model@
            + ".\nChoose this system as its model under Fields instead."@,
{
    concat4(
        field,
        " is computed by ",
        model,
        ".\nChoose this system as its model under Fields instead.",
    )
}

/// How a channel of a system is listed.
pub fn channel_line(channel: &ChannelSchema) -> (text: String)
    ensures
        text@ == channel.display_name@ + " · "@ + (match channel.value_kind {
            FieldValueKind::Scalar(_) => "scalar"@,
            FieldValueKind::Vector(_) => "vector"@,
        }) + " · "@ + channel.value_kind.dimension().written@,
{
    let (kind, dimension): (&'static str, &str) = match &channel.value_kind {
        FieldValueKind::Scalar(dimension) => ("scalar", dimension.written.as_str()),
        FieldValueKind::Vector(dimension) => ("vector", dimension.written.as_str()),
    };
    let mut text = concat4(channel.display_name.as_str(), " · ", kind, " · ");
    text.append(dimension);
    text
}

/// Whether two values are the same, numbers numerically.
pub open spec fn values_agree(a: PropertyValue, b: PropertyValue) -> bool {
    match (a, b) {
        (PropertyValue::Scalar(x), PropertyValue::Scalar(y)) => x.value_equal(y),
        (PropertyValue::Vector(x), PropertyValue::Vector(y)) => x.value_equal(y),
        (PropertyValue::Boolean(x), PropertyValue::Boolean(y)) => x == y,
        (PropertyValue::Text(x), PropertyValue::Text(y)) => x@ == y@,
        (PropertyValue::Choice(x), PropertyValue::Choice(y)) => x@ == y@,
        _ => false,
    }
}

fn same_value(a: &PropertyValue, b: &PropertyValue) -> (r: bool)
    ensures
        r == values_agree(*a, *b),
{
    match (a, b) {
        (PropertyValue::Scalar(x), PropertyValue::Scalar(y)) => x.equals(*y),
        (PropertyValue::Vector(x), PropertyValue::Vector(y)) => x.equals(*y),
        (PropertyValue::Boolean(x), PropertyValue::Boolean(y)) => *x == *y,
        (PropertyValue::Text(x), PropertyValue::Text(y)) => same_text(x.as_str(), y.as_str()),
        (PropertyValue::Choice(x), PropertyValue::Choice(y)) => same_text(x.as_str(), y.as_str()),
        _ => false,
    }
}

/// Whether two lists of properties name the same ones with the same values.
pub open spec fn bags_agree(
    a: Seq<(PropertyId, PropertyValue)>,
    b: Seq<(PropertyId, PropertyValue)>,
) -> bool {
    &&& a.len() == b.len()
    &&& forall|i: int|
        0 <= i < a.len() ==> (#[trigger] a[i]).0@ == b[i].0@ && values_agree((a[i]).1, (b[i]).1)
}

/// Whether two configurations are the same.
pub fn same_configuration(a: &PropertyBag, b: &PropertyBag) -> (r: bool)
    ensures
        r == bags_agree(a.listed(), b.listed()),
{
    let length: usize = a.len();
    if length != b.len() {
        return false;
    }
    let mut i: usize = 0;
    while i < length
        invariant
            length == a.listed().len(),
            length == b.listed().len(),
            i <= length,
            forall|k: int|
                0 <= k < i ==> (#[trigger] a.listed()[k]).0@ == b.listed()[k].0@ && values_agree(
                    (a.listed()[k]).1,
                    (b.listed()[k]).1,
                ),
        decreases length - i,
    {
        let (left, value) = a.entry(i);
        let (right, other) = b.entry(i);
        if !left.same(right) || !same_value(value, other) {
            assert(!((a.listed()[i as int]).0@ == b.listed()[i as int].0@ && values_agree(
                (a.listed()[i as int]).1,
                (b.listed()[i as int]).1,
            )));
            return false;
        }
        i = i + 1;
    }
    true
}

/// The configuration the editor of a system shows: the one being edited, or the
/// system's.
pub fn configuration_draft_for(kept: Option<PropertyBag>, system: &FieldSystemStatus) -> (draft:
    PropertyBag)
    ensures
        draft.listed() == match kept {
            Some(draft) => draft.listed(),
            None => system.configuration.listed(),
        },
{
    match kept {
        Some(draft) => draft,
        None => system.configuration.duplicate(),
    }
}

/// Whether a configuration can be applied: the source takes commands, it is
/// another one and a valid one, and no scene edit is in progress.
pub open spec fn configuration_appliable(
    compute: ComputeView,
    system: FieldSystemStatus,
    draft: PropertyBag,
    valid: bool,
    edit_in_progress: bool,
) -> bool {
    compute.commandable() && !bags_agree(draft.listed(), system.configuration.listed()) && valid
        && !edit_in_progress
}

pub fn can_apply_configuration(
    compute: &ComputeView,
    system: &FieldSystemStatus,
    draft: &PropertyBag,
    valid: bool,
    edit_in_progress: bool,
) -> (b: bool)
    ensures
        b == configuration_appliable(*compute, *system, *draft, valid, edit_in_progress),
{
    compute.accepts_commands() && !same_configuration(draft, &system.configuration) && valid
        && !edit_in_progress
}

/// Apply a configuration.
pub fn apply_configuration(
    compute: &ComputeView,
    system: &FieldSystemStatus,
    draft: PropertyBag,
    valid: bool,
    edit_in_progress: bool,
    output: &mut UiFrameOutput,
)
    ensures
        if configuration_appliable(*compute, *system, draft, valid, edit_in_progress) {
            final(output).submits(
                *old(output),
                CommandPayload::SetFieldSystemConfiguration {
                    plugin: system.plugin.id,
                    configuration: draft,
                },
            )
        } else {
            *final(output) == *old(output)
        },
{
    if can_apply_configuration(compute, system, &draft, valid, edit_in_progress) {
        output.submit(
            CommandPayload::SetFieldSystemConfiguration {
                plugin: system.plugin.id.copied(),
                configuration: draft,
            },
        );
    }
}

/// Choose whether a system recomputes for every intermediate value of an edit.
/// Only an active system does either.
pub fn realtime_control(
    system: &FieldSystemStatus,
    compute: &ComputeView,
    realtime: bool,
    output: &mut UiFrameOutput,
)
    ensures
        if compute.commandable() && system.enabled && realtime != system.realtime {
            final(output).submits(
                *old(output),
                CommandPayload::SetFieldSystemRealtime { plugin: system.plugin.id, realtime },
            )
        } else {
            *final(output) == *old(output)
        },
{
    if compute.accepts_commands() && system.enabled && realtime != system.realtime {
        output.submit(
            CommandPayload::SetFieldSystemRealtime { plugin: system.plugin.id.copied(), realtime },
        );
    }
}

/// The densities that were typed in one frame, each only if it was.
#[derive(Clone, Copy, Debug, PartialEq, Eq, Structural)]
pub struct SamplingInput {
    pub planes: Option<u32>,
    pub domain_stride: Option<u32>,
    pub boxes: Option<u32>,
    pub spheres: Option<u32>,
}

/// The densities the editors show: zero where nothing is sampled.
pub fn shown_densities(subscription: Subscription) -> (shown: (u32, u32, u32, u32))
    ensures
        shown == (
            match subscription.planes {
                Some(counts) => counts.x,
                None => 0,
            },
            match subscription.domain_stride {
                Some(stride) => stride,
                None => 0,
            },
            match subscription.boxes {
                Some(counts) => counts.x,
                None => 0,
            },
            match subscription.spheres {
                Some(count) => count,
                None => 0,
            },
        ),
{
    (
        match subscription.planes {
            Some(counts) => counts.x,
            None => 0,
        },
        match subscription.domain_stride {
            Some(stride) => stride,
            None => 0,
        },
        match subscription.boxes {
            Some(counts) => counts.x,
            None => 0,
        },
        match subscription.spheres {
            Some(count) => count,
            None => 0,
        },
    )
}

/// The greatest density that can be typed for planes, boxes and spheres.
pub const GREATEST_DENSITY: u32 = 1024;

/// The greatest decimation of the domain that can be typed.
pub const GREATEST_STRIDE: u32 = 256;

/// A typed count as it is taken: at most a bound, and nothing for zero.
pub open spec fn bounded(count: u32, greatest: u32) -> Option<u32> {
    if count == 0 {
        None
    } else if count <= greatest {
        Some(count)
    } else {
        Some(greatest)
    }
}

/// A subscription with the typed densities, each at most its bound. Zero samples
/// nothing.
pub open spec fn sampled(subscription: Subscription, input: SamplingInput) -> Subscription {
    Subscription {
        planes: match input.planes {
            Some(count) => match bounded(count, GREATEST_DENSITY) {
                Some(count) => Some(UVec2 { x: count, y: count }),
                None => None,
            },
            None => subscription.planes,
        },
        domain_stride: match input.domain_stride {
            Some(stride) => bounded(stride, GREATEST_STRIDE),
            None => subscription.domain_stride,
        },
        boxes: match input.boxes {
            Some(count) => match bounded(count, GREATEST_DENSITY) {
                Some(count) => Some(UVec3 { x: count, y: count, z: count }),
                None => None,
            },
            None => subscription.boxes,
        },
        spheres: match input.spheres {
            Some(count) => bounded(count, GREATEST_DENSITY),
            None => subscription.spheres,
        },
    }
}

fn keep_in_range(count: u32, greatest: u32) -> (r: Option<u32>)
    ensures
        r == bounded(count, greatest),
{
    if count == 0 {
        None
    } else if count <= greatest {
        Some(count)
    } else {
        Some(greatest)
    }
}

/// Take over the densities that were typed.
pub fn transport_sampling(compute: &ComputeView, input: SamplingInput, output: &mut UiFrameOutput)
    ensures
        if compute.commandable() && sampled(compute.subscription, input) != compute.subscription {
            final(output).submits(
                *old(output),
                CommandPayload::SetSubscription(sampled(compute.subscription, input)),
            )
        } else {
            *final(output) == *old(output)
        },
{
    if !compute.accepts_commands() {
        return;
    }
    let mut subscription = compute.subscription;
    if let Some(count) = input.planes {
        subscription.planes = match keep_in_range(count, GREATEST_DENSITY) {
            Some(count) => Some(UVec2 { x: count, y: count }),
            None => None,
        };
    }
    if let Some(stride) = input.domain_stride {
        subscription.domain_stride = keep_in_range(stride, GREATEST_STRIDE);
    }
    if let Some(count) = input.boxes {
        subscription.boxes = match keep_in_range(count, GREATEST_DENSITY) {
            Some(count) => Some(UVec3 { x: count, y: count, z: count }),
            None => None,
        };
    }
    if let Some(count) = input.spheres {
        subscription.spheres = keep_in_range(count, GREATEST_DENSITY);
    }
    if subscription != compute.subscription {
        output.submit(CommandPayload::SetSubscription(subscription));
    }
}

/// Densities that nobody typed leave the sampling as it is.
pub proof fn untouched_densities_change_nothing(subscription: Subscription)
    ensures
        sampled(
            subscription,
            SamplingInput { planes: None, domain_stride: None, boxes: None, spheres: None },
        ) == subscription,
{
}

/// A density that was typed is at least one and at most its bound, wherever anything
/// is sampled at all.
pub proof fn typed_densities_stay_in_range(subscription: Subscription, input: SamplingInput)
    ensures
        ({
            let after = sampled(subscription, input);
            &&& input.planes is Some ==> (after.planes matches Some(counts) ==> 0 < counts.x
                <= GREATEST_DENSITY && counts.y == counts.x)
            &&& input.domain_stride is Some ==> (after.domain_stride matches Some(stride) ==> 0 < stride
                <= GREATEST_STRIDE)
            &&& input.boxes is Some ==> (after.boxes matches Some(counts) ==> 0 < counts.x
                <= GREATEST_DENSITY && counts.y == counts.x && counts.z == counts.x)
            &&& input.spheres is Some ==> (after.spheres matches Some(count) ==> 0 < count
                <= GREATEST_DENSITY)
        }),
{
}

/// Typing densities twice is typing them once.
pub proof fn sampling_is_idempotent(subscription: Subscription, input: SamplingInput)
    ensures
        sampled(sampled(subscription, input), input) == sampled(subscription, input),
{
}

/// The latest snapshot, in words.
pub fn snapshot_line(compute: &ComputeView) -> (text: String)
    ensures
        text@ == match compute.snapshot_sequence {
            Some(sequence) => "#"@ + crate::text::decimal(sequence as nat),
            None => "None"@,
        },
{
    match compute.snapshot_sequence {
        Some(sequence) => crate::text::numbered("#", sequence),
        None => "None".to_owned(),
    }
}

/// How the latest snapshot relates to the current scene, in a word.
pub fn freshness_line(compute: &ComputeView) -> (s: &'static str)
    ensures
        match compute.freshness {
            Some(SnapshotFreshness::Current) => s@ == "Current"@,
            Some(SnapshotFreshness::Stale) => s@ == "Stale"@,
            Some(SnapshotFreshness::Future) => s@ == "Future"@,
            None => s@ == "No data"@,
        },
{
    match compute.freshness {
        Some(freshness) => freshness.label(),
        None => "No data",
    }
}

/// The name of a probe sample.
pub fn reading_label(reading: &ProbeRow) -> (text: String)
    ensures
        text@ == reading.probe_name@ + " · "@ + reading.channel_name@,
{
    concat3(reading.probe_name.as_str(), " · ", reading.channel_name.as_str())
}

/// A text without the characters `c` at its end.
pub open spec fn stripped(text: Seq<char>, c: char) -> Seq<char>
    decreases text.len(),
{
    if text.len() > 0 && text.last() == c {
        stripped(text.drop_last(), c)
    } else {
        text
    }
}

fn strip<'a>(text: &'a str, c: char) -> (rest: &'a str)
    ensures
        rest@ == stripped(text@, c),
{
    let length: usize = text.unicode_len();
    let mut end: usize = length;
    proof {
        assert(text@.take(length as int) =~= text@);
    }
    while end > 0 && text.get_char(end - 1) == c
        invariant
            end <= length,
            length == text@.len(),
            stripped(text@, c) == stripped(text@.take(end as int), c),
        decreases end,
    {
        assert(text@.take(end as int).drop_last() =~= text@.take(end - 1));
        end = end - 1;
    }
    assert(text@.subrange(0, end as int) =~= text@.take(end as int));
    text.substring_char(0, end)
}

/// A number of a configuration as it is written, from its six decimals and from
/// its exponential form: the latter for one too small or too large to be read
/// otherwise, else the decimals without the zeros at their end.
pub fn format_configuration_number(value: Number, decimals: &str, exponential: &str) -> (text: String)
    ensures
        text@ == if !value.value_equal(zero()) && !(0x3f50_624d_d2f1_a9fc <= value.magnitude()
            < 0x412e_8480_0000_0000) {
            exponential@
        } else {
            stripped(stripped(decimals@, '0'), '.')
        },
{
    match engineering_notation(value) {
        Notation::Scientific => exponential.to_owned(),
        _ => strip(strip(decimals, '0'), '.').to_owned(),
    }
}

/// A value of a configuration as it is written, from its numbers and dimension as
/// they are written.
pub fn format_configuration_value(
    value: &PropertyValue,
    x: &str,
    y: &str,
    z: &str,
    dimension: &str,
) -> (text: String)
    ensures
        text@ == match *value {
            PropertyValue::Scalar(_) => x@ + " "@ + dimension@,
            PropertyValue::Vector(_) => "("@ + x@ + ", "@ + y@ + ", "@ + z@ + ") "@ + dimension@,
            PropertyValue::Boolean(flag) => if flag {
                "true"@
            } else {
                "false"@
            },
            PropertyValue::Text(words) => words@,
            PropertyValue::Choice(words) => words@,
        },
{
    match value {
        PropertyValue::Scalar(_) => concat3(x, " ", dimension),
        PropertyValue::Vector(_) => crate::object_inspector::format_vector(x, y, z, dimension),
        PropertyValue::Boolean(flag) => if *flag {
            "true".to_owned()
        } else {
            "false".to_owned()
        },
        PropertyValue::Text(words) => words.clone(),
        PropertyValue::Choice(words) => words.clone(),
    }
}

proof fn lemma_plugin_name(systems: Seq<FieldSystemStatus>, plugin: PluginId, n: nat)
    ensures
        forall|k: int|
            n <= k < systems.len() && (#[trigger] systems[k]).plugin.id@ == plugin@ && (forall|j: int|
                n <= j < k ==> (#[trigger] systems[j]).plugin.id@ != plugin@) ==> plugin_name_from(
                systems,
                plugin,
                n,
            ) == systems[k].plugin.display_name@,
        (forall|j: int| n <= j < systems.len() ==> (#[trigger] systems[j]).plugin.id@ != plugin@)
            ==> plugin_name_from(systems, plugin, n) == plugin.text@,
    decreases systems.len() - n,
{
    if n < systems.len() {
        lemma_plugin_name(systems, plugin, n + 1);
        assert(systems[n as int].plugin.id@ == plugin@ || systems[n as int].plugin.id@ != plugin@);
    }
}

/// A plugin is called by the name that the first system of it has, and by its identity where
/// no system is of it.
pub proof fn a_plugin_is_called_by_its_own_name(systems: Seq<FieldSystemStatus>, plugin: PluginId)
    ensures
        forall|k: int|
            0 <= k < systems.len() && (#[trigger] systems[k]).plugin.id@ == plugin@ && (forall|j: int|
                0 <= j < k ==> (#[trigger] systems[j]).plugin.id@ != plugin@) ==> plugin_name_from(
                systems,
                plugin,
                0,
            ) == systems[k].plugin.display_name@,
        (forall|j: int| 0 <= j < systems.len() ==> (#[trigger] systems[j]).plugin.id@ != plugin@)
            ==> plugin_name_from(systems, plugin, 0) == plugin.text@,
{
    lemma_plugin_name(systems, plugin, 0);
}

proof fn lemma_a_channel_finds_its_own_field(fields: Seq<FieldRow>, channel: (Seq<char>, Seq<char>), n: nat, k: int)
    requires
        n <= k < fields.len(),
        fields[k].channel@ == channel,
        forall|j: int| n <= j < k ==> !((#[trigger] fields[j]).channel@ == channel),
    ensures
        field_from(fields, channel, n) == Some(fields[k]),
    decreases k - n,
{
    if n < k {
        assert(!(fields[n as int].channel@ == channel));
        lemma_a_channel_finds_its_own_field(fields, channel, n + 1, k);
    }
}

proof fn lemma_a_channel_finds_its_own_field_none(fields: Seq<FieldRow>, channel: (Seq<char>, Seq<char>), n: nat)
    requires
        forall|j: int| n <= j < fields.len() ==> !((#[trigger] fields[j]).channel@ == channel),
    ensures
        field_from(fields, channel, n) is None,
    decreases fields.len() - n,
{
    if n < fields.len() {
        assert(!(fields[n as int].channel@ == channel));
        lemma_a_channel_finds_its_own_field_none(fields, channel, n + 1);
    }
}

/// The field found for a channel is the first row of that channel, and none if it has no row.
pub proof fn a_channel_finds_its_own_field(fields: Seq<FieldRow>, channel: (Seq<char>, Seq<char>))
    ensures
        forall|k: int|
            0 <= k < fields.len() && (#[trigger] fields[k]).channel@ == channel && (forall|j: int|
                0 <= j < k ==> !((#[trigger] fields[j]).channel@ == channel)) ==> field_from(fields, channel, 0) == Some(
                fields[k],
            ),
        (forall|j: int| 0 <= j < fields.len() ==> !((#[trigger] fields[j]).channel@ == channel))
            ==> field_from(fields, channel, 0) is None,
{
    assert forall|k: int|
        0 <= k < fields.len() && (#[trigger] fields[k]).channel@ == channel && (forall|j: int|
            0 <= j < k ==> !((#[trigger] fields[j]).channel@ == channel)) implies field_from(fields, channel, 0) == Some(
        fields[k],
    ) by {
        lemma_a_channel_finds_its_own_field(fields, channel, 0, k);
    }
    if forall|j: int| 0 <= j < fields.len() ==> !((#[trigger] fields[j]).channel@ == channel) {
        lemma_a_channel_finds_its_own_field_none(fields, channel, 0);
    }
}

/// Whether a row is the field of a channel, and a model computes it.
pub open spec fn computed_at(fields: Seq<FieldRow>, channel: (Seq<char>, Seq<char>), k: int) -> bool {
    &&& 0 <= k < fields.len()
    &&& fields[k].channel@ == channel
    &&& forall|j: int| 0 <= j < k ==> (#[trigger] fields[j]).channel@ != channel
    &&& fields[k].provider is Some
}

proof fn lemma_taken(channels: Seq<ChannelSchema>, fields: Seq<FieldRow>, n: nat)
    ensures
        forall|i: int, k: int|
            n <= i < channels.len() && #[trigger] computed_at(fields, channels[i].id@, k) && (forall|
                h: int,
                j: int,
            |
                n <= h < i ==> !#[trigger] computed_at(fields, channels[h].id@, j)) ==> taken_from(
                channels,
                fields,
                n,
            ) == Some((fields[k], fields[k].provider->0)),
        (forall|i: int, k: int|
            n <= i < channels.len() ==> !#[trigger] computed_at(fields, channels[i].id@, k))
            ==> taken_from(channels, fields, n) is None,
    decreases channels.len() - n,
{
    if n < channels.len() {
        let channel = channels[n as int].id@;
        lemma_taken(channels, fields, n + 1);
        a_channel_finds_its_own_field(fields, channel);
        if field_from(fields, channel, 0) is Some {
            let k = lemma_row_of(fields, channel, fields.len());
            assert(field_from(fields, channel, 0) == Some(fields[k]));
            if fields[k].provider is Some {
                assert(computed_at(fields, channels[n as int].id@, k));
                assert forall|j: int| #[trigger] computed_at(fields, channels[n as int].id@, j) implies j
                    == k by {
                    if j < k {
                        assert(fields[j].channel@ != channel);
                    } else if k < j {
                        assert(fields[k].channel@ != channel);
                    }
                }
            } else {
                assert forall|j: int| !#[trigger] computed_at(fields, channels[n as int].id@, j) by {
                    if computed_at(fields, channels[n as int].id@, j) {
                        if j < k {
                            assert(fields[j].channel@ != channel);
                        } else if k < j {
                            assert(fields[k].channel@ != channel);
                        }
                    }
                }
            }
        } else {
            assert forall|j: int| !#[trigger] computed_at(fields, channels[n as int].id@, j) by {
                if computed_at(fields, channels[n as int].id@, j) {
                    assert(field_from(fields, channel, 0) == Some(fields[j]));
                }
            }
        }
    }
}

/// The first row of a channel that has one.
proof fn lemma_row_of(fields: Seq<FieldRow>, channel: (Seq<char>, Seq<char>), n: nat) -> (k: int)
    requires
        field_from(fields, channel, 0) is Some,
        n == fields.len(),
    ensures
        0 <= k < fields.len(),
        fields[k].channel@ == channel,
        forall|j: int| 0 <= j < k ==> (#[trigger] fields[j]).channel@ != channel,
{
    a_channel_finds_its_own_field(fields, channel);
    assert(exists|j: int| 0 <= j < fields.len() && (#[trigger] fields[j]).channel@ == channel);
    lemma_first_row(fields, channel, fields.len())
}

proof fn lemma_first_row(fields: Seq<FieldRow>, channel: (Seq<char>, Seq<char>), n: nat) -> (k: int)
    requires
        n <= fields.len(),
        exists|j: int| 0 <= j < n && (#[trigger] fields[j]).channel@ == channel,
    ensures
        0 <= k < n,
        fields[k].channel@ == channel,
        forall|j: int| 0 <= j < k ==> (#[trigger] fields[j]).channel@ != channel,
    decreases n,
{
    if exists|j: int| 0 <= j < n - 1 && (#[trigger] fields[j]).channel@ == channel {
        lemma_first_row(fields, channel, (n - 1) as nat)
    } else {
        n - 1
    }
}

/// An inactive system is kept off exactly by a field that it declares and that a model
/// computes already, however many models could: it is the field of the first such channel,
/// and the model that computes it. An active system is kept off by nothing.
pub proof fn a_field_has_one_model(system: FieldSystemStatus, compute: ComputeView)
    ensures
        system.enabled ==> taken(system, compute) is None,
        !system.enabled ==> forall|i: int, k: int|
            0 <= i < system.channels@.len() && #[trigger] computed_at(
                compute.fields@,
                system.channels@[i].id@,
                k,
            ) ==> taken(system, compute) is Some,
        !system.enabled ==> forall|i: int, k: int|
            0 <= i < system.channels@.len() && #[trigger] computed_at(
                compute.fields@,
                system.channels@[i].id@,
                k,
            ) && (forall|h: int, j: int|
                0 <= h < i ==> !#[trigger] computed_at(compute.fields@, system.channels@[h].id@, j))
                ==> taken(system, compute) == Some((compute.fields@[k], compute.fields@[k].provider->0)),
        (forall|i: int, k: int|
            0 <= i < system.channels@.len() ==> !#[trigger] computed_at(
                compute.fields@,
                system.channels@[i].id@,
                k,
            )) ==> taken(system, compute) is None,
{
    let channels = system.channels@;
    let fields = compute.fields@;
    lemma_taken(channels, fields, 0);
    if !system.enabled {
        assert forall|i: int, k: int|
            0 <= i < channels.len() && #[trigger] computed_at(fields, channels[i].id@, k) implies taken(
            system,
            compute,
        ) is Some by {
            lemma_first_taken(channels, fields, i, k);
        }
    }
}

proof fn lemma_first_taken(channels: Seq<ChannelSchema>, fields: Seq<FieldRow>, i: int, k: int)
    requires
        0 <= i < channels.len(),
        computed_at(fields, channels[i].id@, k),
    ensures
        taken_from(channels, fields, 0) is Some,
    decreases i,
{
    if exists|h: int, j: int| 0 <= h < i && #[trigger] computed_at(fields, channels[h].id@, j) {
        let (h, j) = choose|h: int, j: int|
            0 <= h < i && #[trigger] computed_at(fields, channels[h].id@, j);
        lemma_first_taken(channels, fields, h, j);
    } else {
        lemma_taken(channels, fields, 0);
    }
}

/// A system that is off cannot be switched on while any model computes a field it declares.
pub proof fn no_field_is_computed_twice(
    system: FieldSystemStatus,
    compute: ComputeView,
    i: int,
    k: int,
)
    requires
        !system.enabled,
        0 <= i < system.channels@.len(),
        0 <= k < compute.fields@.len(),
        compute.fields@[k].channel@ == system.channels@[i].id@,
        forall|j: int|
            0 <= j < k ==> (#[trigger] compute.fields@[j]).channel@ != system.channels@[i].id@,
        compute.fields@[k].provider is Some,
    ensures
        taken(system, compute) is Some,
        !switchable(system, compute),
{
    assert(computed_at(compute.fields@, system.channels@[i].id@, k));
    a_field_has_one_model(system, compute);
}

/// A system can be switched while the source is ready, unless it is off and a field it
/// declares is computed already.
pub proof fn a_free_system_can_be_switched(system: FieldSystemStatus, compute: ComputeView)
    ensures
        !(compute.status is Ready) ==> !switchable(system, compute),
        compute.status is Ready && system.enabled ==> switchable(system, compute),
        compute.status is Ready && !system.enabled && (forall|i: int, k: int|
            0 <= i < system.channels@.len() && 0 <= k < compute.fields@.len() && (
            #[trigger] compute.fields@[k]).channel@ == (#[trigger] system.channels@[i]).id@
                ==> compute.fields@[k].provider is None) ==> switchable(system, compute),
{
    if forall|i: int, k: int|
        0 <= i < system.channels@.len() && 0 <= k < compute.fields@.len() && (
        #[trigger] compute.fields@[k]).channel@ == (#[trigger] system.channels@[i]).id@
            ==> compute.fields@[k].provider is None {
        assert forall|i: int, k: int| 0 <= i < system.channels@.len() implies !#[trigger] computed_at(
            compute.fields@,
            system.channels@[i].id@,
            k,
        ) by {
            if computed_at(compute.fields@, system.channels@[i].id@, k) {
                assert(compute.fields@[k].channel@ == system.channels@[i].id@);
            }
        }
        a_field_has_one_model(system, compute);
    }
}

/// A model is chosen anew unless it is the one that computes the field already.
pub proof fn choosing_the_same_model_is_no_choice(field: FieldRow, chosen: Option<PluginId>)
    ensures
        field.provider is None && chosen is None ==> chosen_already(field, chosen),
        field.provider is Some && chosen is Some ==> (chosen_already(field, chosen) <==> (
        field.provider->0)@ == (chosen->0)@),
        field.provider is None && chosen is Some ==> !chosen_already(field, chosen),
        field.provider is Some && chosen is None ==> !chosen_already(field, chosen),
{
}

/// Two vector fields take six numbers a cell, of four or eight bytes each, as far as that
/// can be counted.
pub proof fn a_lattice_takes_six_numbers_a_cell(domain: Domain)
    ensures
        domain.precision == Precision::F32 && domain.cell_count * 24 <= u64::MAX
            ==> minimum_field_bytes(domain) == domain.cell_count * 24,
        domain.precision == Precision::F64 && domain.cell_count * 48 <= u64::MAX
            ==> minimum_field_bytes(domain) == domain.cell_count * 48,
        domain.precision == Precision::F32 && domain.cell_count * 24 > u64::MAX
            ==> minimum_field_bytes(domain) == u64::MAX,
        domain.precision == Precision::F64 && domain.cell_count * 48 > u64::MAX
            ==> minimum_field_bytes(domain) == u64::MAX,
{
}

/// A domain is applied exactly where the source is ready, no edit is being made, and the
/// domain differs from the current one in a bound, the lattice, a boundary or the precision.
pub proof fn only_another_domain_is_applied(compute: ComputeView, domain: Domain, edit: bool)
    ensures
        domain_appliable(compute, domain, edit) <==> compute.status is Ready && !edit && !(
        domain.min.value_equal(compute.domain.min) && domain.max.value_equal(compute.domain.max)
            && domain.cells == compute.domain.cells && domain.boundaries == compute.domain.boundaries
            && domain.precision == compute.domain.precision),
{
}

/// A configuration is applied exactly where the source is ready, no edit is being made, the
/// configuration is valid, and it differs from the system's own.
pub proof fn only_another_configuration_is_applied(
    compute: ComputeView,
    system: FieldSystemStatus,
    draft: PropertyBag,
    valid: bool,
    edit: bool,
)
    ensures
        configuration_appliable(compute, system, draft, valid, edit) <==> compute.status is Ready
            && valid && !edit && !bags_agree(draft.listed(), system.configuration.listed()),
{
}

/// Two configurations agree exactly where they name the same properties and each has the
/// same value in both: numbers numerically, everything else as it is.
pub proof fn configurations_agree_value_by_value(
    a: Seq<(PropertyId, PropertyValue)>,
    b: Seq<(PropertyId, PropertyValue)>,
    i: int,
)
    requires
        0 <= i < a.len(),
    ensures
        a.len() != b.len() ==> !bags_agree(a, b),
        a[i].0@ != b[i].0@ ==> !bags_agree(a, b),
        !values_agree(a[i].1, b[i].1) ==> !bags_agree(a, b),
        (a.len() == b.len() && forall|j: int|
            0 <= j < a.len() ==> (#[trigger] a[j]).0@ == b[j].0@ && values_agree(a[j].1, b[j].1))
            ==> bags_agree(a, b),
{
    if bags_agree(a, b) {
        assert(a[i].0@ == b[i].0@ && values_agree(a[i].1, b[i].1));
    }
}

/// Values of different kinds never agree; numbers agree numerically, and flags, texts and
/// choices where they are the same.
pub proof fn values_agree_within_their_kind(a: PropertyValue, b: PropertyValue)
    ensures
        values_agree(a, b) == values_agree(b, a),
        a is Scalar && b is Scalar ==> values_agree(a, b) == (a->Scalar_0).value_equal(b->Scalar_0),
        a is Vector && b is Vector ==> values_agree(a, b) == (a->Vector_0).value_equal(b->Vector_0),
        a is Boolean && b is Boolean ==> values_agree(a, b) == (a->Boolean_0 == b->Boolean_0),
        a is Text && b is Text ==> values_agree(a, b) == ((a->Text_0)@ == (b->Text_0)@),
        a is Choice && b is Choice ==> values_agree(a, b) == ((a->Choice_0)@ == (b->Choice_0)@),
        values_agree(a, b) ==> (a is Scalar <==> b is Scalar) && (a is Vector <==> b is Vector) && (
        a is Boolean <==> b is Boolean) && (a is Text <==> b is Text),
{
}

/// A density that is typed within its bounds is taken as it was typed, along every axis; one
/// beyond them is taken as the bound; zero samples nothing; and what was not typed stays.
pub proof fn densities_are_taken_as_typed(subscription: Subscription, input: SamplingInput, n: u32)
    ensures
        0 < n <= 1024 && input.planes == Some(n) ==> sampled(subscription, input).planes == Some(
            UVec2 { x: n, y: n },
        ),
        n > 1024 && input.planes == Some(n) ==> sampled(subscription, input).planes == Some(
            UVec2 { x: 1024, y: 1024 },
        ),
        0 < n <= 1024 && input.boxes == Some(n) ==> sampled(subscription, input).boxes == Some(
            UVec3 { x: n, y: n, z: n },
        ),
        n > 1024 && input.boxes == Some(n) ==> sampled(subscription, input).boxes == Some(
            UVec3 { x: 1024, y: 1024, z: 1024 },
        ),
        0 < n <= 1024 && input.spheres == Some(n) ==> sampled(subscription, input).spheres == Some(n),
        n > 1024 && input.spheres == Some(n) ==> sampled(subscription, input).spheres == Some(1024u32),
        0 < n <= 256 && input.domain_stride == Some(n) ==> sampled(subscription, input).domain_stride
            == Some(n),
        n > 256 && input.domain_stride == Some(n) ==> sampled(subscription, input).domain_stride
            == Some(256u32),
        input.planes == Some(0u32) ==> sampled(subscription, input).planes is None,
        input.boxes == Some(0u32) ==> sampled(subscription, input).boxes is None,
        input.spheres == Some(0u32) ==> sampled(subscription, input).spheres is None,
        input.domain_stride == Some(0u32) ==> sampled(subscription, input).domain_stride is None,
        input.planes is None ==> sampled(subscription, input).planes == subscription.planes,
        input.boxes is None ==> sampled(subscription, input).boxes == subscription.boxes,
        input.spheres is None ==> sampled(subscription, input).spheres == subscription.spheres,
        input.domain_stride is None ==> sampled(subscription, input).domain_stride
            == subscription.domain_stride,
{
}

/// Stripping takes off the end of a text every `c` and nothing else.
pub proof fn stripping_takes_only_the_end(text: Seq<char>, c: char)
    ensures
        stripped(text, c).len() <= text.len(),
        stripped(text, c) == text.take(stripped(text, c).len() as int),
        forall|i: int| stripped(text, c).len() <= i < text.len() ==> #[trigger] text[i] == c,
        stripped(text, c).len() > 0 ==> stripped(text, c).last() != c,
    decreases text.len(),
{
    if text.len() > 0 && text.last() == c {
        stripping_takes_only_the_end(text.drop_last(), c);
        let short = text.drop_last();
        assert forall|i: int| stripped(text, c).len() <= i < text.len() implies #[trigger] text[i] == c by {
            if i < short.len() {
                assert(short[i] == c);
            }
        }
        assert(short.take(stripped(text, c).len() as int) =~= text.take(
            stripped(text, c).len() as int,
        ));
    } else {
        assert(text.take(text.len() as int) =~= text);
    }
}

} // verus!
