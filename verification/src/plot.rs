//! Plots of recorded histories: which traces are drawn, what they hold, and which
//! plot windows stay open.

use crate::ids::{ChannelId, DistanceProbeId, Id, MassAggregateProbeId, ProbeId};
use crate::measured::{value_bounds, zero, Number, Vec3};
use crate::model::{
    DistanceProbeSeries, MassAggregateProbeSeries, ProbePlotWindow, UiModel,
};
use crate::ordered::{Copied, MapKey, OrderedMap};
use crate::source::SampleValidity;
use crate::text::{concat2, concat4, numbered};
use crate::world::{find, Identified, Probe, Rgb, WorldSnapshot};
use vstd::prelude::*;
use vstd::string::*;

verus! {

/// A recorded value. The magnitude of a vector is recorded with it.
#[derive(Clone, Copy, Debug, PartialEq, Eq, Structural)]
pub enum FieldValue {
    Scalar(Number),
    Vector { components: Vec3, magnitude: Number },
}

/// A recorded sample of a channel at a probe.
#[derive(Clone, Copy, Debug, PartialEq, Eq, Structural)]
pub struct ProbeReading {
    pub time_seconds: Number,
    pub value: FieldValue,
    pub validity: SampleValidity,
}

/// One line of a plot.
#[derive(Clone, Copy, Debug, PartialEq, Eq, Structural)]
pub enum ProbeTrace {
    X,
    Y,
    Z,
    Magnitude,
    Value,
}

impl ProbeTrace {
    pub fn label(self) -> (s: &'static str)
        ensures
            self is X ==> s@ == "x"@,
            self is Y ==> s@ == "y"@,
            self is Z ==> s@ == "z"@,
            self is Magnitude ==> s@ == "|v|"@,
            self is Value ==> s@ == "value"@,
    {
        match self {
            ProbeTrace::X => "x",
            ProbeTrace::Y => "y",
            ProbeTrace::Z => "z",
            ProbeTrace::Magnitude => "|v|",
            ProbeTrace::Value => "value",
        }
    }

    /// The colour the line is drawn in.
    pub fn color(self) -> (color: Rgb)
        ensures
            color == match self {
                ProbeTrace::X => Rgb { r: 235, g: 90, b: 90 },
                ProbeTrace::Y => Rgb { r: 95, g: 210, b: 120 },
                ProbeTrace::Z => Rgb { r: 100, g: 155, b: 245 },
                ProbeTrace::Magnitude => Rgb { r: 245, g: 205, b: 75 },
                ProbeTrace::Value => Rgb { r: 245, g: 205, b: 75 },
            },
    {
        match self {
            ProbeTrace::X => Rgb { r: 235, g: 90, b: 90 },
            ProbeTrace::Y => Rgb { r: 95, g: 210, b: 120 },
            ProbeTrace::Z => Rgb { r: 100, g: 155, b: 245 },
            ProbeTrace::Magnitude => Rgb { r: 245, g: 205, b: 75 },
            ProbeTrace::Value => Rgb { r: 245, g: 205, b: 75 },
        }
    }

    /// What the line shows of a value. The magnitude of a number is its own.
    pub open spec fn shows(self, value: FieldValue) -> Option<Number> {
        match (self, value) {
            (ProbeTrace::X, FieldValue::Vector { components, .. }) => Some(components.x),
            (ProbeTrace::Y, FieldValue::Vector { components, .. }) => Some(components.y),
            (ProbeTrace::Z, FieldValue::Vector { components, .. }) => Some(components.z),
            (ProbeTrace::Magnitude, FieldValue::Vector { magnitude, .. }) => Some(magnitude),
            (ProbeTrace::Magnitude, FieldValue::Scalar(value)) => Some(
                Number { bits: value.magnitude() as u64 },
            ),
            (ProbeTrace::Value, FieldValue::Scalar(value)) => Some(value),
            _ => None,
        }
    }

    pub fn component(self, value: FieldValue) -> (component: Option<Number>)
        ensures
            component == self.shows(value),
    {
        match (self, value) {
            (ProbeTrace::X, FieldValue::Vector { components, .. }) => Some(components.x),
            (ProbeTrace::Y, FieldValue::Vector { components, .. }) => Some(components.y),
            (ProbeTrace::Z, FieldValue::Vector { components, .. }) => Some(components.z),
            (ProbeTrace::Magnitude, FieldValue::Vector { magnitude, .. }) => Some(magnitude),
            (ProbeTrace::Magnitude, FieldValue::Scalar(value)) => Some(value.absolute()),
            (ProbeTrace::Value, FieldValue::Scalar(value)) => Some(value),
            _ => None,
        }
    }
}

/// Whether a history is one of vectors: its first sample says.
pub open spec fn is_vector(readings: Seq<ProbeReading>) -> bool {
    readings.len() > 0 && readings[0].value is Vector
}

/// The lines of a plot: the components and the magnitude of a vector, or a number.
pub open spec fn traces_of(readings: Seq<ProbeReading>) -> Seq<ProbeTrace> {
    if is_vector(readings) {
        seq![ProbeTrace::X, ProbeTrace::Y, ProbeTrace::Z, ProbeTrace::Magnitude]
    } else {
        seq![ProbeTrace::Value]
    }
}

pub fn traces(readings: &Vec<ProbeReading>) -> (lines: Vec<ProbeTrace>)
    ensures
        lines@ == traces_of(readings@),
{
    let vector: bool = if readings.len() > 0 {
        match readings[0].value {
            FieldValue::Vector { .. } => true,
            FieldValue::Scalar(_) => false,
        }
    } else {
        false
    };
    let mut lines: Vec<ProbeTrace> = Vec::new();
    if vector {
        lines.push(ProbeTrace::X);
        lines.push(ProbeTrace::Y);
        lines.push(ProbeTrace::Z);
        lines.push(ProbeTrace::Magnitude);
    } else {
        lines.push(ProbeTrace::Value);
    }
    assert(lines@ =~= traces_of(readings@));
    lines
}

/// Whether a sample is drawn: an undefined one has no value to draw.
pub fn is_plot_valid(validity: SampleValidity) -> (b: bool)
    ensures
        b == !(validity is Undefined),
{
    match validity {
        SampleValidity::Undefined(_) => false,
        _ => true,
    }
}

/// A point of a line, before it is put on the screen.
#[derive(Clone, Copy, Debug, PartialEq, Eq, Structural)]
pub struct TracePoint {
    pub time_seconds: Number,
    pub value: Number,
}

/// The points of one line, of the first `n` samples: the defined ones that have
/// what the line shows.
pub open spec fn points_of(trace: ProbeTrace, readings: Seq<ProbeReading>, n: nat) -> Seq<TracePoint>
    decreases n,
{
    if n == 0 {
        Seq::empty()
    } else {
        let before = points_of(trace, readings, (n - 1) as nat);
        let reading = readings[n - 1];
        match trace.shows(reading.value) {
            Some(value) if !(reading.validity is Undefined) => before.push(
                TracePoint { time_seconds: reading.time_seconds, value },
            ),
            _ => before,
        }
    }
}

/// The points of one line.
pub fn trace_points(trace: ProbeTrace, readings: &Vec<ProbeReading>) -> (points: Vec<TracePoint>)
    ensures
        points@ == points_of(trace, readings@, readings@.len()),
{
    let mut points: Vec<TracePoint> = Vec::new();
    let mut i: usize = 0;
    while i < readings.len()
        invariant
            i <= readings.len(),
            points@ == points_of(trace, readings@, i as nat),
        decreases readings.len() - i,
    {
        let reading = readings[i];
        if is_plot_valid(reading.validity) {
            if let Some(value) = trace.component(reading.value) {
                points.push(TracePoint { time_seconds: reading.time_seconds, value });
            }
        }
        i = i + 1;
    }
    points
}

/// The values of a list of points.
pub open spec fn values_of(points: Seq<TracePoint>) -> Seq<Number> {
    points.map_values(|p: TracePoint| p.value)
}

/// The values of the first `n` lines of a plot, line by line.
pub open spec fn plotted_values(readings: Seq<ProbeReading>, n: nat) -> Seq<Number>
    decreases n,
{
    if n == 0 {
        Seq::empty()
    } else {
        plotted_values(readings, (n - 1) as nat) + values_of(
            points_of(traces_of(readings)[n - 1], readings, readings.len()),
        )
    }
}

/// The values a plot draws, line by line.
pub fn plot_values(readings: &Vec<ProbeReading>) -> (values: Vec<Number>)
    ensures
        values@ == plotted_values(readings@, traces_of(readings@).len()),
{
    let lines = traces(readings);
    let mut values: Vec<Number> = Vec::new();
    let mut i: usize = 0;
    while i < lines.len()
        invariant
            lines@ == traces_of(readings@),
            i <= lines.len(),
            values@ == plotted_values(readings@, i as nat),
        decreases lines.len() - i,
    {
        let points = trace_points(lines[i], readings);
        let ghost before = values@;
        let mut j: usize = 0;
        assert(before + values_of(points@).take(0) =~= before);
        while j < points.len()
            invariant
                j <= points.len(),
                values@ == before + values_of(points@).take(j as int),
            decreases points.len() - j,
        {
            values.push(points[j].value);
            j = j + 1;
            assert(values@ =~= before + values_of(points@).take(j as int));
        }
        assert(values_of(points@).take(j as int) =~= values_of(points@));
        i = i + 1;
    }
    values
}

/// The least and the greatest finite value a plot draws, if there is one.
pub fn plot_bounds(readings: &Vec<ProbeReading>) -> (bounds: Option<(Number, Number)>)
    ensures
        ({
            let values = plotted_values(readings@, traces_of(readings@).len());
            &&& bounds is None <==> forall|i: int|
                0 <= i < values.len() ==> !(#[trigger] values[i]).is_finite()
            &&& bounds matches Some(b) ==> crate::measured::bounds_finite(values, b.0, b.1)
        }),
{
    let values = plot_values(readings);
    value_bounds(&values)
}

/// Whether the line of zero runs through a plot.
pub fn crosses_zero(low: Number, high: Number) -> (b: bool)
    ensures
        b == (low.value_at_most(zero()) && zero().value_at_most(high)),
{
    low.at_most(zero()) && zero().at_most(high)
}

/// The time a plot spans: from its first sample to its last.
pub fn time_range(readings: &Vec<ProbeReading>) -> (range: (Number, Number))
    ensures
        range == if readings@.len() > 0 {
            (readings@[0].time_seconds, readings@.last().time_seconds)
        } else {
            (zero(), zero())
        },
{
    if readings.len() > 0 {
        (readings[0].time_seconds, readings[readings.len() - 1].time_seconds)
    } else {
        (zero(), zero())
    }
}

/// The title over the plot of a channel: its name, and the dimension of its last
/// sample as it is written.
pub fn channel_title(label: &str, dimension: Option<&str>) -> (title: String)
    ensures
        title@ == match dimension {
            Some(written) => label@ + " ["@ + written@ + "]"@,
            None => label@,
        },
{
    match dimension {
        Some(written) => concat4(label, " [", written, "]"),
        None => label.to_owned(),
    }
}

/// What stands in place of the plot of a channel, if it is not drawn.
pub fn channel_plot_note(readings: &Vec<ProbeReading>) -> (note: Option<&'static str>)
    ensures
        readings@.len() == 0 ==> (note matches Some(text) && text@ == "No samples yet"@),
        readings@.len() > 0 ==> ({
            let values = plotted_values(readings@, traces_of(readings@).len());
            if forall|i: int| 0 <= i < values.len() ==> !(#[trigger] values[i]).is_finite() {
                note matches Some(text) && text@ == "Samples are currently undefined"@
            } else {
                note is None
            }
        }),
{
    if readings.len() == 0 {
        Some("No samples yet")
    } else {
        match plot_bounds(readings) {
            Some(_) => None,
            None => Some("Samples are currently undefined"),
        }
    }
}

/// Whether a plot stays open: what it records is still in the scene, and its
/// window was not closed.
pub open spec fn stays_open<T: Identified, const KIND: u8>(
    list: Seq<T>,
    closed: Seq<Id<KIND>>,
    key: u64,
) -> bool {
    crate::world::present(list, key) && !crate::ids::lists(closed, key)
}

/// The open plots that stay open.
pub open spec fn kept_open<T: Identified, V, const KIND: u8>(
    plots: Map<u64, V>,
    list: Seq<T>,
    closed: Seq<Id<KIND>>,
) -> Map<u64, V> {
    plots.restrict(Set::new(|key: u64| stays_open(list, closed, key)))
}

fn close_plots<T: Identified, V, const KIND: u8>(
    plots: &mut OrderedMap<Id<KIND>, V>,
    list: &Vec<T>,
    closed: &Vec<Id<KIND>>,
)
    ensures
        final(plots).map() == kept_open(old(plots).map(), list@, closed@),
{
    let ghost all = plots.map();
    let ghost entries = plots.listed();
    let mut gone: Vec<Id<KIND>> = Vec::new();
    let count: usize = plots.len();
    let mut i: usize = 0;
    while i < count
        invariant
            plots.map() == all,
            plots.listed() == entries,
            count == entries.len(),
            i <= count,
            forall|k: int|
                0 <= k < i && !stays_open(list@, closed@, (#[trigger] entries[k]).0.number())
                    ==> crate::ids::lists(gone@, entries[k].0.number()),
            forall|k: int|
                0 <= k < gone.len() ==> !stays_open(list@, closed@, (#[trigger] gone[k]).number()),
        decreases count - i,
    {
        let (key, _) = plots.entry(i);
        let id: Id<KIND> = *key;
        let ghost before = gone@;
        if find(list, id.get()).is_none() || crate::ids::listed_in(closed, &id) {
            gone.push(id);
            assert forall|k: int|
                0 <= k <= i && !stays_open(
                    list@,
                    closed@,
                    (#[trigger] entries[k]).0.number(),
                ) implies crate::ids::lists(gone@, entries[k].0.number()) by {
                if k < i {
                    let w = choose|w: int|
                        0 <= w < before.len() && (#[trigger] before[w]).key()
                            == entries[k].0.number();
                    assert(gone@[w].key() == entries[k].0.number());
                } else {
                    assert(gone@[before.len() as int].key() == entries[k].0.number());
                }
            }
        }
        i = i + 1;
    }
    assert forall|key: u64| all.contains_key(key) && !stays_open(list@, closed@, key) implies
        #[trigger] crate::ids::lists(gone@, key) by {
        assert(crate::ordered::has_key(entries, key));
        let k = crate::ordered::position_of(entries, key);
        assert(entries[k].0.number() == key);
    }
    let mut j: usize = 0;
    while j < gone.len()
        invariant
            j <= gone.len(),
            forall|key: u64|
                #![trigger plots.map().contains_key(key)]
                plots.map().contains_key(key) <==> all.contains_key(key) && !crate::ids::lists(
                    gone@.take(j as int),
                    key,
                ),
            forall|key: u64| plots.map().contains_key(key) ==> #[trigger] plots.map()[key] == all[key],
        decreases gone.len() - j,
    {
        let ghost taken = gone@.take(j as int);
        let ghost next = gone@.take(j + 1);
        let _ = plots.remove(&gone[j]);
        j = j + 1;
        assert forall|key: u64|
            crate::ids::lists(next, key) <==> crate::ids::lists(taken, key) || key
                == gone@[j - 1].key() by {
            if crate::ids::lists(taken, key) {
                let w = choose|w: int|
                    0 <= w < taken.len() && (#[trigger] taken[w]).key() == key;
                assert(next[w].key() == key);
            }
            if key == gone@[j - 1].key() {
                assert(next[j - 1].key() == key);
            }
            if crate::ids::lists(next, key) && key != gone@[j - 1].key() {
                let w = choose|w: int| 0 <= w < next.len() && (#[trigger] next[w]).key() == key;
                assert(taken[w].key() == key);
            }
        }
    }
    proof {
        assert(gone@.take(j as int) =~= gone@);
        let kept = kept_open(all, list@, closed@);
        assert forall|key: u64| #[trigger]
            plots.map().contains_key(key) <==> kept.contains_key(key) by {
            if all.contains_key(key) {
                if !stays_open(list@, closed@, key) {
                    assert(crate::ids::lists(gone@, key));
                } else if crate::ids::lists(gone@, key) {
                    let w = choose|w: int| 0 <= w < gone@.len() && (#[trigger] gone@[w]).key() == key;
                    assert(!stays_open(list@, closed@, gone@[w].number()));
                }
            }
        }
        assert(plots.map() =~= kept);
    }
}

/// The plots that stay open at the end of a frame in which some windows were
/// closed. Only a closed window, or a recorder that left the scene, closes a plot.
pub fn floating_probe_plots(model: &mut UiModel, world: &WorldSnapshot, closed: &Vec<ProbeId>)
    ensures
        *final(model) == (UiModel { probe_plots: final(model).probe_plots, ..*old(model) }),
        final(model).probe_plots.map() == kept_open(
            old(model).probe_plots.map(),
            world.probes@,
            closed@,
        ),
{
    close_plots(&mut model.probe_plots, &world.probes, closed);
}

/// The distance plots that stay open.
pub fn floating_distance_probe_plots(
    model: &mut UiModel,
    world: &WorldSnapshot,
    closed: &Vec<DistanceProbeId>,
)
    ensures
        *final(model) == (UiModel {
            distance_probe_plots: final(model).distance_probe_plots,
            ..*old(model)
        }),
        final(model).distance_probe_plots.map() == kept_open(
            old(model).distance_probe_plots.map(),
            world.distance_probes@,
            closed@,
        ),
{
    close_plots(&mut model.distance_probe_plots, &world.distance_probes, closed);
}

/// The center of mass plots that stay open.
pub fn floating_mass_aggregate_probe_plots(
    model: &mut UiModel,
    world: &WorldSnapshot,
    closed: &Vec<MassAggregateProbeId>,
)
    ensures
        *final(model) == (UiModel {
            mass_aggregate_probe_plots: final(model).mass_aggregate_probe_plots,
            ..*old(model)
        }),
        final(model).mass_aggregate_probe_plots.map() == kept_open(
            old(model).mass_aggregate_probe_plots.map(),
            world.mass_aggregate_probes@,
            closed@,
        ),
{
    close_plots(&mut model.mass_aggregate_probe_plots, &world.mass_aggregate_probes, closed);
}

/// A plot of a recorder that is in the scene stays open, with what it shows, until
/// its window is closed.
pub proof fn plots_stay_open<T: Identified, V, const KIND: u8>(
    plots: Map<u64, V>,
    list: Seq<T>,
    closed: Seq<Id<KIND>>,
    key: u64,
)
    requires
        plots.contains_key(key),
        crate::world::present(list, key),
        !crate::ids::lists(closed, key),
    ensures
        kept_open(plots, list, closed).contains_key(key),
        kept_open(plots, list, closed)[key] == plots[key],
{
}

/// The title of a plot window.
pub fn plot_title(kind: &str, name: &str) -> (title: String)
    ensures
        title@ == kind@ + " · "@ + name@,
{
    let head = concat2(kind, " · ");
    concat2(head.as_str(), name)
}

/// Show a channel in a plot, or no longer.
pub fn toggle_plot_channel(plot: &mut ProbePlotWindow, channel: &ChannelId, selected: bool)
    ensures
        final(plot).channels.map() == if selected {
            old(plot).channels.map().insert(channel@, ())
        } else {
            old(plot).channels.map().remove(channel@)
        },
{
    if selected {
        plot.channels.insert(channel.copied(), ());
    } else {
        let _ = plot.channels.remove(channel);
    }
}

/// The recorded channels, of the first `n`, that a plot shows.
pub open spec fn drawn(
    channels: Seq<ChannelId>,
    shown: Map<(Seq<char>, Seq<char>), ()>,
    n: nat,
) -> Seq<usize>
    decreases n,
{
    if n == 0 {
        Seq::empty()
    } else if shown.contains_key(channels[n - 1]@) {
        drawn(channels, shown, (n - 1) as nat).push((n - 1) as usize)
    } else {
        drawn(channels, shown, (n - 1) as nat)
    }
}

/// The recorded channels that a plot shows, by their positions. Without any, the
/// window asks for one.
pub fn drawn_channels(probe: &Probe, plot: &ProbePlotWindow) -> (positions: Vec<usize>)
    ensures
        positions@ == drawn(probe.channels@, plot.channels.map(), probe.channels@.len()),
        forall|k: int| 0 <= k < positions.len() ==> (#[trigger] positions[k]) < probe.channels.len(),
{
    let channels = &probe.channels;
    let mut positions: Vec<usize> = Vec::new();
    let mut i: usize = 0;
    while i < channels.len()
        invariant
            *channels == probe.channels,
            i <= channels.len(),
            positions@ == drawn(channels@, plot.channels.map(), i as nat),
            forall|k: int| 0 <= k < positions.len() ==> (#[trigger] positions[k]) < i,
        decreases channels.len() - i,
    {
        if plot.channels.contains_key(&channels[i]) {
            positions.push(i);
        }
        i = i + 1;
    }
    positions
}

/// How far back a recorder remembers.
pub fn capacity_line(capacity: usize, per_channel: bool) -> (text: String)
    ensures
        text@ == "Bounded to "@ + crate::text::decimal(capacity as nat) + if per_channel {
            " samples per channel"@
        } else {
            " samples"@
        },
{
    let mut text = numbered("Bounded to ", capacity as u64);
    if per_channel {
        text.append(" samples per channel");
    } else {
        text.append(" samples");
    }
    text
}

/// What stands in place of a history, if none of its series can be drawn.
pub open spec fn history_words(any_series: bool, samples: nat) -> Option<Seq<char>> {
    if !any_series {
        Some("Select at least one series."@)
    } else if samples == 0 {
        Some("No samples yet"@)
    } else {
        None
    }
}

fn history_note(any_series: bool, samples: usize) -> (note: Option<&'static str>)
    ensures
        note is Some <==> history_words(any_series, samples as nat) is Some,
        note matches Some(text) ==> history_words(any_series, samples as nat) == Some(text@),
{
    if !any_series {
        Some("Select at least one series.")
    } else if samples == 0 {
        Some("No samples yet")
    } else {
        None
    }
}

/// What stands in place of a distance history.
pub fn distance_history_note(series: DistanceProbeSeries, samples: usize) -> (note: Option<
    &'static str,
>)
    ensures
        ({
            let words = history_words(series.distance || series.rate_of_change, samples as nat);
            &&& note is Some <==> words is Some
            &&& note matches Some(text) ==> words == Some(text@)
        }),
{
    history_note(series.distance || series.rate_of_change, samples)
}

/// What stands in place of a center of mass history.
pub fn mass_aggregate_history_note(series: MassAggregateProbeSeries, samples: usize) -> (note: Option<
    &'static str,
>)
    ensures
        ({
            let words = history_words(
                series.center_of_mass || series.velocity || series.momentum
                    || series.angular_momentum || series.kinetic_energy,
                samples as nat,
            );
            &&& note is Some <==> words is Some
            &&& note matches Some(text) ==> words == Some(text@)
        }),
{
    history_note(
        series.center_of_mass || series.velocity || series.momentum || series.angular_momentum
            || series.kinetic_energy,
        samples,
    )
}

/// The samples, of the first `n`, that are followed by a later one.
pub open spec fn advancing(times: Seq<Number>, n: nat) -> Seq<usize>
    decreases n,
{
    if n == 0 {
        Seq::empty()
    } else if times[n - 1].value_less(times[n as int]) {
        advancing(times, (n - 1) as nat).push((n - 1) as usize)
    } else {
        advancing(times, (n - 1) as nat)
    }
}

/// The samples from which a rate of change can be told, by their positions: those
/// whose next sample is later. A tie or a rewound clock gives no rate.
pub fn rate_pairs(times: &Vec<Number>) -> (positions: Vec<usize>)
    ensures
        times@.len() == 0 ==> positions@.len() == 0,
        times@.len() > 0 ==> positions@ == advancing(times@, (times@.len() - 1) as nat),
        forall|k: int|
            0 <= k < positions.len() ==> (#[trigger] positions[k]) + 1 < times.len()
                && times[positions[k] as int].value_less(times[positions[k] + 1]),
{
    let mut positions: Vec<usize> = Vec::new();
    if times.len() == 0 {
        return positions;
    }
    let mut i: usize = 0;
    while i < times.len() - 1
        invariant
            0 < times.len(),
            i <= times.len() - 1,
            positions@ == advancing(times@, i as nat),
            forall|k: int|
                0 <= k < positions.len() ==> (#[trigger] positions[k]) < i
                    && times[positions[k] as int].value_less(times[positions[k] + 1]),
        decreases times.len() - 1 - i,
    {
        if times[i].less(times[i + 1]) {
            positions.push(i);
        }
        i = i + 1;
    }
    positions
}

/// Whether a history can be drawn as a line.
pub fn enough_samples(samples: usize) -> (b: bool)
    ensures
        b == (samples >= 2),
{
    samples >= 2
}

/// A line shows of a vector the component it is named after, or its magnitude, and of a
/// number the number itself.
pub proof fn a_line_shows_what_it_is_named_after(components: Vec3, magnitude: Number, value: Number)
    ensures
        ProbeTrace::X.shows(FieldValue::Vector { components, magnitude }) == Some(components.x),
        ProbeTrace::Y.shows(FieldValue::Vector { components, magnitude }) == Some(components.y),
        ProbeTrace::Z.shows(FieldValue::Vector { components, magnitude }) == Some(components.z),
        ProbeTrace::Magnitude.shows(FieldValue::Vector { components, magnitude }) == Some(magnitude),
        ProbeTrace::Value.shows(FieldValue::Scalar(value)) == Some(value),
        ProbeTrace::Value.shows(FieldValue::Vector { components, magnitude }) is None,
        ProbeTrace::X.shows(FieldValue::Scalar(value)) is None,
        ProbeTrace::Y.shows(FieldValue::Scalar(value)) is None,
        ProbeTrace::Z.shows(FieldValue::Scalar(value)) is None,
        ProbeTrace::Magnitude.shows(FieldValue::Scalar(value)) matches Some(shown) && shown.bits
            == value.magnitude(),
{
    assert(value.magnitude() as u64 == value.magnitude());
}

/// A history of vectors is drawn by its three components and its magnitude, in that order;
/// a history of numbers, or an empty one, by its value alone.
pub proof fn a_history_is_drawn_by_its_first_sample(readings: Seq<ProbeReading>)
    ensures
        readings.len() > 0 && readings[0].value is Vector ==> traces_of(readings) == seq![
            ProbeTrace::X,
            ProbeTrace::Y,
            ProbeTrace::Z,
            ProbeTrace::Magnitude,
        ],
        readings.len() == 0 || readings[0].value is Scalar ==> traces_of(readings) == seq![
            ProbeTrace::Value,
        ],
{
}

proof fn lemma_points(trace: ProbeTrace, readings: Seq<ProbeReading>, n: nat) -> (at: Seq<int>)
    requires
        n <= readings.len(),
    ensures
        at.len() == points_of(trace, readings, n).len(),
        forall|a: int, b: int| 0 <= a < b < at.len() ==> #[trigger] at[a] < #[trigger] at[b],
        forall|k: int|
            0 <= k < at.len() ==> {
                &&& 0 <= #[trigger] at[k] < n
                &&& !(readings[at[k]].validity is Undefined)
                &&& points_of(trace, readings, n)[k].time_seconds == readings[at[k]].time_seconds
                &&& trace.shows(readings[at[k]].value) == Some(points_of(trace, readings, n)[k].value)
            },
        forall|i: int|
            0 <= i < n && !((#[trigger] readings[i]).validity is Undefined) && trace.shows(
                readings[i].value,
            ) is Some ==> at.contains(i),
    decreases n,
{
    if n == 0 {
        Seq::empty()
    } else {
        let before = lemma_points(trace, readings, (n - 1) as nat);
        let last = readings[n - 1];
        if !(last.validity is Undefined) && trace.shows(last.value) is Some {
            let at = before.push(n - 1);
            assert forall|i: int|
                0 <= i < n && !((#[trigger] readings[i]).validity is Undefined) && trace.shows(
                    readings[i].value,
                ) is Some implies at.contains(i) by {
                if i < n - 1 {
                    let k = choose|k: int| 0 <= k < before.len() && before[k] == i;
                    assert(at[k] == i);
                } else {
                    assert(at[before.len() as int] == i);
                }
            }
            at
        } else {
            before
        }
    }
}

/// Every point of a line is a sample of the history: it stands at that sample's own time
/// and shows that sample's own value. The points keep the order of the samples, and every
/// defined sample that has what the line shows is a point, once.
pub proof fn every_point_is_a_sample(trace: ProbeTrace, readings: Seq<ProbeReading>) -> (at: Seq<int>)
    ensures
        at.len() == points_of(trace, readings, readings.len()).len(),
        forall|a: int, b: int| 0 <= a < b < at.len() ==> #[trigger] at[a] < #[trigger] at[b],
        forall|k: int|
            0 <= k < at.len() ==> {
                &&& 0 <= #[trigger] at[k] < readings.len()
                &&& !(readings[at[k]].validity is Undefined)
                &&& points_of(trace, readings, readings.len())[k].time_seconds
                    == readings[at[k]].time_seconds
                &&& trace.shows(readings[at[k]].value) == Some(
                    points_of(trace, readings, readings.len())[k].value,
                )
            },
        forall|i: int|
            0 <= i < readings.len() && !((#[trigger] readings[i]).validity is Undefined)
                && trace.shows(readings[i].value) is Some ==> at.contains(i),
{
    lemma_points(trace, readings, readings.len())
}

proof fn lemma_plotted(readings: Seq<ProbeReading>, n: nat, value: Number)
    requires
        n <= traces_of(readings).len(),
    ensures
        plotted_values(readings, n).contains(value) <==> exists|l: int, i: int|
            0 <= l < n && 0 <= i < readings.len() && !(readings[i].validity is Undefined)
                && #[trigger] traces_of(readings)[l].shows((#[trigger] readings[i]).value) == Some(value),
    decreases n,
{
    let lines = traces_of(readings);
    if n > 0 {
        lemma_plotted(readings, (n - 1) as nat, value);
        let before = plotted_values(readings, (n - 1) as nat);
        let trace = lines[n - 1];
        let points = points_of(trace, readings, readings.len());
        let own = values_of(points);
        let at = lemma_points(trace, readings, readings.len());
        let whole = plotted_values(readings, n);
        assert(whole =~= before + own);
        if whole.contains(value) {
            let k = choose|k: int| 0 <= k < whole.len() && whole[k] == value;
            if k < before.len() {
                assert(before[k] == value);
                let (l, i) = choose|l: int, i: int|
                    0 <= l < n - 1 && 0 <= i < readings.len() && !(readings[i].validity is Undefined)
                        && #[trigger] lines[l].shows((#[trigger] readings[i]).value) == Some(value);
                assert(lines[l].shows(readings[i].value) == Some(value));
            } else {
                let j = k - before.len();
                assert(points[j].value == value);
                let i = at[j];
                assert(lines[n - 1].shows(readings[i].value) == Some(value));
            }
        }
        if exists|l: int, i: int|
            0 <= l < n && 0 <= i < readings.len() && !(readings[i].validity is Undefined)
                && #[trigger] lines[l].shows((#[trigger] readings[i]).value) == Some(value) {
            let (l, i) = choose|l: int, i: int|
                0 <= l < n && 0 <= i < readings.len() && !(readings[i].validity is Undefined)
                    && #[trigger] lines[l].shows((#[trigger] readings[i]).value) == Some(value);
            if l < n - 1 {
                assert(before.contains(value));
                let k = choose|k: int| 0 <= k < before.len() && before[k] == value;
                assert(whole[k] == value);
            } else {
                assert(at.contains(i));
                let k = choose|k: int| 0 <= k < at.len() && at[k] == i;
                assert(own[k] == value);
                assert(whole[before.len() + k] == value);
            }
        }
    }
}

/// A value counts for the range of a plot exactly where some line of the plot shows it of
/// some defined sample.
pub proof fn a_plot_ranges_over_what_it_draws(readings: Seq<ProbeReading>, value: Number)
    ensures
        plotted_values(readings, traces_of(readings).len()).contains(value) <==> exists|l: int, i: int|
            0 <= l < traces_of(readings).len() && 0 <= i < readings.len()
                && !(readings[i].validity is Undefined) && #[trigger] traces_of(readings)[l].shows(
                (#[trigger] readings[i]).value,
            ) == Some(value),
{
    lemma_plotted(readings, traces_of(readings).len(), value);
}

/// A plot is closed exactly by closing its window or by its recorder leaving the scene.
pub proof fn a_plot_closes_for_one_of_two_reasons<T: Identified, V, const KIND: u8>(
    plots: Map<u64, V>,
    list: Seq<T>,
    closed: Seq<Id<KIND>>,
    key: u64,
)
    requires
        plots.contains_key(key),
    ensures
        !kept_open(plots, list, closed).contains_key(key) <==> (forall|i: int|
            0 <= i < list.len() ==> (#[trigger] list[i]).number() != key) || (exists|i: int|
            0 <= i < closed.len() && (#[trigger] closed[i]).number() == key),
        kept_open(plots, list, closed).dom().subset_of(plots.dom()),
{
    if crate::ids::lists(closed, key) {
        let i = choose|i: int| 0 <= i < closed.len() && (#[trigger] closed[i]).key() == key;
        assert(closed[i].number() == key);
    }
    if exists|i: int| 0 <= i < closed.len() && (#[trigger] closed[i]).number() == key {
        let i = choose|i: int| 0 <= i < closed.len() && (#[trigger] closed[i]).number() == key;
        assert(closed[i].key() == key);
    }
}

proof fn lemma_drawn(channels: Seq<ChannelId>, shown: Map<(Seq<char>, Seq<char>), ()>, n: nat)
    requires
        n <= channels.len() <= usize::MAX,
    ensures
        forall|k: int|
            0 <= k < drawn(channels, shown, n).len() ==> (#[trigger] drawn(channels, shown, n)[k]) < n,
        forall|a: int, b: int|
            0 <= a < b < drawn(channels, shown, n).len() ==> (#[trigger] drawn(channels, shown, n)[a])
                < (#[trigger] drawn(channels, shown, n)[b]),
        forall|i: int|
            0 <= i < n ==> (drawn(channels, shown, n).contains(i as usize) <==> shown.contains_key(
                (#[trigger] channels[i])@,
            )),
    decreases n,
{
    if n > 0 {
        lemma_drawn(channels, shown, (n - 1) as nat);
        let before = drawn(channels, shown, (n - 1) as nat);
        let whole = drawn(channels, shown, n);
        assert forall|i: int| 0 <= i < n implies (whole.contains(i as usize) <==> shown.contains_key(
            (#[trigger] channels[i])@,
        )) by {
            if i < n - 1 {
                if before.contains(i as usize) {
                    let k = choose|k: int| 0 <= k < before.len() && before[k] == i as usize;
                    assert(whole[k] == i as usize);
                }
                if whole.contains(i as usize) {
                    let k = choose|k: int| 0 <= k < whole.len() && whole[k] == i as usize;
                    assert(before[k] == i as usize);
                }
            } else {
                if whole.len() > before.len() {
                    assert(whole[before.len() as int] == i as usize);
                } else if whole.contains(i as usize) {
                    let k = choose|k: int| 0 <= k < whole.len() && whole[k] == i as usize;
                    assert(before[k] < n - 1);
                }
            }
        }
    }
}

/// A plot draws exactly the recorded channels that are ticked in it, in the order they are
/// recorded.
pub proof fn a_plot_draws_what_is_ticked(
    channels: Seq<ChannelId>,
    shown: Map<(Seq<char>, Seq<char>), ()>,
)
    requires
        channels.len() <= usize::MAX,
    ensures
        forall|a: int, b: int|
            0 <= a < b < drawn(channels, shown, channels.len()).len() ==> (#[trigger] drawn(
                channels,
                shown,
                channels.len(),
            )[a]) < (#[trigger] drawn(channels, shown, channels.len())[b]),
        forall|i: int|
            0 <= i < channels.len() ==> (drawn(channels, shown, channels.len()).contains(i as usize)
                <==> shown.contains_key((#[trigger] channels[i])@)),
{
    lemma_drawn(channels, shown, channels.len());
}

/// A history is drawn exactly where a series is chosen and a sample was recorded.
pub proof fn a_history_needs_a_series_and_a_sample(any_series: bool, samples: nat)
    ensures
        history_words(any_series, samples) is None <==> any_series && samples > 0,
        !any_series ==> history_words(any_series, samples) == Some("Select at least one series."@),
        any_series && samples == 0 ==> history_words(any_series, samples) == Some("No samples yet"@),
{
}

proof fn lemma_advancing(times: Seq<Number>, n: nat)
    requires
        n < times.len() <= usize::MAX,
    ensures
        forall|k: int|
            0 <= k < advancing(times, n).len() ==> (#[trigger] advancing(times, n)[k]) < n,
        forall|a: int, b: int|
            0 <= a < b < advancing(times, n).len() ==> (#[trigger] advancing(times, n)[a]) < (
            #[trigger] advancing(times, n)[b]),
        forall|i: int|
            0 <= i < n ==> (advancing(times, n).contains(i as usize) <==> (
            #[trigger] times[i]).value_less(times[i + 1])),
    decreases n,
{
    if n > 0 {
        lemma_advancing(times, (n - 1) as nat);
        let before = advancing(times, (n - 1) as nat);
        let whole = advancing(times, n);
        assert forall|i: int| 0 <= i < n implies (whole.contains(i as usize) <==> (
        #[trigger] times[i]).value_less(times[i + 1])) by {
            if i < n - 1 {
                if before.contains(i as usize) {
                    let k = choose|k: int| 0 <= k < before.len() && before[k] == i as usize;
                    assert(whole[k] == i as usize);
                }
                if whole.contains(i as usize) {
                    let k = choose|k: int| 0 <= k < whole.len() && whole[k] == i as usize;
                    assert(before[k] == i as usize);
                }
            } else {
                if whole.len() > before.len() {
                    assert(whole[before.len() as int] == i as usize);
                } else if whole.contains(i as usize) {
                    let k = choose|k: int| 0 <= k < whole.len() && whole[k] == i as usize;
                    assert(before[k] < n - 1);
                }
            }
        }
    }
}

/// A rate is told from a sample and the next exactly where the clock went on between them,
/// in the order of the samples.
pub proof fn a_rate_needs_time_to_pass(times: Seq<Number>)
    requires
        0 < times.len() <= usize::MAX,
    ensures
        ({
            let pairs = advancing(times, (times.len() - 1) as nat);
            &&& forall|a: int, b: int|
                0 <= a < b < pairs.len() ==> (#[trigger] pairs[a]) < (#[trigger] pairs[b])
            &&& forall|i: int|
                0 <= i < times.len() - 1 ==> (pairs.contains(i as usize) <==> (
                #[trigger] times[i]).value_less(times[i + 1]))
        }),
{
    lemma_advancing(times, (times.len() - 1) as nat);
}

} // verus!
