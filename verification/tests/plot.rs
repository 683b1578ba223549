use fieldcad_desktop::expression::UserConstantLibrary;
use fieldcad_desktop::ids::{ChannelId, DistanceProbeId, MassAggregateProbeId, ObjectId, PluginId, ProbeId};
use fieldcad_desktop::measured::{Number, Vec3, identity, origin, value_bounds};
use fieldcad_desktop::model::{DistanceProbeSeries, MassAggregateProbeSeries, ProbePlotWindow, UiModel};
use fieldcad_desktop::ordered::OrderedMap;
use fieldcad_desktop::plot::{FieldValue, ProbeReading, capacity_line, channel_plot_note, channel_title, crosses_zero, distance_history_note, drawn_channels, enough_samples, floating_distance_probe_plots, floating_mass_aggregate_probe_plots, floating_probe_plots, is_plot_valid, mass_aggregate_history_note, plot_bounds, plot_title, plot_values, rate_pairs, time_range, toggle_plot_channel, trace_points, traces};
use fieldcad_desktop::source::{SampleValidity, UndefinedReason};
use fieldcad_desktop::world::{ObjectShape, Probe, ProbePosition, Transform, Velocity, WorldObject, WorldSnapshot};

fn number(value: f64) -> Number {
    Number {
        bits: value.to_bits(),
    }
}

fn vec3(x: f64, y: f64, z: f64) -> Vec3 {
    Vec3 {
        x: number(x),
        y: number(y),
        z: number(z),
    }
}

fn plugin(text: &str) -> PluginId {
    PluginId {
        text: text.to_owned(),
    }
}

fn channel(plugin_name: &str, name: &str) -> ChannelId {
    ChannelId {
        plugin: plugin(plugin_name),
        name: name.to_owned(),
        written: format!("{plugin_name}/{name}"),
    }
}

fn scalar_channel() -> ChannelId {
    channel("test", "scalar")
}

fn world() -> WorldSnapshot {
    WorldSnapshot {
        objects: vec![WorldObject {
            id: ObjectId::new(0),
            name: "Test source".to_owned(),
            color: None,
            visible: true,
            derived: false,
            pinned: false,
            transform: Transform {
                translation: vec3(0.0, 0.0, 0.6),
                rotation: identity(),
            },
            velocity: Velocity {
                linear: origin(),
                angular: origin(),
            },
            shape: Some(ObjectShape::Box {
                half_extent: vec3(0.6, 0.6, 0.6),
            }),
            components: Vec::new(),
            catalog_link: None,
        }],
        planes: Vec::new(),
        boxes: Vec::new(),
        spheres: Vec::new(),
        probes: vec![Probe {
            id: ProbeId::new(0),
            name: "Origin probe".to_owned(),
            visible: true,
            position: ProbePosition::World(vec3(0.0, 0.0, 0.6)),
            channels: vec![scalar_channel()],
        }],
        distance_probes: Vec::new(),
        mass_aggregate_probes: Vec::new(),
        component_schemas: Vec::new(),
    }
}

fn scalar_reading(time: f64, value: f64) -> ProbeReading {
    ProbeReading {
        time_seconds: number(time),
        value: FieldValue::Scalar(number(value)),
        validity: SampleValidity::Exact,
    }
}

#[test]
fn probe_plot_bounds_include_negative_components() {
    let values: Vec<Number> = [-4.0, 2.0, 9.0, -1.0].iter().map(|v| number(*v)).collect();
    assert_eq!(value_bounds(&values), Some((number(-4.0), number(9.0))));
    assert_eq!(value_bounds(&vec![number(f64::NAN)]), None);
}

fn rates(readings: &[(f64, f64)]) -> Vec<f32> {
    let times: Vec<Number> = readings.iter().map(|reading| number(reading.0)).collect();
    rate_pairs(&times)
        .into_iter()
        .map(|i| {
            let (t0, d0) = readings[i];
            let (t1, d1) = readings[i + 1];
            ((d1 - d0) / (t1 - t0)) as f32
        })
        .collect()
}

#[test]
fn distance_rate_of_change_uses_the_actual_time_gap_between_samples() {
    assert_eq!(
        rates(&[(0.0, 1.0), (0.5, 2.0), (1.5, 2.0)]),
        vec![2.0, 0.0]
    );
}

#[test]
fn distance_rate_of_change_skips_a_non_positive_time_gap() {
    assert_eq!(rates(&[(1.0, 1.0), (1.0, 5.0), (2.0, 7.0)]), vec![2.0]);
}

#[test]
fn distance_rate_of_change_is_empty_for_a_single_reading() {
    assert!(rates(&[(0.0, 1.0)]).is_empty());
}

#[test]
fn a_vector_history_draws_components_and_magnitude() {
    let vector = ProbeReading {
        time_seconds: number(0.5),
        value: FieldValue::Vector {
            components: vec3(3.0, -4.0, 0.0),
            magnitude: number(5.0),
        },
        validity: SampleValidity::Exact,
    };
    let undefined = ProbeReading {
        time_seconds: number(1.0),
        validity: SampleValidity::Undefined(UndefinedReason::NotConverged),
        ..vector
    };
    let readings = vec![vector, undefined];
    let lines = traces(&readings);
    assert_eq!(
        lines.iter().map(|line| line.label()).collect::<Vec<_>>(),
        vec!["x", "y", "z", "|v|"]
    );
    assert_eq!(trace_points(lines[1], &readings).len(), 1);
    assert_eq!(trace_points(lines[1], &readings)[0].value, number(-4.0));
    assert_eq!(
        plot_bounds(&readings),
        Some((number(-4.0), number(5.0)))
    );
    assert_eq!(channel_plot_note(&readings), None);
    assert_eq!(
        channel_plot_note(&vec![undefined]),
        Some("Samples are currently undefined")
    );
    assert_eq!(channel_plot_note(&Vec::new()), Some("No samples yet"));
    assert_eq!(time_range(&readings), (number(0.5), number(1.0)));
}

#[test]
fn a_scalar_history_draws_one_line() {
    let readings = vec![scalar_reading(0.0, -2.0), scalar_reading(1.0, 4.0)];
    let lines = traces(&readings);
    assert_eq!(lines.len(), 1);
    assert_eq!(lines[0].label(), "value");
    assert_eq!(
        plot_values(&readings),
        vec![number(-2.0), number(4.0)]
    );
    assert!(crosses_zero(number(-2.0), number(4.0)));
    assert!(!crosses_zero(number(1.0), number(4.0)));
    assert!(is_plot_valid(SampleValidity::Interpolated));
}

#[test]
fn a_plot_closes_with_its_window_or_its_probe() {
    let snapshot = world();
    let mut model = UiModel::new(UserConstantLibrary::default());
    model.open_probe_plot(&snapshot.probes[0]);
    floating_probe_plots(&mut model, &snapshot, &Vec::new());
    assert!(model.probe_plots.contains_key(&ProbeId::new(0)));

    floating_probe_plots(&mut model, &snapshot, &vec![ProbeId::new(0)]);
    assert!(model.probe_plots.is_empty());

    model.open_probe_plot(&snapshot.probes[0]);
    let mut emptied = world();
    emptied.probes.clear();
    floating_probe_plots(&mut model, &emptied, &Vec::new());
    assert!(model.probe_plots.is_empty());

    model.open_distance_probe_plot(DistanceProbeId::new(2));
    model.open_mass_aggregate_probe_plot(MassAggregateProbeId::new(3));
    floating_distance_probe_plots(&mut model, &snapshot, &Vec::new());
    floating_mass_aggregate_probe_plots(&mut model, &snapshot, &Vec::new());
    assert!(model.distance_probe_plots.is_empty());
    assert!(model.mass_aggregate_probe_plots.is_empty());
}

#[test]
fn a_plot_shows_the_channels_that_are_ticked() {
    let snapshot = world();
    let probe = &snapshot.probes[0];
    let mut plot = ProbePlotWindow {
        channels: OrderedMap::new(),
    };
    assert!(drawn_channels(probe, &plot).is_empty());
    toggle_plot_channel(&mut plot, &scalar_channel(), true);
    assert_eq!(drawn_channels(probe, &plot), vec![0]);
    toggle_plot_channel(&mut plot, &scalar_channel(), false);
    assert!(drawn_channels(probe, &plot).is_empty());
}

#[test]
fn a_history_says_why_it_is_not_drawn() {
    let none = DistanceProbeSeries {
        distance: false,
        rate_of_change: false,
    };
    let one = DistanceProbeSeries {
        distance: false,
        rate_of_change: true,
    };
    assert_eq!(
        distance_history_note(none, 5),
        Some("Select at least one series.")
    );
    assert_eq!(distance_history_note(one, 0), Some("No samples yet"));
    assert_eq!(distance_history_note(one, 1), None);
    let momentum = MassAggregateProbeSeries {
        center_of_mass: false,
        velocity: false,
        momentum: true,
        angular_momentum: false,
        kinetic_energy: false,
    };
    assert_eq!(mass_aggregate_history_note(momentum, 4), None);
    assert!(enough_samples(2));
    assert!(!enough_samples(1));
    assert_eq!(capacity_line(600, true), "Bounded to 600 samples per channel");
    assert_eq!(capacity_line(600, false), "Bounded to 600 samples");
    assert_eq!(channel_title("E", Some("V/m")), "E [V/m]");
    assert_eq!(channel_title("E", None), "E");
    assert_eq!(plot_title("Probe plot", "P1"), "Probe plot · P1");
}
