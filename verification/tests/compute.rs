use fieldcad_desktop::compute::{ComputeView, SourceReport, WorkbenchState};
use fieldcad_desktop::expression::{ExpressionDocument, ExpressionState};
use fieldcad_desktop::fields::FieldRow;
use fieldcad_desktop::ids::{
    ChannelId, CommandId, ObjectId, PluginId, ProbeId, PropertyId, SchemeId,
};
use fieldcad_desktop::measured::{identity, origin, time_unit, Number, Vec3};
use fieldcad_desktop::ordered::OrderedMap;
use fieldcad_desktop::source::{
    format_boundaries, queue_matches_summary, validity_note, BoundaryCondition,
    BoundaryConditions, ChannelSchema, CommandLifecycle, CommandRecord, DataSourceStatus,
    DiagnosticSeverity, Domain, EditHistoryStatus, FieldSnapshot, FieldSystemStatus,
    FieldValueKind, PluginDescriptor, Precision, ProbeSample, QueueStatus, QueueSummary,
    SampleValidity, SimulationMode, SnapshotChannel, SnapshotFreshness, SolverDiagnostic,
    Subscription, UVec3, UndefinedReason,
};
use fieldcad_desktop::text::playback_speed_number;
use fieldcad_desktop::world::{
    Dimension, ObjectShape, Probe, ProbePosition, PropertyValue, Transform, Velocity, WorldObject,
    WorldSnapshot,
};

fn number(value: f64) -> Number {
    Number {
        bits: value.to_bits(),
    }
}

fn vec3(x: f64, y: f64, z: f64) -> Vec3 {
    Vec3 {
        x: number(x),
        y: number(y),
        z: number(z),
    }
}

fn plugin(text: &str) -> PluginId {
    PluginId {
        text: text.to_owned(),
    }
}

fn channel(plugin_name: &str, name: &str) -> ChannelId {
    ChannelId {
        plugin: plugin(plugin_name),
        name: name.to_owned(),
        written: format!("{plugin_name}/{name}"),
    }
}

fn scalar_channel() -> ChannelId {
    channel("test", "scalar")
}

fn vector_channel() -> ChannelId {
    channel("test", "vector")
}

fn length() -> Dimension {
    Dimension {
        written: "m".to_owned(),
        unit_symbol: "m".to_owned(),
    }
}

fn scalar_schema() -> ChannelSchema {
    ChannelSchema {
        id: scalar_channel(),
        display_name: "Linear scalar".to_owned(),
        value_kind: FieldValueKind::Scalar(length()),
    }
}

fn vector_schema() -> ChannelSchema {
    ChannelSchema {
        id: vector_channel(),
        display_name: "Linear vector".to_owned(),
        value_kind: FieldValueKind::Vector(length()),
    }
}

fn system(id: &str, enabled: bool, channels: Vec<ChannelSchema>) -> FieldSystemStatus {
    FieldSystemStatus {
        plugin: PluginDescriptor {
            id: plugin(id),
            display_name: format!("{id} field"),
            description: "A field".to_owned(),
            version: "1".to_owned(),
        },
        enabled,
        realtime: true,
        channels,
        mutable_vector_channels: Vec::new(),
        component_schemas: Vec::new(),
        configuration: OrderedMap::new(),
        configuration_schema: Vec::new(),
    }
}

fn domain() -> Domain {
    Domain {
        min: vec3(-4.0, -4.0, -4.0),
        max: vec3(4.0, 4.0, 4.0),
        cells: UVec3 { x: 8, y: 8, z: 8 },
        cell_count: 512,
        boundaries: BoundaryConditions::uniform(BoundaryCondition::Open),
        precision: Precision::F64,
    }
}

fn snapshot(sequence: u64) -> FieldSnapshot {
    FieldSnapshot {
        sequence,
        domain: domain(),
        channels: vec![
            SnapshotChannel {
                schema: scalar_schema(),
                provider: plugin("test"),
                batch_lengths: vec![1],
                probe_samples: vec![ProbeSample {
                    probe: ProbeId::new(0),
                    value: "1.800000 m".to_owned(),
                    validity: SampleValidity::Exact,
                }],
            },
            SnapshotChannel {
                schema: vector_schema(),
                provider: plugin("test"),
                batch_lengths: vec![512, 64],
                probe_samples: Vec::new(),
            },
        ],
        diagnostics: vec![
            SolverDiagnostic {
                plugin: plugin("test"),
                severity: DiagnosticSeverity::Warning,
                message: "coarse lattice".to_owned(),
            },
            SolverDiagnostic {
                plugin: plugin("gone"),
                severity: DiagnosticSeverity::Error,
                message: "not composed".to_owned(),
            },
        ],
    }
}

fn world() -> WorldSnapshot {
    WorldSnapshot {
        objects: vec![WorldObject {
            id: ObjectId::new(0),
            name: "Test source".to_owned(),
            color: None,
            visible: true,
            derived: false,
            pinned: false,
            transform: Transform {
                translation: vec3(0.0, 0.0, 0.6),
                rotation: identity(),
            },
            velocity: Velocity {
                linear: origin(),
                angular: origin(),
            },
            shape: Some(ObjectShape::Box {
                half_extent: vec3(0.6, 0.6, 0.6),
            }),
            components: Vec::new(),
            catalog_link: None,
        }],
        planes: Vec::new(),
        boxes: Vec::new(),
        spheres: Vec::new(),
        probes: vec![Probe {
            id: ProbeId::new(0),
            name: "Origin probe".to_owned(),
            visible: true,
            position: ProbePosition::World(vec3(0.0, 0.0, 0.6)),
            channels: vec![scalar_channel()],
        }],
        distance_probes: Vec::new(),
        mass_aggregate_probes: Vec::new(),
        component_schemas: Vec::new(),
    }
}

fn report(
    sequence: u64,
    systems: Vec<FieldSystemStatus>,
    queue: QueueStatus,
    summary: QueueSummary,
) -> SourceReport {
    SourceReport {
        description: "Local".to_owned(),
        status: DataSourceStatus::Ready,
        domain: domain(),
        scene_scale: number(1.0),
        mode: SimulationMode::Paused,
        tick: 3,
        time_seconds: number(0.3),
        time_step_seconds: number(0.1),
        playback_speed: number(1.0),
        pending_commands: 0,
        queue_summary: summary,
        queue,
        world_revision: 7,
        snapshot: Some(snapshot(sequence)),
        freshness: Some(SnapshotFreshness::Current),
        field_systems: systems,
        edit_history: EditHistoryStatus {
            undo: None,
            redo: None,
        },
        subscription: Subscription {
            planes: None,
            domain_stride: None,
            boxes: None,
            spheres: None,
        },
        integration_scheme: SchemeId::new(0),
        expressions: ExpressionDocument {
            constants: Vec::new(),
            bindings: Vec::new(),
        },
        expression_state: ExpressionState {
            graph_hash: "hash".to_owned(),
            nodes: Vec::new(),
        },
        resolved_constants: OrderedMap::new(),
        global_variables: Vec::new(),
        body_forces: OrderedMap::new(),
        mass_aggregates: OrderedMap::new(),
        step_compute_ms: number(0.0),
    }
}

fn empty_queue() -> QueueStatus {
    QueueStatus {
        paused: false,
        pending: Vec::new(),
        history: Vec::new(),
    }
}

fn empty_summary() -> QueueSummary {
    QueueSummary {
        paused: false,
        pending_len: 0,
        history_len: 0,
        newest_history: None,
    }
}

fn configured(mut system: FieldSystemStatus) -> FieldSystemStatus {
    system.configuration.insert(
        PropertyId {
            text: "strength".to_owned(),
        },
        PropertyValue::Scalar(number(1.0)),
    );
    system
}

fn systems(enabled: bool) -> Vec<FieldSystemStatus> {
    vec![configured(system(
        "test",
        enabled,
        vec![scalar_schema(), vector_schema()],
    ))]
}

fn view() -> ComputeView {
    ComputeView::build(
        report(1, systems(true), empty_queue(), empty_summary()),
        &world(),
        None,
    )
}

fn record(id: u64, kind: &str) -> CommandRecord {
    CommandRecord {
        command: CommandId::new(id),
        kind: kind.to_owned(),
        state: CommandLifecycle::Applied,
        error: None,
    }
}

#[test]
fn the_compute_view_reports_provenance_from_the_source() {
    let view = view();

    assert_eq!(view.mode, SimulationMode::Paused);
    assert_eq!(view.freshness, Some(SnapshotFreshness::Current));
    assert!(view.domain_summary.contains("512"));
    assert!(view.domain_summary.contains("f64"));
    assert!(view.domain_summary.contains("open boundaries"));
    assert_eq!(view.probe_readings.len(), 1);
    assert_eq!(view.probe_readings[0].probe_name, "Origin probe");
}

#[test]
fn the_view_counts_and_filters_what_active_systems_published() {
    let view = view();

    assert_eq!(view.domain_summary, "8×8×8 = 512 cells, f64, open boundaries");
    assert_eq!(view.total_samples, 1 + 512 + 64);
    assert_eq!(view.vector_channels, vec![vector_channel()]);
    assert_eq!(view.diagnostics, vec!["[Warning] coarse lattice".to_owned()]);
    assert!(!view.has_errors);
    assert_eq!(view.probe_readings[0].channel_name, "Linear scalar");
    assert_eq!(view.probe_readings[0].value, "1.800000 m");
    assert_eq!(view.channel_label(&vector_channel()), "Linear vector");
    assert_eq!(view.channel_label(&channel("x", "y")), "x/y");
}

#[test]
fn boundary_summary_reports_uniform_and_mixed_domains() {
    assert_eq!(
        format_boundaries(BoundaryConditions::uniform(BoundaryCondition::Periodic)),
        "periodic boundaries"
    );
    assert_eq!(
        format_boundaries(BoundaryConditions {
            x: BoundaryCondition::Periodic,
            y: BoundaryCondition::Absorbing,
            z: BoundaryCondition::Open,
        }),
        "x periodic, y absorbing, z open boundaries"
    );
}

#[test]
fn undefined_samples_are_labelled_rather_than_printed_as_numbers() {
    assert_eq!(validity_note(SampleValidity::Exact), None);
    assert_eq!(
        validity_note(SampleValidity::Undefined(
            UndefinedReason::InsideSourceRadius
        )),
        Some("undefined — inside source radius")
    );
}

#[test]
fn a_disconnected_source_cannot_be_commanded_from_the_ui() {
    let mut view = view();
    assert!(view.accepts_commands());

    view.status = DataSourceStatus::Disconnected;

    assert!(!view.accepts_commands());
    assert_eq!(view.status.label(), "Disconnected");
}

#[test]
fn the_electric_field_appears_once_with_the_models_that_can_compute_it() {
    let electric = || ChannelSchema {
        id: channel("em-fields", "electric"),
        display_name: "Electric field E".to_owned(),
        value_kind: FieldValueKind::Vector(length()),
    };
    let magnetic = || ChannelSchema {
        id: channel("em-fields", "magnetic"),
        display_name: "Magnetic field B".to_owned(),
        value_kind: FieldValueKind::Vector(length()),
    };
    let divergence = || ChannelSchema {
        id: channel("electromagnetism", "divergence"),
        display_name: "Magnetic divergence".to_owned(),
        value_kind: FieldValueKind::Scalar(length()),
    };
    let systems = vec![
        system("electrostatics", true, vec![electric()]),
        system(
            "electromagnetism",
            false,
            vec![electric(), magnetic(), divergence()],
        ),
    ];
    let fields = FieldRow::collect(&systems);

    let found: Vec<&FieldRow> = fields
        .iter()
        .filter(|field| field.channel == electric().id)
        .collect();
    assert_eq!(found.len(), 1, "one field, not one per plugin");
    let found = found[0];
    assert_eq!(found.display_name, "Electric field E");
    assert!(
        found.has_alternatives(),
        "both composed systems must be offered as models of it"
    );
    assert_eq!(found.provider, Some(plugin("electrostatics")));

    let magnetic_row = fields
        .iter()
        .find(|field| field.channel == magnetic().id)
        .expect("a composed system declares a magnetic field");
    assert_eq!(magnetic_row.provider, None);
    assert!(!magnetic_row.has_alternatives());

    let mut seen: Vec<&str> = fields
        .iter()
        .map(|field| field.channel.written.as_str())
        .collect();
    let total = seen.len();
    seen.sort();
    seen.dedup();
    assert_eq!(seen.len(), total);

    assert!(
        !fields.iter().any(|field| field.channel == divergence().id),
        "method diagnostics must not be listed as fields of the scene"
    );
    assert!(systems
        .iter()
        .any(|system| system.channels.iter().any(|c| c.id == divergence().id)));
    assert_eq!(found.kind_label(), "vector · m");
}

#[test]
fn inactive_systems_and_their_available_fields_remain_visible_to_the_ui() {
    let view = ComputeView::build(
        report(2, systems(false), empty_queue(), empty_summary()),
        &world(),
        None,
    );

    assert_eq!(view.field_systems.len(), 1);
    assert!(!view.field_systems[0].enabled);
    assert_eq!(view.field_systems[0].configuration.len(), 1);
    assert!(view.channel_names.contains_key(&scalar_channel()));
    assert!(view.channel_names.contains_key(&vector_channel()));
    assert!(view.vector_channels.is_empty());
    assert!(view.probe_readings.is_empty());
    assert_eq!(view.total_samples, 0);
    assert!(view.diagnostics.is_empty());
}

#[test]
fn toggling_realtime_outside_a_gesture_is_visible_on_the_next_frame() {
    let before = view();
    assert!(
        before.field_systems[0].realtime,
        "test assumes realtime starts on"
    );
    let sequence = before.snapshot_sequence;

    let mut toggled = systems(true);
    toggled[0].realtime = false;
    let after = ComputeView::build(
        report(2, toggled, empty_queue(), empty_summary()),
        &world(),
        Some(before),
    );

    assert_ne!(after.snapshot_sequence, sequence);
    assert!(!after.field_systems[0].realtime);
}

#[test]
fn workbench_state_distinguishes_paused_solving_stale_and_invalid() {
    let mut view = view();
    assert_eq!(view.workbench_state(), WorkbenchState::Paused);

    view.freshness = Some(SnapshotFreshness::Stale);
    assert_eq!(view.workbench_state(), WorkbenchState::Solving);

    view.has_errors = true;
    assert_eq!(view.workbench_state(), WorkbenchState::Invalid);

    view.has_errors = false;
    view.status = DataSourceStatus::Disconnected;
    assert_eq!(view.workbench_state(), WorkbenchState::Disconnected);
}

#[test]
fn every_workbench_state_has_a_cause() {
    let mut view = view();
    view.mode = SimulationMode::Running;
    assert_eq!(view.workbench_state(), WorkbenchState::Running);
    assert_eq!(view.workbench_state().label(), "Running");
    view.pending_commands = 1;
    assert_eq!(view.workbench_state(), WorkbenchState::Solving);
    view.status = DataSourceStatus::Connecting;
    assert_eq!(view.workbench_state(), WorkbenchState::Connecting);
    view.freshness = Some(SnapshotFreshness::Future);
    assert_eq!(view.workbench_state(), WorkbenchState::Invalid);
    view.freshness = None;
    view.status = DataSourceStatus::Failed("lost".to_owned());
    assert_eq!(view.workbench_state(), WorkbenchState::Invalid);
}

fn written_time_step(seconds: f64) -> String {
    let unit = time_unit(number(seconds));
    format!(
        "{} {}",
        seconds / f64::from_bits(unit.seconds().bits),
        unit.suffix()
    )
}

#[test]
fn time_step_control_formats_values_at_a_readable_si_scale() {
    assert_eq!(written_time_step(432.0), "432 s");
    assert_eq!(written_time_step(1.23e-9), "1.23 ns");
    assert_eq!(written_time_step(4.43e-3), "4.43 ms");
    assert_eq!(written_time_step(7.3213e-7), "732.13 ns");
}

#[test]
fn playback_speed_control_accepts_plain_and_multiplier_notation() {
    let parse = |text: &str| playback_speed_number(text).parse::<f64>().ok();
    assert_eq!(parse("2"), Some(2.0));
    assert_eq!(parse("0.25×"), Some(0.25));
    assert_eq!(parse("1e2x"), Some(100.0));
    assert_eq!(parse("fast"), None);
}

#[test]
fn queue_matches_summary_agrees_only_when_shape_and_newest_entry_match() {
    let cached = QueueStatus {
        paused: false,
        pending: vec![record(1, "Play")],
        history: vec![record(0, "Pause")],
    };
    let matching = QueueSummary {
        paused: false,
        pending_len: 1,
        history_len: 1,
        newest_history: Some(CommandId::new(0)),
    };
    assert!(queue_matches_summary(&cached, matching));

    assert!(!queue_matches_summary(
        &cached,
        QueueSummary {
            paused: true,
            ..matching
        }
    ));
    assert!(!queue_matches_summary(
        &cached,
        QueueSummary {
            pending_len: 2,
            ..matching
        }
    ));
    assert!(!queue_matches_summary(
        &cached,
        QueueSummary {
            history_len: 0,
            ..matching
        }
    ));
    assert!(!queue_matches_summary(
        &cached,
        QueueSummary {
            newest_history: Some(CommandId::new(7)),
            ..matching
        }
    ));
}

#[test]
fn build_reuses_snapshot_derived_fields_until_the_snapshot_changes() {
    let baseline = view();

    let mut poisoned = view();
    poisoned.domain_summary = "POISONED".to_owned();
    let reused = ComputeView::build(
        report(1, systems(true), empty_queue(), empty_summary()),
        &world(),
        Some(poisoned),
    );
    assert_eq!(reused.domain_summary, "POISONED");

    let rebuilt = ComputeView::build(
        report(2, systems(false), empty_queue(), empty_summary()),
        &world(),
        Some(reused),
    );
    assert_eq!(rebuilt.domain_summary, baseline.domain_summary);

    let fresh = ComputeView::build(
        report(2, systems(false), empty_queue(), empty_summary()),
        &world(),
        None,
    );
    assert_eq!(rebuilt.snapshot_sequence, Some(2));
    assert_eq!(rebuilt.total_samples, fresh.total_samples);
    assert_eq!(rebuilt.probe_readings, fresh.probe_readings);
    assert_eq!(rebuilt.vector_channels, fresh.vector_channels);
    assert_eq!(rebuilt.diagnostics, fresh.diagnostics);
    assert_eq!(rebuilt.fields, fresh.fields);
}

#[test]
fn build_reuses_the_queue_until_it_changes_shape() {
    let queue = || QueueStatus {
        paused: false,
        pending: Vec::new(),
        history: vec![record(2, "Commit world")],
    };
    let summary = QueueSummary {
        paused: false,
        pending_len: 0,
        history_len: 1,
        newest_history: Some(CommandId::new(2)),
    };
    let mut poisoned = ComputeView::build(
        report(1, systems(true), queue(), summary),
        &world(),
        None,
    );
    assert_eq!(poisoned.queue.history.last().unwrap().kind, "Commit world");
    poisoned.queue.history.last_mut().unwrap().kind = "Pause".to_owned();

    let reused = ComputeView::build(
        report(1, systems(true), queue(), summary),
        &world(),
        Some(poisoned),
    );
    assert_eq!(reused.queue.history.last().unwrap().kind, "Pause");

    let paused = QueueSummary {
        paused: true,
        ..summary
    };
    let mut held = queue();
    held.paused = true;
    let rebuilt = ComputeView::build(
        report(1, systems(true), held, paused),
        &world(),
        Some(reused),
    );
    assert_ne!(rebuilt.queue.history.last().unwrap().kind, "Pause");
}

#[test]
fn a_time_unit_covers_its_own_decade_and_nothing_below() {
    assert_eq!(time_unit(number(1.0)).suffix(), "s");
    assert_eq!(time_unit(number(0.999)).suffix(), "ms");
    assert_eq!(time_unit(number(1.0e-3)).suffix(), "ms");
    assert_eq!(time_unit(number(1.0e-6)).suffix(), "µs");
    assert_eq!(time_unit(number(1.0e-12)).suffix(), "ps");
    assert_eq!(time_unit(number(1.0e-20)).suffix(), "fs");
    assert_eq!(time_unit(number(f64::NAN)).suffix(), "fs");
    assert_eq!(time_unit(number(-5.0)).suffix(), "fs");
}
