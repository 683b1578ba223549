use fieldcad_desktop::command::{AppAction, CameraAction, CommandPayload, UiFrameOutput};
use fieldcad_desktop::compute::{ComputeView, SourceReport};
use fieldcad_desktop::editors::{EditorResponse, LiteralStep, LiteralValue, NameInput, ScaledExpression, literal_document, literal_request, literal_step, literal_value, name_draft, name_editor, note_held_edit, scale_requests, split_trailing_unit};
use fieldcad_desktop::expression::{ExpressionDocument, ExpressionState, UserConstantLibrary};
use fieldcad_desktop::field_layers::{plane_settings, set_layer, set_plane_settings};
use fieldcad_desktop::fields::FieldRow;
use fieldcad_desktop::ids::{ChannelId, ComponentTypeId, DistanceProbeId, MassAggregateProbeId, ObjectId, PlaneId, PluginId, ProbeId, PropertyId, SchemeId};
use fieldcad_desktop::layers::{ChannelLayerSettings, FieldLayerSettings};
use fieldcad_desktop::measured::{Notation, Number, Vec2, Vec3, engineering_notation, identity, one, origin};
use fieldcad_desktop::model::{DomainDraft, UiModel, domain_verdict};
use fieldcad_desktop::object_inspector::{ComponentHeading, ComponentInput, ComponentOffer, ObjectInput, PropertyInput, component_heading, component_offer, follow_label, format_vector, formula_dimension, inertial_mass_kg, is_declared, is_tracking, missing_components, motion_summary, object_components, object_properties, property_editor, scalar};
use fieldcad_desktop::ordered::{OrderedMap, OrderedSet};
use fieldcad_desktop::probe_inspector::{ChannelToggle, DistanceInput, MassInput, MemberToggle, ProbeInput, attached_line, attached_to, attachment_candidates, attachment_label, distance_line, distance_probe_candidates, distance_probe_properties, export_distance, mass_aggregate_probe_properties, object_name, probe_channel_picker, probe_properties, recorded_channels};
use fieldcad_desktop::scene_tree::{Instrument, distance_pair, measurement_command, new_object_command, objects_title};
use fieldcad_desktop::shape_inspector::{PlaneInput, PlanePreset, hidden_everywhere_warning, plane_preset, plane_properties, plane_spec, x_axis, z_axis};
use fieldcad_desktop::source::{BoundaryCondition, BoundaryConditions, ChannelSchema, DataSourceStatus, DiagnosticSeverity, Domain, EditHistoryStatus, FieldSnapshot, FieldSystemStatus, FieldValueKind, PluginDescriptor, Precision, ProbeSample, QueueStatus, QueueSummary, SampleValidity, SimulationMode, SnapshotChannel, SnapshotFreshness, SolverDiagnostic, Subscription, UVec2, UVec3};
use fieldcad_desktop::transport::{HistoryStep, history_controls, history_hover};
use fieldcad_desktop::world::{CatalogLink, CatalogLinkMode, Component, ComponentSchema, Dimension, DistanceProbe, MassAggregateProbe, MassSelection, ObjectShape, Probe, ProbePosition, PropertyKind, PropertySchema, PropertyValue, SlicePlane, Transform, Velocity, WorldCommand, WorldObject, WorldSnapshot};
use fieldcad_desktop::world_inspector::{SamplingInput, apply_configuration, apply_domain, can_apply_configuration, can_apply_domain, can_switch, choose_model, configuration_draft_for, domain_draft_for, domains_agree, realtime_control, same_configuration, switch_system, transport_sampling};

fn number(value: f64) -> Number {
    Number {
        bits: value.to_bits(),
    }
}

fn vec3(x: f64, y: f64, z: f64) -> Vec3 {
    Vec3 {
        x: number(x),
        y: number(y),
        z: number(z),
    }
}

fn plugin(text: &str) -> PluginId {
    PluginId {
        text: text.to_owned(),
    }
}

fn channel(plugin_name: &str, name: &str) -> ChannelId {
    ChannelId {
        plugin: plugin(plugin_name),
        name: name.to_owned(),
        written: format!("{plugin_name}/{name}"),
    }
}

fn scalar_channel() -> ChannelId {
    channel("test", "scalar")
}

fn vector_channel() -> ChannelId {
    channel("test", "vector")
}

fn length() -> Dimension {
    Dimension {
        written: "m".to_owned(),
        unit_symbol: "m".to_owned(),
    }
}

fn scalar_schema() -> ChannelSchema {
    ChannelSchema {
        id: scalar_channel(),
        display_name: "Linear scalar".to_owned(),
        value_kind: FieldValueKind::Scalar(length()),
    }
}

fn vector_schema() -> ChannelSchema {
    ChannelSchema {
        id: vector_channel(),
        display_name: "Linear vector".to_owned(),
        value_kind: FieldValueKind::Vector(length()),
    }
}

fn system(id: &str, enabled: bool, channels: Vec<ChannelSchema>) -> FieldSystemStatus {
    FieldSystemStatus {
        plugin: PluginDescriptor {
            id: plugin(id),
            display_name: format!("{id} field"),
            description: "A field".to_owned(),
            version: "1".to_owned(),
        },
        enabled,
        realtime: true,
        channels,
        mutable_vector_channels: Vec::new(),
        component_schemas: Vec::new(),
        configuration: OrderedMap::new(),
        configuration_schema: Vec::new(),
    }
}

fn domain() -> Domain {
    Domain {
        min: vec3(-4.0, -4.0, -4.0),
        max: vec3(4.0, 4.0, 4.0),
        cells: UVec3 { x: 8, y: 8, z: 8 },
        cell_count: 512,
        boundaries: BoundaryConditions::uniform(BoundaryCondition::Open),
        precision: Precision::F64,
    }
}

fn snapshot(sequence: u64) -> FieldSnapshot {
    FieldSnapshot {
        sequence,
        domain: domain(),
        channels: vec![
            SnapshotChannel {
                schema: scalar_schema(),
                provider: plugin("test"),
                batch_lengths: vec![1],
                probe_samples: vec![ProbeSample {
                    probe: ProbeId::new(0),
                    value: "1.800000 m".to_owned(),
                    validity: SampleValidity::Exact,
                }],
            },
            SnapshotChannel {
                schema: vector_schema(),
                provider: plugin("test"),
                batch_lengths: vec![512, 64],
                probe_samples: Vec::new(),
            },
        ],
        diagnostics: vec![
            SolverDiagnostic {
                plugin: plugin("test"),
                severity: DiagnosticSeverity::Warning,
                message: "coarse lattice".to_owned(),
            },
            SolverDiagnostic {
                plugin: plugin("gone"),
                severity: DiagnosticSeverity::Error,
                message: "not composed".to_owned(),
            },
        ],
    }
}

fn world() -> WorldSnapshot {
    WorldSnapshot {
        objects: vec![WorldObject {
            id: ObjectId::new(0),
            name: "Test source".to_owned(),
            color: None,
            visible: true,
            derived: false,
            pinned: false,
            transform: Transform {
                translation: vec3(0.0, 0.0, 0.6),
                rotation: identity(),
            },
            velocity: Velocity {
                linear: origin(),
                angular: origin(),
            },
            shape: Some(ObjectShape::Box {
                half_extent: vec3(0.6, 0.6, 0.6),
            }),
            components: Vec::new(),
            catalog_link: None,
        }],
        planes: Vec::new(),
        boxes: Vec::new(),
        spheres: Vec::new(),
        probes: vec![Probe {
            id: ProbeId::new(0),
            name: "Origin probe".to_owned(),
            visible: true,
            position: ProbePosition::World(vec3(0.0, 0.0, 0.6)),
            channels: vec![scalar_channel()],
        }],
        distance_probes: Vec::new(),
        mass_aggregate_probes: Vec::new(),
        component_schemas: Vec::new(),
    }
}

fn report(
    sequence: u64,
    systems: Vec<FieldSystemStatus>,
    queue: QueueStatus,
    summary: QueueSummary,
) -> SourceReport {
    SourceReport {
        description: "Local".to_owned(),
        status: DataSourceStatus::Ready,
        domain: domain(),
        scene_scale: number(1.0),
        mode: SimulationMode::Paused,
        tick: 3,
        time_seconds: number(0.3),
        time_step_seconds: number(0.1),
        playback_speed: number(1.0),
        pending_commands: 0,
        queue_summary: summary,
        queue,
        world_revision: 7,
        snapshot: Some(snapshot(sequence)),
        freshness: Some(SnapshotFreshness::Current),
        field_systems: systems,
        edit_history: EditHistoryStatus {
            undo: None,
            redo: None,
        },
        subscription: Subscription {
            planes: None,
            domain_stride: None,
            boxes: None,
            spheres: None,
        },
        integration_scheme: SchemeId::new(0),
        expressions: ExpressionDocument {
            constants: Vec::new(),
            bindings: Vec::new(),
        },
        expression_state: ExpressionState {
            graph_hash: "hash".to_owned(),
            nodes: Vec::new(),
        },
        resolved_constants: OrderedMap::new(),
        global_variables: Vec::new(),
        body_forces: OrderedMap::new(),
        mass_aggregates: OrderedMap::new(),
        step_compute_ms: number(0.0),
    }
}

fn empty_queue() -> QueueStatus {
    QueueStatus {
        paused: false,
        pending: Vec::new(),
        history: Vec::new(),
    }
}

fn empty_summary() -> QueueSummary {
    QueueSummary {
        paused: false,
        pending_len: 0,
        history_len: 0,
        newest_history: None,
    }
}

fn systems(enabled: bool) -> Vec<FieldSystemStatus> {
    vec![system(
        "test",
        enabled,
        vec![scalar_schema(), vector_schema()],
    )]
}

fn view() -> ComputeView {
    ComputeView::build(
        report(1, systems(true), empty_queue(), empty_summary()),
        &world(),
        None,
    )
}

fn component_id(name: &str) -> ComponentTypeId {
    ComponentTypeId {
        plugin: plugin("sources"),
        name: name.to_owned(),
        written: format!("sources/{name}"),
    }
}

fn property_id(text: &str) -> PropertyId {
    PropertyId {
        text: text.to_owned(),
    }
}

fn inertia() -> ComponentTypeId {
    component_id("inertial-mass")
}

fn mass() -> PropertyId {
    property_id("mass")
}

fn object(id: u64, name: &str) -> WorldObject {
    WorldObject {
        id: ObjectId::new(id),
        name: name.to_owned(),
        color: None,
        visible: true,
        derived: false,
        pinned: false,
        transform: Transform {
            translation: origin(),
            rotation: identity(),
        },
        velocity: Velocity {
            linear: origin(),
            angular: origin(),
        },
        shape: None,
        components: Vec::new(),
        catalog_link: None,
    }
}

fn empty_world() -> WorldSnapshot {
    WorldSnapshot {
        objects: Vec::new(),
        planes: Vec::new(),
        boxes: Vec::new(),
        spheres: Vec::new(),
        probes: Vec::new(),
        distance_probes: Vec::new(),
        mass_aggregate_probes: Vec::new(),
        component_schemas: Vec::new(),
    }
}

fn world_of(names: &[&str]) -> WorldSnapshot {
    let mut world = empty_world();
    for (i, name) in names.iter().enumerate() {
        world.objects.push(object(i as u64, name));
    }
    world
}

fn xy_plane(attached_to: Option<ObjectId>) -> SlicePlane {
    SlicePlane {
        id: PlaneId::new(0),
        name: "XY field".to_owned(),
        visible: true,
        origin: origin(),
        normal: z_axis(),
        u_axis: x_axis(),
        half_extent: Vec2 {
            x: one(),
            y: one(),
        },
        attached_to,
    }
}

fn massive(kg: f64) -> WorldObject {
    let mut properties = OrderedMap::new();
    properties.insert(mass(), PropertyValue::Scalar(number(kg)));
    WorldObject {
        components: vec![Component {
            id: inertia(),
            properties,
        }],
        ..object(0, "gizmo")
    }
}

fn idle_name_editor() {
    let outcome = name_editor(
        name_draft(None, "old name"),
        "old name",
        NameInput {
            cancel: false,
            accept: false,
            focused: false,
        },
    );
    assert_eq!(outcome.accepted, None);
    assert!(
        outcome.kept.is_none(),
        "an untouched editor must follow a later authoritative world refresh"
    );
}

#[test]
fn panels_an_idle_name_editor_does_not_cache_the_authoritative_name() {
    idle_name_editor();
}

#[test]
fn mod_an_idle_name_editor_does_not_cache_the_authoritative_name() {
    idle_name_editor();
}

#[test]
fn a_name_editor_gives_what_was_typed_or_lets_it_go() {
    let typed = |cancel, accept, focused| {
        name_editor(
            "new name".to_owned(),
            "old name",
            NameInput {
                cancel,
                accept,
                focused,
            },
        )
    };
    assert_eq!(
        typed(false, true, false).accepted,
        Some("new name".to_owned())
    );
    assert_eq!(typed(true, true, false).accepted, None);
    assert_eq!(typed(true, false, true).kept, None);
    assert_eq!(
        typed(false, false, true).kept,
        Some("new name".to_owned())
    );
    assert_eq!(name_draft(Some("kept".to_owned()), "old name"), "kept");
}

fn untouched_sampling() {
    let mut output = UiFrameOutput::default();
    transport_sampling(
        &view(),
        SamplingInput {
            planes: None,
            domain_stride: None,
            boxes: None,
            spheres: None,
        },
        &mut output,
    );
    assert!(output.commands.is_empty());
}

#[test]
fn panels_transport_sampling_does_not_submit_when_nothing_was_dragged() {
    untouched_sampling();
}

#[test]
fn mod_transport_sampling_does_not_submit_when_nothing_was_dragged() {
    untouched_sampling();
}

#[test]
fn a_dragged_density_is_kept_in_range_and_leaves_the_others_alone() {
    let mut compute = view();
    compute.subscription = Subscription {
        planes: Some(UVec2 { x: 4, y: 6 }),
        domain_stride: None,
        boxes: None,
        spheres: Some(5),
    };
    let mut output = UiFrameOutput::default();
    transport_sampling(
        &compute,
        SamplingInput {
            planes: None,
            domain_stride: Some(3),
            boxes: Some(7),
            spheres: None,
        },
        &mut output,
    );
    assert_eq!(
        output.commands,
        vec![CommandPayload::SetSubscription(Subscription {
            planes: Some(UVec2 { x: 4, y: 6 }),
            domain_stride: Some(3),
            boxes: Some(UVec3 { x: 7, y: 7, z: 7 }),
            spheres: Some(5),
        })]
    );

    let mut output = UiFrameOutput::default();
    transport_sampling(
        &compute,
        SamplingInput {
            planes: Some(1025),
            domain_stride: Some(257),
            boxes: Some(u32::MAX),
            spheres: Some(0),
        },
        &mut output,
    );
    assert_eq!(
        output.commands,
        vec![CommandPayload::SetSubscription(Subscription {
            planes: Some(UVec2 { x: 1024, y: 1024 }),
            domain_stride: Some(256),
            boxes: Some(UVec3 {
                x: 1024,
                y: 1024,
                z: 1024
            }),
            spheres: None,
        })]
    );
}

fn undoable() -> ComputeView {
    let mut compute = view();
    compute.edit_history = EditHistoryStatus {
        undo: Some("Move object".to_owned()),
        redo: None,
    };
    compute
}

fn press_undo(compute: &ComputeView, edit_in_progress: bool) -> (Vec<CommandPayload>, bool) {
    let mut output = UiFrameOutput::default();
    history_controls(compute, edit_in_progress, HistoryStep::Undo, &mut output);
    (
        output.commands,
        HistoryStep::Undo.enabled(compute, edit_in_progress),
    )
}

fn undo_and_redo() {
    let mut compute = undoable();

    let (commands, enabled) = press_undo(&compute, false);
    assert!(enabled, "a paused, connected source can step back");
    assert_eq!(commands, vec![CommandPayload::Undo]);

    let (commands, enabled) = press_undo(&compute, true);
    assert!(!enabled);
    assert!(commands.is_empty());

    compute.mode = SimulationMode::Running;
    let (commands, enabled) = press_undo(&compute, false);
    assert!(!enabled);
    assert!(commands.is_empty());
    assert!(!compute.accepts_history_commands());
}

#[test]
fn panels_the_transport_bar_offers_undo_and_redo_for_what_the_source_recorded() {
    undo_and_redo();
}

#[test]
fn mod_the_transport_bar_offers_undo_and_redo_for_what_the_source_recorded() {
    undo_and_redo();
}

fn nothing_to_undo() {
    let compute = view();
    assert!(compute.edit_history.undo.is_none());

    let (commands, enabled) = press_undo(&compute, false);

    assert!(!enabled);
    assert!(commands.is_empty());
}

#[test]
fn panels_undo_is_offered_as_nothing_to_do_when_the_history_is_empty() {
    nothing_to_undo();
}

#[test]
fn mod_undo_is_offered_as_nothing_to_do_when_the_history_is_empty() {
    nothing_to_undo();
}

#[test]
fn a_history_button_says_what_it_steps_to_or_why_it_cannot() {
    let mut compute = undoable();
    assert_eq!(
        history_hover(HistoryStep::Undo, &compute, false, "Ctrl+Z"),
        "Undo · Move object   Ctrl+Z"
    );
    assert_eq!(
        history_hover(HistoryStep::Undo, &compute, true, "Ctrl+Z"),
        "Undo · Move object\nFinish the edit in progress first."
    );
    assert_eq!(
        history_hover(HistoryStep::Redo, &compute, false, "Ctrl+Y"),
        "Nothing to redo"
    );
    compute.mode = SimulationMode::Running;
    assert_eq!(
        history_hover(HistoryStep::Undo, &compute, false, "Ctrl+Z"),
        "Undo · Move object\nPause the simulation to step through the edit history."
    );
    compute.status = DataSourceStatus::Disconnected;
    assert_eq!(
        history_hover(HistoryStep::Undo, &compute, false, "Ctrl+Z"),
        "Undo · Move object\nThe compute source is not accepting commands."
    );
}

fn hidden_on_one_plane() {
    let plane = xy_plane(None);
    let channel = vector_channel();
    let mut layers: OrderedMap<ChannelId, ChannelLayerSettings> = OrderedMap::new();
    set_layer(&mut layers, &channel, true, FieldLayerSettings::default());

    let (mut settings, _) = plane_settings(&layers, &channel, plane.id);
    assert!(settings.visible);
    settings.visible = false;
    set_plane_settings(&mut layers, &channel, plane.id, settings);

    let layer = layers.get(&channel).unwrap();
    assert!(
        !layer.planes.get(&plane.id).unwrap().visible,
        "clearing the plane's checkbox must hide the field on this plane"
    );
    assert!(
        layer.visible,
        "and must leave the layer itself visible everywhere else"
    );
}

#[test]
fn panels_the_plane_inspector_hides_a_field_on_that_plane_and_not_everywhere() {
    hidden_on_one_plane();
}

#[test]
fn mod_the_plane_inspector_hides_a_field_on_that_plane_and_not_everywhere() {
    hidden_on_one_plane();
}

#[test]
fn the_plane_inspector_offers_attachment_once_an_object_exists() {
    let world = world_of(&["anchor"]);
    let plane = xy_plane(None);
    let label = attachment_label(&world, plane.attached_to);
    assert!(
        label.unwrap().contains("Attach to"),
        "an unattached plane with an object in the world should offer attachment"
    );
    assert_eq!(attachment_candidates(&world, plane.attached_to), vec![0]);
    assert_eq!(attachment_label(&empty_world(), None), None);
}

#[test]
fn an_attached_plane_reports_its_parent_and_offers_detaching() {
    let world = world_of(&["anchor"]);
    let plane = xy_plane(Some(ObjectId::new(0)));
    assert!(
        attached_line(&world, plane.attached_to.unwrap(), "object 0").contains("Attached to anchor")
    );
    assert!(attachment_candidates(&world, plane.attached_to).is_empty());
    assert_eq!(
        object_name(&world, ObjectId::new(3), "object 3"),
        "object 3"
    );
}

#[test]
fn the_distance_probe_inspector_shows_objects_and_the_live_reading() {
    let world = world_of(&["near", "far"]);
    let probe = DistanceProbe {
        id: DistanceProbeId::new(0),
        name: "gap".to_owned(),
        visible: true,
        object_a: ObjectId::new(0),
        object_b: ObjectId::new(1),
        show_line: true,
    };
    assert!(object_name(&world, probe.object_a, "0").contains("near"));
    assert!(object_name(&world, probe.object_b, "1").contains("far"));
    let reading = format!("{:.4}", (3.0f64 * 3.0 + 4.0 * 4.0).sqrt());
    assert!(distance_line(Some(&reading)).contains("5.0000 m"));
    let mut output = UiFrameOutput::default();
    distance_probe_properties(&probe, DistanceInput::Remove, &mut output);
    assert_eq!(
        output.commands,
        vec![CommandPayload::CommitWorld(vec![
            WorldCommand::RemoveDistanceProbe(DistanceProbeId::new(0))
        ])]
    );
}

#[test]
fn a_distance_probe_is_moved_one_end_at_a_time() {
    let probe = DistanceProbe {
        id: DistanceProbeId::new(2),
        name: "gap".to_owned(),
        visible: true,
        object_a: ObjectId::new(0),
        object_b: ObjectId::new(1),
        show_line: true,
    };
    let mut output = UiFrameOutput::default();
    distance_probe_properties(
        &probe,
        DistanceInput::ObjectB(ObjectId::new(5)),
        &mut output,
    );
    distance_probe_properties(&probe, DistanceInput::ShowLine(false), &mut output);
    export_distance(&probe, &mut output);
    assert_eq!(
        output.commands,
        vec![
            CommandPayload::CommitWorld(vec![WorldCommand::SetDistanceProbeObjects {
                probe: DistanceProbeId::new(2),
                object_a: ObjectId::new(0),
                object_b: ObjectId::new(5),
            }]),
            CommandPayload::CommitWorld(vec![WorldCommand::SetDistanceProbeShowLine {
                probe: DistanceProbeId::new(2),
                show_line: false,
            }]),
        ]
    );
    assert_eq!(
        output.app_action,
        Some(AppAction::ExportObservations(DistanceProbeId::new(2)))
    );
}

fn held_editor() {
    let mut editing = false;
    let idle = EditorResponse {
        dragged: false,
        focused: false,
        changed: false,
    };
    assert!(!note_held_edit(idle, &mut editing));
    assert!(!editing, "an untouched editor is not an edit in progress");

    note_held_edit(idle, &mut editing);
    assert!(!editing, "a press alone has not started a drag");

    let changed = note_held_edit(
        EditorResponse {
            dragged: true,
            focused: false,
            changed: true,
        },
        &mut editing,
    );
    assert!(changed);
    assert!(editing, "a drag in progress is an edit in progress");

    editing = false;
    note_held_edit(idle, &mut editing);
    assert!(!editing, "releasing commits the edit");
}

#[test]
fn panels_a_held_value_editor_reports_an_edit_in_progress_and_a_released_one_does_not() {
    held_editor();
}

#[test]
fn mod_a_held_value_editor_reports_an_edit_in_progress_and_a_released_one_does_not() {
    held_editor();
}

fn realtime_choice() {
    let compute = view();
    let system = &compute.field_systems[0];
    assert!(system.realtime, "a scene starts fully live");

    let mut output = UiFrameOutput::default();
    realtime_control(system, &compute, true, &mut output);
    assert!(
        output.commands.is_empty(),
        "a press alone must not commit a choice"
    );

    realtime_control(system, &compute, false, &mut output);
    assert_eq!(
        output.commands,
        vec![CommandPayload::SetFieldSystemRealtime {
            plugin: plugin("test"),
            realtime: false,
        }]
    );
}

#[test]
fn panels_realtime_update_is_offered_per_field_system_and_submitted_as_a_command() {
    realtime_choice();
}

#[test]
fn mod_realtime_update_is_offered_per_field_system_and_submitted_as_a_command() {
    realtime_choice();
}

fn bare_new_object() {
    let CommandPayload::CommitWorld(commands) = new_object_command(&empty_world(), origin()) else {
        panic!("object authoring must issue a world transaction");
    };
    let WorldCommand::CreateObject(spec) = &commands[0] else {
        panic!("transaction must create an object");
    };

    assert!(spec.components.is_empty());
    assert!(!spec.pinned);
    assert!(matches!(spec.shape, Some(ObjectShape::Point { .. })));
    assert_eq!(spec.name, "Object 1");
}

#[test]
fn panels_the_scene_panel_creates_an_object_with_no_physics_attached() {
    bare_new_object();
}

#[test]
fn mod_the_scene_panel_creates_an_object_with_no_physics_attached() {
    bare_new_object();
}

fn movable_by_mass() {
    assert_eq!(
        motion_summary(&object(0, "gizmo"), &inertia()),
        "no inertia — add Inertial mass to make it movable"
    );
    assert_eq!(
        motion_summary(&massive(1.0), &inertia()),
        "moved by the forces acting on it"
    );
}

#[test]
fn panels_an_object_becomes_movable_by_attaching_mass_alone() {
    movable_by_mass();
}

#[test]
fn mod_an_object_becomes_movable_by_attaching_mass_alone() {
    movable_by_mass();
}

fn pinned_motion() {
    let mut held = object(0, "held");
    held.pinned = true;
    assert_eq!(motion_summary(&held, &inertia()), "held in place");

    held.velocity.linear = vec3(1.0, 0.0, 0.0);
    assert_eq!(
        motion_summary(&held, &inertia()),
        "carried at the velocity you set"
    );
}

#[test]
fn panels_pinning_hands_motion_back_to_the_user() {
    pinned_motion();
}

#[test]
fn mod_pinning_hands_motion_back_to_the_user() {
    pinned_motion();
}

fn linked_mass() {
    let schema = PropertySchema {
        id: mass(),
        display_name: "Mass".to_owned(),
        description: None,
        kind: PropertyKind::Scalar(length()),
        live_binding: false,
    };
    let edit = |relevant: bool| {
        let mut values = OrderedMap::new();
        values.insert(mass(), PropertyValue::Scalar(number(1.0)));
        let changed = property_editor(
            &schema,
            relevant,
            &mut values,
            PropertyInput {
                value: PropertyValue::Scalar(number(2.0)),
                changed: true,
                valid: true,
            },
        );
        (changed, scalar(&values, &mass()))
    };
    assert_eq!(
        edit(false),
        (false, Some(number(1.0))),
        "a linked gravitational mass must render as non-interactive"
    );
    assert_eq!(
        edit(true),
        (true, Some(number(2.0))),
        "unlinking must restore interaction"
    );
}

#[test]
fn panels_a_linked_gravitational_mass_cannot_be_edited_through_the_inspector() {
    linked_mass();
}

#[test]
fn mod_a_linked_gravitational_mass_cannot_be_edited_through_the_inspector() {
    linked_mass();
}

fn engineering(value: f64) -> String {
    match engineering_notation(number(value)) {
        Notation::Zero => "0".to_owned(),
        Notation::Plain => format!("{value:.4}"),
        Notation::Scientific => format!("{value:.6e}"),
    }
}

fn engineering_range() {
    assert_eq!(engineering(0.0), "0");
    assert_eq!(engineering(1.5), "1.5000");
    assert!(engineering(9.109e-31).contains("e-31"));
    assert!(engineering(6.02e23).contains("e23"));
}

#[test]
fn panels_scalar_properties_render_across_the_range_physics_actually_uses() {
    engineering_range();
}

#[test]
fn mod_scalar_properties_render_across_the_range_physics_actually_uses() {
    engineering_range();
}

fn inertial_mass() {
    assert_eq!(
        inertial_mass_kg(&object(0, "gizmo"), &inertia(), &mass()),
        None
    );
    assert_eq!(
        inertial_mass_kg(&massive(3.5), &inertia(), &mass()),
        Some(number(3.5))
    );
    assert_eq!(inertial_mass_kg(&massive(0.0), &inertia(), &mass()), None);
    assert_eq!(inertial_mass_kg(&massive(-2.0), &inertia(), &mass()), None);
    assert_eq!(
        inertial_mass_kg(&massive(f64::INFINITY), &inertia(), &mass()),
        None
    );
}

#[test]
fn panels_inertial_mass_kg_reads_a_valid_attached_component_and_nothing_else() {
    inertial_mass();
}

#[test]
fn mod_inertial_mass_kg_reads_a_valid_attached_component_and_nothing_else() {
    inertial_mass();
}

fn written_vector() {
    let formatted = format_vector(
        &engineering(1.5),
        &engineering(-2.0e8),
        &engineering(0.0),
        "N",
    );
    assert!(formatted.starts_with("(1.5000, "));
    assert!(formatted.contains("e8"));
    assert!(formatted.ends_with(") N"));
}

#[test]
fn panels_format_vector_uses_engineering_notation_per_component() {
    written_vector();
}

#[test]
fn mod_format_vector_uses_engineering_notation_per_component() {
    written_vector();
}

#[test]
fn a_picker_excludes_both_its_own_value_and_the_other_endpoints() {
    let world = world_of(&["a", "b", "c"]);
    let names: Vec<&str> = distance_probe_candidates(&world, ObjectId::new(0), ObjectId::new(1))
        .into_iter()
        .map(|i| world.objects[i].name.as_str())
        .collect();
    assert_eq!(names, vec!["c"]);
}

#[test]
fn a_picker_offers_nothing_once_every_other_object_is_the_far_endpoint() {
    let world = world_of(&["a", "b"]);
    assert_eq!(
        distance_probe_candidates(&world, ObjectId::new(0), ObjectId::new(1)).len(),
        0
    );
}

fn tracking(mut linked: WorldObject) -> WorldObject {
    linked.catalog_link = Some(CatalogLink {
        mode: CatalogLinkMode::Tracking,
        entry: None,
        source_description: "builtin".to_owned(),
    });
    linked
}

#[test]
fn a_tracking_object_takes_neither_shapes_nor_components() {
    let free = object(3, "free");
    let held = tracking(object(3, "held"));
    assert!(!is_tracking(&free));
    assert!(is_tracking(&held));
    let mut output = UiFrameOutput::default();
    let reshape = || ObjectInput::Shape {
        shape: None,
        valid: true,
    };
    object_properties(&held, reshape(), &mut output);
    object_components(
        &held,
        &systems(true),
        ComponentInput::Detach(inertia()),
        &mut output,
    );
    assert!(output.commands.is_empty());
    object_properties(&free, reshape(), &mut output);
    object_components(
        &free,
        &systems(true),
        ComponentInput::Detach(inertia()),
        &mut output,
    );
    assert_eq!(
        output.commands,
        vec![
            CommandPayload::CommitWorld(vec![WorldCommand::SetShape {
                object: ObjectId::new(3),
                shape: None,
            }]),
            CommandPayload::CommitWorld(vec![WorldCommand::DetachComponent {
                object: ObjectId::new(3),
                component: inertia(),
            }]),
        ]
    );
}

#[test]
fn an_invalid_velocity_is_not_submitted() {
    let free = object(3, "free");
    let mut output = UiFrameOutput::default();
    object_properties(
        &free,
        ObjectInput::Velocity {
            linear: vec3(f64::NAN, 0.0, 0.0),
            valid: false,
        },
        &mut output,
    );
    assert!(output.commands.is_empty());
    object_properties(
        &free,
        ObjectInput::Velocity {
            linear: vec3(2.0, 0.0, 0.0),
            valid: true,
        },
        &mut output,
    );
    assert_eq!(
        output.commands,
        vec![CommandPayload::CommitWorld(vec![
            WorldCommand::SetVelocity {
                object: ObjectId::new(3),
                velocity: Velocity {
                    linear: vec3(2.0, 0.0, 0.0),
                    angular: origin(),
                },
            }
        ])]
    );
    object_properties(&free, ObjectInput::Follow, &mut output);
    assert_eq!(
        output.camera_action,
        Some(CameraAction::ToggleFollow(ObjectId::new(3)))
    );
    assert_eq!(
        follow_label(Some(ObjectId::new(3)), ObjectId::new(3)),
        "Stop following"
    );
}

#[test]
fn a_component_is_added_only_if_a_plugin_declares_it_and_it_has_defaults() {
    let schema = ComponentSchema {
        id: inertia(),
        display_name: "Inertial mass".to_owned(),
        properties: Vec::new(),
    };
    let mut declaring = systems(true);
    declaring[0].component_schemas = vec![inertia()];
    assert!(matches!(
        component_offer(&schema, &systems(true), true),
        ComponentOffer::Undeclared(_)
    ));
    assert!(matches!(
        component_offer(&schema, &declaring, false),
        ComponentOffer::Incomplete(_)
    ));
    assert!(matches!(
        component_offer(&schema, &declaring, true),
        ComponentOffer::Ready(_)
    ));
    assert!(is_declared(&declaring, &inertia()));

    let add = |defaults| ComponentInput::Add {
        component: inertia(),
        defaults,
    };
    let mut output = UiFrameOutput::default();
    let free = object(1, "free");
    object_components(
        &free,
        &systems(true),
        add(Some(OrderedMap::new())),
        &mut output,
    );
    object_components(&free, &declaring, add(None), &mut output);
    assert!(output.commands.is_empty());
    object_components(&free, &declaring, add(Some(OrderedMap::new())), &mut output);
    assert_eq!(
        output.commands,
        vec![CommandPayload::CommitWorld(vec![
            WorldCommand::AttachComponent {
                object: ObjectId::new(1),
                component: inertia(),
                properties: OrderedMap::new(),
            }
        ])]
    );
    assert_eq!(
        missing_components(&vec![schema], &massive(1.0).components),
        Vec::<usize>::new()
    );
}

#[test]
fn a_component_is_headed_by_what_the_session_knows_of_it() {
    let schema = ComponentSchema {
        id: inertia(),
        display_name: "Inertial mass".to_owned(),
        properties: Vec::new(),
    };
    let mut declaring = systems(true);
    declaring[0].component_schemas = vec![inertia()];
    assert!(matches!(
        component_heading(&inertia(), None, &declaring),
        ComponentHeading::Unknown(_)
    ));
    assert!(matches!(
        component_heading(&inertia(), Some(&schema), &systems(true)),
        ComponentHeading::Orphaned(_)
    ));
    assert_eq!(
        component_heading(&inertia(), Some(&schema), &declaring),
        ComponentHeading::Known("Inertial mass".to_owned())
    );
}

#[test]
fn moving_a_plane_keeps_its_orientation() {
    let plane = xy_plane(Some(ObjectId::new(4)));
    let moved = plane_spec(
        &plane,
        vec3(0.0, 0.0, 2.0),
        plane.normal,
        plane.half_extent,
    );
    assert_eq!(moved.origin, vec3(0.0, 0.0, 2.0));
    assert_eq!(moved.normal, plane.normal);
    assert_eq!(moved.u_axis, Some(plane.u_axis));
    assert_eq!(moved.attached_to, Some(ObjectId::new(4)));
    let turned = plane_preset(&plane, PlanePreset::Yz);
    assert_eq!(turned.normal, x_axis());
    assert_eq!(PlanePreset::Yz.label(), "YZ");

    let mut output = UiFrameOutput::default();
    plane_properties(
        &plane,
        PlaneInput::Geometry {
            origin: plane.origin,
            normal: origin(),
            half_extent: plane.half_extent,
            valid: false,
        },
        &mut output,
    );
    assert!(output.commands.is_empty());
}

#[test]
fn a_field_hidden_everywhere_is_pointed_out() {
    assert_eq!(hidden_everywhere_warning(true), None);
    assert!(hidden_everywhere_warning(false).is_some());
}

#[test]
fn a_probe_records_the_ticked_channels() {
    let snapshot = world();
    let probe = &snapshot.probes[0];
    let tick = |channel, records| ChannelToggle { channel, records };
    assert_eq!(
        recorded_channels(probe, &vec![tick(vector_channel(), true)]),
        vec![scalar_channel(), vector_channel()]
    );
    assert_eq!(
        recorded_channels(
            probe,
            &vec![
                tick(scalar_channel(), false),
                tick(vector_channel(), true)
            ]
        ),
        vec![vector_channel()]
    );
    let mut model = UiModel::new(UserConstantLibrary::default());
    let mut output = UiFrameOutput::default();
    probe_channel_picker(&mut model, probe, &Vec::new(), &mut output);
    assert!(output.commands.is_empty());
    probe_channel_picker(
        &mut model,
        probe,
        &vec![tick(scalar_channel(), false)],
        &mut output,
    );
    assert_eq!(
        output.commands,
        vec![CommandPayload::CommitWorld(vec![
            WorldCommand::SetProbeChannels {
                probe: ProbeId::new(0),
                channels: Vec::new(),
            }
        ])]
    );
}

#[test]
fn a_probe_is_attached_and_let_go() {
    let snapshot = world();
    let probe = &snapshot.probes[0];
    assert_eq!(attached_to(probe), None);
    let mut output = UiFrameOutput::default();
    probe_properties(
        probe,
        ProbeInput::Attach {
            object: ObjectId::new(0),
            offset: vec3(0.0, 1.0, 0.0),
        },
        &mut output,
    );
    let attached = Probe {
        id: ProbeId::new(0),
        name: "Origin probe".to_owned(),
        visible: true,
        position: ProbePosition::Attached {
            object: ObjectId::new(0),
            offset: vec3(0.0, 1.0, 0.0),
        },
        channels: Vec::new(),
    };
    assert_eq!(attached_to(&attached), Some(ObjectId::new(0)));
    probe_properties(&attached, ProbeInput::Detach(None), &mut output);
    assert_eq!(output.commands.len(), 1);
    probe_properties(
        &attached,
        ProbeInput::Detach(Some(vec3(5.0, 0.0, 0.0))),
        &mut output,
    );
    assert_eq!(
        output.commands,
        vec![
            CommandPayload::CommitWorld(vec![WorldCommand::SetProbePosition {
                probe: ProbeId::new(0),
                position: ProbePosition::Attached {
                    object: ObjectId::new(0),
                    offset: vec3(0.0, 1.0, 0.0),
                },
            }]),
            CommandPayload::CommitWorld(vec![WorldCommand::SetProbePosition {
                probe: ProbeId::new(0),
                position: ProbePosition::World(vec3(5.0, 0.0, 0.0)),
            }]),
        ]
    );
}

#[test]
fn a_mass_probe_counts_what_is_ticked() {
    let probe = MassAggregateProbe {
        id: MassAggregateProbeId::new(1),
        name: "total".to_owned(),
        visible: true,
        selection: MassSelection::Universe {
            excluded: OrderedMap::new(),
        },
        show_member_lines: false,
    };
    let mut output = UiFrameOutput::default();
    mass_aggregate_probe_properties(
        &probe,
        MassInput::Members(vec![MemberToggle {
            object: ObjectId::new(2),
            checked: true,
        }]),
        &mut output,
    );
    let mut excluded: OrderedSet<ObjectId> = OrderedMap::new();
    excluded.insert(ObjectId::new(2), ());
    assert_eq!(
        output.commands,
        vec![CommandPayload::CommitWorld(vec![
            WorldCommand::SetMassAggregateProbeSelection {
                probe: MassAggregateProbeId::new(1),
                selection: MassSelection::Universe { excluded },
            }
        ])]
    );
}

#[test]
fn instruments_are_added_where_they_can_measure() {
    let compute = view();
    let alone = world_of(&["a"]);
    assert_eq!(
        measurement_command(&alone, &compute, Instrument::Distance),
        None
    );
    let pair = world_of(&["a", "b"]);
    assert_eq!(
        distance_pair(&pair),
        Some((ObjectId::new(0), ObjectId::new(1)))
    );
    assert!(matches!(
        measurement_command(&pair, &compute, Instrument::Distance),
        Some(WorldCommand::CreateDistanceProbe(_))
    ));
    assert!(matches!(
        measurement_command(&pair, &compute, Instrument::Plane),
        Some(WorldCommand::CreatePlane(_))
    ));
    assert_eq!(objects_title(&pair), "Objects (2)");
}

#[test]
fn a_domain_is_applied_once_it_differs() {
    let compute = view();
    let mut output = UiFrameOutput::default();
    assert!(domains_agree(domain(), domain()));
    assert!(!can_apply_domain(&compute, domain(), false));
    apply_domain(&compute, domain(), false, &mut output);
    assert!(output.commands.is_empty());
    let mut wider = domain();
    wider.max = vec3(8.0, 4.0, 4.0);
    apply_domain(&compute, wider, true, &mut output);
    assert!(output.commands.is_empty());
    apply_domain(&compute, wider, false, &mut output);
    assert_eq!(
        output.commands,
        vec![CommandPayload::ReconfigureDomain(wider)]
    );
    assert_eq!(
        domain_draft_for(None, domain()),
        DomainDraft::from_domain(domain())
    );
    assert_eq!(
        DomainDraft::from_domain(domain()).build(Ok(()), Ok(domain().cell_count)),
        Ok(domain())
    );
    let failing = |bounds: Result<(), String>, resolution: Result<u64, String>| {
        DomainDraft::from_domain(domain())
            .build(bounds, resolution)
            .unwrap_err()
    };
    assert_eq!(failing(Err("flat".to_owned()), Ok(1)), "flat");
    assert_eq!(failing(Ok(()), Err("empty".to_owned())), "empty");
    assert_eq!(
        failing(Err("flat".to_owned()), Err("empty".to_owned())),
        "flat"
    );
    assert_eq!(
        domain_verdict(Err("flat".to_owned()), Err("empty".to_owned())),
        Err("flat".to_owned())
    );
    assert_eq!(domain_verdict(Ok(()), Ok(512)), Ok(512));
}

#[test]
fn choosing_a_model_or_switching_a_system_is_a_command() {
    let compute = view();
    let mut output = UiFrameOutput::default();
    switch_system(&compute.field_systems[0], &compute, true, &mut output);
    assert!(output.commands.is_empty());
    switch_system(&compute.field_systems[0], &compute, false, &mut output);
    let row = FieldRow {
        channel: scalar_channel(),
        display_name: "Linear scalar".to_owned(),
        value_kind: FieldValueKind::Scalar(length()),
        candidates: vec![plugin("test"), plugin("other")],
        provider: Some(plugin("test")),
    };
    choose_model(&compute, &row, Some(plugin("test")), &mut output);
    assert_eq!(output.commands.len(), 1);
    choose_model(&compute, &row, None, &mut output);
    assert_eq!(
        output.commands,
        vec![
            CommandPayload::SetFieldSystemEnabled {
                plugin: plugin("test"),
                enabled: false,
            },
            CommandPayload::SetFieldModel {
                channel: scalar_channel(),
                provider: None,
            },
        ]
    );
    assert!(can_switch(&compute.field_systems[0], &compute));
}

#[test]
fn a_configuration_is_applied_once_it_differs_and_is_valid() {
    let compute = view();
    let system = &compute.field_systems[0];
    let mut draft = configuration_draft_for(None, system);
    assert!(same_configuration(&draft, &system.configuration));
    assert!(!can_apply_configuration(
        &compute, system, &draft, true, false
    ));
    draft.insert(mass(), PropertyValue::Boolean(true));
    assert!(!can_apply_configuration(
        &compute, system, &draft, false, false
    ));
    assert!(!can_apply_configuration(
        &compute, system, &draft, true, true
    ));
    let mut output = UiFrameOutput::default();
    apply_configuration(&compute, system, draft, true, false, &mut output);
    let mut expected = OrderedMap::new();
    expected.insert(mass(), PropertyValue::Boolean(true));
    assert_eq!(
        output.commands,
        vec![CommandPayload::SetFieldSystemConfiguration {
            plugin: plugin("test"),
            configuration: expected,
        }]
    );
}

#[test]
fn a_trailing_unit_never_changes_an_expression_that_is_valid_on_its_own() {
    assert_eq!(
        literal_step("3 mm", Some(number(0.003))),
        LiteralStep::Done(number(0.003))
    );
    assert_eq!(
        literal_step("120 + 15 Mm", None),
        LiteralStep::Scale(ScaledExpression {
            head: "120 + 15".to_owned(),
            unit: "Mm".to_owned(),
        })
    );
    assert_eq!(literal_step("120 +", None), LiteralStep::Nothing);
}

#[test]
fn a_scaled_expression_is_its_head_times_its_unit() {
    let step = literal_step("120+15 Mm", None);
    assert_eq!(
        literal_value(&step, Some(number(1.0e6)), Some(number(135.0))),
        LiteralValue::Product {
            factor: number(135.0),
            per_unit: number(1.0e6),
        }
    );
    assert_eq!(
        literal_value(&step, None, Some(number(135.0))),
        LiteralValue::Nothing
    );
    assert_eq!(
        literal_value(&step, Some(number(1.0e6)), None),
        LiteralValue::Nothing
    );
    let done = literal_step("3 mm", Some(number(0.003)));
    assert_eq!(
        literal_value(&done, Some(number(1.0)), Some(number(2.0))),
        LiteralValue::Value(number(0.003))
    );
    assert_eq!(
        literal_value(&LiteralStep::Nothing, Some(number(1.0)), Some(number(2.0))),
        LiteralValue::Nothing
    );
}

#[test]
fn a_unit_is_asked_for_in_the_dimension_and_its_head_as_a_plain_number() {
    let plain = Dimension {
        written: "1".to_owned(),
        unit_symbol: String::new(),
    };
    let split = split_trailing_unit("120+15 Mm").unwrap();
    let (unit, head) = scale_requests(&split, &length(), &plain);
    let (unit, head) = (unit.unwrap(), head.unwrap());
    assert_eq!(unit.document.constants[0].source, "Mm");
    assert_eq!(unit.dimension, length());
    assert_eq!(head.document.constants[0].source, "120+15");
    assert_eq!(head.dimension, plain);
    assert!(literal_request(" ", &length()).is_none());
}

#[test]
fn only_a_scalar_property_may_hold_a_formula() {
    let schema = |kind: PropertyKind| PropertySchema {
        id: mass(),
        display_name: "Mass".to_owned(),
        description: None,
        kind,
        live_binding: false,
    };
    assert_eq!(
        formula_dimension(&schema(PropertyKind::Scalar(length()))),
        Some(&length())
    );
    assert_eq!(
        formula_dimension(&schema(PropertyKind::Vector(length()))),
        None
    );
    assert_eq!(formula_dimension(&schema(PropertyKind::Boolean)), None);
}

#[test]
fn a_trailing_unit_is_taken_off_the_whole_expression() {
    let split = |text: &str| split_trailing_unit(text).map(|s| (s.head, s.unit));
    let parts = |head: &str, unit: &str| Some((head.to_owned(), unit.to_owned()));
    assert_eq!(split("120+15 Mm"), parts("120+15", "Mm"));
    assert_eq!(split("120+30/2 Mm"), parts("120+30/2", "Mm"));
    assert_eq!(split("(120-15)/(3+2) Mm"), parts("(120-15)/(3+2)", "Mm"));
    assert_eq!(split("3 Ω"), parts("3", "Ω"));
    assert_eq!(split("120+15"), None);
    assert_eq!(split("Mm"), None);
    assert_eq!(split(""), None);
    assert!(literal_document("  ").is_none());
    let document = literal_document("3/2 mm").unwrap();
    assert_eq!(document.constants.len(), 1);
    assert_eq!(document.constants[0].source, "3/2 mm");
}
