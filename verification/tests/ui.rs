use fieldcad_desktop::command::{CameraAction, CommandPayload, PointerInput, Projection, UiFrameOutput, viewport_gesture};
use fieldcad_desktop::compute::{ComputeView, SourceReport};
use fieldcad_desktop::expression::{ExpressionDocument, ExpressionState, UserConstantLibrary};
use fieldcad_desktop::field_layers::set_layer;
use fieldcad_desktop::ids::{ChannelId, DistanceProbeId, ObjectId, PlaneId, PluginId, ProbeId, SchemeId};
use fieldcad_desktop::inspector::{InspectorSubject, inspector};
use fieldcad_desktop::layers::{FieldLayerSettings, GizmoDisplay, ViewOptions, ViewToggle};
use fieldcad_desktop::measured::{Number, Vec2, Vec3, identity, origin};
use fieldcad_desktop::model::{FieldBrushDraft, SceneSelection, UiModel};
use fieldcad_desktop::ordered::OrderedMap;
use fieldcad_desktop::scene_tree::{SceneItem, entity_row, measurement_title, objects_title, row_action, visibility_mark};
use fieldcad_desktop::source::{BoundaryCondition, BoundaryConditions, ChannelSchema, DataSourceStatus, DiagnosticSeverity, Domain, EditHistoryStatus, FieldSnapshot, FieldSystemStatus, FieldValueKind, PluginDescriptor, Precision, ProbeSample, QueueStatus, QueueSummary, SampleValidity, SimulationMode, SnapshotChannel, SnapshotFreshness, SolverDiagnostic, Subscription, UVec3};
use fieldcad_desktop::transport::menu_state;
use fieldcad_desktop::user_constants::{LibraryFile, UserConstantLibraryError, load_from};
use fieldcad_desktop::view_controls::{CameraInput, NamedScale, ScalePreset, camera_controls, choose_scale, follow_line, frame_windows, scene_scale_label, show, type_scale};
use fieldcad_desktop::world::{Dimension, ObjectShape, Probe, ProbePosition, Transform, Velocity, WorldCommand, WorldObject, WorldSnapshot};

fn number(value: f64) -> Number {
    Number {
        bits: value.to_bits(),
    }
}

fn vec3(x: f64, y: f64, z: f64) -> Vec3 {
    Vec3 {
        x: number(x),
        y: number(y),
        z: number(z),
    }
}

fn plugin(text: &str) -> PluginId {
    PluginId {
        text: text.to_owned(),
    }
}

fn channel(plugin_name: &str, name: &str) -> ChannelId {
    ChannelId {
        plugin: plugin(plugin_name),
        name: name.to_owned(),
        written: format!("{plugin_name}/{name}"),
    }
}

fn scalar_channel() -> ChannelId {
    channel("test", "scalar")
}

fn vector_channel() -> ChannelId {
    channel("test", "vector")
}

fn length() -> Dimension {
    Dimension {
        written: "m".to_owned(),
        unit_symbol: "m".to_owned(),
    }
}

fn scalar_schema() -> ChannelSchema {
    ChannelSchema {
        id: scalar_channel(),
        display_name: "Linear scalar".to_owned(),
        value_kind: FieldValueKind::Scalar(length()),
    }
}

fn vector_schema() -> ChannelSchema {
    ChannelSchema {
        id: vector_channel(),
        display_name: "Linear vector".to_owned(),
        value_kind: FieldValueKind::Vector(length()),
    }
}

fn system(id: &str, enabled: bool, channels: Vec<ChannelSchema>) -> FieldSystemStatus {
    FieldSystemStatus {
        plugin: PluginDescriptor {
            id: plugin(id),
            display_name: format!("{id} field"),
            description: "A field".to_owned(),
            version: "1".to_owned(),
        },
        enabled,
        realtime: true,
        channels,
        mutable_vector_channels: Vec::new(),
        component_schemas: Vec::new(),
        configuration: OrderedMap::new(),
        configuration_schema: Vec::new(),
    }
}

fn domain() -> Domain {
    Domain {
        min: vec3(-4.0, -4.0, -4.0),
        max: vec3(4.0, 4.0, 4.0),
        cells: UVec3 { x: 8, y: 8, z: 8 },
        cell_count: 512,
        boundaries: BoundaryConditions::uniform(BoundaryCondition::Open),
        precision: Precision::F64,
    }
}

fn snapshot(sequence: u64) -> FieldSnapshot {
    FieldSnapshot {
        sequence,
        domain: domain(),
        channels: vec![
            SnapshotChannel {
                schema: scalar_schema(),
                provider: plugin("test"),
                batch_lengths: vec![1],
                probe_samples: vec![ProbeSample {
                    probe: ProbeId::new(0),
                    value: "1.800000 m".to_owned(),
                    validity: SampleValidity::Exact,
                }],
            },
            SnapshotChannel {
                schema: vector_schema(),
                provider: plugin("test"),
                batch_lengths: vec![512, 64],
                probe_samples: Vec::new(),
            },
        ],
        diagnostics: vec![
            SolverDiagnostic {
                plugin: plugin("test"),
                severity: DiagnosticSeverity::Warning,
                message: "coarse lattice".to_owned(),
            },
            SolverDiagnostic {
                plugin: plugin("gone"),
                severity: DiagnosticSeverity::Error,
                message: "not composed".to_owned(),
            },
        ],
    }
}

fn world() -> WorldSnapshot {
    WorldSnapshot {
        objects: vec![WorldObject {
            id: ObjectId::new(0),
            name: "Test source".to_owned(),
            color: None,
            visible: true,
            derived: false,
            pinned: false,
            transform: Transform {
                translation: vec3(0.0, 0.0, 0.6),
                rotation: identity(),
            },
            velocity: Velocity {
                linear: origin(),
                angular: origin(),
            },
            shape: Some(ObjectShape::Box {
                half_extent: vec3(0.6, 0.6, 0.6),
            }),
            components: Vec::new(),
            catalog_link: None,
        }],
        planes: Vec::new(),
        boxes: Vec::new(),
        spheres: Vec::new(),
        probes: vec![Probe {
            id: ProbeId::new(0),
            name: "Origin probe".to_owned(),
            visible: true,
            position: ProbePosition::World(vec3(0.0, 0.0, 0.6)),
            channels: vec![scalar_channel()],
        }],
        distance_probes: Vec::new(),
        mass_aggregate_probes: Vec::new(),
        component_schemas: Vec::new(),
    }
}

fn report(
    sequence: u64,
    systems: Vec<FieldSystemStatus>,
    queue: QueueStatus,
    summary: QueueSummary,
) -> SourceReport {
    SourceReport {
        description: "Local".to_owned(),
        status: DataSourceStatus::Ready,
        domain: domain(),
        scene_scale: number(1.0),
        mode: SimulationMode::Paused,
        tick: 3,
        time_seconds: number(0.3),
        time_step_seconds: number(0.1),
        playback_speed: number(1.0),
        pending_commands: 0,
        queue_summary: summary,
        queue,
        world_revision: 7,
        snapshot: Some(snapshot(sequence)),
        freshness: Some(SnapshotFreshness::Current),
        field_systems: systems,
        edit_history: EditHistoryStatus {
            undo: None,
            redo: None,
        },
        subscription: Subscription {
            planes: None,
            domain_stride: None,
            boxes: None,
            spheres: None,
        },
        integration_scheme: SchemeId::new(0),
        expressions: ExpressionDocument {
            constants: Vec::new(),
            bindings: Vec::new(),
        },
        expression_state: ExpressionState {
            graph_hash: "hash".to_owned(),
            nodes: Vec::new(),
        },
        resolved_constants: OrderedMap::new(),
        global_variables: Vec::new(),
        body_forces: OrderedMap::new(),
        mass_aggregates: OrderedMap::new(),
        step_compute_ms: number(0.0),
    }
}

fn empty_queue() -> QueueStatus {
    QueueStatus {
        paused: false,
        pending: Vec::new(),
        history: Vec::new(),
    }
}

fn empty_summary() -> QueueSummary {
    QueueSummary {
        paused: false,
        pending_len: 0,
        history_len: 0,
        newest_history: None,
    }
}

fn systems(enabled: bool) -> Vec<FieldSystemStatus> {
    vec![system(
        "test",
        enabled,
        vec![scalar_schema(), vector_schema()],
    )]
}

fn view() -> ComputeView {
    ComputeView::build(
        report(1, systems(true), empty_queue(), empty_summary()),
        &world(),
        None,
    )
}

fn model() -> UiModel {
    UiModel::new(UserConstantLibrary::default())
}

fn pointer() -> PointerInput {
    PointerInput {
        position: Some(Vec2 {
            x: number(880.0),
            y: number(700.0),
        }),
        delta: Vec2 {
            x: number(100.0),
            y: number(60.0),
        },
        scroll: number(2.0),
        shift: false,
        over_view: true,
        middle_dragged: false,
        primary_dragged: false,
        primary_clicked: false,
        primary_pressed: false,
        primary_released: false,
    }
}

#[test]
fn central_viewport_reports_middle_drag() {
    let gesture = viewport_gesture(PointerInput {
        middle_dragged: true,
        ..pointer()
    });

    assert!(gesture.middle_dragged);
    assert_eq!(f64::from_bits(gesture.drag_delta.x.bits), 100.0);
    assert_eq!(f64::from_bits(gesture.drag_delta.y.bits), 60.0);
}

#[test]
fn central_viewport_reports_wheel_input() {
    let gesture = viewport_gesture(pointer());

    assert!(f64::from_bits(gesture.scroll_delta.bits) > 0.0);
}

#[test]
fn floating_controls_block_viewport_wheel_input() {
    let gesture = viewport_gesture(PointerInput {
        over_view: false,
        primary_pressed: true,
        ..pointer()
    });

    assert_eq!(f64::from_bits(gesture.scroll_delta.bits), 0.0);
    assert!(!gesture.primary_pressed);
    assert_eq!(f64::from_bits(gesture.drag_delta.x.bits), 0.0);
}

#[test]
fn the_inspector_reads_the_selected_object_rather_than_a_literal() {
    let snapshot = world();
    let mut model = model();
    model.set_scene_selection(Some(SceneSelection::Object(ObjectId::new(0))));

    assert_eq!(inspector(&model, &snapshot), InspectorSubject::Object(0));
    let object = snapshot.object(ObjectId::new(0)).unwrap();
    assert_eq!(object.name, "Test source");
    assert_eq!(object.transform.translation, vec3(0.0, 0.0, 0.6));
    assert!(matches!(object.shape, Some(ObjectShape::Box { .. })));
}

#[test]
fn selecting_in_the_scene_tree_stores_an_object_id() {
    let mut model = model();
    assert_eq!(model.selection, None);

    model.selection = Some(ObjectId::new(0));
    show(&mut model, &view());

    assert_eq!(model.selection, Some(ObjectId::new(0)));
}

#[test]
fn a_row_of_the_scene_tree_is_selected_hidden_or_deleted() {
    let mut model = model();
    let mut output = UiFrameOutput::default();
    let row = SceneItem::Object(ObjectId::new(4));
    entity_row(
        &mut model,
        row,
        true,
        row_action(true, true, false).unwrap(),
        &mut output,
    );
    assert!(row.selected(&model));
    assert!(!model.world_selected);
    assert!(output.commands.is_empty());

    entity_row(
        &mut model,
        row,
        true,
        row_action(true, false, false).unwrap(),
        &mut output,
    );
    entity_row(
        &mut model,
        SceneItem::DistanceProbe(DistanceProbeId::new(9)),
        false,
        row_action(true, true, true).unwrap(),
        &mut output,
    );
    assert_eq!(
        output.commands,
        vec![
            CommandPayload::CommitWorld(vec![WorldCommand::SetObjectVisible {
                object: ObjectId::new(4),
                visible: false,
            }]),
            CommandPayload::CommitWorld(vec![WorldCommand::RemoveDistanceProbe(
                DistanceProbeId::new(9)
            )]),
        ]
    );
    assert_eq!(row_action(false, false, false), None);
    assert_eq!(row.label("Body"), "▣  Body");
    assert_eq!(row.delete_hover(), "Delete object");
    assert_eq!(visibility_mark(true), ("☑", "Hide in viewport"));
}

#[test]
fn viewport_selection_is_exclusive_across_scene_entity_kinds() {
    let mut model = model();
    let object = ObjectId::new(1);
    let plane = PlaneId::new(2);
    let probe = ProbeId::new(3);

    model.set_scene_selection(Some(SceneSelection::Object(object)));
    assert_eq!(
        model.scene_selection(),
        Some(SceneSelection::Object(object))
    );

    model.set_scene_selection(Some(SceneSelection::Plane(plane)));
    assert_eq!(model.selection, None);
    assert_eq!(model.scene_selection(), Some(SceneSelection::Plane(plane)));

    model.set_scene_selection(Some(SceneSelection::Probe(probe)));
    assert_eq!(model.plane_selection, None);
    assert_eq!(model.scene_selection(), Some(SceneSelection::Probe(probe)));
}

#[test]
fn a_floating_probe_plot_survives_scene_selection_changes() {
    let snapshot = world();
    let probe = &snapshot.probes[0];
    let mut model = model();
    model.set_scene_selection(Some(SceneSelection::Probe(probe.id)));

    model.open_probe_plot(probe);
    model.set_scene_selection(None);

    let plot = model.probe_plots.get(&probe.id).unwrap();
    assert_eq!(plot.channels.len(), probe.channels.len());
    assert!(plot.channels.contains_key(&probe.channels[0]));
    assert_eq!(model.scene_selection(), None);
}

#[test]
fn every_command_a_frame_produces_survives_in_submission_order() {
    let mut output = UiFrameOutput::default();

    output.edit(vec![WorldCommand::RemoveObject(ObjectId::new(0))]);
    output.submit(CommandPayload::Step);
    output.edit(vec![WorldCommand::RemoveProbe(ProbeId::new(1))]);

    assert_eq!(output.commands.len(), 3);
    assert_eq!(output.commands[1], CommandPayload::Step);
    assert_eq!(
        output.commands[0],
        CommandPayload::CommitWorld(vec![WorldCommand::RemoveObject(ObjectId::new(0))])
    );
}

fn set_visible(model: &mut UiModel, channel: &ChannelId, visible: bool) {
    set_layer(
        &mut model.field_layers,
        channel,
        visible,
        FieldLayerSettings::default(),
    );
}

#[test]
fn published_vector_channels_get_independent_visualization_layers() {
    let mut view = view();
    let mut model = model();
    let published = vector_channel();

    assert_eq!(view.vector_channels, vec![vector_channel()]);
    model.synchronize_field_layers(&view);
    assert!(model.field_layers.get(&published).unwrap().visible);

    let second = scalar_channel();
    view.vector_channels.push(scalar_channel());
    model.synchronize_field_layers(&view);
    assert!(!model.field_layers.get(&second).unwrap().visible);

    set_visible(&mut model, &second, true);
    assert!(model.field_layers.get(&published).unwrap().visible);
    assert!(model.field_layers.get(&second).unwrap().visible);
}

#[test]
fn hiding_the_only_field_layer_is_not_undone_on_the_next_frame() {
    let mut view = view();
    view.vector_channels = vec![vector_channel()];
    let mut model = model();

    model.synchronize_field_layers(&view);
    assert!(
        model.field_layers.get(&vector_channel()).unwrap().visible,
        "a scene that has never shown a field opens showing one"
    );

    set_visible(&mut model, &vector_channel(), false);
    for _ in 0..3 {
        model.synchronize_field_layers(&view);
        assert!(
            !model.field_layers.get(&vector_channel()).unwrap().visible,
            "the layer was hidden by the user and must stay hidden"
        );
    }
}

#[test]
fn a_new_channel_does_not_reveal_itself_over_a_hidden_scene() {
    let mut view = view();
    view.vector_channels = vec![vector_channel()];
    let mut model = model();
    model.synchronize_field_layers(&view);
    set_visible(&mut model, &vector_channel(), false);

    let arrived = scalar_channel();
    view.vector_channels.push(scalar_channel());
    model.synchronize_field_layers(&view);

    assert!(model.field_layers.contains_key(&arrived));
    assert!(!model.field_layers.get(&arrived).unwrap().visible);
    assert!(!model.field_layers.get(&vector_channel()).unwrap().visible);
}

#[test]
fn the_inspector_shows_simulation_settings_only_for_the_world_node() {
    let snapshot = world();
    let mut model = model();

    model.select_world();
    assert_eq!(inspector(&model, &snapshot), InspectorSubject::Simulation);
    assert_eq!(InspectorSubject::Simulation.heading(), "Simulation");

    model.set_scene_selection(Some(SceneSelection::Object(ObjectId::new(0))));
    assert_eq!(inspector(&model, &snapshot), InspectorSubject::Object(0));

    model.set_scene_selection(Some(SceneSelection::Object(ObjectId::new(77))));
    assert_eq!(inspector(&model, &snapshot), InspectorSubject::Nothing);
    assert_eq!(InspectorSubject::Nothing.heading(), "Inspector");

    model.set_scene_selection(Some(SceneSelection::Probe(ProbeId::new(0))));
    assert_eq!(inspector(&model, &snapshot), InspectorSubject::Probe(0));
}

#[test]
fn the_view_window_offers_both_projections_and_reports_the_active_one() {
    let model = model();
    let labels: Vec<&str> = Projection::all().iter().map(|p| p.label()).collect();
    assert_eq!(labels, vec!["Perspective", "Orthographic"]);

    let mut output = UiFrameOutput::default();
    camera_controls(
        &model,
        Projection::Perspective,
        CameraInput::Projection(Projection::Perspective),
        &mut output,
    );
    assert_eq!(output.camera_action, None);
    camera_controls(
        &model,
        Projection::Perspective,
        CameraInput::Projection(Projection::Orthographic),
        &mut output,
    );
    assert_eq!(
        output.camera_action,
        Some(CameraAction::SetProjection(Projection::Orthographic))
    );
}

#[test]
fn the_camera_focuses_and_follows_only_what_is_there() {
    let mut model = model();
    let mut output = UiFrameOutput::default();
    camera_controls(
        &model,
        Projection::Perspective,
        CameraInput::Focus,
        &mut output,
    );
    camera_controls(
        &model,
        Projection::Perspective,
        CameraInput::Distance(number(3.0)),
        &mut output,
    );
    assert_eq!(output.camera_action, None);
    assert_eq!(follow_line(&model, &world()), None);

    model.following = Some(ObjectId::new(0));
    assert_eq!(
        follow_line(&model, &world()),
        Some("Following: Test source".to_owned())
    );
    camera_controls(
        &model,
        Projection::Perspective,
        CameraInput::Distance(number(3.0)),
        &mut output,
    );
    assert_eq!(
        output.camera_action,
        Some(CameraAction::SetDistance(number(3.0)))
    );
    camera_controls(
        &model,
        Projection::Perspective,
        CameraInput::StopFollowing,
        &mut output,
    );
    assert_eq!(
        output.camera_action,
        Some(CameraAction::ToggleFollow(ObjectId::new(0)))
    );
    model.following = Some(ObjectId::new(8));
    assert_eq!(
        follow_line(&model, &world()),
        Some("Following: (deleted)".to_owned())
    );

    model.set_scene_selection(Some(SceneSelection::Object(ObjectId::new(0))));
    camera_controls(
        &model,
        Projection::Perspective,
        CameraInput::Focus,
        &mut output,
    );
    assert_eq!(output.camera_action, Some(CameraAction::FocusSelection));
    assert!(output.commands.is_empty());
}

#[test]
fn a_first_run_offers_guidance() {
    let windows = frame_windows(&model());
    assert!(windows.help);
    assert!(!windows.queue);
    assert!(!windows.mcp);
}

#[test]
fn the_transport_bar_says_when_an_edit_is_holding_the_simulation() {
    let model = model();
    let editing = menu_state(&model, &view(), false, true);
    assert!(
        editing.notices().join("\n").contains("paused for edit"),
        "the bar gave no sign the simulation was held"
    );

    let resumed = menu_state(&model, &view(), false, false);
    assert!(!resumed.notices().join("\n").contains("paused for edit"));
}

#[test]
fn a_session_opens_on_the_world_node_rather_than_an_empty_inspector() {
    let model = model();

    assert!(model.world_selected);
    assert_eq!(model.scene_selection(), None);
}

#[test]
fn the_world_node_and_a_scene_selection_are_mutually_exclusive() {
    let mut model = model();
    let object = ObjectId::new(4);

    model.set_scene_selection(Some(SceneSelection::Object(object)));
    assert!(!model.world_selected);
    assert_eq!(
        model.scene_selection(),
        Some(SceneSelection::Object(object))
    );

    model.select_world();
    assert!(model.world_selected);
    assert_eq!(model.scene_selection(), None);

    model.set_scene_selection(None);
    assert!(!model.world_selected);
}

#[test]
fn viewport_helpers_are_independently_visible_by_default() {
    let model = model();

    assert!(model.view.grid);
    assert!(model.view.axes);
    assert!(model.view.objects);
    assert!(model.view.auxiliary_objects);
    assert!(!model.view.compute_bounds);
    assert!(model.view.probes);
    assert!(model.view.planes);
}

#[test]
fn a_view_toggle_switches_itself_alone() {
    let mut model = model();
    for toggle in ViewToggle::primary_entries() {
        assert!(toggle.is_on(&model.view));
        toggle.set(&mut model.view, false);
        assert!(!toggle.is_on(&model.view));
        assert!(ViewToggle::Probes.is_on(&model.view));
    }
    assert_eq!(ViewToggle::Grid.label(), "Grid");
    assert_eq!(
        ViewToggle::Grid.hover(),
        "Construction grid on the XY plane"
    );
}

#[test]
fn library_file_round_trips_and_first_use_is_empty() {
    let first = load_from(LibraryFile::Missing).unwrap();
    assert_eq!(first, UserConstantLibrary::default());
    assert!(first.constants.is_empty());
    let library = UserConstantLibrary::default();
    assert_eq!(
        load_from(LibraryFile::Parsed(UserConstantLibrary::default())).unwrap(),
        library
    );
}

#[test]
fn a_library_that_cannot_be_taken_says_why() {
    let newer = UserConstantLibrary {
        format_version: 2,
        ..UserConstantLibrary::default()
    };
    assert_eq!(
        load_from(LibraryFile::Parsed(newer)).unwrap_err().message(),
        "unsupported user constant library format 'fieldcad.user-constants/v1' version 2"
    );
    let other = UserConstantLibrary {
        format: "other/v1".to_owned(),
        ..UserConstantLibrary::default()
    };
    assert_eq!(
        load_from(LibraryFile::Parsed(other)).unwrap_err(),
        UserConstantLibraryError::Unsupported {
            format: "other/v1".to_owned(),
            version: 1
        }
    );
    assert_eq!(
        load_from(LibraryFile::Unreadable("denied".to_owned()))
            .unwrap_err()
            .message(),
        "denied"
    );
    assert_eq!(
        load_from(LibraryFile::Malformed("expected value".to_owned())).unwrap_err(),
        UserConstantLibraryError::Json("expected value".to_owned())
    );
    assert_eq!(
        UserConstantLibraryError::NoConfigurationDirectory.message(),
        "no user configuration directory is available"
    );
}

#[test]
fn a_scene_scale_is_named_by_its_preset() {
    let scales = vec![
        NamedScale {
            preset: ScalePreset::Millimetre,
            metres: number(1.0e-3),
        },
        NamedScale {
            preset: ScalePreset::Metre,
            metres: number(1.0),
        },
    ];
    assert_eq!(scene_scale_label(number(1.0), &scales), "Metre (default)");
    assert_eq!(scene_scale_label(number(0.001), &scales), "Millimetre");
    assert_eq!(scene_scale_label(number(2.0), &scales), "Custom");

    let mut output = UiFrameOutput::default();
    choose_scale(&view(), number(1.0), &mut output);
    type_scale(&view(), number(2.0), false, &mut output);
    assert!(output.commands.is_empty());
    choose_scale(&view(), number(1.0e-3), &mut output);
    type_scale(&view(), number(2.0), true, &mut output);
    assert_eq!(
        output.commands,
        vec![
            CommandPayload::SetSceneScale(number(1.0e-3)),
            CommandPayload::SetSceneScale(number(2.0)),
        ]
    );
}

#[test]
fn the_scene_panel_groups_its_contents_into_named_sections() {
    let world = world();
    let titles = [
        inspector(&model(), &world).heading().to_owned(),
        objects_title(&world),
        measurement_title(&world),
    ];
    let text = titles.join("\n");

    for heading in ["Simulation", "Objects", "Measurement"] {
        assert!(
            text.contains(heading),
            "the scene panel has no {heading} section: {text}"
        );
    }
    assert!(text.contains("Objects (1)"), "{text}");
    assert!(text.contains("Measurement (1)"), "{text}");
}

#[test]
fn a_new_model_starts_from_the_defaults() {
    let model = model();
    assert_eq!(model.view, ViewOptions::default());
    assert_eq!(model.view.gizmo_display, GizmoDisplay::default());
    assert_eq!(model.field_brush, FieldBrushDraft::default());
    assert_eq!(model.field_brush.radius_metres, number(0.5));
    assert_eq!(model.field_brush.strength, number(1.0));
    assert_eq!(model.diagnostics_config.update_interval_ms, 250);
    assert!(model.diagnostics_config.show_solver_diagnostics);
}

#[test]
fn a_frame_in_which_nothing_happened_makes_no_gesture() {
    let gesture = show(&mut model(), &view()).viewport_gesture;
    assert_eq!(gesture.pointer_position, None);
    assert!(!gesture.shift);
    assert_eq!(
        gesture.drag_delta,
        Vec2 {
            x: number(0.0),
            y: number(0.0)
        }
    );
}
