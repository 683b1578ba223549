use fieldcad_desktop::catalog::{CatalogEditorDraft, CatalogEntry, CatalogRow, LoadResult, MapRow, TemplateIdentity, catalog_row, draft_errors};
use fieldcad_desktop::catalog_window::{CatalogInput, EditorState, TemplateKind, catalog_window, choose_template_kind, delete_entry, editor_heading, editor_state, entry_selected, map_editor, quick_add_label, read_only, save_entry};
use fieldcad_desktop::command::{AppAction, CatalogAction, CommandPayload, McpAction, UiFrameOutput};
use fieldcad_desktop::compute::{ComputeView, SourceReport};
use fieldcad_desktop::expression::{ExpressionDocument, ExpressionState, UserConstantLibrary};
use fieldcad_desktop::ids::{ChannelId, CommandId, ComponentTypeId, ObjectId, PluginId, ProbeId, SchemeId};
use fieldcad_desktop::measured::{Number, Vec3, identity, origin};
use fieldcad_desktop::model::{DiagnosticsConfig, UiModel, ViewportTool};
use fieldcad_desktop::ordered::OrderedMap;
use fieldcad_desktop::source::{BoundaryCondition, BoundaryConditions, ChannelSchema, CommandLifecycle, CommandRecord, DataSourceStatus, DiagnosticSeverity, Domain, EditHistoryStatus, FieldSnapshot, FieldSystemStatus, FieldValueKind, PluginDescriptor, Precision, ProbeSample, QueueStatus, QueueSummary, SampleValidity, SimulationMode, SnapshotChannel, SnapshotFreshness, SolverDiagnostic, Subscription, UVec3};
use fieldcad_desktop::transport::{MenuEvent, brush_choice, brush_field_label, choose_brush_field, menu_bar};
use fieldcad_desktop::windows::{McpSession, Metrics, SceneInfo, cancel_command, connection_line, diagnostics_window, history_order, mcp_button, mcp_window, queue_heading, queue_record_row, server_failure_line, server_url, toggle_queue};
use fieldcad_desktop::world::{CatalogOrigin, CatalogReference, Component, Dimension, ObjectShape, Probe, ProbePosition, Transform, Velocity, WorldObject, WorldSnapshot};

fn number(value: f64) -> Number {
    Number {
        bits: value.to_bits(),
    }
}

fn vec3(x: f64, y: f64, z: f64) -> Vec3 {
    Vec3 {
        x: number(x),
        y: number(y),
        z: number(z),
    }
}

fn plugin(text: &str) -> PluginId {
    PluginId {
        text: text.to_owned(),
    }
}

fn channel(plugin_name: &str, name: &str) -> ChannelId {
    ChannelId {
        plugin: plugin(plugin_name),
        name: name.to_owned(),
        written: format!("{plugin_name}/{name}"),
    }
}

fn scalar_channel() -> ChannelId {
    channel("test", "scalar")
}

fn vector_channel() -> ChannelId {
    channel("test", "vector")
}

fn length() -> Dimension {
    Dimension {
        written: "m".to_owned(),
        unit_symbol: "m".to_owned(),
    }
}

fn scalar_schema() -> ChannelSchema {
    ChannelSchema {
        id: scalar_channel(),
        display_name: "Linear scalar".to_owned(),
        value_kind: FieldValueKind::Scalar(length()),
    }
}

fn vector_schema() -> ChannelSchema {
    ChannelSchema {
        id: vector_channel(),
        display_name: "Linear vector".to_owned(),
        value_kind: FieldValueKind::Vector(length()),
    }
}

fn system(id: &str, enabled: bool, channels: Vec<ChannelSchema>) -> FieldSystemStatus {
    FieldSystemStatus {
        plugin: PluginDescriptor {
            id: plugin(id),
            display_name: format!("{id} field"),
            description: "A field".to_owned(),
            version: "1".to_owned(),
        },
        enabled,
        realtime: true,
        channels,
        mutable_vector_channels: Vec::new(),
        component_schemas: Vec::new(),
        configuration: OrderedMap::new(),
        configuration_schema: Vec::new(),
    }
}

fn domain() -> Domain {
    Domain {
        min: vec3(-4.0, -4.0, -4.0),
        max: vec3(4.0, 4.0, 4.0),
        cells: UVec3 { x: 8, y: 8, z: 8 },
        cell_count: 512,
        boundaries: BoundaryConditions::uniform(BoundaryCondition::Open),
        precision: Precision::F64,
    }
}

fn snapshot(sequence: u64) -> FieldSnapshot {
    FieldSnapshot {
        sequence,
        domain: domain(),
        channels: vec![
            SnapshotChannel {
                schema: scalar_schema(),
                provider: plugin("test"),
                batch_lengths: vec![1],
                probe_samples: vec![ProbeSample {
                    probe: ProbeId::new(0),
                    value: "1.800000 m".to_owned(),
                    validity: SampleValidity::Exact,
                }],
            },
            SnapshotChannel {
                schema: vector_schema(),
                provider: plugin("test"),
                batch_lengths: vec![512, 64],
                probe_samples: Vec::new(),
            },
        ],
        diagnostics: vec![
            SolverDiagnostic {
                plugin: plugin("test"),
                severity: DiagnosticSeverity::Warning,
                message: "coarse lattice".to_owned(),
            },
            SolverDiagnostic {
                plugin: plugin("gone"),
                severity: DiagnosticSeverity::Error,
                message: "not composed".to_owned(),
            },
        ],
    }
}

fn world() -> WorldSnapshot {
    WorldSnapshot {
        objects: vec![WorldObject {
            id: ObjectId::new(0),
            name: "Test source".to_owned(),
            color: None,
            visible: true,
            derived: false,
            pinned: false,
            transform: Transform {
                translation: vec3(0.0, 0.0, 0.6),
                rotation: identity(),
            },
            velocity: Velocity {
                linear: origin(),
                angular: origin(),
            },
            shape: Some(ObjectShape::Box {
                half_extent: vec3(0.6, 0.6, 0.6),
            }),
            components: Vec::new(),
            catalog_link: None,
        }],
        planes: Vec::new(),
        boxes: Vec::new(),
        spheres: Vec::new(),
        probes: vec![Probe {
            id: ProbeId::new(0),
            name: "Origin probe".to_owned(),
            visible: true,
            position: ProbePosition::World(vec3(0.0, 0.0, 0.6)),
            channels: vec![scalar_channel()],
        }],
        distance_probes: Vec::new(),
        mass_aggregate_probes: Vec::new(),
        component_schemas: Vec::new(),
    }
}

fn report(
    sequence: u64,
    systems: Vec<FieldSystemStatus>,
    queue: QueueStatus,
    summary: QueueSummary,
) -> SourceReport {
    SourceReport {
        description: "Local".to_owned(),
        status: DataSourceStatus::Ready,
        domain: domain(),
        scene_scale: number(1.0),
        mode: SimulationMode::Paused,
        tick: 3,
        time_seconds: number(0.3),
        time_step_seconds: number(0.1),
        playback_speed: number(1.0),
        pending_commands: 0,
        queue_summary: summary,
        queue,
        world_revision: 7,
        snapshot: Some(snapshot(sequence)),
        freshness: Some(SnapshotFreshness::Current),
        field_systems: systems,
        edit_history: EditHistoryStatus {
            undo: None,
            redo: None,
        },
        subscription: Subscription {
            planes: None,
            domain_stride: None,
            boxes: None,
            spheres: None,
        },
        integration_scheme: SchemeId::new(0),
        expressions: ExpressionDocument {
            constants: Vec::new(),
            bindings: Vec::new(),
        },
        expression_state: ExpressionState {
            graph_hash: "hash".to_owned(),
            nodes: Vec::new(),
        },
        resolved_constants: OrderedMap::new(),
        global_variables: Vec::new(),
        body_forces: OrderedMap::new(),
        mass_aggregates: OrderedMap::new(),
        step_compute_ms: number(0.0),
    }
}

fn empty_queue() -> QueueStatus {
    QueueStatus {
        paused: false,
        pending: Vec::new(),
        history: Vec::new(),
    }
}

fn empty_summary() -> QueueSummary {
    QueueSummary {
        paused: false,
        pending_len: 0,
        history_len: 0,
        newest_history: None,
    }
}

fn systems(enabled: bool) -> Vec<FieldSystemStatus> {
    vec![system(
        "test",
        enabled,
        vec![scalar_schema(), vector_schema()],
    )]
}

fn view() -> ComputeView {
    ComputeView::build(
        report(1, systems(true), empty_queue(), empty_summary()),
        &world(),
        None,
    )
}

fn record(id: u64, kind: &str) -> CommandRecord {
    CommandRecord {
        command: CommandId::new(id),
        kind: kind.to_owned(),
        state: CommandLifecycle::Applied,
        error: None,
    }
}

fn reference(origin: CatalogOrigin, template: &str) -> CatalogReference {
    CatalogReference {
        origin,
        source: "builtin".to_owned(),
        catalog: "Bodies".to_owned(),
        template: template.to_owned(),
    }
}

fn entry(template: &str, result: LoadResult) -> CatalogEntry {
    CatalogEntry {
        reference: Some(reference(CatalogOrigin::Global, template)),
        identity: Some(TemplateIdentity {
            catalog: "Bodies".to_owned(),
            template: template.to_owned(),
        }),
        file: "bodies.toml".to_owned(),
        document_ordinal: 2,
        result,
    }
}

fn available() -> LoadResult {
    LoadResult::Available {
        description: Some("A planet".to_owned()),
    }
}

#[test]
fn a_catalog_is_searched_without_regard_to_case() {
    let earth = entry("Earth", available());
    assert!(catalog_row(&earth, "MOON").is_none());
    assert_eq!(
        catalog_row(&earth, "eAR"),
        Some(CatalogRow::Entry {
            label: "Bodies/Earth".to_owned(),
            state: "available",
            available: true,
            source: "bodies.toml (document #2)".to_owned(),
            detail: "A planet".to_owned(),
        })
    );
    let broken = entry(
        "Mars",
        LoadResult::Invalid {
            diagnostics: vec!["no shape".to_owned(), "no name".to_owned()],
        },
    );
    assert!(matches!(
        catalog_row(&broken, "bodies.TOML"),
        Some(CatalogRow::Entry { state: "invalid", available: false, detail, .. })
            if detail == "no shape; no name"
    ));
    let unreadable = CatalogEntry {
        reference: None,
        ..entry("x", available())
    };
    assert_eq!(
        catalog_row(&unreadable, ""),
        Some(CatalogRow::Unreadable("bodies.toml — invalid".to_owned()))
    );
    assert_eq!(catalog_row(&unreadable, "bodies"), None);
}

fn draft_of(template: &str) -> CatalogEditorDraft {
    CatalogEditorDraft {
        source: reference(CatalogOrigin::Global, template),
        catalog: "Bodies".to_owned(),
        template: template.to_owned(),
        description: String::new(),
        author: String::new(),
        labels: Vec::new(),
        annotations: Vec::new(),
        object_kind: "body".to_owned(),
        shape: None,
        components: Vec::new(),
    }
}

fn row(key: &str) -> MapRow {
    MapRow {
        key: key.to_owned(),
        value: String::new(),
    }
}

#[test]
fn everything_wrong_with_a_draft_is_listed() {
    let entries = vec![entry("Earth", available()), entry("Mars", available())];
    let clean = draft_of("Earth");
    assert!(draft_errors(&clean, &entries, &None, &None, &Vec::new()).is_empty());

    let mut draft = draft_of("Earth");
    draft.template = " Mars ".to_owned();
    draft.labels = vec![row(" "), row("a"), row("a ")];
    draft.annotations = vec![row("b"), row("b")];
    draft.object_kind = " ".to_owned();
    draft.shape = Some(ObjectShape::Sphere {
        radius: number(-1.0),
    });
    let mass = || Component {
        id: ComponentTypeId {
            plugin: plugin("sources"),
            name: "mass".to_owned(),
            written: "sources/mass".to_owned(),
        },
        properties: OrderedMap::new(),
    };
    draft.components = vec![mass(), mass()];
    assert_eq!(
        draft_errors(
            &draft,
            &entries,
            &None,
            &None,
            &vec![vec!["too heavy".to_owned()], Vec::new()]
        ),
        vec![
            "Bodies/Mars already exists in the effective catalog",
            "label keys cannot be blank",
            "duplicate label key 'a '",
            "duplicate annotation key 'b'",
            "Object kind cannot be blank",
            "Shape extents must be finite and positive",
            "sources/mass: too heavy",
            "Duplicate component sources/mass",
        ]
    );
    assert_eq!(
        draft_errors(
            &clean,
            &entries,
            &Some("empty".to_owned()),
            &Some("bad".to_owned()),
            &Vec::new()
        ),
        vec!["Catalog: empty", "Template name: bad"]
    );
}

#[test]
fn the_catalog_window_asks_for_what_was_pressed() {
    let mut model = UiModel::new(UserConstantLibrary::default());
    let mut output = UiFrameOutput::default();
    catalog_window(&model, CatalogInput::CreateGlobal, &mut output);
    assert_eq!(output.catalog_action, None);
    model.catalog_new_catalog = "Bodies".to_owned();
    model.catalog_new_template = "Moon".to_owned();
    catalog_window(&model, CatalogInput::CreateDocument, &mut output);
    assert_eq!(
        output.catalog_action,
        Some(CatalogAction::CreateDocument {
            catalog: "Bodies".to_owned(),
            template: "Moon".to_owned(),
        })
    );
    catalog_window(
        &model,
        CatalogInput::ToggleQuickAdd {
            entry: reference(CatalogOrigin::Global, "Earth"),
            hidden: true,
        },
        &mut output,
    );
    assert_eq!(
        output.catalog_action,
        Some(CatalogAction::SetQuickAddHidden {
            entry: reference(CatalogOrigin::Global, "Earth"),
            hidden: false,
        })
    );
    catalog_window(&model, CatalogInput::Reload, &mut output);
    assert_eq!(output.app_action, Some(AppAction::ReloadCatalog));
    assert_eq!(quick_add_label(true), "Hidden");
}

#[test]
fn the_catalog_editor_follows_the_selected_entry() {
    let entries = vec![
        entry("Earth", available()),
        entry(
            "Mars",
            LoadResult::Invalid {
                diagnostics: Vec::new(),
            },
        ),
    ];
    let mut model = UiModel::new(UserConstantLibrary::default());
    assert_eq!(editor_state(&model, &entries), EditorState::NothingSelected);
    model.catalog_selected = Some(reference(CatalogOrigin::Global, "Pluto"));
    assert_eq!(editor_state(&model, &entries), EditorState::Gone);
    model.catalog_selected = Some(reference(CatalogOrigin::Global, "Mars"));
    assert_eq!(editor_state(&model, &entries), EditorState::Unreadable(1));
    model.catalog_selected = Some(reference(CatalogOrigin::Global, "Earth"));
    assert_eq!(editor_state(&model, &entries), EditorState::Preparing(0));
    model.catalog_editor = Some(draft_of("Earth"));
    assert_eq!(editor_state(&model, &entries), EditorState::Editing(0));
    assert!(entry_selected(
        &model,
        &reference(CatalogOrigin::Global, "Earth")
    ));
    assert_eq!(
        editor_heading(&reference(CatalogOrigin::Global, "Earth")),
        "Edit Bodies/Earth"
    );
}

#[test]
fn an_entry_is_saved_or_deleted_only_where_it_can_be_written() {
    let global = reference(CatalogOrigin::Global, "Earth");
    assert!(read_only(&global, true));
    assert!(!read_only(&global, false));
    assert!(!read_only(
        &reference(CatalogOrigin::Document, "Earth"),
        true
    ));
    let mut output = UiFrameOutput::default();
    save_entry(&global, &draft_of("Earth"), true, &Vec::new(), &mut output);
    save_entry(
        &global,
        &draft_of("Earth"),
        false,
        &vec!["wrong".to_owned()],
        &mut output,
    );
    delete_entry(&global, true, &mut output);
    assert_eq!(output.catalog_action, None);
    save_entry(&global, &draft_of("Earth"), false, &Vec::new(), &mut output);
    assert!(matches!(
        &output.catalog_action,
        Some(CatalogAction::SaveEntry { object_kind, .. }) if object_kind == "body"
    ));
    delete_entry(&global, false, &mut output);
    assert_eq!(
        output.catalog_action,
        Some(CatalogAction::DeleteEntry { entry: global })
    );
}

#[test]
fn a_template_is_edited_in_place() {
    let mut draft = draft_of("Earth");
    choose_template_kind(&mut draft, TemplateKind::Sphere);
    assert_eq!(
        draft.shape,
        Some(ObjectShape::Sphere {
            radius: number(0.1)
        })
    );
    draft.shape = Some(ObjectShape::Sphere {
        radius: number(3.0),
    });
    choose_template_kind(&mut draft, TemplateKind::Sphere);
    assert_eq!(
        draft.shape,
        Some(ObjectShape::Sphere {
            radius: number(3.0)
        })
    );
    choose_template_kind(&mut draft, TemplateKind::Shapeless);
    assert_eq!(draft.shape, None);
    let mut rows = vec![row("a"), row("b")];
    map_editor(&mut rows, Some(0), true);
    assert_eq!(rows, vec![row("b"), row("")]);
    map_editor(&mut rows, Some(9), false);
    assert_eq!(rows.len(), 2);
}

#[test]
fn a_queued_command_can_be_cancelled_and_a_rejected_one_says_why() {
    let mut waiting = record(12, "Step");
    waiting.state = CommandLifecycle::Queued;
    waiting.error = Some("hidden".to_owned());
    let listed = queue_record_row(&waiting);
    assert_eq!(listed.number, "#12");
    assert_eq!(listed.state, "Queued");
    assert_eq!(listed.warning, None);
    assert!(listed.cancellable);
    let mut rejected = record(13, "Play");
    rejected.state = CommandLifecycle::Rejected;
    rejected.error = Some("busy".to_owned());
    assert_eq!(queue_record_row(&rejected).warning, Some("busy".to_owned()));
    let mut output = UiFrameOutput::default();
    cancel_command(&rejected, &mut output);
    cancel_command(&waiting, &mut output);
    let queue = QueueStatus {
        paused: true,
        pending: Vec::new(),
        history: vec![record(1, "a"), record(2, "b"), record(3, "c")],
    };
    toggle_queue(&queue, &mut output);
    toggle_queue(&empty_queue(), &mut output);
    assert_eq!(
        output.commands,
        vec![
            CommandPayload::CancelQueuedCommand(CommandId::new(12)),
            CommandPayload::ResumeQueue,
            CommandPayload::PauseQueue,
        ]
    );
    assert_eq!(history_order(&queue), vec![2, 1, 0]);
    assert_eq!(queue_heading(&queue), ("⏸ paused", "Resume queue"));
}

#[test]
fn the_server_window_starts_and_stops_the_server() {
    let running = McpSession::Running {
        token: "SECRET-REDACTED".to_owned(),
        address: "127.0.0.1:1".to_owned(),
    };
    assert_eq!(mcp_window(&running, false), None);
    assert_eq!(mcp_window(&running, true), Some(McpAction::Disable));
    assert_eq!(
        mcp_window(&McpSession::Failed("port".to_owned()), true),
        Some(McpAction::Enable)
    );
    assert_eq!(mcp_button(&McpSession::Disabled), "Enable MCP");
    assert_eq!(connection_line(None), "Checking…");
    assert_eq!(connection_line(Some(0)), "No client connected");
    assert_eq!(connection_line(Some(1)), "1 client connected");
    assert_eq!(connection_line(Some(3)), "3 clients connected");
    assert_eq!(server_url("127.0.0.1:1"), "http://127.0.0.1:1/mcp");
    assert_eq!(server_failure_line("port"), "MCP server failed: port");
}

#[test]
fn diagnostics_show_what_is_switched_on_and_known() {
    let config = DiagnosticsConfig {
        update_interval_ms: 500,
        show_frame_time: true,
        show_memory: true,
        show_cpu: true,
        show_scene_info: true,
        show_solver_step: true,
        show_solver_diagnostics: true,
    };
    let metrics = Metrics {
        frame_samples: 0,
        least_frame_ms: number(f64::INFINITY),
        process_rss_kb: 0,
        process_cpu_ms: number(1.0),
    };
    let shown = diagnostics_window(config, metrics, &view(), &world(), Some("bad"));
    assert_eq!(shown.frame, Some(false));
    assert_eq!(shown.memory, Some("—".to_owned()));
    assert_eq!(shown.cpu, Some(true));
    assert_eq!(shown.step, Some(false));
    assert_eq!(
        shown.scene,
        Some(SceneInfo {
            objects: "1".to_owned(),
            samples: "577".to_owned(),
            compute: "Compute: Local".to_owned(),
        })
    );
    assert!(shown.solver);
    assert_eq!(shown.error, Some("Last command rejected: bad".to_owned()));
}

#[test]
fn the_transport_bar_submits_what_can_be_used() {
    let mut model = UiModel::new(UserConstantLibrary::default());
    let mut output = UiFrameOutput::default();
    let compute = view();
    for event in [
        MenuEvent::Play,
        MenuEvent::Pause,
        MenuEvent::Step,
        MenuEvent::TimeStep {
            seconds: number(0.1),
            valid: true,
        },
        MenuEvent::TimeStep {
            seconds: number(-1.0),
            valid: false,
        },
        MenuEvent::Speed {
            multiplier: number(2.0),
            valid: true,
        },
    ] {
        menu_bar(&mut model, &compute, false, event, &mut output);
    }
    assert_eq!(
        output.commands,
        vec![
            CommandPayload::Play,
            CommandPayload::Step,
            CommandPayload::SetPlaybackSpeed(number(2.0)),
        ]
    );
    menu_bar(
        &mut model,
        &compute,
        false,
        MenuEvent::ChooseTool(ViewportTool::FieldBrush),
        &mut output,
    );
    assert!(model.field_brush_dialog_open);
    model.save_in_progress = true;
    menu_bar(&mut model, &compute, false, MenuEvent::Save, &mut output);
    assert_eq!(output.app_action, None);
    menu_bar(
        &mut model,
        &compute,
        true,
        MenuEvent::StopRecording,
        &mut output,
    );
    assert_eq!(output.app_action, Some(AppAction::StopRecording));
}

#[test]
fn the_brush_takes_only_fields_that_can_be_painted() {
    let mut model = UiModel::new(UserConstantLibrary::default());
    let mut compute = view();
    assert_eq!(brush_field_label(&model, &compute), "Choose a field");
    choose_brush_field(&mut model, &compute, 0);
    assert_eq!(model.field_brush.channel, None);
    compute.mutable_vector_channels = vec![vector_channel()];
    assert!(brush_choice(&model, &compute, 0).writable);
    choose_brush_field(&mut model, &compute, 0);
    assert_eq!(brush_field_label(&model, &compute), "Linear vector");
    assert!(brush_choice(&model, &compute, 0).selected);
}
