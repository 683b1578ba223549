use fieldcad_desktop::draft::AuthorityDraft;
use fieldcad_desktop::expression::{
    ConstantDefinition, ConstantScope, ExpressionDependency, ExpressionDocument,
    ExpressionNodeState, ExpressionNodeStatus, ExpressionSubject, PropertyTarget,
};
use fieldcad_desktop::ids::{
    ComponentTypeId, ConstantId, DistanceProbeId, ObjectId, PluginId, PropertyId,
};
use fieldcad_desktop::preview::{
    affected_line, depends_line, distance_insertions, find_node, preview_document, should_submit,
    span_line, subject_label, transitive_dependents, DraftPreview, EvaluationResult,
    ExpressionDiagnostic, ExpressionError, PlanOutcome, Span,
};
use fieldcad_desktop::world::{DistanceProbe, WorldSnapshot};

fn target() -> PropertyTarget {
    PropertyTarget {
        object: ObjectId::new(0),
        component: ComponentTypeId {
            plugin: PluginId {
                text: "draft.test".to_owned(),
            },
            name: "body".to_owned(),
            written: "draft.test/body".to_owned(),
        },
        property: PropertyId {
            text: "length".to_owned(),
        },
        written: "object 0 · draft.test/body · length".to_owned(),
    }
}

fn constant(id: u64, name: &str, source: &str) -> ConstantDefinition {
    ConstantDefinition {
        id: ConstantId::new(id),
        scope: ConstantScope::Document,
        name: name.to_owned(),
        source: source.to_owned(),
        revision: None,
        provenance: None,
        origin: None,
    }
}

fn node(subject: ExpressionSubject, dependencies: Vec<ExpressionDependency>) -> ExpressionNodeState {
    ExpressionNodeState {
        subject,
        dependencies,
        status: ExpressionNodeStatus::Resolved,
    }
}

fn accepted_nodes() -> Vec<ExpressionNodeState> {
    vec![
        node(ExpressionSubject::Constant(ConstantId::new(1)), Vec::new()),
        node(
            ExpressionSubject::Constant(ConstantId::new(2)),
            vec![ExpressionDependency::Constant(ConstantId::new(1))],
        ),
        node(
            ExpressionSubject::Property(target()),
            vec![
                ExpressionDependency::Constant(ConstantId::new(2)),
                ExpressionDependency::Distance(DistanceProbeId::new(5)),
            ],
        ),
    ]
}

fn accepted_document() -> ExpressionDocument {
    ExpressionDocument {
        constants: vec![
            constant(1, "first", "1 m"),
            constant(2, "second", "doc.first"),
        ],
        bindings: Vec::new(),
    }
}

#[test]
fn preview_reports_owned_span_and_transitive_property_dependents() {
    let first = ConstantId::new(1);
    let second = ConstantId::new(2);
    let preview = preview_document(
        PlanOutcome::CompileError(ExpressionError {
            message: "expected an expression".to_owned(),
            span: Some(Span { start: 1, end: 1 }),
        }),
        ExpressionSubject::Constant(first),
        &accepted_nodes(),
    );
    assert!(!preview.valid());
    assert_eq!(
        preview.dependents,
        vec![
            ExpressionSubject::Constant(second),
            ExpressionSubject::Property(target())
        ]
    );
    assert_eq!(
        affected_line(&preview, &accepted_document()),
        Some("Affected: constant second, object 0 · draft.test/body · length".to_owned())
    );
    let diagnostic = preview.diagnostic.unwrap();
    assert_eq!(diagnostic.subject, ExpressionSubject::Constant(first));
    assert!(diagnostic.error.span.is_some());
    assert_eq!(
        span_line(&diagnostic.error),
        Some("Source bytes 1..1".to_owned())
    );
}

#[test]
fn enter_submits_only_a_valid_dirty_draft() {
    let mut draft = AuthorityDraft::new("1 m".to_owned(), "accepted");
    *draft.edited_mut() = "2 m".to_owned();
    let valid = DraftPreview {
        values: None,
        diagnostic: None,
        dependents: Vec::new(),
    };
    assert!(should_submit(&draft, &valid, true));
    let invalid = DraftPreview {
        values: None,
        diagnostic: Some(ExpressionDiagnostic {
            subject: ExpressionSubject::Constant(ConstantId::new(1)),
            error: ExpressionError {
                message: "cycle".to_owned(),
                span: None,
            },
        }),
        dependents: Vec::new(),
    };
    assert!(!should_submit(&draft, &invalid, true));
    draft.reset();
    assert!(!should_submit(&draft, &valid, true));
}

fn world_with_probe(name: &str) -> WorldSnapshot {
    WorldSnapshot {
        objects: Vec::new(),
        planes: Vec::new(),
        boxes: Vec::new(),
        spheres: Vec::new(),
        probes: Vec::new(),
        distance_probes: vec![DistanceProbe {
            id: DistanceProbeId::new(3),
            name: name.to_owned(),
            visible: true,
            object_a: ObjectId::new(0),
            object_b: ObjectId::new(1),
            show_line: true,
        }],
        mass_aggregate_probes: Vec::new(),
        component_schemas: Vec::new(),
    }
}

#[test]
fn distance_menu_label_follows_rename_but_token_stays_stable() {
    let before = distance_insertions(&world_with_probe("before"));
    let after = distance_insertions(&world_with_probe("after"));
    assert_eq!(before[0].1, after[0].1);
    assert_eq!(after[0].0, "Distance: after");
    assert_eq!(after[0].1, "distance.3");
}

#[test]
fn probes_of_one_name_insert_different_tokens() {
    let mut world = world_with_probe("gap");
    let mut twin = world_with_probe("gap").distance_probes.remove(0);
    twin.id = DistanceProbeId::new(33);
    world.distance_probes.push(twin);
    let insertions = distance_insertions(&world);
    assert_eq!(insertions[0].0, insertions[1].0);
    assert_eq!(insertions[0].1, "distance.3");
    assert_eq!(insertions[1].1, "distance.33");
}

#[test]
fn an_evaluated_preview_is_valid_and_a_failed_one_keeps_its_own_graph() {
    let evaluated = preview_document(
        PlanOutcome::Evaluated {
            values: EvaluationResult {
                constants: Vec::new(),
                properties: Vec::new(),
            },
            nodes: accepted_nodes(),
        },
        ExpressionSubject::Constant(ConstantId::new(2)),
        &Vec::new(),
    );
    assert!(evaluated.valid());
    assert_eq!(
        evaluated.dependents,
        vec![ExpressionSubject::Property(target())]
    );

    let failed = preview_document(
        PlanOutcome::EvaluationError {
            diagnostic: ExpressionDiagnostic {
                subject: ExpressionSubject::Property(target()),
                error: ExpressionError {
                    message: "division by zero".to_owned(),
                    span: None,
                },
            },
            nodes: accepted_nodes(),
        },
        ExpressionSubject::Constant(ConstantId::new(1)),
        &Vec::new(),
    );
    assert!(!failed.valid());
    assert_eq!(failed.dependents.len(), 2);
    assert_eq!(
        failed.diagnostic.unwrap().subject,
        ExpressionSubject::Property(target())
    );
}

#[test]
fn a_cycle_of_constants_ends_the_search_for_dependents() {
    let nodes = vec![
        node(
            ExpressionSubject::Constant(ConstantId::new(1)),
            vec![ExpressionDependency::Constant(ConstantId::new(2))],
        ),
        node(
            ExpressionSubject::Constant(ConstantId::new(2)),
            vec![ExpressionDependency::Constant(ConstantId::new(1))],
        ),
    ];
    let dependents = transitive_dependents(&nodes, &ExpressionSubject::Constant(ConstantId::new(1)));
    assert_eq!(
        dependents,
        vec![
            ExpressionSubject::Constant(ConstantId::new(1)),
            ExpressionSubject::Constant(ConstantId::new(2))
        ]
    );
}

#[test]
fn a_listed_dependent_reads_as_its_node_has_it() {
    let preview = preview_document(
        PlanOutcome::EvaluationError {
            diagnostic: ExpressionDiagnostic {
                subject: ExpressionSubject::Constant(ConstantId::new(2)),
                error: ExpressionError {
                    message: "cycle".to_owned(),
                    span: None,
                },
            },
            nodes: accepted_nodes(),
        },
        ExpressionSubject::Constant(ConstantId::new(2)),
        &Vec::new(),
    );
    assert_eq!(
        preview.dependents,
        vec![ExpressionSubject::Property(target())]
    );
}

#[test]
fn subjects_and_dependencies_are_named_by_the_document() {
    let document = accepted_document();
    assert_eq!(
        subject_label(&ExpressionSubject::Constant(ConstantId::new(2)), &document),
        "constant second"
    );
    assert_eq!(
        subject_label(&ExpressionSubject::Constant(ConstantId::new(9)), &document),
        "constant 9"
    );
    let nodes = accepted_nodes();
    let bound = find_node(&nodes, &ExpressionSubject::Property(target())).unwrap();
    assert_eq!(
        depends_line(bound, &document),
        Some("Depends on: doc.second, distance.5".to_owned())
    );
    assert_eq!(depends_line(&nodes[0], &document), None);
}
