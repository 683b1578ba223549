use fieldcad_desktop::command::{CommandPayload, UiFrameOutput};
use fieldcad_desktop::expression::{ConstantDefinition, ConstantFields, ConstantScope, ExportedVariable, ExpressionCommand, ExpressionSubject, PropertyBinding, PropertyTarget, UserConstantLibrary};
use fieldcad_desktop::expression_editor::{AddConstantControl, ConstantInput, LibraryStep, NewConstantInput, UPPER_HALF, add_user_constant, already_imported, applied_preview, can_add, candidate_document, candidate_line, constant_draft, constant_edits, document_symbols, draft_note, global_hover, global_label, import_global, insert_symbol, insert_user_constant, library_diagnostic, library_draft, library_note, library_offers, library_refused, library_saved, library_step, next_document_id, next_user_id, refresh_constant, refresh_offered, remove_constant, settle_constant, user_label};
use fieldcad_desktop::ids::{ComponentTypeId, ConstantId, ObjectId, PluginId, PropertyId};
use fieldcad_desktop::measured::Number;
use fieldcad_desktop::model::UiModel;
use fieldcad_desktop::object_inspector::{FormulaDraft, FormulaInput, edit_literal, find_binding, resolved_property};
use fieldcad_desktop::ordered::OrderedMap;
use fieldcad_desktop::preview::{DraftPreview, EvaluationResult, ExpressionError};
use fieldcad_desktop::world::PropertyValue;

fn number(value: f64) -> Number {
    Number {
        bits: value.to_bits(),
    }
}

fn plugin(text: &str) -> PluginId {
    PluginId {
        text: text.to_owned(),
    }
}

fn constant(id: u64, scope: ConstantScope, name: &str, source: &str) -> ConstantDefinition {
    ConstantDefinition {
        id: ConstantId::new(id),
        scope,
        name: name.to_owned(),
        source: source.to_owned(),
        revision: None,
        provenance: None,
        origin: None,
    }
}

fn document_constant(id: u64, name: &str) -> ConstantDefinition {
    constant(id, ConstantScope::Document, name, "1 m")
}

fn failure(message: &str) -> ExpressionError {
    ExpressionError {
        message: message.to_owned(),
        span: None,
    }
}

fn nothing_new() -> NewConstantInput {
    NewConstantInput {
        enter: false,
        add: false,
        escape: false,
        cancel: false,
    }
}

#[test]
fn a_candidate_is_tried_once_it_is_named_and_defined() {
    let existing = vec![document_constant(1, "a")];
    assert!(candidate_document(ConstantScope::Document, " ", "1 m", &existing).is_none());
    assert!(candidate_document(ConstantScope::Document, "b", "", &existing).is_none());
    let tried = candidate_document(ConstantScope::User, " b ", " 2 m ", &existing).unwrap();
    assert!(tried.bindings.is_empty());
    assert_eq!(
        tried.constants,
        vec![
            document_constant(1, "a"),
            constant(u64::MAX, ConstantScope::User, "b", "2 m"),
        ]
    );
}

#[test]
fn a_candidate_is_added_only_if_it_has_a_value() {
    assert!(!can_add(&None));
    assert!(!can_add(&Some(Err(failure("bad")))));
    assert!(can_add(&Some(Ok("2 m".to_owned()))));
    assert_eq!(
        candidate_line(&Some(Ok("2 m".to_owned()))),
        Some("= 2 m".to_owned())
    );
    assert_eq!(
        candidate_line(&Some(Err(failure("bad")))),
        Some("bad".to_owned())
    );
    assert_eq!(candidate_line(&None), None);
}

#[test]
fn a_new_constant_starts_over_after_it_was_added_or_given_up() {
    let mut control = AddConstantControl::new();
    assert!(!control.opened());
    control.show();
    assert!(control.opened());
    assert_eq!(control.fields().source, "1 m");
    control.fields().name = "speed".to_owned();

    let added = NewConstantInput {
        enter: true,
        ..nothing_new()
    };
    assert!(control.settle(added, &Some(Err(failure("bad")))).is_none());
    assert!(control.opened());
    let fields = control.settle(added, &Some(Ok("1 m".to_owned()))).unwrap();
    assert_eq!(fields.name, "speed");
    assert!(!control.opened());

    control.show();
    assert_eq!(control.fields().name, "");
    control.fields().source = "3 m".to_owned();
    assert!(control
        .settle(
            NewConstantInput {
                escape: true,
                ..nothing_new()
            },
            &None
        )
        .is_none());
    assert!(!control.opened());
    assert_eq!(control.fields().source, "1 m");
}

#[test]
fn symbols_name_their_scope() {
    let constants = vec![
        document_constant(1, "a"),
        constant(2, ConstantScope::User, "b", "1"),
    ];
    let symbols = document_symbols(&constants);
    assert_eq!(symbols[0], format!("{}.a", ConstantScope::Document.label()));
    assert_eq!(symbols[1], format!("{}.b", ConstantScope::User.label()));
    assert_eq!(user_label(&constants[1]), "user.b");
    let mut source = "2 * ".to_owned();
    insert_symbol(&mut source, "user.b");
    assert_eq!(source, "2 * user.b");
}

fn variable() -> ExportedVariable {
    ExportedVariable {
        plugin: plugin("gravity"),
        property: PropertyId {
            text: "g".to_owned(),
        },
        description: None,
        default_literal: "9.81 m/s^2".to_owned(),
    }
}

#[test]
fn a_plugin_variable_is_imported_once_as_a_constant_of_the_document() {
    let existing = vec![document_constant(4, "a")];
    assert_eq!(global_label(&variable()), "global.gravity.g");
    assert_eq!(global_hover(&variable()), "No description");
    assert!(!already_imported(&existing, &variable()));
    let mut output = UiFrameOutput::default();
    import_global(&variable(), &existing, &mut output);
    let CommandPayload::CommitExpressions(commands) = &output.commands[0] else {
        panic!("an import is an expression transaction");
    };
    let ExpressionCommand::ImportGlobalConstants(imported) = &commands[0] else {
        panic!("an import embeds a constant");
    };
    assert_eq!(imported[0].id, ConstantId::new(5));
    assert_eq!(imported[0].name, "g");
    assert_eq!(imported[0].source, "9.81 m/s^2");
    assert_eq!(imported[0].provenance, Some("plugin gravity".to_owned()));
    assert!(already_imported(imported, &variable()));
}

#[test]
fn a_user_constant_is_embedded_with_what_it_depends_on() {
    let mut source = String::new();
    let mut output = UiFrameOutput::default();
    let wanted = constant(9, ConstantScope::User, "c", "1 m");
    let problem = insert_user_constant(
        &mut source,
        &wanted,
        Err("cycle".to_owned()),
        &mut output,
    );
    assert_eq!(problem, Some("cycle".to_owned()));
    assert_eq!(source, "user.c");
    assert!(output.commands.is_empty());
    let problem = insert_user_constant(
        &mut source,
        &wanted,
        Ok(vec![constant(9, ConstantScope::User, "c", "1 m")]),
        &mut output,
    );
    assert_eq!(problem, None);
    assert_eq!(
        output.commands,
        vec![CommandPayload::CommitExpressions(vec![
            ExpressionCommand::ImportUserConstants(vec![constant(
                9,
                ConstantScope::User,
                "c",
                "1 m"
            )])
        ])]
    );
    assert!(refresh_offered(&wanted, &vec![ConstantId::new(9)]));
    assert!(!refresh_offered(&wanted, &Vec::new()));
    assert!(!refresh_offered(
        &document_constant(9, "c"),
        &vec![ConstantId::new(9)]
    ));
    assert_eq!(
        refresh_constant(Err("gone".to_owned()), &mut output),
        Some("gone".to_owned())
    );
    assert_eq!(output.commands.len(), 1);
}

#[test]
fn identities_are_new_in_their_own_half() {
    let document = vec![
        document_constant(3, "a"),
        constant(UPPER_HALF + 7, ConstantScope::User, "b", "1"),
        document_constant(2, "c"),
    ];
    assert_eq!(next_document_id(&document), ConstantId::new(4));
    assert_eq!(next_document_id(&Vec::new()), ConstantId::new(1));
    let library = vec![constant(UPPER_HALF + 7, ConstantScope::User, "b", "1")];
    assert_eq!(next_user_id(&library), ConstantId::new(UPPER_HALF + 8));
    assert_eq!(next_user_id(&Vec::new()), ConstantId::new(UPPER_HALF + 1));
    assert_eq!(
        next_document_id(&vec![document_constant(u64::MAX, "last")]),
        ConstantId::new(UPPER_HALF - 1)
    );
}

#[test]
fn only_what_changed_of_a_constant_is_submitted() {
    let accepted = document_constant(3, "a");
    let fields = |name: &str, source: &str| ConstantFields {
        name: name.to_owned(),
        source: source.to_owned(),
    };
    assert!(constant_edits(&fields("a", "1 m"), &accepted).is_empty());
    assert_eq!(
        constant_edits(&fields("b", "2 m"), &accepted),
        vec![
            ExpressionCommand::RenameConstant {
                constant: ConstantId::new(3),
                name: "b".to_owned(),
            },
            ExpressionCommand::SetConstantSource {
                constant: ConstantId::new(3),
                source: "2 m".to_owned(),
            },
        ]
    );
}

fn idle() -> ConstantInput {
    ConstantInput {
        focused: false,
        enter: false,
        apply: false,
        escape: false,
        reset: false,
        delete: false,
    }
}

fn valid_preview() -> DraftPreview {
    DraftPreview {
        values: Some(EvaluationResult {
            constants: Vec::new(),
            properties: Vec::new(),
        }),
        diagnostic: None,
        dependents: Vec::new(),
    }
}

#[test]
fn a_row_is_applied_given_up_or_deleted() {
    let accepted = document_constant(3, "a");
    let mut draft = constant_draft(None, &accepted, "h");
    draft.edited_mut().name = "b".to_owned();
    let edits = || constant_edits(&ConstantFields { name: "b".to_owned(), source: "1 m".to_owned() }, &accepted);
    let mut output = UiFrameOutput::default();

    let apply = ConstantInput {
        focused: true,
        apply: true,
        ..idle()
    };
    let refused = applied_preview(
        Err(failure("taken")),
        ExpressionSubject::Constant(ConstantId::new(3)),
        &Vec::new(),
    );
    assert!(!refused.valid());
    settle_constant(
        &mut draft,
        &accepted,
        edits(),
        &Some(refused),
        apply,
        &mut output,
    );
    assert!(output.commands.is_empty());
    assert!(output.scene_edit_in_progress);

    settle_constant(
        &mut draft,
        &accepted,
        edits(),
        &Some(valid_preview()),
        apply,
        &mut output,
    );
    assert_eq!(output.commands.len(), 1);
    assert_eq!(
        draft_note(&draft),
        Some("Awaiting authoritative acknowledgement…")
    );

    settle_constant(
        &mut draft,
        &accepted,
        edits(),
        &None,
        ConstantInput {
            reset: true,
            delete: true,
            ..idle()
        },
        &mut output,
    );
    assert!(!draft.dirty());
    assert_eq!(
        output.commands[1],
        CommandPayload::CommitExpressions(vec![ExpressionCommand::RemoveConstant(
            ConstantId::new(3)
        )])
    );
}

#[test]
fn a_library_keeps_what_it_saved() {
    let mut model = UiModel::new(UserConstantLibrary::default());
    let mut draft = library_draft(None, &model.user_constants, "h0");
    add_user_constant(
        &mut draft.edited_mut().constants,
        &ConstantFields {
            name: " c ".to_owned(),
            source: "2 m".to_owned(),
        },
    );
    assert_eq!(library_step(false, false, true, false), LibraryStep::Refuse);
    assert_eq!(library_step(false, false, true, true), LibraryStep::Save);
    assert_eq!(library_step(false, false, false, true), LibraryStep::Keep);
    library_refused(&mut model);
    assert_eq!(
        model.user_constants_status,
        Some("Invalid library draft was not saved".to_owned())
    );
    library_saved(&mut model, &mut draft, Err("disk full".to_owned()), "h1");
    assert_eq!(model.user_constants_status, Some("disk full".to_owned()));
    assert!(model.user_constants.constants.is_empty());
    assert!(draft.dirty());
    library_saved(&mut model, &mut draft, Ok(()), "h1");
    assert_eq!(model.user_constants_status, None);
    assert_eq!(
        model.user_constants.constants,
        vec![constant(UPPER_HALF + 1, ConstantScope::User, "c", "2 m")]
    );
    assert!(!draft.dirty());
    remove_constant(
        &mut draft.edited_mut().constants,
        ConstantId::new(UPPER_HALF + 1),
    );
    assert!(draft.edited().constants.is_empty());
    assert_eq!(library_note(&draft), None);
    assert_eq!(
        library_diagnostic(&failure("cycle")),
        "Library diagnostic: cycle"
    );
}

fn target() -> PropertyTarget {
    PropertyTarget {
        object: ObjectId::new(2),
        component: ComponentTypeId {
            plugin: plugin("sources"),
            name: "mass".to_owned(),
            written: "sources/mass".to_owned(),
        },
        property: PropertyId {
            text: "kg".to_owned(),
        },
        written: "object 2 · sources/mass · kg".to_owned(),
    }
}

fn no_formula_input() -> FormulaInput {
    FormulaInput {
        enter: false,
        apply: false,
        cancel: false,
        escape: false,
    }
}

#[test]
fn a_property_takes_a_formula_and_freezes_to_a_number() {
    let mut draft = FormulaDraft::bring_up(None, None, "1 kg".to_owned(), "h");
    assert!(!draft.active);
    assert_eq!(draft.formula.edited(), "1 kg");
    draft.activate();
    assert!(draft.active);
    *draft.formula.edited_mut() = "document.a".to_owned();
    let mut output = UiFrameOutput::default();
    draft.settle(
        &target(),
        &valid_preview(),
        FormulaInput {
            apply: true,
            ..no_formula_input()
        },
        &mut output,
    );
    assert_eq!(
        output.commands,
        vec![CommandPayload::CommitExpressions(vec![
            ExpressionCommand::SetPropertyExpression(PropertyBinding {
                target: target(),
                source: "document.a".to_owned(),
            })
        ])]
    );
    let bound = PropertyBinding {
        target: target(),
        source: "document.a".to_owned(),
    };
    let bindings = vec![bound];
    assert!(find_binding(&bindings, &target()).is_some());
    let mut frozen = FormulaDraft::bring_up(None, Some(&bindings[0]), String::new(), "h");
    assert!(frozen.active);
    frozen.freeze(&target(), &mut output);
    assert!(!frozen.active);
    assert_eq!(
        output.commands[1],
        CommandPayload::CommitExpressions(vec![ExpressionCommand::ClearPropertyExpression(
            target()
        )])
    );
}

#[test]
fn a_property_shows_the_number_its_formula_comes_to() {
    let preview = DraftPreview {
        values: Some(EvaluationResult {
            constants: Vec::new(),
            properties: vec![(target(), number(2.5))],
        }),
        diagnostic: None,
        dependents: Vec::new(),
    };
    assert_eq!(resolved_property(&preview, &target()), Some(number(2.5)));
    let mut values = OrderedMap::new();
    let id = || PropertyId {
        text: "kg".to_owned(),
    };
    assert!(edit_literal(&mut values, &id(), number(1.0), true, false));
    assert_eq!(values.get(&id()), None);
    assert!(!edit_literal(&mut values, &id(), number(1.0), false, true));
    assert!(edit_literal(&mut values, &id(), number(1.0), true, true));
    assert_eq!(
        values.get(&id()),
        Some(&PropertyValue::Scalar(number(1.0)))
    );
}

#[test]
fn only_constants_that_are_not_embedded_are_offered_from_the_library() {
    let user = |id: u64, name: &str| constant(id, ConstantScope::User, name, "1 m");
    let library = vec![user(1, "a"), user(2, "b"), user(3, "c")];
    let document = vec![document_constant(1, "a"), user(2, "b")];
    assert_eq!(library_offers(&document, &library), vec![0, 2]);
    assert_eq!(library_offers(&Vec::new(), &library), vec![0, 1, 2]);
    assert!(library_offers(&library, &library).is_empty());
}
