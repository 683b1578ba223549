//! Editing constants: the document's variables, and the user's library of
//! reusable ones.
//!
//! The decisions here hand back finished drafts and commands; drawing, compiling
//! and saving are left to the caller.

use crate::command::{CommandPayload, UiFrameOutput};
use crate::draft::{AuthorityDraft, DraftState, Draftable, SubmissionState};
use crate::expression::{
    ConstantDefinition, ConstantFields, ConstantScope, ExportedVariable, ExpressionCommand,
    ExpressionDocument, ExpressionNodeState, ExpressionNodeStatus, ExpressionSubject, GlobalOrigin,
    UserConstantLibrary,
};
use crate::ids::ConstantId;
use crate::model::UiModel;
use crate::ordered::{copy_list, MapKey};
use crate::preview::{
    preview_document, DraftPreview, ExpressionDiagnostic, ExpressionError, PlanOutcome,
};
use crate::text::{concat2, concat3, concat4, is_blank, same_text, trim};
use vstd::prelude::*;
use vstd::string::*;

verus! {

/// The first identity of the upper half, which the user's library takes its
/// constants from. Documents take theirs from the lower half.
pub const UPPER_HALF: u64 = 0x8000_0000_0000_0000;

/// What a constant that was just typed in says.
pub open spec fn typed_constant(
    id: ConstantId,
    scope: ConstantScope,
    name: Seq<char>,
    source: Seq<char>,
) -> crate::expression::ConstantContent {
    crate::expression::ConstantContent {
        id,
        scope,
        name: crate::text::trimmed(name),
        source: crate::text::trimmed(source),
        revision: None,
        provenance: None,
        origin: None,
    }
}

fn typed(id: ConstantId, scope: ConstantScope, name: &str, source: &str) -> (constant:
    ConstantDefinition)
    ensures
        constant@ == typed_constant(id, scope, name@, source@),
{
    ConstantDefinition {
        id,
        scope,
        name: trim(name).to_owned(),
        source: trim(source).to_owned(),
        revision: None,
        provenance: None,
        origin: None,
    }
}

/// The document in which a constant that is still being typed in is tried out:
/// the constants there are, and the candidate under an identity that no constant
/// is given. A candidate without a name or without a source is not tried.
pub fn candidate_document(
    scope: ConstantScope,
    name: &str,
    source: &str,
    existing: &Vec<ConstantDefinition>,
) -> (document: Option<ExpressionDocument>)
    ensures
        document is None <==> crate::text::blank(name@) || crate::text::blank(source@),
        document matches Some(d) ==> {
            &&& d.bindings@.len() == 0
            &&& d.constants@.len() == existing@.len() + 1
            &&& d.constants@.drop_last() == existing@
            &&& d.constants@.last().id.number() == u64::MAX
            &&& d.constants@.last()@ == typed_constant(
                d.constants@.last().id,
                scope,
                name@,
                source@,
            )
        },
{
    if is_blank(name) || is_blank(source) {
        return None;
    }
    let mut constants = copy_list(existing);
    constants.push(typed(ConstantId::new(u64::MAX), scope, name, source));
    assert(constants@.drop_last() =~= existing@);
    Some(ExpressionDocument { constants, bindings: Vec::new() })
}

/// What trying out a candidate came to: nothing was tried, or its value as it is
/// written, or what is wrong with it.
pub type CandidatePreview = Option<Result<String, ExpressionError>>;

/// Whether a candidate may be added.
pub fn can_add(preview: &CandidatePreview) -> (b: bool)
    ensures
        b == (preview matches Some(Ok(_))),
{
    match preview {
        Some(Ok(_)) => true,
        _ => false,
    }
}

/// The line under a candidate: its value, or what is wrong with it.
pub fn candidate_line(preview: &CandidatePreview) -> (line: Option<String>)
    ensures
        match *preview {
            Some(Ok(value)) => line matches Some(text) && text@ == "= "@ + value@,
            Some(Err(error)) => line == Some(error.message),
            None => line is None,
        },
{
    match preview {
        Some(Ok(value)) => Some(concat2("= ", value.as_str())),
        Some(Err(error)) => Some(error.message.clone()),
        None => None,
    }
}

/// What happened to the open row of a new constant in one frame.
#[derive(Clone, Copy, Debug, PartialEq, Eq, Structural)]
pub struct NewConstantInput {
    /// A field was left with the enter key.
    pub enter: bool,
    /// The add button was hit.
    pub add: bool,
    /// The escape key was hit in a field.
    pub escape: bool,
    /// The cancel button was hit.
    pub cancel: bool,
}

/// A button that reveals a row for a new constant.
#[derive(Debug)]
pub struct AddConstantControl {
    open: bool,
    draft: AuthorityDraft<ConstantFields>,
}

/// What a new constant starts from.
pub open spec fn new_constant_start() -> DraftState<(Seq<char>, Seq<char>)> {
    DraftState::fresh((""@, "1 m"@), "new"@)
}

impl AddConstantControl {
    pub closed spec fn is_open(&self) -> bool {
        self.open
    }

    pub closed spec fn state(&self) -> DraftState<(Seq<char>, Seq<char>)> {
        self.draft.state()
    }

    /// The control as it is first shown: closed, with an empty name.
    pub fn new() -> (control: Self)
        ensures
            !control.is_open(),
            control.state() == new_constant_start(),
    {
        AddConstantControl {
            open: false,
            draft: AuthorityDraft::new(
                ConstantFields { name: "".to_owned(), source: "1 m".to_owned() },
                "new",
            ),
        }
    }

    pub fn opened(&self) -> (b: bool)
        ensures
            b == self.is_open(),
    {
        self.open
    }

    /// Show the row.
    pub fn show(&mut self)
        ensures
            final(self).is_open(),
            final(self).state() == old(self).state(),
    {
        self.open = true;
    }

    /// The fields of the row, to be typed into.
    pub fn fields(&mut self) -> (fields: &mut ConstantFields)
        ensures
            fields.content() == old(self).state().edited,
            final(self).is_open() == old(self).is_open(),
            final(self).state() == old(self).state().with_edit(final(fields).content()),
    {
        self.draft.edited_mut()
    }

    /// Act on the open row: hand the draft back once, when it is added, and close
    /// the row when it is added or given up.
    pub fn settle(&mut self, input: NewConstantInput, preview: &CandidatePreview) -> (committed: Option<
        ConstantFields,
    >)
        ensures
            committed is Some <==> (input.enter || input.add) && (preview matches Some(Ok(_))),
            committed matches Some(fields) ==> fields.content() == old(self).state().edited,
            (committed is Some || input.escape || input.cancel) ==> !final(self).is_open()
                && final(self).state() == old(self).state().reset(),
            !(committed is Some || input.escape || input.cancel) ==> *final(self) == *old(self),
    {
        let committed = if (input.enter || input.add) && can_add(preview) {
            Some(self.draft.edited().duplicate())
        } else {
            None
        };
        if committed.is_some() || input.escape || input.cancel {
            self.open = false;
            self.draft.reset();
        }
        committed
    }
}

/// A new constant starts over however often the row was typed into, added or
/// given up before: no word of an earlier one is left.
pub proof fn a_new_constant_starts_over(edited: (Seq<char>, Seq<char>))
    ensures
        new_constant_start().with_edit(edited).reset() == new_constant_start(),
{
}

/// How expressions refer to the constants of a document.
pub fn document_symbols(constants: &Vec<ConstantDefinition>) -> (symbols: Vec<String>)
    ensures
        symbols.len() == constants.len(),
        forall|i: int|
            0 <= i < symbols.len() ==> (#[trigger] symbols[i])@ == crate::preview::constant_symbol(
                constants[i].scope,
                constants[i].name@,
            ),
{
    let mut symbols: Vec<String> = Vec::new();
    let mut i: usize = 0;
    while i < constants.len()
        invariant
            i <= constants.len(),
            symbols.len() == i,
            forall|k: int|
                0 <= k < i ==> (#[trigger] symbols[k])@ == crate::preview::constant_symbol(
                    constants[k].scope,
                    constants[k].name@,
                ),
        decreases constants.len() - i,
    {
        symbols.push(concat3(constants[i].scope.label(), ".", constants[i].name.as_str()));
        i = i + 1;
    }
    symbols
}

/// How expressions refer to a variable of a plugin.
pub open spec fn global_symbol(variable: ExportedVariable) -> Seq<char> {
    "global."@ + variable.plugin.text@ + "."@ + variable.property.text@
}

pub fn global_label(variable: &ExportedVariable) -> (symbol: String)
    ensures
        symbol@ == global_symbol(*variable),
{
    concat4("global.", variable.plugin.text.as_str(), ".", variable.property.text.as_str())
}

/// How expressions refer to a constant of the user's library.
pub open spec fn user_symbol(constant: ConstantDefinition) -> Seq<char> {
    "user."@ + constant.name@
}

pub fn user_label(constant: &ConstantDefinition) -> (symbol: String)
    ensures
        symbol@ == user_symbol(*constant),
{
    concat2("user.", constant.name.as_str())
}

/// Whether a document has embedded the library's constant of a name.
pub open spec fn embedded(document: Seq<ConstantDefinition>, name: Seq<char>) -> bool {
    exists|i: int|
        0 <= i < document.len() && (#[trigger] document[i]).scope is User && document[i].name@ == name
}

fn is_embedded(document: &Vec<ConstantDefinition>, name: &str) -> (b: bool)
    ensures
        b == embedded(document@, name@),
{
    let mut i: usize = 0;
    while i < document.len()
        invariant
            i <= document.len(),
            forall|k: int|
                0 <= k < i ==> !((#[trigger] document[k]).scope is User && document[k].name@ == name@),
        decreases document.len() - i,
    {
        if document[i].scope == ConstantScope::User && same_text(document[i].name.as_str(), name) {
            assert(document@[i as int].scope is User);
            return true;
        }
        i = i + 1;
    }
    false
}

/// The positions of the constants, of the first `n` of a library, that a document
/// has not embedded.
pub open spec fn offered(
    document: Seq<ConstantDefinition>,
    library: Seq<ConstantDefinition>,
    n: nat,
) -> Seq<usize>
    decreases n,
{
    if n == 0 {
        Seq::empty()
    } else if embedded(document, library[n - 1].name@) {
        offered(document, library, (n - 1) as nat)
    } else {
        offered(document, library, (n - 1) as nat).push((n - 1) as usize)
    }
}

/// The constants of the user's library that can still be embedded in a document, by
/// their positions and in order. One that is embedded is among the document's own.
pub fn library_offers(document: &Vec<ConstantDefinition>, library: &Vec<ConstantDefinition>) -> (positions:
    Vec<usize>)
    ensures
        positions@ == offered(document@, library@, library@.len()),
        forall|k: int|
            0 <= k < positions.len() ==> (#[trigger] positions[k]) < library.len() && !embedded(
                document@,
                library[positions[k] as int].name@,
            ),
{
    let mut positions: Vec<usize> = Vec::new();
    let mut i: usize = 0;
    while i < library.len()
        invariant
            i <= library.len(),
            positions@ == offered(document@, library@, i as nat),
            forall|k: int|
                0 <= k < positions.len() ==> (#[trigger] positions[k]) < i && !embedded(
                    document@,
                    library[positions[k] as int].name@,
                ),
        decreases library.len() - i,
    {
        if !is_embedded(document, library[i].name.as_str()) {
            positions.push(i);
        }
        i = i + 1;
    }
    positions
}

proof fn lemma_offered(
    document: Seq<ConstantDefinition>,
    library: Seq<ConstantDefinition>,
    n: nat,
    i: int,
)
    requires
        n <= library.len() <= usize::MAX,
        0 <= i < n,
    ensures
        offered(document, library, n).contains(i as usize) <==> !embedded(document, library[i].name@),
        forall|k: int|
            0 <= k < offered(document, library, n).len() ==> (#[trigger] offered(
                document,
                library,
                n,
            )[k]) < n,
    decreases n,
{
    let before = offered(document, library, (n - 1) as nat);
    if n > 1 {
        lemma_offered(document, library, (n - 1) as nat, if i < n - 1 { i } else { 0 });
    } else {
        assert(before =~= Seq::<usize>::empty());
    }
    if !embedded(document, library[n - 1].name@) {
        let whole = before.push((n - 1) as usize);
        if i == n - 1 {
            assert(whole[before.len() as int] == i as usize);
        } else {
            if before.contains(i as usize) {
                let k = choose|k: int| 0 <= k < before.len() && before[k] == i as usize;
                assert(whole[k] == i as usize);
            }
            if whole.contains(i as usize) {
                let k = choose|k: int| 0 <= k < whole.len() && whole[k] == i as usize;
                assert(before[k] == i as usize);
            }
        }
    }
}

/// Exactly the constants that a document has not embedded are offered to it from the
/// user's library.
pub proof fn embedded_constants_are_not_offered(
    document: Seq<ConstantDefinition>,
    library: Seq<ConstantDefinition>,
    i: int,
)
    requires
        0 <= i < library.len() <= usize::MAX,
    ensures
        offered(document, library, library.len()).contains(i as usize) <==> !embedded(
            document,
            library[i].name@,
        ),
{
    lemma_offered(document, library, library.len(), i);
}

/// Put a symbol behind what was typed so far.
pub fn insert_symbol(source: &mut String, symbol: &str)
    ensures
        final(source)@ == old(source)@ + symbol@,
{
    source.append(symbol);
}

/// Put a constant of the user's library behind what was typed so far, and embed
/// it in the document with everything it depends on. If its dependencies cannot
/// be gathered, say why and embed nothing; the symbol is typed all the same.
pub fn insert_user_constant(
    source: &mut String,
    constant: &ConstantDefinition,
    closure: Result<Vec<ConstantDefinition>, String>,
    output: &mut UiFrameOutput,
) -> (problem: Option<String>)
    ensures
        final(source)@ == old(source)@ + user_symbol(*constant),
        match closure {
            Ok(constants) => problem is None && final(output).commits(
                *old(output),
                seq![ExpressionCommand::ImportUserConstants(constants)],
            ),
            Err(error) => problem == Some(error) && *final(output) == (UiFrameOutput {
                scene_edit_in_progress: false,
                ..*old(output)
            }),
        },
{
    let symbol = user_label(constant);
    source.append(symbol.as_str());
    match closure {
        Ok(constants) => {
            output.commit_one(ExpressionCommand::ImportUserConstants(constants));
            None
        },
        Err(error) => {
            output.scene_edit_in_progress = false;
            Some(error)
        },
    }
}

/// The draft of an accepted constant: the one being edited, or a new one, brought
/// up to date with what the authority holds.
pub fn constant_draft(
    kept: Option<AuthorityDraft<ConstantFields>>,
    constant: &ConstantDefinition,
    graph_hash: &str,
) -> (draft: AuthorityDraft<ConstantFields>)
    ensures
        draft.state() == match kept {
            Some(kept) => kept.state().reconciled((constant.name@, constant.source@), graph_hash@),
            None => DraftState::fresh((constant.name@, constant.source@), graph_hash@),
        },
{
    let accepted = ConstantFields { name: constant.name.clone(), source: constant.source.clone() };
    match kept {
        Some(mut draft) => {
            draft.reconcile(accepted, graph_hash);
            draft
        },
        None => AuthorityDraft::new(accepted, graph_hash),
    }
}

/// The edits that turn an accepted constant into a draft of it: a new name if it
/// has one, and a new source if it has one.
pub open spec fn edits_constant(
    commands: Seq<ExpressionCommand>,
    constant: ConstantDefinition,
    name: Seq<char>,
    source: Seq<char>,
) -> bool {
    let renamed = name != constant.name@;
    let resourced = source != constant.source@;
    let renames: nat = if renamed {
        1
    } else {
        0
    };
    &&& commands.len() == renames + if resourced {
        1nat
    } else {
        0nat
    }
    &&& renamed ==> (commands[0] matches ExpressionCommand::RenameConstant { constant: id, name: to }
        && id == constant.id && to@ == name)
    &&& resourced ==> (commands[renames as int] matches ExpressionCommand::SetConstantSource {
        constant: id,
        source: to,
    } && id == constant.id && to@ == source)
}

pub fn constant_edits(fields: &ConstantFields, constant: &ConstantDefinition) -> (commands: Vec<
    ExpressionCommand,
>)
    ensures
        edits_constant(commands@, *constant, fields.name@, fields.source@),
{
    let mut commands: Vec<ExpressionCommand> = Vec::new();
    if !same_text(fields.name.as_str(), constant.name.as_str()) {
        commands.push(
            ExpressionCommand::RenameConstant { constant: constant.id, name: fields.name.clone() },
        );
    }
    if !same_text(fields.source.as_str(), constant.source.as_str()) {
        commands.push(
            ExpressionCommand::SetConstantSource {
                constant: constant.id,
                source: fields.source.clone(),
            },
        );
    }
    commands
}

/// A draft asks for an edit exactly where it differs from what is accepted.
pub proof fn an_unchanged_constant_asks_for_nothing(
    commands: Seq<ExpressionCommand>,
    constant: ConstantDefinition,
    name: Seq<char>,
    source: Seq<char>,
)
    requires
        edits_constant(commands, constant, name, source),
    ensures
        commands.len() == 0 <==> name == constant.name@ && source == constant.source@,
{
}

/// The preview of an edited expression. Where the edits cannot even be applied,
/// the problem belongs to the expression and nothing is known of its dependents.
pub fn applied_preview(
    applied: Result<PlanOutcome, ExpressionError>,
    subject: ExpressionSubject,
    accepted: &Vec<ExpressionNodeState>,
) -> (preview: DraftPreview)
    ensures
        preview.is_valid() <==> (applied matches Ok(PlanOutcome::Evaluated { .. })),
        match applied {
            Ok(PlanOutcome::CompileError(error)) => {
                &&& preview.values is None
                &&& preview.diagnostic == Some(ExpressionDiagnostic { subject, error })
                &&& crate::preview::all_dependents(preview.dependents@, accepted@, subject.key())
            },
            Ok(PlanOutcome::Evaluated { values, nodes }) => {
                &&& preview.values == Some(values)
                &&& crate::preview::all_dependents(preview.dependents@, nodes@, subject.key())
            },
            Ok(PlanOutcome::EvaluationError { diagnostic, nodes }) => {
                &&& preview.values is None
                &&& preview.diagnostic == Some(diagnostic)
                &&& crate::preview::all_dependents(preview.dependents@, nodes@, subject.key())
            },
            Err(error) => {
                &&& preview.values is None
                &&& preview.diagnostic == Some(ExpressionDiagnostic { subject, error })
                &&& preview.dependents@.len() == 0
            },
        },
{
    match applied {
        Ok(outcome) => preview_document(outcome, subject, accepted),
        Err(error) => DraftPreview {
            values: None,
            diagnostic: Some(ExpressionDiagnostic { subject, error }),
            dependents: Vec::new(),
        },
    }
}

/// What happened to the row of an accepted constant in one frame.
#[derive(Clone, Copy, Debug, PartialEq, Eq, Structural)]
pub struct ConstantInput {
    /// A field of the row is being typed into.
    pub focused: bool,
    /// A field was left with the enter key.
    pub enter: bool,
    pub apply: bool,
    /// The escape key was hit in a field.
    pub escape: bool,
    pub reset: bool,
    pub delete: bool,
}

/// Whether the row's edits are submitted.
pub open spec fn applies(input: ConstantInput, preview: Option<DraftPreview>) -> bool {
    (input.enter || input.apply) && (preview matches Some(p) && p.is_valid())
}

/// Whether the row's edits are given up.
pub open spec fn gives_up(input: ConstantInput, commands: Seq<ExpressionCommand>) -> bool {
    commands.len() > 0 && (input.escape || input.reset)
}

/// Whether the row's constant is deleted. Only constants of the document are.
pub open spec fn deletes(input: ConstantInput, constant: ConstantDefinition) -> bool {
    constant.scope is Document && input.delete
}

/// What the row submits, in order.
pub open spec fn row_commits(
    input: ConstantInput,
    constant: ConstantDefinition,
    commands: Seq<ExpressionCommand>,
    preview: Option<DraftPreview>,
) -> Seq<Seq<ExpressionCommand>> {
    let edits = if applies(input, preview) {
        seq![commands]
    } else {
        seq![]
    };
    if deletes(input, constant) {
        edits.push(seq![ExpressionCommand::RemoveConstant(constant.id)])
    } else {
        edits
    }
}

/// Act on the row of an accepted constant. Only a valid change is submitted; an
/// unchanged row has nothing to apply or to give up.
pub fn settle_constant(
    draft: &mut AuthorityDraft<ConstantFields>,
    constant: &ConstantDefinition,
    commands: Vec<ExpressionCommand>,
    preview: &Option<DraftPreview>,
    input: ConstantInput,
    output: &mut UiFrameOutput,
)
    ensures
        final(draft).state() == {
            let sent = if applies(input, *preview) {
                old(draft).state().submitted()
            } else {
                old(draft).state()
            };
            if gives_up(input, commands@) {
                sent.reset()
            } else {
                sent
            }
        },
        final(output).commits_all(
            UiFrameOutput {
                scene_edit_in_progress: old(output).scene_edit_in_progress || input.focused,
                ..*old(output)
            },
            row_commits(input, *constant, commands@, *preview),
        ),
{
    if input.focused {
        output.scene_edit_in_progress = true;
    }
    let ghost held = *output;
    let valid = match preview {
        Some(preview) => preview.valid(),
        None => false,
    };
    let changed: bool = commands.len() > 0;
    let ghost edits = commands@;
    if (input.enter || input.apply) && valid {
        output.submit(CommandPayload::CommitExpressions(commands));
        draft.mark_submitted();
    }
    let ghost sent = *output;
    if changed && (input.escape || input.reset) {
        draft.reset();
    }
    if constant.scope == ConstantScope::Document && input.delete {
        output.commit_one(ExpressionCommand::RemoveConstant(constant.id));
    }
    proof {
        let lists = row_commits(input, *constant, edits, *preview);
        assert(output.commands@.len() == held.commands@.len() + lists.len());
        assert(output.commands@.take(held.commands@.len() as int) =~= held.commands@);
        assert forall|i: int| 0 <= i < lists.len() implies (
        #[trigger] output.commands@[held.commands@.len() + i] matches CommandPayload::CommitExpressions(
            list,
        ) && list@ == lists[i]) by {
            if held.commands@.len() + i < sent.commands@.len() {
                assert(output.commands@[held.commands@.len() + i] == sent.commands@[held.commands@.len()
                    + i]);
            }
        }
    }
}

/// What is said of a draft that the authority has not acknowledged.
pub fn draft_note<T: Draftable>(draft: &AuthorityDraft<T>) -> (note: Option<&'static str>)
    ensures
        draft.state().authority_changed ==> (note matches Some(text) && text@
            == "Authoritative value changed; Reset restores the latest accepted value."@),
        !draft.state().authority_changed && draft.state().submission is Submitted ==> (
        note matches Some(text) && text@ == "Awaiting authoritative acknowledgement…"@),
        !draft.state().authority_changed && draft.state().submission is Idle ==> note is None,
{
    if draft.authority_changed() {
        Some("Authoritative value changed; Reset restores the latest accepted value.")
    } else if draft.submission() == SubmissionState::Submitted {
        Some("Awaiting authoritative acknowledgement…")
    } else {
        None
    }
}

/// Why an accepted expression has no value, if it has none.
pub fn status_line(node: &ExpressionNodeState) -> (line: Option<String>)
    ensures
        match node.status {
            ExpressionNodeStatus::Resolved => line is None,
            ExpressionNodeStatus::Unresolved(why) => line matches Some(text) && text@
                == "Dependency status: "@ + why@,
        },
{
    match &node.status {
        ExpressionNodeStatus::Resolved => None,
        ExpressionNodeStatus::Unresolved(why) => Some(
            concat2("Dependency status: ", why.as_str()),
        ),
    }
}

/// Where an embedded constant came from, if it was embedded.
pub fn provenance_line(constant: &ConstantDefinition) -> (line: Option<String>)
    ensures
        match constant.provenance {
            None => line is None,
            Some(from) => line matches Some(text) && text@ == "Embedded from "@ + from@,
        },
{
    match &constant.provenance {
        None => None,
        Some(from) => Some(concat2("Embedded from ", from.as_str())),
    }
}

/// Whether a constant of the user's library can be refreshed: it is one, and the
/// library holds a newer one.
pub fn refresh_offered(constant: &ConstantDefinition, updates: &Vec<ConstantId>) -> (b: bool)
    ensures
        b == (constant.scope is User && crate::ids::lists(updates@, constant.id.key())),
{
    match constant.scope {
        ConstantScope::User => crate::ids::listed_in(updates, &constant.id),
        _ => false,
    }
}

/// Embed a constant of the user's library again with everything it depends on, or
/// say why that cannot be gathered.
pub fn refresh_constant(closure: Result<Vec<ConstantDefinition>, String>, output: &mut UiFrameOutput) -> (
    problem: Option<String>)
    ensures
        match closure {
            Ok(constants) => problem is None && final(output).commits(
                *old(output),
                seq![ExpressionCommand::ImportUserConstants(constants)],
            ),
            Err(error) => problem == Some(error) && *final(output) == *old(output),
        },
{
    match closure {
        Ok(constants) => {
            output.commit_one(ExpressionCommand::ImportUserConstants(constants));
            None
        },
        Err(error) => Some(error),
    }
}

/// What hovering over a variable of a plugin says.
pub fn global_hover(variable: &ExportedVariable) -> (text: String)
    ensures
        text@ == match variable.description {
            Some(description) => description@,
            None => "No description"@,
        },
{
    match &variable.description {
        Some(description) => description.clone(),
        None => "No description".to_owned(),
    }
}

/// Whether a constant was imported from a variable of a plugin.
pub open spec fn imported_from(constant: ConstantDefinition, variable: ExportedVariable) -> bool {
    constant.origin matches Some(origin) && origin.plugin@ == variable.plugin@ && origin.property@
        == variable.property@
}

/// Whether a document has imported a variable of a plugin.
pub fn already_imported(constants: &Vec<ConstantDefinition>, variable: &ExportedVariable) -> (b: bool)
    ensures
        b == exists|i: int| 0 <= i < constants.len() && imported_from(#[trigger] constants[i], *variable),
{
    let mut i: usize = 0;
    while i < constants.len()
        invariant
            i <= constants.len(),
            forall|k: int| 0 <= k < i ==> !imported_from(#[trigger] constants[k], *variable),
        decreases constants.len() - i,
    {
        if let Some(origin) = &constants[i].origin {
            if origin.plugin.same(&variable.plugin) && origin.property.same(&variable.property) {
                assert(imported_from(constants[i as int], *variable));
                return true;
            }
        }
        i = i + 1;
    }
    false
}

/// The greatest identity among the document's own first `n` constants, and zero
/// without any.
pub open spec fn greatest_document_id(constants: Seq<ConstantDefinition>, n: nat) -> int
    decreases n,
{
    if n == 0 {
        0
    } else {
        let rest = greatest_document_id(constants, (n - 1) as nat);
        if constants[n - 1].scope is Document && constants[n - 1].id.number() > rest {
            constants[n - 1].id.number() as int
        } else {
            rest
        }
    }
}

/// The identity of the next constant of a document: one more than any it has, and
/// never one of the upper half.
pub open spec fn next_document_number(constants: Seq<ConstantDefinition>) -> int {
    let next = greatest_document_id(constants, constants.len()) + 1;
    if next < UPPER_HALF {
        next
    } else {
        UPPER_HALF - 1
    }
}

pub fn next_document_id(constants: &Vec<ConstantDefinition>) -> (id: ConstantId)
    ensures
        id.number() == next_document_number(constants@),
{
    let mut greatest: u64 = 0;
    let mut i: usize = 0;
    while i < constants.len()
        invariant
            i <= constants.len(),
            greatest == greatest_document_id(constants@, i as nat),
        decreases constants.len() - i,
    {
        if constants[i].scope == ConstantScope::Document && constants[i].id.get() > greatest {
            greatest = constants[i].id.get();
        }
        i = i + 1;
    }
    if greatest < UPPER_HALF - 1 {
        ConstantId::new(greatest + 1)
    } else {
        ConstantId::new(UPPER_HALF - 1)
    }
}

/// The greatest identity among the first `n` constants of a library, counted
/// within the upper half, and zero without any.
pub open spec fn greatest_user_id(constants: Seq<ConstantDefinition>, n: nat) -> int
    decreases n,
{
    if n == 0 {
        0
    } else {
        let rest = greatest_user_id(constants, (n - 1) as nat);
        let own = constants[n - 1].id.number() as int % UPPER_HALF as int;
        if own > rest {
            own
        } else {
            rest
        }
    }
}

/// The identity of the next constant of a library: the upper half's start, and
/// one more than any the library has counts from there.
pub open spec fn next_user_number(constants: Seq<ConstantDefinition>) -> int {
    UPPER_HALF + (greatest_user_id(constants, constants.len()) + 1) % UPPER_HALF as int
}

pub fn next_user_id(constants: &Vec<ConstantDefinition>) -> (id: ConstantId)
    ensures
        id.number() == next_user_number(constants@),
{
    let mut greatest: u64 = 0;
    let mut i: usize = 0;
    while i < constants.len()
        invariant
            i <= constants.len(),
            greatest == greatest_user_id(constants@, i as nat),
            greatest < UPPER_HALF,
        decreases constants.len() - i,
    {
        let own: u64 = constants[i].id.get() % UPPER_HALF;
        if own > greatest {
            greatest = own;
        }
        i = i + 1;
    }
    ConstantId::new(UPPER_HALF + (greatest + 1) % UPPER_HALF)
}

proof fn document_ids_are_bounded(constants: Seq<ConstantDefinition>, n: nat)
    requires
        n <= constants.len(),
    ensures
        0 <= greatest_document_id(constants, n),
        forall|i: int|
            0 <= i < n && (#[trigger] constants[i]).scope is Document ==> constants[i].id.number()
                <= greatest_document_id(constants, n),
    decreases n,
{
    if n > 0 {
        document_ids_are_bounded(constants, (n - 1) as nat);
    }
}

proof fn user_ids_are_bounded(constants: Seq<ConstantDefinition>, n: nat)
    requires
        n <= constants.len(),
    ensures
        0 <= greatest_user_id(constants, n) < UPPER_HALF,
        forall|i: int|
            0 <= i < n ==> (#[trigger] constants[i]).id.number() as int % UPPER_HALF as int
                <= greatest_user_id(constants, n),
    decreases n,
{
    if n > 0 {
        user_ids_are_bounded(constants, (n - 1) as nat);
    }
}

/// A document's next identity is in the lower half and, until that half is used
/// up, not taken by a constant of the document.
pub proof fn document_identities_are_new(constants: Seq<ConstantDefinition>, i: int)
    requires
        0 <= i < constants.len(),
        constants[i].scope is Document,
        forall|k: int|
            0 <= k < constants.len() && (#[trigger] constants[k]).scope is Document
                ==> constants[k].id.number() < UPPER_HALF - 1,
    ensures
        next_document_number(constants) < UPPER_HALF,
        constants[i].id.number() < next_document_number(constants),
{
    document_ids_are_bounded(constants, constants.len());
    greatest_is_taken(constants, constants.len());
}

proof fn greatest_is_taken(constants: Seq<ConstantDefinition>, n: nat)
    requires
        n <= constants.len(),
    ensures
        greatest_document_id(constants, n) > 0 ==> exists|k: int|
            0 <= k < n && (#[trigger] constants[k]).scope is Document && constants[k].id.number()
                == greatest_document_id(constants, n),
    decreases n,
{
    if n > 0 {
        greatest_is_taken(constants, (n - 1) as nat);
        if greatest_document_id(constants, n) != greatest_document_id(constants, (n - 1) as nat) {
            assert(constants[n - 1].id.number() == greatest_document_id(constants, n));
        }
    }
}

/// A library's next identity is in the upper half and, until that half is used
/// up, not taken by a constant of the library.
pub proof fn library_identities_are_new(constants: Seq<ConstantDefinition>, i: int)
    requires
        0 <= i < constants.len(),
        forall|k: int|
            0 <= k < constants.len() ==> (#[trigger] constants[k]).id.number() as int
                % UPPER_HALF as int != UPPER_HALF - 1,
    ensures
        UPPER_HALF <= next_user_number(constants) <= u64::MAX,
        constants[i].id.number() != next_user_number(constants),
{
    user_ids_are_bounded(constants, constants.len());
    greatest_user_is_taken(constants, constants.len());
}

proof fn greatest_user_is_taken(constants: Seq<ConstantDefinition>, n: nat)
    requires
        n <= constants.len(),
    ensures
        greatest_user_id(constants, n) > 0 ==> exists|k: int|
            0 <= k < n && (#[trigger] constants[k]).id.number() as int % UPPER_HALF as int
                == greatest_user_id(constants, n),
    decreases n,
{
    if n > 0 {
        greatest_user_is_taken(constants, (n - 1) as nat);
        if greatest_user_id(constants, n) != greatest_user_id(constants, (n - 1) as nat) {
            assert(constants[n - 1].id.number() as int % UPPER_HALF as int == greatest_user_id(
                constants,
                n,
            ));
        }
    }
}

/// A document and a library never give out the same identity.
pub proof fn identities_tell_scopes_apart(
    document: Seq<ConstantDefinition>,
    library: Seq<ConstantDefinition>,
)
    ensures
        next_document_number(document) != next_user_number(library),
        0 < next_document_number(document) < UPPER_HALF <= next_user_number(library) <= u64::MAX,
{
    document_ids_are_bounded(document, document.len());
    user_ids_are_bounded(library, library.len());
}

/// What an imported variable of a plugin says.
pub open spec fn imported_constant(id: ConstantId, variable: ExportedVariable) -> crate::expression::ConstantContent {
    crate::expression::ConstantContent {
        id,
        scope: ConstantScope::Document,
        name: variable.property.text@,
        source: variable.default_literal@,
        revision: None,
        provenance: Some("plugin "@ + variable.plugin.text@),
        origin: Some((variable.plugin@, variable.property@)),
    }
}

/// Import a variable of a plugin, so that the document may override it.
pub fn import_global(
    variable: &ExportedVariable,
    constants: &Vec<ConstantDefinition>,
    output: &mut UiFrameOutput,
)
    ensures
        final(output).commits_like(
            *old(output),
            |command: ExpressionCommand|
                command matches ExpressionCommand::ImportGlobalConstants(list) && list@.len() == 1
                    && list@[0].id.number() == next_document_number(constants@) && list@[0]@
                    == imported_constant(list@[0].id, *variable),
        ),
{
    let mut list: Vec<ConstantDefinition> = Vec::new();
    list.push(
        ConstantDefinition {
            id: next_document_id(constants),
            scope: ConstantScope::Document,
            name: variable.property.text.clone(),
            source: variable.default_literal.clone(),
            revision: None,
            provenance: Some(concat2("plugin ", variable.plugin.text.as_str())),
            origin: Some(
                GlobalOrigin {
                    plugin: variable.plugin.clone(),
                    property: variable.property.clone(),
                },
            ),
        },
    );
    output.commit_one(ExpressionCommand::ImportGlobalConstants(list));
}

/// Add a constant to the document.
pub fn add_document_constant(
    fields: &ConstantFields,
    constants: &Vec<ConstantDefinition>,
    output: &mut UiFrameOutput,
)
    ensures
        final(output).commits_like(
            *old(output),
            |command: ExpressionCommand|
                command matches ExpressionCommand::AddConstant(constant) && constant.id.number()
                    == next_document_number(constants@) && constant@ == typed_constant(
                    constant.id,
                    ConstantScope::Document,
                    fields.name@,
                    fields.source@,
                ),
        ),
{
    let constant = typed(
        next_document_id(constants),
        ConstantScope::Document,
        fields.name.as_str(),
        fields.source.as_str(),
    );
    output.commit_one(ExpressionCommand::AddConstant(constant));
}

/// The draft of the user's library: the one being edited, or a new one, brought
/// up to date with what is saved.
pub fn library_draft(
    kept: Option<AuthorityDraft<UserConstantLibrary>>,
    library: &UserConstantLibrary,
    hash: &str,
) -> (draft: AuthorityDraft<UserConstantLibrary>)
    ensures
        draft.state() == match kept {
            Some(kept) => kept.state().reconciled(library.content(), hash@),
            None => DraftState::fresh(library.content(), hash@),
        },
{
    match kept {
        Some(mut draft) => {
            draft.reconcile(library.duplicate(), hash);
            draft
        },
        None => AuthorityDraft::new(library.duplicate(), hash),
    }
}

/// The first `n` constants without those of one identity.
pub open spec fn without(constants: Seq<ConstantDefinition>, id: ConstantId, n: nat) -> Seq<
    ConstantDefinition,
>
    decreases n,
{
    if n == 0 {
        Seq::empty()
    } else if constants[n - 1].id == id {
        without(constants, id, (n - 1) as nat)
    } else {
        without(constants, id, (n - 1) as nat).push(constants[n - 1])
    }
}

/// Take a constant out of a library.
pub fn remove_constant(constants: &mut Vec<ConstantDefinition>, id: ConstantId)
    ensures
        final(constants)@ == without(old(constants)@, id, old(constants)@.len()),
{
    let mut kept: Vec<ConstantDefinition> = Vec::new();
    let mut i: usize = 0;
    while i < constants.len()
        invariant
            constants@ == old(constants)@,
            i <= constants.len(),
            kept@ == without(constants@, id, i as nat),
        decreases constants.len() - i,
    {
        if !constants[i].id.is(id) {
            kept.push(crate::ordered::Copied::copied(&constants[i]));
        }
        i = i + 1;
    }
    *constants = kept;
}

/// Add a constant to a library.
pub fn add_user_constant(constants: &mut Vec<ConstantDefinition>, fields: &ConstantFields)
    ensures
        final(constants)@.len() == old(constants)@.len() + 1,
        final(constants)@.drop_last() == old(constants)@,
        final(constants)@.last().id.number() == next_user_number(old(constants)@),
        final(constants)@.last()@ == typed_constant(
            final(constants)@.last().id,
            ConstantScope::User,
            fields.name@,
            fields.source@,
        ),
{
    let constant = typed(
        next_user_id(constants),
        ConstantScope::User,
        fields.name.as_str(),
        fields.source.as_str(),
    );
    constants.push(constant);
    assert(constants@.drop_last() =~= old(constants)@);
}

/// What becomes of the library at the end of a frame.
#[derive(Clone, Copy, Debug, PartialEq, Eq, Structural)]
pub enum LibraryStep {
    Keep,
    Save,
    Refuse,
}

/// A library is saved when a field was left, a constant deleted or one added, and
/// only if it compiles.
pub fn library_step(left: bool, removed: bool, added: bool, compiles: bool) -> (step: LibraryStep)
    ensures
        step == if !(left || removed || added) {
            LibraryStep::Keep
        } else if compiles {
            LibraryStep::Save
        } else {
            LibraryStep::Refuse
        },
{
    if !(left || removed || added) {
        LibraryStep::Keep
    } else if compiles {
        LibraryStep::Save
    } else {
        LibraryStep::Refuse
    }
}

/// Take note of how saving the library went. A saved library becomes the accepted
/// one; one that could not be saved leaves the accepted one as it was.
pub fn library_saved(
    model: &mut UiModel,
    draft: &mut AuthorityDraft<UserConstantLibrary>,
    saved: Result<(), String>,
    hash: &str,
)
    ensures
        match saved {
            Ok(()) => {
                &&& final(model).user_constants.content() == old(draft).state().edited
                &&& *final(model) == (UiModel {
                    user_constants: final(model).user_constants,
                    user_constants_status: None,
                    ..*old(model)
                })
                &&& final(draft).state() == DraftState::fresh(old(draft).state().edited, hash@)
            },
            Err(error) => {
                &&& *final(model) == (UiModel { user_constants_status: Some(error), ..*old(model) })
                &&& *final(draft) == *old(draft)
            },
        },
{
    match saved {
        Ok(()) => {
            let candidate = draft.edited().duplicate();
            model.user_constants = candidate.duplicate();
            model.user_constants_status = None;
            draft.reconcile(candidate, hash);
        },
        Err(error) => {
            model.user_constants_status = Some(error);
        },
    }
}

/// Take note that an invalid library was not saved.
pub fn library_refused(model: &mut UiModel)
    ensures
        final(model).user_constants_status matches Some(text) && text@
            == "Invalid library draft was not saved"@,
        *final(model) == (UiModel {
            user_constants_status: final(model).user_constants_status,
            ..*old(model)
        }),
{
    model.user_constants_status = Some("Invalid library draft was not saved".to_owned());
}

/// What is said of a library that does not compile.
pub fn library_diagnostic(error: &ExpressionError) -> (line: String)
    ensures
        line@ == "Library diagnostic: "@ + error.message@,
{
    concat2("Library diagnostic: ", error.message.as_str())
}

/// What is said of a library that changed under its draft.
pub fn library_note(draft: &AuthorityDraft<UserConstantLibrary>) -> (note: Option<&'static str>)
    ensures
        note is Some <==> draft.state().authority_changed,
        note matches Some(text) ==> text@
            == "The library changed on disk; local edits are preserved until saved or reset."@,
{
    if draft.authority_changed() {
        Some("The library changed on disk; local edits are preserved until saved or reset.")
    } else {
        None
    }
}

proof fn lemma_removing_a_constant_leaves_the_others(constants: Seq<ConstantDefinition>, id: ConstantId, n: nat) -> (at: Seq<int>)
    requires
        n <= constants.len(),
    ensures
        at.len() == without(constants, id, n).len(),
        forall|a: int, b: int| 0 <= a < b < at.len() ==> #[trigger] at[a] < #[trigger] at[b],
        forall|k: int|
            0 <= k < at.len() ==> {
                &&& 0 <= #[trigger] at[k] < n
                &&& constants[at[k]].id != id
                &&& without(constants, id, n)[k] == constants[at[k]]
            },
        forall|i: int| 0 <= i < n && (#[trigger] constants[i]).id != id ==> at.contains(i),
    decreases n,
{
    if n == 0 {
        Seq::empty()
    } else {
        let before = lemma_removing_a_constant_leaves_the_others(constants, id, (n - 1) as nat);
        if constants[n - 1].id != id {
            let at = before.push(n - 1);
            assert forall|i: int| 0 <= i < n && (#[trigger] constants[i]).id != id implies at.contains(i) by {
                if i < n - 1 {
                    let k = choose|k: int| 0 <= k < before.len() && before[k] == i;
                    assert(at[k] == i);
                } else {
                    assert(at[before.len() as int] == i);
                }
            }
            at
        } else {
            before
        }
    }
}

/// Taking a constant out of a library takes every one of its identity, and leaves all others
/// as they were and in their order.
pub proof fn removing_a_constant_leaves_the_others(constants: Seq<ConstantDefinition>, id: ConstantId) -> (at: Seq<int>)
    ensures
        at.len() == without(constants, id, constants.len()).len(),
        forall|a: int, b: int| 0 <= a < b < at.len() ==> #[trigger] at[a] < #[trigger] at[b],
        forall|k: int|
            0 <= k < at.len() ==> {
                &&& 0 <= #[trigger] at[k] < constants.len()
                &&& constants[at[k]].id != id
                &&& without(constants, id, constants.len())[k] == constants[at[k]]
            },
        forall|i: int| 0 <= i < constants.len() && (#[trigger] constants[i]).id != id ==> at.contains(i),
{
    lemma_removing_a_constant_leaves_the_others(constants, id, constants.len())
}

/// A constant that was typed in has the name and source that were typed, without the blanks
/// around them, and comes from nowhere else.
pub proof fn a_typed_constant_says_what_was_typed(
    id: ConstantId,
    scope: ConstantScope,
    name: Seq<char>,
    source: Seq<char>,
)
    ensures
        ({
            let constant = typed_constant(id, scope, name, source);
            &&& constant.id == id
            &&& constant.scope == scope
            &&& constant.name == crate::text::trimmed(name)
            &&& constant.source == crate::text::trimmed(source)
            &&& constant.revision is None
            &&& constant.provenance is None
            &&& constant.origin is None
        }),
{
}

/// An imported variable becomes a constant of the document with the variable's name and
/// default, and remembers where it came from.
pub proof fn an_imported_constant_remembers_its_origin(id: ConstantId, variable: ExportedVariable)
    ensures
        ({
            let constant = imported_constant(id, variable);
            &&& constant.id == id
            &&& constant.scope == ConstantScope::Document
            &&& constant.name == variable.property.text@
            &&& constant.source == variable.default_literal@
            &&& constant.provenance == Some("plugin "@ + variable.plugin.text@)
            &&& constant.origin == Some((variable.plugin@, variable.property@))
        }),
{
}

/// A constant counts as imported from a variable exactly where its origin is that plugin and
/// that property.
pub proof fn a_constant_is_imported_from_its_origin(constant: ConstantDefinition, variable: ExportedVariable)
    ensures
        constant.origin is None ==> !imported_from(constant, variable),
        constant.origin matches Some(origin) ==> (imported_from(constant, variable) <==> origin.plugin@
            == variable.plugin@ && origin.property@ == variable.property@),
{
}

/// An edited constant is renamed to the edited name if it is another one, and then given the
/// edited source if it is another one, and asked for nothing else.
pub proof fn a_constant_is_edited_as_drafted(
    commands: Seq<ExpressionCommand>,
    constant: ConstantDefinition,
    name: Seq<char>,
    source: Seq<char>,
)
    requires
        edits_constant(commands, constant, name, source),
    ensures
        name != constant.name@ && source != constant.source@ ==> commands.len() == 2 && (commands[0]
            matches ExpressionCommand::RenameConstant { constant: id, name: to } && id == constant.id
            && to@ == name) && (commands[1] matches ExpressionCommand::SetConstantSource {
            constant: id,
            source: to,
        } && id == constant.id && to@ == source),
        name != constant.name@ && source == constant.source@ ==> commands.len() == 1 && (commands[0]
            matches ExpressionCommand::RenameConstant { constant: id, name: to } && id == constant.id
            && to@ == name),
        name == constant.name@ && source != constant.source@ ==> commands.len() == 1 && (commands[0]
            matches ExpressionCommand::SetConstantSource { constant: id, source: to } && id
            == constant.id && to@ == source),
        name == constant.name@ && source == constant.source@ ==> commands.len() == 0,
{
}

/// A row submits its edits exactly where it was asked to and they are valid, deletes its
/// constant exactly where it was asked to and the document owns it, and does the first before
/// the second.
pub proof fn a_row_commits_what_it_was_asked(
    input: ConstantInput,
    constant: ConstantDefinition,
    commands: Seq<ExpressionCommand>,
    preview: Option<DraftPreview>,
)
    ensures
        ({
            let sends = (input.enter || input.apply) && preview is Some && (preview->0).diagnostic is None;
            let removes = input.delete && constant.scope == ConstantScope::Document;
            let commits = row_commits(input, constant, commands, preview);
            &&& sends && removes ==> commits == seq![
                commands,
                seq![ExpressionCommand::RemoveConstant(constant.id)],
            ]
            &&& sends && !removes ==> commits == seq![commands]
            &&& !sends && removes ==> commits == seq![
                seq![ExpressionCommand::RemoveConstant(constant.id)],
            ]
            &&& !sends && !removes ==> commits.len() == 0
            &&& applies(input, preview) <==> sends
            &&& deletes(input, constant) <==> removes
            &&& gives_up(input, commands) <==> commands.len() > 0 && (input.escape || input.reset)
        }),
{
    let commits = row_commits(input, constant, commands, preview);
    if applies(input, preview) && deletes(input, constant) {
        assert(commits =~= seq![commands, seq![ExpressionCommand::RemoveConstant(constant.id)]]);
    } else if applies(input, preview) {
        assert(commits =~= seq![commands]);
    } else if deletes(input, constant) {
        assert(commits =~= seq![seq![ExpressionCommand::RemoveConstant(constant.id)]]);
    }
}

/// The first constant of a document is numbered one, and every later one is numbered one more
/// than some constant the document has.
pub proof fn document_identities_count_on(constants: Seq<ConstantDefinition>)
    ensures
        (forall|i: int| 0 <= i < constants.len() ==> !((#[trigger] constants[i]).scope is Document))
            ==> next_document_number(constants) == 1,
        next_document_number(constants) == 1 || next_document_number(constants) == UPPER_HALF - 1 || exists|
            i: int,
        |
            0 <= i < constants.len() && (#[trigger] constants[i]).scope is Document
                && next_document_number(constants) == constants[i].id.number() + 1,
{
    let n = constants.len();
    document_ids_are_bounded(constants, n);
    greatest_is_taken(constants, n);
    if greatest_document_id(constants, n) > 0 {
        let k = choose|k: int|
            0 <= k < n && (#[trigger] constants[k]).scope is Document && constants[k].id.number()
                == greatest_document_id(constants, n);
        assert(constants[k].scope is Document);
    }
}

/// The first constant of a library is numbered the first of the upper half and one, and every
/// later one is numbered one more, within that half, than some constant the library has.
pub proof fn library_identities_count_on(constants: Seq<ConstantDefinition>)
    ensures
        constants.len() == 0 ==> next_user_number(constants) == UPPER_HALF + 1,
        next_user_number(constants) == UPPER_HALF + 1 || exists|i: int|
            0 <= i < constants.len() && next_user_number(constants) == UPPER_HALF + (((
            #[trigger] constants[i]).id.number() as int % UPPER_HALF as int) + 1) % UPPER_HALF as int,
{
    let n = constants.len();
    user_ids_are_bounded(constants, n);
    greatest_user_is_taken(constants, n);
    if greatest_user_id(constants, n) > 0 {
        let k = choose|k: int|
            0 <= k < n && (#[trigger] constants[k]).id.number() as int % UPPER_HALF as int
                == greatest_user_id(constants, n);
        assert(constants[k].id.number() as int % UPPER_HALF as int == greatest_user_id(constants, n));
    }
}

/// Variables of plugins and constants of the library are referred to by what they are called.
pub proof fn symbols_name_what_they_refer_to(variable: ExportedVariable, constant: ConstantDefinition)
    ensures
        global_symbol(variable) == "global."@ + variable.plugin.text@ + "."@ + variable.property.text@,
        user_symbol(constant) == "user."@ + constant.name@,
{
}

/// A new constant starts without a name, at one metre.
pub proof fn a_new_constant_starts_at_one_metre()
    ensures
        new_constant_start().edited == (""@, "1 m"@),
        new_constant_start().baseline == (""@, "1 m"@),
        new_constant_start().submission is Idle,
{
}

/// A constant of the library is embedded exactly where the document has one of its name from
/// the library; one of the same name that the document owns is another one.
pub proof fn a_constant_is_embedded_by_its_name(document: Seq<ConstantDefinition>, name: Seq<char>)
    ensures
        embedded(document, name) <==> exists|i: int|
            0 <= i < document.len() && (#[trigger] document[i]).scope == ConstantScope::User
                && document[i].name@ == name,
{
    if embedded(document, name) {
        let i = choose|i: int|
            0 <= i < document.len() && (#[trigger] document[i]).scope is User && document[i].name@
                == name;
        assert(document[i].scope == ConstantScope::User);
    }
}

} // verus!
