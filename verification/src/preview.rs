//! Previews of candidate expressions, and who is affected by a change.

use crate::draft::{AuthorityDraft, Draftable};
use crate::expression::{
    ExpressionDependency, ExpressionDocument, ExpressionNodeState, ExpressionSubject,
    PropertyTarget, SubjectKey,
};
use crate::ids::ConstantId;
use crate::measured::Number;
use crate::ordered::{Copied, MapKey, OrderedMap};
use crate::text::{concat2, numbered};
use crate::world::{find, Identified, PropertyKind, PropertySchema, WorldSnapshot};
use vstd::prelude::*;
use vstd::string::*;

verus! {

/// A range of source bytes, the last one left out.
#[derive(Clone, Copy, Debug, PartialEq, Eq, Structural)]
pub struct Span {
    pub start: usize,
    pub end: usize,
}

/// What is wrong with an expression, and where in its source.
#[derive(Debug, PartialEq, Eq)]
pub struct ExpressionError {
    pub message: String,
    pub span: Option<Span>,
}

/// A problem and the expression that owns it.
#[derive(Debug, PartialEq, Eq)]
pub struct ExpressionDiagnostic {
    pub subject: ExpressionSubject,
    pub error: ExpressionError,
}

/// The values a candidate graph resolves to.
#[derive(Debug, PartialEq, Eq)]
pub struct EvaluationResult {
    pub constants: Vec<(ConstantId, Number)>,
    pub properties: Vec<(PropertyTarget, Number)>,
}

/// What became of compiling and evaluating a candidate graph.
#[derive(Debug)]
pub enum PlanOutcome {
    /// It does not compile, so it has no trustworthy topology.
    CompileError(ExpressionError),
    /// It compiles and resolves.
    Evaluated { values: EvaluationResult, nodes: Vec<ExpressionNodeState> },
    /// It compiles and does not resolve.
    EvaluationError { diagnostic: ExpressionDiagnostic, nodes: Vec<ExpressionNodeState> },
}

/// Candidate preview, kept separate from accepted live diagnostics.
#[derive(Debug)]
pub struct DraftPreview {
    pub values: Option<EvaluationResult>,
    pub diagnostic: Option<ExpressionDiagnostic>,
    /// Everything that depends on the drafted subject, in order.
    pub dependents: Vec<ExpressionSubject>,
}

impl DraftPreview {
    pub open spec fn is_valid(self) -> bool {
        self.diagnostic is None
    }

    pub fn valid(&self) -> (b: bool)
        ensures
            b == self.is_valid(),
    {
        self.diagnostic.is_none()
    }
}

/// Whether a requested submission goes through: only a valid, changed draft.
pub fn should_submit<T: Draftable>(
    draft: &AuthorityDraft<T>,
    preview: &DraftPreview,
    requested: bool,
) -> (b: bool)
    ensures
        b == (requested && draft.state().dirty() && preview.is_valid()),
{
    requested && draft.dirty() && preview.valid()
}

/// Whether node `i` refers directly to a subject. Only constants are referred to.
pub open spec fn refers_to(nodes: Seq<ExpressionNodeState>, i: int, to: SubjectKey) -> bool {
    exists|j: int|
        0 <= j < nodes[i].dependencies@.len() && (#[trigger] nodes[i].dependencies@[j] matches
            ExpressionDependency::Constant(id) && to == SubjectKey::Constant(id.number()))
}

/// Whether something with the identity `dependent` refers directly to `to`.
pub open spec fn depends_directly(
    nodes: Seq<ExpressionNodeState>,
    dependent: SubjectKey,
    to: SubjectKey,
) -> bool {
    exists|i: int|
        0 <= i < nodes.len() && (#[trigger] nodes[i]).subject.key() == dependent && refers_to(
            nodes,
            i,
            to,
        )
}

/// Whether each element of a chain depends directly on the one before it.
pub open spec fn is_chain(nodes: Seq<ExpressionNodeState>, chain: Seq<SubjectKey>) -> bool {
    forall|k: int|
        0 <= k < chain.len() - 1 ==> depends_directly(nodes, chain[k + 1], #[trigger] chain[k])
}

/// Whether a chain of at least one step leads from `subject` to `dependent`.
pub open spec fn chain_to(
    nodes: Seq<ExpressionNodeState>,
    subject: SubjectKey,
    dependent: SubjectKey,
    chain: Seq<SubjectKey>,
) -> bool {
    &&& chain.len() >= 2
    &&& chain[0] == subject
    &&& chain.last() == dependent
    &&& is_chain(nodes, chain)
}

/// Whether `dependent` depends on `subject`, directly or through others.
pub open spec fn depends(
    nodes: Seq<ExpressionNodeState>,
    dependent: SubjectKey,
    subject: SubjectKey,
) -> bool {
    exists|chain: Seq<SubjectKey>| chain_to(nodes, subject, dependent, chain)
}

/// Whether the nodes that are marked are closed under direct dependence.
spec fn closed(nodes: Seq<ExpressionNodeState>, marked: Seq<bool>, subject: SubjectKey) -> bool {
    forall|i: int, to: SubjectKey|
        0 <= i < nodes.len() && #[trigger] refers_to(nodes, i, to) && (to == subject || is_marked(
            nodes,
            marked,
            to,
        )) ==> marked[i]
}

/// Whether a marked node has this identity.
spec fn is_marked(nodes: Seq<ExpressionNodeState>, marked: Seq<bool>, key: SubjectKey) -> bool {
    exists|i: int| 0 <= i < nodes.len() && marked[i] && (#[trigger] nodes[i]).subject.key() == key
}

/// Whether every marked node depends on the subject.
spec fn sound(nodes: Seq<ExpressionNodeState>, marked: Seq<bool>, subject: SubjectKey) -> bool {
    forall|i: int|
        0 <= i < nodes.len() && #[trigger] marked[i] ==> depends(nodes, nodes[i].subject.key(), subject)
}

spec fn unmarked(marked: Seq<bool>) -> nat
    decreases marked.len(),
{
    if marked.len() == 0 {
        0
    } else {
        unmarked(marked.drop_last()) + if marked.last() {
            0nat
        } else {
            1nat
        }
    }
}

proof fn lemma_marking_counts(marked: Seq<bool>, i: int)
    requires
        0 <= i < marked.len(),
        !marked[i],
    ensures
        unmarked(marked.update(i, true)) + 1 == unmarked(marked),
    decreases marked.len(),
{
    let after = marked.update(i, true);
    if i < marked.len() - 1 {
        assert(after.drop_last() =~= marked.drop_last().update(i, true));
        lemma_marking_counts(marked.drop_last(), i);
    } else {
        assert(after.drop_last() =~= marked.drop_last());
    }
}

/// One more step at the end of a chain.
proof fn lemma_step(
    nodes: Seq<ExpressionNodeState>,
    subject: SubjectKey,
    to: SubjectKey,
    dependent: SubjectKey,
)
    requires
        depends_directly(nodes, dependent, to),
        to == subject || depends(nodes, to, subject),
    ensures
        depends(nodes, dependent, subject),
{
    let chain = if to == subject {
        seq![subject]
    } else {
        choose|chain: Seq<SubjectKey>| chain_to(nodes, subject, to, chain)
    };
    let longer = chain.push(dependent);
    assert(is_chain(nodes, longer)) by {
        assert forall|k: int| 0 <= k < longer.len() - 1 implies depends_directly(
            nodes,
            longer[k + 1],
            #[trigger] longer[k],
        ) by {
            if to != subject && k < chain.len() - 1 {
                assert(longer[k] == chain[k] && longer[k + 1] == chain[k + 1]);
            } else {
                assert(longer[k] == to && longer[k + 1] == dependent);
            }
        }
    }
    assert(chain_to(nodes, subject, dependent, longer));
}

/// With the marks closed, every element of a chain behind its start is marked.
proof fn lemma_chain_is_marked(
    nodes: Seq<ExpressionNodeState>,
    marked: Seq<bool>,
    subject: SubjectKey,
    chain: Seq<SubjectKey>,
    k: int,
)
    requires
        marked.len() == nodes.len(),
        closed(nodes, marked, subject),
        chain.len() >= 2,
        chain[0] == subject,
        is_chain(nodes, chain),
        1 <= k < chain.len(),
    ensures
        is_marked(nodes, marked, chain[k]),
    decreases k,
{
    if k > 1 {
        lemma_chain_is_marked(nodes, marked, subject, chain, k - 1);
    }
    assert(depends_directly(nodes, chain[k - 1 + 1], chain[k - 1]));
    let i = choose|i: int|
        0 <= i < nodes.len() && (#[trigger] nodes[i]).subject.key() == chain[k] && refers_to(
            nodes,
            i,
            chain[k - 1],
        );
    assert(marked[i]);
}

/// Whether a constant is the subject or belongs to a marked node.
fn is_reached(
    nodes: &Vec<ExpressionNodeState>,
    marked: &Vec<bool>,
    subject: &ExpressionSubject,
    constant: ConstantId,
) -> (b: bool)
    requires
        marked.len() == nodes.len(),
    ensures
        b == (subject.key() == SubjectKey::Constant(constant.number()) || is_marked(
            nodes@,
            marked@,
            SubjectKey::Constant(constant.number()),
        )),
{
    let key = ExpressionSubject::Constant(constant);
    if subject.same(&key) {
        return true;
    }
    let mut i: usize = 0;
    while i < nodes.len()
        invariant
            marked.len() == nodes.len(),
            i <= nodes.len(),
            key.key() == SubjectKey::Constant(constant.number()),
            forall|k: int| 0 <= k < i ==> !(marked[k] && (#[trigger] nodes[k]).subject.key() == key.key()),
        decreases nodes.len() - i,
    {
        if marked[i] && nodes[i].subject.same(&key) {
            return true;
        }
        i = i + 1;
    }
    false
}

/// Whether node `i` refers to the subject or to a marked node.
fn is_affected(
    nodes: &Vec<ExpressionNodeState>,
    marked: &Vec<bool>,
    subject: &ExpressionSubject,
    i: usize,
) -> (b: bool)
    requires
        marked.len() == nodes.len(),
        i < nodes.len(),
    ensures
        b == exists|to: SubjectKey| #[trigger]
            refers_to(nodes@, i as int, to) && (to == subject.key() || is_marked(nodes@, marked@, to)),
{
    let dependencies = &nodes[i].dependencies;
    let mut j: usize = 0;
    while j < dependencies.len()
        invariant
            marked.len() == nodes.len(),
            i < nodes.len(),
            *dependencies == nodes[i as int].dependencies,
            j <= dependencies.len(),
            forall|k: int|
                0 <= k < j ==> (#[trigger] dependencies@[k] matches ExpressionDependency::Constant(id)
                    ==> !(SubjectKey::Constant(id.number()) == subject.key() || is_marked(
                    nodes@,
                    marked@,
                    SubjectKey::Constant(id.number()),
                ))),
        decreases dependencies.len() - j,
    {
        match dependencies[j] {
            ExpressionDependency::Constant(id) => {
                if is_reached(nodes, marked, subject, id) {
                    assert(refers_to(nodes@, i as int, SubjectKey::Constant(id.number()))) by {
                        assert(nodes[i as int].dependencies@[j as int] == dependencies[j as int]);
                    }
                    return true;
                }
            },
            ExpressionDependency::Distance(_) => {},
        }
        j = j + 1;
    }
    false
}

/// Everything that depends on a subject, directly or through others, each once
/// and in order.
pub fn transitive_dependents(nodes: &Vec<ExpressionNodeState>, subject: &ExpressionSubject) -> (
    dependents: Vec<ExpressionSubject>)
    ensures
        all_dependents(dependents@, nodes@, subject.key()),
{
    let mut marked: Vec<bool> = Vec::new();
    while marked.len() < nodes.len()
        invariant
            marked.len() <= nodes.len(),
            forall|k: int| 0 <= k < marked.len() ==> !(#[trigger] marked[k]),
        decreases nodes.len() - marked.len(),
    {
        marked.push(false);
    }
    let mut changed: bool = true;
    while changed
        invariant
            marked.len() == nodes.len(),
            sound(nodes@, marked@, subject.key()),
            !changed ==> closed(nodes@, marked@, subject.key()),
        decreases
            unmarked(marked@),
            if changed {
                1int
            } else {
                0int
            },
    {
        changed = false;
        let ghost start = marked@;
        let mut i: usize = 0;
        while i < nodes.len()
            invariant
                marked.len() == nodes.len(),
                start.len() == nodes.len(),
                i <= nodes.len(),
                sound(nodes@, marked@, subject.key()),
                changed ==> unmarked(marked@) < unmarked(start),
                !changed ==> marked@ == start,
                !changed ==> forall|k: int, to: SubjectKey|
                    0 <= k < i && #[trigger] refers_to(nodes@, k, to) && (to == subject.key() || is_marked(
                        nodes@,
                        marked@,
                        to,
                    )) ==> marked[k],
            decreases nodes.len() - i,
        {
            if !marked[i] && is_affected(nodes, &marked, subject, i) {
                proof {
                    let to = choose|to: SubjectKey| #[trigger]
                        refers_to(nodes@, i as int, to) && (to == subject.key() || is_marked(
                            nodes@,
                            marked@,
                            to,
                        ));
                    let key = nodes[i as int].subject.key();
                    assert(depends_directly(nodes@, key, to));
                    if to != subject.key() {
                        let m = choose|m: int|
                            0 <= m < nodes.len() && marked[m] && (#[trigger] nodes[m]).subject.key() == to;
                        assert(marked@[m]);
                    }
                    lemma_step(nodes@, subject.key(), to, key);
                    lemma_marking_counts(marked@, i as int);
                }
                let ghost before = marked@;
                marked.set(i, true);
                assert(marked@ =~= before.update(i as int, true));
                changed = true;
            }
            i = i + 1;
        }
    }
    let mut found: OrderedMap<ExpressionSubject, usize> = OrderedMap::new();
    let mut i: usize = 0;
    while i < nodes.len()
        invariant
            marked.len() == nodes.len(),
            i <= nodes.len(),
            forall|key: SubjectKey| #[trigger]
                found.map().contains_key(key) <==> exists|k: int|
                    0 <= k < i && marked[k] && (#[trigger] nodes[k]).subject.key() == key,
            forall|key: SubjectKey| #[trigger]
                found.map().contains_key(key) ==> found.map()[key] < i
                    && nodes[found.map()[key] as int].subject.key() == key,
        decreases nodes.len() - i,
    {
        if marked[i] {
            found.insert(nodes[i].subject.copied(), i);
        }
        i = i + 1;
    }
    assert forall|key: SubjectKey| #[trigger] found.map().contains_key(key) <==> depends(
        nodes@,
        key,
        subject.key(),
    ) by {
        if found.map().contains_key(key) {
            let k = choose|k: int|
                0 <= k < nodes.len() && marked[k] && (#[trigger] nodes[k]).subject.key() == key;
            assert(marked@[k]);
        }
        if depends(nodes@, key, subject.key()) {
            let chain = choose|chain: Seq<SubjectKey>| chain_to(nodes@, subject.key(), key, chain);
            lemma_chain_is_marked(nodes@, marked@, subject.key(), chain, chain.len() - 1);
        }
    }
    let total: usize = found.len();
    let mut dependents: Vec<ExpressionSubject> = Vec::new();
    let mut n: usize = 0;
    while n < total
        invariant
            total == found.listed().len(),
            n <= total,
            dependents.len() == n,
            forall|key: SubjectKey| #[trigger]
                found.map().contains_key(key) ==> found.map()[key] < nodes.len()
                    && nodes[found.map()[key] as int].subject.key() == key,
            forall|k: int|
                0 <= k < n ==> (#[trigger] dependents[k]).key() == found.listed()[k].0.key(),
            forall|k: int| 0 <= k < n ==> is_subject(nodes@, #[trigger] dependents[k]),
        decreases total - n,
    {
        let (key, at) = found.entry(n);
        assert(found.map().contains_key(key.key()));
        dependents.push(nodes[*at].subject.copied());
        assert(nodes@[*at as int].subject == dependents[n as int]);
        n = n + 1;
    }
    proof {
        assert forall|key: SubjectKey| #[trigger] crate::ids::lists(dependents@, key) <==> depends(
            nodes@,
            key,
            subject.key(),
        ) by {
            assert(found.map().contains_key(key) <==> depends(nodes@, key, subject.key()));
            assert(found.map().contains_key(key) <==> crate::ordered::has_key(found.listed(), key));
            if crate::ids::lists(dependents@, key) {
                let k = choose|k: int|
                    0 <= k < dependents.len() && (#[trigger] dependents@[k]).key() == key;
                assert(found.listed()[k].0.key() == key);
            }
            if crate::ordered::has_key(found.listed(), key) {
                let k = choose|k: int|
                    0 <= k < found.listed().len() && (#[trigger] found.listed()[k]).0.key() == key;
                assert(dependents@[k].key() == key);
            }
        }
        assert forall|k: int, l: int| 0 <= k < l < dependents.len() implies crate::expression::subject_before(
            (#[trigger] dependents[k]).key(),
            (#[trigger] dependents[l]).key(),
        ) by {
            assert(ExpressionSubject::key_before(
                found.listed()[k].0.key(),
                found.listed()[l].0.key(),
            ));
        }
    }
    dependents
}

/// Whether an expression is that of some node.
pub open spec fn is_subject(nodes: Seq<ExpressionNodeState>, subject: ExpressionSubject) -> bool {
    exists|i: int| 0 <= i < nodes.len() && (#[trigger] nodes[i]).subject == subject
}

/// Whether a list of subjects is everything that depends on `subject`, each as its
/// node has it.
pub open spec fn all_dependents(
    dependents: Seq<ExpressionSubject>,
    nodes: Seq<ExpressionNodeState>,
    subject: SubjectKey,
) -> bool {
    &&& forall|k: int| 0 <= k < dependents.len() ==> is_subject(nodes, #[trigger] dependents[k])
    &&& forall|key: SubjectKey| #[trigger]
        crate::ids::lists(dependents, key) <==> depends(nodes, key, subject)
    &&& forall|k: int, l: int|
        0 <= k < l < dependents.len() ==> crate::expression::subject_before(
            (#[trigger] dependents[k]).key(),
            (#[trigger] dependents[l]).key(),
        )
}

/// The preview of a candidate graph. If it does not compile, the accepted graph
/// supplies the affected targets, and the problem belongs to the drafted subject.
pub fn preview_document(
    outcome: PlanOutcome,
    drafted_subject: ExpressionSubject,
    accepted: &Vec<ExpressionNodeState>,
) -> (preview: DraftPreview)
    ensures
        match outcome {
            PlanOutcome::CompileError(error) => {
                &&& preview.values is None
                &&& preview.diagnostic == Some(
                    ExpressionDiagnostic { subject: drafted_subject, error },
                )
                &&& all_dependents(preview.dependents@, accepted@, drafted_subject.key())
            },
            PlanOutcome::Evaluated { values, nodes } => {
                &&& preview.values == Some(values)
                &&& preview.diagnostic is None
                &&& all_dependents(preview.dependents@, nodes@, drafted_subject.key())
            },
            PlanOutcome::EvaluationError { diagnostic, nodes } => {
                &&& preview.values is None
                &&& preview.diagnostic == Some(diagnostic)
                &&& all_dependents(preview.dependents@, nodes@, drafted_subject.key())
            },
        },
{
    match outcome {
        PlanOutcome::CompileError(error) => {
            let dependents = transitive_dependents(accepted, &drafted_subject);
            DraftPreview {
                values: None,
                diagnostic: Some(ExpressionDiagnostic { subject: drafted_subject, error }),
                dependents,
            }
        },
        PlanOutcome::Evaluated { values, nodes } => {
            let dependents = transitive_dependents(&nodes, &drafted_subject);
            DraftPreview { values: Some(values), diagnostic: None, dependents }
        },
        PlanOutcome::EvaluationError { diagnostic, nodes } => {
            let dependents = transitive_dependents(&nodes, &drafted_subject);
            DraftPreview { values: None, diagnostic: Some(diagnostic), dependents }
        },
    }
}

/// The property an expression may be bound to: its object exists and has the
/// component, whose kind declares the property as a scalar.
pub open spec fn bindable(world: WorldSnapshot, target: PropertyTarget) -> Option<PropertySchema> {
    if !(exists|o: int| #[trigger]
        crate::world::first_at(world.objects@, target.object.number(), o) && crate::world::attached(
            world.objects@[o].components@,
            target.component@,
        )) {
        None
    } else {
        match crate::world::schema_from(world.component_schemas@, target.component@, 0) {
            None => None,
            Some(schema) => match crate::world::property_from(
                schema.properties@,
                target.property@,
                0,
            ) {
                Some(property) if property.kind is Scalar => Some(property),
                _ => None,
            },
        }
    }
}

/// The property an expression may be bound to.
pub fn binding_schema<'a>(world: &'a WorldSnapshot, target: &PropertyTarget) -> (property: Option<
    &'a PropertySchema,
>)
    ensures
        property is Some <==> bindable(*world, *target) is Some,
        property matches Some(p) ==> bindable(*world, *target) == Some(*p),
{
    match find(&world.objects, target.object.get()) {
        None => {
            assert(!(exists|o: int| #[trigger]
                crate::world::first_at(world.objects@, target.object.number(), o)));
            None
        },
        Some(o) => {
            let ghost number = target.object.number();
            assert forall|p: int| #[trigger] crate::world::first_at(world.objects@, number, p) implies p
                == o by {
                if p < o {
                    assert(world.objects@[p].number() != number);
                } else if o < p {
                    assert(world.objects@[o as int].number() != number);
                }
            }
            if !crate::world::is_attached(&world.objects[o].components, &target.component) {
                return None;
            }
            match world.component_schema(&target.component) {
                None => None,
                Some(schema) => match crate::world::find_property(&schema.properties, &target.property) {
                    None => None,
                    Some(property) => match property.kind {
                        PropertyKind::Scalar(_) => Some(property),
                        _ => None,
                    },
                },
            }
        },
    }
}

/// Menu label and inserted token of every distance probe, in order. The label
/// follows the probe's name; the token is its durable numeric identity.
pub fn distance_insertions(world: &WorldSnapshot) -> (insertions: Vec<(String, String)>)
    ensures
        insertions.len() == world.distance_probes.len(),
        forall|i: int|
            0 <= i < insertions.len() ==> (#[trigger] insertions[i]).0@ == "Distance: "@
                + world.distance_probes[i].name@,
        forall|i: int|
            0 <= i < insertions.len() ==> (#[trigger] insertions[i]).1@ == distance_token(
                world.distance_probes[i].id.number(),
            ),
{
    let probes = &world.distance_probes;
    let mut insertions: Vec<(String, String)> = Vec::new();
    let mut i: usize = 0;
    while i < probes.len()
        invariant
            *probes == world.distance_probes,
            i <= probes.len(),
            insertions.len() == i,
            forall|k: int|
                0 <= k < i ==> (#[trigger] insertions[k]).0@ == "Distance: "@ + probes[k].name@,
            forall|k: int|
                0 <= k < i ==> (#[trigger] insertions[k]).1@ == distance_token(probes[k].id.number()),
        decreases probes.len() - i,
    {
        insertions.push(
            (
                concat2("Distance: ", probes[i].name.as_str()),
                numbered("distance.", probes[i].id.get()),
            ),
        );
        i = i + 1;
    }
    insertions
}

/// How an expression refers to a distance probe.
pub open spec fn distance_token(number: u64) -> Seq<char> {
    "distance."@ + crate::text::decimal(number as nat)
}

/// What an expression refers to by a token is one distance probe, whatever it is
/// called.
pub proof fn tokens_tell_probes_apart(a: u64, b: u64)
    ensures
        distance_token(a) == distance_token(b) <==> a == b,
{
    if distance_token(a) == distance_token(b) {
        let prefix = "distance."@;
        assert(distance_token(a).skip(prefix.len() as int) =~= crate::text::decimal(a as nat));
        assert(distance_token(b).skip(prefix.len() as int) =~= crate::text::decimal(b as nat));
        crate::text::numbers_are_written_apart(a as nat, b as nat);
    }
}

/// How an expression refers to a constant.
pub open spec fn constant_symbol(scope: crate::expression::ConstantScope, name: Seq<char>) -> Seq<char> {
    scope.word() + "."@ + name
}

/// The first constant with an identity, searching from position `n`.
pub open spec fn constant_from(
    constants: Seq<crate::expression::ConstantDefinition>,
    id: ConstantId,
    n: nat,
) -> Option<crate::expression::ConstantDefinition>
    decreases constants.len() - n,
{
    if n >= constants.len() {
        None
    } else if constants[n as int].id == id {
        Some(constants[n as int])
    } else {
        constant_from(constants, id, n + 1)
    }
}

/// The constant with an identity.
pub fn find_constant<'a>(
    constants: &'a Vec<crate::expression::ConstantDefinition>,
    id: ConstantId,
) -> (constant: Option<&'a crate::expression::ConstantDefinition>)
    ensures
        constant is Some <==> constant_from(constants@, id, 0) is Some,
        constant matches Some(c) ==> constant_from(constants@, id, 0) == Some(*c),
{
    let mut i: usize = 0;
    while i < constants.len()
        invariant
            i <= constants.len(),
            constant_from(constants@, id, 0) == constant_from(constants@, id, i as nat),
        decreases constants.len() - i,
    {
        if constants[i].id.is(id) {
            return Some(&constants[i]);
        }
        i = i + 1;
    }
    None
}

/// How a subject reads in a list of affected things: a constant by its name, or
/// by its number if the document does not know it; a property as it is written.
pub open spec fn subject_words(subject: ExpressionSubject, document: ExpressionDocument) -> Seq<char> {
    match subject {
        ExpressionSubject::Constant(id) => match constant_from(document.constants@, id, 0) {
            Some(constant) => "constant "@ + constant.name@,
            None => "constant "@ + crate::text::decimal(id.number() as nat),
        },
        ExpressionSubject::Property(target) => target.written@,
    }
}

pub fn subject_label(subject: &ExpressionSubject, document: &ExpressionDocument) -> (text: String)
    ensures
        text@ == subject_words(*subject, *document),
{
    match subject {
        ExpressionSubject::Constant(id) => match find_constant(&document.constants, *id) {
            Some(constant) => concat2("constant ", constant.name.as_str()),
            None => numbered("constant ", id.get()),
        },
        ExpressionSubject::Property(target) => target.written.clone(),
    }
}

/// The line that lists everything affected by a draft, if anything is.
pub fn affected_line(preview: &DraftPreview, document: &ExpressionDocument) -> (line: Option<String>)
    ensures
        line is Some <==> preview.dependents@.len() > 0,
        line matches Some(text) ==> text@ == "Affected: "@ + crate::text::joined(
            preview.dependents@.map_values(|s: ExpressionSubject| subject_words(s, *document)),
            ", "@,
        ),
{
    if preview.dependents.len() == 0 {
        return None;
    }
    let subjects = &preview.dependents;
    let mut labels: Vec<String> = Vec::new();
    let mut i: usize = 0;
    while i < subjects.len()
        invariant
            i <= subjects.len(),
            labels.len() == i,
            forall|k: int|
                0 <= k < i ==> (#[trigger] labels[k])@ == subject_words(subjects[k], *document),
        decreases subjects.len() - i,
    {
        labels.push(subject_label(&subjects[i], document));
        i = i + 1;
    }
    let list = crate::text::join(&labels, ", ");
    assert(crate::text::texts(labels@) =~= subjects@.map_values(
        |s: ExpressionSubject| subject_words(s, *document),
    ));
    Some(concat2("Affected: ", list.as_str()))
}

/// Where in its source an expression is wrong, if it says so.
pub fn span_line(error: &ExpressionError) -> (line: Option<String>)
    ensures
        line is Some <==> error.span is Some,
        line matches Some(text) ==> text@ == "Source bytes "@ + crate::text::decimal(
            (error.span->0).start as nat,
        ) + ".."@ + crate::text::decimal((error.span->0).end as nat),
{
    match error.span {
        None => None,
        Some(Span { start, end }) => {
            let mut text = numbered("Source bytes ", start as u64);
            text.append("..");
            crate::text::push_decimal(&mut text, end as u128);
            Some(text)
        },
    }
}

/// The constants and distances an accepted expression refers to, in words.
pub open spec fn dependency_words(dependency: ExpressionDependency, document: ExpressionDocument) -> Seq<
    char,
> {
    match dependency {
        ExpressionDependency::Constant(id) => match constant_from(document.constants@, id, 0) {
            Some(constant) => constant_symbol(constant.scope, constant.name@),
            None => "constant "@ + crate::text::decimal(id.number() as nat),
        },
        ExpressionDependency::Distance(id) => distance_token(id.number()),
    }
}

fn dependency_label(dependency: ExpressionDependency, document: &ExpressionDocument) -> (text: String)
    ensures
        text@ == dependency_words(dependency, *document),
{
    match dependency {
        ExpressionDependency::Constant(id) => match find_constant(&document.constants, id) {
            Some(constant) => crate::text::concat3(
                constant.scope.label(),
                ".",
                constant.name.as_str(),
            ),
            None => numbered("constant ", id.get()),
        },
        ExpressionDependency::Distance(id) => numbered("distance.", id.get()),
    }
}

/// The line that lists what an accepted expression refers to, if anything.
pub fn depends_line(node: &ExpressionNodeState, document: &ExpressionDocument) -> (line: Option<String>)
    ensures
        line is Some <==> node.dependencies@.len() > 0,
        line matches Some(text) ==> text@ == "Depends on: "@ + crate::text::joined(
            node.dependencies@.map_values(|d: ExpressionDependency| dependency_words(d, *document)),
            ", "@,
        ),
{
    if node.dependencies.len() == 0 {
        return None;
    }
    let dependencies = &node.dependencies;
    let mut labels: Vec<String> = Vec::new();
    let mut i: usize = 0;
    while i < dependencies.len()
        invariant
            i <= dependencies.len(),
            labels.len() == i,
            forall|k: int|
                0 <= k < i ==> (#[trigger] labels[k])@ == dependency_words(dependencies[k], *document),
        decreases dependencies.len() - i,
    {
        labels.push(dependency_label(dependencies[i], document));
        i = i + 1;
    }
    let list = crate::text::join(&labels, ", ");
    assert(crate::text::texts(labels@) =~= dependencies@.map_values(
        |d: ExpressionDependency| dependency_words(d, *document),
    ));
    Some(concat2("Depends on: ", list.as_str()))
}

/// The accepted node of a subject, searching from position `n`.
pub open spec fn node_from(nodes: Seq<ExpressionNodeState>, subject: SubjectKey, n: nat) -> Option<
    ExpressionNodeState,
>
    decreases nodes.len() - n,
{
    if n >= nodes.len() {
        None
    } else if nodes[n as int].subject.key() == subject {
        Some(nodes[n as int])
    } else {
        node_from(nodes, subject, n + 1)
    }
}

/// The accepted node of a subject.
pub fn find_node<'a>(nodes: &'a Vec<ExpressionNodeState>, subject: &ExpressionSubject) -> (node: Option<
    &'a ExpressionNodeState,
>)
    ensures
        node is Some <==> node_from(nodes@, subject.key(), 0) is Some,
        node matches Some(n) ==> node_from(nodes@, subject.key(), 0) == Some(*n),
{
    let mut i: usize = 0;
    while i < nodes.len()
        invariant
            i <= nodes.len(),
            node_from(nodes@, subject.key(), 0) == node_from(nodes@, subject.key(), i as nat),
        decreases nodes.len() - i,
    {
        if nodes[i].subject.same(subject) {
            return Some(&nodes[i]);
        }
        i = i + 1;
    }
    None
}

proof fn lemma_a_constant_is_found_by_its_identity(constants: Seq<crate::expression::ConstantDefinition>, id: ConstantId, n: nat, k: int)
    requires
        n <= k < constants.len(),
        constants[k].id == id,
        forall|j: int| n <= j < k ==> !((#[trigger] constants[j]).id == id),
    ensures
        constant_from(constants, id, n) == Some(constants[k]),
    decreases k - n,
{
    if n < k {
        assert(!(constants[n as int].id == id));
        lemma_a_constant_is_found_by_its_identity(constants, id, n + 1, k);
    }
}

proof fn lemma_a_constant_is_found_by_its_identity_none(constants: Seq<crate::expression::ConstantDefinition>, id: ConstantId, n: nat)
    requires
        forall|j: int| n <= j < constants.len() ==> !((#[trigger] constants[j]).id == id),
    ensures
        constant_from(constants, id, n) is None,
    decreases constants.len() - n,
{
    if n < constants.len() {
        assert(!(constants[n as int].id == id));
        lemma_a_constant_is_found_by_its_identity_none(constants, id, n + 1);
    }
}

/// The constant found for an identity is the first of that identity, and none if none is.
pub proof fn a_constant_is_found_by_its_identity(constants: Seq<crate::expression::ConstantDefinition>, id: ConstantId)
    ensures
        forall|k: int|
            0 <= k < constants.len() && (#[trigger] constants[k]).id == id && (forall|j: int|
                0 <= j < k ==> !((#[trigger] constants[j]).id == id)) ==> constant_from(constants, id, 0) == Some(
                constants[k],
            ),
        (forall|j: int| 0 <= j < constants.len() ==> !((#[trigger] constants[j]).id == id))
            ==> constant_from(constants, id, 0) is None,
{
    assert forall|k: int|
        0 <= k < constants.len() && (#[trigger] constants[k]).id == id && (forall|j: int|
            0 <= j < k ==> !((#[trigger] constants[j]).id == id)) implies constant_from(constants, id, 0) == Some(
        constants[k],
    ) by {
        lemma_a_constant_is_found_by_its_identity(constants, id, 0, k);
    }
    if forall|j: int| 0 <= j < constants.len() ==> !((#[trigger] constants[j]).id == id) {
        lemma_a_constant_is_found_by_its_identity_none(constants, id, 0);
    }
}

proof fn lemma_an_expression_finds_its_own_node(nodes: Seq<ExpressionNodeState>, subject: SubjectKey, n: nat, k: int)
    requires
        n <= k < nodes.len(),
        nodes[k].subject.key() == subject,
        forall|j: int| n <= j < k ==> !((#[trigger] nodes[j]).subject.key() == subject),
    ensures
        node_from(nodes, subject, n) == Some(nodes[k]),
    decreases k - n,
{
    if n < k {
        assert(!(nodes[n as int].subject.key() == subject));
        lemma_an_expression_finds_its_own_node(nodes, subject, n + 1, k);
    }
}

proof fn lemma_an_expression_finds_its_own_node_none(nodes: Seq<ExpressionNodeState>, subject: SubjectKey, n: nat)
    requires
        forall|j: int| n <= j < nodes.len() ==> !((#[trigger] nodes[j]).subject.key() == subject),
    ensures
        node_from(nodes, subject, n) is None,
    decreases nodes.len() - n,
{
    if n < nodes.len() {
        assert(!(nodes[n as int].subject.key() == subject));
        lemma_an_expression_finds_its_own_node_none(nodes, subject, n + 1);
    }
}

/// The node found for an expression is the first of that expression, and none if none is.
pub proof fn an_expression_finds_its_own_node(nodes: Seq<ExpressionNodeState>, subject: SubjectKey)
    ensures
        forall|k: int|
            0 <= k < nodes.len() && (#[trigger] nodes[k]).subject.key() == subject && (forall|j: int|
                0 <= j < k ==> !((#[trigger] nodes[j]).subject.key() == subject)) ==> node_from(nodes, subject, 0) == Some(
                nodes[k],
            ),
        (forall|j: int| 0 <= j < nodes.len() ==> !((#[trigger] nodes[j]).subject.key() == subject))
            ==> node_from(nodes, subject, 0) is None,
{
    assert forall|k: int|
        0 <= k < nodes.len() && (#[trigger] nodes[k]).subject.key() == subject && (forall|j: int|
            0 <= j < k ==> !((#[trigger] nodes[j]).subject.key() == subject)) implies node_from(nodes, subject, 0) == Some(
        nodes[k],
    ) by {
        lemma_an_expression_finds_its_own_node(nodes, subject, 0, k);
    }
    if forall|j: int| 0 <= j < nodes.len() ==> !((#[trigger] nodes[j]).subject.key() == subject) {
        lemma_an_expression_finds_its_own_node_none(nodes, subject, 0);
    }
}

/// An expression refers directly to a constant exactly where some node of it lists that
/// constant among its dependencies. Nothing refers to a property.
pub proof fn an_expression_refers_to_what_it_lists(
    nodes: Seq<ExpressionNodeState>,
    dependent: SubjectKey,
    to: SubjectKey,
)
    ensures
        depends_directly(nodes, dependent, to) <==> exists|i: int, j: int|
            0 <= i < nodes.len() && 0 <= j < nodes[i].dependencies@.len() && nodes[i].subject.key()
                == dependent && (#[trigger] nodes[i].dependencies@[j] matches
                ExpressionDependency::Constant(id) && to == SubjectKey::Constant(id.number())),
{
    if depends_directly(nodes, dependent, to) {
        let i = choose|i: int|
            0 <= i < nodes.len() && (#[trigger] nodes[i]).subject.key() == dependent && refers_to(
                nodes,
                i,
                to,
            );
        let j = choose|j: int|
            0 <= j < nodes[i].dependencies@.len() && (#[trigger] nodes[i].dependencies@[j] matches
                ExpressionDependency::Constant(id) && to == SubjectKey::Constant(id.number()));
        assert(nodes[i].dependencies@[j] is Constant);
    }
    if exists|i: int, j: int|
        0 <= i < nodes.len() && 0 <= j < nodes[i].dependencies@.len() && nodes[i].subject.key()
            == dependent && (#[trigger] nodes[i].dependencies@[j] matches
            ExpressionDependency::Constant(id) && to == SubjectKey::Constant(id.number())) {
        let (i, j) = choose|i: int, j: int|
            0 <= i < nodes.len() && 0 <= j < nodes[i].dependencies@.len() && nodes[i].subject.key()
                == dependent && (#[trigger] nodes[i].dependencies@[j] matches
                ExpressionDependency::Constant(id) && to == SubjectKey::Constant(id.number()));
        assert(nodes[i].subject.key() == dependent);
        assert(refers_to(nodes, i, to));
    }
}

/// Something depends on a subject exactly where it refers to it, or to something that
/// depends on it.
pub proof fn dependence_goes_through_others(
    nodes: Seq<ExpressionNodeState>,
    dependent: SubjectKey,
    subject: SubjectKey,
)
    ensures
        depends_directly(nodes, dependent, subject) ==> depends(nodes, dependent, subject),
        forall|middle: SubjectKey| #[trigger]
            depends_directly(nodes, dependent, middle) && depends(nodes, middle, subject) ==> depends(
                nodes,
                dependent,
                subject,
            ),
        depends(nodes, dependent, subject) ==> depends_directly(nodes, dependent, subject) || exists|
            middle: SubjectKey,
        | #[trigger]
            depends_directly(nodes, dependent, middle) && depends(nodes, middle, subject),
{
    if depends_directly(nodes, dependent, subject) {
        lemma_step(nodes, subject, subject, dependent);
    }
    assert forall|middle: SubjectKey| #[trigger]
        depends_directly(nodes, dependent, middle) && depends(nodes, middle, subject) implies depends(
        nodes,
        dependent,
        subject,
    ) by {
        lemma_step(nodes, subject, middle, dependent);
    }
    if depends(nodes, dependent, subject) {
        let chain = choose|chain: Seq<SubjectKey>| chain_to(nodes, subject, dependent, chain);
        let middle = chain[chain.len() - 2];
        assert(depends_directly(nodes, chain[chain.len() - 2 + 1], chain[chain.len() - 2]));
        assert(depends_directly(nodes, dependent, middle));
        if chain.len() > 2 {
            let shorter = chain.drop_last();
            assert(is_chain(nodes, shorter)) by {
                assert forall|k: int| 0 <= k < shorter.len() - 1 implies depends_directly(
                    nodes,
                    shorter[k + 1],
                    #[trigger] shorter[k],
                ) by {
                    assert(chain[k] == shorter[k] && chain[k + 1] == shorter[k + 1]);
                }
            }
            assert(chain_to(nodes, subject, middle, shorter));
        }
    }
}

/// Each subject listed as affected is the subject of one of the nodes, as that node has it.
pub proof fn what_is_affected_is_a_node(
    dependents: Seq<ExpressionSubject>,
    nodes: Seq<ExpressionNodeState>,
    subject: SubjectKey,
    k: int,
) -> (i: int)
    requires
        all_dependents(dependents, nodes, subject),
        0 <= k < dependents.len(),
    ensures
        0 <= i < nodes.len(),
        nodes[i].subject == dependents[k],
{
    assert(is_subject(nodes, dependents[k]));
    choose|i: int| 0 <= i < nodes.len() && (#[trigger] nodes[i]).subject == dependents[k]
}

/// Everything listed as affected depends on the subject, everything that depends on it is
/// listed, and nothing is listed twice.
pub proof fn everything_affected_is_listed_once(
    dependents: Seq<ExpressionSubject>,
    nodes: Seq<ExpressionNodeState>,
    subject: SubjectKey,
)
    requires
        all_dependents(dependents, nodes, subject),
    ensures
        forall|k: int|
            0 <= k < dependents.len() ==> depends(nodes, (#[trigger] dependents[k]).key(), subject),
        forall|key: SubjectKey|
            #[trigger] depends(nodes, key, subject) ==> exists|k: int|
                0 <= k < dependents.len() && (#[trigger] dependents[k]).key() == key,
        forall|k: int, l: int|
            0 <= k < l < dependents.len() ==> (#[trigger] dependents[k]).key() != (
            #[trigger] dependents[l]).key(),
{
    assert forall|k: int| 0 <= k < dependents.len() implies depends(
        nodes,
        (#[trigger] dependents[k]).key(),
        subject,
    ) by {
        assert(crate::ids::lists(dependents, dependents[k].key()));
    }
    assert forall|key: SubjectKey| #[trigger] depends(nodes, key, subject) implies exists|k: int|
        0 <= k < dependents.len() && (#[trigger] dependents[k]).key() == key by {
        assert(crate::ids::lists(dependents, key));
    }
    assert forall|k: int, l: int| 0 <= k < l < dependents.len() implies (
    #[trigger] dependents[k]).key() != (#[trigger] dependents[l]).key() by {
        assert(crate::expression::subject_before(dependents[k].key(), dependents[l].key()));
        ExpressionSubject::order_is_irreflexive(dependents[k].key());
    }
}

/// A preview is valid exactly where there is nothing to complain of.
pub proof fn a_preview_without_a_problem_is_valid(preview: DraftPreview)
    ensures
        preview.is_valid() <==> preview.diagnostic is None,
{
}

/// A constant is written with its scope, and a distance with its number.
pub proof fn references_are_written_with_their_scope(name: Seq<char>, number: u64)
    ensures
        constant_symbol(crate::expression::ConstantScope::Document, name) == "doc"@ + "."@ + name,
        constant_symbol(crate::expression::ConstantScope::User, name) == "user"@ + "."@ + name,
        constant_symbol(crate::expression::ConstantScope::Global, name) == "global"@ + "."@ + name,
        distance_token(number) == "distance."@ + crate::text::decimal(number as nat),
{
}

/// A constant is called by its own name where the document knows it and by its number
/// elsewhere; a property as it is written.
pub proof fn subjects_are_called_by_their_own_names(
    document: ExpressionDocument,
    id: ConstantId,
    target: PropertyTarget,
    k: int,
)
    ensures
        subject_words(ExpressionSubject::Property(target), document) == target.written@,
        0 <= k < document.constants@.len() && document.constants@[k].id == id && (forall|j: int|
            0 <= j < k ==> (#[trigger] document.constants@[j]).id != id) ==> {
            &&& subject_words(ExpressionSubject::Constant(id), document) == "constant "@
                + document.constants@[k].name@
            &&& dependency_words(ExpressionDependency::Constant(id), document) == constant_symbol(
                document.constants@[k].scope,
                document.constants@[k].name@,
            )
        },
        (forall|j: int| 0 <= j < document.constants@.len() ==> (#[trigger] document.constants@[j]).id != id)
            ==> {
            &&& subject_words(ExpressionSubject::Constant(id), document) == "constant "@
                + crate::text::decimal(id.number() as nat)
            &&& dependency_words(ExpressionDependency::Constant(id), document) == "constant "@
                + crate::text::decimal(id.number() as nat)
        },
{
    a_constant_is_found_by_its_identity(document.constants@, id);
}

/// An expression is bound only to a scalar property that the kind of a component declares
/// which its object has, and to every such property.
pub proof fn an_expression_is_bound_to_a_scalar(
    world: WorldSnapshot,
    target: PropertyTarget,
    o: int,
    s: int,
    p: int,
)
    ensures
        bindable(world, target) matches Some(property) ==> property.kind is Scalar,
        crate::world::first_at(world.objects@, target.object.number(), o) && crate::world::attached(
            world.objects@[o].components@,
            target.component@,
        ) && 0 <= s < world.component_schemas@.len() && world.component_schemas@[s].id@
            == target.component@ && (forall|j: int|
            0 <= j < s ==> (#[trigger] world.component_schemas@[j]).id@ != target.component@) && 0 <= p
            < world.component_schemas@[s].properties@.len()
            && world.component_schemas@[s].properties@[p].id@ == target.property@ && (forall|j: int|
            0 <= j < p ==> (#[trigger] world.component_schemas@[s].properties@[j]).id@
                != target.property@) ==> (bindable(world, target) == if
        world.component_schemas@[s].properties@[p].kind is Scalar {
            Some(world.component_schemas@[s].properties@[p])
        } else {
            None
        }),
        (forall|i: int| 0 <= i < world.objects@.len() ==> (#[trigger] world.objects@[i]).number()
            != target.object.number()) ==> bindable(world, target) is None,
{
    crate::world::a_kind_is_found_by_its_identity(world.component_schemas@, target.component@);
    if 0 <= s < world.component_schemas@.len() {
        crate::world::a_property_is_found_by_its_name(
            world.component_schemas@[s].properties@,
            target.property@,
        );
    }
}

} // verus!
