//! Authored expressions: constants, property bindings and their dependencies.

use crate::draft::Draftable;
use crate::ids::{ComponentTypeId, ConstantId, DistanceProbeId, ObjectId, PluginId, PropertyId};
use crate::ordered::{copy_list, Copied, MapKey};
use crate::text::same_text;
use vstd::prelude::*;

verus! {

/// Where a constant lives.
#[derive(Clone, Copy, Debug, PartialEq, Eq, Structural)]
pub enum ConstantScope {
    Document,
    User,
    Global,
}

impl ConstantScope {
    /// The word in front of a constant's name.
    pub open spec fn word(self) -> Seq<char> {
        match self {
            ConstantScope::Document => "doc"@,
            ConstantScope::User => "user"@,
            ConstantScope::Global => "global"@,
        }
    }

    pub fn label(self) -> (s: &'static str)
        ensures
            s@ == self.word(),
    {
        match self {
            ConstantScope::Document => "doc",
            ConstantScope::User => "user",
            ConstantScope::Global => "global",
        }
    }
}

/// The plugin variable a constant was imported from.
#[derive(Debug, PartialEq, Eq)]
pub struct GlobalOrigin {
    pub plugin: PluginId,
    pub property: PropertyId,
}

/// A named constant.
#[derive(Debug, PartialEq, Eq)]
pub struct ConstantDefinition {
    pub id: ConstantId,
    pub scope: ConstantScope,
    pub name: String,
    pub source: String,
    /// The revision of the library it was embedded from, as it is written.
    pub revision: Option<String>,
    pub provenance: Option<String>,
    pub origin: Option<GlobalOrigin>,
}

/// What a constant says.
pub ghost struct ConstantContent {
    pub id: ConstantId,
    pub scope: ConstantScope,
    pub name: Seq<char>,
    pub source: Seq<char>,
    pub revision: Option<Seq<char>>,
    pub provenance: Option<Seq<char>>,
    pub origin: Option<(Seq<char>, Seq<char>)>,
}

/// What a text that may be missing says.
pub open spec fn optional_text(text: Option<String>) -> Option<Seq<char>> {
    match text {
        Some(text) => Some(text@),
        None => None,
    }
}

impl View for ConstantDefinition {
    type V = ConstantContent;

    open spec fn view(&self) -> ConstantContent {
        ConstantContent {
            id: self.id,
            scope: self.scope,
            name: self.name@,
            source: self.source@,
            revision: optional_text(self.revision),
            provenance: optional_text(self.provenance),
            origin: match self.origin {
                Some(origin) => Some((origin.plugin@, origin.property@)),
                None => None,
            },
        }
    }
}

fn same_optional_text(a: &Option<String>, b: &Option<String>) -> (r: bool)
    ensures
        r == (optional_text(*a) == optional_text(*b)),
{
    match (a, b) {
        (Some(x), Some(y)) => same_text(x.as_str(), y.as_str()),
        (None, None) => true,
        _ => false,
    }
}

impl Copied for ConstantDefinition {
    fn copied(&self) -> (copy: Self) {
        ConstantDefinition {
            id: self.id,
            scope: self.scope,
            name: self.name.clone(),
            source: self.source.clone(),
            revision: match &self.revision {
                Some(text) => Some(text.clone()),
                None => None,
            },
            provenance: match &self.provenance {
                Some(text) => Some(text.clone()),
                None => None,
            },
            origin: match &self.origin {
                Some(origin) => Some(
                    GlobalOrigin {
                        plugin: origin.plugin.clone(),
                        property: origin.property.clone(),
                    },
                ),
                None => None,
            },
        }
    }
}

impl ConstantDefinition {
    /// Whether two constants say the same.
    pub fn same(&self, other: &Self) -> (r: bool)
        ensures
            r == (self@ == other@),
    {
        let same_origin: bool = match (&self.origin, &other.origin) {
            (Some(a), Some(b)) => a.plugin.same(&b.plugin) && a.property.same(&b.property),
            (None, None) => true,
            _ => false,
        };
        self.id.is(other.id) && self.scope == other.scope && same_text(
            self.name.as_str(),
            other.name.as_str(),
        ) && same_text(self.source.as_str(), other.source.as_str()) && same_optional_text(
            &self.revision,
            &other.revision,
        ) && same_optional_text(
            &self.provenance,
            &other.provenance,
        ) && same_origin
    }
}

/// A property that can be bound to an expression.
#[derive(Debug, PartialEq, Eq)]
pub struct PropertyTarget {
    pub object: ObjectId,
    pub component: ComponentTypeId,
    pub property: PropertyId,
    /// How the target reads in a list of affected things.
    pub written: String,
}

impl Copied for PropertyTarget {
    fn copied(&self) -> (copy: Self) {
        PropertyTarget {
            object: self.object,
            component: self.component.clone(),
            property: self.property.clone(),
            written: self.written.clone(),
        }
    }
}

impl View for PropertyTarget {
    type V = (u64, (Seq<char>, Seq<char>), Seq<char>);

    open spec fn view(&self) -> (u64, (Seq<char>, Seq<char>), Seq<char>) {
        (self.object.number(), self.component@, self.property@)
    }
}

impl PropertyTarget {
    /// Whether two targets are one property.
    pub fn same(&self, other: &Self) -> (r: bool)
        ensures
            r == (self@ == other@),
    {
        self.object.is(other.object) && self.component.same(&other.component) && self.property.same(
            &other.property,
        )
    }
}

/// An expression bound to a property.
#[derive(Debug, PartialEq, Eq)]
pub struct PropertyBinding {
    pub target: PropertyTarget,
    pub source: String,
}

/// Everything authored in a document.
#[derive(Debug, PartialEq, Eq)]
pub struct ExpressionDocument {
    pub constants: Vec<ConstantDefinition>,
    pub bindings: Vec<PropertyBinding>,
}

/// What an expression belongs to.
#[derive(Debug, PartialEq, Eq)]
pub enum ExpressionSubject {
    Constant(ConstantId),
    Property(PropertyTarget),
}

/// The identity of what an expression belongs to.
pub ghost enum SubjectKey {
    Constant(u64),
    Property(u64, (Seq<char>, Seq<char>), Seq<char>),
}

impl Copied for ExpressionSubject {
    fn copied(&self) -> (copy: Self) {
        match self {
            ExpressionSubject::Constant(id) => ExpressionSubject::Constant(*id),
            ExpressionSubject::Property(target) => ExpressionSubject::Property(target.copied()),
        }
    }
}

/// Constants come before properties; constants by number, properties by object,
/// then component, then name.
pub open spec fn subject_before(a: SubjectKey, b: SubjectKey) -> bool {
    match (a, b) {
        (SubjectKey::Constant(x), SubjectKey::Constant(y)) => x < y,
        (SubjectKey::Constant(_), SubjectKey::Property(..)) => true,
        (SubjectKey::Property(..), SubjectKey::Constant(_)) => false,
        (SubjectKey::Property(o, c, p), SubjectKey::Property(q, d, r)) => o < q || (o == q && (
        crate::ids::pair_before(c, d) || (c == d && crate::text::text_before(p, r)))),
    }
}

impl MapKey for ExpressionSubject {
    type Key = SubjectKey;

    open spec fn key(&self) -> SubjectKey {
        match self {
            ExpressionSubject::Constant(id) => SubjectKey::Constant(id.number()),
            ExpressionSubject::Property(target) => SubjectKey::Property(
                target.object.number(),
                target.component@,
                target.property@,
            ),
        }
    }

    open spec fn key_before(a: SubjectKey, b: SubjectKey) -> bool {
        subject_before(a, b)
    }

    proof fn order_is_irreflexive(a: SubjectKey) {
        if let SubjectKey::Property(_, c, p) = a {
            <ComponentTypeId as MapKey>::order_is_irreflexive(c);
            crate::text::text_before_irreflexive(p);
        }
    }

    proof fn order_is_transitive(a: SubjectKey, b: SubjectKey, c: SubjectKey) {
        match (a, b, c) {
            (
                SubjectKey::Property(_, ca, pa),
                SubjectKey::Property(_, cb, pb),
                SubjectKey::Property(_, cc, pc),
            ) => {
                if crate::ids::pair_before(ca, cb) && crate::ids::pair_before(cb, cc) {
                    <ComponentTypeId as MapKey>::order_is_transitive(ca, cb, cc);
                }
                if crate::text::text_before(pa, pb) && crate::text::text_before(pb, pc) {
                    crate::text::text_before_transitive(pa, pb, pc);
                }
            },
            _ => {},
        }
    }

    proof fn order_is_total(a: SubjectKey, b: SubjectKey) {
        match (a, b) {
            (SubjectKey::Property(_, c, p), SubjectKey::Property(_, d, r)) => {
                <ComponentTypeId as MapKey>::order_is_total(c, d);
                crate::text::text_before_total(p, r);
            },
            _ => {},
        }
    }

    fn before(&self, other: &Self) -> (r: bool) {
        match (self, other) {
            (ExpressionSubject::Constant(x), ExpressionSubject::Constant(y)) => x.get() < y.get(),
            (ExpressionSubject::Constant(_), ExpressionSubject::Property(_)) => true,
            (ExpressionSubject::Property(_), ExpressionSubject::Constant(_)) => false,
            (ExpressionSubject::Property(x), ExpressionSubject::Property(y)) => {
                x.object.get() < y.object.get() || (x.object.get() == y.object.get() && (
                x.component.before(&y.component) || (x.component.same(&y.component)
                    && x.property.before(&y.property))))
            },
        }
    }

    fn same(&self, other: &Self) -> (r: bool) {
        match (self, other) {
            (ExpressionSubject::Constant(x), ExpressionSubject::Constant(y)) => x.is(*y),
            (ExpressionSubject::Property(x), ExpressionSubject::Property(y)) => x.same(y),
            _ => false,
        }
    }
}

/// What an expression refers to.
#[derive(Clone, Copy, Debug, PartialEq, Eq)]
pub enum ExpressionDependency {
    Constant(ConstantId),
    Distance(DistanceProbeId),
}

/// Whether an expression has a value.
#[derive(Debug, PartialEq, Eq)]
pub enum ExpressionNodeStatus {
    Resolved,
    /// Why there is none, in a word.
    Unresolved(String),
}

/// One node of the accepted dependency graph.
#[derive(Debug, PartialEq, Eq)]
pub struct ExpressionNodeState {
    pub subject: ExpressionSubject,
    pub dependencies: Vec<ExpressionDependency>,
    pub status: ExpressionNodeStatus,
}

/// The accepted expressions as the authority resolved them.
#[derive(Debug, PartialEq, Eq)]
pub struct ExpressionState {
    pub graph_hash: String,
    pub nodes: Vec<ExpressionNodeState>,
}

/// One edit of the authored expressions.
#[allow(inconsistent_fields)]
#[derive(Debug, PartialEq, Eq)]
pub enum ExpressionCommand {
    AddConstant(ConstantDefinition),
    RemoveConstant(ConstantId),
    RenameConstant { constant: ConstantId, name: String },
    SetConstantSource { constant: ConstantId, source: String },
    SetPropertyExpression(PropertyBinding),
    ClearPropertyExpression(PropertyTarget),
    ImportUserConstants(Vec<ConstantDefinition>),
    ImportGlobalConstants(Vec<ConstantDefinition>),
}

/// A variable a plugin exports to every document.
#[derive(Debug, PartialEq, Eq)]
pub struct ExportedVariable {
    pub plugin: PluginId,
    pub property: PropertyId,
    pub description: Option<String>,
    /// The default value as a literal expression.
    pub default_literal: String,
}

/// The user's reusable constants.
#[derive(Debug, PartialEq, Eq)]
pub struct UserConstantLibrary {
    pub format: String,
    pub format_version: u32,
    pub constants: Vec<ConstantDefinition>,
}

/// What a list of constants says.
pub open spec fn contents(constants: Seq<ConstantDefinition>) -> Seq<ConstantContent> {
    constants.map_values(|c: ConstantDefinition| c@)
}

/// What a library says.
pub ghost struct LibraryContent {
    pub format: Seq<char>,
    pub format_version: u32,
    pub constants: Seq<ConstantContent>,
}

fn same_constants(a: &Vec<ConstantDefinition>, b: &Vec<ConstantDefinition>) -> (r: bool)
    ensures
        r == (contents(a@) == contents(b@)),
{
    if a.len() != b.len() {
        assert(contents(a@).len() != contents(b@).len());
        return false;
    }
    let mut i: usize = 0;
    while i < a.len()
        invariant
            a.len() == b.len(),
            i <= a.len(),
            forall|k: int| 0 <= k < i ==> (#[trigger] a[k])@ == b[k]@,
        decreases a.len() - i,
    {
        if !a[i].same(&b[i]) {
            assert(contents(a@)[i as int] != contents(b@)[i as int]);
            return false;
        }
        i = i + 1;
    }
    assert(contents(a@) =~= contents(b@));
    true
}

impl Draftable for UserConstantLibrary {
    type Content = LibraryContent;

    open spec fn content(&self) -> LibraryContent {
        LibraryContent {
            format: self.format@,
            format_version: self.format_version,
            constants: contents(self.constants@),
        }
    }

    fn duplicate(&self) -> (copy: Self) {
        UserConstantLibrary {
            format: self.format.clone(),
            format_version: self.format_version,
            constants: copy_list(&self.constants),
        }
    }

    fn agrees(&self, other: &Self) -> (r: bool) {
        same_text(self.format.as_str(), other.format.as_str()) && self.format_version
            == other.format_version && same_constants(&self.constants, &other.constants)
    }
}

/// The editable part of a constant.
#[derive(Debug, PartialEq, Eq)]
pub struct ConstantFields {
    pub name: String,
    pub source: String,
}

impl Draftable for ConstantFields {
    type Content = (Seq<char>, Seq<char>);

    open spec fn content(&self) -> (Seq<char>, Seq<char>) {
        (self.name@, self.source@)
    }

    fn duplicate(&self) -> (copy: Self) {
        ConstantFields { name: self.name.clone(), source: self.source.clone() }
    }

    fn agrees(&self, other: &Self) -> (r: bool) {
        same_text(self.name.as_str(), other.name.as_str()) && same_text(
            self.source.as_str(),
            other.source.as_str(),
        )
    }
}

/// Each scope has its own word.
pub proof fn scopes_are_named(scope: ConstantScope)
    ensures
        scope == ConstantScope::Document ==> scope.word() == "doc"@,
        scope == ConstantScope::User ==> scope.word() == "user"@,
        scope == ConstantScope::Global ==> scope.word() == "global"@,
{
}

/// Constants agree where they agree in each of their parts.
pub proof fn constants_agree_part_by_part(a: ConstantDefinition, b: ConstantDefinition)
    ensures
        a@ == b@ <==> {
            &&& a.id == b.id
            &&& a.scope == b.scope
            &&& a.name@ == b.name@
            &&& a.source@ == b.source@
            &&& a.revision is Some <==> b.revision is Some
            &&& a.revision is Some && b.revision is Some ==> (a.revision->0)@ == (b.revision->0)@
            &&& a.provenance is Some <==> b.provenance is Some
            &&& a.provenance is Some && b.provenance is Some ==> (a.provenance->0)@ == (
            b.provenance->0)@
            &&& a.origin is Some <==> b.origin is Some
            &&& a.origin is Some && b.origin is Some ==> (a.origin->0).plugin.text@ == (
            b.origin->0).plugin.text@ && (a.origin->0).property.text@ == (b.origin->0).property.text@
        },
{
}

/// Two targets are one property where they are of one object, one component and one name,
/// however they are written out.
pub proof fn a_property_is_one_of_its_object(a: PropertyTarget, b: PropertyTarget)
    ensures
        a@ == b@ <==> a.object.number() == b.object.number() && a.component.plugin.text@
            == b.component.plugin.text@ && a.component.name@ == b.component.name@ && a.property.text@
            == b.property.text@,
        (ExpressionSubject::Property(a)).key() == (ExpressionSubject::Property(b)).key() <==> a@ == b@,
{
}

/// Constants come before properties. Constants are ordered by number; properties by object,
/// those of one object by component, and those of one component by name.
pub proof fn subjects_are_ordered(
    c: ConstantId,
    d: ConstantId,
    a: PropertyTarget,
    b: PropertyTarget,
)
    ensures
        subject_before(
            (ExpressionSubject::Constant(c)).key(),
            (ExpressionSubject::Constant(d)).key(),
        ) <==> c.number() < d.number(),
        subject_before((ExpressionSubject::Constant(c)).key(), (ExpressionSubject::Property(a)).key()),
        !subject_before((ExpressionSubject::Property(a)).key(), (ExpressionSubject::Constant(c)).key()),
        a.object.number() < b.object.number() ==> subject_before(
            (ExpressionSubject::Property(a)).key(),
            (ExpressionSubject::Property(b)).key(),
        ),
        a.object.number() == b.object.number() && a.component@ != b.component@ ==> (subject_before(
            (ExpressionSubject::Property(a)).key(),
            (ExpressionSubject::Property(b)).key(),
        ) <==> crate::ids::pair_before(a.component@, b.component@)),
        a.object.number() == b.object.number() && a.component@ == b.component@ ==> (subject_before(
            (ExpressionSubject::Property(a)).key(),
            (ExpressionSubject::Property(b)).key(),
        ) <==> crate::text::text_before(a.property@, b.property@)),
{
    <ComponentTypeId as MapKey>::order_is_irreflexive(a.component@);
}

/// What a library says is its format, its version and what each of its constants says.
pub proof fn a_library_says_what_it_holds(library: UserConstantLibrary)
    ensures
        library.content().format == library.format@,
        library.content().format_version == library.format_version,
        library.content().constants.len() == library.constants@.len(),
        forall|i: int|
            0 <= i < library.constants@.len() ==> #[trigger] library.content().constants[i]
                == library.constants@[i]@,
{
}

/// What is edited of a constant is its name and its source.
pub proof fn a_constant_is_edited_by_name_and_source(a: ConstantFields, b: ConstantFields)
    ensures
        a.content() == b.content() <==> a.name@ == b.name@ && a.source@ == b.source@,
{
}

} // verus!
