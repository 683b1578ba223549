//! The scene as the panels read it, and the edits they ask for.

use crate::ids::{
    BoxId, ChannelId, ComponentTypeId, DistanceProbeId, MassAggregateProbeId, ObjectId, PlaneId,
    ProbeId, PropertyId, SphereId,
};
use crate::measured::{Number, Quat, Vec2, Vec3};
use crate::ordered::{Copied, MapKey, OrderedMap, OrderedSet};
use vstd::prelude::*;

verus! {

/// Where an object is and how it is turned.
#[derive(Clone, Copy, Debug, PartialEq, Eq, Structural)]
pub struct Transform {
    pub translation: Vec3,
    pub rotation: Quat,
}

/// How an object moves.
#[derive(Clone, Copy, Debug, PartialEq, Eq, Structural)]
pub struct Velocity {
    pub linear: Vec3,
    pub angular: Vec3,
}

/// The extent of an object.
#[derive(Clone, Copy, Debug, PartialEq, Eq, Structural)]
pub enum ObjectShape {
    Point { radius: Number },
    Sphere { radius: Number },
    Box { half_extent: Vec3 },
}

/// The colour an object is drawn in.
#[derive(Clone, Copy, Debug, PartialEq, Eq, Structural)]
pub struct Rgb {
    pub r: u8,
    pub g: u8,
    pub b: u8,
}

/// A physical dimension, as it is written and as its unit is written.
#[derive(Debug, PartialEq, Eq)]
pub struct Dimension {
    pub written: String,
    pub unit_symbol: String,
}

impl Copied for Dimension {
    fn copied(&self) -> (copy: Self) {
        Dimension { written: self.written.clone(), unit_symbol: self.unit_symbol.clone() }
    }
}

/// What a property of a component can hold.
#[derive(Debug, PartialEq, Eq)]
pub enum PropertyKind {
    Scalar(Dimension),
    Vector(Dimension),
    Boolean,
    Text,
    Choice(Vec<String>),
}

/// What a property of a component holds.
#[derive(Debug, PartialEq, Eq)]
pub enum PropertyValue {
    Scalar(Number),
    Vector(Vec3),
    Boolean(bool),
    Text(String),
    Choice(String),
}

impl Copied for PropertyValue {
    fn copied(&self) -> (copy: Self) {
        match self {
            PropertyValue::Scalar(value) => PropertyValue::Scalar(*value),
            PropertyValue::Vector(value) => PropertyValue::Vector(*value),
            PropertyValue::Boolean(value) => PropertyValue::Boolean(*value),
            PropertyValue::Text(value) => PropertyValue::Text(value.clone()),
            PropertyValue::Choice(value) => PropertyValue::Choice(value.clone()),
        }
    }
}

/// What a value says.
pub ghost enum ValueContent {
    Scalar(Number),
    Vector(Vec3),
    Boolean(bool),
    Text(Seq<char>),
    Choice(Seq<char>),
}

impl View for PropertyValue {
    type V = ValueContent;

    open spec fn view(&self) -> ValueContent {
        match *self {
            PropertyValue::Scalar(value) => ValueContent::Scalar(value),
            PropertyValue::Vector(value) => ValueContent::Vector(value),
            PropertyValue::Boolean(value) => ValueContent::Boolean(value),
            PropertyValue::Text(text) => ValueContent::Text(text@),
            PropertyValue::Choice(choice) => ValueContent::Choice(choice@),
        }
    }
}

/// The values of a component's properties.
pub type PropertyBag = OrderedMap<PropertyId, PropertyValue>;

/// One property a component declares.
#[derive(Debug, PartialEq, Eq)]
pub struct PropertySchema {
    pub id: PropertyId,
    pub display_name: String,
    pub description: Option<String>,
    pub kind: PropertyKind,
    /// Whether an expression of this property may refer to live measurements.
    pub live_binding: bool,
}

/// A kind of component.
#[derive(Debug, PartialEq, Eq)]
pub struct ComponentSchema {
    pub id: ComponentTypeId,
    pub display_name: String,
    pub properties: Vec<PropertySchema>,
}

/// A component attached to an object.
#[derive(Debug, PartialEq, Eq)]
pub struct Component {
    pub id: ComponentTypeId,
    pub properties: PropertyBag,
}

/// Where a catalog entry comes from.
#[derive(Clone, Copy, Debug, PartialEq, Eq, Structural)]
pub enum CatalogOrigin {
    Global,
    Document,
}

/// A catalog entry, by where it comes from and what it is called.
#[derive(Debug, PartialEq, Eq)]
pub struct CatalogReference {
    pub origin: CatalogOrigin,
    /// The file or document the entry stands in.
    pub source: String,
    pub catalog: String,
    pub template: String,
}

impl View for CatalogReference {
    type V = (CatalogOrigin, Seq<char>, Seq<char>, Seq<char>);

    open spec fn view(&self) -> (CatalogOrigin, Seq<char>, Seq<char>, Seq<char>) {
        (self.origin, self.source@, self.catalog@, self.template@)
    }
}

impl Copied for CatalogReference {
    fn copied(&self) -> (copy: Self) {
        CatalogReference {
            origin: self.origin,
            source: self.source.clone(),
            catalog: self.catalog.clone(),
            template: self.template.clone(),
        }
    }
}

impl CatalogReference {
    /// Whether two references name the same entry.
    pub fn same(&self, other: &Self) -> (b: bool)
        ensures
            b == (self@ == other@),
    {
        self.origin == other.origin && crate::text::same_text(
            self.source.as_str(),
            other.source.as_str(),
        ) && crate::text::same_text(self.catalog.as_str(), other.catalog.as_str())
            && crate::text::same_text(self.template.as_str(), other.template.as_str())
    }
}

/// Whether an object follows its catalog entry.
#[derive(Clone, Copy, Debug, PartialEq, Eq, Structural)]
pub enum CatalogLinkMode {
    Tracking,
    Custom,
}

/// The catalog entry an object was made from.
#[derive(Debug, PartialEq, Eq)]
pub struct CatalogLink {
    pub mode: CatalogLinkMode,
    pub entry: Option<CatalogReference>,
    pub source_description: String,
}

/// An object of the scene.
#[derive(Debug, PartialEq, Eq)]
pub struct WorldObject {
    pub id: ObjectId,
    pub name: String,
    pub color: Option<Rgb>,
    pub visible: bool,
    /// Made by another part of the scene rather than authored.
    pub derived: bool,
    pub pinned: bool,
    pub transform: Transform,
    pub velocity: Velocity,
    pub shape: Option<ObjectShape>,
    /// The attached components, in the order of their kinds.
    pub components: Vec<Component>,
    pub catalog_link: Option<CatalogLink>,
}

/// A plane the field is sampled and drawn on.
#[derive(Debug, PartialEq, Eq)]
pub struct SlicePlane {
    pub id: PlaneId,
    pub name: String,
    pub visible: bool,
    pub origin: Vec3,
    pub normal: Vec3,
    pub u_axis: Vec3,
    pub half_extent: Vec2,
    pub attached_to: Option<ObjectId>,
}

/// A box the field is sampled and drawn in.
#[derive(Debug, PartialEq, Eq)]
pub struct FieldBox {
    pub id: BoxId,
    pub name: String,
    pub visible: bool,
    pub origin: Vec3,
    pub half_extent: Vec3,
    pub rotation: Quat,
}

/// A sphere the field is sampled and drawn in.
#[derive(Debug, PartialEq, Eq)]
pub struct FieldSphere {
    pub id: SphereId,
    pub name: String,
    pub visible: bool,
    pub origin: Vec3,
    pub radius: Number,
}

/// Where a probe measures.
#[derive(Clone, Copy, Debug, PartialEq, Eq)]
pub enum ProbePosition {
    World(Vec3),
    Attached { object: ObjectId, offset: Vec3 },
}

/// A point recorder.
#[derive(Debug, PartialEq, Eq)]
pub struct Probe {
    pub id: ProbeId,
    pub name: String,
    pub visible: bool,
    pub position: ProbePosition,
    /// The recorded channels, in the order they were chosen.
    pub channels: Vec<ChannelId>,
}

/// A recorder of the distance between two objects.
#[derive(Debug, PartialEq, Eq)]
pub struct DistanceProbe {
    pub id: DistanceProbeId,
    pub name: String,
    pub visible: bool,
    pub object_a: ObjectId,
    pub object_b: ObjectId,
    pub show_line: bool,
}

/// Which objects a center of mass is taken of.
#[derive(Debug, PartialEq, Eq)]
pub enum MassSelection {
    Universe { excluded: OrderedSet<ObjectId> },
    Selection { included: OrderedSet<ObjectId> },
}

/// A recorder of a center of mass.
#[derive(Debug, PartialEq, Eq)]
pub struct MassAggregateProbe {
    pub id: MassAggregateProbeId,
    pub name: String,
    pub visible: bool,
    pub selection: MassSelection,
    pub show_member_lines: bool,
}

/// The scene at one revision, each kind of thing in the order of its identities.
#[derive(Debug, PartialEq, Eq)]
pub struct WorldSnapshot {
    pub objects: Vec<WorldObject>,
    pub planes: Vec<SlicePlane>,
    pub boxes: Vec<FieldBox>,
    pub spheres: Vec<FieldSphere>,
    pub probes: Vec<Probe>,
    pub distance_probes: Vec<DistanceProbe>,
    pub mass_aggregate_probes: Vec<MassAggregateProbe>,
    pub component_schemas: Vec<ComponentSchema>,
}

/// A thing of the scene with an identity of its own.
pub trait Identified: Sized {
    spec fn number(&self) -> u64;

    fn identity(&self) -> (n: u64)
        ensures
            n == self.number(),
    ;
}

impl Identified for WorldObject {
    open spec fn number(&self) -> u64 {
        self.id.number()
    }

    fn identity(&self) -> (n: u64) {
        self.id.get()
    }
}

impl Identified for SlicePlane {
    open spec fn number(&self) -> u64 {
        self.id.number()
    }

    fn identity(&self) -> (n: u64) {
        self.id.get()
    }
}

impl Identified for FieldBox {
    open spec fn number(&self) -> u64 {
        self.id.number()
    }

    fn identity(&self) -> (n: u64) {
        self.id.get()
    }
}

impl Identified for FieldSphere {
    open spec fn number(&self) -> u64 {
        self.id.number()
    }

    fn identity(&self) -> (n: u64) {
        self.id.get()
    }
}

impl Identified for Probe {
    open spec fn number(&self) -> u64 {
        self.id.number()
    }

    fn identity(&self) -> (n: u64) {
        self.id.get()
    }
}

impl Identified for DistanceProbe {
    open spec fn number(&self) -> u64 {
        self.id.number()
    }

    fn identity(&self) -> (n: u64) {
        self.id.get()
    }
}

impl Identified for MassAggregateProbe {
    open spec fn number(&self) -> u64 {
        self.id.number()
    }

    fn identity(&self) -> (n: u64) {
        self.id.get()
    }
}

/// Whether the scene holds a thing with this identity.
pub open spec fn present<T: Identified>(list: Seq<T>, number: u64) -> bool {
    exists|i: int| 0 <= i < list.len() && (#[trigger] list[i]).number() == number
}

/// Whether `i` is the position of the first thing with this identity.
pub open spec fn first_at<T: Identified>(list: Seq<T>, number: u64, i: int) -> bool {
    &&& 0 <= i < list.len()
    &&& list[i].number() == number
    &&& forall|k: int| 0 <= k < i ==> (#[trigger] list[k]).number() != number
}

/// The position of the thing with this identity.
pub fn find<T: Identified>(list: &Vec<T>, number: u64) -> (position: Option<usize>)
    ensures
        position is Some <==> present(list@, number),
        position matches Some(i) ==> first_at(list@, number, i as int),
{
    let mut i: usize = 0;
    while i < list.len()
        invariant
            i <= list.len(),
            forall|k: int| 0 <= k < i ==> (#[trigger] list[k]).number() != number,
        decreases list.len() - i,
    {
        if list[i].identity() == number {
            return Some(i);
        }
        i = i + 1;
    }
    None
}

impl WorldSnapshot {
    /// The object with an identity.
    pub fn object(&self, id: ObjectId) -> (object: Option<&WorldObject>)
        ensures
            object is Some <==> present(self.objects@, id.number()),
            object matches Some(o) ==> exists|i: int|
                #[trigger] first_at(self.objects@, id.number(), i) && self.objects[i] == *o,
    {
        match find(&self.objects, id.get()) {
            Some(i) => Some(&self.objects[i]),
            None => None,
        }
    }

    /// The probe with an identity.
    pub fn probe(&self, id: ProbeId) -> (probe: Option<&Probe>)
        ensures
            probe is Some <==> present(self.probes@, id.number()),
            probe matches Some(p) ==> exists|i: int|
                #[trigger] first_at(self.probes@, id.number(), i) && self.probes[i] == *p,
    {
        match find(&self.probes, id.get()) {
            Some(i) => Some(&self.probes[i]),
            None => None,
        }
    }

    /// The kind of component with an identity.
    pub fn component_schema(&self, id: &ComponentTypeId) -> (schema: Option<&ComponentSchema>)
        ensures
            schema is Some <==> schema_from(self.component_schemas@, id@, 0) is Some,
            schema matches Some(s) ==> schema_from(self.component_schemas@, id@, 0) == Some(*s),
    {
        let schemas = &self.component_schemas;
        let mut i: usize = 0;
        while i < schemas.len()
            invariant
                *schemas == self.component_schemas,
                i <= schemas.len(),
                schema_from(schemas@, id@, 0) == schema_from(schemas@, id@, i as nat),
            decreases schemas.len() - i,
        {
            if schemas[i].id.same(id) {
                return Some(&schemas[i]);
            }
            i = i + 1;
        }
        None
    }
}

/// The first kind of component with an identity, searching from position `n`.
pub open spec fn schema_from(
    schemas: Seq<ComponentSchema>,
    id: (Seq<char>, Seq<char>),
    n: nat,
) -> Option<ComponentSchema>
    decreases schemas.len() - n,
{
    if n >= schemas.len() {
        None
    } else if schemas[n as int].id@ == id {
        Some(schemas[n as int])
    } else {
        schema_from(schemas, id, n + 1)
    }
}

/// The first property with a name, searching from position `n`.
pub open spec fn property_from(properties: Seq<PropertySchema>, id: Seq<char>, n: nat) -> Option<
    PropertySchema,
>
    decreases properties.len() - n,
{
    if n >= properties.len() {
        None
    } else if properties[n as int].id@ == id {
        Some(properties[n as int])
    } else {
        property_from(properties, id, n + 1)
    }
}

/// The property of a kind of component with a name.
pub fn find_property<'a>(properties: &'a Vec<PropertySchema>, id: &PropertyId) -> (property: Option<
    &'a PropertySchema,
>)
    ensures
        property is Some <==> property_from(properties@, id@, 0) is Some,
        property matches Some(p) ==> property_from(properties@, id@, 0) == Some(*p),
{
    let mut i: usize = 0;
    while i < properties.len()
        invariant
            i <= properties.len(),
            property_from(properties@, id@, 0) == property_from(properties@, id@, i as nat),
        decreases properties.len() - i,
    {
        if properties[i].id.same(id) {
            return Some(&properties[i]);
        }
        i = i + 1;
    }
    None
}

/// Whether a component of this kind is attached.
pub open spec fn attached(components: Seq<Component>, id: (Seq<char>, Seq<char>)) -> bool {
    exists|i: int| 0 <= i < components.len() && (#[trigger] components[i]).id@ == id
}

/// Whether a component of this kind is attached.
pub fn is_attached(components: &Vec<Component>, id: &ComponentTypeId) -> (b: bool)
    ensures
        b == attached(components@, id@),
{
    let mut i: usize = 0;
    while i < components.len()
        invariant
            i <= components.len(),
            forall|k: int| 0 <= k < i ==> (#[trigger] components[k]).id@ != id@,
        decreases components.len() - i,
    {
        if components[i].id.same(id) {
            return true;
        }
        i = i + 1;
    }
    false
}

/// A new object.
#[derive(Debug, PartialEq, Eq)]
pub struct ObjectSpec {
    pub name: String,
    pub pinned: bool,
    pub transform: Transform,
    pub velocity: Velocity,
    pub shape: Option<ObjectShape>,
    pub components: Vec<Component>,
    pub catalog_link: Option<CatalogLink>,
}

/// A new plane, or the new geometry of one.
#[derive(Debug, PartialEq, Eq)]
pub struct SlicePlaneSpec {
    pub name: String,
    pub origin: Vec3,
    pub normal: Vec3,
    /// The direction of the first axis, or the one the normal implies.
    pub u_axis: Option<Vec3>,
    pub half_extent: Vec2,
    pub visible: bool,
    pub attached_to: Option<ObjectId>,
}

/// A new box, or the new geometry of one.
#[derive(Debug, PartialEq, Eq)]
pub struct FieldBoxSpec {
    pub name: String,
    pub origin: Vec3,
    pub half_extent: Vec3,
    pub rotation: Quat,
    pub visible: bool,
}

/// A new sphere, or the new geometry of one.
#[derive(Debug, PartialEq, Eq)]
pub struct FieldSphereSpec {
    pub name: String,
    pub origin: Vec3,
    pub radius: Number,
    pub visible: bool,
}

/// A new probe.
#[derive(Debug, PartialEq, Eq)]
pub struct ProbeSpec {
    pub name: String,
    pub position: ProbePosition,
    pub channels: Vec<ChannelId>,
}

/// A new distance probe.
#[derive(Debug, PartialEq, Eq)]
pub struct DistanceProbeSpec {
    pub name: String,
    pub object_a: ObjectId,
    pub object_b: ObjectId,
}

/// A new center of mass.
#[derive(Debug, PartialEq, Eq)]
pub struct MassAggregateProbeSpec {
    pub name: String,
    pub selection: MassSelection,
}

/// One edit of the scene.
#[allow(inconsistent_fields)]
#[derive(Debug, PartialEq, Eq)]
pub enum WorldCommand {
    CreateObject(ObjectSpec),
    RemoveObject(ObjectId),
    SetObjectName { object: ObjectId, name: String },
    SetObjectColor { object: ObjectId, color: Option<Rgb> },
    SetObjectVisible { object: ObjectId, visible: bool },
    SetObjectPinned { object: ObjectId, pinned: bool },
    SetTransform { object: ObjectId, transform: Transform },
    SetVelocity { object: ObjectId, velocity: Velocity },
    SetShape { object: ObjectId, shape: Option<ObjectShape> },
    AttachComponent { object: ObjectId, component: ComponentTypeId, properties: PropertyBag },
    DetachComponent { object: ObjectId, component: ComponentTypeId },
    ApplyCatalogTemplate {
        object: ObjectId,
        expected_entry: CatalogReference,
        shape: Option<ObjectShape>,
        components: Vec<Component>,
        link: CatalogLink,
    },
    UnlinkCatalogTemplate { object: ObjectId },
    CreatePlane(SlicePlaneSpec),
    RemovePlane(PlaneId),
    SetPlane { plane: PlaneId, spec: SlicePlaneSpec },
    SetPlaneName { plane: PlaneId, name: String },
    SetPlaneVisible { plane: PlaneId, visible: bool },
    CreateBox(FieldBoxSpec),
    RemoveBox(BoxId),
    SetBox { region: BoxId, spec: FieldBoxSpec },
    SetBoxName { region: BoxId, name: String },
    SetBoxVisible { region: BoxId, visible: bool },
    CreateSphere(FieldSphereSpec),
    RemoveSphere(SphereId),
    SetSphere { sphere: SphereId, spec: FieldSphereSpec },
    SetSphereName { sphere: SphereId, name: String },
    SetSphereVisible { sphere: SphereId, visible: bool },
    CreateProbe(ProbeSpec),
    RemoveProbe(ProbeId),
    SetProbeName { probe: ProbeId, name: String },
    SetProbeVisible { probe: ProbeId, visible: bool },
    SetProbePosition { probe: ProbeId, position: ProbePosition },
    SetProbeChannels { probe: ProbeId, channels: Vec<ChannelId> },
    CreateDistanceProbe(DistanceProbeSpec),
    RemoveDistanceProbe(DistanceProbeId),
    SetDistanceProbeName { probe: DistanceProbeId, name: String },
    SetDistanceProbeVisible { probe: DistanceProbeId, visible: bool },
    SetDistanceProbeObjects { probe: DistanceProbeId, object_a: ObjectId, object_b: ObjectId },
    SetDistanceProbeShowLine { probe: DistanceProbeId, show_line: bool },
    CreateMassAggregateProbe(MassAggregateProbeSpec),
    RemoveMassAggregateProbe(MassAggregateProbeId),
    SetMassAggregateProbeName { probe: MassAggregateProbeId, name: String },
    SetMassAggregateProbeVisible { probe: MassAggregateProbeId, visible: bool },
    SetMassAggregateProbeSelection { probe: MassAggregateProbeId, selection: MassSelection },
    SetMassAggregateProbeShowMemberLines { probe: MassAggregateProbeId, show_member_lines: bool },
}

proof fn lemma_a_kind_is_found_by_its_identity(schemas: Seq<ComponentSchema>, id: (Seq<char>, Seq<char>), n: nat, k: int)
    requires
        n <= k < schemas.len(),
        schemas[k].id@ == id,
        forall|j: int| n <= j < k ==> !((#[trigger] schemas[j]).id@ == id),
    ensures
        schema_from(schemas, id, n) == Some(schemas[k]),
    decreases k - n,
{
    if n < k {
        assert(!(schemas[n as int].id@ == id));
        lemma_a_kind_is_found_by_its_identity(schemas, id, n + 1, k);
    }
}

proof fn lemma_a_kind_is_found_by_its_identity_none(schemas: Seq<ComponentSchema>, id: (Seq<char>, Seq<char>), n: nat)
    requires
        forall|j: int| n <= j < schemas.len() ==> !((#[trigger] schemas[j]).id@ == id),
    ensures
        schema_from(schemas, id, n) is None,
    decreases schemas.len() - n,
{
    if n < schemas.len() {
        assert(!(schemas[n as int].id@ == id));
        lemma_a_kind_is_found_by_its_identity_none(schemas, id, n + 1);
    }
}

/// The kind of component found for an identity is the first of that identity.
pub proof fn a_kind_is_found_by_its_identity(schemas: Seq<ComponentSchema>, id: (Seq<char>, Seq<char>))
    ensures
        forall|k: int|
            0 <= k < schemas.len() && (#[trigger] schemas[k]).id@ == id && (forall|j: int|
                0 <= j < k ==> !((#[trigger] schemas[j]).id@ == id)) ==> schema_from(schemas, id, 0) == Some(
                schemas[k],
            ),
        (forall|j: int| 0 <= j < schemas.len() ==> !((#[trigger] schemas[j]).id@ == id))
            ==> schema_from(schemas, id, 0) is None,
{
    assert forall|k: int|
        0 <= k < schemas.len() && (#[trigger] schemas[k]).id@ == id && (forall|j: int|
            0 <= j < k ==> !((#[trigger] schemas[j]).id@ == id)) implies schema_from(schemas, id, 0) == Some(
        schemas[k],
    ) by {
        lemma_a_kind_is_found_by_its_identity(schemas, id, 0, k);
    }
    if forall|j: int| 0 <= j < schemas.len() ==> !((#[trigger] schemas[j]).id@ == id) {
        lemma_a_kind_is_found_by_its_identity_none(schemas, id, 0);
    }
}

proof fn lemma_a_property_is_found_by_its_name(properties: Seq<PropertySchema>, id: Seq<char>, n: nat, k: int)
    requires
        n <= k < properties.len(),
        properties[k].id@ == id,
        forall|j: int| n <= j < k ==> !((#[trigger] properties[j]).id@ == id),
    ensures
        property_from(properties, id, n) == Some(properties[k]),
    decreases k - n,
{
    if n < k {
        assert(!(properties[n as int].id@ == id));
        lemma_a_property_is_found_by_its_name(properties, id, n + 1, k);
    }
}

proof fn lemma_a_property_is_found_by_its_name_none(properties: Seq<PropertySchema>, id: Seq<char>, n: nat)
    requires
        forall|j: int| n <= j < properties.len() ==> !((#[trigger] properties[j]).id@ == id),
    ensures
        property_from(properties, id, n) is None,
    decreases properties.len() - n,
{
    if n < properties.len() {
        assert(!(properties[n as int].id@ == id));
        lemma_a_property_is_found_by_its_name_none(properties, id, n + 1);
    }
}

/// The property found for a name is the first of that name.
pub proof fn a_property_is_found_by_its_name(properties: Seq<PropertySchema>, id: Seq<char>)
    ensures
        forall|k: int|
            0 <= k < properties.len() && (#[trigger] properties[k]).id@ == id && (forall|j: int|
                0 <= j < k ==> !((#[trigger] properties[j]).id@ == id)) ==> property_from(properties, id, 0) == Some(
                properties[k],
            ),
        (forall|j: int| 0 <= j < properties.len() ==> !((#[trigger] properties[j]).id@ == id))
            ==> property_from(properties, id, 0) is None,
{
    assert forall|k: int|
        0 <= k < properties.len() && (#[trigger] properties[k]).id@ == id && (forall|j: int|
            0 <= j < k ==> !((#[trigger] properties[j]).id@ == id)) implies property_from(properties, id, 0) == Some(
        properties[k],
    ) by {
        lemma_a_property_is_found_by_its_name(properties, id, 0, k);
    }
    if forall|j: int| 0 <= j < properties.len() ==> !((#[trigger] properties[j]).id@ == id) {
        lemma_a_property_is_found_by_its_name_none(properties, id, 0);
    }
}

/// A component is attached exactly where some component is of its kind.
pub proof fn a_component_is_attached_by_its_kind(components: Seq<Component>, id: (Seq<char>, Seq<char>))
    ensures
        attached(components, id) <==> exists|i: int|
            0 <= i < components.len() && (#[trigger] components[i]).id@ == id,
{
}

/// A thing is found at the first place where its number stands, and at no other.
pub proof fn a_thing_is_found_at_one_place<T: Identified>(list: Seq<T>, number: u64, i: int, j: int)
    requires
        first_at(list, number, i),
        first_at(list, number, j),
    ensures
        i == j,
        0 <= i < list.len(),
        list[i].number() == number,
        present(list, number),
{
    assert(list[i].number() == number);
    if i < j {
        assert(list[i].number() != number);
    } else if j < i {
        assert(list[j].number() != number);
    }
}

} // verus!
