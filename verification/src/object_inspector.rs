//! Inspecting an object: its catalog link, placement, shape, motion and
//! components.

use crate::catalog::{CatalogEntry, LoadResult};
use crate::command::{CameraAction, CatalogAction, UiFrameOutput};
use crate::draft::{AuthorityDraft, DraftState, Draftable};
use crate::expression::{
    ExpressionCommand, ExpressionNodeState, ExpressionNodeStatus, PropertyBinding, PropertyTarget,
};
use crate::ids::{ComponentTypeId, ObjectId, PropertyId};
use crate::measured::{default_authoring_radius, origin, smallest_extent, zero, Number, Vec3};
use crate::ordered::{Copied, MapKey};
use crate::preview::{should_submit, DraftPreview};
use crate::source::FieldSystemStatus;
use crate::text::{concat2, concat3, concat4, same_text};
use crate::world::{
    CatalogLink, CatalogLinkMode, CatalogReference, Component, ComponentSchema, Dimension,
    ObjectShape, PropertyBag, PropertyKind, PropertySchema, PropertyValue, Rgb, Transform, Velocity,
    WorldCommand, WorldObject,
};
use vstd::prelude::*;
use vstd::string::*;

verus! {

/// Whether an object follows its catalog entry.
pub open spec fn tracks(object: WorldObject) -> bool {
    object.catalog_link matches Some(link) && link.mode is Tracking
}

pub fn is_tracking(object: &WorldObject) -> (b: bool)
    ensures
        b == tracks(*object),
{
    match &object.catalog_link {
        Some(link) => link.mode == CatalogLinkMode::Tracking,
        None => false,
    }
}

/// What a catalog link says.
pub fn catalog_link_line(link: &CatalogLink) -> (text: String)
    ensures
        text@ == link.source_description@ + " — "@ + if link.mode is Tracking {
            "tracking"@
        } else {
            "custom (unlinked)"@
        },
{
    let mode: &'static str = match link.mode {
        CatalogLinkMode::Tracking => "tracking",
        CatalogLinkMode::Custom => "custom (unlinked)",
    };
    concat3(link.source_description.as_str(), " — ", mode)
}

/// What became of looking up the entry of a link.
#[derive(Clone, Copy, Debug, PartialEq, Eq, Structural)]
pub enum LinkResolution {
    Exact,
    RelinkCandidate,
    Unavailable,
    Ambiguous,
}

impl LinkResolution {
    pub fn label(self) -> (s: &'static str)
        ensures
            self is Exact ==> s@ == "available"@,
            self is RelinkCandidate ==> s@ == "moved; relink available"@,
            self is Unavailable ==> s@ == "catalog unavailable or changed"@,
            self is Ambiguous ==> s@ == "ambiguous catalog match"@,
    {
        match self {
            LinkResolution::Exact => "available",
            LinkResolution::RelinkCandidate => "moved; relink available",
            LinkResolution::Unavailable => "catalog unavailable or changed",
            LinkResolution::Ambiguous => "ambiguous catalog match",
        }
    }
}

/// The button that attaches an object to a catalog entry.
pub fn link_label(object: &WorldObject) -> (s: &'static str)
    ensures
        object.catalog_link is Some ==> s@ == "Change catalog link..."@,
        object.catalog_link is None ==> s@ == "Link to catalog..."@,
{
    if object.catalog_link.is_some() {
        "Change catalog link..."
    } else {
        "Link to catalog..."
    }
}

/// The entry whose template can be applied to an object again: the first one of
/// the link's reference, if it is available.
pub fn current_template(entries: &Vec<CatalogEntry>, reference: &CatalogReference) -> (position: Option<
    usize,
>)
    ensures
        position matches Some(i) ==> crate::catalog::entry_from(entries@, *reference, 0) == Some(i as nat)
            && entries@[i as int].result is Available,
        position is None ==> match crate::catalog::entry_from(entries@, *reference, 0) {
            Some(i) => !(entries@[i as int].result is Available),
            None => true,
        },
{
    let mut i: usize = 0;
    while i < entries.len()
        invariant
            i <= entries.len(),
            crate::catalog::entry_from(entries@, *reference, 0) == crate::catalog::entry_from(entries@, *reference, i as nat),
        decreases entries.len() - i,
    {
        if let Some(candidate) = &entries[i].reference {
            if candidate.same(reference) {
                return match entries[i].result {
                    LoadResult::Available { .. } => Some(i),
                    _ => None,
                };
            }
        }
        i = i + 1;
    }
    None
}

/// What a template gives an object it is applied to.
#[derive(Debug)]
pub struct TemplateInstance {
    pub shape: Option<ObjectShape>,
    pub components: Vec<Component>,
    pub link: CatalogLink,
}

/// What the user asked of an object's catalog link.
#[derive(Debug)]
pub enum CatalogLinkInput {
    OpenEntry,
    /// Apply the current template, if there is one to apply.
    Apply(Option<TemplateInstance>),
    Unlink,
    BeginLink,
}

/// Whether the output is `before` with another catalog action.
pub open spec fn opens_catalog(
    output: UiFrameOutput,
    before: UiFrameOutput,
    action: CatalogAction,
) -> bool {
    output == UiFrameOutput { catalog_action: Some(action), ..before }
}

/// Act on an object's catalog link. Only a link with an entry can be opened, and
/// only an object that tracks its entry can take its template or let go of it.
pub fn catalog_link_controls(
    object: &WorldObject,
    input: CatalogLinkInput,
    output: &mut UiFrameOutput,
)
    ensures
        match input {
            CatalogLinkInput::OpenEntry => match object.catalog_link {
                Some(CatalogLink { entry: Some(reference), .. }) => opens_catalog(
                    *final(output),
                    *old(output),
                    CatalogAction::Open(Some(reference)),
                ),
                _ => *final(output) == *old(output),
            },
            CatalogLinkInput::Apply(instance) => match (object.catalog_link, instance) {
                (Some(CatalogLink { entry: Some(reference), .. }), Some(template)) if tracks(
                    *object,
                ) => final(output).edits(
                    *old(output),
                    WorldCommand::ApplyCatalogTemplate {
                        object: object.id,
                        expected_entry: reference,
                        shape: template.shape,
                        components: template.components,
                        link: template.link,
                    },
                ),
                _ => *final(output) == *old(output),
            },
            CatalogLinkInput::Unlink => if tracks(*object) {
                final(output).edits(
                    *old(output),
                    WorldCommand::UnlinkCatalogTemplate { object: object.id },
                )
            } else {
                *final(output) == *old(output)
            },
            CatalogLinkInput::BeginLink => opens_catalog(
                *final(output),
                *old(output),
                CatalogAction::BeginLink { object: object.id },
            ),
        },
{
    match input {
        CatalogLinkInput::OpenEntry => {
            if let Some(link) = &object.catalog_link {
                if let Some(reference) = &link.entry {
                    output.catalog_action = Some(CatalogAction::Open(Some(reference.copied())));
                }
            }
        },
        CatalogLinkInput::Apply(instance) => {
            if let (Some(link), Some(template)) = (&object.catalog_link, instance) {
                if let (Some(reference), CatalogLinkMode::Tracking) = (&link.entry, link.mode) {
                    output.edit_one(
                        WorldCommand::ApplyCatalogTemplate {
                            object: object.id,
                            expected_entry: reference.copied(),
                            shape: template.shape,
                            components: template.components,
                            link: template.link,
                        },
                    );
                }
            }
        },
        CatalogLinkInput::Unlink => {
            if is_tracking(object) {
                output.edit_one(WorldCommand::UnlinkCatalogTemplate { object: object.id });
            }
        },
        CatalogLinkInput::BeginLink => {
            output.catalog_action = Some(CatalogAction::BeginLink { object: object.id });
        },
    }
}

/// A change of an object as a whole.
#[derive(Debug)]
pub enum ObjectInput {
    Name(String),
    Color(Option<Rgb>),
    Pinned(bool),
    /// Another velocity, and whether it is one an object can have.
    Velocity { linear: Vec3, valid: bool },
    /// Another position, and whether it is one an object can have.
    Position { translation: Vec3, valid: bool },
    /// Another shape, and whether it is one an object can have.
    Shape { shape: Option<ObjectShape>, valid: bool },
    Focus,
    Follow,
    Remove,
}

/// The edit a change of an object asks for. Turning and spinning stay as they
/// are; a value that an object cannot have is dropped, and so is another shape of
/// an object that tracks its catalog entry.
pub open spec fn object_edit(object: WorldObject, input: ObjectInput) -> Option<WorldCommand> {
    match input {
        ObjectInput::Name(name) => Some(WorldCommand::SetObjectName { object: object.id, name }),
        ObjectInput::Color(color) => Some(
            WorldCommand::SetObjectColor { object: object.id, color },
        ),
        ObjectInput::Pinned(pinned) => Some(
            WorldCommand::SetObjectPinned { object: object.id, pinned },
        ),
        ObjectInput::Velocity { linear, valid } => if valid {
            Some(
                WorldCommand::SetVelocity {
                    object: object.id,
                    velocity: Velocity { linear, angular: object.velocity.angular },
                },
            )
        } else {
            None
        },
        ObjectInput::Position { translation, valid } => if valid {
            Some(
                WorldCommand::SetTransform {
                    object: object.id,
                    transform: Transform { translation, rotation: object.transform.rotation },
                },
            )
        } else {
            None
        },
        ObjectInput::Shape { shape, valid } => if valid && !tracks(object) {
            Some(WorldCommand::SetShape { object: object.id, shape })
        } else {
            None
        },
        ObjectInput::Remove => Some(WorldCommand::RemoveObject(object.id)),
        ObjectInput::Focus | ObjectInput::Follow => None,
    }
}

/// The camera action a change of an object asks for.
pub open spec fn object_camera(object: WorldObject, input: ObjectInput) -> Option<CameraAction> {
    match input {
        ObjectInput::Focus => Some(CameraAction::FocusSelection),
        ObjectInput::Follow => Some(CameraAction::ToggleFollow(object.id)),
        _ => None,
    }
}

/// Act on a change of an object.
pub fn object_properties(object: &WorldObject, input: ObjectInput, output: &mut UiFrameOutput)
    ensures
        match (object_edit(*object, input), object_camera(*object, input)) {
            (Some(command), _) => final(output).edits(*old(output), command),
            (None, Some(action)) => *final(output) == (UiFrameOutput {
                camera_action: Some(action),
                ..*old(output)
            }),
            (None, None) => *final(output) == *old(output),
        },
{
    match input {
        ObjectInput::Name(name) => output.edit_one(
            WorldCommand::SetObjectName { object: object.id, name },
        ),
        ObjectInput::Color(color) => output.edit_one(
            WorldCommand::SetObjectColor { object: object.id, color },
        ),
        ObjectInput::Pinned(pinned) => output.edit_one(
            WorldCommand::SetObjectPinned { object: object.id, pinned },
        ),
        ObjectInput::Velocity { linear, valid } => {
            if valid {
                output.edit_one(
                    WorldCommand::SetVelocity {
                        object: object.id,
                        velocity: Velocity { linear, angular: object.velocity.angular },
                    },
                );
            }
        },
        ObjectInput::Position { translation, valid } => {
            if valid {
                output.edit_one(
                    WorldCommand::SetTransform {
                        object: object.id,
                        transform: Transform { translation, rotation: object.transform.rotation },
                    },
                );
            }
        },
        ObjectInput::Shape { shape, valid } => {
            if valid && !is_tracking(object) {
                output.edit_one(WorldCommand::SetShape { object: object.id, shape });
            }
        },
        ObjectInput::Focus => {
            output.camera_action = Some(CameraAction::FocusSelection);
        },
        ObjectInput::Follow => {
            output.camera_action = Some(CameraAction::ToggleFollow(object.id));
        },
        ObjectInput::Remove => output.edit_one(WorldCommand::RemoveObject(object.id)),
    }
}

/// An object that tracks its catalog entry keeps the shape the entry gave it, and
/// keeps its name, colour and place its own.
pub proof fn a_tracking_object_keeps_its_shape(object: WorldObject, input: ObjectInput)
    requires
        tracks(object),
    ensures
        input is Shape ==> object_edit(object, input) is None,
        input is Name || input is Color || input is Pinned ==> object_edit(object, input) is Some,
{
}

/// The label of the button that follows an object with the camera.
pub fn follow_label(following: Option<ObjectId>, object: ObjectId) -> (s: &'static str)
    ensures
        following == Some(object) ==> s@ == "Stop following"@,
        following != Some(object) ==> s@ == "Follow"@,
{
    if crate::ids::selects(following, object) {
        "Stop following"
    } else {
        "Follow"
    }
}

/// The kind of shape an object has.
#[derive(Clone, Copy, Debug, PartialEq, Eq, Structural)]
pub enum ShapeKind {
    Marker,
    Point,
    Sphere,
    Box,
}

impl ShapeKind {
    /// The kinds that can be chosen. A box is shown but not offered.
    pub fn all() -> (kinds: [ShapeKind; 3])
        ensures
            kinds@ == seq![ShapeKind::Marker, ShapeKind::Point, ShapeKind::Sphere],
    {
        [ShapeKind::Marker, ShapeKind::Point, ShapeKind::Sphere]
    }

    pub open spec fn kind_of(shape: Option<ObjectShape>) -> Self {
        match shape {
            None => ShapeKind::Marker,
            Some(ObjectShape::Point { .. }) => ShapeKind::Point,
            Some(ObjectShape::Sphere { .. }) => ShapeKind::Sphere,
            Some(ObjectShape::Box { .. }) => ShapeKind::Box,
        }
    }

    pub fn of(shape: Option<ObjectShape>) -> (kind: Self)
        ensures
            kind == Self::kind_of(shape),
    {
        match shape {
            None => ShapeKind::Marker,
            Some(ObjectShape::Point { .. }) => ShapeKind::Point,
            Some(ObjectShape::Sphere { .. }) => ShapeKind::Sphere,
            Some(ObjectShape::Box { .. }) => ShapeKind::Box,
        }
    }

    pub fn label(self) -> (s: &'static str)
        ensures
            self is Marker ==> s@ == "Marker"@,
            self is Point ==> s@ == "Point"@,
            self is Sphere ==> s@ == "Sphere"@,
            self is Box ==> s@ == "Box"@,
    {
        match self {
            ShapeKind::Marker => "Marker",
            ShapeKind::Point => "Point",
            ShapeKind::Sphere => "Sphere",
            ShapeKind::Box => "Box",
        }
    }

    /// The radius as a sphere or box can have it: at least the smallest extent.
    pub open spec fn proper(radius: Number) -> Number {
        if radius.is_nan() || radius.key() < smallest_extent().key() {
            smallest_extent()
        } else {
            radius
        }
    }

    /// The shape of this kind with a radius.
    pub open spec fn built(self, radius: Number) -> Option<ObjectShape> {
        match self {
            ShapeKind::Marker => None,
            ShapeKind::Point => Some(ObjectShape::Point { radius }),
            ShapeKind::Sphere => Some(ObjectShape::Sphere { radius: Self::proper(radius) }),
            ShapeKind::Box => Some(
                ObjectShape::Box {
                    half_extent: Vec3 {
                        x: Self::proper(radius),
                        y: Self::proper(radius),
                        z: Self::proper(radius),
                    },
                },
            ),
        }
    }

    pub fn build(self, radius: Number) -> (shape: Option<ObjectShape>)
        ensures
            shape == self.built(radius),
    {
        match self {
            ShapeKind::Marker => None,
            ShapeKind::Point => Some(ObjectShape::Point { radius }),
            ShapeKind::Sphere => Some(
                ObjectShape::Sphere { radius: radius.greater_of(smallest_extent()) },
            ),
            ShapeKind::Box => Some(
                ObjectShape::Box { half_extent: Vec3::splat(radius.greater_of(smallest_extent())) },
            ),
        }
    }
}

/// The radius a new shape starts from: the old one's, or the default.
pub open spec fn carried_radius(shape: Option<ObjectShape>) -> Number {
    match shape {
        Some(ObjectShape::Point { radius }) => radius,
        Some(ObjectShape::Sphere { radius }) => radius,
        _ => default_authoring_radius(),
    }
}

/// The shape to give an object for which a kind was chosen, if it is another kind.
pub fn chosen_shape(object: &WorldObject, selected: ShapeKind) -> (choice: Option<Option<ObjectShape>>)
    ensures
        choice == if selected == ShapeKind::kind_of(object.shape) {
            None
        } else {
            Some(selected.built(carried_radius(object.shape)))
        },
{
    if selected == ShapeKind::of(object.shape) {
        return None;
    }
    let radius = match object.shape {
        Some(ObjectShape::Point { radius }) => radius,
        Some(ObjectShape::Sphere { radius }) => radius,
        _ => default_authoring_radius(),
    };
    Some(selected.build(radius))
}

/// The shape of an object with another radius, if its shape has one.
pub fn shape_with_radius(object: &WorldObject, radius: Number) -> (shape: Option<ObjectShape>)
    ensures
        shape == match object.shape {
            Some(ObjectShape::Point { .. }) => Some(ObjectShape::Point { radius }),
            Some(ObjectShape::Sphere { .. }) => Some(ObjectShape::Sphere { radius }),
            _ => None,
        },
{
    match object.shape {
        Some(ObjectShape::Point { .. }) => Some(ObjectShape::Point { radius }),
        Some(ObjectShape::Sphere { .. }) => Some(ObjectShape::Sphere { radius }),
        _ => None,
    }
}

/// What moves an object, in words. `inertia` is the kind of component that gives
/// an object its inertia.
pub fn motion_summary(object: &WorldObject, inertia: &ComponentTypeId) -> (s: &'static str)
    ensures
        object.pinned && object.velocity.linear.value_equal(origin()) ==> s@ == "held in place"@,
        object.pinned && !object.velocity.linear.value_equal(origin()) ==> s@
            == "carried at the velocity you set"@,
        !object.pinned && crate::world::attached(object.components@, inertia@) ==> s@
            == "moved by the forces acting on it"@,
        !object.pinned && !crate::world::attached(object.components@, inertia@) ==> s@
            == "no inertia — add Inertial mass to make it movable"@,
{
    if object.pinned {
        if object.velocity.linear.equals(origin()) {
            "held in place"
        } else {
            "carried at the velocity you set"
        }
    } else if crate::world::is_attached(&object.components, inertia) {
        "moved by the forces acting on it"
    } else {
        "no inertia — add Inertial mass to make it movable"
    }
}

/// The properties of the attached component of a kind, from position `n`.
pub open spec fn component_from(
    components: Seq<Component>,
    id: (Seq<char>, Seq<char>),
    n: nat,
) -> Option<PropertyBag>
    decreases components.len() - n,
{
    if n >= components.len() {
        None
    } else if components[n as int].id@ == id {
        Some(components[n as int].properties)
    } else {
        component_from(components, id, n + 1)
    }
}

/// The properties of the attached component of a kind.
pub fn component_properties<'a>(components: &'a Vec<Component>, id: &ComponentTypeId) -> (properties:
    Option<&'a PropertyBag>)
    ensures
        properties is Some <==> component_from(components@, id@, 0) is Some,
        properties matches Some(p) ==> component_from(components@, id@, 0) == Some(*p),
{
    let mut i: usize = 0;
    while i < components.len()
        invariant
            i <= components.len(),
            component_from(components@, id@, 0) == component_from(components@, id@, i as nat),
        decreases components.len() - i,
    {
        if components[i].id.same(id) {
            return Some(&components[i].properties);
        }
        i = i + 1;
    }
    None
}

/// The scalar a property holds.
pub open spec fn scalar_of(properties: PropertyBag, id: Seq<char>) -> Option<Number> {
    if properties.map().contains_key(id) {
        match properties.map()[id] {
            PropertyValue::Scalar(value) => Some(value),
            _ => None,
        }
    } else {
        None
    }
}

pub fn scalar(properties: &PropertyBag, id: &PropertyId) -> (value: Option<Number>)
    ensures
        value == scalar_of(*properties, id@),
{
    match properties.get(id) {
        Some(PropertyValue::Scalar(value)) => Some(*value),
        _ => None,
    }
}

/// The inertial mass of an object: the scalar of a property of its inertia
/// component, if it is finite and greater than zero.
pub fn inertial_mass_kg(object: &WorldObject, inertia: &ComponentTypeId, mass: &PropertyId) -> (kg: Option<
    Number,
>)
    ensures
        kg == match component_from(object.components@, inertia@, 0) {
            Some(properties) => match scalar_of(properties, mass@) {
                Some(value) => if value.is_finite() && zero().value_less(value) {
                    Some(value)
                } else {
                    None
                },
                None => None,
            },
            None => None,
        },
{
    match component_properties(&object.components, inertia) {
        Some(properties) => match scalar(properties, mass) {
            Some(value) => if value.positive() {
                Some(value)
            } else {
                None
            },
            None => None,
        },
        None => None,
    }
}

/// A vector as it is written, from its components as they are written.
pub fn format_vector(x: &str, y: &str, z: &str, unit: &str) -> (text: String)
    ensures
        text@ == "("@ + x@ + ", "@ + y@ + ", "@ + z@ + ") "@ + unit@,
{
    let mut text = concat4("(", x, ", ", y);
    text.append(", ");
    text.append(z);
    text.append(") ");
    text.append(unit);
    text
}

/// Whether a plugin of the session declares a kind of component. An inactive one
/// still does.
pub open spec fn declared_kind(systems: Seq<FieldSystemStatus>, id: (Seq<char>, Seq<char>)) -> bool {
    exists|i: int|
        0 <= i < systems.len() && crate::ids::lists(
            (#[trigger] systems[i]).component_schemas@,
            id,
        )
}

pub fn is_declared(systems: &Vec<FieldSystemStatus>, id: &ComponentTypeId) -> (b: bool)
    ensures
        b == declared_kind(systems@, id@),
{
    let mut i: usize = 0;
    while i < systems.len()
        invariant
            i <= systems.len(),
            forall|k: int|
                0 <= k < i ==> !crate::ids::lists((#[trigger] systems[k]).component_schemas@, id@),
        decreases systems.len() - i,
    {
        if crate::ids::listed_in(&systems[i].component_schemas, id) {
            return true;
        }
        i = i + 1;
    }
    false
}

/// How an attached component is listed.
#[derive(Debug, PartialEq, Eq)]
pub enum ComponentHeading {
    /// The document does not know its kind.
    Unknown(String),
    /// Its kind is known but no plugin of the session declares it.
    Orphaned(String),
    Known(String),
}

/// The heading of an attached component.
pub fn component_heading(
    component: &ComponentTypeId,
    schema: Option<&ComponentSchema>,
    systems: &Vec<FieldSystemStatus>,
) -> (heading: ComponentHeading)
    ensures
        match schema {
            None => heading matches ComponentHeading::Unknown(text) && text@ == component.written@
                + " (schema unavailable)"@,
            Some(schema) => if declared_kind(systems@, component@) {
                heading == ComponentHeading::Known(schema.display_name)
            } else {
                heading matches ComponentHeading::Orphaned(text) && text@ == "(!) "@
                    + schema.display_name@
            },
        },
{
    match schema {
        None => ComponentHeading::Unknown(
            concat2(component.written.as_str(), " (schema unavailable)"),
        ),
        Some(schema) => if is_declared(systems, component) {
            ComponentHeading::Known(schema.display_name.clone())
        } else {
            ComponentHeading::Orphaned(concat2("(!) ", schema.display_name.as_str()))
        },
    }
}

/// The positions of the kinds of component, of the first `n`, that an object does
/// not have.
pub open spec fn missing(schemas: Seq<ComponentSchema>, components: Seq<Component>, n: nat) -> Seq<usize>
    decreases n,
{
    if n == 0 {
        Seq::empty()
    } else if crate::world::attached(components, schemas[n - 1].id@) {
        missing(schemas, components, (n - 1) as nat)
    } else {
        missing(schemas, components, (n - 1) as nat).push((n - 1) as usize)
    }
}

/// The kinds of component an object does not have, in order.
pub fn missing_components(schemas: &Vec<ComponentSchema>, components: &Vec<Component>) -> (positions: Vec<
    usize,
>)
    ensures
        positions@ == missing(schemas@, components@, schemas@.len()),
        forall|k: int|
            0 <= k < positions.len() ==> (#[trigger] positions[k]) < schemas.len()
                && !crate::world::attached(components@, schemas[positions[k] as int].id@),
{
    let mut positions: Vec<usize> = Vec::new();
    let mut i: usize = 0;
    while i < schemas.len()
        invariant
            i <= schemas.len(),
            positions@ == missing(schemas@, components@, i as nat),
            forall|k: int|
                0 <= k < positions.len() ==> (#[trigger] positions[k]) < i
                    && !crate::world::attached(components@, schemas[positions[k] as int].id@),
        decreases schemas.len() - i,
    {
        if !crate::world::is_attached(components, &schemas[i].id) {
            positions.push(i);
        }
        i = i + 1;
    }
    positions
}

/// How a kind of component is offered.
#[derive(Debug, PartialEq, Eq)]
pub enum ComponentOffer {
    /// No plugin of the session declares it.
    Undeclared(String),
    /// It has no default values to be added with.
    Incomplete(String),
    Ready(String),
}

/// How a kind of component is offered: only one that a plugin of the session
/// declares, and that has default values, can be added.
pub fn component_offer(
    schema: &ComponentSchema,
    systems: &Vec<FieldSystemStatus>,
    has_defaults: bool,
) -> (offer: ComponentOffer)
    ensures
        if !declared_kind(systems@, schema.id@) {
            offer matches ComponentOffer::Undeclared(text) && text@ == schema.display_name@ + " (!)"@
        } else if has_defaults {
            offer == ComponentOffer::Ready(schema.display_name)
        } else {
            offer == ComponentOffer::Incomplete(schema.display_name)
        },
{
    if !is_declared(systems, &schema.id) {
        ComponentOffer::Undeclared(concat2(schema.display_name.as_str(), " (!)"))
    } else if has_defaults {
        ComponentOffer::Ready(schema.display_name.clone())
    } else {
        ComponentOffer::Incomplete(schema.display_name.clone())
    }
}

/// A change of an object's components.
#[derive(Debug)]
pub enum ComponentInput {
    /// Other properties, and whether they are ones the component can have.
    Edit { component: ComponentTypeId, properties: PropertyBag, valid: bool },
    Detach(ComponentTypeId),
    /// Another component with its default values, if it has any.
    Add { component: ComponentTypeId, defaults: Option<PropertyBag> },
}

/// The edit a change of an object's components asks for. The components of an
/// object that tracks its catalog entry are the entry's; properties a component
/// cannot have are dropped; and only a component that the object does not have,
/// and that a plugin of the session declares, is added.
pub open spec fn component_edit(
    object: WorldObject,
    systems: Seq<FieldSystemStatus>,
    input: ComponentInput,
) -> Option<WorldCommand> {
    if tracks(object) {
        None
    } else {
        match input {
            ComponentInput::Edit { component, properties, valid } => if valid {
                Some(WorldCommand::AttachComponent { object: object.id, component, properties })
            } else {
                None
            },
            ComponentInput::Detach(component) => Some(
                WorldCommand::DetachComponent { object: object.id, component },
            ),
            ComponentInput::Add { component, defaults: Some(properties) } => if declared_kind(
                systems,
                component@,
            ) && !crate::world::attached(object.components@, component@) {
                Some(WorldCommand::AttachComponent { object: object.id, component, properties })
            } else {
                None
            },
            ComponentInput::Add { component, defaults: None } => None,
        }
    }
}

/// Act on a change of an object's components.
pub fn object_components(
    object: &WorldObject,
    systems: &Vec<FieldSystemStatus>,
    input: ComponentInput,
    output: &mut UiFrameOutput,
)
    ensures
        match component_edit(*object, systems@, input) {
            Some(command) => final(output).edits(*old(output), command),
            None => *final(output) == *old(output),
        },
{
    if is_tracking(object) {
        return;
    }
    match input {
        ComponentInput::Edit { component, properties, valid } => {
            if valid {
                output.edit_one(
                    WorldCommand::AttachComponent { object: object.id, component, properties },
                );
            }
        },
        ComponentInput::Detach(component) => output.edit_one(
            WorldCommand::DetachComponent { object: object.id, component },
        ),
        ComponentInput::Add { component, defaults } => {
            if let Some(properties) = defaults {
                if is_declared(systems, &component) && !crate::world::is_attached(
                    &object.components,
                    &component,
                ) {
                    output.edit_one(
                        WorldCommand::AttachComponent { object: object.id, component, properties },
                    );
                }
            }
        },
    }
}

/// The components of an object that tracks its catalog entry are left alone.
pub proof fn a_tracking_object_keeps_its_components(
    object: WorldObject,
    systems: Seq<FieldSystemStatus>,
    input: ComponentInput,
)
    requires
        tracks(object),
    ensures
        component_edit(object, systems, input) is None,
{
}

/// Every kind of component that a plugin of the session declares, and that an
/// object left to the user does not have, can be given to it with its defaults.
pub proof fn declared_components_can_be_added(
    object: WorldObject,
    systems: Seq<FieldSystemStatus>,
    component: ComponentTypeId,
    defaults: PropertyBag,
)
    requires
        !tracks(object),
        declared_kind(systems, component@),
        !crate::world::attached(object.components@, component@),
    ensures
        component_edit(
            object,
            systems,
            ComponentInput::Add { component, defaults: Some(defaults) },
        ) == Some(
            WorldCommand::AttachComponent { object: object.id, component, properties: defaults },
        ),
{
}

/// The value an editor shows for a property: what it holds, or, where it holds
/// nothing of its kind, a zero, an empty text or the first choice.
pub open spec fn shown_value(kind: PropertyKind, value: Option<PropertyValue>) -> crate::world::ValueContent {
    match (kind, value) {
        (PropertyKind::Scalar(_), Some(PropertyValue::Scalar(v))) => {
            crate::world::ValueContent::Scalar(v)
        },
        (PropertyKind::Scalar(_), _) => crate::world::ValueContent::Scalar(zero()),
        (PropertyKind::Vector(_), Some(PropertyValue::Vector(v))) => {
            crate::world::ValueContent::Vector(v)
        },
        (PropertyKind::Vector(_), _) => crate::world::ValueContent::Vector(origin()),
        (PropertyKind::Boolean, Some(PropertyValue::Boolean(v))) => {
            crate::world::ValueContent::Boolean(v)
        },
        (PropertyKind::Boolean, _) => crate::world::ValueContent::Boolean(false),
        (PropertyKind::Text, Some(PropertyValue::Text(v))) => crate::world::ValueContent::Text(v@),
        (PropertyKind::Text, _) => crate::world::ValueContent::Text(""@),
        (PropertyKind::Choice(_), Some(PropertyValue::Choice(v))) => {
            crate::world::ValueContent::Choice(v@)
        },
        (PropertyKind::Choice(options), _) => crate::world::ValueContent::Choice(
            if options@.len() > 0 {
                options@[0]@
            } else {
                ""@
            },
        ),
    }
}

/// The value an editor shows for a property.
pub fn property_shown(schema: &PropertySchema, values: &PropertyBag) -> (value: PropertyValue)
    ensures
        value@ == shown_value(schema.kind, held_value(*values, schema.id@)),
{
    let held = values.get(&schema.id);
    match &schema.kind {
        PropertyKind::Scalar(_) => match held {
            Some(PropertyValue::Scalar(v)) => PropertyValue::Scalar(*v),
            _ => PropertyValue::Scalar(zero()),
        },
        PropertyKind::Vector(_) => match held {
            Some(PropertyValue::Vector(v)) => PropertyValue::Vector(*v),
            _ => PropertyValue::Vector(origin()),
        },
        PropertyKind::Boolean => match held {
            Some(PropertyValue::Boolean(v)) => PropertyValue::Boolean(*v),
            _ => PropertyValue::Boolean(false),
        },
        PropertyKind::Text => match held {
            Some(PropertyValue::Text(v)) => PropertyValue::Text(v.clone()),
            _ => PropertyValue::Text("".to_owned()),
        },
        PropertyKind::Choice(options) => match held {
            Some(PropertyValue::Choice(v)) => PropertyValue::Choice(v.clone()),
            _ => if options.len() > 0 {
                PropertyValue::Choice(options[0].clone())
            } else {
                PropertyValue::Choice("".to_owned())
            },
        },
    }
}

/// The value a property holds.
pub open spec fn held_value(values: PropertyBag, id: Seq<char>) -> Option<PropertyValue> {
    if values.map().contains_key(id) {
        Some(values.map()[id])
    } else {
        None
    }
}

/// What a property editor did in one frame.
#[derive(Debug)]
pub struct PropertyInput {
    /// The value the editor holds now.
    pub value: PropertyValue,
    /// Whether the editor reported a change.
    pub changed: bool,
    /// Whether the value is one of the property's dimension.
    pub valid: bool,
}

/// Whether an editor's value is taken over: a measured one that changed and is
/// valid, a flag or text that changed, and a choice that differs from the one
/// shown. A value of another kind never is.
pub open spec fn takes_over(
    kind: PropertyKind,
    held: Option<PropertyValue>,
    input: PropertyInput,
) -> bool {
    match (kind, input.value) {
        (PropertyKind::Scalar(_), PropertyValue::Scalar(_)) => input.changed && input.valid,
        (PropertyKind::Vector(_), PropertyValue::Vector(_)) => input.changed && input.valid,
        (PropertyKind::Boolean, PropertyValue::Boolean(_)) => input.changed,
        (PropertyKind::Text, PropertyValue::Text(_)) => input.changed,
        (PropertyKind::Choice(_), PropertyValue::Choice(_)) => input.value@ != shown_value(kind, held),
        _ => false,
    }
}

/// Act on a property editor. A property that is not relevant to the others is not
/// edited.
pub fn property_editor(
    schema: &PropertySchema,
    relevant: bool,
    values: &mut PropertyBag,
    input: PropertyInput,
) -> (changed: bool)
    ensures
        changed == (relevant && takes_over(
            schema.kind,
            held_value(*old(values), schema.id@),
            input,
        )),
        changed ==> final(values).map() == old(values).map().insert(schema.id@, input.value),
        !changed ==> *final(values) == *old(values),
{
    if !relevant {
        return false;
    }
    let shown = property_shown(schema, values);
    let taken: bool = match (&schema.kind, &input.value) {
        (PropertyKind::Scalar(_), PropertyValue::Scalar(_)) => input.changed && input.valid,
        (PropertyKind::Vector(_), PropertyValue::Vector(_)) => input.changed && input.valid,
        (PropertyKind::Boolean, PropertyValue::Boolean(_)) => input.changed,
        (PropertyKind::Text, PropertyValue::Text(_)) => input.changed,
        (PropertyKind::Choice(_), PropertyValue::Choice(selected)) => match &shown {
            PropertyValue::Choice(before) => !same_text(selected.as_str(), before.as_str()),
            _ => true,
        },
        _ => false,
    };
    if taken {
        values.insert(schema.id.copied(), input.value);
    }
    taken
}

/// The first expression bound to a property, from position `n`.
pub open spec fn binding_from(
    bindings: Seq<PropertyBinding>,
    target: (u64, (Seq<char>, Seq<char>), Seq<char>),
    n: nat,
) -> Option<PropertyBinding>
    decreases bindings.len() - n,
{
    if n >= bindings.len() {
        None
    } else if bindings[n as int].target@ == target {
        Some(bindings[n as int])
    } else {
        binding_from(bindings, target, n + 1)
    }
}

/// The expression bound to a property.
pub fn find_binding<'a>(bindings: &'a Vec<PropertyBinding>, target: &PropertyTarget) -> (binding: Option<
    &'a PropertyBinding,
>)
    ensures
        binding is Some <==> binding_from(bindings@, target@, 0) is Some,
        binding matches Some(b) ==> binding_from(bindings@, target@, 0) == Some(*b),
{
    let mut i: usize = 0;
    while i < bindings.len()
        invariant
            i <= bindings.len(),
            binding_from(bindings@, target@, 0) == binding_from(bindings@, target@, i as nat),
        decreases bindings.len() - i,
    {
        if bindings[i].target.same(target) {
            return Some(&bindings[i]);
        }
        i = i + 1;
    }
    None
}

/// The dimension of a property that may hold a formula. Only a scalar may.
pub fn formula_dimension(schema: &PropertySchema) -> (dimension: Option<&Dimension>)
    ensures
        dimension is Some <==> schema.kind is Scalar,
        dimension matches Some(d) ==> schema.kind == PropertyKind::Scalar(*d),
{
    match &schema.kind {
        PropertyKind::Scalar(dimension) => Some(dimension),
        _ => None,
    }
}

/// A number as the source of an expression, from the number as it is written.
pub fn literal_expression_source(value: &str, dimension: &Dimension) -> (source: String)
    ensures
        source@ == if dimension.unit_symbol@.len() == 0 {
            value@
        } else {
            value@ + " "@ + dimension.unit_symbol@
        },
{
    if dimension.unit_symbol.as_str().unicode_len() == 0 {
        value.to_owned()
    } else {
        concat3(value, " ", dimension.unit_symbol.as_str())
    }
}

/// The editor of a property that may hold a formula in place of a number.
#[derive(Debug)]
pub struct FormulaDraft {
    /// Whether the formula is shown in place of the number.
    pub active: bool,
    pub formula: AuthorityDraft<String>,
}

/// What happened to a formula in one frame.
#[derive(Clone, Copy, Debug, PartialEq, Eq, Structural)]
pub struct FormulaInput {
    /// The formula was left with the enter key.
    pub enter: bool,
    pub apply: bool,
    pub cancel: bool,
    /// The escape key was hit.
    pub escape: bool,
}

impl FormulaDraft {
    /// The editor of a property: the one being edited, or a new one, brought up to
    /// date with what the authority holds. A bound property shows its formula.
    pub fn bring_up(
        kept: Option<FormulaDraft>,
        binding: Option<&PropertyBinding>,
        literal: String,
        graph_hash: &str,
    ) -> (draft: Self)
        ensures
            ({
                let source = match binding {
                    Some(binding) => binding.source@,
                    None => literal@,
                };
                match kept {
                    Some(kept) => {
                        &&& draft.active == (kept.active || binding is Some)
                        &&& draft.formula.state() == kept.formula.state().reconciled(
                            source,
                            graph_hash@,
                        )
                    },
                    None => {
                        &&& draft.active == (binding is Some)
                        &&& draft.formula.state() == DraftState::fresh(source, graph_hash@)
                    },
                }
            }),
    {
        let bound: bool = binding.is_some();
        let source = match binding {
            Some(binding) => binding.source.clone(),
            None => literal,
        };
        match kept {
            Some(mut draft) => {
                draft.formula.reconcile(source, graph_hash);
                if bound {
                    draft.active = true;
                }
                draft
            },
            None => FormulaDraft {
                active: bound,
                formula: AuthorityDraft::new(source, graph_hash),
            },
        }
    }

    /// Show the formula in place of the number, as it was last accepted.
    pub fn activate(&mut self)
        ensures
            final(self).active,
            final(self).formula.state() == old(self).formula.state().reset(),
    {
        self.active = true;
        self.formula.reset();
    }

    /// Put the number the formula resolves to in its place.
    pub fn freeze(&mut self, target: &PropertyTarget, output: &mut UiFrameOutput)
        ensures
            !final(self).active,
            final(self).formula.state() == old(self).formula.state().reset(),
            final(output).commits(
                *old(output),
                seq![ExpressionCommand::ClearPropertyExpression(*target)],
            ),
    {
        output.commit_one(ExpressionCommand::ClearPropertyExpression(target.copied()));
        self.active = false;
        self.formula.reset();
    }

    /// Whether the formula is submitted.
    pub open spec fn submits(&self, preview: DraftPreview, input: FormulaInput) -> bool {
        self.active && (input.enter || input.apply) && self.formula.state().dirty()
            && preview.is_valid()
    }

    /// Act on the formula that is shown: submit it if it changed and is valid, and
    /// give it up when asked to.
    pub fn settle(
        &mut self,
        target: &PropertyTarget,
        preview: &DraftPreview,
        input: FormulaInput,
        output: &mut UiFrameOutput,
    )
        ensures
            final(self).active == old(self).active,
            final(self).formula.state() == {
                let sent = if old(self).submits(*preview, input) {
                    old(self).formula.state().submitted()
                } else {
                    old(self).formula.state()
                };
                if old(self).active && (input.cancel || input.escape) {
                    sent.reset()
                } else {
                    sent
                }
            },
            if old(self).submits(*preview, input) {
                final(output).commits_like(
                    *old(output),
                    |command: ExpressionCommand|
                        command matches ExpressionCommand::SetPropertyExpression(binding)
                            && binding.target == *target && binding.source@
                            == old(self).formula.state().edited,
                )
            } else {
                *final(output) == *old(output)
            },
    {
        if !self.active {
            return;
        }
        if should_submit(&self.formula, preview, input.enter || input.apply) {
            let source = self.formula.edited().duplicate();
            output.commit_one(
                ExpressionCommand::SetPropertyExpression(
                    PropertyBinding { target: target.copied(), source },
                ),
            );
            self.formula.mark_submitted();
        }
        if input.cancel || input.escape {
            self.formula.reset();
        }
    }
}

/// Take over a number typed in place of a formula, if it is one of the property's
/// dimension. A change is reported either way.
pub fn edit_literal(
    values: &mut PropertyBag,
    property: &PropertyId,
    value: Number,
    changed: bool,
    valid: bool,
) -> (reported: bool)
    ensures
        reported == changed,
        changed && valid ==> final(values).map() == old(values).map().insert(
            property@,
            PropertyValue::Scalar(value),
        ),
        !(changed && valid) ==> *final(values) == *old(values),
{
    if changed && valid {
        values.insert(property.copied(), PropertyValue::Scalar(value));
    }
    changed
}

/// The value a candidate graph resolves a property to, from position `n`.
pub open spec fn resolved_from(
    properties: Seq<(PropertyTarget, Number)>,
    target: (u64, (Seq<char>, Seq<char>), Seq<char>),
    n: nat,
) -> Option<Number>
    decreases properties.len() - n,
{
    if n >= properties.len() {
        None
    } else if properties[n as int].0@ == target {
        Some((properties[n as int]).1)
    } else {
        resolved_from(properties, target, n + 1)
    }
}

/// The value a candidate graph resolves a property to, if it resolves.
pub fn resolved_property(preview: &DraftPreview, target: &PropertyTarget) -> (value: Option<Number>)
    ensures
        value == match preview.values {
            Some(values) => resolved_from(values.properties@, target@, 0),
            None => None,
        },
{
    match &preview.values {
        None => None,
        Some(values) => {
            let properties = &values.properties;
            let mut i: usize = 0;
            while i < properties.len()
                invariant
                    preview.values == Some(*values),
                    *properties == values.properties,
                    i <= properties.len(),
                    resolved_from(properties@, target@, 0) == resolved_from(
                        properties@,
                        target@,
                        i as nat,
                    ),
                decreases properties.len() - i,
            {
                let (candidate, value) = &properties[i];
                if candidate.same(target) {
                    return Some(*value);
                }
                i = i + 1;
            }
            None
        },
    }
}

/// What is said of a formula that changed under its draft.
pub fn formula_note(draft: &AuthorityDraft<String>) -> (note: Option<&'static str>)
    ensures
        note is Some <==> draft.state().authority_changed,
        note matches Some(text) ==> text@
            == "Authoritative value changed; Cancel restores the latest accepted formula."@,
{
    if draft.authority_changed() {
        Some("Authoritative value changed; Cancel restores the latest accepted formula.")
    } else {
        None
    }
}

/// Why the accepted formula has no value, if it has none.
pub fn formula_status(node: &ExpressionNodeState) -> (line: Option<String>)
    ensures
        match node.status {
            ExpressionNodeStatus::Resolved => line is None,
            ExpressionNodeStatus::Unresolved(why) => line matches Some(text) && text@
                == "Authoritative dependency status: "@ + why@,
        },
{
    match &node.status {
        ExpressionNodeStatus::Resolved => None,
        ExpressionNodeStatus::Unresolved(why) => Some(
            concat2("Authoritative dependency status: ", why.as_str()),
        ),
    }
}

proof fn lemma_a_formula_shows_its_own_value(properties: Seq<(PropertyTarget, Number)>, target: (u64, (Seq<char>, Seq<char>), Seq<char>), n: nat, k: int)
    requires
        n <= k < properties.len(),
        properties[k].0@ == target,
        forall|j: int| n <= j < k ==> !((#[trigger] properties[j]).0@ == target),
    ensures
        resolved_from(properties, target, n) == Some(properties[k].1),
    decreases k - n,
{
    if n < k {
        assert(!(properties[n as int].0@ == target));
        lemma_a_formula_shows_its_own_value(properties, target, n + 1, k);
    }
}

proof fn lemma_a_formula_shows_its_own_value_none(properties: Seq<(PropertyTarget, Number)>, target: (u64, (Seq<char>, Seq<char>), Seq<char>), n: nat)
    requires
        forall|j: int| n <= j < properties.len() ==> !((#[trigger] properties[j]).0@ == target),
    ensures
        resolved_from(properties, target, n) is None,
    decreases properties.len() - n,
{
    if n < properties.len() {
        assert(!(properties[n as int].0@ == target));
        lemma_a_formula_shows_its_own_value_none(properties, target, n + 1);
    }
}

/// The value shown for a formula is the one that the candidate graph gives to that very
/// property: the first of its target that is listed, and none if its target is not.
pub proof fn a_formula_shows_its_own_value(properties: Seq<(PropertyTarget, Number)>, target: (u64, (Seq<char>, Seq<char>), Seq<char>))
    ensures
        forall|k: int|
            0 <= k < properties.len() && (#[trigger] properties[k]).0@ == target && (forall|j: int|
                0 <= j < k ==> !((#[trigger] properties[j]).0@ == target)) ==> resolved_from(properties, target, 0) == Some(
                properties[k].1,
            ),
        (forall|j: int| 0 <= j < properties.len() ==> !((#[trigger] properties[j]).0@ == target))
            ==> resolved_from(properties, target, 0) is None,
{
    assert forall|k: int|
        0 <= k < properties.len() && (#[trigger] properties[k]).0@ == target && (forall|j: int|
            0 <= j < k ==> !((#[trigger] properties[j]).0@ == target)) implies resolved_from(properties, target, 0) == Some(
        properties[k].1,
    ) by {
        lemma_a_formula_shows_its_own_value(properties, target, 0, k);
    }
    if forall|j: int| 0 <= j < properties.len() ==> !((#[trigger] properties[j]).0@ == target) {
        lemma_a_formula_shows_its_own_value_none(properties, target, 0);
    }
}

proof fn lemma_a_property_finds_its_own_formula(bindings: Seq<PropertyBinding>, target: (u64, (Seq<char>, Seq<char>), Seq<char>), n: nat, k: int)
    requires
        n <= k < bindings.len(),
        bindings[k].target@ == target,
        forall|j: int| n <= j < k ==> !((#[trigger] bindings[j]).target@ == target),
    ensures
        binding_from(bindings, target, n) == Some(bindings[k]),
    decreases k - n,
{
    if n < k {
        assert(!(bindings[n as int].target@ == target));
        lemma_a_property_finds_its_own_formula(bindings, target, n + 1, k);
    }
}

proof fn lemma_a_property_finds_its_own_formula_none(bindings: Seq<PropertyBinding>, target: (u64, (Seq<char>, Seq<char>), Seq<char>), n: nat)
    requires
        forall|j: int| n <= j < bindings.len() ==> !((#[trigger] bindings[j]).target@ == target),
    ensures
        binding_from(bindings, target, n) is None,
    decreases bindings.len() - n,
{
    if n < bindings.len() {
        assert(!(bindings[n as int].target@ == target));
        lemma_a_property_finds_its_own_formula_none(bindings, target, n + 1);
    }
}

/// The expression found for a property is the first that is bound to it, and none if none
/// is.
pub proof fn a_property_finds_its_own_formula(bindings: Seq<PropertyBinding>, target: (u64, (Seq<char>, Seq<char>), Seq<char>))
    ensures
        forall|k: int|
            0 <= k < bindings.len() && (#[trigger] bindings[k]).target@ == target && (forall|j: int|
                0 <= j < k ==> !((#[trigger] bindings[j]).target@ == target)) ==> binding_from(bindings, target, 0) == Some(
                bindings[k],
            ),
        (forall|j: int| 0 <= j < bindings.len() ==> !((#[trigger] bindings[j]).target@ == target))
            ==> binding_from(bindings, target, 0) is None,
{
    assert forall|k: int|
        0 <= k < bindings.len() && (#[trigger] bindings[k]).target@ == target && (forall|j: int|
            0 <= j < k ==> !((#[trigger] bindings[j]).target@ == target)) implies binding_from(bindings, target, 0) == Some(
        bindings[k],
    ) by {
        lemma_a_property_finds_its_own_formula(bindings, target, 0, k);
    }
    if forall|j: int| 0 <= j < bindings.len() ==> !((#[trigger] bindings[j]).target@ == target) {
        lemma_a_property_finds_its_own_formula_none(bindings, target, 0);
    }
}

proof fn lemma_a_component_is_found_by_its_kind(components: Seq<Component>, id: (Seq<char>, Seq<char>), n: nat, k: int)
    requires
        n <= k < components.len(),
        components[k].id@ == id,
        forall|j: int| n <= j < k ==> !((#[trigger] components[j]).id@ == id),
    ensures
        component_from(components, id, n) == Some(components[k].properties),
    decreases k - n,
{
    if n < k {
        assert(!(components[n as int].id@ == id));
        lemma_a_component_is_found_by_its_kind(components, id, n + 1, k);
    }
}

proof fn lemma_a_component_is_found_by_its_kind_none(components: Seq<Component>, id: (Seq<char>, Seq<char>), n: nat)
    requires
        forall|j: int| n <= j < components.len() ==> !((#[trigger] components[j]).id@ == id),
    ensures
        component_from(components, id, n) is None,
    decreases components.len() - n,
{
    if n < components.len() {
        assert(!(components[n as int].id@ == id));
        lemma_a_component_is_found_by_its_kind_none(components, id, n + 1);
    }
}

/// The properties found for a kind of component are those of the first component of that
/// kind, and none if the object has none.
pub proof fn a_component_is_found_by_its_kind(components: Seq<Component>, id: (Seq<char>, Seq<char>))
    ensures
        forall|k: int|
            0 <= k < components.len() && (#[trigger] components[k]).id@ == id && (forall|j: int|
                0 <= j < k ==> !((#[trigger] components[j]).id@ == id)) ==> component_from(components, id, 0) == Some(
                components[k].properties,
            ),
        (forall|j: int| 0 <= j < components.len() ==> !((#[trigger] components[j]).id@ == id))
            ==> component_from(components, id, 0) is None,
{
    assert forall|k: int|
        0 <= k < components.len() && (#[trigger] components[k]).id@ == id && (forall|j: int|
            0 <= j < k ==> !((#[trigger] components[j]).id@ == id)) implies component_from(components, id, 0) == Some(
        components[k].properties,
    ) by {
        lemma_a_component_is_found_by_its_kind(components, id, 0, k);
    }
    if forall|j: int| 0 <= j < components.len() ==> !((#[trigger] components[j]).id@ == id) {
        lemma_a_component_is_found_by_its_kind_none(components, id, 0);
    }
}

/// An object goes exactly where it is put and keeps its turn; it moves exactly as it is
/// told to and keeps its spin. A place or a motion it cannot have is not asked for.
pub proof fn an_object_goes_where_it_is_put(object: WorldObject, place: Vec3, motion: Vec3)
    ensures
        object_edit(object, ObjectInput::Position { translation: place, valid: true }) matches Some(
            WorldCommand::SetTransform { object: id, transform },
        ) && id == object.id && transform.translation == place && transform.rotation
            == object.transform.rotation,
        object_edit(object, ObjectInput::Velocity { linear: motion, valid: true }) matches Some(
            WorldCommand::SetVelocity { object: id, velocity },
        ) && id == object.id && velocity.linear == motion && velocity.angular
            == object.velocity.angular,
        object_edit(object, ObjectInput::Position { translation: place, valid: false }) is None,
        object_edit(object, ObjectInput::Velocity { linear: motion, valid: false }) is None,
{
}

/// A name, colour, pin or shape is set on the object as it was given, whatever the object
/// was before; only the shape of an object that follows a catalog entry is not set.
pub proof fn an_object_takes_what_it_is_given(
    object: WorldObject,
    name: String,
    color: Option<Rgb>,
    pinned: bool,
    shape: Option<ObjectShape>,
)
    ensures
        object_edit(object, ObjectInput::Name(name)) == Some(
            WorldCommand::SetObjectName { object: object.id, name },
        ),
        object_edit(object, ObjectInput::Color(color)) == Some(
            WorldCommand::SetObjectColor { object: object.id, color },
        ),
        object_edit(object, ObjectInput::Pinned(pinned)) == Some(
            WorldCommand::SetObjectPinned { object: object.id, pinned },
        ),
        object_edit(object, ObjectInput::Remove) == Some(WorldCommand::RemoveObject(object.id)),
        !(object.catalog_link matches Some(link) && link.mode is Tracking) ==> object_edit(
            object,
            ObjectInput::Shape { shape, valid: true },
        ) == Some(WorldCommand::SetShape { object: object.id, shape }),
        (object.catalog_link matches Some(link) && link.mode is Tracking) ==> object_edit(
            object,
            ObjectInput::Shape { shape, valid: true },
        ) is None,
        object_edit(object, ObjectInput::Shape { shape, valid: false }) is None,
{
}

/// Looking at an object and following it are left to the camera and edit nothing; every
/// other change of an object is an edit and leaves the camera alone.
pub proof fn an_object_is_edited_or_looked_at(object: WorldObject, input: ObjectInput)
    ensures
        input is Focus ==> object_edit(object, input) is None && object_camera(object, input) == Some(
            CameraAction::FocusSelection,
        ),
        input is Follow ==> object_edit(object, input) is None && object_camera(object, input) == Some(
            CameraAction::ToggleFollow(object.id),
        ),
        !(input is Focus) && !(input is Follow) ==> object_camera(object, input) is None,
{
}

/// An object follows a catalog entry through a link that says so, and not otherwise.
pub proof fn an_object_tracks_through_its_link(object: WorldObject)
    ensures
        object.catalog_link is None ==> !tracks(object),
        object.catalog_link matches Some(link) ==> (tracks(object) <==> link.mode
            == CatalogLinkMode::Tracking),
{
}

/// A shape that is built is of the kind it was built as; a point has the radius it was
/// given, and a sphere or box that radius unless it is too small for one.
pub proof fn a_built_shape_is_of_its_kind(kind: ShapeKind, radius: Number)
    ensures
        ShapeKind::kind_of(kind.built(radius)) == kind,
        kind.built(radius) is None <==> kind is Marker,
        kind.built(radius) matches Some(ObjectShape::Point { radius: r }) ==> r == radius,
        smallest_extent().value_at_most(radius) ==> {
            &&& kind.built(radius) matches Some(ObjectShape::Sphere { radius: r }) ==> r == radius
            &&& kind.built(radius) matches Some(ObjectShape::Box { half_extent }) ==> half_extent.x
                == radius && half_extent.y == radius && half_extent.z == radius
        },
        !smallest_extent().value_at_most(radius) ==> {
            &&& kind.built(radius) matches Some(ObjectShape::Sphere { radius: r }) ==> r
                == smallest_extent()
            &&& kind.built(radius) matches Some(ObjectShape::Box { half_extent }) ==> half_extent.x
                == smallest_extent() && half_extent.y == smallest_extent() && half_extent.z
                == smallest_extent()
        },
{
}

/// Choosing between a point and a sphere keeps the radius; a shape without a radius gives
/// way to one of the default radius.
pub proof fn a_chosen_kind_keeps_the_radius(radius: Number, half_extent: Vec3)
    ensures
        carried_radius(Some(ObjectShape::Point { radius })) == radius,
        carried_radius(Some(ObjectShape::Sphere { radius })) == radius,
        carried_radius(Some(ObjectShape::Box { half_extent })) == default_authoring_radius(),
        carried_radius(None) == default_authoring_radius(),
        ShapeKind::Point.built(carried_radius(Some(ObjectShape::Sphere { radius }))) == Some(
            ObjectShape::Point { radius },
        ),
{
}

/// A scalar is read from a property exactly where the property holds one.
pub proof fn a_scalar_is_what_the_property_holds(properties: PropertyBag, id: Seq<char>, value: Number)
    ensures
        scalar_of(properties, id) == Some(value) <==> properties.map().contains_key(id)
            && properties.map()[id] == PropertyValue::Scalar(value),
        held_value(properties, id) is Some <==> properties.map().contains_key(id),
        held_value(properties, id) matches Some(held) ==> held == properties.map()[id],
{
}

/// A kind of component is declared exactly where some composed plugin lists it.
pub proof fn a_kind_is_declared_by_some_plugin(
    systems: Seq<FieldSystemStatus>,
    id: (Seq<char>, Seq<char>),
)
    ensures
        declared_kind(systems, id) <==> exists|i: int, j: int|
            0 <= i < systems.len() && 0 <= j < systems[i].component_schemas@.len()
                && #[trigger] systems[i].component_schemas@[j]@ == id,
{
    if declared_kind(systems, id) {
        let i = choose|i: int|
            0 <= i < systems.len() && crate::ids::lists(
                (#[trigger] systems[i]).component_schemas@,
                id,
            );
        let j = choose|j: int|
            0 <= j < systems[i].component_schemas@.len()
                && (#[trigger] systems[i].component_schemas@[j]).key() == id;
        assert(systems[i].component_schemas@[j]@ == id);
    }
    if exists|i: int, j: int|
        0 <= i < systems.len() && 0 <= j < systems[i].component_schemas@.len()
            && #[trigger] systems[i].component_schemas@[j]@ == id {
        let (i, j) = choose|i: int, j: int|
            0 <= i < systems.len() && 0 <= j < systems[i].component_schemas@.len()
                && #[trigger] systems[i].component_schemas@[j]@ == id;
        assert(systems[i].component_schemas@[j].key() == id);
        assert(crate::ids::lists(systems[i].component_schemas@, id));
    }
}

proof fn lemma_missing(
    schemas: Seq<ComponentSchema>,
    components: Seq<Component>,
    n: nat,
)
    requires
        n <= schemas.len() <= usize::MAX,
    ensures
        forall|k: int|
            0 <= k < missing(schemas, components, n).len() ==> (#[trigger] missing(
                schemas,
                components,
                n,
            )[k]) < n,
        forall|a: int, b: int|
            0 <= a < b < missing(schemas, components, n).len() ==> (#[trigger] missing(
                schemas,
                components,
                n,
            )[a]) < (#[trigger] missing(schemas, components, n)[b]),
        forall|i: int|
            0 <= i < n ==> (missing(schemas, components, n).contains(i as usize) <==> !crate::world::attached(
                components,
                (#[trigger] schemas[i]).id@,
            )),
    decreases n,
{
    if n > 0 {
        lemma_missing(schemas, components, (n - 1) as nat);
        let before = missing(schemas, components, (n - 1) as nat);
        let whole = missing(schemas, components, n);
        assert forall|i: int| 0 <= i < n implies (whole.contains(i as usize) <==> !crate::world::attached(
            components,
            (#[trigger] schemas[i]).id@,
        )) by {
            if i < n - 1 {
                if before.contains(i as usize) {
                    let k = choose|k: int| 0 <= k < before.len() && before[k] == i as usize;
                    assert(whole[k] == i as usize);
                }
                if whole.contains(i as usize) {
                    let k = choose|k: int| 0 <= k < whole.len() && whole[k] == i as usize;
                    assert(before[k] == i as usize);
                }
            } else {
                if whole.len() > before.len() {
                    assert(whole[before.len() as int] == i as usize);
                } else if whole.contains(i as usize) {
                    let k = choose|k: int| 0 <= k < whole.len() && whole[k] == i as usize;
                    assert(before[k] < n - 1);
                }
            }
        }
    }
}

/// Exactly the kinds of component that an object does not have are offered to it, in the
/// order they are known.
pub proof fn missing_components_are_those_it_lacks(
    schemas: Seq<ComponentSchema>,
    components: Seq<Component>,
)
    requires
        schemas.len() <= usize::MAX,
    ensures
        forall|a: int, b: int|
            0 <= a < b < missing(schemas, components, schemas.len()).len() ==> (#[trigger] missing(
                schemas,
                components,
                schemas.len(),
            )[a]) < (#[trigger] missing(schemas, components, schemas.len())[b]),
        forall|i: int, c: int|
            0 <= i < schemas.len() && 0 <= c < components.len() && (#[trigger] components[c]).id@ == (
            #[trigger] schemas[i]).id@ ==> !missing(schemas, components, schemas.len()).contains(
                i as usize,
            ),
        forall|i: int|
            0 <= i < schemas.len() && (forall|c: int|
                0 <= c < components.len() ==> (#[trigger] components[c]).id@ != schemas[i].id@)
                ==> #[trigger] missing(schemas, components, schemas.len()).contains(i as usize),
{
    lemma_missing(schemas, components, schemas.len());
    assert forall|i: int|
        0 <= i < schemas.len() && (forall|c: int|
            0 <= c < components.len() ==> (#[trigger] components[c]).id@ != schemas[i].id@)
            implies #[trigger] missing(schemas, components, schemas.len()).contains(i as usize) by {
        assert(!crate::world::attached(components, schemas[i].id@));
    }
    assert forall|i: int, c: int|
        0 <= i < schemas.len() && 0 <= c < components.len() && (#[trigger] components[c]).id@ == (
        #[trigger] schemas[i]).id@ implies !missing(schemas, components, schemas.len()).contains(
        i as usize,
    ) by {
        assert(crate::world::attached(components, schemas[i].id@));
    }
}

/// The components of an object left to the user take the properties they are given if they
/// can have them, and are taken off when asked; a component is added only once, and only
/// with defaults.
pub proof fn components_take_what_they_are_given(
    object: WorldObject,
    systems: Seq<FieldSystemStatus>,
    component: ComponentTypeId,
    properties: PropertyBag,
)
    requires
        !(object.catalog_link matches Some(link) && link.mode is Tracking),
    ensures
        component_edit(
            object,
            systems,
            ComponentInput::Edit { component, properties, valid: true },
        ) == Some(WorldCommand::AttachComponent { object: object.id, component, properties }),
        component_edit(
            object,
            systems,
            ComponentInput::Edit { component, properties, valid: false },
        ) is None,
        component_edit(object, systems, ComponentInput::Detach(component)) == Some(
            WorldCommand::DetachComponent { object: object.id, component },
        ),
        component_edit(object, systems, ComponentInput::Add { component, defaults: None }) is None,
        (exists|c: int|
            0 <= c < object.components@.len() && (#[trigger] object.components@[c]).id@ == component@)
            ==> component_edit(
            object,
            systems,
            ComponentInput::Add { component, defaults: Some(properties) },
        ) is None,
        (forall|i: int, j: int|
            0 <= i < systems.len() && 0 <= j < systems[i].component_schemas@.len()
                ==> #[trigger] systems[i].component_schemas@[j]@ != component@) ==> component_edit(
            object,
            systems,
            ComponentInput::Add { component, defaults: Some(properties) },
        ) is None,
{
    a_kind_is_declared_by_some_plugin(systems, component@);
}

/// A property that holds a value of its kind shows that value.
pub proof fn an_editor_shows_what_is_held(kind: PropertyKind, held: PropertyValue)
    requires
        kind is Scalar <==> held is Scalar,
        kind is Vector <==> held is Vector,
        kind is Boolean <==> held is Boolean,
        kind is Text <==> held is Text,
        kind is Choice <==> held is Choice,
    ensures
        shown_value(kind, Some(held)) == held@,
{
}

/// A property that holds nothing of its kind shows a zero, an empty text, an unset flag or
/// the first choice.
pub proof fn an_empty_property_shows_its_start(kind: PropertyKind, held: Option<PropertyValue>)
    requires
        held matches Some(value) ==> {
            &&& !(kind is Scalar && value is Scalar)
            &&& !(kind is Vector && value is Vector)
            &&& !(kind is Boolean && value is Boolean)
            &&& !(kind is Text && value is Text)
            &&& !(kind is Choice && value is Choice)
        },
    ensures
        match kind {
            PropertyKind::Scalar(_) => shown_value(kind, held) == crate::world::ValueContent::Scalar(
                zero(),
            ),
            PropertyKind::Vector(_) => shown_value(kind, held) == crate::world::ValueContent::Vector(
                origin(),
            ),
            PropertyKind::Boolean => shown_value(kind, held) == crate::world::ValueContent::Boolean(
                false,
            ),
            PropertyKind::Text => shown_value(kind, held) == crate::world::ValueContent::Text(""@),
            PropertyKind::Choice(options) => shown_value(kind, held)
                == crate::world::ValueContent::Choice(
                if options@.len() > 0 {
                    options@[0]@
                } else {
                    ""@
                },
            ),
        },
{
}

/// An editor's value is taken over only if it is of the property's kind; a measured one
/// only if it changed and is valid, a flag or text only if it changed, and a choice only
/// if it is not the one shown. Each of these is taken over.
pub proof fn only_a_change_is_taken_over(
    kind: PropertyKind,
    held: Option<PropertyValue>,
    input: PropertyInput,
)
    ensures
        takes_over(kind, held, input) ==> {
            ||| kind is Scalar && input.value is Scalar
            ||| kind is Vector && input.value is Vector
            ||| kind is Boolean && input.value is Boolean
            ||| kind is Text && input.value is Text
            ||| kind is Choice && input.value is Choice
        },
        (kind is Scalar && input.value is Scalar) || (kind is Vector && input.value is Vector) ==> (
        takes_over(kind, held, input) <==> input.changed && input.valid),
        (kind is Boolean && input.value is Boolean) || (kind is Text && input.value is Text) ==> (
        takes_over(kind, held, input) <==> input.changed),
        kind is Choice && input.value is Choice ==> (takes_over(kind, held, input) <==> input.value@
            != shown_value(kind, held)),
{
}

/// A formula is submitted exactly when it is shown, was asked for, differs from the
/// accepted one and resolves.
pub proof fn only_a_changed_formula_that_resolves_is_submitted(
    draft: FormulaDraft,
    preview: DraftPreview,
    input: FormulaInput,
)
    ensures
        draft.submits(preview, input) <==> draft.active && (input.enter || input.apply)
            && draft.formula.state().edited != draft.formula.state().baseline
            && preview.diagnostic is None,
{
}

/// Asking for a catalog action leaves everything else the frame asks for as it was.
pub proof fn a_catalog_action_is_all_that_is_added(
    output: UiFrameOutput,
    before: UiFrameOutput,
    action: CatalogAction,
)
    requires
        opens_catalog(output, before, action),
    ensures
        output.catalog_action == Some(action),
        output.commands == before.commands,
        output.viewport_gesture == before.viewport_gesture,
        output.camera_action == before.camera_action,
        output.scene_edit_in_progress == before.scene_edit_in_progress,
        output.mcp_action == before.mcp_action,
        output.app_action == before.app_action,
{
}

} // verus!
