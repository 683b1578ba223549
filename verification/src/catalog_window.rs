//! The catalog window: what its buttons ask for, and how an entry is edited.

use crate::catalog::{
    copy_components, create_ready, CatalogEditorDraft, CatalogEntry, LoadResult, MapRow,
};
use crate::command::{AppAction, CatalogAction, UiFrameOutput};
use crate::measured::{Number, Vec3};
use crate::model::UiModel;
use crate::ordered::{copy_list, Copied};
use crate::text::concat4;
use crate::world::{CatalogOrigin, CatalogReference, Component, ComponentSchema, ObjectShape};
use vstd::prelude::*;
use vstd::string::*;

verus! {

/// What the user asked of the catalog as a whole or of one of its entries.
#[derive(Debug)]
pub enum CatalogInput {
    Reload,
    CreateGlobal,
    CreateDocument,
    Open(CatalogReference),
    /// Hide an entry from quick adding, or offer it again.
    ToggleQuickAdd { entry: CatalogReference, hidden: bool },
}

/// Whether both names of a new entry are given.
pub open spec fn ready_to_create(model: UiModel) -> bool {
    !crate::text::blank(model.catalog_new_catalog@) && !crate::text::blank(model.catalog_new_template@)
}

/// Act on the catalog. A new entry takes the two names as they were typed, and is
/// created only when both are given.
pub fn catalog_window(model: &UiModel, input: CatalogInput, output: &mut UiFrameOutput)
    ensures
        *final(output) == match input {
            CatalogInput::Reload => UiFrameOutput {
                app_action: Some(AppAction::ReloadCatalog),
                ..*old(output)
            },
            CatalogInput::CreateGlobal => if ready_to_create(*model) {
                UiFrameOutput {
                    catalog_action: Some(
                        CatalogAction::CreateGlobal {
                            catalog: model.catalog_new_catalog,
                            template: model.catalog_new_template,
                        },
                    ),
                    ..*old(output)
                }
            } else {
                *old(output)
            },
            CatalogInput::CreateDocument => if ready_to_create(*model) {
                UiFrameOutput {
                    catalog_action: Some(
                        CatalogAction::CreateDocument {
                            catalog: model.catalog_new_catalog,
                            template: model.catalog_new_template,
                        },
                    ),
                    ..*old(output)
                }
            } else {
                *old(output)
            },
            CatalogInput::Open(entry) => UiFrameOutput {
                catalog_action: Some(CatalogAction::Open(Some(entry))),
                ..*old(output)
            },
            CatalogInput::ToggleQuickAdd { entry, hidden } => UiFrameOutput {
                catalog_action: Some(CatalogAction::SetQuickAddHidden { entry, hidden: !hidden }),
                ..*old(output)
            },
        },
{
    let ready: bool = create_ready(
        model.catalog_new_catalog.as_str(),
        model.catalog_new_template.as_str(),
    );
    match input {
        CatalogInput::Reload => {
            output.app_action = Some(AppAction::ReloadCatalog);
        },
        CatalogInput::CreateGlobal => {
            if ready {
                output.catalog_action = Some(
                    CatalogAction::CreateGlobal {
                        catalog: model.catalog_new_catalog.clone(),
                        template: model.catalog_new_template.clone(),
                    },
                );
            }
        },
        CatalogInput::CreateDocument => {
            if ready {
                output.catalog_action = Some(
                    CatalogAction::CreateDocument {
                        catalog: model.catalog_new_catalog.clone(),
                        template: model.catalog_new_template.clone(),
                    },
                );
            }
        },
        CatalogInput::Open(entry) => {
            output.catalog_action = Some(CatalogAction::Open(Some(entry)));
        },
        CatalogInput::ToggleQuickAdd { entry, hidden } => {
            output.catalog_action = Some(
                CatalogAction::SetQuickAddHidden { entry, hidden: !hidden },
            );
        },
    }
}

/// The label of the button that hides an entry from quick adding.
pub fn quick_add_label(hidden: bool) -> (s: &'static str)
    ensures
        hidden ==> s@ == "Hidden"@,
        !hidden ==> s@ == "Quick add"@,
{
    if hidden {
        "Hidden"
    } else {
        "Quick add"
    }
}

/// Whether an entry is the one being edited.
pub fn entry_selected(model: &UiModel, reference: &CatalogReference) -> (b: bool)
    ensures
        b == (model.catalog_selected matches Some(selected) && selected@ == reference@),
{
    match &model.catalog_selected {
        Some(selected) => selected.same(reference),
        None => false,
    }
}

/// What the editor of the catalog shows, with the position of the entry it is
/// about.
#[derive(Clone, Copy, Debug, PartialEq, Eq, Structural)]
pub enum EditorState {
    NothingSelected,
    /// The selected entry is no longer there.
    Gone,
    /// No draft of the selected entry has been made yet.
    Preparing(usize),
    Editing(usize),
    /// The entry cannot be read, so it cannot be edited.
    Unreadable(usize),
}

/// Whether the model holds a draft of an entry.
pub open spec fn drafted(model: UiModel, reference: CatalogReference) -> bool {
    model.catalog_editor matches Some(draft) && draft.source@ == reference@
}

/// What the editor of the catalog shows.
pub fn editor_state(model: &UiModel, entries: &Vec<CatalogEntry>) -> (state: EditorState)
    ensures
        match model.catalog_selected {
            None => state is NothingSelected,
            Some(selected) => match crate::catalog::entry_from(entries@, selected, 0) {
                None => state is Gone,
                Some(i) => if entries@[i as int].result is Invalid {
                    state == EditorState::Unreadable(i as usize)
                } else if drafted(*model, selected) {
                    state == EditorState::Editing(i as usize)
                } else {
                    state == EditorState::Preparing(i as usize)
                },
            },
        },
{
    let selected = match &model.catalog_selected {
        None => {
            return EditorState::NothingSelected;
        },
        Some(selected) => selected,
    };
    let mut i: usize = 0;
    while i < entries.len()
        invariant
            model.catalog_selected == Some(*selected),
            i <= entries.len(),
            crate::catalog::entry_from(entries@, *selected, 0) == crate::catalog::entry_from(
                entries@,
                *selected,
                i as nat,
            ),
        decreases entries.len() - i,
    {
        if let Some(candidate) = &entries[i].reference {
            if candidate.same(selected) {
                if let LoadResult::Invalid { .. } = &entries[i].result {
                    return EditorState::Unreadable(i);
                }
                return match &model.catalog_editor {
                    Some(draft) => if draft.source.same(selected) {
                        EditorState::Editing(i)
                    } else {
                        EditorState::Preparing(i)
                    },
                    None => EditorState::Preparing(i),
                };
            }
        }
        i = i + 1;
    }
    EditorState::Gone
}

/// The heading of the editor.
pub fn editor_heading(selected: &CatalogReference) -> (text: String)
    ensures
        text@ == "Edit "@ + selected.catalog@ + "/"@ + selected.template@,
{
    concat4("Edit ", selected.catalog.as_str(), "/", selected.template.as_str())
}

/// Whether an entry cannot be written: it stands in a global catalog whose file is
/// read-only. A document's own entries can always be written.
pub fn read_only(selected: &CatalogReference, file_read_only: bool) -> (b: bool)
    ensures
        b == (selected.origin is Global && file_read_only),
{
    match selected.origin {
        CatalogOrigin::Global => file_read_only,
        CatalogOrigin::Document => false,
    }
}

/// Whether an action saves an entry as it is drafted.
pub open spec fn saves(
    action: CatalogAction,
    selected: CatalogReference,
    draft: CatalogEditorDraft,
) -> bool {
    action matches CatalogAction::SaveEntry {
        entry,
        catalog,
        template,
        description,
        author,
        labels,
        annotations,
        object_kind,
        shape,
        components,
    } && entry == selected && catalog == draft.catalog && template == draft.template && description
        == draft.description && author == draft.author && labels@ == draft.labels@ && annotations@
        == draft.annotations@ && object_kind == draft.object_kind && shape == draft.shape
        && crate::catalog::same_components(components@, draft.components@)
}

/// Save an entry as it is drafted, if it can be written and nothing is wrong with
/// the draft.
pub fn save_entry(
    selected: &CatalogReference,
    draft: &CatalogEditorDraft,
    read_only: bool,
    errors: &Vec<String>,
    output: &mut UiFrameOutput,
)
    ensures
        !read_only && errors@.len() == 0 ==> (final(output).catalog_action matches Some(action)
            && saves(action, *selected, *draft)),
        *final(output) == if !read_only && errors@.len() == 0 {
            UiFrameOutput { catalog_action: final(output).catalog_action, ..*old(output) }
        } else {
            *old(output)
        },
{
    if !read_only && errors.len() == 0 {
        output.catalog_action = Some(
            CatalogAction::SaveEntry {
                entry: selected.copied(),
                catalog: draft.catalog.clone(),
                template: draft.template.clone(),
                description: draft.description.clone(),
                author: draft.author.clone(),
                labels: copy_list(&draft.labels),
                annotations: copy_list(&draft.annotations),
                object_kind: draft.object_kind.clone(),
                shape: draft.shape,
                components: copy_components(&draft.components),
            },
        );
    }
}

/// Delete an entry, if it can be written.
pub fn delete_entry(selected: &CatalogReference, read_only: bool, output: &mut UiFrameOutput)
    ensures
        *final(output) == if read_only {
            *old(output)
        } else {
            UiFrameOutput {
                catalog_action: Some(CatalogAction::DeleteEntry { entry: *selected }),
                ..*old(output)
            }
        },
{
    if !read_only {
        output.catalog_action = Some(CatalogAction::DeleteEntry { entry: selected.copied() });
    }
}

/// Remove a row of labels or annotations, and add an empty one behind the others.
pub fn map_editor(rows: &mut Vec<MapRow>, remove: Option<usize>, add: bool)
    ensures
        ({
            let kept = match remove {
                Some(i) if i < old(rows)@.len() => old(rows)@.remove(i as int),
                _ => old(rows)@,
            };
            if add {
                &&& final(rows)@.len() == kept.len() + 1
                &&& final(rows)@.drop_last() == kept
                &&& final(rows)@.last().key@ == ""@
                &&& final(rows)@.last().value@ == ""@
            } else {
                final(rows)@ == kept
            }
        }),
{
    if let Some(i) = remove {
        if i < rows.len() {
            let _ = rows.remove(i);
        }
    }
    let ghost kept = rows@;
    if add {
        rows.push(MapRow { key: "".to_owned(), value: "".to_owned() });
        assert(rows@.drop_last() =~= kept);
    }
}

/// The kind of shape a template gives.
#[derive(Clone, Copy, Debug, PartialEq, Eq, Structural)]
pub enum TemplateKind {
    Shapeless,
    Point,
    Sphere,
    Box,
}

impl TemplateKind {
    /// The kinds in the order they are offered.
    pub fn all() -> (kinds: [TemplateKind; 4])
        ensures
            kinds@ == seq![
                TemplateKind::Shapeless,
                TemplateKind::Point,
                TemplateKind::Sphere,
                TemplateKind::Box,
            ],
    {
        [TemplateKind::Shapeless, TemplateKind::Point, TemplateKind::Sphere, TemplateKind::Box]
    }

    pub fn label(self) -> (s: &'static str)
        ensures
            self is Shapeless ==> s@ == "None"@,
            self is Point ==> s@ == "Point"@,
            self is Sphere ==> s@ == "Sphere"@,
            self is Box ==> s@ == "Box"@,
    {
        match self {
            TemplateKind::Shapeless => "None",
            TemplateKind::Point => "Point",
            TemplateKind::Sphere => "Sphere",
            TemplateKind::Box => "Box",
        }
    }

    pub open spec fn kind_of(shape: Option<ObjectShape>) -> Self {
        match shape {
            None => TemplateKind::Shapeless,
            Some(ObjectShape::Point { .. }) => TemplateKind::Point,
            Some(ObjectShape::Sphere { .. }) => TemplateKind::Sphere,
            Some(ObjectShape::Box { .. }) => TemplateKind::Box,
        }
    }

    pub fn of(shape: Option<ObjectShape>) -> (kind: Self)
        ensures
            kind == Self::kind_of(shape),
    {
        match shape {
            None => TemplateKind::Shapeless,
            Some(ObjectShape::Point { .. }) => TemplateKind::Point,
            Some(ObjectShape::Sphere { .. }) => TemplateKind::Sphere,
            Some(ObjectShape::Box { .. }) => TemplateKind::Box,
        }
    }

    /// The shape a kind starts from.
    pub open spec fn start(self) -> Option<ObjectShape> {
        match self {
            TemplateKind::Shapeless => None,
            TemplateKind::Point => Some(ObjectShape::Point { radius: template_extent() }),
            TemplateKind::Sphere => Some(ObjectShape::Sphere { radius: template_extent() }),
            TemplateKind::Box => Some(
                ObjectShape::Box {
                    half_extent: Vec3 {
                        x: template_extent(),
                        y: template_extent(),
                        z: template_extent(),
                    },
                },
            ),
        }
    }
}

/// The extent a template's shape starts from: 0.1.
#[verifier::allow_in_spec]
pub fn template_extent() -> Number
    returns
        (Number { bits: 0x3fb9_9999_9999_999a }),
{
    Number { bits: 0x3fb9_9999_9999_999a }
}

/// Choose the kind of shape a template gives. The kind it has keeps its extents;
/// another one starts over.
pub fn choose_template_kind(draft: &mut CatalogEditorDraft, kind: TemplateKind)
    ensures
        *final(draft) == if kind == TemplateKind::kind_of(old(draft).shape) {
            *old(draft)
        } else {
            CatalogEditorDraft { shape: kind.start(), ..*old(draft) }
        },
{
    if kind != TemplateKind::of(draft.shape) {
        draft.shape = match kind {
            TemplateKind::Shapeless => None,
            TemplateKind::Point => Some(ObjectShape::Point { radius: template_extent() }),
            TemplateKind::Sphere => Some(ObjectShape::Sphere { radius: template_extent() }),
            TemplateKind::Box => Some(
                ObjectShape::Box { half_extent: Vec3::splat(template_extent()) },
            ),
        };
    }
}

/// The kinds of component a template does not have yet, by their positions.
pub fn available_components(draft: &CatalogEditorDraft, schemas: &Vec<ComponentSchema>) -> (positions: Vec<
    usize,
>)
    ensures
        positions@ == crate::object_inspector::missing(schemas@, draft.components@, schemas@.len()),
        forall|k: int|
            0 <= k < positions.len() ==> (#[trigger] positions[k]) < schemas.len()
                && !crate::world::attached(draft.components@, schemas[positions[k] as int].id@),
{
    crate::object_inspector::missing_components(schemas, &draft.components)
}

/// Give a template a component, or take one away by its position.
pub fn component_editor(
    components: &mut Vec<Component>,
    added: Option<Component>,
    remove: Option<usize>,
)
    ensures
        ({
            let more = match added {
                Some(component) => old(components)@.push(component),
                None => old(components)@,
            };
            final(components)@ == match remove {
                Some(i) if i < more.len() => more.remove(i as int),
                _ => more,
            }
        }),
{
    if let Some(component) = added {
        components.push(component);
    }
    if let Some(i) = remove {
        if i < components.len() {
            let _ = components.remove(i);
        }
    }
}

/// An entry can be created exactly where both of its names hold more than blanks.
pub proof fn a_new_entry_needs_two_names(model: UiModel)
    ensures
        ready_to_create(model) <==> crate::text::trimmed(model.catalog_new_catalog@).len() > 0
            && crate::text::trimmed(model.catalog_new_template@).len() > 0,
{
}

/// A draft is of an entry exactly where it was made from that very entry.
pub proof fn a_draft_is_of_its_own_entry(model: UiModel, reference: CatalogReference)
    ensures
        model.catalog_editor is None ==> !drafted(model, reference),
        model.catalog_editor matches Some(draft) ==> (drafted(model, reference) <==> draft.source@
            == reference@),
{
}

/// A kind that is chosen starts with a shape of that kind, a tenth across.
pub proof fn a_chosen_kind_starts_with_its_shape(kind: TemplateKind)
    ensures
        TemplateKind::kind_of(kind.start()) == kind,
        kind.start() matches Some(ObjectShape::Point { radius }) ==> radius == template_extent(),
        kind.start() matches Some(ObjectShape::Sphere { radius }) ==> radius == template_extent(),
        kind.start() matches Some(ObjectShape::Box { half_extent }) ==> half_extent.x
            == template_extent() && half_extent.y == template_extent() && half_extent.z
            == template_extent(),
{
}

/// What is saved is the entry that was selected, as its draft says it.
pub proof fn an_entry_is_saved_as_drafted(
    action: CatalogAction,
    selected: CatalogReference,
    draft: CatalogEditorDraft,
)
    requires
        saves(action, selected, draft),
    ensures
        action matches CatalogAction::SaveEntry {
            entry,
            catalog,
            template,
            description,
            author,
            labels,
            annotations,
            object_kind,
            shape,
            components,
        } && entry == selected && catalog == draft.catalog && template == draft.template && description
            == draft.description && author == draft.author && labels@ == draft.labels@ && annotations@
            == draft.annotations@ && object_kind == draft.object_kind && shape == draft.shape
            && components@.len() == draft.components@.len() && (forall|i: int|
            0 <= i < components@.len() ==> (#[trigger] components@[i]).id == draft.components@[i].id
                && components@[i].properties.listed() == draft.components@[i].properties.listed()),
{
    assert forall|c: Seq<Component>| crate::catalog::same_components(c, draft.components@) implies forall|
        i: int,
    |
        0 <= i < c.len() ==> (#[trigger] c[i]).id == draft.components@[i].id && c[i].properties.listed()
            == draft.components@[i].properties.listed() by {
        assert forall|i: int| 0 <= i < c.len() implies (#[trigger] c[i]).id == draft.components@[i].id
            && c[i].properties.listed() == draft.components@[i].properties.listed() by {
            assert(crate::catalog::same_component(c[i], draft.components@[i]));
        }
    }
}

} // verus!
