//! The catalog window: which entries are shown, what a draft of one says, and
//! what is wrong with it.

use crate::measured::Number;
use crate::ordered::{Copied, MapKey};
use crate::text::{
    concat2, concat3, concat4, contains_part, is_blank, join, lowered, same_text, trim,
};
use crate::world::{CatalogReference, Component, ObjectShape};
use vstd::prelude::*;
use vstd::string::*;

verus! {

/// What became of loading an entry.
#[derive(Debug, PartialEq, Eq)]
pub enum LoadResult {
    Available { description: Option<String> },
    Unavailable { reasons: Vec<String> },
    Invalid { diagnostics: Vec<String> },
}

/// The name of a template across all catalogs.
#[derive(Debug, PartialEq, Eq)]
pub struct TemplateIdentity {
    pub catalog: String,
    pub template: String,
}

/// An entry of the effective catalog.
#[derive(Debug, PartialEq, Eq)]
pub struct CatalogEntry {
    pub reference: Option<CatalogReference>,
    pub identity: Option<TemplateIdentity>,
    /// The file it was read from, as it is shown.
    pub file: String,
    pub document_ordinal: usize,
    pub result: LoadResult,
}

/// How an entry appears in the list.
#[derive(Debug, PartialEq, Eq)]
pub enum CatalogRow {
    /// A file that could not be read as an entry.
    Unreadable(String),
    Entry {
        label: String,
        state: &'static str,
        /// Whether an object can be made from it.
        available: bool,
        source: String,
        detail: String,
    },
}

/// Whether an entry is found by a search text, upper and lower case alike.
pub open spec fn found_by(entry: CatalogEntry, search: Seq<char>) -> bool {
    let query = crate::text::ascii_lowered(search);
    match entry.reference {
        None => search.len() == 0,
        Some(reference) => {
            ||| search.len() == 0
            ||| crate::text::occurs_in(crate::text::ascii_lowered(reference.template@), query)
            ||| crate::text::occurs_in(crate::text::ascii_lowered(reference.catalog@), query)
            ||| crate::text::occurs_in(crate::text::ascii_lowered(entry.file@), query)
        },
    }
}

/// The state of an entry in a word.
pub open spec fn state_word(result: LoadResult) -> Seq<char> {
    match result {
        LoadResult::Available { .. } => "available"@,
        LoadResult::Unavailable { .. } => "unavailable"@,
        LoadResult::Invalid { .. } => "invalid"@,
    }
}

/// What there is to say about an entry.
pub open spec fn detail_words(result: LoadResult) -> Seq<char> {
    match result {
        LoadResult::Available { description } => match description {
            Some(text) => text@,
            None => Seq::empty(),
        },
        LoadResult::Unavailable { reasons } => crate::text::joined(
            crate::text::texts(reasons@),
            "; "@,
        ),
        LoadResult::Invalid { diagnostics } => crate::text::joined(
            crate::text::texts(diagnostics@),
            "; "@,
        ),
    }
}

/// The row of an entry, or none if the search text does not find it.
pub fn catalog_row(entry: &CatalogEntry, search: &str) -> (row: Option<CatalogRow>)
    ensures
        row is Some <==> found_by(*entry, search@),
        row matches Some(CatalogRow::Unreadable(text)) ==> entry.reference is None && text@
            == entry.file@ + " — invalid"@,
        row matches Some(CatalogRow::Entry { label, state, available, source, detail }) ==> {
            &&& entry.reference matches Some(reference) && label@ == reference.catalog@ + "/"@
                + reference.template@
            &&& state@ == state_word(entry.result)
            &&& available == (entry.result is Available)
            &&& source@ == entry.file@ + " (document #"@ + crate::text::decimal(
                entry.document_ordinal as nat,
            ) + ")"@
            &&& detail@ == detail_words(entry.result)
        },
{
    match &entry.reference {
        None => {
            if search.is_empty() {
                Some(CatalogRow::Unreadable(concat2(entry.file.as_str(), " — invalid")))
            } else {
                None
            }
        },
        Some(reference) => {
            let query = lowered(search);
            let found: bool = search.is_empty() || contains_part(
                &lowered(reference.template.as_str()),
                &query,
            ) || contains_part(&lowered(reference.catalog.as_str()), &query) || contains_part(
                &lowered(entry.file.as_str()),
                &query,
            );
            if !found {
                return None;
            }
            let (state, available, detail): (&'static str, bool, String) = match &entry.result {
                LoadResult::Available { description } => (
                    "available",
                    true,
                    match description {
                        Some(text) => text.clone(),
                        None => String::new(),
                    },
                ),
                LoadResult::Unavailable { reasons } => ("unavailable", false, join(reasons, "; ")),
                LoadResult::Invalid { diagnostics } => ("invalid", false, join(diagnostics, "; ")),
            };
            let mut source = concat2(entry.file.as_str(), " (document #");
            crate::text::push_decimal(&mut source, entry.document_ordinal as u128);
            source.append(")");
            Some(
                CatalogRow::Entry {
                    label: concat3(reference.catalog.as_str(), "/", reference.template.as_str()),
                    state,
                    available,
                    source,
                    detail,
                },
            )
        },
    }
}

/// The first entry of the catalog that a reference names, from position `n`.
pub open spec fn entry_from(
    entries: Seq<CatalogEntry>,
    reference: CatalogReference,
    n: nat,
) -> Option<nat>
    decreases entries.len() - n,
{
    if n >= entries.len() {
        None
    } else if entries[n as int].reference matches Some(candidate) && candidate@ == reference@ {
        Some(n)
    } else {
        entry_from(entries, reference, n + 1)
    }
}

/// Whether a new entry can be created: both of its names are given.
pub fn create_ready(catalog: &str, template: &str) -> (b: bool)
    ensures
        b == (!crate::text::blank(catalog@) && !crate::text::blank(template@)),
{
    !is_blank(catalog) && !is_blank(template)
}

/// A component of a template.
pub type TemplateComponent = Component;

/// Whether two components are of one kind and hold the same values.
pub open spec fn same_component(a: Component, b: Component) -> bool {
    a.id == b.id && a.properties.listed() == b.properties.listed()
}

/// Whether two lists hold the same components.
pub open spec fn same_components(a: Seq<Component>, b: Seq<Component>) -> bool {
    a.len() == b.len() && forall|i: int| 0 <= i < a.len() ==> same_component(#[trigger] a[i], b[i])
}

/// A copy of a list of components.
pub fn copy_components(list: &Vec<Component>) -> (copy: Vec<Component>)
    ensures
        same_components(copy@, list@),
{
    let mut copy: Vec<Component> = Vec::new();
    let mut i: usize = 0;
    while i < list.len()
        invariant
            i <= list.len(),
            copy.len() == i,
            forall|k: int| 0 <= k < i ==> same_component(#[trigger] copy[k], list[k]),
        decreases list.len() - i,
    {
        copy.push(
            Component { id: list[i].id.clone(), properties: list[i].properties.duplicate() },
        );
        i = i + 1;
    }
    copy
}

/// A label or an annotation.
#[derive(Debug, PartialEq, Eq)]
pub struct MapRow {
    pub key: String,
    pub value: String,
}

impl Copied for MapRow {
    fn copied(&self) -> (copy: Self) {
        MapRow { key: self.key.clone(), value: self.value.clone() }
    }
}

/// An entry being edited.
#[derive(Debug, PartialEq, Eq)]
pub struct CatalogEditorDraft {
    pub source: CatalogReference,
    pub catalog: String,
    pub template: String,
    pub description: String,
    pub author: String,
    pub labels: Vec<MapRow>,
    pub annotations: Vec<MapRow>,
    pub object_kind: String,
    pub shape: Option<ObjectShape>,
    pub components: Vec<TemplateComponent>,
}

/// The name of a template across all catalogs, as it is written.
pub open spec fn identity_words(catalog: Seq<char>, template: Seq<char>) -> Seq<char> {
    catalog + "/"@ + template
}

/// Whether another entry than the edited one already has the drafted name.
pub open spec fn name_taken(draft: CatalogEditorDraft, entries: Seq<CatalogEntry>) -> bool {
    exists|i: int|
        0 <= i < entries.len() && name_taken_by(draft, #[trigger] entries[i])
}

/// Whether an entry has the drafted name and is not the edited one.
pub open spec fn name_taken_by(draft: CatalogEditorDraft, entry: CatalogEntry) -> bool {
    &&& entry.identity matches Some(identity) && identity.catalog@ == crate::text::trimmed(
        draft.catalog@,
    ) && identity.template@ == crate::text::trimmed(draft.template@)
    &&& !(entry.reference matches Some(reference) && reference@ == draft.source@)
}

/// What the two names of a draft are refused for, if anything; whether a name is
/// well formed is for the catalog to say.
pub open spec fn name_problems(
    draft: CatalogEditorDraft,
    catalog_error: Option<String>,
    template_error: Option<String>,
    entries: Seq<CatalogEntry>,
) -> Seq<Seq<char>> {
    (match catalog_error {
        Some(error) => seq!["Catalog: "@ + error@],
        None => Seq::empty(),
    }) + (match template_error {
        Some(error) => seq!["Template name: "@ + error@],
        None => Seq::empty(),
    }) + (if catalog_error is None && template_error is None && name_taken(draft, entries) {
        seq![
            identity_words(crate::text::trimmed(draft.catalog@), crate::text::trimmed(draft.template@))
                + " already exists in the effective catalog"@,
        ]
    } else {
        Seq::empty()
    })
}

/// Whether an earlier row has the same key, blanks around it aside.
pub open spec fn repeats_key(rows: Seq<MapRow>, i: int) -> bool {
    exists|j: int|
        0 <= j < i && crate::text::trimmed((#[trigger] rows[j]).key@) == crate::text::trimmed(
            rows[i].key@,
        )
}

/// What is wrong with the keys of the first `n` rows.
pub open spec fn key_problems(kind: Seq<char>, rows: Seq<MapRow>, n: nat) -> Seq<Seq<char>>
    decreases n,
{
    if n == 0 {
        Seq::empty()
    } else {
        let before = key_problems(kind, rows, (n - 1) as nat);
        if crate::text::blank(rows[n - 1].key@) {
            before.push(kind + " keys cannot be blank"@)
        } else if repeats_key(rows, n - 1) {
            before.push("duplicate "@ + kind + " key '"@ + rows[n - 1].key@ + "'"@)
        } else {
            before
        }
    }
}

/// Whether every extent of a shape is finite and positive.
pub open spec fn proper_shape(shape: ObjectShape) -> bool {
    match shape {
        ObjectShape::Point { radius } => proper_extent(radius),
        ObjectShape::Sphere { radius } => proper_extent(radius),
        ObjectShape::Box { half_extent } => proper_extent(half_extent.x) && proper_extent(
            half_extent.y,
        ) && proper_extent(half_extent.z),
    }
}

/// Whether an extent is finite and positive.
pub open spec fn proper_extent(value: Number) -> bool {
    value.is_finite() && crate::measured::zero().value_less(value)
}

/// Whether an earlier component is of the same kind.
pub open spec fn repeats_component(components: Seq<Component>, i: int) -> bool {
    exists|j: int| 0 <= j < i && (#[trigger] components[j]).id@ == components[i].id@
}

/// What the catalog has to say about one component, each line in its name.
pub open spec fn component_lines(written: Seq<char>, errors: Seq<String>, n: nat) -> Seq<Seq<char>>
    decreases n,
{
    if n == 0 {
        Seq::empty()
    } else {
        component_lines(written, errors, (n - 1) as nat).push(written + ": "@ + errors[n - 1]@)
    }
}

/// What is wrong with the first `n` components: one of a kind twice, and what
/// the catalog has to say about each.
pub open spec fn component_problems(
    components: Seq<Component>,
    errors: Seq<Vec<String>>,
    n: nat,
) -> Seq<Seq<char>>
    decreases n,
{
    if n == 0 {
        Seq::empty()
    } else {
        let component = components[n - 1];
        component_problems(components, errors, (n - 1) as nat) + (if repeats_component(
            components,
            n - 1,
        ) {
            seq!["Duplicate component "@ + component.id.written@]
        } else {
            Seq::empty()
        }) + component_lines(component.id.written@, errors[n - 1]@, errors[n - 1]@.len())
    }
}

/// Everything that is wrong with a draft, in the order it is shown.
pub open spec fn draft_problems(
    draft: CatalogEditorDraft,
    entries: Seq<CatalogEntry>,
    catalog_error: Option<String>,
    template_error: Option<String>,
    component_errors: Seq<Vec<String>>,
) -> Seq<Seq<char>> {
    name_problems(draft, catalog_error, template_error, entries) + key_problems(
        "label"@,
        draft.labels@,
        draft.labels@.len(),
    ) + key_problems("annotation"@, draft.annotations@, draft.annotations@.len()) + (if crate::text::blank(
        draft.object_kind@,
    ) {
        seq!["Object kind cannot be blank"@]
    } else {
        Seq::empty()
    }) + (match draft.shape {
        Some(shape) if !proper_shape(shape) => seq!["Shape extents must be finite and positive"@],
        _ => Seq::empty(),
    }) + component_problems(draft.components@, component_errors, draft.components@.len())
}

fn add_line(lines: &mut Vec<String>, line: String)
    ensures
        final(lines)@ == old(lines)@.push(line),
        crate::text::texts(final(lines)@) == crate::text::texts(old(lines)@).push(line@),
{
    let ghost before = lines@;
    lines.push(line);
    assert(crate::text::texts(lines@) =~= crate::text::texts(before).push(line@));
}

fn is_name_taken(draft: &CatalogEditorDraft, entries: &Vec<CatalogEntry>) -> (b: bool)
    ensures
        b == name_taken(*draft, entries@),
{
    let catalog = trim(draft.catalog.as_str());
    let template = trim(draft.template.as_str());
    let mut i: usize = 0;
    while i < entries.len()
        invariant
            catalog@ == crate::text::trimmed(draft.catalog@),
            template@ == crate::text::trimmed(draft.template@),
            i <= entries.len(),
            forall|k: int| 0 <= k < i ==> !name_taken_by(*draft, #[trigger] entries[k]),
        decreases entries.len() - i,
    {
        let same_name: bool = match &entries[i].identity {
            Some(identity) => same_text(identity.catalog.as_str(), catalog) && same_text(
                identity.template.as_str(),
                template,
            ),
            None => false,
        };
        let edited: bool = match &entries[i].reference {
            Some(reference) => reference.same(&draft.source),
            None => false,
        };
        if same_name && !edited {
            assert(name_taken_by(*draft, entries[i as int]));
            return true;
        }
        i = i + 1;
    }
    false
}

fn check_keys(lines: &mut Vec<String>, kind: &str, rows: &Vec<MapRow>)
    ensures
        crate::text::texts(final(lines)@) == crate::text::texts(old(lines)@) + key_problems(
            kind@,
            rows@,
            rows@.len(),
        ),
{
    let ghost before = crate::text::texts(lines@);
    let mut i: usize = 0;
    assert(before + key_problems(kind@, rows@, 0) =~= before);
    while i < rows.len()
        invariant
            i <= rows.len(),
            crate::text::texts(lines@) == before + key_problems(kind@, rows@, i as nat),
        decreases rows.len() - i,
    {
        let key = trim(rows[i].key.as_str());
        let ghost so_far = crate::text::texts(lines@);
        if key.is_empty() {
            add_line(lines, concat2(kind, " keys cannot be blank"));
        } else {
            let mut repeated: bool = false;
            let mut j: usize = 0;
            while j < i
                invariant
                    i < rows.len(),
                    j <= i,
                    key@ == crate::text::trimmed(rows[i as int].key@),
                    repeated == exists|k: int|
                        0 <= k < j && crate::text::trimmed((#[trigger] rows[k]).key@) == key@,
                decreases i - j,
            {
                if same_text(trim(rows[j].key.as_str()), key) {
                    repeated = true;
                }
                j = j + 1;
            }
            if repeated {
                let mut line = concat4("duplicate ", kind, " key '", rows[i].key.as_str());
                line.append("'");
                add_line(lines, line);
            }
        }
        i = i + 1;
        assert(crate::text::texts(lines@) =~= before + key_problems(kind@, rows@, i as nat));
    }
}

fn is_proper_shape(shape: &ObjectShape) -> (b: bool)
    ensures
        b == proper_shape(*shape),
{
    match shape {
        ObjectShape::Point { radius } => radius.positive(),
        ObjectShape::Sphere { radius } => radius.positive(),
        ObjectShape::Box { half_extent } => half_extent.x.positive() && half_extent.y.positive()
            && half_extent.z.positive(),
    }
}

fn check_components(lines: &mut Vec<String>, components: &Vec<Component>, errors: &Vec<Vec<String>>)
    requires
        errors.len() == components.len(),
    ensures
        crate::text::texts(final(lines)@) == crate::text::texts(old(lines)@) + component_problems(
            components@,
            errors@,
            components@.len(),
        ),
{
    let ghost before = crate::text::texts(lines@);
    let mut i: usize = 0;
    assert(before + component_problems(components@, errors@, 0) =~= before);
    while i < components.len()
        invariant
            errors.len() == components.len(),
            i <= components.len(),
            crate::text::texts(lines@) == before + component_problems(components@, errors@, i as nat),
        decreases components.len() - i,
    {
        let ghost so_far = crate::text::texts(lines@);
        let component = &components[i];
        let mut repeated: bool = false;
        let mut j: usize = 0;
        while j < i
            invariant
                i < components.len(),
                j <= i,
                *component == components[i as int],
                repeated == exists|k: int| 0 <= k < j && (#[trigger] components[k]).id@ == component.id@,
            decreases i - j,
        {
            if components[j].id.same(&component.id) {
                repeated = true;
            }
            j = j + 1;
        }
        if repeated {
            add_line(lines, concat2("Duplicate component ", component.id.written.as_str()));
        }
        let ghost named = crate::text::texts(lines@);
        let own = &errors[i];
        let mut k: usize = 0;
        assert(named + component_lines(component.id.written@, own@, 0) =~= named);
        while k < own.len()
            invariant
                k <= own.len(),
                crate::text::texts(lines@) == named + component_lines(
                    component.id.written@,
                    own@,
                    k as nat,
                ),
            decreases own.len() - k,
        {
            add_line(lines, concat3(component.id.written.as_str(), ": ", own[k].as_str()));
            k = k + 1;
            assert(crate::text::texts(lines@) =~= named + component_lines(
                component.id.written@,
                own@,
                k as nat,
            ));
        }
        i = i + 1;
        assert(crate::text::texts(lines@) =~= before + component_problems(
            components@,
            errors@,
            i as nat,
        ));
    }
}

/// Everything that is wrong with a draft. Whether its two names are well formed,
/// and what its components are refused for, the catalog says.
pub fn draft_errors(
    draft: &CatalogEditorDraft,
    entries: &Vec<CatalogEntry>,
    catalog_error: &Option<String>,
    template_error: &Option<String>,
    component_errors: &Vec<Vec<String>>,
) -> (errors: Vec<String>)
    requires
        component_errors.len() == draft.components.len(),
    ensures
        crate::text::texts(errors@) == draft_problems(
            *draft,
            entries@,
            *catalog_error,
            *template_error,
            component_errors@,
        ),
{
    let mut errors: Vec<String> = Vec::new();
    let ghost empty = crate::text::texts(errors@);
    match catalog_error {
        Some(error) => add_line(&mut errors, concat2("Catalog: ", error.as_str())),
        None => {},
    }
    match template_error {
        Some(error) => add_line(&mut errors, concat2("Template name: ", error.as_str())),
        None => {},
    }
    if catalog_error.is_none() && template_error.is_none() && is_name_taken(draft, entries) {
        add_line(
            &mut errors,
            concat4(
                trim(draft.catalog.as_str()),
                "/",
                trim(draft.template.as_str()),
                " already exists in the effective catalog",
            ),
        );
    }
    assert(crate::text::texts(errors@) =~= name_problems(
        *draft,
        *catalog_error,
        *template_error,
        entries@,
    ));
    check_keys(&mut errors, "label", &draft.labels);
    check_keys(&mut errors, "annotation", &draft.annotations);
    let ghost keyed = crate::text::texts(errors@);
    if is_blank(draft.object_kind.as_str()) {
        add_line(&mut errors, "Object kind cannot be blank".to_owned());
    }
    match &draft.shape {
        Some(shape) => {
            if !is_proper_shape(shape) {
                add_line(&mut errors, "Shape extents must be finite and positive".to_owned());
            }
        },
        None => {},
    }
    let ghost shaped = crate::text::texts(errors@);
    assert(shaped =~= keyed + (if crate::text::blank(draft.object_kind@) {
        seq!["Object kind cannot be blank"@]
    } else {
        Seq::empty()
    }) + (match draft.shape {
        Some(shape) if !proper_shape(shape) => seq!["Shape extents must be finite and positive"@],
        _ => Seq::empty(),
    }));
    check_components(&mut errors, &draft.components, component_errors);
    assert(crate::text::texts(errors@) =~= draft_problems(
        *draft,
        entries@,
        *catalog_error,
        *template_error,
        component_errors@,
    ));
    errors
}

proof fn lemma_an_entry_is_found_by_its_reference(entries: Seq<CatalogEntry>, reference: CatalogReference, n: nat, k: int)
    requires
        n <= k < entries.len(),
        (entries[k].reference matches Some(candidate) && candidate@ == reference@),
        forall|j: int| n <= j < k ==> !(((#[trigger] entries[j]).reference matches Some(candidate) && candidate@ == reference@)),
    ensures
        entry_from(entries, reference, n) == Some(k as nat),
    decreases k - n,
{
    if n < k {
        assert(!((entries[n as int].reference matches Some(candidate) && candidate@ == reference@)));
        lemma_an_entry_is_found_by_its_reference(entries, reference, n + 1, k);
    }
}

proof fn lemma_an_entry_is_found_by_its_reference_none(entries: Seq<CatalogEntry>, reference: CatalogReference, n: nat)
    requires
        forall|j: int| n <= j < entries.len() ==> !(((#[trigger] entries[j]).reference matches Some(candidate) && candidate@ == reference@)),
    ensures
        entry_from(entries, reference, n) is None,
    decreases entries.len() - n,
{
    if n < entries.len() {
        assert(!((entries[n as int].reference matches Some(candidate) && candidate@ == reference@)));
        lemma_an_entry_is_found_by_its_reference_none(entries, reference, n + 1);
    }
}

/// The entry found for a reference is the first that has it, and none if none has.
pub proof fn an_entry_is_found_by_its_reference(entries: Seq<CatalogEntry>, reference: CatalogReference)
    ensures
        forall|k: int|
            0 <= k < entries.len() && ((#[trigger] entries[k]).reference matches Some(candidate) && candidate@ == reference@) && (forall|j: int|
                0 <= j < k ==> !(((#[trigger] entries[j]).reference matches Some(candidate) && candidate@ == reference@))) ==> entry_from(entries, reference, 0) == Some(
                k as nat,
            ),
        (forall|j: int| 0 <= j < entries.len() ==> !(((#[trigger] entries[j]).reference matches Some(candidate) && candidate@ == reference@)))
            ==> entry_from(entries, reference, 0) is None,
{
    assert forall|k: int|
        0 <= k < entries.len() && ((#[trigger] entries[k]).reference matches Some(candidate) && candidate@ == reference@) && (forall|j: int|
            0 <= j < k ==> !(((#[trigger] entries[j]).reference matches Some(candidate) && candidate@ == reference@))) implies entry_from(entries, reference, 0) == Some(
        k as nat,
    ) by {
        lemma_an_entry_is_found_by_its_reference(entries, reference, 0, k);
    }
    if forall|j: int| 0 <= j < entries.len() ==> !(((#[trigger] entries[j]).reference matches Some(candidate) && candidate@ == reference@)) {
        lemma_an_entry_is_found_by_its_reference_none(entries, reference, 0);
    }
}

/// An entry is found by every part of its template, catalog or file name, whatever the case of
/// its letters, and by nothing else; without a search everything is listed, and what cannot
/// be read only then.
pub proof fn an_entry_is_found_by_its_names(entry: CatalogEntry, search: Seq<char>)
    ensures
        search.len() == 0 ==> found_by(entry, search),
        search.len() > 0 && entry.reference is None ==> !found_by(entry, search),
        search.len() > 0 ==> (entry.reference matches Some(reference) ==> (found_by(entry, search) <==> (
        exists|at: int|
            crate::text::occurs_at(
                crate::text::ascii_lowered(reference.template@),
                crate::text::ascii_lowered(search),
                at,
            )) || (exists|at: int|
            crate::text::occurs_at(
                crate::text::ascii_lowered(reference.catalog@),
                crate::text::ascii_lowered(search),
                at,
            )) || (exists|at: int|
            crate::text::occurs_at(
                crate::text::ascii_lowered(entry.file@),
                crate::text::ascii_lowered(search),
                at,
            )))),
{
}

/// The state of an entry is named by what became of loading it, and told by its description or
/// by everything that is wrong with it.
pub proof fn an_entry_tells_what_became_of_it(result: LoadResult)
    ensures
        result is Available ==> state_word(result) == "available"@,
        result is Unavailable ==> state_word(result) == "unavailable"@,
        result is Invalid ==> state_word(result) == "invalid"@,
        result matches LoadResult::Available { description: Some(text) } ==> detail_words(result) == text@,
        result matches LoadResult::Available { description: None } ==> detail_words(result).len() == 0,
        result matches LoadResult::Unavailable { reasons } ==> detail_words(result)
            == crate::text::joined(crate::text::texts(reasons@), "; "@),
        result matches LoadResult::Invalid { diagnostics } ==> detail_words(result)
            == crate::text::joined(crate::text::texts(diagnostics@), "; "@),
{
}

/// A name is taken exactly by an entry that has both of its parts, without the blanks around
/// them, and that is not the one being edited.
pub proof fn a_name_is_taken_by_another_entry(draft: CatalogEditorDraft, entries: Seq<CatalogEntry>)
    ensures
        name_taken(draft, entries) <==> exists|i: int|
            0 <= i < entries.len() && (#[trigger] entries[i]).identity is Some && (
            entries[i].identity->0).catalog@ == crate::text::trimmed(draft.catalog@) && (
            entries[i].identity->0).template@ == crate::text::trimmed(draft.template@) && !(
            entries[i].reference is Some && (entries[i].reference->0)@ == draft.source@),
{
    if name_taken(draft, entries) {
        let i = choose|i: int| 0 <= i < entries.len() && name_taken_by(draft, #[trigger] entries[i]);
        assert(entries[i].identity is Some);
    }
    if exists|i: int|
        0 <= i < entries.len() && (#[trigger] entries[i]).identity is Some && (
        entries[i].identity->0).catalog@ == crate::text::trimmed(draft.catalog@) && (
        entries[i].identity->0).template@ == crate::text::trimmed(draft.template@) && !(
        entries[i].reference is Some && (entries[i].reference->0)@ == draft.source@) {
        let i = choose|i: int|
            0 <= i < entries.len() && (#[trigger] entries[i]).identity is Some && (
            entries[i].identity->0).catalog@ == crate::text::trimmed(draft.catalog@) && (
            entries[i].identity->0).template@ == crate::text::trimmed(draft.template@) && !(
            entries[i].reference is Some && (entries[i].reference->0)@ == draft.source@);
        assert(name_taken_by(draft, entries[i]));
    }
}

proof fn lemma_every_bad_key_is_complained_of(kind: Seq<char>, rows: Seq<MapRow>, n: nat) -> (at: Seq<int>)
    requires
        n <= rows.len(),
    ensures
        at.len() == key_problems(kind, rows, n).len(),
        forall|a: int, b: int| 0 <= a < b < at.len() ==> #[trigger] at[a] < #[trigger] at[b],
        forall|k: int|
            0 <= k < at.len() ==> {
                &&& 0 <= #[trigger] at[k] < n
                &&& (crate::text::blank(rows[at[k]].key@) || repeats_key(rows, at[k]))
                &&& key_problems(kind, rows, n)[k] == (if crate::text::blank(rows[at[k]].key@) { kind + " keys cannot be blank"@ } else { "duplicate "@ + kind + " key '"@ + rows[at[k]].key@ + "'"@ })
            },
        forall|i: int| 0 <= i < n && (crate::text::blank((#[trigger] rows[i]).key@) || repeats_key(rows, i)) ==> at.contains(i),
    decreases n,
{
    if n == 0 {
        Seq::empty()
    } else {
        let before = lemma_every_bad_key_is_complained_of(kind, rows, (n - 1) as nat);
        if (crate::text::blank(rows[n - 1].key@) || repeats_key(rows, (n - 1))) {
            let at = before.push(n - 1);
            assert forall|i: int| 0 <= i < n && (crate::text::blank((#[trigger] rows[i]).key@) || repeats_key(rows, i)) implies at.contains(i) by {
                if i < n - 1 {
                    let k = choose|k: int| 0 <= k < before.len() && before[k] == i;
                    assert(at[k] == i);
                } else {
                    assert(at[before.len() as int] == i);
                }
            }
            at
        } else {
            before
        }
    }
}

/// A key is complained of exactly where it is blank or an earlier row has it, in the order of
/// the rows: a blank one as blank, and another one by its name.
pub proof fn every_bad_key_is_complained_of(kind: Seq<char>, rows: Seq<MapRow>) -> (at: Seq<int>)
    ensures
        at.len() == key_problems(kind, rows, rows.len()).len(),
        forall|a: int, b: int| 0 <= a < b < at.len() ==> #[trigger] at[a] < #[trigger] at[b],
        forall|k: int|
            0 <= k < at.len() ==> {
                &&& 0 <= #[trigger] at[k] < rows.len()
                &&& (crate::text::blank(rows[at[k]].key@) || repeats_key(rows, at[k]))
                &&& key_problems(kind, rows, rows.len())[k] == (if crate::text::blank(rows[at[k]].key@) { kind + " keys cannot be blank"@ } else { "duplicate "@ + kind + " key '"@ + rows[at[k]].key@ + "'"@ })
            },
        forall|i: int| 0 <= i < rows.len() && (crate::text::blank((#[trigger] rows[i]).key@) || repeats_key(rows, i)) ==> at.contains(i),
{
    lemma_every_bad_key_is_complained_of(kind, rows, rows.len())
}

/// A key repeats exactly where an earlier row has it, blanks around it aside.
pub proof fn a_key_repeats_an_earlier_one(rows: Seq<MapRow>, i: int)
    ensures
        repeats_key(rows, i) <==> exists|j: int|
            0 <= j < i && crate::text::trimmed((#[trigger] rows[j]).key@) == crate::text::trimmed(
                rows[i].key@,
            ),
{
}

/// A shape is proper exactly where each of its extents is finite and greater than zero.
pub proof fn a_proper_shape_has_extents(radius: Number, half_extent: crate::measured::Vec3)
    ensures
        proper_extent(radius) <==> radius.is_finite() && crate::measured::zero().value_less(radius),
        proper_shape(ObjectShape::Point { radius }) <==> proper_extent(radius),
        proper_shape(ObjectShape::Sphere { radius }) <==> proper_extent(radius),
        proper_shape(ObjectShape::Box { half_extent }) <==> proper_extent(half_extent.x) && proper_extent(
            half_extent.y,
        ) && proper_extent(half_extent.z),
{
}

proof fn lemma_component_lines(written: Seq<char>, errors: Seq<String>, n: nat)
    requires
        n <= errors.len(),
    ensures
        component_lines(written, errors, n).len() == n,
        forall|k: int|
            0 <= k < n ==> #[trigger] component_lines(written, errors, n)[k] == written + ": "@
                + errors[k]@,
    decreases n,
{
    if n > 0 {
        lemma_component_lines(written, errors, (n - 1) as nat);
    }
}

/// Whatever the catalog has to say of a component is said, line by line, in its name.
pub proof fn every_component_error_is_said(written: Seq<char>, errors: Seq<String>)
    ensures
        component_lines(written, errors, errors.len()).len() == errors.len(),
        forall|k: int|
            0 <= k < errors.len() ==> #[trigger] component_lines(written, errors, errors.len())[k]
                == written + ": "@ + errors[k]@,
{
    lemma_component_lines(written, errors, errors.len());
}

spec fn complained_of(components: Seq<Component>, errors: Seq<Vec<String>>, i: int) -> bool {
    repeats_component(components, i) || errors[i]@.len() > 0
}

proof fn lemma_components_are_fine(components: Seq<Component>, errors: Seq<Vec<String>>, n: nat)
    requires
        n <= components.len(),
        errors.len() == components.len(),
    ensures
        component_problems(components, errors, n).len() == 0 <==> forall|i: int|
            0 <= i < n ==> !#[trigger] complained_of(components, errors, i),
    decreases n,
{
    if n > 0 {
        let m = (n - 1) as nat;
        lemma_components_are_fine(components, errors, m);
        lemma_component_lines(components[m as int].id.written@, errors[m as int]@, errors[m as int]@.len());
        let all = component_problems(components, errors, n);
        assert(all.len() == 0 <==> component_problems(components, errors, m).len() == 0
            && !complained_of(components, errors, m as int));
        if all.len() == 0 {
            assert forall|i: int| 0 <= i < n implies !#[trigger] complained_of(components, errors, i) by {
                assert(i < m || i == m);
            }
        }
    }
}

/// A kind of component repeats exactly where an earlier component is of it.
pub proof fn a_component_repeats_an_earlier_one(components: Seq<Component>, i: int)
    ensures
        repeats_component(components, i) <==> exists|j: int|
            0 <= j < i && (#[trigger] components[j]).id@ == components[i].id@,
{
}

/// The two names of a draft are refused exactly for being malformed or, where both are well
/// formed, for being taken; what is wrong with the catalog comes first.
pub proof fn names_are_refused_for_a_reason(
    draft: CatalogEditorDraft,
    catalog_error: Option<String>,
    template_error: Option<String>,
    entries: Seq<CatalogEntry>,
)
    ensures
        catalog_error matches Some(error) ==> name_problems(
            draft,
            catalog_error,
            template_error,
            entries,
        )[0] == "Catalog: "@ + error@,
        template_error matches Some(error) ==> name_problems(
            draft,
            catalog_error,
            template_error,
            entries,
        ).last() == "Template name: "@ + error@,
        catalog_error is None && template_error is None && name_taken(draft, entries) ==> name_problems(
            draft,
            catalog_error,
            template_error,
            entries,
        ) == seq![
            crate::text::trimmed(draft.catalog@) + "/"@ + crate::text::trimmed(draft.template@)
                + " already exists in the effective catalog"@,
        ],
        name_problems(draft, catalog_error, template_error, entries).len() == 0 <==> catalog_error is None
            && template_error is None && !name_taken(draft, entries),
{
    if catalog_error is None && template_error is None && name_taken(draft, entries) {
        assert(name_problems(draft, catalog_error, template_error, entries) =~= seq![
            crate::text::trimmed(draft.catalog@) + "/"@ + crate::text::trimmed(draft.template@)
                + " already exists in the effective catalog"@,
        ]);
    }
}

/// A draft can be saved exactly where both names are well formed and free, no key is blank or
/// repeated, it names what kind of object it makes, its shape is proper, and each kind of
/// component stands once and is not complained of.
pub proof fn a_draft_is_fine_in_every_part(
    draft: CatalogEditorDraft,
    entries: Seq<CatalogEntry>,
    catalog_error: Option<String>,
    template_error: Option<String>,
    component_errors: Seq<Vec<String>>,
)
    requires
        component_errors.len() == draft.components@.len(),
    ensures
        draft_problems(draft, entries, catalog_error, template_error, component_errors).len() == 0 <==> {
            &&& catalog_error is None && template_error is None && !name_taken(draft, entries)
            &&& forall|i: int|
                0 <= i < draft.labels@.len() ==> !crate::text::blank((#[trigger] draft.labels@[i]).key@)
                    && !repeats_key(draft.labels@, i)
            &&& forall|i: int|
                0 <= i < draft.annotations@.len() ==> !crate::text::blank(
                    (#[trigger] draft.annotations@[i]).key@,
                ) && !repeats_key(draft.annotations@, i)
            &&& !crate::text::blank(draft.object_kind@)
            &&& draft.shape is Some ==> proper_shape(draft.shape->0)
            &&& forall|i: int|
                0 <= i < draft.components@.len() ==> !#[trigger] repeats_component(draft.components@, i)
            &&& forall|i: int|
                0 <= i < component_errors.len() ==> (#[trigger] component_errors[i])@.len() == 0
        },
{
    names_are_refused_for_a_reason(draft, catalog_error, template_error, entries);
    lemma_keys_are_fine("label"@, draft.labels@);
    lemma_keys_are_fine("annotation"@, draft.annotations@);
    lemma_components_are_fine(draft.components@, component_errors, draft.components@.len());
    let components = draft.components@;
    if component_problems(components, component_errors, components.len()).len() == 0 {
        assert forall|i: int| 0 <= i < components.len() implies !#[trigger] repeats_component(
            components,
            i,
        ) by {
            assert(!complained_of(components, component_errors, i));
        }
        assert forall|i: int| 0 <= i < component_errors.len() implies (
        #[trigger] component_errors[i])@.len() == 0 by {
            assert(!complained_of(components, component_errors, i));
        }
    } else {
        let i = choose|i: int|
            0 <= i < components.len() && #[trigger] complained_of(components, component_errors, i);
        assert(repeats_component(components, i) || component_errors[i]@.len() > 0);
    }
}

proof fn lemma_keys_are_fine(kind: Seq<char>, rows: Seq<MapRow>)
    ensures
        key_problems(kind, rows, rows.len()).len() == 0 <==> forall|i: int|
            0 <= i < rows.len() ==> !crate::text::blank((#[trigger] rows[i]).key@) && !repeats_key(
                rows,
                i,
            ),
{
    let at = every_bad_key_is_complained_of(kind, rows);
    if key_problems(kind, rows, rows.len()).len() == 0 {
        assert forall|i: int| 0 <= i < rows.len() implies !crate::text::blank((#[trigger] rows[i]).key@)
            && !repeats_key(rows, i) by {
            if crate::text::blank(rows[i].key@) || repeats_key(rows, i) {
                assert(at.contains(i));
            }
        }
    } else {
        assert(at[0] < rows.len());
    }
}

proof fn lemma_component_complaint(components: Seq<Component>, errors: Seq<Vec<String>>, n: nat, i: int, j: int)
    requires
        0 <= i < n <= components.len(),
        errors.len() == components.len(),
        0 <= j < errors[i]@.len(),
    ensures
        component_problems(components, errors, n).contains(
            components[i].id.written@ + ": "@ + errors[i]@[j]@,
        ),
    decreases n,
{
    let m = (n - 1) as nat;
    let line = components[i].id.written@ + ": "@ + errors[i]@[j]@;
    let before = component_problems(components, errors, m);
    let duplicate = if repeats_component(components, m as int) {
        seq!["Duplicate component "@ + components[m as int].id.written@]
    } else {
        Seq::empty()
    };
    let lines = component_lines(
        components[m as int].id.written@,
        errors[m as int]@,
        errors[m as int]@.len(),
    );
    let all = component_problems(components, errors, n);
    assert(all == before + duplicate + lines);
    if i < m {
        lemma_component_complaint(components, errors, m, i, j);
        let k = choose|k: int| 0 <= k < before.len() && before[k] == line;
        assert(all[k] == line);
    } else {
        lemma_component_lines(
            components[m as int].id.written@,
            errors[m as int]@,
            errors[m as int]@.len(),
        );
        assert(lines[j] == line);
        assert(all[before.len() + duplicate.len() + j] == line);
    }
}

/// Everything the catalog says of a component of a draft is among what is wrong with the draft,
/// in that component's name.
pub proof fn every_component_complaint_is_shown(
    draft: CatalogEditorDraft,
    entries: Seq<CatalogEntry>,
    catalog_error: Option<String>,
    template_error: Option<String>,
    component_errors: Seq<Vec<String>>,
    i: int,
    j: int,
)
    requires
        component_errors.len() == draft.components@.len(),
        0 <= i < component_errors.len(),
        0 <= j < component_errors[i]@.len(),
    ensures
        draft_problems(draft, entries, catalog_error, template_error, component_errors).contains(
            draft.components@[i].id.written@ + ": "@ + component_errors[i]@[j]@,
        ),
{
    let components = draft.components@;
    lemma_component_complaint(components, component_errors, components.len(), i, j);
    let line = components[i].id.written@ + ": "@ + component_errors[i]@[j]@;
    let own = component_problems(components, component_errors, components.len());
    let all = draft_problems(draft, entries, catalog_error, template_error, component_errors);
    let k = choose|k: int| 0 <= k < own.len() && own[k] == line;
    assert(all[all.len() - own.len() + k] == own[k]);
}

} // verus!
