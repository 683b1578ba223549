//! Editors that several panels share.

use crate::expression::{ConstantDefinition, ConstantScope, ExpressionDocument};
use crate::ids::ConstantId;
use crate::measured::Number;
use crate::ordered::Copied;
use crate::text::{same_text, trim, trim_end};
use crate::world::Dimension;
use vstd::prelude::*;
use vstd::string::*;

verus! {

/// What a value editor did in one frame.
#[derive(Clone, Copy, Debug, PartialEq, Eq, Structural)]
pub struct EditorResponse {
    pub dragged: bool,
    pub focused: bool,
    pub changed: bool,
}

/// Note that an editor is held, by dragging it or typing into it, and tell whether
/// its value changed.
pub fn note_held_edit(response: EditorResponse, editing: &mut bool) -> (changed: bool)
    ensures
        changed == response.changed,
        *final(editing) == (*old(editing) || response.dragged || response.focused),
{
    if response.dragged || response.focused {
        *editing = true;
    }
    response.changed
}

/// What happened to a name being typed in one frame.
#[derive(Clone, Copy, Debug, PartialEq, Eq, Structural)]
pub struct NameInput {
    /// The escape key was hit.
    pub cancel: bool,
    /// The field was left with the enter key.
    pub accept: bool,
    pub focused: bool,
}

/// What a name editor leaves behind: the draft it keeps, and the name it sets.
#[derive(Debug, PartialEq, Eq)]
pub struct NameOutcome {
    pub kept: Option<String>,
    pub accepted: Option<String>,
}

/// Act on a name being typed. An editor that is not typed into keeps nothing, so
/// that it follows a later name; an accepted name is set only if it is another.
pub fn name_editor(draft: String, name: &str, input: NameInput) -> (outcome: NameOutcome)
    ensures
        outcome.accepted == if !input.cancel && input.accept && draft@ != name@ {
            Some(draft)
        } else {
            None
        },
        outcome.kept == if !input.cancel && !input.accept && input.focused {
            Some(draft)
        } else {
            None
        },
{
    if input.cancel {
        NameOutcome { kept: None, accepted: None }
    } else if input.accept {
        if same_text(draft.as_str(), name) {
            NameOutcome { kept: None, accepted: None }
        } else {
            NameOutcome { kept: None, accepted: Some(draft) }
        }
    } else if input.focused {
        NameOutcome { kept: Some(draft), accepted: None }
    } else {
        NameOutcome { kept: None, accepted: None }
    }
}

/// The text a name editor shows: the draft being typed, or the name.
pub fn name_draft(kept: Option<String>, name: &str) -> (draft: String)
    ensures
        draft@ == match kept {
            Some(text) => text@,
            None => name@,
        },
{
    match kept {
        Some(text) => text,
        None => name.to_owned(),
    }
}

/// Whether a character is alphabetic, as Unicode has it.
pub uninterp spec fn alphabetic(c: char) -> bool;

/// `char::is_alphabetic` tells whether a character has the `Alphabetic` property,
/// which is a table of Unicode; nothing is claimed of it but that the answer
/// depends on the character alone.
pub assume_specification[ char::is_alphabetic ](c: char) -> (b: bool)
    ensures
        b == alphabetic(c),
;

/// Where the run of alphabetic characters at the end of a text begins.
pub open spec fn unit_start(text: Seq<char>) -> nat
    decreases text.len(),
{
    if text.len() == 0 || !alphabetic(text.last()) {
        text.len()
    } else {
        unit_start(text.drop_last())
    }
}

/// A text split into an expression and the unit that scales all of it.
#[derive(Debug, PartialEq, Eq)]
pub struct ScaledExpression {
    pub head: String,
    pub unit: String,
}

/// What stands before the unit.
pub open spec fn scaled_head(text: Seq<char>) -> Seq<char> {
    let whole = crate::text::trimmed(text);
    crate::text::trimmed_end(whole.take(unit_start(whole) as int))
}

/// The unit.
pub open spec fn scaled_unit(text: Seq<char>) -> Seq<char> {
    let whole = crate::text::trimmed(text);
    whole.skip(unit_start(whole) as int)
}

/// Split off the one trailing unit that scales a whole expression, as in
/// `120 + 15 Mm`. Only a run of alphabetic characters is a unit, and both the
/// unit and what stands before it must be there.
pub fn split_trailing_unit(text: &str) -> (split: Option<ScaledExpression>)
    ensures
        split is Some <==> scalable(text@),
        split matches Some(s) ==> s.head@ == scaled_head(text@) && s.unit@ == scaled_unit(text@),
{
    let whole = trim(text);
    let length: usize = whole.unicode_len();
    let mut start: usize = length;
    proof {
        assert(whole@.take(length as int) =~= whole@);
    }
    while start > 0 && whole.get_char(start - 1).is_alphabetic()
        invariant
            start <= length,
            length == whole@.len(),
            unit_start(whole@) == unit_start(whole@.take(start as int)),
        decreases start,
    {
        assert(whole@.take(start as int).drop_last() =~= whole@.take(start - 1));
        start = start - 1;
    }
    assert(unit_start(whole@) == start) by {
        assert(start == 0 || !alphabetic(whole@.take(start as int).last()));
    }
    if start == 0 || start == length {
        assert(start == 0 ==> scaled_head(text@).len() == 0) by {
            assert(whole@.take(0).len() == 0);
        }
        return None;
    }
    let head = trim_end(whole.substring_char(0, start));
    let unit = whole.substring_char(start, length);
    assert(whole@.subrange(0, start as int) =~= whole@.take(start as int));
    assert(whole@.subrange(start as int, length as int) =~= whole@.skip(start as int));
    if head.unicode_len() == 0 {
        None
    } else {
        Some(ScaledExpression { head: head.to_owned(), unit: unit.to_owned() })
    }
}

/// What becomes of a text typed into a number field once it was evaluated as it
/// stands.
#[derive(Debug, PartialEq, Eq)]
pub enum LiteralStep {
    /// It has a value.
    Done(Number),
    /// It has none as it stands; its head is to be scaled by its unit.
    Scale(ScaledExpression),
    /// It has no value.
    Nothing,
}

/// Whether a text has both a trailing unit and something before it.
pub open spec fn scalable(text: Seq<char>) -> bool {
    scaled_head(text).len() > 0 && scaled_unit(text).len() > 0
}

/// Whether a step is what becomes of a text that was evaluated as it stands.
pub open spec fn steps(text: Seq<char>, strict: Option<Number>, step: LiteralStep) -> bool {
    match strict {
        Some(value) => step == LiteralStep::Done(value),
        None => if scalable(text) {
            step matches LiteralStep::Scale(split) && split.head@ == scaled_head(text)
                && split.unit@ == scaled_unit(text)
        } else {
            step is Nothing
        },
    }
}

/// What becomes of a text that was evaluated as it stands. A text that has a value
/// keeps it: a trailing unit scales the whole of an expression only where the
/// expression is not valid on its own.
pub fn literal_step(text: &str, strict: Option<Number>) -> (step: LiteralStep)
    ensures
        steps(text@, strict, step),
{
    match strict {
        Some(value) => LiteralStep::Done(value),
        None => match split_trailing_unit(text) {
            Some(split) => LiteralStep::Scale(split),
            None => LiteralStep::Nothing,
        },
    }
}

/// The value of a text typed into a number field.
#[derive(Clone, Copy, Debug, PartialEq, Eq, Structural)]
pub enum LiteralValue {
    Nothing,
    Value(Number),
    /// The product of the two.
    Product { factor: Number, per_unit: Number },
}

/// The value a step comes to, from what its unit and its head were evaluated to.
pub open spec fn comes_to(
    step: LiteralStep,
    per_unit: Option<Number>,
    factor: Option<Number>,
) -> LiteralValue {
    match step {
        LiteralStep::Done(value) => LiteralValue::Value(value),
        LiteralStep::Scale(_) => match (per_unit, factor) {
            (Some(per_unit), Some(factor)) => LiteralValue::Product { factor, per_unit },
            _ => LiteralValue::Nothing,
        },
        LiteralStep::Nothing => LiteralValue::Nothing,
    }
}

/// The value of a text, from what its unit and its head were evaluated to. Without
/// either of them a text that is to be scaled has none.
pub fn literal_value(step: &LiteralStep, per_unit: Option<Number>, factor: Option<Number>) -> (value:
    LiteralValue)
    ensures
        value == comes_to(*step, per_unit, factor),
{
    match step {
        LiteralStep::Done(value) => LiteralValue::Value(*value),
        LiteralStep::Scale(_) => match (per_unit, factor) {
            (Some(per_unit), Some(factor)) => LiteralValue::Product { factor, per_unit },
            _ => LiteralValue::Nothing,
        },
        LiteralStep::Nothing => LiteralValue::Nothing,
    }
}

/// An expression that is valid on its own keeps its value. Another one has a value
/// exactly where it has a trailing unit and something before it and both have
/// values, and then it is the product of these two.
pub proof fn a_unit_scales_only_what_has_no_value(
    text: Seq<char>,
    strict: Option<Number>,
    step: LiteralStep,
    per_unit: Option<Number>,
    factor: Option<Number>,
)
    requires
        steps(text, strict, step),
    ensures
        strict matches Some(value) ==> comes_to(step, per_unit, factor) == LiteralValue::Value(value),
        strict is None ==> (!(comes_to(step, per_unit, factor) is Nothing) <==> scalable(text)
            && per_unit is Some && factor is Some),
        strict is None && scalable(text) && per_unit is Some && factor is Some ==> comes_to(
            step,
            per_unit,
            factor,
        ) == (LiteralValue::Product { factor: factor->0, per_unit: per_unit->0 }),
{
}

/// A text to be evaluated on its own, and the dimension its value has to have.
#[derive(Debug)]
pub struct LiteralRequest {
    pub document: ExpressionDocument,
    pub dimension: Dimension,
}

/// Whether a request asks for a text in a dimension. A blank text is not asked for.
pub open spec fn requests(
    request: Option<LiteralRequest>,
    text: Seq<char>,
    dimension: Dimension,
) -> bool {
    match request {
        Some(request) => crate::text::trimmed(text).len() > 0 && evaluates(request.document, text)
            && request.dimension == dimension,
        None => crate::text::trimmed(text).len() == 0,
    }
}

/// The request for a text in a dimension.
pub fn literal_request(text: &str, dimension: &Dimension) -> (request: Option<LiteralRequest>)
    ensures
        requests(request, text@, *dimension),
{
    match literal_document(text) {
        Some(document) => Some(LiteralRequest { document, dimension: dimension.copied() }),
        None => None,
    }
}

/// The requests for the unit and for the head of a text that is to be scaled: the
/// unit is of the text's dimension, and the head is a plain number.
pub fn scale_requests(
    split: &ScaledExpression,
    dimension: &Dimension,
    dimensionless: &Dimension,
) -> (parts: (Option<LiteralRequest>, Option<LiteralRequest>))
    ensures
        requests(parts.0, split.unit@, *dimension),
        requests(parts.1, split.head@, *dimensionless),
{
    (
        literal_request(split.unit.as_str(), dimension),
        literal_request(split.head.as_str(), dimensionless),
    )
}

/// Whether a document holds a text alone, as its one constant.
pub open spec fn evaluates(document: ExpressionDocument, text: Seq<char>) -> bool {
    &&& document.bindings@.len() == 0
    &&& document.constants@.len() == 1
    &&& document.constants@[0].id.number() == 0
    &&& document.constants@[0]@ == (crate::expression::ConstantContent {
        id: document.constants@[0].id,
        scope: ConstantScope::Document,
        name: "value"@,
        source: crate::text::trimmed(text),
        revision: None,
        provenance: None,
        origin: None,
    })
}

/// The document in which a text typed into a number field is evaluated on its
/// own. A blank text is not evaluated.
pub fn literal_document(text: &str) -> (document: Option<ExpressionDocument>)
    ensures
        document is None <==> crate::text::trimmed(text@).len() == 0,
        document matches Some(d) ==> evaluates(d, text@),
{
    let source = trim(text);
    if source.unicode_len() == 0 {
        return None;
    }
    let mut constants: Vec<ConstantDefinition> = Vec::new();
    constants.push(
        ConstantDefinition {
            id: ConstantId::new(0),
            scope: ConstantScope::Document,
            name: "value".to_owned(),
            source: source.to_owned(),
            revision: None,
            provenance: None,
            origin: None,
        },
    );
    Some(ExpressionDocument { constants, bindings: Vec::new() })
}

proof fn lemma_unit_start(text: Seq<char>)
    ensures
        unit_start(text) <= text.len(),
        forall|k: int| unit_start(text) <= k < text.len() ==> alphabetic(#[trigger] text[k]),
        unit_start(text) > 0 ==> !alphabetic(text[unit_start(text) - 1]),
    decreases text.len(),
{
    if text.len() > 0 && alphabetic(text.last()) {
        let rest = text.drop_last();
        lemma_unit_start(rest);
        assert forall|k: int| unit_start(text) <= k < text.len() implies alphabetic(
            #[trigger] text[k],
        ) by {
            if k < text.len() - 1 {
                assert(rest[k] == text[k]);
            }
        }
        if unit_start(text) > 0 {
            assert(rest[unit_start(text) - 1] == text[unit_start(text) - 1]);
        }
    }
}

/// A text is its head, white space and its unit, once it is trimmed: the unit is all that is
/// alphabetic at its end, and the head does not end in white space.
pub proof fn a_text_is_its_head_and_its_unit(text: Seq<char>) -> (gap: Seq<char>)
    ensures
        crate::text::trimmed(text) == scaled_head(text) + gap + scaled_unit(text),
        forall|k: int| 0 <= k < gap.len() ==> crate::text::is_white_space(#[trigger] gap[k]),
        forall|k: int| 0 <= k < scaled_unit(text).len() ==> alphabetic(#[trigger] scaled_unit(text)[k]),
        gap.len() > 0 ==> !alphabetic(gap.last()),
        gap.len() == 0 && scaled_head(text).len() > 0 ==> !alphabetic(scaled_head(text).last()),
        scaled_head(text).len() > 0 ==> !crate::text::is_white_space(scaled_head(text).last()),
{
    let whole = crate::text::trimmed(text);
    let start = unit_start(whole) as int;
    lemma_unit_start(whole);
    let before = whole.take(start);
    let kept = crate::text::trimming_the_end_leaves_the_beginning(before);
    let gap = before.skip(kept);
    assert(before.take(kept) + gap + whole.skip(start) =~= whole);
    assert forall|k: int| 0 <= k < gap.len() implies crate::text::is_white_space(
        #[trigger] gap[k],
    ) by {
        assert(gap[k] == before[kept + k]);
    }
    assert forall|k: int| 0 <= k < scaled_unit(text).len() implies alphabetic(
        #[trigger] scaled_unit(text)[k],
    ) by {
        assert(scaled_unit(text)[k] == whole[start + k]);
    }
    gap
}

/// A text that holds more than white space is asked for as the one constant of an otherwise
/// empty document, in the dimension its field has; a blank one is not asked for.
pub proof fn a_text_is_asked_for_alone(
    request: Option<LiteralRequest>,
    text: Seq<char>,
    dimension: Dimension,
)
    requires
        requests(request, text, dimension),
    ensures
        request is None <==> crate::text::blank(text),
        request matches Some(request) ==> {
            &&& request.dimension == dimension
            &&& request.document.bindings@.len() == 0
            &&& request.document.constants@.len() == 1
            &&& request.document.constants@[0].scope == ConstantScope::Document
            &&& request.document.constants@[0].name@ == "value"@
            &&& request.document.constants@[0].source@ == crate::text::trimmed(text)
            &&& request.document.constants@[0].origin is None
        },
{
}

/// A text can be scaled exactly where, trimmed, it ends in an alphabetic character and holds
/// another one that is not.
pub proof fn a_scalable_text_ends_in_a_unit(text: Seq<char>)
    ensures
        ({
            let whole = crate::text::trimmed(text);
            scalable(text) <==> whole.len() > 0 && alphabetic(whole.last()) && exists|k: int|
                0 <= k < whole.len() && !alphabetic(#[trigger] whole[k])
        }),
{
    let whole = crate::text::trimmed(text);
    let start = unit_start(whole) as int;
    lemma_unit_start(whole);
    let around = crate::text::trimming_takes_only_the_white_space_around(text);
    let before = whole.take(start);
    let kept = crate::text::trimming_the_end_leaves_the_beginning(before);
    if whole.len() > 0 {
        assert(whole[0] == text[around.0]);
        assert(whole.last() == whole[whole.len() - 1]);
        if start > 0 {
            assert(!alphabetic(whole[start - 1]));
            assert(before[0] == whole[0]);
            assert(kept > 0);
        } else {
            assert(forall|k: int| 0 <= k < whole.len() ==> alphabetic(#[trigger] whole[k]));
            assert(before.len() == 0);
        }
    }
}

} // verus!
