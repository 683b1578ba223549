//! The physical fields a scene can have, and the models that can compute them.

use crate::ids::{ChannelId, PluginId};
use crate::ordered::{Copied, MapKey};
use crate::source::{is_composed, ChannelSchema, FieldSystemStatus, FieldValueKind};
use crate::text::{comes_before, concat2};
use vstd::prelude::*;
use vstd::string::*;

verus! {

/// One physical field the scene can have, and the models that can compute it.
///
/// Built by asking which systems *declare* each channel rather than which are
/// publishing it, so a field with no active model is still listed.
#[derive(Debug, PartialEq, Eq)]
pub struct FieldRow {
    pub channel: ChannelId,
    pub display_name: String,
    pub value_kind: FieldValueKind,
    /// Every composed system that can compute this field, in catalog order.
    pub candidates: Vec<PluginId>,
    /// The one currently computing it, if any.
    pub provider: Option<PluginId>,
}

/// One system declaring one channel that no composed plugin owns.
pub ghost struct Declaration {
    pub schema: ChannelSchema,
    pub plugin: PluginId,
    pub enabled: bool,
}

/// The declarations of the first `n` channels of a system that are shared: in a
/// namespace that no composed plugin claims.
pub open spec fn declared_by(
    systems: Seq<FieldSystemStatus>,
    system: FieldSystemStatus,
    n: nat,
) -> Seq<Declaration>
    decreases n,
{
    if n == 0 {
        Seq::empty()
    } else {
        let before = declared_by(systems, system, (n - 1) as nat);
        let schema = system.channels@[n - 1];
        if crate::source::composed(systems, schema.id.plugin@) {
            before
        } else {
            before.push(
                Declaration { schema, plugin: system.plugin.id, enabled: system.enabled },
            )
        }
    }
}

/// The shared declarations of the first `n` systems, in catalog order.
pub open spec fn declared(systems: Seq<FieldSystemStatus>, n: nat) -> Seq<Declaration>
    decreases n,
{
    if n == 0 {
        Seq::empty()
    } else {
        declared(systems, (n - 1) as nat) + declared_by(
            systems,
            systems[n - 1],
            systems[n - 1].channels@.len(),
        )
    }
}

/// Whether `i` is the first declaration of a channel.
pub open spec fn first_declared(d: Seq<Declaration>, channel: (Seq<char>, Seq<char>), i: int) -> bool {
    &&& 0 <= i < d.len()
    &&& d[i].schema.id@ == channel
    &&& forall|k: int| 0 <= k < i ==> (#[trigger] d[k]).schema.id@ != channel
}

/// Whether a channel is declared at all.
pub open spec fn mentioned(d: Seq<Declaration>, channel: (Seq<char>, Seq<char>)) -> bool {
    exists|i: int| 0 <= i < d.len() && (#[trigger] d[i]).schema.id@ == channel
}

/// The systems that declare a channel, among the first `n` declarations.
pub open spec fn candidates_of(d: Seq<Declaration>, channel: (Seq<char>, Seq<char>), n: nat) -> Seq<
    PluginId,
>
    decreases n,
{
    if n == 0 {
        Seq::empty()
    } else if d[n - 1].schema.id@ == channel {
        candidates_of(d, channel, (n - 1) as nat).push(d[n - 1].plugin)
    } else {
        candidates_of(d, channel, (n - 1) as nat)
    }
}

/// The last enabled system that declares a channel, among the first `n`
/// declarations.
pub open spec fn provider_of(d: Seq<Declaration>, channel: (Seq<char>, Seq<char>), n: nat) -> Option<
    PluginId,
>
    decreases n,
{
    if n == 0 {
        None
    } else if d[n - 1].schema.id@ == channel && d[n - 1].enabled {
        Some(d[n - 1].plugin)
    } else {
        provider_of(d, channel, (n - 1) as nat)
    }
}

/// Whether a row says of its channel what the declarations say: the name and
/// kind of the first one, all candidates in order, and the active provider.
pub open spec fn row_tells(row: FieldRow, d: Seq<Declaration>) -> bool {
    &&& exists|i: int|
        #[trigger] first_declared(d, row.channel@, i) && row.channel == d[i].schema.id && row.display_name
            == d[i].schema.display_name && row.value_kind == d[i].schema.value_kind
    &&& row.candidates@ == candidates_of(d, row.channel@, d.len())
    &&& row.provider == provider_of(d, row.channel@, d.len())
}

/// The order of declaration.
pub open spec fn declared_before(
    d: Seq<Declaration>,
    a: (Seq<char>, Seq<char>),
    b: (Seq<char>, Seq<char>),
) -> bool {
    exists|i: int, j: int| #[trigger]
        first_declared(d, a, i) && #[trigger] first_declared(d, b, j) && i < j
}

/// The order of rows: by display name, then by first declaration.
pub open spec fn row_before(a: FieldRow, b: FieldRow, d: Seq<Declaration>) -> bool {
    crate::text::text_before(a.display_name@, b.display_name@) || (a.display_name@ == b.display_name@
        && declared_before(d, a.channel@, b.channel@))
}

/// Whether some row is about a channel.
pub open spec fn has_row(rows: Seq<FieldRow>, channel: (Seq<char>, Seq<char>)) -> bool {
    exists|k: int| 0 <= k < rows.len() && (#[trigger] rows[k]).channel@ == channel
}

/// The rows for a list of declarations: one per declared channel, telling what
/// the declarations say, in order of name and then of declaration.
pub open spec fn rows_for(rows: Seq<FieldRow>, d: Seq<Declaration>) -> bool {
    &&& forall|k: int| 0 <= k < rows.len() ==> row_tells(#[trigger] rows[k], d)
    &&& forall|channel: (Seq<char>, Seq<char>)| #[trigger]
        mentioned(d, channel) <==> has_row(rows, channel)
    &&& forall|k: int, l: int|
        0 <= k < l < rows.len() ==> row_before(#[trigger] rows[k], #[trigger] rows[l], d)
}

proof fn lemma_first_is_unique(d: Seq<Declaration>, c: (Seq<char>, Seq<char>), i: int, j: int)
    requires
        first_declared(d, c, i),
        first_declared(d, c, j),
    ensures
        i == j,
{
    if i < j {
        assert(d[i].schema.id@ != c);
    } else if j < i {
        assert(d[j].schema.id@ != c);
    }
}

proof fn lemma_candidates_extend(d: Seq<Declaration>, x: Declaration, c: (Seq<char>, Seq<char>), n: nat)
    requires
        n <= d.len(),
    ensures
        candidates_of(d.push(x), c, n) == candidates_of(d, c, n),
        provider_of(d.push(x), c, n) == provider_of(d, c, n),
    decreases n,
{
    if n > 0 {
        assert(d.push(x)[n - 1] == d[n - 1]);
        lemma_candidates_extend(d, x, c, (n - 1) as nat);
    }
}

proof fn lemma_no_candidates(d: Seq<Declaration>, c: (Seq<char>, Seq<char>), n: nat)
    requires
        n <= d.len(),
        !mentioned(d, c),
    ensures
        candidates_of(d, c, n) == Seq::<PluginId>::empty(),
        provider_of(d, c, n) == None::<PluginId>,
    decreases n,
{
    if n > 0 {
        assert(d[n - 1].schema.id@ != c);
        lemma_no_candidates(d, c, (n - 1) as nat);
    }
}

proof fn lemma_first_extends(d: Seq<Declaration>, x: Declaration, c: (Seq<char>, Seq<char>), i: int)
    requires
        first_declared(d, c, i),
    ensures
        first_declared(d.push(x), c, i),
{
    let e = d.push(x);
    assert(e[i] == d[i]);
    assert forall|k: int| 0 <= k < i implies (#[trigger] e[k]).schema.id@ != c by {
        assert(e[k] == d[k]);
    }
}

/// Rows in the order of first declaration, before they are sorted.
spec fn gathered(rows: Seq<FieldRow>, d: Seq<Declaration>) -> bool {
    &&& forall|k: int| 0 <= k < rows.len() ==> row_tells(#[trigger] rows[k], d)
    &&& forall|channel: (Seq<char>, Seq<char>)| #[trigger]
        mentioned(d, channel) <==> has_row(rows, channel)
    &&& forall|k: int, l: int|
        0 <= k < l < rows.len() ==> declared_before(
            d,
            (#[trigger] rows[k]).channel@,
            (#[trigger] rows[l]).channel@,
        )
}

proof fn lemma_declared_before_extends(
    d: Seq<Declaration>,
    x: Declaration,
    a: (Seq<char>, Seq<char>),
    b: (Seq<char>, Seq<char>),
)
    requires
        declared_before(d, a, b),
    ensures
        declared_before(d.push(x), a, b),
{
    let (i, j) = choose|i: int, j: int| #[trigger]
        first_declared(d, a, i) && #[trigger] first_declared(d, b, j) && i < j;
    lemma_first_extends(d, x, a, i);
    lemma_first_extends(d, x, b, j);
}

/// A declaration of a channel that has a row already.
#[verifier::spinoff_prover]
#[verifier::rlimit(40)]
proof fn lemma_gather_again(
    rows: Seq<FieldRow>,
    d: Seq<Declaration>,
    x: Declaration,
    index: int,
    row: FieldRow,
)
    requires
        gathered(rows, d),
        0 <= index < rows.len(),
        rows[index].channel@ == x.schema.id@,
        row.channel == rows[index].channel,
        row.display_name == rows[index].display_name,
        row.value_kind == rows[index].value_kind,
        row.candidates@ == rows[index].candidates@.push(x.plugin),
        row.provider == if x.enabled {
            Some(x.plugin)
        } else {
            rows[index].provider
        },
    ensures
        gathered(rows.update(index, row), d.push(x)),
{
    let e = d.push(x);
    let after = rows.update(index, row);
    assert forall|k: int| 0 <= k < after.len() implies row_tells(#[trigger] after[k], e) by {
        let c = rows[k].channel@;
        assert(row_tells(rows[k], d));
        let i = choose|i: int|
            #[trigger] first_declared(d, c, i) && rows[k].channel == d[i].schema.id
                && rows[k].display_name == d[i].schema.display_name && rows[k].value_kind
                == d[i].schema.value_kind;
        lemma_first_extends(d, x, c, i);
        assert(e[i] == d[i]);
        lemma_candidates_extend(d, x, c, d.len());
        assert(e[e.len() - 1] == x);
        if k != index {
            if c == x.schema.id@ {
                if k < index {
                    assert(declared_before(d, rows[k].channel@, rows[index].channel@));
                } else {
                    assert(declared_before(d, rows[index].channel@, rows[k].channel@));
                }
                let (p, q) = choose|p: int, q: int| #[trigger]
                    first_declared(d, c, p) && #[trigger] first_declared(d, c, q) && p < q;
                lemma_first_is_unique(d, c, p, q);
            }
        }
        assert(first_declared(e, after[k].channel@, i));
    }
    assert forall|channel: (Seq<char>, Seq<char>)| #[trigger] mentioned(e, channel) <==> has_row(
        after,
        channel,
    ) by {
        lemma_mentioned_extends(d, x, channel);
        if has_row(rows, channel) {
            let k = choose|k: int| 0 <= k < rows.len() && (#[trigger] rows[k]).channel@ == channel;
            assert(after[k].channel@ == channel);
        }
        if has_row(after, channel) {
            let k = choose|k: int| 0 <= k < after.len() && (#[trigger] after[k]).channel@ == channel;
            assert(rows[k].channel@ == channel);
        }
        assert(mentioned(d, channel) <==> has_row(rows, channel));
        if channel == x.schema.id@ {
            assert(after[index].channel@ == channel);
        }
    }
    assert forall|k: int, l: int| 0 <= k < l < after.len() implies declared_before(
        e,
        (#[trigger] after[k]).channel@,
        (#[trigger] after[l]).channel@,
    ) by {
        assert(declared_before(d, rows[k].channel@, rows[l].channel@));
        lemma_declared_before_extends(d, x, rows[k].channel@, rows[l].channel@);
    }
}

proof fn lemma_mentioned_extends(d: Seq<Declaration>, x: Declaration, c: (Seq<char>, Seq<char>))
    ensures
        mentioned(d.push(x), c) <==> mentioned(d, c) || x.schema.id@ == c,
{
    let e = d.push(x);
    if mentioned(d, c) {
        let i = choose|i: int| 0 <= i < d.len() && (#[trigger] d[i]).schema.id@ == c;
        assert(e[i] == d[i]);
    }
    if x.schema.id@ == c {
        assert(e[d.len() as int] == x);
    }
    if mentioned(e, c) {
        let i = choose|i: int| 0 <= i < e.len() && (#[trigger] e[i]).schema.id@ == c;
        if i < d.len() {
            assert(d[i] == e[i]);
        }
    }
}

/// A declaration of a channel that has no row yet.
#[verifier::spinoff_prover]
#[verifier::rlimit(40)]
proof fn lemma_gather_new(rows: Seq<FieldRow>, d: Seq<Declaration>, x: Declaration, row: FieldRow)
    requires
        gathered(rows, d),
        !has_row(rows, x.schema.id@),
        row.channel == x.schema.id,
        row.display_name == x.schema.display_name,
        row.value_kind == x.schema.value_kind,
        row.candidates@ == seq![x.plugin],
        row.provider == if x.enabled {
            Some(x.plugin)
        } else {
            None
        },
    ensures
        gathered(rows.push(row), d.push(x)),
{
    let e = d.push(x);
    let after = rows.push(row);
    let fresh = x.schema.id@;
    assert(!mentioned(d, fresh));
    assert(first_declared(e, fresh, d.len() as int)) by {
        assert(e[d.len() as int] == x);
        assert forall|k: int| 0 <= k < d.len() implies (#[trigger] e[k]).schema.id@ != fresh by {
            assert(e[k] == d[k]);
        }
    }
    assert forall|k: int| 0 <= k < after.len() implies row_tells(#[trigger] after[k], e) by {
        if k < rows.len() {
            let c = rows[k].channel@;
            assert(row_tells(rows[k], d));
            let i = choose|i: int|
                #[trigger] first_declared(d, c, i) && rows[k].channel == d[i].schema.id
                    && rows[k].display_name == d[i].schema.display_name && rows[k].value_kind
                    == d[i].schema.value_kind;
            lemma_first_extends(d, x, c, i);
            assert(e[i] == d[i]);
            lemma_candidates_extend(d, x, c, d.len());
            assert(e[e.len() - 1] == x);
            assert(first_declared(e, after[k].channel@, i));
        } else {
            lemma_no_candidates(d, fresh, d.len());
            lemma_candidates_extend(d, x, fresh, d.len());
            assert(e[e.len() - 1] == x);
            assert(candidates_of(e, fresh, e.len()) =~= seq![x.plugin]);
            assert(first_declared(e, after[k].channel@, d.len() as int));
        }
    }
    assert forall|channel: (Seq<char>, Seq<char>)| #[trigger] mentioned(e, channel) <==> has_row(
        after,
        channel,
    ) by {
        lemma_mentioned_extends(d, x, channel);
        assert(mentioned(d, channel) <==> has_row(rows, channel));
        if has_row(rows, channel) {
            let k = choose|k: int| 0 <= k < rows.len() && (#[trigger] rows[k]).channel@ == channel;
            assert(after[k].channel@ == channel);
        }
        if channel == fresh {
            assert(after[rows.len() as int].channel@ == channel);
        }
        if has_row(after, channel) {
            let k = choose|k: int| 0 <= k < after.len() && (#[trigger] after[k]).channel@ == channel;
            if k < rows.len() {
                assert(rows[k].channel@ == channel);
            }
        }
    }
    assert forall|k: int, l: int| 0 <= k < l < after.len() implies declared_before(
        e,
        (#[trigger] after[k]).channel@,
        (#[trigger] after[l]).channel@,
    ) by {
        if l < rows.len() {
            assert(declared_before(d, rows[k].channel@, rows[l].channel@));
            lemma_declared_before_extends(d, x, rows[k].channel@, rows[l].channel@);
        } else {
            assert(row_tells(rows[k], d));
            let i = choose|i: int| #[trigger] first_declared(d, rows[k].channel@, i);
            lemma_first_extends(d, x, rows[k].channel@, i);
        }
    }
}

impl FieldRow {
    /// The rows of every channel that is shared, in the order of declaration.
    fn gather(systems: &Vec<FieldSystemStatus>) -> (rows: Vec<FieldRow>)
        ensures
            gathered(rows@, declared(systems@, systems@.len())),
    {
        let mut rows: Vec<FieldRow> = Vec::new();
        let mut i: usize = 0;
        while i < systems.len()
            invariant
                i <= systems.len(),
                gathered(rows@, declared(systems@, i as nat)),
            decreases systems.len() - i,
        {
            let system = &systems[i];
            let ghost earlier = declared(systems@, i as nat);
            let mut j: usize = 0;
            assert(earlier + declared_by(systems@, *system, 0) =~= earlier);
            while j < system.channels.len()
                invariant
                    j <= system.channels.len(),
                    gathered(rows@, earlier + declared_by(systems@, *system, j as nat)),
                decreases system.channels.len() - j,
            {
                let channel = &system.channels[j];
                if !is_composed(systems, &channel.id.plugin) {
                    let ghost d = earlier + declared_by(systems@, *system, j as nat);
                    let ghost x = Declaration {
                        schema: *channel,
                        plugin: system.plugin.id,
                        enabled: system.enabled,
                    };
                    assert(earlier + declared_by(systems@, *system, (j + 1) as nat) =~= d.push(x));
                    Self::declare(&mut rows, channel, &system.plugin.id, system.enabled, Ghost(d));
                }
                j = j + 1;
            }
            i = i + 1;
        }
        rows
    }

    /// Enter one declaration into the rows.
    fn declare(
        rows: &mut Vec<FieldRow>,
        channel: &ChannelSchema,
        plugin: &PluginId,
        enabled: bool,
        Ghost(d): Ghost<Seq<Declaration>>,
    )
        requires
            gathered(old(rows)@, d),
        ensures
            gathered(
                final(rows)@,
                d.push(Declaration { schema: *channel, plugin: *plugin, enabled }),
            ),
    {
        let ghost x = Declaration { schema: *channel, plugin: *plugin, enabled };
        let mut k: usize = 0;
        while k < rows.len()
            invariant
                k <= rows.len(),
                *rows == *old(rows),
                gathered(old(rows)@, d),
                x == (Declaration { schema: *channel, plugin: *plugin, enabled }),
                forall|l: int| 0 <= l < k ==> (#[trigger] rows[l]).channel@ != channel.id@,
            decreases rows.len() - k,
        {
            if rows[k].channel.same(&channel.id) {
                let mut row = rows.remove(k);
                row.candidates.push(plugin.clone());
                if enabled {
                    row.provider = Some(plugin.clone());
                }
                let ghost updated = row;
                rows.insert(k, row);
                proof {
                    assert(rows@ =~= old(rows)@.update(k as int, updated));
                    lemma_gather_again(old(rows)@, d, x, k as int, updated);
                }
                return ;
            }
            k = k + 1;
        }
        let mut candidates: Vec<PluginId> = Vec::new();
        candidates.push(plugin.clone());
        assert(candidates@ =~= seq![*plugin]);
        let row = FieldRow {
            channel: channel.id.clone(),
            display_name: channel.display_name.clone(),
            value_kind: channel.value_kind.copied(),
            candidates,
            provider: if enabled {
                Some(plugin.clone())
            } else {
                None
            },
        };
        let ghost added = row;
        rows.push(row);
        proof {
            assert(!has_row(old(rows)@, x.schema.id@));
            lemma_gather_new(old(rows)@, d, x, added);
        }
    }
}

/// Rows in display order among themselves, all declared before the rows still
/// to be placed.
spec fn half_sorted(sorted: Seq<FieldRow>, waiting: Seq<FieldRow>, d: Seq<Declaration>) -> bool {
    &&& forall|k: int| 0 <= k < sorted.len() ==> row_tells(#[trigger] sorted[k], d)
    &&& forall|k: int| 0 <= k < waiting.len() ==> row_tells(#[trigger] waiting[k], d)
    &&& forall|channel: (Seq<char>, Seq<char>)| #[trigger]
        mentioned(d, channel) <==> has_row(sorted, channel) || has_row(waiting, channel)
    &&& forall|k: int, l: int|
        0 <= k < l < sorted.len() ==> row_before(#[trigger] sorted[k], #[trigger] sorted[l], d)
    &&& forall|k: int, l: int|
        0 <= k < l < waiting.len() ==> declared_before(
            d,
            (#[trigger] waiting[k]).channel@,
            (#[trigger] waiting[l]).channel@,
        )
    &&& forall|k: int, l: int|
        0 <= k < sorted.len() && 0 <= l < waiting.len() ==> declared_before(
            d,
            (#[trigger] sorted[k]).channel@,
            (#[trigger] waiting[l]).channel@,
        )
}

/// Where the first waiting row belongs: behind every row whose name is not
/// greater.
spec fn belongs_at(sorted: Seq<FieldRow>, waiting: Seq<FieldRow>, at: int) -> bool {
    &&& waiting.len() > 0
    &&& 0 <= at <= sorted.len()
    &&& at > 0 ==> !crate::text::text_before(
        waiting[0].display_name@,
        sorted[at - 1].display_name@,
    )
    &&& at < sorted.len() ==> crate::text::text_before(
        waiting[0].display_name@,
        sorted[at].display_name@,
    )
}

#[verifier::spinoff_prover]
#[verifier::rlimit(40)]
proof fn lemma_behind_earlier(
    sorted: Seq<FieldRow>,
    waiting: Seq<FieldRow>,
    d: Seq<Declaration>,
    at: int,
    k: int,
)
    requires
        half_sorted(sorted, waiting, d),
        belongs_at(sorted, waiting, at),
        0 <= k < at,
    ensures
        row_before(sorted[k], waiting[0], d),
{
    let row = waiting[0];
    let name = row.display_name@;
    let last = sorted[at - 1].display_name@;
    crate::text::text_before_total(last, name);
    assert(declared_before(d, sorted[k].channel@, row.channel@));
    assert(last == name || crate::text::text_before(last, name));
    if k < at - 1 {
        assert(row_before(sorted[k], sorted[at - 1], d));
        let first = sorted[k].display_name@;
        if crate::text::text_before(first, last) && crate::text::text_before(last, name) {
            crate::text::text_before_transitive(first, last, name);
        }
    }
}

#[verifier::spinoff_prover]
#[verifier::rlimit(40)]
proof fn lemma_before_later(
    sorted: Seq<FieldRow>,
    waiting: Seq<FieldRow>,
    d: Seq<Declaration>,
    at: int,
    k: int,
)
    requires
        half_sorted(sorted, waiting, d),
        belongs_at(sorted, waiting, at),
        at <= k < sorted.len(),
    ensures
        row_before(waiting[0], sorted[k], d),
{
    let name = waiting[0].display_name@;
    let next = sorted[at].display_name@;
    if k > at {
        assert(row_before(sorted[at], sorted[k], d));
        if crate::text::text_before(next, sorted[k].display_name@) {
            crate::text::text_before_transitive(name, next, sorted[k].display_name@);
        }
    }
}

#[verifier::spinoff_prover]
#[verifier::rlimit(40)]
proof fn lemma_place_keeps_order(
    sorted: Seq<FieldRow>,
    waiting: Seq<FieldRow>,
    d: Seq<Declaration>,
    at: int,
    k: int,
    l: int,
)
    requires
        half_sorted(sorted, waiting, d),
        belongs_at(sorted, waiting, at),
        0 <= k < l < sorted.len() + 1,
    ensures
        row_before(sorted.insert(at, waiting[0])[k], sorted.insert(at, waiting[0])[l], d),
{
    let after = sorted.insert(at, waiting[0]);
    if k == at {
        assert(after[l] == sorted[l - 1]);
        lemma_before_later(sorted, waiting, d, at, l - 1);
    } else if l == at {
        assert(after[k] == sorted[k]);
        lemma_behind_earlier(sorted, waiting, d, at, k);
    } else {
        let p = if k < at {
            k
        } else {
            k - 1
        };
        let q = if l < at {
            l
        } else {
            l - 1
        };
        assert(after[k] == sorted[p] && after[l] == sorted[q]);
        assert(row_before(sorted[p], sorted[q], d));
    }
}

#[verifier::spinoff_prover]
#[verifier::rlimit(40)]
proof fn lemma_place_keeps_rows(
    sorted: Seq<FieldRow>,
    waiting: Seq<FieldRow>,
    at: int,
    channel: (Seq<char>, Seq<char>),
)
    requires
        waiting.len() > 0,
        0 <= at <= sorted.len(),
    ensures
        has_row(sorted, channel) || has_row(waiting, channel) <==> has_row(
            sorted.insert(at, waiting[0]),
            channel,
        ) || has_row(waiting.skip(1), channel),
{
    let after = sorted.insert(at, waiting[0]);
    let rest = waiting.skip(1);
    if has_row(sorted, channel) {
        let k = choose|k: int| 0 <= k < sorted.len() && (#[trigger] sorted[k]).channel@ == channel;
        let n = if k < at {
            k
        } else {
            k + 1
        };
        assert(after[n] == sorted[k]);
    }
    if has_row(waiting, channel) {
        let k = choose|k: int| 0 <= k < waiting.len() && (#[trigger] waiting[k]).channel@ == channel;
        if k == 0 {
            assert(after[at] == waiting[0]);
        } else {
            assert(rest[k - 1] == waiting[k]);
        }
    }
    if has_row(after, channel) {
        let k = choose|k: int| 0 <= k < after.len() && (#[trigger] after[k]).channel@ == channel;
        if k < at {
            assert(sorted[k] == after[k]);
        } else if k > at {
            assert(sorted[k - 1] == after[k]);
        } else {
            assert(waiting[0] == after[k]);
        }
    }
    if has_row(rest, channel) {
        let k = choose|k: int| 0 <= k < rest.len() && (#[trigger] rest[k]).channel@ == channel;
        assert(waiting[k + 1] == rest[k]);
    }
}

/// Placing the first waiting row where it belongs.
#[verifier::spinoff_prover]
#[verifier::rlimit(40)]
proof fn lemma_place(sorted: Seq<FieldRow>, waiting: Seq<FieldRow>, d: Seq<Declaration>, at: int)
    requires
        half_sorted(sorted, waiting, d),
        belongs_at(sorted, waiting, at),
    ensures
        half_sorted(sorted.insert(at, waiting[0]), waiting.skip(1), d),
{
    let after = sorted.insert(at, waiting[0]);
    let rest = waiting.skip(1);
    assert forall|k: int| 0 <= k < after.len() implies row_tells(#[trigger] after[k], d) by {
        if k < at {
            assert(after[k] == sorted[k]);
        } else if k > at {
            assert(after[k] == sorted[k - 1]);
        }
    }
    assert forall|k: int| 0 <= k < rest.len() implies row_tells(#[trigger] rest[k], d) by {
        assert(rest[k] == waiting[k + 1]);
    }
    assert forall|channel: (Seq<char>, Seq<char>)| #[trigger] mentioned(d, channel) <==> has_row(
        after,
        channel,
    ) || has_row(rest, channel) by {
        lemma_place_keeps_rows(sorted, waiting, at, channel);
    }
    assert forall|k: int, l: int| 0 <= k < l < after.len() implies row_before(
        #[trigger] after[k],
        #[trigger] after[l],
        d,
    ) by {
        lemma_place_keeps_order(sorted, waiting, d, at, k, l);
    }
    assert forall|k: int, l: int| 0 <= k < l < rest.len() implies declared_before(
        d,
        (#[trigger] rest[k]).channel@,
        (#[trigger] rest[l]).channel@,
    ) by {
        assert(rest[k] == waiting[k + 1] && rest[l] == waiting[l + 1]);
    }
    assert forall|k: int, l: int| 0 <= k < after.len() && 0 <= l < rest.len() implies declared_before(
        d,
        (#[trigger] after[k]).channel@,
        (#[trigger] rest[l]).channel@,
    ) by {
        assert(rest[l] == waiting[l + 1]);
        if k < at {
            assert(after[k] == sorted[k]);
        } else if k > at {
            assert(after[k] == sorted[k - 1]);
        } else {
            assert(after[k] == waiting[0]);
        }
    }
}

impl FieldRow {
    /// The physical fields of a scene: one row per shared channel, whoever
    /// computes it, in the order of their names.
    pub fn collect(systems: &Vec<FieldSystemStatus>) -> (rows: Vec<FieldRow>)
        ensures
            rows_for(rows@, declared(systems@, systems@.len())),
    {
        let ghost d = declared(systems@, systems@.len());
        let mut waiting = Self::gather(systems);
        let mut sorted: Vec<FieldRow> = Vec::new();
        while waiting.len() > 0
            invariant
                half_sorted(sorted@, waiting@, d),
            decreases waiting.len(),
        {
            let mut at: usize = sorted.len();
            while at > 0 && comes_before(
                waiting[0].display_name.as_str(),
                sorted[at - 1].display_name.as_str(),
            )
                invariant
                    at <= sorted.len(),
                    waiting.len() > 0,
                    at < sorted.len() ==> crate::text::text_before(
                        waiting[0].display_name@,
                        sorted[at as int].display_name@,
                    ),
                decreases at,
            {
                at = at - 1;
            }
            proof {
                lemma_place(sorted@, waiting@, d, at as int);
            }
            let ghost before = waiting@;
            let row = waiting.remove(0);
            assert(waiting@ =~= before.skip(1));
            sorted.insert(at, row);
        }
        sorted
    }

    /// Whether this field is a choice rather than a fixed consequence of which
    /// systems exist.
    pub fn has_alternatives(&self) -> (b: bool)
        ensures
            b == (self.candidates@.len() > 1),
    {
        self.candidates.len() > 1
    }

    /// What the field carries, and of which dimension.
    pub open spec fn kind_words(self) -> Seq<char> {
        (match self.value_kind {
            FieldValueKind::Scalar(_) => "scalar · "@,
            FieldValueKind::Vector(_) => "vector · "@,
        }) + self.value_kind.dimension().written@
    }

    pub fn kind_label(&self) -> (text: String)
        ensures
            text@ == self.kind_words(),
    {
        match &self.value_kind {
            FieldValueKind::Scalar(dimension) => concat2("scalar · ", dimension.written.as_str()),
            FieldValueKind::Vector(dimension) => concat2("vector · ", dimension.written.as_str()),
        }
    }
}

/// No field is listed twice, whatever the models.
pub proof fn fields_are_listed_once(rows: Seq<FieldRow>, systems: Seq<FieldSystemStatus>, k: int, l: int)
    requires
        rows_for(rows, declared(systems, systems.len())),
        0 <= k < l < rows.len(),
    ensures
        rows[k].channel@ != rows[l].channel@,
{
    let d = declared(systems, systems.len());
    assert(row_before(rows[k], rows[l], d));
    if rows[k].channel@ == rows[l].channel@ {
        let c = rows[k].channel@;
        assert(row_tells(rows[k], d) && row_tells(rows[l], d));
        let i = choose|i: int|
            #[trigger] first_declared(d, c, i) && rows[k].display_name == d[i].schema.display_name;
        let j = choose|j: int|
            #[trigger] first_declared(d, c, j) && rows[l].display_name == d[j].schema.display_name;
        lemma_first_is_unique(d, c, i, j);
        crate::text::text_before_irreflexive(rows[k].display_name@);
        let (p, q) = choose|p: int, q: int| #[trigger]
            first_declared(d, c, p) && #[trigger] first_declared(d, c, q) && p < q;
        lemma_first_is_unique(d, c, p, q);
    }
}

/// Whether two rows say the same.
pub open spec fn same_row(a: FieldRow, b: FieldRow) -> bool {
    &&& a.channel == b.channel
    &&& a.display_name == b.display_name
    &&& a.value_kind == b.value_kind
    &&& a.candidates@ == b.candidates@
    &&& a.provider == b.provider
}

/// Whether two lists of rows say the same, in the same order.
pub open spec fn same_rows(a: Seq<FieldRow>, b: Seq<FieldRow>) -> bool {
    a.len() == b.len() && forall|i: int| 0 <= i < a.len() ==> same_row(#[trigger] a[i], b[i])
}

proof fn lemma_tells_one_thing(a: FieldRow, b: FieldRow, d: Seq<Declaration>)
    requires
        row_tells(a, d),
        row_tells(b, d),
        a.channel@ == b.channel@,
    ensures
        same_row(a, b),
        mentioned(d, a.channel@),
{
    let i = choose|i: int|
        #[trigger] first_declared(d, a.channel@, i) && a.channel == d[i].schema.id && a.display_name
            == d[i].schema.display_name && a.value_kind == d[i].schema.value_kind;
    let j = choose|j: int|
        #[trigger] first_declared(d, b.channel@, j) && b.channel == d[j].schema.id && b.display_name
            == d[j].schema.display_name && b.value_kind == d[j].schema.value_kind;
    lemma_first_is_unique(d, a.channel@, i, j);
    assert(d[i].schema.id@ == a.channel@);
}

proof fn lemma_row_order_is_strict(a: FieldRow, b: FieldRow, d: Seq<Declaration>)
    ensures
        !(row_before(a, b, d) && row_before(b, a, d)),
{
    if row_before(a, b, d) && row_before(b, a, d) {
        let (x, y) = (a.display_name@, b.display_name@);
        crate::text::text_before_irreflexive(x);
        crate::text::text_before_irreflexive(y);
        if crate::text::text_before(x, y) && crate::text::text_before(y, x) {
            crate::text::text_before_transitive(x, y, x);
        }
        let (i, j) = choose|i: int, j: int| #[trigger]
            first_declared(d, a.channel@, i) && #[trigger] first_declared(d, b.channel@, j) && i < j;
        let (p, q) = choose|p: int, q: int| #[trigger]
            first_declared(d, b.channel@, p) && #[trigger] first_declared(d, a.channel@, q) && p < q;
        lemma_first_is_unique(d, a.channel@, i, q);
        lemma_first_is_unique(d, b.channel@, j, p);
    }
}

/// The order of two rows is that of what they say.
proof fn lemma_row_order_is_told(
    a: FieldRow,
    b: FieldRow,
    x: FieldRow,
    y: FieldRow,
    d: Seq<Declaration>,
)
    requires
        same_row(a, x),
        same_row(b, y),
        row_before(a, b, d),
    ensures
        row_before(x, y, d),
{
}

/// Two lists of rows for the same declarations agree at each position that both
/// could have.
proof fn lemma_rows_agree(a: Seq<FieldRow>, b: Seq<FieldRow>, d: Seq<Declaration>, n: int)
    requires
        rows_for(a, d),
        rows_for(b, d),
        0 <= n < a.len(),
    ensures
        n < b.len(),
        same_row(a[n], b[n]),
    decreases n,
{
    assert forall|k: int| 0 <= k < n implies k < b.len() && same_row(#[trigger] a[k], b[k]) by {
        lemma_rows_agree(a, b, d, k);
    }
    assert(row_tells(a[n], d));
    lemma_tells_one_thing(a[n], a[n], d);
    assert(has_row(b, a[n].channel@));
    let m = choose|m: int| 0 <= m < b.len() && (#[trigger] b[m]).channel@ == a[n].channel@;
    assert(row_tells(b[m], d));
    lemma_tells_one_thing(a[n], b[m], d);
    if m < n {
        assert(same_row(a[m], b[m]));
        assert(row_before(a[m], a[n], d));
        lemma_row_order_is_told(a[m], a[n], a[n], a[m], d);
        lemma_row_order_is_strict(a[m], a[n], d);
    }
    if m > n {
        assert(row_tells(b[n], d));
        lemma_tells_one_thing(b[n], b[n], d);
        assert(has_row(a, b[n].channel@));
        let l = choose|l: int| 0 <= l < a.len() && (#[trigger] a[l]).channel@ == b[n].channel@;
        assert(row_tells(a[l], d));
        lemma_tells_one_thing(a[l], b[n], d);
        assert(row_before(b[n], b[m], d));
        lemma_row_order_is_told(b[n], b[m], a[l], a[n], d);
        lemma_row_order_is_strict(a[l], a[n], d);
        if l < n {
            assert(same_row(a[l], b[l]));
            assert(row_before(b[l], b[n], d));
            lemma_row_order_is_told(b[l], b[n], b[n], b[l], d);
            lemma_row_order_is_strict(b[l], b[n], d);
        } else if l > n {
            assert(row_before(a[n], a[l], d));
        }
    }
}

/// The declarations alone fix the fields that are listed, what is said of each, and
/// their order.
pub proof fn declarations_fix_the_fields(a: Seq<FieldRow>, b: Seq<FieldRow>, d: Seq<Declaration>)
    requires
        rows_for(a, d),
        rows_for(b, d),
    ensures
        same_rows(a, b),
{
    assert forall|i: int| 0 <= i < a.len() implies i < b.len() && same_row(#[trigger] a[i], b[i]) by {
        lemma_rows_agree(a, b, d, i);
    }
    if a.len() > 0 {
        lemma_rows_agree(a, b, d, a.len() - 1);
    }
    if b.len() > 0 {
        lemma_rows_agree(b, a, d, b.len() - 1);
    }
}

proof fn lemma_declared_by_is_shared(
    systems: Seq<FieldSystemStatus>,
    system: FieldSystemStatus,
    n: nat,
    i: int,
)
    requires
        n <= system.channels@.len(),
        0 <= i < declared_by(systems, system, n).len(),
    ensures
        !crate::source::composed(systems, declared_by(systems, system, n)[i].schema.id.plugin@),
        declared_by(systems, system, n)[i].plugin == system.plugin.id,
        declared_by(systems, system, n)[i].enabled == system.enabled,
        exists|j: int|
            0 <= j < n && #[trigger] system.channels@[j] == declared_by(systems, system, n)[i].schema,
    decreases n,
{
    let before = declared_by(systems, system, (n - 1) as nat);
    if i < before.len() {
        lemma_declared_by_is_shared(systems, system, (n - 1) as nat, i);
    } else {
        assert(declared_by(systems, system, n)[i].schema == system.channels@[n - 1]);
    }
}

proof fn lemma_declared_is_shared(systems: Seq<FieldSystemStatus>, n: nat, i: int)
    requires
        n <= systems.len(),
        0 <= i < declared(systems, n).len(),
    ensures
        !crate::source::composed(systems, declared(systems, n)[i].schema.id.plugin@),
        exists|s: int|
            0 <= s < n && (#[trigger] systems[s]).plugin.id == declared(systems, n)[i].plugin
                && systems[s].enabled == declared(systems, n)[i].enabled,
    decreases n,
{
    let before = declared(systems, (n - 1) as nat);
    if i < before.len() {
        lemma_declared_is_shared(systems, (n - 1) as nat, i);
        assert(declared(systems, n)[i] == before[i]);
    } else {
        let own = declared_by(systems, systems[n - 1], systems[n - 1].channels@.len());
        lemma_declared_by_is_shared(
            systems,
            systems[n - 1],
            systems[n - 1].channels@.len(),
            i - before.len(),
        );
        assert(declared(systems, n)[i] == own[i - before.len()]);
    }
}

/// What a method computes in its own namespace is no field of the scene.
pub proof fn method_outputs_are_not_listed(rows: Seq<FieldRow>, systems: Seq<FieldSystemStatus>, k: int)
    requires
        rows_for(rows, declared(systems, systems.len())),
        0 <= k < rows.len(),
    ensures
        !crate::source::composed(systems, rows[k].channel.plugin@),
{
    let d = declared(systems, systems.len());
    assert(row_tells(rows[k], d));
    let i = choose|i: int| #[trigger] first_declared(d, rows[k].channel@, i);
    lemma_declared_is_shared(systems, systems.len(), i);
}

proof fn lemma_provider_is_active(
    systems: Seq<FieldSystemStatus>,
    d: Seq<Declaration>,
    c: (Seq<char>, Seq<char>),
    n: nat,
)
    requires
        d == declared(systems, systems.len()),
        n <= d.len(),
    ensures
        provider_of(d, c, n) matches Some(plugin) ==> crate::source::active(systems, plugin@),
    decreases n,
{
    if n > 0 {
        if d[n - 1].schema.id@ == c && d[n - 1].enabled {
            lemma_declared_is_shared(systems, systems.len(), n - 1);
        } else {
            lemma_provider_is_active(systems, d, c, (n - 1) as nat);
        }
    }
}

/// The provider of a field is always an enabled system.
pub proof fn providers_are_active(rows: Seq<FieldRow>, systems: Seq<FieldSystemStatus>, k: int)
    requires
        rows_for(rows, declared(systems, systems.len())),
        0 <= k < rows.len(),
    ensures
        rows[k].provider matches Some(plugin) ==> crate::source::active(systems, plugin@),
{
    let d = declared(systems, systems.len());
    assert(row_tells(rows[k], d));
    lemma_provider_is_active(systems, d, rows[k].channel@, d.len());
}

proof fn lemma_declared_by_lists(
    systems: Seq<FieldSystemStatus>,
    system: FieldSystemStatus,
    n: nat,
    j: int,
)
    requires
        0 <= j < n <= system.channels@.len(),
        !crate::source::composed(systems, system.channels@[j].id.plugin@),
    ensures
        mentioned(declared_by(systems, system, n), system.channels@[j].id@),
    decreases n,
{
    let whole = declared_by(systems, system, n);
    if j < n - 1 {
        lemma_declared_by_lists(systems, system, (n - 1) as nat, j);
        let before = declared_by(systems, system, (n - 1) as nat);
        let i = choose|i: int|
            0 <= i < before.len() && (#[trigger] before[i]).schema.id@ == system.channels@[j].id@;
        assert(whole[i] == before[i]);
    } else {
        assert(whole[whole.len() - 1].schema == system.channels@[j]);
    }
}

proof fn lemma_declared_lists(systems: Seq<FieldSystemStatus>, n: nat, s: int, j: int)
    requires
        0 <= s < n <= systems.len(),
        0 <= j < systems[s].channels@.len(),
        !crate::source::composed(systems, systems[s].channels@[j].id.plugin@),
    ensures
        mentioned(declared(systems, n), systems[s].channels@[j].id@),
    decreases n,
{
    let c = systems[s].channels@[j].id@;
    let before = declared(systems, (n - 1) as nat);
    let own = declared_by(systems, systems[n - 1], systems[n - 1].channels@.len());
    let whole = declared(systems, n);
    if s < n - 1 {
        lemma_declared_lists(systems, (n - 1) as nat, s, j);
        let i = choose|i: int| 0 <= i < before.len() && (#[trigger] before[i]).schema.id@ == c;
        assert(whole[i] == before[i]);
    } else {
        lemma_declared_by_lists(systems, systems[s], systems[s].channels@.len(), j);
        let i = choose|i: int| 0 <= i < own.len() && (#[trigger] own[i]).schema.id@ == c;
        assert(whole[before.len() + i] == own[i]);
    }
}

/// A field that some composed system declares is listed even while nothing
/// computes it, so the control that would turn it on is reachable.
pub proof fn declared_fields_are_listed(
    rows: Seq<FieldRow>,
    systems: Seq<FieldSystemStatus>,
    s: int,
    j: int,
)
    requires
        rows_for(rows, declared(systems, systems.len())),
        0 <= s < systems.len(),
        0 <= j < systems[s].channels@.len(),
        !crate::source::composed(systems, systems[s].channels@[j].id.plugin@),
    ensures
        has_row(rows, systems[s].channels@[j].id@),
{
    lemma_declared_lists(systems, systems.len(), s, j);
    assert(mentioned(declared(systems, systems.len()), systems[s].channels@[j].id@));
}

proof fn lemma_candidates_are_the_systems_that_declare(d: Seq<Declaration>, channel: (Seq<char>, Seq<char>), n: nat) -> (at: Seq<int>)
    requires
        n <= d.len(),
    ensures
        at.len() == candidates_of(d, channel, n).len(),
        forall|a: int, b: int| 0 <= a < b < at.len() ==> #[trigger] at[a] < #[trigger] at[b],
        forall|k: int|
            0 <= k < at.len() ==> {
                &&& 0 <= #[trigger] at[k] < n
                &&& d[at[k]].schema.id@ == channel
                &&& candidates_of(d, channel, n)[k] == d[at[k]].plugin
            },
        forall|i: int| 0 <= i < n && (#[trigger] d[i]).schema.id@ == channel ==> at.contains(i),
    decreases n,
{
    if n == 0 {
        Seq::empty()
    } else {
        let before = lemma_candidates_are_the_systems_that_declare(d, channel, (n - 1) as nat);
        if d[n - 1].schema.id@ == channel {
            let at = before.push(n - 1);
            assert forall|i: int| 0 <= i < n && (#[trigger] d[i]).schema.id@ == channel implies at.contains(i) by {
                if i < n - 1 {
                    let k = choose|k: int| 0 <= k < before.len() && before[k] == i;
                    assert(at[k] == i);
                } else {
                    assert(at[before.len() as int] == i);
                }
            }
            at
        } else {
            before
        }
    }
}

/// The models that could compute a field are those that declare it, all of them and in the
/// order they declare it.
pub proof fn candidates_are_the_systems_that_declare(d: Seq<Declaration>, channel: (Seq<char>, Seq<char>)) -> (at: Seq<int>)
    ensures
        at.len() == candidates_of(d, channel, d.len()).len(),
        forall|a: int, b: int| 0 <= a < b < at.len() ==> #[trigger] at[a] < #[trigger] at[b],
        forall|k: int|
            0 <= k < at.len() ==> {
                &&& 0 <= #[trigger] at[k] < d.len()
                &&& d[at[k]].schema.id@ == channel
                &&& candidates_of(d, channel, d.len())[k] == d[at[k]].plugin
            },
        forall|i: int| 0 <= i < d.len() && (#[trigger] d[i]).schema.id@ == channel ==> at.contains(i),
{
    lemma_candidates_are_the_systems_that_declare(d, channel, d.len())
}

proof fn lemma_provider(d: Seq<Declaration>, channel: (Seq<char>, Seq<char>), n: nat)
    requires
        n <= d.len(),
    ensures
        forall|i: int|
            0 <= i < n && (#[trigger] d[i]).schema.id@ == channel && d[i].enabled && (forall|k: int|
                i < k < n && (#[trigger] d[k]).schema.id@ == channel ==> !d[k].enabled) ==> provider_of(
                d,
                channel,
                n,
            ) == Some(d[i].plugin),
        (forall|i: int| 0 <= i < n && (#[trigger] d[i]).schema.id@ == channel ==> !d[i].enabled)
            ==> provider_of(d, channel, n) is None,
    decreases n,
{
    if n > 0 {
        lemma_provider(d, channel, (n - 1) as nat);
        assert(d[n - 1].schema.id@ == channel || d[n - 1].schema.id@ != channel);
    }
}

/// The model that computes a field is the last active one that declares it, and none where no
/// active one does.
pub proof fn a_field_is_computed_by_an_active_system(d: Seq<Declaration>, channel: (Seq<char>, Seq<char>))
    ensures
        forall|i: int|
            0 <= i < d.len() && (#[trigger] d[i]).schema.id@ == channel && d[i].enabled && (forall|k: int|
                i < k < d.len() && (#[trigger] d[k]).schema.id@ == channel ==> !d[k].enabled)
                ==> provider_of(d, channel, d.len()) == Some(d[i].plugin),
        (forall|i: int| 0 <= i < d.len() && (#[trigger] d[i]).schema.id@ == channel ==> !d[i].enabled)
            ==> provider_of(d, channel, d.len()) is None,
{
    lemma_provider(d, channel, d.len());
}

/// A row says of its field what the first declaration of it says.
pub proof fn a_row_says_what_was_declared_first(row: FieldRow, d: Seq<Declaration>, i: int)
    requires
        row_tells(row, d),
        0 <= i < d.len(),
        d[i].schema.id@ == row.channel@,
        forall|k: int| 0 <= k < i ==> (#[trigger] d[k]).schema.id@ != row.channel@,
    ensures
        row.channel == d[i].schema.id,
        row.display_name == d[i].schema.display_name,
        row.value_kind == d[i].schema.value_kind,
        row.candidates@ == candidates_of(d, row.channel@, d.len()),
        row.provider == provider_of(d, row.channel@, d.len()),
{
    let j = choose|j: int|
        #[trigger] first_declared(d, row.channel@, j) && row.channel == d[j].schema.id
            && row.display_name == d[j].schema.display_name && row.value_kind
            == d[j].schema.value_kind;
    assert(first_declared(d, row.channel@, i));
    lemma_first_is_unique(d, row.channel@, i, j);
}

/// Fields are listed by name, and fields of one name in the order they were declared.
pub proof fn fields_are_listed_by_name(rows: Seq<FieldRow>, d: Seq<Declaration>, k: int, l: int)
    requires
        rows_for(rows, d),
        0 <= k < l < rows.len(),
    ensures
        rows[k].display_name@ == rows[l].display_name@ || crate::text::text_before(
            rows[k].display_name@,
            rows[l].display_name@,
        ),
        rows[k].display_name@ == rows[l].display_name@ ==> exists|i: int, j: int|
            0 <= i < j < d.len() && (#[trigger] d[i]).schema.id@ == rows[k].channel@ && (
            #[trigger] d[j]).schema.id@ == rows[l].channel@,
{
    assert(row_before(rows[k], rows[l], d));
    if rows[k].display_name@ == rows[l].display_name@ {
        crate::text::text_before_irreflexive(rows[k].display_name@);
        let (i, j) = choose|i: int, j: int| #[trigger]
            first_declared(d, rows[k].channel@, i) && #[trigger] first_declared(
                d,
                rows[l].channel@,
                j,
            ) && i < j;
        assert(d[i].schema.id@ == rows[k].channel@ && d[j].schema.id@ == rows[l].channel@);
    }
}

proof fn lemma_declared_by(
    systems: Seq<FieldSystemStatus>,
    system: FieldSystemStatus,
    n: nat,
) -> (at: Seq<int>)
    requires
        n <= system.channels@.len(),
    ensures
        at.len() == declared_by(systems, system, n).len(),
        forall|a: int, b: int| 0 <= a < b < at.len() ==> #[trigger] at[a] < #[trigger] at[b],
        forall|k: int|
            0 <= k < at.len() ==> {
                &&& 0 <= #[trigger] at[k] < n
                &&& !crate::source::composed(systems, system.channels@[at[k]].id.plugin@)
                &&& declared_by(systems, system, n)[k].schema == system.channels@[at[k]]
                &&& declared_by(systems, system, n)[k].plugin == system.plugin.id
                &&& declared_by(systems, system, n)[k].enabled == system.enabled
            },
        forall|j: int|
            0 <= j < n && !crate::source::composed(
                systems,
                (#[trigger] system.channels@[j]).id.plugin@,
            ) ==> at.contains(j),
    decreases n,
{
    if n == 0 {
        Seq::empty()
    } else {
        let before = lemma_declared_by(systems, system, (n - 1) as nat);
        if !crate::source::composed(systems, system.channels@[n - 1].id.plugin@) {
            let at = before.push(n - 1);
            assert forall|j: int|
                0 <= j < n && !crate::source::composed(
                    systems,
                    (#[trigger] system.channels@[j]).id.plugin@,
                ) implies at.contains(j) by {
                if j < n - 1 {
                    let k = choose|k: int| 0 <= k < before.len() && before[k] == j;
                    assert(at[k] == j);
                } else {
                    assert(at[before.len() as int] == j);
                }
            }
            at
        } else {
            before
        }
    }
}

proof fn lemma_declared(systems: Seq<FieldSystemStatus>, n: nat) -> (at: Seq<(int, int)>)
    requires
        n <= systems.len(),
    ensures
        at.len() == declared(systems, n).len(),
        forall|a: int, b: int|
            0 <= a < b < at.len() ==> crate::source::pair_before(#[trigger] at[a], #[trigger] at[b]),
        forall|k: int|
            0 <= k < at.len() ==> {
                &&& 0 <= (#[trigger] at[k]).0 < n
                &&& 0 <= at[k].1 < systems[at[k].0].channels@.len()
                &&& !crate::source::composed(
                    systems,
                    systems[at[k].0].channels@[at[k].1].id.plugin@,
                )
                &&& declared(systems, n)[k].schema == systems[at[k].0].channels@[at[k].1]
                &&& declared(systems, n)[k].plugin == systems[at[k].0].plugin.id
                &&& declared(systems, n)[k].enabled == systems[at[k].0].enabled
            },
        forall|i: int, j: int|
            0 <= i < n && 0 <= j < systems[i].channels@.len() && !crate::source::composed(
                systems,
                systems[i].channels@[j].id.plugin@,
            ) ==> #[trigger] at.contains((i, j)),
    decreases n,
{
    if n == 0 {
        Seq::empty()
    } else {
        let before = lemma_declared(systems, (n - 1) as nat);
        let own = lemma_declared_by(systems, systems[n - 1], systems[n - 1].channels@.len());
        let pairs = Seq::new(own.len(), |k: int| (n - 1, own[k]));
        let at = before + pairs;
        assert forall|i: int, j: int|
            0 <= i < n && 0 <= j < systems[i].channels@.len() && !crate::source::composed(
                systems,
                systems[i].channels@[j].id.plugin@,
            ) implies #[trigger] at.contains((i, j)) by {
            if i < n - 1 {
                assert(before.contains((i, j)));
                let k = choose|k: int| 0 <= k < before.len() && before[k] == (i, j);
                assert(at[k] == (i, j));
            } else {
                assert(own.contains(j));
                let k = choose|k: int| 0 <= k < own.len() && own[k] == j;
                assert(at[before.len() + k] == (i, j));
            }
        }
        at
    }
}

/// The declarations that make the fields of a scene are those of every composed system, active
/// or not, of channels that no composed plugin claims for itself: all of them, in catalog
/// order, each with the plugin that made it and whether that is active.
pub proof fn shared_channels_are_declared_in_catalog_order(systems: Seq<FieldSystemStatus>) -> (at: Seq<
    (int, int),
>)
    ensures
        at.len() == declared(systems, systems.len()).len(),
        forall|a: int, b: int|
            0 <= a < b < at.len() ==> (#[trigger] at[a]).0 < (#[trigger] at[b]).0 || (at[a].0 == at[b].0
                && at[a].1 < at[b].1),
        forall|k: int|
            0 <= k < at.len() ==> {
                &&& 0 <= (#[trigger] at[k]).0 < systems.len()
                &&& 0 <= at[k].1 < systems[at[k].0].channels@.len()
                &&& declared(systems, systems.len())[k].schema == systems[at[k].0].channels@[at[k].1]
                &&& declared(systems, systems.len())[k].plugin == systems[at[k].0].plugin.id
                &&& declared(systems, systems.len())[k].enabled == systems[at[k].0].enabled
            },
        forall|k: int, s: int|
            0 <= k < at.len() && 0 <= s < systems.len() ==> (#[trigger] systems[s]).plugin.id@
                != systems[(#[trigger] at[k]).0].channels@[at[k].1].id.plugin@,
        forall|i: int, j: int|
            0 <= i < systems.len() && 0 <= j < systems[i].channels@.len() && !crate::source::composed(
                systems,
                systems[i].channels@[j].id.plugin@,
            ) ==> #[trigger] at.contains((i, j)),
{
    let at = lemma_declared(systems, systems.len());
    assert forall|a: int, b: int| 0 <= a < b < at.len() implies (#[trigger] at[a]).0 < (
    #[trigger] at[b]).0 || (at[a].0 == at[b].0 && at[a].1 < at[b].1) by {
        assert(crate::source::pair_before(at[a], at[b]));
    }
    at
}

/// A field is called a scalar or a vector as it was declared, with its dimension.
pub proof fn a_field_is_called_by_its_kind(row: FieldRow)
    ensures
        row.value_kind matches FieldValueKind::Scalar(dimension) ==> row.kind_words() == "scalar · "@
            + dimension.written@,
        row.value_kind matches FieldValueKind::Vector(dimension) ==> row.kind_words() == "vector · "@
            + dimension.written@,
{
}

/// Lists of rows that say the same have as many rows, and each says of its own field what the
/// other does: the field, its name, its kind, its candidates and its provider.
pub proof fn same_rows_say_the_same(a: Seq<FieldRow>, b: Seq<FieldRow>)
    requires
        same_rows(a, b),
    ensures
        a.len() == b.len(),
        forall|i: int|
            0 <= i < a.len() ==> (#[trigger] a[i]).channel == b[i].channel && a[i].display_name
                == b[i].display_name && a[i].value_kind == b[i].value_kind && a[i].candidates@
                == b[i].candidates@ && a[i].provider == b[i].provider,
{
    assert forall|i: int| 0 <= i < a.len() implies (#[trigger] a[i]).channel == b[i].channel
        && a[i].display_name == b[i].display_name && a[i].value_kind == b[i].value_kind
        && a[i].candidates@ == b[i].candidates@ && a[i].provider == b[i].provider by {
        assert(same_row(a[i], b[i]));
    }
}

} // verus!
