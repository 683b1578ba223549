//! Identities of the things a scene holds.

use crate::ordered::{Copied, MapKey};
use crate::text::{comes_before, same_text, text_before, text_before_irreflexive, text_before_total, text_before_transitive};
use vstd::prelude::*;

verus! {

/// A durable numeric identity of one kind of thing.
#[derive(Clone, Copy, Debug, PartialEq, Eq)]
pub struct Id<const KIND: u8> {
    raw: u64,
}

pub type ObjectId = Id<0>;

pub type PlaneId = Id<1>;

pub type BoxId = Id<2>;

pub type SphereId = Id<3>;

pub type ProbeId = Id<4>;

pub type DistanceProbeId = Id<5>;

pub type MassAggregateProbeId = Id<6>;

pub type ConstantId = Id<7>;

pub type CommandId = Id<8>;

/// One of the integration schemes the dynamics system offers.
pub type SchemeId = Id<9>;

impl<const KIND: u8> Id<KIND> {
    /// The number of the identity.
    pub closed spec fn number(self) -> u64 {
        self.raw
    }

    pub fn new(raw: u64) -> (id: Self)
        ensures
            id.number() == raw,
    {
        Id { raw }
    }

    pub fn get(self) -> (raw: u64)
        ensures
            raw == self.number(),
    {
        self.raw
    }

    /// Whether two identities are one.
    pub fn is(self, other: Self) -> (b: bool)
        ensures
            b == (self == other),
            b == (self.number() == other.number()),
    {
        self.raw == other.raw
    }
}

impl<const KIND: u8> MapKey for Id<KIND> {
    type Key = u64;

    open spec fn key(&self) -> u64 {
        self.number()
    }

    open spec fn key_before(a: u64, b: u64) -> bool {
        a < b
    }

    proof fn order_is_irreflexive(a: u64) {
    }

    proof fn order_is_transitive(a: u64, b: u64, c: u64) {
    }

    proof fn order_is_total(a: u64, b: u64) {
    }

    fn before(&self, other: &Self) -> (r: bool) {
        self.raw < other.raw
    }

    fn same(&self, other: &Self) -> (r: bool) {
        self.raw == other.raw
    }
}

impl<const KIND: u8> Copied for Id<KIND> {
    fn copied(&self) -> (copy: Self) {
        *self
    }
}

/// A name that identifies by its text.
#[derive(Debug, PartialEq, Eq)]
pub struct Token {
    pub text: String,
}

/// The namespace of a plugin.
pub type PluginId = Token;

/// The name of a property within its component.
pub type PropertyId = Token;

impl View for Token {
    type V = Seq<char>;

    open spec fn view(&self) -> Seq<char> {
        self.text@
    }
}

impl Clone for Token {
    fn clone(&self) -> (copy: Self)
        ensures
            copy == *self,
    {
        Token { text: self.text.clone() }
    }
}

impl Copied for Token {
    fn copied(&self) -> (copy: Self) {
        self.clone()
    }
}

impl MapKey for Token {
    type Key = Seq<char>;

    open spec fn key(&self) -> Seq<char> {
        self@
    }

    open spec fn key_before(a: Seq<char>, b: Seq<char>) -> bool {
        text_before(a, b)
    }

    proof fn order_is_irreflexive(a: Seq<char>) {
        text_before_irreflexive(a);
    }

    proof fn order_is_transitive(a: Seq<char>, b: Seq<char>, c: Seq<char>) {
        text_before_transitive(a, b, c);
    }

    proof fn order_is_total(a: Seq<char>, b: Seq<char>) {
        text_before_total(a, b);
    }

    fn before(&self, other: &Self) -> (r: bool) {
        let mine = self.text.as_str();
        let theirs = other.text.as_str();
        assert(self.key() == mine@ && other.key() == theirs@);
        assert(Self::key_before(self.key(), other.key()) == text_before(mine@, theirs@));
        comes_before(mine, theirs)
    }

    fn same(&self, other: &Self) -> (r: bool) {
        let mine = self.text.as_str();
        let theirs = other.text.as_str();
        assert(self.key() == mine@ && other.key() == theirs@);
        same_text(mine, theirs)
    }
}

/// A name within the namespace of a plugin, with the way it is written out.
#[derive(Debug, PartialEq, Eq)]
pub struct QualifiedId {
    pub plugin: PluginId,
    pub name: String,
    /// How the identity reads where nothing better names it.
    pub written: String,
}

/// The identity of a field channel.
pub type ChannelId = QualifiedId;

/// The identity of a kind of component.
pub type ComponentTypeId = QualifiedId;

/// The order of pairs of texts, the first text deciding first.
pub open spec fn pair_before(a: (Seq<char>, Seq<char>), b: (Seq<char>, Seq<char>)) -> bool {
    text_before(a.0, b.0) || (a.0 == b.0 && text_before(a.1, b.1))
}

/// Two qualified names are the same identity when their namespaces and their
/// names are the same.
impl View for QualifiedId {
    type V = (Seq<char>, Seq<char>);

    open spec fn view(&self) -> (Seq<char>, Seq<char>) {
        (self.plugin@, self.name@)
    }
}

impl Clone for QualifiedId {
    fn clone(&self) -> (copy: Self)
        ensures
            copy == *self,
    {
        QualifiedId {
            plugin: self.plugin.clone(),
            name: self.name.clone(),
            written: self.written.clone(),
        }
    }
}

impl Copied for QualifiedId {
    fn copied(&self) -> (copy: Self) {
        self.clone()
    }
}

impl MapKey for QualifiedId {
    type Key = (Seq<char>, Seq<char>);

    open spec fn key(&self) -> (Seq<char>, Seq<char>) {
        self@
    }

    open spec fn key_before(a: (Seq<char>, Seq<char>), b: (Seq<char>, Seq<char>)) -> bool {
        pair_before(a, b)
    }

    proof fn order_is_irreflexive(a: (Seq<char>, Seq<char>)) {
        text_before_irreflexive(a.0);
        text_before_irreflexive(a.1);
    }

    proof fn order_is_transitive(
        a: (Seq<char>, Seq<char>),
        b: (Seq<char>, Seq<char>),
        c: (Seq<char>, Seq<char>),
    ) {
        if text_before(a.0, b.0) && text_before(b.0, c.0) {
            text_before_transitive(a.0, b.0, c.0);
        } else if a.0 == b.0 && b.0 == c.0 {
            text_before_transitive(a.1, b.1, c.1);
        }
    }

    proof fn order_is_total(a: (Seq<char>, Seq<char>), b: (Seq<char>, Seq<char>)) {
        text_before_total(a.0, b.0);
        text_before_total(a.1, b.1);
    }

    fn before(&self, other: &Self) -> (r: bool) {
        self.plugin.before(&other.plugin) || (self.plugin.same(&other.plugin) && comes_before(
            self.name.as_str(),
            other.name.as_str(),
        ))
    }

    fn same(&self, other: &Self) -> (r: bool) {
        self.plugin.same(&other.plugin) && same_text(self.name.as_str(), other.name.as_str())
    }
}

/// Whether a list of identities holds `id`.
pub open spec fn lists<K: MapKey>(list: Seq<K>, key: K::Key) -> bool {
    exists|i: int| 0 <= i < list.len() && (#[trigger] list[i]).key() == key
}

/// Whether `list` holds `id`.
pub fn listed_in<K: MapKey>(list: &Vec<K>, id: &K) -> (b: bool)
    ensures
        b == lists(list@, id.key()),
{
    let mut i: usize = 0;
    while i < list.len()
        invariant
            i <= list.len(),
            forall|k: int| 0 <= k < i ==> (#[trigger] list[k]).key() != id.key(),
        decreases list.len() - i,
    {
        if list[i].same(id) {
            return true;
        }
        i = i + 1;
    }
    false
}

/// Whether an optional selection is `id`.
pub fn selects<const KIND: u8>(selection: Option<Id<KIND>>, id: Id<KIND>) -> (b: bool)
    ensures
        b == (selection == Some(id)),
{
    match selection {
        Some(selected) => selected.is(id),
        None => false,
    }
}

/// A list holds an identity exactly where one of its members is it.
pub proof fn a_list_holds_its_members<K: MapKey>(list: Seq<K>, more: K, key: K::Key)
    ensures
        !lists(Seq::<K>::empty(), key),
        lists(list.push(more), key) <==> lists(list, key) || more.key() == key,
{
    let longer = list.push(more);
    if lists(longer, key) {
        let i = choose|i: int| 0 <= i < longer.len() && (#[trigger] longer[i]).key() == key;
        if i < list.len() {
            assert(list[i].key() == key);
        }
    }
    if lists(list, key) {
        let i = choose|i: int| 0 <= i < list.len() && (#[trigger] list[i]).key() == key;
        assert(longer[i].key() == key);
    }
    if more.key() == key {
        assert(longer[list.len() as int].key() == key);
    }
}

/// Identities of one kind are ordered by their numbers; qualified names by their namespaces and
/// within one namespace by their names.
pub proof fn identities_are_ordered(a: ObjectId, b: ObjectId, x: QualifiedId, y: QualifiedId)
    ensures
        ObjectId::key_before(a.key(), b.key()) <==> a.number() < b.number(),
        x.plugin.text@ != y.plugin.text@ ==> (QualifiedId::key_before(x.key(), y.key()) <==> text_before(
            x.plugin.text@,
            y.plugin.text@,
        )),
        x.plugin.text@ == y.plugin.text@ ==> (QualifiedId::key_before(x.key(), y.key()) <==> text_before(
            x.name@,
            y.name@,
        )),
        x.key() == y.key() <==> x.plugin.text@ == y.plugin.text@ && x.name@ == y.name@,
{
    text_before_irreflexive(x.plugin.text@);
}

} // verus!
