//! Presentation state of every published vector channel.

use crate::compute::ComputeView;
use crate::ids::{BoxId, ChannelId, PlaneId, SphereId};
use crate::layers::{
    ChannelLayerSettings, FieldLayerSettings, LayerContent, PlaneLayerSettings, VolumeLayerSettings,
};
use crate::model::UiModel;
use crate::ordered::{MapKey, OrderedMap};
use vstd::prelude::*;

verus! {

/// The identity of a channel.
pub type ChannelKey = (Seq<char>, Seq<char>);

/// A layer nobody has configured but for its visibility.
pub open spec fn pristine(layer: ChannelLayerSettings, visible: bool) -> bool {
    layer@ == LayerContent { visible, ..LayerContent::start() }
}

/// Whether `after` is `before` with presentation state for every listed channel:
/// existing state is kept, new state is hidden, and the first field a session
/// ever sees is revealed.
pub open spec fn synchronizes(
    before: Map<ChannelKey, ChannelLayerSettings>,
    after: Map<ChannelKey, ChannelLayerSettings>,
    channels: Seq<ChannelId>,
) -> bool {
    &&& forall|k: ChannelKey| #[trigger]
        after.contains_key(k) <==> before.contains_key(k) || crate::ids::lists(channels, k)
    &&& forall|k: ChannelKey| #[trigger] before.contains_key(k) ==> after[k] == before[k]
    &&& forall|k: ChannelKey| #[trigger]
        after.contains_key(k) && !before.contains_key(k) ==> pristine(
            after[k],
            before == Map::<ChannelKey, ChannelLayerSettings>::empty() && channels[0]@ == k,
        )
}

/// Whether `after` is `before` with hidden state for the first `n` channels.
spec fn filled(
    before: Map<ChannelKey, ChannelLayerSettings>,
    after: Map<ChannelKey, ChannelLayerSettings>,
    channels: Seq<ChannelId>,
    n: nat,
) -> bool {
    &&& forall|k: ChannelKey| #[trigger]
        after.contains_key(k) <==> before.contains_key(k) || exists|i: int|
            0 <= i < n && (#[trigger] channels[i])@ == k
    &&& forall|k: ChannelKey| #[trigger] before.contains_key(k) ==> after[k] == before[k]
    &&& forall|k: ChannelKey| #[trigger]
        after.contains_key(k) && !before.contains_key(k) ==> pristine(after[k], false)
}

impl UiModel {
    /// Ensure every drawable vector channel has presentation state, and reveal
    /// the first field a session ever sees.
    ///
    /// The reveal happens once, not whenever nothing is visible: re-deciding it
    /// every frame could not tell a scene that has never shown a field from one
    /// whose last field the user just hid.
    pub fn synchronize_field_layers(&mut self, compute: &ComputeView)
        ensures
            *final(self) == (UiModel { field_layers: final(self).field_layers, ..*old(self) }),
            synchronizes(
                old(self).field_layers.map(),
                final(self).field_layers.map(),
                compute.vector_channels@,
            ),
    {
        let channels = &compute.vector_channels;
        let first_field_of_the_session: bool = self.field_layers.is_empty();
        let ghost before = self.field_layers.map();
        let mut i: usize = 0;
        while i < channels.len()
            invariant
                *channels == compute.vector_channels,
                i <= channels.len(),
                before == old(self).field_layers.map(),
                *self == (UiModel { field_layers: self.field_layers, ..*old(self) }),
                filled(before, self.field_layers.map(), channels@, i as nat),
            decreases channels.len() - i,
        {
            let ghost so_far = self.field_layers.map();
            if !self.field_layers.contains_key(&channels[i]) {
                self.field_layers.insert(channels[i].clone(), ChannelLayerSettings::default());
            }
            proof {
                assert forall|k: ChannelKey| #[trigger]
                    self.field_layers.map().contains_key(k) <==> before.contains_key(k) || exists|j: int|
                        0 <= j < i + 1 && (#[trigger] channels[j])@ == k by {
                    assert(so_far.contains_key(k) <==> before.contains_key(k) || exists|j: int|
                        0 <= j < i && (#[trigger] channels[j])@ == k);
                    if k == channels[i as int]@ {
                        assert(channels[i as int]@ == k);
                    }
                }
            }
            i = i + 1;
        }
        if first_field_of_the_session && channels.len() > 0 {
            let ghost so_far = self.field_layers.map();
            assert(channels[0]@ == channels@[0]@);
            assert(so_far.contains_key(channels[0].key()));
            match self.field_layers.remove(&channels[0]) {
                Some(layer) => {
                    let mut layer = layer;
                    layer.visible = true;
                    let ghost shown = layer;
                    self.field_layers.insert(channels[0].clone(), layer);
                    assert(self.field_layers.map() =~= so_far.insert(channels[0].key(), shown));
                },
                None => {},
            }
        }
        proof {
            let after = self.field_layers.map();
            assert forall|k: ChannelKey| #[trigger] after.contains_key(k) <==> before.contains_key(k)
                || crate::ids::lists(channels@, k) by {
                if crate::ids::lists(channels@, k) {
                    let j = choose|j: int| 0 <= j < channels@.len() && (#[trigger] channels@[j]).key() == k;
                    assert(channels[j]@ == k);
                }
            }
        }
    }
}

/// A layer that exists belongs to the user: synchronizing never changes it, so
/// a hidden layer stays hidden however often a frame is drawn.
pub proof fn existing_layers_belong_to_the_user(
    before: Map<ChannelKey, ChannelLayerSettings>,
    after: Map<ChannelKey, ChannelLayerSettings>,
    channels: Seq<ChannelId>,
    k: ChannelKey,
)
    requires
        synchronizes(before, after, channels),
        before.contains_key(k),
    ensures
        after.contains_key(k),
        after[k] == before[k],
{
}

/// A field that arrives once anything has been seen starts hidden.
pub proof fn later_fields_start_hidden(
    before: Map<ChannelKey, ChannelLayerSettings>,
    after: Map<ChannelKey, ChannelLayerSettings>,
    channels: Seq<ChannelId>,
    seen: ChannelKey,
    k: ChannelKey,
)
    requires
        synchronizes(before, after, channels),
        before.contains_key(seen),
        !before.contains_key(k),
        crate::ids::lists(channels, k),
    ensures
        after.contains_key(k),
        !after[k].visible,
{
    assert(before.dom().contains(seen));
}

/// A session that has seen nothing opens showing its first field.
pub proof fn the_first_field_is_revealed(
    after: Map<ChannelKey, ChannelLayerSettings>,
    channels: Seq<ChannelId>,
)
    requires
        synchronizes(Map::empty(), after, channels),
        channels.len() > 0,
    ensures
        after.contains_key(channels[0]@),
        after[channels[0]@].visible,
        forall|k: ChannelKey| #[trigger] after.contains_key(k) && k != channels[0]@ ==> !after[k].visible,
{
    let none = Map::<ChannelKey, ChannelLayerSettings>::empty();
    assert(channels[0].key() == channels[0]@);
    assert(crate::ids::lists(channels, channels[0]@));
    assert(after.contains_key(channels[0]@) && !none.contains_key(channels[0]@));
    assert(pristine(after[channels[0]@], true));
}

/// Synchronizing twice is synchronizing once.
pub proof fn synchronizing_is_idempotent(
    before: Map<ChannelKey, ChannelLayerSettings>,
    once: Map<ChannelKey, ChannelLayerSettings>,
    twice: Map<ChannelKey, ChannelLayerSettings>,
    channels: Seq<ChannelId>,
)
    requires
        synchronizes(before, once, channels),
        synchronizes(once, twice, channels),
    ensures
        twice == once,
{
    assert forall|k: ChannelKey| #[trigger] twice.contains_key(k) <==> once.contains_key(k) by {
        assert(once.contains_key(k) <==> before.contains_key(k) || crate::ids::lists(channels, k));
    }
    assert(twice =~= once);
}

/// What a field's layer says; one nobody has configured says what a new one does.
pub open spec fn layer_of(
    layers: Map<ChannelKey, ChannelLayerSettings>,
    channel: ChannelKey,
) -> LayerContent {
    if layers.contains_key(channel) {
        layers[channel]@
    } else {
        LayerContent::start()
    }
}

/// Whether `after` is `before` with one layer that says `content`, and every other
/// as it was.
pub open spec fn sets_layer(
    after: Map<ChannelKey, ChannelLayerSettings>,
    before: Map<ChannelKey, ChannelLayerSettings>,
    channel: ChannelKey,
    content: LayerContent,
) -> bool {
    &&& after.dom() == before.dom().insert(channel)
    &&& after[channel]@ == content
    &&& forall|k: ChannelKey|
        k != channel && #[trigger] before.contains_key(k) ==> after[k] == before[k]
}

/// How one plane draws one field, and whether the field is drawn at all. What
/// nobody has configured is at its default.
pub fn plane_settings(
    layers: &OrderedMap<ChannelId, ChannelLayerSettings>,
    channel: &ChannelId,
    plane: PlaneId,
) -> (settings: (PlaneLayerSettings, bool))
    ensures
        ({
            let layer = layer_of(layers.map(), channel@);
            &&& settings.1 == layer.visible
            &&& settings.0 == if layer.planes.contains_key(plane.number()) {
                layer.planes[plane.number()]
            } else {
                PlaneLayerSettings::start()
            }
        }),
{
    match layers.get(channel) {
        Some(layer) => {
            let settings = match layer.planes.get(&plane) {
                Some(settings) => *settings,
                None => PlaneLayerSettings::default(),
            };
            (settings, layer.visible)
        },
        None => (PlaneLayerSettings::default(), false),
    }
}

/// Take a layer out to change it; one nobody has configured is at its default.
fn take_layer(layers: &mut OrderedMap<ChannelId, ChannelLayerSettings>, channel: &ChannelId) -> (layer:
    ChannelLayerSettings)
    ensures
        final(layers).map() == old(layers).map().remove(channel@),
        layer@ == layer_of(old(layers).map(), channel@),
{
    match layers.remove(channel) {
        Some(layer) => layer,
        None => ChannelLayerSettings::default(),
    }
}

/// Put a layer back.
fn put_layer(
    layers: &mut OrderedMap<ChannelId, ChannelLayerSettings>,
    channel: &ChannelId,
    layer: ChannelLayerSettings,
)
    ensures
        final(layers).map() == old(layers).map().insert(channel@, layer),
{
    layers.insert(channel.clone(), layer);
}

/// Set how one plane draws one field. Whether the field is drawn elsewhere is
/// unaffected.
pub fn set_plane_settings(
    layers: &mut OrderedMap<ChannelId, ChannelLayerSettings>,
    channel: &ChannelId,
    plane: PlaneId,
    settings: PlaneLayerSettings,
)
    ensures
        ({
            let layer = layer_of(old(layers).map(), channel@);
            sets_layer(
                final(layers).map(),
                old(layers).map(),
                channel@,
                LayerContent {
                    planes: layer.planes.insert(plane.number(), settings),
                    ..layer
                },
            )
        }),
{
    let ghost before = layers.map();
    let mut layer = take_layer(layers, channel);
    layer.planes.insert(plane, settings);
    put_layer(layers, channel, layer);
    assert(layers.map().dom() =~= before.dom().insert(channel@));
}

/// How one box draws one field, and whether the field is drawn at all.
pub fn box_settings(
    layers: &OrderedMap<ChannelId, ChannelLayerSettings>,
    channel: &ChannelId,
    region: BoxId,
) -> (settings: (VolumeLayerSettings, bool))
    ensures
        ({
            let layer = layer_of(layers.map(), channel@);
            &&& settings.1 == layer.visible
            &&& settings.0 == if layer.boxes.contains_key(region.number()) {
                layer.boxes[region.number()]
            } else {
                VolumeLayerSettings::start()
            }
        }),
{
    match layers.get(channel) {
        Some(layer) => {
            let settings = match layer.boxes.get(&region) {
                Some(settings) => *settings,
                None => VolumeLayerSettings::default(),
            };
            (settings, layer.visible)
        },
        None => (VolumeLayerSettings::default(), false),
    }
}

/// Set how one box draws one field. Whether the field is drawn elsewhere is
/// unaffected.
pub fn set_box_settings(
    layers: &mut OrderedMap<ChannelId, ChannelLayerSettings>,
    channel: &ChannelId,
    region: BoxId,
    settings: VolumeLayerSettings,
)
    ensures
        ({
            let layer = layer_of(old(layers).map(), channel@);
            sets_layer(
                final(layers).map(),
                old(layers).map(),
                channel@,
                LayerContent { boxes: layer.boxes.insert(region.number(), settings), ..layer },
            )
        }),
{
    let ghost before = layers.map();
    let mut layer = take_layer(layers, channel);
    layer.boxes.insert(region, settings);
    put_layer(layers, channel, layer);
    assert(layers.map().dom() =~= before.dom().insert(channel@));
}

/// How one sphere draws one field, and whether the field is drawn at all.
pub fn sphere_settings(
    layers: &OrderedMap<ChannelId, ChannelLayerSettings>,
    channel: &ChannelId,
    sphere: SphereId,
) -> (settings: (VolumeLayerSettings, bool))
    ensures
        ({
            let layer = layer_of(layers.map(), channel@);
            &&& settings.1 == layer.visible
            &&& settings.0 == if layer.spheres.contains_key(sphere.number()) {
                layer.spheres[sphere.number()]
            } else {
                VolumeLayerSettings::start()
            }
        }),
{
    match layers.get(channel) {
        Some(layer) => {
            let settings = match layer.spheres.get(&sphere) {
                Some(settings) => *settings,
                None => VolumeLayerSettings::default(),
            };
            (settings, layer.visible)
        },
        None => (VolumeLayerSettings::default(), false),
    }
}

/// Set how one sphere draws one field. Whether the field is drawn elsewhere is
/// unaffected.
pub fn set_sphere_settings(
    layers: &mut OrderedMap<ChannelId, ChannelLayerSettings>,
    channel: &ChannelId,
    sphere: SphereId,
    settings: VolumeLayerSettings,
)
    ensures
        ({
            let layer = layer_of(old(layers).map(), channel@);
            sets_layer(
                final(layers).map(),
                old(layers).map(),
                channel@,
                LayerContent { spheres: layer.spheres.insert(sphere.number(), settings), ..layer },
            )
        }),
{
    let ghost before = layers.map();
    let mut layer = take_layer(layers, channel);
    layer.spheres.insert(sphere, settings);
    put_layer(layers, channel, layer);
    assert(layers.map().dom() =~= before.dom().insert(channel@));
}

/// Set whether a field is drawn at all and how it is drawn through the domain.
pub fn set_layer(
    layers: &mut OrderedMap<ChannelId, ChannelLayerSettings>,
    channel: &ChannelId,
    visible: bool,
    whole_domain: FieldLayerSettings,
)
    ensures
        sets_layer(
            final(layers).map(),
            old(layers).map(),
            channel@,
            LayerContent { visible, whole_domain, ..layer_of(old(layers).map(), channel@) },
        ),
{
    let ghost before = layers.map();
    let mut layer = take_layer(layers, channel);
    layer.visible = visible;
    layer.whole_domain = whole_domain;
    put_layer(layers, channel, layer);
    assert(layers.map().dom() =~= before.dom().insert(channel@));
}

/// Hiding a field on one plane hides it on no other, and nowhere else.
pub proof fn a_plane_is_configured_alone(
    before: Map<ChannelKey, ChannelLayerSettings>,
    after: Map<ChannelKey, ChannelLayerSettings>,
    channel: ChannelKey,
    plane: u64,
    settings: PlaneLayerSettings,
)
    requires
        sets_layer(
            after,
            before,
            channel,
            LayerContent {
                planes: layer_of(before, channel).planes.insert(plane, settings),
                ..layer_of(before, channel)
            },
        ),
    ensures
        layer_of(after, channel).planes[plane] == settings,
        layer_of(after, channel).visible == layer_of(before, channel).visible,
        layer_of(after, channel).whole_domain == layer_of(before, channel).whole_domain,
        layer_of(after, channel).boxes == layer_of(before, channel).boxes,
        layer_of(after, channel).spheres == layer_of(before, channel).spheres,
        forall|other: u64|
            other != plane && #[trigger] layer_of(before, channel).planes.contains_key(other)
                ==> layer_of(after, channel).planes[other] == layer_of(before, channel).planes[other],
        forall|other: ChannelKey|
            other != channel ==> #[trigger] layer_of(after, other) == layer_of(before, other),
{
    assert(after.dom().contains(channel));
    assert forall|other: ChannelKey| other != channel implies #[trigger] layer_of(after, other)
        == layer_of(before, other) by {
        assert(after.dom().contains(other) == before.dom().contains(other));
        if before.contains_key(other) {
            assert(after[other] == before[other]);
        }
    }
}

/// What a session has not configured starts as documented, and what it has is what its layer
/// says.
pub proof fn a_layer_says_what_was_set(layers: Map<ChannelKey, ChannelLayerSettings>, channel: ChannelKey)
    ensures
        layers.contains_key(channel) ==> layer_of(layers, channel).visible == layers[channel].visible
            && layer_of(layers, channel).whole_domain == layers[channel].whole_domain && layer_of(
            layers,
            channel,
        ).planes == layers[channel].planes.map() && layer_of(layers, channel).boxes
            == layers[channel].boxes.map() && layer_of(layers, channel).spheres
            == layers[channel].spheres.map(),
        !layers.contains_key(channel) ==> !layer_of(layers, channel).visible && layer_of(
            layers,
            channel,
        ).planes == Map::<u64, PlaneLayerSettings>::empty(),
{
}

/// Setting a layer sets that layer alone.
pub proof fn a_layer_is_set_alone(
    after: Map<ChannelKey, ChannelLayerSettings>,
    before: Map<ChannelKey, ChannelLayerSettings>,
    channel: ChannelKey,
    content: LayerContent,
    other: ChannelKey,
)
    requires
        sets_layer(after, before, channel, content),
    ensures
        layer_of(after, channel) == content,
        other != channel ==> layer_of(after, other) == layer_of(before, other),
        other != channel ==> (after.contains_key(other) <==> before.contains_key(other)),
{
    assert(after.dom().contains(channel));
    if other != channel {
        assert(after.dom().contains(other) == before.dom().contains(other));
        if before.contains_key(other) {
            assert(after[other] == before[other]);
        }
    }
}

} // verus!
