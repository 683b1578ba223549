use fieldcad_desktop::field_layers::{
    box_settings, plane_settings, set_box_settings, set_plane_settings, set_sphere_settings,
    sphere_settings,
};
use fieldcad_desktop::ids::{BoxId, ChannelId, PlaneId, PluginId, SphereId};
use fieldcad_desktop::layers::{
    ChannelLayerSettings, FieldLayerSettings, PlaneLayerSettings, PlaneVectorMode,
    VolumeLayerSettings,
};
use fieldcad_desktop::ordered::OrderedMap;

#[test]
fn new_planes_default_to_in_plane_vectors() {
    let settings = PlaneLayerSettings::default();

    assert_eq!(settings.vector_mode, PlaneVectorMode::InPlane);
    assert!(settings.vectors.visible);
    assert!(settings.magnitude_visible);
}

#[test]
fn a_plane_and_the_whole_domain_configure_their_arrows_identically() {
    let plane = PlaneLayerSettings::default().vectors;
    let domain = FieldLayerSettings::default().vectors;

    assert_eq!(f64::from_bits(plane.scale.bits), 1.0);
    assert_eq!(domain.scale, plane.scale);
    assert!(plane.visible);
    assert!(!domain.visible);
    assert!(domain.density < plane.density);
}

fn field(name: &str) -> ChannelId {
    ChannelId {
        plugin: PluginId {
            text: "draw.test".to_owned(),
        },
        name: name.to_owned(),
        written: format!("draw.test/{name}"),
    }
}

#[test]
fn configuring_one_region_leaves_every_other_as_it_was() {
    let mut layers: OrderedMap<ChannelId, ChannelLayerSettings> = OrderedMap::new();
    let hidden = PlaneLayerSettings {
        visible: false,
        ..PlaneLayerSettings::default()
    };
    set_plane_settings(&mut layers, &field("flow"), PlaneId::new(1), hidden);

    assert_eq!(
        plane_settings(&layers, &field("flow"), PlaneId::new(1)),
        (hidden, false)
    );
    assert_eq!(
        plane_settings(&layers, &field("flow"), PlaneId::new(2)),
        (PlaneLayerSettings::default(), false)
    );
    assert_eq!(
        plane_settings(&layers, &field("heat"), PlaneId::new(1)),
        (PlaneLayerSettings::default(), false)
    );
    assert_eq!(
        layers.get(&field("flow")).unwrap().whole_domain,
        FieldLayerSettings::default()
    );
}

#[test]
fn a_box_and_a_sphere_of_one_number_are_configured_apart() {
    let mut layers: OrderedMap<ChannelId, ChannelLayerSettings> = OrderedMap::new();
    let mut dense = VolumeLayerSettings::default();
    dense.vectors.density = 20;
    let mut hidden = VolumeLayerSettings::default();
    hidden.visible = false;
    set_box_settings(&mut layers, &field("flow"), BoxId::new(4), dense);
    set_sphere_settings(&mut layers, &field("flow"), SphereId::new(4), hidden);

    assert_eq!(
        box_settings(&layers, &field("flow"), BoxId::new(4)),
        (dense, false)
    );
    assert_eq!(
        sphere_settings(&layers, &field("flow"), SphereId::new(4)),
        (hidden, false)
    );
    assert_eq!(
        sphere_settings(&layers, &field("flow"), SphereId::new(5)),
        (VolumeLayerSettings::default(), false)
    );
}
