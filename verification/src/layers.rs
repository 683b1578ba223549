//! What the 3D view draws, as distinct from what the world contains.
//!
//! These are presentation settings and nothing else: hiding probes does not stop
//! them recording, and hiding objects does not stop them sourcing a field.

use crate::ids::{BoxId, PlaneId, SphereId};
use crate::measured::{one, Number};
use crate::ordered::OrderedMap;
use vstd::prelude::*;

verus! {

/// How a vector field is drawn as arrows over any region.
#[derive(Clone, Copy, Debug, PartialEq, Eq, Structural)]
pub struct VectorDisplay {
    pub visible: bool,
    /// Arrows along the longest axis.
    pub density: u32,
    /// Multiplies the arrow length.
    pub scale: Number,
}

/// Whether a vector field is drawn as flow lines, independently of its arrows.
#[derive(Clone, Copy, Debug, PartialEq, Eq, Structural)]
pub struct FlowLineDisplay {
    pub visible: bool,
}

/// Which part of a vector a plane draws.
#[derive(Clone, Copy, Debug, PartialEq, Eq, Structural)]
pub enum PlaneVectorMode {
    /// The projection into the plane.
    InPlane,
    /// The component normal to the plane too.
    Full3d,
}

/// How one plane draws one field.
#[derive(Clone, Copy, Debug, PartialEq, Eq, Structural)]
pub struct PlaneLayerSettings {
    pub visible: bool,
    pub magnitude_visible: bool,
    pub magnitude_density: u32,
    pub vectors: VectorDisplay,
    pub flow_lines: FlowLineDisplay,
    pub vector_mode: PlaneVectorMode,
}

impl PlaneLayerSettings {
    /// Everything a plane can show but flow lines, projected into the plane.
    pub open spec fn start() -> Self {
        PlaneLayerSettings {
            visible: true,
            magnitude_visible: true,
            magnitude_density: 64,
            vectors: VectorDisplay { visible: true, density: 16, scale: one() },
            flow_lines: FlowLineDisplay { visible: false },
            vector_mode: PlaneVectorMode::InPlane,
        }
    }
}

impl Default for PlaneLayerSettings {
    fn default() -> (settings: Self)
        ensures
            settings == Self::start(),
    {
        PlaneLayerSettings {
            visible: true,
            magnitude_visible: true,
            magnitude_density: 64,
            vectors: VectorDisplay { visible: true, density: 16, scale: one() },
            flow_lines: FlowLineDisplay { visible: false },
            vector_mode: PlaneVectorMode::InPlane,
        }
    }
}

/// How one box or sphere draws one field.
#[derive(Clone, Copy, Debug, PartialEq, Eq, Structural)]
pub struct VolumeLayerSettings {
    pub visible: bool,
    pub vectors: VectorDisplay,
    pub flow_lines: FlowLineDisplay,
}

impl VolumeLayerSettings {
    /// Arrows, but sparser than a plane's, and no flow lines.
    pub open spec fn start() -> Self {
        VolumeLayerSettings {
            visible: true,
            vectors: VectorDisplay { visible: true, density: 8, scale: one() },
            flow_lines: FlowLineDisplay { visible: false },
        }
    }
}

impl Default for VolumeLayerSettings {
    fn default() -> (settings: Self)
        ensures
            settings == Self::start(),
    {
        VolumeLayerSettings {
            visible: true,
            vectors: VectorDisplay { visible: true, density: 8, scale: one() },
            flow_lines: FlowLineDisplay { visible: false },
        }
    }
}

/// How one field is drawn through the whole domain.
#[derive(Clone, Copy, Debug, PartialEq, Eq, Structural)]
pub struct FieldLayerSettings {
    pub vectors: VectorDisplay,
    pub flow_lines: FlowLineDisplay,
}

impl FieldLayerSettings {
    /// Volume glyphs occlude, so they start hidden and sparser than a plane's.
    pub open spec fn start() -> Self {
        FieldLayerSettings {
            vectors: VectorDisplay { visible: false, density: 8, scale: one() },
            flow_lines: FlowLineDisplay { visible: false },
        }
    }
}

impl Default for FieldLayerSettings {
    fn default() -> (settings: Self)
        ensures
            settings == Self::start(),
    {
        FieldLayerSettings {
            vectors: VectorDisplay { visible: false, density: 8, scale: one() },
            flow_lines: FlowLineDisplay { visible: false },
        }
    }
}

/// How one published vector channel is drawn everywhere.
#[derive(Debug)]
pub struct ChannelLayerSettings {
    /// Whether the field is drawn at all.
    pub visible: bool,
    pub whole_domain: FieldLayerSettings,
    pub planes: OrderedMap<PlaneId, PlaneLayerSettings>,
    pub boxes: OrderedMap<BoxId, VolumeLayerSettings>,
    pub spheres: OrderedMap<SphereId, VolumeLayerSettings>,
}

/// What a layer says, each region by its number.
#[verifier::ext_equal]
pub struct LayerContent {
    pub visible: bool,
    pub whole_domain: FieldLayerSettings,
    pub planes: Map<u64, PlaneLayerSettings>,
    pub boxes: Map<u64, VolumeLayerSettings>,
    pub spheres: Map<u64, VolumeLayerSettings>,
}

impl LayerContent {
    /// A layer nobody has configured: hidden, with nothing set anywhere.
    pub open spec fn start() -> Self {
        LayerContent {
            visible: false,
            whole_domain: FieldLayerSettings::start(),
            planes: Map::empty(),
            boxes: Map::empty(),
            spheres: Map::empty(),
        }
    }
}

impl View for ChannelLayerSettings {
    type V = LayerContent;

    open spec fn view(&self) -> LayerContent {
        LayerContent {
            visible: self.visible,
            whole_domain: self.whole_domain,
            planes: self.planes.map(),
            boxes: self.boxes.map(),
            spheres: self.spheres.map(),
        }
    }
}

impl Default for ChannelLayerSettings {
    fn default() -> (layer: Self)
        ensures
            layer@ == LayerContent::start(),
    {
        ChannelLayerSettings {
            visible: false,
            whole_domain: FieldLayerSettings::default(),
            planes: OrderedMap::new(),
            boxes: OrderedMap::new(),
            spheres: OrderedMap::new(),
        }
    }
}

/// The trail of an object's recent motion.
#[derive(Clone, Copy, Debug, PartialEq, Eq, Structural)]
pub struct TrajectoryDisplay {
    pub visible: bool,
}

/// Screen-space size of the transform gizmo.
#[derive(Clone, Copy, Debug, PartialEq, Eq, Structural)]
pub struct GizmoDisplay {
    pub axis_length_px: Number,
    pub axis_thickness_px: Number,
    pub rotation_diameter_px: Number,
    pub rotation_thickness_px: Number,
}

impl GizmoDisplay {
    /// Axes 80 long and 3 thick, rings 120 across and 2 thick.
    pub open spec fn start() -> Self {
        GizmoDisplay {
            axis_length_px: Number { bits: 0x4054_0000_0000_0000 },
            axis_thickness_px: Number { bits: 0x4008_0000_0000_0000 },
            rotation_diameter_px: Number { bits: 0x405e_0000_0000_0000 },
            rotation_thickness_px: Number { bits: 0x4000_0000_0000_0000 },
        }
    }
}

impl Default for GizmoDisplay {
    fn default() -> (gizmo: Self)
        ensures
            gizmo == Self::start(),
    {
        GizmoDisplay {
            axis_length_px: Number { bits: 0x4054_0000_0000_0000 },
            axis_thickness_px: Number { bits: 0x4008_0000_0000_0000 },
            rotation_diameter_px: Number { bits: 0x405e_0000_0000_0000 },
            rotation_thickness_px: Number { bits: 0x4000_0000_0000_0000 },
        }
    }
}

/// What the 3D view draws.
#[derive(Clone, Copy, Debug, PartialEq, Eq, Structural)]
pub struct ViewOptions {
    pub grid: bool,
    pub axes: bool,
    pub objects: bool,
    /// Master visibility for scene helpers that do not participate in the
    /// simulation: probes and field-sampling regions.
    pub auxiliary_objects: bool,
    /// The region the active solver discretizes. This is not an authored scene
    /// object, so it remains independent of auxiliary-object visibility.
    pub compute_bounds: bool,
    pub gizmo_display: GizmoDisplay,
    pub probes: bool,
    pub planes: bool,
    pub boxes: bool,
    pub spheres: bool,
}

impl ViewOptions {
    /// Everything is shown but the bounds of the computation.
    pub open spec fn start() -> Self {
        ViewOptions {
            grid: true,
            axes: true,
            objects: true,
            auxiliary_objects: true,
            compute_bounds: false,
            gizmo_display: GizmoDisplay::start(),
            probes: true,
            planes: true,
            boxes: true,
            spheres: true,
        }
    }
}

impl Default for ViewOptions {
    fn default() -> (view: Self)
        ensures
            view == Self::start(),
    {
        ViewOptions {
            grid: true,
            axes: true,
            objects: true,
            auxiliary_objects: true,
            compute_bounds: false,
            gizmo_display: GizmoDisplay::default(),
            probes: true,
            planes: true,
            boxes: true,
            spheres: true,
        }
    }
}

/// One display toggle.
#[derive(Clone, Copy, Debug, PartialEq, Eq, Structural)]
pub enum ViewToggle {
    Grid,
    OriginAxes,
    Objects,
    AuxiliaryObjects,
    Probes,
    SlicePlanes,
    FieldBoxes,
    FieldSpheres,
}

impl ViewToggle {
    /// The toggles offered at the top of the view window.
    pub fn primary_entries() -> (entries: [ViewToggle; 4])
        ensures
            entries@ == seq![
                ViewToggle::Grid,
                ViewToggle::OriginAxes,
                ViewToggle::Objects,
                ViewToggle::AuxiliaryObjects,
            ],
    {
        [ViewToggle::Grid, ViewToggle::OriginAxes, ViewToggle::Objects, ViewToggle::AuxiliaryObjects]
    }

    /// The toggles that apply while auxiliary objects are shown.
    pub fn auxiliary_entries() -> (entries: [ViewToggle; 4])
        ensures
            entries@ == seq![
                ViewToggle::Probes,
                ViewToggle::SlicePlanes,
                ViewToggle::FieldBoxes,
                ViewToggle::FieldSpheres,
            ],
    {
        [ViewToggle::Probes, ViewToggle::SlicePlanes, ViewToggle::FieldBoxes, ViewToggle::FieldSpheres]
    }

    pub fn label(self) -> (s: &'static str)
        ensures
            self is Grid ==> s@ == "Grid"@,
            self is OriginAxes ==> s@ == "Origin axes"@,
            self is Objects ==> s@ == "Objects"@,
            self is AuxiliaryObjects ==> s@ == "Auxiliary objects"@,
            self is Probes ==> s@ == "Probes"@,
            self is SlicePlanes ==> s@ == "Slice planes"@,
            self is FieldBoxes ==> s@ == "Field boxes"@,
            self is FieldSpheres ==> s@ == "Field spheres"@,
    {
        match self {
            ViewToggle::Grid => "Grid",
            ViewToggle::OriginAxes => "Origin axes",
            ViewToggle::Objects => "Objects",
            ViewToggle::AuxiliaryObjects => "Auxiliary objects",
            ViewToggle::Probes => "Probes",
            ViewToggle::SlicePlanes => "Slice planes",
            ViewToggle::FieldBoxes => "Field boxes",
            ViewToggle::FieldSpheres => "Field spheres",
        }
    }

    /// What hovering over a toggle says.
    pub fn hover(self) -> (s: &'static str)
        ensures
            self is Grid ==> s@ == "Construction grid on the XY plane"@,
            self is OriginAxes ==> s@ == "World X, Y, and Z at the origin"@,
            self is Objects ==> s@
                == "Simulated bodies. Hiding them does not remove them from the simulation."@,
            self is AuxiliaryObjects ==> s@
                == "Probes and field-sampling regions. Hiding them does not affect simulation or recording."@,
            self is Probes ==> s@ == "Point recorders. Hidden probes keep recording."@,
            self is SlicePlanes ==> s@ == "Field sampling planes and their drawn values"@,
            self is FieldBoxes ==> s@ == "Oriented volumes sampling and drawing the field as arrows"@,
            self is FieldSpheres ==> s@
                == "Spherical volumes sampling and drawing the field as arrows"@,
    {
        match self {
            ViewToggle::Grid => "Construction grid on the XY plane",
            ViewToggle::OriginAxes => "World X, Y, and Z at the origin",
            ViewToggle::Objects => {
                "Simulated bodies. Hiding them does not remove them from the simulation."
            },
            ViewToggle::AuxiliaryObjects => {
                "Probes and field-sampling regions. Hiding them does not affect simulation or recording."
            },
            ViewToggle::Probes => "Point recorders. Hidden probes keep recording.",
            ViewToggle::SlicePlanes => "Field sampling planes and their drawn values",
            ViewToggle::FieldBoxes => "Oriented volumes sampling and drawing the field as arrows",
            ViewToggle::FieldSpheres => "Spherical volumes sampling and drawing the field as arrows",
        }
    }

    /// The flag a toggle shows.
    pub open spec fn flag(self, view: ViewOptions) -> bool {
        match self {
            ViewToggle::Grid => view.grid,
            ViewToggle::OriginAxes => view.axes,
            ViewToggle::Objects => view.objects,
            ViewToggle::AuxiliaryObjects => view.auxiliary_objects,
            ViewToggle::Probes => view.probes,
            ViewToggle::SlicePlanes => view.planes,
            ViewToggle::FieldBoxes => view.boxes,
            ViewToggle::FieldSpheres => view.spheres,
        }
    }

    /// Whether the toggle is on.
    pub fn is_on(self, view: &ViewOptions) -> (on: bool)
        ensures
            on == self.flag(*view),
    {
        match self {
            ViewToggle::Grid => view.grid,
            ViewToggle::OriginAxes => view.axes,
            ViewToggle::Objects => view.objects,
            ViewToggle::AuxiliaryObjects => view.auxiliary_objects,
            ViewToggle::Probes => view.probes,
            ViewToggle::SlicePlanes => view.planes,
            ViewToggle::FieldBoxes => view.boxes,
            ViewToggle::FieldSpheres => view.spheres,
        }
    }

    /// Switch the toggle, leaving everything else as it is.
    pub fn set(self, view: &mut ViewOptions, on: bool)
        ensures
            self.flag(*final(view)) == on,
            forall|other: ViewToggle| other != self ==> other.flag(*final(view)) == other.flag(*old(view)),
            final(view).compute_bounds == old(view).compute_bounds,
            final(view).gizmo_display == old(view).gizmo_display,
    {
        match self {
            ViewToggle::Grid => view.grid = on,
            ViewToggle::OriginAxes => view.axes = on,
            ViewToggle::Objects => view.objects = on,
            ViewToggle::AuxiliaryObjects => view.auxiliary_objects = on,
            ViewToggle::Probes => view.probes = on,
            ViewToggle::SlicePlanes => view.planes = on,
            ViewToggle::FieldBoxes => view.boxes = on,
            ViewToggle::FieldSpheres => view.spheres = on,
        }
    }
}

/// A new session shows everything but the bounds of the computation; a plane shows its field
/// projected into it, by magnitude and arrows; a volume shows arrows, sparser than a plane's;
/// the whole domain shows nothing until it is asked to; and flow lines are asked for.
pub proof fn displays_start_as_documented()
    ensures
        ViewOptions::start().grid && ViewOptions::start().axes && ViewOptions::start().objects
            && ViewOptions::start().auxiliary_objects && ViewOptions::start().probes
            && ViewOptions::start().planes && ViewOptions::start().boxes && ViewOptions::start().spheres,
        !ViewOptions::start().compute_bounds,
        ViewOptions::start().gizmo_display == GizmoDisplay::start(),
        PlaneLayerSettings::start().visible && PlaneLayerSettings::start().magnitude_visible
            && PlaneLayerSettings::start().vectors.visible,
        PlaneLayerSettings::start().vector_mode is InPlane,
        VolumeLayerSettings::start().visible && VolumeLayerSettings::start().vectors.visible,
        !FieldLayerSettings::start().vectors.visible,
        !PlaneLayerSettings::start().flow_lines.visible && !VolumeLayerSettings::start().flow_lines.visible
            && !FieldLayerSettings::start().flow_lines.visible,
        VolumeLayerSettings::start().vectors.density < PlaneLayerSettings::start().vectors.density,
        FieldLayerSettings::start().vectors.density < PlaneLayerSettings::start().vectors.density,
        PlaneLayerSettings::start().vectors.scale == one() && VolumeLayerSettings::start().vectors.scale
            == one() && FieldLayerSettings::start().vectors.scale == one(),
        !LayerContent::start().visible,
        LayerContent::start().whole_domain == FieldLayerSettings::start(),
        LayerContent::start().planes == Map::<u64, PlaneLayerSettings>::empty(),
        LayerContent::start().boxes == Map::<u64, VolumeLayerSettings>::empty(),
        LayerContent::start().spheres == Map::<u64, VolumeLayerSettings>::empty(),
{
}

/// Each toggle stands for its own option.
pub proof fn every_toggle_has_its_own_option(view: ViewOptions)
    ensures
        ViewToggle::Grid.flag(view) == view.grid,
        ViewToggle::OriginAxes.flag(view) == view.axes,
        ViewToggle::Objects.flag(view) == view.objects,
        ViewToggle::AuxiliaryObjects.flag(view) == view.auxiliary_objects,
        ViewToggle::Probes.flag(view) == view.probes,
        ViewToggle::SlicePlanes.flag(view) == view.planes,
        ViewToggle::FieldBoxes.flag(view) == view.boxes,
        ViewToggle::FieldSpheres.flag(view) == view.spheres,
{
}

} // verus!
