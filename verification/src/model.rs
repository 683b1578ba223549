//! The state of the user interface between frames.

use crate::catalog::CatalogEditorDraft;
use crate::compute::ComputeView;
use crate::expression::UserConstantLibrary;
use crate::ids::{
    BoxId, ChannelId, DistanceProbeId, MassAggregateProbeId, ObjectId, PlaneId, PluginId, ProbeId,
    SphereId,
};
use crate::layers::{ChannelLayerSettings, TrajectoryDisplay, ViewOptions};
use crate::measured::{one, Number};
use crate::ordered::{MapKey, OrderedMap, OrderedSet};
use crate::source::{BoundaryConditions, Domain, Precision, UVec3};
use crate::world::{CatalogReference, Probe, PropertyBag};
use vstd::prelude::*;

verus! {

/// What a primary-button gesture in the viewport means.
#[derive(Clone, Copy, Debug, PartialEq, Eq, Structural)]
pub enum ViewportTool {
    /// Pick an inspector subject without ever starting a transform gesture.
    Select,
    /// Pick and manipulate the selected scene item.
    Transform,
    /// Reserved for an authoritative numerical-field disturbance command.
    FieldBrush,
}

impl Default for ViewportTool {
    fn default() -> (tool: Self)
        ensures
            tool is Transform,
    {
        ViewportTool::Transform
    }
}

impl ViewportTool {
    /// Every tool, in the order it is offered.
    pub fn all() -> (tools: [ViewportTool; 3])
        ensures
            tools@ == seq![ViewportTool::Select, ViewportTool::Transform, ViewportTool::FieldBrush],
    {
        [ViewportTool::Select, ViewportTool::Transform, ViewportTool::FieldBrush]
    }

    pub fn label(self) -> (s: &'static str)
        ensures
            self is Select ==> s@ == "Select"@,
            self is Transform ==> s@ == "Transform"@,
            self is FieldBrush ==> s@ == "Field brush"@,
    {
        match self {
            ViewportTool::Select => "Select",
            ViewportTool::Transform => "Transform",
            ViewportTool::FieldBrush => "Field brush",
        }
    }

    pub fn description(self) -> (s: &'static str)
        ensures
            self is Select ==> s@ == "Select objects without moving or rotating them"@,
            self is Transform ==> s@ == "Move or rotate selected objects in the viewport"@,
            self is FieldBrush ==> s@ == "Configure a numerical-field disturbance brush"@,
    {
        match self {
            ViewportTool::Select => "Select objects without moving or rotating them",
            ViewportTool::Transform => "Move or rotate selected objects in the viewport",
            ViewportTool::FieldBrush => "Configure a numerical-field disturbance brush",
        }
    }
}

/// The settings of the field brush.
#[derive(Debug, PartialEq, Eq)]
pub struct FieldBrushDraft {
    pub radius_metres: Number,
    pub strength: Number,
    pub channel: Option<ChannelId>,
}

impl FieldBrushDraft {
    /// Half a metre at unit strength, no field chosen.
    pub open spec fn start() -> Self {
        FieldBrushDraft {
            radius_metres: Number { bits: 0x3fe0_0000_0000_0000 },
            strength: one(),
            channel: None,
        }
    }
}

impl Default for FieldBrushDraft {
    fn default() -> (brush: Self)
        ensures
            brush == Self::start(),
    {
        FieldBrushDraft {
            radius_metres: Number { bits: 0x3fe0_0000_0000_0000 },
            strength: one(),
            channel: None,
        }
    }
}

/// Editable representation of a [`Domain`], which can temporarily hold values
/// that do not make a valid domain.
#[derive(Clone, Copy, Debug, PartialEq, Eq, Structural)]
pub struct DomainDraft {
    pub min: crate::measured::Vec3,
    pub max: crate::measured::Vec3,
    pub cells: UVec3,
    pub boundaries: BoundaryConditions,
    pub precision: Precision,
}

impl DomainDraft {
    pub fn from_domain(domain: Domain) -> (draft: Self)
        ensures
            draft == (DomainDraft {
                min: domain.min,
                max: domain.max,
                cells: domain.cells,
                boundaries: domain.boundaries,
                precision: domain.precision,
            }),
    {
        DomainDraft {
            min: domain.min,
            max: domain.max,
            cells: domain.cells,
            boundaries: domain.boundaries,
            precision: domain.precision,
        }
    }

    /// The drafted domain, from what is said of its bounds and of its resolution.
    pub open spec fn built(
        self,
        bounds: Result<(), String>,
        resolution: Result<u64, String>,
    ) -> Result<Domain, String> {
        match (bounds, resolution) {
            (Err(error), _) => Err(error),
            (Ok(()), Err(error)) => Err(error),
            (Ok(()), Ok(cell_count)) => Ok(
                Domain {
                    min: self.min,
                    max: self.max,
                    cells: self.cells,
                    cell_count,
                    boundaries: self.boundaries,
                    precision: self.precision,
                },
            ),
        }
    }

    /// The drafted domain. Whether the bounds make one, and how many cells the
    /// resolution has if it is one, is for the solver's domain rules to say.
    pub fn build(self, bounds: Result<(), String>, resolution: Result<u64, String>) -> (domain: Result<
        Domain,
        String,
    >)
        ensures
            domain == self.built(bounds, resolution),
            domain is Err <==> bounds is Err || resolution is Err,
    {
        match domain_verdict(bounds, resolution) {
            Ok(cell_count) => Ok(
                Domain {
                    min: self.min,
                    max: self.max,
                    cells: self.cells,
                    cell_count,
                    boundaries: self.boundaries,
                    precision: self.precision,
                },
            ),
            Err(error) => Err(error),
        }
    }
}

/// What is said of a domain as a whole: how many cells it has, or what is wrong
/// with it. What is wrong with its bounds goes before what is wrong with its
/// resolution.
pub fn domain_verdict(bounds: Result<(), String>, resolution: Result<u64, String>) -> (verdict: Result<
    u64,
    String,
>)
    ensures
        verdict == match bounds {
            Err(error) => Err(error),
            Ok(()) => resolution,
        },
{
    match bounds {
        Err(error) => Err(error),
        Ok(()) => resolution,
    }
}

/// A draft of a domain that its rules accept builds that domain again.
pub proof fn a_domain_survives_drafting(domain: Domain, draft: DomainDraft)
    requires
        draft == (DomainDraft {
            min: domain.min,
            max: domain.max,
            cells: domain.cells,
            boundaries: domain.boundaries,
            precision: domain.precision,
        }),
    ensures
        draft.built(Ok(()), Ok(domain.cell_count)) == Ok::<Domain, String>(domain),
{
}

/// A draft fails exactly where its bounds or its resolution do, and its bounds are
/// complained of first.
pub proof fn bounds_are_judged_first(
    draft: DomainDraft,
    bounds: Result<(), String>,
    resolution: Result<u64, String>,
)
    ensures
        draft.built(bounds, resolution) is Err <==> bounds is Err || resolution is Err,
        bounds matches Err(error) ==> draft.built(bounds, resolution) == Err::<Domain, String>(error),
        bounds is Ok ==> (resolution matches Err(error) ==> draft.built(bounds, resolution) == Err::<
            Domain,
            String,
        >(error)),
{
}

/// A floating plot of one probe.
#[derive(Debug)]
pub struct ProbePlotWindow {
    /// Channels shown as separate, unit-safe plots in this window.
    pub channels: OrderedSet<ChannelId>,
}

/// Which traces of a distance probe are plotted.
#[derive(Clone, Copy, Debug, PartialEq, Eq, Structural)]
pub struct DistanceProbeSeries {
    pub distance: bool,
    pub rate_of_change: bool,
}

/// Which traces of a center of mass are plotted.
#[derive(Clone, Copy, Debug, PartialEq, Eq, Structural)]
pub struct MassAggregateProbeSeries {
    pub center_of_mass: bool,
    pub velocity: bool,
    pub momentum: bool,
    pub angular_momentum: bool,
    pub kinetic_energy: bool,
}

/// What the diagnostics window shows.
#[derive(Clone, Copy, Debug, PartialEq, Eq, Structural)]
pub struct DiagnosticsConfig {
    pub update_interval_ms: u32,
    pub show_frame_time: bool,
    pub show_memory: bool,
    pub show_cpu: bool,
    pub show_scene_info: bool,
    pub show_solver_step: bool,
    pub show_solver_diagnostics: bool,
}

/// Something selected in the scene.
#[derive(Clone, Copy, Debug, PartialEq, Eq)]
pub enum SceneSelection {
    Object(ObjectId),
    Plane(PlaneId),
    Box(BoxId),
    Sphere(SphereId),
    Probe(ProbeId),
    MassAggregateProbe(MassAggregateProbeId),
}

/// The state of the user interface.
#[derive(Debug)]
pub struct UiModel {
    pub view: ViewOptions,
    pub viewport_tool: ViewportTool,
    pub field_brush_dialog_open: bool,
    pub field_brush: FieldBrushDraft,
    pub diagnostics_visible: bool,
    pub diagnostics_config: DiagnosticsConfig,
    /// The getting-started window.
    pub help_visible: bool,
    /// Whether the scene's world/simulation node is the inspector's subject.
    pub world_selected: bool,
    pub selection: Option<ObjectId>,
    pub plane_selection: Option<PlaneId>,
    pub box_selection: Option<BoxId>,
    pub sphere_selection: Option<SphereId>,
    pub probe_selection: Option<ProbeId>,
    pub distance_probe_selection: Option<DistanceProbeId>,
    pub mass_aggregate_probe_selection: Option<MassAggregateProbeId>,
    /// The object the camera is locked onto.
    pub following: Option<ObjectId>,
    /// Non-modal plot windows pinned independently of scene selection.
    pub probe_plots: OrderedMap<ProbeId, ProbePlotWindow>,
    pub distance_probe_plots: OrderedSet<DistanceProbeId>,
    pub mass_aggregate_probe_plots: OrderedSet<MassAggregateProbeId>,
    pub distance_probe_series: OrderedMap<DistanceProbeId, DistanceProbeSeries>,
    pub mass_aggregate_probe_series: OrderedMap<MassAggregateProbeId, MassAggregateProbeSeries>,
    pub object_trajectories: OrderedMap<ObjectId, TrajectoryDisplay>,
    /// Independent visualization state for every published vector channel.
    pub field_layers: OrderedMap<ChannelId, ChannelLayerSettings>,
    /// Most recent asynchronous command rejection.
    pub command_error: Option<String>,
    /// Staged numerical-domain values, independent of the authoritative source
    /// until the user applies the whole candidate.
    pub domain_draft: Option<DomainDraft>,
    /// Staged configurations of field systems.
    pub configuration_drafts: OrderedMap<PluginId, PropertyBag>,
    pub mcp_panel_open: bool,
    pub queue_panel_open: bool,
    pub settings_visible: bool,
    /// A background save is writing the session.
    pub save_in_progress: bool,
    pub catalog_visible: bool,
    pub catalog_filter: String,
    pub catalog_new_catalog: String,
    pub catalog_new_template: String,
    pub catalog_selected: Option<CatalogReference>,
    pub catalog_editor: Option<CatalogEditorDraft>,
    pub catalog_status: Option<String>,
    pub user_constants: UserConstantLibrary,
    pub user_constants_status: Option<String>,
}

impl UiModel {
    /// A model before the user did anything: guidance and diagnostics open, the
    /// world node selected, everything else closed and empty.
    pub fn new(user_constants: UserConstantLibrary) -> (model: Self)
        ensures
            model.view == ViewOptions::start(),
            model.viewport_tool is Transform,
            !model.field_brush_dialog_open,
            model.field_brush == FieldBrushDraft::start(),
            model.diagnostics_visible,
            model.diagnostics_config == (DiagnosticsConfig {
                update_interval_ms: 250,
                show_frame_time: true,
                show_memory: true,
                show_cpu: true,
                show_scene_info: true,
                show_solver_step: true,
                show_solver_diagnostics: true,
            }),
            model.help_visible,
            model.world_selected,
            model.nothing_selected(),
            model.following is None,
            model.probe_plots.map() == Map::<u64, ProbePlotWindow>::empty(),
            model.distance_probe_plots.map() == Map::<u64, ()>::empty(),
            model.mass_aggregate_probe_plots.map() == Map::<u64, ()>::empty(),
            model.distance_probe_series.map() == Map::<u64, DistanceProbeSeries>::empty(),
            model.mass_aggregate_probe_series.map() == Map::<u64, MassAggregateProbeSeries>::empty(),
            model.object_trajectories.map() == Map::<u64, TrajectoryDisplay>::empty(),
            model.field_layers.map() == Map::<(Seq<char>, Seq<char>), ChannelLayerSettings>::empty(),
            model.command_error is None,
            model.domain_draft is None,
            model.configuration_drafts.map() == Map::<Seq<char>, PropertyBag>::empty(),
            !model.mcp_panel_open && !model.queue_panel_open && !model.settings_visible,
            !model.save_in_progress,
            !model.catalog_visible,
            model.catalog_filter@.len() == 0,
            model.catalog_new_catalog@.len() == 0,
            model.catalog_new_template@.len() == 0,
            model.catalog_selected is None && model.catalog_editor is None && model.catalog_status is None,
            model.user_constants == user_constants,
            model.user_constants_status is None,
    {
        UiModel {
            view: ViewOptions::default(),
            viewport_tool: ViewportTool::default(),
            field_brush_dialog_open: false,
            field_brush: FieldBrushDraft::default(),
            diagnostics_visible: true,
            diagnostics_config: DiagnosticsConfig {
                update_interval_ms: 250,
                show_frame_time: true,
                show_memory: true,
                show_cpu: true,
                show_scene_info: true,
                show_solver_step: true,
                show_solver_diagnostics: true,
            },
            help_visible: true,
            world_selected: true,
            selection: None,
            plane_selection: None,
            box_selection: None,
            sphere_selection: None,
            probe_selection: None,
            distance_probe_selection: None,
            mass_aggregate_probe_selection: None,
            following: None,
            probe_plots: OrderedMap::new(),
            distance_probe_plots: OrderedMap::new(),
            mass_aggregate_probe_plots: OrderedMap::new(),
            distance_probe_series: OrderedMap::new(),
            mass_aggregate_probe_series: OrderedMap::new(),
            object_trajectories: OrderedMap::new(),
            field_layers: OrderedMap::new(),
            command_error: None,
            domain_draft: None,
            configuration_drafts: OrderedMap::new(),
            mcp_panel_open: false,
            queue_panel_open: false,
            settings_visible: false,
            save_in_progress: false,
            catalog_visible: false,
            catalog_filter: String::new(),
            catalog_new_catalog: String::new(),
            catalog_new_template: String::new(),
            catalog_selected: None,
            catalog_editor: None,
            catalog_status: None,
            user_constants,
            user_constants_status: None,
        }
    }

    /// Whether nothing in the scene is selected.
    pub open spec fn nothing_selected(self) -> bool {
        &&& self.selection is None
        &&& self.plane_selection is None
        &&& self.box_selection is None
        &&& self.sphere_selection is None
        &&& self.probe_selection is None
        &&& self.distance_probe_selection is None
        &&& self.mass_aggregate_probe_selection is None
    }

    /// The model with another selection and everything else as it is.
    pub open spec fn with_selection(self, selection: Option<SceneSelection>) -> Self {
        let cleared = UiModel {
            selection: None,
            plane_selection: None,
            box_selection: None,
            sphere_selection: None,
            probe_selection: None,
            distance_probe_selection: None,
            mass_aggregate_probe_selection: None,
            world_selected: false,
            ..self
        };
        match selection {
            None => cleared,
            Some(SceneSelection::Object(id)) => UiModel { selection: Some(id), ..cleared },
            Some(SceneSelection::Plane(id)) => UiModel { plane_selection: Some(id), ..cleared },
            Some(SceneSelection::Box(id)) => UiModel { box_selection: Some(id), ..cleared },
            Some(SceneSelection::Sphere(id)) => UiModel { sphere_selection: Some(id), ..cleared },
            Some(SceneSelection::Probe(id)) => UiModel { probe_selection: Some(id), ..cleared },
            Some(SceneSelection::MassAggregateProbe(id)) => UiModel {
                mass_aggregate_probe_selection: Some(id),
                ..cleared
            },
        }
    }

    /// What is selected in the scene. Objects come before measurements.
    pub open spec fn selected(self) -> Option<SceneSelection> {
        if let Some(id) = self.selection {
            Some(SceneSelection::Object(id))
        } else if let Some(id) = self.plane_selection {
            Some(SceneSelection::Plane(id))
        } else if let Some(id) = self.box_selection {
            Some(SceneSelection::Box(id))
        } else if let Some(id) = self.sphere_selection {
            Some(SceneSelection::Sphere(id))
        } else if let Some(id) = self.probe_selection {
            Some(SceneSelection::Probe(id))
        } else if let Some(id) = self.mass_aggregate_probe_selection {
            Some(SceneSelection::MassAggregateProbe(id))
        } else {
            None
        }
    }

    /// Leave everything that was selected.
    fn clear_selection(&mut self)
        ensures
            *final(self) == old(self).with_selection(None),
    {
        self.selection = None;
        self.plane_selection = None;
        self.box_selection = None;
        self.sphere_selection = None;
        self.probe_selection = None;
        self.distance_probe_selection = None;
        self.mass_aggregate_probe_selection = None;
        self.world_selected = false;
    }

    /// Select something in the scene, or nothing. Either way the inspector
    /// leaves the world node, so the two can never both look selected.
    pub fn set_scene_selection(&mut self, selection: Option<SceneSelection>)
        ensures
            *final(self) == old(self).with_selection(selection),
    {
        self.clear_selection();
        match selection {
            Some(SceneSelection::Object(id)) => {
                self.selection = Some(id);
            },
            Some(SceneSelection::Plane(id)) => {
                self.plane_selection = Some(id);
            },
            Some(SceneSelection::Box(id)) => {
                self.box_selection = Some(id);
            },
            Some(SceneSelection::Sphere(id)) => {
                self.sphere_selection = Some(id);
            },
            Some(SceneSelection::Probe(id)) => {
                self.probe_selection = Some(id);
            },
            Some(SceneSelection::MassAggregateProbe(id)) => {
                self.mass_aggregate_probe_selection = Some(id);
            },
            None => {},
        }
    }

    pub fn scene_selection(&self) -> (selection: Option<SceneSelection>)
        ensures
            selection == self.selected(),
    {
        if let Some(id) = self.selection {
            Some(SceneSelection::Object(id))
        } else if let Some(id) = self.plane_selection {
            Some(SceneSelection::Plane(id))
        } else if let Some(id) = self.box_selection {
            Some(SceneSelection::Box(id))
        } else if let Some(id) = self.sphere_selection {
            Some(SceneSelection::Sphere(id))
        } else if let Some(id) = self.probe_selection {
            Some(SceneSelection::Probe(id))
        } else if let Some(id) = self.mass_aggregate_probe_selection {
            Some(SceneSelection::MassAggregateProbe(id))
        } else {
            None
        }
    }

    /// The model with the world node as the inspector's subject.
    pub open spec fn with_world(self) -> Self {
        UiModel { world_selected: true, ..self.with_selection(None) }
    }

    /// Make the world/simulation node the inspector's subject.
    pub fn select_world(&mut self)
        ensures
            *final(self) == old(self).with_world(),
    {
        self.set_scene_selection(None);
        self.world_selected = true;
    }

    /// The model with a distance probe as the inspector's subject.
    pub open spec fn with_distance_probe(self, probe: DistanceProbeId) -> Self {
        UiModel { distance_probe_selection: Some(probe), ..self.with_selection(None) }
    }

    /// Make a distance probe the inspector's subject.
    pub fn select_distance_probe(&mut self, probe: DistanceProbeId)
        ensures
            *final(self) == old(self).with_distance_probe(probe),
    {
        self.set_scene_selection(None);
        self.distance_probe_selection = Some(probe);
    }

    /// Pin a plot of a probe, showing every channel it records. A plot that is
    /// already open stays as the user left it.
    pub fn open_probe_plot(&mut self, probe: &Probe)
        ensures
            old(self).probe_plots.map().contains_key(probe.id.number()) ==> *final(self) == *old(self),
            !old(self).probe_plots.map().contains_key(probe.id.number()) ==> {
                &&& *final(self) == (UiModel { probe_plots: final(self).probe_plots, ..*old(self) })
                &&& final(self).probe_plots.map().dom() == old(self).probe_plots.map().dom().insert(
                    probe.id.number(),
                )
                &&& forall|other: u64|
                    other != probe.id.number() && old(self).probe_plots.map().contains_key(other)
                        ==> #[trigger] final(self).probe_plots.map()[other]
                        == old(self).probe_plots.map()[other]
                &&& shows_channels(
                    final(self).probe_plots.map()[probe.id.number()],
                    probe.channels@,
                )
            },
    {
        if self.probe_plots.contains_key(&probe.id) {
            return ;
        }
        let mut channels: OrderedSet<ChannelId> = OrderedMap::new();
        let mut i: usize = 0;
        while i < probe.channels.len()
            invariant
                i <= probe.channels.len(),
                forall|key: (Seq<char>, Seq<char>)| #[trigger]
                    channels.map().contains_key(key) <==> exists|k: int|
                        0 <= k < i && (#[trigger] probe.channels[k]).key() == key,
            decreases probe.channels.len() - i,
        {
            channels.insert(probe.channels[i].clone(), ());
            i = i + 1;
        }
        let window = ProbePlotWindow { channels };
        assert(shows_channels(window, probe.channels@)) by {
            assert forall|key: (Seq<char>, Seq<char>)| #[trigger]
                window.channels.map().contains_key(key) <==> crate::ids::lists(
                    probe.channels@,
                    key,
                ) by {
                if crate::ids::lists(probe.channels@, key) {
                    let k = choose|k: int|
                        0 <= k < probe.channels@.len() && (#[trigger] probe.channels@[k]).key() == key;
                    assert(probe.channels[k].key() == key);
                }
            }
        }
        self.probe_plots.insert(probe.id, window);
    }
}

/// Whether a plot window shows exactly these channels.
pub open spec fn shows_channels(window: ProbePlotWindow, channels: Seq<ChannelId>) -> bool {
    forall|key: (Seq<char>, Seq<char>)| #[trigger]
        window.channels.map().contains_key(key) <==> crate::ids::lists(channels, key)
}

/// A selection is read back as it was made, and it is exclusive: nothing of
/// another kind stays selected, nor does the world node.
pub proof fn selections_are_exclusive(model: UiModel, selection: Option<SceneSelection>)
    ensures
        model.with_selection(selection).selected() == selection,
        !model.with_selection(selection).world_selected,
        model.with_selection(selection).with_selection(None).nothing_selected(),
        selection is None ==> model.with_selection(selection).nothing_selected(),
        selection !is None ==> model.with_selection(selection).distance_probe_selection is None,
        !(selection matches Some(SceneSelection::Object(_))) ==> model.with_selection(
            selection,
        ).selection is None,
        !(selection matches Some(SceneSelection::Plane(_))) ==> model.with_selection(
            selection,
        ).plane_selection is None,
        !(selection matches Some(SceneSelection::Box(_))) ==> model.with_selection(
            selection,
        ).box_selection is None,
        !(selection matches Some(SceneSelection::Sphere(_))) ==> model.with_selection(
            selection,
        ).sphere_selection is None,
        !(selection matches Some(SceneSelection::Probe(_))) ==> model.with_selection(
            selection,
        ).probe_selection is None,
        !(selection matches Some(SceneSelection::MassAggregateProbe(_))) ==> model.with_selection(
            selection,
        ).mass_aggregate_probe_selection is None,
{
}

/// Selecting the world node leaves nothing of the scene selected; selecting
/// something of the scene, or nothing, leaves the world node.
pub proof fn the_world_node_excludes_the_scene(model: UiModel, selection: Option<SceneSelection>)
    ensures
        model.with_world().world_selected,
        model.with_world().nothing_selected(),
        model.with_world().selected() is None,
        !model.with_world().with_selection(selection).world_selected,
{
}

/// Plot windows are pinned: no selection opens, closes or changes one.
pub proof fn plots_survive_selections(
    model: UiModel,
    selection: Option<SceneSelection>,
    probe: DistanceProbeId,
)
    ensures
        model.with_selection(selection).probe_plots == model.probe_plots,
        model.with_world().probe_plots == model.probe_plots,
        model.with_distance_probe(probe).probe_plots == model.probe_plots,
        model.with_selection(selection).distance_probe_plots == model.distance_probe_plots,
        model.with_selection(selection).mass_aggregate_probe_plots == model.mass_aggregate_probe_plots,
        model.with_selection(selection).field_layers == model.field_layers,
{
}

/// Selecting changes what is selected and nothing else.
pub proof fn a_selection_leaves_everything_else(model: UiModel, selection: Option<SceneSelection>)
    ensures
        ({
            let after = model.with_selection(selection);
            &&& after.view == model.view
            &&& after.viewport_tool == model.viewport_tool
            &&& after.field_brush == model.field_brush
            &&& after.following == model.following
            &&& after.domain_draft == model.domain_draft
            &&& after.configuration_drafts == model.configuration_drafts
            &&& after.command_error == model.command_error
            &&& after.user_constants == model.user_constants
            &&& after.catalog_editor == model.catalog_editor
            &&& after.catalog_selected == model.catalog_selected
            &&& after.help_visible == model.help_visible
            &&& after.save_in_progress == model.save_in_progress
            &&& after.distance_probe_series == model.distance_probe_series
            &&& after.object_trajectories == model.object_trajectories
        }),
        selection matches Some(SceneSelection::Object(id)) ==> model.with_selection(selection).selection
            == Some(id),
        selection matches Some(SceneSelection::Plane(id)) ==> model.with_selection(
            selection,
        ).plane_selection == Some(id),
        selection matches Some(SceneSelection::Box(id)) ==> model.with_selection(selection).box_selection
            == Some(id),
        selection matches Some(SceneSelection::Sphere(id)) ==> model.with_selection(
            selection,
        ).sphere_selection == Some(id),
        selection matches Some(SceneSelection::Probe(id)) ==> model.with_selection(
            selection,
        ).probe_selection == Some(id),
        selection matches Some(SceneSelection::MassAggregateProbe(id)) ==> model.with_selection(
            selection,
        ).mass_aggregate_probe_selection == Some(id),
{
}

/// A selected distance probe is the only thing selected.
pub proof fn a_distance_probe_is_selected_alone(model: UiModel, probe: DistanceProbeId)
    ensures
        model.with_distance_probe(probe).distance_probe_selection == Some(probe),
        model.with_distance_probe(probe).selected() is None,
        !model.with_distance_probe(probe).world_selected,
        model.with_distance_probe(probe).selection is None,
        model.with_distance_probe(probe).probe_selection is None,
{
}

/// Where several things are marked as selected, an object goes before a plane, a plane before
/// a box, a box before a sphere, a sphere before a probe, and a probe before a center of mass.
pub proof fn objects_are_read_back_before_measurements(model: UiModel)
    ensures
        model.selection matches Some(id) ==> model.selected() == Some(SceneSelection::Object(id)),
        model.selection is None ==> (model.plane_selection matches Some(id) ==> model.selected() == Some(
            SceneSelection::Plane(id),
        )),
        model.selection is None && model.plane_selection is None ==> (model.box_selection matches Some(
            id,
        ) ==> model.selected() == Some(SceneSelection::Box(id))),
        model.selection is None && model.plane_selection is None && model.box_selection is None ==> (
        model.sphere_selection matches Some(id) ==> model.selected() == Some(
            SceneSelection::Sphere(id),
        )),
        model.selection is None && model.plane_selection is None && model.box_selection is None
            && model.sphere_selection is None ==> (model.probe_selection matches Some(id)
            ==> model.selected() == Some(SceneSelection::Probe(id))),
        model.selection is None && model.plane_selection is None && model.box_selection is None
            && model.sphere_selection is None && model.probe_selection is None ==> (
        model.mass_aggregate_probe_selection matches Some(id) ==> model.selected() == Some(
            SceneSelection::MassAggregateProbe(id),
        )),
{
}

/// A draft that is a domain keeps its bounds, lattice, boundaries and precision.
pub proof fn a_draft_builds_what_it_says(draft: DomainDraft, cells: u64)
    ensures
        draft.built(Ok(()), Ok(cells)) matches Ok(domain) && domain.min == draft.min && domain.max
            == draft.max && domain.cells == draft.cells && domain.cell_count == cells
            && domain.boundaries == draft.boundaries && domain.precision == draft.precision,
{
}

/// A plot that is opened shows a channel exactly where its probe records it.
pub proof fn an_opened_plot_shows_what_is_recorded(
    window: ProbePlotWindow,
    channels: Seq<ChannelId>,
    key: (Seq<char>, Seq<char>),
)
    requires
        shows_channels(window, channels),
    ensures
        window.channels.map().contains_key(key) <==> crate::ids::lists(channels, key),
{
}

/// The brush starts half a metre wide, at unit strength and without a field.
pub proof fn the_brush_starts_without_a_field()
    ensures
        FieldBrushDraft::start().channel is None,
        FieldBrushDraft::start().strength == one(),
        FieldBrushDraft::start().radius_metres == (Number { bits: 0x3fe0_0000_0000_0000 }),
{
}

} // verus!
