//! The record registry and its per-frame reconciliation with the renderer.
use crate::color::{color_or_gray, parse_color_or_gray, Rgb};
use crate::geometry::{
    clamp_coord, clamped, coords_valid, corner_x, corner_y, corner_z, label_anchor,
    spec_triangle_mesh, triangle_mesh, Coords, Point, TriangleMesh, COORD_SCALE,
};
use crate::text::{identifier, identifier_text, untitled, untitled_text};
use rand::Rng;
use vstd::prelude::*;

verus! {

/// Transparency is counted in thousandths: 1000 is fully opaque.
pub const MAX_TRANSPARENCY: u16 = 1000;

/// Transparency of a new record and of the sphere at start.
pub const DEFAULT_TRANSPARENCY: u16 = 300;

/// One user-created vector: an axis-intercept triangle and its appearance.
pub struct VectorRecord {
    /// The counter value the record was created with; never reused.
    pub number: u64,
    /// `T` followed by `number`.
    pub id: String,
    pub display_name: String,
    pub coords: Coords,
    pub surface_visible: bool,
    pub edges_visible: bool,
    /// Overall visibility; turning it off marks the record for deletion.
    pub completely_visible: bool,
    pub tag_visible: bool,
    /// In thousandths, at most `MAX_TRANSPARENCY`.
    pub transparency: u16,
    /// Color text, meant to be of the form `#RRGGBB`.
    pub color: String,
    /// Handle of the rendered surface, once it exists.
    pub surface: Option<u64>,
}

/// Settings of the scene's sphere and labels.
pub struct SceneSettings {
    /// In thousandths, at most `MAX_TRANSPARENCY`.
    pub sphere_transparency: u16,
    pub sphere_color: String,
    pub show_all_tags: bool,
}

/// The whole editable state: records in creation order, the counter for the
/// next record, the scene settings and whether anything changed since the
/// last reconciliation.
pub struct Registry {
    pub records: Vec<VectorRecord>,
    pub next_number: u64,
    pub settings: SceneSettings,
    pub dirty: bool,
}

/// Material parameters of a rendered object. Blending is always on.
#[derive(Clone, Copy, Debug, PartialEq, Eq, Structural)]
pub struct Material {
    pub color: Rgb,
    /// Opacity in thousandths.
    pub alpha: u16,
    pub unlit: bool,
}

/// Everything the renderer needs to draw a record's surface.
#[derive(Clone, Copy, Debug, PartialEq, Eq, Structural)]
pub struct SurfaceLook {
    pub mesh: TriangleMesh,
    pub material: Material,
    pub visible: bool,
}

/// What the renderer is to do with its objects after a reconciliation.
#[derive(Clone, Copy, Debug, PartialEq, Eq, Structural)]
pub enum RenderCommand {
    /// Create a surface under a new handle.
    Spawn { handle: u64, look: SurfaceLook },
    /// Destroy the surface with this handle.
    Release { handle: u64 },
    /// Replace geometry, material and visibility of an existing surface.
    Update { handle: u64, look: SurfaceLook },
    /// Replace the sphere's material.
    UpdateSphere { material: Material },
}

/// A line or marker drawn afresh each frame over the scene.
#[derive(Clone, Copy, Debug, PartialEq, Eq, Structural)]
pub enum OverlayItem {
    /// A segment from the origin to `tip`.
    Edge { tip: Point, color: Rgb },
    /// A record's label marker at a third of `anchor`.
    Marker { anchor: Point },
}

/// One change to one attribute of a record.
pub enum Edit {
    Rename(String),
    SetX(i32),
    SetY(i32),
    SetZ(i32),
    ShowSurface(bool),
    ShowEdges(bool),
    ShowLabel(bool),
    SetTransparency(u16),
    SetColor(String),
}

/// One change to the scene settings.
pub enum SettingsEdit {
    SphereTransparency(u16),
    SphereColor(String),
    ShowAllTags(bool),
}

// ----- model -----

/// The color text a new record starts with.
pub open spec fn default_color_text() -> Seq<char> {
    seq!['#', '8', '0', '8', '0', '8', '0']
}

pub open spec fn clamped_transparency(t: u16) -> u16 {
    if t > MAX_TRANSPARENCY {
        MAX_TRANSPARENCY
    } else {
        t
    }
}

pub open spec fn clamped_coords(c: Coords) -> Coords {
    Coords {
        x: clamped(c.x as int) as i32,
        y: clamped(c.y as int) as i32,
        z: clamped(c.z as int) as i32,
    }
}

pub open spec fn record_wf(r: VectorRecord) -> bool {
    &&& coords_valid(r.coords)
    &&& r.transparency <= MAX_TRANSPARENCY
    &&& r.id@ == identifier_text(r.number as nat)
    &&& (r.surface is None || r.surface == Some(r.number))
}

/// Every record is well formed and numbered below `next`, and numbers
/// increase strictly along the sequence.
pub open spec fn records_wf(s: Seq<VectorRecord>, next: u64) -> bool {
    &&& forall|i: int| 0 <= i < s.len() ==> record_wf(#[trigger] s[i]) && s[i].number < next
    &&& forall|i: int, j: int| 0 <= i < j < s.len() ==> s[i].number < s[j].number
}

/// Whether `r` is the record that creation with number `n` and intercepts
/// `c` makes.
pub open spec fn is_fresh_record(r: VectorRecord, n: u64, c: Coords) -> bool {
    &&& r.number == n
    &&& r.id@ == identifier_text(n as nat)
    &&& r.display_name@ == untitled_text(n as nat)
    &&& r.coords == clamped_coords(c)
    &&& r.surface_visible && r.edges_visible && r.completely_visible && r.tag_visible
    &&& r.transparency == DEFAULT_TRANSPARENCY
    &&& r.color@ == default_color_text()
    &&& r.surface is None
}

pub open spec fn apply_edit(r: VectorRecord, e: Edit) -> VectorRecord {
    match e {
        Edit::Rename(s) => VectorRecord { display_name: s, ..r },
        Edit::SetX(v) => VectorRecord { coords: Coords { x: clamped(v as int) as i32, ..r.coords }, ..r },
        Edit::SetY(v) => VectorRecord { coords: Coords { y: clamped(v as int) as i32, ..r.coords }, ..r },
        Edit::SetZ(v) => VectorRecord { coords: Coords { z: clamped(v as int) as i32, ..r.coords }, ..r },
        Edit::ShowSurface(b) => VectorRecord { surface_visible: b, ..r },
        Edit::ShowEdges(b) => VectorRecord { edges_visible: b, ..r },
        Edit::ShowLabel(b) => VectorRecord { tag_visible: b, ..r },
        Edit::SetTransparency(t) => VectorRecord { transparency: clamped_transparency(t), ..r },
        Edit::SetColor(s) => VectorRecord { color: s, ..r },
    }
}

pub open spec fn apply_settings_edit(st: SceneSettings, e: SettingsEdit) -> SceneSettings {
    match e {
        SettingsEdit::SphereTransparency(t) => SceneSettings {
            sphere_transparency: clamped_transparency(t),
            ..st
        },
        SettingsEdit::SphereColor(s) => SceneSettings { sphere_color: s, ..st },
        SettingsEdit::ShowAllTags(b) => SceneSettings { show_all_tags: b, ..st },
    }
}

/// Whether a record numbered `n` is in `s`.
pub open spec fn has_number(s: Seq<VectorRecord>, n: u64) -> bool {
    exists|i: int| 0 <= i < s.len() && #[trigger] s[i].number == n
}

/// `f` applied to each element of `s`, the results joined in order.
pub open spec fn concat_map<A, B>(s: Seq<A>, f: spec_fn(A) -> Seq<B>) -> Seq<B>
    decreases s.len(),
{
    if s.len() == 0 {
        Seq::empty()
    } else {
        concat_map(s.drop_last(), f) + f(s.last())
    }
}

pub open spec fn look_of(r: VectorRecord) -> SurfaceLook {
    SurfaceLook {
        mesh: spec_triangle_mesh(r.coords),
        material: Material { color: color_or_gray(r.color@), alpha: r.transparency, unlit: false },
        visible: r.completely_visible && r.surface_visible,
    }
}

pub open spec fn sphere_material(st: SceneSettings) -> Material {
    Material { color: color_or_gray(st.sphere_color@), alpha: st.sphere_transparency, unlit: true }
}

/// What reconciliation keeps of `r`: nothing once it is marked for
/// deletion, else the record with its surface handle in place.
pub open spec fn kept_of(r: VectorRecord) -> Seq<VectorRecord> {
    if !r.completely_visible {
        Seq::empty()
    } else if r.surface is None {
        seq![VectorRecord { surface: Some(r.number), ..r }]
    } else {
        seq![r]
    }
}

/// Creation: a visible record without a surface gets one, under its number.
pub open spec fn spawn_of(r: VectorRecord) -> Seq<RenderCommand> {
    if r.completely_visible && r.surface is None {
        seq![RenderCommand::Spawn { handle: r.number, look: look_of(r) }]
    } else {
        Seq::empty()
    }
}

/// Deletion: a marked record releases the surface it has.
pub open spec fn release_of(r: VectorRecord) -> Seq<RenderCommand> {
    if !r.completely_visible && r.surface is Some {
        seq![RenderCommand::Release { handle: r.surface->0 }]
    } else {
        Seq::empty()
    }
}

/// Update: a visible record that already had a surface refreshes it.
pub open spec fn update_of(r: VectorRecord) -> Seq<RenderCommand> {
    if r.completely_visible && r.surface is Some {
        seq![RenderCommand::Update { handle: r.surface->0, look: look_of(r) }]
    } else {
        Seq::empty()
    }
}

/// The records after reconciliation.
pub open spec fn synced(s: Seq<VectorRecord>) -> Seq<VectorRecord> {
    concat_map(s, |r: VectorRecord| kept_of(r))
}

pub open spec fn spawns(s: Seq<VectorRecord>) -> Seq<RenderCommand> {
    concat_map(s, |r: VectorRecord| spawn_of(r))
}

pub open spec fn releases(s: Seq<VectorRecord>) -> Seq<RenderCommand> {
    concat_map(s, |r: VectorRecord| release_of(r))
}

pub open spec fn updates(s: Seq<VectorRecord>) -> Seq<RenderCommand> {
    concat_map(s, |r: VectorRecord| update_of(r))
}

/// The commands of one reconciliation: creations, then deletions, then, if
/// anything was edited, updates of the remaining surfaces and of the sphere.
pub open spec fn sync_commands(s: Seq<VectorRecord>, dirty: bool, st: SceneSettings) -> Seq<
    RenderCommand,
> {
    spawns(s) + releases(s) + if dirty {
        updates(s).push(RenderCommand::UpdateSphere { material: sphere_material(st) })
    } else {
        Seq::empty()
    }
}

pub open spec fn red() -> Rgb {
    Rgb { r: 255, g: 0, b: 0 }
}

pub open spec fn green() -> Rgb {
    Rgb { r: 0, g: 255, b: 0 }
}

pub open spec fn blue() -> Rgb {
    Rgb { r: 0, g: 0, b: 255 }
}

/// The label marker of `r`: drawn when labels are shown globally and the
/// record is visible with its label and its edges on.
pub open spec fn marker_of(r: VectorRecord, show_all_tags: bool) -> Seq<OverlayItem> {
    if show_all_tags && r.completely_visible && r.tag_visible && r.edges_visible {
        seq![OverlayItem::Marker { anchor: label_anchor(r.coords) }]
    } else {
        Seq::empty()
    }
}

/// The edges of `r`, origin to each intercept, red, green and blue.
pub open spec fn edges_of(r: VectorRecord) -> Seq<OverlayItem> {
    if r.completely_visible && r.edges_visible {
        seq![
            OverlayItem::Edge { tip: corner_x(r.coords), color: red() },
            OverlayItem::Edge { tip: corner_y(r.coords), color: green() },
            OverlayItem::Edge { tip: corner_z(r.coords), color: blue() },
        ]
    } else {
        Seq::empty()
    }
}

/// All markers, then all edges, in record order.
pub open spec fn overlay_of(s: Seq<VectorRecord>, show_all_tags: bool) -> Seq<OverlayItem> {
    concat_map(s, |r: VectorRecord| marker_of(r, show_all_tags)) + concat_map(
        s,
        |r: VectorRecord| edges_of(r),
    )
}

impl Registry {
    pub open spec fn wf(&self) -> bool {
        &&& records_wf(self.records@, self.next_number)
        &&& self.next_number >= 1
        &&& self.settings.sphere_transparency <= MAX_TRANSPARENCY
    }
}

// ----- the empty registry -----

impl Registry {
    /// A registry with no records, the sphere gray and 0.3 transparent, and
    /// labels shown.
    pub fn new() -> (r: Registry)
        ensures
            r.wf(),
            r.records@.len() == 0,
            r.next_number == 1,
            r.settings.sphere_transparency == DEFAULT_TRANSPARENCY,
            r.settings.sphere_color@ == default_color_text(),
            r.settings.show_all_tags,
            !r.dirty,
    {
        Registry {
            records: Vec::new(),
            next_number: 1,
            settings: SceneSettings {
                sphere_transparency: DEFAULT_TRANSPARENCY,
                sphere_color: default_color(),
                show_all_tags: true,
            },
            dirty: false,
        }
    }
}

/// Relies on rand's `thread_rng` and `Rng::gen_range` over an inclusive
/// range of `i32`: the value drawn lies in the range (which must not be
/// empty, else `gen_range` panics).
#[verifier::external_body]
fn random_between(lo: i32, hi: i32) -> (r: i32)
    requires
        lo <= hi,
    ensures
        lo <= r <= hi,
{
    rand::thread_rng().gen_range(lo..=hi)
}

impl Registry {
    /// Creates a record with the given intercepts (each brought into
    /// [-1, 1]) and the default appearance, numbered with the counter,
    /// and returns its number.
    pub fn add_vector_at(&mut self, c: Coords) -> (n: u64)
        requires
            old(self).wf(),
            old(self).next_number < u64::MAX,
        ensures
            final(self).wf(),
            n == old(self).next_number,
            final(self).next_number == n + 1,
            final(self).records@.len() == old(self).records@.len() + 1,
            final(self).records@.drop_last() == old(self).records@,
            is_fresh_record(final(self).records@.last(), n, c),
            final(self).settings == old(self).settings,
            final(self).dirty == old(self).dirty,
    {
        let n = self.next_number;
        let coords = Coords { x: clamp_coord(c.x), y: clamp_coord(c.y), z: clamp_coord(c.z) };
        let r = VectorRecord {
            number: n,
            id: identifier(n),
            display_name: untitled(n),
            coords,
            surface_visible: true,
            edges_visible: true,
            completely_visible: true,
            tag_visible: true,
            transparency: DEFAULT_TRANSPARENCY,
            color: default_color(),
            surface: None,
        };
        self.records.push(r);
        self.next_number = n + 1;
        assert(self.records@.drop_last() =~= old(self).records@);
        n
    }

    /// Creates a record at random intercepts in [-1, 1] with the default
    /// appearance, and returns its number.
    pub fn add_vector(&mut self) -> (n: u64)
        requires
            old(self).wf(),
            old(self).next_number < u64::MAX,
        ensures
            final(self).wf(),
            n == old(self).next_number,
            final(self).next_number == n + 1,
            final(self).records@.len() == old(self).records@.len() + 1,
            final(self).records@.drop_last() == old(self).records@,
            is_fresh_record(final(self).records@.last(), n, final(self).records@.last().coords),
            final(self).settings == old(self).settings,
            final(self).dirty == old(self).dirty,
    {
        let x = random_between(-COORD_SCALE, COORD_SCALE);
        let y = random_between(-COORD_SCALE, COORD_SCALE);
        let z = random_between(-COORD_SCALE, COORD_SCALE);
        self.add_vector_at(Coords { x, y, z })
    }

    /// The position of the record numbered `n`, if there is one.
    fn find(&self, n: u64) -> (r: Option<usize>)
        ensures
            r is Some ==> r->0 < self.records@.len() && self.records@[r->0 as int].number == n,
            r is None ==> !has_number(self.records@, n),
    {
        let mut i: usize = 0;
        while i < self.records.len()
            invariant
                i <= self.records@.len(),
                forall|j: int| 0 <= j < i ==> self.records@[j].number != n,
            decreases self.records@.len() - i,
        {
            if self.records[i].number == n {
                return Some(i);
            }
            i += 1;
        }
        None
    }

    /// Changes one attribute of the record numbered `n`, coordinates and
    /// transparency brought into range, and marks the state as changed.
    /// Returns whether such a record exists; if none does, nothing changes.
    pub fn edit(&mut self, n: u64, e: Edit) -> (found: bool)
        requires
            old(self).wf(),
        ensures
            final(self).wf(),
            found == has_number(old(self).records@, n),
            found ==> exists|i: int|
                0 <= i < old(self).records@.len() && old(self).records@[i].number == n
                    && final(self).records@ == old(self).records@.update(
                    i,
                    apply_edit(old(self).records@[i], e),
                ),
            found ==> final(self).dirty,
            !found ==> final(self).records@ == old(self).records@ && final(self).dirty
                == old(self).dirty,
            final(self).next_number == old(self).next_number,
            final(self).settings == old(self).settings,
    {
        match self.find(n) {
            None => false,
            Some(i) => {
                let mut r = self.records.remove(i);
                let ghost r0 = r;
                match e {
                    Edit::Rename(s) => r.display_name = s,
                    Edit::SetX(v) => r.coords.x = clamp_coord(v),
                    Edit::SetY(v) => r.coords.y = clamp_coord(v),
                    Edit::SetZ(v) => r.coords.z = clamp_coord(v),
                    Edit::ShowSurface(b) => r.surface_visible = b,
                    Edit::ShowEdges(b) => r.edges_visible = b,
                    Edit::ShowLabel(b) => r.tag_visible = b,
                    Edit::SetTransparency(t) => r.transparency = if t > MAX_TRANSPARENCY {
                        MAX_TRANSPARENCY
                    } else {
                        t
                    },
                    Edit::SetColor(s) => r.color = s,
                }
                assert(r == apply_edit(r0, e));
                self.records.insert(i, r);
                self.dirty = true;
                assert(self.records@ =~= old(self).records@.update(i as int, r));
                assert(records_wf(self.records@, self.next_number)) by {
                    assert forall|j: int| 0 <= j < self.records@.len() implies #[trigger] self.records@[j].number
                        == old(self).records@[j].number by {}
                }
                true
            },
        }
    }

    /// Marks the record numbered `n` for deletion by turning its overall
    /// visibility off; the next reconciliation removes it. Returns whether
    /// such a record exists; if none does, nothing changes.
    pub fn mark_for_removal(&mut self, n: u64) -> (found: bool)
        requires
            old(self).wf(),
        ensures
            final(self).wf(),
            found == has_number(old(self).records@, n),
            found ==> exists|i: int|
                0 <= i < old(self).records@.len() && old(self).records@[i].number == n
                    && final(self).records@ == old(self).records@.update(
                    i,
                    VectorRecord { completely_visible: false, ..old(self).records@[i] },
                ),
            !found ==> final(self).records@ == old(self).records@,
            final(self).dirty == old(self).dirty,
            final(self).next_number == old(self).next_number,
            final(self).settings == old(self).settings,
    {
        match self.find(n) {
            None => false,
            Some(i) => {
                let mut r = self.records.remove(i);
                r.completely_visible = false;
                self.records.insert(i, r);
                assert(self.records@ =~= old(self).records@.update(i as int, r));
                assert(records_wf(self.records@, self.next_number)) by {
                    assert forall|j: int| 0 <= j < self.records@.len() implies #[trigger] self.records@[j].number
                        == old(self).records@[j].number by {}
                }
                true
            },
        }
    }

    /// Changes one scene setting, transparency brought into range, and marks
    /// the state as changed.
    pub fn edit_settings(&mut self, e: SettingsEdit)
        requires
            old(self).wf(),
        ensures
            final(self).wf(),
            final(self).settings == apply_settings_edit(old(self).settings, e),
            final(self).dirty,
            final(self).records@ == old(self).records@,
            final(self).next_number == old(self).next_number,
    {
        match e {
            SettingsEdit::SphereTransparency(t) => {
                self.settings.sphere_transparency = if t > MAX_TRANSPARENCY {
                    MAX_TRANSPARENCY
                } else {
                    t
                };
            },
            SettingsEdit::SphereColor(s) => self.settings.sphere_color = s,
            SettingsEdit::ShowAllTags(b) => self.settings.show_all_tags = b,
        }
        self.dirty = true;
    }
}

/// One step of `concat_map`: the map over one more element.
proof fn lemma_concat_map_step<A, B>(s: Seq<A>, i: int, f: spec_fn(A) -> Seq<B>)
    requires
        0 <= i < s.len(),
    ensures
        concat_map(s.subrange(0, i + 1), f) == concat_map(s.subrange(0, i), f) + f(s[i]),
{
    assert(s.subrange(0, i + 1).drop_last() =~= s.subrange(0, i));
}

/// How the surface of `r` is drawn.
fn look(r: &VectorRecord) -> (l: SurfaceLook)
    requires
        record_wf(*r),
    ensures
        l == look_of(*r),
{
    SurfaceLook {
        mesh: triangle_mesh(r.coords),
        material: Material {
            color: parse_color_or_gray(r.color.as_str()),
            alpha: r.transparency,
            unlit: false,
        },
        visible: r.completely_visible && r.surface_visible,
    }
}

impl Registry {
    /// The reconciliation pass. Visible records without a surface get one,
    /// under their own number as handle; records marked for deletion
    /// release their surface and leave the registry; if anything was
    /// edited since the last pass, the remaining surfaces and the sphere
    /// are refreshed in place. Returns the commands for the renderer.
    pub fn sync(&mut self) -> (cmds: Vec<RenderCommand>)
        requires
            old(self).wf(),
        ensures
            final(self).wf(),
            final(self).records@ == synced(old(self).records@),
            cmds@ == sync_commands(old(self).records@, old(self).dirty, old(self).settings),
            !final(self).dirty,
            final(self).next_number == old(self).next_number,
            final(self).settings == old(self).settings,
    {
        let mut rest: Vec<VectorRecord> = Vec::new();
        std::mem::swap(&mut rest, &mut self.records);
        let ghost orig = rest@;
        let total = rest.len();
        let ghost next = self.next_number;
        let mut kept: Vec<VectorRecord> = Vec::new();
        let mut spawned: Vec<RenderCommand> = Vec::new();
        let mut released: Vec<RenderCommand> = Vec::new();
        let mut updated: Vec<RenderCommand> = Vec::new();
        let mut i: usize = 0;
        while i < total
            invariant
                records_wf(orig, next),
                i <= orig.len() == total,
                rest@ == orig.subrange(i as int, orig.len() as int),
                kept@ == synced(orig.subrange(0, i as int)),
                spawned@ == spawns(orig.subrange(0, i as int)),
                released@ == releases(orig.subrange(0, i as int)),
                updated@ == updates(orig.subrange(0, i as int)),
                records_wf(kept@, next),
                forall|k: int, j: int|
                    0 <= k < kept@.len() && i <= j < orig.len() ==> kept@[k].number
                        < orig[j].number,
            decreases rest@.len(),
        {
            let ghost prefix = orig.subrange(0, i as int);
            let r = rest.remove(0);
            assert(r == orig[i as int]);
            proof {
                lemma_concat_map_step(orig, i as int, |r: VectorRecord| kept_of(r));
                lemma_concat_map_step(orig, i as int, |r: VectorRecord| spawn_of(r));
                lemma_concat_map_step(orig, i as int, |r: VectorRecord| release_of(r));
                lemma_concat_map_step(orig, i as int, |r: VectorRecord| update_of(r));
            }
            if !r.completely_visible {
                match r.surface {
                    Some(h) => released.push(RenderCommand::Release { handle: h }),
                    None => {},
                }
                assert(kept@ =~= synced(orig.subrange(0, i + 1)));
            } else {
                let l = look(&r);
                match r.surface {
                    None => {
                        let mut r = r;
                        let n = r.number;
                        spawned.push(RenderCommand::Spawn { handle: n, look: l });
                        r.surface = Some(n);
                        kept.push(r);
                    },
                    Some(h) => {
                        updated.push(RenderCommand::Update { handle: h, look: l });
                        kept.push(r);
                    },
                }
            }
            assert(spawned@ =~= spawns(orig.subrange(0, i + 1)));
            assert(released@ =~= releases(orig.subrange(0, i + 1)));
            assert(updated@ =~= updates(orig.subrange(0, i + 1)));
            assert(kept@ =~= synced(orig.subrange(0, i + 1)));
            i += 1;
        }
        assert(orig.subrange(0, orig.len() as int) =~= orig);
        self.records = kept;
        let mut cmds = spawned;
        cmds.append(&mut released);
        if self.dirty {
            cmds.append(&mut updated);
            cmds.push(RenderCommand::UpdateSphere { material: self.sphere_look() });
        }
        self.dirty = false;
        cmds
    }

    /// The lines and markers to draw this frame.
    pub fn overlay(&self) -> (items: Vec<OverlayItem>)
        requires
            self.wf(),
        ensures
            items@ == overlay_of(self.records@, self.settings.show_all_tags),
    {
        let ghost s = self.records@;
        let show = self.settings.show_all_tags;
        let mut markers: Vec<OverlayItem> = Vec::new();
        let mut i: usize = 0;
        while i < self.records.len()
            invariant
                s == self.records@,
                show == self.settings.show_all_tags,
                i <= s.len(),
                markers@ == concat_map(s.subrange(0, i as int), |r: VectorRecord| marker_of(r, show)),
            decreases s.len() - i,
        {
            proof {
                lemma_concat_map_step(s, i as int, |r: VectorRecord| marker_of(r, show));
            }
            let r = &self.records[i];
            if show && r.completely_visible && r.tag_visible && r.edges_visible {
                markers.push(OverlayItem::Marker {
                    anchor: Point { x: r.coords.x as i64, y: r.coords.y as i64, z: r.coords.z as i64 },
                });
            }
            assert(markers@ =~= concat_map(s.subrange(0, i + 1), |r: VectorRecord| marker_of(r, show)));
            i += 1;
        }
        let mut edges: Vec<OverlayItem> = Vec::new();
        let mut i: usize = 0;
        while i < self.records.len()
            invariant
                s == self.records@,
                i <= s.len(),
                edges@ == concat_map(s.subrange(0, i as int), |r: VectorRecord| edges_of(r)),
            decreases s.len() - i,
        {
            proof {
                lemma_concat_map_step(s, i as int, |r: VectorRecord| edges_of(r));
            }
            let r = &self.records[i];
            if r.completely_visible && r.edges_visible {
                edges.push(OverlayItem::Edge {
                    tip: Point { x: r.coords.x as i64, y: 0, z: 0 },
                    color: Rgb { r: 255, g: 0, b: 0 },
                });
                edges.push(OverlayItem::Edge {
                    tip: Point { x: 0, y: r.coords.y as i64, z: 0 },
                    color: Rgb { r: 0, g: 255, b: 0 },
                });
                edges.push(OverlayItem::Edge {
                    tip: Point { x: 0, y: 0, z: r.coords.z as i64 },
                    color: Rgb { r: 0, g: 0, b: 255 },
                });
            }
            assert(edges@ =~= concat_map(s.subrange(0, i + 1), |r: VectorRecord| edges_of(r)));
            i += 1;
        }
        assert(s.subrange(0, s.len() as int) =~= s);
        markers.append(&mut edges);
        markers
    }

    /// The sphere's material under the current settings.
    pub fn sphere_look(&self) -> (m: Material)
        ensures
            m == sphere_material(self.settings),
    {
        Material {
            color: parse_color_or_gray(self.settings.sphere_color.as_str()),
            alpha: self.settings.sphere_transparency,
            unlit: true,
        }
    }
}

fn default_color() -> (r: String)
    ensures
        r@ == default_color_text(),
{
    let s = String::from_str("#808080");
    proof {
        reveal_strlit("#808080");
    }
    assert(s@ =~= default_color_text());
    s
}

} // verus!
