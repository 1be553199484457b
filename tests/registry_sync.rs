use sphere_vectors::color::Rgb;
use sphere_vectors::geometry::{Coords, Point, COORD_SCALE};
use sphere_vectors::registry::{
    Edit, Material, OverlayItem, Registry, RenderCommand, SettingsEdit, DEFAULT_TRANSPARENCY,
    MAX_TRANSPARENCY,
};

fn handles(cmds: &[RenderCommand]) -> Vec<u64> {
    cmds.iter()
        .filter_map(|c| match c {
            RenderCommand::Spawn { handle, .. } => Some(*handle),
            RenderCommand::Release { handle } => Some(*handle),
            RenderCommand::Update { handle, .. } => Some(*handle),
            RenderCommand::UpdateSphere { .. } => None,
        })
        .collect()
}

#[test]
fn new_registry_defaults() {
    let reg = Registry::new();
    assert!(reg.records.is_empty());
    assert_eq!(reg.next_number, 1);
    assert_eq!(reg.settings.sphere_transparency, 300);
    assert_eq!(reg.settings.sphere_color, "#808080");
    assert!(reg.settings.show_all_tags);
    assert!(!reg.dirty);
}

#[test]
fn consecutive_adds_number_t1_to_tn() {
    let mut reg = Registry::new();
    let mut numbers = Vec::new();
    for _ in 0..12 {
        numbers.push(reg.add_vector());
    }
    assert_eq!(numbers, (1..=12).collect::<Vec<u64>>());
    let ids: Vec<String> = reg.records.iter().map(|r| r.id.clone()).collect();
    let expected: Vec<String> = (1..=12).map(|n| format!("T{}", n)).collect();
    assert_eq!(ids, expected);
    assert_eq!(reg.records[11].display_name, "Untitled(12)");
}

#[test]
fn random_record_has_defaults_and_range() {
    let mut reg = Registry::new();
    for _ in 0..50 {
        reg.add_vector();
    }
    for r in &reg.records {
        for v in [r.coords.x, r.coords.y, r.coords.z] {
            assert!(-COORD_SCALE <= v && v <= COORD_SCALE);
        }
        assert!(r.surface_visible && r.edges_visible && r.completely_visible && r.tag_visible);
        assert_eq!(r.transparency, DEFAULT_TRANSPARENCY);
        assert_eq!(r.color, "#808080");
        assert_eq!(r.surface, None);
    }
}

#[test]
fn add_at_clamps_intercepts() {
    let mut reg = Registry::new();
    reg.add_vector_at(Coords { x: 20000, y: -20000, z: 42 });
    assert_eq!(reg.records[0].coords, Coords { x: 10000, y: -10000, z: 42 });
}

#[test]
fn first_sync_spawns_each_visible_record() {
    let mut reg = Registry::new();
    let a = reg.add_vector_at(Coords { x: 1, y: 2, z: 3 });
    let b = reg.add_vector_at(Coords { x: 4, y: 5, z: 6 });
    let cmds = reg.sync();
    assert_eq!(cmds.len(), 2);
    match cmds[0] {
        RenderCommand::Spawn { handle, look } => {
            assert_eq!(handle, a);
            assert_eq!(look.mesh.normal, Point { x: 6, y: 3, z: 2 });
            assert_eq!(look.material, Material { color: Rgb { r: 128, g: 128, b: 128 }, alpha: 300, unlit: false });
            assert!(look.visible);
        }
        _ => panic!("expected a spawn"),
    }
    assert_eq!(handles(&cmds), vec![a, b]);
    assert_eq!(reg.records[0].surface, Some(a));
    assert_eq!(reg.records[1].surface, Some(b));
}

#[test]
fn second_sync_without_edits_does_nothing() {
    let mut reg = Registry::new();
    reg.add_vector();
    reg.add_vector();
    reg.edit(1, Edit::SetColor("#00ff00".to_string()));
    let first = reg.sync();
    assert!(!first.is_empty());
    let surfaces: Vec<Option<u64>> = reg.records.iter().map(|r| r.surface).collect();
    let second = reg.sync();
    assert!(second.is_empty());
    let again: Vec<Option<u64>> = reg.records.iter().map(|r| r.surface).collect();
    assert_eq!(surfaces, again);
    assert_eq!(reg.records.len(), 2);
}

#[test]
fn add_then_remove_leaves_nothing() {
    let mut reg = Registry::new();
    let keep = reg.add_vector();
    reg.sync();
    let n = reg.add_vector();
    assert!(reg.mark_for_removal(n));
    let cmds = reg.sync();
    assert!(!handles(&cmds).contains(&n));
    assert!(reg.records.iter().all(|r| r.number != n));
    assert_eq!(reg.records.len(), 1);
    assert_eq!(reg.records[0].number, keep);
}

#[test]
fn removing_a_drawn_record_releases_it() {
    let mut reg = Registry::new();
    let n = reg.add_vector();
    reg.sync();
    assert!(reg.mark_for_removal(n));
    assert_eq!(reg.records.len(), 1);
    let cmds = reg.sync();
    assert_eq!(cmds, vec![RenderCommand::Release { handle: n }]);
    assert!(reg.records.is_empty());
}

#[test]
fn color_edit_updates_the_same_handle() {
    let mut reg = Registry::new();
    let n = reg.add_vector_at(Coords { x: 1, y: 1, z: 1 });
    reg.sync();
    assert!(reg.edit(n, Edit::SetColor("#FF0000".to_string())));
    assert!(reg.dirty);
    let cmds = reg.sync();
    assert_eq!(cmds.len(), 2);
    match cmds[0] {
        RenderCommand::Update { handle, look } => {
            assert_eq!(handle, n);
            assert_eq!(look.material.color, Rgb { r: 255, g: 0, b: 0 });
        }
        _ => panic!("expected an update"),
    }
    match cmds[1] {
        RenderCommand::UpdateSphere { material } => {
            assert_eq!(material, Material { color: Rgb { r: 128, g: 128, b: 128 }, alpha: 300, unlit: true });
        }
        _ => panic!("expected the sphere"),
    }
    assert_eq!(reg.records[0].surface, Some(n));
}

#[test]
fn hidden_surface_still_exists() {
    let mut reg = Registry::new();
    let n = reg.add_vector();
    reg.edit(n, Edit::ShowSurface(false));
    let cmds = reg.sync();
    match cmds[0] {
        RenderCommand::Spawn { handle, look } => {
            assert_eq!(handle, n);
            assert!(!look.visible);
        }
        _ => panic!("expected a spawn"),
    }
    assert_eq!(reg.records[0].surface, Some(n));
}

#[test]
fn edit_of_missing_record_changes_nothing() {
    let mut reg = Registry::new();
    reg.add_vector();
    reg.sync();
    assert!(!reg.edit(99, Edit::Rename("x".to_string())));
    assert!(!reg.dirty);
    assert!(!reg.mark_for_removal(99));
    assert!(reg.sync().is_empty());
}

#[test]
fn edits_change_one_field_and_clamp() {
    let mut reg = Registry::new();
    let n = reg.add_vector_at(Coords { x: 0, y: 0, z: 0 });
    reg.edit(n, Edit::Rename("Apex".to_string()));
    reg.edit(n, Edit::SetX(30000));
    reg.edit(n, Edit::SetY(-5));
    reg.edit(n, Edit::SetZ(-30000));
    reg.edit(n, Edit::SetTransparency(5000));
    reg.edit(n, Edit::ShowEdges(false));
    reg.edit(n, Edit::ShowLabel(false));
    let r = &reg.records[0];
    assert_eq!(r.display_name, "Apex");
    assert_eq!(r.coords, Coords { x: 10000, y: -5, z: -10000 });
    assert_eq!(r.transparency, MAX_TRANSPARENCY);
    assert!(!r.edges_visible && !r.tag_visible && r.surface_visible);
    assert_eq!(r.id, "T1");
}

#[test]
fn settings_edits_update_sphere() {
    let mut reg = Registry::new();
    reg.edit_settings(SettingsEdit::SphereColor("#0000ff".to_string()));
    reg.edit_settings(SettingsEdit::SphereTransparency(2000));
    let cmds = reg.sync();
    assert_eq!(
        cmds,
        vec![RenderCommand::UpdateSphere {
            material: Material { color: Rgb { r: 0, g: 0, b: 255 }, alpha: 1000, unlit: true }
        }]
    );
    reg.edit_settings(SettingsEdit::SphereColor("blue".to_string()));
    assert_eq!(reg.sphere_look().color, Rgb { r: 128, g: 128, b: 128 });
}

#[test]
fn overlay_draws_edges_and_labels() {
    let mut reg = Registry::new();
    let a = reg.add_vector_at(Coords { x: 3, y: 6, z: 9 });
    let b = reg.add_vector_at(Coords { x: 1, y: 1, z: 1 });
    reg.edit(b, Edit::ShowEdges(false));
    let items = reg.overlay();
    assert_eq!(
        items,
        vec![
            OverlayItem::Marker { anchor: Point { x: 3, y: 6, z: 9 } },
            OverlayItem::Edge { tip: Point { x: 3, y: 0, z: 0 }, color: Rgb { r: 255, g: 0, b: 0 } },
            OverlayItem::Edge { tip: Point { x: 0, y: 6, z: 0 }, color: Rgb { r: 0, g: 255, b: 0 } },
            OverlayItem::Edge { tip: Point { x: 0, y: 0, z: 9 }, color: Rgb { r: 0, g: 0, b: 255 } },
        ]
    );
    reg.edit(a, Edit::ShowLabel(false));
    assert_eq!(reg.overlay().len(), 3);
    reg.edit(a, Edit::ShowLabel(true));
    reg.edit_settings(SettingsEdit::ShowAllTags(false));
    assert_eq!(reg.overlay().len(), 3);
    reg.mark_for_removal(a);
    assert!(reg.overlay().is_empty());
}
