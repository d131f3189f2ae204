use gameterm_visual::render::clipped_columns;

#[test]
fn clipped_columns_clamps_to_width() {
    assert_eq!(clipped_columns(1..99, 4), 1..4);
    assert_eq!(clipped_columns(8..99, 4), 4..4);
}

use gameterm_visual::render::{intersecting_entities_for_row, visible_tiles_for_row};
use gameterm_visual::schema::{VisualModeDescriptor, VisualModeLifecycle};
use gameterm_visual::scene_model::{
    VisualEntityKind, VisualInteractiveDebugMenu, VisualPosition, VisualRenderEntity, VisualRenderLayer,
    VisualRenderSnapshot, VisualRenderTile, VisualRpgState, VisualSceneLoadStatus, VisualSceneSource, VisualView,
};

fn mode_descriptor() -> VisualModeDescriptor {
    VisualModeDescriptor {
        mode_id: String::new(),
        label: String::new(),
        description: String::new(),
        scene_profile: None,
        allowed_actions: Vec::new(),
        default_transition: None,
        lifecycle: VisualModeLifecycle { enter_status: None, update_status: None, exit_status: None },
        input_map: Vec::new(),
    }
}

fn entity(id: &str, label: &str, x: usize, y: usize) -> VisualRenderEntity {
    VisualRenderEntity {
        id: id.to_string(),
        kind: VisualEntityKind::Task,
        label: label.to_string(),
        position: VisualPosition { x, y },
        sprite: id.to_string(),
        layer: VisualRenderLayer::Entity,
        selected: false,
        state_flags: Vec::new(),
    }
}

fn tile(sprite: &str, x: usize, y: usize) -> VisualRenderTile {
    VisualRenderTile { position: VisualPosition { x, y }, sprite: sprite.to_string(), layer: VisualRenderLayer::Tile }
}

fn snapshot_for_filtering() -> VisualRenderSnapshot {
    VisualRenderSnapshot {
        generation: 7,
        view: VisualView::Scene,
        scene_source: VisualSceneSource::new("test".to_string(), VisualSceneLoadStatus::Loaded, 0),
        active_mode: mode_descriptor(),
        active_layers: Vec::new(),
        selected_entity_mode: None,
        variables: Vec::new(),
        rpg: VisualRpgState::empty(),
        title: "Test".to_string(),
        background: "bg".to_string(),
        width: 4,
        height: 3,
        selected_entity_id: None,
        selected_choice: 0,
        tiles: vec![tile("visible_tile", 1, 1), tile("outside_columns", 3, 1), tile("outside_row", 1, 2)],
        stage: Vec::new(),
        entities: vec![
            entity("visible_entity", "Visible", 2, 1),
            entity("outside_columns", "Outside Columns", 3, 1),
            entity("outside_row", "Outside Row", 2, 2),
        ],
        dialogue_speaker: String::new(),
        dialogue: String::new(),
        dialogue_index: None,
        dialogue_history: Vec::new(),
        status: String::new(),
        choices: Vec::new(),
        overlay_cols: None,
        overlay_rows: None,
        interactive_debug_menu: VisualInteractiveDebugMenu::SceneLayout,
        vn_voice_hold_active: false,
    }
}

#[test]
fn visible_tiles_for_row_excludes_offscreen_records() {
    let snapshot = snapshot_for_filtering();
    let tiles = visible_tiles_for_row(&snapshot, 1, 0..3);

    assert_eq!(tiles.len(), 1);
    assert_eq!(tiles[0].sprite, "visible_tile");
}

#[test]
fn intersecting_entities_for_row_excludes_offscreen_records() {
    let snapshot = snapshot_for_filtering();
    let entities = intersecting_entities_for_row(&snapshot, 1, 0..3);

    assert_eq!(entities.len(), 1);
    assert_eq!(entities[0].id, "visible_entity");
}

#[test]
fn wide_column_ranges_are_clipped_to_the_snapshot() {
    let snapshot = snapshot_for_filtering();
    let tiles = visible_tiles_for_row(&snapshot, 1, 0..99);
    assert_eq!(tiles.len(), 2);
    let none = intersecting_entities_for_row(&snapshot, 1, 5..9);
    assert!(none.is_empty());
}
