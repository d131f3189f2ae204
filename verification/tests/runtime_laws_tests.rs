use gameterm_visual::conditions::conditions_match;
use gameterm_visual::patch::{VisualSceneEntityPatch, VisualScenePatch};
use gameterm_visual::runtime::SceneRuntime;
use gameterm_visual::scene_model::{
    VisualCondition, VisualInventoryItem, VisualScene, VisualSpriteDefinition, VisualSpriteManifest, VisualSceneLoadStatus, VisualSceneSource, VisualStateEntry, VisualStateOperation,
    VisualStateValue,
};

fn runtime() -> SceneRuntime {
    let source = VisualSceneSource::new("scene.json".to_string(), VisualSceneLoadStatus::Bundled, 0);
    SceneRuntime::new(VisualScene::demo(), source, ".".to_string())
}

fn item(id: &str, count: u32) -> VisualInventoryItem {
    VisualInventoryItem { item_id: id.to_string(), label: id.to_string(), count, metadata: Vec::new() }
}

#[test]
fn removing_inventory_keeps_order_and_drops_items_left_empty() {
    let mut rt = runtime();
    rt.scene.rpg.inventory = vec![item("a", 1), item("b", 2), item("c", 3)];
    let ops = vec![VisualStateOperation::RemoveInventory { item_id: "b".to_string(), count: 5 }];
    assert_eq!(rt.apply_state_operations(&"take".to_string(), &ops), Ok(1));
    let ids: Vec<&str> = rt.scene.rpg.inventory.iter().map(|i| i.item_id.as_str()).collect();
    assert_eq!(ids, vec!["a", "c"]);
    let ops = vec![VisualStateOperation::RemoveInventory { item_id: "c".to_string(), count: 1 }];
    assert_eq!(rt.apply_state_operations(&"take".to_string(), &ops), Ok(1));
    assert_eq!(rt.scene.rpg.inventory[1].count, 2);
}

#[test]
fn applied_patches_set_their_variables_and_record_no_source() {
    let mut rt = runtime();
    let generation = rt.generation;
    let patch = VisualScenePatch {
        scene_patch_version: 1,
        updates: Vec::new(),
        variables: vec![
            VisualStateEntry { key: "workspace_level".to_string(), value: VisualStateValue::Number(7) },
            VisualStateEntry { key: "fresh".to_string(), value: VisualStateValue::Bool(false) },
        ],
        selected_entity_id: None,
        process_state: None,
        status: None,
    };
    assert!(rt.apply_scene_patch(patch).is_ok());
    let value = |key: &str| rt.scene.variables.iter().find(|v| v.key == key).map(|v| v.value.clone());
    assert_eq!(value("workspace_level"), Some(VisualStateValue::Number(7)));
    assert_eq!(value("fresh"), Some(VisualStateValue::Bool(false)));
    assert_eq!(value("conversation_unlocked"), Some(VisualStateValue::Bool(true)));
    assert_eq!(rt.status, "Applied scene patch: 0 entity update(s), 2 variable update(s)");
    assert_eq!(rt.last_patch_transport, None);
    assert_eq!(rt.last_patch_source_pane_id, None);
    assert_eq!(rt.generation, generation + 1);
}

#[test]
fn succeeded_blocks_are_numbered_one_after_another() {
    let mut rt = runtime();
    let blocks = vec!["first".to_string(), "   ".to_string(), "second".to_string(), "third".to_string()];
    let ids = rt.mark_compose_succeeded_blocks("Kiki", &blocks, true);
    assert_eq!(ids.len(), 3);
    assert!(ids.iter().all(|id| id.0 == ids[0].0));
    assert_eq!(ids[1].1, ids[0].1 + 1);
    assert_eq!(ids[2].1, ids[1].1 + 1);
}

#[test]
fn demo_scene_passes_validation() {
    assert_eq!(VisualScene::demo().validate(), Ok(()));
}

#[test]
fn stepping_through_every_choice_returns_to_the_first() {
    let mut rt = runtime();
    let start = rt.selected_choice;
    let n = rt.scene.choices.len();
    for _ in 0..n {
        rt.select_next_choice();
    }
    assert_eq!(rt.selected_choice, start);
}

#[test]
fn conditions_read_only_known_sources() {
    let rt = runtime();
    let cond = |source: &str, variable: &str, equals: VisualStateValue| VisualCondition {
        source: Some(source.to_string()),
        variable: variable.to_string(),
        equals,
    };
    let check = |conds: &[VisualCondition]| {
        conditions_match(conds, &rt.scene.variables, &rt.scene.rpg, rt.scene.entities.first(), None)
    };
    assert!(check(&[]));
    assert!(!check(&[cond("weather", "rain", VisualStateValue::Bool(false))]));
    assert!(check(&[cond("inventory_has", "lantern", VisualStateValue::Bool(false))]));
    assert!(!check(&[cond("inventory_has", "lantern", VisualStateValue::Bool(true))]));
    assert!(check(&[cond("inventory_has", "scene-token", VisualStateValue::Bool(true))]));
}

#[test]
fn patches_updating_unknown_entities_are_refused_without_change() {
    let mut rt = runtime();
    let status = rt.status.clone();
    let generation = rt.generation;
    let patch = VisualScenePatch {
        scene_patch_version: 1,
        updates: vec![VisualSceneEntityPatch {
            entity_id: "ghost".to_string(),
            label: None,
            position: None,
            sprite: None,
            visible: None,
            state_flags: None,
            metadata: None,
        }],
        variables: Vec::new(),
        selected_entity_id: None,
        process_state: None,
        status: None,
    };
    assert!(rt.apply_scene_patch(patch).is_err());
    assert_eq!(rt.status, status);
    assert_eq!(rt.generation, generation);
}

#[test]
fn sprite_manifests_need_named_distinct_sprites() {
    let sprite = |id: &str, path: &str| VisualSpriteDefinition { id: id.to_string(), path: path.to_string() };
    assert!(VisualSpriteManifest { sprites: vec![sprite("a", "a.png"), sprite("b", "b.png")] }.validate().is_ok());
    assert!(VisualSpriteManifest { sprites: vec![sprite("a", "a.png"), sprite("a", "b.png")] }.validate().is_err());
    assert!(VisualSpriteManifest { sprites: vec![sprite(" ", "a.png")] }.validate().is_err());
}
