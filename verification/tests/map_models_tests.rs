use goldsrc_assets::logic::entity::{ModelReference, RenderMode};
use goldsrc_assets::rendering::map_models::{model_to_entity, models_to_render, EntityModelInfo};

fn info(class_name: &str, model: Option<usize>, render_mode: Option<RenderMode>, render_amount: Option<i32>) -> EntityModelInfo {
    EntityModelInfo {
        class_name: class_name.to_string(),
        model: model.map(ModelReference::Index),
        render_mode,
        render_amount,
    }
}

#[test]
fn each_model_maps_to_the_entity_naming_it() {
    let entities = vec![
        info("worldspawn", None, None, None),
        info("func_wall", Some(2), None, None),
        EntityModelInfo {
            class_name: "env_sprite".to_string(),
            model: Some(ModelReference::Path("sprites/glow.spr".to_string())),
            render_mode: None,
            render_amount: None,
        },
        info("func_door", Some(1), None, None),
    ];
    let map = model_to_entity(&entities).unwrap();
    assert_eq!(map.len(), 2);
    assert_eq!(map[&2], 1);
    assert_eq!(map[&1], 3);
    let twice = vec![info("func_wall", Some(4), None, None), info("func_door", Some(4), None, None)];
    assert!(model_to_entity(&twice).is_none());
}

#[test]
fn triggers_ladders_and_see_through_models_are_not_drawn_opaque() {
    let entities = vec![
        info("trigger_once", Some(1), None, None),
        info("func_ladder", Some(2), None, None),
        info("func_wall", Some(3), Some(RenderMode::Texture), Some(100)),
        info("func_wall", Some(4), Some(RenderMode::Texture), Some(0)),
        info("func_wall", Some(5), Some(RenderMode::Texture), Some(255)),
        info("func_wall", Some(6), Some(RenderMode::Normal), Some(100)),
        info("func_illusionary", Some(7), Some(RenderMode::TransparentAdd), Some(50)),
        info("func_wall", Some(40), Some(RenderMode::Color), Some(10)),
        info("triggerless", None, None, None),
    ];
    let (render, transparent) = models_to_render(8, &entities);
    assert_eq!(render, vec![0, 5, 6]);
    let mut t: Vec<usize> = transparent.into_iter().collect();
    t.sort();
    assert_eq!(t, vec![3, 7, 40]);
    let (all, none) = models_to_render(3, &Vec::new());
    assert_eq!(all, vec![0, 1, 2]);
    assert!(none.is_empty());
}
