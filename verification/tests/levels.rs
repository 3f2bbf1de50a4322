use chevalchemy::item::ItemKind;
use chevalchemy::levels::{
    BundleKind, Level, LevelRegistry, Placement, RegistryError, STANDARD_LEVELS,
};

fn level(label: &str, recipe: Vec<ItemKind>, bundles: Vec<u8>) -> Level<u8> {
    Level { label: label.to_string(), recipe, bundles }
}

fn place(bundle: BundleKind, x: i32, y: i32) -> Placement {
    Placement { x, y, bundle }
}

#[test]
fn registry_refuses_an_empty_list() {
    let levels: Vec<Level<u8>> = Vec::new();
    assert_eq!(LevelRegistry::new(levels).err(), Some(RegistryError::NoLevels));
}

#[test]
fn registry_refuses_the_first_empty_recipe() {
    let levels = vec![
        level("a", vec![ItemKind::Cube], vec![]),
        level("b", vec![], vec![1]),
        level("c", vec![ItemKind::Bone], vec![]),
        level("d", vec![], vec![]),
    ];
    assert_eq!(LevelRegistry::new(levels).err(), Some(RegistryError::EmptyRecipe { level: 1 }));
    let levels = vec![level("only", vec![], vec![])];
    assert_eq!(LevelRegistry::new(levels).err(), Some(RegistryError::EmptyRecipe { level: 0 }));
}

#[test]
fn registry_keeps_what_it_was_given() {
    let levels = vec![
        level("first", vec![ItemKind::Cube, ItemKind::Mug], vec![3, 1, 2]),
        level("second", vec![ItemKind::Bone], vec![]),
    ];
    let registry = LevelRegistry::new(levels).unwrap();
    assert_eq!(registry.level_count(), 2);
    assert_eq!(registry.label(0), "first");
    assert_eq!(registry.label(1), "second");
    assert_eq!(registry.recipe_template(0), &vec![ItemKind::Cube, ItemKind::Mug]);
    assert_eq!(registry.recipe_template(1), &vec![ItemKind::Bone]);
    assert_eq!(registry.placements(0), &vec![3, 1, 2]);
    assert_eq!(registry.placements(1), &Vec::<u8>::new());
    assert_eq!(registry.level(1).unwrap().label, "second");
    assert!(registry.level(2).is_none());
}

#[test]
fn has_next_is_true_up_to_the_last_level() {
    let registry = LevelRegistry::standard();
    let count = registry.level_count();
    for index in 0..count - 1 {
        assert!(registry.has_next(index));
    }
    assert!(!registry.has_next(count - 1));
    assert!(!registry.has_next(count));
    assert!(!registry.has_next(usize::MAX));
    let single = LevelRegistry::new(vec![level("only", vec![ItemKind::Cube], vec![])]).unwrap();
    assert!(!single.has_next(0));
}

#[test]
fn fresh_recipe_starts_the_template() {
    let registry = LevelRegistry::standard();
    for index in 0..registry.level_count() {
        let recipe = registry.fresh_recipe(index);
        assert_eq!(recipe.items(), registry.recipe_template(index));
        assert_eq!(recipe.next_index(), 0);
        assert_eq!(recipe.next_expected(), Some(registry.recipe_template(index)[0]));
    }
}

#[test]
fn standard_has_five_levels() {
    let registry = LevelRegistry::standard();
    assert_eq!(STANDARD_LEVELS, 5);
    assert_eq!(registry.level_count(), 5);
    let labels: Vec<&str> = (0..5).map(|i| registry.label(i)).collect();
    assert_eq!(labels, vec!["level1", "level2", "level3", "level4", "level5"]);
}

#[test]
fn standard_recipes() {
    let registry = LevelRegistry::standard();
    assert_eq!(
        registry.recipe_template(0),
        &vec![ItemKind::Cube, ItemKind::Bone, ItemKind::Cube]
    );
    assert_eq!(
        registry.recipe_template(1),
        &vec![ItemKind::Gold, ItemKind::EyedVial, ItemKind::Bone]
    );
    assert_eq!(
        registry.recipe_template(2),
        &vec![ItemKind::EyedVial, ItemKind::RadioactiveVial, ItemKind::Bone, ItemKind::Cube]
    );
    assert_eq!(
        registry.recipe_template(3),
        &vec![ItemKind::EyedVial, ItemKind::Mug, ItemKind::YellowVial, ItemKind::Bone]
    );
    assert_eq!(
        registry.recipe_template(4),
        &vec![ItemKind::RedVial, ItemKind::Gold, ItemKind::EyedVial, ItemKind::BlueVial]
    );
}

#[test]
fn standard_placements() {
    let registry = LevelRegistry::standard();
    assert_eq!(
        registry.placements(0),
        &vec![
            place(BundleKind::Bone1, 192, 89),
            place(BundleKind::Bone2, 192, 129),
            place(BundleKind::Cubes, -300, -50),
            place(BundleKind::EyedVial, -190, 236),
            place(BundleKind::Yorick, -320, 230),
        ]
    );
    assert_eq!(
        registry.placements(1),
        &vec![
            place(BundleKind::EyedVial, 180, -20),
            place(BundleKind::Bone1, 200, 200),
            place(BundleKind::Bone2, 200, 250),
            place(BundleKind::Mug, 310, 104),
            place(BundleKind::Cubes, -200, -53),
            place(BundleKind::Yorick, -200, 93),
            place(BundleKind::GoldenNuggets, -318, 70),
        ]
    );
    assert_eq!(
        registry.placements(2),
        &vec![
            place(BundleKind::EyedVial, -189, 110),
            place(BundleKind::RadioactiveVial, -300, -10),
            place(BundleKind::Bone1, 200, 200),
            place(BundleKind::Bone2, 200, 250),
            place(BundleKind::Mug, 310, 104),
            place(BundleKind::Cubes, -200, -53),
            place(BundleKind::Yorick, -270, 225),
            place(BundleKind::GoldenNuggets, 186, 70),
        ]
    );
    assert_eq!(
        registry.placements(3),
        &vec![
            place(BundleKind::EyedVial, 200, -20),
            place(BundleKind::RadioactiveVial, -200, 0),
            place(BundleKind::Bone1, 200, 200),
            place(BundleKind::Bone2, 200, 250),
            place(BundleKind::Mug, 320, 240),
            place(BundleKind::Yorick, -310, 110),
            place(BundleKind::VialStand, -200, 120),
            place(BundleKind::Cubes, -300, -43),
            place(BundleKind::GoldenNuggets, -200, 200),
        ]
    );
    assert_eq!(
        registry.placements(4),
        &vec![
            place(BundleKind::EyedVial, -319, 238),
            place(BundleKind::RadioactiveVial, 327, -16),
            place(BundleKind::Mug, -307, 100),
            place(BundleKind::Yorick, -312, -26),
            place(BundleKind::VialStand, 200, 110),
            place(BundleKind::GoldenNuggets, -200, -44),
            place(BundleKind::Bone1, -200, 200),
            place(BundleKind::Bone2, -200, 250),
            place(BundleKind::Cubes, 223, 210),
        ]
    );
}
