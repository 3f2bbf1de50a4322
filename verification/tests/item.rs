use chevalchemy::item::{item_type_to_atlas_index, ItemKind, ITEM_FRAMES};

const ALL: [ItemKind; 12] = [
    ItemKind::EyedVial,
    ItemKind::Support,
    ItemKind::RadioactiveVial,
    ItemKind::Bone,
    ItemKind::Mug,
    ItemKind::Yorick,
    ItemKind::VialStand,
    ItemKind::RedVial,
    ItemKind::YellowVial,
    ItemKind::BlueVial,
    ItemKind::Cube,
    ItemKind::Gold,
];

#[test]
fn names_are_the_content_names() {
    assert_eq!(ItemKind::EyedVial.name(), "eyed_vial");
    assert_eq!(ItemKind::Support.name(), "support");
    assert_eq!(ItemKind::RadioactiveVial.name(), "radioactive_vial");
    assert_eq!(ItemKind::Bone.name(), "bone");
    assert_eq!(ItemKind::Mug.name(), "mug");
    assert_eq!(ItemKind::Yorick.name(), "yorick");
    assert_eq!(ItemKind::VialStand.name(), "vial_stand");
    assert_eq!(ItemKind::RedVial.name(), "red_vial");
    assert_eq!(ItemKind::YellowVial.name(), "yellow_vial");
    assert_eq!(ItemKind::BlueVial.name(), "blue_vial");
    assert_eq!(ItemKind::Cube.name(), "cube");
    assert_eq!(ItemKind::Gold.name(), "gold_nugget");
}

#[test]
fn from_name_reads_every_name_back() {
    for kind in ALL {
        assert_eq!(ItemKind::from_name(kind.name()), Some(kind));
    }
}

#[test]
fn from_name_refuses_what_names_no_kind() {
    assert_eq!(ItemKind::from_name(""), None);
    assert_eq!(ItemKind::from_name("Cube"), None);
    assert_eq!(ItemKind::from_name("cube "), None);
    assert_eq!(ItemKind::from_name("gold"), None);
    assert_eq!(ItemKind::from_name("bone1"), None);
}

#[test]
fn atlas_indices_are_the_sheet_frames() {
    let frames: Vec<u32> = ALL.iter().map(|k| k.atlas_index()).collect();
    assert_eq!(frames, vec![0, 1, 3, 5, 7, 8, 9, 11, 12, 13, 14, 20]);
    for frame in frames {
        assert!(frame < ITEM_FRAMES);
    }
}

#[test]
fn atlas_indices_differ() {
    for (i, a) in ALL.iter().enumerate() {
        for (j, b) in ALL.iter().enumerate() {
            assert_eq!(a.atlas_index() == b.atlas_index(), i == j);
        }
    }
}

#[test]
fn item_type_to_atlas_index_goes_by_name() {
    assert_eq!(item_type_to_atlas_index("eyed_vial"), 0);
    assert_eq!(item_type_to_atlas_index("support"), 1);
    assert_eq!(item_type_to_atlas_index("radioactive_vial"), 3);
    assert_eq!(item_type_to_atlas_index("bone"), 5);
    assert_eq!(item_type_to_atlas_index("mug"), 7);
    assert_eq!(item_type_to_atlas_index("yorick"), 8);
    assert_eq!(item_type_to_atlas_index("vial_stand"), 9);
    assert_eq!(item_type_to_atlas_index("red_vial"), 11);
    assert_eq!(item_type_to_atlas_index("yellow_vial"), 12);
    assert_eq!(item_type_to_atlas_index("blue_vial"), 13);
    assert_eq!(item_type_to_atlas_index("cube"), 14);
    assert_eq!(item_type_to_atlas_index("gold_nugget"), 20);
}
