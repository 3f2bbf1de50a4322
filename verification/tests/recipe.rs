use chevalchemy::item::ItemKind;
use chevalchemy::recipe::{display_slots, DisplaySlot, Outcome, Recipe};

fn cube_bone_cube() -> Recipe {
    Recipe::new(vec![ItemKind::Cube, ItemKind::Bone, ItemKind::Cube]).unwrap()
}

#[test]
fn new_refuses_an_empty_recipe() {
    assert!(Recipe::new(Vec::new()).is_none());
}

#[test]
fn new_starts_at_the_first_item() {
    let recipe = cube_bone_cube();
    assert_eq!(recipe.len(), 3);
    assert_eq!(recipe.next_index(), 0);
    assert_eq!(recipe.items(), &vec![ItemKind::Cube, ItemKind::Bone, ItemKind::Cube]);
    assert_eq!(recipe.next_expected(), Some(ItemKind::Cube));
    assert!(recipe.has_next_item());
    assert!(!recipe.is_complete());
}

#[test]
fn correct_order_completes_the_recipe() {
    let mut recipe = cube_bone_cube();
    assert_eq!(recipe.submit(ItemKind::Cube), Outcome::Accepted { complete: false });
    assert_eq!(recipe.next_index(), 1);
    assert_eq!(recipe.next_expected(), Some(ItemKind::Bone));
    assert_eq!(recipe.submit(ItemKind::Bone), Outcome::Accepted { complete: false });
    assert_eq!(recipe.next_index(), 2);
    assert_eq!(recipe.submit(ItemKind::Cube), Outcome::Accepted { complete: true });
    assert_eq!(recipe.next_index(), 3);
    assert!(recipe.is_complete());
    assert!(!recipe.has_next_item());
    assert_eq!(recipe.next_expected(), None);
}

#[test]
fn correct_order_completes_recipes_of_every_length() {
    let kinds = [ItemKind::Mug, ItemKind::Gold, ItemKind::Mug, ItemKind::Yorick, ItemKind::Bone];
    for n in 1..=kinds.len() {
        let mut recipe = Recipe::new(kinds[..n].to_vec()).unwrap();
        for (i, kind) in kinds[..n].iter().enumerate() {
            assert_eq!(recipe.submit(*kind), Outcome::Accepted { complete: i + 1 == n });
        }
        assert!(recipe.is_complete());
        assert_eq!(recipe.next_expected(), None);
    }
}

#[test]
fn wrong_kind_is_rejected_and_changes_nothing() {
    let mut recipe = cube_bone_cube();
    for _ in 0..3 {
        assert_eq!(recipe.submit(ItemKind::Bone), Outcome::Rejected);
        assert_eq!(recipe.next_index(), 0);
        assert_eq!(recipe.next_expected(), Some(ItemKind::Cube));
    }
    assert_eq!(recipe.submit(ItemKind::Cube), Outcome::Accepted { complete: false });
    assert_eq!(recipe.submit(ItemKind::Cube), Outcome::Rejected);
    assert_eq!(recipe.submit(ItemKind::Gold), Outcome::Rejected);
    assert_eq!(recipe.next_index(), 1);
}

#[test]
fn complete_recipe_rejects_and_stays() {
    let mut recipe = Recipe::new(vec![ItemKind::Mug]).unwrap();
    assert_eq!(recipe.submit(ItemKind::Mug), Outcome::Accepted { complete: true });
    for kind in [ItemKind::Mug, ItemKind::Cube, ItemKind::Mug] {
        assert_eq!(recipe.submit(kind), Outcome::Rejected);
        assert_eq!(recipe.next_index(), 1);
        assert!(recipe.is_complete());
        assert_eq!(recipe.next_expected(), None);
    }
}

#[test]
fn verdict_judges_without_moving() {
    let recipe = cube_bone_cube();
    assert_eq!(recipe.verdict(ItemKind::Cube), Outcome::Accepted { complete: false });
    assert_eq!(recipe.verdict(ItemKind::Bone), Outcome::Rejected);
    assert_eq!(recipe.next_index(), 0);
    let single = Recipe::new(vec![ItemKind::Gold]).unwrap();
    assert_eq!(single.verdict(ItemKind::Gold), Outcome::Accepted { complete: true });
}

#[test]
fn display_marks_what_lies_before_the_cursor() {
    let mut recipe = cube_bone_cube();
    let slot = |kind, done| DisplaySlot { kind, done };
    assert_eq!(
        recipe.display(),
        vec![
            slot(ItemKind::Cube, false),
            slot(ItemKind::Bone, false),
            slot(ItemKind::Cube, false)
        ]
    );
    recipe.submit(ItemKind::Cube);
    assert_eq!(
        recipe.display(),
        vec![
            slot(ItemKind::Cube, true),
            slot(ItemKind::Bone, false),
            slot(ItemKind::Cube, false)
        ]
    );
    recipe.submit(ItemKind::Bone);
    recipe.submit(ItemKind::Cube);
    assert_eq!(
        recipe.display(),
        vec![slot(ItemKind::Cube, true), slot(ItemKind::Bone, true), slot(ItemKind::Cube, true)]
    );
}

#[test]
fn display_slots_goes_by_index() {
    let items = vec![ItemKind::RedVial, ItemKind::Gold, ItemKind::EyedVial, ItemKind::BlueVial];
    for next_index in 0..=5usize {
        let slots = display_slots(&items, next_index);
        assert_eq!(slots.len(), 4);
        for (i, slot) in slots.iter().enumerate() {
            assert_eq!(slot.kind, items[i]);
            assert_eq!(slot.done, i < next_index);
        }
    }
    assert_eq!(display_slots(&Vec::new(), 0), Vec::new());
}
