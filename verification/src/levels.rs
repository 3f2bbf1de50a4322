//! Levels and the registry that holds them in playing order.
//!
//! A level is static content: a label, the recipe it asks for, and the
//! placements to put into the world when it starts. The rules never look
//! inside a placement, so its type is left to the program.

use vstd::prelude::*;
use crate::item::ItemKind;
use crate::recipe::{Recipe, RecipeModel};

verus! {

/// One level: its label, the kinds its recipe asks for in order, and what to
/// place in the world when it starts.
pub struct Level<P> {
    pub label: String,
    pub recipe: Vec<ItemKind>,
    pub bundles: Vec<P>,
}

/// Why a list of levels cannot make a registry.
#[derive(Clone, Copy, Debug, PartialEq, Eq, Structural)]
pub enum RegistryError {
    /// The list holds no level.
    NoLevels,
    /// The level at this index has an empty recipe; it is the first such.
    EmptyRecipe { level: usize },
}

/// A list of levels is playable when there is a level to start with and
/// every recipe asks for something.
pub open spec fn playable<P>(levels: Seq<Level<P>>) -> bool {
    &&& 1 <= levels.len()
    &&& forall|i: int| 0 <= i < levels.len() ==> 1 <= (#[trigger] levels[i]).recipe@.len()
}

/// The levels of a game, in playing order. Fixed once made.
pub struct LevelRegistry<P> {
    levels: Vec<Level<P>>,
}

impl<P> View for LevelRegistry<P> {
    type V = Seq<Level<P>>;

    closed spec fn view(&self) -> Seq<Level<P>> {
        self.levels@
    }
}

impl<P> LevelRegistry<P> {
    #[verifier::type_invariant]
    closed spec fn inv(self) -> bool {
        playable(self.levels@)
    }

    /// Whether `index` names a level that has a successor.
    pub open spec fn spec_has_next(self, index: int) -> bool {
        index + 1 < self@.len()
    }

    /// The recipe that level `index` asks for.
    pub open spec fn spec_recipe(self, index: int) -> Seq<ItemKind> {
        self@[index].recipe@
    }

    /// Makes a registry of `levels`, in the order given. A list without
    /// levels is refused, and so is one with an empty recipe.
    pub fn new(levels: Vec<Level<P>>) -> (r: Result<LevelRegistry<P>, RegistryError>)
        ensures
            r is Ok <==> playable(levels@),
            r matches Ok(registry) ==> registry@ == levels@,
            r == Err::<LevelRegistry<P>, RegistryError>(RegistryError::NoLevels) <==> levels@.len() == 0,
            r matches Err(RegistryError::EmptyRecipe { level }) ==> level < levels@.len()
                && levels@[level as int].recipe@.len() == 0 && forall|j: int|
                0 <= j < level ==> (#[trigger] levels@[j]).recipe@.len() != 0,
    {
        if levels.len() == 0 {
            return Err(RegistryError::NoLevels);
        }
        let mut i: usize = 0;
        while i < levels.len()
            invariant
                i <= levels.len(),
                forall|j: int| 0 <= j < i ==> (#[trigger] levels@[j]).recipe@.len() != 0,
            decreases levels.len() - i,
        {
            if levels[i].recipe.len() == 0 {
                return Err(RegistryError::EmptyRecipe { level: i });
            }
            i = i + 1;
        }
        Ok(LevelRegistry { levels })
    }

    /// The number of levels; at least one.
    pub fn level_count(&self) -> (n: usize)
        ensures
            n == self@.len(),
            playable(self@),
    {
        proof {
            use_type_invariant(self);
        }
        self.levels.len()
    }

    /// The level at `index`, or `None` where there is none.
    pub fn level(&self, index: usize) -> (r: Option<&Level<P>>)
        ensures
            index < self@.len() <==> r.is_some(),
            r matches Some(level) ==> *level == self@[index as int],
            playable(self@),
    {
        proof {
            use_type_invariant(self);
        }
        if index < self.levels.len() {
            Some(&self.levels[index])
        } else {
            None
        }
    }

    /// The kinds that level `index` asks for, in order.
    pub fn recipe_template(&self, index: usize) -> (r: &Vec<ItemKind>)
        requires
            index < self@.len(),
        ensures
            r@ == self.spec_recipe(index as int),
            1 <= r@.len(),
            playable(self@),
    {
        proof {
            use_type_invariant(self);
        }
        &self.levels[index].recipe
    }

    /// What to place in the world when level `index` starts.
    pub fn placements(&self, index: usize) -> (r: &Vec<P>)
        requires
            index < self@.len(),
        ensures
            *r == self@[index as int].bundles,
    {
        &self.levels[index].bundles
    }

    /// The label of level `index`.
    pub fn label(&self, index: usize) -> (r: &str)
        requires
            index < self@.len(),
        ensures
            r@ == self@[index as int].label@,
    {
        self.levels[index].label.as_str()
    }

    /// Whether a level follows the one at `index`.
    pub fn has_next(&self, index: usize) -> (b: bool)
        ensures
            b == self.spec_has_next(index as int),
            b ==> index < usize::MAX,
            playable(self@),
    {
        proof {
            use_type_invariant(self);
        }
        index < self.levels.len() - 1
    }

    /// A fresh recipe for an attempt at level `index`.
    pub fn fresh_recipe(&self, index: usize) -> (r: Recipe)
        requires
            index < self@.len(),
        ensures
            r@ == RecipeModel::fresh(self.spec_recipe(index as int)),
            r@.wf(),
    {
        proof {
            use_type_invariant(self);
        }
        let template = &self.levels[index].recipe;
        let mut items: Vec<ItemKind> = Vec::new();
        let mut i: usize = 0;
        while i < template.len()
            invariant
                i <= template.len(),
                items@ == template@.take(i as int),
            decreases template.len() - i,
        {
            items.push(template[i]);
            assert(template@.take(i + 1) =~= template@.take(i as int).push(template@[i as int]));
            i = i + 1;
        }
        assert(template@.take(template@.len() as int) =~= template@);
        Recipe::new(items).unwrap()
    }
}

/// The groups of items that the built-in levels place.
#[derive(Clone, Copy, Debug, PartialEq, Eq, Structural)]
pub enum BundleKind {
    EyedVial,
    RadioactiveVial,
    Bone1,
    Bone2,
    Mug,
    Yorick,
    VialStand,
    Cubes,
    GoldenNuggets,
}

/// A placement of the built-in levels: a bundle and where its origin goes,
/// in world units.
#[derive(Clone, Copy, Debug, PartialEq, Eq, Structural)]
pub struct Placement {
    pub x: i32,
    pub y: i32,
    pub bundle: BundleKind,
}

/// The number of built-in levels.
pub const STANDARD_LEVELS: usize = 5;

/// The label of built-in level `index`.
pub open spec fn standard_label(index: int) -> Seq<char> {
    if index == 0 {
        "level1"@
    } else if index == 1 {
        "level2"@
    } else if index == 2 {
        "level3"@
    } else if index == 3 {
        "level4"@
    } else {
        "level5"@
    }
}

/// The recipe of built-in level `index`.
pub open spec fn standard_recipe(index: int) -> Seq<ItemKind> {
    if index == 0 {
        seq![ItemKind::Cube, ItemKind::Bone, ItemKind::Cube]
    } else if index == 1 {
        seq![ItemKind::Gold, ItemKind::EyedVial, ItemKind::Bone]
    } else if index == 2 {
        seq![ItemKind::EyedVial, ItemKind::RadioactiveVial, ItemKind::Bone, ItemKind::Cube]
    } else if index == 3 {
        seq![ItemKind::EyedVial, ItemKind::Mug, ItemKind::YellowVial, ItemKind::Bone]
    } else {
        seq![ItemKind::RedVial, ItemKind::Gold, ItemKind::EyedVial, ItemKind::BlueVial]
    }
}

/// The placement of `bundle` with its origin at (`x`, `y`).
pub open spec fn place(bundle: BundleKind, x: int, y: int) -> Placement {
    Placement { x: x as i32, y: y as i32, bundle }
}

/// The placements of built-in level `index`.
pub open spec fn standard_placements(index: int) -> Seq<Placement> {
    if index == 0 {
        seq![
            place(BundleKind::Bone1, 192, 89),
            place(BundleKind::Bone2, 192, 129),
            place(BundleKind::Cubes, -300, -50),
            place(BundleKind::EyedVial, -190, 236),
            place(BundleKind::Yorick, -320, 230),
        ]
    } else if index == 1 {
        seq![
            place(BundleKind::EyedVial, 180, -20),
            place(BundleKind::Bone1, 200, 200),
            place(BundleKind::Bone2, 200, 250),
            place(BundleKind::Mug, 310, 104),
            place(BundleKind::Cubes, -200, -53),
            place(BundleKind::Yorick, -200, 93),
            place(BundleKind::GoldenNuggets, -318, 70),
        ]
    } else if index == 2 {
        seq![
            place(BundleKind::EyedVial, -189, 110),
            place(BundleKind::RadioactiveVial, -300, -10),
            place(BundleKind::Bone1, 200, 200),
            place(BundleKind::Bone2, 200, 250),
            place(BundleKind::Mug, 310, 104),
            place(BundleKind::Cubes, -200, -53),
            place(BundleKind::Yorick, -270, 225),
            place(BundleKind::GoldenNuggets, 186, 70),
        ]
    } else if index == 3 {
        seq![
            place(BundleKind::EyedVial, 200, -20),
            place(BundleKind::RadioactiveVial, -200, 0),
            place(BundleKind::Bone1, 200, 200),
            place(BundleKind::Bone2, 200, 250),
            place(BundleKind::Mug, 320, 240),
            place(BundleKind::Yorick, -310, 110),
            place(BundleKind::VialStand, -200, 120),
            place(BundleKind::Cubes, -300, -43),
            place(BundleKind::GoldenNuggets, -200, 200),
        ]
    } else {
        seq![
            place(BundleKind::EyedVial, -319, 238),
            place(BundleKind::RadioactiveVial, 327, -16),
            place(BundleKind::Mug, -307, 100),
            place(BundleKind::Yorick, -312, -26),
            place(BundleKind::VialStand, 200, 110),
            place(BundleKind::GoldenNuggets, -200, -44),
            place(BundleKind::Bone1, -200, 200),
            place(BundleKind::Bone2, -200, 250),
            place(BundleKind::Cubes, 223, 210),
        ]
    }
}

/// Whether `levels` are the built-in ones: five levels with the labels,
/// recipes and placements that the three tables above give.
pub open spec fn is_standard(levels: Seq<Level<Placement>>) -> bool {
    &&& levels.len() == STANDARD_LEVELS
    &&& forall|i: int|
        0 <= i < levels.len() ==> {
            &&& (#[trigger] levels[i]).label@ == standard_label(i)
            &&& levels[i].recipe@ == standard_recipe(i)
            &&& levels[i].bundles@ == standard_placements(i)
        }
}

fn standard_level_0() -> (level: Level<Placement>)
    ensures
        level.label@ == standard_label(0),
        level.recipe@ == standard_recipe(0),
        level.bundles@ == standard_placements(0),
{
    let recipe = vec![ItemKind::Cube, ItemKind::Bone, ItemKind::Cube];
    let bundles = vec![
        Placement { x: 192, y: 89, bundle: BundleKind::Bone1 },
        Placement { x: 192, y: 129, bundle: BundleKind::Bone2 },
        Placement { x: -300, y: -50, bundle: BundleKind::Cubes },
        Placement { x: -190, y: 236, bundle: BundleKind::EyedVial },
        Placement { x: -320, y: 230, bundle: BundleKind::Yorick },
    ];
    assert(recipe@ =~= standard_recipe(0));
    assert(bundles@ =~= standard_placements(0));
    Level { label: "level1".to_owned(), recipe, bundles }
}

fn standard_level_1() -> (level: Level<Placement>)
    ensures
        level.label@ == standard_label(1),
        level.recipe@ == standard_recipe(1),
        level.bundles@ == standard_placements(1),
{
    let recipe = vec![ItemKind::Gold, ItemKind::EyedVial, ItemKind::Bone];
    let bundles = vec![
        Placement { x: 180, y: -20, bundle: BundleKind::EyedVial },
        Placement { x: 200, y: 200, bundle: BundleKind::Bone1 },
        Placement { x: 200, y: 250, bundle: BundleKind::Bone2 },
        Placement { x: 310, y: 104, bundle: BundleKind::Mug },
        Placement { x: -200, y: -53, bundle: BundleKind::Cubes },
        Placement { x: -200, y: 93, bundle: BundleKind::Yorick },
        Placement { x: -318, y: 70, bundle: BundleKind::GoldenNuggets },
    ];
    assert(recipe@ =~= standard_recipe(1));
    assert(bundles@ =~= standard_placements(1));
    Level { label: "level2".to_owned(), recipe, bundles }
}

fn standard_level_2() -> (level: Level<Placement>)
    ensures
        level.label@ == standard_label(2),
        level.recipe@ == standard_recipe(2),
        level.bundles@ == standard_placements(2),
{
    let recipe = vec![ItemKind::EyedVial, ItemKind::RadioactiveVial, ItemKind::Bone, ItemKind::Cube];
    let bundles = vec![
        Placement { x: -189, y: 110, bundle: BundleKind::EyedVial },
        Placement { x: -300, y: -10, bundle: BundleKind::RadioactiveVial },
        Placement { x: 200, y: 200, bundle: BundleKind::Bone1 },
        Placement { x: 200, y: 250, bundle: BundleKind::Bone2 },
        Placement { x: 310, y: 104, bundle: BundleKind::Mug },
        Placement { x: -200, y: -53, bundle: BundleKind::Cubes },
        Placement { x: -270, y: 225, bundle: BundleKind::Yorick },
        Placement { x: 186, y: 70, bundle: BundleKind::GoldenNuggets },
    ];
    assert(recipe@ =~= standard_recipe(2));
    assert(bundles@ =~= standard_placements(2));
    Level { label: "level3".to_owned(), recipe, bundles }
}

fn standard_level_3() -> (level: Level<Placement>)
    ensures
        level.label@ == standard_label(3),
        level.recipe@ == standard_recipe(3),
        level.bundles@ == standard_placements(3),
{
    let recipe = vec![ItemKind::EyedVial, ItemKind::Mug, ItemKind::YellowVial, ItemKind::Bone];
    let bundles = vec![
        Placement { x: 200, y: -20, bundle: BundleKind::EyedVial },
        Placement { x: -200, y: 0, bundle: BundleKind::RadioactiveVial },
        Placement { x: 200, y: 200, bundle: BundleKind::Bone1 },
        Placement { x: 200, y: 250, bundle: BundleKind::Bone2 },
        Placement { x: 320, y: 240, bundle: BundleKind::Mug },
        Placement { x: -310, y: 110, bundle: BundleKind::Yorick },
        Placement { x: -200, y: 120, bundle: BundleKind::VialStand },
        Placement { x: -300, y: -43, bundle: BundleKind::Cubes },
        Placement { x: -200, y: 200, bundle: BundleKind::GoldenNuggets },
    ];
    assert(recipe@ =~= standard_recipe(3));
    assert(bundles@ =~= standard_placements(3));
    Level { label: "level4".to_owned(), recipe, bundles }
}

fn standard_level_4() -> (level: Level<Placement>)
    ensures
        level.label@ == standard_label(4),
        level.recipe@ == standard_recipe(4),
        level.bundles@ == standard_placements(4),
{
    let recipe = vec![ItemKind::RedVial, ItemKind::Gold, ItemKind::EyedVial, ItemKind::BlueVial];
    let bundles = vec![
        Placement { x: -319, y: 238, bundle: BundleKind::EyedVial },
        Placement { x: 327, y: -16, bundle: BundleKind::RadioactiveVial },
        Placement { x: -307, y: 100, bundle: BundleKind::Mug },
        Placement { x: -312, y: -26, bundle: BundleKind::Yorick },
        Placement { x: 200, y: 110, bundle: BundleKind::VialStand },
        Placement { x: -200, y: -44, bundle: BundleKind::GoldenNuggets },
        Placement { x: -200, y: 200, bundle: BundleKind::Bone1 },
        Placement { x: -200, y: 250, bundle: BundleKind::Bone2 },
        Placement { x: 223, y: 210, bundle: BundleKind::Cubes },
    ];
    assert(recipe@ =~= standard_recipe(4));
    assert(bundles@ =~= standard_placements(4));
    Level { label: "level5".to_owned(), recipe, bundles }
}

impl LevelRegistry<Placement> {
    /// The registry of the five built-in levels.
    pub fn standard() -> (registry: LevelRegistry<Placement>)
        ensures
            is_standard(registry@),
    {
        let mut levels: Vec<Level<Placement>> = Vec::new();
        levels.push(standard_level_0());
        levels.push(standard_level_1());
        levels.push(standard_level_2());
        levels.push(standard_level_3());
        levels.push(standard_level_4());
        proof {
            lemma_standard_is_playable(levels@);
        }
        LevelRegistry { levels }
    }
}

/// The built-in levels are playable: there are five, and every recipe asks
/// for three items or four.
pub proof fn lemma_standard_is_playable(levels: Seq<Level<Placement>>)
    requires
        is_standard(levels),
    ensures
        playable(levels),
        forall|i: int| 0 <= i < levels.len() ==> 3 <= (#[trigger] levels[i]).recipe@.len() <= 4,
{
}

/// Every level but the last has a successor, and the last has none.
pub proof fn lemma_has_next<P>(registry: LevelRegistry<P>, index: int)
    requires
        0 <= index < registry@.len(),
    ensures
        index < registry@.len() - 1 ==> registry.spec_has_next(index),
        index == registry@.len() - 1 ==> !registry.spec_has_next(index),
{
}

} // verus!
