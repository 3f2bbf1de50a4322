//! The kinds of item a recipe can ask for, their names in content files and
//! their frames on the item sprite sheet.

use vstd::prelude::*;

verus! {

/// What an item is, as far as a recipe is concerned.
#[derive(Clone, Copy, Debug, PartialEq, Eq, Structural)]
pub enum ItemKind {
    EyedVial,
    Support,
    RadioactiveVial,
    Bone,
    Mug,
    Yorick,
    VialStand,
    RedVial,
    YellowVial,
    BlueVial,
    Cube,
    Gold,
}

/// Number of frames on the item sprite sheet.
pub const ITEM_FRAMES: u32 = 26;

impl ItemKind {
    /// The name by which content files refer to this kind.
    pub open spec fn spec_name(self) -> Seq<char> {
        match self {
            ItemKind::EyedVial => "eyed_vial"@,
            ItemKind::Support => "support"@,
            ItemKind::RadioactiveVial => "radioactive_vial"@,
            ItemKind::Bone => "bone"@,
            ItemKind::Mug => "mug"@,
            ItemKind::Yorick => "yorick"@,
            ItemKind::VialStand => "vial_stand"@,
            ItemKind::RedVial => "red_vial"@,
            ItemKind::YellowVial => "yellow_vial"@,
            ItemKind::BlueVial => "blue_vial"@,
            ItemKind::Cube => "cube"@,
            ItemKind::Gold => "gold_nugget"@,
        }
    }

    /// The kind that a name stands for, if any.
    pub open spec fn spec_from_name(name: Seq<char>) -> Option<ItemKind> {
        if exists|k: ItemKind| #[trigger] k.spec_name() == name {
            Some(choose|k: ItemKind| #[trigger] k.spec_name() == name)
        } else {
            None
        }
    }

    /// The first frame that shows this kind on the item sprite sheet.
    pub open spec fn spec_atlas_index(self) -> u32 {
        match self {
            ItemKind::EyedVial => 0,
            ItemKind::Support => 1,
            ItemKind::RadioactiveVial => 3,
            ItemKind::Bone => 5,
            ItemKind::Mug => 7,
            ItemKind::Yorick => 8,
            ItemKind::VialStand => 9,
            ItemKind::RedVial => 11,
            ItemKind::YellowVial => 12,
            ItemKind::BlueVial => 13,
            ItemKind::Cube => 14,
            ItemKind::Gold => 20,
        }
    }

    pub fn name(self) -> (r: &'static str)
        ensures
            r@ == self.spec_name(),
    {
        match self {
            ItemKind::EyedVial => "eyed_vial",
            ItemKind::Support => "support",
            ItemKind::RadioactiveVial => "radioactive_vial",
            ItemKind::Bone => "bone",
            ItemKind::Mug => "mug",
            ItemKind::Yorick => "yorick",
            ItemKind::VialStand => "vial_stand",
            ItemKind::RedVial => "red_vial",
            ItemKind::YellowVial => "yellow_vial",
            ItemKind::BlueVial => "blue_vial",
            ItemKind::Cube => "cube",
            ItemKind::Gold => "gold_nugget",
        }
    }

    pub fn atlas_index(self) -> (r: u32)
        ensures
            r == self.spec_atlas_index(),
            r < ITEM_FRAMES,
    {
        match self {
            ItemKind::EyedVial => 0,
            ItemKind::Support => 1,
            ItemKind::RadioactiveVial => 3,
            ItemKind::Bone => 5,
            ItemKind::Mug => 7,
            ItemKind::Yorick => 8,
            ItemKind::VialStand => 9,
            ItemKind::RedVial => 11,
            ItemKind::YellowVial => 12,
            ItemKind::BlueVial => 13,
            ItemKind::Cube => 14,
            ItemKind::Gold => 20,
        }
    }
}

/// Whether two texts hold the same characters.
fn same_text(a: &str, b: &str) -> (r: bool)
    ensures
        r == (a@ == b@),
{
    let x = a.to_owned();
    let y = b.to_owned();
    x == y
}

impl ItemKind {
    /// Every kind, in the order of the sprite sheet.
    pub open spec fn spec_all() -> Seq<ItemKind> {
        seq![
            ItemKind::EyedVial,
            ItemKind::Support,
            ItemKind::RadioactiveVial,
            ItemKind::Bone,
            ItemKind::Mug,
            ItemKind::Yorick,
            ItemKind::VialStand,
            ItemKind::RedVial,
            ItemKind::YellowVial,
            ItemKind::BlueVial,
            ItemKind::Cube,
            ItemKind::Gold,
        ]
    }

    /// Reads a kind from its name. Names are matched exactly; a text that
    /// names no kind gives `None`.
    pub fn from_name(name: &str) -> (r: Option<ItemKind>)
        ensures
            r == ItemKind::spec_from_name(name@),
    {
        let all = [
            ItemKind::EyedVial,
            ItemKind::Support,
            ItemKind::RadioactiveVial,
            ItemKind::Bone,
            ItemKind::Mug,
            ItemKind::Yorick,
            ItemKind::VialStand,
            ItemKind::RedVial,
            ItemKind::YellowVial,
            ItemKind::BlueVial,
            ItemKind::Cube,
            ItemKind::Gold,
        ];
        assert(all@ =~= ItemKind::spec_all());
        let mut i: usize = 0;
        while i < 12
            invariant
                i <= 12,
                all@ == ItemKind::spec_all(),
                forall|j: int| 0 <= j < i ==> (#[trigger] all@[j]).spec_name() != name@,
            decreases 12 - i,
        {
            let k = all[i];
            if same_text(k.name(), name) {
                proof {
                    lemma_names_differ();
                    let found = choose|c: ItemKind| #[trigger] c.spec_name() == name@;
                    assert(k.spec_name() == name@);
                    assert(found.spec_name() == k.spec_name());
                }
                return Some(k);
            }
            i = i + 1;
        }
        proof {
            assert forall|k: ItemKind| #[trigger] k.spec_name() != name@ by {
                lemma_all_holds_every_kind(k);
            }
        }
        None
    }
}

/// The sprite-sheet frame for an item given by name, as the recipe display
/// needs it. The name must be one that `ItemKind::from_name` knows.
pub fn item_type_to_atlas_index(item_type: &str) -> (r: u32)
    requires
        ItemKind::spec_from_name(item_type@).is_some(),
    ensures
        r == ItemKind::spec_from_name(item_type@).unwrap().spec_atlas_index(),
{
    match ItemKind::from_name(item_type) {
        Some(kind) => kind.atlas_index(),
        None => 0,
    }
}

/// Reading back the name of a kind gives that kind.
pub proof fn lemma_name_round_trip(k: ItemKind)
    ensures
        ItemKind::spec_from_name(k.spec_name()) == Some(k),
{
    lemma_names_differ();
    let found = choose|c: ItemKind| #[trigger] c.spec_name() == k.spec_name();
    assert(found.spec_name() == k.spec_name());
}

/// No two kinds share a frame, and every frame lies on the sheet.
pub proof fn lemma_atlas_index_distinct(a: ItemKind, b: ItemKind)
    ensures
        a.spec_atlas_index() == b.spec_atlas_index() ==> a == b,
        a.spec_atlas_index() < ITEM_FRAMES,
{
}

/// Every kind stands in `spec_all`.
pub proof fn lemma_all_holds_every_kind(k: ItemKind)
    ensures
        exists|j: int| 0 <= j < 12 && #[trigger] ItemKind::spec_all()[j] == k,
{
    let all = ItemKind::spec_all();
    match k {
        ItemKind::EyedVial => assert(all[0] == k),
        ItemKind::Support => assert(all[1] == k),
        ItemKind::RadioactiveVial => assert(all[2] == k),
        ItemKind::Bone => assert(all[3] == k),
        ItemKind::Mug => assert(all[4] == k),
        ItemKind::Yorick => assert(all[5] == k),
        ItemKind::VialStand => assert(all[6] == k),
        ItemKind::RedVial => assert(all[7] == k),
        ItemKind::YellowVial => assert(all[8] == k),
        ItemKind::BlueVial => assert(all[9] == k),
        ItemKind::Cube => assert(all[10] == k),
        ItemKind::Gold => assert(all[11] == k),
    }
}

/// No two kinds share a name.
pub proof fn lemma_names_differ()
    ensures
        forall|a: ItemKind, b: ItemKind| #[trigger] a.spec_name() == #[trigger] b.spec_name() ==> a == b,
{
    reveal_strlit("eyed_vial");
    reveal_strlit("support");
    reveal_strlit("radioactive_vial");
    reveal_strlit("bone");
    reveal_strlit("mug");
    reveal_strlit("yorick");
    reveal_strlit("vial_stand");
    reveal_strlit("red_vial");
    reveal_strlit("yellow_vial");
    reveal_strlit("blue_vial");
    reveal_strlit("cube");
    reveal_strlit("gold_nugget");
    assert forall|a: ItemKind, b: ItemKind| #[trigger] a.spec_name() == #[trigger] b.spec_name() implies a == b by {
        let x = a.spec_name();
        let y = b.spec_name();
        assert(x.len() == y.len());
        assert(x[0] == y[0]);
        assert(x.len() > 2 ==> x[2] == y[2]);
    }
}

} // verus!
