//! Profession types: gathering and crafting.
//!
//! Ref: AzerothCore `SkillLineAbility.dbc`, profession skill system.
use std::collections::HashSet;
use vstd::prelude::*;
use vstd::std_specs::iter::IteratorSpec;

verus! {

broadcast use vstd::std_specs::hash::group_hash_axioms;

/// Profession category.
#[derive(Debug, Clone, Copy, PartialEq, Eq, Hash, Structural)]
pub enum ProfessionCategory {
    Gathering,
    Crafting,
    Secondary,
}

/// All WoW professions.
#[derive(Debug, Clone, Copy, PartialEq, Eq, Hash, Structural)]
pub enum Profession {
    // Gathering
    Mining,
    Herbalism,
    Skinning,
    // Crafting
    Blacksmithing,
    Leatherworking,
    Tailoring,
    Engineering,
    Alchemy,
    Enchanting,
    Jewelcrafting,
    Inscription,
    // Secondary (don't count toward the 2-primary limit)
    Cooking,
    Fishing,
}

/// Mining, herbalism and skinning gather; cooking and fishing are
/// secondary; the rest craft.
pub open spec fn category_of(p: Profession) -> ProfessionCategory {
    match p {
        Profession::Mining | Profession::Herbalism | Profession::Skinning => {
            ProfessionCategory::Gathering
        },
        Profession::Cooking | Profession::Fishing => ProfessionCategory::Secondary,
        _ => ProfessionCategory::Crafting,
    }
}

/// Counts toward the two-primary limit.
pub open spec fn primary(p: Profession) -> bool {
    category_of(p) != ProfessionCategory::Secondary
}

impl Profession {
    pub fn category(self) -> (c: ProfessionCategory)
        ensures
            c == category_of(self),
    {
        match self {
            Profession::Mining | Profession::Herbalism | Profession::Skinning => {
                ProfessionCategory::Gathering
            },
            Profession::Cooking | Profession::Fishing => ProfessionCategory::Secondary,
            _ => ProfessionCategory::Crafting,
        }
    }

    /// Whether this counts toward the 2-primary-profession limit.
    pub fn is_primary(self) -> (b: bool)
        ensures
            b == primary(self),
    {
        self.category() != ProfessionCategory::Secondary
    }

    /// All profession variants, in declaration order.
    pub fn all() -> (r: [Profession; 13])
        ensures
            forall|p: Profession| #[trigger] r@.contains(p),
            r@.no_duplicates(),
    {
        let r = [
            Profession::Mining,
            Profession::Herbalism,
            Profession::Skinning,
            Profession::Blacksmithing,
            Profession::Leatherworking,
            Profession::Tailoring,
            Profession::Engineering,
            Profession::Alchemy,
            Profession::Enchanting,
            Profession::Jewelcrafting,
            Profession::Inscription,
            Profession::Cooking,
            Profession::Fishing,
        ];
        proof {
            assert forall|p: Profession| #[trigger] r@.contains(p) by {
                let k: int = match p {
                    Profession::Mining => 0,
                    Profession::Herbalism => 1,
                    Profession::Skinning => 2,
                    Profession::Blacksmithing => 3,
                    Profession::Leatherworking => 4,
                    Profession::Tailoring => 5,
                    Profession::Engineering => 6,
                    Profession::Alchemy => 7,
                    Profession::Enchanting => 8,
                    Profession::Jewelcrafting => 9,
                    Profession::Inscription => 10,
                    Profession::Cooking => 11,
                    Profession::Fishing => 12,
                };
                assert(r@[k] == p);
            }
        }
        r
    }
}

/// Maximum primary professions a player can have.
pub const MAX_PRIMARY_PROFESSIONS: usize = 2;

/// Maximum skill level (WotLK Grand Master).
pub const MAX_SKILL_LEVEL: u16 = 450;

/// Profession training tiers with skill caps and required character level.
///
/// Ref: AzerothCore profession trainer data.
#[derive(Debug, Clone, Copy, PartialEq, Eq, Structural)]
pub enum ProfessionTier {
    Apprentice,
    Journeyman,
    Expert,
    Artisan,
    /// TBC tier.
    Master,
    /// WotLK tier.
    GrandMaster,
}

/// Skill cap of each tier.
pub open spec fn tier_max_skill(t: ProfessionTier) -> u16 {
    match t {
        ProfessionTier::Apprentice => 75,
        ProfessionTier::Journeyman => 150,
        ProfessionTier::Expert => 225,
        ProfessionTier::Artisan => 300,
        ProfessionTier::Master => 375,
        ProfessionTier::GrandMaster => 450,
    }
}

/// Character level needed to train each tier.
pub open spec fn tier_required_level(t: ProfessionTier) -> u8 {
    match t {
        ProfessionTier::Apprentice => 5,
        ProfessionTier::Journeyman => 10,
        ProfessionTier::Expert => 20,
        ProfessionTier::Artisan => 35,
        ProfessionTier::Master => 50,
        ProfessionTier::GrandMaster => 65,
    }
}

/// Skill needed to train each tier.
pub open spec fn tier_required_skill(t: ProfessionTier) -> u16 {
    match t {
        ProfessionTier::Apprentice => 0,
        ProfessionTier::Journeyman => 50,
        ProfessionTier::Expert => 125,
        ProfessionTier::Artisan => 200,
        ProfessionTier::Master => 275,
        ProfessionTier::GrandMaster => 350,
    }
}

/// The tiers in training order.
pub open spec fn tier_order() -> Seq<ProfessionTier> {
    seq![
        ProfessionTier::Apprentice,
        ProfessionTier::Journeyman,
        ProfessionTier::Expert,
        ProfessionTier::Artisan,
        ProfessionTier::Master,
        ProfessionTier::GrandMaster,
    ]
}

/// The training ladder: the `i`-th tier caps skill at `75 * (i + 1)`, can be
/// trained 25 points before the previous cap is reached (Apprentice from 0),
/// and needs character level 5, 10, 20, 35, 50 and 65 in turn.
pub proof fn lemma_tier_ladder(i: int)
    requires
        0 <= i < 6,
    ensures
        tier_order().len() == 6,
        tier_max_skill(tier_order()[i]) == 75 * (i + 1),
        i == 0 ==> tier_required_skill(tier_order()[i]) == 0,
        i > 0 ==> tier_required_skill(tier_order()[i]) == tier_max_skill(tier_order()[i - 1]) - 25,
        tier_required_level(tier_order()[i]) == seq![5int, 10, 20, 35, 50, 65][i],
{
}

/// Gathering professions are Mining, Herbalism and Skinning; Cooking and
/// Fishing are the secondary ones that do not count toward the two-primary
/// limit; every other profession crafts.
pub proof fn lemma_profession_categories(p: Profession)
    ensures
        (category_of(p) == ProfessionCategory::Gathering) <==> (p == Profession::Mining || p
            == Profession::Herbalism || p == Profession::Skinning),
        (category_of(p) == ProfessionCategory::Secondary) <==> (p == Profession::Cooking || p
            == Profession::Fishing),
        primary(p) <==> !(p == Profession::Cooking || p == Profession::Fishing),
{
}

/// A tier the player could train now, beyond their current cap.
pub open spec fn trainable(t: ProfessionTier, current_max: u16, current_skill: u16, player_level: u8) -> bool {
    tier_max_skill(t) > current_max && player_level >= tier_required_level(t) && current_skill
        >= tier_required_skill(t)
}

impl ProfessionTier {
    /// Skill cap for this tier.
    pub fn max_skill(self) -> (m: u16)
        ensures
            m == tier_max_skill(self),
    {
        match self {
            ProfessionTier::Apprentice => 75,
            ProfessionTier::Journeyman => 150,
            ProfessionTier::Expert => 225,
            ProfessionTier::Artisan => 300,
            ProfessionTier::Master => 375,
            ProfessionTier::GrandMaster => 450,
        }
    }

    /// Required character level to train this tier.
    pub fn required_level(self) -> (l: u8)
        ensures
            l == tier_required_level(self),
    {
        match self {
            ProfessionTier::Apprentice => 5,
            ProfessionTier::Journeyman => 10,
            ProfessionTier::Expert => 20,
            ProfessionTier::Artisan => 35,
            ProfessionTier::Master => 50,
            ProfessionTier::GrandMaster => 65,
        }
    }

    /// Required skill level to train this tier.
    pub fn required_skill(self) -> (s: u16)
        ensures
            s == tier_required_skill(self),
    {
        match self {
            ProfessionTier::Apprentice => 0,
            ProfessionTier::Journeyman => 50,
            ProfessionTier::Expert => 125,
            ProfessionTier::Artisan => 200,
            ProfessionTier::Master => 275,
            ProfessionTier::GrandMaster => 350,
        }
    }

    /// All tiers in order.
    pub fn all() -> (r: [ProfessionTier; 6])
        ensures
            r@ == tier_order(),
    {
        let r = [
            ProfessionTier::Apprentice,
            ProfessionTier::Journeyman,
            ProfessionTier::Expert,
            ProfessionTier::Artisan,
            ProfessionTier::Master,
            ProfessionTier::GrandMaster,
        ];
        proof {
            assert(r@ =~= tier_order());
        }
        r
    }

    /// The next tier after this one, if any.
    pub fn next(self) -> (n: Option<ProfessionTier>)
        ensures
            n == match self {
                ProfessionTier::Apprentice => Some(ProfessionTier::Journeyman),
                ProfessionTier::Journeyman => Some(ProfessionTier::Expert),
                ProfessionTier::Expert => Some(ProfessionTier::Artisan),
                ProfessionTier::Artisan => Some(ProfessionTier::Master),
                ProfessionTier::Master => Some(ProfessionTier::GrandMaster),
                ProfessionTier::GrandMaster => None,
            },
    {
        match self {
            ProfessionTier::Apprentice => Some(ProfessionTier::Journeyman),
            ProfessionTier::Journeyman => Some(ProfessionTier::Expert),
            ProfessionTier::Expert => Some(ProfessionTier::Artisan),
            ProfessionTier::Artisan => Some(ProfessionTier::Master),
            ProfessionTier::Master => Some(ProfessionTier::GrandMaster),
            ProfessionTier::GrandMaster => None,
        }
    }
}

/// Determine which tier a skill can train next, given current skill and character level:
/// the first tier, in training order, that raises the cap and whose
/// requirements are met. Returns `None` if there is none.
pub fn next_trainable_tier(current_max: u16, current_skill: u16, player_level: u8) -> (r: Option<
    ProfessionTier,
>)
    ensures
        r is None <==> forall|i: int|
            0 <= i < 6 ==> !trainable(
                #[trigger] tier_order()[i],
                current_max,
                current_skill,
                player_level,
            ),
        r matches Some(t) ==> exists|i: int|
            0 <= i < 6 && tier_order()[i] == t && trainable(t, current_max, current_skill, player_level)
                && forall|j: int|
                0 <= j < i ==> !trainable(
                    #[trigger] tier_order()[j],
                    current_max,
                    current_skill,
                    player_level,
                ),
{
    let tiers = ProfessionTier::all();
    let mut i: usize = 0;
    while i < 6
        invariant
            i <= 6,
            tiers@ == tier_order(),
            forall|j: int|
                0 <= j < i ==> !trainable(
                    #[trigger] tier_order()[j],
                    current_max,
                    current_skill,
                    player_level,
                ),
        decreases 6 - i,
    {
        let t = tiers[i];
        if t.max_skill() > current_max && player_level >= t.required_level() && current_skill
            >= t.required_skill() {
            return Some(t);
        }
        i = i + 1;
    }
    None
}

/// A player's skill in a single profession.
#[derive(Debug, Clone, Copy, PartialEq, Eq, Structural)]
pub struct ProfessionSkill {
    pub profession: Profession,
    pub current: u16,
    pub max: u16,
}

impl ProfessionSkill {
    /// A freshly learned profession: skill 1, apprentice cap 75.
    pub fn new(profession: Profession) -> (s: Self)
        ensures
            s == (ProfessionSkill { profession, current: 1, max: 75 }),
    {
        ProfessionSkill { profession, current: 1, max: 75 }
    }

    /// Increase skill by 1 (from a successful gather/craft). Clamped to max.
    pub fn skill_up(&mut self) -> (raised: bool)
        ensures
            raised == (old(self).current < old(self).max),
            *final(self) == (if raised {
                ProfessionSkill { current: (old(self).current + 1) as u16, ..*old(self) }
            } else {
                *old(self)
            }),
    {
        if self.current >= self.max {
            return false;
        }
        self.current = self.current + 1;
        true
    }

    /// Unlock the next tier (raises max skill).
    pub fn train_tier(&mut self, tier: ProfessionTier)
        ensures
            *final(self) == (ProfessionSkill { max: tier_max_skill(tier), ..*old(self) }),
    {
        self.max = tier.max_skill();
    }
}

/// A player's learned professions.
#[derive(Debug, Clone, PartialEq)]
pub struct PlayerProfessions {
    pub skills: Vec<ProfessionSkill>,
}

impl Default for PlayerProfessions {
    fn default() -> (r: Self)
        ensures
            r.skills@.len() == 0,
    {
        PlayerProfessions { skills: Vec::new() }
    }
}

/// Why learning a profession failed.
#[derive(Debug, Clone, Copy, PartialEq, Eq, Structural)]
pub enum ProfessionError {
    /// Already know this profession.
    AlreadyKnown,
    /// Already have 2 primary professions.
    TooManyPrimary,
}

/// Some skill entry is for this profession.
pub open spec fn knows_spec(skills: Seq<ProfessionSkill>, p: Profession) -> bool {
    exists|i: int| 0 <= i < skills.len() && (#[trigger] skills[i]).profession == p
}

/// Position of the first skill entry for this profession.
pub open spec fn skill_index(skills: Seq<ProfessionSkill>, p: Profession) -> int {
    choose|i: int|
        0 <= i < skills.len() && skills[i].profession == p && forall|m: int|
            0 <= m < i ==> skills[m].profession != p
}

/// Skill entries of primary professions.
pub open spec fn is_primary_skill() -> spec_fn(ProfessionSkill) -> bool {
    |s: ProfessionSkill| primary(s.profession)
}

/// Skill entries of other professions than `p`.
pub open spec fn other_profession(p: Profession) -> spec_fn(ProfessionSkill) -> bool {
    |s: ProfessionSkill| s.profession != p
}

pub proof fn lemma_skill_index(skills: Seq<ProfessionSkill>, p: Profession)
    requires
        knows_spec(skills, p),
    ensures
        0 <= skill_index(skills, p) < skills.len(),
        skills[skill_index(skills, p)].profession == p,
        forall|m: int| 0 <= m < skill_index(skills, p) ==> skills[m].profession != p,
    decreases skills.len(),
{
    let q = skills.drop_last();
    if knows_spec(q, p) {
        lemma_skill_index(q, p);
        let k = skill_index(q, p);
        assert(skills[k] == q[k]);
        assert(forall|m: int| 0 <= m < k ==> skills[m] == q[m]);
    } else {
        let k = skills.len() - 1;
        assert(skills[k].profession == p) by {
            let w = choose|w: int| 0 <= w < skills.len() && (#[trigger] skills[w]).profession == p;
            if w < k {
                assert(q[w] == skills[w]);
            }
        }
        assert forall|m: int| 0 <= m < k implies skills[m].profession != p by {
            assert(q[m] == skills[m]);
        }
    }
}

impl PlayerProfessions {
    fn find(&self, profession: Profession) -> (r: Option<usize>)
        ensures
            r is None <==> !knows_spec(self.skills@, profession),
            r matches Some(i) ==> i == skill_index(self.skills@, profession) && i < self.skills@.len()
                && self.skills@[i as int].profession == profession,
    {
        let mut i: usize = 0;
        while i < self.skills.len()
            invariant
                i <= self.skills@.len(),
                forall|k: int| 0 <= k < i ==> (#[trigger] self.skills@[k]).profession != profession,
            decreases self.skills.len() - i,
        {
            if self.skills[i].profession == profession {
                proof {
                    lemma_skill_index(self.skills@, profession);
                    let fi = skill_index(self.skills@, profession);
                    if fi < i {
                        assert(self.skills@[fi].profession != profession);
                    } else if fi > i {
                        assert(self.skills@[i as int].profession == profession);
                    }
                }
                return Some(i);
            }
            i = i + 1;
        }
        None
    }

    /// Learn a new profession. Enforces the 2-primary limit.
    pub fn learn(&mut self, profession: Profession) -> (r: Result<(), ProfessionError>)
        ensures
            knows_spec(old(self).skills@, profession) ==> r == Err::<(), ProfessionError>(
                ProfessionError::AlreadyKnown,
            ),
            !knows_spec(old(self).skills@, profession) && primary(profession) && old(
                self,
            ).skills@.filter(is_primary_skill()).len() >= MAX_PRIMARY_PROFESSIONS ==> r == Err::<
                (),
                ProfessionError,
            >(ProfessionError::TooManyPrimary),
            r is Err ==> final(self).skills@ == old(self).skills@,
            r is Ok <==> (!knows_spec(old(self).skills@, profession) && !(primary(profession) && old(
                self,
            ).skills@.filter(is_primary_skill()).len() >= MAX_PRIMARY_PROFESSIONS)),
            r is Ok ==> final(self).skills@ == old(self).skills@.push(
                ProfessionSkill { profession, current: 1, max: 75 },
            ),
    {
        if self.knows(profession) {
            return Err(ProfessionError::AlreadyKnown);
        }
        if profession.is_primary() {
            let mut primary_count: usize = 0;
            let mut i: usize = 0;
            while i < self.skills.len()
                invariant
                    i <= self.skills@.len(),
                    primary_count == self.skills@.take(i as int).filter(is_primary_skill()).len(),
                    primary_count <= i,
                decreases self.skills.len() - i,
            {
                proof {
                    reveal(Seq::filter);
                    assert(self.skills@.take(i + 1).drop_last() =~= self.skills@.take(i as int));
                    assert(self.skills@.take(i + 1).last() == self.skills@[i as int]);
                }
                if self.skills[i].profession.is_primary() {
                    primary_count = primary_count + 1;
                }
                i = i + 1;
            }
            proof {
                assert(self.skills@.take(i as int) =~= self.skills@);
            }
            if primary_count >= MAX_PRIMARY_PROFESSIONS {
                return Err(ProfessionError::TooManyPrimary);
            }
        }
        self.skills.push(ProfessionSkill::new(profession));
        Ok(())
    }

    /// Unlearn a profession (removes it and all skill).
    pub fn unlearn(&mut self, profession: Profession)
        ensures
            final(self).skills@ == old(self).skills@.filter(other_profession(profession)),
    {
        let mut kept: Vec<ProfessionSkill> = Vec::new();
        let mut i: usize = 0;
        while i < self.skills.len()
            invariant
                i <= self.skills@.len(),
                self.skills@ == old(self).skills@,
                kept@ == self.skills@.take(i as int).filter(other_profession(profession)),
            decreases self.skills.len() - i,
        {
            proof {
                reveal(Seq::filter);
                assert(self.skills@.take(i + 1).drop_last() =~= self.skills@.take(i as int));
                assert(self.skills@.take(i + 1).last() == self.skills@[i as int]);
            }
            let sk = self.skills[i];
            if sk.profession != profession {
                kept.push(sk);
            }
            i = i + 1;
        }
        proof {
            assert(self.skills@.take(i as int) =~= self.skills@);
        }
        self.skills = kept;
    }

    /// Get skill for a profession (its first entry).
    pub fn get(&self, profession: Profession) -> (r: Option<&ProfessionSkill>)
        ensures
            r is None <==> !knows_spec(self.skills@, profession),
            r matches Some(s) ==> *s == self.skills@[skill_index(self.skills@, profession)],
    {
        match self.find(profession) {
            Some(i) => Some(&self.skills[i]),
            None => None,
        }
    }

    /// Get mutable skill for a profession (its first entry).
    pub fn get_mut(&mut self, profession: Profession) -> (r: Option<&mut ProfessionSkill>)
        ensures
            r is None <==> !knows_spec(old(self).skills@, profession),
            r is None ==> final(self).skills@ == old(self).skills@,
            r matches Some(s) ==> {
                let k = skill_index(old(self).skills@, profession);
                &&& *s == old(self).skills@[k]
                &&& final(self).skills@ == old(self).skills@.update(k, *final(s))
            },
    {
        match self.find(profession) {
            Some(i) => Some(&mut self.skills[i]),
            None => None,
        }
    }

    /// Whether the player knows a profession.
    pub fn knows(&self, profession: Profession) -> (b: bool)
        ensures
            b == knows_spec(self.skills@, profession),
    {
        self.find(profession).is_some()
    }
}

// --- Gathering and crafting data ---

/// A gatherable world node (ore vein, herb, etc).
#[derive(Debug, Clone, PartialEq)]
pub struct GatherNode {
    /// Which gathering profession this requires.
    pub profession: Profession,
    /// Minimum skill to gather from this node.
    pub required_skill: u16,
    /// Skill level where gathering becomes guaranteed (no fail).
    pub trivial_skill: u16,
    /// Items yielded on success: (item_id, min_count, max_count).
    pub yields: Vec<(u32, u16, u16)>,
    /// Respawn time in seconds (0 = one-time like skinning).
    pub respawn_secs: u32,
}

/// Result of attempting to gather from a node.
#[derive(Debug, Clone, PartialEq, Eq)]
pub enum GatherResult {
    /// Successfully gathered items.
    Success { items: Vec<(u32, u16)>, skilled_up: bool },
    /// Skill too low to gather this node.
    SkillTooLow,
    /// Player doesn't have the required profession.
    WrongProfession,
}

/// A material required to craft a recipe.
#[derive(Debug, Clone, Copy, PartialEq, Eq, Structural)]
pub struct CraftMaterial {
    pub item_id: u32,
    pub count: u16,
}

/// How a recipe is acquired.
#[derive(Debug, Clone, Copy, PartialEq, Eq, Structural)]
pub enum RecipeSource {
    /// Learned from a profession trainer at the required skill level.
    Trainer,
    /// Learned from a recipe item (world drop, vendor, quest reward).
    Item { item_id: u32 },
    /// Discovered randomly while crafting other recipes in the profession.
    Discovery { chance: u16 },
}

/// A crafting recipe.
#[derive(Debug, Clone, PartialEq)]
pub struct Recipe {
    /// Unique recipe ID.
    pub id: u32,
    /// Which profession this recipe belongs to.
    pub profession: Profession,
    /// Minimum skill to learn/use this recipe.
    pub required_skill: u16,
    /// Skill level where the recipe turns grey (no more skill-ups).
    pub trivial_skill: u16,
    /// Materials consumed on craft.
    pub materials: Vec<CraftMaterial>,
    /// Output item ID.
    pub output_item_id: u32,
    /// Output count.
    pub output_count: u16,
    /// How this recipe is acquired (None = always known / from test data).
    pub source: Option<RecipeSource>,
}

/// Result of attempting to craft a recipe.
#[derive(Debug, Clone, PartialEq, Eq)]
pub enum CraftResult {
    /// Successfully crafted.
    Success { output_item_id: u32, output_count: u16, skilled_up: bool },
    /// Player doesn't have the required profession.
    WrongProfession,
    /// Skill too low for this recipe.
    SkillTooLow,
    /// Missing one or more materials.
    MissingMaterials { missing: Vec<CraftMaterial> },
}

/// The shortfall of each material the player holds too few of, in recipe order.
pub open spec fn missing_materials(materials: Seq<CraftMaterial>, have: Seq<u16>) -> Seq<CraftMaterial>
    decreases materials.len(),
{
    if materials.len() == 0 {
        Seq::empty()
    } else {
        let prev = missing_materials(materials.drop_last(), have.drop_last());
        let m = materials.last();
        let h = have.last();
        if h >= m.count {
            prev
        } else {
            prev.push(CraftMaterial { item_id: m.item_id, count: (m.count - h) as u16 })
        }
    }
}

/// Check which materials the player is missing for a recipe.
///
/// `have[i]` is how many of the `i`-th material's item the player holds.
pub fn check_materials(recipe: &Recipe, have: &[u16]) -> (missing: Vec<CraftMaterial>)
    requires
        have@.len() == recipe.materials@.len(),
    ensures
        missing@ == missing_materials(recipe.materials@, have@),
{
    let mut missing: Vec<CraftMaterial> = Vec::new();
    let mut i: usize = 0;
    while i < recipe.materials.len()
        invariant
            i <= recipe.materials@.len(),
            have@.len() == recipe.materials@.len(),
            missing@ == missing_materials(recipe.materials@.take(i as int), have@.take(i as int)),
        decreases recipe.materials.len() - i,
    {
        proof {
            assert(recipe.materials@.take(i + 1).drop_last() =~= recipe.materials@.take(i as int));
            assert(have@.take(i + 1).drop_last() =~= have@.take(i as int));
            assert(recipe.materials@.take(i + 1).last() == recipe.materials@[i as int]);
            assert(have@.take(i + 1).last() == have@[i as int]);
        }
        let mat = recipe.materials[i];
        let h = have[i];
        if h < mat.count {
            missing.push(CraftMaterial { item_id: mat.item_id, count: mat.count - h });
        }
        i = i + 1;
    }
    proof {
        assert(recipe.materials@.take(i as int) =~= recipe.materials@);
        assert(have@.take(i as int) =~= have@);
    }
    missing
}

/// Gathered `(item, count)` pairs: each yield's minimum plus its rolled
/// offset, capped at its maximum.
pub open spec fn gathered_items(yields: Seq<(u32, u16, u16)>, offsets: Seq<u16>) -> Seq<(u32, u16)> {
    Seq::new(
        yields.len(),
        |i: int|
            {
                let (item_id, min, max) = yields[i];
                let count = min + offsets[i];
                (item_id, (if count < max {
                    count
                } else {
                    max as int
                }) as u16)
            },
    )
}

/// The skill a gather or craft raises: the first entry for its profession,
/// raised by one when the skill-up roll succeeded and it is below its cap.
pub open spec fn after_skill_roll(before: Seq<ProfessionSkill>, p: Profession, skilled_up: bool) -> Seq<
    ProfessionSkill,
> {
    let k = skill_index(before, p);
    let s = before[k];
    if skilled_up && s.current < s.max {
        before.update(k, ProfessionSkill { current: (s.current + 1) as u16, ..s })
    } else {
        before
    }
}

/// Raise the profession's skill by one when the skill-up roll succeeded.
fn apply_skill_roll(profs: &mut PlayerProfessions, profession: Profession, skilled_up: bool)
    requires
        knows_spec(old(profs).skills@, profession),
    ensures
        final(profs).skills@ == after_skill_roll(old(profs).skills@, profession, skilled_up),
{
    if skilled_up {
        if let Some(i) = profs.find(profession) {
            let mut sk = profs.skills[i];
            let raised = sk.skill_up();
            profs.skills.set(i, sk);
            proof {
                if !raised {
                    assert(profs.skills@ =~= old(profs).skills@);
                }
            }
        }
    }
}

/// Attempt to gather from a node.
///
/// `skill_up_roll` tells whether the skill-up roll succeeded at the
/// player's current skill; a node that is trivial for the player (skill at
/// or above `trivial_skill`) never raises the skill. `offsets[i]` is the rolled share of the `i`-th
/// yield's count range, added to its minimum.
pub fn attempt_gather(
    node: &GatherNode,
    profs: &mut PlayerProfessions,
    skill_up_roll: bool,
    offsets: &[u16],
) -> (r: GatherResult)
    requires
        offsets@.len() == node.yields@.len(),
        forall|i: int| 0 <= i < offsets@.len() ==> node.yields@[i].1 + #[trigger] offsets@[i] <= u16::MAX,
    ensures
        !knows_spec(old(profs).skills@, node.profession) ==> r == GatherResult::WrongProfession
            && final(profs).skills@ == old(profs).skills@,
        knows_spec(old(profs).skills@, node.profession) && old(profs).skills@[skill_index(
            old(profs).skills@,
            node.profession,
        )].current < node.required_skill ==> r == GatherResult::SkillTooLow
            && final(profs).skills@ == old(profs).skills@,
        knows_spec(old(profs).skills@, node.profession) && old(profs).skills@[skill_index(
            old(profs).skills@,
            node.profession,
        )].current >= node.required_skill ==> {
            let current = old(profs).skills@[skill_index(old(profs).skills@, node.profession)].current;
            let skilled = skill_up_roll && current < node.trivial_skill;
            &&& r matches GatherResult::Success { items, skilled_up } && skilled_up == skilled
                && items@ == gathered_items(node.yields@, offsets@)
            &&& final(profs).skills@ == after_skill_roll(old(profs).skills@, node.profession, skilled)
        },
{
    let current = match profs.get(node.profession) {
        Some(skill) => skill.current,
        None => {
            return GatherResult::WrongProfession;
        },
    };
    if current < node.required_skill {
        return GatherResult::SkillTooLow;
    }
    let mut items: Vec<(u32, u16)> = Vec::new();
    let mut i: usize = 0;
    while i < node.yields.len()
        invariant
            i <= node.yields@.len(),
            offsets@.len() == node.yields@.len(),
            profs.skills@ == old(profs).skills@,
            forall|k: int| 0 <= k < offsets@.len() ==> node.yields@[k].1 + #[trigger] offsets@[k] <= u16::MAX,
            items@ == gathered_items(node.yields@, offsets@).take(i as int),
        decreases node.yields.len() - i,
    {
        let (item_id, min, max) = node.yields[i];
        let count = min + offsets[i];
        let capped = if count < max {
            count
        } else {
            max
        };
        items.push((item_id, capped));
        proof {
            assert(items@ =~= gathered_items(node.yields@, offsets@).take(i + 1));
        }
        i = i + 1;
    }
    proof {
        assert(gathered_items(node.yields@, offsets@).take(i as int) =~= gathered_items(
            node.yields@,
            offsets@,
        ));
    }
    let skilled = skill_up_roll && current < node.trivial_skill;
    apply_skill_roll(profs, node.profession, skilled);
    GatherResult::Success { items, skilled_up: skilled }
}

/// Attempt to craft a recipe.
///
/// `have[i]` is how many of the `i`-th material's item the player holds;
/// `skill_up_roll` tells whether the skill-up roll succeeded at the
/// player's current skill; a recipe that is trivial for the player (skill at
/// or above `trivial_skill`) never raises the skill.
///
/// On success, the caller must consume materials and grant the output item.
pub fn attempt_craft(recipe: &Recipe, profs: &mut PlayerProfessions, have: &[u16], skill_up_roll: bool) -> (r:
    CraftResult)
    requires
        have@.len() == recipe.materials@.len(),
    ensures
        !knows_spec(old(profs).skills@, recipe.profession) ==> r == CraftResult::WrongProfession
            && final(profs).skills@ == old(profs).skills@,
        knows_spec(old(profs).skills@, recipe.profession) && old(profs).skills@[skill_index(
            old(profs).skills@,
            recipe.profession,
        )].current < recipe.required_skill ==> r == CraftResult::SkillTooLow
            && final(profs).skills@ == old(profs).skills@,
        knows_spec(old(profs).skills@, recipe.profession) && old(profs).skills@[skill_index(
            old(profs).skills@,
            recipe.profession,
        )].current >= recipe.required_skill ==> {
            let missing = missing_materials(recipe.materials@, have@);
            let current = old(profs).skills@[skill_index(old(profs).skills@, recipe.profession)].current;
            let skilled = skill_up_roll && current < recipe.trivial_skill;
            &&& missing.len() > 0 ==> (r matches CraftResult::MissingMaterials { missing: m } && m@
                == missing) && final(profs).skills@ == old(profs).skills@
            &&& missing.len() == 0 ==> r == (CraftResult::Success {
                output_item_id: recipe.output_item_id,
                output_count: recipe.output_count,
                skilled_up: skilled,
            }) && final(profs).skills@ == after_skill_roll(
                old(profs).skills@,
                recipe.profession,
                skilled,
            )
        },
{
    let current = match profs.get(recipe.profession) {
        Some(skill) => skill.current,
        None => {
            return CraftResult::WrongProfession;
        },
    };
    if current < recipe.required_skill {
        return CraftResult::SkillTooLow;
    }
    let missing = check_materials(recipe, have);
    if missing.len() > 0 {
        return CraftResult::MissingMaterials { missing };
    }
    let skilled = skill_up_roll && current < recipe.trivial_skill;
    apply_skill_roll(profs, recipe.profession, skilled);
    CraftResult::Success {
        output_item_id: recipe.output_item_id,
        output_count: recipe.output_count,
        skilled_up: skilled,
    }
}

// --- Profession specializations ---

/// A profession specialization (e.g. Weaponsmith, Elixir Master).
#[derive(Debug, Clone, Copy, PartialEq, Eq, Hash)]
pub struct ProfessionSpec {
    pub id: u32,
    pub profession: Profession,
    pub name: &'static str,
    /// Minimum skill level to choose this specialization.
    pub required_skill: u16,
}

/// All profession specializations (ids 1 to 13, in id order).
///
/// Ref: AzerothCore specialization quests.
#[verifier::opaque]
pub open spec fn spec_table() -> Seq<ProfessionSpec> {
    seq![
        ProfessionSpec {
            id: 1,
            profession: Profession::Blacksmithing,
            name: "Weaponsmith",
            required_skill: 200,
        },
        ProfessionSpec {
            id: 2,
            profession: Profession::Blacksmithing,
            name: "Armorsmith",
            required_skill: 200,
        },
        ProfessionSpec {
            id: 3,
            profession: Profession::Leatherworking,
            name: "Elemental LW",
            required_skill: 225,
        },
        ProfessionSpec {
            id: 4,
            profession: Profession::Leatherworking,
            name: "Dragonscale LW",
            required_skill: 225,
        },
        ProfessionSpec {
            id: 5,
            profession: Profession::Leatherworking,
            name: "Tribal LW",
            required_skill: 225,
        },
        ProfessionSpec {
            id: 6,
            profession: Profession::Alchemy,
            name: "Elixir Master",
            required_skill: 325,
        },
        ProfessionSpec {
            id: 7,
            profession: Profession::Alchemy,
            name: "Potion Master",
            required_skill: 325,
        },
        ProfessionSpec {
            id: 8,
            profession: Profession::Alchemy,
            name: "Transmutation Master",
            required_skill: 325,
        },
        ProfessionSpec {
            id: 9,
            profession: Profession::Engineering,
            name: "Gnomish Engineer",
            required_skill: 200,
        },
        ProfessionSpec {
            id: 10,
            profession: Profession::Engineering,
            name: "Goblin Engineer",
            required_skill: 200,
        },
        ProfessionSpec {
            id: 11,
            profession: Profession::Tailoring,
            name: "Mooncloth Tailor",
            required_skill: 350,
        },
        ProfessionSpec {
            id: 12,
            profession: Profession::Tailoring,
            name: "Shadoweave Tailor",
            required_skill: 350,
        },
        ProfessionSpec {
            id: 13,
            profession: Profession::Tailoring,
            name: "Spellfire Tailor",
            required_skill: 350,
        },
    ]
}

/// All profession specializations, in id order.
pub fn profession_specs() -> (v: Vec<ProfessionSpec>)
    ensures
        v@ == spec_table(),
{
    let mut v: Vec<ProfessionSpec> = Vec::new();
    v.push(ProfessionSpec { id: 1, profession: Profession::Blacksmithing, name: "Weaponsmith", required_skill: 200 });
    v.push(ProfessionSpec { id: 2, profession: Profession::Blacksmithing, name: "Armorsmith", required_skill: 200 });
    v.push(ProfessionSpec { id: 3, profession: Profession::Leatherworking, name: "Elemental LW", required_skill: 225 });
    v.push(ProfessionSpec { id: 4, profession: Profession::Leatherworking, name: "Dragonscale LW", required_skill: 225 });
    v.push(ProfessionSpec { id: 5, profession: Profession::Leatherworking, name: "Tribal LW", required_skill: 225 });
    v.push(ProfessionSpec { id: 6, profession: Profession::Alchemy, name: "Elixir Master", required_skill: 325 });
    v.push(ProfessionSpec { id: 7, profession: Profession::Alchemy, name: "Potion Master", required_skill: 325 });
    v.push(ProfessionSpec { id: 8, profession: Profession::Alchemy, name: "Transmutation Master", required_skill: 325 });
    v.push(ProfessionSpec { id: 9, profession: Profession::Engineering, name: "Gnomish Engineer", required_skill: 200 });
    v.push(ProfessionSpec { id: 10, profession: Profession::Engineering, name: "Goblin Engineer", required_skill: 200 });
    v.push(ProfessionSpec { id: 11, profession: Profession::Tailoring, name: "Mooncloth Tailor", required_skill: 350 });
    v.push(ProfessionSpec { id: 12, profession: Profession::Tailoring, name: "Shadoweave Tailor", required_skill: 350 });
    v.push(ProfessionSpec { id: 13, profession: Profession::Tailoring, name: "Spellfire Tailor", required_skill: 350 });
    proof {
        reveal(spec_table);
        assert(v@ =~= spec_table());
    }
    v
}

/// The specialization with this id, if the table has one.
pub open spec fn spec_by_id(id: u32) -> Option<ProfessionSpec> {
    if 1 <= id <= 13 {
        Some(spec_table()[id - 1])
    } else {
        None
    }
}

/// Specializations of a profession.
pub open spec fn of_profession(p: Profession) -> spec_fn(ProfessionSpec) -> bool {
    |s: ProfessionSpec| s.profession == p
}

/// The id names a specialization of profession `p`.
pub open spec fn id_in_profession(id: u32, p: Profession) -> bool {
    spec_by_id(id) matches Some(s) && s.profession == p
}

/// Ids that are not specializations of `p`.
pub open spec fn not_in_profession(p: Profession) -> spec_fn(u32) -> bool {
    |id: u32| !id_in_profession(id, p)
}

/// Every table entry's id is its position plus one.
pub proof fn lemma_table_ids()
    ensures
        spec_table().len() == 13,
        forall|k: int| 0 <= k < 13 ==> (#[trigger] spec_table()[k]).id == k + 1,
{
    reveal(spec_table);
    assert(spec_table().len() == 13);
    assert(spec_table()[0].id == 1);
    assert(spec_table()[1].id == 2);
    assert(spec_table()[2].id == 3);
    assert(spec_table()[3].id == 4);
    assert(spec_table()[4].id == 5);
    assert(spec_table()[5].id == 6);
    assert(spec_table()[6].id == 7);
    assert(spec_table()[7].id == 8);
    assert(spec_table()[8].id == 9);
    assert(spec_table()[9].id == 10);
    assert(spec_table()[10].id == 11);
    assert(spec_table()[11].id == 12);
    assert(spec_table()[12].id == 13);
}

fn find_spec(id: u32) -> (r: Option<ProfessionSpec>)
    ensures
        r == spec_by_id(id),
{
    if 1 <= id && id <= 13 {
        let table = profession_specs();
        proof {
            lemma_table_ids();
        }
        Some(table[(id - 1) as usize])
    } else {
        None
    }
}

/// Get available specializations for a profession, in id order.
pub fn specs_for_profession(profession: Profession) -> (r: Vec<ProfessionSpec>)
    ensures
        r@ == spec_table().filter(of_profession(profession)),
{
    let table = profession_specs();
    let mut r: Vec<ProfessionSpec> = Vec::new();
    let mut i: usize = 0;
    while i < table.len()
        invariant
            i <= table@.len(),
            table@ == spec_table(),
            r@ == table@.take(i as int).filter(of_profession(profession)),
        decreases table.len() - i,
    {
        proof {
            reveal(Seq::filter);
            assert(table@.take(i + 1).drop_last() =~= table@.take(i as int));
            assert(table@.take(i + 1).last() == table@[i as int]);
        }
        if table[i].profession == profession {
            r.push(table[i]);
        }
        i = i + 1;
    }
    proof {
        assert(table@.take(i as int) =~= table@);
    }
    r
}

/// Player's chosen profession specializations.
#[derive(Debug, Clone, PartialEq)]
pub struct ChosenSpecs {
    pub spec_ids: Vec<u32>,
}

impl Default for ChosenSpecs {
    fn default() -> (r: Self)
        ensures
            r.spec_ids@.len() == 0,
    {
        ChosenSpecs { spec_ids: Vec::new() }
    }
}

/// Why choosing a specialization failed.
#[derive(Debug, Clone, Copy, PartialEq, Eq, Structural)]
pub enum SpecError {
    /// Already specialized in this profession.
    AlreadySpecialized,
    /// Skill too low to specialize.
    SkillTooLow,
    /// Spec not found.
    InvalidSpec,
}

/// Some chosen id is a specialization of `p`.
pub open spec fn specialized_in(ids: Seq<u32>, p: Profession) -> bool {
    exists|i: int| 0 <= i < ids.len() && id_in_profession(#[trigger] ids[i], p)
}

/// The player knows the profession and has the skill it asks for.
pub open spec fn skilled_for(profs: PlayerProfessions, s: ProfessionSpec) -> bool {
    knows_spec(profs.skills@, s.profession) && profs.skills@[skill_index(
        profs.skills@,
        s.profession,
    )].current >= s.required_skill
}

impl ChosenSpecs {
    /// Choose a specialization. One per profession.
    pub fn choose_spec(&mut self, spec_id: u32, profs: &PlayerProfessions) -> (r: Result<(), SpecError>)
        ensures
            spec_by_id(spec_id) is None ==> r == Err::<(), SpecError>(SpecError::InvalidSpec),
            spec_by_id(spec_id) matches Some(s) && specialized_in(old(self).spec_ids@, s.profession)
                ==> r == Err::<(), SpecError>(SpecError::AlreadySpecialized),
            spec_by_id(spec_id) matches Some(s) && !specialized_in(old(self).spec_ids@, s.profession)
                && !skilled_for(*profs, s) ==> r == Err::<(), SpecError>(SpecError::SkillTooLow),
            r is Ok <==> (spec_by_id(spec_id) matches Some(s) && !specialized_in(
                old(self).spec_ids@,
                s.profession,
            ) && skilled_for(*profs, s)),
            r is Ok ==> final(self).spec_ids@ == old(self).spec_ids@.push(spec_id),
            r is Err ==> final(self).spec_ids@ == old(self).spec_ids@,
    {
        let spec = match find_spec(spec_id) {
            Some(s) => s,
            None => {
                return Err(SpecError::InvalidSpec);
            },
        };
        // Check if already specialized in this profession
        let mut i: usize = 0;
        while i < self.spec_ids.len()
            invariant
                i <= self.spec_ids@.len(),
                self.spec_ids@ == old(self).spec_ids@,
                Some(spec) == spec_by_id(spec_id),
                forall|k: int| 0 <= k < i ==> !id_in_profession(#[trigger] self.spec_ids@[k], spec.profession),
            decreases self.spec_ids.len() - i,
        {
            if let Some(other) = find_spec(self.spec_ids[i]) {
                if other.profession == spec.profession {
                    return Err(SpecError::AlreadySpecialized);
                }
            }
            i = i + 1;
        }
        let skill = match profs.get(spec.profession) {
            Some(s) => s,
            None => {
                return Err(SpecError::SkillTooLow);
            },
        };
        if skill.current < spec.required_skill {
            return Err(SpecError::SkillTooLow);
        }
        self.spec_ids.push(spec_id);
        Ok(())
    }

    /// Whether the player has a specific spec.
    pub fn has_spec(&self, spec_id: u32) -> (b: bool)
        ensures
            b == self.spec_ids@.contains(spec_id),
    {
        let mut i: usize = 0;
        while i < self.spec_ids.len()
            invariant
                i <= self.spec_ids@.len(),
                forall|k: int| 0 <= k < i ==> self.spec_ids@[k] != spec_id,
            decreases self.spec_ids.len() - i,
        {
            if self.spec_ids[i] == spec_id {
                return true;
            }
            i = i + 1;
        }
        false
    }

    /// Get the player's spec for a profession, if any: that of the first
    /// chosen id that is a specialization of it.
    pub fn spec_for_profession(&self, profession: Profession) -> (r: Option<ProfessionSpec>)
        ensures
            r is None <==> !specialized_in(self.spec_ids@, profession),
            r matches Some(s) ==> exists|i: int|
                0 <= i < self.spec_ids@.len() && spec_by_id(self.spec_ids@[i]) == Some(s)
                    && s.profession == profession && forall|m: int|
                    0 <= m < i ==> !id_in_profession(#[trigger] self.spec_ids@[m], profession),
    {
        let mut i: usize = 0;
        while i < self.spec_ids.len()
            invariant
                i <= self.spec_ids@.len(),
                forall|k: int| 0 <= k < i ==> !id_in_profession(#[trigger] self.spec_ids@[k], profession),
            decreases self.spec_ids.len() - i,
        {
            if let Some(s) = find_spec(self.spec_ids[i]) {
                if s.profession == profession {
                    proof {
                        assert(id_in_profession(self.spec_ids@[i as int], profession));
                    }
                    return Some(s);
                }
            }
            i = i + 1;
        }
        None
    }

    /// Drop a specialization (re-specialize): every chosen id of that
    /// profession is removed.
    pub fn drop_spec(&mut self, profession: Profession)
        ensures
            final(self).spec_ids@ == old(self).spec_ids@.filter(not_in_profession(profession)),
    {
        let mut kept: Vec<u32> = Vec::new();
        let mut i: usize = 0;
        while i < self.spec_ids.len()
            invariant
                i <= self.spec_ids@.len(),
                self.spec_ids@ == old(self).spec_ids@,
                kept@ == self.spec_ids@.take(i as int).filter(not_in_profession(profession)),
            decreases self.spec_ids.len() - i,
        {
            proof {
                reveal(Seq::filter);
                assert(self.spec_ids@.take(i + 1).drop_last() =~= self.spec_ids@.take(i as int));
                assert(self.spec_ids@.take(i + 1).last() == self.spec_ids@[i as int]);
            }
            let id = self.spec_ids[i];
            let in_profession = match find_spec(id) {
                Some(s) => s.profession == profession,
                None => false,
            };
            if !in_profession {
                kept.push(id);
            }
            i = i + 1;
        }
        proof {
            assert(self.spec_ids@.take(i as int) =~= self.spec_ids@);
        }
        self.spec_ids = kept;
    }
}

// --- Recipe sources ---

/// A player's known recipes for one profession.
#[derive(Debug, PartialEq)]
pub struct KnownRecipes {
    pub recipe_ids: HashSet<u32>,
}

impl Clone for KnownRecipes {
    fn clone(&self) -> (r: Self)
        ensures
            r.recipe_ids@ == self.recipe_ids@,
    {
        let ghost ids = vstd::std_specs::hash::spec_hash_keys_iter(&self.recipe_ids).remaining().unref();
        let mut copy: HashSet<u32> = HashSet::new();
        for id in it: self.recipe_ids.iter()
            invariant
                it.seq().unref() == ids,
                ids.to_set() == self.recipe_ids@,
                copy@ == ids.take(it.index()).to_set(),
        {
            proof {
                assert(ids[it.index()] == *id);
                assert(ids.take(it.index() + 1) =~= ids.take(it.index()).push(*id));
                ids.take(it.index()).lemma_push_to_set_commute(*id);
            }
            copy.insert(*id);
        }
        proof {
            assert(ids.take(ids.len() as int) =~= ids);
        }
        KnownRecipes { recipe_ids: copy }
    }
}

impl Default for KnownRecipes {
    fn default() -> (r: Self)
        ensures
            r.recipe_ids@ == Set::<u32>::empty(),
    {
        KnownRecipes { recipe_ids: HashSet::new() }
    }
}

/// Trainer recipes within reach of the skill.
pub open spec fn trainer_recipe_for(skill: u16) -> spec_fn(Recipe) -> bool {
    |r: Recipe| r.source == Some(RecipeSource::Trainer) && r.required_skill <= skill
}

/// A discovery recipe not yet known whose chance beats the roll.
pub open spec fn discovered_by(r: Recipe, known: Set<u32>, roll: u16) -> bool {
    r.source matches Some(RecipeSource::Discovery { chance }) && !known.contains(r.id) && roll
        < chance
}

impl KnownRecipes {
    /// Learn a recipe. Returns `false` if already known.
    pub fn learn(&mut self, recipe_id: u32) -> (added: bool)
        ensures
            added == !old(self).recipe_ids@.contains(recipe_id),
            final(self).recipe_ids@ == old(self).recipe_ids@.insert(recipe_id),
    {
        self.recipe_ids.insert(recipe_id)
    }

    /// Whether a recipe is known.
    pub fn knows(&self, recipe_id: u32) -> (b: bool)
        ensures
            b == self.recipe_ids@.contains(recipe_id),
    {
        self.recipe_ids.contains(&recipe_id)
    }

    /// Get all trainer recipes available at a skill level, in list order.
    pub fn available_from_trainer(recipes: &[Recipe], skill: u16) -> (r: Vec<&Recipe>)
        ensures
            r@.unref() == recipes@.filter(trainer_recipe_for(skill)),
    {
        let mut r: Vec<&Recipe> = Vec::new();
        let mut i: usize = 0;
        while i < recipes.len()
            invariant
                i <= recipes@.len(),
                r@.unref() == recipes@.take(i as int).filter(trainer_recipe_for(skill)),
            decreases recipes.len() - i,
        {
            proof {
                reveal(Seq::filter);
                assert(recipes@.take(i + 1).drop_last() =~= recipes@.take(i as int));
                assert(recipes@.take(i + 1).last() == recipes@[i as int]);
            }
            let rec = &recipes[i];
            let from_trainer = match rec.source {
                Some(RecipeSource::Trainer) => true,
                _ => false,
            };
            if from_trainer && rec.required_skill <= skill {
                let ghost before = recipes@.take(i as int).filter(trainer_recipe_for(skill));
                r.push(rec);
                proof {
                    assert(r@.unref() =~= before.push(*rec));
                }
            }
            i = i + 1;
        }
        proof {
            assert(recipes@.take(i as int) =~= recipes@);
        }
        r
    }

    /// Roll for a discovery while crafting. Returns the recipe ID if discovered.
    ///
    /// `discoverable` contains recipes with `RecipeSource::Discovery`; the
    /// first one not yet known whose chance beats the roll is learned.
    /// `roll` is 0..10000 (hundredths of percent).
    pub fn roll_discovery(&mut self, discoverable: &[Recipe], roll: u16) -> (r: Option<u32>)
        ensures
            r is None <==> forall|k: int|
                0 <= k < discoverable@.len() ==> !discovered_by(
                    #[trigger] discoverable@[k],
                    old(self).recipe_ids@,
                    roll,
                ),
            r is None ==> final(self).recipe_ids@ == old(self).recipe_ids@,
            r matches Some(id) ==> final(self).recipe_ids@ == old(self).recipe_ids@.insert(id)
                && exists|k: int|
                0 <= k < discoverable@.len() && discoverable@[k].id == id && discovered_by(
                    discoverable@[k],
                    old(self).recipe_ids@,
                    roll,
                ) && forall|m: int|
                    0 <= m < k ==> !discovered_by(
                        #[trigger] discoverable@[m],
                        old(self).recipe_ids@,
                        roll,
                    ),
    {
        let mut i: usize = 0;
        while i < discoverable.len()
            invariant
                i <= discoverable@.len(),
                self.recipe_ids@ == old(self).recipe_ids@,
                forall|m: int|
                    0 <= m < i ==> !discovered_by(
                        #[trigger] discoverable@[m],
                        old(self).recipe_ids@,
                        roll,
                    ),
            decreases discoverable.len() - i,
        {
            let recipe = &discoverable[i];
            if let Some(RecipeSource::Discovery { chance }) = recipe.source {
                if !self.knows(recipe.id) && roll < chance {
                    let id = recipe.id;
                    self.learn(id);
                    proof {
                        assert(discovered_by(discoverable@[i as int], old(self).recipe_ids@, roll));
                    }
                    return Some(id);
                }
            }
            i = i + 1;
        }
        None
    }
}

/// Specializing is once per profession: after a successful choice the
/// player is specialized in that profession, and another specialization of
/// it is refused until the first is dropped.
pub proof fn lemma_one_spec_per_profession(ids: Seq<u32>, spec_id: u32, s: ProfessionSpec)
    requires
        spec_by_id(spec_id) == Some(s),
    ensures
        specialized_in(ids.push(spec_id), s.profession),
        !specialized_in(ids.push(spec_id).filter(not_in_profession(s.profession)), s.profession),
{
    let pushed = ids.push(spec_id);
    assert(id_in_profession(pushed[ids.len() as int], s.profession));
    let f = pushed.filter(not_in_profession(s.profession));
    assert forall|i: int| 0 <= i < f.len() implies !id_in_profession(#[trigger] f[i], s.profession) by {
        pushed.lemma_filter_pred(not_in_profession(s.profession), i);
    }
}

} // verus!
