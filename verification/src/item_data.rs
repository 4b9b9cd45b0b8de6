//! Static item definitions and per-character item state: equipment slots,
//! quality tiers, binding, set bonuses, durability and the inventory.
//!
//! Ref: AzerothCore `ItemTemplate`, WoW `Item.dbc`.
use vstd::prelude::*;

verus! {

/// Equipment slot for an item (matches AzerothCore `InventoryType`).
#[derive(Debug, Clone, Copy, PartialEq, Eq, Hash, Structural)]
pub enum EquipSlot {
    Head,
    Neck,
    Shoulder,
    Back,
    Chest,
    Shirt,
    Tabard,
    Wrist,
    Hands,
    Waist,
    Legs,
    Feet,
    Finger,
    Trinket,
    MainHand,
    OffHand,
    TwoHand,
    Ranged,
}

/// Visual slot used when displaying a character's appearance.
#[derive(Debug, Clone, Copy, PartialEq, Eq, Hash, Structural)]
pub enum EquipmentVisualSlot {
    Head,
    Shoulder,
    Back,
    Chest,
    Shirt,
    Tabard,
    Wrist,
    Hands,
    Waist,
    Legs,
    Feet,
    MainHand,
    OffHand,
}

/// Visual slot of an equipment slot: Neck, Finger, Trinket and Ranged have none,
/// and two-handed weapons are shown in the main hand.
pub open spec fn spec_visual_slot(slot: EquipSlot) -> Option<EquipmentVisualSlot> {
    match slot {
        EquipSlot::Head => Some(EquipmentVisualSlot::Head),
        EquipSlot::Shoulder => Some(EquipmentVisualSlot::Shoulder),
        EquipSlot::Back => Some(EquipmentVisualSlot::Back),
        EquipSlot::Chest => Some(EquipmentVisualSlot::Chest),
        EquipSlot::Shirt => Some(EquipmentVisualSlot::Shirt),
        EquipSlot::Tabard => Some(EquipmentVisualSlot::Tabard),
        EquipSlot::Wrist => Some(EquipmentVisualSlot::Wrist),
        EquipSlot::Hands => Some(EquipmentVisualSlot::Hands),
        EquipSlot::Waist => Some(EquipmentVisualSlot::Waist),
        EquipSlot::Legs => Some(EquipmentVisualSlot::Legs),
        EquipSlot::Feet => Some(EquipmentVisualSlot::Feet),
        EquipSlot::MainHand => Some(EquipmentVisualSlot::MainHand),
        EquipSlot::TwoHand => Some(EquipmentVisualSlot::MainHand),
        EquipSlot::OffHand => Some(EquipmentVisualSlot::OffHand),
        EquipSlot::Neck => None,
        EquipSlot::Finger => None,
        EquipSlot::Trinket => None,
        EquipSlot::Ranged => None,
    }
}

/// Neck, finger, trinket and ranged items show no equipment model; a
/// two-handed weapon is shown in the main hand; every other slot is shown in
/// the visual slot of the same name.
pub proof fn lemma_visual_slots(slot: EquipSlot)
    ensures
        spec_visual_slot(slot) is None <==> (slot == EquipSlot::Neck || slot == EquipSlot::Finger
            || slot == EquipSlot::Trinket || slot == EquipSlot::Ranged),
        spec_visual_slot(slot) == Some(EquipmentVisualSlot::MainHand) <==> (slot
            == EquipSlot::MainHand || slot == EquipSlot::TwoHand),
        spec_visual_slot(EquipSlot::OffHand) == Some(EquipmentVisualSlot::OffHand),
        spec_visual_slot(EquipSlot::Head) == Some(EquipmentVisualSlot::Head),
        spec_visual_slot(EquipSlot::Chest) == Some(EquipmentVisualSlot::Chest),
        spec_visual_slot(EquipSlot::Legs) == Some(EquipmentVisualSlot::Legs),
{
}

/// Two-handed weapons are the two-handed axe, mace and sword, the polearm and
/// the staff; every other subclass (daggers, fist weapons, one-handers and
/// ranged weapons) is not.
pub proof fn lemma_two_handed_weapons(w: WeaponSubclass)
    ensures
        spec_is_two_handed(w) <==> (w == WeaponSubclass::Axe2H || w == WeaponSubclass::Mace2H || w
            == WeaponSubclass::Sword2H || w == WeaponSubclass::Polearm || w == WeaponSubclass::Staff),
        !spec_is_two_handed(WeaponSubclass::Dagger),
        !spec_is_two_handed(WeaponSubclass::Fist),
        !spec_is_two_handed(WeaponSubclass::Bow),
{
}

impl EquipSlot {
    /// Convert to the visual slot used for appearance display.
    pub fn to_visual_slot(self) -> (r: Option<EquipmentVisualSlot>)
        ensures
            r == spec_visual_slot(self),
    {
        match self {
            EquipSlot::Head => Some(EquipmentVisualSlot::Head),
            EquipSlot::Shoulder => Some(EquipmentVisualSlot::Shoulder),
            EquipSlot::Back => Some(EquipmentVisualSlot::Back),
            EquipSlot::Chest => Some(EquipmentVisualSlot::Chest),
            EquipSlot::Shirt => Some(EquipmentVisualSlot::Shirt),
            EquipSlot::Tabard => Some(EquipmentVisualSlot::Tabard),
            EquipSlot::Wrist => Some(EquipmentVisualSlot::Wrist),
            EquipSlot::Hands => Some(EquipmentVisualSlot::Hands),
            EquipSlot::Waist => Some(EquipmentVisualSlot::Waist),
            EquipSlot::Legs => Some(EquipmentVisualSlot::Legs),
            EquipSlot::Feet => Some(EquipmentVisualSlot::Feet),
            EquipSlot::MainHand | EquipSlot::TwoHand => Some(EquipmentVisualSlot::MainHand),
            EquipSlot::OffHand => Some(EquipmentVisualSlot::OffHand),
            _ => None,
        }
    }
}

/// Item quality tier (affects stat budget, vendor price, name color).
#[derive(Debug, Clone, Copy, PartialEq, Eq, PartialOrd, Ord, Hash, Structural)]
pub enum ItemQuality {
    Poor,
    Common,
    Uncommon,
    Rare,
    Epic,
    Legendary,
}

impl ItemQuality {
    /// Numeric id of the tier (Poor = 0 up to Legendary = 5).
    pub open spec fn id(self) -> u8 {
        match self {
            ItemQuality::Poor => 0,
            ItemQuality::Common => 1,
            ItemQuality::Uncommon => 2,
            ItemQuality::Rare => 3,
            ItemQuality::Epic => 4,
            ItemQuality::Legendary => 5,
        }
    }

    /// Vendor value in copper per item level at this tier
    /// (`100 * multiplier`, multipliers 0.1, 0.5, 1, 2.5, 5, 10).
    pub open spec fn vendor_copper_per_ilvl(self) -> u32 {
        match self {
            ItemQuality::Poor => 10,
            ItemQuality::Common => 50,
            ItemQuality::Uncommon => 100,
            ItemQuality::Rare => 250,
            ItemQuality::Epic => 500,
            ItemQuality::Legendary => 1000,
        }
    }

    /// Display name color (WoW convention).
    pub open spec fn spec_color_name(self) -> Seq<char> {
        match self {
            ItemQuality::Poor => "gray"@,
            ItemQuality::Common => "white"@,
            ItemQuality::Uncommon => "green"@,
            ItemQuality::Rare => "blue"@,
            ItemQuality::Epic => "purple"@,
            ItemQuality::Legendary => "orange"@,
        }
    }

    /// The tier with the given numeric id, if any.
    pub fn from_id(id: u8) -> (r: Option<Self>)
        ensures
            r is Some <==> id <= 5,
            r matches Some(q) ==> q.id() == id,
    {
        match id {
            0 => Some(ItemQuality::Poor),
            1 => Some(ItemQuality::Common),
            2 => Some(ItemQuality::Uncommon),
            3 => Some(ItemQuality::Rare),
            4 => Some(ItemQuality::Epic),
            5 => Some(ItemQuality::Legendary),
            _ => None,
        }
    }

    /// Display name color (WoW convention).
    pub fn color_name(self) -> (r: &'static str)
        ensures
            r@ == self.spec_color_name(),
    {
        match self {
            ItemQuality::Poor => "gray",
            ItemQuality::Common => "white",
            ItemQuality::Uncommon => "green",
            ItemQuality::Rare => "blue",
            ItemQuality::Epic => "purple",
            ItemQuality::Legendary => "orange",
        }
    }
}

/// A quality tier read back from its own id is the same tier.
pub proof fn lemma_quality_id_round_trip(q: ItemQuality)
    ensures
        q.id() <= 5,
        forall|p: ItemQuality| p.id() == q.id() ==> p == q,
{
}

/// Item class (broad category).
/// Ref: AzerothCore `ItemClass` enum.
#[derive(Debug, Clone, Copy, PartialEq, Eq, Hash, Structural)]
pub enum ItemClass {
    Consumable,
    Container,
    Weapon,
    Armor,
    Reagent,
    Projectile,
    TradeGoods,
    Quest,
    Miscellaneous,
}

/// Weapon subclass for weapon items.
#[derive(Debug, Clone, Copy, PartialEq, Eq, Hash, Structural)]
pub enum WeaponSubclass {
    Axe1H,
    Axe2H,
    Bow,
    Gun,
    Mace1H,
    Mace2H,
    Polearm,
    Sword1H,
    Sword2H,
    Staff,
    Fist,
    Dagger,
    Crossbow,
    Wand,
}

/// Armor subclass for armor items.
#[derive(Debug, Clone, Copy, PartialEq, Eq, Hash, Structural)]
pub enum ArmorSubclass {
    Cloth,
    Leather,
    Mail,
    Plate,
    Shield,
}

/// Item subclass — weapon or armor type.
#[derive(Debug, Clone, Copy, PartialEq, Eq, Hash, Structural)]
pub enum ItemSubclass {
    Weapon(WeaponSubclass),
    Armor(ArmorSubclass),
    /// No subclass.
    NoSubclass,
}

/// Weapon category used by the combat system for normalized speed.
#[derive(Debug, Clone, Copy, PartialEq, Eq, Hash, Structural)]
pub enum WeaponType {
    OneHand,
    TwoHand,
    Dagger,
}

/// Whether a weapon subclass is wielded with two hands.
pub open spec fn spec_is_two_handed(w: WeaponSubclass) -> bool {
    w == WeaponSubclass::Axe2H || w == WeaponSubclass::Mace2H || w == WeaponSubclass::Sword2H
        || w == WeaponSubclass::Polearm || w == WeaponSubclass::Staff
}

impl WeaponSubclass {
    /// Map weapon subclass to the combat system's `WeaponType`.
    pub fn to_weapon_type(self) -> (r: WeaponType)
        ensures
            self == WeaponSubclass::Dagger ==> r == WeaponType::Dagger,
            spec_is_two_handed(self) ==> r == WeaponType::TwoHand,
            self != WeaponSubclass::Dagger && !spec_is_two_handed(self) ==> r == WeaponType::OneHand,
    {
        match self {
            WeaponSubclass::Dagger => WeaponType::Dagger,
            WeaponSubclass::Axe2H | WeaponSubclass::Mace2H | WeaponSubclass::Sword2H
            | WeaponSubclass::Polearm | WeaponSubclass::Staff => WeaponType::TwoHand,
            _ => WeaponType::OneHand,
        }
    }

    /// Whether this is a two-handed weapon.
    pub fn is_two_handed(self) -> (r: bool)
        ensures
            r == spec_is_two_handed(self),
    {
        match self {
            WeaponSubclass::Axe2H | WeaponSubclass::Mace2H | WeaponSubclass::Sword2H
            | WeaponSubclass::Polearm | WeaponSubclass::Staff => true,
            _ => false,
        }
    }
}

/// When an item becomes soulbound to a character.
///
/// Ref: AzerothCore `ItemTemplate::Bonding`.
#[derive(Debug, Clone, Copy, PartialEq, Eq, Hash, Structural)]
pub enum BindingType {
    /// Never binds — freely tradeable.
    NoBinding,
    /// Bind on Pickup — soulbound the moment it enters inventory.
    BindOnPickup,
    /// Bind on Equip — soulbound when first equipped.
    BindOnEquip,
    /// Bind on Use — soulbound when first used (consumables, quest items).
    BindOnUse,
}

/// Runtime binding state of an item instance.
#[derive(Debug, Clone, Copy, PartialEq, Eq, Structural)]
pub enum BoundState {
    /// Item is not yet bound (can be traded/sold on AH).
    Unbound,
    /// Item is soulbound to a specific character.
    Bound { character_id: u64 },
}

impl BoundState {
    /// Check if the item is bound to a specific character.
    pub fn is_bound_to(&self, character_id: u64) -> (r: bool)
        ensures
            r == (*self == BoundState::Bound { character_id }),
    {
        match self {
            BoundState::Bound { character_id: id } => *id == character_id,
            BoundState::Unbound => false,
        }
    }

    /// Check if the item is tradeable (not bound).
    pub fn is_tradeable(&self) -> (r: bool)
        ensures
            r == (*self is Unbound),
    {
        match self {
            BoundState::Unbound => true,
            BoundState::Bound { .. } => false,
        }
    }

    /// Bind the item to a character. Returns the new state.
    pub fn bind(character_id: u64) -> (r: Self)
        ensures
            r == (BoundState::Bound { character_id }),
    {
        BoundState::Bound { character_id }
    }
}

/// Events that can trigger binding.
#[derive(Debug, Clone, Copy, PartialEq, Eq, Structural)]
pub enum BindingEvent {
    Pickup,
    Equip,
    Use,
}

/// Whether an event binds an item of the given binding type.
pub open spec fn binds_on(binding: BindingType, event: BindingEvent) -> bool {
    (binding == BindingType::BindOnPickup && event == BindingEvent::Pickup)
        || (binding == BindingType::BindOnEquip && event == BindingEvent::Equip)
        || (binding == BindingType::BindOnUse && event == BindingEvent::Use)
}

/// Binding state after an event: an unbound item whose binding type matches
/// the event binds to the character; anything else keeps its state.
pub open spec fn spec_resolve_binding(
    binding: BindingType,
    current: BoundState,
    event: BindingEvent,
    character_id: u64,
) -> BoundState {
    if current is Unbound && binds_on(binding, event) {
        BoundState::Bound { character_id }
    } else {
        current
    }
}

/// Determine the binding state after a pickup/equip/use event.
pub fn resolve_binding(
    binding: BindingType,
    current: BoundState,
    event: BindingEvent,
    character_id: u64,
) -> (r: BoundState)
    ensures
        r == spec_resolve_binding(binding, current, event, character_id),
{
    if !current.is_tradeable() {
        return current;
    }
    let should_bind = match (binding, event) {
        (BindingType::BindOnPickup, BindingEvent::Pickup) => true,
        (BindingType::BindOnEquip, BindingEvent::Equip) => true,
        (BindingType::BindOnUse, BindingEvent::Use) => true,
        _ => false,
    };
    if should_bind {
        BoundState::Bound { character_id }
    } else {
        current
    }
}

/// Once bound, an item never changes owner or becomes unbound, whatever the event.
pub proof fn lemma_binding_is_permanent(
    binding: BindingType,
    current: BoundState,
    event: BindingEvent,
    character_id: u64,
)
    requires
        current is Bound,
    ensures
        spec_resolve_binding(binding, current, event, character_id) == current,
{
}

/// Each binding type binds an unbound item on exactly one event: Bind on
/// Pickup on pickup, Bind on Equip on equip, Bind on Use on use; every other
/// event, and every event for an item with no binding, leaves it unbound.
pub proof fn lemma_binding_events(event: BindingEvent, character_id: u64)
    ensures
        spec_resolve_binding(BindingType::BindOnPickup, BoundState::Unbound, event, character_id)
            == (if event == BindingEvent::Pickup {
            BoundState::Bound { character_id }
        } else {
            BoundState::Unbound
        }),
        spec_resolve_binding(BindingType::BindOnEquip, BoundState::Unbound, event, character_id)
            == (if event == BindingEvent::Equip {
            BoundState::Bound { character_id }
        } else {
            BoundState::Unbound
        }),
        spec_resolve_binding(BindingType::BindOnUse, BoundState::Unbound, event, character_id)
            == (if event == BindingEvent::Use {
            BoundState::Bound { character_id }
        } else {
            BoundState::Unbound
        }),
        spec_resolve_binding(BindingType::NoBinding, BoundState::Unbound, event, character_id)
            == BoundState::Unbound,
{
}

/// Items with no binding type are never bound by any event.
pub proof fn lemma_unbinding_items_stay_unbound(event: BindingEvent, character_id: u64)
    ensures
        spec_resolve_binding(BindingType::NoBinding, BoundState::Unbound, event, character_id)
            == BoundState::Unbound,
{
}

/// Estimated vendor sell price in copper: `ilvl * quality_multiplier * 100`.
pub fn estimated_vendor_price(ilvl: u16, quality: ItemQuality) -> (r: u32)
    ensures
        r == ilvl * quality.vendor_copper_per_ilvl(),
{
    let rate: u32 = match quality {
        ItemQuality::Poor => 10,
        ItemQuality::Common => 50,
        ItemQuality::Uncommon => 100,
        ItemQuality::Rare => 250,
        ItemQuality::Epic => 500,
        ItemQuality::Legendary => 1000,
    };
    assert(ilvl * rate <= 65535 * 1000) by (nonlinear_arith)
        requires
            ilvl <= 65535,
            rate <= 1000,
    ;
    (ilvl as u32) * rate
}

/// Vendor prices follow the documented rates: 100 copper per item level at
/// Uncommon, scaled by 0.1 (Poor), 0.5 (Common), 2.5 (Rare), 5 (Epic) and
/// 10 (Legendary).
pub proof fn lemma_vendor_price_rates(ilvl: u16)
    ensures
        ilvl * ItemQuality::Poor.vendor_copper_per_ilvl() == ilvl * 10,
        ilvl * ItemQuality::Common.vendor_copper_per_ilvl() == ilvl * 50,
        ilvl * ItemQuality::Uncommon.vendor_copper_per_ilvl() == ilvl * 100,
        ilvl * ItemQuality::Rare.vendor_copper_per_ilvl() == ilvl * 250,
        ilvl * ItemQuality::Epic.vendor_copper_per_ilvl() == ilvl * 500,
        ilvl * ItemQuality::Legendary.vendor_copper_per_ilvl() == ilvl * 1000,
{
}

/// Higher quality tiers never sell for less at the same item level.
pub proof fn lemma_vendor_price_monotone_in_quality(ilvl: u16, a: ItemQuality, b: ItemQuality)
    requires
        a.id() <= b.id(),
    ensures
        ilvl * a.vendor_copper_per_ilvl() <= ilvl * b.vendor_copper_per_ilvl(),
{
    assert(a.vendor_copper_per_ilvl() <= b.vendor_copper_per_ilvl());
    assert(ilvl * a.vendor_copper_per_ilvl() <= ilvl * b.vendor_copper_per_ilvl()) by (nonlinear_arith)
        requires
            a.vendor_copper_per_ilvl() <= b.vendor_copper_per_ilvl(),
    ;
}

// --- Set bonuses ---

/// A set bonus that activates when N pieces of a set are equipped.
/// `E` is the effect type granted by the bonus (passive aura effects).
#[derive(Debug, Clone, PartialEq)]
pub struct SetBonus<E> {
    /// Number of pieces required (e.g. 2 or 4).
    pub required_pieces: u8,
    /// Passive effects granted by this bonus.
    pub effects: Vec<E>,
}

/// Definition of an item set (e.g. Tier 10 Warrior).
#[derive(Debug, Clone, PartialEq)]
pub struct ItemSetDef<E> {
    /// Unique set ID.
    pub id: u32,
    /// Display name.
    pub name: String,
    /// Item IDs that belong to this set.
    pub item_ids: Vec<u32>,
    /// Bonuses at various piece thresholds.
    pub bonuses: Vec<SetBonus<E>>,
}

/// Number of entries of `ids` that occur in `equipped`.
pub open spec fn count_equipped(ids: Seq<u32>, equipped: Seq<u32>) -> nat
    decreases ids.len(),
{
    if ids.len() == 0 {
        0
    } else {
        count_equipped(ids.drop_last(), equipped) + if equipped.contains(ids.last()) {
            1nat
        } else {
            0nat
        }
    }
}

/// Effects of the bonuses, in order, whose piece threshold `pieces` meets.
pub open spec fn bonus_effects<E>(bonuses: Seq<SetBonus<E>>, pieces: u8) -> Seq<E>
    decreases bonuses.len(),
{
    if bonuses.len() == 0 {
        Seq::empty()
    } else {
        bonus_effects(bonuses.drop_last(), pieces) + if pieces >= bonuses.last().required_pieces {
            bonuses.last().effects@
        } else {
            Seq::empty()
        }
    }
}

/// Active effects of all sets, set by set in order. The piece count of a set is
/// taken as a `u8`, as the original counts it.
pub open spec fn set_effects<E>(sets: Seq<ItemSetDef<E>>, equipped: Seq<u32>) -> Seq<E>
    decreases sets.len(),
{
    if sets.len() == 0 {
        Seq::empty()
    } else {
        set_effects(sets.drop_last(), equipped) + bonus_effects(
            sets.last().bonuses@,
            count_equipped(sets.last().item_ids@, equipped) as u8,
        )
    }
}

fn vec_contains_u32(v: &[u32], x: u32) -> (r: bool)
    ensures
        r == v@.contains(x),
{
    let mut i: usize = 0;
    while i < v.len()
        invariant
            i <= v.len(),
            forall|k: int| 0 <= k < i ==> v@[k] != x,
        decreases v.len() - i,
    {
        if v[i] == x {
            assert(v@[i as int] == x);
            return true;
        }
        i = i + 1;
    }
    false
}

/// Determine which set bonuses are active given the equipped item IDs: the
/// effects of every bonus whose piece threshold is met.
pub fn active_set_bonuses<E: Copy>(sets: &[ItemSetDef<E>], equipped_item_ids: &[u32]) -> (r: Vec<E>)
    ensures
        r@ == set_effects(sets@, equipped_item_ids@),
{
    let mut out: Vec<E> = Vec::new();
    let mut s: usize = 0;
    while s < sets.len()
        invariant
            s <= sets.len(),
            out@ == set_effects(sets@.take(s as int), equipped_item_ids@),
        decreases sets.len() - s,
    {
        let set = &sets[s];
        let mut count: usize = 0;
        let mut i: usize = 0;
        while i < set.item_ids.len()
            invariant
                i <= set.item_ids.len(),
                count == count_equipped(set.item_ids@.take(i as int), equipped_item_ids@),
                count <= i,
            decreases set.item_ids.len() - i,
        {
            assert(set.item_ids@.take(i + 1).drop_last() =~= set.item_ids@.take(i as int));
            if vec_contains_u32(equipped_item_ids, set.item_ids[i]) {
                count = count + 1;
            }
            i = i + 1;
        }
        assert(set.item_ids@.take(i as int) =~= set.item_ids@);
        let pieces = count as u8;
        let ghost before = out@;
        let mut b: usize = 0;
        while b < set.bonuses.len()
            invariant
                b <= set.bonuses.len(),
                out@ == before + bonus_effects(set.bonuses@.take(b as int), pieces),
            decreases set.bonuses.len() - b,
        {
            assert(set.bonuses@.take(b + 1).drop_last() =~= set.bonuses@.take(b as int));
            let bonus = &set.bonuses[b];
            if pieces >= bonus.required_pieces {
                let ghost mid = out@;
                let mut k: usize = 0;
                while k < bonus.effects.len()
                    invariant
                        k <= bonus.effects.len(),
                        out@ == mid + bonus.effects@.take(k as int),
                    decreases bonus.effects.len() - k,
                {
                    out.push(bonus.effects[k]);
                    assert(bonus.effects@.take(k + 1) =~= bonus.effects@.take(k as int).push(
                        bonus.effects@[k as int],
                    ));
                    k = k + 1;
                }
                assert(bonus.effects@.take(k as int) =~= bonus.effects@);
            }
            assert(out@ =~= before + bonus_effects(set.bonuses@.take(b + 1), pieces));
            b = b + 1;
        }
        assert(set.bonuses@.take(b as int) =~= set.bonuses@);
        assert(sets@.take(s + 1).drop_last() =~= sets@.take(s as int));
        assert(out@ =~= set_effects(sets@.take(s + 1), equipped_item_ids@));
        s = s + 1;
    }
    assert(sets@.take(s as int) =~= sets@);
    out
}

// --- Durability ---

/// Runtime durability state for a single equipped item.
#[derive(Debug, Clone, Copy, PartialEq, Eq, Structural)]
pub struct Durability {
    pub current: u32,
    pub max: u32,
}

/// Durability lost on death: 10% of max, rounded up.
pub open spec fn death_loss(max: u32) -> int {
    (max + 9) / 10
}

/// Repair cost in copper: half a copper per missing point per item level,
/// rounded down (and capped at `u32::MAX`).
pub open spec fn repair_cost(missing: u32, ilvl: u16) -> int {
    let c = (missing * ilvl) / 2;
    if c > u32::MAX {
        u32::MAX as int
    } else {
        c
    }
}

/// The death loss is a tenth of the maximum rounded up: the least amount
/// whose tenfold reaches the maximum. The repair cost is half the missing
/// points times the item level, rounded down, unless that exceeds `u32::MAX`.
pub proof fn lemma_durability_formulas(max: u32, missing: u32, ilvl: u16)
    ensures
        10 * death_loss(max) >= max,
        death_loss(max) == 0 || 10 * (death_loss(max) - 1) < max,
        repair_cost(missing, ilvl) < u32::MAX ==> 2 * repair_cost(missing, ilvl) <= missing * ilvl
            < 2 * repair_cost(missing, ilvl) + 2,
        repair_cost(missing, ilvl) <= u32::MAX,
{
}

impl Durability {
    pub fn new(max: u32) -> (r: Self)
        ensures
            r.current == max,
            r.max == max,
    {
        Durability { current: max, max }
    }

    /// Apply death durability loss (10% of max, rounded up), never below zero.
    pub fn apply_death_loss(&mut self)
        ensures
            final(self).max == old(self).max,
            final(self).current == if death_loss(old(self).max) <= old(self).current {
                old(self).current - death_loss(old(self).max)
            } else {
                0
            },
    {
        let loss: u32 = self.max / 10 + if self.max % 10 != 0 {
            1u32
        } else {
            0u32
        };
        let loss = if loss <= self.current {
            loss
        } else {
            self.current
        };
        self.current = self.current - loss;
    }

    /// Whether the item is broken (0 durability; items with no durability never break).
    pub fn is_broken(&self) -> (r: bool)
        ensures
            r == (self.max > 0 && self.current == 0),
    {
        self.max > 0 && self.current == 0
    }

    /// Repair fully. Returns the cost in copper.
    pub fn repair(&mut self, ilvl: u16) -> (cost: u32)
        requires
            old(self).current <= old(self).max,
        ensures
            final(self).max == old(self).max,
            final(self).current == old(self).max,
            cost == repair_cost((old(self).max - old(self).current) as u32, ilvl),
    {
        let missing = self.max - self.current;
        if missing == 0 {
            return 0;
        }
        assert(missing * ilvl <= 0xffff_ffff * 0xffff) by (nonlinear_arith)
            requires
                missing <= 0xffff_ffff,
                ilvl <= 0xffff,
        ;
        let c: u64 = (missing as u64) * (ilvl as u64) / 2;
        let cost: u32 = if c > 0xffff_ffffu64 {
            0xffff_ffffu32
        } else {
            c as u32
        };
        self.current = self.max;
        cost
    }

    /// Damage durability by a flat amount (e.g. from combat), never below zero.
    pub fn damage(&mut self, amount: u32)
        ensures
            final(self).max == old(self).max,
            final(self).current == if amount <= old(self).current {
                old(self).current - amount
            } else {
                0
            },
    {
        self.current = self.current.saturating_sub(amount);
    }
}

// --- Inventory ---

/// Default backpack size (16 slots, matching WoW).
pub const BACKPACK_SIZE: usize = 16;

/// Number of bag slots (4, matching WoW).
pub const BAG_SLOT_COUNT: usize = 4;

/// Default bank size (28 base slots).
pub const BANK_SIZE: usize = 28;

/// Number of equipped item slots.
pub const EQUIP_SLOT_COUNT: usize = 18;

/// An inventory slot that may hold an item (by ID) and stack count.
#[derive(Debug, Clone, Copy, PartialEq, Eq, Structural)]
pub struct InvSlot {
    /// Item ID (0 = empty).
    pub item_id: u32,
    /// Stack count (1 for equipment, >1 for consumables).
    pub count: u16,
}

impl Default for InvSlot {
    fn default() -> (r: Self)
        ensures
            r == (InvSlot { item_id: 0, count: 0 }),
    {
        InvSlot { item_id: 0, count: 0 }
    }
}

/// The empty slot.
pub open spec fn empty_slot() -> InvSlot {
    InvSlot { item_id: 0, count: 0 }
}

impl InvSlot {
    pub fn is_empty(&self) -> (r: bool)
        ensures
            r == (self.item_id == 0),
    {
        self.item_id == 0
    }
}

/// Number of empty slots.
pub open spec fn count_empty(s: Seq<InvSlot>) -> nat
    decreases s.len(),
{
    if s.len() == 0 {
        0
    } else {
        count_empty(s.drop_last()) + if s.last().item_id == 0 {
            1nat
        } else {
            0nat
        }
    }
}

/// Total stack count held in slots with the given item id.
pub open spec fn total_of(s: Seq<InvSlot>, item_id: u32) -> nat
    decreases s.len(),
{
    if s.len() == 0 {
        0
    } else {
        total_of(s.drop_last(), item_id) + if s.last().item_id == item_id {
            s.last().count as nat
        } else {
            0nat
        }
    }
}

/// First pass of stacking on one slot: top up a partial stack of the item.
pub open spec fn top_up_slot(slot: InvSlot, item_id: u32, left: nat, max_stack: u16) -> (InvSlot, nat) {
    if left > 0 && slot.item_id == item_id && slot.count < max_stack {
        let space = (max_stack - slot.count) as nat;
        let add = if left <= space {
            left
        } else {
            space
        };
        (InvSlot { item_id, count: (slot.count + add) as u16 }, (left - add) as nat)
    } else {
        (slot, left)
    }
}

/// Second pass of stacking on one slot: start a new stack in an empty slot.
pub open spec fn fill_empty_slot(slot: InvSlot, item_id: u32, left: nat, max_stack: u16) -> (InvSlot, nat) {
    if left > 0 && slot.item_id == 0 {
        let add = if left <= max_stack {
            left
        } else {
            max_stack as nat
        };
        (InvSlot { item_id, count: add as u16 }, (left - add) as nat)
    } else {
        (slot, left)
    }
}

/// The top-up pass over a sequence of slots, front to back.
pub open spec fn top_up_pass(s: Seq<InvSlot>, item_id: u32, left: nat, max_stack: u16) -> (Seq<InvSlot>, nat)
    decreases s.len(),
{
    if s.len() == 0 {
        (s, left)
    } else {
        let (p, l) = top_up_pass(s.drop_last(), item_id, left, max_stack);
        let (x, l2) = top_up_slot(s.last(), item_id, l, max_stack);
        (p.push(x), l2)
    }
}

/// The empty-slot pass over a sequence of slots, front to back.
pub open spec fn fill_pass(s: Seq<InvSlot>, item_id: u32, left: nat, max_stack: u16) -> (Seq<InvSlot>, nat)
    decreases s.len(),
{
    if s.len() == 0 {
        (s, left)
    } else {
        let (p, l) = fill_pass(s.drop_last(), item_id, left, max_stack);
        let (x, l2) = fill_empty_slot(s.last(), item_id, l, max_stack);
        (p.push(x), l2)
    }
}

/// Adding `count` of an item to a bag's slots: first top up existing partial
/// stacks, then start new stacks in empty slots. Yields the new slots and the
/// count that did not fit.
pub open spec fn stack_into(s: Seq<InvSlot>, item_id: u32, count: nat, max_stack: u16) -> (Seq<InvSlot>, nat) {
    let (s1, l1) = top_up_pass(s, item_id, count, max_stack);
    fill_pass(s1, item_id, l1, max_stack)
}

proof fn lemma_top_up_pass_shape(s: Seq<InvSlot>, item_id: u32, left: nat, max_stack: u16)
    ensures
        top_up_pass(s, item_id, left, max_stack).0.len() == s.len(),
        top_up_pass(s, item_id, left, max_stack).1 <= left,
        total_of(top_up_pass(s, item_id, left, max_stack).0, item_id) + top_up_pass(
            s,
            item_id,
            left,
            max_stack,
        ).1 == total_of(s, item_id) + left,
        forall|j: int|
            0 <= j < s.len() && s[j].item_id != item_id ==> #[trigger] top_up_pass(
                s,
                item_id,
                left,
                max_stack,
            ).0[j] == s[j],
        forall|j: int|
            0 <= j < s.len() ==> #[trigger] top_up_pass(s, item_id, left, max_stack).0[j].item_id
                == s[j].item_id,
    decreases s.len(),
{
    if s.len() > 0 {
        lemma_top_up_pass_shape(s.drop_last(), item_id, left, max_stack);
        let (p, l) = top_up_pass(s.drop_last(), item_id, left, max_stack);
        let (x, l2) = top_up_slot(s.last(), item_id, l, max_stack);
        assert(p.push(x).drop_last() =~= p);
        assert(s.drop_last().len() == s.len() - 1);
        assert forall|j: int| 0 <= j < s.len() && s[j].item_id != item_id implies #[trigger] top_up_pass(
            s,
            item_id,
            left,
            max_stack,
        ).0[j] == s[j] by {
            if j < s.len() - 1 {
                assert(s.drop_last()[j] == s[j]);
            }
        }
        assert forall|j: int| 0 <= j < s.len() implies #[trigger] top_up_pass(
            s,
            item_id,
            left,
            max_stack,
        ).0[j].item_id == s[j].item_id by {
            if j < s.len() - 1 {
                assert(s.drop_last()[j] == s[j]);
            }
        }
    }
}

proof fn lemma_fill_pass_shape(s: Seq<InvSlot>, item_id: u32, left: nat, max_stack: u16)
    requires
        item_id != 0,
    ensures
        fill_pass(s, item_id, left, max_stack).0.len() == s.len(),
        fill_pass(s, item_id, left, max_stack).1 <= left,
        total_of(fill_pass(s, item_id, left, max_stack).0, item_id) + fill_pass(
            s,
            item_id,
            left,
            max_stack,
        ).1 == total_of(s, item_id) + left,
        forall|j: int|
            0 <= j < s.len() && s[j].item_id != 0 ==> #[trigger] fill_pass(
                s,
                item_id,
                left,
                max_stack,
            ).0[j] == s[j],
    decreases s.len(),
{
    if s.len() > 0 {
        lemma_fill_pass_shape(s.drop_last(), item_id, left, max_stack);
        let (p, l) = fill_pass(s.drop_last(), item_id, left, max_stack);
        let (x, l2) = fill_empty_slot(s.last(), item_id, l, max_stack);
        assert(p.push(x).drop_last() =~= p);
        assert forall|j: int| 0 <= j < s.len() && s[j].item_id != 0 implies #[trigger] fill_pass(
            s,
            item_id,
            left,
            max_stack,
        ).0[j] == s[j] by {
            if j < s.len() - 1 {
                assert(s.drop_last()[j] == s[j]);
            }
        }
    }
}

/// Stacking never loses or invents items: what went into the bag plus what is
/// left over is exactly what was offered, and slots holding other items are
/// untouched.
pub proof fn lemma_stack_into_conserves(s: Seq<InvSlot>, item_id: u32, count: nat, max_stack: u16)
    requires
        item_id != 0,
    ensures
        stack_into(s, item_id, count, max_stack).0.len() == s.len(),
        stack_into(s, item_id, count, max_stack).1 <= count,
        total_of(stack_into(s, item_id, count, max_stack).0, item_id) + stack_into(
            s,
            item_id,
            count,
            max_stack,
        ).1 == total_of(s, item_id) + count,
        forall|j: int|
            0 <= j < s.len() && s[j].item_id != item_id && s[j].item_id != 0
                ==> #[trigger] stack_into(s, item_id, count, max_stack).0[j] == s[j],
{
    lemma_top_up_pass_shape(s, item_id, count, max_stack);
    let (s1, l1) = top_up_pass(s, item_id, count, max_stack);
    lemma_fill_pass_shape(s1, item_id, l1, max_stack);
    assert forall|j: int|
        0 <= j < s.len() && s[j].item_id != item_id && s[j].item_id != 0 implies #[trigger] stack_into(
        s,
        item_id,
        count,
        max_stack,
    ).0[j] == s[j] by {
        assert(s1[j] == s[j]);
    }
}

/// A bag with a fixed number of slots.
#[derive(Debug, Clone, PartialEq)]
pub struct Bag {
    pub slots: Vec<InvSlot>,
}

impl Bag {
    pub fn new(size: usize) -> (r: Self)
        ensures
            r.slots@ == Seq::new(size as nat, |i: int| empty_slot()),
    {
        let mut slots: Vec<InvSlot> = Vec::new();
        let mut i: usize = 0;
        while i < size
            invariant
                i <= size,
                slots@ == Seq::new(i as nat, |k: int| empty_slot()),
            decreases size - i,
        {
            slots.push(InvSlot::default());
            assert(slots@ =~= Seq::new((i + 1) as nat, |k: int| empty_slot()));
            i = i + 1;
        }
        Bag { slots }
    }

    /// Find the first empty slot index, if any.
    pub fn first_empty(&self) -> (r: Option<usize>)
        ensures
            r is None ==> forall|k: int| 0 <= k < self.slots@.len() ==> self.slots@[k].item_id != 0,
            r matches Some(i) ==> i < self.slots@.len() && self.slots@[i as int].item_id == 0
                && forall|k: int| 0 <= k < i ==> self.slots@[k].item_id != 0,
    {
        let mut i: usize = 0;
        while i < self.slots.len()
            invariant
                i <= self.slots.len(),
                forall|k: int| 0 <= k < i ==> self.slots@[k].item_id != 0,
            decreases self.slots.len() - i,
        {
            if self.slots[i].is_empty() {
                return Some(i);
            }
            i = i + 1;
        }
        None
    }

    /// Number of occupied slots.
    pub fn used_slots(&self) -> (r: usize)
        ensures
            r == self.slots@.len() - count_empty(self.slots@),
    {
        let n = self.free_count();
        self.slots.len() - n
    }

    /// Number of empty slots.
    fn free_count(&self) -> (r: usize)
        ensures
            r == count_empty(self.slots@),
            r <= self.slots@.len(),
    {
        let mut n: usize = 0;
        let mut i: usize = 0;
        while i < self.slots.len()
            invariant
                i <= self.slots.len(),
                n == count_empty(self.slots@.take(i as int)),
                n <= i,
            decreases self.slots.len() - i,
        {
            assert(self.slots@.take(i + 1).drop_last() =~= self.slots@.take(i as int));
            if self.slots[i].is_empty() {
                n = n + 1;
            }
            i = i + 1;
        }
        assert(self.slots@.take(i as int) =~= self.slots@);
        n
    }

    /// Try to add `count` of `item_id` by stacking onto existing slots first,
    /// then using empty slots. Returns the amount that could NOT be added.
    pub fn add_stacking(&mut self, item_id: u32, count: u16, max_stack: u16) -> (leftover: u16)
        ensures
            (final(self).slots@, leftover as nat) == stack_into(
                old(self).slots@,
                item_id,
                count as nat,
                max_stack,
            ),
    {
        let ghost orig = self.slots@;
        let mut count = count;
        let ghost c0 = count as nat;
        let mut i: usize = 0;
        while i < self.slots.len()
            invariant
                i <= self.slots.len(),
                self.slots@.len() == orig.len(),
                top_up_pass(orig.take(i as int), item_id, c0, max_stack) == (
                    self.slots@.take(i as int),
                    count as nat,
                ),
                forall|k: int| i <= k < orig.len() ==> self.slots@[k] == orig[k],
            decreases self.slots.len() - i,
        {
            let ghost pre = self.slots@;
            assert(orig.take(i + 1).drop_last() =~= orig.take(i as int));
            assert(orig.take(i + 1).last() == orig[i as int]);
            let slot = self.slots[i];
            if count > 0 && slot.item_id == item_id && slot.count < max_stack {
                let space = max_stack - slot.count;
                let add = if count <= space {
                    count
                } else {
                    space
                };
                self.slots[i] = InvSlot { item_id, count: slot.count + add };
                count = count - add;
            }
            assert(self.slots@.take(i + 1) =~= pre.take(i as int).push(self.slots@[i as int]));
            i = i + 1;
        }
        assert(orig.take(i as int) =~= orig);
        assert(self.slots@.take(i as int) =~= self.slots@);
        let ghost mid = self.slots@;
        let ghost c1 = count as nat;
        let mut j: usize = 0;
        while j < self.slots.len()
            invariant
                j <= self.slots.len(),
                self.slots@.len() == mid.len(),
                fill_pass(mid.take(j as int), item_id, c1, max_stack) == (
                    self.slots@.take(j as int),
                    count as nat,
                ),
                forall|k: int| j <= k < mid.len() ==> self.slots@[k] == mid[k],
            decreases self.slots.len() - j,
        {
            let ghost pre = self.slots@;
            assert(mid.take(j + 1).drop_last() =~= mid.take(j as int));
            assert(mid.take(j + 1).last() == mid[j as int]);
            if count > 0 && self.slots[j].is_empty() {
                let add = if count <= max_stack {
                    count
                } else {
                    max_stack
                };
                self.slots[j] = InvSlot { item_id, count: add };
                count = count - add;
            }
            assert(self.slots@.take(j + 1) =~= pre.take(j as int).push(self.slots@[j as int]));
            j = j + 1;
        }
        assert(mid.take(j as int) =~= mid);
        assert(self.slots@.take(j as int) =~= self.slots@);
        count
    }
}

/// Player inventory: backpack + bags + bank + equipped items.
///
/// - Backpack: 16 fixed slots (always available)
/// - Bags: 4 bag slots, each with variable size (0 if no bag equipped)
/// - Bank: 28 base slots
/// - Equipped: one slot per EquipSlot
///
/// Ref: AzerothCore `Player.cpp` inventory handling.
#[derive(Debug, Clone, PartialEq)]
pub struct Inventory {
    pub backpack: Bag,
    pub bags: [Bag; 4],
    pub bank: Bag,
    pub equipped: [InvSlot; 18],
}

impl Default for Inventory {
    fn default() -> (r: Self)
        ensures
            r.backpack.slots@ == Seq::new(16, |i: int| empty_slot()),
            forall|k: int| 0 <= k < 4 ==> (#[trigger] r.bags@[k]).slots@.len() == 0,
            r.bank.slots@ == Seq::new(28, |i: int| empty_slot()),
            forall|k: int| 0 <= k < 18 ==> #[trigger] r.equipped@[k] == empty_slot(),
    {
        let r = Inventory {
            backpack: Bag::new(BACKPACK_SIZE),
            bags: [Bag::new(0), Bag::new(0), Bag::new(0), Bag::new(0)],
            bank: Bag::new(BANK_SIZE),
            equipped: [InvSlot { item_id: 0, count: 0 }; 18],
        };
        r
    }
}

/// Whether a slot sequence holds a slot with the given item id.
pub open spec fn has_item(s: Seq<InvSlot>, item_id: u32) -> bool {
    exists|k: int| 0 <= k < s.len() && s[k].item_id == item_id
}

/// Index of the first slot with the given item id (meaningful when `has_item`).
pub open spec fn first_index(s: Seq<InvSlot>, item_id: u32) -> int {
    choose|k: int|
        0 <= k < s.len() && s[k].item_id == item_id && forall|m: int|
            0 <= m < k ==> s[m].item_id != item_id
}

/// The slots after clearing the first slot holding the item (unchanged if none does).
pub open spec fn remove_first(s: Seq<InvSlot>, item_id: u32) -> Seq<InvSlot> {
    if has_item(s, item_id) {
        s.update(first_index(s, item_id), empty_slot())
    } else {
        s
    }
}

/// Index of the first bag holding the item, or 4 when no bag does.
pub open spec fn first_bag_with(bags: Seq<Bag>, item_id: u32) -> int {
    if has_item(bags[0].slots@, item_id) {
        0
    } else if has_item(bags[1].slots@, item_id) {
        1
    } else if has_item(bags[2].slots@, item_id) {
        2
    } else if has_item(bags[3].slots@, item_id) {
        3
    } else {
        4
    }
}

/// Number of empty slots across the backpack and the four bags.
pub open spec fn inventory_free(inv: Inventory) -> nat {
    count_empty(inv.backpack.slots@) + count_empty(inv.bags@[0].slots@) + count_empty(
        inv.bags@[1].slots@,
    ) + count_empty(inv.bags@[2].slots@) + count_empty(inv.bags@[3].slots@)
}

/// Total count of an item across the backpack and the four bags.
pub open spec fn inventory_total(inv: Inventory, item_id: u32) -> nat {
    total_of(inv.backpack.slots@, item_id) + total_of(inv.bags@[0].slots@, item_id) + total_of(
        inv.bags@[1].slots@,
        item_id,
    ) + total_of(inv.bags@[2].slots@, item_id) + total_of(inv.bags@[3].slots@, item_id)
}

/// One stage of adding to the inventory: a container is only visited while
/// something is still left to place.
pub open spec fn stage(s: Seq<InvSlot>, item_id: u32, left: nat, max_stack: u16) -> (Seq<InvSlot>, nat) {
    if left == 0 {
        (s, 0)
    } else {
        stack_into(s, item_id, left, max_stack)
    }
}

proof fn lemma_stage_conserves(s: Seq<InvSlot>, item_id: u32, left: nat, max_stack: u16)
    requires
        item_id != 0,
    ensures
        stage(s, item_id, left, max_stack).0.len() == s.len(),
        stage(s, item_id, left, max_stack).1 <= left,
        total_of(stage(s, item_id, left, max_stack).0, item_id) + stage(s, item_id, left, max_stack).1
            == total_of(s, item_id) + left,
{
    if left != 0 {
        lemma_stack_into_conserves(s, item_id, left, max_stack);
    }
}

impl Inventory {
    /// Try to add an item (non-stacking, max_stack=1).
    /// Returns `true` if the item was added.
    pub fn add_item(&mut self, item_id: u32, count: u16) -> (r: bool)
        ensures
            final(self).bank == old(self).bank,
            final(self).equipped == old(self).equipped,
            r == (Self::spec_add_leftover(*old(self), item_id, count as nat, 1) == 0),
            Self::spec_add_result(*old(self), item_id, count as nat, 1, *final(self)),
    {
        self.add_item_stacking(item_id, count, 1) == 0
    }

    /// The count left over after adding to the inventory.
    pub open spec fn spec_add_leftover(inv: Inventory, item_id: u32, count: nat, max_stack: u16) -> nat {
        let (b0, l0) = stage(inv.backpack.slots@, item_id, count, max_stack);
        let (b1, l1) = stage(inv.bags@[0].slots@, item_id, l0, max_stack);
        let (b2, l2) = stage(inv.bags@[1].slots@, item_id, l1, max_stack);
        let (b3, l3) = stage(inv.bags@[2].slots@, item_id, l2, max_stack);
        let (b4, l4) = stage(inv.bags@[3].slots@, item_id, l3, max_stack);
        l4
    }

    /// `after` is the inventory `inv` after adding: the backpack, then each bag
    /// in order, take what they can.
    pub open spec fn spec_add_result(
        inv: Inventory,
        item_id: u32,
        count: nat,
        max_stack: u16,
        after: Inventory,
    ) -> bool {
        let (b0, l0) = stage(inv.backpack.slots@, item_id, count, max_stack);
        let (b1, l1) = stage(inv.bags@[0].slots@, item_id, l0, max_stack);
        let (b2, l2) = stage(inv.bags@[1].slots@, item_id, l1, max_stack);
        let (b3, l3) = stage(inv.bags@[2].slots@, item_id, l2, max_stack);
        let (b4, l4) = stage(inv.bags@[3].slots@, item_id, l3, max_stack);
        &&& after.backpack.slots@ == b0
        &&& after.bags@[0].slots@ == b1
        &&& after.bags@[1].slots@ == b2
        &&& after.bags@[2].slots@ == b3
        &&& after.bags@[3].slots@ == b4
    }

    fn stage_bag(bag: &mut Bag, item_id: u32, left: u16, max_stack: u16) -> (r: u16)
        ensures
            (final(bag).slots@, r as nat) == stage(old(bag).slots@, item_id, left as nat, max_stack),
    {
        if left == 0 {
            0
        } else {
            bag.add_stacking(item_id, left, max_stack)
        }
    }

    /// Add items with stacking support. Fills existing partial stacks first,
    /// then uses empty slots. Returns the count that could NOT be added.
    pub fn add_item_stacking(&mut self, item_id: u32, count: u16, max_stack: u16) -> (leftover: u16)
        ensures
            final(self).bank == old(self).bank,
            final(self).equipped == old(self).equipped,
            leftover == Self::spec_add_leftover(*old(self), item_id, count as nat, max_stack),
            Self::spec_add_result(*old(self), item_id, count as nat, max_stack, *final(self)),
    {
        let ghost old_inv = *self;
        let l0 = Self::stage_bag(&mut self.backpack, item_id, count, max_stack);
        let l1 = Self::stage_bag(&mut self.bags[0], item_id, l0, max_stack);
        let l2 = Self::stage_bag(&mut self.bags[1], item_id, l1, max_stack);
        let l3 = Self::stage_bag(&mut self.bags[2], item_id, l2, max_stack);
        let l4 = Self::stage_bag(&mut self.bags[3], item_id, l3, max_stack);
        l4
    }

    /// Adding to the inventory never loses or invents items: the count placed in
    /// the backpack and bags plus the count left over is exactly the count offered.
    pub proof fn lemma_add_conserves(inv: Inventory, item_id: u32, count: nat, max_stack: u16, after: Inventory)
        requires
            item_id != 0,
            Self::spec_add_result(inv, item_id, count, max_stack, after),
        ensures
            inventory_total(after, item_id) + Self::spec_add_leftover(inv, item_id, count, max_stack)
                == inventory_total(inv, item_id) + count,
            Self::spec_add_leftover(inv, item_id, count, max_stack) <= count,
    {
        let (b0, l0) = stage(inv.backpack.slots@, item_id, count, max_stack);
        let (b1, l1) = stage(inv.bags@[0].slots@, item_id, l0, max_stack);
        let (b2, l2) = stage(inv.bags@[1].slots@, item_id, l1, max_stack);
        let (b3, l3) = stage(inv.bags@[2].slots@, item_id, l2, max_stack);
        lemma_stage_conserves(inv.backpack.slots@, item_id, count, max_stack);
        lemma_stage_conserves(inv.bags@[0].slots@, item_id, l0, max_stack);
        lemma_stage_conserves(inv.bags@[1].slots@, item_id, l1, max_stack);
        lemma_stage_conserves(inv.bags@[2].slots@, item_id, l2, max_stack);
        lemma_stage_conserves(inv.bags@[3].slots@, item_id, l3, max_stack);
    }

    fn remove_from_bag(bag: &mut Bag, item_id: u32) -> (r: bool)
        ensures
            r == has_item(old(bag).slots@, item_id),
            final(bag).slots@ == remove_first(old(bag).slots@, item_id),
    {
        let mut i: usize = 0;
        while i < bag.slots.len()
            invariant
                i <= bag.slots.len(),
                bag.slots@ == old(bag).slots@,
                forall|k: int| 0 <= k < i ==> bag.slots@[k].item_id != item_id,
            decreases bag.slots.len() - i,
        {
            if bag.slots[i].item_id == item_id {
                let ghost s = bag.slots@;
                assert(s[i as int].item_id == item_id);
                assert(has_item(s, item_id));
                assert(0 <= i < s.len() && s[i as int].item_id == item_id && forall|m: int|
                    0 <= m < i ==> s[m].item_id != item_id);
                let ghost fi = first_index(s, item_id);
                assert(fi == i) by {
                    if fi < i {
                        assert(s[fi].item_id != item_id);
                    } else if fi > i {
                        assert(s[i as int].item_id == item_id);
                    }
                }
                bag.slots[i] = InvSlot::default();
                return true;
            }
            i = i + 1;
        }
        false
    }

    /// Remove an item from any bag/backpack slot: the first matching slot of the
    /// backpack, else of the first bag that holds it. Returns `true` if found and removed.
    pub fn remove_item(&mut self, item_id: u32) -> (r: bool)
        ensures
            final(self).bank == old(self).bank,
            final(self).equipped == old(self).equipped,
            r == (has_item(old(self).backpack.slots@, item_id) || first_bag_with(old(self).bags@, item_id) < 4),
            final(self).backpack.slots@ == remove_first(old(self).backpack.slots@, item_id),
            forall|k: int|
                0 <= k < 4 ==> (#[trigger] final(self).bags@[k]).slots@ == if !has_item(
                    old(self).backpack.slots@,
                    item_id,
                ) && k == first_bag_with(old(self).bags@, item_id) {
                    remove_first(old(self).bags@[k].slots@, item_id)
                } else {
                    old(self).bags@[k].slots@
                },
    {
        if Self::remove_from_bag(&mut self.backpack, item_id) {
            return true;
        }
        if Self::remove_from_bag(&mut self.bags[0], item_id) {
            return true;
        }
        if Self::remove_from_bag(&mut self.bags[1], item_id) {
            return true;
        }
        if Self::remove_from_bag(&mut self.bags[2], item_id) {
            return true;
        }
        Self::remove_from_bag(&mut self.bags[3], item_id)
    }

    /// Equip an item in a slot (by EquipSlot index 0–17).
    /// Returns the previously equipped item_id (0 if empty or out of range).
    pub fn equip(&mut self, slot_index: usize, item_id: u32) -> (prev: u32)
        ensures
            final(self).backpack == old(self).backpack,
            final(self).bags == old(self).bags,
            final(self).bank == old(self).bank,
            slot_index >= 18 ==> prev == 0 && final(self).equipped == old(self).equipped,
            slot_index < 18 ==> prev == old(self).equipped@[slot_index as int].item_id
                && final(self).equipped@ == old(self).equipped@.update(
                slot_index as int,
                InvSlot { item_id, count: 1 },
            ),
    {
        if slot_index >= EQUIP_SLOT_COUNT {
            return 0;
        }
        let prev = self.equipped[slot_index].item_id;
        self.equipped[slot_index] = InvSlot { item_id, count: 1 };
        prev
    }

    /// Unequip an item from a slot. Returns the item_id (0 if empty or out of range).
    pub fn unequip(&mut self, slot_index: usize) -> (prev: u32)
        ensures
            final(self).backpack == old(self).backpack,
            final(self).bags == old(self).bags,
            final(self).bank == old(self).bank,
            slot_index >= 18 ==> prev == 0 && final(self).equipped == old(self).equipped,
            slot_index < 18 ==> prev == old(self).equipped@[slot_index as int].item_id
                && final(self).equipped@ == old(self).equipped@.update(slot_index as int, empty_slot()),
    {
        if slot_index >= EQUIP_SLOT_COUNT {
            return 0;
        }
        let prev = self.equipped[slot_index].item_id;
        self.equipped[slot_index] = InvSlot::default();
        prev
    }

    /// Get the equipped item in a slot.
    pub fn equipped_item(&self, slot_index: usize) -> (r: Option<u32>)
        ensures
            slot_index >= 18 ==> r is None,
            slot_index < 18 ==> r == if self.equipped@[slot_index as int].item_id == 0 {
                None
            } else {
                Some(self.equipped@[slot_index as int].item_id)
            },
    {
        if slot_index >= EQUIP_SLOT_COUNT {
            return None;
        }
        let s = self.equipped[slot_index];
        if s.is_empty() {
            None
        } else {
            Some(s.item_id)
        }
    }

    /// Total free slots across backpack and bags.
    pub fn free_slots(&self) -> (r: usize)
        requires
            inventory_free(*self) <= usize::MAX,
        ensures
            r == inventory_free(*self),
    {
        let a = self.backpack.free_count();
        let b = self.bags[0].free_count();
        let c = self.bags[1].free_count();
        let d = self.bags[2].free_count();
        let e = self.bags[3].free_count();
        a + b + c + d + e
    }
}

/// Equipping then unequipping a slot gives back the item that was equipped and
/// leaves the slot empty.
pub proof fn lemma_equip_then_unequip(before: Inventory, slot_index: usize, item_id: u32)
    requires
        slot_index < 18,
    ensures
        before.equipped@.update(slot_index as int, InvSlot { item_id, count: 1 })[slot_index as int].item_id
            == item_id,
        before.equipped@.update(slot_index as int, InvSlot { item_id, count: 1 }).update(
            slot_index as int,
            empty_slot(),
        ) == before.equipped@.update(slot_index as int, empty_slot()),
{
    assert(before.equipped@.update(slot_index as int, InvSlot { item_id, count: 1 }).update(
        slot_index as int,
        empty_slot(),
    ) =~= before.equipped@.update(slot_index as int, empty_slot()));
}

} // verus!
