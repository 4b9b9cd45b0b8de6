//! Spell data shared by client and server: resource types, targeting,
//! and the order in which a cast attempt is checked.
//!
//! Cast times, ranges, costs and cooldowns are floating-point quantities;
//! they are compared against their limits by the caller, and the resulting
//! facts decide the outcome here.
use vstd::prelude::*;

verus! {

/// Resource type consumed by a spell.
#[derive(Debug, Clone, Copy, PartialEq, Eq, Structural)]
pub enum ResourceType {
    Mana,
    Rage,
    Energy,
    ComboPoints,
    HolyPower,
    RunicPower,
    Focus,
}

/// Whether a spell targets the caster, a friendly, or an enemy.
#[derive(Debug, Clone, Copy, PartialEq, Eq, Structural)]
pub enum SpellTarget {
    /// Targets self (buffs, self-heals).
    Self_,
    /// Targets a friendly unit (heals, buffs).
    Friendly,
    /// Targets a hostile unit (damage, debuffs).
    Hostile,
}

/// Why a spell cast was rejected.
#[derive(Debug, Clone, Copy, PartialEq, Eq, Structural)]
pub enum CastFailReason {
    /// No target selected (for targeted spells).
    NoTarget,
    /// Target is out of range.
    OutOfRange,
    /// Target is not valid for this spell (hostile vs friendly mismatch).
    InvalidTarget,
    /// Not enough resource (mana, rage, energy, etc.).
    NotEnoughResource,
    /// Spell is on cooldown.
    OnCooldown,
    /// Global cooldown is active.
    OnGlobalCooldown,
    /// Caster is dead.
    CasterDead,
    /// Caster is moving and the spell requires standing still.
    CantCastWhileMoving,
}

/// The facts a cast attempt is judged on.
#[derive(Debug, Clone, Copy, PartialEq, Eq, Structural)]
pub struct CastChecks {
    /// Whether the caster is alive.
    pub caster_alive: bool,
    /// Whether the global cooldown is still running.
    pub gcd_active: bool,
    /// Whether the caster is currently moving.
    pub caster_moving: bool,
    /// Whether the spell is instant (no cast time).
    pub spell_instant: bool,
    /// Whether the spell can be cast while moving.
    pub cast_while_moving: bool,
    /// Whether a target entity exists.
    pub has_target: bool,
    /// Whether the target is friendly to the caster.
    pub target_is_friendly: bool,
    /// Whether the target is within the spell's range (melee range for range 0).
    pub in_range: bool,
    /// Whether the caster can pay the spell's cost (always, for a free spell).
    pub can_pay: bool,
    /// Whether the spell's own cooldown is still running.
    pub on_cooldown: bool,
}

/// The first failed check, in the order: caster alive, GCD ready, moving,
/// target exists, target kind, range (these three for non-self spells),
/// cost, cooldown.
pub open spec fn first_cast_failure(target: SpellTarget, c: CastChecks) -> Option<CastFailReason> {
    if !c.caster_alive {
        Some(CastFailReason::CasterDead)
    } else if c.gcd_active {
        Some(CastFailReason::OnGlobalCooldown)
    } else if c.caster_moving && !c.spell_instant && !c.cast_while_moving {
        Some(CastFailReason::CantCastWhileMoving)
    } else if target != SpellTarget::Self_ && !c.has_target {
        Some(CastFailReason::NoTarget)
    } else if (target == SpellTarget::Hostile && c.target_is_friendly) || (target
        == SpellTarget::Friendly && !c.target_is_friendly) {
        Some(CastFailReason::InvalidTarget)
    } else if target != SpellTarget::Self_ && !c.in_range {
        Some(CastFailReason::OutOfRange)
    } else if !c.can_pay {
        Some(CastFailReason::NotEnoughResource)
    } else if c.on_cooldown {
        Some(CastFailReason::OnCooldown)
    } else {
        None
    }
}

/// A cast is refused only for a reason that really holds, and allowed only
/// when every check passes: a dead caster, a running GCD or cooldown, moving
/// while casting a non-instant spell that cannot be cast on the move, a
/// missing, wrong-kind or out-of-range target of a non-self spell, or a cost
/// the caster cannot pay.
pub proof fn lemma_cast_failure_justified(target: SpellTarget, c: CastChecks)
    ensures
        first_cast_failure(target, c) is None <==> (c.caster_alive && !c.gcd_active && !(
        c.caster_moving && !c.spell_instant && !c.cast_while_moving) && (target
            != SpellTarget::Self_ ==> c.has_target && c.in_range) && (target == SpellTarget::Hostile
            ==> !c.target_is_friendly) && (target == SpellTarget::Friendly ==> c.target_is_friendly)
            && c.can_pay && !c.on_cooldown),
        first_cast_failure(target, c) == Some(CastFailReason::CasterDead) ==> !c.caster_alive,
        first_cast_failure(target, c) == Some(CastFailReason::OnGlobalCooldown) ==> c.gcd_active,
        first_cast_failure(target, c) == Some(CastFailReason::CantCastWhileMoving) ==> c.caster_moving
            && !c.spell_instant && !c.cast_while_moving,
        first_cast_failure(target, c) == Some(CastFailReason::NoTarget) ==> target
            != SpellTarget::Self_ && !c.has_target,
        first_cast_failure(target, c) == Some(CastFailReason::InvalidTarget) ==> (target
            == SpellTarget::Hostile && c.target_is_friendly) || (target == SpellTarget::Friendly
            && !c.target_is_friendly),
        first_cast_failure(target, c) == Some(CastFailReason::OutOfRange) ==> target
            != SpellTarget::Self_ && !c.in_range,
        first_cast_failure(target, c) == Some(CastFailReason::NotEnoughResource) ==> !c.can_pay,
        first_cast_failure(target, c) == Some(CastFailReason::OnCooldown) ==> c.on_cooldown,
{
}

/// Validate whether a spell can be cast. Returns `Ok(())` or the first
/// failure reason.
///
/// Checks in order (matching WoW priority):
/// 1. Caster alive
/// 2. GCD ready
/// 3. Moving check (non-instant, non-cast-while-moving)
/// 4. Target exists (for non-self spells)
/// 5. Target validity (hostile/friendly match)
/// 6. Range
/// 7. Resource cost
/// 8. Cooldown
///
/// Ref: AzerothCore `Spell::CheckCast()`.
pub fn check_cast(target: SpellTarget, checks: &CastChecks) -> (r: Result<(), CastFailReason>)
    ensures
        match first_cast_failure(target, *checks) {
            Some(reason) => r == Err::<(), CastFailReason>(reason),
            None => r is Ok,
        },
{
    if !checks.caster_alive {
        return Err(CastFailReason::CasterDead);
    }
    if checks.gcd_active {
        return Err(CastFailReason::OnGlobalCooldown);
    }
    if checks.caster_moving && !checks.spell_instant && !checks.cast_while_moving {
        return Err(CastFailReason::CantCastWhileMoving);
    }
    if target != SpellTarget::Self_ {
        if !checks.has_target {
            return Err(CastFailReason::NoTarget);
        }
        let target_ok = match target {
            SpellTarget::Hostile => !checks.target_is_friendly,
            SpellTarget::Friendly => checks.target_is_friendly,
            SpellTarget::Self_ => true,
        };
        if !target_ok {
            return Err(CastFailReason::InvalidTarget);
        }
        if !checks.in_range {
            return Err(CastFailReason::OutOfRange);
        }
    }
    if !checks.can_pay {
        return Err(CastFailReason::NotEnoughResource);
    }
    if checks.on_cooldown {
        return Err(CastFailReason::OnCooldown);
    }
    Ok(())
}

/// A dead caster is always refused as dead, whatever else holds.
pub proof fn lemma_dead_caster_reported_first(target: SpellTarget, c: CastChecks)
    requires
        !c.caster_alive,
    ensures
        first_cast_failure(target, c) == Some(CastFailReason::CasterDead),
{
}

/// A self-cast never fails on targeting or range.
pub proof fn lemma_self_cast_ignores_target(c: CastChecks)
    ensures
        first_cast_failure(SpellTarget::Self_, c) != Some(CastFailReason::NoTarget),
        first_cast_failure(SpellTarget::Self_, c) != Some(CastFailReason::InvalidTarget),
        first_cast_failure(SpellTarget::Self_, c) != Some(CastFailReason::OutOfRange),
{
}

} // verus!
