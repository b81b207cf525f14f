//! Resolve skill effects against entities with [`Health`].

use vstd::prelude::*;

use hecs::{Entity, World};

use crate::ecs::components::Health;
use crate::ecs::world::{
    entity_debug, entity_debug_view, health_of, same_entity, set_health, world_backpacks,
    world_health, world_player_order,
};
use crate::skills::defs::{lemma_first_negative_range, skill_def_error, EffectOp, EffectStep, EffectTarget, SkillDef};
use crate::text::concat;

verus! {

/// Hit points after one effect step: damage floors at zero, healing caps at `max`.
pub open spec fn step_health(step: EffectStep, h: Health) -> Health {
    match step.op {
        EffectOp::DealDamage => Health {
            current: if h.current - step.amount > 0 { (h.current - step.amount) as i32 } else { 0 },
            max: h.max,
        },
        EffectOp::Heal => Health {
            current: if h.current + step.amount < h.max {
                (h.current + step.amount) as i32
            } else {
                h.max
            },
            max: h.max,
        },
    }
}

/// Whether the step's arithmetic leaves `i32` (where the game would panic).
pub open spec fn step_overflows(step: EffectStep, h: Health) -> bool {
    match step.op {
        EffectOp::DealDamage => !(i32::MIN <= h.current - step.amount <= i32::MAX),
        EffectOp::Heal => !(i32::MIN <= h.current + step.amount <= i32::MAX),
    }
}

/// The entity a step aims at.
pub open spec fn step_target(step: EffectStep, caster: Entity, opponent: Entity) -> Entity {
    match step.target {
        EffectTarget::Caster => caster,
        EffectTarget::Opponent => opponent,
    }
}

/// How applying steps ends: all applied (with the resulting hit points), stopped at a target
/// without `Health` (with the hit points so far), or arithmetic overflow.
pub enum SkillOutcome {
    Applied(Map<Entity, Health>),
    NoHealth(Map<Entity, Health>, Entity),
    Overflow,
}

/// Apply `steps` in order to hit points `m`.
pub open spec fn steps_outcome(
    steps: Seq<EffectStep>,
    caster: Entity,
    opponent: Entity,
    m: Map<Entity, Health>,
) -> SkillOutcome
    decreases steps.len(),
{
    if steps.len() == 0 {
        SkillOutcome::Applied(m)
    } else {
        match steps_outcome(steps.drop_last(), caster, opponent, m) {
            SkillOutcome::Applied(m2) => {
                let st = steps.last();
                let t = step_target(st, caster, opponent);
                if !m2.contains_key(t) {
                    SkillOutcome::NoHealth(m2, t)
                } else if step_overflows(st, m2[t]) {
                    SkillOutcome::Overflow
                } else {
                    SkillOutcome::Applied(m2.insert(t, step_health(st, m2[t])))
                }
            },
            other => other,
        }
    }
}

/// Every entity's hit points lie in `0..=max`.
pub open spec fn health_valid(m: Map<Entity, Health>) -> bool {
    forall|e: Entity| #[trigger] m.contains_key(e) ==> 0 <= m[e].current <= m[e].max
}

/// Skills keep hit points in range: with no negative effect amount (what a valid skill
/// definition has), applying steps to hit points that lie in `0..=max` leaves every entity's
/// hit points in `0..=max`, however the application ends.
pub proof fn law_hit_points_stay_in_range(
    steps: Seq<EffectStep>,
    caster: Entity,
    opponent: Entity,
    m: Map<Entity, Health>,
)
    requires
        health_valid(m),
        forall|i: int| 0 <= i < steps.len() ==> (#[trigger] steps[i]).amount >= 0,
    ensures
        match steps_outcome(steps, caster, opponent, m) {
            SkillOutcome::Applied(m2) => health_valid(m2),
            SkillOutcome::NoHealth(m2, _) => health_valid(m2),
            SkillOutcome::Overflow => true,
        },
    decreases steps.len(),
{
    if steps.len() > 0 {
        let init = steps.drop_last();
        assert forall|i: int| 0 <= i < init.len() implies (#[trigger] init[i]).amount >= 0 by {
            assert(init[i] == steps[i]);
        }
        law_hit_points_stay_in_range(init, caster, opponent, m);
        assert(steps.last() == steps[steps.len() - 1]);
        if let SkillOutcome::Applied(m2) = steps_outcome(init, caster, opponent, m) {
            let st = steps.last();
            let t = step_target(st, caster, opponent);
            if m2.contains_key(t) && !step_overflows(st, m2[t]) {
                let m3 = m2.insert(t, step_health(st, m2[t]));
                assert forall|e: Entity| #[trigger] m3.contains_key(e) implies 0 <= m3[e].current <= m3[e].max by {
                    if e != t {
                        assert(m2.contains_key(e));
                    }
                }
            }
        }
    }
}

/// A skill definition that passes validation keeps hit points in range when applied (see
/// [`law_hit_points_stay_in_range`]).
pub proof fn law_valid_skill_keeps_hit_points_in_range(
    skill: SkillDef,
    id: Seq<char>,
    path: Seq<char>,
    caster: Entity,
    opponent: Entity,
    m: Map<Entity, Health>,
)
    requires
        skill_def_error(skill, id, path) is None,
        health_valid(m),
    ensures
        match steps_outcome(skill.effects@, caster, opponent, m) {
            SkillOutcome::Applied(m2) => health_valid(m2),
            SkillOutcome::NoHealth(m2, _) => health_valid(m2),
            SkillOutcome::Overflow => true,
        },
{
    lemma_first_negative_range(skill.effects@, 0);
    law_hit_points_stay_in_range(skill.effects@, caster, opponent, m);
}

/// The message for a target without `Health`.
pub open spec fn no_health_text(e: Entity) -> Seq<char> {
    "skills: entity "@ + entity_debug_view(e) + " has no Health"@
}

/// Apply one step to its target. Fails, changing nothing, if the target has no `Health`.
fn apply_effect_step(step: &EffectStep, world: &mut World, caster: Entity, opponent: Entity) -> (r:
    Result<(), String>)
    requires
        world_health(*old(world)).contains_key(step_target(*step, caster, opponent)) ==> !step_overflows(
            *step,
            world_health(*old(world))[step_target(*step, caster, opponent)],
        ),
    ensures
        ({
            let t = step_target(*step, caster, opponent);
            let m = world_health(*old(world));
            if m.contains_key(t) {
                r is Ok && world_health(*final(world)) == m.insert(t, step_health(*step, m[t]))
            } else {
                (r matches Err(msg) && msg@ == no_health_text(t)) && world_health(*final(world)) == m
            }
        }),
        world_backpacks(*final(world)) == world_backpacks(*old(world)),
        world_player_order(*final(world)) == world_player_order(*old(world)),
{
    let target = match step.target {
        EffectTarget::Caster => caster,
        EffectTarget::Opponent => opponent,
    };
    let h = match health_of(world, target) {
        Some(h) => h,
        None => {
            let d = entity_debug(target);
            let a = concat("skills: entity ", d.as_str());
            return Err(concat(a.as_str(), " has no Health"));
        },
    };
    let current = match step.op {
        EffectOp::DealDamage => {
            let c = h.current - step.amount;
            if c > 0 { c } else { 0 }
        },
        EffectOp::Heal => {
            let c = h.current + step.amount;
            if c < h.max { c } else { h.max }
        },
    };
    set_health(world, target, Health { current, max: h.max });
    Ok(())
}

/// Apply every effect of `skill`, in order, to `caster` / `opponent`. Fails at the first step
/// whose target has no `Health`; the steps before it stay applied.
pub fn apply_skill(skill: &SkillDef, world: &mut World, caster: Entity, opponent: Entity) -> (r: Result<
    (),
    String,
>)
    requires
        !(steps_outcome(skill.effects@, caster, opponent, world_health(*old(world))) is Overflow),
    ensures
        match steps_outcome(skill.effects@, caster, opponent, world_health(*old(world))) {
            SkillOutcome::Applied(m) => r is Ok && world_health(*final(world)) == m,
            SkillOutcome::NoHealth(m, t) => (r matches Err(msg) && msg@ == no_health_text(t))
                && world_health(*final(world)) == m,
            SkillOutcome::Overflow => false,
        },
        world_backpacks(*final(world)) == world_backpacks(*old(world)),
        world_player_order(*final(world)) == world_player_order(*old(world)),
{
    let ghost steps = skill.effects@;
    let ghost m0 = world_health(*world);
    let mut i: usize = 0;
    while i < skill.effects.len()
        invariant
            i <= skill.effects.len(),
            steps == skill.effects@,
            m0 == world_health(*old(world)),
            !(steps_outcome(steps, caster, opponent, m0) is Overflow),
            steps_outcome(steps.take(i as int), caster, opponent, m0) == SkillOutcome::Applied(
                world_health(*world),
            ),
            world_backpacks(*world) == world_backpacks(*old(world)),
            world_player_order(*world) == world_player_order(*old(world)),
        decreases skill.effects.len() - i,
    {
        proof {
            assert(steps.take(i + 1).drop_last() =~= steps.take(i as int));
            assert(steps.take(i + 1).last() == steps[i as int]);
            lemma_outcome_prefix(steps, caster, opponent, m0, i + 1);
        }
        let ghost before = world_health(*world);
        let r = apply_effect_step(&skill.effects[i], world, caster, opponent);
        if r.is_err() {
            proof {
                lemma_outcome_stuck(steps, caster, opponent, m0, i + 1);
            }
            return r;
        }
        i = i + 1;
    }
    assert(steps.take(i as int) =~= steps);
    Ok(())
}

/// An outcome that is not `Applied` for a prefix stays the same for the whole sequence.
proof fn lemma_outcome_stuck(
    steps: Seq<EffectStep>,
    caster: Entity,
    opponent: Entity,
    m: Map<Entity, Health>,
    n: int,
)
    requires
        0 <= n <= steps.len(),
        !(steps_outcome(steps.take(n), caster, opponent, m) is Applied),
    ensures
        steps_outcome(steps, caster, opponent, m) == steps_outcome(steps.take(n), caster, opponent, m),
    decreases steps.len() - n,
{
    if n < steps.len() {
        assert(steps.take(n + 1).drop_last() =~= steps.take(n));
        lemma_outcome_stuck(steps, caster, opponent, m, n + 1);
    } else {
        assert(steps.take(n) =~= steps);
    }
}

/// If the whole sequence does not overflow, no prefix does.
proof fn lemma_outcome_prefix(
    steps: Seq<EffectStep>,
    caster: Entity,
    opponent: Entity,
    m: Map<Entity, Health>,
    n: int,
)
    requires
        0 <= n <= steps.len(),
        !(steps_outcome(steps, caster, opponent, m) is Overflow),
    ensures
        !(steps_outcome(steps.take(n), caster, opponent, m) is Overflow),
{
    if steps_outcome(steps.take(n), caster, opponent, m) is Overflow {
        lemma_outcome_stuck(steps, caster, opponent, m, n);
    }
}

fn step_fits(step: &EffectStep, h: Health) -> (r: bool)
    ensures
        r == !step_overflows(*step, h),
{
    match step.op {
        EffectOp::DealDamage => h.current.checked_sub(step.amount).is_some(),
        EffectOp::Heal => h.current.checked_add(step.amount).is_some(),
    }
}

fn step_apply(step: &EffectStep, h: Health) -> (r: Health)
    requires
        !step_overflows(*step, h),
    ensures
        r == step_health(*step, h),
{
    let current = match step.op {
        EffectOp::DealDamage => {
            let c = h.current - step.amount;
            if c > 0 { c } else { 0 }
        },
        EffectOp::Heal => {
            let c = h.current + step.amount;
            if c < h.max { c } else { h.max }
        },
    };
    Health { current, max: h.max }
}

/// Whether applying `skill` from `caster` to `opponent` keeps its hit-point arithmetic in
/// `i32` (so that [`apply_skill`] may be called).
pub fn skill_fits(skill: &SkillDef, world: &World, caster: Entity, opponent: Entity) -> (r: bool)
    ensures
        r == !(steps_outcome(skill.effects@, caster, opponent, world_health(*world)) is Overflow),
{
    let ghost steps = skill.effects@;
    let ghost m0 = world_health(*world);
    let same = same_entity(caster, opponent);
    let mut hc = health_of(world, caster);
    let mut ho = if same {
        None
    } else {
        health_of(world, opponent)
    };
    let mut i: usize = 0;
    while i < skill.effects.len()
        invariant
            i <= skill.effects.len(),
            steps == skill.effects@,
            m0 == world_health(*world),
            same == (caster == opponent),
            same ==> ho is None,
            steps_outcome(steps.take(i as int), caster, opponent, m0) matches SkillOutcome::Applied(m)
                && (m.contains_key(caster) <==> hc is Some) && (hc matches Some(h) ==> m[caster] == h)
                && (!same ==> ((m.contains_key(opponent) <==> ho is Some) && (ho matches Some(h)
                ==> m[opponent] == h))),
        decreases skill.effects.len() - i,
    {
        proof {
            assert(steps.take(i + 1).drop_last() =~= steps.take(i as int));
            assert(steps.take(i + 1).last() == steps[i as int]);
        }
        let step = &skill.effects[i];
        let to_caster = match step.target {
            EffectTarget::Caster => true,
            EffectTarget::Opponent => same,
        };
        let h = if to_caster { hc } else { ho };
        let h = match h {
            Some(h) => h,
            None => {
                proof {
                    lemma_outcome_stuck(steps, caster, opponent, m0, i + 1);
                }
                return true;
            },
        };
        if !step_fits(step, h) {
            proof {
                lemma_outcome_stuck(steps, caster, opponent, m0, i + 1);
            }
            return false;
        }
        let h2 = step_apply(step, h);
        if to_caster {
            hc = Some(h2);
        } else {
            ho = Some(h2);
        }
        i = i + 1;
    }
    assert(steps.take(i as int) =~= steps);
    true
}

} // verus!
