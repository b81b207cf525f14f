//! Skill definitions (from `assets/skills/{id}.skill/config.json`) and the checks a loaded
//! definition must pass.

use vstd::prelude::*;

use crate::text::{concat, debug_str, debug_str_view};

verus! {

/// Top-level category: permanent (e.g. weapon, passive) vs usable (consumable with charges).
#[derive(PartialEq, Eq, Structural, Clone, Copy, Debug)]
pub enum SkillCategory {
    Permanent,
    Usable,
}

/// What an effect step does to its target's hit points.
#[derive(PartialEq, Eq, Structural, Clone, Copy, Debug)]
pub enum EffectOp {
    DealDamage,
    Heal,
}

/// Who receives an effect step.
#[derive(PartialEq, Eq, Structural, Clone, Copy, Debug)]
pub enum EffectTarget {
    Caster,
    Opponent,
}

/// One step of a skill: an operation, a target, and an amount.
#[derive(PartialEq, Eq, Structural, Clone, Copy, Debug)]
pub struct EffectStep {
    pub op: EffectOp,
    pub target: EffectTarget,
    pub amount: i32,
}

/// A skill definition.
#[derive(Clone, Debug)]
pub struct SkillDef {
    pub id: String,
    pub name: String,
    pub category: SkillCategory,
    pub subcategory: String,
    /// Initial charges when granting this usable skill (only meaningful for `Usable`).
    pub charges_default: Option<u32>,
    pub effects: Vec<EffectStep>,
}

/// The name `{:?}` prints for an effect operation.
pub open spec fn effect_op_text(op: EffectOp) -> Seq<char> {
    match op {
        EffectOp::DealDamage => "DealDamage"@,
        EffectOp::Heal => "Heal"@,
    }
}

/// Index of the first step at or after `i` with a negative amount.
pub open spec fn first_negative_from(steps: Seq<EffectStep>, i: int) -> Option<int>
    decreases steps.len() - i,
{
    if i < 0 || i >= steps.len() {
        None
    } else if steps[i].amount < 0 {
        Some(i)
    } else {
        first_negative_from(steps, i + 1)
    }
}

pub proof fn lemma_first_negative_range(steps: Seq<EffectStep>, i: int)
    ensures
        first_negative_from(steps, i) matches Some(j) ==> 0 <= i <= j < steps.len() && steps[j].amount
            < 0,
        first_negative_from(steps, i) is None ==> forall|k: int|
            0 <= i <= k < steps.len() ==> steps[k].amount >= 0,
    decreases steps.len() - i,
{
    if 0 <= i < steps.len() && steps[i].amount >= 0 {
        lemma_first_negative_range(steps, i + 1);
    }
}

/// The message for the first rule that definition `d`, loaded as `id` from the file shown as
/// `path`, breaks; `None` when it is acceptable.
pub open spec fn skill_def_error(d: SkillDef, id: Seq<char>, path: Seq<char>) -> Option<Seq<char>> {
    if d.id@ != id {
        Some("skills: file "@ + path + " has id "@ + debug_str_view(d.id@) + ", expected "@
            + debug_str_view(id))
    } else if d.effects@.len() == 0 {
        Some("skills: "@ + id + " has no effects"@)
    } else {
        match first_negative_from(d.effects@, 0) {
            Some(i) => Some("skills: "@ + id + " effect "@ + effect_op_text(d.effects@[i].op)
                + " has negative amount"@),
            None => if d.category == SkillCategory::Usable && (d.charges_default is None
                || d.charges_default == Some(0u32)) {
                Some("skills: usable "@ + id + " must set charges_default > 0"@)
            } else {
                None
            },
        }
    }
}

impl SkillDef {
    /// Check a definition read from the file shown as `path` for skill `id`: the id must
    /// match, there must be effects, no amount may be negative, and a usable skill needs
    /// positive default charges.
    pub fn validate(&self, id: &str, path: &str) -> (r: Result<(), String>)
        ensures
            match r {
                Ok(()) => skill_def_error(*self, id@, path@) is None,
                Err(m) => skill_def_error(*self, id@, path@) == Some(m@),
            },
    {
        if !crate::text::str_eq(self.id.as_str(), id) {
            let a = concat("skills: file ", path);
            let b = concat(a.as_str(), " has id ");
            let q = debug_str(self.id.as_str());
            let c = concat(b.as_str(), q.as_str());
            let d = concat(c.as_str(), ", expected ");
            let q2 = debug_str(id);
            return Err(concat(d.as_str(), q2.as_str()));
        }
        if self.effects.len() == 0 {
            let a = concat("skills: ", id);
            return Err(concat(a.as_str(), " has no effects"));
        }
        proof {
            lemma_first_negative_range(self.effects@, 0);
        }
        let mut i: usize = 0;
        while i < self.effects.len()
            invariant
                i <= self.effects.len(),
                first_negative_from(self.effects@, 0) == first_negative_from(self.effects@, i as int),
                self.id@ == id@,
                self.effects@.len() > 0,
            decreases self.effects.len() - i,
        {
            if self.effects[i].amount < 0 {
                let op: &str = match self.effects[i].op {
                    EffectOp::DealDamage => "DealDamage",
                    EffectOp::Heal => "Heal",
                };
                assert(first_negative_from(self.effects@, i as int) == Some(i as int));
                assert(op@ == effect_op_text(self.effects@[i as int].op));
                let a = concat("skills: ", id);
                let b = concat(a.as_str(), " effect ");
                let c = concat(b.as_str(), op);
                return Err(concat(c.as_str(), " has negative amount"));
            }
            i = i + 1;
        }
        let missing = match self.charges_default {
            None => true,
            Some(c) => c == 0,
        };
        if self.category == SkillCategory::Usable && missing {
            let a = concat("skills: usable ", id);
            return Err(concat(a.as_str(), " must set charges_default > 0"));
        }
        Ok(())
    }
}

} // verus!
