//! Partition permanent skills into weapons vs passives and keep the equipped weapon
//! consistent with them.

use vstd::prelude::*;

use crate::ecs::components::{Backpack, BackpackView};
use crate::skills::registry::SkillRegistry;
use crate::state::world::opt_view;
use crate::text::{list_position, names, owned, str_eq};

verus! {

/// The least non-negative remainder of `x` modulo `n` (what `i32::rem_euclid` gives).
fn wrap_index(x: i32, n: i32) -> (r: i32)
    requires
        n > 0,
    ensures
        r == x % n,
        0 <= r < n,
{
    if x >= 0 {
        ((x as u32) % (n as u32)) as i32
    } else {
        let m: u32 = (-(x + 1)) as u32;
        let k: u32 = m % (n as u32);
        let r: i32 = (n as u32 - 1 - k) as i32;
        proof {
            let mi = m as int;
            let ni = n as int;
            let q = mi / ni;
            vstd::arithmetic::div_mod::lemma_fundamental_div_mod(mi, ni);
            assert(x as int == (-q - 1) * ni + (ni - 1 - k as int)) by (nonlinear_arith)
                requires
                    mi == ni * q + k as int,
                    x as int == -(mi + 1),
            ;
            vstd::arithmetic::div_mod::lemma_fundamental_div_mod_converse(
                x as int,
                ni,
                -q - 1,
                ni - 1 - k as int,
            );
        }
        r
    }
}

/// Whether `id` names a registered skill whose subcategory is `weapon`.
pub open spec fn is_weapon(reg: SkillRegistry, id: Seq<char>) -> bool {
    match reg.lookup(id) {
        Some(d) => d.subcategory@ == "weapon"@,
        None => false,
    }
}

/// The weapon test as a predicate.
pub open spec fn weapon_pred(reg: SkillRegistry) -> spec_fn(Seq<char>) -> bool {
    |id: Seq<char>| is_weapon(reg, id)
}

/// The non-weapon test as a predicate.
pub open spec fn passive_pred(reg: SkillRegistry) -> spec_fn(Seq<char>) -> bool {
    |id: Seq<char>| !is_weapon(reg, id)
}

/// Permanent skill ids that are weapons, in backpack order.
pub open spec fn weapons_of(b: BackpackView, reg: SkillRegistry) -> Seq<Seq<char>> {
    b.permanent.filter(weapon_pred(reg))
}

/// Permanent skill ids that are not weapons, in backpack order.
pub open spec fn passives_of(b: BackpackView, reg: SkillRegistry) -> Seq<Seq<char>> {
    b.permanent.filter(passive_pred(reg))
}

/// The equipped weapon after normalising: none without weapons; the equipped one if it is
/// a weapon of the backpack; else the first weapon.
pub open spec fn normalized_equipped(b: BackpackView, reg: SkillRegistry) -> Option<Seq<char>> {
    let ws = weapons_of(b, reg);
    if ws.len() == 0 {
        None
    } else {
        match b.equipped {
            Some(id) => if ws.contains(id) {
                Some(id)
            } else {
                Some(ws[0])
            },
            None => Some(ws[0]),
        }
    }
}

/// The game's `i32` arithmetic when cycling stays in range: the weapon count fits, and so
/// does the current position plus `delta`.
pub open spec fn cycle_in_range(b: BackpackView, reg: SkillRegistry, delta: i32) -> bool {
    &&& b.permanent.len() <= i32::MAX
    &&& weapons_of(b, reg).len() >= 2 ==> equipped_index(b, reg) + delta <= i32::MAX
}

/// Index of the first occurrence of `x` at or after `i`.
pub open spec fn first_index_from(s: Seq<Seq<char>>, x: Seq<char>, i: int) -> int
    decreases s.len() - i,
{
    if i < 0 || i >= s.len() {
        -1
    } else if s[i] == x {
        i
    } else {
        first_index_from(s, x, i + 1)
    }
}

/// Position of the (normalised) equipped weapon among the weapons.
pub open spec fn equipped_index(b: BackpackView, reg: SkillRegistry) -> int {
    match normalized_equipped(b, reg) {
        Some(id) => first_index_from(weapons_of(b, reg), id, 0),
        None => 0,
    }
}

/// The equipped weapon after cycling by `delta` (+1 / -1): unchanged with fewer than two
/// weapons, else the weapon `delta` places after the (normalised) current one, wrapping
/// around.
pub open spec fn cycled_equipped(b: BackpackView, reg: SkillRegistry, delta: i32) -> Option<Seq<char>> {
    let ws = weapons_of(b, reg);
    if ws.len() < 2 {
        b.equipped
    } else {
        Some(ws[(equipped_index(b, reg) + delta) % (ws.len() as int)])
    }
}

proof fn lemma_filter_step(s: Seq<Seq<char>>, p: spec_fn(Seq<char>) -> bool, i: int)
    requires
        0 <= i < s.len(),
    ensures
        s.take(i + 1).filter(p) == if p(s[i]) {
            s.take(i).filter(p).push(s[i])
        } else {
            s.take(i).filter(p)
        },
{
    reveal(Seq::filter);
    assert(s.take(i + 1).drop_last() =~= s.take(i));
    assert(s.take(i + 1).last() == s[i]);
}

pub proof fn lemma_first_index(s: Seq<Seq<char>>, x: Seq<char>, i: int)
    requires
        0 <= i,
    ensures
        first_index_from(s, x, i) == -1 || (i <= first_index_from(s, x, i) < s.len() && s[first_index_from(s, x, i)] == x),
        (exists|k: int| i <= k < s.len() && s[k] == x) ==> first_index_from(s, x, i) != -1,
    decreases s.len() - i,
{
    if i < s.len() && s[i] != x {
        lemma_first_index(s, x, i + 1);
    }
}

/// Whether skill `id` is a registered weapon.
pub fn is_weapon_skill(registry: &SkillRegistry, id: &str) -> (r: bool)
    ensures
        r == is_weapon(*registry, id@),
{
    match registry.get(id) {
        Some(d) => str_eq(d.subcategory.as_str(), "weapon"),
        None => false,
    }
}

/// Permanent skill ids of the backpack that do (`weapons`) or do not satisfy the weapon test,
/// in order.
fn permanent_ids_where(backpack: &Backpack, registry: &SkillRegistry, weapons: bool) -> (r: Vec<String>)
    ensures
        names(r@) == names(backpack.permanent@).filter(
            if weapons {
                weapon_pred(*registry)
            } else {
                passive_pred(*registry)
            },
        ),
{
    let ghost p = if weapons {
        weapon_pred(*registry)
    } else {
        passive_pred(*registry)
    };
    let ghost s = names(backpack.permanent@);
    let mut r: Vec<String> = Vec::new();
    let mut i: usize = 0;
    while i < backpack.permanent.len()
        invariant
            i <= backpack.permanent.len(),
            s == names(backpack.permanent@),
            p == (if weapons {
                weapon_pred(*registry)
            } else {
                passive_pred(*registry)
            }),
            names(r@) == s.take(i as int).filter(p),
        decreases backpack.permanent.len() - i,
    {
        proof {
            lemma_filter_step(s, p, i as int);
        }
        let w = is_weapon_skill(registry, backpack.permanent[i].as_str());
        if w == weapons {
            let ghost r0 = r@;
            let o = owned(backpack.permanent[i].as_str());
            r.push(o);
            proof {
                crate::text::lemma_names_push(r0, o);
            }
        }
        i = i + 1;
    }
    assert(s.take(i as int) =~= s);
    r
}

/// Permanent skill ids that are weapons, in backpack order.
pub fn weapon_ids_in_order(backpack: &Backpack, registry: &SkillRegistry) -> (r: Vec<String>)
    ensures
        names(r@) == weapons_of(backpack@, *registry),
{
    permanent_ids_where(backpack, registry, true)
}

/// Permanent skill ids that are not weapons, in backpack order.
pub fn passive_ids_in_order(backpack: &Backpack, registry: &SkillRegistry) -> (r: Vec<String>)
    ensures
        names(r@) == passives_of(backpack@, *registry),
{
    permanent_ids_where(backpack, registry, false)
}

/// Clears the equipped weapon if there are no weapons; if it is missing or not a weapon of
/// the backpack, sets it to the first weapon in order.
pub fn normalize_equipped_weapon(backpack: &mut Backpack, registry: &SkillRegistry)
    ensures
        final(backpack).permanent == old(backpack).permanent,
        final(backpack).usable == old(backpack).usable,
        final(backpack)@ == (BackpackView {
            equipped: normalized_equipped(old(backpack)@, *registry),
            ..old(backpack)@
        }),
{
    let weapons = weapon_ids_in_order(backpack, registry);
    if weapons.len() == 0 {
        backpack.equipped_weapon_id = None;
        return;
    }
    let ok = match &backpack.equipped_weapon_id {
        Some(id) => {
            let p = list_position(&weapons, id.as_str());
            proof {
                if let Some(i) = p {
                    assert(names(weapons@)[i as int] == id@);
                }
            }
            p.is_some()
        },
        None => false,
    };
    if !ok {
        assert(names(weapons@)[0] == weapons@[0]@);
        backpack.equipped_weapon_id = Some(owned(weapons[0].as_str()));
    }
}

/// Cycle the equipped weapon by `delta` (+1 / -1), wrapping around, from the normalised
/// equipped weapon. A no-op with fewer than two weapons: the backpack is left as it is.
pub fn cycle_equipped_weapon_in_backpack(backpack: &mut Backpack, registry: &SkillRegistry, delta: i32)
    requires
        cycle_in_range(old(backpack)@, *registry, delta),
    ensures
        weapons_of(old(backpack)@, *registry).len() < 2 ==> *final(backpack) == *old(backpack),
        final(backpack).permanent == old(backpack).permanent,
        final(backpack).usable == old(backpack).usable,
        final(backpack)@ == (BackpackView {
            equipped: cycled_equipped(old(backpack)@, *registry, delta),
            ..old(backpack)@
        }),
{
    let ghost b0 = backpack@;
    let weapons = weapon_ids_in_order(backpack, registry);
    if weapons.len() < 2 {
        return;
    }
    normalize_equipped_weapon(backpack, registry);
    assert(weapons_of(backpack@, *registry) == weapons_of(b0, *registry));
    proof {
        names(backpack.permanent@).lemma_filter_len(weapon_pred(*registry));
    }
    assert(weapons@.len() <= backpack.permanent@.len());
    let n = weapons.len() as i32;
    let current: &str = match &backpack.equipped_weapon_id {
        Some(id) => id.as_str(),
        None => weapons[0].as_str(),
    };
    let pos = list_position(&weapons, current);
    let idx: i32 = match pos {
        Some(p) => p as i32,
        None => 0,
    };
    proof {
        let ws = names(weapons@);
        lemma_first_index(ws, current@, 0);
        assert(ws[0] == weapons@[0]@);
        assert(normalized_equipped(b0, *registry) == Some(current@));
        assert(ws.contains(current@));
        let k = choose|k: int| 0 <= k < ws.len() && ws[k] == current@;
        assert(weapons@[k]@ == current@);
        assert(pos is Some);
        let j = pos.unwrap();
        assert(ws[j as int] == current@);
        assert forall|t: int| 0 <= t < j implies ws[t] != current@ by {
            assert(ws[t] == weapons@[t]@);
        }
        lemma_first_index(ws, current@, 0);
        if first_index_from(ws, current@, 0) < j {
            let f = first_index_from(ws, current@, 0);
            assert(ws[f] == weapons@[f]@);
        }
        assert(first_index_from(ws, current@, 0) == j as int) by {
            lemma_first_index_exact(ws, current@, 0, j as int);
        }
    }
    let next = wrap_index(idx + delta, n) as usize;
    assert(names(weapons@)[next as int] == weapons@[next as int]@);
    backpack.equipped_weapon_id = Some(owned(weapons[next].as_str()));
}

proof fn lemma_first_index_exact(s: Seq<Seq<char>>, x: Seq<char>, i: int, j: int)
    requires
        0 <= i <= j < s.len(),
        s[j] == x,
        forall|t: int| i <= t < j ==> s[t] != x,
    ensures
        first_index_from(s, x, i) == j,
    decreases j - i,
{
    if i < j {
        lemma_first_index_exact(s, x, i + 1, j);
    }
}

proof fn lemma_partition_count(s: Seq<Seq<char>>, reg: SkillRegistry, m: int)
    requires
        0 <= m <= s.len(),
    ensures
        s.take(m).filter(weapon_pred(reg)).len() + s.take(m).filter(passive_pred(reg)).len() == m,
    decreases m,
{
    if m == 0 {
        assert(s.take(0) =~= Seq::<Seq<char>>::empty());
        reveal(Seq::filter);
    } else {
        lemma_partition_count(s, reg, m - 1);
        lemma_filter_step(s, weapon_pred(reg), m - 1);
        lemma_filter_step(s, passive_pred(reg), m - 1);
    }
}

proof fn lemma_filter_at(s: Seq<Seq<char>>, p: spec_fn(Seq<char>) -> bool, k: int)
    requires
        0 <= k < s.len(),
        p(s[k]),
    ensures
        s.take(k).filter(p).len() < s.filter(p).len(),
        s.filter(p)[s.take(k).filter(p).len() as int] == s[k],
{
    lemma_filter_step(s, p, k);
    assert(s =~= s.take(k + 1) + s.skip(k + 1));
    Seq::filter_distributes_over_add(s.take(k + 1), s.skip(k + 1), p);
    let a = s.take(k).filter(p);
    assert(s.take(k + 1).filter(p)[a.len() as int] == s[k]);
}

/// The weapons and the passives split the permanent skills: together they have as many
/// entries as there are permanent skills, each list holds only skills of its kind, and the
/// permanent skill at position `k` stands in its own list right after the skills of that
/// list that come before it in the backpack (so the backpack order is kept).
pub proof fn law_weapons_passives_partition(b: BackpackView, reg: SkillRegistry)
    ensures
        weapons_of(b, reg).len() + passives_of(b, reg).len() == b.permanent.len(),
        forall|i: int| 0 <= i < weapons_of(b, reg).len() ==> is_weapon(reg, #[trigger] weapons_of(b, reg)[i]),
        forall|i: int| 0 <= i < passives_of(b, reg).len() ==> !is_weapon(reg, #[trigger] passives_of(b, reg)[i]),
        forall|k: int| 0 <= k < b.permanent.len() ==> (if is_weapon(reg, #[trigger] b.permanent[k]) {
            weapons_of(b, reg)[b.permanent.take(k).filter(weapon_pred(reg)).len() as int] == b.permanent[k]
        } else {
            passives_of(b, reg)[b.permanent.take(k).filter(passive_pred(reg)).len() as int] == b.permanent[k]
        }),
{
    let s = b.permanent;
    lemma_partition_count(s, reg, s.len() as int);
    assert(s.take(s.len() as int) =~= s);
    assert forall|i: int| 0 <= i < weapons_of(b, reg).len() implies is_weapon(reg, #[trigger] weapons_of(b, reg)[i]) by {
        s.lemma_filter_pred(weapon_pred(reg), i);
    }
    assert forall|i: int| 0 <= i < passives_of(b, reg).len() implies !is_weapon(reg, #[trigger] passives_of(b, reg)[i]) by {
        s.lemma_filter_pred(passive_pred(reg), i);
    }
    assert forall|k: int| 0 <= k < s.len() implies (if is_weapon(reg, #[trigger] s[k]) {
        weapons_of(b, reg)[s.take(k).filter(weapon_pred(reg)).len() as int] == s[k]
    } else {
        passives_of(b, reg)[s.take(k).filter(passive_pred(reg)).len() as int] == s[k]
    }) by {
        if is_weapon(reg, s[k]) {
            lemma_filter_at(s, weapon_pred(reg), k);
        } else {
            lemma_filter_at(s, passive_pred(reg), k);
        }
    }
}

/// Cycling from an equipped weapon that sits at position `i` of the weapon list (its first
/// occurrence) lands on the weapon at position `i + delta`, wrapping around, when there are
/// two weapons or more; the permanent and usable skills are kept (see
/// [`cycle_equipped_weapon_in_backpack`]).
pub proof fn law_cycle_from_position(b: BackpackView, reg: SkillRegistry, delta: i32, i: int)
    requires
        weapons_of(b, reg).len() >= 2,
        0 <= i < weapons_of(b, reg).len(),
        b.equipped == Some(weapons_of(b, reg)[i]),
        forall|t: int| 0 <= t < i ==> weapons_of(b, reg)[t] != weapons_of(b, reg)[i],
    ensures
        cycled_equipped(b, reg, delta) == Some(
            weapons_of(b, reg)[(i + delta) % (weapons_of(b, reg).len() as int)],
        ),
{
    let ws = weapons_of(b, reg);
    assert(ws.contains(ws[i]));
    assert(normalized_equipped(b, reg) == Some(ws[i]));
    lemma_first_index_exact(ws, ws[i], 0, i);
}

/// Normalising the equipped weapon twice is normalising it once.
pub proof fn law_normalize_idempotent(b: BackpackView, reg: SkillRegistry)
    ensures
        normalized_equipped(BackpackView { equipped: normalized_equipped(b, reg), ..b }, reg)
            == normalized_equipped(b, reg),
{
    let b2 = BackpackView { equipped: normalized_equipped(b, reg), ..b };
    assert(weapons_of(b2, reg) == weapons_of(b, reg));
    let ws = weapons_of(b, reg);
    if ws.len() > 0 {
        assert(ws.contains(ws[0]));
    }
}

/// Cycling the equipped weapon forward and then back gives the equipped weapon again (the
/// normalised one with two weapons or more, the untouched one with fewer), when no weapon id
/// occurs twice in the backpack.
pub proof fn law_cycle_round_trip(b: BackpackView, reg: SkillRegistry)
    requires
        weapons_of(b, reg).no_duplicates(),
    ensures
        cycled_equipped(BackpackView { equipped: cycled_equipped(b, reg, 1i32), ..b }, reg, -1i32)
            == if weapons_of(b, reg).len() < 2 {
            b.equipped
        } else {
            normalized_equipped(b, reg)
        },
{
    let ws = weapons_of(b, reg);
    let b1 = BackpackView { equipped: cycled_equipped(b, reg, 1i32), ..b };
    assert(weapons_of(b1, reg) == ws);
    if ws.len() < 2 {
    } else {
        lemma_equipped_index_bounds(b, reg);
        let n = ws.len() as int;
        let i = equipped_index(b, reg);
        let id = normalized_equipped(b, reg).unwrap();
        assert(ws.contains(id)) by {
            if !(b.equipped == Some(id) && ws.contains(id)) {
                assert(id == ws[0]);
            }
        }
        lemma_first_index(ws, id, 0);
        assert(ws[i] == id);
        let j = (i + 1) % n;
        assert(0 <= j < n);
        assert(ws.contains(ws[j]));
        assert(normalized_equipped(b1, reg) == Some(ws[j]));
        assert forall|t: int| 0 <= t < j implies ws[t] != ws[j] by {}
        lemma_first_index_exact(ws, ws[j], 0, j);
        assert(equipped_index(b1, reg) == j);
        if i + 1 < n {
            vstd::arithmetic::div_mod::lemma_small_mod((i + 1) as nat, n as nat);
            vstd::arithmetic::div_mod::lemma_small_mod(i as nat, n as nat);
        } else {
            vstd::arithmetic::div_mod::lemma_mod_self_0(n);
            vstd::arithmetic::div_mod::lemma_fundamental_div_mod_converse(-1, n, -1, n - 1);
        }
        assert((j - 1) % n == i);
    }
}

/// The position of the normalised equipped weapon is a position among the weapons, and there
/// are no more weapons than permanent skills.
pub proof fn lemma_equipped_index_bounds(b: BackpackView, reg: SkillRegistry)
    ensures
        weapons_of(b, reg).len() <= b.permanent.len(),
        weapons_of(b, reg).len() > 0 ==> 0 <= equipped_index(b, reg) < weapons_of(b, reg).len(),
{
    b.permanent.lemma_filter_len(weapon_pred(reg));
    let ws = weapons_of(b, reg);
    if ws.len() > 0 {
        let n = normalized_equipped(b, reg);
        if let Some(id) = n {
            if b.equipped == Some(id) && ws.contains(id) {
            } else {
                assert(id == ws[0]);
            }
            assert(ws.contains(id));
            lemma_first_index(ws, id, 0);
        }
    }
}

} // verus!
