//! Symbolic knowledge layer: a list of (condition, action, strength) rules
//! and the sparse resonance field they induce over the action space.

use vstd::prelude::*;
use crate::fx::{fx_add, fx_add_spec};

verus! {

/// A knowledge rule: when `condition_id` is active, bias (or, for a strongly
/// negative strength, exclude) the action at `target_action`.
pub struct HamiltonianRule {
    pub condition_id: i32,
    pub target_action: usize,
    pub strength: i64,
}

/// The rule store.
pub struct Bootstrapper {
    pub rules: Vec<HamiltonianRule>,
}

/// The resonance contribution of the first `n` rules to action `a`:
/// `None` while no active rule names the action ("no knowledge" is distinct
/// from "strength zero"), otherwise the saturating sum of the strengths of
/// the active rules naming it, accumulated in rule order.
pub open spec fn resonance_at_spec(rules: Seq<HamiltonianRule>, conds: Seq<i32>, a: int, n: int) -> Option<i64>
    decreases n,
{
    if n <= 0 {
        None
    } else {
        let prev = resonance_at_spec(rules, conds, a, n - 1);
        let rule = rules[n - 1];
        if conds.contains(rule.condition_id) && rule.target_action == a {
            Some(
                fx_add_spec(
                    match prev {
                        None => 0,
                        Some(v) => v,
                    },
                    rule.strength,
                ),
            )
        } else {
            prev
        }
    }
}

impl Bootstrapper {
    pub fn new() -> (r: Bootstrapper)
        ensures
            r.rules@.len() == 0,
    {
        Bootstrapper { rules: Vec::new() }
    }

    /// Append a rule; existing rules are never reordered.
    pub fn add_hamiltonian_rule(&mut self, condition_id: i32, target_action: usize, strength: i64)
        ensures
            final(self).rules@ == old(self).rules@.push(
                HamiltonianRule { condition_id, target_action, strength },
            ),
    {
        self.rules.push(HamiltonianRule { condition_id, target_action, strength });
    }

    /// The resonance field over a flattened action space of `action_size`
    /// entries, given the currently active condition identifiers.
    pub fn calculate_resonance_field(&self, active_conditions: &Vec<i32>, action_size: usize) -> (r: Vec<
        Option<i64>,
    >)
        ensures
            r@.len() == action_size,
            forall|a: int|
                0 <= a < action_size ==> r@[a] == resonance_at_spec(
                    self.rules@,
                    active_conditions@,
                    a,
                    self.rules@.len() as int,
                ),
    {
        let mut field: Vec<Option<i64>> = Vec::new();
        let mut a: usize = 0;
        while a < action_size
            invariant
                a <= action_size,
                field@.len() == a,
                forall|k: int| 0 <= k < a ==> field@[k] is None,
            decreases action_size - a,
        {
            field.push(None);
            a = a + 1;
        }
        proof {
            assert(forall|k: int|
                0 <= k < action_size ==> field@[k] == resonance_at_spec(
                    self.rules@,
                    active_conditions@,
                    k,
                    0,
                ));
        }

        let n = self.rules.len();
        let mut i: usize = 0;
        while i < n
            invariant
                i <= n,
                n == self.rules@.len(),
                field@.len() == action_size,
                forall|k: int|
                    0 <= k < action_size ==> field@[k] == resonance_at_spec(
                        self.rules@,
                        active_conditions@,
                        k,
                        i as int,
                    ),
            decreases n - i,
        {
            let rule_cond = self.rules[i].condition_id;
            let rule_action = self.rules[i].target_action;
            let rule_strength = self.rules[i].strength;
            if contains_i32(active_conditions, rule_cond) && rule_action < action_size {
                let current: i64 = match field[rule_action] {
                    Some(v) => v,
                    None => 0,
                };
                field[rule_action] = Some(fx_add(current, rule_strength));
            }
            proof {
                assert(forall|k: int|
                    0 <= k < action_size ==> resonance_at_spec(
                        self.rules@,
                        active_conditions@,
                        k,
                        i + 1,
                    ) == if active_conditions@.contains(self.rules@[i as int].condition_id)
                        && self.rules@[i as int].target_action == k {
                        Some(
                            fx_add_spec(
                                match resonance_at_spec(self.rules@, active_conditions@, k, i as int) {
                                    None => 0,
                                    Some(v) => v,
                                },
                                self.rules@[i as int].strength,
                            ),
                        )
                    } else {
                        resonance_at_spec(self.rules@, active_conditions@, k, i as int)
                    });
            }
            i = i + 1;
        }
        field
    }
}

/// Linear membership scan.
fn contains_i32(v: &Vec<i32>, x: i32) -> (r: bool)
    ensures
        r == v@.contains(x),
{
    let n = v.len();
    let mut i: usize = 0;
    while i < n
        invariant
            i <= n,
            n == v@.len(),
            forall|k: int| 0 <= k < i ==> v@[k] != x,
        decreases n - i,
    {
        if v[i] == x {
            return true;
        }
        i = i + 1;
    }
    false
}

} // verus!
