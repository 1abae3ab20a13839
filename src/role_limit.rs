
use vstd::prelude::*;

verus! {

/// A limit on who may hold a role, in disjunctive normal form: the member
/// must satisfy at least one of the clauses in `bind`.
#[derive(Debug)]
pub struct BindRoles {
    pub bind: Vec<BindRolesOrs>,
}

/// One clause: every role of `normal` held and none of `negated`.
#[derive(Debug)]
pub struct BindRolesOrs {
    pub normal: Vec<i64>,
    pub negated: Vec<i64>,
}

pub open spec fn clause_holds(c: BindRolesOrs, held: Seq<i64>) -> bool {
    &&& forall|i: int| 0 <= i < c.normal@.len() ==> held.contains(#[trigger] c.normal@[i])
    &&& forall|i: int| 0 <= i < c.negated@.len() ==> !held.contains(#[trigger] c.negated@[i])
}

pub open spec fn formula_holds(b: BindRoles, held: Seq<i64>) -> bool {
    exists|i: int| 0 <= i < b.bind@.len() && clause_holds(#[trigger] b.bind@[i], held)
}

/// The limited roles, among the first `n` limits, that a member holding
/// `held` holds without satisfying the limit's formula, in order.
pub open spec fn violations(held: Seq<i64>, limits: Seq<(i64, BindRoles)>, n: nat) -> Seq<i64>
    decreases n,
{
    if n == 0 {
        Seq::empty()
    } else {
        let rest = violations(held, limits, (n - 1) as nat);
        let (role, formula) = limits[n - 1];
        if held.contains(role) && !formula_holds(formula, held) {
            rest.push(role)
        } else {
            rest
        }
    }
}

impl BindRolesOrs {
    pub fn holds(&self, held: &Vec<i64>) -> (r: bool)
        ensures
            r == clause_holds(*self, held@),
    {
        for i in 0..self.normal.len()
            invariant
                forall|k: int| 0 <= k < i ==> held@.contains(#[trigger] self.normal@[k]),
        {
            if !list_contains_i64(held, self.normal[i]) {
                return false;
            }
        }
        for i in 0..self.negated.len()
            invariant
                forall|k: int| 0 <= k < self.normal@.len() ==> held@.contains(#[trigger] self.normal@[k]),
                forall|k: int| 0 <= k < i ==> !held@.contains(#[trigger] self.negated@[k]),
        {
            if list_contains_i64(held, self.negated[i]) {
                return false;
            }
        }
        true
    }
}

impl BindRoles {
    /// Whether a member holding `held` may keep the limited role.
    pub fn allows(&self, held: &Vec<i64>) -> (r: bool)
        ensures
            r == formula_holds(*self, held@),
    {
        for i in 0..self.bind.len()
            invariant
                forall|k: int| 0 <= k < i ==> !clause_holds(#[trigger] self.bind@[k], held@),
        {
            if self.bind[i].holds(held) {
                return true;
            }
        }
        false
    }
}

/// The roles a member holding `held` must lose: each limited role that the
/// member holds without satisfying its formula, in the order of `limits`.
pub fn roles_to_remove(held: &Vec<i64>, limits: &Vec<(i64, BindRoles)>) -> (r: Vec<i64>)
    ensures
        r@ == violations(held@, limits@, limits@.len()),
{
    let mut r: Vec<i64> = Vec::new();
    for i in 0..limits.len()
        invariant
            r@ == violations(held@, limits@, i as nat),
    {
        let limit = &limits[i];
        if list_contains_i64(held, limit.0) && !limit.1.allows(held) {
            r.push(limit.0);
        }
    }
    r
}

fn list_contains_i64(v: &Vec<i64>, x: i64) -> (r: bool)
    ensures
        r == v@.contains(x),
{
    let mut i: usize = 0;
    while i < v.len()
        invariant
            i <= v@.len(),
            forall|j: int| 0 <= j < i ==> v@[j] != x,
        decreases v@.len() - i,
    {
        if v[i] == x {
            return true;
        }
        i = i + 1;
    }
    false
}

} // verus!
