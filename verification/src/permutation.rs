//! The record of where each variable occurs, from which the wire
//! permutation of the copy-constraint argument is compiled.

use crate::constants::{K1, K2, K3};
use crate::field::{lemma_fe_canonical, lemma_of_int_unique, Scalar};
use crate::variable::{Variable, WireData};
use vstd::prelude::*;

verus! {

/// The slots of the rows below `gates`.
pub open spec fn slots_below(gates: nat) -> Set<WireData> {
    Set::new(|s: WireData| s.row() < gates)
}

/// Whether `(v, j)` is a position in the occurrence lists.
pub open spec fn position(occ: Seq<Seq<WireData>>, v: int, j: int) -> bool {
    0 <= v < occ.len() && 0 <= j < occ[v].len()
}

/// Whether the occurrence lists hold each slot of `slots` exactly once, and
/// nothing else.
pub open spec fn partitions(occ: Seq<Seq<WireData>>, slots: Set<WireData>) -> bool {
    &&& forall|v: int, j: int| position(occ, v, j) ==> slots.contains(#[trigger] occ[v][j])
    &&& forall|v1: int, j1: int, v2: int, j2: int|
        position(occ, v1, j1) && position(occ, v2, j2) && #[trigger] occ[v1][j1]
            == #[trigger] occ[v2][j2] ==> v1 == v2 && j1 == j2
    &&& forall|s: WireData| #[trigger]
        slots.contains(s) ==> exists|v: int, j: int|
            position(occ, v, j) && (#[trigger] occ[v][j]) == s
}

/// The occurrence lists after `slot` was registered against the variable
/// with index `v`.
pub open spec fn with_occurrence(occ: Seq<Seq<WireData>>, v: int, slot: WireData) -> Seq<
    Seq<WireData>,
> {
    occ.update(v, occ[v].push(slot))
}

/// The occurrence lists after the four wires of row `gate` were registered.
pub open spec fn with_gate(
    occ: Seq<Seq<WireData>>,
    a: Variable,
    b: Variable,
    c: Variable,
    d: Variable,
    gate: usize,
) -> Seq<Seq<WireData>> {
    with_occurrence(
        with_occurrence(
            with_occurrence(
                with_occurrence(occ, a.0 as int, WireData::Left(gate)),
                b.0 as int,
                WireData::Right(gate),
            ),
            c.0 as int,
            WireData::Output(gate),
        ),
        d.0 as int,
        WireData::Fourth(gate),
    )
}

/// Registering a slot that is not yet held keeps the lists a partition, now
/// of one slot more.
pub proof fn lemma_with_occurrence_partitions(
    occ: Seq<Seq<WireData>>,
    slots: Set<WireData>,
    v: int,
    slot: WireData,
)
    requires
        partitions(occ, slots),
        0 <= v < occ.len(),
        !slots.contains(slot),
    ensures
        partitions(with_occurrence(occ, v, slot), slots.insert(slot)),
        with_occurrence(occ, v, slot).len() == occ.len(),
{
    let next = with_occurrence(occ, v, slot);
    let more = slots.insert(slot);
    assert forall|w: int, j: int| position(next, w, j) implies more.contains(
        #[trigger] next[w][j],
    ) by {
        if w == v && j == occ[v].len() {
        } else {
            assert(next[w][j] == occ[w][j]);
        }
    }
    assert forall|v1: int, j1: int, v2: int, j2: int|
        position(next, v1, j1) && position(next, v2, j2) && #[trigger] next[v1][j1]
            == #[trigger] next[v2][j2] implies v1 == v2 && j1 == j2 by {
        let new1 = v1 == v && j1 == occ[v].len();
        let new2 = v2 == v && j2 == occ[v].len();
        if !new1 {
            assert(next[v1][j1] == occ[v1][j1]);
        }
        if !new2 {
            assert(next[v2][j2] == occ[v2][j2]);
        }
    }
    assert forall|s: WireData| #[trigger] more.contains(s) implies exists|w: int, j: int|
        position(next, w, j) && (#[trigger] next[w][j]) == s by {
        if s == slot {
            assert(position(next, v, occ[v].len() as int) && next[v][occ[v].len() as int] == s);
        } else {
            assert(slots.contains(s));
            let (w, j) = choose|w: int, j: int| position(occ, w, j) && (#[trigger] occ[w][j]) == s;
            assert(position(next, w, j) && next[w][j] == s);
        }
    }
}

/// Registering the four wires of the next row keeps the lists a partition,
/// now of the slots of one row more.
pub proof fn lemma_with_gate_partitions(
    occ: Seq<Seq<WireData>>,
    a: Variable,
    b: Variable,
    c: Variable,
    d: Variable,
    gate: usize,
)
    requires
        partitions(occ, slots_below(gate as nat)),
        a.0 < occ.len(),
        b.0 < occ.len(),
        c.0 < occ.len(),
        d.0 < occ.len(),
    ensures
        partitions(with_gate(occ, a, b, c, d, gate), slots_below(gate as nat + 1)),
        with_gate(occ, a, b, c, d, gate).len() == occ.len(),
{
    let s0 = slots_below(gate as nat);
    let o1 = with_occurrence(occ, a.0 as int, WireData::Left(gate));
    lemma_with_occurrence_partitions(occ, s0, a.0 as int, WireData::Left(gate));
    let s1 = s0.insert(WireData::Left(gate));
    let o2 = with_occurrence(o1, b.0 as int, WireData::Right(gate));
    lemma_with_occurrence_partitions(o1, s1, b.0 as int, WireData::Right(gate));
    let s2 = s1.insert(WireData::Right(gate));
    let o3 = with_occurrence(o2, c.0 as int, WireData::Output(gate));
    lemma_with_occurrence_partitions(o2, s2, c.0 as int, WireData::Output(gate));
    let s3 = s2.insert(WireData::Output(gate));
    lemma_with_occurrence_partitions(o3, s3, d.0 as int, WireData::Fourth(gate));
    let s4 = s3.insert(WireData::Fourth(gate));
    assert(s4 =~= slots_below(gate as nat + 1)) by {
        assert forall|s: WireData| s4.contains(s) <==> slots_below(gate as nat + 1).contains(
            s,
        ) by {
            match s {
                WireData::Left(i) => {},
                WireData::Right(i) => {},
                WireData::Output(i) => {},
                WireData::Fourth(i) => {},
            }
        }
    }
}

/// Records, for each variable, the wire slots in which it occurs, in the
/// order in which the gates were added.
#[derive(Debug)]
pub struct Permutation {
    variable_map: Vec<Vec<WireData>>,
    gates: usize,
}

impl View for Permutation {
    type V = Seq<Seq<WireData>>;

    /// For each variable, by its index, the slots registered against it, in
    /// the order of registration.
    closed spec fn view(&self) -> Seq<Seq<WireData>> {
        Seq::new(self.variable_map@.len(), |v: int| self.variable_map@[v]@)
    }
}

impl Permutation {
    /// The number of rows whose wires were registered.
    pub closed spec fn gates(&self) -> nat {
        self.gates as nat
    }

    /// The slots of the registered rows are each held once, against one
    /// variable, and nothing else is held.
    pub open spec fn wf(&self) -> bool {
        partitions(self@, slots_below(self.gates()))
    }

    /// Whether occurrences of `var` can be registered.
    pub open spec fn tracks(&self, var: Variable) -> bool {
        var.0 < self@.len()
    }

    /// A tracker that knows no variable and no row.
    pub fn new() -> (r: Permutation)
        ensures
            r@ == Seq::<Seq<WireData>>::empty(),
            r.gates() == 0,
            r.wf(),
    {
        let r = Permutation { variable_map: Vec::new(), gates: 0 };
        assert(r@ =~= Seq::<Seq<WireData>>::empty());
        r
    }

    /// The number of variables that are tracked.
    pub fn variables(&self) -> (r: usize)
        ensures
            r == self@.len(),
    {
        self.variable_map.len()
    }

    /// The number of rows whose wires were registered.
    pub fn gate_count(&self) -> (r: usize)
        ensures
            r == self.gates(),
    {
        self.gates
    }

    /// Starts to track the variable that was issued next. It occurs nowhere
    /// yet.
    pub fn track(&mut self, var: Variable)
        requires
            old(self).wf(),
            var.0 == old(self)@.len(),
        ensures
            final(self)@ == old(self)@.push(Seq::<WireData>::empty()),
            final(self).gates() == old(self).gates(),
            final(self).wf(),
    {
        self.variable_map.push(Vec::new());
        proof {
            let before = old(self)@;
            let after = self@;
            assert(after =~= before.push(Seq::<WireData>::empty()));
            assert forall|v: int, j: int| position(after, v, j) implies position(before, v, j)
                && after[v][j] == before[v][j] by {}
            assert forall|s: WireData| #[trigger]
                slots_below(self.gates()).contains(s) implies exists|v: int, j: int|
                position(after, v, j) && (#[trigger] after[v][j]) == s by {
                let (v, j) = choose|v: int, j: int|
                    position(before, v, j) && (#[trigger] before[v][j]) == s;
                assert(position(after, v, j) && after[v][j] == s);
            }
        }
    }

    /// Registers the four wires of row `gate_index`, which is the next row,
    /// against the variables that they carry.
    pub fn add_variables_to_map(
        &mut self,
        a: Variable,
        b: Variable,
        c: Variable,
        d: Variable,
        gate_index: usize,
    )
        requires
            old(self).wf(),
            old(self).tracks(a),
            old(self).tracks(b),
            old(self).tracks(c),
            old(self).tracks(d),
            gate_index == old(self).gates(),
            gate_index < usize::MAX,
        ensures
            final(self)@ == with_gate(old(self)@, a, b, c, d, gate_index),
            final(self).gates() == gate_index + 1,
            final(self).wf(),
    {
        self.variable_map[a.0].push(WireData::Left(gate_index));
        assert(self@ =~= with_occurrence(old(self)@, a.0 as int, WireData::Left(gate_index)));
        let ghost o1 = self@;
        self.variable_map[b.0].push(WireData::Right(gate_index));
        assert(self@ =~= with_occurrence(o1, b.0 as int, WireData::Right(gate_index)));
        let ghost o2 = self@;
        self.variable_map[c.0].push(WireData::Output(gate_index));
        assert(self@ =~= with_occurrence(o2, c.0 as int, WireData::Output(gate_index)));
        let ghost o3 = self@;
        self.variable_map[d.0].push(WireData::Fourth(gate_index));
        assert(self@ =~= with_occurrence(o3, d.0 as int, WireData::Fourth(gate_index)));
        self.gates = gate_index + 1;
        proof {
            lemma_with_gate_partitions(old(self)@, a, b, c, d, gate_index);
        }
    }
}

/// The four sigma mappings: for each wire role and each row, the slot that
/// the wire permutation sends the slot of that role and row to.
#[derive(Debug)]
pub struct SigmaMappings {
    /// Where the left wire of each row goes.
    pub left: Vec<WireData>,
    /// Where the right wire of each row goes.
    pub right: Vec<WireData>,
    /// Where the output wire of each row goes.
    pub out: Vec<WireData>,
    /// Where the fourth wire of each row goes.
    pub fourth: Vec<WireData>,
}

/// The four sigma mappings as one mapping of slots.
pub struct Sigma {
    /// Where the left wire of each row goes.
    pub left: Seq<WireData>,
    /// Where the right wire of each row goes.
    pub right: Seq<WireData>,
    /// Where the output wire of each row goes.
    pub out: Seq<WireData>,
    /// Where the fourth wire of each row goes.
    pub fourth: Seq<WireData>,
}

impl View for SigmaMappings {
    type V = Sigma;

    open spec fn view(&self) -> Sigma {
        Sigma { left: self.left@, right: self.right@, out: self.out@, fourth: self.fourth@ }
    }
}

impl Sigma {
    /// Whether the mapping is defined on the slots of `n` rows.
    pub open spec fn covers(self, n: nat) -> bool {
        self.left.len() == n && self.right.len() == n && self.out.len() == n && self.fourth.len()
            == n
    }

    /// Where the mapping sends `slot`.
    pub open spec fn at(self, slot: WireData) -> WireData {
        match slot {
            WireData::Left(i) => self.left[i as int],
            WireData::Right(i) => self.right[i as int],
            WireData::Output(i) => self.out[i as int],
            WireData::Fourth(i) => self.fourth[i as int],
        }
    }

    /// The mapping that sends `slot` to `target` and is otherwise this one.
    pub open spec fn with(self, slot: WireData, target: WireData) -> Sigma {
        match slot {
            WireData::Left(i) => Sigma { left: self.left.update(i as int, target), ..self },
            WireData::Right(i) => Sigma { right: self.right.update(i as int, target), ..self },
            WireData::Output(i) => Sigma { out: self.out.update(i as int, target), ..self },
            WireData::Fourth(i) => Sigma { fourth: self.fourth.update(i as int, target), ..self },
        }
    }

    /// The slot that is reached from `slot` by `k` steps of the mapping.
    pub open spec fn orbit(self, slot: WireData, k: nat) -> WireData
        decreases k,
    {
        if k == 0 {
            slot
        } else {
            self.at(self.orbit(slot, (k - 1) as nat))
        }
    }

    /// Whether `to` is reached from `from` by steps of the mapping: whether
    /// the two slots lie on one cycle.
    pub open spec fn same_cycle(self, from: WireData, to: WireData) -> bool {
        exists|k: nat| #[trigger] self.orbit(from, k) == to
    }
}

/// The index after `j` in a list of `len` entries that is walked in a cycle.
pub open spec fn successor(j: int, len: nat) -> int {
    if j + 1 == len {
        0
    } else {
        j + 1
    }
}

/// Whether `sigma` is the wire permutation of the occurrence lists on `n`
/// rows: it sends each occurrence of a variable to the next occurrence of
/// the same variable, the last to the first, and leaves the slots of the
/// rows from `gates` on, which no variable occupies, where they are.
pub open spec fn is_sigma_of(sigma: Sigma, occ: Seq<Seq<WireData>>, gates: nat, n: nat) -> bool {
    &&& sigma.covers(n)
    &&& forall|v: int, j: int|
        position(occ, v, j) ==> sigma.at(#[trigger] occ[v][j]) == occ[v][successor(
            j,
            occ[v].len(),
        )]
    &&& forall|slot: WireData|
        gates <= slot.row() < n ==> #[trigger] sigma.at(slot) == slot
}

/// A changed mapping sends the changed slot to its target and every other
/// slot where it went before.
pub proof fn lemma_sigma_with(sigma: Sigma, n: nat, slot: WireData, target: WireData)
    requires
        sigma.covers(n),
        slot.row() < n,
    ensures
        sigma.with(slot, target).covers(n),
        sigma.with(slot, target).at(slot) == target,
        forall|other: WireData|
            other.row() < n && other != slot ==> #[trigger] sigma.with(slot, target).at(other)
                == sigma.at(other),
{
    let next = sigma.with(slot, target);
    assert forall|other: WireData| other.row() < n && other != slot implies #[trigger] next.at(
        other,
    ) == sigma.at(other) by {
        match other {
            WireData::Left(i) => {},
            WireData::Right(i) => {},
            WireData::Output(i) => {},
            WireData::Fourth(i) => {},
        }
    }
}

/// Steps of the mapping add up.
pub proof fn lemma_orbit_adds(sigma: Sigma, slot: WireData, a: nat, b: nat)
    ensures
        sigma.orbit(slot, a + b) == sigma.orbit(sigma.orbit(slot, a), b),
    decreases b,
{
    if b > 0 {
        lemma_orbit_adds(sigma, slot, a, (b - 1) as nat);
        assert((a + b - 1) as nat == a + (b - 1) as nat);
    }
}

/// The steps of the wire permutation from an occurrence of a variable
/// lead to occurrences of the same variable.
pub proof fn lemma_orbit_stays(
    sigma: Sigma,
    occ: Seq<Seq<WireData>>,
    gates: nat,
    n: nat,
    v: int,
    j: int,
    k: nat,
) -> (at: int)
    requires
        is_sigma_of(sigma, occ, gates, n),
        position(occ, v, j),
    ensures
        position(occ, v, at),
        sigma.orbit(occ[v][j], k) == occ[v][at],
    decreases k,
{
    if k == 0 {
        j
    } else {
        let before = lemma_orbit_stays(sigma, occ, gates, n, v, j, (k - 1) as nat);
        successor(before, occ[v].len())
    }
}

/// Within the list of a variable, `k` steps of the wire permutation lead
/// from an occurrence to the one `k` places later.
pub proof fn lemma_orbit_forward(
    sigma: Sigma,
    occ: Seq<Seq<WireData>>,
    gates: nat,
    n: nat,
    v: int,
    j: int,
    k: nat,
)
    requires
        is_sigma_of(sigma, occ, gates, n),
        position(occ, v, j),
        j + k < occ[v].len(),
    ensures
        sigma.orbit(occ[v][j], k) == occ[v][j + k],
    decreases k,
{
    if k > 0 {
        lemma_orbit_forward(sigma, occ, gates, n, v, j, (k - 1) as nat);
        assert(position(occ, v, j + k - 1));
    }
}

/// Any occurrence of a variable is reached from any other occurrence of it
/// by steps of the wire permutation.
pub proof fn lemma_orbit_reaches(
    sigma: Sigma,
    occ: Seq<Seq<WireData>>,
    gates: nat,
    n: nat,
    v: int,
    from: int,
    to: int,
) -> (k: nat)
    requires
        is_sigma_of(sigma, occ, gates, n),
        position(occ, v, from),
        position(occ, v, to),
    ensures
        sigma.orbit(occ[v][from], k) == occ[v][to],
{
    let len = occ[v].len();
    let start = occ[v][from];
    if from <= to {
        lemma_orbit_forward(sigma, occ, gates, n, v, from, (to - from) as nat);
        (to - from) as nat
    } else {
        // to the end of the list, round to its start, and on to `to`
        let to_end = (len - 1 - from) as nat;
        lemma_orbit_forward(sigma, occ, gates, n, v, from, to_end);
        let end = occ[v][len - 1];
        assert(sigma.orbit(start, to_end) == end);
        lemma_orbit_wraps(sigma, occ, gates, n, v);
        lemma_orbit_adds(sigma, start, to_end, 1);
        assert(sigma.orbit(start, to_end + 1) == occ[v][0]);
        lemma_orbit_forward(sigma, occ, gates, n, v, 0, to as nat);
        lemma_orbit_adds(sigma, start, to_end + 1, to as nat);
        to_end + 1 + to as nat
    }
}

/// One step of the wire permutation leads from the last occurrence of a
/// variable to its first.
proof fn lemma_orbit_wraps(sigma: Sigma, occ: Seq<Seq<WireData>>, gates: nat, n: nat, v: int)
    requires
        is_sigma_of(sigma, occ, gates, n),
        0 <= v < occ.len(),
        occ[v].len() > 0,
    ensures
        sigma.orbit(occ[v][occ[v].len() - 1], 1) == occ[v][0],
{
    let last = occ[v].len() - 1;
    assert(position(occ, v, last));
    assert(sigma.at(occ[v][last]) == occ[v][successor(last, occ[v].len())]);
    assert(sigma.orbit(occ[v][last], 0) == occ[v][last]);
}

/// The cycles of the wire permutation are the variables: two occurrences
/// lie on one cycle exactly when they are occurrences of one variable.
pub proof fn lemma_cycles_are_variables(
    sigma: Sigma,
    occ: Seq<Seq<WireData>>,
    gates: nat,
    n: nat,
    v1: int,
    j1: int,
    v2: int,
    j2: int,
)
    requires
        partitions(occ, slots_below(gates)),
        gates <= n,
        is_sigma_of(sigma, occ, gates, n),
        position(occ, v1, j1),
        position(occ, v2, j2),
    ensures
        sigma.same_cycle(occ[v1][j1], occ[v2][j2]) <==> v1 == v2,
{
    if v1 == v2 {
        let k = lemma_orbit_reaches(sigma, occ, gates, n, v1, j1, j2);
        assert(sigma.orbit(occ[v1][j1], k) == occ[v2][j2]);
    }
    if sigma.same_cycle(occ[v1][j1], occ[v2][j2]) {
        let k = choose|k: nat| #[trigger] sigma.orbit(occ[v1][j1], k) == occ[v2][j2];
        let at = lemma_orbit_stays(sigma, occ, gates, n, v1, j1, k);
        assert(occ[v1][at] == occ[v2][j2]);
    }
}

/// The wire permutation is a permutation of the slots of its rows: it
/// keeps them among themselves, sends no two to one, and reaches each.
pub proof fn lemma_sigma_is_permutation(
    sigma: Sigma,
    occ: Seq<Seq<WireData>>,
    gates: nat,
    n: nat,
)
    requires
        partitions(occ, slots_below(gates)),
        gates <= n,
        is_sigma_of(sigma, occ, gates, n),
    ensures
        forall|s: WireData| s.row() < n ==> (#[trigger] sigma.at(s)).row() < n,
        forall|s: WireData, t: WireData|
            s.row() < n && t.row() < n && #[trigger] sigma.at(s) == #[trigger] sigma.at(t) ==> s
                == t,
        forall|t: WireData| #[trigger]
            slots_below(n).contains(t) ==> exists|s: WireData|
                s.row() < n && #[trigger] sigma.at(s) == t,
{
    assert forall|s: WireData| s.row() < n implies (#[trigger] sigma.at(s)).row() < n by {
        lemma_sigma_step(sigma, occ, gates, n, s);
    }
    assert forall|s: WireData, t: WireData|
        s.row() < n && t.row() < n && #[trigger] sigma.at(s) == #[trigger] sigma.at(
            t,
        ) implies s == t by {
        lemma_sigma_step(sigma, occ, gates, n, s);
        lemma_sigma_step(sigma, occ, gates, n, t);
        if s.row() < gates && t.row() < gates {
            assert(slots_below(gates).contains(s));
            assert(slots_below(gates).contains(t));
            let (v1, j1) = choose|v: int, j: int| position(occ, v, j) && (#[trigger] occ[v][j]) == s;
            let (v2, j2) = choose|v: int, j: int| position(occ, v, j) && (#[trigger] occ[v][j]) == t;
            let n1 = successor(j1, occ[v1].len());
            let n2 = successor(j2, occ[v2].len());
            assert(occ[v1][n1] == occ[v2][n2]);
            assert(position(occ, v1, n1) && position(occ, v2, n2));
        }
    }
    assert forall|t: WireData| #[trigger] slots_below(n).contains(t) implies exists|s: WireData|
        s.row() < n && #[trigger] sigma.at(s) == t by {
        if t.row() < gates {
            assert(slots_below(gates).contains(t));
            let (v, j) = choose|v: int, j: int| position(occ, v, j) && (#[trigger] occ[v][j]) == t;
            let len = occ[v].len();
            let before = if j == 0 {
                len - 1
            } else {
                j - 1
            };
            assert(position(occ, v, before));
            let s = occ[v][before];
            assert(slots_below(gates).contains(s));
            assert(s.row() < n && sigma.at(s) == t);
        } else {
            assert(t.row() < n && sigma.at(t) == t);
        }
    }
}

/// One step of the wire permutation from a slot of its rows: an occupied
/// slot goes to an occupied slot, and a free slot stays.
proof fn lemma_sigma_step(
    sigma: Sigma,
    occ: Seq<Seq<WireData>>,
    gates: nat,
    n: nat,
    s: WireData,
)
    requires
        partitions(occ, slots_below(gates)),
        gates <= n,
        is_sigma_of(sigma, occ, gates, n),
        s.row() < n,
    ensures
        s.row() < gates ==> sigma.at(s).row() < gates,
        s.row() >= gates ==> sigma.at(s) == s,
{
    if s.row() < gates {
        assert(slots_below(gates).contains(s));
        let (v, j) = choose|v: int, j: int| position(occ, v, j) && (#[trigger] occ[v][j]) == s;
        let next = successor(j, occ[v].len());
        assert(position(occ, v, next));
        assert(slots_below(gates).contains(occ[v][next]));
    }
}

/// The multiplier of the coset on which the wires of the slot's role sit.
pub open spec fn coset_shift(slot: WireData) -> int {
    match slot {
        WireData::Left(_) => 1,
        WireData::Right(_) => K1 as int,
        WireData::Output(_) => K2 as int,
        WireData::Fourth(_) => K3 as int,
    }
}

/// The field element that stands for a slot: the root of unity of its row,
/// shifted onto the coset of its role.
pub open spec fn slot_element(slot: WireData, roots: Seq<Scalar>) -> Scalar {
    Scalar::of_int(coset_shift(slot) * roots[slot.row() as int]@)
}

impl Permutation {
    /// The values of a sigma mapping on the domain: for each row, the field
    /// element that stands for the slot that the mapping sends the row's
    /// slot to. `roots` holds the roots of unity of the domain, by row.
    pub fn compute_permutation_lagrange(
        &self,
        sigma_mapping: &Vec<WireData>,
        roots: &Vec<Scalar>,
    ) -> (r: Vec<Scalar>)
        requires
            forall|i: int|
                0 <= i < sigma_mapping@.len() ==> (#[trigger] sigma_mapping@[i]).row()
                    < roots@.len(),
        ensures
            r@.len() == sigma_mapping@.len(),
            forall|i: int|
                0 <= i < r@.len() ==> #[trigger] r@[i] == slot_element(sigma_mapping@[i], roots@),
    {
        let mut lagrange: Vec<Scalar> = Vec::with_capacity(sigma_mapping.len());
        let mut i: usize = 0;
        while i < sigma_mapping.len()
            invariant
                i <= sigma_mapping@.len(),
                lagrange@.len() == i,
                forall|k: int|
                    0 <= k < sigma_mapping@.len() ==> (#[trigger] sigma_mapping@[k]).row()
                        < roots@.len(),
                forall|k: int|
                    0 <= k < i ==> #[trigger] lagrange@[k] == slot_element(
                        sigma_mapping@[k],
                        roots@,
                    ),
            decreases sigma_mapping@.len() - i,
        {
            let ghost slot = sigma_mapping@[i as int];
            assert(slot.row() < roots@.len());
            let element = match sigma_mapping[i] {
                WireData::Left(index) => {
                    let root = roots[index];
                    proof {
                        use_type_invariant(&root);
                        lemma_fe_canonical(root@);
                        assert(1 * root@ == root@);
                        lemma_of_int_unique(root, 1 * root@);
                    }
                    root
                },
                WireData::Right(index) => Scalar::from_u64(K1).mul(&roots[index]),
                WireData::Output(index) => Scalar::from_u64(K2).mul(&roots[index]),
                WireData::Fourth(index) => Scalar::from_u64(K3).mul(&roots[index]),
            };
            lagrange.push(element);
            i += 1;
        }
        lagrange
    }

    /// Compiles the occurrences into the four sigma mappings on `n` rows.
    ///
    /// The mappings send each occurrence of a variable to its next
    /// occurrence, and the last to the first; the slots of the rows that
    /// were not registered stay where they are.
    pub fn compute_sigma_permutations(&self, n: usize) -> (r: SigmaMappings)
        requires
            self.wf(),
            self.gates() <= n,
        ensures
            is_sigma_of(r@, self@, self.gates(), n as nat),
    {
        let mut left: Vec<WireData> = Vec::with_capacity(n);
        let mut right: Vec<WireData> = Vec::with_capacity(n);
        let mut out: Vec<WireData> = Vec::with_capacity(n);
        let mut fourth: Vec<WireData> = Vec::with_capacity(n);
        let mut i: usize = 0;
        while i < n
            invariant
                i <= n,
                left@.len() == i,
                right@.len() == i,
                out@.len() == i,
                fourth@.len() == i,
                forall|k: int| 0 <= k < i ==> #[trigger] left@[k] == WireData::Left(k as usize),
                forall|k: int| 0 <= k < i ==> #[trigger] right@[k] == WireData::Right(k as usize),
                forall|k: int| 0 <= k < i ==> #[trigger] out@[k] == WireData::Output(k as usize),
                forall|k: int| 0 <= k < i ==> #[trigger] fourth@[k] == WireData::Fourth(k as usize),
            decreases n - i,
        {
            left.push(WireData::Left(i));
            right.push(WireData::Right(i));
            out.push(WireData::Output(i));
            fourth.push(WireData::Fourth(i));
            i += 1;
        }
        let mut sigmas = SigmaMappings { left, right, out, fourth };
        proof {
            assert forall|slot: WireData| slot.row() < n implies #[trigger] sigmas@.at(slot)
                == slot by {
                match slot {
                    WireData::Left(i) => {},
                    WireData::Right(i) => {},
                    WireData::Output(i) => {},
                    WireData::Fourth(i) => {},
                }
            }
        }
        let ghost occ = self@;
        let ghost gates = self.gates();
        let mut v: usize = 0;
        while v < self.variable_map.len()
            invariant
                v <= occ.len(),
                occ == self@,
                occ.len() == self.variable_map@.len(),
                partitions(occ, slots_below(gates)),
                gates <= n,
                sigmas@.covers(n as nat),
                forall|w: int, j: int|
                    position(occ, w, j) && w < v ==> sigmas@.at(#[trigger] occ[w][j])
                        == occ[w][successor(j, occ[w].len())],
                forall|w: int, j: int|
                    position(occ, w, j) && w >= v ==> sigmas@.at(#[trigger] occ[w][j]) == occ[w][j],
                forall|slot: WireData|
                    gates <= slot.row() < n ==> #[trigger] sigmas@.at(slot) == slot,
            decreases occ.len() - v,
        {
            let wire_data = &self.variable_map[v];
            assert(wire_data@ == occ[v as int]);
            let mut j: usize = 0;
            while j < wire_data.len()
                invariant
                    v < occ.len(),
                    j <= wire_data@.len(),
                    wire_data@ == occ[v as int],
                    partitions(occ, slots_below(gates)),
                    gates <= n,
                    sigmas@.covers(n as nat),
                    forall|w: int, k: int|
                        position(occ, w, k) && (w < v || (w == v && k < j)) ==> sigmas@.at(
                            #[trigger] occ[w][k],
                        ) == occ[w][successor(k, occ[w].len())],
                    forall|w: int, k: int|
                        position(occ, w, k) && (w > v || (w == v && k >= j)) ==> sigmas@.at(
                            #[trigger] occ[w][k],
                        ) == occ[w][k],
                    forall|slot: WireData|
                        gates <= slot.row() < n ==> #[trigger] sigmas@.at(slot) == slot,
                decreases wire_data@.len() - j,
            {
                // Fetch index of the next wire, if it is the last element
                // We loop back around to the beginning
                let next_index = if j == wire_data.len() - 1 {
                    0
                } else {
                    j + 1
                };
                let current_wire = wire_data[j];
                // Fetch the next wire
                let next_wire = wire_data[next_index];
                let ghost before = sigmas@;
                proof {
                    assert(position(occ, v as int, j as int));
                    assert(current_wire == occ[v as int][j as int]);
                    assert(slots_below(gates).contains(current_wire));
                    lemma_sigma_with(before, n as nat, current_wire, next_wire);
                }
                // Map current wire to next wire
                match current_wire {
                    WireData::Left(index) => {
                        sigmas.left[index] = next_wire;
                    },
                    WireData::Right(index) => {
                        sigmas.right[index] = next_wire;
                    },
                    WireData::Output(index) => {
                        sigmas.out[index] = next_wire;
                    },
                    WireData::Fourth(index) => {
                        sigmas.fourth[index] = next_wire;
                    },
                }
                proof {
                    assert(sigmas@ == before.with(current_wire, next_wire));
                    assert forall|w: int, k: int|
                        position(occ, w, k) && !(w == v && k == j) implies sigmas@.at(
                            #[trigger] occ[w][k],
                        ) == before.at(occ[w][k]) by {
                        assert(slots_below(gates).contains(occ[w][k]));
                    }
                }
                j += 1;
            }
            v += 1;
        }
        sigmas
    }
}

} // verus!
