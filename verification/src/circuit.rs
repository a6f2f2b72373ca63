//! The mathematical model of a circuit under construction: its columns,
//! its witness values and the occurrences of its variables.

use crate::arena::bound_in;
use crate::field::{fe, lemma_fe_canonical, lemma_of_int, modulus, Scalar};
use crate::permutation::{
    is_sigma_of, lemma_cycles_are_variables, lemma_with_gate_partitions, partitions, position,
    slots_below, with_gate, with_occurrence, Sigma,
};
use crate::variable::{Variable, WireData};
use vstd::arithmetic::div_mod::{lemma_mod_add_multiples_vanish, lemma_mod_multiples_basic};
use vstd::prelude::*;

verus! {

/// One row of a circuit: a coefficient for each selector, the public
/// input, and the variable on each of the four wires.
#[derive(Clone, Copy, Debug, PartialEq, Eq, Structural)]
pub struct GateRow {
    /// Multiplier selector.
    pub q_m: Scalar,
    /// Left wire selector.
    pub q_l: Scalar,
    /// Right wire selector.
    pub q_r: Scalar,
    /// Output wire selector.
    pub q_o: Scalar,
    /// Fourth wire selector.
    pub q_4: Scalar,
    /// Constant selector.
    pub q_c: Scalar,
    /// Arithmetic selector.
    pub q_arith: Scalar,
    /// Range selector.
    pub q_range: Scalar,
    /// Logic selector.
    pub q_logic: Scalar,
    /// Fixed-base group addition selector.
    pub q_fixed_group_add: Scalar,
    /// Variable-base group addition selector.
    pub q_variable_group_add: Scalar,
    /// Lookup selector.
    pub q_lookup: Scalar,
    /// Public input.
    pub public_input: Scalar,
    /// Left wire.
    pub w_l: Variable,
    /// Right wire.
    pub w_r: Variable,
    /// Output wire.
    pub w_o: Variable,
    /// Fourth wire.
    pub w_4: Variable,
}

impl GateRow {
    /// The row of an arithmetic gate `q_m·a·b + q_l·a + q_r·b + q_o·c + q_c + pi = 0`:
    /// the arithmetic selector is one, the fourth wire carries `pad` with
    /// the coefficient zero, and the other selectors are zero.
    pub open spec fn arithmetic(
        a: Variable,
        b: Variable,
        c: Variable,
        pad: Variable,
        q_m: Scalar,
        q_l: Scalar,
        q_r: Scalar,
        q_o: Scalar,
        q_c: Scalar,
        pi: Scalar,
    ) -> GateRow {
        GateRow {
            q_m,
            q_l,
            q_r,
            q_o,
            q_4: Scalar::of_int(0),
            q_c,
            q_arith: Scalar::of_int(1),
            q_range: Scalar::of_int(0),
            q_logic: Scalar::of_int(0),
            q_fixed_group_add: Scalar::of_int(0),
            q_variable_group_add: Scalar::of_int(0),
            q_lookup: Scalar::of_int(0),
            public_input: pi,
            w_l: a,
            w_r: b,
            w_o: c,
            w_4: pad,
        }
    }

    /// The row that forces the variable `a` to equal `constant`.
    pub open spec fn constant(a: Variable, pad: Variable, constant: Scalar, pi: Scalar)
        -> GateRow {
        GateRow::arithmetic(
            a,
            a,
            a,
            pad,
            Scalar::of_int(0),
            Scalar::of_int(1),
            Scalar::of_int(0),
            Scalar::of_int(0),
            Scalar::of_int(-constant@),
            pi,
        )
    }

    /// The row that forces the variables `a` and `b` to be equal.
    pub open spec fn equality(a: Variable, b: Variable, pad: Variable) -> GateRow {
        GateRow::arithmetic(
            a,
            b,
            pad,
            pad,
            Scalar::of_int(0),
            Scalar::of_int(1),
            Scalar::of_int(-1),
            Scalar::of_int(0),
            Scalar::of_int(0),
            Scalar::of_int(0),
        )
    }

    /// The row of a lookup query for `(a, b, c, d)`: the lookup selector is
    /// one and every other selector is zero.
    pub open spec fn lookup(a: Variable, b: Variable, c: Variable, d: Variable, pi: Scalar)
        -> GateRow {
        GateRow {
            q_m: Scalar::of_int(0),
            q_l: Scalar::of_int(0),
            q_r: Scalar::of_int(0),
            q_o: Scalar::of_int(0),
            q_4: Scalar::of_int(0),
            q_c: Scalar::of_int(0),
            q_arith: Scalar::of_int(0),
            q_range: Scalar::of_int(0),
            q_logic: Scalar::of_int(0),
            q_fixed_group_add: Scalar::of_int(0),
            q_variable_group_add: Scalar::of_int(0),
            q_lookup: Scalar::of_int(1),
            public_input: pi,
            w_l: a,
            w_r: b,
            w_o: c,
            w_4: d,
        }
    }

    /// The first padding row, `1·a·b + 2·a + 3·b + 4·c + 1·d + 4 = 0`. Each
    /// of its twelve selectors is other than zero, so that no selector
    /// column of a circuit that holds the row is identically zero.
    pub open spec fn first_dummy(a: Variable, b: Variable, c: Variable, d: Variable) -> GateRow {
        GateRow {
            q_m: Scalar::of_int(1),
            q_l: Scalar::of_int(2),
            q_r: Scalar::of_int(3),
            q_o: Scalar::of_int(4),
            q_4: Scalar::of_int(1),
            q_c: Scalar::of_int(4),
            q_arith: Scalar::of_int(1),
            q_range: Scalar::of_int(1),
            q_logic: Scalar::of_int(1),
            q_fixed_group_add: Scalar::of_int(1),
            q_variable_group_add: Scalar::of_int(1),
            q_lookup: Scalar::of_int(1),
            public_input: Scalar::of_int(0),
            w_l: a,
            w_r: b,
            w_o: c,
            w_4: d,
        }
    }

    /// The second padding row, `1·a·b + 1·a + 1·b + 1·c + 127 = 0`, which
    /// uses the variables of the first on other wires, so that the wire
    /// permutation is not the identity.
    pub open spec fn second_dummy(a: Variable, b: Variable, c: Variable, d: Variable)
        -> GateRow {
        GateRow {
            q_m: Scalar::of_int(1),
            q_l: Scalar::of_int(1),
            q_r: Scalar::of_int(1),
            q_o: Scalar::of_int(1),
            q_4: Scalar::of_int(0),
            q_c: Scalar::of_int(127),
            q_arith: Scalar::of_int(1),
            q_range: Scalar::of_int(0),
            q_logic: Scalar::of_int(0),
            q_fixed_group_add: Scalar::of_int(0),
            q_variable_group_add: Scalar::of_int(0),
            q_lookup: Scalar::of_int(1),
            public_input: Scalar::of_int(0),
            w_l: a,
            w_r: b,
            w_o: c,
            w_4: d,
        }
    }
}

/// The left side of the equation of an arithmetic row whose wires carry
/// the values `a`, `b`, `c` and `d`:
/// `q_m·a·b + q_l·a + q_r·b + q_o·c + q_4·d + q_c + pi`.
pub open spec fn arithmetic_identity(row: GateRow, a: int, b: int, c: int, d: int) -> int {
    row.q_m@ * a * b + row.q_l@ * a + row.q_r@ * b + row.q_o@ * c + row.q_4@ * d + row.q_c@
        + row.public_input@
}

/// Whether a column holds an entry other than zero.
pub open spec fn alive(column: Seq<Scalar>) -> bool {
    exists|i: int| 0 <= i < column.len() && #[trigger] column[i] != Scalar::of_int(0)
}

/// A column with an entry more has an entry other than zero if it had one
/// before, or if the new entry is one.
pub proof fn lemma_alive_push(column: Seq<Scalar>, entry: Scalar)
    ensures
        alive(column) ==> alive(column.push(entry)),
        entry != Scalar::of_int(0) ==> alive(column.push(entry)),
{
    let longer = column.push(entry);
    if alive(column) {
        let i = choose|i: int| 0 <= i < column.len() && #[trigger] column[i] != Scalar::of_int(0);
        assert(longer[i] != Scalar::of_int(0));
    }
    if entry != Scalar::of_int(0) {
        assert(longer[column.len() as int] != Scalar::of_int(0));
    }
}

/// A circuit under construction, column by column.
pub struct Circuit {
    /// Multiplier selector column.
    pub q_m: Seq<Scalar>,
    /// Left wire selector column.
    pub q_l: Seq<Scalar>,
    /// Right wire selector column.
    pub q_r: Seq<Scalar>,
    /// Output wire selector column.
    pub q_o: Seq<Scalar>,
    /// Fourth wire selector column.
    pub q_4: Seq<Scalar>,
    /// Constant selector column.
    pub q_c: Seq<Scalar>,
    /// Arithmetic selector column.
    pub q_arith: Seq<Scalar>,
    /// Range selector column.
    pub q_range: Seq<Scalar>,
    /// Logic selector column.
    pub q_logic: Seq<Scalar>,
    /// Fixed-base group addition selector column.
    pub q_fixed_group_add: Seq<Scalar>,
    /// Variable-base group addition selector column.
    pub q_variable_group_add: Seq<Scalar>,
    /// Lookup selector column.
    pub q_lookup: Seq<Scalar>,
    /// Public input column.
    pub public_inputs: Seq<Scalar>,
    /// Left wire column.
    pub w_l: Seq<Variable>,
    /// Right wire column.
    pub w_r: Seq<Variable>,
    /// Output wire column.
    pub w_o: Seq<Variable>,
    /// Fourth wire column.
    pub w_4: Seq<Variable>,
    /// The variable that is bound to zero and pads unused wires.
    pub zero_var: Variable,
    /// For each variable, by its index, the value bound to it.
    pub witnesses: Seq<Option<Scalar>>,
    /// For each variable, by its index, the slots in which it occurs.
    pub occurrences: Seq<Seq<WireData>>,
}

impl Circuit {
    /// A circuit without rows or variables, whose padding variable is `zero_var`.
    pub open spec fn empty(zero_var: Variable) -> Circuit {
        Circuit {
            q_m: Seq::empty(),
            q_l: Seq::empty(),
            q_r: Seq::empty(),
            q_o: Seq::empty(),
            q_4: Seq::empty(),
            q_c: Seq::empty(),
            q_arith: Seq::empty(),
            q_range: Seq::empty(),
            q_logic: Seq::empty(),
            q_fixed_group_add: Seq::empty(),
            q_variable_group_add: Seq::empty(),
            q_lookup: Seq::empty(),
            public_inputs: Seq::empty(),
            w_l: Seq::empty(),
            w_r: Seq::empty(),
            w_o: Seq::empty(),
            w_4: Seq::empty(),
            zero_var,
            witnesses: Seq::empty(),
            occurrences: Seq::empty(),
        }
    }

    /// The number of rows.
    pub open spec fn size(self) -> nat {
        self.w_l.len()
    }

    /// Row `i`.
    pub open spec fn row(self, i: int) -> GateRow {
        GateRow {
            q_m: self.q_m[i],
            q_l: self.q_l[i],
            q_r: self.q_r[i],
            q_o: self.q_o[i],
            q_4: self.q_4[i],
            q_c: self.q_c[i],
            q_arith: self.q_arith[i],
            q_range: self.q_range[i],
            q_logic: self.q_logic[i],
            q_fixed_group_add: self.q_fixed_group_add[i],
            q_variable_group_add: self.q_variable_group_add[i],
            q_lookup: self.q_lookup[i],
            public_input: self.public_inputs[i],
            w_l: self.w_l[i],
            w_r: self.w_r[i],
            w_o: self.w_o[i],
            w_4: self.w_4[i],
        }
    }

    /// Whether a value is bound to `var`.
    pub open spec fn knows(self, var: Variable) -> bool {
        bound_in(self.witnesses, var)
    }

    /// The value bound to `var`.
    pub open spec fn value(self, var: Variable) -> Scalar {
        self.witnesses[var.0 as int].unwrap()
    }

    /// The variable on the wire at `slot`.
    pub open spec fn slot_variable(self, slot: WireData) -> Variable {
        match slot {
            WireData::Left(i) => self.w_l[i as int],
            WireData::Right(i) => self.w_r[i as int],
            WireData::Output(i) => self.w_o[i as int],
            WireData::Fourth(i) => self.w_4[i as int],
        }
    }

    /// The values on the four wires of row `i`, as a lookup query.
    pub open spec fn query(self, i: int) -> [Scalar; 4] {
        [
            self.value(self.w_l[i]),
            self.value(self.w_r[i]),
            self.value(self.w_o[i]),
            self.value(self.w_4[i]),
        ]
    }

    /// Whether the values on the wires of row `i` satisfy the equation of
    /// the row.
    pub open spec fn satisfied(self, i: int) -> bool {
        fe(
            arithmetic_identity(
                self.row(i),
                self.value(self.w_l[i])@,
                self.value(self.w_r[i])@,
                self.value(self.w_o[i])@,
                self.value(self.w_4[i])@,
            ),
        ) == 0
    }

    /// The circuit with one more variable, bound to `value`.
    pub open spec fn with_witness(self, value: Scalar) -> Circuit {
        Circuit {
            witnesses: self.witnesses.push(Some(value)),
            occurrences: self.occurrences.push(Seq::empty()),
            ..self
        }
    }

    /// The circuit with one more row: an entry more in every column, and
    /// the four wires of the row registered against their variables.
    pub open spec fn with_row(self, row: GateRow) -> Circuit {
        Circuit {
            q_m: self.q_m.push(row.q_m),
            q_l: self.q_l.push(row.q_l),
            q_r: self.q_r.push(row.q_r),
            q_o: self.q_o.push(row.q_o),
            q_4: self.q_4.push(row.q_4),
            q_c: self.q_c.push(row.q_c),
            q_arith: self.q_arith.push(row.q_arith),
            q_range: self.q_range.push(row.q_range),
            q_logic: self.q_logic.push(row.q_logic),
            q_fixed_group_add: self.q_fixed_group_add.push(row.q_fixed_group_add),
            q_variable_group_add: self.q_variable_group_add.push(row.q_variable_group_add),
            q_lookup: self.q_lookup.push(row.q_lookup),
            public_inputs: self.public_inputs.push(row.public_input),
            w_l: self.w_l.push(row.w_l),
            w_r: self.w_r.push(row.w_r),
            w_o: self.w_o.push(row.w_o),
            w_4: self.w_4.push(row.w_4),
            zero_var: self.zero_var,
            witnesses: self.witnesses,
            occurrences: with_gate(
                self.occurrences,
                row.w_l,
                row.w_r,
                row.w_o,
                row.w_4,
                self.w_l.len() as usize,
            ),
        }
    }

    /// The circuit with the four variables of the padding rows, bound to
    /// 6, 1, 7 and -20 in this order.
    pub open spec fn with_dummy_witnesses(self) -> Circuit {
        self.with_witness(Scalar::of_int(6)).with_witness(Scalar::of_int(1)).with_witness(
            Scalar::of_int(7),
        ).with_witness(Scalar::of_int(-20))
    }

    /// The circuit with the variables of the padding rows and the first
    /// padding row, whose wires carry 6, 7, -20 and 1.
    pub open spec fn with_one_dummy(self) -> Circuit {
        let k = self.witnesses.len();
        self.with_dummy_witnesses().with_row(
            GateRow::first_dummy(
                Variable(k as usize),
                Variable((k + 2) as usize),
                Variable((k + 3) as usize),
                Variable((k + 1) as usize),
            ),
        )
    }

    /// The circuit with both padding rows; the wires of the second carry
    /// -20, 6, 7 and the padding variable.
    pub open spec fn with_dummies(self) -> Circuit {
        let k = self.witnesses.len();
        self.with_one_dummy().with_row(
            GateRow::second_dummy(
                Variable((k + 3) as usize),
                Variable(k as usize),
                Variable((k + 2) as usize),
                self.zero_var,
            ),
        )
    }

    /// The circuit that every construction starts from: the padding
    /// variable, the row that forces it to zero, and the two padding rows.
    pub open spec fn initial() -> Circuit {
        Circuit::empty(Variable(0)).with_witness(Scalar::of_int(0)).with_row(
            GateRow::constant(Variable(0), Variable(0), Scalar::of_int(0), Scalar::of_int(0)),
        ).with_dummies()
    }

    /// No selector column is identically zero: each of the twelve holds an
    /// entry other than zero.
    pub open spec fn no_selector_vanishes(self) -> bool {
        &&& alive(self.q_m)
        &&& alive(self.q_l)
        &&& alive(self.q_r)
        &&& alive(self.q_o)
        &&& alive(self.q_4)
        &&& alive(self.q_c)
        &&& alive(self.q_arith)
        &&& alive(self.q_range)
        &&& alive(self.q_logic)
        &&& alive(self.q_fixed_group_add)
        &&& alive(self.q_variable_group_add)
        &&& alive(self.q_lookup)
    }

    /// Every column has one entry for each row.
    pub open spec fn synchronized(self) -> bool {
        &&& self.q_m.len() == self.size()
        &&& self.q_l.len() == self.size()
        &&& self.q_r.len() == self.size()
        &&& self.q_o.len() == self.size()
        &&& self.q_4.len() == self.size()
        &&& self.q_c.len() == self.size()
        &&& self.q_arith.len() == self.size()
        &&& self.q_range.len() == self.size()
        &&& self.q_logic.len() == self.size()
        &&& self.q_fixed_group_add.len() == self.size()
        &&& self.q_variable_group_add.len() == self.size()
        &&& self.q_lookup.len() == self.size()
        &&& self.public_inputs.len() == self.size()
        &&& self.w_l.len() == self.size()
        &&& self.w_r.len() == self.size()
        &&& self.w_o.len() == self.size()
        &&& self.w_4.len() == self.size()
    }

    /// Every variable on a wire has a value.
    pub open spec fn wires_bound(self) -> bool {
        &&& forall|i: int| 0 <= i < self.size() ==> self.knows(#[trigger] self.w_l[i])
        &&& forall|i: int| 0 <= i < self.size() ==> self.knows(#[trigger] self.w_r[i])
        &&& forall|i: int| 0 <= i < self.size() ==> self.knows(#[trigger] self.w_o[i])
        &&& forall|i: int| 0 <= i < self.size() ==> self.knows(#[trigger] self.w_4[i])
    }

    /// The padding variable is bound to zero.
    pub open spec fn zero_bound(self) -> bool {
        self.knows(self.zero_var) && self.value(self.zero_var) == Scalar::of_int(0)
    }

    /// The occurrence lists hold each wire slot of the circuit once, under
    /// the variable that the wire carries.
    pub open spec fn registered(self) -> bool {
        &&& self.occurrences.len() == self.witnesses.len()
        &&& partitions(self.occurrences, slots_below(self.size()))
        &&& self.occurrences_match(self.occurrences)
    }

    /// Every slot in `occ` is listed under the variable on its wire.
    pub open spec fn occurrences_match(self, occ: Seq<Seq<WireData>>) -> bool {
        forall|v: int, j: int|
            position(occ, v, j) ==> self.slot_variable(#[trigger] occ[v][j]).0 == v
    }

    /// The invariant of a circuit under construction.
    pub open spec fn well_formed(self) -> bool {
        &&& self.synchronized()
        &&& self.wires_bound()
        &&& self.registered()
        &&& self.size() <= usize::MAX
    }
}

/// A new variable keeps a circuit well formed, and what was known stays known.
pub proof fn lemma_with_witness_well_formed(c: Circuit, value: Scalar)
    requires
        c.well_formed(),
    ensures
        c.with_witness(value).well_formed(),
        c.with_witness(value).size() == c.size(),
        forall|var: Variable|
            var.0 == c.witnesses.len() ==> c.with_witness(value).knows(var) && c.with_witness(
                value,
            ).value(var) == value,
        forall|var: Variable|
            c.knows(var) ==> c.with_witness(value).knows(var) && c.with_witness(value).value(var)
                == c.value(var),
{
    let n = c.with_witness(value);
    assert forall|v: int, j: int| position(n.occurrences, v, j) implies position(
        c.occurrences,
        v,
        j,
    ) && #[trigger] n.occurrences[v][j] == c.occurrences[v][j] by {}
    assert forall|s: WireData| #[trigger]
        slots_below(n.size()).contains(s) implies exists|v: int, j: int|
        position(n.occurrences, v, j) && (#[trigger] n.occurrences[v][j]) == s by {
        let (v, j) = choose|v: int, j: int|
            position(c.occurrences, v, j) && (#[trigger] c.occurrences[v][j]) == s;
        assert(position(n.occurrences, v, j) && n.occurrences[v][j] == s);
    }
    assert(n.occurrences_match(n.occurrences));
}

/// Registering `slot` under the variable on its wire keeps the lists in
/// step with the wires.
proof fn lemma_with_occurrence_matches(c: Circuit, occ: Seq<Seq<WireData>>, v: int, slot: WireData)
    requires
        c.occurrences_match(occ),
        0 <= v < occ.len(),
        c.slot_variable(slot).0 == v,
    ensures
        c.occurrences_match(with_occurrence(occ, v, slot)),
{
    let next = with_occurrence(occ, v, slot);
    assert forall|w: int, j: int| position(next, w, j) implies c.slot_variable(
        #[trigger] next[w][j],
    ).0 == w by {
        if w == v && j == occ[v].len() {
        } else {
            assert(next[w][j] == occ[w][j]);
        }
    }
}

/// A new row whose wires carry known variables keeps a circuit well
/// formed, as long as the row count fits the machine.
pub proof fn lemma_with_row_well_formed(c: Circuit, row: GateRow)
    requires
        c.well_formed(),
        c.knows(row.w_l),
        c.knows(row.w_r),
        c.knows(row.w_o),
        c.knows(row.w_4),
        c.size() + 1 <= usize::MAX,
    ensures
        c.with_row(row).well_formed(),
        c.with_row(row).size() == c.size() + 1,
        c.with_row(row).row(c.size() as int) == row,
        forall|i: int| 0 <= i < c.size() ==> c.with_row(row).row(i) == c.row(i),
{
    let n = c.with_row(row);
    let g = c.size() as usize;
    lemma_with_gate_partitions(c.occurrences, row.w_l, row.w_r, row.w_o, row.w_4, g);
    assert(n.occurrences_match(c.occurrences)) by {
        assert forall|v: int, j: int| position(c.occurrences, v, j) implies n.slot_variable(
            #[trigger] c.occurrences[v][j],
        ).0 == v by {
            let s = c.occurrences[v][j];
            assert(slots_below(c.size()).contains(s));
            assert(n.slot_variable(s) == c.slot_variable(s));
        }
    }
    let o1 = with_occurrence(c.occurrences, row.w_l.0 as int, WireData::Left(g));
    lemma_with_occurrence_matches(n, c.occurrences, row.w_l.0 as int, WireData::Left(g));
    let o2 = with_occurrence(o1, row.w_r.0 as int, WireData::Right(g));
    lemma_with_occurrence_matches(n, o1, row.w_r.0 as int, WireData::Right(g));
    let o3 = with_occurrence(o2, row.w_o.0 as int, WireData::Output(g));
    lemma_with_occurrence_matches(n, o2, row.w_o.0 as int, WireData::Output(g));
    lemma_with_occurrence_matches(n, o3, row.w_4.0 as int, WireData::Fourth(g));
}

/// A new row leaves every selector column with an entry other than zero
/// that had one before.
pub proof fn lemma_with_row_keeps_selectors(c: Circuit, row: GateRow)
    requires
        c.no_selector_vanishes(),
    ensures
        c.with_row(row).no_selector_vanishes(),
{
    lemma_alive_push(c.q_m, row.q_m);
    lemma_alive_push(c.q_l, row.q_l);
    lemma_alive_push(c.q_r, row.q_r);
    lemma_alive_push(c.q_o, row.q_o);
    lemma_alive_push(c.q_4, row.q_4);
    lemma_alive_push(c.q_c, row.q_c);
    lemma_alive_push(c.q_arith, row.q_arith);
    lemma_alive_push(c.q_range, row.q_range);
    lemma_alive_push(c.q_logic, row.q_logic);
    lemma_alive_push(c.q_fixed_group_add, row.q_fixed_group_add);
    lemma_alive_push(c.q_variable_group_add, row.q_variable_group_add);
    lemma_alive_push(c.q_lookup, row.q_lookup);
}

/// With the first padding row, no selector column is identically zero,
/// whatever the circuit held before.
pub proof fn lemma_first_dummy_revives(
    c: Circuit,
    a: Variable,
    b: Variable,
    out: Variable,
    d: Variable,
)
    ensures
        c.with_row(GateRow::first_dummy(a, b, out, d)).no_selector_vanishes(),
{
    let row = GateRow::first_dummy(a, b, out, d);
    lemma_small_values();
    lemma_alive_push(c.q_m, row.q_m);
    lemma_alive_push(c.q_l, row.q_l);
    lemma_alive_push(c.q_r, row.q_r);
    lemma_alive_push(c.q_o, row.q_o);
    lemma_alive_push(c.q_4, row.q_4);
    lemma_alive_push(c.q_c, row.q_c);
    lemma_alive_push(c.q_arith, row.q_arith);
    lemma_alive_push(c.q_range, row.q_range);
    lemma_alive_push(c.q_logic, row.q_logic);
    lemma_alive_push(c.q_fixed_group_add, row.q_fixed_group_add);
    lemma_alive_push(c.q_variable_group_add, row.q_variable_group_add);
    lemma_alive_push(c.q_lookup, row.q_lookup);
}

/// The cycles of the wire permutation of a circuit are its variables: two
/// wire slots of the circuit lie on one cycle exactly when their wires
/// carry the same variable.
pub proof fn lemma_cycles_match_wires(
    c: Circuit,
    sigma: Sigma,
    n: nat,
    first: WireData,
    second: WireData,
)
    requires
        c.well_formed(),
        c.size() <= n,
        is_sigma_of(sigma, c.occurrences, c.size(), n),
        first.row() < c.size(),
        second.row() < c.size(),
    ensures
        sigma.same_cycle(first, second) <==> c.slot_variable(first) == c.slot_variable(second),
{
    let occ = c.occurrences;
    assert(slots_below(c.size()).contains(first));
    assert(slots_below(c.size()).contains(second));
    let (v1, j1) = choose|v: int, j: int| position(occ, v, j) && (#[trigger] occ[v][j]) == first;
    let (v2, j2) = choose|v: int, j: int| position(occ, v, j) && (#[trigger] occ[v][j]) == second;
    assert(c.slot_variable(occ[v1][j1]).0 == v1);
    assert(c.slot_variable(occ[v2][j2]).0 == v2);
    lemma_cycles_are_variables(sigma, occ, c.size(), n, v1, j1, v2, j2);
}

/// The initial circuit has three rows, the values on their wires satisfy
/// their equations, and the two padding rows, which are the rows with a
/// lookup, query `(6, 7, -20, 1)` and `(-20, 6, 7, 0)`.
pub proof fn lemma_initial_circuit()
    ensures
        Circuit::initial().size() == 3,
        Circuit::initial().well_formed(),
        Circuit::initial().zero_bound(),
        Circuit::initial().no_selector_vanishes(),
        Circuit::initial().satisfied(0),
        Circuit::initial().satisfied(1),
        Circuit::initial().satisfied(2),
        Circuit::initial().q_lookup[0] == Scalar::of_int(0),
        Circuit::initial().q_lookup[1] == Scalar::of_int(1),
        Circuit::initial().q_lookup[2] == Scalar::of_int(1),
        Circuit::initial().query(1) == [
            Scalar::of_int(6),
            Scalar::of_int(7),
            Scalar::of_int(-20),
            Scalar::of_int(1),
        ],
        Circuit::initial().query(2) == [
            Scalar::of_int(-20),
            Scalar::of_int(6),
            Scalar::of_int(7),
            Scalar::of_int(0),
        ],
{
    let zero = Variable(0);
    let c0 = Circuit::empty(zero);
    assert(c0.well_formed()) by {
        assert(slots_below(0) =~= Set::<WireData>::empty());
    }
    let c1 = c0.with_witness(Scalar::of_int(0));
    lemma_with_witness_well_formed(c0, Scalar::of_int(0));
    let r0 = GateRow::constant(zero, zero, Scalar::of_int(0), Scalar::of_int(0));
    let c2 = c1.with_row(r0);
    lemma_with_row_well_formed(c1, r0);
    let c3 = c2.with_witness(Scalar::of_int(6));
    lemma_with_witness_well_formed(c2, Scalar::of_int(6));
    let c4 = c3.with_witness(Scalar::of_int(1));
    lemma_with_witness_well_formed(c3, Scalar::of_int(1));
    let c5 = c4.with_witness(Scalar::of_int(7));
    lemma_with_witness_well_formed(c4, Scalar::of_int(7));
    let c6 = c5.with_witness(Scalar::of_int(-20));
    lemma_with_witness_well_formed(c5, Scalar::of_int(-20));
    assert(c6 == c2.with_dummy_witnesses());
    let six = Variable(1);
    let one = Variable(2);
    let seven = Variable(3);
    let min_twenty = Variable(4);
    let r1 = GateRow::first_dummy(six, seven, min_twenty, one);
    let c7 = c6.with_row(r1);
    lemma_with_row_well_formed(c6, r1);
    lemma_first_dummy_revives(c6, six, seven, min_twenty, one);
    assert(c7 == c2.with_one_dummy());
    let r2 = GateRow::second_dummy(min_twenty, six, seven, zero);
    let c8 = c7.with_row(r2);
    lemma_with_row_well_formed(c7, r2);
    lemma_with_row_keeps_selectors(c7, r2);
    assert(c8 == Circuit::initial());
    assert(c8.row(0) == r0);
    assert(c8.row(1) == r1);
    assert(c8.row(2) == r2);
    assert(c8.value(zero) == Scalar::of_int(0));
    assert(c8.value(six) == Scalar::of_int(6));
    assert(c8.value(one) == Scalar::of_int(1));
    assert(c8.value(seven) == Scalar::of_int(7));
    assert(c8.value(min_twenty) == Scalar::of_int(-20));
    lemma_small_values();
    let q = modulus();
    assert(arithmetic_identity(r0, 0, 0, 0, 0) == 0) by {
        assert(r0.q_m@ * 0 * 0 == 0) by (nonlinear_arith);
    }
    assert(arithmetic_identity(r1, 6, 7, q - 20, 1) == 4 * q);
    assert(arithmetic_identity(r2, q - 20, 6, 7, 0) == 7 * q);
    lemma_mod_multiples_basic(4, q);
    lemma_mod_multiples_basic(7, q);
    assert(c8.query(1) =~= [
        Scalar::of_int(6),
        Scalar::of_int(7),
        Scalar::of_int(-20),
        Scalar::of_int(1),
    ]);
    assert(c8.query(2) =~= [
        Scalar::of_int(-20),
        Scalar::of_int(6),
        Scalar::of_int(7),
        Scalar::of_int(0),
    ]);
}

/// The values of the scalars that the initial circuit is written with.
proof fn lemma_small_values()
    ensures
        Scalar::of_int(0)@ == 0,
        Scalar::of_int(1)@ == 1,
        Scalar::of_int(2)@ == 2,
        Scalar::of_int(3)@ == 3,
        Scalar::of_int(4)@ == 4,
        Scalar::of_int(6)@ == 6,
        Scalar::of_int(7)@ == 7,
        Scalar::of_int(127)@ == 127,
        Scalar::of_int(-0)@ == 0,
        Scalar::of_int(-20)@ == modulus() - 20,
        fe(0) == 0,
{
    lemma_of_int(0);
    lemma_of_int(1);
    lemma_of_int(2);
    lemma_of_int(3);
    lemma_of_int(4);
    lemma_of_int(6);
    lemma_of_int(7);
    lemma_of_int(127);
    lemma_of_int(-20);
    lemma_fe_canonical(0);
    lemma_fe_canonical(1);
    lemma_fe_canonical(2);
    lemma_fe_canonical(3);
    lemma_fe_canonical(4);
    lemma_fe_canonical(6);
    lemma_fe_canonical(7);
    lemma_fe_canonical(127);
    lemma_fe_canonical(modulus() - 20);
    lemma_mod_add_multiples_vanish(-20, modulus());
}

/// Wherever the padding rows are added, no selector column is identically
/// zero afterwards: the first of the rows holds an entry other than zero
/// in each of the twelve. The values on the wires of the rows satisfy their
/// equations, and what the rows query is `(6, 7, -20, 1)` and
/// `(-20, 6, 7, 0)`.
pub proof fn lemma_dummies(c: Circuit)
    requires
        c.well_formed(),
        c.zero_bound(),
        c.size() + 2 <= usize::MAX,
        c.witnesses.len() + 4 <= usize::MAX,
    ensures
        c.with_one_dummy().well_formed(),
        c.with_one_dummy().zero_bound(),
        c.with_one_dummy().size() == c.size() + 1,
        c.with_one_dummy().no_selector_vanishes(),
        c.with_one_dummy().satisfied(c.size() as int),
        c.with_one_dummy().query(c.size() as int) == [
            Scalar::of_int(6),
            Scalar::of_int(7),
            Scalar::of_int(-20),
            Scalar::of_int(1),
        ],
        c.with_dummies().well_formed(),
        c.with_dummies().zero_bound(),
        c.with_dummies().size() == c.size() + 2,
        c.with_dummies().no_selector_vanishes(),
        c.with_dummies().q_m[c.size() as int] != Scalar::of_int(0),
        c.with_dummies().q_l[c.size() as int] != Scalar::of_int(0),
        c.with_dummies().q_r[c.size() as int] != Scalar::of_int(0),
        c.with_dummies().q_o[c.size() as int] != Scalar::of_int(0),
        c.with_dummies().q_4[c.size() as int] != Scalar::of_int(0),
        c.with_dummies().q_c[c.size() as int] != Scalar::of_int(0),
        c.with_dummies().q_arith[c.size() as int] != Scalar::of_int(0),
        c.with_dummies().q_range[c.size() as int] != Scalar::of_int(0),
        c.with_dummies().q_logic[c.size() as int] != Scalar::of_int(0),
        c.with_dummies().q_fixed_group_add[c.size() as int] != Scalar::of_int(0),
        c.with_dummies().q_variable_group_add[c.size() as int] != Scalar::of_int(0),
        c.with_dummies().q_lookup[c.size() as int] != Scalar::of_int(0),
        c.with_dummies().satisfied(c.size() as int),
        c.with_dummies().satisfied(c.size() as int + 1),
        c.with_dummies().query(c.size() as int) == c.with_one_dummy().query(c.size() as int),
        c.with_dummies().query(c.size() as int + 1) == [
            Scalar::of_int(-20),
            Scalar::of_int(6),
            Scalar::of_int(7),
            Scalar::of_int(0),
        ],
{
    let k = c.witnesses.len();
    let c3 = c.with_witness(Scalar::of_int(6));
    lemma_with_witness_well_formed(c, Scalar::of_int(6));
    let c4 = c3.with_witness(Scalar::of_int(1));
    lemma_with_witness_well_formed(c3, Scalar::of_int(1));
    let c5 = c4.with_witness(Scalar::of_int(7));
    lemma_with_witness_well_formed(c4, Scalar::of_int(7));
    let c6 = c5.with_witness(Scalar::of_int(-20));
    lemma_with_witness_well_formed(c5, Scalar::of_int(-20));
    let six = Variable(k as usize);
    let one = Variable((k + 1) as usize);
    let seven = Variable((k + 2) as usize);
    let min_twenty = Variable((k + 3) as usize);
    let r1 = GateRow::first_dummy(six, seven, min_twenty, one);
    let c7 = c6.with_row(r1);
    lemma_with_row_well_formed(c6, r1);
    lemma_first_dummy_revives(c6, six, seven, min_twenty, one);
    assert(c7 == c.with_one_dummy());
    let r2 = GateRow::second_dummy(min_twenty, six, seven, c.zero_var);
    let c8 = c7.with_row(r2);
    lemma_with_row_well_formed(c7, r2);
    lemma_with_row_keeps_selectors(c7, r2);
    assert(c8 == c.with_dummies());
    let n = c.size() as int;
    assert(c7.row(n) == r1);
    assert(c8.row(n) == r1);
    assert(c8.row(n + 1) == r2);
    assert(c8.value(c.zero_var) == Scalar::of_int(0));
    assert(c8.value(six) == Scalar::of_int(6));
    assert(c8.value(one) == Scalar::of_int(1));
    assert(c8.value(seven) == Scalar::of_int(7));
    assert(c8.value(min_twenty) == Scalar::of_int(-20));
    lemma_small_values();
    let q = modulus();
    assert(arithmetic_identity(r1, 6, 7, q - 20, 1) == 4 * q);
    assert(arithmetic_identity(r2, q - 20, 6, 7, 0) == 7 * q);
    lemma_mod_multiples_basic(4, q);
    lemma_mod_multiples_basic(7, q);
    assert(c7.query(n) =~= [
        Scalar::of_int(6),
        Scalar::of_int(7),
        Scalar::of_int(-20),
        Scalar::of_int(1),
    ]);
    assert(c8.query(n) =~= c7.query(n));
    assert(c8.query(n + 1) =~= [
        Scalar::of_int(-20),
        Scalar::of_int(6),
        Scalar::of_int(7),
        Scalar::of_int(0),
    ]);
}

} // verus!
