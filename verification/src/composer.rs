//! The circuit builder.
//!
//! A [`PlookupComposer`] holds a circuit column by column. Every gate
//! constructor appends one entry to every column and registers the four
//! wires of the new row with the permutation tracker.

use crate::arena::Arena;
use crate::circuit::{
    lemma_first_dummy_revives, lemma_with_row_keeps_selectors, lemma_with_row_well_formed,
    lemma_with_witness_well_formed, Circuit, GateRow,
};
use crate::cs_errors::{PreProcessingError, UnknownVariable};
use crate::field::Scalar;
use crate::permutation::Permutation;
use crate::variable::{Variable, WireData};
use vstd::prelude::*;

verus! {

/// A circuit builder.
#[derive(Debug)]
pub struct PlookupComposer {
    // The number of rows.
    n: usize,
    // Multiplier selector.
    q_m: Vec<Scalar>,
    // Left wire selector.
    q_l: Vec<Scalar>,
    // Right wire selector.
    q_r: Vec<Scalar>,
    // Output wire selector.
    q_o: Vec<Scalar>,
    // Fourth wire selector.
    q_4: Vec<Scalar>,
    // Constant selector.
    q_c: Vec<Scalar>,
    // Arithmetic selector.
    q_arith: Vec<Scalar>,
    // Range selector.
    q_range: Vec<Scalar>,
    // Logic selector.
    q_logic: Vec<Scalar>,
    // Fixed-base group addition selector.
    q_fixed_group_add: Vec<Scalar>,
    // Variable-base group addition selector.
    q_variable_group_add: Vec<Scalar>,
    // Lookup selector.
    q_lookup: Vec<Scalar>,
    // Public inputs.
    public_inputs: Vec<Scalar>,
    // Left wire.
    w_l: Vec<Variable>,
    // Right wire.
    w_r: Vec<Variable>,
    // Output wire.
    w_o: Vec<Variable>,
    // Fourth wire.
    w_4: Vec<Variable>,
    // The variable that is bound to zero. A gate that uses three wires
    // puts it on the fourth.
    zero_var: Variable,
    // The values of the variables.
    variables: Arena,
    // The occurrences of the variables.
    perm: Permutation,
}

impl View for PlookupComposer {
    type V = Circuit;

    closed spec fn view(&self) -> Circuit {
        Circuit {
            q_m: self.q_m@,
            q_l: self.q_l@,
            q_r: self.q_r@,
            q_o: self.q_o@,
            q_4: self.q_4@,
            q_c: self.q_c@,
            q_arith: self.q_arith@,
            q_range: self.q_range@,
            q_logic: self.q_logic@,
            q_fixed_group_add: self.q_fixed_group_add@,
            q_variable_group_add: self.q_variable_group_add@,
            q_lookup: self.q_lookup@,
            public_inputs: self.public_inputs@,
            w_l: self.w_l@,
            w_r: self.w_r@,
            w_o: self.w_o@,
            w_4: self.w_4@,
            zero_var: self.zero_var,
            witnesses: self.variables@,
            occurrences: self.perm@,
        }
    }
}

impl PlookupComposer {
    /// The stored row count and the tracker's row count are those of the
    /// columns.
    pub closed spec fn counted(&self) -> bool {
        &&& self.n == self@.size()
        &&& self.perm.gates() == self@.size()
    }

    /// The columns are synchronized, every variable on a wire has a value,
    /// every wire slot is registered against its variable, and the padding
    /// variable is bound to zero.
    pub open spec fn consistent(&self) -> bool {
        &&& self@.well_formed()
        &&& self@.zero_bound()
        &&& self.counted()
    }

    /// The invariant of the builder: it is consistent, and no selector
    /// column is identically zero.
    pub open spec fn wf(&self) -> bool {
        &&& self.consistent()
        &&& self@.no_selector_vanishes()
    }

    /// Returns the number of gates in the circuit.
    pub fn circuit_size(&self) -> (r: usize)
        requires
            self.wf(),
        ensures
            r == self@.size(),
    {
        self.n
    }

    /// The variable that is bound to zero and pads the wires that a gate
    /// does not use.
    pub fn zero_var(&self) -> (r: Variable)
        ensures
            r == self@.zero_var,
    {
        self.zero_var
    }

    /// Ends the construction. Only a frozen circuit hands out its rows, and
    /// no row can be added to it: what is derived from the rows cannot be
    /// invalidated by a later gate.
    pub fn freeze(self) -> (r: FrozenCircuit)
        requires
            self.wf(),
        ensures
            r@ == self@,
            r.wf(),
    {
        FrozenCircuit { circuit: self }
    }

    /// Generates a new `PlookupComposer` that holds the initial circuit,
    /// with no room reserved for more rows.
    pub fn new() -> (r: PlookupComposer)
        ensures
            r@ == Circuit::initial(),
            r@.size() == 3,
            r.wf(),
    {
        PlookupComposer::with_expected_size(0)
    }

    /// Fixes a variable in the witness to be a part of the circuit
    /// description: a new variable bound to `value`, and a row that forces
    /// it to equal `value`.
    pub fn add_witness_to_circuit_description(&mut self, value: Scalar) -> (var: Variable)
        requires
            old(self).wf(),
        ensures
            var.0 == old(self)@.witnesses.len(),
            final(self)@ == old(self)@.with_witness(value).with_row(
                GateRow::constant(var, old(self)@.zero_var, value, Scalar::of_int(0)),
            ),
            final(self)@.size() == old(self)@.size() + 1,
            final(self).wf(),
    {
        let var = self.add_input(value);
        self.constrain_to_constant(var, value, Scalar::zero());
        var
    }

    /// Creates the initial circuit, with room for `expected_size` rows.
    ///
    /// The initial circuit holds the padding variable, the row that forces
    /// it to zero, and the two padding rows.
    pub fn with_expected_size(expected_size: usize) -> (r: PlookupComposer)
        ensures
            r@ == Circuit::initial(),
            r@.size() == 3,
            r.wf(),
    {
        let mut composer = PlookupComposer {
            n: 0,
            q_m: Vec::with_capacity(expected_size),
            q_l: Vec::with_capacity(expected_size),
            q_r: Vec::with_capacity(expected_size),
            q_o: Vec::with_capacity(expected_size),
            q_4: Vec::with_capacity(expected_size),
            q_c: Vec::with_capacity(expected_size),
            q_arith: Vec::with_capacity(expected_size),
            q_range: Vec::with_capacity(expected_size),
            q_logic: Vec::with_capacity(expected_size),
            q_fixed_group_add: Vec::with_capacity(expected_size),
            q_variable_group_add: Vec::with_capacity(expected_size),
            q_lookup: Vec::with_capacity(expected_size),
            public_inputs: Vec::with_capacity(expected_size),
            w_l: Vec::with_capacity(expected_size),
            w_r: Vec::with_capacity(expected_size),
            w_o: Vec::with_capacity(expected_size),
            w_4: Vec::with_capacity(expected_size),
            zero_var: Variable(0),
            variables: Arena::with_capacity(expected_size),
            perm: Permutation::new(),
        };
        assert(composer@ =~~= Circuit::empty(Variable(0)));

        // Reserve the first variable to be zero, and force it to be zero
        let zero = composer.new_witness(Scalar::zero());
        composer.zero_var = zero;
        composer.append(
            GateRow {
                q_m: Scalar::zero(),
                q_l: Scalar::one(),
                q_r: Scalar::zero(),
                q_o: Scalar::zero(),
                q_4: Scalar::zero(),
                q_c: Scalar::zero().neg(),
                q_arith: Scalar::one(),
                q_range: Scalar::zero(),
                q_logic: Scalar::zero(),
                q_fixed_group_add: Scalar::zero(),
                q_variable_group_add: Scalar::zero(),
                q_lookup: Scalar::zero(),
                public_input: Scalar::zero(),
                w_l: zero,
                w_r: zero,
                w_o: zero,
                w_4: zero,
            },
        );

        // Add dummy constraints
        composer.add_dummy_constraints();

        composer
    }

    /// Issues a new variable and binds `s` to it.
    fn new_witness(&mut self, s: Scalar) -> (var: Variable)
        requires
            old(self)@.well_formed(),
            old(self).counted(),
        ensures
            var.0 == old(self)@.witnesses.len(),
            final(self)@ == old(self)@.with_witness(s),
            final(self)@.well_formed(),
            final(self).counted(),
            final(self)@.knows(var),
            final(self)@.value(var) == s,
            forall|other: Variable|
                old(self)@.knows(other) ==> final(self)@.knows(other) && final(self)@.value(other)
                    == old(self)@.value(other),
            old(self)@.no_selector_vanishes() ==> final(self)@.no_selector_vanishes(),
            final(self)@.witnesses.len() <= usize::MAX,
    {
        let var = self.variables.new_variable();
        self.variables.bind(var, s);
        self.perm.track(var);
        proof {
            lemma_with_witness_well_formed(old(self)@, s);
            assert(self.variables@ =~= old(self).variables@.push(Some(s)));
            assert(self@.witnesses == old(self)@.with_witness(s).witnesses);
            assert(self@.occurrences == old(self)@.with_witness(s).occurrences);
            assert(self@ =~~= old(self)@.with_witness(s));
        }
        var
    }

    /// Appends `row` to the columns and registers its wires.
    fn append(&mut self, row: GateRow)
        requires
            old(self)@.well_formed(),
            old(self).counted(),
            old(self)@.knows(row.w_l),
            old(self)@.knows(row.w_r),
            old(self)@.knows(row.w_o),
            old(self)@.knows(row.w_4),
        ensures
            final(self)@ == old(self)@.with_row(row),
            final(self)@.size() == old(self)@.size() + 1,
            final(self)@.well_formed(),
            final(self).counted(),
            old(self)@.no_selector_vanishes() ==> final(self)@.no_selector_vanishes(),
    {
        self.w_l.push(row.w_l);
        self.w_r.push(row.w_r);
        self.w_o.push(row.w_o);
        self.w_4.push(row.w_4);
        self.q_m.push(row.q_m);
        self.q_l.push(row.q_l);
        self.q_r.push(row.q_r);
        self.q_o.push(row.q_o);
        self.q_4.push(row.q_4);
        self.q_c.push(row.q_c);
        self.q_arith.push(row.q_arith);
        self.q_range.push(row.q_range);
        self.q_logic.push(row.q_logic);
        self.q_fixed_group_add.push(row.q_fixed_group_add);
        self.q_variable_group_add.push(row.q_variable_group_add);
        self.q_lookup.push(row.q_lookup);
        self.public_inputs.push(row.public_input);
        let rows = self.w_l.len();
        self.perm.add_variables_to_map(row.w_l, row.w_r, row.w_o, row.w_4, self.n);
        self.n = rows;
        proof {
            lemma_with_row_well_formed(old(self)@, row);
            assert(self@ =~~= old(self)@.with_row(row));
            if old(self)@.no_selector_vanishes() {
                lemma_with_row_keeps_selectors(old(self)@, row);
            }
        }
    }

    /// Add Input creates a new variable, binds `s` to it, and returns the
    /// variable for use in the system. No row is added.
    pub fn add_input(&mut self, s: Scalar) -> (var: Variable)
        requires
            old(self).wf(),
        ensures
            var.0 == old(self)@.witnesses.len(),
            !old(self)@.knows(var),
            final(self)@ == old(self)@.with_witness(s),
            final(self)@.witnesses.len() <= usize::MAX,
            final(self)@.knows(var),
            final(self)@.value(var) == s,
            forall|other: Variable|
                old(self)@.knows(other) ==> final(self)@.knows(other) && final(self)@.value(other)
                    == old(self)@.value(other),
            final(self).wf(),
    {
        self.new_witness(s)
    }

    /// Whether `var` is a variable of this circuit.
    pub fn is_known(&self, var: Variable) -> (r: bool)
        ensures
            r == self@.knows(var),
    {
        self.variables.resolve(var).is_ok()
    }

    /// The value bound to `var`.
    pub fn value_of(&self, var: Variable) -> (r: Result<Scalar, UnknownVariable>)
        ensures
            self@.knows(var) ==> r == Ok::<Scalar, UnknownVariable>(self@.value(var)),
            !self@.knows(var) ==> r == Err::<Scalar, UnknownVariable>(
                UnknownVariable { variable: var },
            ),
    {
        self.variables.resolve(var)
    }

    /// This pushes the result of a lookup read to a gate: a row whose only
    /// selector is the lookup selector, with the wires `(a, b, c)`, the
    /// padding variable on the fourth wire, and no public input.
    ///
    /// Whether `(a, b, c)` is in any table is not looked at here. The row
    /// is refused, and nothing changes, if one of the wires names a
    /// variable that the circuit does not know; the error names the first
    /// such wire.
    pub fn lookup_gate(&mut self, a: Variable, b: Variable, c: Variable) -> (r: Result<
        (),
        PreProcessingError,
    >)
        requires
            old(self).wf(),
        ensures
            final(self).wf(),
            old(self)@.knows(a) && old(self)@.knows(b) && old(self)@.knows(c) ==> r == Ok::<
                (),
                PreProcessingError,
            >(()) && final(self)@ == old(self)@.with_row(
                GateRow::lookup(a, b, c, old(self)@.zero_var, Scalar::of_int(0)),
            ) && final(self)@.size() == old(self)@.size() + 1,
            !(old(self)@.knows(a) && old(self)@.knows(b) && old(self)@.knows(c)) ==> r
                == Err::<(), PreProcessingError>(
                PreProcessingError::UnknownVariable(
                    UnknownVariable {
                        variable: if !old(self)@.knows(a) {
                            a
                        } else if !old(self)@.knows(b) {
                            b
                        } else {
                            c
                        },
                    },
                ),
            ) && final(self)@ == old(self)@,
    {
        if !self.is_known(a) {
            return Err(PreProcessingError::UnknownVariable(UnknownVariable { variable: a }));
        }
        if !self.is_known(b) {
            return Err(PreProcessingError::UnknownVariable(UnknownVariable { variable: b }));
        }
        if !self.is_known(c) {
            return Err(PreProcessingError::UnknownVariable(UnknownVariable { variable: c }));
        }
        let row = GateRow {
            q_m: Scalar::zero(),
            q_l: Scalar::zero(),
            q_r: Scalar::zero(),
            q_o: Scalar::zero(),
            q_4: Scalar::zero(),
            q_c: Scalar::zero(),
            q_arith: Scalar::zero(),
            q_range: Scalar::zero(),
            q_logic: Scalar::zero(),
            q_fixed_group_add: Scalar::zero(),
            q_variable_group_add: Scalar::zero(),
            q_lookup: Scalar::one(),
            public_input: Scalar::zero(),
            w_l: a,
            w_r: b,
            w_o: c,
            w_4: self.zero_var,
        };
        self.append(row);
        Ok(())
    }

    /// Adds a width-3 poly gate.
    /// This gate gives total freedom to the end user to implement the
    /// corresponding circuits in the most optimized way possible because
    /// the user has access to the whole set of variables, as well as
    /// selector coefficients that take part in the computation of its
    /// equation.
    ///
    /// The final constraint added will force the following:
    /// `(a * b) * q_m + a * q_l + b * q_r + q_c + PI + q_o * c = 0`.
    pub fn poly_gate(
        &mut self,
        a: Variable,
        b: Variable,
        c: Variable,
        q_m: Scalar,
        q_l: Scalar,
        q_r: Scalar,
        q_o: Scalar,
        q_c: Scalar,
        pi: Scalar,
    ) -> (r: (Variable, Variable, Variable))
        requires
            old(self).wf(),
            old(self)@.knows(a),
            old(self)@.knows(b),
            old(self)@.knows(c),
        ensures
            r == (a, b, c),
            final(self)@ == old(self)@.with_row(
                GateRow::arithmetic(a, b, c, old(self)@.zero_var, q_m, q_l, q_r, q_o, q_c, pi),
            ),
            final(self)@.size() == old(self)@.size() + 1,
            final(self).wf(),
    {
        let row = GateRow {
            q_m,
            q_l,
            q_r,
            q_o,
            q_4: Scalar::zero(),
            q_c,
            q_arith: Scalar::one(),
            q_range: Scalar::zero(),
            q_logic: Scalar::zero(),
            q_fixed_group_add: Scalar::zero(),
            q_variable_group_add: Scalar::zero(),
            q_lookup: Scalar::zero(),
            public_input: pi,
            w_l: a,
            w_r: b,
            w_o: c,
            w_4: self.zero_var,
        };
        self.append(row);
        (a, b, c)
    }

    /// Adds a gate which is designed to constrain a `Variable` to have
    /// a specific constant value which is sent as a `Scalar`.
    pub fn constrain_to_constant(&mut self, a: Variable, constant: Scalar, pi: Scalar)
        requires
            old(self).wf(),
            old(self)@.knows(a),
        ensures
            final(self)@ == old(self)@.with_row(
                GateRow::constant(a, old(self)@.zero_var, constant, pi),
            ),
            final(self)@.size() == old(self)@.size() + 1,
            final(self).wf(),
    {
        self.poly_gate(
            a,
            a,
            a,
            Scalar::zero(),
            Scalar::one(),
            Scalar::zero(),
            Scalar::zero(),
            constant.neg(),
            pi,
        );
    }

    /// Asserts that two variables are the same, at the cost of one row.
    pub fn assert_equal(&mut self, a: Variable, b: Variable)
        requires
            old(self).wf(),
            old(self)@.knows(a),
            old(self)@.knows(b),
        ensures
            final(self)@ == old(self)@.with_row(GateRow::equality(a, b, old(self)@.zero_var)),
            final(self)@.size() == old(self)@.size() + 1,
            final(self).wf(),
    {
        self.poly_gate(
            a,
            b,
            self.zero_var,
            Scalar::zero(),
            Scalar::one(),
            Scalar::one().neg(),
            Scalar::zero(),
            Scalar::zero(),
            Scalar::zero(),
        );
    }

    /// Issues the four variables of the padding rows, bound to 6, 1, 7 and
    /// -20, and appends the first padding row.
    fn append_first_dummy(&mut self) -> (r: (Variable, Variable, Variable))
        requires
            old(self).consistent(),
        ensures
            final(self)@ == old(self)@.with_one_dummy(),
            final(self)@.size() == old(self)@.size() + 1,
            final(self)@.witnesses.len() == old(self)@.witnesses.len() + 4,
            final(self)@.witnesses.len() <= usize::MAX,
            final(self).wf(),
            r.0.0 == old(self)@.witnesses.len(),
            r.1.0 == old(self)@.witnesses.len() + 2,
            r.2.0 == old(self)@.witnesses.len() + 3,
            final(self)@.knows(r.0),
            final(self)@.knows(r.1),
            final(self)@.knows(r.2),
    {
        let var_six = self.new_witness(Scalar::from_u64(6));
        let var_one = self.new_witness(Scalar::from_u64(1));
        let var_seven = self.new_witness(Scalar::from_u64(7));
        let var_min_twenty = self.new_witness(Scalar::from_u64(20).neg());
        let ghost before = self@;
        let row = GateRow {
            q_m: Scalar::from_u64(1),
            q_l: Scalar::from_u64(2),
            q_r: Scalar::from_u64(3),
            q_o: Scalar::from_u64(4),
            q_4: Scalar::one(),
            q_c: Scalar::from_u64(4),
            q_arith: Scalar::one(),
            q_range: Scalar::one(),
            q_logic: Scalar::one(),
            q_fixed_group_add: Scalar::one(),
            q_variable_group_add: Scalar::one(),
            q_lookup: Scalar::one(),
            public_input: Scalar::zero(),
            w_l: var_six,
            w_r: var_seven,
            w_o: var_min_twenty,
            w_4: var_one,
        };
        self.append(row);
        proof {
            lemma_first_dummy_revives(before, var_six, var_seven, var_min_twenty, var_one);
        }
        (var_six, var_seven, var_min_twenty)
    }

    /// Adds a single dummy constraint: four new variables, bound to 6, 1, 7
    /// and -20, and the first padding row on them. Afterwards no selector
    /// column is identically zero, whatever the circuit held before.
    pub fn add_one_dummy_constraint(&mut self)
        requires
            old(self).consistent(),
        ensures
            final(self)@ == old(self)@.with_one_dummy(),
            final(self)@.size() == old(self)@.size() + 1,
            final(self)@.witnesses.len() == old(self)@.witnesses.len() + 4,
            final(self)@.witnesses.len() <= usize::MAX,
            final(self)@.no_selector_vanishes(),
            final(self).wf(),
    {
        self.append_first_dummy();
    }

    /// Adds the two padding rows, on four new variables bound to 6, 1, 7
    /// and -20. The first leaves no selector column identically zero,
    /// whatever the circuit held before; the second keeps the wire
    /// permutation from being the identity.
    pub fn add_dummy_constraints(&mut self)
        requires
            old(self).consistent(),
        ensures
            final(self)@ == old(self)@.with_dummies(),
            final(self)@.size() == old(self)@.size() + 2,
            final(self)@.witnesses.len() == old(self)@.witnesses.len() + 4,
            final(self)@.witnesses.len() <= usize::MAX,
            final(self)@.no_selector_vanishes(),
            final(self).wf(),
    {
        // Add a dummy constraint so that we do not have zero polynomials
        let (var_six, var_seven, var_min_twenty) = self.append_first_dummy();
        // Add another dummy constraint so that we do not get the identity permutation
        let row = GateRow {
            q_m: Scalar::from_u64(1),
            q_l: Scalar::from_u64(1),
            q_r: Scalar::from_u64(1),
            q_o: Scalar::from_u64(1),
            q_4: Scalar::zero(),
            q_c: Scalar::from_u64(127),
            q_arith: Scalar::one(),
            q_range: Scalar::zero(),
            q_logic: Scalar::zero(),
            q_fixed_group_add: Scalar::zero(),
            q_variable_group_add: Scalar::zero(),
            q_lookup: Scalar::one(),
            public_input: Scalar::zero(),
            w_l: var_min_twenty,
            w_r: var_six,
            w_o: var_seven,
            w_4: self.zero_var,
        };
        self.append(row);
    }

    /// Adds a plookup gate to the circuit: a row whose only selector is the
    /// lookup selector, with the wires `(a, b, c, d)`, where the padding
    /// variable stands in for an absent `d`. Returns the output wire.
    pub fn plookup_gate(
        &mut self,
        a: Variable,
        b: Variable,
        c: Variable,
        d: Option<Variable>,
        pi: Scalar,
    ) -> (r: Variable)
        requires
            old(self).wf(),
            old(self)@.knows(a),
            old(self)@.knows(b),
            old(self)@.knows(c),
            d is Some ==> old(self)@.knows(d->0),
        ensures
            r == c,
            final(self)@ == old(self)@.with_row(
                GateRow::lookup(
                    a,
                    b,
                    c,
                    match d {
                        Some(var) => var,
                        None => old(self)@.zero_var,
                    },
                    pi,
                ),
            ),
            final(self)@.size() == old(self)@.size() + 1,
            final(self).wf(),
    {
        // Check if advice wire has a value
        let d = match d {
            Some(var) => var,
            None => self.zero_var,
        };
        let row = GateRow {
            q_m: Scalar::zero(),
            q_l: Scalar::zero(),
            q_r: Scalar::zero(),
            q_o: Scalar::zero(),
            q_4: Scalar::zero(),
            q_c: Scalar::zero(),
            q_arith: Scalar::zero(),
            q_range: Scalar::zero(),
            q_logic: Scalar::zero(),
            q_fixed_group_add: Scalar::zero(),
            q_variable_group_add: Scalar::zero(),
            // For a lookup gate, only one selector poly is
            // turned on as the output is inputted directly
            q_lookup: Scalar::one(),
            public_input: pi,
            w_l: a,
            w_r: b,
            w_o: c,
            w_4: d,
        };
        self.append(row);
        c
    }
}

/// A circuit whose construction has ended: its rows can be read, and none
/// can be added.
#[derive(Debug)]
pub struct FrozenCircuit {
    circuit: PlookupComposer,
}

impl View for FrozenCircuit {
    type V = Circuit;

    closed spec fn view(&self) -> Circuit {
        self.circuit@
    }
}

impl FrozenCircuit {
    /// The invariant of the builder, which the frozen circuit keeps.
    pub closed spec fn wf(&self) -> bool {
        self.circuit.wf()
    }

    /// Returns the number of gates in the circuit.
    pub fn circuit_size(&self) -> (r: usize)
        requires
            self.wf(),
        ensures
            r == self@.size(),
    {
        self.circuit.n
    }

    /// The value bound to `var`.
    pub fn value_of(&self, var: Variable) -> (r: Result<Scalar, UnknownVariable>)
        ensures
            self@.knows(var) ==> r == Ok::<Scalar, UnknownVariable>(self@.value(var)),
            !self@.knows(var) ==> r == Err::<Scalar, UnknownVariable>(
                UnknownVariable { variable: var },
            ),
    {
        self.circuit.variables.resolve(var)
    }

    /// The column of the multiplier selector, one entry for each row.
    pub fn q_m(&self) -> (r: &Vec<Scalar>)
        ensures
            r@ == self@.q_m,
    {
        &self.circuit.q_m
    }

    /// The column of the left wire selector, one entry for each row.
    pub fn q_l(&self) -> (r: &Vec<Scalar>)
        ensures
            r@ == self@.q_l,
    {
        &self.circuit.q_l
    }

    /// The column of the right wire selector, one entry for each row.
    pub fn q_r(&self) -> (r: &Vec<Scalar>)
        ensures
            r@ == self@.q_r,
    {
        &self.circuit.q_r
    }

    /// The column of the output wire selector, one entry for each row.
    pub fn q_o(&self) -> (r: &Vec<Scalar>)
        ensures
            r@ == self@.q_o,
    {
        &self.circuit.q_o
    }

    /// The column of the fourth wire selector, one entry for each row.
    pub fn q_4(&self) -> (r: &Vec<Scalar>)
        ensures
            r@ == self@.q_4,
    {
        &self.circuit.q_4
    }

    /// The column of the constant selector, one entry for each row.
    pub fn q_c(&self) -> (r: &Vec<Scalar>)
        ensures
            r@ == self@.q_c,
    {
        &self.circuit.q_c
    }

    /// The column of the arithmetic selector, one entry for each row.
    pub fn q_arith(&self) -> (r: &Vec<Scalar>)
        ensures
            r@ == self@.q_arith,
    {
        &self.circuit.q_arith
    }

    /// The column of the range selector, one entry for each row.
    pub fn q_range(&self) -> (r: &Vec<Scalar>)
        ensures
            r@ == self@.q_range,
    {
        &self.circuit.q_range
    }

    /// The column of the logic selector, one entry for each row.
    pub fn q_logic(&self) -> (r: &Vec<Scalar>)
        ensures
            r@ == self@.q_logic,
    {
        &self.circuit.q_logic
    }

    /// The column of the fixed-base group addition selector, one entry for each row.
    pub fn q_fixed_group_add(&self) -> (r: &Vec<Scalar>)
        ensures
            r@ == self@.q_fixed_group_add,
    {
        &self.circuit.q_fixed_group_add
    }

    /// The column of the variable-base group addition selector, one entry for each row.
    pub fn q_variable_group_add(&self) -> (r: &Vec<Scalar>)
        ensures
            r@ == self@.q_variable_group_add,
    {
        &self.circuit.q_variable_group_add
    }

    /// The column of the lookup selector, one entry for each row.
    pub fn q_lookup(&self) -> (r: &Vec<Scalar>)
        ensures
            r@ == self@.q_lookup,
    {
        &self.circuit.q_lookup
    }

    /// The column of the public inputs, one entry for each row.
    pub fn public_inputs(&self) -> (r: &Vec<Scalar>)
        ensures
            r@ == self@.public_inputs,
    {
        &self.circuit.public_inputs
    }

    /// The column of the left wires, one variable for each row.
    pub fn w_l(&self) -> (r: &Vec<Variable>)
        ensures
            r@ == self@.w_l,
    {
        &self.circuit.w_l
    }

    /// The column of the right wires, one variable for each row.
    pub fn w_r(&self) -> (r: &Vec<Variable>)
        ensures
            r@ == self@.w_r,
    {
        &self.circuit.w_r
    }

    /// The column of the output wires, one variable for each row.
    pub fn w_o(&self) -> (r: &Vec<Variable>)
        ensures
            r@ == self@.w_o,
    {
        &self.circuit.w_o
    }

    /// The column of the fourth wires, one variable for each row.
    pub fn w_4(&self) -> (r: &Vec<Variable>)
        ensures
            r@ == self@.w_4,
    {
        &self.circuit.w_4
    }

    /// The variable that is bound to zero and pads the wires that a gate
    /// does not use.
    pub fn zero_var(&self) -> (r: Variable)
        ensures
            r == self@.zero_var,
    {
        self.circuit.zero_var
    }

    /// Gives the circuit up for the record of occurrences, from which the
    /// wire permutation is compiled.
    pub fn into_permutation(self) -> (r: Permutation)
        requires
            self.wf(),
        ensures
            r@ == self@.occurrences,
            r.gates() == self@.size(),
            r.wf(),
    {
        self.circuit.perm
    }
}

/// A frozen circuit is well formed: its columns are synchronized, the
/// variables on its wires have values, and no selector column is
/// identically zero.
pub proof fn lemma_frozen_well_formed(frozen: &FrozenCircuit)
    requires
        frozen.wf(),
    ensures
        frozen@.well_formed(),
        frozen@.zero_bound(),
        frozen@.no_selector_vanishes(),
{
}

/// Whatever gates were added, every selector column, every wire column
/// and the column of public inputs has exactly as many entries as the
/// circuit has rows.
pub proof fn lemma_columns_have_circuit_size(composer: &PlookupComposer)
    requires
        composer.wf(),
    ensures
        composer@.q_m.len() == composer@.size(),
        composer@.q_l.len() == composer@.size(),
        composer@.q_r.len() == composer@.size(),
        composer@.q_o.len() == composer@.size(),
        composer@.q_4.len() == composer@.size(),
        composer@.q_c.len() == composer@.size(),
        composer@.q_arith.len() == composer@.size(),
        composer@.q_range.len() == composer@.size(),
        composer@.q_logic.len() == composer@.size(),
        composer@.q_fixed_group_add.len() == composer@.size(),
        composer@.q_variable_group_add.len() == composer@.size(),
        composer@.q_lookup.len() == composer@.size(),
        composer@.public_inputs.len() == composer@.size(),
        composer@.w_l.len() == composer@.size(),
        composer@.w_r.len() == composer@.size(),
        composer@.w_o.len() == composer@.size(),
        composer@.w_4.len() == composer@.size(),
{
}

/// Whatever gates were added, the variable on any wire of the circuit has
/// a value, so that resolving it does not fail.
pub proof fn lemma_wires_resolve(composer: &PlookupComposer, slot: WireData)
    requires
        composer.wf(),
        slot.row() < composer@.size(),
    ensures
        composer@.knows(composer@.slot_variable(slot)),
{
    let i = slot.row() as int;
    assert(composer@.knows(composer@.w_l[i]));
    assert(composer@.knows(composer@.w_r[i]));
    assert(composer@.knows(composer@.w_o[i]));
    assert(composer@.knows(composer@.w_4[i]));
}

impl Default for PlookupComposer {
    fn default() -> (r: PlookupComposer)
        ensures
            r@ == Circuit::initial(),
            r.wf(),
    {
        PlookupComposer::new()
    }
}

} // verus!
