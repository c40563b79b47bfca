//! The circuit model: the relation between a public input and a witness
//! that a proof is about.

use vstd::prelude::*;

use crate::field::{add_mod, all_elements, check_elements, mul_mod, product_mod, sum_mod};

verus! {

/// One constraint over the circuit's variables. Variables are numbered
/// with the public ones first and the witness ones after them.
#[derive(Clone, Copy, Debug, PartialEq, Eq)]
pub enum Constraint {
    /// The variable `out` is the sum of `left` and `right`.
    Add { left: usize, right: usize, out: usize },
    /// The variable `out` is the product of `left` and `right`.
    Mul { left: usize, right: usize, out: usize },
}

/// What a circuit is: how many variables of each kind it has, and the
/// constraints over them.
pub struct Circuit {
    pub public_count: nat,
    pub witness_count: nat,
    pub constraints: Seq<Constraint>,
}

/// Whether the three variables of `constraint` are among the first
/// `variables`.
pub open spec fn constraint_in_range(constraint: Constraint, variables: nat) -> bool {
    match constraint {
        Constraint::Add { left, right, out } => {
            left < variables && right < variables && out < variables
        },
        Constraint::Mul { left, right, out } => {
            left < variables && right < variables && out < variables
        },
    }
}

/// Whether `values`, one per variable, meet `constraint`.
pub open spec fn constraint_holds(constraint: Constraint, values: Seq<u64>) -> bool {
    match constraint {
        Constraint::Add { left, right, out } => values[out as int] == sum_mod(
            values[left as int],
            values[right as int],
        ),
        Constraint::Mul { left, right, out } => values[out as int] == product_mod(
            values[left as int],
            values[right as int],
        ),
    }
}

/// The bound of a witness variable: its value is that of a byte, below
/// this bound. The verifier tries every witness, so a witness variable has
/// few values.
pub const WITNESS_BOUND: u64 = 256;

/// Whether every entry of `values` is the value of a byte.
pub open spec fn all_bytes(values: Seq<u64>) -> bool {
    forall|i: int| 0 <= i < values.len() ==> #[trigger] values[i] < WITNESS_BOUND
}

/// Number of words that one constraint takes.
pub const CONSTRAINT_WORDS: usize = 4;

/// Number of words before the constraints: the two variable counts and the
/// number of constraints.
pub const COUNT_WORDS: usize = 3;

/// The four words of `constraint`: its kind, 0 for a sum and 1 for a
/// product, then its three variables.
pub open spec fn constraint_words(constraint: Constraint) -> Seq<u64> {
    match constraint {
        Constraint::Add { left, right, out } => seq![0u64, left as u64, right as u64, out as u64],
        Constraint::Mul { left, right, out } => seq![1u64, left as u64, right as u64, out as u64],
    }
}

/// The words of `constraints`, one constraint after the other.
pub open spec fn constraints_words(constraints: Seq<Constraint>) -> Seq<u64>
    decreases constraints.len(),
{
    if constraints.len() == 0 {
        Seq::empty()
    } else {
        constraints_words(constraints.drop_last()) + constraint_words(constraints.last())
    }
}

impl Circuit {
    /// The number of variables, public and witness together.
    pub open spec fn variable_count(self) -> nat {
        self.public_count + self.witness_count
    }

    /// Every constraint speaks of variables that the circuit has.
    pub open spec fn well_formed(self) -> bool {
        forall|i: int|
            0 <= i < self.constraints.len() ==> constraint_in_range(
                #[trigger] self.constraints[i],
                self.variable_count(),
            )
    }

    /// The relation that the circuit stands for: `public` assigns a field
    /// element to each public variable, `witness` the value of a byte to
    /// each witness variable, and every constraint holds.
    pub open spec fn satisfied_by(self, public: Seq<u64>, witness: Seq<u64>) -> bool {
        &&& public.len() == self.public_count
        &&& witness.len() == self.witness_count
        &&& all_elements(public)
        &&& all_bytes(witness)
        &&& forall|i: int|
            0 <= i < self.constraints.len() ==> constraint_holds(
                #[trigger] self.constraints[i],
                public + witness,
            )
    }

    /// The statement that a proof is about: some witness satisfies the
    /// circuit together with `public`.
    pub open spec fn satisfiable(self, public: Seq<u64>) -> bool {
        exists|witness: Seq<u64>| self.satisfied_by(public, witness)
    }

    /// Some witness that starts with `start` satisfies the circuit
    /// together with `public`.
    pub open spec fn completable(self, public: Seq<u64>, start: Seq<u64>) -> bool {
        exists|witness: Seq<u64>|
            start.len() <= witness.len() && witness.take(start.len() as int) == start
                && #[trigger] self.satisfied_by(public, witness)
    }

    /// The three counts fit a word each. This holds of every circuit that
    /// a program can hold.
    pub open spec fn encodable(self) -> bool {
        &&& self.public_count <= u64::MAX
        &&& self.witness_count <= u64::MAX
        &&& self.constraints.len() <= u64::MAX
    }

    /// The circuit as words, as keys and proofs carry it: the number of
    /// public variables, of witness variables and of constraints, then
    /// the constraints.
    pub open spec fn words(self) -> Seq<u64> {
        seq![self.public_count as u64, self.witness_count as u64, self.constraints.len() as u64]
            + constraints_words(self.constraints)
    }
}

/// The circuit with one public variable `y`, numbered 0, one witness
/// variable `x`, numbered 1, and the one constraint `x * x = y`.
pub open spec fn square_circuit() -> Circuit {
    Circuit {
        public_count: 1,
        witness_count: 1,
        constraints: seq![Constraint::Mul { left: 1, right: 1, out: 0 }],
    }
}

/// A statement is true exactly when the empty start can be completed to
/// a witness.
pub proof fn lemma_satisfiable_is_completable(circuit: Circuit, public: Seq<u64>)
    ensures
        circuit.satisfiable(public) == circuit.completable(public, Seq::empty()),
{
    if circuit.satisfiable(public) {
        let witness = choose|witness: Seq<u64>| circuit.satisfied_by(public, witness);
        assert(witness.take(0) =~= Seq::<u64>::empty());
        assert(circuit.satisfied_by(public, witness));
    }
}

/// Every constraint takes four words.
pub proof fn lemma_constraints_words_len(constraints: Seq<Constraint>)
    ensures
        constraints_words(constraints).len() == CONSTRAINT_WORDS * constraints.len(),
    decreases constraints.len(),
{
    if constraints.len() > 0 {
        lemma_constraints_words_len(constraints.drop_last());
    }
}

/// The four words of the constraint at index `i` stand at index `4 * i`.
pub proof fn lemma_constraints_words_at(constraints: Seq<Constraint>, i: int)
    requires
        0 <= i < constraints.len(),
    ensures
        constraints_words(constraints).subrange(
            CONSTRAINT_WORDS * i,
            CONSTRAINT_WORDS * i + CONSTRAINT_WORDS,
        ) == constraint_words(constraints[i]),
    decreases constraints.len(),
{
    let front = constraints_words(constraints.drop_last());
    let last = constraint_words(constraints.last());
    lemma_constraints_words_len(constraints.drop_last());
    if i == constraints.len() - 1 {
        assert((front + last).subrange(4 * i, 4 * i + 4) =~= last);
    } else {
        lemma_constraints_words_at(constraints.drop_last(), i);
        assert((front + last).subrange(4 * i, 4 * i + 4) =~= front.subrange(4 * i, 4 * i + 4));
    }
}

/// A constraint can be read back from its words.
pub proof fn lemma_constraint_words_injective(a: Constraint, b: Constraint)
    requires
        constraint_words(a) == constraint_words(b),
    ensures
        a == b,
{
    let wa = constraint_words(a);
    let wb = constraint_words(b);
    assert(wa[0] == wb[0]);
    assert(wa[1] == wb[1]);
    assert(wa[2] == wb[2]);
    assert(wa[3] == wb[3]);
}

/// A circuit can be read back from its words, whatever words follow them:
/// if the words of two circuits, each followed by further words, are the
/// same, then the circuits are the same and so is what follows.
pub proof fn lemma_circuit_words_injective(
    a: Circuit,
    after_a: Seq<u64>,
    b: Circuit,
    after_b: Seq<u64>,
)
    requires
        a.encodable(),
        b.encodable(),
        a.words() + after_a == b.words() + after_b,
    ensures
        a == b,
        after_a == after_b,
{
    let whole_a = a.words() + after_a;
    let whole_b = b.words() + after_b;
    lemma_constraints_words_len(a.constraints);
    lemma_constraints_words_len(b.constraints);
    assert(whole_a[0] == a.public_count as u64);
    assert(whole_b[0] == b.public_count as u64);
    assert(whole_a[1] == a.witness_count as u64);
    assert(whole_b[1] == b.witness_count as u64);
    assert(whole_a[2] == a.constraints.len() as u64);
    assert(whole_b[2] == b.constraints.len() as u64);
    let n = a.constraints.len() as int;
    assert(b.constraints.len() == n);
    let body_a = constraints_words(a.constraints);
    let body_b = constraints_words(b.constraints);
    assert(body_a =~= whole_a.subrange(3, 3 + 4 * n));
    assert(body_b =~= whole_b.subrange(3, 3 + 4 * n));
    assert forall|i: int| 0 <= i < n implies a.constraints[i] == b.constraints[i] by {
        lemma_constraints_words_at(a.constraints, i);
        lemma_constraints_words_at(b.constraints, i);
        lemma_constraint_words_injective(a.constraints[i], b.constraints[i]);
    }
    assert(a.constraints =~= b.constraints);
    assert(after_a =~= whole_a.subrange(3 + 4 * n, whole_a.len() as int));
    assert(after_b =~= whole_b.subrange(3 + 4 * n, whole_b.len() as int));
}

/// A declarative description of a circuit, as handed to [`define`].
#[derive(Clone, Debug, PartialEq, Eq)]
pub struct CircuitDescription {
    /// The number of variables that the description declares in total.
    pub variable_count: usize,
    /// How many of them are public.
    pub public_count: usize,
    /// How many of them belong to the witness.
    pub witness_count: usize,
    /// The constraints.
    pub constraints: Vec<Constraint>,
}

/// What [`define`] does with a circuit that has no constraint, which every
/// assignment satisfies.
#[derive(Clone, Copy, Debug, PartialEq, Eq)]
pub enum EmptyCircuitPolicy {
    /// Such a circuit is malformed.
    Reject,
    /// Such a circuit is defined like any other.
    Allow,
}

/// Why a description is no circuit.
#[derive(Clone, Copy, Debug, PartialEq, Eq)]
pub enum MalformedCircuit {
    /// The public and the witness variables do not add up to the declared
    /// number of variables.
    VariableCountMismatch,
    /// The constraint at index `constraint` is the first that names a
    /// variable the circuit does not have.
    UndefinedVariable { constraint: usize },
    /// There is no constraint, and the policy rejects that.
    NoConstraints,
}

impl CircuitDescription {
    /// The circuit that the description describes, once its declared
    /// total is found to agree with the two counts.
    pub open spec fn circuit(self) -> Circuit {
        Circuit {
            public_count: self.public_count as nat,
            witness_count: self.witness_count as nat,
            constraints: self.constraints@,
        }
    }

    /// The declared total is the sum of the two counts.
    pub open spec fn counts_agree(self) -> bool {
        self.public_count + self.witness_count == self.variable_count
    }

    /// Whether [`define`] accepts the description under `policy`.
    pub open spec fn acceptable(self, policy: EmptyCircuitPolicy) -> bool {
        &&& self.counts_agree()
        &&& self.circuit().well_formed()
        &&& (self.constraints@.len() > 0 || policy == EmptyCircuitPolicy::Allow)
    }

    /// Whether `defect` is what [`define`] reports for the description
    /// under `policy`. At most one defect is.
    pub open spec fn has_defect(
        self,
        policy: EmptyCircuitPolicy,
        defect: MalformedCircuit,
    ) -> bool {
        match defect {
            MalformedCircuit::VariableCountMismatch => !self.counts_agree(),
            MalformedCircuit::UndefinedVariable { constraint } => {
                &&& self.counts_agree()
                &&& constraint < self.constraints@.len()
                &&& !constraint_in_range(
                    self.constraints@[constraint as int],
                    self.variable_count as nat,
                )
                &&& forall|j: int|
                    0 <= j < constraint ==> constraint_in_range(
                        #[trigger] self.constraints@[j],
                        self.variable_count as nat,
                    )
            },
            MalformedCircuit::NoConstraints => {
                &&& self.counts_agree()
                &&& self.constraints@.len() == 0
                &&& policy == EmptyCircuitPolicy::Reject
            },
        }
    }
}

/// A description with a defect is not acceptable, and it has no second
/// defect: [`define`] gives a circuit or this one defect, never a choice.
pub proof fn lemma_defect_is_unique(
    description: CircuitDescription,
    policy: EmptyCircuitPolicy,
    defect: MalformedCircuit,
    other: MalformedCircuit,
)
    requires
        description.has_defect(policy, defect),
    ensures
        !description.acceptable(policy),
        description.has_defect(policy, other) ==> other == defect,
{
    if let MalformedCircuit::UndefinedVariable { constraint } = defect {
        assert(!constraint_in_range(
            description.circuit().constraints[constraint as int],
            description.circuit().variable_count(),
        ));
        if description.has_defect(policy, other) {
            if let MalformedCircuit::UndefinedVariable { constraint: second } = other {
                if constraint < second {
                    assert(constraint_in_range(
                        description.constraints@[constraint as int],
                        description.variable_count as nat,
                    ));
                }
                if second < constraint {
                    assert(constraint_in_range(
                        description.constraints@[second as int],
                        description.variable_count as nat,
                    ));
                }
            }
        }
    }
}

/// An immutable circuit, as the prover and the verifier use it.
#[derive(Debug)]
pub struct CircuitHandle {
    public_count: usize,
    witness_count: usize,
    constraints: Vec<Constraint>,
}

impl View for CircuitHandle {
    type V = Circuit;

    closed spec fn view(&self) -> Circuit {
        Circuit {
            public_count: self.public_count as nat,
            witness_count: self.witness_count as nat,
            constraints: self.constraints@,
        }
    }
}

fn in_range(constraint: &Constraint, variables: usize) -> (ok: bool)
    ensures
        ok == constraint_in_range(*constraint, variables as nat),
{
    match constraint {
        Constraint::Add { left, right, out } => *left < variables && *right < variables && *out
            < variables,
        Constraint::Mul { left, right, out } => *left < variables && *right < variables && *out
            < variables,
    }
}

/// Turns a description into a circuit, or says why it is none.
///
/// A description is malformed when its counts do not add up or a
/// constraint names a variable beyond the declared ones. Whether a circuit
/// without constraints is malformed is for `policy` to say.
pub fn define(description: CircuitDescription, policy: EmptyCircuitPolicy) -> (result: Result<
    CircuitHandle,
    MalformedCircuit,
>)
    ensures
        match result {
            Ok(handle) => description.acceptable(policy) && handle@ == description.circuit(),
            Err(defect) => description.has_defect(policy, defect),
        },
{
    let total = match description.public_count.checked_add(description.witness_count) {
        Some(total) => total,
        None => {
            return Err(MalformedCircuit::VariableCountMismatch);
        },
    };
    if total != description.variable_count {
        return Err(MalformedCircuit::VariableCountMismatch);
    }
    let mut i: usize = 0;
    while i < description.constraints.len()
        invariant
            i <= description.constraints.len(),
            total == description.variable_count,
            description.counts_agree(),
            forall|j: int|
                0 <= j < i ==> constraint_in_range(
                    #[trigger] description.constraints@[j],
                    total as nat,
                ),
        decreases description.constraints.len() - i,
    {
        if !in_range(&description.constraints[i], total) {
            return Err(MalformedCircuit::UndefinedVariable { constraint: i });
        }
        i += 1;
    }
    if description.constraints.len() == 0 {
        match policy {
            EmptyCircuitPolicy::Reject => {
                return Err(MalformedCircuit::NoConstraints);
            },
            EmptyCircuitPolicy::Allow => {},
        }
    }
    Ok(
        CircuitHandle {
            public_count: description.public_count,
            witness_count: description.witness_count,
            constraints: description.constraints,
        },
    )
}

fn check_bytes(values: &[u64]) -> (ok: bool)
    ensures
        ok == all_bytes(values@),
{
    let mut i: usize = 0;
    while i < values.len()
        invariant
            i <= values.len(),
            forall|j: int| 0 <= j < i ==> #[trigger] values@[j] < WITNESS_BOUND,
        decreases values.len() - i,
    {
        if values[i] >= WITNESS_BOUND {
            return false;
        }
        i += 1;
    }
    true
}

fn value_at(public: &[u64], witness: &[u64], variable: usize) -> (value: u64)
    requires
        variable < public@.len() + witness@.len(),
    ensures
        value == (public@ + witness@)[variable as int],
{
    if variable < public.len() {
        public[variable]
    } else {
        witness[variable - public.len()]
    }
}

fn holds(constraint: &Constraint, public: &[u64], witness: &[u64]) -> (ok: bool)
    requires
        constraint_in_range(*constraint, (public@.len() + witness@.len()) as nat),
    ensures
        ok == constraint_holds(*constraint, public@ + witness@),
{
    match constraint {
        Constraint::Add { left, right, out } => value_at(public, witness, *out) == add_mod(
            value_at(public, witness, *left),
            value_at(public, witness, *right),
        ),
        Constraint::Mul { left, right, out } => value_at(public, witness, *out) == mul_mod(
            value_at(public, witness, *left),
            value_at(public, witness, *right),
        ),
    }
}

fn push_constraint_words(out: &mut Vec<u64>, constraint: &Constraint)
    ensures
        final(out)@ == old(out)@ + constraint_words(*constraint),
{
    match constraint {
        Constraint::Add { left, right, out: result } => {
            out.push(0);
            out.push(*left as u64);
            out.push(*right as u64);
            out.push(*result as u64);
        },
        Constraint::Mul { left, right, out: result } => {
            out.push(1);
            out.push(*left as u64);
            out.push(*right as u64);
            out.push(*result as u64);
        },
    }
    assert(out@ =~= old(out)@ + constraint_words(*constraint));
}

impl CircuitHandle {
    #[verifier::type_invariant]
    spec fn consistent(&self) -> bool {
        &&& self.public_count + self.witness_count <= usize::MAX
        &&& self@.well_formed()
    }

    /// The circuit `x * x = y` of [`square_circuit`].
    pub fn square() -> (handle: CircuitHandle)
        ensures
            handle@ == square_circuit(),
    {
        let mut constraints: Vec<Constraint> = Vec::new();
        constraints.push(Constraint::Mul { left: 1, right: 1, out: 0 });
        assert(constraints@ =~= square_circuit().constraints);
        CircuitHandle { public_count: 1, witness_count: 1, constraints }
    }

    /// The number of public variables.
    pub fn public_count(&self) -> (count: usize)
        ensures
            count == self@.public_count,
    {
        self.public_count
    }

    /// The number of witness variables.
    pub fn witness_count(&self) -> (count: usize)
        ensures
            count == self@.witness_count,
    {
        self.witness_count
    }

    /// The number of constraints.
    pub fn constraint_count(&self) -> (count: usize)
        ensures
            count == self@.constraints.len(),
    {
        self.constraints.len()
    }

    /// The circuit as words.
    pub fn words(&self) -> (words: Vec<u64>)
        ensures
            words@ == self@.words(),
            self@.encodable(),
    {
        proof {
            use_type_invariant(self);
        }
        let mut words: Vec<u64> = Vec::new();
        words.push(self.public_count as u64);
        words.push(self.witness_count as u64);
        words.push(self.constraints.len() as u64);
        let ghost counts = words@;
        assert(counts =~= seq![
            self@.public_count as u64,
            self@.witness_count as u64,
            self@.constraints.len() as u64,
        ]);
        assert(words@ =~= counts + constraints_words(self.constraints@.take(0)));
        let mut i: usize = 0;
        while i < self.constraints.len()
            invariant
                i <= self.constraints.len(),
                words@ == counts + constraints_words(self.constraints@.take(i as int)),
            decreases self.constraints.len() - i,
        {
            push_constraint_words(&mut words, &self.constraints[i]);
            i += 1;
            proof {
                let now = self.constraints@.take(i as int);
                assert(now.drop_last() =~= self.constraints@.take(i - 1));
                assert(words@ =~= counts + constraints_words(now));
            }
        }
        assert(self.constraints@.take(i as int) =~= self.constraints@);
        words
    }

    /// Whether `public` and `witness` satisfy the circuit.
    pub fn is_satisfied_by(&self, public: &[u64], witness: &[u64]) -> (ok: bool)
        ensures
            ok == self@.satisfied_by(public@, witness@),
    {
        proof {
            use_type_invariant(self);
        }
        if public.len() != self.public_count || witness.len() != self.witness_count {
            return false;
        }
        if !check_elements(public) || !check_bytes(witness) {
            return false;
        }
        let mut i: usize = 0;
        while i < self.constraints.len()
            invariant
                i <= self.constraints.len(),
                self@.well_formed(),
                self@.constraints == self.constraints@,
                public@.len() == self@.public_count,
                witness@.len() == self@.witness_count,
                all_elements(public@),
                all_bytes(witness@),
                forall|j: int|
                    0 <= j < i ==> constraint_holds(
                        #[trigger] self@.constraints[j],
                        public@ + witness@,
                    ),
            decreases self.constraints.len() - i,
        {
            assert(constraint_in_range(self@.constraints[i as int], self@.variable_count()));
            if !holds(&self.constraints[i], public, witness) {
                assert(!constraint_holds(self@.constraints[i as int], public@ + witness@));
                return false;
            }
            i += 1;
        }
        true
    }

    fn search(&self, public: &[u64], start: &mut Vec<u64>) -> (found: bool)
        requires
            old(start)@.len() <= self@.witness_count,
        ensures
            final(start)@ == old(start)@,
            found == self@.completable(public@, old(start)@),
        decreases self@.witness_count - old(start)@.len(),
    {
        if start.len() == self.witness_count {
            let ok = self.is_satisfied_by(public, start.as_slice());
            proof {
                if ok {
                    assert(start@.take(start@.len() as int) =~= start@);
                }
                if self@.completable(public@, start@) {
                    let witness = choose|witness: Seq<u64>|
                        start@.len() <= witness.len() && witness.take(start@.len() as int)
                            == start@ && #[trigger] self@.satisfied_by(public@, witness);
                    assert(witness.take(witness.len() as int) =~= witness);
                }
            }
            return ok;
        }
        let ghost given = start@;
        let mut value: u64 = 0;
        while value < WITNESS_BOUND
            invariant
                value <= WITNESS_BOUND,
                start@ == given,
                given == old(start)@,
                given.len() < self@.witness_count,
                forall|tried: u64|
                    tried < value ==> !self@.completable(public@, #[trigger] given.push(tried)),
            decreases WITNESS_BOUND - value,
        {
            start.push(value);
            let found = self.search(public, start);
            start.pop();
            assert(start@ =~= given);
            if found {
                proof {
                    let longer = given.push(value);
                    let witness = choose|witness: Seq<u64>|
                        longer.len() <= witness.len() && witness.take(longer.len() as int)
                            == longer && #[trigger] self@.satisfied_by(public@, witness);
                    assert(witness.take(given.len() as int) =~= witness.take(
                        longer.len() as int,
                    ).take(given.len() as int));
                    assert(longer.take(given.len() as int) =~= given);
                }
                return true;
            }
            value += 1;
        }
        proof {
            if self@.completable(public@, given) {
                let witness = choose|witness: Seq<u64>|
                    given.len() <= witness.len() && witness.take(given.len() as int) == given
                        && #[trigger] self@.satisfied_by(public@, witness);
                let next = witness[given.len() as int];
                assert(next < WITNESS_BOUND);
                assert(witness.take(given.len() as int + 1) =~= given.push(next));
                assert(self@.completable(public@, given.push(next)));
            }
        }
        false
    }

    /// Whether some witness satisfies the circuit together with `public`.
    /// Every witness is tried, so the time grows with the power
    /// `WITNESS_BOUND ^ witness_count`.
    pub fn is_satisfiable(&self, public: &[u64]) -> (found: bool)
        ensures
            found == self@.satisfiable(public@),
    {
        proof {
            lemma_satisfiable_is_completable(self@, public@);
        }
        let mut start: Vec<u64> = Vec::new();
        self.search(public, &mut start)
    }
}

} // verus!
