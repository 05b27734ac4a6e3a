use vstd::prelude::*;

use crate::schema::{
    is_zero_of, lemma_setter_name_injective, setter_name, zero_of, RecordSchema, SchemaModel, Value,
};

verus! {

/// A setter was called that the builder's current state does not offer.
#[derive(Debug, PartialEq, Eq)]
pub enum StateError {
    /// `OutOfOrder(expected, actual)`: the setter called needs the builder in
    /// state `expected` (its field's position), but the builder is in state
    /// `actual`.
    OutOfOrder(usize, usize),
    /// The schema has no field with such a setter.
    UnknownSetter,
}

/// Completion found a field without a value under the strict policy.
#[derive(Debug, PartialEq, Eq)]
pub enum BuildError {
    MissingField(usize),
}

/// A builder in the abstract: its schema, the index of its state (the number
/// of fields set so far) and the value slot of each field.
pub struct BuilderModel {
    pub schema: SchemaModel,
    pub state: nat,
    pub slots: Seq<Option<Value>>,
}

impl BuilderModel {
    /// Exactly the fields before the current state hold a value.
    pub open spec fn wf(self) -> bool {
        &&& self.schema.wf()
        &&& self.slots.len() == self.schema.len()
        &&& self.state <= self.schema.len()
        &&& forall|i: int| 0 <= i < self.slots.len() ==> (#[trigger] self.slots[i] is Some <==> i < self.state)
    }
}

/// The builder at state 0 (Init): no field set.
pub open spec fn init_model(schema: SchemaModel) -> BuilderModel {
    BuilderModel { schema, state: 0, slots: Seq::new(schema.len(), |i: int| None) }
}

/// The only transition out of state `b.state` sets the field at that position
/// and moves to the next state; every other setter is refused.
pub open spec fn set_model(b: BuilderModel, position: int, value: Value) -> Result<BuilderModel, StateError> {
    if !(0 <= position < b.schema.len()) {
        Err(StateError::UnknownSetter)
    } else if position != b.state {
        Err(StateError::OutOfOrder(position as usize, b.state as usize))
    } else {
        Ok(BuilderModel { schema: b.schema, state: b.state + 1, slots: b.slots.update(position, Some(value)) })
    }
}

/// `k` is the first position whose slot holds no value.
pub open spec fn is_first_unset(slots: Seq<Option<Value>>, k: int) -> bool {
    &&& 0 <= k < slots.len()
    &&& slots[k] is None
    &&& forall|j: int| 0 <= j < k ==> (#[trigger] slots[j]) is Some
}

/// Completion succeeds under the defaulting policy, and under the strict one
/// when every slot holds a value.
pub open spec fn build_succeeds(b: BuilderModel) -> bool {
    b.schema.use_defaults || forall|i: int| 0 <= i < b.slots.len() ==> (#[trigger] b.slots[i]) is Some
}

/// `out` is the record assembled from `b`: each set slot's value, and the
/// zero value of the field's type for each unset one.
pub open spec fn assembled(b: BuilderModel, out: Seq<Value>) -> bool {
    &&& out.len() == b.slots.len()
    &&& forall|i: int| #![trigger out[i]] 0 <= i < out.len() ==> match b.slots[i] {
        Some(v) => out[i] == v,
        None => is_zero_of(out[i], b.schema.fields[i].ty),
    }
}

/// A complete record: the value of each field, in declared order.
#[derive(Debug, PartialEq)]
pub struct Record {
    pub values: Vec<Value>,
}

/// A builder for the records of one schema. Its state is a runtime tag: the
/// setter of the field at position `i` is accepted only in state `i`, so
/// fields are supplied once each, in declared order; each setter consumes
/// the builder and hands back its successor.
pub struct RecordBuilder<'a> {
    schema: &'a RecordSchema,
    slots: Vec<Option<Value>>,
    state: usize,
}

impl<'a> View for RecordBuilder<'a> {
    type V = BuilderModel;

    closed spec fn view(&self) -> BuilderModel {
        BuilderModel { schema: self.schema@, state: self.state as nat, slots: self.slots@ }
    }
}

impl<'a> RecordBuilder<'a> {
    /// A fresh builder in state 0 (Init).
    pub fn new(schema: &'a RecordSchema) -> (b: RecordBuilder<'a>)
        requires
            schema@.wf(),
        ensures
            b@ == init_model(schema@),
            b@.wf(),
    {
        let n = schema.len();
        let mut slots: Vec<Option<Value>> = Vec::new();
        let mut i: usize = 0;
        while i < n
            invariant
                i <= n,
                n == schema@.len(),
                slots@ == Seq::new(i as nat, |k: int| None::<Value>),
            decreases n - i,
        {
            slots.push(None);
            i += 1;
            assert(slots@ =~= Seq::new(i as nat, |k: int| None::<Value>));
        }
        let b = RecordBuilder { schema, slots, state: 0 };
        assert(b@ =~= init_model(schema@));
        b
    }

    /// The index of the current state: the number of fields set so far.
    pub fn state(&self) -> (s: usize)
        ensures
            s == self@.state,
    {
        self.state
    }

    /// The index of the final state: the number of fields.
    pub fn final_state(&self) -> (s: usize)
        ensures
            s == self@.schema.len(),
    {
        self.schema.len()
    }

    /// Sets the field at `position`, which must be the current state's.
    pub fn set_at(self, position: usize, value: Value) -> (r: Result<RecordBuilder<'a>, StateError>)
        requires
            self@.wf(),
        ensures
            match r {
                Ok(b) => set_model(self@, position as int, value) == Ok::<BuilderModel, StateError>(b@),
                Err(e) => set_model(self@, position as int, value) == Err::<BuilderModel, StateError>(e),
            },
            r matches Ok(b) ==> b@.wf(),
    {
        if position >= self.schema.len() {
            return Err(StateError::UnknownSetter);
        }
        if position != self.state {
            return Err(StateError::OutOfOrder(position, self.state));
        }
        let ghost before = self@;
        let mut next = self;
        next.slots.set(position, Some(value));
        next.state = position + 1;
        assert(next@ =~= set_model(before, position as int, value)->Ok_0);
        Ok(next)
    }

    /// Calls the setter named `setter` (`with_` and the field's external name).
    pub fn with(self, setter: &str, value: Value) -> (r: Result<RecordBuilder<'a>, StateError>)
        requires
            self@.wf(),
        ensures
            (forall|p: int| 0 <= p < self@.schema.len() ==> setter_name(#[trigger] self@.schema.fields[p]) != setter@)
                ==> r == Err::<RecordBuilder<'a>, StateError>(StateError::UnknownSetter),
            forall|p: int| 0 <= p < self@.schema.len() && setter_name(#[trigger] self@.schema.fields[p]) == setter@
                ==> match r {
                    Ok(b) => set_model(self@, p, value) == Ok::<BuilderModel, StateError>(b@),
                    Err(e) => set_model(self@, p, value) == Err::<BuilderModel, StateError>(e),
                },
            r matches Ok(b) ==> b@.wf(),
    {
        match self.schema.setter_position(setter) {
            None => Err(StateError::UnknownSetter),
            Some(p) => {
                proof {
                    let s = self@.schema;
                    assert forall|q: int| 0 <= q < s.len() && setter_name(#[trigger] s.fields[q]) == setter@
                        implies q == p by {
                        if q != p {
                            lemma_setter_name_injective(s.fields[q], s.fields[p as int]);
                            if q < p {
                                assert(s.fields[q].external_name() != s.fields[p as int].external_name());
                            } else {
                                assert(s.fields[p as int].external_name() != s.fields[q].external_name());
                            }
                        }
                    }
                }
                self.set_at(p, value)
            },
        }
    }

    /// Completes the record. Under the defaulting policy unset fields take
    /// their type's zero value; under the strict policy each slot is checked
    /// and the first unset one is reported.
    pub fn build(self) -> (r: Result<Record, BuildError>)
        requires
            self@.wf(),
        ensures
            r is Ok <==> build_succeeds(self@),
            r matches Ok(rec) ==> assembled(self@, rec.values@),
            r matches Err(BuildError::MissingField(k)) ==> is_first_unset(self@.slots, k as int),
    {
        let ghost m = self@;
        let RecordBuilder { schema, slots, state: _ } = self;
        let use_defaults = schema.use_defaults();
        let mut slots = slots;
        let n = slots.len();
        let mut values: Vec<Value> = Vec::new();
        let mut i: usize = 0;
        while i < n
            invariant
                i <= n,
                n == m.slots.len(),
                m == self@,
                m.wf(),
                schema@ == m.schema,
                use_defaults == m.schema.use_defaults,
                slots@ == m.slots.subrange(i as int, n as int),
                values@.len() == i,
                forall|k: int| 0 <= k < i ==> match #[trigger] m.slots[k] {
                    Some(v) => values@[k] == v,
                    None => is_zero_of(values@[k], m.schema.fields[k].ty),
                },
                !use_defaults ==> forall|k: int| 0 <= k < i ==> (#[trigger] m.slots[k]) is Some,
            decreases n - i,
        {
            let slot = slots.remove(0);
            assert(slot == m.slots[i as int]);
            match slot {
                Some(v) => values.push(v),
                None => {
                    if !use_defaults {
                        assert(m.slots[i as int] is None);
                        assert(is_first_unset(m.slots, i as int));
                        return Err(BuildError::MissingField(i));
                    }
                    values.push(zero_of(&schema.field(i).ty));
                },
            }
            i += 1;
            assert(slots@ =~= m.slots.subrange(i as int, n as int));
        }
        Ok(Record { values })
    }
}

/// The builder reached from Init by calling the setters of positions 0, 1,
/// ... in turn with `values[0]`, `values[1]`, ...
pub open spec fn run_in_order(schema: SchemaModel, values: Seq<Value>) -> Result<BuilderModel, StateError>
    decreases values.len(),
{
    if values.len() == 0 {
        Ok(init_model(schema))
    } else {
        match run_in_order(schema, values.drop_last()) {
            Ok(b) => set_model(b, values.len() - 1, values.last()),
            Err(e) => Err(e),
        }
    }
}

/// After the first `values.len()` setters in declared order, the builder is
/// in state `values.len()` and holds exactly those values.
pub proof fn lemma_run_in_order(schema: SchemaModel, values: Seq<Value>)
    requires
        schema.wf(),
        values.len() <= schema.len(),
    ensures
        run_in_order(schema, values) == Ok::<BuilderModel, StateError>(BuilderModel {
            schema,
            state: values.len(),
            slots: Seq::new(schema.len(), |i: int| if i < values.len() { Some(values[i]) } else { None }),
        }),
    decreases values.len(),
{
    let goal = BuilderModel {
        schema,
        state: values.len(),
        slots: Seq::new(schema.len(), |i: int| if i < values.len() { Some(values[i]) } else { None }),
    };
    if values.len() == 0 {
        assert(init_model(schema).slots =~= goal.slots);
    } else {
        let prefix = values.drop_last();
        lemma_run_in_order(schema, prefix);
        let b = run_in_order(schema, prefix)->Ok_0;
        assert(set_model(b, values.len() - 1, values.last())->Ok_0.slots =~= goal.slots);
    }
}

/// Setting every field once, in declared order, from a fresh builder reaches
/// the final state; completion then succeeds under either policy and yields
/// exactly the supplied values, in order.
pub proof fn law_in_order_fill_builds(schema: SchemaModel, values: Seq<Value>)
    requires
        schema.wf(),
        values.len() == schema.len(),
    ensures
        run_in_order(schema, values) matches Ok(b) && b.wf() && b.state == schema.len()
            && build_succeeds(b) && forall|out: Seq<Value>| assembled(b, out) ==> out == values,
{
    lemma_run_in_order(schema, values);
    let b = run_in_order(schema, values)->Ok_0;
    assert forall|out: Seq<Value>| assembled(b, out) implies out == values by {
        assert forall|i: int| 0 <= i < out.len() implies out[i] == values[i] by {
            assert(b.slots[i] == Some(values[i]));
        }
        assert(out =~= values);
    }
}

/// In every state, the setter of any position other than the state's own is
/// refused with `OutOfOrder(position, state)`: no field is skipped or set twice.
pub proof fn law_out_of_order_refused(b: BuilderModel, position: int, value: Value)
    requires
        b.wf(),
        0 <= position < b.schema.len(),
        position != b.state,
    ensures
        set_model(b, position, value) == Err::<BuilderModel, StateError>(
            StateError::OutOfOrder(position as usize, b.state as usize),
        ),
{
}

/// Each accepted setter moves the builder exactly one state forward and
/// keeps it well formed.
pub proof fn law_setter_advances(b: BuilderModel, position: int, value: Value)
    requires
        b.wf(),
        set_model(b, position, value) is Ok,
    ensures
        set_model(b, position, value) matches Ok(next) && next.wf() && next.state == b.state + 1
            && position == b.state && next.slots[position] == Some(value),
{
}

/// Under the strict policy, completing before the final state fails at the
/// field of the current state.
pub proof fn law_strict_early_build_fails(b: BuilderModel)
    requires
        b.wf(),
        !b.schema.use_defaults,
        b.state < b.schema.len(),
    ensures
        !build_succeeds(b),
        is_first_unset(b.slots, b.state as int),
{
    assert(b.slots[b.state as int] is None);
}

/// Under the defaulting policy completion never fails.
pub proof fn law_defaults_never_fail(b: BuilderModel)
    requires
        b.schema.use_defaults,
    ensures
        build_succeeds(b),
{
}

} // verus!
