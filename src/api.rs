use vstd::prelude::*;

use crate::schema::{
    has_duplicate, is_duplicated, placed, setter_name, FieldDecl, RecordSchema, SchemaError,
    SchemaModel,
};

verus! {

/// One setter of the generated API: `name` (`with_` and the field's external
/// name) sets the field `field` at `position`, taking the builder from state
/// `from_state` to state `from_state + 1`.
#[derive(Debug, PartialEq, Eq)]
pub struct SetterSig {
    pub name: String,
    pub field: String,
    pub position: usize,
    pub from_state: usize,
    pub to_state: usize,
}

/// The generated builder API of a record type. Naming convention: the builder
/// type is the record's name followed by `Builder`; its state types are
/// `Init`, then `<Builder>Of<external name>` after each field but the last,
/// then `Final`, all distinct; its constructor is `default`, its setters
/// `with_<external name>`, and its finalizer `build`, offered in the state
/// `finalizer_state` only, the final one. Fields must be supplied in declared
/// order: one setter per state, no skipping, no resetting.
#[derive(Debug, PartialEq, Eq)]
pub struct BuilderApi {
    pub record_name: String,
    pub builder_name: String,
    pub constructor: String,
    pub state_types: Vec<String>,
    pub setters: Vec<SetterSig>,
    pub finalizer: String,
    pub finalizer_state: usize,
    pub use_defaults: bool,
}

pub open spec fn builder_name_of(record: Seq<char>) -> Seq<char> {
    record + "Builder"@
}

/// The name of the type that stands for state `k` of the chain.
pub open spec fn state_type_name(record: Seq<char>, s: SchemaModel, k: int) -> Seq<char> {
    if k == 0 {
        "Init"@
    } else if k == s.len() {
        "Final"@
    } else {
        builder_name_of(record) + "Of"@ + s.fields[k - 1].external_name()
    }
}

proof fn lemma_prefix_cancel(p: Seq<char>, a: Seq<char>, b: Seq<char>)
    ensures
        p + a == p + b ==> a == b,
{
    assert((p + a).subrange(p.len() as int, (p + a).len() as int) =~= a);
    assert((p + b).subrange(p.len() as int, (p + b).len() as int) =~= b);
}

/// The states of a well-formed schema's chain have pairwise distinct type
/// names.
pub proof fn lemma_state_type_names_distinct(record: Seq<char>, s: SchemaModel)
    requires
        s.wf(),
    ensures
        forall|k1: int, k2: int|
            0 <= k1 < k2 <= s.len() ==> #[trigger] state_type_name(record, s, k1)
                != #[trigger] state_type_name(record, s, k2),
{
    reveal_strlit("Init");
    reveal_strlit("Final");
    reveal_strlit("Builder");
    reveal_strlit("Of");
    let prefix = builder_name_of(record) + "Of"@;
    assert(prefix.len() >= 9);
    assert forall|k1: int, k2: int|
        0 <= k1 < k2 <= s.len() implies #[trigger] state_type_name(record, s, k1)
        != #[trigger] state_type_name(record, s, k2) by {
        if 0 < k1 && k2 < s.len() {
            lemma_prefix_cancel(prefix, s.fields[k1 - 1].external_name(), s.fields[k2 - 1].external_name());
            assert(s.fields[k1 - 1].external_name() != s.fields[k2 - 1].external_name());
        } else if k1 == 0 && k2 == s.len() {
            assert(state_type_name(record, s, k1).len() != state_type_name(record, s, k2).len());
        } else {
            assert(state_type_name(record, s, k1).len() != state_type_name(record, s, k2).len());
        }
    }
}

/// `api` is the API generated for the record `record` with schema `s`.
pub open spec fn describes(api: BuilderApi, record: Seq<char>, s: SchemaModel) -> bool {
    &&& api.record_name@ == record
    &&& api.builder_name@ == builder_name_of(record)
    &&& api.constructor@ == "default"@
    &&& api.finalizer@ == "build"@
    &&& api.finalizer_state == s.len()
    &&& api.use_defaults == s.use_defaults
    &&& api.state_types@.len() == s.len() + 1
    &&& forall|k: int| 0 <= k <= s.len() ==> (#[trigger] api.state_types@[k])@ == state_type_name(record, s, k)
    &&& forall|k1: int, k2: int|
        0 <= k1 < k2 <= s.len() ==> (#[trigger] api.state_types@[k1])@ != (#[trigger] api.state_types@[k2])@
    &&& api.setters@.len() == s.len()
    &&& forall|i: int| 0 <= i < s.len() ==> {
        let sig = #[trigger] api.setters@[i];
        &&& sig.name@ == setter_name(s.fields[i])
        &&& sig.field@ == s.fields[i].name@
        &&& sig.position == i
        &&& sig.from_state == i
        &&& sig.to_state == i + 1
    }
}

fn concat(a: &String, b: &str) -> (r: String)
    ensures
        r@ == a@ + b@,
{
    let mut r = a.clone();
    r.append(b);
    r
}

impl BuilderApi {
    /// The API of the builder for `record_name` over `schema`.
    pub fn describe(record_name: &str, schema: &RecordSchema) -> (api: BuilderApi)
        requires
            schema@.wf(),
        ensures
            describes(api, record_name@, schema@),
    {
        let n = schema.len();
        let record = String::from_str(record_name);
        let builder_name = concat(&record, "Builder");
        let of_prefix = concat(&builder_name, "Of");
        let mut state_types: Vec<String> = Vec::new();
        state_types.push(String::from_str("Init"));
        let mut setters: Vec<SetterSig> = Vec::new();
        let mut i: usize = 0;
        while i < n
            invariant
                i <= n,
                n == schema@.len(),
                schema@.wf(),
                record@ == record_name@,
                builder_name@ == builder_name_of(record_name@),
                of_prefix@ == builder_name_of(record_name@) + "Of"@,
                state_types@.len() == (if i < n { i + 1 } else { n as int }),
                forall|k: int|
                    0 <= k < state_types@.len() ==> (#[trigger] state_types@[k])@ == state_type_name(
                        record_name@,
                        schema@,
                        k,
                    ),
                setters@.len() == i,
                forall|k: int| 0 <= k < i ==> {
                    let sig = #[trigger] setters@[k];
                    &&& sig.name@ == setter_name(schema@.fields[k])
                    &&& sig.field@ == schema@.fields[k].name@
                    &&& sig.position == k
                    &&& sig.from_state == k
                    &&& sig.to_state == k + 1
                },
            decreases n - i,
        {
            let field = schema.field(i);
            setters.push(SetterSig {
                name: schema.setter_name(i),
                field: field.name.clone(),
                position: i,
                from_state: i,
                to_state: i + 1,
            });
            if i + 1 < n {
                state_types.push(concat(&of_prefix, field.external().as_str()));
            }
            i += 1;
        }
        state_types.push(String::from_str("Final"));
        let api = BuilderApi {
            record_name: record,
            builder_name,
            constructor: String::from_str("default"),
            state_types,
            setters,
            finalizer: String::from_str("build"),
            finalizer_state: n,
            use_defaults: schema.use_defaults(),
        };
        assert(forall|k: int| 0 <= k <= n ==> (#[trigger] api.state_types@[k])@ == state_type_name(record_name@, schema@, k));
        proof {
            lemma_state_type_names_distinct(record_name@, schema@);
            assert forall|k1: int, k2: int|
                0 <= k1 < k2 <= n implies (#[trigger] api.state_types@[k1])@ != (#[trigger] api.state_types@[k2])@ by {
                assert(state_type_name(record_name@, schema@, k1) != state_type_name(record_name@, schema@, k2));
            }
        }
        api
    }
}

/// Generates the builder of the record `record_name` with fields `decls`:
/// the schema and its API, or the schema error and nothing else.
pub fn builder(record_name: &str, decls: Vec<FieldDecl>, use_defaults: bool) -> (r: Result<
    (RecordSchema, BuilderApi),
    SchemaError,
>)
    ensures
        decls@.len() == 0 ==> r matches Err(SchemaError::EmptyRecord),
        decls@.len() > 0 && has_duplicate(decls@) ==> (r matches Err(
            SchemaError::DuplicateExternalName(x),
        ) && is_duplicated(decls@, x@)),
        decls@.len() > 0 && !has_duplicate(decls@) ==> (r matches Ok((s, api)) && s@
            == (SchemaModel {
            fields: Seq::new(decls@.len(), |i: int| placed(decls@[i], i)),
            use_defaults,
        }) && s@.wf() && describes(api, record_name@, s@)),
{
    match RecordSchema::new(decls, use_defaults) {
        Err(e) => Err(e),
        Ok(schema) => {
            let api = BuilderApi::describe(record_name, &schema);
            Ok((schema, api))
        },
    }
}

} // verus!
