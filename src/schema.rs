use vstd::prelude::*;

verus! {

/// The declared type of a field, as far as the builder needs it: enough to
/// produce the type's zero value when the schema uses defaults.
#[derive(Debug, PartialEq, Eq)]
pub enum TypeRef {
    Text,
    Bool,
    U16,
    U32,
    U64,
    U128,
    I64,
    ListOf(Box<TypeRef>),
    /// Any other type, by its written name; its zero value is the type's own
    /// default, which only the host can produce.
    Other(String),
}

/// A value supplied for a field, or produced for it by the defaulting policy.
#[derive(Debug, PartialEq)]
pub enum Value {
    Text(String),
    Bool(bool),
    U16(u16),
    U32(u32),
    U64(u64),
    U128(u128),
    I64(i64),
    List(Vec<Value>),
    /// The default value of the named type (see `TypeRef::Other`).
    DefaultOf(String),
}

/// `v` is the zero (default) value of type `ty`.
pub open spec fn is_zero_of(v: Value, ty: TypeRef) -> bool {
    match ty {
        TypeRef::Text => v matches Value::Text(s) && s@.len() == 0,
        TypeRef::Bool => v == Value::Bool(false),
        TypeRef::U16 => v == Value::U16(0),
        TypeRef::U32 => v == Value::U32(0),
        TypeRef::U64 => v == Value::U64(0),
        TypeRef::U128 => v == Value::U128(0),
        TypeRef::I64 => v == Value::I64(0),
        TypeRef::ListOf(_) => v matches Value::List(items) && items@.len() == 0,
        TypeRef::Other(name) => v matches Value::DefaultOf(n) && n@ == name@,
    }
}

/// The zero value of a type: the empty string, `false`, `0`, the empty
/// list, or the named type's default.
pub fn zero_of(ty: &TypeRef) -> (v: Value)
    ensures
        is_zero_of(v, *ty),
{
    match ty {
        TypeRef::Text => Value::Text(String::new()),
        TypeRef::Bool => Value::Bool(false),
        TypeRef::U16 => Value::U16(0),
        TypeRef::U32 => Value::U32(0),
        TypeRef::U64 => Value::U64(0),
        TypeRef::U128 => Value::U128(0),
        TypeRef::I64 => Value::I64(0),
        TypeRef::ListOf(_) => Value::List(Vec::new()),
        TypeRef::Other(name) => Value::DefaultOf(name.clone()),
    }
}

/// A field as the caller declares it: its name, its type and an optional
/// external name under which its setter is exposed.
#[derive(Debug)]
pub struct FieldDecl {
    pub name: String,
    pub ty: TypeRef,
    pub rename: Option<String>,
}

impl FieldDecl {
    /// The name the field is known by outside: the rename if there is one,
    /// the declared name otherwise.
    pub open spec fn external_name(&self) -> Seq<char> {
        match self.rename {
            Some(r) => r@,
            None => self.name@,
        }
    }

    pub fn new(name: String, ty: TypeRef) -> (d: FieldDecl)
        ensures
            d.name == name,
            d.ty == ty,
            d.rename is None,
    {
        FieldDecl { name, ty, rename: None }
    }

    pub fn renamed(name: String, ty: TypeRef, rename: String) -> (d: FieldDecl)
        ensures
            d.name == name,
            d.ty == ty,
            d.rename == Some(rename),
    {
        FieldDecl { name, ty, rename: Some(rename) }
    }

    pub fn external(&self) -> (r: &String)
        ensures
            r@ == self.external_name(),
    {
        match &self.rename {
            Some(r) => r,
            None => &self.name,
        }
    }
}

/// A field of a schema: a declaration together with its position.
#[derive(Debug)]
pub struct FieldSpec {
    pub name: String,
    pub ty: TypeRef,
    pub rename: Option<String>,
    pub position: usize,
}

impl FieldSpec {
    pub open spec fn external_name(&self) -> Seq<char> {
        match self.rename {
            Some(r) => r@,
            None => self.name@,
        }
    }

    pub fn external(&self) -> (r: &String)
        ensures
            r@ == self.external_name(),
    {
        match &self.rename {
            Some(r) => r,
            None => &self.name,
        }
    }
}

/// The field that a declaration becomes at position `i`.
pub open spec fn placed(d: FieldDecl, i: int) -> FieldSpec {
    FieldSpec { name: d.name, ty: d.ty, rename: d.rename, position: i as usize }
}

#[derive(Debug, PartialEq, Eq)]
pub enum SchemaError {
    /// Two fields resolve to this external name.
    DuplicateExternalName(String),
    /// A schema needs at least one field.
    EmptyRecord,
}

/// Some two declarations resolve to the same external name.
pub open spec fn has_duplicate(decls: Seq<FieldDecl>) -> bool {
    exists|i: int, j: int|
        0 <= i < j < decls.len() && #[trigger] decls[i].external_name()
            == #[trigger] decls[j].external_name()
}

/// `name` is the external name of two of the declarations.
pub open spec fn is_duplicated(decls: Seq<FieldDecl>, name: Seq<char>) -> bool {
    exists|i: int, j: int|
        0 <= i < j < decls.len() && #[trigger] decls[i].external_name() == name
            && #[trigger] decls[j].external_name() == name
}

/// What a schema is: its fields in declared order, and its policy for
/// fields left unset at completion.
pub struct SchemaModel {
    pub fields: Seq<FieldSpec>,
    pub use_defaults: bool,
}

impl SchemaModel {
    pub open spec fn len(self) -> nat {
        self.fields.len()
    }

    /// At least one field and at most `usize::MAX`; positions contiguous
    /// from 0; external names unique.
    pub open spec fn wf(self) -> bool {
        &&& 0 < self.fields.len() <= usize::MAX
        &&& forall|i: int| 0 <= i < self.fields.len() ==> (#[trigger] self.fields[i]).position == i
        &&& forall|i: int, j: int|
            0 <= i < j < self.fields.len() ==> #[trigger] self.fields[i].external_name()
                != #[trigger] self.fields[j].external_name()
    }
}

/// An immutable record schema: the ordered fields and the completion policy.
#[derive(Debug)]
pub struct RecordSchema {
    fields: Vec<FieldSpec>,
    use_defaults: bool,
}

impl View for RecordSchema {
    type V = SchemaModel;

    closed spec fn view(&self) -> SchemaModel {
        SchemaModel { fields: self.fields@, use_defaults: self.use_defaults }
    }
}

/// The name of the setter of a field: `with_` followed by its external name.
pub open spec fn setter_name(f: FieldSpec) -> Seq<char> {
    "with_"@ + f.external_name()
}

/// Distinct external names give distinct setter names.
pub proof fn lemma_setter_name_injective(a: FieldSpec, b: FieldSpec)
    ensures
        setter_name(a) == setter_name(b) ==> a.external_name() == b.external_name(),
{
    let pre = "with_"@;
    assert((pre + a.external_name()).subrange(pre.len() as int, (pre + a.external_name()).len() as int)
        =~= a.external_name());
    assert((pre + b.external_name()).subrange(pre.len() as int, (pre + b.external_name()).len() as int)
        =~= b.external_name());
}

impl RecordSchema {
    /// Builds a schema from declarations, in declared order. Fails when there
    /// are none, or when two of them resolve to the same external name.
    pub fn new(decls: Vec<FieldDecl>, use_defaults: bool) -> (r: Result<RecordSchema, SchemaError>)
        ensures
            decls@.len() == 0 ==> r == Err::<RecordSchema, SchemaError>(SchemaError::EmptyRecord),
            decls@.len() > 0 && has_duplicate(decls@) ==> (r matches Err(
                SchemaError::DuplicateExternalName(x),
            ) && is_duplicated(decls@, x@)),
            decls@.len() > 0 && !has_duplicate(decls@) ==> (r matches Ok(s) && s@ == (SchemaModel {
                fields: Seq::new(decls@.len(), |i: int| placed(decls@[i], i)),
                use_defaults,
            })),
            r matches Ok(s) ==> s@.wf(),
    {
        let n = decls.len();
        if n == 0 {
            return Err(SchemaError::EmptyRecord);
        }
        let mut j: usize = 1;
        while j < n
            invariant
                1 <= j <= n,
                n == decls@.len(),
                forall|a: int, b: int|
                    0 <= a < b < j ==> #[trigger] decls@[a].external_name()
                        != #[trigger] decls@[b].external_name(),
            decreases n - j,
        {
            let mut i: usize = 0;
            while i < j
                invariant
                    i <= j < n,
                    n == decls@.len(),
                    forall|a: int, b: int|
                        0 <= a < b < j ==> #[trigger] decls@[a].external_name()
                            != #[trigger] decls@[b].external_name(),
                    forall|a: int|
                        0 <= a < i ==> #[trigger] decls@[a].external_name()
                            != decls@[j as int].external_name(),
                decreases j - i,
            {
                if *decls[i].external() == *decls[j].external() {
                    let name = decls[j].external().clone();
                    assert(is_duplicated(decls@, name@)) by {
                        assert(0 <= i < j < decls@.len());
                    }
                    return Err(SchemaError::DuplicateExternalName(name));
                }
                i += 1;
            }
            j += 1;
        }
        let ghost given = decls@;
        let mut decls = decls;
        let mut fields: Vec<FieldSpec> = Vec::new();
        let mut k: usize = 0;
        while k < n
            invariant
                k <= n,
                n == given.len(),
                decls@ == given.subrange(k as int, n as int),
                fields@ == Seq::new(k as nat, |i: int| placed(given[i], i)),
            decreases n - k,
        {
            let d = decls.remove(0);
            fields.push(FieldSpec { name: d.name, ty: d.ty, rename: d.rename, position: k });
            k += 1;
            assert(fields@ =~= Seq::new(k as nat, |i: int| placed(given[i], i)));
            assert(decls@ =~= given.subrange(k as int, n as int));
        }
        let schema = RecordSchema { fields, use_defaults };
        assert(schema@.wf()) by {
            assert forall|a: int, b: int|
                0 <= a < b < n implies #[trigger] schema@.fields[a].external_name()
                != #[trigger] schema@.fields[b].external_name() by {
                assert(given[a].external_name() != given[b].external_name());
            }
        }
        Ok(schema)
    }

    /// The number of fields.
    pub fn len(&self) -> (n: usize)
        ensures
            n == self@.len(),
    {
        self.fields.len()
    }

    /// Whether unset fields take their type's zero value at completion.
    pub fn use_defaults(&self) -> (b: bool)
        ensures
            b == self@.use_defaults,
    {
        self.use_defaults
    }

    /// The field at `position`.
    pub fn field(&self, position: usize) -> (f: &FieldSpec)
        requires
            position < self@.len(),
        ensures
            *f == self@.fields[position as int],
    {
        &self.fields[position]
    }

    /// The name of the setter of the field at `position`.
    pub fn setter_name(&self, position: usize) -> (r: String)
        requires
            position < self@.len(),
        ensures
            r@ == setter_name(self@.fields[position as int]),
    {
        let mut r = String::from_str("with_");
        r.append(self.fields[position].external().as_str());
        r
    }

    /// The position of the field whose setter is called `name`, if any.
    pub fn setter_position(&self, name: &str) -> (r: Option<usize>)
        ensures
            r matches Some(p) ==> p < self@.len() && setter_name(self@.fields[p as int]) == name@,
            r is None ==> forall|p: int|
                0 <= p < self@.len() ==> setter_name(#[trigger] self@.fields[p]) != name@,
    {
        let wanted = String::from_str(name);
        let mut p: usize = 0;
        while p < self.fields.len()
            invariant
                p <= self@.len(),
                wanted@ == name@,
                forall|q: int| 0 <= q < p ==> setter_name(#[trigger] self@.fields[q]) != name@,
            decreases self@.len() - p,
        {
            let candidate = self.setter_name(p);
            if candidate == wanted {
                return Some(p);
            }
            p += 1;
        }
        None
    }
}

} // verus!
