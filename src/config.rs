use vstd::prelude::*;

use crate::schema::{is_zero_of, zero_of, FieldDecl, TypeRef, Value};

verus! {

#[verifier::external_type_specification]
#[verifier::external_body]
pub struct ExYamlError(serde_yaml::Error);

/// What serde_yaml reads from `text` as a mapping from strings to strings:
/// its entries, or `None` when the text is no such mapping.
pub uninterp spec fn yaml_string_map(text: Seq<char>) -> Option<Seq<(Seq<char>, Seq<char>)>>;

pub open spec fn entries_view(v: Seq<(String, String)>) -> Seq<(Seq<char>, Seq<char>)> {
    v.map_values(|p: (String, String)| (p.0@, p.1@))
}

/// No key occurs twice.
pub open spec fn keys_unique(entries: Seq<(Seq<char>, Seq<char>)>) -> bool {
    forall|i: int, j: int| 0 <= i < j < entries.len() ==> #[trigger] entries[i].0 != #[trigger] entries[j].0
}

/// Relies on serde_yaml::from_str into a `BTreeMap<String, String>`: the
/// outcome depends on the text alone, and a map holds each key once.
#[verifier::external_body]
fn read_yaml_map(text: &str) -> (r: Result<Vec<(String, String)>, serde_yaml::Error>)
    ensures
        r is Ok <==> yaml_string_map(text@) is Some,
        r matches Ok(v) ==> entries_view(v@) == yaml_string_map(text@)->Some_0,
        r matches Ok(v) ==> keys_unique(entries_view(v@)),
{
    serde_yaml::from_str::<std::collections::BTreeMap<String, String>>(text).map(
        |m| m.into_iter().collect(),
    )
}

/// Where a configuration is read from.
#[derive(Debug, PartialEq, Eq)]
pub struct ConfigInput {
    pub path: Option<String>,
    pub exclude_from: bool,
}

impl ConfigInput {
    /// The given path, or `./configuration/config.yaml`.
    pub fn path_or_default(&self) -> (r: String)
        ensures
            self.path matches Some(p) ==> r@ == p@,
            self.path is None ==> r@ == "./configuration/config.yaml"@,
    {
        match &self.path {
            Some(p) => p.clone(),
            None => String::from_str("./configuration/config.yaml"),
        }
    }
}

#[derive(Debug, PartialEq, Eq)]
pub enum ConfigError {
    /// The text is not a YAML mapping from strings to strings.
    InvalidYaml,
    /// A key is given twice.
    DuplicateKey(String),
    /// A declared field has the same name as a configuration key.
    FieldClash(String),
}

/// Configuration values: string keys, each once, with string values.
#[derive(Debug)]
pub struct Config {
    values: Vec<(String, String)>,
}

impl View for Config {
    type V = Seq<(Seq<char>, Seq<char>)>;

    closed spec fn view(&self) -> Seq<(Seq<char>, Seq<char>)> {
        entries_view(self.values@)
    }
}

impl Config {
    /// A configuration holding the given entries; fails when a key repeats.
    pub fn from_entries(entries: Vec<(String, String)>) -> (r: Result<Config, ConfigError>)
        ensures
            keys_unique(entries_view(entries@)) ==> (r matches Ok(c) && c@ == entries_view(entries@)),
            !keys_unique(entries_view(entries@)) ==> (r matches Err(ConfigError::DuplicateKey(x)) && exists|i: int, j: int|
                0 <= i < j < entries@.len() && #[trigger] entries@[i].0@ == x@ && #[trigger] entries@[j].0@ == x@),
    {
        let n = entries.len();
        let ghost view = entries_view(entries@);
        let mut j: usize = 0;
        while j < n
            invariant
                j <= n,
                n == entries@.len(),
                view == entries_view(entries@),
                forall|a: int, b: int| 0 <= a < b < j ==> #[trigger] view[a].0 != #[trigger] view[b].0,
            decreases n - j,
        {
            let mut i: usize = 0;
            while i < j
                invariant
                    i <= j < n,
                    n == entries@.len(),
                    view == entries_view(entries@),
                    forall|a: int, b: int| 0 <= a < b < j ==> #[trigger] view[a].0 != #[trigger] view[b].0,
                    forall|a: int| 0 <= a < i ==> (#[trigger] view[a]).0 != view[j as int].0,
                decreases j - i,
            {
                if entries[i].0 == entries[j].0 {
                    let x = entries[j].0.clone();
                    assert(entries@[i as int].0@ == x@ && entries@[j as int].0@ == x@);
                    assert(view[i as int].0 == view[j as int].0);
                    assert(!keys_unique(view));
                    return Err(ConfigError::DuplicateKey(x));
                }
                i += 1;
            }
            j += 1;
        }
        Ok(Config { values: entries })
    }

    /// Reads the configuration from YAML text.
    pub fn from_yaml(text: &str) -> (r: Result<Config, ConfigError>)
        ensures
            r is Ok <==> yaml_string_map(text@) is Some,
            r matches Ok(c) ==> c@ == yaml_string_map(text@)->Some_0 && keys_unique(c@),
            r matches Err(e) ==> e == ConfigError::InvalidYaml,
    {
        match read_yaml_map(text) {
            Ok(values) => Ok(Config { values }),
            Err(_) => Err(ConfigError::InvalidYaml),
        }
    }

    /// The number of entries.
    pub fn len(&self) -> (n: usize)
        ensures
            n == self@.len(),
    {
        self.values.len()
    }

    /// The key and value of the entry at `i`.
    pub fn entry(&self, i: usize) -> (r: (&String, &String))
        requires
            i < self@.len(),
        ensures
            (r.0@, r.1@) == self@[i as int],
    {
        let e = &self.values[i];
        (&e.0, &e.1)
    }

    /// The value under `key`, if there is one.
    pub fn get(&self, key: &str) -> (r: Option<&String>)
        ensures
            r matches Some(v) ==> exists|i: int| 0 <= i < self@.len() && #[trigger] self@[i] == (key@, v@),
            r is None ==> forall|i: int| 0 <= i < self@.len() ==> (#[trigger] self@[i]).0 != key@,
    {
        let wanted = String::from_str(key);
        let mut i: usize = 0;
        while i < self.values.len()
            invariant
                i <= self@.len(),
                wanted@ == key@,
                forall|k: int| 0 <= k < i ==> (#[trigger] self@[k]).0 != key@,
            decreases self@.len() - i,
        {
            let e = &self.values[i];
            if e.0 == wanted {
                assert(self@[i as int] == (key@, e.1@));
                return Some(&e.1);
            }
            i += 1;
        }
        None
    }
}

/// A record type extended with one `String` field per configuration entry,
/// and the initial value of each field: the declared fields start at their
/// type's zero value, the added ones at the entry's value.
#[derive(Debug)]
pub struct ConfigStruct {
    pub name: String,
    pub fields: Vec<FieldDecl>,
    pub init: Vec<Value>,
}

impl ConfigStruct {
    /// The initial value of the field called `field`, if there is one.
    pub fn initial_value(&self, field: &str) -> (r: Option<&Value>)
        requires
            self.fields@.len() == self.init@.len(),
        ensures
            r matches Some(v) ==> exists|i: int|
                0 <= i < self.fields@.len() && (#[trigger] self.fields@[i]).name@ == field@ && self.init@[i] == *v,
            r is None ==> forall|i: int| 0 <= i < self.fields@.len() ==> (#[trigger] self.fields@[i]).name@ != field@,
    {
        let wanted = String::from_str(field);
        let mut i: usize = 0;
        while i < self.fields.len()
            invariant
                i <= self.fields@.len(),
                self.fields@.len() == self.init@.len(),
                wanted@ == field@,
                forall|k: int| 0 <= k < i ==> (#[trigger] self.fields@[k]).name@ != field@,
            decreases self.fields@.len() - i,
        {
            if self.fields[i].name == wanted {
                return Some(&self.init[i]);
            }
            i += 1;
        }
        None
    }
}

/// Some declared field is named like a configuration key.
pub open spec fn clashes(declared: Seq<FieldDecl>, entries: Seq<(Seq<char>, Seq<char>)>) -> bool {
    exists|i: int, j: int| 0 <= i < declared.len() && 0 <= j < entries.len() && #[trigger] declared[i].name@ == #[trigger] entries[j].0
}

/// Extends the record `name` with the fields of `config`. Fails when a
/// declared field is named like a configuration key.
pub fn config_struct(name: String, declared: Vec<FieldDecl>, config: &Config) -> (r: Result<ConfigStruct, ConfigError>)
    ensures
        clashes(declared@, config@) ==> (r matches Err(ConfigError::FieldClash(x)) && exists|j: int|
            0 <= j < config@.len() && (#[trigger] config@[j]).0 == x@ && exists|i: int|
                0 <= i < declared@.len() && (#[trigger] declared@[i]).name@ == x@),
        !clashes(declared@, config@) ==> (r matches Ok(s) && {
            &&& s.name == name
            &&& s.fields@.len() == declared@.len() + config@.len()
            &&& s.init@.len() == s.fields@.len()
            &&& forall|i: int| 0 <= i < declared@.len() ==> #[trigger] s.fields@[i] == declared@[i]
                && is_zero_of(s.init@[i], declared@[i].ty)
            &&& forall|j: int| 0 <= j < config@.len() ==> {
                let f = #[trigger] s.fields@[declared@.len() + j];
                &&& f.name@ == config@[j].0
                &&& f.ty == TypeRef::Text
                &&& f.rename is None
                &&& s.init@[declared@.len() + j] matches Value::Text(v) && v@ == config@[j].1
            }
        }),
{
    let d = declared.len();
    let k = config.len();
    let mut i: usize = 0;
    while i < d
        invariant
            i <= d,
            d == declared@.len(),
            k == config@.len(),
            forall|a: int, b: int| 0 <= a < i && 0 <= b < k ==> #[trigger] declared@[a].name@ != #[trigger] config@[b].0,
        decreases d - i,
    {
        let mut j: usize = 0;
        while j < k
            invariant
                i < d,
                j <= k,
                d == declared@.len(),
                k == config@.len(),
                forall|a: int, b: int| 0 <= a < i && 0 <= b < k ==> #[trigger] declared@[a].name@ != #[trigger] config@[b].0,
                forall|b: int| 0 <= b < j ==> declared@[i as int].name@ != #[trigger] config@[b].0,
            decreases k - j,
        {
            let (key, _) = config.entry(j);
            if declared[i].name == *key {
                let x = key.clone();
                assert(config@[j as int].0 == x@);
                assert(declared@[i as int].name@ == x@);
                return Err(ConfigError::FieldClash(x));
            }
            j += 1;
        }
        i += 1;
    }
    let ghost given = declared@;
    let mut declared = declared;
    let mut fields: Vec<FieldDecl> = Vec::new();
    let mut init: Vec<Value> = Vec::new();
    let mut n: usize = 0;
    while n < d
        invariant
            n <= d,
            d == given.len(),
            declared@ == given.subrange(n as int, d as int),
            fields@ == given.subrange(0, n as int),
            init@.len() == n,
            forall|a: int| 0 <= a < n ==> is_zero_of(#[trigger] init@[a], given[a].ty),
        decreases d - n,
    {
        let f = declared.remove(0);
        init.push(zero_of(&f.ty));
        fields.push(f);
        n += 1;
        assert(fields@ =~= given.subrange(0, n as int));
        assert(declared@ =~= given.subrange(n as int, d as int));
    }
    let mut j: usize = 0;
    while j < k
        invariant
            j <= k,
            d == given.len(),
            k == config@.len(),
            fields@.len() == d + j,
            init@.len() == d + j,
            forall|a: int| 0 <= a < d ==> #[trigger] fields@[a] == given[a] && is_zero_of(init@[a], given[a].ty),
            forall|b: int| 0 <= b < j ==> {
                let f = #[trigger] fields@[d + b];
                &&& f.name@ == config@[b].0
                &&& f.ty == TypeRef::Text
                &&& f.rename is None
                &&& init@[d + b] matches Value::Text(v) && v@ == config@[b].1
            },
        decreases k - j,
    {
        let (key, value) = config.entry(j);
        fields.push(FieldDecl::new(key.clone(), TypeRef::Text));
        init.push(Value::Text(value.clone()));
        proof {
            assert forall|b: int| 0 <= b < j + 1 implies {
                let f = #[trigger] fields@[d + b];
                &&& f.name@ == config@[b].0
                &&& f.ty == TypeRef::Text
                &&& f.rename is None
                &&& init@[d + b] matches Value::Text(v) && v@ == config@[b].1
            } by {
                if b == j {
                    assert(fields@[d + b].name@ == config@[b].0);
                }
            }
        }
        j += 1;
    }
    Ok(ConfigStruct { name, fields, init })
}

} // verus!
