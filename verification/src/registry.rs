//! The catalog of tools: specifications as JSON text, one under each name.

use vstd::prelude::*;

use crate::json::{
    clone_value, json_parsing, json_rendering, lemma_object_view, members_view, JsonMember,
    JsonModel, JsonValue,
};
use crate::payload::{items_view, lemma_array_view, text_at};
use crate::seqs::{
    first_index, found, keyed, lemma_absent_not_found, lemma_first_index, lemma_first_index_is,
    lemma_placed_found, lemma_placed_sorted, lemma_sorted_found, not_before, placed, sorted_by_key,
};
use crate::text::{chars_eq, chars_less, chars_of, lemma_text_order, text_less};

verus! {

/// Why a specification was not taken into the catalog.
#[derive(Clone, Copy, Debug, PartialEq, Eq, Structural)]
pub enum RegistryError {
    /// The specification is no JSON.
    InvalidJson,
    /// The specification has no text `name`.
    MissingName,
}

impl RegistryError {
    /// The text shown for this refusal.
    pub open spec fn message_text(self) -> Seq<char> {
        match self {
            RegistryError::InvalidJson => "spec is not valid JSON"@,
            RegistryError::MissingName => "spec must contain string field 'name'"@,
        }
    }

    /// A short message naming the refusal.
    pub fn message(&self) -> (s: String)
        ensures
            s@ == self.message_text(),
    {
        match self {
            RegistryError::InvalidJson => "spec is not valid JSON".to_string(),
            RegistryError::MissingName => "spec must contain string field 'name'".to_string(),
        }
    }
}

/// A specification under its name.
struct ToolRecord {
    name: String,
    spec_json: String,
}

/// The catalog as a list of names and specifications, in the order of the
/// names.
pub type Catalog = Seq<(Seq<char>, Seq<char>)>;

/// The name of a record.
pub open spec fn name_of() -> spec_fn((Seq<char>, Seq<char>)) -> Seq<char> {
    |r: (Seq<char>, Seq<char>)| r.0
}

/// The names rise strictly: the catalog is in the order of its names and no
/// name occurs twice.
pub open spec fn sorted_names(catalog: Catalog) -> bool {
    sorted_by_key(catalog, name_of())
}

/// The name that a specification is added under.
pub open spec fn spec_name(spec_json: Seq<char>) -> Result<Seq<char>, RegistryError> {
    match json_parsing(spec_json) {
        None => Err(RegistryError::InvalidJson),
        Some(m) => match text_at(m, "name"@) {
            Some(name) => Ok(name),
            None => Err(RegistryError::MissingName),
        },
    }
}

/// The catalog after a specification is added: it takes the place of the
/// specification with the same name, or its place in the order of the names.
pub open spec fn added(catalog: Catalog, spec_json: Seq<char>) -> Result<Catalog, RegistryError> {
    match spec_name(spec_json) {
        Err(e) => Err(e),
        Ok(name) => Ok(placed(catalog, name_of(), (name, spec_json))),
    }
}

/// The specification under `name`.
pub open spec fn tool_named(catalog: Catalog, name: Seq<char>) -> Option<Seq<char>> {
    match found(catalog, keyed(name_of(), name)) {
        Some(r) => Some(r.1),
        None => None,
    }
}

/// The text under `key`, or the empty text.
pub open spec fn text_or_empty(m: JsonModel, key: Seq<char>) -> Seq<char> {
    match text_at(m, key) {
        Some(t) => t,
        None => Seq::empty(),
    }
}

/// The member under `key`, or the empty object.
pub open spec fn member_or_empty(m: JsonModel, key: Seq<char>) -> JsonModel {
    match m.get(key) {
        Some(v) => v,
        None => JsonModel::Object(Seq::empty()),
    }
}

/// What the manifest says of a specification: its name, its description and
/// its argument schema; a specification that is no JSON counts as the empty
/// object.
pub open spec fn manifest_entry(spec_json: Seq<char>) -> JsonModel {
    let m = match json_parsing(spec_json) {
        Some(m) => m,
        None => JsonModel::Object(Seq::empty()),
    };
    JsonModel::Object(
        seq![
            ("name"@, JsonModel::String(text_or_empty(m, "name"@))),
            ("description"@, JsonModel::String(text_or_empty(m, "description"@))),
            ("args"@, member_or_empty(m, "args_schema"@)),
        ],
    )
}

/// The manifest of a catalog: one entry for each specification, in order.
pub open spec fn manifest_json(catalog: Catalog) -> JsonModel {
    JsonModel::Array(Seq::new(catalog.len(), |i: int| manifest_entry(catalog[i].1)))
}

/// Adding keeps the catalog in order; the added specification is found
/// under its name, and every other name leads to what it led to before.
pub proof fn lemma_added(catalog: Catalog, name: Seq<char>, spec_json: Seq<char>, other: Seq<char>)
    requires
        sorted_names(catalog),
    ensures
        sorted_names(placed(catalog, name_of(), (name, spec_json))),
        tool_named(placed(catalog, name_of(), (name, spec_json)), name) == Some(spec_json),
        other != name ==> tool_named(placed(catalog, name_of(), (name, spec_json)), other)
            == tool_named(catalog, other),
{
    lemma_placed_sorted(catalog, name_of(), (name, spec_json));
    lemma_placed_found(catalog, name_of(), (name, spec_json), other);
}

/// The contents of a list of records.
spec fn records_view(records: Seq<ToolRecord>) -> Catalog {
    Seq::new(records.len(), |i: int| (records[i].name@, records[i].spec_json@))
}

/// The catalog of tools.
pub struct Registry {
    tools: Vec<ToolRecord>,
}

impl View for Registry {
    type V = Catalog;

    closed spec fn view(&self) -> Catalog {
        records_view(self.tools@)
    }
}

/// The text under `key`, or the empty text.
fn text_or_default(m: &JsonValue, key: &str) -> (r: String)
    ensures
        r@ == text_or_empty(m@, key@),
{
    match m.get(key) {
        Some(JsonValue::String(s)) => s.clone(),
        _ => String::new(),
    }
}

/// The manifest entry of a specification.
fn entry_for(spec_json: &str) -> (r: JsonValue)
    ensures
        r@ == manifest_entry(spec_json@),
{
    let m = match JsonValue::parse(spec_json) {
        Some(m) => m,
        None => {
            let empty: Vec<JsonMember> = Vec::new();
            proof {
                lemma_object_view(empty);
                assert(members_view(empty@) =~= Seq::<(Seq<char>, JsonModel)>::empty());
            }
            JsonValue::Object(empty)
        },
    };
    let args = match m.get("args_schema") {
        Some(v) => clone_value(v),
        None => {
            let empty: Vec<JsonMember> = Vec::new();
            proof {
                lemma_object_view(empty);
                assert(members_view(empty@) =~= Seq::<(Seq<char>, JsonModel)>::empty());
            }
            JsonValue::Object(empty)
        },
    };
    let mut members: Vec<JsonMember> = Vec::new();
    members.push(
        JsonMember {
            key: "name".to_string(),
            value: JsonValue::String(text_or_default(&m, "name")),
        },
    );
    members.push(
        JsonMember {
            key: "description".to_string(),
            value: JsonValue::String(text_or_default(&m, "description")),
        },
    );
    members.push(JsonMember { key: "args".to_string(), value: args });
    proof {
        lemma_object_view(members);
        assert(members_view(members@) =~= manifest_entry(spec_json@)->Object_0);
    }
    JsonValue::Object(members)
}

impl Registry {
    #[verifier::type_invariant]
    spec fn well_formed(self) -> bool {
        sorted_names(self@)
    }

    /// A catalog without tools.
    pub fn new() -> (r: Registry)
        ensures
            r@.len() == 0,
    {
        Registry { tools: Vec::new() }
    }

    /// Number of tools; they stand in the order of their names.
    pub fn len(&self) -> (n: usize)
        ensures
            n == self@.len(),
            sorted_names(self@),
    {
        proof {
            use_type_invariant(self);
        }
        self.tools.len()
    }

    /// Where the first record stands whose name does not come before `name`,
    /// or the number of records.
    fn rank(&self, name: &Vec<char>) -> (i: usize)
        ensures
            i == first_index(self@, not_before(name_of(), name@)),
            i <= self.tools@.len(),
    {
        let ghost view = self@;
        let ghost pred = not_before(name_of(), name@);
        let mut i: usize = 0;
        while i < self.tools.len()
            invariant
                i <= self.tools@.len(),
                view == records_view(self.tools@),
                pred == not_before(name_of(), name@),
                forall|j: int| 0 <= j < i ==> !pred(#[trigger] view[j]),
            decreases self.tools@.len() - i,
        {
            if !chars_less(&chars_of(self.tools[i].name.as_str()), name) {
                proof {
                    assert(pred(view[i as int]));
                    lemma_first_index_is(view, pred, i as int);
                }
                return i;
            }
            assert(!pred(view[i as int]));
            i += 1;
        }
        proof {
            lemma_first_index_is(view, pred, i as int);
        }
        i
    }

    /// Add a specification under the name it carries; an earlier
    /// specification with that name is replaced. A refused specification
    /// leaves the catalog as it was.
    pub fn add_tool(&mut self, spec_json: String) -> (r: Result<(), RegistryError>)
        ensures
            match added(old(self)@, spec_json@) {
                Ok(after) => r is Ok && final(self)@ == after,
                Err(e) => r == Err::<(), RegistryError>(e) && final(self)@ == old(self)@,
            },
    {
        proof {
            use_type_invariant(&*self);
        }
        let m = match JsonValue::parse(spec_json.as_str()) {
            Some(m) => m,
            None => {
                return Err(RegistryError::InvalidJson);
            },
        };
        let name = match m.get("name") {
            Some(JsonValue::String(s)) => s.clone(),
            _ => {
                return Err(RegistryError::MissingName);
            },
        };
        let key = chars_of(name.as_str());
        let i = self.rank(&key);
        let ghost before = self@;
        let ghost record = (name@, spec_json@);
        proof {
            lemma_placed_sorted(before, name_of(), record);
        }
        let replace = i < self.tools.len() && chars_eq(
            &chars_of(self.tools[i].name.as_str()),
            &key,
        );
        let mut taken = Registry::new();
        core::mem::swap(self, &mut taken);
        let Registry { tools } = taken;
        let mut tools = tools;
        if replace {
            tools.set(i, ToolRecord { name, spec_json });
            assert(records_view(tools@) =~= before.update(i as int, record));
        } else {
            tools.insert(i, ToolRecord { name, spec_json });
            assert(records_view(tools@) =~= before.insert(i as int, record));
        }
        *self = Registry { tools };
        Ok(())
    }

    /// The same as [`Registry::add_tool`].
    pub fn update_tool(&mut self, spec_json: String) -> (r: Result<(), RegistryError>)
        ensures
            match added(old(self)@, spec_json@) {
                Ok(after) => r is Ok && final(self)@ == after,
                Err(e) => r == Err::<(), RegistryError>(e) && final(self)@ == old(self)@,
            },
    {
        self.add_tool(spec_json)
    }

    /// The names of the tools, in the order of the catalog.
    pub fn list_tools(&self) -> (names: Vec<String>)
        ensures
            names@.len() == self@.len(),
            forall|i: int| 0 <= i < names@.len() ==> names@[i]@ == self@[i].0,
    {
        let mut names: Vec<String> = Vec::new();
        let mut i: usize = 0;
        while i < self.tools.len()
            invariant
                i <= self.tools@.len(),
                names@.len() == i,
                forall|j: int| 0 <= j < i ==> names@[j]@ == self@[j].0,
            decreases self.tools@.len() - i,
        {
            names.push(self.tools[i].name.clone());
            i += 1;
        }
        names
    }

    /// The specification of the tool `name`.
    pub fn get_tool(&self, name: &str) -> (r: Option<String>)
        ensures
            crate::plan::opt_string_view(r) == tool_named(self@, name@),
    {
        proof {
            use_type_invariant(self);
        }
        let key = chars_of(name);
        let i = self.rank(&key);
        proof {
            lemma_first_index(self@, not_before(name_of(), name@));
        }
        if i < self.tools.len() && chars_eq(&chars_of(self.tools[i].name.as_str()), &key) {
            proof {
                lemma_sorted_found(self@, name_of(), i as int);
            }
            Some(self.tools[i].spec_json.clone())
        } else {
            proof {
                let view = self@;
                assert forall|j: int| 0 <= j < view.len() implies name_of()(#[trigger] view[j])
                    != name@ by {
                    if j < i {
                        assert(!not_before(name_of(), name@)(view[j]));
                        lemma_text_order(view[j].0, name@);
                    } else if j > i {
                        assert(not_before(name_of(), name@)(view[i as int]));
                        assert(text_less(name_of()(view[i as int]), name_of()(view[j])));
                        lemma_text_order(view[i as int].0, name@);
                        lemma_text_order(view[j].0, name@);
                        if view[j].0 == name@ {
                            lemma_text_order(view[i as int].0, view[j].0);
                        }
                    }
                }
                lemma_absent_not_found(view, name_of(), name@);
            }
            None
        }
    }

    /// The manifest for the planner: name, description and argument schema of
    /// each tool, as compact JSON.
    pub fn get_manifest(&self) -> (s: String)
        ensures
            s@ == json_rendering(manifest_json(self@)),
    {
        let mut items: Vec<JsonValue> = Vec::new();
        let mut i: usize = 0;
        while i < self.tools.len()
            invariant
                i <= self.tools@.len(),
                items@.len() == i,
                forall|j: int| 0 <= j < i ==> items@[j]@ == manifest_entry(self@[j].1),
            decreases self.tools@.len() - i,
        {
            items.push(entry_for(self.tools[i].spec_json.as_str()));
            i += 1;
        }
        proof {
            lemma_array_view(items);
            assert(items_view(items@) =~= manifest_json(self@)->Array_0);
        }
        JsonValue::Array(items).render()
    }
}

} // verus!
