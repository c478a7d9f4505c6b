//! Detection of MongoDB query operators smuggled into JSON request bodies.

use vstd::prelude::*;
use crate::text::{chars_of, contains_chars, has_infix, has_prefix, same_chars, starts_with_chars};

verus! {

broadcast use vstd::std_specs::vec::group_vec_axioms;

/// A JSON value as the request screen sees it. Numbers keep their text.
pub enum JsonValue {
    Null,
    Bool(bool),
    Number(String),
    String(String),
    Array(Vec<JsonValue>),
    Object(Vec<(String, JsonValue)>),
}

/// Keys that name a MongoDB query operator.
pub open spec fn is_mongo_operator(k: Seq<char>) -> bool {
    ||| k == "$where"@
    ||| k == "$ne"@
    ||| k == "$gt"@
    ||| k == "$lt"@
    ||| k == "$gte"@
    ||| k == "$lte"@
    ||| k == "$regex"@
    ||| k == "$in"@
    ||| k == "$nin"@
    ||| k == "$all"@
    ||| k == "$or"@
    ||| k == "$and"@
    ||| k == "$exists"@
    ||| k == "$type"@
    ||| k == "$mod"@
    ||| k == "$text"@
    ||| k == "$search"@
}

/// A key that starts with `$` and names an operator.
pub open spec fn is_operator_key(k: Seq<char>) -> bool {
    has_prefix(k, seq!['$']) && is_mongo_operator(k)
}

/// `v` holds an operator key at any depth, or a string containing `$where` or `$ne`.
pub open spec fn has_injection(v: JsonValue) -> bool
    decreases v,
{
    match v {
        JsonValue::Object(members) => exists|i: int|
            0 <= i < members@.len() && (is_operator_key(#[trigger] members@[i].0@) || has_injection(
                members@[i].1,
            )),
        JsonValue::Array(items) => exists|i: int|
            0 <= i < items@.len() && has_injection(#[trigger] items@[i]),
        JsonValue::String(s) => has_infix(s@, "$where"@) || has_infix(s@, "$ne"@),
        _ => false,
    }
}

proof fn lemma_object_injection(m: Vec<(String, JsonValue)>)
    ensures
        has_injection(JsonValue::Object(m)) == exists|i: int|
            0 <= i < m@.len() && (is_operator_key(#[trigger] m@[i].0@) || has_injection(m@[i].1)),
{
    let v = JsonValue::Object(m);
    assert forall|j: int|
        0 <= j < m@.len() && (is_operator_key(#[trigger] m@[j].0@) || has_injection(m@[j].1)) implies has_injection(v) by {
        assert(decreases_to!(v => v->Object_0));
        assert(decreases_to!(m => m@));
        assert(decreases_to!(m@ => m@[j]));
        assert(decreases_to!(m@[j] => m@[j].1));
        assert(decreases_to!(v => m@[j].1));
        assert(decreases_to!(v => m@[j]));
        let mj = m@[j];
        if is_operator_key(mj.0@) {
        } else {
            assert(has_injection(mj.1));
        }
    }
}

proof fn lemma_array_injection(a: Vec<JsonValue>)
    ensures
        has_injection(JsonValue::Array(a)) == exists|i: int|
            0 <= i < a@.len() && has_injection(#[trigger] a@[i]),
{
    let v = JsonValue::Array(a);
    assert forall|j: int| 0 <= j < a@.len() && has_injection(#[trigger] a@[j]) implies has_injection(v) by {
        assert(decreases_to!(v => v->Array_0));
        assert(decreases_to!(a => a@));
        assert(decreases_to!(a@ => a@[j]));
    }
}

fn is_named(key: &[char], name: &str) -> (r: bool)
    ensures
        r == (key@ == name@),
{
    let n = chars_of(name);
    same_chars(key, n.as_slice())
}

/// Whether `key` names one of the screened operators.
pub fn is_mongo_operator_key(key: &str) -> (r: bool)
    ensures
        r == is_mongo_operator(key@),
{
    let k = chars_of(key);
    let k = k.as_slice();
    is_named(k, "$where") || is_named(k, "$ne") || is_named(k, "$gt") || is_named(k, "$lt")
        || is_named(k, "$gte") || is_named(k, "$lte") || is_named(k, "$regex") || is_named(k, "$in")
        || is_named(k, "$nin") || is_named(k, "$all") || is_named(k, "$or") || is_named(k, "$and")
        || is_named(k, "$exists") || is_named(k, "$type") || is_named(k, "$mod") || is_named(
        k,
        "$text",
    ) || is_named(k, "$search")
}

fn text_contains(s: &str, p: &str) -> (r: bool)
    ensures
        r == has_infix(s@, p@),
{
    let a = chars_of(s);
    let b = chars_of(p);
    contains_chars(a.as_slice(), b.as_slice())
}

/// The request screen; it holds no state.
#[derive(Clone, Copy)]
pub struct MongoSanitizer;

/// A service wrapped by the request screen.
pub struct MongoSanitizerMiddleware<S> {
    pub inner: S,
}

impl Default for MongoSanitizer {
    fn default() -> (r: MongoSanitizer)
        ensures
            r == MongoSanitizer,
    {
        MongoSanitizer::new()
    }
}

impl MongoSanitizer {
    pub fn new() -> (r: MongoSanitizer)
        ensures
            r == MongoSanitizer,
    {
        MongoSanitizer
    }

    /// Wraps `service` so that its requests are screened first.
    pub fn layer<S>(&self, service: S) -> (r: MongoSanitizerMiddleware<S>)
        ensures
            r.inner == service,
    {
        MongoSanitizerMiddleware { inner: service }
    }

    /// Whether `value` carries an operator key at any depth, or a string that
    /// contains `$where` or `$ne`.
    pub fn contains_mongo_injection(value: &JsonValue) -> (r: bool)
        ensures
            r == has_injection(*value),
        decreases value,
    {
        match value {
            JsonValue::Object(members) => {
                proof {
                    lemma_object_injection(*members);
                }
                let mut i: usize = 0;
                while i < members.len()
                    invariant
                        *value == JsonValue::Object(*members),
                        has_injection(*value) == exists|j: int|
                            0 <= j < members@.len() && (is_operator_key(#[trigger] members@[j].0@)
                                || has_injection(members@[j].1)),
                        i <= members@.len(),
                        forall|k: int| 0 <= k < i ==> !is_operator_key(#[trigger] members@[k].0@),
                        forall|k: int| 0 <= k < i ==> !has_injection(#[trigger] members@[k].1),
                    decreases members@.len() - i,
                {
                    let key = members[i].0.as_str();
                    let kc = chars_of(key);
                    let dollar = ['$'];
                    assert(dollar@ =~= seq!['$']);
                    let starts = starts_with_chars(kc.as_slice(), dollar.as_slice());
                    let named = is_mongo_operator_key(key);
                    if starts && named {
                        return true;
                    }
                    proof {
                        assert(decreases_to!(*value => (*value)->Object_0));
                        assert(decreases_to!(*members => members@));
                        assert(decreases_to!(members@ => members@[i as int]));
                        assert(decreases_to!(members@[i as int] => members@[i as int].1));
                    }
                    let nested = Self::contains_mongo_injection(&members[i].1);
                    if nested {
                        return true;
                    }
                    i = i + 1;
                }
                false
            },
            JsonValue::Array(items) => {
                proof {
                    lemma_array_injection(*items);
                }
                let mut i: usize = 0;
                while i < items.len()
                    invariant
                        *value == JsonValue::Array(*items),
                        has_injection(*value) == exists|j: int|
                            0 <= j < items@.len() && has_injection(#[trigger] items@[j]),
                        i <= items@.len(),
                        forall|k: int| 0 <= k < i ==> !has_injection(#[trigger] items@[k]),
                    decreases items@.len() - i,
                {
                    proof {
                        assert(decreases_to!(*value => (*value)->Array_0));
                        assert(decreases_to!(*items => items@));
                        assert(decreases_to!(items@ => items@[i as int]));
                    }
                    if Self::contains_mongo_injection(&items[i]) {
                        assert(has_injection(items@[i as int]));
                        return true;
                    }
                    i = i + 1;
                }
                false
            },
            JsonValue::String(s) => text_contains(s.as_str(), "$where") || text_contains(
                s.as_str(),
                "$ne",
            ),
            _ => false,
        }
    }

    /// Whether a request body is refused: it is not empty, it parsed as JSON
    /// (`parsed`), and it carries an injection.
    pub fn rejects(body_is_empty: bool, parsed: &Option<JsonValue>) -> (r: bool)
        ensures
            r == (!body_is_empty && match *parsed {
                Some(v) => has_injection(v),
                None => false,
            }),
    {
        if body_is_empty {
            return false;
        }
        match parsed {
            Some(v) => Self::contains_mongo_injection(v),
            None => false,
        }
    }
}

} // verus!
