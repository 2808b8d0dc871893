use vstd::prelude::*;
use crate::text::same_text;

verus! {

/// A JSON document: the tool schemas and metadata that the server hands around.
/// Numbers keep the text they were written with.
#[derive(Debug)]
pub enum Json {
    Null,
    Bool(bool),
    Number(String),
    Text(String),
    Array(Vec<Json>),
    Object(Vec<(String, Json)>),
}

/// The mathematical reading of a JSON document.
pub enum JsonValue {
    Null,
    Bool(bool),
    Number(Seq<char>),
    Text(Seq<char>),
    Array(Seq<JsonValue>),
    Object(Seq<(Seq<char>, JsonValue)>),
}

impl Json {
    pub open spec fn value(&self) -> JsonValue
        decreases self,
    {
        match self {
            Json::Null => JsonValue::Null,
            Json::Bool(b) => JsonValue::Bool(*b),
            Json::Number(n) => JsonValue::Number(n@),
            Json::Text(t) => JsonValue::Text(t@),
            Json::Array(items) => JsonValue::Array(
                Seq::new(
                    items@.len(),
                    |i: int|
                        if 0 <= i < items@.len() {
                            items@[i].value()
                        } else {
                            JsonValue::Null
                        },
                ),
            ),
            Json::Object(entries) => JsonValue::Object(
                Seq::new(
                    entries@.len(),
                    |i: int|
                        if 0 <= i < entries@.len() {
                            (entries@[i].0@, entries@[i].1.value())
                        } else {
                            (Seq::empty(), JsonValue::Null)
                        },
                ),
            ),
        }
    }
}


/// The empty schema `{}`, which accepts everything.
pub open spec fn empty_schema() -> JsonValue {
    JsonValue::Object(Seq::empty())
}

/// Keys whose value maps names to subschemas.
pub open spec fn is_schema_map_key(k: Seq<char>) -> bool {
    k == "properties"@ || k == "definitions"@ || k == "$defs"@
}

/// A subschema as normalization leaves it: `{}` for a boolean, else normalized.
pub open spec fn slot(x: JsonValue) -> JsonValue {
    if x is Bool {
        empty_schema()
    } else {
        normalized(x)
    }
}

/// `v` with every boolean subschema replaced by `{}`: the values of `properties`,
/// `definitions` and `$defs`, and the value of `items`, wherever they occur. Other values are
/// visited in turn; a `properties`, `definitions` or `$defs` that is not an object is left
/// as it is.
pub open spec fn normalized(v: JsonValue) -> JsonValue
    decreases v,
{
    match v {
        JsonValue::Array(a) => JsonValue::Array(
            Seq::new(
                a.len(),
                |i: int|
                    if 0 <= i < a.len() {
                        normalized(a[i])
                    } else {
                        JsonValue::Null
                    },
            ),
        ),
        JsonValue::Object(m) => JsonValue::Object(
            Seq::new(
                m.len(),
                |i: int|
                    if 0 <= i < m.len() {
                        (
                            m[i].0,
                            if is_schema_map_key(m[i].0) {
                                match m[i].1 {
                                    JsonValue::Object(p) => JsonValue::Object(
                                        Seq::new(
                                            p.len(),
                                            |j: int|
                                                if 0 <= j < p.len() {
                                                    (
                                                        p[j].0,
                                                        if p[j].1 is Bool {
                                                            empty_schema()
                                                        } else {
                                                            normalized(p[j].1)
                                                        },
                                                    )
                                                } else {
                                                    (Seq::empty(), JsonValue::Null)
                                                },
                                        ),
                                    ),
                                    _ => m[i].1,
                                }
                            } else if m[i].0 == "items"@ {
                                if m[i].1 is Bool {
                                    empty_schema()
                                } else {
                                    normalized(m[i].1)
                                }
                            } else {
                                normalized(m[i].1)
                            },
                        )
                    } else {
                        (Seq::empty(), JsonValue::Null)
                    },
            ),
        ),
        _ => v,
    }
}


/// What normalization makes of the value `x` of a member named `k`.
pub open spec fn normalized_entry(k: Seq<char>, x: JsonValue) -> JsonValue {
    if is_schema_map_key(k) {
        match x {
            JsonValue::Object(p) => JsonValue::Object(
                Seq::new(
                    p.len(),
                    |j: int|
                        if 0 <= j < p.len() {
                            (p[j].0, slot(p[j].1))
                        } else {
                            (Seq::empty(), JsonValue::Null)
                        },
                ),
            ),
            _ => x,
        }
    } else if k == "items"@ {
        slot(x)
    } else {
        normalized(x)
    }
}

proof fn lemma_object_entry(m: Seq<(Seq<char>, JsonValue)>, i: int)
    requires
        0 <= i < m.len(),
    ensures
        normalized(JsonValue::Object(m)) matches JsonValue::Object(b) && b.len() == m.len() && b[i]
            == (m[i].0, normalized_entry(m[i].0, m[i].1)),
{
    if is_schema_map_key(m[i].0) {
        if let JsonValue::Object(p) = m[i].1 {
            if let JsonValue::Object(b) = normalized(JsonValue::Object(m)) {
                if let (JsonValue::Object(x), JsonValue::Object(y)) = (
                    b[i].1,
                    normalized_entry(m[i].0, m[i].1),
                ) {
                    assert(x =~= y);
                }
            }
        }
    }
}

fn is_bool(v: &Json) -> (r: bool)
    ensures
        r == (v.value() is Bool),
{
    match v {
        Json::Bool(_) => true,
        _ => false,
    }
}

fn empty_object() -> (r: Json)
    ensures
        r.value() == empty_schema(),
{
    let r = Json::Object(Vec::new());
    assert(r.value() == JsonValue::Object(Seq::<(Seq<char>, JsonValue)>::empty())) by {
        if let JsonValue::Object(s) = r.value() {
            assert(s =~= Seq::<(Seq<char>, JsonValue)>::empty());
        }
    }
    r
}

fn schema_map_key(k: &String) -> (r: bool)
    ensures
        r == is_schema_map_key(k@),
{
    same_text(k.as_str(), "properties") || same_text(k.as_str(), "definitions") || same_text(
        k.as_str(),
        "$defs",
    )
}

/// A copy of `v`.
#[verifier::loop_isolation(false)]
pub fn copy_json(v: &Json) -> (r: Json)
    ensures
        r.value() == v.value(),
    decreases v,
{
    match v {
        Json::Null => Json::Null,
        Json::Bool(b) => Json::Bool(*b),
        Json::Number(n) => Json::Number(n.clone()),
        Json::Text(t) => Json::Text(t.clone()),
        Json::Array(items) => {
            let mut out: Vec<Json> = Vec::new();
            let mut i: usize = 0;
            while i < items.len()
                invariant
                    i <= items@.len(),
                    out@.len() == i,
                    forall|j: int| 0 <= j < i ==> (#[trigger] out@[j]).value() == items@[j].value(),
                decreases items@.len() - i,
            {
                let x = copy_json(&items[i]);
                out.push(x);
                i = i + 1;
            }
            let r = Json::Array(out);
            proof {
                if let (JsonValue::Array(a), JsonValue::Array(b)) = (r.value(), v.value()) {
                    assert(a =~= b);
                }
            }
            r
        },
        Json::Object(entries) => {
            let mut out: Vec<(String, Json)> = Vec::new();
            let mut i: usize = 0;
            while i < entries.len()
                invariant
                    i <= entries@.len(),
                    out@.len() == i,
                    forall|j: int|
                        0 <= j < i ==> (#[trigger] out@[j]).0@ == entries@[j].0@ && out@[j].1.value()
                            == entries@[j].1.value(),
                decreases entries@.len() - i,
            {
                let x = copy_json(&entries[i].1);
                out.push((entries[i].0.clone(), x));
                i = i + 1;
            }
            let r = Json::Object(out);
            proof {
                if let (JsonValue::Object(a), JsonValue::Object(b)) = (r.value(), v.value()) {
                    assert(a =~= b);
                }
            }
            r
        },
    }
}

/// The normalization of `v` (see `normalized`), as a new document.
#[verifier::loop_isolation(false)]
pub fn normalized_copy(v: &Json) -> (r: Json)
    ensures
        r.value() == normalized(v.value()),
    decreases v,
{
    match v {
        Json::Null => Json::Null,
        Json::Bool(b) => Json::Bool(*b),
        Json::Number(n) => Json::Number(n.clone()),
        Json::Text(t) => Json::Text(t.clone()),
        Json::Array(items) => {
            let mut out: Vec<Json> = Vec::new();
            let mut i: usize = 0;
            while i < items.len()
                invariant
                    i <= items@.len(),
                    out@.len() == i,
                    forall|j: int|
                        0 <= j < i ==> (#[trigger] out@[j]).value() == normalized(
                            items@[j].value(),
                        ),
                decreases items@.len() - i,
            {
                let x = normalized_copy(&items[i]);
                out.push(x);
                i = i + 1;
            }
            let r = Json::Array(out);
            proof {
                if let (JsonValue::Array(a), JsonValue::Array(b)) = (
                    r.value(),
                    normalized(v.value()),
                ) {
                    assert(a =~= b);
                }
            }
            r
        },
        Json::Object(entries) => {
            let mut out: Vec<(String, Json)> = Vec::new();
            let mut i: usize = 0;
            let ghost m = match v.value() {
                JsonValue::Object(m) => m,
                _ => Seq::empty(),
            };
            assert(m.len() == entries@.len());
            while i < entries.len()
                invariant
                    i <= entries@.len(),
                    m.len() == entries@.len(),
                    forall|j: int|
                        0 <= j < entries@.len() ==> #[trigger] m[j] == (
                            entries@[j].0@,
                            entries@[j].1.value(),
                        ),
                    out@.len() == i,
                    forall|j: int|
                        0 <= j < i ==> (#[trigger] out@[j]).0@ == m[j].0 && out@[j].1.value()
                            == normalized_entry(m[j].0, m[j].1),
                decreases entries@.len() - i,
            {
                let k = &entries[i].0;
                let x = &entries[i].1;
                assert(m[i as int] == (k@, x.value()));
                let nx: Json = if schema_map_key(k) {
                    match x {
                        Json::Object(p) => {
                            let mut inner: Vec<(String, Json)> = Vec::new();
                            let mut j: usize = 0;
                            while j < p.len()
                                invariant
                                    j <= p@.len(),
                                    inner@.len() == j,
                                    forall|t: int|
                                        0 <= t < j ==> (#[trigger] inner@[t]).0@ == p@[t].0@
                                            && inner@[t].1.value() == slot(p@[t].1.value()),
                                decreases p@.len() - j,
                            {
                                let y = if is_bool(&p[j].1) {
                                    empty_object()
                                } else {
                                    normalized_copy(&p[j].1)
                                };
                                inner.push((p[j].0.clone(), y));
                                j = j + 1;
                            }
                            let r = Json::Object(inner);
                            proof {
                                if let (JsonValue::Object(a), JsonValue::Object(b)) = (
                                    r.value(),
                                    normalized_entry(k@, x.value()),
                                ) {
                                    assert(a =~= b);
                                }
                            }
                            r
                        },
                        _ => copy_json(x),
                    }
                } else if same_text(k.as_str(), "items") {
                    if is_bool(x) {
                        empty_object()
                    } else {
                        normalized_copy(x)
                    }
                } else {
                    normalized_copy(x)
                };
                out.push((k.clone(), nx));
                i = i + 1;
            }
            let r = Json::Object(out);
            proof {
                if let (JsonValue::Object(a), JsonValue::Object(b)) = (
                    r.value(),
                    normalized(v.value()),
                ) {
                    assert forall|t: int| 0 <= t < a.len() implies a[t] == b[t] by {
                        lemma_object_entry(m, t);
                    }
                    assert(a =~= b);
                }
            }
            r
        },
    }
}

/// Replaces every boolean subschema of `value` by `{}` (see `normalized`), so that clients
/// that do not take boolean schemas can read the tool schemas.
pub fn normalize_schema(value: &mut Json)
    ensures
        final(value).value() == normalized(old(value).value()),
{
    let n = normalized_copy(value);
    *value = n;
}


proof fn lemma_normalized_keeps_kind(v: JsonValue)
    ensures
        (normalized(v) is Bool) == (v is Bool),
        normalized(empty_schema()) == empty_schema(),
{
    if let JsonValue::Object(e) = normalized(empty_schema()) {
        assert(e =~= Seq::<(Seq<char>, JsonValue)>::empty());
    }
}

proof fn lemma_slot_idempotent(y: JsonValue)
    ensures
        slot(slot(y)) == slot(y),
    decreases y, 2int,
{
    lemma_normalized_keeps_kind(y);
    if !(y is Bool) {
        lemma_normalized_keeps_kind(normalized(y));
        lemma_normalized_idempotent(y);
    }
}

proof fn lemma_entry_idempotent(k: Seq<char>, x: JsonValue)
    ensures
        normalized_entry(k, normalized_entry(k, x)) == normalized_entry(k, x),
    decreases x, 3int,
{
    if is_schema_map_key(k) {
        if let JsonValue::Object(p) = x {
            if let (JsonValue::Object(a), JsonValue::Object(b)) = (
                normalized_entry(k, normalized_entry(k, x)),
                normalized_entry(k, x),
            ) {
                assert forall|j: int| 0 <= j < b.len() implies a[j] == b[j] by {
                    lemma_slot_idempotent(p[j].1);
                }
                assert(a =~= b);
            }
        }
    } else if k == "items"@ {
        lemma_slot_idempotent(x);
    } else {
        lemma_normalized_idempotent(x);
    }
}

/// Normalizing a schema a second time changes nothing.
pub proof fn lemma_normalized_idempotent(v: JsonValue)
    ensures
        normalized(normalized(v)) == normalized(v),
    decreases v, 1int,
{
    match v {
        JsonValue::Array(a) => {
            if let (JsonValue::Array(x), JsonValue::Array(y)) = (
                normalized(normalized(v)),
                normalized(v),
            ) {
                assert forall|i: int| 0 <= i < y.len() implies x[i] == y[i] by {
                    lemma_normalized_idempotent(a[i]);
                }
                assert(x =~= y);
            }
        },
        JsonValue::Object(m) => {
            if let JsonValue::Object(b) = normalized(v) {
                assert forall|i: int| 0 <= i < m.len() implies b[i] == (
                    m[i].0,
                    normalized_entry(m[i].0, m[i].1),
                ) by {
                    lemma_object_entry(m, i);
                }
                if let JsonValue::Object(c) = normalized(normalized(v)) {
                    assert forall|i: int| 0 <= i < b.len() implies c[i] == b[i] by {
                        lemma_object_entry(m, i);
                        lemma_object_entry(b, i);
                        lemma_entry_idempotent(m[i].0, m[i].1);
                    }
                    assert(c =~= b);
                }
            }
        },
        _ => {},
    }
}

/// After normalization no member of `properties`, `definitions` or `$defs`, and no `items`,
/// directly under an object is a boolean schema: every boolean member there has become the
/// empty schema `{}` under the same name, and the keys of the object stay as they were.
pub proof fn lemma_normalized_has_no_boolean_schemas(m: Seq<(Seq<char>, JsonValue)>)
    ensures
        normalized(JsonValue::Object(m)) matches JsonValue::Object(b) && b.len() == m.len()
            && forall|i: int|
            0 <= i < b.len() ==> {
                &&& (#[trigger] b[i]).0 == m[i].0
                &&& b[i].0 == "items"@ ==> !(b[i].1 is Bool)
                &&& ((b[i].0 == "properties"@ || b[i].0 == "definitions"@ || b[i].0 == "$defs"@) && b[i].1 is Object) ==> forall|j: int|
                    0 <= j < b[i].1->Object_0.len() ==> !(b[i].1->Object_0[j].1 is Bool)
                &&& ((m[i].0 == "properties"@ || m[i].0 == "definitions"@ || m[i].0 == "$defs"@) && m[i].1 is Object) ==> (b[i].1 is Object
                    && b[i].1->Object_0.len() == m[i].1->Object_0.len() && forall|j: int|
                    0 <= j < m[i].1->Object_0.len() && m[i].1->Object_0[j].1 is Bool
                        ==> b[i].1->Object_0[j] == (m[i].1->Object_0[j].0, empty_schema()))
            },
{
    reveal_strlit("items");
    reveal_strlit("properties");
    reveal_strlit("definitions");
    reveal_strlit("$defs");
    if let JsonValue::Object(b) = normalized(JsonValue::Object(m)) {
        assert forall|i: int| 0 <= i < b.len() implies {
            &&& (#[trigger] b[i]).0 == m[i].0
            &&& b[i].0 == "items"@ ==> !(b[i].1 is Bool)
            &&& ((b[i].0 == "properties"@ || b[i].0 == "definitions"@ || b[i].0 == "$defs"@) && b[i].1 is Object) ==> forall|j: int|
                0 <= j < b[i].1->Object_0.len() ==> !(b[i].1->Object_0[j].1 is Bool)
            &&& ((m[i].0 == "properties"@ || m[i].0 == "definitions"@ || m[i].0 == "$defs"@) && m[i].1 is Object) ==> (b[i].1 is Object
                && b[i].1->Object_0.len() == m[i].1->Object_0.len() && forall|j: int|
                0 <= j < m[i].1->Object_0.len() && m[i].1->Object_0[j].1 is Bool
                    ==> b[i].1->Object_0[j] == (m[i].1->Object_0[j].0, empty_schema()))
        } by {
            lemma_object_entry(m, i);
            lemma_normalized_keeps_kind(m[i].1);
            assert((m[i].0 == "properties"@ || m[i].0 == "definitions"@ || m[i].0 == "$defs"@) == is_schema_map_key(m[i].0));
            if m[i].0 == "items"@ {
                assert("items"@[0] != "$defs"@[0]);
                assert("items"@.len() != "properties"@.len());
                assert("items"@.len() != "definitions"@.len());
                assert(!is_schema_map_key(m[i].0));
                assert(b[i].1 == slot(m[i].1));
                assert(!(b[i].1 is Bool));
            }
            if is_schema_map_key(m[i].0) && m[i].1 is Object {
                let p = m[i].1->Object_0;
                assert forall|j: int| 0 <= j < p.len() implies !(slot(p[j].1) is Bool) by {
                    lemma_normalized_keeps_kind(p[j].1);
                }
                let q = b[i].1->Object_0;
                assert forall|j: int| 0 <= j < q.len() implies !(q[j].1 is Bool) by {
                    assert(q[j] == (p[j].0, slot(p[j].1)));
                }
                assert forall|j: int| 0 <= j < p.len() && p[j].1 is Bool implies q[j] == (
                    p[j].0,
                    empty_schema(),
                ) by {
                    assert(q[j] == (p[j].0, slot(p[j].1)));
                }
            }
        }
    }
}

} // verus!
