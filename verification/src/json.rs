//! JSON values: what the bridge reads out of replies and hands to callers.
use crate::text::{self, copy_opt, same_text};
use vstd::prelude::*;

verus! {

/// A JSON value with its object fields in the order they were written.
#[derive(Debug, PartialEq, Eq)]
pub enum Json {
    Null,
    Bool(bool),
    Unsigned(u64),
    Negative(i64),
    /// A number that is no 64-bit integer, by its decimal text.
    Decimal(String),
    Text(String),
    Array(Vec<Json>),
    Object(Vec<JsonField>),
}

/// One field of a JSON object.
#[derive(Debug, PartialEq, Eq)]
pub struct JsonField {
    pub key: String,
    pub value: Json,
}

/// The mathematical value of a [`Json`].
pub enum JsonModel {
    Null,
    Bool(bool),
    Unsigned(u64),
    Negative(i64),
    Decimal(Seq<char>),
    Text(Seq<char>),
    Array(Seq<JsonModel>),
    Object(Seq<(Seq<char>, JsonModel)>),
}

pub open spec fn models(v: Seq<Json>) -> Seq<JsonModel>
    decreases v,
{
    Seq::new(
        v.len(),
        |i: int|
            if 0 <= i < v.len() {
                v[i].model()
            } else {
                JsonModel::Null
            },
    )
}

pub open spec fn field_models(v: Seq<JsonField>) -> Seq<(Seq<char>, JsonModel)>
    decreases v,
{
    Seq::new(
        v.len(),
        |i: int|
            if 0 <= i < v.len() {
                (v[i].key@, v[i].value.model())
            } else {
                (Seq::empty(), JsonModel::Null)
            },
    )
}

impl Json {
    /// The value that this tree of vectors and strings stands for.
    pub open spec fn model(self) -> JsonModel
        decreases self,
    {
        match self {
            Json::Null => JsonModel::Null,
            Json::Bool(b) => JsonModel::Bool(b),
            Json::Unsigned(n) => JsonModel::Unsigned(n),
            Json::Negative(n) => JsonModel::Negative(n),
            Json::Decimal(s) => JsonModel::Decimal(s@),
            Json::Text(s) => JsonModel::Text(s@),
            Json::Array(v) => JsonModel::Array(models(v@)),
            Json::Object(v) => JsonModel::Object(field_models(v@)),
        }
    }
}

/// The value of the first field with this key.
pub open spec fn field_of(fields: Seq<(Seq<char>, JsonModel)>, key: Seq<char>) -> Option<JsonModel>
    decreases fields.len(),
{
    if fields.len() == 0 {
        None
    } else if fields[0].0 == key {
        Some(fields[0].1)
    } else {
        field_of(fields.drop_first(), key)
    }
}

impl JsonModel {
    /// The field of an object; nothing for any other value.
    pub open spec fn field(self, key: Seq<char>) -> Option<JsonModel> {
        match self {
            JsonModel::Object(fields) => field_of(fields, key),
            _ => None,
        }
    }

    /// The field of a field of an object.
    pub open spec fn field2(self, a: Seq<char>, b: Seq<char>) -> Option<JsonModel> {
        match self.field(a) {
            Some(x) => x.field(b),
            None => None,
        }
    }

    pub open spec fn field3(self, a: Seq<char>, b: Seq<char>, c: Seq<char>) -> Option<JsonModel> {
        match self.field2(a, b) {
            Some(x) => x.field(c),
            None => None,
        }
    }
}

pub open spec fn bool_of(o: Option<JsonModel>) -> Option<bool> {
    match o {
        Some(JsonModel::Bool(b)) => Some(b),
        _ => None,
    }
}

pub open spec fn u64_of(o: Option<JsonModel>) -> Option<u64> {
    match o {
        Some(JsonModel::Unsigned(n)) => Some(n),
        _ => None,
    }
}

pub open spec fn text_of(o: Option<JsonModel>) -> Option<Seq<char>> {
    match o {
        Some(JsonModel::Text(s)) => Some(s),
        _ => None,
    }
}

pub open spec fn array_of(o: Option<JsonModel>) -> Option<Seq<JsonModel>> {
    match o {
        Some(JsonModel::Array(v)) => Some(v),
        _ => None,
    }
}

/// An absent value reads as null.
pub open spec fn or_null(o: Option<JsonModel>) -> JsonModel {
    match o {
        Some(m) => m,
        None => JsonModel::Null,
    }
}

/// An optional text as JSON: null where there is none.
pub open spec fn text_or_null(o: Option<Seq<char>>) -> JsonModel {
    match o {
        Some(s) => JsonModel::Text(s),
        None => JsonModel::Null,
    }
}

/// An optional number as JSON: null where there is none.
pub open spec fn number_or_null(o: Option<u64>) -> JsonModel {
    match o {
        Some(n) => JsonModel::Unsigned(n),
        None => JsonModel::Null,
    }
}

/// What an optional reference to a value refers to.
pub open spec fn opt_model(o: Option<&Json>) -> Option<JsonModel> {
    match o {
        Some(v) => Some(v.model()),
        None => None,
    }
}

proof fn lemma_field_models_skip(v: Seq<JsonField>, i: int)
    requires
        0 <= i < v.len(),
    ensures
        field_models(v).subrange(i, v.len() as int)[0] == (v[i].key@, v[i].value.model()),
        field_models(v).subrange(i, v.len() as int).drop_first() =~= field_models(v).subrange(
            i + 1,
            v.len() as int,
        ),
{
}

impl Json {
    /// The field of an object; nothing for any other value.
    pub fn get(&self, key: &str) -> (r: Option<&Json>)
        ensures
            opt_model(r) == self.model().field(key@),
    {
        match self {
            Json::Object(fields) => {
                let mut i: usize = 0;
                assert(field_models(fields@).subrange(0, fields@.len() as int) =~= field_models(
                    fields@,
                ));
                while i < fields.len()
                    invariant
                        i <= fields@.len(),
                        field_of(field_models(fields@), key@) == field_of(
                            field_models(fields@).subrange(i as int, fields@.len() as int),
                            key@,
                        ),
                        self.model() == JsonModel::Object(field_models(fields@)),
                    decreases fields@.len() - i,
                {
                    proof {
                        lemma_field_models_skip(fields@, i as int);
                    }
                    if same_text(fields[i].key.as_str(), key) {
                        return Some(&fields[i].value);
                    }
                    i += 1;
                }
                None
            },
            _ => None,
        }
    }

    pub fn get2(&self, a: &str, b: &str) -> (r: Option<&Json>)
        ensures
            opt_model(r) == self.model().field2(a@, b@),
    {
        match self.get(a) {
            Some(x) => x.get(b),
            None => None,
        }
    }

    pub fn get3(&self, a: &str, b: &str, c: &str) -> (r: Option<&Json>)
        ensures
            opt_model(r) == self.model().field3(a@, b@, c@),
    {
        match self.get2(a, b) {
            Some(x) => x.get(c),
            None => None,
        }
    }

    /// The boolean in a field, if there is one.
    pub fn bool_field(&self, key: &str) -> (r: Option<bool>)
        ensures
            r == bool_of(self.model().field(key@)),
    {
        match self.get(key) {
            Some(Json::Bool(b)) => Some(*b),
            _ => None,
        }
    }

    /// The unsigned number in a field, if there is one.
    pub fn u64_field(&self, key: &str) -> (r: Option<u64>)
        ensures
            r == u64_of(self.model().field(key@)),
    {
        match self.get(key) {
            Some(Json::Unsigned(n)) => Some(*n),
            _ => None,
        }
    }

    /// The text in a field, if there is one.
    pub fn text_field(&self, key: &str) -> (r: Option<String>)
        ensures
            text::opt_text(r) == text_of(self.model().field(key@)),
    {
        match self.get(key) {
            Some(Json::Text(s)) => Some(s.clone()),
            _ => None,
        }
    }

    /// A value that stands for the same JSON.
    pub fn copy(&self) -> (r: Json)
        ensures
            r.model() == self.model(),
        decreases self,
    {
        match self {
            Json::Null => Json::Null,
            Json::Bool(b) => Json::Bool(*b),
            Json::Unsigned(n) => Json::Unsigned(*n),
            Json::Negative(n) => Json::Negative(*n),
            Json::Decimal(s) => Json::Decimal(s.clone()),
            Json::Text(s) => Json::Text(s.clone()),
            Json::Array(v) => {
                let mut out: Vec<Json> = Vec::new();
                let mut i: usize = 0;
                while i < v.len()
                    invariant
                        i <= v@.len(),
                        *self == Json::Array(*v),
                        out@.len() == i,
                        forall|j: int| 0 <= j < i ==> (#[trigger] out@[j]).model() == v@[j].model(),
                    decreases v@.len() - i,
                {
                    assert(decreases_to!(self => self->Array_0));
                    assert(decreases_to!(*v => v@));
                    assert(decreases_to!(v@ => v@[i as int]));
                    out.push(v[i].copy());
                    i += 1;
                }
                assert(models(out@) =~= models(v@));
                Json::Array(out)
            },
            Json::Object(v) => {
                let mut out: Vec<JsonField> = Vec::new();
                let mut i: usize = 0;
                while i < v.len()
                    invariant
                        i <= v@.len(),
                        *self == Json::Object(*v),
                        out@.len() == i,
                        forall|j: int|
                            0 <= j < i ==> (#[trigger] out@[j]).key == v@[j].key
                                && out@[j].value.model() == v@[j].value.model(),
                    decreases v@.len() - i,
                {
                    assert(decreases_to!(self => self->Object_0));
                    assert(decreases_to!(*v => v@));
                    assert(decreases_to!(v@ => v@[i as int]));
                    assert(decreases_to!(v@[i as int] => v@[i as int].value));
                    let f = JsonField { key: v[i].key.clone(), value: v[i].value.copy() };
                    out.push(f);
                    i += 1;
                }
                assert(field_models(out@) =~= field_models(v@));
                Json::Object(out)
            },
        }
    }

    /// A JSON string.
    pub fn text(s: &str) -> (r: Json)
        ensures
            r.model() == JsonModel::Text(s@),
    {
        Json::Text(s.to_owned())
    }

    /// A JSON string, or null.
    pub fn opt_text(o: &Option<String>) -> (r: Json)
        ensures
            r.model() == text_or_null(text::opt_text(*o)),
    {
        match copy_opt(o) {
            Some(s) => Json::Text(s),
            None => Json::Null,
        }
    }

    /// A JSON number, or null.
    pub fn opt_number(o: Option<u64>) -> (r: Json)
        ensures
            r.model() == number_or_null(o),
    {
        match o {
            Some(n) => Json::Unsigned(n),
            None => Json::Null,
        }
    }

    /// A copy of an optional value, null where there is none.
    pub fn opt_copy(o: Option<&Json>) -> (r: Json)
        ensures
            r.model() == or_null(opt_model(o)),
    {
        match o {
            Some(v) => v.copy(),
            None => Json::Null,
        }
    }

    /// A JSON array of strings.
    pub fn texts(v: &Vec<String>) -> (r: Json)
        ensures
            r.model() == texts_model(text::texts(v@)),
    {
        let mut out: Vec<Json> = Vec::new();
        let mut i: usize = 0;
        while i < v.len()
            invariant
                i <= v@.len(),
                out@.len() == i,
                forall|j: int| 0 <= j < i ==> (#[trigger] out@[j]).model() == JsonModel::Text(v@[j]@),
            decreases v@.len() - i,
        {
            out.push(Json::Text(v[i].clone()));
            i += 1;
        }
        let ghost expect = text::texts(v@).map_values(|s: Seq<char>| JsonModel::Text(s));
        assert(models(out@) =~= expect) by {
            assert forall|j: int| 0 <= j < v@.len() implies models(out@)[j] == expect[j] by {
                assert(out@[j].model() == JsonModel::Text(v@[j]@));
            }
        }
        Json::Array(out)
    }
}

/// The JSON array of some texts.
pub open spec fn texts_model(v: Seq<Seq<char>>) -> JsonModel {
    JsonModel::Array(v.map_values(|s: Seq<char>| JsonModel::Text(s)))
}

/// Adds a field behind those that are there.
pub fn put(fields: &mut Vec<JsonField>, key: &str, value: Json)
    ensures
        field_models(final(fields)@) == field_models(old(fields)@).push((key@, value.model())),
{
    let ghost before = fields@;
    let ghost m = value.model();
    fields.push(JsonField { key: key.to_owned(), value });
    assert(field_models(fields@) =~= field_models(before).push((key@, m)));
}

/// Adds a value behind those that are there.
pub fn append_value(values: &mut Vec<Json>, value: Json)
    ensures
        models(final(values)@) == models(old(values)@).push(value.model()),
{
    let ghost before = values@;
    let ghost m = value.model();
    values.push(value);
    assert(models(values@) =~= models(before).push(m));
}

/// No fields yet.
pub fn no_fields() -> (r: Vec<JsonField>)
    ensures
        field_models(r@) == Seq::<(Seq<char>, JsonModel)>::empty(),
{
    let r: Vec<JsonField> = Vec::new();
    assert(field_models(r@) =~= Seq::<(Seq<char>, JsonModel)>::empty());
    r
}

/// No values yet.
pub fn no_values() -> (r: Vec<Json>)
    ensures
        models(r@) == Seq::<JsonModel>::empty(),
{
    let r: Vec<Json> = Vec::new();
    assert(models(r@) =~= Seq::<JsonModel>::empty());
    r
}


/// None of the first fields has a key.
pub open spec fn without_key(fields: Seq<(Seq<char>, JsonModel)>, n: int, key: Seq<char>) -> bool
    decreases n,
{
    n <= 0 || (fields[n - 1].0 != key && without_key(fields, n - 1, key))
}

proof fn lemma_without_key(fields: Seq<(Seq<char>, JsonModel)>, n: int, key: Seq<char>, j: int)
    requires
        without_key(fields, n, key),
        0 <= j < n,
    ensures
        fields[j].0 != key,
    decreases n,
{
    if j < n - 1 {
        lemma_without_key(fields, n - 1, key, j);
    }
}

/// The first field with a key is the one that is read, also where only the fields from
/// `from` on are looked at.
pub proof fn lemma_field_at(fields: Seq<(Seq<char>, JsonModel)>, from: int, i: int, key: Seq<char>)
    requires
        0 <= from <= i < fields.len(),
        fields[i].0 == key,
        without_key(fields, i, key),
    ensures
        field_of(fields.subrange(from, fields.len() as int), key) == Some(fields[i].1),
    decreases i - from,
{
    let rest = fields.subrange(from, fields.len() as int);
    if from < i {
        lemma_without_key(fields, i, key, from);
        lemma_field_at(fields, from + 1, i, key);
        assert(rest.drop_first() =~= fields.subrange(from + 1, fields.len() as int));
    }
}


/// A key that no field has is not found.
pub proof fn lemma_no_field(fields: Seq<(Seq<char>, JsonModel)>, from: int, key: Seq<char>)
    requires
        0 <= from <= fields.len(),
        without_key(fields, fields.len() as int, key),
    ensures
        field_of(fields.subrange(from, fields.len() as int), key) is None,
    decreases fields.len() - from,
{
    let rest = fields.subrange(from, fields.len() as int);
    if from < fields.len() {
        lemma_without_key(fields, fields.len() as int, key, from);
        lemma_no_field(fields, from + 1, key);
        assert(rest.drop_first() =~= fields.subrange(from + 1, fields.len() as int));
    }
}

/// A text field that may be missing or null.
pub open spec fn maybe_text(v: JsonModel, key: Seq<char>) -> Option<Option<Seq<char>>> {
    match v.field(key) {
        None => Some(None),
        Some(JsonModel::Null) => Some(None),
        Some(JsonModel::Text(s)) => Some(Some(s)),
        Some(_) => None,
    }
}

/// An object holds a value under a key: the first of its fields with that key has the value.
pub open spec fn object_holds(v: JsonModel, key: Seq<char>, value: JsonModel) -> bool {
    &&& v is Object
    &&& exists|i: int|
        {
            &&& 0 <= i < v->Object_0.len()
            &&& #[trigger] v->Object_0[i] == (key, value)
            &&& forall|j: int| 0 <= j < i ==> (#[trigger] v->Object_0[j]).0 != key
        }
}

/// A value has nothing under a key: it is no object, or none of its fields has that key.
pub open spec fn object_lacks(v: JsonModel, key: Seq<char>) -> bool {
    v is Object ==> forall|j: int|
        0 <= j < v->Object_0.len() ==> (#[trigger] v->Object_0[j]).0 != key
}

proof fn lemma_field_of(fields: Seq<(Seq<char>, JsonModel)>, key: Seq<char>, i: int)
    requires
        0 <= i < fields.len(),
        fields[i].0 == key,
        forall|j: int| 0 <= j < i ==> (#[trigger] fields[j]).0 != key,
    ensures
        field_of(fields, key) == Some(fields[i].1),
    decreases i,
{
    if i > 0 {
        assert(fields[0].0 != key);
        let rest = fields.drop_first();
        assert forall|j: int| 0 <= j < i - 1 implies (#[trigger] rest[j]).0 != key by {
            assert(rest[j] == fields[j + 1]);
        }
        lemma_field_of(rest, key, i - 1);
    }
}

proof fn lemma_field_of_none(fields: Seq<(Seq<char>, JsonModel)>, key: Seq<char>)
    requires
        forall|j: int| 0 <= j < fields.len() ==> (#[trigger] fields[j]).0 != key,
    ensures
        field_of(fields, key) is None,
    decreases fields.len(),
{
    if fields.len() > 0 {
        assert(fields[0].0 != key);
        let rest = fields.drop_first();
        assert forall|j: int| 0 <= j < rest.len() implies (#[trigger] rest[j]).0 != key by {
            assert(rest[j] == fields[j + 1]);
        }
        lemma_field_of_none(rest, key);
    }
}

/// The first field with a key is what the object holds there.
pub proof fn lemma_first_field_is_held(
    fields: Seq<(Seq<char>, JsonModel)>,
    i: int,
    key: Seq<char>,
    value: JsonModel,
)
    requires
        0 <= i < fields.len(),
        fields[i] == (key, value),
        forall|j: int| 0 <= j < i ==> (#[trigger] fields[j]).0 != key,
    ensures
        object_holds(JsonModel::Object(fields), key, value),
        JsonModel::Object(fields).field(key) == Some(value),
{
    let v = JsonModel::Object(fields);
    assert(v->Object_0[i] == (key, value));
    lemma_field_of(fields, key, i);
}

/// What an object holds under a key is what is read of it, as the kind of value that it is and
/// as no other.
pub proof fn lemma_held_value_is_read(v: JsonModel, key: Seq<char>, value: JsonModel)
    requires
        object_holds(v, key, value),
    ensures
        v.field(key) == Some(value),
        bool_of(v.field(key)) == (match value {
            JsonModel::Bool(b) => Some(b),
            _ => None,
        }),
        u64_of(v.field(key)) == (match value {
            JsonModel::Unsigned(n) => Some(n),
            _ => None,
        }),
        text_of(v.field(key)) == (match value {
            JsonModel::Text(t) => Some(t),
            _ => None,
        }),
        array_of(v.field(key)) == (match value {
            JsonModel::Array(a) => Some(a),
            _ => None,
        }),
{
    let fields = v->Object_0;
    let i = choose|i: int|
        {
            &&& 0 <= i < v->Object_0.len()
            &&& #[trigger] v->Object_0[i] == (key, value)
            &&& forall|j: int| 0 <= j < i ==> (#[trigger] v->Object_0[j]).0 != key
        };
    lemma_field_of(fields, key, i);
}

/// Under a key that an object lacks nothing is read.
pub proof fn lemma_lacking_value_is_not_read(v: JsonModel, key: Seq<char>)
    requires
        object_lacks(v, key),
    ensures
        v.field(key) is None,
        bool_of(v.field(key)) is None,
        u64_of(v.field(key)) is None,
        text_of(v.field(key)) is None,
        array_of(v.field(key)) is None,
{
    if v is Object {
        lemma_field_of_none(v->Object_0, key);
    }
}

/// What is read under a key is what the object holds there.
pub proof fn lemma_read_value_is_held(v: JsonModel, key: Seq<char>)
    ensures
        v.field(key) matches Some(value) ==> object_holds(v, key, value),
        v.field(key) is None ==> object_lacks(v, key),
{
    if v is Object {
        lemma_first_or_none(v->Object_0, key);
        let fields = v->Object_0;
        if exists|i: int| 0 <= i < fields.len() && (#[trigger] fields[i]).0 == key {
            let i = choose|i: int|
                {
                    &&& 0 <= i < fields.len()
                    &&& (#[trigger] fields[i]).0 == key
                    &&& forall|j: int| 0 <= j < i ==> (#[trigger] fields[j]).0 != key
                };
            lemma_field_of(fields, key, i);
            assert(fields[i] == (key, fields[i].1));
        } else {
            lemma_field_of_none(fields, key);
        }
    }
}

proof fn lemma_first_or_none(fields: Seq<(Seq<char>, JsonModel)>, key: Seq<char>)
    ensures
        (exists|i: int| 0 <= i < fields.len() && (#[trigger] fields[i]).0 == key) ==> exists|i: int|
            {
                &&& 0 <= i < fields.len()
                &&& (#[trigger] fields[i]).0 == key
                &&& forall|j: int| 0 <= j < i ==> (#[trigger] fields[j]).0 != key
            },
    decreases fields.len(),
{
    if fields.len() > 0 {
        let front = fields.drop_last();
        lemma_first_or_none(front, key);
        if exists|i: int| 0 <= i < front.len() && (#[trigger] front[i]).0 == key {
            let i = choose|i: int|
                {
                    &&& 0 <= i < front.len()
                    &&& (#[trigger] front[i]).0 == key
                    &&& forall|j: int| 0 <= j < i ==> (#[trigger] front[j]).0 != key
                };
            assert(fields[i] == front[i]);
            assert forall|j: int| 0 <= j < i implies (#[trigger] fields[j]).0 != key by {
                assert(front[j] == fields[j]);
            }
        } else {
            let last: int = fields.len() - 1;
            assert forall|j: int| 0 <= j < last implies (#[trigger] fields[j]).0 != key by {
                assert(front[j] == fields[j]);
            }
            if fields[last].0 == key {
                assert(fields[last].0 == key);
            }
        }
    }
}

} // verus!
