//! A JSON value as the agent reads and writes it.

use vstd::prelude::*;

verus! {

/// A JSON number, kept in the three forms that a JSON parser distinguishes.
/// A number with a fraction or an exponent is kept as its decimal text.
#[derive(Debug, PartialEq)]
pub enum JsonNumber {
    PosInt(u64),
    NegInt(i64),
    Float(String),
}

/// One member of a JSON object.
#[derive(Debug, PartialEq)]
pub struct JsonField {
    pub key: String,
    pub value: JsonValue,
}

/// A JSON value.
#[derive(Debug, PartialEq)]
pub enum JsonValue {
    Null,
    Bool(bool),
    Number(JsonNumber),
    Str(String),
    Array(Vec<JsonValue>),
    Object(Vec<JsonField>),
}

/// The mathematical view of a JSON number.
pub enum NumberView {
    PosInt(nat),
    NegInt(int),
    Float(Seq<char>),
}

/// The mathematical view of a JSON value.
pub enum JsonView {
    Null,
    Bool(bool),
    Number(NumberView),
    Str(Seq<char>),
    Array(Seq<JsonView>),
    Object(Seq<(Seq<char>, JsonView)>),
}

impl View for JsonNumber {
    type V = NumberView;

    open spec fn view(&self) -> NumberView {
        match self {
            JsonNumber::PosInt(n) => NumberView::PosInt(*n as nat),
            JsonNumber::NegInt(n) => NumberView::NegInt(*n as int),
            JsonNumber::Float(t) => NumberView::Float(t@),
        }
    }
}

impl JsonValue {
    pub open spec fn to_view(self) -> JsonView
        decreases self,
    {
        match self {
            JsonValue::Null => JsonView::Null,
            JsonValue::Bool(b) => JsonView::Bool(b),
            JsonValue::Number(n) => JsonView::Number(n@),
            JsonValue::Str(s) => JsonView::Str(s@),
            JsonValue::Array(items) => JsonView::Array(
                Seq::new(items@.len(), |i: int| if 0 <= i < items@.len() { items@[i].to_view() } else { JsonView::Null }),
            ),
            JsonValue::Object(fields) => JsonView::Object(
                Seq::new(fields@.len(), |i: int| if 0 <= i < fields@.len() { (fields@[i].key@, fields@[i].value.to_view()) } else { (Seq::empty(), JsonView::Null) }),
            ),
        }
    }
}

impl View for JsonValue {
    type V = JsonView;

    open spec fn view(&self) -> JsonView {
        self.to_view()
    }
}

pub proof fn lemma_object_view(fields: Vec<JsonField>)
    ensures
        JsonValue::Object(fields)@ == JsonView::Object(fields_view(fields@)),
{
    let v = JsonValue::Object(fields)@;
    match v {
        JsonView::Object(fs) => {
            assert(fs =~= fields_view(fields@));
        },
        _ => {},
    }
}

pub proof fn lemma_array_view(items: Vec<JsonValue>)
    ensures
        JsonValue::Array(items)@ == JsonView::Array(items_view(items@)),
{
    let v = JsonValue::Array(items)@;
    match v {
        JsonView::Array(xs) => {
            assert(xs =~= items_view(items@));
        },
        _ => {},
    }
}

/// The first member of an object with the given key.
pub open spec fn field_lookup(fields: Seq<(Seq<char>, JsonView)>, key: Seq<char>) -> Option<JsonView>
    decreases fields.len(),
{
    if fields.len() == 0 {
        None
    } else if fields[0].0 == key {
        Some(fields[0].1)
    } else {
        field_lookup(fields.drop_first(), key)
    }
}

/// The view of a list of object members.
pub open spec fn fields_view(fields: Seq<JsonField>) -> Seq<(Seq<char>, JsonView)> {
    Seq::new(fields.len(), |i: int| (fields[i].key@, fields[i].value@))
}

/// The view of a list of values.
pub open spec fn items_view(items: Seq<JsonValue>) -> Seq<JsonView> {
    Seq::new(items.len(), |i: int| items[i]@)
}

pub open spec fn opt_view(v: Option<&JsonValue>) -> Option<JsonView> {
    match v {
        Some(x) => Some(x@),
        None => None,
    }
}

impl JsonView {
    /// `Value::get(key)`: the member `key` of an object; `None` for anything else.
    pub open spec fn get(self, key: Seq<char>) -> Option<JsonView> {
        match self {
            JsonView::Object(fields) => field_lookup(fields, key),
            _ => None,
        }
    }

    pub open spec fn as_str(self) -> Option<Seq<char>> {
        match self {
            JsonView::Str(s) => Some(s),
            _ => None,
        }
    }

    /// `Value::as_u64`: only non-negative integers give a value.
    pub open spec fn as_u64(self) -> Option<nat> {
        match self {
            JsonView::Number(NumberView::PosInt(n)) => Some(n),
            _ => None,
        }
    }

    pub open spec fn as_bool(self) -> Option<bool> {
        match self {
            JsonView::Bool(b) => Some(b),
            _ => None,
        }
    }

    pub open spec fn as_array(self) -> Option<Seq<JsonView>> {
        match self {
            JsonView::Array(items) => Some(items),
            _ => None,
        }
    }
}

/// `v.get(key).and_then(as_str)`.
pub open spec fn get_str(v: JsonView, key: Seq<char>) -> Option<Seq<char>> {
    match v.get(key) {
        Some(x) => x.as_str(),
        None => None,
    }
}

/// `v.get(key).and_then(as_u64)`.
pub open spec fn get_u64(v: JsonView, key: Seq<char>) -> Option<nat> {
    match v.get(key) {
        Some(x) => x.as_u64(),
        None => None,
    }
}

/// `v.get(key).and_then(as_bool)`.
pub open spec fn get_bool(v: JsonView, key: Seq<char>) -> Option<bool> {
    match v.get(key) {
        Some(x) => x.as_bool(),
        None => None,
    }
}

/// `v.get(key).and_then(as_str).unwrap_or(default)`.
pub open spec fn get_str_or(v: JsonView, key: Seq<char>, default: Seq<char>) -> Seq<char> {
    match get_str(v, key) {
        Some(s) => s,
        None => default,
    }
}

/// The strings among a list of values, in order.
pub open spec fn strings_in(items: Seq<JsonView>) -> Seq<Seq<char>>
    decreases items.len(),
{
    if items.len() == 0 {
        seq![]
    } else {
        strings_in(items.drop_last()) + match items.last() {
            JsonView::Str(s) => seq![s],
            _ => seq![],
        }
    }
}

/// `v.get(key).and_then(as_array)` mapped to its strings, or no strings.
pub open spec fn get_strings(v: JsonView, key: Seq<char>) -> Seq<Seq<char>> {
    match v.get(key) {
        Some(JsonView::Array(items)) => strings_in(items),
        _ => seq![],
    }
}

/// The views of a vector of strings.
pub open spec fn string_views(v: Seq<String>) -> Seq<Seq<char>> {
    v.map_values(|s: String| s@)
}

impl JsonValue {
    /// `Value::get(key)`.
    pub fn get<'a>(&'a self, key: &str) -> (r: Option<&'a JsonValue>)
        ensures
            opt_view(r) == self@.get(key@),
    {
        match self {
            JsonValue::Object(fields) => {
                let n = fields.len();
                let ghost fv = fields_view(fields@);
                proof {
                    lemma_object_view(*fields);
                }
                let mut i: usize = 0;
                assert(fv.subrange(0, n as int) =~= fv);
                while i < n
                    invariant
                        n == fields@.len(),
                        fv == fields_view(fields@),
                        self@ == JsonView::Object(fv),
                        i <= n,
                        field_lookup(fv, key@) == field_lookup(fv.subrange(i as int, n as int), key@),
                    decreases n - i,
                {
                    if crate::text::str_eq(fields[i].key.as_str(), key) {
                        assert(fv.subrange(i as int, n as int)[0] == fv[i as int]);
                        return Some(&fields[i].value);
                    }
                    assert(fv.subrange(i as int, n as int).drop_first() =~= fv.subrange(i + 1, n as int));
                    i = i + 1;
                }
                None
            },
            _ => None,
        }
    }

    pub fn as_str(&self) -> (r: Option<&str>)
        ensures
            match r {
                Some(s) => self@.as_str() == Some(s@),
                None => self@.as_str() is None,
            },
    {
        match self {
            JsonValue::Str(s) => Some(s.as_str()),
            _ => None,
        }
    }

    pub fn as_u64(&self) -> (r: Option<u64>)
        ensures
            match r {
                Some(n) => self@.as_u64() == Some(n as nat),
                None => self@.as_u64() is None,
            },
    {
        match self {
            JsonValue::Number(JsonNumber::PosInt(n)) => Some(*n),
            _ => None,
        }
    }

    pub fn as_bool(&self) -> (r: Option<bool>)
        ensures
            r == self@.as_bool(),
    {
        match self {
            JsonValue::Bool(b) => Some(*b),
            _ => None,
        }
    }
}

/// `v.get(key).and_then(as_str)`, copied.
pub fn get_string(v: &JsonValue, key: &str) -> (r: Option<String>)
    ensures
        match r {
            Some(s) => get_str(v@, key@) == Some(s@),
            None => get_str(v@, key@) is None,
        },
{
    match v.get(key) {
        Some(x) => match x.as_str() {
            Some(s) => Some(crate::text::owned(s)),
            None => None,
        },
        None => None,
    }
}

/// `v.get(key).and_then(as_str).unwrap_or(default)`, copied.
pub fn get_string_or(v: &JsonValue, key: &str, default: &str) -> (r: String)
    ensures
        r@ == get_str_or(v@, key@, default@),
{
    match get_string(v, key) {
        Some(s) => s,
        None => crate::text::owned(default),
    }
}

/// `v.get(key).and_then(as_u64)`.
pub fn get_number(v: &JsonValue, key: &str) -> (r: Option<u64>)
    ensures
        match r {
            Some(n) => get_u64(v@, key@) == Some(n as nat),
            None => get_u64(v@, key@) is None,
        },
{
    match v.get(key) {
        Some(x) => x.as_u64(),
        None => None,
    }
}

/// `v.get(key).and_then(as_bool)`.
pub fn get_flag(v: &JsonValue, key: &str) -> (r: Option<bool>)
    ensures
        r == get_bool(v@, key@),
{
    match v.get(key) {
        Some(x) => x.as_bool(),
        None => None,
    }
}

/// The strings in the array `v.get(key)`, in order; none when it is not an array.
pub fn get_string_list(v: &JsonValue, key: &str) -> (r: Vec<String>)
    ensures
        string_views(r@) == get_strings(v@, key@),
{
    let mut r: Vec<String> = Vec::new();
    match v.get(key) {
        Some(JsonValue::Array(items)) => {
            let n = items.len();
            let ghost iv = items_view(items@);
            proof {
                lemma_array_view(*items);
            }
            let mut i: usize = 0;
            assert(iv.subrange(0, 0) =~= Seq::<JsonView>::empty());
            assert(string_views(r@) =~= Seq::<Seq<char>>::empty());
            while i < n
                invariant
                    n == items@.len(),
                    iv == items_view(items@),
                    i <= n,
                    string_views(r@) == strings_in(iv.subrange(0, i as int)),
                decreases n - i,
            {
                assert(iv.subrange(0, i + 1).drop_last() =~= iv.subrange(0, i as int));
                match &items[i] {
                    JsonValue::Str(s) => {
                        r.push(crate::text::owned(s.as_str()));
                        assert(string_views(r@) =~= string_views(r@.drop_last()) + seq![s@]);
                    },
                    _ => {},
                }
                i = i + 1;
            }
            assert(iv.subrange(0, n as int) =~= iv);
            r
        },
        _ => r,
    }
}

impl JsonNumber {
    pub fn copy(&self) -> (r: JsonNumber)
        ensures
            r@ == self@,
    {
        match self {
            JsonNumber::PosInt(n) => JsonNumber::PosInt(*n),
            JsonNumber::NegInt(n) => JsonNumber::NegInt(*n),
            JsonNumber::Float(t) => JsonNumber::Float(t.clone()),
        }
    }
}

impl JsonValue {
    /// A copy of the value.
    pub fn copy(&self) -> (r: JsonValue)
        ensures
            r@ == self@,
        decreases self,
    {
        match self {
            JsonValue::Null => JsonValue::Null,
            JsonValue::Bool(b) => JsonValue::Bool(*b),
            JsonValue::Number(n) => JsonValue::Number(n.copy()),
            JsonValue::Str(s) => JsonValue::Str(s.clone()),
            JsonValue::Array(items) => {
                let n = items.len();
                let mut out: Vec<JsonValue> = Vec::new();
                let mut i: usize = 0;
                assert forall|k: int| 0 <= k < n implies decreases_to!(*self => #[trigger] items@[k]) by {
                    assert(decreases_to!(*self => *items));
                    assert(decreases_to!(*items => items@));
                    assert(decreases_to!(items@ => items@[k]));
                }
                while i < n
                    invariant
                        forall|k: int| 0 <= k < n ==> decreases_to!(*self => #[trigger] items@[k]),
                        n == items@.len(),
                        i <= n,
                        out@.len() == i,
                        forall|k: int| 0 <= k < i ==> #[trigger] out@[k]@ == items@[k]@,
                    decreases n - i,
                {
                    out.push(items[i].copy());
                    i = i + 1;
                }
                proof {
                    lemma_array_view(*items);
                    lemma_array_view(out);
                    assert(items_view(out@) =~= items_view(items@));
                }
                JsonValue::Array(out)
            },
            JsonValue::Object(fields) => {
                let n = fields.len();
                let mut out: Vec<JsonField> = Vec::new();
                let mut i: usize = 0;
                assert forall|k: int| 0 <= k < n implies decreases_to!(*self => (#[trigger] fields@[k]).value) by {
                    assert(decreases_to!(*self => *fields));
                    assert(decreases_to!(*fields => fields@));
                    assert(decreases_to!(fields@ => fields@[k]));
                    assert(decreases_to!(fields@[k] => fields@[k].value));
                }
                while i < n
                    invariant
                        forall|k: int| 0 <= k < n ==> decreases_to!(*self => (#[trigger] fields@[k]).value),
                        n == fields@.len(),
                        i <= n,
                        out@.len() == i,
                        forall|k: int| 0 <= k < i ==> #[trigger] out@[k].key@ == fields@[k].key@ && out@[k].value@ == fields@[k].value@,
                    decreases n - i,
                {
                    let v = fields[i].value.copy();
                    out.push(JsonField { key: fields[i].key.clone(), value: v });
                    i = i + 1;
                }
                proof {
                    lemma_object_view(*fields);
                    lemma_object_view(out);
                    assert(fields_view(out@) =~= fields_view(fields@));
                }
                JsonValue::Object(out)
            },
        }
    }
}

/// `Map::insert` on the members of an object: the member with key `k` takes
/// the value `v` in its place, or `(k, v)` is appended when there is none.
pub open spec fn put_member(fs: Seq<(Seq<char>, JsonView)>, k: Seq<char>, v: JsonView) -> Seq<(Seq<char>, JsonView)>
    decreases fs.len(),
{
    if fs.len() == 0 {
        seq![(k, v)]
    } else if fs[0].0 == k {
        seq![(k, v)] + fs.drop_first()
    } else {
        seq![fs[0]] + put_member(fs.drop_first(), k, v)
    }
}

proof fn lemma_put_member_skip(fs: Seq<(Seq<char>, JsonView)>, k: Seq<char>, v: JsonView, i: int)
    requires
        0 <= i <= fs.len(),
        forall|j: int| 0 <= j < i ==> (#[trigger] fs[j]).0 != k,
    ensures
        put_member(fs, k, v) == fs.subrange(0, i) + put_member(fs.subrange(i, fs.len() as int), k, v),
    decreases i,
{
    if i == 0 {
        assert(fs.subrange(0, 0) + put_member(fs.subrange(0, fs.len() as int), k, v) =~= put_member(fs, k, v)) by {
            assert(fs.subrange(0, fs.len() as int) =~= fs);
        }
    } else {
        let t = fs.drop_first();
        assert(fs[0].0 != k);
        assert forall|j: int| 0 <= j < i - 1 implies (#[trigger] t[j]).0 != k by {
            assert(t[j] == fs[j + 1]);
        }
        lemma_put_member_skip(t, k, v, i - 1);
        assert(t.subrange(i - 1, t.len() as int) =~= fs.subrange(i, fs.len() as int));
        assert(seq![fs[0]] + t.subrange(0, i - 1) =~= fs.subrange(0, i));
    }
}

/// After `put_member(fs, k, v)`, the key `k` reads `v` and every other key
/// reads what it read before.
pub proof fn lemma_put_member_lookup(fs: Seq<(Seq<char>, JsonView)>, k: Seq<char>, v: JsonView, other: Seq<char>)
    ensures
        field_lookup(put_member(fs, k, v), k) == Some(v),
        other != k ==> field_lookup(put_member(fs, k, v), other) == field_lookup(fs, other),
    decreases fs.len(),
{
    let r = put_member(fs, k, v);
    if fs.len() == 0 {
        assert(r[0] == (k, v));
        assert(r.drop_first().len() == 0);
        if other != k {
            assert(field_lookup(r, other) == field_lookup(r.drop_first(), other));
        }
    } else if fs[0].0 == k {
        assert(r[0] == (k, v));
        assert(r.drop_first() =~= fs.drop_first());
        if other != k {
            assert(field_lookup(r, other) == field_lookup(r.drop_first(), other));
            assert(field_lookup(fs, other) == field_lookup(fs.drop_first(), other));
        }
    } else {
        lemma_put_member_lookup(fs.drop_first(), k, v, other);
        assert(r[0] == fs[0]);
        assert(r.drop_first() =~= put_member(fs.drop_first(), k, v));
    }
}

/// `Map::insert(key, value)` on the members of an object.
pub fn insert_member(fields: &mut Vec<JsonField>, key: &str, value: JsonValue)
    ensures
        fields_view(final(fields)@) == put_member(fields_view(old(fields)@), key@, value@),
{
    let ghost fv = fields_view(fields@);
    let n = fields.len();
    let mut i: usize = 0;
    let mut found = false;
    while i < n
        invariant_except_break
            n == fields@.len(),
            fv == fields_view(fields@),
            i <= n,
            !found,
            forall|j: int| 0 <= j < i ==> (#[trigger] fv[j]).0 != key@,
        ensures
            n == fields@.len(),
            fv == fields_view(fields@),
            i <= n,
            forall|j: int| 0 <= j < i ==> (#[trigger] fv[j]).0 != key@,
            found ==> i < n && fv[i as int].0 == key@,
            !found ==> i == n,
        decreases n - i,
    {
        if crate::text::str_eq(fields[i].key.as_str(), key) {
            found = true;
            break;
        }
        i = i + 1;
    }
    proof {
        lemma_put_member_skip(fv, key@, value@, i as int);
    }
    if found {
        let ghost rest = fv.subrange(i as int, n as int);
        assert(rest[0].0 == key@);
        fields.set(i, JsonField { key: crate::text::owned(key), value });
        assert(fields_view(fields@) =~= fv.subrange(0, i as int) + (seq![(key@, value@)] + rest.drop_first()));
    } else {
        assert(fv.subrange(n as int, n as int) =~= Seq::<(Seq<char>, JsonView)>::empty());
        fields.push(field(key, value));
        assert(fields_view(fields@) =~= fv.subrange(0, n as int) + seq![(key@, value@)]);
    }
}

// ---------------------------------------------------------------------------
// Building values
// ---------------------------------------------------------------------------

pub fn jstr(s: &str) -> (r: JsonValue)
    ensures
        r@ == JsonView::Str(s@),
{
    JsonValue::Str(crate::text::owned(s))
}

pub fn jstring(s: String) -> (r: JsonValue)
    ensures
        r@ == JsonView::Str(s@),
{
    JsonValue::Str(s)
}

pub fn jnum(n: u64) -> (r: JsonValue)
    ensures
        r@ == JsonView::Number(NumberView::PosInt(n as nat)),
{
    JsonValue::Number(JsonNumber::PosInt(n))
}

/// The JSON for an optional string: the string, or `null`.
pub open spec fn opt_str_view(s: Option<Seq<char>>) -> JsonView {
    match s {
        Some(x) => JsonView::Str(x),
        None => JsonView::Null,
    }
}

pub fn jopt_string(s: Option<String>) -> (r: JsonValue)
    ensures
        r@ == opt_str_view(match s { Some(x) => Some(x@), None => None }),
{
    match s {
        Some(x) => JsonValue::Str(x),
        None => JsonValue::Null,
    }
}

/// The JSON for an optional number: the number, or `null`.
pub open spec fn opt_num_view(n: Option<nat>) -> JsonView {
    match n {
        Some(x) => JsonView::Number(NumberView::PosInt(x)),
        None => JsonView::Null,
    }
}

pub fn jopt_num(n: Option<u64>) -> (r: JsonValue)
    ensures
        r@ == opt_num_view(match n { Some(x) => Some(x as nat), None => None }),
{
    match n {
        Some(x) => JsonValue::Number(JsonNumber::PosInt(x)),
        None => JsonValue::Null,
    }
}

pub fn field(key: &str, value: JsonValue) -> (r: JsonField)
    ensures
        r.key@ == key@,
        r.value@ == value@,
{
    JsonField { key: crate::text::owned(key), value }
}

/// An object with the given members, in order.
pub fn object(fields: Vec<JsonField>) -> (r: JsonValue)
    ensures
        r@ == JsonView::Object(fields_view(fields@)),
{
    proof {
        lemma_object_view(fields);
    }
    JsonValue::Object(fields)
}

/// An array with the given items, in order.
pub fn array(items: Vec<JsonValue>) -> (r: JsonValue)
    ensures
        r@ == JsonView::Array(items_view(items@)),
{
    proof {
        lemma_array_view(items);
    }
    JsonValue::Array(items)
}

/// An array of strings.
pub fn string_array(items: &Vec<String>) -> (r: JsonValue)
    ensures
        r@ == JsonView::Array(string_views(items@).map_values(|s: Seq<char>| JsonView::Str(s))),
{
    let mut v: Vec<JsonValue> = Vec::new();
    let n = items.len();
    let mut i: usize = 0;
    while i < n
        invariant
            n == items@.len(),
            i <= n,
            v@.len() == i,
            forall|k: int| 0 <= k < i ==> #[trigger] v@[k]@ == JsonView::Str(items@[k]@),
        decreases n - i,
    {
        v.push(jstr(items[i].as_str()));
        i = i + 1;
    }
    let r = array(v);
    assert(items_view(v@) =~= string_views(items@).map_values(|s: Seq<char>| JsonView::Str(s)));
    r
}

} // verus!
