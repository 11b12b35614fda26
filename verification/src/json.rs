//! JSON values as the library reads and writes them.
use vstd::prelude::*;

use crate::text;

verus! {

/// A JSON value. Integers are kept exactly; a number with a fraction or an exponent is kept
/// as `Fraction`, since nothing here reads one. The members of an object stand in the order
/// in which they are walked.
pub enum JsonValue {
    Null,
    Bool(bool),
    Integer(i128),
    Fraction,
    Text(String),
    Array(Vec<JsonValue>),
    Object(Vec<(String, JsonValue)>),
}

/// The mathematical content of a JSON value.
pub enum Json {
    Null,
    Bool(bool),
    Integer(int),
    Fraction,
    Text(Seq<char>),
    Array(Seq<Json>),
    Object(Seq<(Seq<char>, Json)>),
}

/// The content of a JSON value.
pub open spec fn model(v: JsonValue) -> Json
    decreases v,
{
    match v {
        JsonValue::Null => Json::Null,
        JsonValue::Bool(b) => Json::Bool(b),
        JsonValue::Integer(n) => Json::Integer(n as int),
        JsonValue::Fraction => Json::Fraction,
        JsonValue::Text(s) => Json::Text(s@),
        JsonValue::Array(a) => Json::Array(Seq::new(a@.len(), |i: int| if 0 <= i < a@.len() {
            model(a@[i])
        } else {
            Json::Null
        })),
        JsonValue::Object(o) => Json::Object(Seq::new(o@.len(), |i: int| if 0 <= i < o@.len() {
            (o@[i].0@, model(o@[i].1))
        } else {
            (Seq::empty(), Json::Null)
        })),
    }
}

impl View for JsonValue {
    type V = Json;

    open spec fn view(&self) -> Json {
        model(*self)
    }
}

/// `serde_json::Value`, a parsed JSON document.
#[verifier::external_type_specification]
#[verifier::external_body]
pub struct ExValue(serde_json::Value);

/// What a `serde_json::Value` holds.
pub uninterp spec fn value_content(v: serde_json::Value) -> Json;

/// What `serde_json::from_str` reads from a text; `None` where the text is no JSON document.
pub uninterp spec fn json_of_text(s: Seq<char>) -> Option<Json>;

/// `serde_json::from_str`: reads a JSON document, which the text alone decides.
#[verifier::external_body]
fn read_value(s: &str) -> (r: Option<serde_json::Value>)
    ensures
        match r {
            Some(v) => json_of_text(s@) == Some(value_content(v)),
            None => json_of_text(s@) is None,
        },
{
    serde_json::from_str(s).ok()
}

/// Takes a `serde_json::Value` apart into the library's own type, variant by variant:
/// numbers by `Number::as_i128`, objects in the order of `Map`'s iterator.
#[verifier::external_body]
fn open_value(v: serde_json::Value) -> (r: JsonValue)
    ensures
        r@ == value_content(v),
{
    match v {
        serde_json::Value::Null => JsonValue::Null,
        serde_json::Value::Bool(b) => JsonValue::Bool(b),
        serde_json::Value::Number(n) => n.as_i128().map_or(JsonValue::Fraction, JsonValue::Integer),
        serde_json::Value::String(s) => JsonValue::Text(s),
        serde_json::Value::Array(a) => JsonValue::Array(a.into_iter().map(open_value).collect()),
        serde_json::Value::Object(o) => JsonValue::Object(
            o.into_iter().map(|(k, x)| (k, open_value(x))).collect(),
        ),
    }
}

/// Reads a JSON document; `None` where the text is no JSON document.
pub fn parse_json(s: &str) -> (r: Option<JsonValue>)
    ensures
        match r {
            Some(v) => json_of_text(s@) == Some(v@),
            None => json_of_text(s@) is None,
        },
{
    match read_value(s) {
        Some(v) => Some(open_value(v)),
        None => None,
    }
}

/// What `serde_json::from_slice` reads from bytes: a value, or the words of its error.
pub uninterp spec fn json_of_bytes(b: Seq<u8>) -> Result<Json, Seq<char>>;

/// `serde_json::from_slice`: reads a JSON document, which the bytes alone decide.
#[verifier::external_body]
fn read_value_bytes(b: &[u8]) -> (r: Result<serde_json::Value, String>)
    ensures
        match r {
            Ok(v) => json_of_bytes(b@) == Ok::<Json, Seq<char>>(value_content(v)),
            Err(e) => json_of_bytes(b@) == Err::<Json, Seq<char>>(e@),
        },
{
    serde_json::from_slice(b).map_err(|e| e.to_string())
}

/// Reads a JSON document from bytes, or says why it cannot be read.
pub fn parse_json_bytes(b: &[u8]) -> (r: Result<JsonValue, String>)
    ensures
        match r {
            Ok(v) => json_of_bytes(b@) == Ok::<Json, Seq<char>>(v@),
            Err(e) => json_of_bytes(b@) == Err::<Json, Seq<char>>(e@),
        },
{
    match read_value_bytes(b) {
        Ok(v) => Ok(open_value(v)),
        Err(e) => Err(e),
    }
}

/// The position of the first member named `key`; the length if there is none.
pub open spec fn member_at(members: Seq<(Seq<char>, Json)>, key: Seq<char>, from: int) -> int
    decreases members.len() - from,
{
    if from >= members.len() {
        members.len() as int
    } else if members[from].0 == key {
        from
    } else {
        member_at(members, key, from + 1)
    }
}

impl Json {
    /// The member of an object; `None` for every other value.
    pub open spec fn get(self, key: Seq<char>) -> Option<Json> {
        match self {
            Json::Object(o) => {
                let i = member_at(o, key, 0);
                if 0 <= i < o.len() {
                    Some(o[i].1)
                } else {
                    None
                }
            },
            _ => None,
        }
    }

    /// The number of values directly inside.
    pub open spec fn breadth(self) -> nat {
        match self {
            Json::Array(a) => a.len(),
            Json::Object(o) => o.len(),
            _ => 0,
        }
    }

    /// The text of a string; `None` for every other value.
    pub open spec fn text(self) -> Option<Seq<char>> {
        match self {
            Json::Text(s) => Some(s),
            _ => None,
        }
    }
}

/// The member `key` of an optional value.
pub open spec fn get_in(v: Option<Json>, key: Seq<char>) -> Option<Json> {
    match v {
        Some(j) => j.get(key),
        None => None,
    }
}

/// The first of two optional values that is there.
pub open spec fn or_else(a: Option<Json>, b: Option<Json>) -> Option<Json> {
    match a {
        Some(_) => a,
        None => b,
    }
}

/// The text of an optional value, or `other` where there is none.
pub open spec fn text_or(v: Option<Json>, other: Seq<char>) -> Seq<char> {
    match v {
        Some(Json::Text(s)) => s,
        _ => other,
    }
}

/// The contents of an optional reference.
pub open spec fn opt_model(v: Option<&JsonValue>) -> Option<Json> {
    match v {
        Some(j) => Some(model(*j)),
        None => None,
    }
}

impl JsonValue {
    /// The member of an object; `None` for every other value.
    pub fn get(&self, key: &str) -> (r: Option<&JsonValue>)
        ensures
            opt_model(r) == self@.get(key@),
    {
        match self {
            JsonValue::Object(o) => {
                let ghost members = self@->Object_0;
                let mut i: usize = 0;
                while i < o.len()
                    invariant
                        i <= o@.len(),
                        members == model(*self)->Object_0,
                        *self == JsonValue::Object(*o),
                        members.len() == o@.len(),
                        member_at(members, key@, 0) == member_at(members, key@, i as int),
                    decreases o@.len() - i,
                {
                    if text::same(o[i].0.as_str(), key) {
                        return Some(&o[i].1);
                    }
                    i = i + 1;
                }
                None
            },
            _ => None,
        }
    }

    /// The text of a string; `None` for every other value.
    pub fn as_str(&self) -> (r: Option<&str>)
        ensures
            match r {
                Some(s) => self@.text() == Some(s@),
                None => self@.text() is None,
            },
    {
        match self {
            JsonValue::Text(s) => Some(s.as_str()),
            _ => None,
        }
    }

    /// The truth value of a boolean; `None` for every other value.
    pub fn as_bool(&self) -> (r: Option<bool>)
        ensures
            r == (match self@ {
                Json::Bool(b) => Some(b),
                _ => None,
            }),
    {
        match self {
            JsonValue::Bool(b) => Some(*b),
            _ => None,
        }
    }
}

/// The member `key` of an optional value.
pub fn member<'a>(v: Option<&'a JsonValue>, key: &str) -> (r: Option<&'a JsonValue>)
    ensures
        opt_model(r) == get_in(opt_model(v), key@),
{
    match v {
        Some(j) => j.get(key),
        None => None,
    }
}

/// The first of two optional values that is there.
pub fn either<'a>(a: Option<&'a JsonValue>, b: Option<&'a JsonValue>) -> (r: Option<&'a JsonValue>)
    ensures
        opt_model(r) == or_else(opt_model(a), opt_model(b)),
{
    match a {
        Some(_) => a,
        None => b,
    }
}

/// The text of an optional value, or `other` where there is none.
pub fn text_of_or(v: Option<&JsonValue>, other: &str) -> (r: String)
    ensures
        r@ == text_or(opt_model(v), other@),
{
    match v {
        Some(j) => match j.as_str() {
            Some(s) => text::own(s),
            None => text::own(other),
        },
        None => text::own(other),
    }
}

// ---------------------------------------------------------------------------
// Writing
// ---------------------------------------------------------------------------

/// The order of texts: by the first character in which they differ, a start before the whole.
pub open spec fn text_before(a: Seq<char>, b: Seq<char>) -> bool
    decreases a.len(),
{
    if b.len() == 0 {
        false
    } else if a.len() == 0 {
        true
    } else if a[0] != b[0] {
        a[0] < b[0]
    } else {
        text_before(a.drop_first(), b.drop_first())
    }
}

/// Whether a value can be written and read back unchanged: its integers fit in 64 bits, it
/// holds no fraction, the names in each object ascend, and it is at most `depth` levels deep.
pub open spec fn writable(v: Json, depth: nat) -> bool
    decreases depth,
{
    if depth == 0 {
        false
    } else {
        match v {
            Json::Null | Json::Bool(_) | Json::Text(_) => true,
            Json::Integer(n) => i64::MIN <= n <= u64::MAX,
            Json::Fraction => false,
            Json::Array(a) => forall|i: int|
                0 <= i < a.len() ==> writable(#[trigger] a[i], (depth - 1) as nat),
            Json::Object(o) => {
                &&& forall|i: int|
                    0 <= i < o.len() ==> writable((#[trigger] o[i]).1, (depth - 1) as nat)
                &&& forall|i: int, j: int|
                    0 <= i < j < o.len() ==> text_before(
                        (#[trigger] o[i]).0,
                        (#[trigger] o[j]).0,
                    )
            },
        }
    }
}

/// The number of levels that a written value may have.
pub open spec fn max_depth() -> nat {
    16
}

/// Builds a `serde_json::Value` variant by variant: integers by `Number::from_i128`, objects
/// by collecting their members into a `Map`, which keeps ascending names as they are.
#[verifier::external_body]
fn close_value(v: &JsonValue) -> (r: serde_json::Value)
    requires
        writable(v@, max_depth()),
    ensures
        value_content(r) == v@,
{
    match v {
        JsonValue::Null | JsonValue::Fraction => serde_json::Value::Null,
        JsonValue::Bool(b) => serde_json::Value::Bool(*b),
        JsonValue::Integer(n) => serde_json::Number::from_i128(*n).map_or(
            serde_json::Value::Null,
            serde_json::Value::Number,
        ),
        JsonValue::Text(s) => serde_json::Value::String(s.clone()),
        JsonValue::Array(a) => serde_json::Value::Array(a.iter().map(close_value).collect()),
        JsonValue::Object(o) => serde_json::Value::Object(
            o.iter().map(|(k, x)| (k.clone(), close_value(x))).collect(),
        ),
    }
}

/// What `serde_json::Value::to_string` prints.
pub uninterp spec fn text_of_json(v: Json) -> Seq<char>;

/// `serde_json::Value::to_string`: the compact form of a value, which
/// `serde_json::from_str` reads back as the same value.
#[verifier::external_body]
fn print_value(v: &serde_json::Value) -> (r: String)
    requires
        writable(value_content(*v), max_depth()),
    ensures
        r@ == text_of_json(value_content(*v)),
        json_of_text(r@) == Some(value_content(*v)),
{
    v.to_string()
}

/// Writes a value; reading the text gives the value back.
pub fn write_json(v: &JsonValue) -> (r: String)
    requires
        writable(v@, max_depth()),
    ensures
        r@ == text_of_json(v@),
        json_of_text(r@) == Some(v@),
{
    print_value(&close_value(v))
}

// ---------------------------------------------------------------------------
// Building
// ---------------------------------------------------------------------------

/// A text.
pub fn text_value(s: &str) -> (r: JsonValue)
    ensures
        r@ == Json::Text(s@),
{
    JsonValue::Text(text::own(s))
}

/// A list.
pub fn list_value(a: Vec<JsonValue>) -> (r: JsonValue)
    ensures
        r@ == Json::Array(contents(a@)),
{
    let r = JsonValue::Array(a);
    assert(r@->Array_0 =~= contents(a@));
    r
}

/// The contents of a list of values.
pub open spec fn contents(a: Seq<JsonValue>) -> Seq<Json> {
    Seq::new(a.len(), |i: int| a[i]@)
}

/// A list of one value.
pub fn list1(v: JsonValue) -> (r: JsonValue)
    ensures
        r@ == Json::Array(seq![v@]),
{
    let mut a: Vec<JsonValue> = Vec::new();
    a.push(v);
    let r = list_value(a);
    assert(contents(a@) =~= seq![v@]);
    r
}

/// An object with one member.
pub fn object1(k1: &str, v1: JsonValue) -> (r: JsonValue)
    ensures
        r@ == Json::Object(seq![(k1@, v1@)]),
{
    let mut o: Vec<(String, JsonValue)> = Vec::new();
    o.push((text::own(k1), v1));
    let r = JsonValue::Object(o);
    assert(r@->Object_0 =~= seq![(k1@, v1@)]);
    r
}

/// An object with two members.
pub fn object2(k1: &str, v1: JsonValue, k2: &str, v2: JsonValue) -> (r: JsonValue)
    ensures
        r@ == Json::Object(seq![(k1@, v1@), (k2@, v2@)]),
{
    let mut o: Vec<(String, JsonValue)> = Vec::new();
    o.push((text::own(k1), v1));
    o.push((text::own(k2), v2));
    let r = JsonValue::Object(o);
    assert(r@->Object_0 =~= seq![(k1@, v1@), (k2@, v2@)]);
    r
}

/// The contents of a list of members.
pub open spec fn members(o: Seq<(String, JsonValue)>) -> Seq<(Seq<char>, Json)> {
    Seq::new(o.len(), |i: int| (o[i].0@, o[i].1@))
}

/// Adds a member.
pub fn push_member(o: &mut Vec<(String, JsonValue)>, key: &str, v: JsonValue)
    ensures
        members(final(o)@) == members(old(o)@).push((key@, v@)),
{
    let ghost before = o@;
    o.push((text::own(key), v));
    assert(members(o@) =~= members(before).push((key@, v@)));
}

/// An object.
pub fn object_value(o: Vec<(String, JsonValue)>) -> (r: JsonValue)
    ensures
        r@ == Json::Object(members(o@)),
{
    let r = JsonValue::Object(o);
    assert(r@->Object_0 =~= members(o@));
    r
}

/// Of two texts one is before the other or they are the same, and no text is before itself.
pub proof fn lemma_text_order(a: Seq<char>, b: Seq<char>)
    ensures
        text_before(a, b) || text_before(b, a) || a == b,
        !(text_before(a, b) && text_before(b, a)),
        a == b ==> !text_before(a, b),
    decreases a.len(),
{
    if a.len() > 0 && b.len() > 0 && a[0] == b[0] {
        lemma_text_order(a.drop_first(), b.drop_first());
        if a.drop_first() == b.drop_first() {
            assert(a =~= seq![a[0]] + a.drop_first());
            assert(b =~= seq![b[0]] + b.drop_first());
        }
    } else if a.len() == 0 && b.len() == 0 {
        assert(a =~= b);
    }
}

/// A text before a second one that is before a third is before the third.
pub proof fn lemma_text_before_trans(a: Seq<char>, b: Seq<char>, c: Seq<char>)
    requires
        text_before(a, b),
        text_before(b, c),
    ensures
        text_before(a, c),
    decreases a.len(),
{
    if a.len() > 0 && a[0] == b[0] && b[0] == c[0] {
        lemma_text_before_trans(a.drop_first(), b.drop_first(), c.drop_first());
    }
}

proof fn lemma_ascends(o: Seq<(Seq<char>, Json)>, i: int, j: int)
    requires
        0 <= i < j < o.len(),
        forall|k: int| 0 <= k && k + 1 < o.len() ==> text_before((#[trigger] o[k]).0, o[k + 1].0),
    ensures
        text_before(o[i].0, o[j].0),
    decreases j - i,
{
    if i + 1 < j {
        lemma_ascends(o, i + 1, j);
        lemma_text_before_trans(o[i].0, o[i + 1].0, o[j].0);
    }
}

/// An object is writable where each value is and each name is before the next.
pub proof fn lemma_object_writable(o: Seq<(Seq<char>, Json)>, depth: nat)
    requires
        forall|i: int| 0 <= i < o.len() ==> writable((#[trigger] o[i]).1, depth),
        forall|k: int| 0 <= k && k + 1 < o.len() ==> text_before((#[trigger] o[k]).0, o[k + 1].0),
    ensures
        writable(Json::Object(o), depth + 1),
{
    assert forall|i: int, j: int| 0 <= i < j < o.len() implies text_before(
        (#[trigger] o[i]).0,
        (#[trigger] o[j]).0,
    ) by {
        lemma_ascends(o, i, j);
    }
}

/// Two texts that agree in their first `k` characters are in the order of the next one.
pub proof fn lemma_text_before(a: Seq<char>, b: Seq<char>, k: int)
    requires
        0 <= k < a.len(),
        k < b.len(),
        forall|i: int| 0 <= i < k ==> a[i] == b[i],
        a[k] < b[k],
    ensures
        text_before(a, b),
    decreases k,
{
    if k > 0 {
        let x = a.drop_first();
        let y = b.drop_first();
        assert forall|i: int| 0 <= i < k - 1 implies x[i] == y[i] by {
            assert(a[i + 1] == b[i + 1]);
        }
        lemma_text_before(x, y, k - 1);
    }
}

/// What is writable within some levels is writable within more.
pub proof fn lemma_writable_deeper(v: Json, a: nat, b: nat)
    requires
        writable(v, a),
        a <= b,
    ensures
        writable(v, b),
    decreases a,
{
    match v {
        Json::Array(s) => {
            assert forall|i: int| 0 <= i < s.len() implies writable(
                #[trigger] s[i],
                (b - 1) as nat,
            ) by {
                lemma_writable_deeper(s[i], (a - 1) as nat, (b - 1) as nat);
            }
        },
        Json::Object(o) => {
            assert forall|i: int| 0 <= i < o.len() implies writable(
                (#[trigger] o[i]).1,
                (b - 1) as nat,
            ) by {
                lemma_writable_deeper(o[i].1, (a - 1) as nat, (b - 1) as nat);
            }
        },
        _ => {},
    }
}

/// A text is before every text that it begins, and before every text that has a later character
/// where they first differ.
pub proof fn texts_are_in_the_order_of_their_characters(
    p: Seq<char>,
    x: char,
    s: Seq<char>,
    y: char,
    t: Seq<char>,
)
    ensures
        text_before(p, p + seq![x] + s),
        x < y ==> text_before(p + seq![x] + s, p + seq![y] + t),
    decreases p.len(),
{
    if p.len() > 0 {
        let q = p.drop_first();
        texts_are_in_the_order_of_their_characters(q, x, s, y, t);
        assert((p + seq![x] + s).drop_first() =~= q + seq![x] + s);
        assert((p + seq![y] + t).drop_first() =~= q + seq![y] + t);
    }
}

/// A name in an object leads to the value of the first member that has it; one that no member has
/// leads nowhere, and so does every name in what is no object.
pub proof fn names_lead_to_their_members(
    o: Seq<(Seq<char>, Json)>,
    key: Seq<char>,
    i: int,
    other: Json,
)
    ensures
        0 <= i < o.len() && o[i].0 == key && (forall|j: int| 0 <= j < i ==> (#[trigger] o[j]).0 != key)
            ==> Json::Object(o).get(key) == Some(o[i].1),
        (forall|j: int| 0 <= j < o.len() ==> (#[trigger] o[j]).0 != key) ==> Json::Object(o).get(key)
            is None,
        !(other is Object) ==> other.get(key) is None,
{
    if 0 <= i < o.len() && o[i].0 == key && (forall|j: int| 0 <= j < i ==> (#[trigger] o[j]).0 != key) {
        lemma_member_at(o, key, 0, i);
    }
    if forall|j: int| 0 <= j < o.len() ==> (#[trigger] o[j]).0 != key {
        lemma_member_at(o, key, 0, o.len() as int);
    }
}

proof fn lemma_member_at(o: Seq<(Seq<char>, Json)>, key: Seq<char>, from: int, at: int)
    requires
        0 <= from <= at <= o.len(),
        forall|j: int| from <= j < at ==> (#[trigger] o[j]).0 != key,
        at < o.len() ==> o[at].0 == key,
    ensures
        member_at(o, key, from) == at,
    decreases at - from,
{
    if from < at {
        lemma_member_at(o, key, from + 1, at);
    }
}

} // verus!
