//! JSON values: what the engine reads out of OBS replies and what it sends.

use vstd::prelude::*;

use crate::text::same;

verus! {

/// A JSON number. A fraction is held as the bit pattern of its IEEE 754 double.
#[derive(Debug, Clone, Copy, PartialEq, Eq, Structural)]
pub enum JsonNumber {
    Unsigned(u64),
    Negative(i64),
    Double(u64),
}

/// A JSON value.
#[derive(Debug)]
pub enum Json {
    Null,
    Bool(bool),
    Number(JsonNumber),
    Text(String),
    Array(Vec<Json>),
    Object(Vec<Member>),
}

/// One `"key": value` of a JSON object.
#[derive(Debug)]
pub struct Member {
    pub key: String,
    pub value: Json,
}

/// The mathematical counterpart of `Json`.
pub enum JsonView {
    Null,
    Bool(bool),
    Number(JsonNumber),
    Text(Seq<char>),
    Array(Seq<JsonView>),
    Object(Seq<(Seq<char>, JsonView)>),
}

impl View for Json {
    type V = JsonView;

    open spec fn view(&self) -> JsonView {
        json_view(*self)
    }
}

/// What `j` stands for.
pub open spec fn json_view(j: Json) -> JsonView
    decreases j,
{
    match j {
        Json::Null => JsonView::Null,
        Json::Bool(b) => JsonView::Bool(b),
        Json::Number(n) => JsonView::Number(n),
        Json::Text(s) => JsonView::Text(s@),
        Json::Array(v) => JsonView::Array(
            Seq::new(
                v@.len(),
                |i: int|
                    if 0 <= i < v@.len() {
                        json_view(v@[i])
                    } else {
                        JsonView::Null
                    },
            ),
        ),
        Json::Object(v) => JsonView::Object(
            Seq::new(
                v@.len(),
                |i: int|
                    if 0 <= i < v@.len() {
                        (v@[i].key@, json_view(v@[i].value))
                    } else {
                        (Seq::empty(), JsonView::Null)
                    },
            ),
        ),
    }
}


/// The members of an object as pairs.
pub open spec fn members_view(v: Seq<Member>) -> Seq<(Seq<char>, JsonView)> {
    v.map_values(|m: Member| (m.key@, json_view(m.value)))
}

/// An object's view is that of its members.
pub proof fn object_view(v: Vec<Member>)
    ensures
        json_view(Json::Object(v)) == JsonView::Object(members_view(v@)),
{
    assert(json_view(Json::Object(v))->Object_0 =~= members_view(v@));
}

/// The elements of an array.
pub open spec fn elements_view(v: Seq<Json>) -> Seq<JsonView> {
    v.map_values(|j: Json| json_view(j))
}

/// An array's view is that of its elements.
pub proof fn array_view(v: Vec<Json>)
    ensures
        json_view(Json::Array(v)) == JsonView::Array(elements_view(v@)),
{
    assert(json_view(Json::Array(v))->Array_0 =~= elements_view(v@));
}

/// The value of the first member called `key`.
pub open spec fn lookup(members: Seq<(Seq<char>, JsonView)>, key: Seq<char>) -> Option<JsonView>
    decreases members.len(),
{
    if members.len() == 0 {
        None
    } else if members[0].0 == key {
        Some(members[0].1)
    } else {
        lookup(members.drop_first(), key)
    }
}

/// The member `key` of `j`; `None` where `j` is no object or has no such member.
pub open spec fn member_of(j: JsonView, key: Seq<char>) -> Option<JsonView> {
    match j {
        JsonView::Object(m) => lookup(m, key),
        _ => None,
    }
}

/// The member `key` of a value that may itself be missing.
pub open spec fn member_in(j: Option<JsonView>, key: Seq<char>) -> Option<JsonView> {
    match j {
        Some(v) => member_of(v, key),
        None => None,
    }
}

/// The text that `j` holds, if it is a text.
pub open spec fn text_in(j: Option<JsonView>) -> Option<Seq<char>> {
    match j {
        Some(JsonView::Text(s)) => Some(s),
        _ => None,
    }
}

/// The unsigned number that `j` holds, if it is one.
pub open spec fn unsigned_in(j: Option<JsonView>) -> Option<u64> {
    match j {
        Some(JsonView::Number(JsonNumber::Unsigned(n))) => Some(n),
        _ => None,
    }
}

/// The truth value that `j` holds, if it is one.
pub open spec fn bool_in(j: Option<JsonView>) -> Option<bool> {
    match j {
        Some(JsonView::Bool(b)) => Some(b),
        _ => None,
    }
}

/// The view of a value that may be missing.
pub open spec fn opt_view(j: Option<&Json>) -> Option<JsonView> {
    match j {
        Some(v) => Some(v@),
        None => None,
    }
}

/// Position of the first member called `key`.
fn find_member(v: &Vec<Member>, key: &str) -> (r: Option<usize>)
    ensures
        match r {
            Some(i) => {
                &&& i < v@.len()
                &&& v@[i as int].key@ == key@
                &&& forall|j: int| 0 <= j < i ==> (#[trigger] v@[j]).key@ != key@
            },
            None => forall|j: int| 0 <= j < v@.len() ==> (#[trigger] v@[j]).key@ != key@,
        },
{
    let mut i: usize = 0;
    while i < v.len()
        invariant
            i <= v@.len(),
            forall|j: int| 0 <= j < i ==> (#[trigger] v@[j]).key@ != key@,
        decreases v@.len() - i,
    {
        if same(v[i].key.as_str(), key) {
            return Some(i);
        }
        i = i + 1;
    }
    None
}

/// `lookup` finds exactly the first member with the key.
pub proof fn lookup_is_first(m: Seq<(Seq<char>, JsonView)>, key: Seq<char>, at: int)
    requires
        0 <= at <= m.len(),
        at < m.len() ==> m[at].0 == key,
        forall|j: int| 0 <= j < at ==> (#[trigger] m[j]).0 != key,
    ensures
        lookup(m, key) == (if at < m.len() {
            Some(m[at].1)
        } else {
            None
        }),
    decreases m.len(),
{
    if m.len() > 0 && at > 0 {
        assert(m[0].0 != key);
        assert forall|j: int| 0 <= j < at - 1 implies (#[trigger] m.drop_first()[j]).0 != key by {
            assert(m[j + 1].0 != key);
        }
        lookup_is_first(m.drop_first(), key, at - 1);
    }
}

impl Json {
    /// The member `key` of this value, if it is an object that has one.
    pub fn get(&self, key: &str) -> (r: Option<&Json>)
        ensures
            opt_view(r) == member_of(self@, key@),
    {
        match self {
            Json::Object(v) => {
                let found = find_member(v, key);
                proof {
                    object_view(*v);
                    let m = members_view(v@);
                    match found {
                        Some(i) => {
                            assert forall|j: int| 0 <= j < i implies (#[trigger] m[j]).0 != key@ by {
                                assert(v@[j].key@ != key@);
                            }
                            lookup_is_first(m, key@, i as int);
                        },
                        None => {
                            assert forall|j: int| 0 <= j < m.len() implies (#[trigger] m[j]).0
                                != key@ by {
                                assert(v@[j].key@ != key@);
                            }
                            lookup_is_first(m, key@, m.len() as int);
                        },
                    }
                }
                match found {
                    Some(i) => Some(&v[i].value),
                    None => None,
                }
            },
            _ => None,
        }
    }

    /// The text that this value holds, if it is a text.
    pub fn as_text(&self) -> (r: Option<&str>)
        ensures
            match r {
                Some(s) => text_in(Some(self@)) == Some(s@),
                None => text_in(Some(self@)) is None,
            },
    {
        match self {
            Json::Text(s) => Some(s.as_str()),
            _ => None,
        }
    }

    /// The unsigned number that this value holds, if it is one.
    pub fn as_unsigned(&self) -> (r: Option<u64>)
        ensures
            r == unsigned_in(Some(self@)),
    {
        match self {
            Json::Number(JsonNumber::Unsigned(n)) => Some(*n),
            _ => None,
        }
    }

    /// The truth value that this value holds, if it is one.
    pub fn as_bool(&self) -> (r: Option<bool>)
        ensures
            r == bool_in(Some(self@)),
    {
        match self {
            Json::Bool(b) => Some(*b),
            _ => None,
        }
    }

    /// An equal value.
    pub fn copy(&self) -> (r: Json)
        ensures
            r@ == self@,
        decreases *self,
    {
        match self {
            Json::Null => Json::Null,
            Json::Bool(b) => Json::Bool(*b),
            Json::Number(n) => Json::Number(*n),
            Json::Text(s) => Json::Text(s.clone()),
            Json::Array(v) => {
                let mut out: Vec<Json> = Vec::new();
                let mut i: usize = 0;
                while i < v.len()
                    invariant
                        i <= v@.len(),
                        *self == Json::Array(*v),
                        out@.len() == i,
                        forall|j: int| 0 <= j < i ==> (#[trigger] out@[j])@ == v@[j]@,
                    decreases v@.len() - i,
                {
                    assert(decreases_to!(*self => self->Array_0@[i as int]));
                    let e = v[i].copy();
                    out.push(e);
                    i = i + 1;
                }
                proof {
                    array_view(*v);
                    array_view(out);
                    assert(elements_view(out@) =~= elements_view(v@));
                }
                Json::Array(out)
            },
            Json::Object(v) => {
                let mut out: Vec<Member> = Vec::new();
                let mut i: usize = 0;
                while i < v.len()
                    invariant
                        i <= v@.len(),
                        *self == Json::Object(*v),
                        out@.len() == i,
                        forall|j: int|
                            0 <= j < i ==> (#[trigger] out@[j]).key@ == v@[j].key@
                                && out@[j].value@ == v@[j].value@,
                    decreases v@.len() - i,
                {
                    assert(decreases_to!(*self => self->Object_0@[i as int].value));
                    let m = Member { key: v[i].key.clone(), value: v[i].value.copy() };
                    out.push(m);
                    i = i + 1;
                }
                proof {
                    object_view(*v);
                    object_view(out);
                    assert(members_view(out@) =~= members_view(v@));
                }
                Json::Object(out)
            },
        }
    }
}

impl Clone for Json {
    fn clone(&self) -> (r: Self)
        ensures
            r@ == self@,
    {
        self.copy()
    }
}

/// The text of a value that may be missing.
pub fn text_of<'a>(j: Option<&'a Json>) -> (r: Option<&'a str>)
    ensures
        match r {
            Some(s) => text_in(opt_view(j)) == Some(s@),
            None => text_in(opt_view(j)) is None,
        },
{
    match j {
        Some(v) => v.as_text(),
        None => None,
    }
}

/// The member `key` of a value that may be missing.
pub fn get_in<'a>(j: Option<&'a Json>, key: &str) -> (r: Option<&'a Json>)
    ensures
        opt_view(r) == member_in(opt_view(j), key@),
{
    match j {
        Some(v) => v.get(key),
        None => None,
    }
}

// -------------------------------------------------------------- construction

/// An object under construction.
pub struct ObjectBuilder {
    members: Vec<Member>,
}

impl View for ObjectBuilder {
    type V = Seq<(Seq<char>, JsonView)>;

    closed spec fn view(&self) -> Seq<(Seq<char>, JsonView)> {
        members_view(self.members@)
    }
}

impl ObjectBuilder {
    /// An object without members.
    pub fn new() -> (r: Self)
        ensures
            r@ == Seq::<(Seq<char>, JsonView)>::empty(),
    {
        let r = ObjectBuilder { members: Vec::new() };
        assert(r@ =~= Seq::<(Seq<char>, JsonView)>::empty());
        r
    }

    /// The object with one more member at its end.
    pub fn with(self, key: &str, value: Json) -> (r: Self)
        ensures
            r@ == self@.push((key@, value@)),
    {
        let mut members = self.members;
        members.push(Member { key: key.to_owned(), value });
        let r = ObjectBuilder { members };
        assert(r@ =~= self@.push((key@, value@)));
        r
    }

    /// The object with one more member at its end, a text.
    pub fn with_text(self, key: &str, value: &str) -> (r: Self)
        ensures
            r@ == self@.push((key@, JsonView::Text(value@))),
    {
        self.with(key, Json::Text(value.to_owned()))
    }

    /// The object with one more member at its end, a truth value.
    pub fn with_bool(self, key: &str, value: bool) -> (r: Self)
        ensures
            r@ == self@.push((key@, JsonView::Bool(value))),
    {
        self.with(key, Json::Bool(value))
    }

    /// The object with one more member at its end, a number.
    pub fn with_unsigned(self, key: &str, value: u64) -> (r: Self)
        ensures
            r@ == self@.push((key@, JsonView::Number(JsonNumber::Unsigned(value)))),
    {
        self.with(key, Json::Number(JsonNumber::Unsigned(value)))
    }

    /// The object with one more member at its end, a signed number.
    pub fn with_signed(self, key: &str, value: i64) -> (r: Self)
        ensures
            r@ == self@.push((key@, JsonView::Number(signed_number(value)))),
    {
        if value < 0 {
            self.with(key, Json::Number(JsonNumber::Negative(value)))
        } else {
            self.with(key, Json::Number(JsonNumber::Unsigned(value as u64)))
        }
    }

    /// The object with one more member at its end, a text or null.
    pub fn with_opt_text(self, key: &str, value: &Option<String>) -> (r: Self)
        ensures
            r@ == self@.push((key@, opt_text_view(*value))),
    {
        match value {
            Some(s) => self.with_text(key, s.as_str()),
            None => self.with(key, Json::Null),
        }
    }

    /// The finished object.
    pub fn build(self) -> (r: Json)
        ensures
            r@ == JsonView::Object(self@),
    {
        proof {
            object_view(self.members);
        }
        Json::Object(self.members)
    }
}

/// A signed number: only those below zero are kept as such.
pub open spec fn signed_number(n: i64) -> JsonNumber {
    if n < 0 {
        JsonNumber::Negative(n)
    } else {
        JsonNumber::Unsigned(n as u64)
    }
}

/// A text, or null where there is none.
pub open spec fn opt_text_view(o: Option<String>) -> JsonView {
    match o {
        Some(s) => JsonView::Text(s@),
        None => JsonView::Null,
    }
}

/// An array of texts.
pub open spec fn texts_view(v: Seq<String>) -> JsonView {
    JsonView::Array(v.map_values(|s: String| JsonView::Text(s@)))
}

/// The array of the given texts.
pub fn text_array(v: &Vec<String>) -> (r: Json)
    ensures
        r@ == texts_view(v@),
{
    let mut out: Vec<Json> = Vec::new();
    let mut i: usize = 0;
    while i < v.len()
        invariant
            i <= v@.len(),
            out@.len() == i,
            forall|j: int| 0 <= j < i ==> (#[trigger] out@[j])@ == JsonView::Text(v@[j]@),
        decreases v@.len() - i,
    {
        out.push(Json::Text(v[i].clone()));
        i = i + 1;
    }
    proof {
        array_view(out);
        assert(elements_view(out@) =~= v@.map_values(|s: String| JsonView::Text(s@)));
    }
    Json::Array(out)
}

// --------------------------------------------------------------------- merge

/// `members` with the first member called `key` set to `value`; appended where
/// there is none.
pub open spec fn put(
    members: Seq<(Seq<char>, JsonView)>,
    key: Seq<char>,
    value: JsonView,
) -> Seq<(Seq<char>, JsonView)>
    decreases members.len(),
{
    if members.len() == 0 {
        seq![(key, value)]
    } else if members[0].0 == key {
        members.update(0, (key, value))
    } else {
        seq![members[0]] + put(members.drop_first(), key, value)
    }
}

/// The result of merging `patch` into `base`: where both are objects, member by
/// member; otherwise `patch` takes the place of `base`.
pub open spec fn merged(base: JsonView, patch: JsonView) -> JsonView
    decreases patch, 1nat, 0nat,
{
    match (base, patch) {
        (JsonView::Object(a), JsonView::Object(b)) => JsonView::Object(
            merged_members(a, patch, b.len()),
        ),
        _ => patch,
    }
}

/// The first `n` members of the object `patch` merged into the members `a`.
pub open spec fn merged_members(
    a: Seq<(Seq<char>, JsonView)>,
    patch: JsonView,
    n: nat,
) -> Seq<(Seq<char>, JsonView)>
    decreases patch, 0nat, n,
    when patch is Object && n <= patch->Object_0.len()
{
    if n == 0 {
        a
    } else {
        let b = patch->Object_0;
        let done = merged_members(a, patch, (n - 1) as nat);
        let (key, value) = b[n - 1];
        put(done, key, merged(or_null(lookup(done, key)), value))
    }
}

/// The value, or null where it is missing.
pub open spec fn or_null(j: Option<JsonView>) -> JsonView {
    match j {
        Some(v) => v,
        None => JsonView::Null,
    }
}

/// `put` writes at the first member with the key.
pub proof fn put_is_first(m: Seq<(Seq<char>, JsonView)>, key: Seq<char>, value: JsonView, at: int)
    requires
        0 <= at <= m.len(),
        at < m.len() ==> m[at].0 == key,
        forall|j: int| 0 <= j < at ==> (#[trigger] m[j]).0 != key,
    ensures
        put(m, key, value) == (if at < m.len() {
            m.update(at, (key, value))
        } else {
            m.push((key, value))
        }),
    decreases m.len(),
{
    if m.len() == 0 {
        assert(seq![(key, value)] =~= m.push((key, value)));
    } else if at > 0 {
        assert(m[0].0 != key);
        let rest = m.drop_first();
        assert forall|j: int| 0 <= j < at - 1 implies (#[trigger] rest[j]).0 != key by {
            assert(m[j + 1].0 != key);
        }
        put_is_first(rest, key, value, at - 1);
        if at < m.len() {
            assert(seq![m[0]] + rest.update(at - 1, (key, value)) =~= m.update(at, (key, value)));
        } else {
            assert(seq![m[0]] + rest.push((key, value)) =~= m.push((key, value)));
        }
    }
}

proof fn lemma_lookup_put(
    m: Seq<(Seq<char>, JsonView)>,
    key: Seq<char>,
    value: JsonView,
    asked: Seq<char>,
)
    ensures
        lookup(put(m, key, value), asked) == (if asked == key {
            Some(value)
        } else {
            lookup(m, asked)
        }),
    decreases m.len(),
{
    let p = put(m, key, value);
    if m.len() == 0 {
        assert(p.drop_first() =~= Seq::<(Seq<char>, JsonView)>::empty());
        reveal_with_fuel(lookup, 2);
    } else if m[0].0 == key {
        assert(p.drop_first() =~= m.drop_first());
    } else {
        assert(p.drop_first() =~= put(m.drop_first(), key, value));
        lemma_lookup_put(m.drop_first(), key, value, asked);
    }
}

/// Whether no two of the members have the same key.
pub open spec fn distinct_keys(m: Seq<(Seq<char>, JsonView)>) -> bool {
    forall|i: int, j: int| 0 <= i < j < m.len() ==> (#[trigger] m[i]).0 != (#[trigger] m[j]).0
}

proof fn lemma_merged_members(
    a: Seq<(Seq<char>, JsonView)>,
    patch: JsonView,
    n: nat,
    key: Seq<char>,
)
    requires
        patch is Object,
        n <= patch->Object_0.len(),
        distinct_keys(patch->Object_0),
    ensures
        lookup(merged_members(a, patch, n), key) == (match lookup(
            patch->Object_0.take(n as int),
            key,
        ) {
            Some(v) => Some(merged(or_null(lookup(a, key)), v)),
            None => lookup(a, key),
        }),
    decreases n,
{
    let b = patch->Object_0;
    if n == 0 {
        assert(b.take(0).len() == 0);
    } else {
        let k = (n - 1) as nat;
        lemma_merged_members(a, patch, k, key);
        lemma_merged_members(a, patch, k, b[n - 1].0);
        let done = merged_members(a, patch, k);
        lemma_lookup_put(
            done,
            b[n - 1].0,
            merged(or_null(lookup(done, b[n - 1].0)), b[n - 1].1),
            key,
        );
        let t = b.take(n as int);
        let s = b.take(k as int);
        if b[n - 1].0 == key {
            assert forall|j: int| 0 <= j < n - 1 implies (#[trigger] t[j]).0 != key by {
                assert(b[j].0 != b[n - 1].0);
            }
            lookup_is_first(t, key, n - 1);
            assert forall|j: int| 0 <= j < s.len() implies (#[trigger] s[j]).0 != key by {
                assert(b[j].0 != b[n - 1].0);
            }
            lookup_is_first(s, key, s.len() as int);
        } else {
            lemma_lookup_last(t, key);
            assert(t.drop_last() =~= s);
        }
    }
}

proof fn lemma_lookup_last(m: Seq<(Seq<char>, JsonView)>, key: Seq<char>)
    requires
        m.len() > 0,
        m.last().0 != key,
    ensures
        lookup(m, key) == lookup(m.drop_last(), key),
    decreases m.len(),
{
    if m.len() > 1 && m[0].0 != key {
        lemma_lookup_last(m.drop_first(), key);
        assert(m.drop_first().drop_last() =~= m.drop_last().drop_first());
    } else if m.len() == 1 {
        assert(lookup(m.drop_first(), key) is None);
        assert(lookup(m.drop_last(), key) is None);
    }
}

/// Merging two objects works member by member: a member that the patch does not
/// name stays as it is, and one that it names is the old value (null where there
/// was none) merged with the new one.
pub proof fn merge_is_member_wise(
    base: Seq<(Seq<char>, JsonView)>,
    patch: Seq<(Seq<char>, JsonView)>,
    key: Seq<char>,
)
    requires
        distinct_keys(patch),
    ensures
        member_of(merged(JsonView::Object(base), JsonView::Object(patch)), key) == (match lookup(
            patch,
            key,
        ) {
            Some(v) => Some(merged(or_null(lookup(base, key)), v)),
            None => lookup(base, key),
        }),
{
    lemma_merged_members(base, JsonView::Object(patch), patch.len(), key);
    assert(patch.take(patch.len() as int) =~= patch);
}

/// Merges `patch` into `base`.
pub fn merge_json(base: Json, patch: &Json) -> (r: Json)
    ensures
        r@ == merged(base@, patch@),
    decreases *patch,
{
    match (base, patch) {
        (Json::Object(mut a), Json::Object(b)) => {
            let ghost a0 = members_view(a@);
            let ghost pv = patch@;
            proof {
                object_view(a);
                object_view(*b);
            }
            let mut i: usize = 0;
            while i < b.len()
                invariant
                    i <= b@.len(),
                    *patch == Json::Object(*b),
                    pv == patch@,
                    pv == JsonView::Object(members_view(b@)),
                    members_view(a@) == merged_members(a0, pv, i as nat),
                decreases b@.len() - i,
            {
                let ghost done = members_view(a@);
                let ghost key = b@[i as int].key@;
                assert(pv->Object_0[i as int] == (key, b@[i as int].value@));
                assert(decreases_to!(*patch => patch->Object_0@[i as int].value));
                let found = find_member(&a, b[i].key.as_str());
                match found {
                    Some(at) => {
                        proof {
                            assert forall|j: int| 0 <= j < at implies (#[trigger] done[j]).0
                                != key by {
                                assert(a@[j].key@ != key);
                            }
                            lookup_is_first(done, key, at as int);
                        }
                        let old = a.remove(at);
                        let value = merge_json(old.value, &b[i].value);
                        proof {
                            put_is_first(done, key, value@, at as int);
                        }
                        a.insert(at, Member { key: old.key, value });
                        assert(members_view(a@) =~= done.update(at as int, (key, value@)));
                    },
                    None => {
                        proof {
                            assert forall|j: int| 0 <= j < done.len() implies (#[trigger] done[j]).0
                                != key by {
                                assert(a@[j].key@ != key);
                            }
                            lookup_is_first(done, key, done.len() as int);
                        }
                        let value = merge_json(Json::Null, &b[i].value);
                        proof {
                            put_is_first(done, key, value@, done.len() as int);
                        }
                        a.push(Member { key: b[i].key.clone(), value });
                        assert(members_view(a@) =~= done.push((key, value@)));
                    },
                }
                i = i + 1;
            }
            proof {
                object_view(a);
            }
            Json::Object(a)
        },
        (_, _) => patch.copy(),
    }
}

} // verus!
