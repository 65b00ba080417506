//! JSON documents and their canonical form: object keys ascending by code
//! point at every depth, arrays in their own order, scalars as they are, all of
//! it written as compact text.

use crate::digest::{blake3_hex, digest_hex, hex_digit, is_hex};
use crate::text::{
    lemma_lex_le_antisymmetric, lemma_lex_le_reflexive, lemma_lex_le_total,
    lemma_lex_le_transitive, lex_le, str_eq, str_le, views,
};
use vstd::prelude::*;
use vstd::string::StringExecFns;
use vstd::string::StringSliceAdditionalSpecFns;
use vstd::utf8::encode_utf8;

verus! {

/// A JSON document. A number is kept as its literal text; an object keeps its
/// members in the order in which they were written.
#[derive(Debug)]
pub enum Value {
    Null,
    Bool(bool),
    Number(String),
    Text(String),
    Array(Vec<Value>),
    Object(Vec<(String, Value)>),
}

/// The mathematical content of a `Value`.
pub enum Json {
    Null,
    Bool(bool),
    Number(Seq<char>),
    Text(Seq<char>),
    Array(Seq<Json>),
    Object(Seq<(Seq<char>, Json)>),
}

impl View for Value {
    type V = Json;

    open spec fn view(&self) -> Json
        decreases self,
    {
        match self {
            Value::Null => Json::Null,
            Value::Bool(b) => Json::Bool(*b),
            Value::Number(n) => Json::Number(n@),
            Value::Text(s) => Json::Text(s@),
            Value::Array(items) => Json::Array(
                Seq::new(
                    items.len() as nat,
                    |i: int|
                        if 0 <= i < items.len() {
                            items[i].view()
                        } else {
                            Json::Null
                        },
                ),
            ),
            Value::Object(members) => Json::Object(
                Seq::new(
                    members.len() as nat,
                    |i: int|
                        (
                            members[i].0@,
                            if 0 <= i < members.len() {
                                members[i].1.view()
                            } else {
                                Json::Null
                            },
                        ),
                ),
            ),
        }
    }
}

/// How one character stands inside a JSON string: the quote, the backslash
/// and the control characters below U+0020 are escaped, every other character
/// stands for itself.
pub open spec fn escaped_char(c: char) -> Seq<char> {
    if c == '"' {
        seq!['\\', '"']
    } else if c == '\\' {
        seq!['\\', '\\']
    } else if c == '\u{8}' {
        seq!['\\', 'b']
    } else if c == '\u{c}' {
        seq!['\\', 'f']
    } else if c == '\n' {
        seq!['\\', 'n']
    } else if c == '\r' {
        seq!['\\', 'r']
    } else if c == '\t' {
        seq!['\\', 't']
    } else if (c as int) < 0x20 {
        seq!['\\', 'u', '0', '0', hex_digit((c as int) / 16), hex_digit((c as int) % 16)]
    } else {
        seq![c]
    }
}

/// The characters of `s`, each escaped as a JSON string needs it.
pub open spec fn escaped(s: Seq<char>) -> Seq<char>
    decreases s.len(),
{
    if s.len() == 0 {
        Seq::empty()
    } else {
        escaped(s.drop_last()) + escaped_char(s.last())
    }
}

/// `s` as a JSON string: escaped and between double quotes.
pub open spec fn quoted(s: Seq<char>) -> Seq<char> {
    seq!['"'] + escaped(s) + seq!['"']
}

/// The compact text of a document: no white space, members and items
/// separated by commas, in the order in which they stand.
pub open spec fn text_of(v: Json) -> Seq<char>
    decreases v, 0nat,
{
    match v {
        Json::Null => seq!['n', 'u', 'l', 'l'],
        Json::Bool(b) => if b {
            seq!['t', 'r', 'u', 'e']
        } else {
            seq!['f', 'a', 'l', 's', 'e']
        },
        Json::Number(n) => n,
        Json::Text(s) => quoted(s),
        Json::Array(items) => seq!['['] + items_text(items, items.len()) + seq![']'],
        Json::Object(members) => seq!['{'] + members_text(members, members.len()) + seq!['}'],
    }
}

/// The text of the first `n` items of an array, separated by commas.
pub open spec fn items_text(items: Seq<Json>, n: nat) -> Seq<char>
    decreases items, n,
{
    if n == 0 || n > items.len() {
        Seq::empty()
    } else if n == 1 {
        text_of(items[0])
    } else {
        items_text(items, (n - 1) as nat) + seq![','] + text_of(items[n - 1])
    }
}

/// The text of one member of an object: its key as a string, a colon, its
/// value.
pub open spec fn member_text(key: Seq<char>, value_text: Seq<char>) -> Seq<char> {
    quoted(key) + seq![':'] + value_text
}

/// The text of the first `n` members of an object, separated by commas.
pub open spec fn members_text(members: Seq<(Seq<char>, Json)>, n: nat) -> Seq<char>
    decreases members, n,
{
    if n == 0 || n > members.len() {
        Seq::empty()
    } else if n == 1 {
        member_text(members[0].0, text_of(members[0].1))
    } else {
        members_text(members, (n - 1) as nat) + seq![','] + member_text(
            members[n - 1].0,
            text_of(members[n - 1].1),
        )
    }
}

/// Calls `serde_json::to_string` on a string, which writes it between double
/// quotes and escapes the quote, the backslash and the control characters
/// below U+0020 (`\b`, `\f`, `\n`, `\r`, `\t`, else `\u00` and two lower-case
/// hexadecimal digits).
#[verifier::external_body]
fn json_quote(s: &str) -> (out: String)
    ensures
        out@ == quoted(s@),
{
    serde_json::to_string(s).unwrap_or_default()
}

/// The compact text of `v`.
pub fn to_text(v: &Value) -> (out: String)
    ensures
        out@ == text_of(v@),
    decreases v,
{
    match v {
        Value::Null => {
            let mut out = String::new();
            out.push('n');
            out.push('u');
            out.push('l');
            out.push('l');
            proof {
                assert(out@ =~= seq!['n', 'u', 'l', 'l']);
            }
            out
        },
        Value::Bool(b) => {
            let mut out = String::new();
            if *b {
                out.push('t');
                out.push('r');
                out.push('u');
                out.push('e');
                proof {
                    assert(out@ =~= seq!['t', 'r', 'u', 'e']);
                }
            } else {
                out.push('f');
                out.push('a');
                out.push('l');
                out.push('s');
                out.push('e');
                proof {
                    assert(out@ =~= seq!['f', 'a', 'l', 's', 'e']);
                }
            }
            out
        },
        Value::Number(n) => n.clone(),
        Value::Text(s) => json_quote(s.as_str()),
        Value::Array(items) => {
            let mut out = String::new();
            out.push('[');
            let mut i: usize = 0;
            let ghost all = v@->Array_0;
            while i < items.len()
                invariant
                    i <= items.len(),
                    forall|k: int| 0 <= k < items.len() ==> decreases_to!(v => #[trigger] items[k]),
                    v@ == Json::Array(all),
                    all.len() == items.len(),
                    forall|k: int| 0 <= k < items.len() ==> all[k] == (#[trigger] items[k])@,
                    out@ == seq!['['] + items_text(all, i as nat),
                decreases items.len() - i,
            {
                if i > 0 {
                    out.push(',');
                }
                let t = to_text(&items[i]);
                out.append(t.as_str());
                i += 1;
                proof {
                    assert(out@ =~= seq!['['] + items_text(all, i as nat));
                }
            }
            out.push(']');
            out
        },
        Value::Object(members) => {
            let mut out = String::new();
            out.push('{');
            let mut i: usize = 0;
            let ghost all = v@->Object_0;
            while i < members.len()
                invariant
                    i <= members.len(),
                    forall|k: int|
                        0 <= k < members.len() ==> decreases_to!(v => (#[trigger] members[k]).1),
                    v@ == Json::Object(all),
                    all.len() == members.len(),
                    forall|k: int|
                        0 <= k < members.len() ==> all[k] == ((#[trigger] members[k]).0@, members[k].1@),
                    out@ == seq!['{'] + members_text(all, i as nat),
                decreases members.len() - i,
            {
                if i > 0 {
                    out.push(',');
                }
                let k = json_quote(members[i].0.as_str());
                out.append(k.as_str());
                out.push(':');
                let t = to_text(&members[i].1);
                out.append(t.as_str());
                i += 1;
                proof {
                    assert(out@ =~= seq!['{'] + members_text(all, i as nat));
                }
            }
            out.push('}');
            out
        },
    }
}

/// `m` put into `sorted` behind the last member whose key is not greater.
pub open spec fn insert_member(sorted: Seq<(Seq<char>, Json)>, m: (Seq<char>, Json)) -> Seq<
    (Seq<char>, Json),
>
    decreases sorted.len(),
{
    if sorted.len() == 0 {
        seq![m]
    } else if lex_le(sorted.last().0, m.0) {
        sorted.push(m)
    } else {
        insert_member(sorted.drop_last(), m).push(sorted.last())
    }
}

/// The members in ascending order of their keys; members with the same key
/// keep their order.
pub open spec fn sort_members(members: Seq<(Seq<char>, Json)>) -> Seq<(Seq<char>, Json)>
    decreases members.len(),
{
    if members.len() == 0 {
        members
    } else {
        insert_member(sort_members(members.drop_last()), members.last())
    }
}

/// The canonical form of a document: every object's members in ascending
/// order of their keys, at every depth; arrays and scalars as they are.
pub open spec fn canonical(v: Json) -> Json
    decreases v,
{
    match v {
        Json::Array(items) => Json::Array(
            Seq::new(
                items.len(),
                |i: int|
                    if 0 <= i < items.len() {
                        canonical(items[i])
                    } else {
                        Json::Null
                    },
            ),
        ),
        Json::Object(members) => Json::Object(sort_members(canonical_values(members))),
        _ => v,
    }
}

/// The members with each value in canonical form.
pub open spec fn canonical_values(members: Seq<(Seq<char>, Json)>) -> Seq<(Seq<char>, Json)>
    decreases members,
{
    Seq::new(
        members.len(),
        |i: int|
            (
                members[i].0,
                if 0 <= i < members.len() {
                    canonical(members[i].1)
                } else {
                    Json::Null
                },
            ),
    )
}

/// The canonical text of a document.
pub open spec fn canonical_text(v: Json) -> Seq<char> {
    text_of(canonical(v))
}

/// The digest of a document: the hash of its canonical text in UTF-8.
pub open spec fn canonical_digest(v: Json) -> Seq<char> {
    digest_hex(encode_utf8(canonical_text(v)))
}

/// Where scanning back from the end of `s` stops at `p`, `insert_member` puts
/// `m` at `p`.
proof fn lemma_insert_member_at(s: Seq<(Seq<char>, Json)>, m: (Seq<char>, Json), p: int)
    requires
        0 <= p <= s.len(),
        p > 0 ==> lex_le(s[p - 1].0, m.0),
        forall|k: int| p <= k < s.len() ==> !lex_le(#[trigger] s[k].0, m.0),
    ensures
        insert_member(s, m) == s.insert(p, m),
    decreases s.len() - p,
{
    if s.len() == 0 {
        assert(s.insert(p, m) =~= seq![m]);
    } else if p == s.len() {
        assert(s.insert(p, m) =~= s.push(m));
    } else {
        assert(!lex_le(s[s.len() - 1].0, m.0));
        lemma_insert_member_at(s.drop_last(), m, p);
        assert(s.drop_last().insert(p, m).push(s.last()) =~= s.insert(p, m));
    }
}

/// The views of the members of an object.
pub open spec fn member_views(members: Seq<(String, Value)>) -> Seq<(Seq<char>, Json)> {
    Seq::new(members.len(), |i: int| (members[i].0@, members[i].1@))
}

/// The canonical form of `v`.
pub fn sort_json(v: &Value) -> (r: Value)
    ensures
        r@ == canonical(v@),
    decreases v,
{
    match v {
        Value::Null => Value::Null,
        Value::Bool(b) => Value::Bool(*b),
        Value::Number(n) => Value::Number(n.clone()),
        Value::Text(s) => Value::Text(s.clone()),
        Value::Array(items) => {
            let mut out: Vec<Value> = Vec::new();
            let mut i: usize = 0;
            let ghost all = v@->Array_0;
            while i < items.len()
                invariant
                    i <= items.len(),
                    forall|k: int| 0 <= k < items.len() ==> decreases_to!(v => #[trigger] items[k]),
                    all.len() == items.len(),
                    forall|k: int| 0 <= k < items.len() ==> all[k] == (#[trigger] items[k])@,
                    out.len() == i,
                    forall|k: int| 0 <= k < i ==> (#[trigger] out[k])@ == canonical(all[k]),
                decreases items.len() - i,
            {
                let c = sort_json(&items[i]);
                out.push(c);
                i += 1;
            }
            let r = Value::Array(out);
            proof {
                assert(r@->Array_0 =~= canonical(v@)->Array_0);
            }
            r
        },
        Value::Object(members) => {
            let mut out: Vec<(String, Value)> = Vec::new();
            let mut i: usize = 0;
            let ghost all = v@->Object_0;
            let ghost goal = canonical_values(all);
            proof {
                assert(member_views(out@) =~= sort_members(goal.take(0)));
            }
            while i < members.len()
                invariant
                    i <= members.len(),
                    forall|k: int|
                        0 <= k < members.len() ==> decreases_to!(v => (#[trigger] members[k]).1),
                    all.len() == members.len(),
                    forall|k: int|
                        0 <= k < members.len() ==> all[k] == ((#[trigger] members[k]).0@, members[k].1@),
                    goal == canonical_values(all),
                    member_views(out@) == sort_members(goal.take(i as int)),
                decreases members.len() - i,
            {
                let key = members[i].0.clone();
                let val = sort_json(&members[i].1);
                let mut p: usize = out.len();
                while p > 0 && !str_le(out[p - 1].0.as_str(), key.as_str())
                    invariant
                        p <= out.len(),
                        forall|k: int| p <= k < out.len() ==> !lex_le(#[trigger] out[k].0@, key@),
                    decreases p,
                {
                    p -= 1;
                }
                let ghost before = member_views(out@);
                let ghost m = (key@, val@);
                out.insert(p, (key, val));
                proof {
                    assert(m == goal[i as int]);
                    assert(member_views(out@) =~= before.insert(p as int, m));
                    lemma_insert_member_at(before, m, p as int);
                    assert(goal.take(i + 1).drop_last() =~= goal.take(i as int));
                    assert(goal.take(i + 1).last() == m);
                }
                i += 1;
            }
            let r = Value::Object(out);
            proof {
                assert(goal.take(i as int) =~= goal);
                assert(r@->Object_0 =~= member_views(out@));
            }
            r
        },
    }
}

/// The canonical text of `v`.
pub fn canonical_string(v: &Value) -> (out: String)
    ensures
        out@ == canonical_text(v@),
{
    let sorted = sort_json(v);
    to_text(&sorted)
}

/// The digest of `json`: the BLAKE3 hash of its canonical text, as
/// hexadecimal text.
pub fn hash_canonical(json: &Value) -> (digest: String)
    ensures
        digest@ == canonical_digest(json@),
        is_hex(digest@),
        digest@.len() == 64,
{
    let text = canonical_string(json);
    blake3_hex(text.as_str().as_bytes())
}

/// No two members have the same key.
pub open spec fn distinct_keys(members: Seq<(Seq<char>, Json)>) -> bool {
    forall|i: int, j: int|
        0 <= i < j < members.len() ==> (#[trigger] members[i]).0 != (#[trigger] members[j]).0
}

/// The keys of the members are in ascending order.
pub open spec fn ascending_keys(members: Seq<(Seq<char>, Json)>) -> bool {
    forall|i: int, j: int|
        0 <= i < j < members.len() ==> lex_le((#[trigger] members[i]).0, (#[trigger] members[j]).0)
}

/// The position of the first member of `members` with the key `key`, or the
/// number of members where there is none.
pub open spec fn key_index(members: Seq<(Seq<char>, Json)>, key: Seq<char>) -> int
    decreases members.len(),
{
    if members.len() == 0 {
        0
    } else if members[0].0 == key {
        0
    } else {
        1 + key_index(members.drop_first(), key)
    }
}

/// Two documents say the same thing: they are equal but for the order in
/// which the members of their objects are written, at any depth. The keys of
/// each object are distinct; each member of the one has its key in the other,
/// with a value of the same content.
pub open spec fn same_content(a: Json, b: Json) -> bool
    decreases a,
{
    match a {
        Json::Array(x) => b is Array && x.len() == b->Array_0.len() && forall|i: int|
            0 <= i < x.len() ==> same_content(#[trigger] x[i], b->Array_0[i]),
        Json::Object(x) => {
            &&& b is Object
            &&& distinct_keys(x)
            &&& distinct_keys(b->Object_0)
            &&& forall|i: int|
                #![trigger x[i]]
                0 <= i < x.len() ==> key_index(b->Object_0, x[i].0) < b->Object_0.len()
                    && same_content(x[i].1, b->Object_0[key_index(b->Object_0, x[i].0)].1)
            &&& forall|j: int|
                #![trigger b->Object_0[j]]
                0 <= j < b->Object_0.len() ==> key_index(x, b->Object_0[j].0) < x.len()
        },
        _ => a == b,
    }
}

/// `key_index` finds the key where it is there.
pub proof fn lemma_key_index(members: Seq<(Seq<char>, Json)>, key: Seq<char>)
    ensures
        0 <= key_index(members, key) <= members.len(),
        key_index(members, key) < members.len() ==> members[key_index(members, key)].0 == key,
    decreases members.len(),
{
    if members.len() > 0 && members[0].0 != key {
        let rest = members.drop_first();
        lemma_key_index(rest, key);
        let r = key_index(rest, key);
        if r < rest.len() {
            assert(rest[r] == members[r + 1]);
        }
    }
}

/// Where `insert_member` puts `m`.
spec fn insert_position(s: Seq<(Seq<char>, Json)>, m: (Seq<char>, Json)) -> int
    decreases s.len(),
{
    if s.len() == 0 {
        0
    } else if lex_le(s.last().0, m.0) {
        s.len() as int
    } else {
        insert_position(s.drop_last(), m)
    }
}

/// `insert_member` puts `m` at `insert_position`: behind every member whose
/// key is not greater, before every member whose key is.
proof fn lemma_insert_position(s: Seq<(Seq<char>, Json)>, m: (Seq<char>, Json))
    ensures
        0 <= insert_position(s, m) <= s.len(),
        insert_member(s, m) == s.insert(insert_position(s, m), m),
        insert_position(s, m) > 0 ==> lex_le(s[insert_position(s, m) - 1].0, m.0),
        forall|k: int| insert_position(s, m) <= k < s.len() ==> !lex_le(#[trigger] s[k].0, m.0),
    decreases s.len(),
{
    if s.len() > 0 && !lex_le(s.last().0, m.0) {
        lemma_insert_position(s.drop_last(), m);
    }
    let p = insert_position(s, m);
    assert forall|k: int| p <= k < s.len() implies !lex_le(#[trigger] s[k].0, m.0) by {
        if k < s.len() - 1 {
            assert(s.drop_last()[k] == s[k]);
        }
    }
    if p > 0 && p < s.len() {
        assert(s.drop_last()[p - 1] == s[p - 1]);
    }
    lemma_insert_member_at(s, m, p);
}

/// Sorting keeps the members and their number, puts the keys in ascending
/// order, and keeps distinct keys distinct.
pub proof fn lemma_sort_members(s: Seq<(Seq<char>, Json)>)
    ensures
        sort_members(s).len() == s.len(),
        ascending_keys(sort_members(s)),
        forall|m: (Seq<char>, Json)| sort_members(s).contains(m) <==> s.contains(m),
        distinct_keys(s) ==> distinct_keys(sort_members(s)),
    decreases s.len(),
{
    if s.len() > 0 {
        let rest = s.drop_last();
        let m = s.last();
        lemma_sort_members(rest);
        let a = sort_members(rest);
        lemma_insert_position(a, m);
        let p = insert_position(a, m);
        let b = sort_members(s);
        assert(b == a.insert(p, m));
        assert forall|i: int, j: int| 0 <= i < j < b.len() implies lex_le(
            (#[trigger] b[i]).0,
            (#[trigger] b[j]).0,
        ) by {
            if j == p {
                assert(b[i] == a[i]);
                if i < p - 1 {
                    assert(lex_le(a[i].0, a[p - 1].0));
                    lemma_lex_le_transitive(a[i].0, a[p - 1].0, m.0);
                }
            } else if i == p {
                assert(b[j] == a[j - 1]);
                assert(!lex_le(a[j - 1].0, m.0));
                lemma_lex_le_total(a[j - 1].0, m.0);
            } else {
                let i0 = if i < p { i } else { i - 1 };
                let j0 = if j < p { j } else { j - 1 };
                assert(b[i] == a[i0]);
                assert(b[j] == a[j0]);
            }
        }
        assert forall|x: (Seq<char>, Json)| b.contains(x) <==> s.contains(x) by {
            if b.contains(x) {
                let k = choose|k: int| 0 <= k < b.len() && b[k] == x;
                if k == p {
                    assert(s[s.len() - 1] == x);
                } else {
                    let k0 = if k < p { k } else { k - 1 };
                    assert(a[k0] == x);
                    assert(a.contains(x));
                    assert(rest.contains(x));
                    let r = choose|r: int| 0 <= r < rest.len() && rest[r] == x;
                    assert(s[r] == x);
                }
            }
            if s.contains(x) {
                let r = choose|r: int| 0 <= r < s.len() && s[r] == x;
                if r == s.len() - 1 {
                    assert(b[p] == x);
                } else {
                    assert(rest[r] == x);
                    assert(rest.contains(x));
                    assert(a.contains(x));
                    let k0 = choose|k0: int| 0 <= k0 < a.len() && a[k0] == x;
                    let k = if k0 < p { k0 } else { k0 + 1 };
                    assert(b[k] == x);
                }
            }
        }
        if distinct_keys(s) {
            assert(distinct_keys(rest)) by {
                assert forall|i: int, j: int| 0 <= i < j < rest.len() implies (#[trigger] rest[i]).0
                    != (#[trigger] rest[j]).0 by {
                    assert(rest[i] == s[i] && rest[j] == s[j]);
                }
            }
            assert forall|k: int| 0 <= k < a.len() implies (#[trigger] a[k]).0 != m.0 by {
                assert(a.contains(a[k]));
                assert(rest.contains(a[k]));
                let r = choose|r: int| 0 <= r < rest.len() && rest[r] == a[k];
                assert(s[r] == a[k]);
                assert(s[r].0 != s[s.len() - 1].0);
            }
            assert forall|i: int, j: int| 0 <= i < j < b.len() implies (#[trigger] b[i]).0 != (
            #[trigger] b[j]).0 by {
                let i0 = if i < p { i } else { i - 1 };
                let j0 = if j < p { j } else { j - 1 };
                if i == p {
                    assert(b[j] == a[j0]);
                } else if j == p {
                    assert(b[i] == a[i0]);
                } else {
                    assert(b[i] == a[i0]);
                    assert(b[j] == a[j0]);
                }
            }
        }
    }
}

/// Two lists of members with distinct keys in ascending order that hold the
/// same members are equal.
pub proof fn lemma_ascending_members_equal(a: Seq<(Seq<char>, Json)>, b: Seq<(Seq<char>, Json)>)
    requires
        ascending_keys(a),
        ascending_keys(b),
        distinct_keys(a),
        distinct_keys(b),
        forall|m: (Seq<char>, Json)| a.contains(m) <==> b.contains(m),
    ensures
        a == b,
    decreases a.len(),
{
    if a.len() == 0 {
        if b.len() > 0 {
            assert(b.contains(b[0]));
            assert(a.contains(b[0]));
        }
        assert(a =~= b);
    } else {
        assert(a.contains(a[0]));
        assert(b.contains(a[0]));
        let x = a.last();
        let y = b.last();
        assert(a.contains(x));
        assert(b.contains(x));
        let j = choose|j: int| 0 <= j < b.len() && b[j] == x;
        assert(b.contains(y));
        assert(a.contains(y));
        let i = choose|i: int| 0 <= i < a.len() && a[i] == y;
        if j < b.len() - 1 {
            assert(lex_le(b[j].0, b[b.len() - 1].0));
        } else {
            lemma_lex_le_reflexive(x.0);
        }
        if i < a.len() - 1 {
            assert(lex_le(a[i].0, a[a.len() - 1].0));
        } else {
            lemma_lex_le_reflexive(y.0);
        }
        lemma_lex_le_antisymmetric(x.0, y.0);
        if j < b.len() - 1 {
            assert(b[j].0 != b[b.len() - 1].0);
        }
        assert(x == y);
        let a0 = a.drop_last();
        let b0 = b.drop_last();
        assert forall|m: (Seq<char>, Json)| a0.contains(m) <==> b0.contains(m) by {
            if a0.contains(m) {
                let k = choose|k: int| 0 <= k < a0.len() && a0[k] == m;
                assert(a[k] == m);
                assert(a[k].0 != a[a.len() - 1].0);
                assert(a.contains(m));
                assert(b.contains(m));
                let r = choose|r: int| 0 <= r < b.len() && b[r] == m;
                assert(r < b.len() - 1);
                assert(b0[r] == m);
            }
            if b0.contains(m) {
                let k = choose|k: int| 0 <= k < b0.len() && b0[k] == m;
                assert(b[k] == m);
                assert(b[k].0 != b[b.len() - 1].0);
                assert(b.contains(m));
                assert(a.contains(m));
                let r = choose|r: int| 0 <= r < a.len() && a[r] == m;
                assert(r < a.len() - 1);
                assert(a0[r] == m);
            }
        }
        assert(ascending_keys(a0)) by {
            assert forall|p: int, q: int| 0 <= p < q < a0.len() implies lex_le(
                (#[trigger] a0[p]).0,
                (#[trigger] a0[q]).0,
            ) by {
                assert(a0[p] == a[p] && a0[q] == a[q]);
            }
        }
        assert(ascending_keys(b0)) by {
            assert forall|p: int, q: int| 0 <= p < q < b0.len() implies lex_le(
                (#[trigger] b0[p]).0,
                (#[trigger] b0[q]).0,
            ) by {
                assert(b0[p] == b[p] && b0[q] == b[q]);
            }
        }
        assert(distinct_keys(a0)) by {
            assert forall|p: int, q: int| 0 <= p < q < a0.len() implies (#[trigger] a0[p]).0 != (
            #[trigger] a0[q]).0 by {
                assert(a0[p] == a[p] && a0[q] == a[q]);
            }
        }
        assert(distinct_keys(b0)) by {
            assert forall|p: int, q: int| 0 <= p < q < b0.len() implies (#[trigger] b0[p]).0 != (
            #[trigger] b0[q]).0 by {
                assert(b0[p] == b[p] && b0[q] == b[q]);
            }
        }
        lemma_ascending_members_equal(a0, b0);
        assert(a =~= a0.push(x));
        assert(b =~= b0.push(y));
    }
}

/// Putting the values in canonical form keeps the keys, so distinct keys stay
/// distinct.
proof fn lemma_canonical_values_keys(x: Seq<(Seq<char>, Json)>)
    requires
        distinct_keys(x),
    ensures
        distinct_keys(canonical_values(x)),
{
    let cx = canonical_values(x);
    assert forall|p: int, q: int| 0 <= p < q < cx.len() implies (#[trigger] cx[p]).0 != (
    #[trigger] cx[q]).0 by {
        assert(x[p].0 != x[q].0);
    }
}

/// Canonical form does not depend on the order in which the members of an
/// object were written: documents of the same content have the same canonical
/// form, hence the same canonical text and the same digest.
pub proof fn lemma_canonical_ignores_member_order(a: Json, b: Json)
    requires
        same_content(a, b),
    ensures
        canonical(a) == canonical(b),
        canonical_text(a) == canonical_text(b),
        canonical_digest(a) == canonical_digest(b),
    decreases a,
{
    match a {
        Json::Array(x) => {
            let y = b->Array_0;
            assert forall|i: int| 0 <= i < x.len() implies canonical(x[i]) == canonical(y[i]) by {
                assert(same_content(x[i], y[i]));
                lemma_canonical_ignores_member_order(x[i], y[i]);
            }
            assert(canonical(a)->Array_0 =~= canonical(b)->Array_0);
        },
        Json::Object(x) => {
            let y = b->Object_0;
            let cx = canonical_values(x);
            let cy = canonical_values(y);
            assert forall|m: (Seq<char>, Json)| cx.contains(m) implies cy.contains(m) by {
                let i = choose|i: int| 0 <= i < cx.len() && cx[i] == m;
                let xi = x[i];
                let j = key_index(y, x[i].0);
                lemma_key_index(y, x[i].0);
                lemma_canonical_ignores_member_order(x[i].1, y[j].1);
                assert(cy[j] == m);
            }
            assert forall|m: (Seq<char>, Json)| cy.contains(m) implies cx.contains(m) by {
                let j = choose|j: int| 0 <= j < cy.len() && cy[j] == m;
                let yj = y[j];
                let i = key_index(x, y[j].0);
                lemma_key_index(x, y[j].0);
                let xi = x[i];
                let j2 = key_index(y, x[i].0);
                lemma_key_index(y, x[i].0);
                assert(y[j2].0 == y[j].0);
                assert(j2 == j);
                lemma_canonical_ignores_member_order(x[i].1, y[j].1);
                assert(cx[i] == m);
            }
            lemma_canonical_values_keys(x);
            lemma_canonical_values_keys(y);
            lemma_sort_members(cx);
            lemma_sort_members(cy);
            assert forall|m: (Seq<char>, Json)|
                sort_members(cx).contains(m) <==> sort_members(cy).contains(m) by {
                assert(sort_members(cx).contains(m) <==> cx.contains(m));
                assert(sort_members(cy).contains(m) <==> cy.contains(m));
            }
            lemma_ascending_members_equal(sort_members(cx), sort_members(cy));
        },
        _ => {},
    }
}

/// The value of the first member of `members` whose key is `key`, if any.
pub open spec fn lookup(members: Seq<(Seq<char>, Json)>, key: Seq<char>) -> Option<Json>
    decreases members.len(),
{
    if members.len() == 0 {
        None
    } else if members[0].0 == key {
        Some(members[0].1)
    } else {
        lookup(members.drop_first(), key)
    }
}

/// The member `key` of an object; `None` for anything but an object.
pub open spec fn member(v: Json, key: Seq<char>) -> Option<Json> {
    match v {
        Json::Object(members) => lookup(members, key),
        _ => None,
    }
}

/// The first member with a key is the one that is looked up.
pub proof fn lemma_lookup_at(members: Seq<(Seq<char>, Json)>, key: Seq<char>, i: int)
    requires
        0 <= i < members.len(),
        members[i].0 == key,
        forall|k: int| 0 <= k < i ==> (#[trigger] members[k]).0 != key,
    ensures
        lookup(members, key) == Some(members[i].1),
    decreases i,
{
    if i > 0 {
        let rest = members.drop_first();
        assert(members[0].0 != key);
        assert(rest[i - 1] == members[i]);
        assert forall|k: int| 0 <= k < i - 1 implies (#[trigger] rest[k]).0 != key by {
            assert(rest[k] == members[k + 1]);
        }
        lemma_lookup_at(rest, key, i - 1);
    }
}

/// A key that no member has is not found.
pub proof fn lemma_lookup_absent(members: Seq<(Seq<char>, Json)>, key: Seq<char>)
    requires
        forall|k: int| 0 <= k < members.len() ==> (#[trigger] members[k]).0 != key,
    ensures
        lookup(members, key) is None,
    decreases members.len(),
{
    if members.len() > 0 {
        let rest = members.drop_first();
        assert(members[0].0 != key);
        assert forall|k: int| 0 <= k < rest.len() implies (#[trigger] rest[k]).0 != key by {
            assert(rest[k] == members[k + 1]);
        }
        lemma_lookup_absent(rest, key);
    }
}

/// The members whose key is not `key`, in their order.
pub open spec fn without(members: Seq<(Seq<char>, Json)>, key: Seq<char>) -> Seq<(Seq<char>, Json)>
    decreases members.len(),
{
    if members.len() == 0 {
        members
    } else if members.last().0 == key {
        without(members.drop_last(), key)
    } else {
        without(members.drop_last(), key).push(members.last())
    }
}

/// An object without its members `key`; anything else as it is.
pub open spec fn without_key(v: Json, key: Seq<char>) -> Json {
    match v {
        Json::Object(members) => Json::Object(without(members, key)),
        _ => v,
    }
}

/// Removing a key gives the same members whatever value that key had.
pub proof fn lemma_without_ignores_value(
    a: Seq<(Seq<char>, Json)>,
    b: Seq<(Seq<char>, Json)>,
    key: Seq<char>,
)
    requires
        a.len() == b.len(),
        forall|i: int| 0 <= i < a.len() ==> (#[trigger] a[i]).0 == b[i].0,
        forall|i: int| 0 <= i < a.len() && (#[trigger] a[i]).0 != key ==> a[i].1 == b[i].1,
    ensures
        without(a, key) == without(b, key),
    decreases a.len(),
{
    if a.len() > 0 {
        let a0 = a.drop_last();
        let b0 = b.drop_last();
        assert forall|i: int| 0 <= i < a0.len() implies (#[trigger] a0[i]).0 == b0[i].0 by {
            assert(a0[i] == a[i] && b0[i] == b[i]);
        }
        assert forall|i: int| 0 <= i < a0.len() && (#[trigger] a0[i]).0 != key implies a0[i].1
            == b0[i].1 by {
            assert(a0[i] == a[i] && b0[i] == b[i]);
        }
        lemma_without_ignores_value(a0, b0, key);
        assert(a[a.len() - 1].0 == b[a.len() - 1].0);
        if a.last().0 != key {
            assert(a[a.len() - 1].1 == b[a.len() - 1].1);
            assert(a.last() == b.last());
        }
    }
}

impl Clone for Value {
    /// A copy of the document.
    fn clone(&self) -> (r: Value)
        ensures
            r@ == self@,
        decreases self,
    {
        match self {
            Value::Null => Value::Null,
            Value::Bool(b) => Value::Bool(*b),
            Value::Number(n) => Value::Number(n.clone()),
            Value::Text(s) => Value::Text(s.clone()),
            Value::Array(items) => {
                let mut out: Vec<Value> = Vec::new();
                let mut i: usize = 0;
                while i < items.len()
                    invariant
                        i <= items.len(),
                        forall|k: int|
                            0 <= k < items.len() ==> decreases_to!(self => #[trigger] items[k]),
                        out.len() == i,
                        forall|k: int| 0 <= k < i ==> (#[trigger] out[k])@ == items[k]@,
                    decreases items.len() - i,
                {
                    let c = items[i].clone();
                    out.push(c);
                    i += 1;
                }
                let r = Value::Array(out);
                proof {
                    assert(r@->Array_0 =~= self@->Array_0);
                }
                r
            },
            Value::Object(members) => {
                let mut out: Vec<(String, Value)> = Vec::new();
                let mut i: usize = 0;
                while i < members.len()
                    invariant
                        i <= members.len(),
                        forall|k: int|
                            0 <= k < members.len() ==> decreases_to!(self => (#[trigger] members[k]).1),
                        out.len() == i,
                        forall|k: int|
                            0 <= k < i ==> (#[trigger] out[k]).0@ == members[k].0@ && out[k].1@
                                == members[k].1@,
                    decreases members.len() - i,
                {
                    let key = members[i].0.clone();
                    let val = members[i].1.clone();
                    out.push((key, val));
                    i += 1;
                }
                let r = Value::Object(out);
                proof {
                    assert(r@->Object_0 =~= self@->Object_0);
                }
                r
            },
        }
    }
}

impl Value {
    /// The member `key` of an object; `None` for anything but an object. Where
    /// several members have that key, the first.
    pub fn get(&self, key: &str) -> (r: Option<&Value>)
        ensures
            r is Some == member(self@, key@) is Some,
            r is Some ==> r->0@ == member(self@, key@)->0,
    {
        match self {
            Value::Object(members) => {
                let ghost all = self@->Object_0;
                let mut i: usize = 0;
                proof {
                    assert(all.skip(0) =~= all);
                }
                while i < members.len()
                    invariant
                        i <= members.len(),
                        all.len() == members.len(),
                        forall|k: int|
                            0 <= k < members.len() ==> all[k] == ((#[trigger] members[k]).0@, members[k].1@),
                        self@ == Json::Object(all),
                        lookup(all, key@) == lookup(all.skip(i as int), key@),
                    decreases members.len() - i,
                {
                    proof {
                        assert(all.skip(i as int)[0] == all[i as int]);
                        assert(all.skip(i as int).drop_first() =~= all.skip(i + 1));
                    }
                    if str_eq(members[i].0.as_str(), key) {
                        return Some(&members[i].1);
                    }
                    i += 1;
                }
                None
            },
            _ => None,
        }
    }

    /// The text of a string value; `None` for anything else.
    pub fn as_text(&self) -> (r: Option<&String>)
        ensures
            match self@ {
                Json::Text(s) => r is Some && r->0@ == s,
                _ => r is None,
            },
    {
        match self {
            Value::Text(s) => Some(s),
            _ => None,
        }
    }
}

/// A copy of `v` without its members `key`, if it is an object; else a copy
/// of `v`.
pub fn remove_key(v: &Value, key: &str) -> (r: Value)
    ensures
        r@ == without_key(v@, key@),
{
    match v {
        Value::Object(members) => {
            let ghost all = v@->Object_0;
            let mut out: Vec<(String, Value)> = Vec::new();
            let mut i: usize = 0;
            proof {
                assert(member_views(out@) =~= without(all.take(0), key@));
            }
            while i < members.len()
                invariant
                    i <= members.len(),
                    all.len() == members.len(),
                    forall|k: int|
                        0 <= k < members.len() ==> all[k] == ((#[trigger] members[k]).0@, members[k].1@),
                    member_views(out@) == without(all.take(i as int), key@),
                decreases members.len() - i,
            {
                let ghost before = member_views(out@);
                proof {
                    assert(all.take(i + 1).drop_last() =~= all.take(i as int));
                    assert(all.take(i + 1).last() == all[i as int]);
                }
                if !str_eq(members[i].0.as_str(), key) {
                    let k = members[i].0.clone();
                    let val = members[i].1.clone();
                    out.push((k, val));
                    proof {
                        assert(member_views(out@) =~= before.push(all[i as int]));
                    }
                }
                i += 1;
            }
            let r = Value::Object(out);
            proof {
                assert(all.take(i as int) =~= all);
                assert(r@->Object_0 =~= member_views(out@));
            }
            r
        },
        _ => v.clone(),
    }
}

/// The text of the string member `key`; `None` where there is no such member
/// or it is no string.
pub open spec fn text_member(v: Json, key: Seq<char>) -> Option<Seq<char>> {
    match member(v, key) {
        Some(Json::Text(s)) => Some(s),
        _ => None,
    }
}

/// The member `key` where it is there and not `null`.
pub open spec fn present_member(v: Json, key: Seq<char>) -> Option<Json> {
    match member(v, key) {
        Some(Json::Null) => None,
        other => other,
    }
}

/// The text of the optional string member `key`: no text where the member is
/// missing or `null`; `None` where it is there and neither a string nor `null`.
pub open spec fn optional_text_member(v: Json, key: Seq<char>) -> Option<Option<Seq<char>>> {
    match present_member(v, key) {
        None => Some(None),
        Some(Json::Text(s)) => Some(Some(s)),
        Some(_) => None,
    }
}

impl Value {
    /// Whether this is an object.
    pub fn is_object(&self) -> (r: bool)
        ensures
            r == (self@ is Object),
    {
        match self {
            Value::Object(_) => true,
            _ => false,
        }
    }

    /// The member `key` where it is there and not `null`.
    pub fn get_present(&self, key: &str) -> (r: Option<&Value>)
        ensures
            r is Some == present_member(self@, key@) is Some,
            r is Some ==> r->0@ == present_member(self@, key@)->0,
    {
        match self.get(key) {
            Some(Value::Null) => None,
            other => other,
        }
    }

    /// A copy of the text of the string member `key`.
    pub fn get_text(&self, key: &str) -> (r: Option<String>)
        ensures
            r is Some == text_member(self@, key@) is Some,
            r is Some ==> r->0@ == text_member(self@, key@)->0,
    {
        match self.get(key) {
            Some(Value::Text(s)) => Some(s.clone()),
            _ => None,
        }
    }

    /// A copy of the text of the optional string member `key`.
    pub fn get_optional_text(&self, key: &str) -> (r: Option<Option<String>>)
        ensures
            r is Some == optional_text_member(self@, key@) is Some,
            r is Some ==> match r->0 {
                Some(s) => optional_text_member(self@, key@)->0 == Some(s@),
                None => optional_text_member(self@, key@)->0 is None,
            },
    {
        match self.get_present(key) {
            None => Some(None),
            Some(Value::Text(s)) => Some(Some(s.clone())),
            Some(_) => None,
        }
    }
}

/// The view of an optional string.
pub open spec fn text_view(t: Option<String>) -> Option<Seq<char>> {
    match t {
        Some(s) => Some(s@),
        None => None,
    }
}

/// A string, or `null` where there is none.
pub open spec fn text_or_null(t: Option<Seq<char>>) -> Json {
    match t {
        Some(s) => Json::Text(s),
        None => Json::Null,
    }
}

/// One member where there is a value, none where there is not.
pub open spec fn optional_member(key: Seq<char>, value: Option<Json>) -> Seq<(Seq<char>, Json)> {
    match value {
        Some(v) => seq![(key, v)],
        None => Seq::empty(),
    }
}

/// Adds the member `key` with `value` at the end of `members`.
pub fn put(members: &mut Vec<(String, Value)>, key: &str, value: Value)
    ensures
        member_views(final(members)@) == member_views(old(members)@).push((key@, value@)),
{
    members.push((key.to_owned(), value));
    proof {
        assert(member_views(members@) =~= member_views(old(members)@).push((key@, value@)));
    }
}

/// Adds the string member `key`.
pub fn put_text(members: &mut Vec<(String, Value)>, key: &str, value: &String)
    ensures
        member_views(final(members)@) == member_views(old(members)@).push(
            (key@, Json::Text(value@)),
        ),
{
    put(members, key, Value::Text(value.clone()));
}

/// Adds the member `key`: a string, or `null` where there is none.
pub fn put_text_or_null(members: &mut Vec<(String, Value)>, key: &str, value: &Option<String>)
    ensures
        member_views(final(members)@) == member_views(old(members)@).push(
            (key@, text_or_null(text_view(*value))),
        ),
{
    match value {
        Some(s) => put(members, key, Value::Text(s.clone())),
        None => put(members, key, Value::Null),
    }
}

/// The object with the given members.
pub fn object(members: Vec<(String, Value)>) -> (v: Value)
    ensures
        v@ == Json::Object(member_views(members@)),
{
    let v = Value::Object(members);
    proof {
        assert(v@->Object_0 =~= member_views(members@));
    }
    v
}

/// Removing two keys gives the same members whatever values those keys had.
pub proof fn lemma_without_pair_ignores_values(
    a: Seq<(Seq<char>, Json)>,
    b: Seq<(Seq<char>, Json)>,
    first: Seq<char>,
    second: Seq<char>,
)
    requires
        a.len() == b.len(),
        forall|i: int| 0 <= i < a.len() ==> (#[trigger] a[i]).0 == b[i].0,
        forall|i: int|
            0 <= i < a.len() && (#[trigger] a[i]).0 != first && a[i].0 != second ==> a[i].1
                == b[i].1,
    ensures
        without(without(a, first), second) == without(without(b, first), second),
    decreases a.len(),
{
    if a.len() > 0 {
        let a0 = a.drop_last();
        let b0 = b.drop_last();
        assert forall|i: int| 0 <= i < a0.len() implies (#[trigger] a0[i]).0 == b0[i].0 by {
            assert(a0[i] == a[i] && b0[i] == b[i]);
        }
        assert forall|i: int|
            0 <= i < a0.len() && (#[trigger] a0[i]).0 != first && a0[i].0 != second implies a0[i].1
                == b0[i].1 by {
            assert(a0[i] == a[i] && b0[i] == b[i]);
        }
        lemma_without_pair_ignores_values(a0, b0, first, second);
        assert(a[a.len() - 1].0 == b[a.len() - 1].0);
        if a.last().0 != first {
            let wa = without(a0, first);
            let wb = without(b0, first);
            assert(wa.push(a.last()).drop_last() =~= wa);
            assert(wb.push(b.last()).drop_last() =~= wb);
            if a.last().0 != second {
                assert(a[a.len() - 1].1 == b[a.len() - 1].1);
                assert(a.last() == b.last());
            }
        }
    }
}

/// The JSON array of a list of strings.
pub open spec fn texts_json(items: Seq<Seq<char>>) -> Json {
    Json::Array(Seq::new(items.len(), |i: int| Json::Text(items[i])))
}

/// The JSON array of `items`.
pub fn texts_to_json(items: &Vec<String>) -> (v: Value)
    ensures
        v@ == texts_json(views(items@)),
{
    let mut out: Vec<Value> = Vec::new();
    let mut i: usize = 0;
    while i < items.len()
        invariant
            i <= items.len(),
            out.len() == i,
            forall|k: int| 0 <= k < i ==> (#[trigger] out[k])@ == Json::Text(items[k]@),
        decreases items.len() - i,
    {
        out.push(Value::Text(items[i].clone()));
        i += 1;
    }
    let v = Value::Array(out);
    proof {
        assert(v@->Array_0 =~= texts_json(views(items@))->Array_0);
    }
    v
}

/// The decimal digit for `n`, for `0 <= n < 10`.
pub open spec fn decimal_digit(n: nat) -> char {
    (('0' as int) + n) as char
}

/// The decimal text of `n`, without leading zeros.
pub open spec fn decimal(n: nat) -> Seq<char>
    decreases n,
{
    if n < 10 {
        seq![decimal_digit(n)]
    } else {
        decimal(n / 10).push(decimal_digit(n % 10))
    }
}

/// The decimal text of `n`.
pub fn decimal_string(n: usize) -> (out: String)
    ensures
        out@ == decimal(n as nat),
    decreases n,
{
    let digit = (n % 10) as u8;
    let c = match digit {
        0 => '0',
        1 => '1',
        2 => '2',
        3 => '3',
        4 => '4',
        5 => '5',
        6 => '6',
        7 => '7',
        8 => '8',
        _ => '9',
    };
    assert(c == decimal_digit((n % 10) as nat));
    if n < 10 {
        let mut out = String::new();
        out.push(c);
        proof {
            assert(out@ =~= seq![decimal_digit(n as nat)]);
        }
        out
    } else {
        let mut out = decimal_string(n / 10);
        out.push(c);
        out
    }
}

} // verus!
