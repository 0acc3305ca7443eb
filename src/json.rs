//! A JSON value as the credential templates hold it, and the paths to its
//! leaves (the claims that selective disclosure can conceal).

use vstd::prelude::*;
use crate::text::same_text;

verus! {

/// A JSON value. An object lists its members in the order they were read.
#[derive(Debug)]
pub enum JsonValue {
    Null,
    Bool(bool),
    /// A number, in its textual form.
    Number(String),
    Str(String),
    Array(Vec<JsonValue>),
    Object(Vec<(String, JsonValue)>),
}

pub open spec fn digit_char(d: nat) -> char
    recommends
        d < 10,
{
    (('0' as u32) + d) as char
}

/// The decimal representation of `n`.
pub open spec fn decimal_text(n: nat) -> Seq<char>
    decreases n,
{
    if n < 10 {
        seq![digit_char(n)]
    } else {
        decimal_text(n / 10).push(digit_char(n % 10))
    }
}

/// The paths of the leaves of `j`, each `prefix` followed by one `/name`
/// for every member key or array index on the way, in document order.
/// Empty arrays and objects have no leaves.
pub open spec fn json_paths(j: JsonValue, prefix: Seq<char>) -> Seq<Seq<char>>
    decreases j, 0nat,
{
    match j {
        JsonValue::Array(items) => item_paths(items, prefix, items.len() as nat),
        JsonValue::Object(members) => member_paths(members, prefix, members.len() as nat),
        _ => seq![prefix],
    }
}

/// The leaf paths of the first `n` items of an array at `prefix`.
pub open spec fn item_paths(items: Vec<JsonValue>, prefix: Seq<char>, n: nat) -> Seq<Seq<char>>
    decreases items, n,
{
    if n == 0 || n > items.len() {
        Seq::empty()
    } else {
        item_paths(items, prefix, (n - 1) as nat) + json_paths(
            items[n - 1],
            prefix + seq!['/'] + decimal_text((n - 1) as nat),
        )
    }
}

/// The leaf paths of the first `n` members of an object at `prefix`.
pub open spec fn member_paths(members: Vec<(String, JsonValue)>, prefix: Seq<char>, n: nat) -> Seq<
    Seq<char>,
>
    decreases members, n,
{
    if n == 0 || n > members.len() {
        Seq::empty()
    } else {
        member_paths(members, prefix, (n - 1) as nat) + json_paths(
            members[n - 1].1,
            prefix + seq!['/'] + members[n - 1].0@,
        )
    }
}

pub open spec fn strings_view(v: Seq<String>) -> Seq<Seq<char>> {
    v.map_values(|s: String| s@)
}

fn digit_str(d: usize) -> (r: &'static str)
    requires
        d < 10,
    ensures
        r@ == seq![digit_char(d as nat)],
{
    proof {
        reveal_strlit("0");
        reveal_strlit("1");
        reveal_strlit("2");
        reveal_strlit("3");
        reveal_strlit("4");
        reveal_strlit("5");
        reveal_strlit("6");
        reveal_strlit("7");
        reveal_strlit("8");
        reveal_strlit("9");
    }
    let r = if d == 0 {
        "0"
    } else if d == 1 {
        "1"
    } else if d == 2 {
        "2"
    } else if d == 3 {
        "3"
    } else if d == 4 {
        "4"
    } else if d == 5 {
        "5"
    } else if d == 6 {
        "6"
    } else if d == 7 {
        "7"
    } else if d == 8 {
        "8"
    } else {
        "9"
    };
    assert(r@ =~= seq![digit_char(d as nat)]);
    r
}

/// Appends the decimal representation of `n`.
pub fn push_decimal(n: usize, out: &mut String)
    ensures
        final(out)@ == old(out)@ + decimal_text(n as nat),
    decreases n,
{
    if n >= 10 {
        push_decimal(n / 10, out);
    }
    out.append(digit_str(n % 10));
    assert(final(out)@ =~= old(out)@ + decimal_text(n as nat));
}

fn child_prefix(prefix: &str, name: &str) -> (r: String)
    ensures
        r@ == prefix@ + seq!['/'] + name@,
{
    let mut p = String::from_str(prefix);
    proof {
        reveal_strlit("/");
    }
    p.append("/");
    p.append(name);
    assert(p@ =~= prefix@ + seq!['/'] + name@);
    p
}

fn collect_paths(j: &JsonValue, prefix: &str, out: &mut Vec<String>)
    ensures
        strings_view(final(out)@) == strings_view(old(out)@) + json_paths(*j, prefix@),
    decreases j,
{
    match j {
        JsonValue::Array(items) => {
            let n = items.len();
            let mut i: usize = 0;
            assert(strings_view(out@) =~= strings_view(old(out)@) + item_paths(*items, prefix@, 0));
            while i < n
                invariant
                    n == items.len(),
                    i <= n,
                    *j == JsonValue::Array(*items),
                    strings_view(out@) == strings_view(old(out)@) + item_paths(*items, prefix@, i as nat),
                decreases n - i,
            {
                let mut p = child_prefix(prefix, "");
                proof {
                    reveal_strlit("");
                }
                push_decimal(i, &mut p);
                assert(p@ =~= prefix@ + seq!['/'] + decimal_text(i as nat));
                proof {
                    assert(decreases_to!(*j => j->Array_0));
                    assert(decreases_to!(j->Array_0 => j->Array_0[i as int]));
                }
                collect_paths(&items[i], p.as_str(), out);
                assert(strings_view(out@) =~= strings_view(old(out)@) + item_paths(
                    *items,
                    prefix@,
                    (i + 1) as nat,
                ));
                i = i + 1;
            }
        },
        JsonValue::Object(members) => {
            let n = members.len();
            let mut i: usize = 0;
            assert(strings_view(out@) =~= strings_view(old(out)@) + member_paths(*members, prefix@, 0));
            while i < n
                invariant
                    n == members.len(),
                    i <= n,
                    *j == JsonValue::Object(*members),
                    strings_view(out@) == strings_view(old(out)@) + member_paths(
                        *members,
                        prefix@,
                        i as nat,
                    ),
                decreases n - i,
            {
                let p = child_prefix(prefix, members[i].0.as_str());
                proof {
                    assert(decreases_to!(*j => j->Object_0));
                    assert(decreases_to!(j->Object_0 => j->Object_0[i as int]));
                    assert(decreases_to!(j->Object_0[i as int] => j->Object_0[i as int].1));
                }
                collect_paths(&members[i].1, p.as_str(), out);
                assert(strings_view(out@) =~= strings_view(old(out)@) + member_paths(
                    *members,
                    prefix@,
                    (i + 1) as nat,
                ));
                i = i + 1;
            }
        },
        _ => {
            out.push(String::from_str(prefix));
            assert(strings_view(final(out)@) =~= strings_view(old(out)@) + json_paths(*j, prefix@));
        },
    }
}

/// The paths of the leaves of `json` below `prefix`, in document order.
pub fn generate_json_paths(json: &JsonValue, prefix: &str) -> (r: Vec<String>)
    ensures
        strings_view(r@) == json_paths(*json, prefix@),
{
    let mut out: Vec<String> = Vec::new();
    collect_paths(json, prefix, &mut out);
    assert(strings_view(out@) =~= json_paths(*json, prefix@));
    out
}

fn contains_text(v: &Vec<String>, s: &String) -> (r: bool)
    ensures
        r == strings_view(v@).contains(s@),
{
    let n = v.len();
    let mut i: usize = 0;
    while i < n
        invariant
            n == v@.len(),
            i <= n,
            forall|k: int| 0 <= k < i ==> v@[k]@ != s@,
        decreases n - i,
    {
        if same_text(v[i].as_str(), s.as_str()) {
            assert(strings_view(v@)[i as int] == s@);
            return true;
        }
        i = i + 1;
    }
    assert(!strings_view(v@).contains(s@)) by {
        if strings_view(v@).contains(s@) {
            let k = choose|k: int| 0 <= k < strings_view(v@).len() && strings_view(v@)[k] == s@;
            assert(v@[k]@ == s@);
        }
    }
    false
}

fn all_contained(a: &Vec<String>, b: &Vec<String>) -> (r: bool)
    ensures
        r == strings_view(a@).to_set().subset_of(strings_view(b@).to_set()),
{
    let n = a.len();
    let mut i: usize = 0;
    while i < n
        invariant
            n == a@.len(),
            i <= n,
            forall|k: int| 0 <= k < i ==> strings_view(b@).contains(#[trigger] strings_view(a@)[k]),
        decreases n - i,
    {
        if !contains_text(b, &a[i]) {
            assert(strings_view(a@).to_set().contains(strings_view(a@)[i as int]));
            return false;
        }
        i = i + 1;
    }
    assert forall|x: Seq<char>| strings_view(a@).to_set().contains(x) implies strings_view(
        b@,
    ).to_set().contains(x) by {
        let k = choose|k: int| 0 <= k < strings_view(a@).len() && strings_view(a@)[k] == x;
    }
    true
}

/// Whether two values have the same set of leaf paths.
pub fn have_same_structure(json1: &JsonValue, json2: &JsonValue) -> (r: bool)
    ensures
        r == (json_paths(*json1, Seq::empty()).to_set() == json_paths(*json2, Seq::empty()).to_set()),
{
    proof {
        reveal_strlit("");
    }
    let p1 = generate_json_paths(json1, "");
    let p2 = generate_json_paths(json2, "");
    assert(""@ =~= Seq::<char>::empty());
    let r = all_contained(&p1, &p2) && all_contained(&p2, &p1);
    proof {
        let s1 = json_paths(*json1, Seq::empty()).to_set();
        let s2 = json_paths(*json2, Seq::empty()).to_set();
        if s1 == s2 {
            assert(s1.subset_of(s2) && s2.subset_of(s1));
        }
        if r {
            assert(s1 =~= s2);
        }
    }
    r
}

/// Why the holder's DID could not be added to a credential subject.
#[derive(Clone, Copy, Debug, PartialEq, Eq, Structural)]
pub enum SubjectError {
    /// The subject already names an `id`.
    IdPresent,
    /// The subject is not a JSON object.
    NotAnObject,
}

pub open spec fn has_key(members: Seq<(String, JsonValue)>, key: Seq<char>) -> bool {
    exists|k: int| 0 <= k < members.len() && (#[trigger] members[k]).0@ == key
}

/// `m2` is `m` followed by the member `"id": did`.
pub open spec fn with_holder_id(
    m: Seq<(String, JsonValue)>,
    m2: Seq<(String, JsonValue)>,
    did: Seq<char>,
) -> bool {
    &&& m2.len() == m.len() + 1
    &&& m2.take(m.len() as int) == m
    &&& m2.last().0@ == "id"@
    &&& match m2.last().1 {
        JsonValue::Str(s) => s@ == did,
        _ => false,
    }
}

/// Adds the member `"id": holder_did` to the credential subject `json`,
/// after its other members.
pub fn insert_holder_did(json: JsonValue, holder_did: &str) -> (r: Result<JsonValue, SubjectError>)
    ensures
        match json {
            JsonValue::Object(m) => if has_key(m@, "id"@) {
                r == Err::<JsonValue, SubjectError>(SubjectError::IdPresent)
            } else {
                match r {
                    Ok(JsonValue::Object(m2)) => with_holder_id(m@, m2@, holder_did@),
                    _ => false,
                }
            },
            _ => r == Err::<JsonValue, SubjectError>(SubjectError::NotAnObject),
        },
{
    match json {
        JsonValue::Object(mut members) => {
            let n = members.len();
            let mut i: usize = 0;
            while i < n
                invariant
                    n == members@.len(),
                    json == JsonValue::Object(members),
                    i <= n,
                    forall|k: int| 0 <= k < i ==> (#[trigger] members@[k]).0@ != "id"@,
                decreases n - i,
            {
                if same_text(members[i].0.as_str(), "id") {
                    assert((members@[i as int]).0@ == "id"@);
                    return Err(SubjectError::IdPresent);
                }
                i = i + 1;
            }
            let ghost before = members@;
            members.push((String::from_str("id"), JsonValue::Str(String::from_str(holder_did))));
            assert(members@.take(n as int) =~= before);
            Ok(JsonValue::Object(members))
        },
        _ => Err(SubjectError::NotAnObject),
    }
}

} // verus!
