//! Encoded credential text: base64url segments, SD-JWT disclosures, and the
//! issuer and subject named in a JWT.

use vstd::prelude::*;
use vstd::utf8::{decode_utf8, encode_utf8, valid_utf8};
use base64::Engine;
use crate::text::same_text;
use crate::utils::{add_base64_padding, after_first, base64_padding, before_first, first_index_of};

verus! {

#[verifier::external_type_specification]
#[verifier::external_body]
pub struct ExBase64DecodeError(base64::DecodeError);

#[verifier::external_type_specification]
#[verifier::external_body]
pub struct ExJsonError(serde_json::Error);

#[verifier::external_type_specification]
#[verifier::external_body]
pub struct ExFromUtf8Error(std::string::FromUtf8Error);

/// What base64's URL-safe engine (with canonical padding) decodes from `s`.
pub uninterp spec fn base64_url_decoded(s: Seq<char>) -> Option<Seq<u8>>;

/// Relies on `base64::engine::general_purpose::URL_SAFE.decode`: the bytes
/// that the text encodes, or an error; either depends on the text alone.
#[verifier::external_body]
fn decode_url_safe(s: &str) -> (r: Result<Vec<u8>, base64::DecodeError>)
    ensures
        r is Ok <==> base64_url_decoded(s@) is Some,
        r is Ok ==> r->Ok_0@ == base64_url_decoded(s@)->Some_0,
{
    base64::engine::general_purpose::URL_SAFE.decode(s)
}

/// Relies on `String::from_utf8`: it succeeds exactly on valid UTF-8, with
/// the characters that the bytes encode.
#[verifier::external_body]
fn string_from_utf8(b: Vec<u8>) -> (r: Result<String, std::string::FromUtf8Error>)
    ensures
        r is Ok <==> valid_utf8(b@),
        r is Ok ==> r->Ok_0@ == decode_utf8(b@),
{
    String::from_utf8(b)
}

/// For bytes that parse as JSON: `Some` of the items of a top-level array,
/// each with its text where it is a string, or `None` for any other value.
/// `None` overall where the bytes are not JSON.
pub uninterp spec fn json_array_texts(b: Seq<u8>) -> Option<Option<Seq<Option<Seq<char>>>>>;

pub open spec fn opt_texts_view(v: Seq<Option<String>>) -> Seq<Option<Seq<char>>> {
    v.map_values(|o: Option<String>| if o is Some { Some(o->Some_0@) } else { None })
}

/// Relies on `serde_json::from_slice` into a `Value`; the items of a
/// top-level array are told apart by variant (strings keep their text).
#[verifier::external_body]
fn parse_json_array_texts(b: &[u8]) -> (r: Result<Option<Vec<Option<String>>>, serde_json::Error>)
    ensures
        r is Ok <==> json_array_texts(b@) is Some,
        r is Ok ==> (r->Ok_0 is Some <==> json_array_texts(b@)->Some_0 is Some),
        r matches Ok(Some(v)) ==> opt_texts_view(v@) == json_array_texts(b@)->Some_0->Some_0,
{
    match serde_json::from_slice::<serde_json::Value>(b) {
        Ok(serde_json::Value::Array(items)) => Ok(Some(items.into_iter().map(|x| match x {
            serde_json::Value::String(s) => Some(s),
            _ => None,
        }).collect())),
        Ok(_) => Ok(None),
        Err(e) => Err(e),
    }
}

/// For text that parses as JSON: `Some` of the members of a top-level object
/// in the order in which `serde_json` keeps them, each with its text where
/// it is a string, or `None` for any other value. `None` overall where the
/// text is not JSON.
pub uninterp spec fn json_object_texts(text: Seq<char>) -> Option<
    Option<Seq<(Seq<char>, Option<Seq<char>>)>>,
>;

pub open spec fn member_texts_view(v: Seq<(String, Option<String>)>) -> Seq<
    (Seq<char>, Option<Seq<char>>),
> {
    v.map_values(
        |m: (String, Option<String>)|
            (m.0@, if m.1 is Some {
                Some(m.1->Some_0@)
            } else {
                None
            }),
    )
}

/// Relies on `serde_json::from_str` into a `Value`; the members of a
/// top-level object are told apart by variant (strings keep their text).
#[verifier::external_body]
fn parse_json_object_texts(text: &str) -> (r: Result<Option<Vec<(String, Option<String>)>>, serde_json::Error>)
    ensures
        r is Ok <==> json_object_texts(text@) is Some,
        r is Ok ==> (r->Ok_0 is Some <==> json_object_texts(text@)->Some_0 is Some),
        r matches Ok(Some(v)) ==> member_texts_view(v@) == json_object_texts(text@)->Some_0->Some_0,
{
    match serde_json::from_str::<serde_json::Value>(text) {
        Ok(serde_json::Value::Object(members)) => Ok(Some(members.into_iter().map(|(k, v)| match v {
            serde_json::Value::String(s) => (k, Some(s)),
            _ => (k, None),
        }).collect())),
        Ok(_) => Ok(None),
        Err(e) => Err(e),
    }
}

/// The text of the first member named `key` whose value is a string.
pub open spec fn member_text(members: Seq<(Seq<char>, Option<Seq<char>>)>, key: Seq<char>) -> Option<
    Seq<char>,
>
    decreases members.len(),
{
    if members.len() == 0 {
        None
    } else if members[0].0 == key && members[0].1 is Some {
        members[0].1
    } else {
        member_text(members.drop_first(), key)
    }
}

/// The text of the first member named `key` whose value is a string.
pub fn find_member_text(members: &Vec<(String, Option<String>)>, key: &str) -> (r: Option<String>)
    ensures
        r is Some <==> member_text(member_texts_view(members@), key@) is Some,
        r is Some ==> r->Some_0@ == member_text(member_texts_view(members@), key@)->Some_0,
{
    let ghost all = member_texts_view(members@);
    let n = members.len();
    let mut i: usize = 0;
    assert(all.subrange(0, n as int) =~= all);
    while i < n
        invariant
            n == members@.len(),
            all == member_texts_view(members@),
            i <= n,
            member_text(all, key@) == member_text(all.subrange(i as int, n as int), key@),
        decreases n - i,
    {
        assert(all.subrange(i as int, n as int).drop_first() =~= all.subrange(i + 1, n as int));
        if same_text(members[i].0.as_str(), key) {
            match &members[i].1 {
                Some(t) => {
                    return Some(t.clone());
                },
                None => {},
            }
        }
        i = i + 1;
    }
    None
}

/// Why encoded credential text could not be read.
#[derive(Clone, Copy, Debug, PartialEq, Eq, Structural)]
pub enum EncodingError {
    /// A JWT does not have exactly three `.`-separated parts.
    InvalidJwt,
    InvalidBase64,
    InvalidUtf8,
    InvalidJson,
    /// The JWT payload has no string `iss` claim.
    MissingIssuer,
    /// The JWT payload has no string `sub` claim.
    MissingSubject,
}

/// `s` followed by the padding that makes its UTF-8 length a multiple of four.
pub open spec fn padded(s: Seq<char>) -> Seq<char> {
    s + Seq::new(base64_padding(encode_utf8(s).len()), |_i: int| '=')
}

/// The text that a base64url segment encodes.
pub open spec fn decoded_text(s: Seq<char>) -> Result<Seq<char>, EncodingError> {
    let b = base64_url_decoded(padded(s));
    if b is None {
        Err(EncodingError::InvalidBase64)
    } else if !valid_utf8(b->Some_0) {
        Err(EncodingError::InvalidUtf8)
    } else {
        Ok(decode_utf8(b->Some_0))
    }
}

/// Decodes a base64url segment (padding it first) into UTF-8 text.
pub fn decode_base64(encoded: &str) -> (r: Result<String, EncodingError>)
    ensures
        match decoded_text(encoded@) {
            Ok(t) => r matches Ok(s) && s@ == t,
            Err(e) => r == Err::<String, EncodingError>(e),
        },
{
    let p = add_base64_padding(encoded);
    match decode_url_safe(p.as_str()) {
        Err(_) => Err(EncodingError::InvalidBase64),
        Ok(bytes) => match string_from_utf8(bytes) {
            Err(_) => Err(EncodingError::InvalidUtf8),
            Ok(s) => Ok(s),
        },
    }
}

/// The claim name in the items of a disclosure array: its second item,
/// where there is one and it is a string.
pub open spec fn disclosure_key(items: Seq<Option<Seq<char>>>) -> Option<Seq<char>> {
    if items.len() > 1 && items[1] is Some {
        items[1]
    } else {
        None
    }
}

/// The claim name held by the items of a disclosure array, if any.
pub fn disclosure_key_of(items: &Vec<Option<String>>) -> (r: Option<String>)
    ensures
        r is Some <==> disclosure_key(opt_texts_view(items@)) is Some,
        r is Some ==> r->Some_0@ == disclosure_key(opt_texts_view(items@))->Some_0,
{
    if items.len() > 1 {
        match &items[1] {
            Some(key) => Some(key.clone()),
            None => None,
        }
    } else {
        None
    }
}

/// The claim names of the first `n` disclosures: for each, the second item
/// of the JSON array that it encodes, where that item is a string. A
/// disclosure that does not encode an array with such an item adds nothing.
pub open spec fn disclosure_keys(d: Seq<String>, n: nat) -> Result<Seq<Seq<char>>, EncodingError>
    decreases n,
{
    if n == 0 || n > d.len() {
        Ok(Seq::empty())
    } else {
        match disclosure_keys(d, (n - 1) as nat) {
            Err(e) => Err(e),
            Ok(keys) => {
                let s = d[n - 1];
                let b = base64_url_decoded(padded(s@));
                if b is None {
                    Err(EncodingError::InvalidBase64)
                } else {
                    let j = json_array_texts(b->Some_0);
                    if j is None {
                        Err(EncodingError::InvalidJson)
                    } else if j->Some_0 is Some && disclosure_key(j->Some_0->Some_0) is Some {
                        Ok(keys.push(disclosure_key(j->Some_0->Some_0)->Some_0))
                    } else {
                        Ok(keys)
                    }
                }
            },
        }
    }
}

proof fn lemma_disclosure_error_persists(d: Seq<String>, k: nat, n: nat)
    requires
        k <= n <= d.len(),
        disclosure_keys(d, k) is Err,
    ensures
        disclosure_keys(d, n) == disclosure_keys(d, k),
    decreases n - k,
{
    if k < n {
        lemma_disclosure_error_persists(d, k, (n - 1) as nat);
    }
}

/// The claim names of SD-JWT disclosures (see `disclosure_keys`).
pub fn extract_disclosure_keys(disclosures: &Vec<String>) -> (r: Result<Vec<String>, EncodingError>)
    ensures
        match disclosure_keys(disclosures@, disclosures@.len()) {
            Ok(keys) => r matches Ok(v) && v@.map_values(|s: String| s@) == keys,
            Err(e) => r == Err::<Vec<String>, EncodingError>(e),
        },
{
    let n = disclosures.len();
    let mut keys: Vec<String> = Vec::new();
    let mut i: usize = 0;
    assert(keys@.map_values(|s: String| s@) =~= Seq::<Seq<char>>::empty());
    while i < n
        invariant
            n == disclosures@.len(),
            i <= n,
            disclosure_keys(disclosures@, i as nat) == Ok::<Seq<Seq<char>>, EncodingError>(
                keys@.map_values(|s: String| s@),
            ),
        decreases n - i,
    {
        let p = add_base64_padding(disclosures[i].as_str());
        let bytes = match decode_url_safe(p.as_str()) {
            Ok(b) => b,
            Err(_) => {
                proof {
                    lemma_disclosure_error_persists(disclosures@, (i + 1) as nat, n as nat);
                }
                return Err(EncodingError::InvalidBase64);
            },
        };
        match parse_json_array_texts(bytes.as_slice()) {
            Err(_) => {
                proof {
                    lemma_disclosure_error_persists(disclosures@, (i + 1) as nat, n as nat);
                }
                return Err(EncodingError::InvalidJson);
            },
            Ok(Some(items)) => match disclosure_key_of(&items) {
                Some(key) => {
                    keys.push(key);
                },
                None => {},
            },
            Ok(None) => {},
        }
        assert(keys@.map_values(|s: String| s@) =~= disclosure_keys(
            disclosures@,
            (i + 1) as nat,
        )->Ok_0);
        i = i + 1;
    }
    Ok(keys)
}

/// How many times `c` occurs in `s`.
pub open spec fn count_char(s: Seq<char>, c: char) -> nat
    decreases s.len(),
{
    if s.len() == 0 {
        0
    } else {
        count_char(s.drop_last(), c) + if s.last() == c {
            1nat
        } else {
            0nat
        }
    }
}

/// The payload segment of a JWT: the text between its first and second `.`.
pub open spec fn jwt_payload(s: Seq<char>) -> Seq<char> {
    before_first(after_first(s, '.'), '.')
}

/// The issuer and subject named in a JWT, or why they could not be read.
pub open spec fn jwt_entities(s: Seq<char>) -> Result<(Seq<char>, Seq<char>), EncodingError> {
    if count_char(s, '.') != 2 {
        Err(EncodingError::InvalidJwt)
    } else {
        let p = jwt_payload(s);
        match decoded_text(p) {
            Err(e) => Err(e),
            Ok(t) => {
                let j = json_object_texts(t);
                if j is None {
                    Err(EncodingError::InvalidJson)
                } else {
                    let members = if j->Some_0 is Some {
                        j->Some_0->Some_0
                    } else {
                        Seq::empty()
                    };
                    let iss = member_text(members, "iss"@);
                    let sub = member_text(members, "sub"@);
                    if iss is None {
                        Err(EncodingError::MissingIssuer)
                    } else if sub is None {
                        Err(EncodingError::MissingSubject)
                    } else {
                        Ok((iss->Some_0, sub->Some_0))
                    }
                }
            },
        }
    }
}

fn count_dots(s: &str) -> (r: usize)
    ensures
        r == count_char(s@, '.'),
{
    let n = s.unicode_len();
    let mut k: usize = 0;
    let mut i: usize = 0;
    assert(s@.subrange(0, 0) =~= Seq::<char>::empty());
    while i < n
        invariant
            n == s@.len(),
            i <= n,
            k == count_char(s@.subrange(0, i as int), '.'),
            k <= i,
        decreases n - i,
    {
        assert(s@.subrange(0, i + 1).drop_last() =~= s@.subrange(0, i as int));
        if s.get_char(i) == '.' {
            k = k + 1;
        }
        i = i + 1;
    }
    assert(s@.subrange(0, n as int) =~= s@);
    k
}

/// The issuer (`iss`) and subject (`sub`) claims of a JWT's payload.
pub fn get_entities_from_jwt(jwt: &String) -> (r: Result<(String, String), EncodingError>)
    ensures
        match jwt_entities(jwt@) {
            Ok((iss, sub)) => r matches Ok((a, b)) && a@ == iss && b@ == sub,
            Err(e) => r == Err::<(String, String), EncodingError>(e),
        },
{
    let s = jwt.as_str();
    if count_dots(s) != 2 {
        return Err(EncodingError::InvalidJwt);
    }
    let n = s.unicode_len();
    let i = first_index_of(s, '.');
    assert(i < s@.len()) by {
        if i == s@.len() {
            lemma_no_char_count(s@, '.');
        }
    }
    let rest = s.substring_char(i + 1, n);
    let j = first_index_of(rest, '.');
    let payload = rest.substring_char(0, j);
    let text = match decode_base64(payload) {
        Ok(t) => t,
        Err(e) => {
            return Err(e);
        },
    };
    let members: Vec<(String, Option<String>)> = match parse_json_object_texts(text.as_str()) {
        Err(_) => {
            return Err(EncodingError::InvalidJson);
        },
        Ok(Some(m)) => m,
        Ok(None) => {
            let none: Vec<(String, Option<String>)> = Vec::new();
            assert(member_texts_view(none@) =~= Seq::empty());
            none
        },
    };
    let iss = match find_member_text(&members, "iss") {
        None => {
            return Err(EncodingError::MissingIssuer);
        },
        Some(v) => v,
    };
    let sub = match find_member_text(&members, "sub") {
        None => {
            return Err(EncodingError::MissingSubject);
        },
        Some(v) => v,
    };
    Ok((iss, sub))
}

proof fn lemma_no_char_count(s: Seq<char>, c: char)
    requires
        forall|k: int| 0 <= k < s.len() ==> s[k] != c,
    ensures
        count_char(s, c) == 0,
    decreases s.len(),
{
    if s.len() > 0 {
        lemma_no_char_count(s.drop_last(), c);
    }
}

} // verus!
