//! The records kept in the credential store: DIDs and credentials.

use vstd::prelude::*;
use chrono::{Datelike, Timelike};
use crate::json::{decimal_text, push_decimal};

verus! {

/// A date and time of day, as the store records it (no time zone).
#[derive(Clone, Copy, Debug, PartialEq, Eq, Structural)]
pub struct Timestamp {
    pub year: i32,
    pub month: u32,
    pub day: u32,
    pub hour: u32,
    pub minute: u32,
    pub second: u32,
}

/// The ranges of a calendar date and time of day: month 1 to 12, day 1 to
/// 31, hour 0 to 23, minute and second 0 to 59.
pub open spec fn is_valid_timestamp(t: Timestamp) -> bool {
    &&& 1 <= t.month <= 12
    &&& 1 <= t.day <= 31
    &&& t.hour <= 23
    &&& t.minute <= 59
    &&& t.second <= 59
}

/// The format in which the store writes timestamps.
pub const STORE_TIMESTAMP_FORMAT: &'static str = "%Y-%m-%d %H:%M:%S";

/// What chrono reads from `text` in the format `fmt`, if it is a valid
/// date and time in that format.
pub uninterp spec fn parsed_timestamp(text: Seq<char>, fmt: Seq<char>) -> Option<Timestamp>;

/// Relies on `chrono::NaiveDateTime::parse_from_str` and on the
/// `Datelike` / `Timelike` accessors of the value it returns, whose
/// documented ranges are those of `is_valid_timestamp`.
#[verifier::external_body]
fn parse_timestamp(text: &str, fmt: &str) -> (r: Option<Timestamp>)
    ensures
        r == parsed_timestamp(text@, fmt@),
        r matches Some(t) ==> is_valid_timestamp(t),
{
    chrono::NaiveDateTime::parse_from_str(text, fmt).ok().map(
        |t| Timestamp {
            year: t.year(),
            month: t.month(),
            day: t.day(),
            hour: t.hour(),
            minute: t.minute(),
            second: t.second(),
        },
    )
}

/// Why a stored row could not be read as a record.
#[derive(Clone, Copy, Debug, PartialEq, Eq, Structural)]
pub enum ModelError {
    /// The creation time is not in the store's timestamp format.
    BadTimestamp,
}

/// A stored DID.
#[derive(Clone, Debug)]
pub struct Did {
    id: i64,
    did: String,
    fragment: String,
    name: String,
    created_at: Timestamp,
}

impl Did {
    pub closed spec fn spec_id(&self) -> i64 {
        self.id
    }

    pub closed spec fn spec_did(&self) -> Seq<char> {
        self.did@
    }

    pub closed spec fn spec_fragment(&self) -> Seq<char> {
        self.fragment@
    }

    pub closed spec fn spec_name(&self) -> Seq<char> {
        self.name@
    }

    pub closed spec fn spec_created_at(&self) -> Timestamp {
        self.created_at
    }

    pub fn new(id: i64, did: String, fragment: String, name: String, created_at: Timestamp) -> (r: Did)
        ensures
            r.spec_id() == id,
            r.spec_did() == did@,
            r.spec_fragment() == fragment@,
            r.spec_name() == name@,
            r.spec_created_at() == created_at,
    {
        Did { id, did, fragment, name, created_at }
    }

    /// A record from the columns of a stored row; the creation time is text
    /// in the store's timestamp format.
    pub fn from_columns(id: i64, did: String, fragment: String, name: String, created_at: &str) -> (r:
        Result<Did, ModelError>)
        ensures
            parsed_timestamp(created_at@, STORE_TIMESTAMP_FORMAT@) is None ==> r == Err::<
                Did,
                ModelError,
            >(ModelError::BadTimestamp),
            parsed_timestamp(created_at@, STORE_TIMESTAMP_FORMAT@) matches Some(t) ==> r matches Ok(d)
                && d.spec_id() == id && d.spec_did() == did@ && d.spec_fragment() == fragment@
                && d.spec_name() == name@ && d.spec_created_at() == t,
            r matches Ok(d) ==> is_valid_timestamp(d.spec_created_at()),
    {
        match parse_timestamp(created_at, STORE_TIMESTAMP_FORMAT) {
            Some(t) => Ok(Did::new(id, did, fragment, name, t)),
            None => Err(ModelError::BadTimestamp),
        }
    }

    pub fn id(&self) -> (r: i64)
        ensures
            r == self.spec_id(),
    {
        self.id
    }

    pub fn did(&self) -> (r: &str)
        ensures
            r@ == self.spec_did(),
    {
        self.did.as_str()
    }

    pub fn fragment(&self) -> (r: &str)
        ensures
            r@ == self.spec_fragment(),
    {
        self.fragment.as_str()
    }

    pub fn name(&self) -> (r: &str)
        ensures
            r@ == self.spec_name(),
    {
        self.name.as_str()
    }

    pub fn created_at(&self) -> (r: Timestamp)
        ensures
            r == self.spec_created_at(),
    {
        self.created_at
    }
}

/// A stored credential, with its issuer and holder.
#[derive(Clone, Debug)]
pub struct Vc {
    id: i64,
    vc: String,
    tp: String,
    issuer: Did,
    holder: Did,
    sd: bool,
    created_at: Timestamp,
}

impl Vc {
    pub closed spec fn spec_id(&self) -> i64 {
        self.id
    }

    pub closed spec fn spec_vc(&self) -> Seq<char> {
        self.vc@
    }

    pub closed spec fn spec_tp(&self) -> Seq<char> {
        self.tp@
    }

    pub closed spec fn spec_issuer(&self) -> Did {
        self.issuer
    }

    pub closed spec fn spec_holder(&self) -> Did {
        self.holder
    }

    pub closed spec fn spec_sd(&self) -> bool {
        self.sd
    }

    pub closed spec fn spec_created_at(&self) -> Timestamp {
        self.created_at
    }

    pub fn new(
        id: i64,
        vc: String,
        tp: String,
        issuer: Did,
        holder: Did,
        sd: bool,
        created_at: Timestamp,
    ) -> (r: Vc)
        ensures
            r.spec_id() == id,
            r.spec_vc() == vc@,
            r.spec_tp() == tp@,
            r.spec_issuer() == issuer,
            r.spec_holder() == holder,
            r.spec_sd() == sd,
            r.spec_created_at() == created_at,
    {
        Vc { id, vc, tp, issuer, holder, sd, created_at }
    }

    /// A record from the columns of a stored row, with its issuer and holder
    /// already read; the creation time is text in the store's format.
    pub fn from_columns(
        id: i64,
        vc: String,
        tp: String,
        issuer: Did,
        holder: Did,
        sd: bool,
        created_at: &str,
    ) -> (r: Result<Vc, ModelError>)
        ensures
            parsed_timestamp(created_at@, STORE_TIMESTAMP_FORMAT@) is None ==> r == Err::<
                Vc,
                ModelError,
            >(ModelError::BadTimestamp),
            parsed_timestamp(created_at@, STORE_TIMESTAMP_FORMAT@) matches Some(t) ==> r matches Ok(v)
                && v.spec_id() == id && v.spec_vc() == vc@ && v.spec_tp() == tp@ && v.spec_issuer()
                == issuer && v.spec_holder() == holder && v.spec_sd() == sd && v.spec_created_at()
                == t,
            r matches Ok(v) ==> is_valid_timestamp(v.spec_created_at()),
    {
        match parse_timestamp(created_at, STORE_TIMESTAMP_FORMAT) {
            Some(t) => Ok(Vc::new(id, vc, tp, issuer, holder, sd, t)),
            None => Err(ModelError::BadTimestamp),
        }
    }

    pub fn id(&self) -> (r: i64)
        ensures
            r == self.spec_id(),
    {
        self.id
    }

    pub fn vc(&self) -> (r: &str)
        ensures
            r@ == self.spec_vc(),
    {
        self.vc.as_str()
    }

    pub fn tp(&self) -> (r: &str)
        ensures
            r@ == self.spec_tp(),
    {
        self.tp.as_str()
    }

    pub fn issuer(&self) -> (r: &Did)
        ensures
            *r == self.spec_issuer(),
    {
        &self.issuer
    }

    pub fn holder(&self) -> (r: &Did)
        ensures
            *r == self.spec_holder(),
    {
        &self.holder
    }

    pub fn sd(&self) -> (r: bool)
        ensures
            r == self.spec_sd(),
    {
        self.sd
    }

    pub fn created_at(&self) -> (r: Timestamp)
        ensures
            r == self.spec_created_at(),
    {
        self.created_at
    }
}

/// Characters kept at each end of a credential in the table.
pub const PREVIEW_EDGE: usize = 100;

/// A long credential shortened for the table: its first and last hundred
/// characters around `[.../n]`, where `n` counts the characters left out.
pub open spec fn jwt_preview_text(jwt: Seq<char>) -> Seq<char> {
    jwt.take(PREVIEW_EDGE as int) + " [.../"@ + decimal_text((jwt.len() - 2 * PREVIEW_EDGE) as nat)
        + "] "@ + jwt.skip(jwt.len() - PREVIEW_EDGE)
}

/// The shortened form of a credential of at least two hundred characters.
pub fn jwt_preview(jwt: &str) -> (r: String)
    requires
        jwt@.len() >= 2 * PREVIEW_EDGE,
    ensures
        r@ == jwt_preview_text(jwt@),
{
    let n = jwt.unicode_len();
    let mut r = String::from_str(jwt.substring_char(0, PREVIEW_EDGE));
    r.append(" [.../");
    push_decimal(n - 2 * PREVIEW_EDGE, &mut r);
    r.append("] ");
    r.append(jwt.substring_char(n - PREVIEW_EDGE, n));
    assert(r@ =~= jwt_preview_text(jwt@));
    r
}

} // verus!
