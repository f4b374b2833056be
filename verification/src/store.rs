//! The stored record model: calendar, master event and exception rows as the
//! record source hands them over, and the validated URL type they carry.
use vstd::prelude::*;

verus! {

use vstd::string::StringSliceAdditionalSpecFns;

use crate::date::Date;
use crate::date::UnixTimestamp;
use crate::encode::bytes_eq;

// ---------------------------------------------------------------------------
// URLs
// ---------------------------------------------------------------------------

/// Error for a URL the store refuses: unparsable, a scheme other than http
/// or https, or embedded credentials.
#[derive(Clone, Copy, Debug, PartialEq, Eq, Structural)]
pub struct InvalidUrl;

impl InvalidUrl {
    /// The fixed message this error renders as.
    pub fn message(&self) -> (r: &'static str)
        ensures
            r@ == "Invalid short URL"@,
    {
        "Invalid short URL"
    }
}

/// What URL parsing yields, as validation reads it.
#[verifier::ext_equal]
pub ghost struct UrlPartsView {
    pub scheme: Seq<u8>,
    pub username: Seq<u8>,
    pub has_password: bool,
    pub serialized: Seq<u8>,
}

/// What parsing the given text as an absolute URL yields, if anything: its
/// scheme, username, whether a password is present, and its normalized
/// serialization.
pub uninterp spec fn url_parse(s: Seq<u8>) -> Option<UrlPartsView>;

/// The pieces of a parsed URL that validation reads.
pub struct UrlParts {
    pub scheme: Vec<u8>,
    pub username: Vec<u8>,
    pub has_password: bool,
    pub serialized: Vec<u8>,
}

impl View for UrlParts {
    type V = UrlPartsView;

    open spec fn view(&self) -> UrlPartsView {
        UrlPartsView {
            scheme: self.scheme@,
            username: self.username@,
            has_password: self.has_password,
            serialized: self.serialized@,
        }
    }
}

/// Relies on url::Url::parse and the accessors scheme, username, password
/// and as_str: the outcome is a function of the input text alone.
#[verifier::external_body]
fn parse_url(s: &str) -> (r: Option<UrlParts>)
    ensures
        (r is Some) == (url_parse(s.spec_bytes()) is Some),
        r matches Some(p) ==> p@ == url_parse(s.spec_bytes()).unwrap(),
{
    match url::Url::parse(s) {
        Ok(u) => Some(UrlParts {
            scheme: u.scheme().as_bytes().to_vec(),
            username: u.username().as_bytes().to_vec(),
            has_password: u.password().is_some(),
            serialized: u.as_str().as_bytes().to_vec(),
        }),
        Err(_) => None,
    }
}

/// Whether the text parses to a URL the store accepts: scheme http or https,
/// no username, no password.
pub open spec fn spec_url_ok(s: Seq<u8>) -> bool {
    match url_parse(s) {
        Some(p) => (p.scheme == "http".spec_bytes() || p.scheme == "https".spec_bytes())
            && !p.has_password && p.username.len() == 0,
        None => false,
    }
}

/// A validated http(s) URL without credentials, held in the normalized form
/// its parse yields.
#[derive(Clone, Debug)]
pub struct Url {
    serialized: Vec<u8>,
}

impl View for Url {
    type V = Seq<u8>;

    closed spec fn view(&self) -> Seq<u8> {
        self.serialized@
    }
}

impl DeepView for Url {
    type V = Seq<u8>;

    open spec fn deep_view(&self) -> Seq<u8> {
        self.view()
    }
}

impl Url {
    /// Validate `s`: accepted exactly when it parses with scheme http or
    /// https and carries neither username nor password; the accepted value
    /// holds the parse's normalized serialization.
    pub fn try_from(s: &str) -> (r: Result<Url, InvalidUrl>)
        ensures
            (r is Ok) == spec_url_ok(s.spec_bytes()),
            r matches Ok(u) ==> u@ == url_parse(s.spec_bytes()).unwrap().serialized,
    {
        match parse_url(s) {
            None => Err(InvalidUrl),
            Some(p) => {
                let is_http = bytes_eq(p.scheme.as_slice(), "http".as_bytes());
                let is_https = bytes_eq(p.scheme.as_slice(), "https".as_bytes());
                if (is_http || is_https) && !p.has_password && p.username.len() == 0 {
                    Ok(Url { serialized: p.serialized })
                } else {
                    Err(InvalidUrl)
                }
            },
        }
    }

    /// The normalized serialized bytes of this URL.
    pub fn to_bytes(&self) -> (r: Vec<u8>)
        ensures
            r@ == self@,
    {
        crate::encode::copy_bytes(&self.serialized)
    }
}

// ---------------------------------------------------------------------------
// Stored records
// ---------------------------------------------------------------------------

/// One stored calendar row.
#[derive(Clone, Debug)]
pub struct Calendar {
    pub id: u128,
    pub name: Vec<u8>,
    pub description: Option<Vec<u8>>,
    pub created_at: UnixTimestamp,
    pub last_modified: UnixTimestamp,
}

/// One stored master event row: a (possibly recurring) base activity.
#[derive(Debug)]
pub struct Event {
    pub id: u128,
    pub calendar_id: u128,
    pub summary: Vec<u8>,
    pub description: Option<Vec<u8>>,
    pub url: Option<Url>,
    pub dtstart_initial: Date,
    pub duration_days: u8,
    pub rrule: Option<Vec<u8>>,
    pub sequence: u32,
    pub created_at: UnixTimestamp,
    pub last_modified: UnixTimestamp,
}

/// The abstract value of one stored master event row.
#[verifier::ext_equal]
pub ghost struct EventV {
    pub id: u128,
    pub calendar_id: u128,
    pub summary: Seq<u8>,
    pub description: Option<Seq<u8>>,
    pub url: Option<Seq<u8>>,
    pub dtstart_initial: Date,
    pub duration_days: u8,
    pub rrule: Option<Seq<u8>>,
    pub sequence: u32,
    pub created_at: u64,
    pub last_modified: u64,
}

impl View for Event {
    type V = EventV;

    open spec fn view(&self) -> EventV {
        EventV {
            id: self.id,
            calendar_id: self.calendar_id,
            summary: self.summary@,
            description: self.description.deep_view(),
            url: self.url.deep_view(),
            dtstart_initial: self.dtstart_initial,
            duration_days: self.duration_days,
            rrule: self.rrule.deep_view(),
            sequence: self.sequence,
            created_at: self.created_at.0,
            last_modified: self.last_modified.0,
        }
    }
}

/// One stored exception row: alters or suppresses one occurrence of its
/// master event.
#[derive(Debug)]
pub struct EventException {
    pub id: u128,
    pub event_id: u128,
    pub original_date: Date,
    pub new_date: Option<Date>,
    pub new_summary: Option<Vec<u8>>,
    pub new_description: Option<Vec<u8>>,
}

/// The abstract value of one stored exception row.
#[verifier::ext_equal]
pub ghost struct EventExceptionV {
    pub id: u128,
    pub event_id: u128,
    pub original_date: Date,
    pub new_date: Option<Date>,
    pub new_summary: Option<Seq<u8>>,
    pub new_description: Option<Seq<u8>>,
}

impl View for EventException {
    type V = EventExceptionV;

    open spec fn view(&self) -> EventExceptionV {
        EventExceptionV {
            id: self.id,
            event_id: self.event_id,
            original_date: self.original_date,
            new_date: self.new_date,
            new_summary: self.new_summary.deep_view(),
            new_description: self.new_description.deep_view(),
        }
    }
}

} // verus!
