//! The garbage-collection calendar: waste fractions with their pickup dates,
//! the disposal address they belong to, and the calendar document generated
//! from them.
use vstd::prelude::*;

verus! {

use vstd::string::StringSliceAdditionalSpecFns;
use vstd::string::StrSliceExecFns;
use vstd::utf8::encode_utf8;

use crate::date::Date;
use crate::date::UnixTimestamp;
use crate::date::add_days;
use crate::date::date_compact;
use crate::date::date_dashed;
use crate::date::now_timestamp;
use crate::date::spec_add_days;
use crate::date::spec_date_compact;
use crate::date::spec_date_dashed;
use crate::date::spec_dec;
use crate::date::spec_utc_stamp;
use crate::date::spec_weekday;
use crate::date::spec_weekday_name;
use crate::date::u64_dec;
use crate::date::weekday;
use crate::encode::append_bytes;
use crate::encode::escape_spec;
use crate::encode::escape_text;
use crate::encode::render_spec;
use crate::uid::spec_uuid_text;
use crate::uid::uuid_text;
use crate::uid::uuid_v5;
use crate::uid::uuid_v5_of;

/// The fixed namespace that stable event identities are derived in.
pub const UID_NAMESPACE: u128 = 0x769d988a_38ee_48b1_908c_5d58c0982349;

// ---------------------------------------------------------------------------
// Addresses
// ---------------------------------------------------------------------------

/// A possible error when reading an address.
#[derive(Debug)]
pub struct InvalidAddress(&'static str);

impl View for InvalidAddress {
    type V = Seq<char>;

    closed spec fn view(&self) -> Seq<char> {
        self.0@
    }
}

impl InvalidAddress {
    /// The stored message.
    pub fn message(&self) -> (r: &'static str)
        ensures
            r@ == self@,
    {
        self.0
    }
}

/// A street address pickups are looked up for.
#[derive(Debug)]
pub struct DisposalAddress(String);

impl View for DisposalAddress {
    type V = Seq<char>;

    closed spec fn view(&self) -> Seq<char> {
        self.0@
    }
}

impl DisposalAddress {
    /// Wrap the given text; every text is a valid address.
    pub fn from_text(s: &str) -> (r: Self)
        ensures
            r@ == s@,
    {
        DisposalAddress(s.to_owned())
    }

    /// The address bytes.
    pub fn to_bytes(&self) -> (r: Vec<u8>)
        ensures
            r@ == encode_utf8(self@),
    {
        self.0.as_str().as_bytes_vec()
    }
}

// ---------------------------------------------------------------------------
// Waste fractions
// ---------------------------------------------------------------------------

/// The waste kinds the collection service distinguishes, with a fallback for
/// kinds this library does not know.
#[derive(Debug, Clone, PartialEq, Eq)]
pub enum WasteFraction {
    FoodWaste,
    PlasticPackaging,
    GlassMetal,
    PaperCardboard,
    ResidualWaste,
    Unknown(String, String),
}

impl WasteFraction {
    /// Classify a fraction by the identifier the service uses for it.
    pub fn from_api(id: &str, name: &str) -> (r: Self)
        ensures
            ({
                let idb = id.spec_bytes();
                if idb == ("1111").spec_bytes() {
                    r == WasteFraction::FoodWaste
                } else if idb == ("4").spec_bytes() {
                    r == WasteFraction::PlasticPackaging
                } else if idb == ("5").spec_bytes() {
                    r == WasteFraction::GlassMetal
                } else if idb == ("1222").spec_bytes() {
                    r == WasteFraction::PaperCardboard
                } else if idb == ("9992").spec_bytes() {
                    r == WasteFraction::ResidualWaste
                } else {
                    r matches WasteFraction::Unknown(a, b) && a@ == id@ && b@ == name@
                }
            }),
    {
        let idb = id.as_bytes();
        if crate::encode::bytes_eq(idb, "1111".as_bytes()) {
            WasteFraction::FoodWaste
        } else if crate::encode::bytes_eq(idb, "4".as_bytes()) {
            WasteFraction::PlasticPackaging
        } else if crate::encode::bytes_eq(idb, "5".as_bytes()) {
            WasteFraction::GlassMetal
        } else if crate::encode::bytes_eq(idb, "1222".as_bytes()) {
            WasteFraction::PaperCardboard
        } else if crate::encode::bytes_eq(idb, "9992".as_bytes()) {
            WasteFraction::ResidualWaste
        } else {
            WasteFraction::Unknown(id.to_owned(), name.to_owned())
        }
    }

    /// The identifier the service uses for this fraction.
    pub fn get_id(&self) -> (r: String)
        ensures
            match self {
                WasteFraction::FoodWaste => r@ == "1111"@,
                WasteFraction::PlasticPackaging => r@ == "4"@,
                WasteFraction::GlassMetal => r@ == "5"@,
                WasteFraction::PaperCardboard => r@ == "1222"@,
                WasteFraction::ResidualWaste => r@ == "9992"@,
                WasteFraction::Unknown(a, _) => r@ == a@,
            },
    {
        match self {
            WasteFraction::FoodWaste => "1111".to_owned(),
            WasteFraction::PlasticPackaging => "4".to_owned(),
            WasteFraction::GlassMetal => "5".to_owned(),
            WasteFraction::PaperCardboard => "1222".to_owned(),
            WasteFraction::ResidualWaste => "9992".to_owned(),
            WasteFraction::Unknown(a, _) => a.clone(),
        }
    }

    /// The display name used in event summaries; an unknown fraction shows
    /// its identifier.
    pub fn name(&self) -> (r: String)
        ensures
            match self {
                WasteFraction::FoodWaste => r@ == "Matavfall"@,
                WasteFraction::PlasticPackaging => r@ == "Plastemballasje"@,
                WasteFraction::GlassMetal => r@ == "Glass- og metallemballasje"@,
                WasteFraction::PaperCardboard => r@ == "Papp/papir"@,
                WasteFraction::ResidualWaste => r@ == "Restavfall"@,
                WasteFraction::Unknown(a, _) => r@ == a@,
            },
    {
        match self {
            WasteFraction::FoodWaste => "Matavfall".to_owned(),
            WasteFraction::PlasticPackaging => "Plastemballasje".to_owned(),
            WasteFraction::GlassMetal => "Glass- og metallemballasje".to_owned(),
            WasteFraction::PaperCardboard => "Papp/papir".to_owned(),
            WasteFraction::ResidualWaste => "Restavfall".to_owned(),
            WasteFraction::Unknown(a, _) => a.clone(),
        }
    }

    /// The icon shown before the display name.
    pub fn icon(&self) -> (r: &'static str)
        ensures
            match self {
                WasteFraction::FoodWaste => r@ == "🍌"@,
                WasteFraction::PlasticPackaging => r@ == "♻️"@,
                WasteFraction::GlassMetal => r@ == "🥫"@,
                WasteFraction::PaperCardboard => r@ == "🧃"@,
                WasteFraction::ResidualWaste => r@ == "🗑️"@,
                WasteFraction::Unknown(_, _) => r@ == "❓"@,
            },
    {
        match self {
            WasteFraction::FoodWaste => "🍌",
            WasteFraction::PlasticPackaging => "♻️",
            WasteFraction::GlassMetal => "🥫",
            WasteFraction::PaperCardboard => "🧃",
            WasteFraction::ResidualWaste => "🗑️",
            WasteFraction::Unknown(_, _) => "❓",
        }
    }
}

/// One fraction as the service reports it: identifier, name, pickup
/// frequency in weeks, and the pickup dates.
#[derive(Debug)]
pub struct GarbageFraction {
    pub fraction_id: String,
    pub fraction_name: String,
    pub frequency: u8,
    pub dates: Vec<Date>,
}

/// The abstract value of one reported fraction.
#[verifier::ext_equal]
pub ghost struct GarbageFractionV {
    pub fraction_id: Seq<char>,
    pub fraction_name: Seq<char>,
    pub frequency: u8,
    pub dates: Seq<Date>,
}

impl View for GarbageFraction {
    type V = GarbageFractionV;

    open spec fn view(&self) -> GarbageFractionV {
        GarbageFractionV {
            fraction_id: self.fraction_id@,
            fraction_name: self.fraction_name@,
            frequency: self.frequency,
            dates: self.dates@,
        }
    }
}

impl DeepView for GarbageFraction {
    type V = GarbageFractionV;

    open spec fn deep_view(&self) -> GarbageFractionV {
        self.view()
    }
}

/// The icon bytes a fraction identifier selects.
pub open spec fn spec_icon_bytes(id: Seq<char>) -> Seq<u8> {
    if encode_utf8(id) == ("1111").spec_bytes() {
        ("🍌").spec_bytes()
    } else if encode_utf8(id) == ("4").spec_bytes() {
        ("♻️").spec_bytes()
    } else if encode_utf8(id) == ("5").spec_bytes() {
        ("🥫").spec_bytes()
    } else if encode_utf8(id) == ("1222").spec_bytes() {
        ("🧃").spec_bytes()
    } else if encode_utf8(id) == ("9992").spec_bytes() {
        ("🗑️").spec_bytes()
    } else {
        ("❓").spec_bytes()
    }
}

/// The display-name bytes a fraction identifier selects; an unknown
/// identifier shows itself.
pub open spec fn spec_display_name_bytes(id: Seq<char>) -> Seq<u8> {
    if encode_utf8(id) == ("1111").spec_bytes() {
        ("Matavfall").spec_bytes()
    } else if encode_utf8(id) == ("4").spec_bytes() {
        ("Plastemballasje").spec_bytes()
    } else if encode_utf8(id) == ("5").spec_bytes() {
        ("Glass- og metallemballasje").spec_bytes()
    } else if encode_utf8(id) == ("1222").spec_bytes() {
        ("Papp/papir").spec_bytes()
    } else if encode_utf8(id) == ("9992").spec_bytes() {
        ("Restavfall").spec_bytes()
    } else {
        encode_utf8(id)
    }
}

// ---------------------------------------------------------------------------
// The calendar
// ---------------------------------------------------------------------------

/// A garbage-collection calendar: the reported fractions, the optional
/// creation instant, and the address they were looked up for.
#[derive(Debug)]
pub struct Calendar {
    fractions: Vec<GarbageFraction>,
    created: Option<UnixTimestamp>,
    address: DisposalAddress,
}

/// The abstract value of a garbage-collection calendar.
#[verifier::ext_equal]
pub ghost struct GarbageCalendarV {
    pub fractions: Seq<GarbageFractionV>,
    pub created: Option<u64>,
    pub address: Seq<char>,
}

impl View for Calendar {
    type V = GarbageCalendarV;

    closed spec fn view(&self) -> GarbageCalendarV {
        GarbageCalendarV {
            fractions: self.fractions.deep_view(),
            created: match self.created {
                Some(t) => Some(t.0),
                None => None,
            },
            address: self.address@,
        }
    }
}

impl GarbageCalendarV {
    /// Every pickup date valid, with a year small enough for date
    /// arithmetic.
    pub open spec fn wf(self) -> bool {
        forall|i: int, j: int|
            0 <= i < self.fractions.len() && 0 <= j < self.fractions[i].dates.len() ==> {
                let d = #[trigger] self.fractions[i].dates[j];
                d.wf() && d.year < 0x1_0000_0000
            }
    }
}

/// The summary text of one pickup, before escaping: icon, display name,
/// Norwegian weekday, day of month and a closing stop.
pub open spec fn spec_summary_bytes(id: Seq<char>, d: Date) -> Seq<u8> {
    spec_icon_bytes(id) + seq![32u8] + spec_display_name_bytes(id) + seq![32u8] + encode_utf8(
        spec_weekday_name(spec_weekday(d)),
    ) + seq![32u8] + spec_dec(d.day as int) + seq![46u8]
}

/// The name bytes a stable identity is derived from: address, pickup date
/// and fraction identifier, dash-separated.
pub open spec fn spec_uid_input(addr: Seq<char>, d: Date, id: Seq<char>) -> Seq<u8> {
    encode_utf8(addr) + seq![45u8] + spec_date_dashed(d) + seq![45u8] + encode_utf8(id)
}

/// The opening lines of one pickup event, through its identity.
pub open spec fn spec_entry_front(addr: Seq<char>, id: Seq<char>, d: Date, ts: int) -> Seq<u8> {
    render_spec(("BEGIN:VEVENT").spec_bytes()) + render_spec(
        ("DTEND;VALUE=DATE:").spec_bytes() + spec_date_compact(spec_add_days(d, 1)),
    ) + render_spec(("DTSTAMP:").spec_bytes() + spec_utc_stamp(ts)) + render_spec(
        ("DTSTART;VALUE=DATE:").spec_bytes() + spec_date_compact(d),
    ) + render_spec(("SUMMARY:").spec_bytes() + escape_spec(spec_summary_bytes(id, d)))
        + render_spec(("TRANSP:TRANSPARENT").spec_bytes()) + render_spec(
        ("UID:").spec_bytes() + spec_uuid_text(uuid_v5_of(UID_NAMESPACE, spec_uid_input(addr, d, id))),
    )
}

/// The closing lines of one pickup event: the revision counter where a
/// creation instant exists, the service link, and the reminder alarm.
pub open spec fn spec_entry_back(created: Option<u64>) -> Seq<u8> {
    (match created {
        Some(t) => render_spec(("SEQUENCE:").spec_bytes() + spec_dec(t as int)),
        None => Seq::<u8>::empty(),
    }) + render_spec(("URL:https://innherredrenovasjon.no/tommeplan/").spec_bytes()) + render_spec(
        ("BEGIN:VALARM").spec_bytes(),
    ) + render_spec(("ACTION:DISPLAY").spec_bytes()) + render_spec(
        ("DESCRIPTION:3 dager til søppel").spec_bytes(),
    ) + render_spec(("TRIGGER:-P3D").spec_bytes()) + render_spec(("END:VALARM").spec_bytes())
        + render_spec(("END:VEVENT").spec_bytes())
}

/// The wire bytes of one pickup event.
pub open spec fn spec_entry_bytes(
    addr: Seq<char>,
    id: Seq<char>,
    d: Date,
    created: Option<u64>,
    ts: int,
) -> Seq<u8> {
    spec_entry_front(addr, id, d, ts) + spec_entry_back(created)
}

/// The wire bytes of one fraction's pickups, in date order.
pub open spec fn spec_fraction_bytes(
    addr: Seq<char>,
    id: Seq<char>,
    ds: Seq<Date>,
    created: Option<u64>,
    ts: int,
) -> Seq<u8>
    decreases ds.len(),
{
    if ds.len() == 0 {
        Seq::empty()
    } else {
        spec_entry_bytes(addr, id, ds[0], created, ts) + spec_fraction_bytes(
            addr,
            id,
            ds.skip(1),
            created,
            ts,
        )
    }
}

/// The wire bytes of every fraction's pickups, in report order.
pub open spec fn spec_fractions_bytes(
    addr: Seq<char>,
    fs: Seq<GarbageFractionV>,
    created: Option<u64>,
    ts: int,
) -> Seq<u8>
    decreases fs.len(),
{
    if fs.len() == 0 {
        Seq::empty()
    } else {
        spec_fraction_bytes(addr, fs[0].fraction_id, fs[0].dates, created, ts)
            + spec_fractions_bytes(addr, fs.skip(1), created, ts)
    }
}

/// The whole garbage-collection document for one run stamped at `ts`.
pub open spec fn spec_garbage_doc(c: GarbageCalendarV, ts: int) -> Seq<u8> {
    render_spec(("BEGIN:VCALENDAR").spec_bytes()) + render_spec(("VERSION:2.0").spec_bytes())
        + render_spec(("PRODID:-//Aasan//Aasan Innherred Renovasjon//EN").spec_bytes())
        + render_spec(("CALSCALE:GREGORIAN").spec_bytes()) + render_spec(
        ("METHOD:PUBLISH").spec_bytes(),
    ) + spec_fractions_bytes(c.address, c.fractions, c.created, ts) + render_spec(
        ("END:VCALENDAR").spec_bytes(),
    )
}

/// The total number of pickups over a run of fractions.
pub open spec fn spec_count(fs: Seq<GarbageFractionV>) -> int
    decreases fs.len(),
{
    if fs.len() == 0 {
        0
    } else {
        fs[0].dates.len() + spec_count(fs.skip(1))
    }
}

impl Calendar {
    /// A calendar over the given fractions for the given address, stamped
    /// with the given creation instant where one is known.
    pub fn new(
        fractions: Vec<GarbageFraction>,
        address: DisposalAddress,
        created: Option<UnixTimestamp>,
    ) -> (r: Self)
        ensures
            r@.fractions == fractions.deep_view(),
            r@.address == address@,
            r@.created == (match created {
                Some(t) => Some(t.0),
                None => None::<u64>,
            }),
    {
        Calendar { fractions, created, address }
    }

    /// How many pickups the calendar holds in all.
    pub fn count(&self) -> (r: usize)
        requires
            spec_count(self@.fractions) <= usize::MAX,
        ensures
            r == spec_count(self@.fractions),
    {
        let ghost fs = self@.fractions;
        let mut acc: usize = 0;
        let mut i: usize = 0;
        proof {
            assert(fs.skip(0) =~= fs);
        }
        while i < self.fractions.len()
            invariant
                i <= fs.len(),
                self.fractions@.len() == fs.len(),
                fs == self@.fractions,
                spec_count(fs) <= usize::MAX,
                acc + spec_count(fs.skip(i as int)) == spec_count(fs),
            decreases fs.len() - i,
        {
            proof {
                assert(self.fractions.deep_view()[i as int] == self.fractions@[i as int].deep_view());
                assert(fs.skip(i as int)[0] == fs[i as int]);
                assert(fs.skip(i as int).skip(1) =~= fs.skip(i as int + 1));
                lemma_count_nonneg(fs.skip(i as int + 1));
            }
            acc = acc + self.fractions[i].dates.len();
            i = i + 1;
        }
        proof {
            assert(fs.skip(fs.len() as int) =~= Seq::<GarbageFractionV>::empty());
        }
        acc
    }
}

proof fn lemma_count_nonneg(fs: Seq<GarbageFractionV>)
    ensures
        spec_count(fs) >= 0,
    decreases fs.len(),
{
    if fs.len() > 0 {
        lemma_count_nonneg(fs.skip(1));
    }
}

fn build_summary(
    icon_bytes: &Vec<u8>,
    name_bytes: &Vec<u8>,
    d: Date,
    Ghost(id): Ghost<Seq<char>>,
)  -> (r: Vec<u8>)
    requires
        d.wf(),
        d.year < 0x1_0000_0000,
        icon_bytes@ == spec_icon_bytes(id),
        name_bytes@ == spec_display_name_bytes(id),
    ensures
        r@ == spec_summary_bytes(id, d),
{
    let wd = weekday(&d);
    let mut summary: Vec<u8> = Vec::new();
    append_bytes(&mut summary, icon_bytes.as_slice());
    summary.push(32);
    append_bytes(&mut summary, name_bytes.as_slice());
    summary.push(32);
    append_bytes(&mut summary, wd.as_bytes());
    summary.push(32);
    let day_digits = u64_dec(d.day as u64);
    append_bytes(&mut summary, day_digits.as_slice());
    summary.push(46);
    proof {
        assert(summary@ =~= spec_summary_bytes(id, d));
    }
    summary
}

fn build_uid_input(addr_bytes: &Vec<u8>, id_bytes: &Vec<u8>, d: Date, Ghost(addr): Ghost<
    Seq<char>,
>, Ghost(id): Ghost<Seq<char>>) -> (r: Vec<u8>)
    requires
        d.wf(),
        addr_bytes@ == encode_utf8(addr),
        id_bytes@ == encode_utf8(id),
    ensures
        r@ == spec_uid_input(addr, d, id),
{
    let mut uinput: Vec<u8> = Vec::new();
    append_bytes(&mut uinput, addr_bytes.as_slice());
    uinput.push(45);
    let dashed = date_dashed(&d);
    append_bytes(&mut uinput, dashed.as_slice());
    uinput.push(45);
    append_bytes(&mut uinput, id_bytes.as_slice());
    proof {
        assert(uinput@ =~= spec_uid_input(addr, d, id));
    }
    uinput
}

fn emit_entry_front(
    out: &mut Vec<u8>,
    addr_bytes: &Vec<u8>,
    id_bytes: &Vec<u8>,
    icon_bytes: &Vec<u8>,
    name_bytes: &Vec<u8>,
    d: Date,
    stamp: &Vec<u8>,
    Ghost(addr): Ghost<Seq<char>>,
    Ghost(id): Ghost<Seq<char>>,
    Ghost(ts): Ghost<int>,
)
    requires
        d.wf(),
        d.year < 0x1_0000_0000,
        addr_bytes@ == encode_utf8(addr),
        id_bytes@ == encode_utf8(id),
        icon_bytes@ == spec_icon_bytes(id),
        name_bytes@ == spec_display_name_bytes(id),
        stamp@ == spec_utc_stamp(ts),
    ensures
        final(out)@ == old(out)@ + spec_entry_front(addr, id, d, ts),
{
    let ghost orig = out@;
    let summary = build_summary(icon_bytes, name_bytes, d, Ghost(id));
    let uinput = build_uid_input(addr_bytes, id_bytes, d, Ghost(addr), Ghost(id));
    let u = uuid_v5(UID_NAMESPACE, uinput.as_slice());
    let uid_txt = crate::uid::uuid_text(u);
    crate::serialize::emit_text(out, "BEGIN:VEVENT");
    let dend = date_compact(&add_days(d, 1));
    crate::serialize::emit_prefixed(out, "DTEND;VALUE=DATE:", dend.as_slice());
    crate::serialize::emit_prefixed(out, "DTSTAMP:", stamp.as_slice());
    let dstart = date_compact(&d);
    crate::serialize::emit_prefixed(out, "DTSTART;VALUE=DATE:", dstart.as_slice());
    let esc = escape_text(summary.as_slice());
    crate::serialize::emit_prefixed(out, "SUMMARY:", esc.as_slice());
    crate::serialize::emit_text(out, "TRANSP:TRANSPARENT");
    crate::serialize::emit_prefixed(out, "UID:", uid_txt.as_slice());
    proof {
        assert(out@ =~= orig + spec_entry_front(addr, id, d, ts));
    }
}

fn emit_entry_back(out: &mut Vec<u8>, seq_payload: &Option<Vec<u8>>, Ghost(created): Ghost<
    Option<u64>,
>)
    requires
        match (seq_payload, created) {
            (Some(p), Some(t)) => p@ == spec_dec(t as int),
            (None, None) => true,
            _ => false,
        },
    ensures
        final(out)@ == old(out)@ + spec_entry_back(created),
{
    let ghost orig = out@;
    match seq_payload {
        Some(p) => {
            crate::serialize::emit_prefixed(out, "SEQUENCE:", p.as_slice());
        },
        None => {},
    }
    crate::serialize::emit_text(out, "URL:https://innherredrenovasjon.no/tommeplan/");
    crate::serialize::emit_text(out, "BEGIN:VALARM");
    crate::serialize::emit_text(out, "ACTION:DISPLAY");
    crate::serialize::emit_text(out, "DESCRIPTION:3 dager til søppel");
    crate::serialize::emit_text(out, "TRIGGER:-P3D");
    crate::serialize::emit_text(out, "END:VALARM");
    crate::serialize::emit_text(out, "END:VEVENT");
    proof {
        assert(out@ =~= orig + spec_entry_back(created));
    }
}

fn emit_entry(
    out: &mut Vec<u8>,
    addr_bytes: &Vec<u8>,
    id_bytes: &Vec<u8>,
    icon_bytes: &Vec<u8>,
    name_bytes: &Vec<u8>,
    d: Date,
    seq_payload: &Option<Vec<u8>>,
    stamp: &Vec<u8>,
    Ghost(addr): Ghost<Seq<char>>,
    Ghost(id): Ghost<Seq<char>>,
    Ghost(created): Ghost<Option<u64>>,
    Ghost(ts): Ghost<int>,
)
    requires
        d.wf(),
        d.year < 0x1_0000_0000,
        addr_bytes@ == encode_utf8(addr),
        id_bytes@ == encode_utf8(id),
        icon_bytes@ == spec_icon_bytes(id),
        name_bytes@ == spec_display_name_bytes(id),
        stamp@ == spec_utc_stamp(ts),
        match (seq_payload, created) {
            (Some(p), Some(t)) => p@ == spec_dec(t as int),
            (None, None) => true,
            _ => false,
        },
    ensures
        final(out)@ == old(out)@ + spec_entry_bytes(addr, id, d, created, ts),
{
    let ghost orig = out@;
    emit_entry_front(out, addr_bytes, id_bytes, icon_bytes, name_bytes, d, stamp, Ghost(addr), Ghost(id), Ghost(ts));
    emit_entry_back(out, seq_payload, Ghost(created));
    proof {
        assert(out@ =~= orig + spec_entry_bytes(addr, id, d, created, ts));
    }
}

fn emit_fraction(
    out: &mut Vec<u8>,
    f: &GarbageFraction,
    addr_bytes: &Vec<u8>,
    seq_payload: &Option<Vec<u8>>,
    stamp: &Vec<u8>,
    Ghost(addr): Ghost<Seq<char>>,
    Ghost(created): Ghost<Option<u64>>,
    Ghost(ts): Ghost<int>,
)
    requires
        forall|j: int|
            0 <= j < f@.dates.len() ==> {
                let d = #[trigger] f@.dates[j];
                d.wf() && d.year < 0x1_0000_0000
            },
        addr_bytes@ == encode_utf8(addr),
        stamp@ == spec_utc_stamp(ts),
        match (seq_payload, created) {
            (Some(p), Some(t)) => p@ == spec_dec(t as int),
            (None, None) => true,
            _ => false,
        },
    ensures
        final(out)@ == old(out)@ + spec_fraction_bytes(addr, f@.fraction_id, f@.dates, created, ts),
{
    let ghost orig = out@;
    let ghost id = f@.fraction_id;
    let kind = WasteFraction::from_api(f.fraction_id.as_str(), f.fraction_name.as_str());
    let icon_bytes = kind.icon().as_bytes_vec();
    let kind_name = kind.name();
    let name_bytes = kind_name.as_str().as_bytes_vec();
    let id_bytes = f.fraction_id.as_str().as_bytes_vec();
    proof {
        assert(icon_bytes@ == spec_icon_bytes(id));
        assert(name_bytes@ == spec_display_name_bytes(id));
    }
    let ghost ds = f@.dates;
    proof {
        assert(ds.skip(0) =~= ds);
    }
    let mut j: usize = 0;
    while j < f.dates.len()
        invariant
            j <= ds.len(),
            f.dates@.len() == ds.len(),
            ds == f@.dates,
            forall|k: int|
                0 <= k < ds.len() ==> {
                    let d = #[trigger] ds[k];
                    d.wf() && d.year < 0x1_0000_0000
                },
            addr_bytes@ == encode_utf8(addr),
            id_bytes@ == encode_utf8(id),
            icon_bytes@ == spec_icon_bytes(id),
            name_bytes@ == spec_display_name_bytes(id),
            stamp@ == spec_utc_stamp(ts),
            match (seq_payload, created) {
                (Some(p), Some(t)) => p@ == spec_dec(t as int),
                (None, None) => true,
                _ => false,
            },
            orig + spec_fraction_bytes(addr, id, ds, created, ts) == out@ + spec_fraction_bytes(
                addr,
                id,
                ds.skip(j as int),
                created,
                ts,
            ),
        decreases ds.len() - j,
    {
        let d: Date = f.dates[j];
        emit_entry(
            out,
            addr_bytes,
            &id_bytes,
            &icon_bytes,
            &name_bytes,
            d,
            seq_payload,
            stamp,
            Ghost(addr),
            Ghost(id),
            Ghost(created),
            Ghost(ts),
        );
        proof {
            assert(ds.skip(j as int)[0] == ds[j as int]);
            assert(ds.skip(j as int).skip(1) =~= ds.skip(j as int + 1));
        }
        j = j + 1;
    }
    proof {
        assert(ds.skip(ds.len() as int) =~= Seq::<Date>::empty());
    }
}

impl Calendar {
    /// Serialize this calendar to its byte-exact text document. With a known
    /// creation instant the document is a function of the calendar alone;
    /// without one, the current instant stamps it.
    pub fn to_bytes(&self) -> (r: Vec<u8>)
        requires
            self@.wf(),
        ensures
            self@.created matches Some(t) ==> r@ == spec_garbage_doc(self@, t as int),
            self@.created is None ==> exists|t: u64| r@ == spec_garbage_doc(self@, t as int),
    {
        let ts: UnixTimestamp = match &self.created {
            Some(t) => *t,
            None => now_timestamp(),
        };
        let seq_payload: Option<Vec<u8>> = match &self.created {
            Some(t) => Some(u64_dec(t.0)),
            None => None,
        };
        let stamp = ts.format_utc();
        let addr_bytes = self.address.to_bytes();
        let ghost addr = self@.address;
        let ghost created = self@.created;
        let ghost fs = self@.fractions;
        let mut out: Vec<u8> = Vec::new();
        crate::serialize::emit_text(&mut out, "BEGIN:VCALENDAR");
        crate::serialize::emit_text(&mut out, "VERSION:2.0");
        crate::serialize::emit_text(&mut out, "PRODID:-//Aasan//Aasan Innherred Renovasjon//EN");
        crate::serialize::emit_text(&mut out, "CALSCALE:GREGORIAN");
        crate::serialize::emit_text(&mut out, "METHOD:PUBLISH");
        let ghost header = out@;
        proof {
            assert(fs.skip(0) =~= fs);
        }
        let mut i: usize = 0;
        while i < self.fractions.len()
            invariant
                i <= fs.len(),
                self.fractions@.len() == fs.len(),
                fs == self@.fractions,
                self@.wf(),
                addr == self@.address,
                created == self@.created,
                addr_bytes@ == encode_utf8(addr),
                stamp@ == spec_utc_stamp(ts.0 as int),
                match (seq_payload, created) {
                    (Some(p), Some(t)) => p@ == spec_dec(t as int),
                    (None, None) => true,
                    _ => false,
                },
                header + spec_fractions_bytes(addr, fs, created, ts.0 as int) == out@
                    + spec_fractions_bytes(addr, fs.skip(i as int), created, ts.0 as int),
            decreases fs.len() - i,
        {
            proof {
                assert(self.fractions.deep_view()[i as int] == self.fractions@[i as int].deep_view());
                assert(fs.skip(i as int)[0] == fs[i as int]);
            }
            emit_fraction(
                &mut out,
                &self.fractions[i],
                &addr_bytes,
                &seq_payload,
                &stamp,
                Ghost(addr),
                Ghost(created),
                Ghost(ts.0 as int),
            );
            proof {
                assert(fs.skip(i as int).skip(1) =~= fs.skip(i as int + 1));
            }
            i = i + 1;
        }
        proof {
            assert(fs.skip(fs.len() as int) =~= Seq::<GarbageFractionV>::empty());
        }
        crate::serialize::emit_text(&mut out, "END:VCALENDAR");
        proof {
            assert(out@ =~= spec_garbage_doc(self@, ts.0 as int));
            if created is None {
                assert(exists|t: u64| out@ == spec_garbage_doc(self@, t as int)) by {
                    assert(out@ == spec_garbage_doc(self@, ts.0 as int));
                }
            }
        }
        out
    }
}

} // verus!
