//! Reading back what ingest stored: lookup results, owner search hits and run
//! status, and how each is printed.

use vstd::prelude::*;

use crate::model::{
    decode_status_code, decode_status_code_spec, decode_type_aircraft, decode_type_aircraft_spec,
    decode_type_engine, decode_type_engine_spec, decode_type_registrant,
    decode_type_registrant_spec,
};
use crate::text::{
    all_ascii, ascii_lower_text, char_is_white, chars_of, is_ascii_char, is_white,
    lower_ascii_vec, push_all, push_signed_decimal, push_str, signed_decimal, text_of, trim_vec,
    trim_white, CharClass,
};
use crate::{canonical_n_number, canonical_n_number_spec, is_mode_s_hex, looks_like_mode_s_hex};

verus! {

/// One version (SCD row) of an aircraft registration, with its make/model names when known.
#[derive(Debug, Clone)]
pub struct AircraftVersion {
    pub n_number: String,
    pub serial_number: String,
    pub mfr_mdl_code: String,
    pub eng_mfr_mdl: String,
    pub year_mfr: String,
    pub type_registrant: String,
    pub owner_name: String,
    pub street: String,
    pub street2: String,
    pub city: String,
    pub state: String,
    pub zip_code: String,
    pub country: String,
    pub status_code: String,
    pub mode_s_hex: String,
    pub icao24: String,
    pub other_names: String,
    pub cert_issue_date: String,
    pub expiration_date: String,
    pub type_aircraft: String,
    pub type_engine: String,
    pub valid_from: String,
    pub valid_to: Option<String>,
    pub is_current: bool,
    pub aircraft_mfr: Option<String>,
    pub aircraft_model: Option<String>,
    pub engine_mfr: Option<String>,
    pub engine_model: Option<String>,
}

pub struct AircraftVersionView {
    pub n_number: Seq<char>,
    pub serial_number: Seq<char>,
    pub mfr_mdl_code: Seq<char>,
    pub eng_mfr_mdl: Seq<char>,
    pub year_mfr: Seq<char>,
    pub type_registrant: Seq<char>,
    pub owner_name: Seq<char>,
    pub street: Seq<char>,
    pub street2: Seq<char>,
    pub city: Seq<char>,
    pub state: Seq<char>,
    pub zip_code: Seq<char>,
    pub country: Seq<char>,
    pub status_code: Seq<char>,
    pub mode_s_hex: Seq<char>,
    pub icao24: Seq<char>,
    pub other_names: Seq<char>,
    pub cert_issue_date: Seq<char>,
    pub expiration_date: Seq<char>,
    pub type_aircraft: Seq<char>,
    pub type_engine: Seq<char>,
    pub valid_from: Seq<char>,
    pub valid_to: Option<Seq<char>>,
    pub is_current: bool,
    pub aircraft_mfr: Option<Seq<char>>,
    pub aircraft_model: Option<Seq<char>>,
    pub engine_mfr: Option<Seq<char>>,
    pub engine_model: Option<Seq<char>>,
}

impl View for AircraftVersion {
    type V = AircraftVersionView;

    open spec fn view(&self) -> AircraftVersionView {
        AircraftVersionView {
            n_number: self.n_number@,
            serial_number: self.serial_number@,
            mfr_mdl_code: self.mfr_mdl_code@,
            eng_mfr_mdl: self.eng_mfr_mdl@,
            year_mfr: self.year_mfr@,
            type_registrant: self.type_registrant@,
            owner_name: self.owner_name@,
            street: self.street@,
            street2: self.street2@,
            city: self.city@,
            state: self.state@,
            zip_code: self.zip_code@,
            country: self.country@,
            status_code: self.status_code@,
            mode_s_hex: self.mode_s_hex@,
            icao24: self.icao24@,
            other_names: self.other_names@,
            cert_issue_date: self.cert_issue_date@,
            expiration_date: self.expiration_date@,
            type_aircraft: self.type_aircraft@,
            type_engine: self.type_engine@,
            valid_from: self.valid_from@,
            valid_to: opt_text(self.valid_to),
            is_current: self.is_current,
            aircraft_mfr: opt_text(self.aircraft_mfr),
            aircraft_model: opt_text(self.aircraft_model),
            engine_mfr: opt_text(self.engine_mfr),
            engine_model: opt_text(self.engine_model),
        }
    }
}

/// One version of a deregistration record.
#[derive(Debug, Clone)]
pub struct DeregVersion {
    pub n_number: String,
    pub owner_name: String,
    pub cancel_date: String,
    pub export_country: String,
    pub status_code: String,
    pub serial_number: String,
    pub valid_from: String,
    pub valid_to: Option<String>,
    pub is_current: bool,
}

pub struct DeregVersionView {
    pub n_number: Seq<char>,
    pub owner_name: Seq<char>,
    pub cancel_date: Seq<char>,
    pub export_country: Seq<char>,
    pub status_code: Seq<char>,
    pub serial_number: Seq<char>,
    pub valid_from: Seq<char>,
    pub valid_to: Option<Seq<char>>,
    pub is_current: bool,
}

impl View for DeregVersion {
    type V = DeregVersionView;

    open spec fn view(&self) -> DeregVersionView {
        DeregVersionView {
            n_number: self.n_number@,
            owner_name: self.owner_name@,
            cancel_date: self.cancel_date@,
            export_country: self.export_country@,
            status_code: self.status_code@,
            serial_number: self.serial_number@,
            valid_from: self.valid_from@,
            valid_to: opt_text(self.valid_to),
            is_current: self.is_current,
        }
    }
}

/// One recorded document about an aircraft.
#[derive(Debug, Clone)]
pub struct DocumentHit {
    pub document_id: String,
    pub type_collateral: String,
    pub collateral: String,
    pub party_name: String,
    pub receipt_date: String,
    pub doc_type: String,
    pub serial_id: String,
}

pub struct DocumentHitView {
    pub document_id: Seq<char>,
    pub type_collateral: Seq<char>,
    pub collateral: Seq<char>,
    pub party_name: Seq<char>,
    pub receipt_date: Seq<char>,
    pub doc_type: Seq<char>,
    pub serial_id: Seq<char>,
}

impl View for DocumentHit {
    type V = DocumentHitView;

    open spec fn view(&self) -> DocumentHitView {
        DocumentHitView {
            document_id: self.document_id@,
            type_collateral: self.type_collateral@,
            collateral: self.collateral@,
            party_name: self.party_name@,
            receipt_date: self.receipt_date@,
            doc_type: self.doc_type@,
            serial_id: self.serial_id@,
        }
    }
}

/// One current registration whose owner matches a search.
#[derive(Debug, Clone)]
pub struct OwnerHit {
    pub n_number: String,
    pub owner_name: String,
    pub city: String,
    pub state: String,
    pub mfr: Option<String>,
    pub model: Option<String>,
    pub status_code: String,
}

pub struct OwnerHitView {
    pub n_number: Seq<char>,
    pub owner_name: Seq<char>,
    pub city: Seq<char>,
    pub state: Seq<char>,
    pub mfr: Option<Seq<char>>,
    pub model: Option<Seq<char>>,
    pub status_code: Seq<char>,
}

impl View for OwnerHit {
    type V = OwnerHitView;

    open spec fn view(&self) -> OwnerHitView {
        OwnerHitView {
            n_number: self.n_number@,
            owner_name: self.owner_name@,
            city: self.city@,
            state: self.state@,
            mfr: opt_text(self.mfr),
            model: opt_text(self.model),
            status_code: self.status_code@,
        }
    }
}

/// One row of `ingest_runs`.
#[derive(Debug, Clone)]
pub struct IngestStatus {
    pub id: i64,
    pub as_of_date: Option<String>,
    pub started_at: String,
    pub finished_at: Option<String>,
    pub source: String,
    pub zip_hash: Option<String>,
    pub master_rows: Option<i64>,
    pub new_rows: Option<i64>,
    pub changed_rows: Option<i64>,
    pub closed_rows: Option<i64>,
    pub unchanged_rows: Option<i64>,
    pub skipped_rows: Option<i64>,
    pub dereg_new: Option<i64>,
    pub dereg_changed: Option<i64>,
    pub dereg_closed: Option<i64>,
    pub documents_inserted: Option<i64>,
    pub dealer_rows: Option<i64>,
    pub reserved_rows: Option<i64>,
    pub status: String,
    pub error: Option<String>,
}

pub struct IngestStatusView {
    pub id: i64,
    pub as_of_date: Option<Seq<char>>,
    pub started_at: Seq<char>,
    pub finished_at: Option<Seq<char>>,
    pub source: Seq<char>,
    pub zip_hash: Option<Seq<char>>,
    pub master_rows: Option<i64>,
    pub new_rows: Option<i64>,
    pub changed_rows: Option<i64>,
    pub closed_rows: Option<i64>,
    pub unchanged_rows: Option<i64>,
    pub skipped_rows: Option<i64>,
    pub dereg_new: Option<i64>,
    pub dereg_changed: Option<i64>,
    pub dereg_closed: Option<i64>,
    pub documents_inserted: Option<i64>,
    pub dealer_rows: Option<i64>,
    pub reserved_rows: Option<i64>,
    pub status: Seq<char>,
    pub error: Option<Seq<char>>,
}

impl View for IngestStatus {
    type V = IngestStatusView;

    open spec fn view(&self) -> IngestStatusView {
        IngestStatusView {
            id: self.id,
            as_of_date: opt_text(self.as_of_date),
            started_at: self.started_at@,
            finished_at: opt_text(self.finished_at),
            source: self.source@,
            zip_hash: opt_text(self.zip_hash),
            master_rows: self.master_rows,
            new_rows: self.new_rows,
            changed_rows: self.changed_rows,
            closed_rows: self.closed_rows,
            unchanged_rows: self.unchanged_rows,
            skipped_rows: self.skipped_rows,
            dereg_new: self.dereg_new,
            dereg_changed: self.dereg_changed,
            dereg_closed: self.dereg_closed,
            documents_inserted: self.documents_inserted,
            dealer_rows: self.dealer_rows,
            reserved_rows: self.reserved_rows,
            status: self.status@,
            error: opt_text(self.error),
        }
    }
}

pub open spec fn opt_text(o: Option<String>) -> Option<Seq<char>> {
    match o {
        Some(s) => Some(s@),
        None => None,
    }
}

/// Everything that `lookup` shows for one N-number.
#[derive(Debug, Clone)]
pub struct LookupResult {
    pub n_number: String,
    pub current: Option<AircraftVersion>,
    pub history: Vec<AircraftVersion>,
    pub deregistered: Vec<DeregVersion>,
    pub documents: Vec<DocumentHit>,
}

pub struct LookupResultView {
    pub n_number: Seq<char>,
    pub current: Option<AircraftVersionView>,
    pub history: Seq<AircraftVersionView>,
    pub deregistered: Seq<DeregVersionView>,
    pub documents: Seq<DocumentHitView>,
}

impl View for LookupResult {
    type V = LookupResultView;

    open spec fn view(&self) -> LookupResultView {
        LookupResultView {
            n_number: self.n_number@,
            current: match self.current {
                Some(c) => Some(c@),
                None => None,
            },
            history: self.history@.map_values(|v: AircraftVersion| v@),
            deregistered: self.deregistered@.map_values(|v: DeregVersion| v@),
            documents: self.documents@.map_values(|v: DocumentHit| v@),
        }
    }
}

/// `-` for an empty text.
pub open spec fn or_dash(s: Seq<char>) -> Seq<char> {
    if s.len() == 0 {
        "-"@
    } else {
        s
    }
}

pub open spec fn opt_or(o: Option<Seq<char>>, d: Seq<char>) -> Seq<char> {
    match o {
        Some(s) => s,
        None => d,
    }
}

pub open spec fn fmt_opt_text(v: Option<i64>) -> Seq<char> {
    match v {
        Some(n) => signed_decimal(n as int),
        None => "-"@,
    }
}

fn empty<'a>(s: &'a str) -> (r: &'a str)
    ensures
        r@ == or_dash(s@),
{
    if s.is_empty() {
        "-"
    } else {
        s
    }
}

fn fmt_opt(v: Option<i64>) -> (r: String)
    ensures
        r@ == fmt_opt_text(v),
{
    match v {
        Some(n) => {
            let mut out: Vec<char> = Vec::new();
            push_signed_decimal(&mut out, n);
            assert(out@ =~= signed_decimal(n as int));
            text_of(out.as_slice())
        },
        None => text_of(chars_of("-").as_slice()),
    }
}

fn push_opt_or(out: &mut Vec<char>, o: &Option<String>, d: &str)
    ensures
        final(out)@ == old(out)@ + opt_or(opt_text(*o), d@),
{
    match o {
        Some(s) => push_str(out, s.as_str()),
        None => push_str(out, d),
    }
}

/// `mfr model` when both are known and the maker is not empty.
pub open spec fn known_make(mfr: Option<Seq<char>>, model: Option<Seq<char>>) -> bool {
    mfr is Some && model is Some && mfr->0.len() > 0
}

/// The aircraft or engine make shown for a registration: names when known, else the code.
pub open spec fn make_text(
    mfr: Option<Seq<char>>,
    model: Option<Seq<char>>,
    code: Seq<char>,
) -> Seq<char> {
    if known_make(mfr, model) {
        mfr->0 + " "@ + model->0
    } else {
        "code "@ + or_dash(code)
    }
}

fn push_make(out: &mut Vec<char>, mfr: &Option<String>, model: &Option<String>, code: &str)
    ensures
        final(out)@ == old(out)@ + make_text(opt_text(*mfr), opt_text(*model), code@),
{
    match (mfr, model) {
        (Some(a), Some(b)) => {
            if !a.as_str().is_empty() {
                push_str(out, a.as_str());
                push_str(out, " ");
                push_str(out, b.as_str());
                assert(final(out)@ =~= old(out)@ + make_text(
                    opt_text(*mfr),
                    opt_text(*model),
                    code@,
                ));
                return;
            }
        },
        _ => {},
    }
    push_str(out, "code ");
    push_str(out, empty(code));
    assert(final(out)@ =~= old(out)@ + make_text(opt_text(*mfr), opt_text(*model), code@));
}

/// Street lines joined with `, `, blank ones left out.
pub open spec fn street_text(street: Seq<char>, street2: Seq<char>) -> Seq<char> {
    if street.len() > 0 && street2.len() > 0 {
        street + ", "@ + street2
    } else if street.len() > 0 {
        street
    } else {
        street2
    }
}

fn street_of(street: &str, street2: &str) -> (r: Vec<char>)
    ensures
        r@ == street_text(street@, street2@),
{
    let mut out: Vec<char> = Vec::new();
    if !street.is_empty() {
        push_str(&mut out, street);
        if !street2.is_empty() {
            push_str(&mut out, ", ");
            push_str(&mut out, street2);
        }
    } else {
        push_str(&mut out, street2);
    }
    assert(out@ =~= street_text(street@, street2@));
    out
}

/// The "Current registration" block of a lookup.
pub open spec fn aircraft_text(c: AircraftVersionView) -> Seq<char> {
    "  Owner:      "@ + or_dash(c.owner_name) + " ("@ + decode_type_registrant_spec(
        c.type_registrant,
    ) + ")\n  Address:    "@ + or_dash(street_text(c.street, c.street2)) + ", "@ + or_dash(c.city)
        + ", "@ + or_dash(c.state) + " "@ + or_dash(c.zip_code) + "\n  Country:    "@ + or_dash(
        c.country,
    ) + "\n  Aircraft:   "@ + make_text(c.aircraft_mfr, c.aircraft_model, c.mfr_mdl_code) + " ("@
        + decode_type_aircraft_spec(c.type_aircraft) + ")\n  Engine:     "@ + make_text(
        c.engine_mfr,
        c.engine_model,
        c.eng_mfr_mdl,
    ) + " ("@ + decode_type_engine_spec(c.type_engine) + ")\n  Year:       "@ + or_dash(c.year_mfr)
        + "\n  Serial:     "@ + or_dash(c.serial_number) + "\n  Status:     "@ + or_dash(
        c.status_code,
    ) + " ("@ + decode_status_code_spec(c.status_code) + ")\n  Mode S hex: "@ + or_dash(
        c.mode_s_hex,
    ) + "\n  icao24:     "@ + or_dash(c.icao24) + "\n  Co-owners:  "@ + or_dash(c.other_names)
        + "\n  Cert issue: "@ + or_dash(c.cert_issue_date) + "\n  Expires:    "@ + or_dash(
        c.expiration_date,
    ) + "\n  Valid from: "@ + c.valid_from + "\n"@
}

fn format_aircraft(cur: &AircraftVersion) -> (r: String)
    ensures
        r@ == aircraft_text(cur@),
{
    let mut out = chars_of("  Owner:      ");
    push_str(&mut out, empty(cur.owner_name.as_str()));
    push_str(&mut out, " (");
    push_str(&mut out, decode_type_registrant(cur.type_registrant.as_str()));
    push_str(&mut out, ")\n  Address:    ");
    let street = street_of(cur.street.as_str(), cur.street2.as_str());
    let street_text = text_of(street.as_slice());
    push_str(&mut out, empty(street_text.as_str()));
    push_str(&mut out, ", ");
    push_str(&mut out, empty(cur.city.as_str()));
    push_str(&mut out, ", ");
    push_str(&mut out, empty(cur.state.as_str()));
    push_str(&mut out, " ");
    push_str(&mut out, empty(cur.zip_code.as_str()));
    push_str(&mut out, "\n  Country:    ");
    push_str(&mut out, empty(cur.country.as_str()));
    push_str(&mut out, "\n  Aircraft:   ");
    push_make(&mut out, &cur.aircraft_mfr, &cur.aircraft_model, cur.mfr_mdl_code.as_str());
    push_str(&mut out, " (");
    push_str(&mut out, decode_type_aircraft(cur.type_aircraft.as_str()));
    push_str(&mut out, ")\n  Engine:     ");
    push_make(&mut out, &cur.engine_mfr, &cur.engine_model, cur.eng_mfr_mdl.as_str());
    push_str(&mut out, " (");
    push_str(&mut out, decode_type_engine(cur.type_engine.as_str()));
    push_str(&mut out, ")\n  Year:       ");
    push_str(&mut out, empty(cur.year_mfr.as_str()));
    push_str(&mut out, "\n  Serial:     ");
    push_str(&mut out, empty(cur.serial_number.as_str()));
    push_str(&mut out, "\n  Status:     ");
    push_str(&mut out, empty(cur.status_code.as_str()));
    push_str(&mut out, " (");
    push_str(&mut out, decode_status_code(cur.status_code.as_str()));
    push_str(&mut out, ")\n  Mode S hex: ");
    push_str(&mut out, empty(cur.mode_s_hex.as_str()));
    push_str(&mut out, "\n  icao24:     ");
    push_str(&mut out, empty(cur.icao24.as_str()));
    push_str(&mut out, "\n  Co-owners:  ");
    push_str(&mut out, empty(cur.other_names.as_str()));
    push_str(&mut out, "\n  Cert issue: ");
    push_str(&mut out, empty(cur.cert_issue_date.as_str()));
    push_str(&mut out, "\n  Expires:    ");
    push_str(&mut out, empty(cur.expiration_date.as_str()));
    push_str(&mut out, "\n  Valid from: ");
    push_str(&mut out, cur.valid_from.as_str());
    push_str(&mut out, "\n");
    text_of(out.as_slice())
}

pub open spec fn history_line(v: AircraftVersionView) -> Seq<char> {
    "  "@ + v.valid_from + " .. "@ + opt_or(v.valid_to, "open"@) + "  "@ + v.owner_name + "  ("@
        + v.city + ")\n"@
}

pub open spec fn dereg_line(d: DeregVersionView) -> Seq<char> {
    "  ["@ + (if d.is_current {
        "current"@
    } else {
        "historical"@
    }) + "] cancel "@ + or_dash(d.cancel_date) + "  owner "@ + or_dash(d.owner_name)
        + "  export "@ + or_dash(d.export_country) + "  status "@ + d.status_code + "\n"@
}

pub open spec fn document_line(d: DocumentHitView) -> Seq<char> {
    "  "@ + or_dash(d.receipt_date) + "  "@ + or_dash(d.document_id) + "  party="@ + or_dash(
        d.party_name,
    ) + "  type="@ + or_dash(d.doc_type) + "\n"@
}

/// The lines of `items`, each rendered by `line`, in order.
pub open spec fn lines_of<V>(items: Seq<V>, line: spec_fn(V) -> Seq<char>) -> Seq<char>
    decreases items.len(),
{
    if items.len() == 0 {
        Seq::empty()
    } else {
        lines_of(items.drop_last(), line) + line(items.last())
    }
}

/// A titled block of lines, left out when there are no items.
pub open spec fn block<V>(title: Seq<char>, items: Seq<V>, line: spec_fn(V) -> Seq<char>) -> Seq<
    char,
> {
    if items.len() == 0 {
        Seq::empty()
    } else {
        title + lines_of(items, line)
    }
}

pub open spec fn history_line_fn() -> spec_fn(AircraftVersionView) -> Seq<char> {
    |v: AircraftVersionView| history_line(v)
}

pub open spec fn dereg_line_fn() -> spec_fn(DeregVersionView) -> Seq<char> {
    |v: DeregVersionView| dereg_line(v)
}

pub open spec fn document_line_fn() -> spec_fn(DocumentHitView) -> Seq<char> {
    |v: DocumentHitView| document_line(v)
}

/// What `lookup` prints: the N-number, the current registration (or a note that
/// there is none), then ownership history, deregistrations and documents.
pub open spec fn lookup_text(r: LookupResultView) -> Seq<char> {
    r.n_number + "\n"@ + match r.current {
        Some(c) => "\nCurrent registration\n"@ + aircraft_text(c),
        None => "\nNo current MASTER registration.\n"@,
    } + block("\nOwnership history\n"@, r.history, history_line_fn()) + block(
        "\nDeregistration\n"@,
        r.deregistered,
        dereg_line_fn(),
    ) + block("\nDocuments\n"@, r.documents, document_line_fn())
}

fn history_line_of(v: &AircraftVersion) -> (r: Vec<char>)
    ensures
        r@ == history_line(v@),
{
    let mut out = chars_of("  ");
    push_str(&mut out, v.valid_from.as_str());
    push_str(&mut out, " .. ");
    push_opt_or(&mut out, &v.valid_to, "open");
    push_str(&mut out, "  ");
    push_str(&mut out, v.owner_name.as_str());
    push_str(&mut out, "  (");
    push_str(&mut out, v.city.as_str());
    push_str(&mut out, ")\n");
    out
}

fn document_line_of(d: &DocumentHit) -> (r: Vec<char>)
    ensures
        r@ == document_line(d@),
{
    let mut out = chars_of("  ");
    push_str(&mut out, empty(d.receipt_date.as_str()));
    push_str(&mut out, "  ");
    push_str(&mut out, empty(d.document_id.as_str()));
    push_str(&mut out, "  party=");
    push_str(&mut out, empty(d.party_name.as_str()));
    push_str(&mut out, "  type=");
    push_str(&mut out, empty(d.doc_type.as_str()));
    push_str(&mut out, "\n");
    out
}

fn push_history(out: &mut Vec<char>, items: &Vec<AircraftVersion>)
    ensures
        final(out)@ == old(out)@ + block(
            "\nOwnership history\n"@,
            items@.map_values(|v: AircraftVersion| v@),
            history_line_fn(),
        ),
{
    let ghost views = items@.map_values(|v: AircraftVersion| v@);
    if items.len() == 0 {
        assert(final(out)@ =~= old(out)@ + block("\nOwnership history\n"@, views, history_line_fn()));
        return;
    }
    push_str(out, "\nOwnership history\n");
    let ghost start = out@;
    let n = items.len();
    let mut i: usize = 0;
    while i < n
        invariant
            i <= n == items@.len() == views.len(),
            views == items@.map_values(|v: AircraftVersion| v@),
            out@ == start + lines_of(views.subrange(0, i as int), history_line_fn()),
        decreases n - i,
    {
        let ghost before = out@;
        let line = history_line_of(&items[i]);
        push_all(out, line.as_slice());
        assert(views.subrange(0, i + 1).drop_last() =~= views.subrange(0, i as int));
        assert(out@ =~= before + history_line(views[i as int]));
        assert(out@ =~= start + lines_of(views.subrange(0, i + 1), history_line_fn()));
        i = i + 1;
    }
    assert(views.subrange(0, n as int) =~= views);
    assert(out@ =~= old(out)@ + block("\nOwnership history\n"@, views, history_line_fn()));
}

fn dereg_line_of(d: &DeregVersion) -> (r: Vec<char>)
    ensures
        r@ == dereg_line(d@),
{
    let flag = if d.is_current {
        "current"
    } else {
        "historical"
    };
    let mut out = chars_of("  [");
    push_str(&mut out, flag);
    push_str(&mut out, "] cancel ");
    push_str(&mut out, empty(d.cancel_date.as_str()));
    push_str(&mut out, "  owner ");
    push_str(&mut out, empty(d.owner_name.as_str()));
    push_str(&mut out, "  export ");
    push_str(&mut out, empty(d.export_country.as_str()));
    push_str(&mut out, "  status ");
    push_str(&mut out, d.status_code.as_str());
    push_str(&mut out, "\n");
    out
}

fn push_dereg(out: &mut Vec<char>, items: &Vec<DeregVersion>)
    ensures
        final(out)@ == old(out)@ + block(
            "\nDeregistration\n"@,
            items@.map_values(|v: DeregVersion| v@),
            dereg_line_fn(),
        ),
{
    let ghost views = items@.map_values(|v: DeregVersion| v@);
    if items.len() == 0 {
        assert(final(out)@ =~= old(out)@ + block("\nDeregistration\n"@, views, dereg_line_fn()));
        return;
    }
    push_str(out, "\nDeregistration\n");
    let ghost start = out@;
    let n = items.len();
    let mut i: usize = 0;
    while i < n
        invariant
            i <= n == items@.len() == views.len(),
            views == items@.map_values(|v: DeregVersion| v@),
            out@ == start + lines_of(views.subrange(0, i as int), dereg_line_fn()),
        decreases n - i,
    {
        let ghost before = out@;
        let line = dereg_line_of(&items[i]);
        push_all(out, line.as_slice());
        assert(views.subrange(0, i + 1).drop_last() =~= views.subrange(0, i as int));
        assert(out@ =~= before + dereg_line(views[i as int]));
        assert(out@ =~= start + lines_of(views.subrange(0, i + 1), dereg_line_fn()));
        i = i + 1;
    }
    assert(views.subrange(0, n as int) =~= views);
    assert(out@ =~= old(out)@ + block("\nDeregistration\n"@, views, dereg_line_fn()));
}

fn push_documents(out: &mut Vec<char>, items: &Vec<DocumentHit>)
    ensures
        final(out)@ == old(out)@ + block(
            "\nDocuments\n"@,
            items@.map_values(|v: DocumentHit| v@),
            document_line_fn(),
        ),
{
    let ghost views = items@.map_values(|v: DocumentHit| v@);
    if items.len() == 0 {
        assert(final(out)@ =~= old(out)@ + block("\nDocuments\n"@, views, document_line_fn()));
        return;
    }
    push_str(out, "\nDocuments\n");
    let ghost start = out@;
    let n = items.len();
    let mut i: usize = 0;
    while i < n
        invariant
            i <= n == items@.len() == views.len(),
            views == items@.map_values(|v: DocumentHit| v@),
            out@ == start + lines_of(views.subrange(0, i as int), document_line_fn()),
        decreases n - i,
    {
        let ghost before = out@;
        let line = document_line_of(&items[i]);
        push_all(out, line.as_slice());
        assert(views.subrange(0, i + 1).drop_last() =~= views.subrange(0, i as int));
        assert(out@ =~= before + document_line(views[i as int]));
        assert(out@ =~= start + lines_of(views.subrange(0, i + 1), document_line_fn()));
        i = i + 1;
    }
    assert(views.subrange(0, n as int) =~= views);
    assert(out@ =~= old(out)@ + block("\nDocuments\n"@, views, document_line_fn()));
}

pub fn format_lookup(result: &LookupResult) -> (r: String)
    ensures
        r@ == lookup_text(result@),
{
    let mut out = chars_of(result.n_number.as_str());
    push_str(&mut out, "\n");
    match &result.current {
        Some(cur) => {
            let ghost before = out@;
            push_str(&mut out, "\nCurrent registration\n");
            let a = format_aircraft(cur);
            push_str(&mut out, a.as_str());
            assert(out@ =~= before + ("\nCurrent registration\n"@ + aircraft_text(cur@)));
        },
        None => push_str(&mut out, "\nNo current MASTER registration.\n"),
    }
    push_history(&mut out, &result.history);
    push_dereg(&mut out, &result.deregistered);
    push_documents(&mut out, &result.documents);
    text_of(out.as_slice())
}

/// `s` padded with spaces on the right to `width` characters (`{:<width}`).
pub open spec fn pad_right(s: Seq<char>, width: nat) -> Seq<char> {
    if s.len() >= width {
        s
    } else {
        s + Seq::new((width - s.len()) as nat, |i: int| ' ')
    }
}

fn push_padded(out: &mut Vec<char>, s: &str, width: usize)
    ensures
        final(out)@ == old(out)@ + pad_right(s@, width as nat),
{
    let cs = chars_of(s);
    push_all(out, cs.as_slice());
    let ghost mid = out@;
    let mut k = cs.len();
    while k < width
        invariant
            k <= width || k == cs.len(),
            k >= cs.len(),
            cs@ == s@,
            mid == old(out)@ + s@,
            out@ == mid + Seq::new((k - cs.len()) as nat, |i: int| ' '),
        decreases width - k,
    {
        out.push(' ');
        assert(out@ =~= mid + Seq::new((k + 1 - cs.len()) as nat, |i: int| ' '));
        k = k + 1;
    }
    assert(final(out)@ =~= old(out)@ + pad_right(s@, width as nat));
}

/// The plane shown for an owner hit: `mfr model` when known, else nothing.
pub open spec fn plane_text(mfr: Option<Seq<char>>, model: Option<Seq<char>>) -> Seq<char> {
    if known_make(mfr, model) {
        mfr->0 + " "@ + model->0
    } else {
        Seq::empty()
    }
}

pub open spec fn owner_line(h: OwnerHitView) -> Seq<char> {
    pad_right(h.n_number, 8) + "  "@ + pad_right(h.owner_name, 40) + "  "@ + h.city + ", "@ + h.state
        + "  "@ + plane_text(h.mfr, h.model) + "  status "@ + h.status_code + "\n"@
}

pub open spec fn owner_line_fn() -> spec_fn(OwnerHitView) -> Seq<char> {
    |h: OwnerHitView| owner_line(h)
}

/// What `search-owner` prints.
pub open spec fn owner_hits_text(hits: Seq<OwnerHitView>) -> Seq<char> {
    if hits.len() == 0 {
        "No matching current owners.\n"@
    } else {
        lines_of(hits, owner_line_fn())
    }
}

pub fn format_owner_hits(hits: &[OwnerHit]) -> (r: String)
    ensures
        r@ == owner_hits_text(hits@.map_values(|h: OwnerHit| h@)),
{
    let ghost views = hits@.map_values(|h: OwnerHit| h@);
    if hits.len() == 0 {
        return text_of(chars_of("No matching current owners.\n").as_slice());
    }
    let mut out: Vec<char> = Vec::new();
    let n = hits.len();
    let mut i: usize = 0;
    while i < n
        invariant
            i <= n == hits@.len() == views.len(),
            views == hits@.map_values(|h: OwnerHit| h@),
            out@ == lines_of(views.subrange(0, i as int), owner_line_fn()),
        decreases n - i,
    {
        let h = &hits[i];
        let ghost before = out@;
        push_padded(&mut out, h.n_number.as_str(), 8);
        push_str(&mut out, "  ");
        push_padded(&mut out, h.owner_name.as_str(), 40);
        push_str(&mut out, "  ");
        push_str(&mut out, h.city.as_str());
        push_str(&mut out, ", ");
        push_str(&mut out, h.state.as_str());
        push_str(&mut out, "  ");
        match (&h.mfr, &h.model) {
            (Some(a), Some(b)) => {
                if !a.as_str().is_empty() {
                    push_str(&mut out, a.as_str());
                    push_str(&mut out, " ");
                    push_str(&mut out, b.as_str());
                }
            },
            _ => {},
        }
        push_str(&mut out, "  status ");
        push_str(&mut out, h.status_code.as_str());
        push_str(&mut out, "\n");
        assert(views.subrange(0, i + 1).drop_last() =~= views.subrange(0, i as int));
        assert(out@ =~= before + owner_line(views[i as int]));
        assert(out@ =~= lines_of(views.subrange(0, i + 1), owner_line_fn()));
        i = i + 1;
    }
    assert(views.subrange(0, n as int) =~= views);
    text_of(out.as_slice())
}

/// What `status` prints for one ingest run.
pub open spec fn status_text(s: IngestStatusView) -> Seq<char> {
    "Ingest #"@ + signed_decimal(s.id as int) + "\n  status:     "@ + s.status + "\n  as_of:      "@
        + opt_or(s.as_of_date, "-"@) + "\n  started:    "@ + s.started_at + "\n  finished:   "@
        + opt_or(s.finished_at, "-"@) + "\n  source:     "@ + s.source + "\n  zip hash:   "@
        + opt_or(s.zip_hash, "-"@) + "\n  master:     "@ + fmt_opt_text(s.master_rows)
        + "\n  new/changed/closed/unchanged: "@ + fmt_opt_text(s.new_rows) + " / "@
        + fmt_opt_text(s.changed_rows) + " / "@ + fmt_opt_text(s.closed_rows) + " / "@
        + fmt_opt_text(s.unchanged_rows) + "\n  skipped:    "@ + fmt_opt_text(s.skipped_rows)
        + "\n  dereg new/changed/closed: "@ + fmt_opt_text(s.dereg_new) + " / "@ + fmt_opt_text(
        s.dereg_changed,
    ) + " / "@ + fmt_opt_text(s.dereg_closed) + "\n  documents:  "@ + fmt_opt_text(
        s.documents_inserted,
    ) + "\n  dealers:    "@ + fmt_opt_text(s.dealer_rows) + "\n  reserved:   "@ + fmt_opt_text(
        s.reserved_rows,
    ) + "\n  error:      "@ + opt_or(s.error, "-"@) + "\n"@
}

pub fn format_status(status: &IngestStatus) -> (r: String)
    ensures
        r@ == status_text(status@),
{
    let mut out = chars_of("Ingest #");
    push_signed_decimal(&mut out, status.id);
    push_str(&mut out, "\n  status:     ");
    push_str(&mut out, status.status.as_str());
    push_str(&mut out, "\n  as_of:      ");
    push_opt_or(&mut out, &status.as_of_date, "-");
    push_str(&mut out, "\n  started:    ");
    push_str(&mut out, status.started_at.as_str());
    push_str(&mut out, "\n  finished:   ");
    push_opt_or(&mut out, &status.finished_at, "-");
    push_str(&mut out, "\n  source:     ");
    push_str(&mut out, status.source.as_str());
    push_str(&mut out, "\n  zip hash:   ");
    push_opt_or(&mut out, &status.zip_hash, "-");
    push_str(&mut out, "\n  master:     ");
    push_str(&mut out, fmt_opt(status.master_rows).as_str());
    push_str(&mut out, "\n  new/changed/closed/unchanged: ");
    push_str(&mut out, fmt_opt(status.new_rows).as_str());
    push_str(&mut out, " / ");
    push_str(&mut out, fmt_opt(status.changed_rows).as_str());
    push_str(&mut out, " / ");
    push_str(&mut out, fmt_opt(status.closed_rows).as_str());
    push_str(&mut out, " / ");
    push_str(&mut out, fmt_opt(status.unchanged_rows).as_str());
    push_str(&mut out, "\n  skipped:    ");
    push_str(&mut out, fmt_opt(status.skipped_rows).as_str());
    push_str(&mut out, "\n  dereg new/changed/closed: ");
    push_str(&mut out, fmt_opt(status.dereg_new).as_str());
    push_str(&mut out, " / ");
    push_str(&mut out, fmt_opt(status.dereg_changed).as_str());
    push_str(&mut out, " / ");
    push_str(&mut out, fmt_opt(status.dereg_closed).as_str());
    push_str(&mut out, "\n  documents:  ");
    push_str(&mut out, fmt_opt(status.documents_inserted).as_str());
    push_str(&mut out, "\n  dealers:    ");
    push_str(&mut out, fmt_opt(status.dealer_rows).as_str());
    push_str(&mut out, "\n  reserved:   ");
    push_str(&mut out, fmt_opt(status.reserved_rows).as_str());
    push_str(&mut out, "\n  error:      ");
    push_opt_or(&mut out, &status.error, "-");
    push_str(&mut out, "\n");
    text_of(out.as_slice())
}

/// How `lookup` finds versions for its input.
pub enum LookupKey {
    /// A Mode S hex code, lowercased, matched against `icao24` / `mode_s_hex`.
    ModeSHex(String),
    /// A canonical N-number.
    NNumber(String),
}

/// Mode S hex inputs are looked up by hex; anything else is a canonical N-number.
pub fn lookup_key(input: &str) -> (k: LookupKey)
    ensures
        k matches LookupKey::ModeSHex(h) ==> is_mode_s_hex(input@) && h@ == ascii_lower_text(
            trim_white(input@),
        ),
        k matches LookupKey::NNumber(n) ==> !is_mode_s_hex(input@) && n@
            == canonical_n_number_spec(input@),
{
    if looks_like_mode_s_hex(input) {
        let cs = chars_of(input);
        let t = trim_vec(cs.as_slice(), CharClass::White);
        let lower = lower_ascii_vec(t.as_slice());
        LookupKey::ModeSHex(text_of(lower.as_slice()))
    } else {
        LookupKey::NNumber(canonical_n_number(input))
    }
}

/// Index of the first current version, or -1 when none is current.
pub open spec fn first_current(vs: Seq<AircraftVersionView>) -> int
    decreases vs.len(),
{
    if vs.len() == 0 {
        -1
    } else if vs[0].is_current {
        0
    } else {
        let r = first_current(vs.drop_first());
        if r < 0 {
            -1
        } else {
            r + 1
        }
    }
}

proof fn lemma_first_current_step(vs: Seq<AircraftVersionView>, i: int)
    requires
        0 <= i <= vs.len(),
        forall|j: int| 0 <= j < i ==> !(#[trigger] vs[j]).is_current,
    ensures
        first_current(vs) == if first_current(vs.subrange(i, vs.len() as int)) < 0 {
            -1
        } else {
            first_current(vs.subrange(i, vs.len() as int)) + i
        },
    decreases i,
{
    if i > 0 {
        let t = vs.drop_first();
        assert forall|j: int| 0 <= j < i - 1 implies !(#[trigger] t[j]).is_current by {
            assert(t[j] == vs[j + 1]);
        }
        lemma_first_current_step(t, i - 1);
        assert(t.subrange(i - 1, t.len() as int) =~= vs.subrange(i, vs.len() as int));
        assert(!vs[0].is_current);
    } else {
        assert(vs.subrange(0, vs.len() as int) =~= vs);
    }
}

fn first_current_index(versions: &[AircraftVersion]) -> (r: Option<usize>)
    ensures
        match r {
            Some(i) => i as int == first_current(versions@.map_values(|v: AircraftVersion| v@)),
            None => first_current(versions@.map_values(|v: AircraftVersion| v@)) < 0,
        },
        r matches Some(i) ==> i < versions@.len(),
{
    let ghost vs = versions@.map_values(|v: AircraftVersion| v@);
    let n = versions.len();
    let mut i: usize = 0;
    while i < n
        invariant
            i <= n == versions@.len() == vs.len(),
            vs == versions@.map_values(|v: AircraftVersion| v@),
            forall|j: int| 0 <= j < i ==> !(#[trigger] vs[j]).is_current,
        decreases n - i,
    {
        if versions[i].is_current {
            proof {
                lemma_first_current_step(vs, i as int);
                assert(vs.subrange(i as int, vs.len() as int)[0] == vs[i as int]);
            }
            return Some(i);
        }
        i = i + 1;
    }
    proof {
        lemma_first_current_step(vs, n as int);
        assert(vs.subrange(n as int, n as int).len() == 0);
    }
    None
}

/// The N-number a Mode S lookup resolves to: the current version's, else the
/// latest version's, else the hex itself.
pub open spec fn resolved_n_number(hex: Seq<char>, vs: Seq<AircraftVersionView>) -> Seq<char> {
    if first_current(vs) >= 0 {
        vs[first_current(vs)].n_number
    } else if vs.len() > 0 {
        vs[0].n_number
    } else {
        hex
    }
}

pub fn resolve_n_number(hex: &str, versions: &[AircraftVersion]) -> (r: String)
    ensures
        r@ == resolved_n_number(hex@, versions@.map_values(|v: AircraftVersion| v@)),
{
    match first_current_index(versions) {
        Some(i) => versions[i].n_number.clone(),
        None => {
            if versions.len() > 0 {
                versions[0].n_number.clone()
            } else {
                text_of(chars_of(hex).as_slice())
            }
        },
    }
}

/// Assembles what `lookup` returns: the first current version (if any) is taken out
/// as the current registration; the other versions stay, in order, as history.
pub fn assemble_lookup(
    n_number: String,
    versions: Vec<AircraftVersion>,
    deregistered: Vec<DeregVersion>,
    documents: Vec<DocumentHit>,
) -> (r: LookupResult)
    ensures
        r@.n_number == n_number@,
        r@.deregistered == deregistered@.map_values(|v: DeregVersion| v@),
        r@.documents == documents@.map_values(|v: DocumentHit| v@),
        ({
            let vs = versions@.map_values(|v: AircraftVersion| v@);
            let k = first_current(vs);
            if k < 0 {
                r@.current is None && r@.history == vs
            } else {
                r@.current == Some(vs[k]) && r@.history == vs.remove(k)
            }
        }),
{
    let ghost vs = versions@.map_values(|v: AircraftVersion| v@);
    let mut versions = versions;
    let current = match first_current_index(versions.as_slice()) {
        Some(i) => {
            let ghost before = versions@;
            let c = versions.remove(i);
            assert(versions@.map_values(|v: AircraftVersion| v@) =~= vs.remove(i as int));
            Some(c)
        },
        None => None,
    };
    LookupResult { n_number, current, history: versions, deregistered, documents }
}

/// What `char::is_alphanumeric` returns for `c` (Unicode Alphabetic or Numeric).
pub uninterp spec fn unicode_alphanumeric(c: char) -> bool;

pub open spec fn is_ascii_alphanumeric(c: char) -> bool {
    ('0' <= c && c <= '9') || ('a' <= c && c <= 'z') || ('A' <= c && c <= 'Z')
}

/// `char::is_alphanumeric`.
///
/// Trusted: the answer is named `unicode_alphanumeric(c)`; for ASCII characters it is
/// true exactly for letters and digits.
#[verifier::external_body]
fn alphanumeric(c: char) -> (b: bool)
    ensures
        b == unicode_alphanumeric(c),
        is_ascii_char(c) ==> (b == is_ascii_alphanumeric(c)),
{
    c.is_alphanumeric()
}

/// Whether a search word keeps `c`: ASCII letters and digits, and the other
/// characters that `char::is_alphanumeric` accepts.
pub open spec fn keeps_char(c: char) -> bool {
    if is_ascii_char(c) {
        is_ascii_alphanumeric(c)
    } else {
        unicode_alphanumeric(c)
    }
}

/// Scanning a search text: the finished words (alphanumeric characters of each
/// whitespace-separated word, empty words dropped) and the word in progress.
pub open spec fn fts_scan(s: Seq<char>) -> (Seq<Seq<char>>, Seq<char>)
    decreases s.len(),
{
    if s.len() == 0 {
        (Seq::empty(), Seq::empty())
    } else {
        let p = fts_scan(s.drop_last());
        let c = s.last();
        if is_white(c) {
            (if p.1.len() > 0 {
                p.0.push(p.1)
            } else {
                p.0
            }, Seq::empty())
        } else if keeps_char(c) {
            (p.0, p.1.push(c))
        } else {
            p
        }
    }
}

/// The search words of `s`.
pub open spec fn fts_words(s: Seq<char>) -> Seq<Seq<char>> {
    let p = fts_scan(s);
    if p.1.len() > 0 {
        p.0.push(p.1)
    } else {
        p.0
    }
}

/// Each word as a prefix query (`word*`), joined with ` AND `.
pub open spec fn prefix_query(words: Seq<Seq<char>>) -> Seq<char>
    decreases words.len(),
{
    if words.len() == 0 {
        Seq::empty()
    } else if words.len() == 1 {
        words[0] + seq!['*']
    } else {
        prefix_query(words.drop_last()) + " AND "@ + words.last() + seq!['*']
    }
}

fn push_word(
    out: &mut Vec<char>,
    done: usize,
    word: &Vec<char>,
    Ghost(words): Ghost<Seq<Seq<char>>>,
)
    requires
        old(out)@ == prefix_query(words),
        done == words.len(),
    ensures
        final(out)@ == prefix_query(words.push(word@)),
{
    assert(words.push(word@).drop_last() =~= words);
    if done > 0 {
        push_str(out, " AND ");
    }
    push_all(out, word.as_slice());
    out.push('*');
    assert(final(out)@ =~= prefix_query(words.push(word@)));
}

/// A character that an owner-search query over ASCII input may hold.
pub open spec fn query_char(c: char) -> bool {
    is_ascii_alphanumeric(c) || c == '*' || c == ' '
}

/// Every character of `w` satisfies `p`.
pub open spec fn word_of(w: Seq<char>, p: spec_fn(char) -> bool) -> bool {
    forall|j: int| 0 <= j < w.len() ==> p(#[trigger] w[j])
}

proof fn lemma_scan_words(s: Seq<char>, p: spec_fn(char) -> bool)
    requires
        forall|i: int|
            0 <= i < s.len() && keeps_char(#[trigger] s[i]) && !is_white(s[i]) ==> p(s[i]),
    ensures
        forall|k: int| 0 <= k < fts_scan(s).0.len() ==> word_of(#[trigger] fts_scan(s).0[k], p),
        word_of(fts_scan(s).1, p),
    decreases s.len(),
{
    if s.len() > 0 {
        let t = s.drop_last();
        assert forall|i: int| 0 <= i < t.len() && keeps_char(#[trigger] t[i]) && !is_white(t[i])
            implies p(t[i]) by {
            assert(t[i] == s[i]);
        }
        lemma_scan_words(t, p);
        let q = fts_scan(t);
        let c = s.last();
        assert(c == s[s.len() - 1]);
        if !is_white(c) && keeps_char(c) {
            assert forall|j: int| 0 <= j < q.1.push(c).len() implies p(
                #[trigger] q.1.push(c)[j],
            ) by {
                if j < q.1.len() {
                    assert(q.1.push(c)[j] == q.1[j]);
                }
            }
        }
        if is_white(c) && q.1.len() > 0 {
            assert forall|k: int| 0 <= k < q.0.push(q.1).len() implies word_of(
                #[trigger] q.0.push(q.1)[k],
                p,
            ) by {
                if k < q.0.len() {
                    assert(q.0.push(q.1)[k] == q.0[k]);
                }
            }
        }
    }
}

proof fn lemma_words_of(s: Seq<char>, p: spec_fn(char) -> bool)
    requires
        forall|i: int|
            0 <= i < s.len() && keeps_char(#[trigger] s[i]) && !is_white(s[i]) ==> p(s[i]),
    ensures
        forall|k: int| 0 <= k < fts_words(s).len() ==> word_of(#[trigger] fts_words(s)[k], p),
{
    lemma_scan_words(s, p);
    let q = fts_scan(s);
    let ws = fts_words(s);
    assert forall|k: int| 0 <= k < ws.len() implies word_of(#[trigger] ws[k], p) by {
        if q.1.len() > 0 && k == q.0.len() {
            assert(ws[k] == q.1);
        } else {
            assert(ws[k] == q.0[k]);
        }
    }
}

proof fn lemma_prefix_query_chars(words: Seq<Seq<char>>, p: spec_fn(char) -> bool)
    requires
        forall|k: int| 0 <= k < words.len() ==> word_of(#[trigger] words[k], p),
        p('A') && p('N') && p('D'),
    ensures
        forall|i: int|
            0 <= i < prefix_query(words).len() ==> {
                let c = #[trigger] prefix_query(words)[i];
                p(c) || c == '*' || c == ' '
            },
    decreases words.len(),
{
    if words.len() == 1 {
        let q = words[0] + seq!['*'];
        assert(word_of(words[0], p));
        assert forall|i: int| 0 <= i < q.len() implies p(#[trigger] q[i]) || q[i] == '*' || q[i]
            == ' ' by {
            if i < words[0].len() {
                assert(q[i] == words[0][i]);
            }
        }
    } else if words.len() > 1 {
        let prev = words.drop_last();
        assert forall|k: int| 0 <= k < prev.len() implies word_of(#[trigger] prev[k], p) by {
            assert(prev[k] == words[k]);
        }
        lemma_prefix_query_chars(prev, p);
        let a = prefix_query(prev);
        let and = " AND "@;
        let w = words.last();
        assert(word_of(words[words.len() - 1], p));
        reveal_strlit(" AND ");
        let q = a + and + w + seq!['*'];
        assert forall|i: int| 0 <= i < q.len() implies p(#[trigger] q[i]) || q[i] == '*' || q[i]
            == ' ' by {
            if i < a.len() {
                assert(q[i] == a[i]);
            } else if i < a.len() + 5 {
                assert(q[i] == and[i - a.len()]);
            } else if i < a.len() + 5 + w.len() {
                assert(q[i] == w[i - a.len() - 5]);
            }
        }
    }
}

/// For every search text, each character of the owner-search query is one the word
/// filter keeps, `*` or a space; so every ASCII character of it is a letter, a
/// digit, `*` or a space, and no quote, `-`, `:`, parenthesis or other FTS5 syntax
/// reaches the `MATCH` string. Over ASCII input, all of it is ASCII.
pub proof fn lemma_fts_query_is_plain(name: Seq<char>)
    ensures
        forall|i: int|
            0 <= i < prefix_query(fts_words(name)).len() ==> {
                let c = #[trigger] prefix_query(fts_words(name))[i];
                &&& keeps_char(c) || c == '*' || c == ' '
                &&& is_ascii_char(c) ==> query_char(c)
            },
        all_ascii(name) ==> forall|i: int|
            0 <= i < prefix_query(fts_words(name)).len() ==> query_char(
                #[trigger] prefix_query(fts_words(name))[i],
            ),
{
    let kp = |c: char| keeps_char(c);
    lemma_words_of(name, kp);
    assert('A' as u32 == 65 && 'N' as u32 == 78 && 'D' as u32 == 68);
    assert(kp('A') && kp('N') && kp('D'));
    lemma_prefix_query_chars(fts_words(name), kp);
    if all_ascii(name) {
        let ap = |c: char| is_ascii_alphanumeric(c);
        assert forall|i: int| 0 <= i < name.len() && keeps_char(#[trigger] name[i]) && !is_white(
            name[i],
        ) implies ap(name[i]) by {
            assert(is_ascii_char(name[i]));
        }
        lemma_words_of(name, ap);
        lemma_prefix_query_chars(fts_words(name), ap);
    }
}

/// The FTS5 query for an owner search: each whitespace-separated word keeps its
/// alphanumeric characters, becomes a prefix match, and all words must match.
pub fn fts_query(name: &str) -> (r: String)
    ensures
        r@ == prefix_query(fts_words(name@)),
        forall|i: int|
            0 <= i < r@.len() ==> (keeps_char(#[trigger] r@[i]) || r@[i] == '*' || r@[i] == ' ')
                && (is_ascii_char(r@[i]) ==> query_char(r@[i])),
        all_ascii(name@) ==> forall|i: int| 0 <= i < r@.len() ==> query_char(#[trigger] r@[i]),
{
    let cs = chars_of(name);
    let n = cs.len();
    let mut out: Vec<char> = Vec::new();
    let mut cur: Vec<char> = Vec::new();
    let mut done: usize = 0;
    let mut i: usize = 0;
    while i < n
        invariant
            i <= n == cs@.len(),
            cs@ == name@,
            done == fts_scan(cs@.subrange(0, i as int)).0.len(),
            done <= i,
            out@ == prefix_query(fts_scan(cs@.subrange(0, i as int)).0),
            cur@ == fts_scan(cs@.subrange(0, i as int)).1,
        decreases n - i,
    {
        let ghost pre = cs@.subrange(0, i as int);
        assert(cs@.subrange(0, i + 1).drop_last() =~= pre);
        let c = cs[i];
        if char_is_white(c) {
            if cur.len() > 0 {
                push_word(&mut out, done, &cur, Ghost(fts_scan(pre).0));
                done = done + 1;
            }
            cur = Vec::new();
        } else if alphanumeric(c) {
            cur.push(c);
        }
        i = i + 1;
    }
    assert(cs@.subrange(0, n as int) =~= name@);
    if cur.len() > 0 {
        push_word(&mut out, done, &cur, Ghost(fts_scan(name@).0));
    }
    proof {
        lemma_fts_query_is_plain(name@);
    }
    text_of(out.as_slice())
}

/// The first current version, as `lookup` takes it: none when no version is current;
/// otherwise a version that is current with no current version before it.
pub proof fn lemma_first_current_is_first(vs: Seq<AircraftVersionView>)
    ensures
        first_current(vs) < 0 <==> forall|j: int| 0 <= j < vs.len() ==> !(#[trigger] vs[j]).is_current,
        first_current(vs) >= 0 ==> {
            let k = first_current(vs);
            &&& k < vs.len()
            &&& vs[k].is_current
            &&& forall|j: int| 0 <= j < k ==> !(#[trigger] vs[j]).is_current
        },
        first_current(vs) >= -1,
    decreases vs.len(),
{
    if vs.len() > 0 && !vs[0].is_current {
        let t = vs.drop_first();
        lemma_first_current_is_first(t);
        assert forall|j: int| 0 <= j < t.len() implies t[j] == vs[j + 1] by {}
        if first_current(t) < 0 {
            assert forall|j: int| 0 <= j < vs.len() implies !(#[trigger] vs[j]).is_current by {
                if j > 0 {
                    assert(vs[j] == t[j - 1]);
                }
            }
        } else {
            let k = first_current(t);
            assert(vs[k + 1] == t[k]);
            assert forall|j: int| 0 <= j < k + 1 implies !(#[trigger] vs[j]).is_current by {
                if j > 0 {
                    assert(vs[j] == t[j - 1]);
                }
            }
        }
    }
}

/// A Mode S lookup resolves to the N-number of the first current version; with none
/// current, to the first (latest) version's; with no versions, to the hex itself.
pub proof fn lemma_resolved_n_number(hex: Seq<char>, vs: Seq<AircraftVersionView>)
    ensures
        vs.len() == 0 ==> resolved_n_number(hex, vs) == hex,
        (forall|j: int| 0 <= j < vs.len() ==> !(#[trigger] vs[j]).is_current) && vs.len() > 0
            ==> resolved_n_number(hex, vs) == vs[0].n_number,
        (exists|j: int| 0 <= j < vs.len() && (#[trigger] vs[j]).is_current) ==> exists|k: int|
            0 <= k < vs.len() && (#[trigger] vs[k]).is_current && resolved_n_number(hex, vs)
                == vs[k].n_number && forall|j: int| 0 <= j < k ==> !(#[trigger] vs[j]).is_current,
{
    lemma_first_current_is_first(vs);
    if exists|j: int| 0 <= j < vs.len() && (#[trigger] vs[j]).is_current {
        let k = first_current(vs);
        assert(vs[k].is_current);
    }
}

} // verus!
