//! Records of the dump files, the quarantine row, and what each maps to.

use vstd::prelude::*;
use vstd::string::StringSliceAdditionalSpecFns;

use crate::text::{
    chars_of, push_all, push_str, same_text, text_of, trim_vec, trim_white, CharClass,
};
use crate::{canonical_n_number, canonical_n_number_spec};

verus! {

/// One registered aircraft (a `MASTER.txt` row).
#[derive(Debug, Clone, PartialEq, Eq)]
pub struct MasterRecord {
    pub n_number: String,
    pub serial_number: String,
    pub mfr_mdl_code: String,
    pub eng_mfr_mdl: String,
    pub year_mfr: String,
    pub type_registrant: String,
    pub owner_name: String,
    pub street: String,
    pub street2: String,
    pub city: String,
    pub state: String,
    pub zip_code: String,
    pub region: String,
    pub county: String,
    pub country: String,
    pub last_action_date: String,
    pub cert_issue_date: String,
    pub certification: String,
    pub type_aircraft: String,
    pub type_engine: String,
    pub status_code: String,
    pub mode_s_code: String,
    pub fractional_owner: String,
    pub air_worth_date: String,
    pub other_names: String,
    pub expiration_date: String,
    pub unique_id: String,
    pub kit_mfr: String,
    pub kit_model: String,
    pub mode_s_hex: String,
}

pub struct MasterRecordView {
    pub n_number: Seq<char>,
    pub serial_number: Seq<char>,
    pub mfr_mdl_code: Seq<char>,
    pub eng_mfr_mdl: Seq<char>,
    pub year_mfr: Seq<char>,
    pub type_registrant: Seq<char>,
    pub owner_name: Seq<char>,
    pub street: Seq<char>,
    pub street2: Seq<char>,
    pub city: Seq<char>,
    pub state: Seq<char>,
    pub zip_code: Seq<char>,
    pub region: Seq<char>,
    pub county: Seq<char>,
    pub country: Seq<char>,
    pub last_action_date: Seq<char>,
    pub cert_issue_date: Seq<char>,
    pub certification: Seq<char>,
    pub type_aircraft: Seq<char>,
    pub type_engine: Seq<char>,
    pub status_code: Seq<char>,
    pub mode_s_code: Seq<char>,
    pub fractional_owner: Seq<char>,
    pub air_worth_date: Seq<char>,
    pub other_names: Seq<char>,
    pub expiration_date: Seq<char>,
    pub unique_id: Seq<char>,
    pub kit_mfr: Seq<char>,
    pub kit_model: Seq<char>,
    pub mode_s_hex: Seq<char>,
}

impl View for MasterRecord {
    type V = MasterRecordView;

    open spec fn view(&self) -> MasterRecordView {
        MasterRecordView {
            n_number: self.n_number@,
            serial_number: self.serial_number@,
            mfr_mdl_code: self.mfr_mdl_code@,
            eng_mfr_mdl: self.eng_mfr_mdl@,
            year_mfr: self.year_mfr@,
            type_registrant: self.type_registrant@,
            owner_name: self.owner_name@,
            street: self.street@,
            street2: self.street2@,
            city: self.city@,
            state: self.state@,
            zip_code: self.zip_code@,
            region: self.region@,
            county: self.county@,
            country: self.country@,
            last_action_date: self.last_action_date@,
            cert_issue_date: self.cert_issue_date@,
            certification: self.certification@,
            type_aircraft: self.type_aircraft@,
            type_engine: self.type_engine@,
            status_code: self.status_code@,
            mode_s_code: self.mode_s_code@,
            fractional_owner: self.fractional_owner@,
            air_worth_date: self.air_worth_date@,
            other_names: self.other_names@,
            expiration_date: self.expiration_date@,
            unique_id: self.unique_id@,
            kit_mfr: self.kit_mfr@,
            kit_model: self.kit_model@,
            mode_s_hex: self.mode_s_hex@,
        }
    }
}

/// One aircraft make/model (an `ACFTREF.txt` row).
#[derive(Debug, Clone, PartialEq, Eq)]
pub struct AircraftRef {
    pub code: String,
    pub mfr: String,
    pub model: String,
    pub type_aircraft: String,
    pub type_engine: String,
    pub category: String,
    pub builder_cert: String,
    pub no_eng: String,
    pub no_seats: String,
    pub ac_weight: String,
    pub speed: String,
    pub tc_data_sheet: String,
    pub tc_data_holder: String,
}

pub struct AircraftRefView {
    pub code: Seq<char>,
    pub mfr: Seq<char>,
    pub model: Seq<char>,
    pub type_aircraft: Seq<char>,
    pub type_engine: Seq<char>,
    pub category: Seq<char>,
    pub builder_cert: Seq<char>,
    pub no_eng: Seq<char>,
    pub no_seats: Seq<char>,
    pub ac_weight: Seq<char>,
    pub speed: Seq<char>,
    pub tc_data_sheet: Seq<char>,
    pub tc_data_holder: Seq<char>,
}

impl View for AircraftRef {
    type V = AircraftRefView;

    open spec fn view(&self) -> AircraftRefView {
        AircraftRefView {
            code: self.code@,
            mfr: self.mfr@,
            model: self.model@,
            type_aircraft: self.type_aircraft@,
            type_engine: self.type_engine@,
            category: self.category@,
            builder_cert: self.builder_cert@,
            no_eng: self.no_eng@,
            no_seats: self.no_seats@,
            ac_weight: self.ac_weight@,
            speed: self.speed@,
            tc_data_sheet: self.tc_data_sheet@,
            tc_data_holder: self.tc_data_holder@,
        }
    }
}

/// One engine make/model (an `ENGINE.txt` row).
#[derive(Debug, Clone, PartialEq, Eq)]
pub struct EngineRef {
    pub code: String,
    pub mfr: String,
    pub model: String,
    pub type_engine: String,
    pub horsepower: String,
    pub thrust: String,
}

pub struct EngineRefView {
    pub code: Seq<char>,
    pub mfr: Seq<char>,
    pub model: Seq<char>,
    pub type_engine: Seq<char>,
    pub horsepower: Seq<char>,
    pub thrust: Seq<char>,
}

impl View for EngineRef {
    type V = EngineRefView;

    open spec fn view(&self) -> EngineRefView {
        EngineRefView {
            code: self.code@,
            mfr: self.mfr@,
            model: self.model@,
            type_engine: self.type_engine@,
            horsepower: self.horsepower@,
            thrust: self.thrust@,
        }
    }
}

/// One deregistered aircraft (a `DEREG.txt` row).
#[derive(Debug, Clone, PartialEq, Eq)]
pub struct DeregRecord {
    pub n_number: String,
    pub serial_number: String,
    pub mfr_mdl_code: String,
    pub status_code: String,
    pub owner_name: String,
    pub street: String,
    pub street2: String,
    pub city: String,
    pub state: String,
    pub zip_code: String,
    pub eng_mfr_mdl: String,
    pub year_mfr: String,
    pub certification: String,
    pub region: String,
    pub county: String,
    pub country: String,
    pub air_worth_date: String,
    pub cancel_date: String,
    pub mode_s_code: String,
    pub type_registrant: String,
    pub export_country: String,
    pub last_action_date: String,
    pub cert_issue_date: String,
    pub physical_street: String,
    pub physical_street2: String,
    pub physical_city: String,
    pub physical_state: String,
    pub physical_zip: String,
    pub physical_county: String,
    pub physical_country: String,
    pub other_names: String,
    pub kit_mfr: String,
    pub kit_model: String,
    pub mode_s_hex: String,
}

pub struct DeregRecordView {
    pub n_number: Seq<char>,
    pub serial_number: Seq<char>,
    pub mfr_mdl_code: Seq<char>,
    pub status_code: Seq<char>,
    pub owner_name: Seq<char>,
    pub street: Seq<char>,
    pub street2: Seq<char>,
    pub city: Seq<char>,
    pub state: Seq<char>,
    pub zip_code: Seq<char>,
    pub eng_mfr_mdl: Seq<char>,
    pub year_mfr: Seq<char>,
    pub certification: Seq<char>,
    pub region: Seq<char>,
    pub county: Seq<char>,
    pub country: Seq<char>,
    pub air_worth_date: Seq<char>,
    pub cancel_date: Seq<char>,
    pub mode_s_code: Seq<char>,
    pub type_registrant: Seq<char>,
    pub export_country: Seq<char>,
    pub last_action_date: Seq<char>,
    pub cert_issue_date: Seq<char>,
    pub physical_street: Seq<char>,
    pub physical_street2: Seq<char>,
    pub physical_city: Seq<char>,
    pub physical_state: Seq<char>,
    pub physical_zip: Seq<char>,
    pub physical_county: Seq<char>,
    pub physical_country: Seq<char>,
    pub other_names: Seq<char>,
    pub kit_mfr: Seq<char>,
    pub kit_model: Seq<char>,
    pub mode_s_hex: Seq<char>,
}

impl View for DeregRecord {
    type V = DeregRecordView;

    open spec fn view(&self) -> DeregRecordView {
        DeregRecordView {
            n_number: self.n_number@,
            serial_number: self.serial_number@,
            mfr_mdl_code: self.mfr_mdl_code@,
            status_code: self.status_code@,
            owner_name: self.owner_name@,
            street: self.street@,
            street2: self.street2@,
            city: self.city@,
            state: self.state@,
            zip_code: self.zip_code@,
            eng_mfr_mdl: self.eng_mfr_mdl@,
            year_mfr: self.year_mfr@,
            certification: self.certification@,
            region: self.region@,
            county: self.county@,
            country: self.country@,
            air_worth_date: self.air_worth_date@,
            cancel_date: self.cancel_date@,
            mode_s_code: self.mode_s_code@,
            type_registrant: self.type_registrant@,
            export_country: self.export_country@,
            last_action_date: self.last_action_date@,
            cert_issue_date: self.cert_issue_date@,
            physical_street: self.physical_street@,
            physical_street2: self.physical_street2@,
            physical_city: self.physical_city@,
            physical_state: self.physical_state@,
            physical_zip: self.physical_zip@,
            physical_county: self.physical_county@,
            physical_country: self.physical_country@,
            other_names: self.other_names@,
            kit_mfr: self.kit_mfr@,
            kit_model: self.kit_model@,
            mode_s_hex: self.mode_s_hex@,
        }
    }
}

/// One recorded document (a `DOCINDEX.txt` row).
#[derive(Debug, Clone, PartialEq, Eq)]
pub struct DocumentRecord {
    pub type_collateral: String,
    pub collateral: String,
    pub n_number: String,
    pub party_name: String,
    pub document_id: String,
    pub receipt_date: String,
    pub processing_date: String,
    pub correction_date: String,
    pub correction_id: String,
    pub serial_id: String,
    pub doc_type: String,
}

pub struct DocumentRecordView {
    pub type_collateral: Seq<char>,
    pub collateral: Seq<char>,
    pub n_number: Seq<char>,
    pub party_name: Seq<char>,
    pub document_id: Seq<char>,
    pub receipt_date: Seq<char>,
    pub processing_date: Seq<char>,
    pub correction_date: Seq<char>,
    pub correction_id: Seq<char>,
    pub serial_id: Seq<char>,
    pub doc_type: Seq<char>,
}

impl View for DocumentRecord {
    type V = DocumentRecordView;

    open spec fn view(&self) -> DocumentRecordView {
        DocumentRecordView {
            type_collateral: self.type_collateral@,
            collateral: self.collateral@,
            n_number: self.n_number@,
            party_name: self.party_name@,
            document_id: self.document_id@,
            receipt_date: self.receipt_date@,
            processing_date: self.processing_date@,
            correction_date: self.correction_date@,
            correction_id: self.correction_id@,
            serial_id: self.serial_id@,
            doc_type: self.doc_type@,
        }
    }
}

/// One dealer certificate (a `DEALER.txt` row).
#[derive(Debug, Clone, PartialEq, Eq)]
pub struct DealerRecord {
    pub certificate_number: String,
    pub ownership: String,
    pub certificate_issue_date: String,
    pub expiration_date: String,
    pub expiration_flag: String,
    pub cumulative_issue_count: String,
    pub name: String,
    pub street: String,
    pub street2: String,
    pub city: String,
    pub state: String,
    pub zip_code: String,
    pub other_names: String,
}

pub struct DealerRecordView {
    pub certificate_number: Seq<char>,
    pub ownership: Seq<char>,
    pub certificate_issue_date: Seq<char>,
    pub expiration_date: Seq<char>,
    pub expiration_flag: Seq<char>,
    pub cumulative_issue_count: Seq<char>,
    pub name: Seq<char>,
    pub street: Seq<char>,
    pub street2: Seq<char>,
    pub city: Seq<char>,
    pub state: Seq<char>,
    pub zip_code: Seq<char>,
    pub other_names: Seq<char>,
}

impl View for DealerRecord {
    type V = DealerRecordView;

    open spec fn view(&self) -> DealerRecordView {
        DealerRecordView {
            certificate_number: self.certificate_number@,
            ownership: self.ownership@,
            certificate_issue_date: self.certificate_issue_date@,
            expiration_date: self.expiration_date@,
            expiration_flag: self.expiration_flag@,
            cumulative_issue_count: self.cumulative_issue_count@,
            name: self.name@,
            street: self.street@,
            street2: self.street2@,
            city: self.city@,
            state: self.state@,
            zip_code: self.zip_code@,
            other_names: self.other_names@,
        }
    }
}

/// One reserved N-number (a `RESERVED.txt` row).
#[derive(Debug, Clone, PartialEq, Eq)]
pub struct ReservedRecord {
    pub n_number: String,
    pub registrant: String,
    pub street: String,
    pub street2: String,
    pub city: String,
    pub state: String,
    pub zip_code: String,
    pub reserve_date: String,
    pub type_reservation: String,
    pub expiration_notice_date: String,
    pub n_number_for_change: String,
    pub purge_date: String,
}

pub struct ReservedRecordView {
    pub n_number: Seq<char>,
    pub registrant: Seq<char>,
    pub street: Seq<char>,
    pub street2: Seq<char>,
    pub city: Seq<char>,
    pub state: Seq<char>,
    pub zip_code: Seq<char>,
    pub reserve_date: Seq<char>,
    pub type_reservation: Seq<char>,
    pub expiration_notice_date: Seq<char>,
    pub n_number_for_change: Seq<char>,
    pub purge_date: Seq<char>,
}

impl View for ReservedRecord {
    type V = ReservedRecordView;

    open spec fn view(&self) -> ReservedRecordView {
        ReservedRecordView {
            n_number: self.n_number@,
            registrant: self.registrant@,
            street: self.street@,
            street2: self.street2@,
            city: self.city@,
            state: self.state@,
            zip_code: self.zip_code@,
            reserve_date: self.reserve_date@,
            type_reservation: self.type_reservation@,
            expiration_notice_date: self.expiration_notice_date@,
            n_number_for_change: self.n_number_for_change@,
            purge_date: self.purge_date@,
        }
    }
}

/// A dump row that did not parse, kept with its position and bytes.
#[derive(Debug, Clone)]
pub struct ParseError {
    pub file_name: String,
    pub line_number: usize,
    pub raw_line: Vec<u8>,
    pub error: String,
}

pub struct ParseErrorView {
    pub file_name: Seq<char>,
    pub line_number: int,
    pub raw_line: Seq<u8>,
    pub error: Seq<char>,
}

impl View for ParseError {
    type V = ParseErrorView;

    open spec fn view(&self) -> ParseErrorView {
        ParseErrorView {
            file_name: self.file_name@,
            line_number: self.line_number as int,
            raw_line: self.raw_line@,
            error: self.error@,
        }
    }
}

/// The records of one dump file and its quarantined rows, in file order.
#[derive(Debug)]
pub struct ParsedFile<T> {
    pub records: Vec<T>,
    pub errors: Vec<ParseError>,
}

pub struct ParsedFileView<V> {
    pub records: Seq<V>,
    pub errors: Seq<ParseErrorView>,
}

impl<T: View> View for ParsedFile<T> {
    type V = ParsedFileView<T::V>;

    open spec fn view(&self) -> ParsedFileView<T::V> {
        ParsedFileView {
            records: self.records@.map_values(|r: T| r@),
            errors: self.errors@.map_values(|e: ParseError| e@),
        }
    }
}

impl<T> Default for ParsedFile<T> {
    fn default() -> (r: Self)
        ensures
            r.records@.len() == 0,
            r.errors@.len() == 0,
    {
        Self { records: Vec::new(), errors: Vec::new() }
    }
}

/// The trimmed, non-empty names among `names`, in order.
pub open spec fn kept_names(names: Seq<Seq<char>>) -> Seq<Seq<char>>
    decreases names.len(),
{
    if names.len() == 0 {
        Seq::empty()
    } else {
        let prev = kept_names(names.drop_last());
        let t = trim_white(names.last());
        if t.len() == 0 {
            prev
        } else {
            prev.push(t)
        }
    }
}

/// `parts` joined with `|` between consecutive parts.
pub open spec fn join_bar(parts: Seq<Seq<char>>) -> Seq<char>
    decreases parts.len(),
{
    if parts.len() == 0 {
        Seq::empty()
    } else if parts.len() == 1 {
        parts[0]
    } else {
        join_bar(parts.drop_last()) + seq!['|'] + parts.last()
    }
}

/// The co-owner names, trimmed, blanks dropped, joined with `|`.
pub open spec fn joined_names(names: Seq<Seq<char>>) -> Seq<char> {
    join_bar(kept_names(names))
}

pub fn join_other_names(names: &[String]) -> (r: String)
    ensures
        r@ == joined_names(names@.map_values(|s: String| s@)),
{
    let ghost views = names@.map_values(|s: String| s@);
    let n = names.len();
    let mut out: Vec<char> = Vec::new();
    let mut any = false;
    let mut i: usize = 0;
    while i < n
        invariant
            i <= n == names@.len() == views.len(),
            views == names@.map_values(|s: String| s@),
            out@ == join_bar(kept_names(views.subrange(0, i as int))),
            any == (kept_names(views.subrange(0, i as int)).len() > 0),
        decreases n - i,
    {
        let ghost prev = kept_names(views.subrange(0, i as int));
        assert(views.subrange(0, i + 1).drop_last() =~= views.subrange(0, i as int));
        assert(views.subrange(0, i + 1).last() == names@[i as int]@);
        let cs = chars_of(names[i].as_str());
        let t = trim_vec(cs.as_slice(), CharClass::White);
        if t.len() > 0 {
            if any {
                out.push('|');
            }
            push_all(&mut out, t.as_slice());
            any = true;
            assert(prev.push(t@).drop_last() =~= prev);
            assert(out@ =~= join_bar(prev.push(t@)));
        }
        i = i + 1;
    }
    assert(views.subrange(0, n as int) =~= views);
    text_of(out.as_slice())
}

/// What `blake3::hash(bytes).to_hex()` renders.
pub uninterp spec fn blake3_hex(bytes: Seq<u8>) -> Seq<char>;

pub open spec fn is_lower_hex_digit(c: char) -> bool {
    ('0' <= c && c <= '9') || ('a' <= c && c <= 'f')
}

/// A BLAKE3 digest as text: 64 lowercase hexadecimal digits.
pub open spec fn is_hex_digest(s: Seq<char>) -> bool {
    s.len() == 64 && forall|i: int| 0 <= i < 64 ==> is_lower_hex_digit(#[trigger] s[i])
}

/// `blake3::hash(bytes).to_hex()`, as a `String`.
///
/// Trusted: the digest is named `blake3_hex(bytes)`; blake3 documents `to_hex` as
/// lowercase hexadecimal of the 32-byte hash, so 64 characters `0-9a-f`.
#[verifier::external_body]
fn blake3_hex_digest(bytes: &[u8]) -> (r: String)
    ensures
        r@ == blake3_hex(bytes@),
        r@.len() == 64,
        forall|i: int| 0 <= i < 64 ==> is_lower_hex_digit(#[trigger] r@[i]),
{
    blake3::hash(bytes).to_hex().to_string()
}

/// The bytes that the state hash covers: each part's UTF-8 bytes followed by a 0 byte.
pub open spec fn hash_input(parts: Seq<Seq<char>>) -> Seq<u8>
    decreases parts.len(),
{
    if parts.len() == 0 {
        Seq::empty()
    } else {
        hash_input(parts.drop_last()) + vstd::utf8::encode_utf8(parts.last()) + seq![0u8]
    }
}

/// No part holds a NUL character (the separator that `hash_input` puts after each part).
pub open spec fn nul_free(parts: Seq<Seq<char>>) -> bool {
    forall|i: int, j: int|
        0 <= i < parts.len() && 0 <= j < parts[i].len() ==> #[trigger] parts[i][j] != '\0'
}

proof fn lemma_scalar_bytes_nonzero(v: u32)
    requires
        vstd::utf8::is_scalar(v),
        v != 0,
    ensures
        forall|j: int|
            0 <= j < vstd::utf8::encode_scalar(v).len() ==> #[trigger] vstd::utf8::encode_scalar(
                v,
            )[j] != 0,
{
    if vstd::utf8::has_width_1_encoding(v) {
        assert(vstd::utf8::leading_byte_width_1(v) != 0) by (bit_vector)
            requires
                1 <= v <= 0x7F,
        ;
    } else {
        assert(vstd::utf8::leading_byte_width_2(v) != 0) by (bit_vector);
        assert(vstd::utf8::leading_byte_width_3(v) != 0) by (bit_vector);
        assert(vstd::utf8::leading_byte_width_4(v) != 0) by (bit_vector);
        assert(vstd::utf8::last_continuation_byte(v) != 0) by (bit_vector);
        assert(vstd::utf8::second_last_continuation_byte(v) != 0) by (bit_vector);
        assert(vstd::utf8::third_last_continuation_byte(v) != 0) by (bit_vector);
    }
}

/// The UTF-8 bytes of a text without NUL characters hold no 0 byte.
proof fn lemma_encode_nonzero(chars: Seq<char>)
    requires
        forall|j: int| 0 <= j < chars.len() ==> #[trigger] chars[j] != '\0',
    ensures
        forall|j: int|
            0 <= j < vstd::utf8::encode_utf8(chars).len() ==> #[trigger] vstd::utf8::encode_utf8(
                chars,
            )[j] != 0,
    decreases chars.len(),
{
    if chars.len() > 0 {
        let rest = chars.drop_first();
        assert forall|j: int| 0 <= j < rest.len() implies #[trigger] rest[j] != '\0' by {
            assert(rest[j] == chars[j + 1]);
        }
        lemma_encode_nonzero(rest);
        vstd::utf8::char_is_scalar(chars[0]);
        assert(chars[0] as u32 != 0) by {
            vstd::utf8::char_u32_cast(chars[0], chars[0] as u32);
            vstd::utf8::char_u32_cast('\0', '\0' as u32);
        }
        lemma_scalar_bytes_nonzero(chars[0] as u32);
        let head = vstd::utf8::encode_scalar(chars[0] as u32);
        let tail = vstd::utf8::encode_utf8(rest);
        assert forall|j: int| 0 <= j < (head + tail).len() implies #[trigger] (head + tail)[j]
            != 0 by {
            if j < head.len() {
                assert((head + tail)[j] == head[j]);
            } else {
                assert((head + tail)[j] == tail[j - head.len()]);
            }
        }
    }
}

proof fn lemma_hash_input_ends_with_separator(parts: Seq<Seq<char>>)
    ensures
        parts.len() == 0 <==> hash_input(parts).len() == 0,
        parts.len() > 0 ==> hash_input(parts).last() == 0,
{
    if parts.len() > 0 {
        let h = hash_input(parts.drop_last()) + vstd::utf8::encode_utf8(parts.last());
        assert(hash_input(parts) == h + seq![0u8]);
        assert((h + seq![0u8]).last() == 0);
    }
}

/// The bytes hashed for a state keep the tracked columns apart: two column lists
/// without NUL characters give the same bytes only when they are the same list, so
/// a state hash stays the same across a change of state only by a BLAKE3 collision.
pub proof fn lemma_hash_input_unambiguous(a: Seq<Seq<char>>, b: Seq<Seq<char>>)
    requires
        nul_free(a),
        nul_free(b),
        hash_input(a) == hash_input(b),
    ensures
        a == b,
    decreases a.len(),
{
    lemma_hash_input_ends_with_separator(a);
    lemma_hash_input_ends_with_separator(b);
    if a.len() > 0 && b.len() > 0 {
        let a0 = a.drop_last();
        let b0 = b.drop_last();
        let ea = vstd::utf8::encode_utf8(a.last());
        let eb = vstd::utf8::encode_utf8(b.last());
        let ha = hash_input(a0);
        let hb = hash_input(b0);
        assert(nul_free(a0)) by {
            assert forall|i: int, j: int|
                0 <= i < a0.len() && 0 <= j < a0[i].len() implies #[trigger] a0[i][j] != '\0' by {
                assert(a0[i] == a[i]);
            }
        }
        assert(nul_free(b0)) by {
            assert forall|i: int, j: int|
                0 <= i < b0.len() && 0 <= j < b0[i].len() implies #[trigger] b0[i][j] != '\0' by {
                assert(b0[i] == b[i]);
            }
        }
        assert forall|j: int| 0 <= j < a.last().len() implies #[trigger] a.last()[j] != '\0' by {
            assert(a[a.len() - 1][j] != '\0');
        }
        assert forall|j: int| 0 <= j < b.last().len() implies #[trigger] b.last()[j] != '\0' by {
            assert(b[b.len() - 1][j] != '\0');
        }
        lemma_encode_nonzero(a.last());
        lemma_encode_nonzero(b.last());
        lemma_hash_input_ends_with_separator(a0);
        lemma_hash_input_ends_with_separator(b0);
        let x = ha + ea;
        let y = hb + eb;
        assert(hash_input(a) == x + seq![0u8]);
        assert(hash_input(b) == y + seq![0u8]);
        assert(x =~= (x + seq![0u8]).drop_last());
        assert(y =~= (y + seq![0u8]).drop_last());
        assert(x == y);
        if ea.len() < eb.len() {
            // the byte before `ea` ends `ha` (a 0), yet it lies inside `eb`
            let p = x.len() - ea.len() - 1;
            if ha.len() == 0 {
                assert(x.len() == ea.len());
            } else {
                assert(x[p] == ha[ha.len() - 1]);
                assert(y[p] == eb[p - hb.len()]);
            }
        } else if eb.len() < ea.len() {
            let p = y.len() - eb.len() - 1;
            if hb.len() == 0 {
                assert(y.len() == eb.len());
            } else {
                assert(y[p] == hb[hb.len() - 1]);
                assert(x[p] == ea[p - ha.len()]);
            }
        }
        assert(ea.len() == eb.len());
        assert(ha =~= x.subrange(0, ha.len() as int));
        assert(hb =~= y.subrange(0, hb.len() as int));
        assert(ea =~= x.subrange(ha.len() as int, x.len() as int));
        assert(eb =~= y.subrange(hb.len() as int, y.len() as int));
        vstd::utf8::encode_utf8_decode_utf8(a.last());
        vstd::utf8::encode_utf8_decode_utf8(b.last());
        lemma_hash_input_unambiguous(a0, b0);
        assert(a =~= a0.push(a.last()));
        assert(b =~= b0.push(b.last()));
    }
}

fn push_bytes(out: &mut Vec<u8>, b: &[u8])
    ensures
        final(out)@ == old(out)@ + b@,
{
    let n = b.len();
    let mut i: usize = 0;
    while i < n
        invariant
            i <= n == b@.len(),
            out@ == old(out)@ + b@.subrange(0, i as int),
        decreases n - i,
    {
        out.push(b[i]);
        assert(b@.subrange(0, i + 1) =~= b@.subrange(0, i as int).push(b@[i as int]));
        i = i + 1;
    }
    assert(b@.subrange(0, n as int) =~= b@);
}

/// The BLAKE3 digest of a whole downloaded dump, as lowercase hex: the run's
/// `zip_hash`, compared against the last successful run's.
pub fn zip_hash(bytes: &[u8]) -> (r: String)
    ensures
        r@ == blake3_hex(bytes@),
        is_hex_digest(r@),
{
    blake3_hex_digest(bytes)
}

/// BLAKE3 over each part's bytes followed by a 0 byte, as lowercase hex.
fn hash_parts(parts: &[&str]) -> (r: String)
    ensures
        r@ == blake3_hex(hash_input(parts@.map_values(|p: &str| p@))),
        is_hex_digest(r@),
{
    let ghost views = parts@.map_values(|p: &str| p@);
    let n = parts.len();
    let mut buf: Vec<u8> = Vec::new();
    let mut i: usize = 0;
    while i < n
        invariant
            i <= n == parts@.len() == views.len(),
            views == parts@.map_values(|p: &str| p@),
            buf@ == hash_input(views.subrange(0, i as int)),
        decreases n - i,
    {
        let b = parts[i].as_bytes();
        push_bytes(&mut buf, b);
        buf.push(0);
        assert(views.subrange(0, i + 1).drop_last() =~= views.subrange(0, i as int));
        assert(buf@ =~= hash_input(views.subrange(0, i + 1)));
        i = i + 1;
    }
    assert(views.subrange(0, n as int) =~= views);
    blake3_hex_digest(buf.as_slice())
}

/// `MASTER.txt`: the columns whose change makes a new ownership version (all but the N-number).
pub open spec fn master_tracked(r: MasterRecordView) -> Seq<Seq<char>> {
    seq![
        r.serial_number, r.mfr_mdl_code, r.eng_mfr_mdl, r.year_mfr, r.type_registrant,
        r.owner_name, r.street, r.street2, r.city, r.state, r.zip_code, r.region, r.county,
        r.country, r.last_action_date, r.cert_issue_date, r.certification, r.type_aircraft,
        r.type_engine, r.status_code, r.mode_s_code, r.fractional_owner, r.air_worth_date,
        r.other_names, r.expiration_date, r.unique_id, r.kit_mfr, r.kit_model, r.mode_s_hex,
    ]
}

/// `DEREG.txt`: the columns whose change makes a new deregistration version.
pub open spec fn dereg_tracked(r: DeregRecordView) -> Seq<Seq<char>> {
    seq![
        r.serial_number, r.mfr_mdl_code, r.status_code, r.owner_name, r.street, r.street2,
        r.city, r.state, r.zip_code, r.eng_mfr_mdl, r.year_mfr, r.certification, r.region,
        r.county, r.country, r.air_worth_date, r.cancel_date, r.mode_s_code,
        r.type_registrant, r.export_country, r.last_action_date, r.cert_issue_date,
        r.physical_street, r.physical_street2, r.physical_city, r.physical_state,
        r.physical_zip, r.physical_county, r.physical_country, r.other_names, r.kit_mfr,
        r.kit_model, r.mode_s_hex,
    ]
}

impl MasterRecord {
    pub fn state_hash(&self) -> (r: String)
        ensures
            r@ == blake3_hex(hash_input(master_tracked(self@))),
            is_hex_digest(r@),
    {
        let mut parts: Vec<&str> = Vec::new();
        parts.push(self.serial_number.as_str());
        parts.push(self.mfr_mdl_code.as_str());
        parts.push(self.eng_mfr_mdl.as_str());
        parts.push(self.year_mfr.as_str());
        parts.push(self.type_registrant.as_str());
        parts.push(self.owner_name.as_str());
        parts.push(self.street.as_str());
        parts.push(self.street2.as_str());
        parts.push(self.city.as_str());
        parts.push(self.state.as_str());
        parts.push(self.zip_code.as_str());
        parts.push(self.region.as_str());
        parts.push(self.county.as_str());
        parts.push(self.country.as_str());
        parts.push(self.last_action_date.as_str());
        parts.push(self.cert_issue_date.as_str());
        parts.push(self.certification.as_str());
        parts.push(self.type_aircraft.as_str());
        parts.push(self.type_engine.as_str());
        parts.push(self.status_code.as_str());
        parts.push(self.mode_s_code.as_str());
        parts.push(self.fractional_owner.as_str());
        parts.push(self.air_worth_date.as_str());
        parts.push(self.other_names.as_str());
        parts.push(self.expiration_date.as_str());
        parts.push(self.unique_id.as_str());
        parts.push(self.kit_mfr.as_str());
        parts.push(self.kit_model.as_str());
        parts.push(self.mode_s_hex.as_str());
        assert(parts@.map_values(|p: &str| p@) =~= master_tracked(self@));
        hash_parts(parts.as_slice())
    }
}

impl DeregRecord {
    pub fn state_hash(&self) -> (r: String)
        ensures
            r@ == blake3_hex(hash_input(dereg_tracked(self@))),
            is_hex_digest(r@),
    {
        let mut parts: Vec<&str> = Vec::new();
        parts.push(self.serial_number.as_str());
        parts.push(self.mfr_mdl_code.as_str());
        parts.push(self.status_code.as_str());
        parts.push(self.owner_name.as_str());
        parts.push(self.street.as_str());
        parts.push(self.street2.as_str());
        parts.push(self.city.as_str());
        parts.push(self.state.as_str());
        parts.push(self.zip_code.as_str());
        parts.push(self.eng_mfr_mdl.as_str());
        parts.push(self.year_mfr.as_str());
        parts.push(self.certification.as_str());
        parts.push(self.region.as_str());
        parts.push(self.county.as_str());
        parts.push(self.country.as_str());
        parts.push(self.air_worth_date.as_str());
        parts.push(self.cancel_date.as_str());
        parts.push(self.mode_s_code.as_str());
        parts.push(self.type_registrant.as_str());
        parts.push(self.export_country.as_str());
        parts.push(self.last_action_date.as_str());
        parts.push(self.cert_issue_date.as_str());
        parts.push(self.physical_street.as_str());
        parts.push(self.physical_street2.as_str());
        parts.push(self.physical_city.as_str());
        parts.push(self.physical_state.as_str());
        parts.push(self.physical_zip.as_str());
        parts.push(self.physical_county.as_str());
        parts.push(self.physical_country.as_str());
        parts.push(self.other_names.as_str());
        parts.push(self.kit_mfr.as_str());
        parts.push(self.kit_model.as_str());
        parts.push(self.mode_s_hex.as_str());
        assert(parts@.map_values(|p: &str| p@) =~= dereg_tracked(self@));
        hash_parts(parts.as_slice())
    }
}

/// The N-number of a document's collateral: set only for aircraft collateral (type `1`).
pub open spec fn collateral_n_number(type_collateral: Seq<char>, collateral: Seq<char>) -> Seq<
    char,
> {
    if type_collateral == "1"@ {
        canonical_n_number_spec(collateral)
    } else {
        Seq::empty()
    }
}

impl DocumentRecord {
    pub fn n_number_from_collateral(type_collateral: &str, collateral: &str) -> (r: String)
        ensures
            r@ == collateral_n_number(type_collateral@, collateral@),
    {
        if same_text(type_collateral, "1") {
            canonical_n_number(collateral)
        } else {
            String::new()
        }
    }
}

/// The label of the registrant kind code `code`.
pub open spec fn decode_type_registrant_spec(code: Seq<char>) -> Seq<char> {
    let k = code;
    if k == "1"@ {
        "Individual"@
    } else if k == "2"@ {
        "Partnership"@
    } else if k == "3"@ {
        "Corporation"@
    } else if k == "4"@ {
        "Co-Owned"@
    } else if k == "5"@ {
        "Government"@
    } else if k == "7"@ {
        "LLC"@
    } else if k == "8"@ {
        "Non-Citizen Corporation"@
    } else if k == "9"@ {
        "Non-Citizen Co-Owned"@
    } else {
        "Unknown"@
    }
}

pub fn decode_type_registrant(code: &str) -> (r: &'static str)
    ensures
        r@ == decode_type_registrant_spec(code@),
{
    let k = code;
    if same_text(k, "1") {
        return "Individual";
    }
    if same_text(k, "2") {
        return "Partnership";
    }
    if same_text(k, "3") {
        return "Corporation";
    }
    if same_text(k, "4") {
        return "Co-Owned";
    }
    if same_text(k, "5") {
        return "Government";
    }
    if same_text(k, "7") {
        return "LLC";
    }
    if same_text(k, "8") {
        return "Non-Citizen Corporation";
    }
    if same_text(k, "9") {
        return "Non-Citizen Co-Owned";
    }
    "Unknown"
}

/// The label of the aircraft kind code `code`.
pub open spec fn decode_type_aircraft_spec(code: Seq<char>) -> Seq<char> {
    let k = code;
    if k == "1"@ {
        "Glider"@
    } else if k == "2"@ {
        "Balloon"@
    } else if k == "3"@ {
        "Blimp/Dirigible"@
    } else if k == "4"@ {
        "Fixed wing single engine"@
    } else if k == "5"@ {
        "Fixed wing multi engine"@
    } else if k == "6"@ {
        "Rotorcraft"@
    } else if k == "7"@ {
        "Weight-shift-control"@
    } else if k == "8"@ {
        "Powered Parachute"@
    } else if k == "9"@ {
        "Gyroplane"@
    } else if k == "H"@ {
        "Hybrid Lift"@
    } else if k == "O"@ {
        "Other"@
    } else {
        "Unknown"@
    }
}

pub fn decode_type_aircraft(code: &str) -> (r: &'static str)
    ensures
        r@ == decode_type_aircraft_spec(code@),
{
    let k = code;
    if same_text(k, "1") {
        return "Glider";
    }
    if same_text(k, "2") {
        return "Balloon";
    }
    if same_text(k, "3") {
        return "Blimp/Dirigible";
    }
    if same_text(k, "4") {
        return "Fixed wing single engine";
    }
    if same_text(k, "5") {
        return "Fixed wing multi engine";
    }
    if same_text(k, "6") {
        return "Rotorcraft";
    }
    if same_text(k, "7") {
        return "Weight-shift-control";
    }
    if same_text(k, "8") {
        return "Powered Parachute";
    }
    if same_text(k, "9") {
        return "Gyroplane";
    }
    if same_text(k, "H") {
        return "Hybrid Lift";
    }
    if same_text(k, "O") {
        return "Other";
    }
    "Unknown"
}

/// The label of the engine kind code `code` (trimmed).
pub open spec fn decode_type_engine_spec(code: Seq<char>) -> Seq<char> {
    let k = trim_white(code);
    if k == "0"@ {
        "None"@
    } else if k == "1"@ {
        "Reciprocating"@
    } else if k == "2"@ {
        "Turbo-prop"@
    } else if k == "3"@ {
        "Turbo-shaft"@
    } else if k == "4"@ {
        "Turbo-jet"@
    } else if k == "5"@ {
        "Turbo-fan"@
    } else if k == "6"@ {
        "Ramjet"@
    } else if k == "7"@ {
        "2 Cycle"@
    } else if k == "8"@ {
        "4 Cycle"@
    } else if k == "9"@ {
        "Unknown"@
    } else if k == "10"@ {
        "Electric"@
    } else if k == "11"@ {
        "Rotary"@
    } else {
        "Unknown"@
    }
}

pub fn decode_type_engine(code: &str) -> (r: &'static str)
    ensures
        r@ == decode_type_engine_spec(code@),
{
    let cs = chars_of(code);
    let t = trim_vec(cs.as_slice(), CharClass::White);
    let key = text_of(t.as_slice());
    let k = key.as_str();
    if same_text(k, "0") {
        return "None";
    }
    if same_text(k, "1") {
        return "Reciprocating";
    }
    if same_text(k, "2") {
        return "Turbo-prop";
    }
    if same_text(k, "3") {
        return "Turbo-shaft";
    }
    if same_text(k, "4") {
        return "Turbo-jet";
    }
    if same_text(k, "5") {
        return "Turbo-fan";
    }
    if same_text(k, "6") {
        return "Ramjet";
    }
    if same_text(k, "7") {
        return "2 Cycle";
    }
    if same_text(k, "8") {
        return "4 Cycle";
    }
    if same_text(k, "9") {
        return "Unknown";
    }
    if same_text(k, "10") {
        return "Electric";
    }
    if same_text(k, "11") {
        return "Rotary";
    }
    "Unknown"
}

/// The label of the registration status code `code` (trimmed).
pub open spec fn decode_status_code_spec(code: Seq<char>) -> Seq<char> {
    let k = trim_white(code);
    if k == "A"@ {
        "Triennial form mailed, not returned"@
    } else if k == "D"@ {
        "Expired Dealer"@
    } else if k == "E"@ {
        "Registration revoked"@
    } else if k == "M"@ {
        "Registered to manufacturer under dealer certificate"@
    } else if k == "N"@ {
        "Non-citizen corporation missing flight hour report"@
    } else if k == "R"@ {
        "Registration pending"@
    } else if k == "S"@ {
        "Second triennial form mailed"@
    } else if k == "T"@ {
        "Valid registration (trainee)"@
    } else if k == "V"@ {
        "Valid Registration"@
    } else if k == "W"@ {
        "Certificate ineffective or invalid"@
    } else if k == "X"@ {
        "Enforcement letter"@
    } else if k == "Z"@ {
        "Permanent reserved"@
    } else if k == "1"@ {
        "Triennial form undeliverable"@
    } else if k == "2"@ {
        "N-Number assigned, not yet registered"@
    } else if k == "3"@ {
        "N-Number assigned as non-type-certificated, not yet registered"@
    } else if k == "4"@ {
        "N-Number assigned as import, not yet registered"@
    } else if k == "5"@ {
        "Reserved N-Number"@
    } else if k == "6"@ {
        "Administratively canceled"@
    } else if k == "7"@ {
        "Sale reported"@
    } else if k == "13"@ {
        "Registration expired"@
    } else if k == "16"@ {
        "Registration expired – pending cancellation"@
    } else if k == "18"@ {
        "Sale reported – canceled"@
    } else if k == "22"@ {
        "Revoked – canceled"@
    } else if k == "27"@ {
        "Registration expired"@
    } else {
        "See FAA status code"@
    }
}

pub fn decode_status_code(code: &str) -> (r: &'static str)
    ensures
        r@ == decode_status_code_spec(code@),
{
    let cs = chars_of(code);
    let t = trim_vec(cs.as_slice(), CharClass::White);
    let key = text_of(t.as_slice());
    let k = key.as_str();
    if same_text(k, "A") {
        return "Triennial form mailed, not returned";
    }
    if same_text(k, "D") {
        return "Expired Dealer";
    }
    if same_text(k, "E") {
        return "Registration revoked";
    }
    if same_text(k, "M") {
        return "Registered to manufacturer under dealer certificate";
    }
    if same_text(k, "N") {
        return "Non-citizen corporation missing flight hour report";
    }
    if same_text(k, "R") {
        return "Registration pending";
    }
    if same_text(k, "S") {
        return "Second triennial form mailed";
    }
    if same_text(k, "T") {
        return "Valid registration (trainee)";
    }
    if same_text(k, "V") {
        return "Valid Registration";
    }
    if same_text(k, "W") {
        return "Certificate ineffective or invalid";
    }
    if same_text(k, "X") {
        return "Enforcement letter";
    }
    if same_text(k, "Z") {
        return "Permanent reserved";
    }
    if same_text(k, "1") {
        return "Triennial form undeliverable";
    }
    if same_text(k, "2") {
        return "N-Number assigned, not yet registered";
    }
    if same_text(k, "3") {
        return "N-Number assigned as non-type-certificated, not yet registered";
    }
    if same_text(k, "4") {
        return "N-Number assigned as import, not yet registered";
    }
    if same_text(k, "5") {
        return "Reserved N-Number";
    }
    if same_text(k, "6") {
        return "Administratively canceled";
    }
    if same_text(k, "7") {
        return "Sale reported";
    }
    if same_text(k, "13") {
        return "Registration expired";
    }
    if same_text(k, "16") {
        return "Registration expired – pending cancellation";
    }
    if same_text(k, "18") {
        return "Sale reported – canceled";
    }
    if same_text(k, "22") {
        return "Revoked – canceled";
    }
    if same_text(k, "27") {
        return "Registration expired";
    }
    "See FAA status code"
}

/// The columns of a `MASTER.txt` record other than its N-number, in the order of
/// the record layout.
pub open spec fn master_columns(r: MasterRecordView) -> Seq<Seq<char>> {
    seq![
        r.serial_number,
        r.mfr_mdl_code,
        r.eng_mfr_mdl,
        r.year_mfr,
        r.type_registrant,
        r.owner_name,
        r.street,
        r.street2,
        r.city,
        r.state,
        r.zip_code,
        r.region,
        r.county,
        r.country,
        r.last_action_date,
        r.cert_issue_date,
        r.certification,
        r.type_aircraft,
        r.type_engine,
        r.status_code,
        r.mode_s_code,
        r.fractional_owner,
        r.air_worth_date,
        r.other_names,
        r.expiration_date,
        r.unique_id,
        r.kit_mfr,
        r.kit_model,
        r.mode_s_hex,
    ]
}

/// The columns of a `DEREG.txt` record other than its N-number, in the order of
/// the record layout.
pub open spec fn dereg_columns(r: DeregRecordView) -> Seq<Seq<char>> {
    seq![
        r.serial_number,
        r.mfr_mdl_code,
        r.status_code,
        r.owner_name,
        r.street,
        r.street2,
        r.city,
        r.state,
        r.zip_code,
        r.eng_mfr_mdl,
        r.year_mfr,
        r.certification,
        r.region,
        r.county,
        r.country,
        r.air_worth_date,
        r.cancel_date,
        r.mode_s_code,
        r.type_registrant,
        r.export_country,
        r.last_action_date,
        r.cert_issue_date,
        r.physical_street,
        r.physical_street2,
        r.physical_city,
        r.physical_state,
        r.physical_zip,
        r.physical_county,
        r.physical_country,
        r.other_names,
        r.kit_mfr,
        r.kit_model,
        r.mode_s_hex,
    ]
}

/// A MASTER state hash covers every column but the N-number, in layout order, and
/// tells versions apart: for records whose columns hold no NUL, two records hash the
/// same bytes exactly when they agree on every column other than the N-number. So a
/// change of any one column (the status code, say) changes the hashed bytes, and a
/// new N-number alone does not.
pub proof fn lemma_master_state_hash_columns(r1: MasterRecordView, r2: MasterRecordView)
    ensures
        hash_input(master_tracked(r1)) == hash_input(master_columns(r1)),
        master_columns(r1) == master_columns(r2) ==> hash_input(master_tracked(r1)) == hash_input(
            master_tracked(r2),
        ),
        nul_free(master_columns(r1)) && nul_free(master_columns(r2)) ==> (hash_input(
            master_tracked(r1),
        ) == hash_input(master_tracked(r2)) <==> master_columns(r1) == master_columns(r2)),
{
    assert(master_tracked(r1) =~= master_columns(r1));
    assert(master_tracked(r2) =~= master_columns(r2));
    if nul_free(master_columns(r1)) && nul_free(master_columns(r2)) && hash_input(
        master_tracked(r1),
    ) == hash_input(master_tracked(r2)) {
        lemma_hash_input_unambiguous(master_columns(r1), master_columns(r2));
    }
}

/// A DEREG state hash covers every column but the N-number, in layout order, and
/// tells versions apart: for records whose columns hold no NUL, two records hash the
/// same bytes exactly when they agree on every column other than the N-number (a
/// changed cancel date or export country changes the hashed bytes).
pub proof fn lemma_dereg_state_hash_columns(r1: DeregRecordView, r2: DeregRecordView)
    ensures
        hash_input(dereg_tracked(r1)) == hash_input(dereg_columns(r1)),
        dereg_columns(r1) == dereg_columns(r2) ==> hash_input(dereg_tracked(r1)) == hash_input(
            dereg_tracked(r2),
        ),
        nul_free(dereg_columns(r1)) && nul_free(dereg_columns(r2)) ==> (hash_input(
            dereg_tracked(r1),
        ) == hash_input(dereg_tracked(r2)) <==> dereg_columns(r1) == dereg_columns(r2)),
{
    assert(dereg_tracked(r1) =~= dereg_columns(r1));
    assert(dereg_tracked(r2) =~= dereg_columns(r2));
    if nul_free(dereg_columns(r1)) && nul_free(dereg_columns(r2)) && hash_input(
        dereg_tracked(r1),
    ) == hash_input(dereg_tracked(r2)) {
        lemma_hash_input_unambiguous(dereg_columns(r1), dereg_columns(r2));
    }
}

} // verus!
