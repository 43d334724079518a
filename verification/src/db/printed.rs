//! Laws on the printed text of lookups, owner searches and run status (each line
//! shows the column its label names), and on the stored co-owner names.

use vstd::prelude::*;

use crate::db::query::{
    aircraft_text, block, dereg_line, dereg_line_fn, document_line, document_line_fn,
    fmt_opt_text, history_line, history_line_fn, lines_of, lookup_text, make_text, opt_or,
    or_dash, owner_hits_text, owner_line, owner_line_fn, pad_right, plane_text, prefix_query,
    status_text, street_text, AircraftVersionView, DeregVersionView, DocumentHitView,
    IngestStatusView, LookupResultView, OwnerHitView,
};
use crate::model::{
    decode_status_code_spec, decode_type_aircraft_spec, decode_type_engine_spec, join_bar,
    joined_names, kept_names,
    decode_type_registrant_spec,
};
use crate::text::{signed_decimal, trim_white};

verus! {

/// `t` occurs in `s` at some position.
pub open spec fn has_part(s: Seq<char>, t: Seq<char>) -> bool {
    exists|k: int| 0 <= k && k + t.len() <= s.len() && #[trigger] s.subrange(k, k + t.len()) == t
}

proof fn lemma_part_self(t: Seq<char>)
    ensures
        has_part(t, t),
{
    let k: int = 0;
    assert(t.subrange(k, k + t.len()) =~= t);
}

proof fn lemma_part_suffix(a: Seq<char>, t: Seq<char>)
    ensures
        has_part(a + t, t),
{
    let k = a.len() as int;
    assert((a + t).subrange(k, k + t.len()) =~= t);
}

proof fn lemma_part_extend_all(s: Seq<char>, y: Seq<char>)
    ensures
        forall|t: Seq<char>| has_part(s, t) ==> #[trigger] has_part(s + y, t),
{
    assert forall|t: Seq<char>| has_part(s, t) implies #[trigger] has_part(s + y, t) by {
        lemma_part_extend(s, t, y);
    }
}

proof fn lemma_part_extend(s: Seq<char>, t: Seq<char>, y: Seq<char>)
    requires
        has_part(s, t),
    ensures
        has_part(s + y, t),
{
    let k = choose|k: int| 0 <= k && k + t.len() <= s.len() && #[trigger] s.subrange(k, k
        + t.len()) == t;
    assert((s + y).subrange(k, k + t.len()) =~= s.subrange(k, k + t.len()));
}

proof fn lemma_part_shift(a: Seq<char>, s: Seq<char>, b: Seq<char>)
    ensures
        forall|t: Seq<char>| has_part(s, t) ==> #[trigger] has_part(a + s + b, t),
{
    assert forall|t: Seq<char>| has_part(s, t) implies #[trigger] has_part(a + s + b, t) by {
        let k = choose|k: int| 0 <= k && k + t.len() <= s.len() && #[trigger] s.subrange(
            k,
            k + t.len(),
        ) == t;
        let j = k + a.len();
        assert((a + s + b).subrange(j, j + t.len()) =~= s.subrange(k, k + t.len()));
    }
}

/// How a text column is shown: `-` when it is empty.
pub open spec fn shown(s: Seq<char>) -> Seq<char> {
    if s.len() == 0 {
        "-"@
    } else {
        s
    }
}

/// How the two street lines are shown: the non-empty ones, joined with `, `; `-`
/// when both are empty.
pub open spec fn shown_address(street: Seq<char>, street2: Seq<char>) -> Seq<char> {
    if street.len() > 0 && street2.len() > 0 {
        street + ", "@ + street2
    } else if street.len() > 0 {
        street
    } else if street2.len() > 0 {
        street2
    } else {
        "-"@
    }
}

/// How a make is shown: `mfr model` when both names are known and the maker is not
/// empty, else `code` and the code (`-` when empty).
pub open spec fn shown_make(
    mfr: Option<Seq<char>>,
    model: Option<Seq<char>>,
    code: Seq<char>,
) -> Seq<char> {
    match (mfr, model) {
        (Some(m), Some(d)) => if m.len() > 0 {
            m + " "@ + d
        } else {
            "code "@ + shown(code)
        },
        _ => "code "@ + shown(code),
    }
}

/// How the plane of an owner hit is shown: `mfr model` when both names are known and
/// the maker is not empty, else nothing.
pub open spec fn shown_plane(mfr: Option<Seq<char>>, model: Option<Seq<char>>) -> Seq<char> {
    match (mfr, model) {
        (Some(m), Some(d)) => if m.len() > 0 {
            m + " "@ + d
        } else {
            Seq::empty()
        },
        _ => Seq::empty(),
    }
}

/// How a count is shown: its decimal, `-` when missing.
pub open spec fn shown_count(v: Option<i64>) -> Seq<char> {
    match v {
        Some(n) => signed_decimal(n as int),
        None => "-"@,
    }
}

/// How an optional text is shown: the text, `-` when missing.
pub open spec fn shown_opt(v: Option<Seq<char>>) -> Seq<char> {
    match v {
        Some(t) => t,
        None => "-"@,
    }
}

/// How the end of a version's validity is shown: the day, `open` while current.
pub open spec fn shown_until(v: Option<Seq<char>>) -> Seq<char> {
    match v {
        Some(t) => t,
        None => "open"@,
    }
}

/// Each line of the current-registration block shows its own column under its own
/// label: the owner and registrant type, every non-empty street line (joined with
/// `, `) then city, state and ZIP, the country, the aircraft and engine makes (names
/// when known, else the code), year, serial, status, Mode S hex, icao24, co-owners,
/// the two dates and `valid_from`; an empty column shows `-`.
pub proof fn lemma_aircraft_block_lines(c: AircraftVersionView)
    ensures
        has_part(aircraft_text(c), "  Owner:      "@ + shown(c.owner_name) + " ("@
            + decode_type_registrant_spec(c.type_registrant) + ")\n  Address:    "@),
        has_part(aircraft_text(c), ")\n  Address:    "@ + shown_address(c.street, c.street2) + ", "@
            + shown(c.city) + ", "@ + shown(c.state) + " "@ + shown(c.zip_code)
            + "\n  Country:    "@),
        has_part(aircraft_text(c), "\n  Country:    "@ + shown(c.country) + "\n  Aircraft:   "@),
        has_part(aircraft_text(c), "\n  Aircraft:   "@
            + shown_make(c.aircraft_mfr, c.aircraft_model, c.mfr_mdl_code) + " ("@
            + decode_type_aircraft_spec(c.type_aircraft) + ")\n  Engine:     "@),
        has_part(aircraft_text(c), ")\n  Engine:     "@
            + shown_make(c.engine_mfr, c.engine_model, c.eng_mfr_mdl) + " ("@
            + decode_type_engine_spec(c.type_engine) + ")\n  Year:       "@),
        has_part(aircraft_text(c), ")\n  Year:       "@ + shown(c.year_mfr) + "\n  Serial:     "@),
        has_part(aircraft_text(c), "\n  Serial:     "@ + shown(c.serial_number)
            + "\n  Status:     "@),
        has_part(aircraft_text(c), "\n  Status:     "@ + shown(c.status_code) + " ("@
            + decode_status_code_spec(c.status_code) + ")\n  Mode S hex: "@),
        has_part(aircraft_text(c), ")\n  Mode S hex: "@ + shown(c.mode_s_hex)
            + "\n  icao24:     "@),
        has_part(aircraft_text(c), "\n  icao24:     "@ + shown(c.icao24) + "\n  Co-owners:  "@),
        has_part(aircraft_text(c), "\n  Co-owners:  "@ + shown(c.other_names)
            + "\n  Cert issue: "@),
        has_part(aircraft_text(c), "\n  Cert issue: "@ + shown(c.cert_issue_date)
            + "\n  Expires:    "@),
        has_part(aircraft_text(c), "\n  Expires:    "@ + shown(c.expiration_date)
            + "\n  Valid from: "@),
        has_part(aircraft_text(c), "\n  Valid from: "@ + c.valid_from + "\n"@),
{
    let p0 = "  Owner:      "@;
    let p1 = or_dash(c.owner_name);
    let p2 = " ("@;
    let p3 = decode_type_registrant_spec(c.type_registrant);
    let p4 = ")\n  Address:    "@;
    let p5 = or_dash(street_text(c.street, c.street2));
    let p6 = ", "@;
    let p7 = or_dash(c.city);
    let p8 = ", "@;
    let p9 = or_dash(c.state);
    let p10 = " "@;
    let p11 = or_dash(c.zip_code);
    let p12 = "\n  Country:    "@;
    let p13 = or_dash(c.country);
    let p14 = "\n  Aircraft:   "@;
    let p15 = make_text(c.aircraft_mfr, c.aircraft_model, c.mfr_mdl_code);
    let p16 = " ("@;
    let p17 = decode_type_aircraft_spec(c.type_aircraft);
    let p18 = ")\n  Engine:     "@;
    let p19 = make_text(c.engine_mfr, c.engine_model, c.eng_mfr_mdl);
    let p20 = " ("@;
    let p21 = decode_type_engine_spec(c.type_engine);
    let p22 = ")\n  Year:       "@;
    let p23 = or_dash(c.year_mfr);
    let p24 = "\n  Serial:     "@;
    let p25 = or_dash(c.serial_number);
    let p26 = "\n  Status:     "@;
    let p27 = or_dash(c.status_code);
    let p28 = " ("@;
    let p29 = decode_status_code_spec(c.status_code);
    let p30 = ")\n  Mode S hex: "@;
    let p31 = or_dash(c.mode_s_hex);
    let p32 = "\n  icao24:     "@;
    let p33 = or_dash(c.icao24);
    let p34 = "\n  Co-owners:  "@;
    let p35 = or_dash(c.other_names);
    let p36 = "\n  Cert issue: "@;
    let p37 = or_dash(c.cert_issue_date);
    let p38 = "\n  Expires:    "@;
    let p39 = or_dash(c.expiration_date);
    let p40 = "\n  Valid from: "@;
    let p41 = c.valid_from;
    let p42 = "\n"@;
    let x0 = p0;
    let x1 = x0 + p1;
    let x2 = x1 + p2;
    let x3 = x2 + p3;
    let x4 = x3 + p4;
    let x5 = x4 + p5;
    let x6 = x5 + p6;
    let x7 = x6 + p7;
    let x8 = x7 + p8;
    let x9 = x8 + p9;
    let x10 = x9 + p10;
    let x11 = x10 + p11;
    let x12 = x11 + p12;
    let x13 = x12 + p13;
    let x14 = x13 + p14;
    let x15 = x14 + p15;
    let x16 = x15 + p16;
    let x17 = x16 + p17;
    let x18 = x17 + p18;
    let x19 = x18 + p19;
    let x20 = x19 + p20;
    let x21 = x20 + p21;
    let x22 = x21 + p22;
    let x23 = x22 + p23;
    let x24 = x23 + p24;
    let x25 = x24 + p25;
    let x26 = x25 + p26;
    let x27 = x26 + p27;
    let x28 = x27 + p28;
    let x29 = x28 + p29;
    let x30 = x29 + p30;
    let x31 = x30 + p31;
    let x32 = x31 + p32;
    let x33 = x32 + p33;
    let x34 = x33 + p34;
    let x35 = x34 + p35;
    let x36 = x35 + p36;
    let x37 = x36 + p37;
    let x38 = x37 + p38;
    let x39 = x38 + p39;
    let x40 = x39 + p40;
    let x41 = x40 + p41;
    let x42 = x41 + p42;
    assert(aircraft_text(c) == x42);
    lemma_part_extend_all(x0, p1);
    lemma_part_extend_all(x1, p2);
    lemma_part_extend_all(x2, p3);
    lemma_part_extend_all(x3, p4);
    lemma_part_extend_all(x4, p5);
    lemma_part_extend_all(x5, p6);
    lemma_part_extend_all(x6, p7);
    lemma_part_extend_all(x7, p8);
    lemma_part_extend_all(x8, p9);
    lemma_part_extend_all(x9, p10);
    lemma_part_extend_all(x10, p11);
    lemma_part_extend_all(x11, p12);
    lemma_part_extend_all(x12, p13);
    lemma_part_extend_all(x13, p14);
    lemma_part_extend_all(x14, p15);
    lemma_part_extend_all(x15, p16);
    lemma_part_extend_all(x16, p17);
    lemma_part_extend_all(x17, p18);
    lemma_part_extend_all(x18, p19);
    lemma_part_extend_all(x19, p20);
    lemma_part_extend_all(x20, p21);
    lemma_part_extend_all(x21, p22);
    lemma_part_extend_all(x22, p23);
    lemma_part_extend_all(x23, p24);
    lemma_part_extend_all(x24, p25);
    lemma_part_extend_all(x25, p26);
    lemma_part_extend_all(x26, p27);
    lemma_part_extend_all(x27, p28);
    lemma_part_extend_all(x28, p29);
    lemma_part_extend_all(x29, p30);
    lemma_part_extend_all(x30, p31);
    lemma_part_extend_all(x31, p32);
    lemma_part_extend_all(x32, p33);
    lemma_part_extend_all(x33, p34);
    lemma_part_extend_all(x34, p35);
    lemma_part_extend_all(x35, p36);
    lemma_part_extend_all(x36, p37);
    lemma_part_extend_all(x37, p38);
    lemma_part_extend_all(x38, p39);
    lemma_part_extend_all(x39, p40);
    lemma_part_extend_all(x40, p41);
    lemma_part_extend_all(x41, p42);
    {
        let t0 = p0;
        let t1 = t0 + p1;
        let t2 = t1 + p2;
        let t3 = t2 + p3;
        let t4 = t3 + p4;
        lemma_part_self(t4);
    }
    {
        let t4 = p4;
        let t5 = t4 + p5;
        let t6 = t5 + p6;
        let t7 = t6 + p7;
        let t8 = t7 + p8;
        let t9 = t8 + p9;
        let t10 = t9 + p10;
        let t11 = t10 + p11;
        let t12 = t11 + p12;
        vstd::seq_lib::lemma_concat_associative(x3, t4, p5);
        vstd::seq_lib::lemma_concat_associative(x3, t5, p6);
        vstd::seq_lib::lemma_concat_associative(x3, t6, p7);
        vstd::seq_lib::lemma_concat_associative(x3, t7, p8);
        vstd::seq_lib::lemma_concat_associative(x3, t8, p9);
        vstd::seq_lib::lemma_concat_associative(x3, t9, p10);
        vstd::seq_lib::lemma_concat_associative(x3, t10, p11);
        vstd::seq_lib::lemma_concat_associative(x3, t11, p12);
        lemma_part_suffix(x3, t12);
    }
    {
        let t12 = p12;
        let t13 = t12 + p13;
        let t14 = t13 + p14;
        vstd::seq_lib::lemma_concat_associative(x11, t12, p13);
        vstd::seq_lib::lemma_concat_associative(x11, t13, p14);
        lemma_part_suffix(x11, t14);
    }
    {
        let t14 = p14;
        let t15 = t14 + p15;
        let t16 = t15 + p16;
        let t17 = t16 + p17;
        let t18 = t17 + p18;
        vstd::seq_lib::lemma_concat_associative(x13, t14, p15);
        vstd::seq_lib::lemma_concat_associative(x13, t15, p16);
        vstd::seq_lib::lemma_concat_associative(x13, t16, p17);
        vstd::seq_lib::lemma_concat_associative(x13, t17, p18);
        lemma_part_suffix(x13, t18);
    }
    {
        let t18 = p18;
        let t19 = t18 + p19;
        let t20 = t19 + p20;
        let t21 = t20 + p21;
        let t22 = t21 + p22;
        vstd::seq_lib::lemma_concat_associative(x17, t18, p19);
        vstd::seq_lib::lemma_concat_associative(x17, t19, p20);
        vstd::seq_lib::lemma_concat_associative(x17, t20, p21);
        vstd::seq_lib::lemma_concat_associative(x17, t21, p22);
        lemma_part_suffix(x17, t22);
    }
    {
        let t22 = p22;
        let t23 = t22 + p23;
        let t24 = t23 + p24;
        vstd::seq_lib::lemma_concat_associative(x21, t22, p23);
        vstd::seq_lib::lemma_concat_associative(x21, t23, p24);
        lemma_part_suffix(x21, t24);
    }
    {
        let t24 = p24;
        let t25 = t24 + p25;
        let t26 = t25 + p26;
        vstd::seq_lib::lemma_concat_associative(x23, t24, p25);
        vstd::seq_lib::lemma_concat_associative(x23, t25, p26);
        lemma_part_suffix(x23, t26);
    }
    {
        let t26 = p26;
        let t27 = t26 + p27;
        let t28 = t27 + p28;
        let t29 = t28 + p29;
        let t30 = t29 + p30;
        vstd::seq_lib::lemma_concat_associative(x25, t26, p27);
        vstd::seq_lib::lemma_concat_associative(x25, t27, p28);
        vstd::seq_lib::lemma_concat_associative(x25, t28, p29);
        vstd::seq_lib::lemma_concat_associative(x25, t29, p30);
        lemma_part_suffix(x25, t30);
    }
    {
        let t30 = p30;
        let t31 = t30 + p31;
        let t32 = t31 + p32;
        vstd::seq_lib::lemma_concat_associative(x29, t30, p31);
        vstd::seq_lib::lemma_concat_associative(x29, t31, p32);
        lemma_part_suffix(x29, t32);
    }
    {
        let t32 = p32;
        let t33 = t32 + p33;
        let t34 = t33 + p34;
        vstd::seq_lib::lemma_concat_associative(x31, t32, p33);
        vstd::seq_lib::lemma_concat_associative(x31, t33, p34);
        lemma_part_suffix(x31, t34);
    }
    {
        let t34 = p34;
        let t35 = t34 + p35;
        let t36 = t35 + p36;
        vstd::seq_lib::lemma_concat_associative(x33, t34, p35);
        vstd::seq_lib::lemma_concat_associative(x33, t35, p36);
        lemma_part_suffix(x33, t36);
    }
    {
        let t36 = p36;
        let t37 = t36 + p37;
        let t38 = t37 + p38;
        vstd::seq_lib::lemma_concat_associative(x35, t36, p37);
        vstd::seq_lib::lemma_concat_associative(x35, t37, p38);
        lemma_part_suffix(x35, t38);
    }
    {
        let t38 = p38;
        let t39 = t38 + p39;
        let t40 = t39 + p40;
        vstd::seq_lib::lemma_concat_associative(x37, t38, p39);
        vstd::seq_lib::lemma_concat_associative(x37, t39, p40);
        lemma_part_suffix(x37, t40);
    }
    {
        let t40 = p40;
        let t41 = t40 + p41;
        let t42 = t41 + p42;
        vstd::seq_lib::lemma_concat_associative(x39, t40, p41);
        vstd::seq_lib::lemma_concat_associative(x39, t41, p42);
        lemma_part_suffix(x39, t42);
    }
}

/// Each line of the run status shows its own column under its own label: after
/// `new/changed/closed/unchanged: ` come the new, changed, closed and unchanged
/// counts in that order, after `dereg new/changed/closed: ` the three DEREG counts,
/// and so on; a missing count or text shows `-`.
pub proof fn lemma_status_lines(s: IngestStatusView)
    ensures
        has_part(status_text(s), "Ingest #"@ + signed_decimal(s.id as int) + "\n  status:     "@),
        has_part(status_text(s), "\n  status:     "@ + s.status + "\n  as_of:      "@),
        has_part(status_text(s), "\n  as_of:      "@ + shown_opt(s.as_of_date)
            + "\n  started:    "@),
        has_part(status_text(s), "\n  started:    "@ + s.started_at + "\n  finished:   "@),
        has_part(status_text(s), "\n  finished:   "@ + shown_opt(s.finished_at)
            + "\n  source:     "@),
        has_part(status_text(s), "\n  source:     "@ + s.source + "\n  zip hash:   "@),
        has_part(status_text(s), "\n  zip hash:   "@ + shown_opt(s.zip_hash) + "\n  master:     "@),
        has_part(status_text(s), "\n  master:     "@ + shown_count(s.master_rows)
            + "\n  new/changed/closed/unchanged: "@),
        has_part(status_text(s), "\n  new/changed/closed/unchanged: "@ + shown_count(s.new_rows)
            + " / "@ + shown_count(s.changed_rows) + " / "@ + shown_count(s.closed_rows) + " / "@
            + shown_count(s.unchanged_rows) + "\n  skipped:    "@),
        has_part(status_text(s), "\n  skipped:    "@ + shown_count(s.skipped_rows)
            + "\n  dereg new/changed/closed: "@),
        has_part(status_text(s), "\n  dereg new/changed/closed: "@ + shown_count(s.dereg_new)
            + " / "@ + shown_count(s.dereg_changed) + " / "@ + shown_count(s.dereg_closed)
            + "\n  documents:  "@),
        has_part(status_text(s), "\n  documents:  "@ + shown_count(s.documents_inserted)
            + "\n  dealers:    "@),
        has_part(status_text(s), "\n  dealers:    "@ + shown_count(s.dealer_rows)
            + "\n  reserved:   "@),
        has_part(status_text(s), "\n  reserved:   "@ + shown_count(s.reserved_rows)
            + "\n  error:      "@),
        has_part(status_text(s), "\n  error:      "@ + shown_opt(s.error) + "\n"@),
{
    let p0 = "Ingest #"@;
    let p1 = signed_decimal(s.id as int);
    let p2 = "\n  status:     "@;
    let p3 = s.status;
    let p4 = "\n  as_of:      "@;
    let p5 = opt_or(s.as_of_date, "-"@);
    let p6 = "\n  started:    "@;
    let p7 = s.started_at;
    let p8 = "\n  finished:   "@;
    let p9 = opt_or(s.finished_at, "-"@);
    let p10 = "\n  source:     "@;
    let p11 = s.source;
    let p12 = "\n  zip hash:   "@;
    let p13 = opt_or(s.zip_hash, "-"@);
    let p14 = "\n  master:     "@;
    let p15 = fmt_opt_text(s.master_rows);
    let p16 = "\n  new/changed/closed/unchanged: "@;
    let p17 = fmt_opt_text(s.new_rows);
    let p18 = " / "@;
    let p19 = fmt_opt_text(s.changed_rows);
    let p20 = " / "@;
    let p21 = fmt_opt_text(s.closed_rows);
    let p22 = " / "@;
    let p23 = fmt_opt_text(s.unchanged_rows);
    let p24 = "\n  skipped:    "@;
    let p25 = fmt_opt_text(s.skipped_rows);
    let p26 = "\n  dereg new/changed/closed: "@;
    let p27 = fmt_opt_text(s.dereg_new);
    let p28 = " / "@;
    let p29 = fmt_opt_text(s.dereg_changed);
    let p30 = " / "@;
    let p31 = fmt_opt_text(s.dereg_closed);
    let p32 = "\n  documents:  "@;
    let p33 = fmt_opt_text(s.documents_inserted);
    let p34 = "\n  dealers:    "@;
    let p35 = fmt_opt_text(s.dealer_rows);
    let p36 = "\n  reserved:   "@;
    let p37 = fmt_opt_text(s.reserved_rows);
    let p38 = "\n  error:      "@;
    let p39 = opt_or(s.error, "-"@);
    let p40 = "\n"@;
    let x0 = p0;
    let x1 = x0 + p1;
    let x2 = x1 + p2;
    let x3 = x2 + p3;
    let x4 = x3 + p4;
    let x5 = x4 + p5;
    let x6 = x5 + p6;
    let x7 = x6 + p7;
    let x8 = x7 + p8;
    let x9 = x8 + p9;
    let x10 = x9 + p10;
    let x11 = x10 + p11;
    let x12 = x11 + p12;
    let x13 = x12 + p13;
    let x14 = x13 + p14;
    let x15 = x14 + p15;
    let x16 = x15 + p16;
    let x17 = x16 + p17;
    let x18 = x17 + p18;
    let x19 = x18 + p19;
    let x20 = x19 + p20;
    let x21 = x20 + p21;
    let x22 = x21 + p22;
    let x23 = x22 + p23;
    let x24 = x23 + p24;
    let x25 = x24 + p25;
    let x26 = x25 + p26;
    let x27 = x26 + p27;
    let x28 = x27 + p28;
    let x29 = x28 + p29;
    let x30 = x29 + p30;
    let x31 = x30 + p31;
    let x32 = x31 + p32;
    let x33 = x32 + p33;
    let x34 = x33 + p34;
    let x35 = x34 + p35;
    let x36 = x35 + p36;
    let x37 = x36 + p37;
    let x38 = x37 + p38;
    let x39 = x38 + p39;
    let x40 = x39 + p40;
    assert(status_text(s) == x40);
    lemma_part_extend_all(x0, p1);
    lemma_part_extend_all(x1, p2);
    lemma_part_extend_all(x2, p3);
    lemma_part_extend_all(x3, p4);
    lemma_part_extend_all(x4, p5);
    lemma_part_extend_all(x5, p6);
    lemma_part_extend_all(x6, p7);
    lemma_part_extend_all(x7, p8);
    lemma_part_extend_all(x8, p9);
    lemma_part_extend_all(x9, p10);
    lemma_part_extend_all(x10, p11);
    lemma_part_extend_all(x11, p12);
    lemma_part_extend_all(x12, p13);
    lemma_part_extend_all(x13, p14);
    lemma_part_extend_all(x14, p15);
    lemma_part_extend_all(x15, p16);
    lemma_part_extend_all(x16, p17);
    lemma_part_extend_all(x17, p18);
    lemma_part_extend_all(x18, p19);
    lemma_part_extend_all(x19, p20);
    lemma_part_extend_all(x20, p21);
    lemma_part_extend_all(x21, p22);
    lemma_part_extend_all(x22, p23);
    lemma_part_extend_all(x23, p24);
    lemma_part_extend_all(x24, p25);
    lemma_part_extend_all(x25, p26);
    lemma_part_extend_all(x26, p27);
    lemma_part_extend_all(x27, p28);
    lemma_part_extend_all(x28, p29);
    lemma_part_extend_all(x29, p30);
    lemma_part_extend_all(x30, p31);
    lemma_part_extend_all(x31, p32);
    lemma_part_extend_all(x32, p33);
    lemma_part_extend_all(x33, p34);
    lemma_part_extend_all(x34, p35);
    lemma_part_extend_all(x35, p36);
    lemma_part_extend_all(x36, p37);
    lemma_part_extend_all(x37, p38);
    lemma_part_extend_all(x38, p39);
    lemma_part_extend_all(x39, p40);
    {
        let t0 = p0;
        let t1 = t0 + p1;
        let t2 = t1 + p2;
        lemma_part_self(t2);
    }
    {
        let t2 = p2;
        let t3 = t2 + p3;
        let t4 = t3 + p4;
        vstd::seq_lib::lemma_concat_associative(x1, t2, p3);
        vstd::seq_lib::lemma_concat_associative(x1, t3, p4);
        lemma_part_suffix(x1, t4);
    }
    {
        let t4 = p4;
        let t5 = t4 + p5;
        let t6 = t5 + p6;
        vstd::seq_lib::lemma_concat_associative(x3, t4, p5);
        vstd::seq_lib::lemma_concat_associative(x3, t5, p6);
        lemma_part_suffix(x3, t6);
    }
    {
        let t6 = p6;
        let t7 = t6 + p7;
        let t8 = t7 + p8;
        vstd::seq_lib::lemma_concat_associative(x5, t6, p7);
        vstd::seq_lib::lemma_concat_associative(x5, t7, p8);
        lemma_part_suffix(x5, t8);
    }
    {
        let t8 = p8;
        let t9 = t8 + p9;
        let t10 = t9 + p10;
        vstd::seq_lib::lemma_concat_associative(x7, t8, p9);
        vstd::seq_lib::lemma_concat_associative(x7, t9, p10);
        lemma_part_suffix(x7, t10);
    }
    {
        let t10 = p10;
        let t11 = t10 + p11;
        let t12 = t11 + p12;
        vstd::seq_lib::lemma_concat_associative(x9, t10, p11);
        vstd::seq_lib::lemma_concat_associative(x9, t11, p12);
        lemma_part_suffix(x9, t12);
    }
    {
        let t12 = p12;
        let t13 = t12 + p13;
        let t14 = t13 + p14;
        vstd::seq_lib::lemma_concat_associative(x11, t12, p13);
        vstd::seq_lib::lemma_concat_associative(x11, t13, p14);
        lemma_part_suffix(x11, t14);
    }
    {
        let t14 = p14;
        let t15 = t14 + p15;
        let t16 = t15 + p16;
        vstd::seq_lib::lemma_concat_associative(x13, t14, p15);
        vstd::seq_lib::lemma_concat_associative(x13, t15, p16);
        lemma_part_suffix(x13, t16);
    }
    {
        let t16 = p16;
        let t17 = t16 + p17;
        let t18 = t17 + p18;
        let t19 = t18 + p19;
        let t20 = t19 + p20;
        let t21 = t20 + p21;
        let t22 = t21 + p22;
        let t23 = t22 + p23;
        let t24 = t23 + p24;
        vstd::seq_lib::lemma_concat_associative(x15, t16, p17);
        vstd::seq_lib::lemma_concat_associative(x15, t17, p18);
        vstd::seq_lib::lemma_concat_associative(x15, t18, p19);
        vstd::seq_lib::lemma_concat_associative(x15, t19, p20);
        vstd::seq_lib::lemma_concat_associative(x15, t20, p21);
        vstd::seq_lib::lemma_concat_associative(x15, t21, p22);
        vstd::seq_lib::lemma_concat_associative(x15, t22, p23);
        vstd::seq_lib::lemma_concat_associative(x15, t23, p24);
        lemma_part_suffix(x15, t24);
    }
    {
        let t24 = p24;
        let t25 = t24 + p25;
        let t26 = t25 + p26;
        vstd::seq_lib::lemma_concat_associative(x23, t24, p25);
        vstd::seq_lib::lemma_concat_associative(x23, t25, p26);
        lemma_part_suffix(x23, t26);
    }
    {
        let t26 = p26;
        let t27 = t26 + p27;
        let t28 = t27 + p28;
        let t29 = t28 + p29;
        let t30 = t29 + p30;
        let t31 = t30 + p31;
        let t32 = t31 + p32;
        vstd::seq_lib::lemma_concat_associative(x25, t26, p27);
        vstd::seq_lib::lemma_concat_associative(x25, t27, p28);
        vstd::seq_lib::lemma_concat_associative(x25, t28, p29);
        vstd::seq_lib::lemma_concat_associative(x25, t29, p30);
        vstd::seq_lib::lemma_concat_associative(x25, t30, p31);
        vstd::seq_lib::lemma_concat_associative(x25, t31, p32);
        lemma_part_suffix(x25, t32);
    }
    {
        let t32 = p32;
        let t33 = t32 + p33;
        let t34 = t33 + p34;
        vstd::seq_lib::lemma_concat_associative(x31, t32, p33);
        vstd::seq_lib::lemma_concat_associative(x31, t33, p34);
        lemma_part_suffix(x31, t34);
    }
    {
        let t34 = p34;
        let t35 = t34 + p35;
        let t36 = t35 + p36;
        vstd::seq_lib::lemma_concat_associative(x33, t34, p35);
        vstd::seq_lib::lemma_concat_associative(x33, t35, p36);
        lemma_part_suffix(x33, t36);
    }
    {
        let t36 = p36;
        let t37 = t36 + p37;
        let t38 = t37 + p38;
        vstd::seq_lib::lemma_concat_associative(x35, t36, p37);
        vstd::seq_lib::lemma_concat_associative(x35, t37, p38);
        lemma_part_suffix(x35, t38);
    }
    {
        let t38 = p38;
        let t39 = t38 + p39;
        let t40 = t39 + p40;
        vstd::seq_lib::lemma_concat_associative(x37, t38, p39);
        vstd::seq_lib::lemma_concat_associative(x37, t39, p40);
        lemma_part_suffix(x37, t40);
    }
}

/// A deregistration line shows the cancel date, owner, export country and status
/// each after its own label (`-` when empty).
pub proof fn lemma_dereg_line_columns(d: DeregVersionView)
    ensures
        has_part(dereg_line(d), "] cancel "@ + shown(d.cancel_date) + "  owner "@),
        has_part(dereg_line(d), "  owner "@ + shown(d.owner_name) + "  export "@),
        has_part(dereg_line(d), "  export "@ + shown(d.export_country) + "  status "@),
        has_part(dereg_line(d), "  status "@ + d.status_code + "\n"@),
{
    let p0 = "  ["@;
    let p1 = (if d.is_current { "current"@ } else { "historical"@ });
    let p2 = "] cancel "@;
    let p3 = or_dash(d.cancel_date);
    let p4 = "  owner "@;
    let p5 = or_dash(d.owner_name);
    let p6 = "  export "@;
    let p7 = or_dash(d.export_country);
    let p8 = "  status "@;
    let p9 = d.status_code;
    let p10 = "\n"@;
    let x0 = p0;
    let x1 = x0 + p1;
    let x2 = x1 + p2;
    let x3 = x2 + p3;
    let x4 = x3 + p4;
    let x5 = x4 + p5;
    let x6 = x5 + p6;
    let x7 = x6 + p7;
    let x8 = x7 + p8;
    let x9 = x8 + p9;
    let x10 = x9 + p10;
    assert(dereg_line(d) == x10);
    lemma_part_extend_all(x0, p1);
    lemma_part_extend_all(x1, p2);
    lemma_part_extend_all(x2, p3);
    lemma_part_extend_all(x3, p4);
    lemma_part_extend_all(x4, p5);
    lemma_part_extend_all(x5, p6);
    lemma_part_extend_all(x6, p7);
    lemma_part_extend_all(x7, p8);
    lemma_part_extend_all(x8, p9);
    lemma_part_extend_all(x9, p10);
    {
        let t2 = p2;
        let t3 = t2 + p3;
        let t4 = t3 + p4;
        vstd::seq_lib::lemma_concat_associative(x1, t2, p3);
        vstd::seq_lib::lemma_concat_associative(x1, t3, p4);
        lemma_part_suffix(x1, t4);
    }
    {
        let t4 = p4;
        let t5 = t4 + p5;
        let t6 = t5 + p6;
        vstd::seq_lib::lemma_concat_associative(x3, t4, p5);
        vstd::seq_lib::lemma_concat_associative(x3, t5, p6);
        lemma_part_suffix(x3, t6);
    }
    {
        let t6 = p6;
        let t7 = t6 + p7;
        let t8 = t7 + p8;
        vstd::seq_lib::lemma_concat_associative(x5, t6, p7);
        vstd::seq_lib::lemma_concat_associative(x5, t7, p8);
        lemma_part_suffix(x5, t8);
    }
    {
        let t8 = p8;
        let t9 = t8 + p9;
        let t10 = t9 + p10;
        vstd::seq_lib::lemma_concat_associative(x7, t8, p9);
        vstd::seq_lib::lemma_concat_associative(x7, t9, p10);
        lemma_part_suffix(x7, t10);
    }
}

/// A document line shows the party after `party=` and the document type after
/// `type=` (`-` when empty).
pub proof fn lemma_document_line_columns(d: DocumentHitView)
    ensures
        has_part(document_line(d), "  party="@ + shown(d.party_name) + "  type="@),
        has_part(document_line(d), "  type="@ + shown(d.doc_type) + "\n"@),
{
    let p0 = "  "@;
    let p1 = or_dash(d.receipt_date);
    let p2 = "  "@;
    let p3 = or_dash(d.document_id);
    let p4 = "  party="@;
    let p5 = or_dash(d.party_name);
    let p6 = "  type="@;
    let p7 = or_dash(d.doc_type);
    let p8 = "\n"@;
    let x0 = p0;
    let x1 = x0 + p1;
    let x2 = x1 + p2;
    let x3 = x2 + p3;
    let x4 = x3 + p4;
    let x5 = x4 + p5;
    let x6 = x5 + p6;
    let x7 = x6 + p7;
    let x8 = x7 + p8;
    assert(document_line(d) == x8);
    lemma_part_extend_all(x0, p1);
    lemma_part_extend_all(x1, p2);
    lemma_part_extend_all(x2, p3);
    lemma_part_extend_all(x3, p4);
    lemma_part_extend_all(x4, p5);
    lemma_part_extend_all(x5, p6);
    lemma_part_extend_all(x6, p7);
    lemma_part_extend_all(x7, p8);
    {
        let t4 = p4;
        let t5 = t4 + p5;
        let t6 = t5 + p6;
        vstd::seq_lib::lemma_concat_associative(x3, t4, p5);
        vstd::seq_lib::lemma_concat_associative(x3, t5, p6);
        lemma_part_suffix(x3, t6);
    }
    {
        let t6 = p6;
        let t7 = t6 + p7;
        let t8 = t7 + p8;
        vstd::seq_lib::lemma_concat_associative(x5, t6, p7);
        vstd::seq_lib::lemma_concat_associative(x5, t7, p8);
        lemma_part_suffix(x5, t8);
    }
}

/// An ownership-history line shows `valid_from .. valid_to` (`open` while the
/// version is current), then the owner, then the city in parentheses.
pub proof fn lemma_history_line_columns(v: AircraftVersionView)
    ensures
        has_part(history_line(v), "  "@ + v.valid_from + " .. "@),
        has_part(history_line(v), " .. "@ + shown_until(v.valid_to) + "  "@),
        has_part(history_line(v), "  "@ + v.owner_name + "  ("@),
        has_part(history_line(v), "  ("@ + v.city + ")\n"@),
{
    let p0 = "  "@;
    let p1 = v.valid_from;
    let p2 = " .. "@;
    let p3 = opt_or(v.valid_to, "open"@);
    let p4 = "  "@;
    let p5 = v.owner_name;
    let p6 = "  ("@;
    let p7 = v.city;
    let p8 = ")\n"@;
    let x0 = p0;
    let x1 = x0 + p1;
    let x2 = x1 + p2;
    let x3 = x2 + p3;
    let x4 = x3 + p4;
    let x5 = x4 + p5;
    let x6 = x5 + p6;
    let x7 = x6 + p7;
    let x8 = x7 + p8;
    assert(history_line(v) == x8);
    lemma_part_extend_all(x0, p1);
    lemma_part_extend_all(x1, p2);
    lemma_part_extend_all(x2, p3);
    lemma_part_extend_all(x3, p4);
    lemma_part_extend_all(x4, p5);
    lemma_part_extend_all(x5, p6);
    lemma_part_extend_all(x6, p7);
    lemma_part_extend_all(x7, p8);
    {
        let t0 = p0;
        let t1 = t0 + p1;
        let t2 = t1 + p2;
        lemma_part_self(t2);
    }
    {
        let t2 = p2;
        let t3 = t2 + p3;
        let t4 = t3 + p4;
        vstd::seq_lib::lemma_concat_associative(x1, t2, p3);
        vstd::seq_lib::lemma_concat_associative(x1, t3, p4);
        lemma_part_suffix(x1, t4);
    }
    {
        let t4 = p4;
        let t5 = t4 + p5;
        let t6 = t5 + p6;
        vstd::seq_lib::lemma_concat_associative(x3, t4, p5);
        vstd::seq_lib::lemma_concat_associative(x3, t5, p6);
        lemma_part_suffix(x3, t6);
    }
    {
        let t6 = p6;
        let t7 = t6 + p7;
        let t8 = t7 + p8;
        vstd::seq_lib::lemma_concat_associative(x5, t6, p7);
        vstd::seq_lib::lemma_concat_associative(x5, t7, p8);
        lemma_part_suffix(x5, t8);
    }
}

/// What `lookup` prints for a registration that has a current version shows every
/// line of that version under its own label, as `lemma_aircraft_block_lines` states
/// them; in particular the `Address:` line holds every non-empty street line.
pub proof fn lemma_lookup_current_lines(r: LookupResultView)
    ensures
        r.current matches Some(c) ==> {
            &&& has_part(lookup_text(r), "  Owner:      "@ + shown(c.owner_name) + " ("@
                + decode_type_registrant_spec(c.type_registrant) + ")\n  Address:    "@)
            &&& has_part(lookup_text(r), ")\n  Address:    "@ + shown_address(c.street, c.street2)
                + ", "@ + shown(c.city) + ", "@ + shown(c.state) + " "@ + shown(c.zip_code)
                + "\n  Country:    "@)
            &&& has_part(lookup_text(r), "\n  Country:    "@ + shown(c.country)
                + "\n  Aircraft:   "@)
            &&& has_part(lookup_text(r), "\n  Aircraft:   "@
                + shown_make(c.aircraft_mfr, c.aircraft_model, c.mfr_mdl_code) + " ("@
                + decode_type_aircraft_spec(c.type_aircraft) + ")\n  Engine:     "@)
            &&& has_part(lookup_text(r), ")\n  Engine:     "@
                + shown_make(c.engine_mfr, c.engine_model, c.eng_mfr_mdl) + " ("@
                + decode_type_engine_spec(c.type_engine) + ")\n  Year:       "@)
            &&& has_part(lookup_text(r), ")\n  Year:       "@ + shown(c.year_mfr)
                + "\n  Serial:     "@)
            &&& has_part(lookup_text(r), "\n  Serial:     "@ + shown(c.serial_number)
                + "\n  Status:     "@)
            &&& has_part(lookup_text(r), "\n  Status:     "@ + shown(c.status_code) + " ("@
                + decode_status_code_spec(c.status_code) + ")\n  Mode S hex: "@)
            &&& has_part(lookup_text(r), ")\n  Mode S hex: "@ + shown(c.mode_s_hex)
                + "\n  icao24:     "@)
            &&& has_part(lookup_text(r), "\n  icao24:     "@ + shown(c.icao24)
                + "\n  Co-owners:  "@)
            &&& has_part(lookup_text(r), "\n  Co-owners:  "@ + shown(c.other_names)
                + "\n  Cert issue: "@)
            &&& has_part(lookup_text(r), "\n  Cert issue: "@ + shown(c.cert_issue_date)
                + "\n  Expires:    "@)
            &&& has_part(lookup_text(r), "\n  Expires:    "@ + shown(c.expiration_date)
                + "\n  Valid from: "@)
            &&& has_part(lookup_text(r), "\n  Valid from: "@ + c.valid_from + "\n"@)
        },
{
    if r.current is Some {
        let c = r.current->0;
        lemma_aircraft_block_lines(c);
        let a = r.n_number + "\n"@ + "\nCurrent registration\n"@;
        let b = block("\nOwnership history\n"@, r.history, history_line_fn()) + block(
            "\nDeregistration\n"@,
            r.deregistered,
            dereg_line_fn(),
        ) + block("\nDocuments\n"@, r.documents, document_line_fn());
        assert(lookup_text(r) =~= a + aircraft_text(c) + b);
        lemma_part_shift(a, aircraft_text(c), b);
    }
}

/// An owner-search line shows the city, then `, ` and the state, then the plane
/// (`mfr model` when both names are known and the maker is not empty), then the
/// status code after `status`.
pub proof fn lemma_owner_line_columns(h: OwnerHitView)
    ensures
        has_part(owner_line(h), "  "@ + h.city + ", "@ + h.state + "  "@),
        has_part(owner_line(h), "  "@ + shown_plane(h.mfr, h.model) + "  status "@ + h.status_code
            + "\n"@),
{
    let p0 = pad_right(h.n_number, 8);
    let p1 = "  "@;
    let p2 = pad_right(h.owner_name, 40);
    let p3 = "  "@;
    let p4 = h.city;
    let p5 = ", "@;
    let p6 = h.state;
    let p7 = "  "@;
    let p8 = plane_text(h.mfr, h.model);
    let p9 = "  status "@;
    let p10 = h.status_code;
    let p11 = "\n"@;
    let x0 = p0;
    let x1 = x0 + p1;
    let x2 = x1 + p2;
    let x3 = x2 + p3;
    let x4 = x3 + p4;
    let x5 = x4 + p5;
    let x6 = x5 + p6;
    let x7 = x6 + p7;
    let x8 = x7 + p8;
    let x9 = x8 + p9;
    let x10 = x9 + p10;
    let x11 = x10 + p11;
    assert(owner_line(h) == x11);
    lemma_part_extend_all(x0, p1);
    lemma_part_extend_all(x1, p2);
    lemma_part_extend_all(x2, p3);
    lemma_part_extend_all(x3, p4);
    lemma_part_extend_all(x4, p5);
    lemma_part_extend_all(x5, p6);
    lemma_part_extend_all(x6, p7);
    lemma_part_extend_all(x7, p8);
    lemma_part_extend_all(x8, p9);
    lemma_part_extend_all(x9, p10);
    lemma_part_extend_all(x10, p11);
    {
        let t3 = p3;
        let t4 = t3 + p4;
        let t5 = t4 + p5;
        let t6 = t5 + p6;
        let t7 = t6 + p7;
        vstd::seq_lib::lemma_concat_associative(x2, t3, p4);
        vstd::seq_lib::lemma_concat_associative(x2, t4, p5);
        vstd::seq_lib::lemma_concat_associative(x2, t5, p6);
        vstd::seq_lib::lemma_concat_associative(x2, t6, p7);
        lemma_part_suffix(x2, t7);
    }
    {
        let t7 = p7;
        let t8 = t7 + p8;
        let t9 = t8 + p9;
        let t10 = t9 + p10;
        let t11 = t10 + p11;
        vstd::seq_lib::lemma_concat_associative(x6, t7, p8);
        vstd::seq_lib::lemma_concat_associative(x6, t8, p9);
        vstd::seq_lib::lemma_concat_associative(x6, t9, p10);
        vstd::seq_lib::lemma_concat_associative(x6, t10, p11);
        lemma_part_suffix(x6, t11);
    }
}

/// An owner-search line starts with the N-number left-aligned in a column of 8, then
/// two spaces and the owner name left-aligned in a column of 40 (a longer value
/// widens its column).
pub proof fn lemma_owner_line_layout(h: OwnerHitView)
    ensures
        owner_line(h).subrange(0, h.n_number.len() as int) == h.n_number,
        forall|i: int| h.n_number.len() <= i < 8 ==> #[trigger] owner_line(h)[i] == ' ',
        ({
            let k: int = if h.n_number.len() >= 8 {
                h.n_number.len() + 2int
            } else {
                10
            };
            &&& owner_line(h)[k - 2] == ' ' && owner_line(h)[k - 1] == ' '
            &&& owner_line(h).subrange(k, k + h.owner_name.len()) == h.owner_name
            &&& forall|i: int|
                k + h.owner_name.len() <= i < k + 40 ==> #[trigger] owner_line(h)[i] == ' '
        }),
{
    let x = pad_right(h.n_number, 8);
    let o = pad_right(h.owner_name, 40);
    let rest = "  "@ + h.city + ", "@ + h.state + "  "@ + plane_text(h.mfr, h.model) + "  status "@
        + h.status_code + "\n"@;
    reveal_strlit("  ");
    let line = x + "  "@ + o + rest;
    assert(owner_line(h) =~= line);
    let k: int = x.len() + 2int;
    assert(line.subrange(0, h.n_number.len() as int) =~= h.n_number);
    assert forall|i: int| h.n_number.len() <= i < 8 implies #[trigger] line[i] == ' ' by {
        assert(line[i] == x[i]);
    }
    assert(line[k - 2] == ' ' && line[k - 1] == ' ');
    assert(line.subrange(k, k + h.owner_name.len()) =~= h.owner_name);
    assert forall|i: int| k + h.owner_name.len() <= i < k
        + 40 implies #[trigger] line[i] == ' ' by {
        assert(line[i] == o[i - k]);
    }
}

proof fn lemma_lines_of_parts<V>(items: Seq<V>, line: spec_fn(V) -> Seq<char>)
    ensures
        forall|i: int|
            0 <= i < items.len() ==> has_part(lines_of(items, line), #[trigger] line(items[i])),
    decreases items.len(),
{
    if items.len() > 0 {
        let prev = items.drop_last();
        lemma_lines_of_parts(prev, line);
        assert forall|i: int| 0 <= i < items.len() implies has_part(
            lines_of(items, line),
            #[trigger] line(items[i]),
        ) by {
            if i < prev.len() {
                assert(prev[i] == items[i]);
                lemma_part_extend(lines_of(prev, line), line(items[i]), line(items.last()));
            } else {
                lemma_part_suffix(lines_of(prev, line), line(items.last()));
            }
        }
    }
}

proof fn lemma_block_parts<V>(title: Seq<char>, items: Seq<V>, line: spec_fn(V) -> Seq<char>)
    ensures
        forall|i: int|
            0 <= i < items.len() ==> has_part(
                block(title, items, line),
                #[trigger] line(items[i]),
            ),
{
    if items.len() > 0 {
        lemma_lines_of_parts(items, line);
        lemma_part_shift(title, lines_of(items, line), Seq::empty());
        assert(title + lines_of(items, line) + Seq::<char>::empty() =~= block(title, items, line));
    }
}

/// What `lookup` prints starts with the N-number; it says that there is no current
/// registration when there is none; and it holds the line of every history version,
/// every deregistration and every document.
pub proof fn lemma_lookup_lists_everything(r: LookupResultView)
    ensures
        lookup_text(r).subrange(0, r.n_number.len() as int) == r.n_number,
        r.current is None ==> has_part(lookup_text(r), "\nNo current MASTER registration.\n"@),
        forall|i: int|
            0 <= i < r.history.len() ==> has_part(
                lookup_text(r),
                #[trigger] history_line(r.history[i]),
            ),
        forall|i: int|
            0 <= i < r.deregistered.len() ==> has_part(
                lookup_text(r),
                #[trigger] dereg_line(r.deregistered[i]),
            ),
        forall|i: int|
            0 <= i < r.documents.len() ==> has_part(
                lookup_text(r),
                #[trigger] document_line(r.documents[i]),
            ),
{
    let head = r.n_number + "\n"@ + match r.current {
        Some(c) => "\nCurrent registration\n"@ + aircraft_text(c),
        None => "\nNo current MASTER registration.\n"@,
    };
    let h = block("\nOwnership history\n"@, r.history, history_line_fn());
    let d = block("\nDeregistration\n"@, r.deregistered, dereg_line_fn());
    let m = block("\nDocuments\n"@, r.documents, document_line_fn());
    assert(lookup_text(r) == head + h + d + m);
    assert(lookup_text(r).subrange(0, r.n_number.len() as int) =~= r.n_number);
    if r.current is None {
        lemma_part_suffix(r.n_number + "\n"@, "\nNo current MASTER registration.\n"@);
        lemma_part_extend(head, "\nNo current MASTER registration.\n"@, h);
        lemma_part_extend(head + h, "\nNo current MASTER registration.\n"@, d);
        lemma_part_extend(head + h + d, "\nNo current MASTER registration.\n"@, m);
    }
    lemma_block_parts("\nOwnership history\n"@, r.history, history_line_fn());
    lemma_block_parts("\nDeregistration\n"@, r.deregistered, dereg_line_fn());
    lemma_block_parts("\nDocuments\n"@, r.documents, document_line_fn());
    lemma_part_shift(head, h, d + m);
    assert(head + h + (d + m) =~= lookup_text(r));
    lemma_part_shift(head + h, d, m);
    lemma_part_shift(head + h + d, m, Seq::empty());
    assert(head + h + d + m + Seq::<char>::empty() =~= lookup_text(r));
    assert forall|i: int| 0 <= i < r.history.len() implies has_part(
        lookup_text(r),
        #[trigger] history_line(r.history[i]),
    ) by {
        assert(history_line_fn()(r.history[i]) == history_line(r.history[i]));
    }
    assert forall|i: int| 0 <= i < r.deregistered.len() implies has_part(
        lookup_text(r),
        #[trigger] dereg_line(r.deregistered[i]),
    ) by {
        assert(dereg_line_fn()(r.deregistered[i]) == dereg_line(r.deregistered[i]));
    }
    assert forall|i: int| 0 <= i < r.documents.len() implies has_part(
        lookup_text(r),
        #[trigger] document_line(r.documents[i]),
    ) by {
        assert(document_line_fn()(r.documents[i]) == document_line(r.documents[i]));
    }
}

proof fn lemma_kept_names_empty(names: Seq<Seq<char>>)
    ensures
        kept_names(names).len() == 0 <==> forall|j: int|
            0 <= j < names.len() ==> #[trigger] trim_white(names[j]).len() == 0,
        forall|i: int|
            0 <= i < kept_names(names).len() ==> #[trigger] kept_names(names)[i].len() > 0,
    decreases names.len(),
{
    if names.len() > 0 {
        let p = names.drop_last();
        lemma_kept_names_empty(p);
        let k = kept_names(names);
        let kp = kept_names(p);
        assert forall|i: int| 0 <= i < k.len() implies #[trigger] k[i].len() > 0 by {
            if i < kp.len() {
                assert(k[i] == kp[i]);
            }
        }
        assert forall|j: int| 0 <= j < p.len() implies p[j] == names[j] by {}
        if kept_names(names).len() == 0 {
            assert forall|j: int| 0 <= j < names.len() implies #[trigger] trim_white(names[j]).len()
                == 0 by {
                if j < p.len() {
                    assert(p[j] == names[j]);
                    assert(trim_white(p[j]).len() == 0);
                }
            }
        }
        if forall|j: int| 0 <= j < names.len() ==> #[trigger] trim_white(names[j]).len() == 0 {
            assert(trim_white(names[names.len() - 1]).len() == 0);
            assert forall|j: int| 0 <= j < p.len() implies #[trigger] trim_white(p[j]).len()
                == 0 by {
                assert(p[j] == names[j]);
                assert(trim_white(names[j]).len() == 0);
            }
        }
    }
}

/// The joined names end with the last name when that one is not blank.
proof fn lemma_joined_ends_with_last(names: Seq<Seq<char>>)
    requires
        names.len() > 0,
        trim_white(names.last()).len() > 0,
    ensures
        exists|x: Seq<char>| joined_names(names) == x + trim_white(names.last()),
{
    let p = names.drop_last();
    let t = trim_white(names.last());
    if kept_names(p).len() == 0 {
        assert(kept_names(names) =~= seq![t]);
        assert(joined_names(names) == Seq::<char>::empty() + t);
    } else {
        let kp = kept_names(p);
        assert(kept_names(names) == kp.push(t));
        assert(kp.push(t).drop_last() =~= kp);
        assert(joined_names(names) == join_bar(kp) + seq!['|'] + t);
    }
}

/// The co-owner names as stored: blank when every name is blank; otherwise every
/// non-blank name appears trimmed, and two non-blank names side by side appear
/// joined by `|`.
pub proof fn lemma_joined_names_parts(names: Seq<Seq<char>>)
    ensures
        joined_names(names).len() == 0 <==> forall|j: int|
            0 <= j < names.len() ==> #[trigger] trim_white(names[j]).len() == 0,
        forall|j: int|
            0 <= j < names.len() && trim_white(names[j]).len() > 0 ==> has_part(
                joined_names(names),
                #[trigger] trim_white(names[j]),
            ),
        forall|j: int|
            0 <= j < names.len() - 1 && trim_white(names[j]).len() > 0 && trim_white(names[j
                + 1]).len()
                > 0 ==> has_part(
                joined_names(names),
                #[trigger] trim_white(names[j]) + seq!['|'] + trim_white(names[j + 1]),
            ),
    decreases names.len(),
{
    lemma_kept_names_empty(names);
    lemma_join_bar_empty(kept_names(names));
    if names.len() > 0 {
        let p = names.drop_last();
        lemma_joined_names_parts(p);
        let t = trim_white(names.last());
        let kp = kept_names(p);
        let jp = joined_names(p);
        assert forall|j: int| 0 <= j < p.len() implies p[j] == names[j] by {}
        if t.len() == 0 {
            assert(joined_names(names) == jp);
        } else if kp.len() == 0 {
            assert(kept_names(names) =~= seq![t]);
            assert(joined_names(names) == t);
            lemma_kept_names_empty(p);
            lemma_part_self(t);
        } else {
            assert(kept_names(names) == kp.push(t));
            assert(kp.push(t).drop_last() =~= kp);
            assert(joined_names(names) == jp + seq!['|'] + t);
        }
        let jn = joined_names(names);
        assert forall|j: int|
            0 <= j < names.len() && trim_white(names[j]).len() > 0 implies has_part(
            jn,
            #[trigger] trim_white(names[j]),
        ) by {
            if j < p.len() {
                assert(trim_white(p[j]) == trim_white(names[j]));
                assert(has_part(jp, trim_white(p[j])));
                if t.len() > 0 {
                    lemma_part_extend(jp, trim_white(p[j]), seq!['|']);
                    lemma_part_extend(jp + seq!['|'], trim_white(p[j]), t);
                }
            } else if kp.len() == 0 {
            } else {
                lemma_part_suffix(jp + seq!['|'], t);
            }
        }
        assert forall|j: int|
            0 <= j < names.len() - 1 && trim_white(names[j]).len() > 0 && trim_white(
                names[j + 1],
            ).len() > 0 implies has_part(
            jn,
            #[trigger] trim_white(names[j]) + seq!['|'] + trim_white(names[j + 1]),
        ) by {
            let u = trim_white(names[j]) + seq!['|'] + trim_white(names[j + 1]);
            if j + 1 < p.len() {
                assert(trim_white(p[j]) == trim_white(names[j]));
                assert(trim_white(p[j + 1]) == trim_white(names[j + 1]));
                assert(has_part(jp, u));
                lemma_part_extend(jp, u, seq!['|']);
                lemma_part_extend(jp + seq!['|'], u, t);
            } else {
                // the last two names: `jp` ends with the next-to-last one
                assert(p.last() == names[j]);
                lemma_joined_ends_with_last(p);
                let x = choose|x: Seq<char>| jp == x + trim_white(p.last());
                assert(kp.len() > 0) by {
                    lemma_kept_names_empty(p);
                    assert(trim_white(p[p.len() - 1]).len() > 0);
                }
                assert(jn =~= x + u);
                lemma_part_suffix(x, u);
            }
        }
    }
}

proof fn lemma_join_bar_empty(parts: Seq<Seq<char>>)
    ensures
        join_bar(parts).len() == 0 <==> (parts.len() == 0 || (parts.len() == 1 && parts[0].len()
            == 0)),
    decreases parts.len(),
{
    if parts.len() > 1 {
        lemma_join_bar_empty(parts.drop_last());
    }
}

/// The owner-search query asks for every word as a prefix and joins neighbouring
/// words with ` AND `: each word of the search text appears followed by `*`, and
/// each two neighbouring words appear as `w1* AND w2*`.
pub proof fn lemma_prefix_query_parts(words: Seq<Seq<char>>)
    ensures
        forall|i: int|
            0 <= i < words.len() ==> has_part(prefix_query(words), #[trigger] words[i] + seq!['*']),
        forall|i: int|
            0 <= i < words.len() - 1 ==> has_part(
                prefix_query(words),
                #[trigger] words[i] + seq!['*'] + " AND "@ + words[i + 1] + seq!['*'],
            ),
    decreases words.len(),
{
    if words.len() == 1 {
        lemma_part_self(words[0] + seq!['*']);
    } else if words.len() > 1 {
        let p = words.drop_last();
        lemma_prefix_query_parts(p);
        let q = prefix_query(p);
        let w = words.last();
        let and = " AND "@;
        assert(prefix_query(words) == q + and + w + seq!['*']);
        lemma_part_extend_all(q, and);
        lemma_part_extend_all(q + and, w);
        lemma_part_extend_all(q + and + w, seq!['*']);
        assert forall|i: int| 0 <= i < words.len() implies has_part(
            prefix_query(words),
            #[trigger] words[i] + seq!['*'],
        ) by {
            if i < p.len() {
                assert(p[i] == words[i]);
                assert(has_part(q, p[i] + seq!['*']));
            } else {
                vstd::seq_lib::lemma_concat_associative(q + and, w, seq!['*']);
                lemma_part_suffix(q + and, w + seq!['*']);
            }
        }
        assert forall|i: int| 0 <= i < words.len() - 1 implies has_part(
            prefix_query(words),
            #[trigger] words[i] + seq!['*'] + " AND "@ + words[i + 1] + seq!['*'],
        ) by {
            let u = words[i] + seq!['*'] + " AND "@ + words[i + 1] + seq!['*'];
            if i + 1 < p.len() {
                assert(p[i] == words[i] && p[i + 1] == words[i + 1]);
                assert(has_part(q, u));
            } else {
                // `q` ends with the next-to-last word and its `*`
                let v = p.last() + seq!['*'];
                let x = if p.len() == 1 {
                    Seq::<char>::empty()
                } else {
                    prefix_query(p.drop_last()) + and
                };
                assert(q =~= x + v);
                assert(prefix_query(words) =~= x + u);
                lemma_part_suffix(x, u);
            }
        }
    }
}

/// `search-owner` prints the line of every hit, and a note when there is none.
pub proof fn lemma_owner_hits_lines(hits: Seq<OwnerHitView>)
    ensures
        hits.len() == 0 ==> owner_hits_text(hits) == "No matching current owners.\n"@,
        forall|i: int|
            0 <= i < hits.len() ==> has_part(owner_hits_text(hits), #[trigger] owner_line(hits[i])),
{
    lemma_lines_of_parts(hits, owner_line_fn());
    assert forall|i: int| 0 <= i < hits.len() implies has_part(
        owner_hits_text(hits),
        #[trigger] owner_line(hits[i]),
    ) by {
        assert(owner_line_fn()(hits[i]) == owner_line(hits[i]));
    }
}

} // verus!
