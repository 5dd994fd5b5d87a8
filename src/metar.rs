//! Observation records, and the decoding of a batch of rows into them.

use crate::cloud::{cloud_from_cells, cloud_is, layer_of, Cloud};
use crate::remarks::{extract_remarks, remarks_of};
use crate::text::{
    decimal_cell, decimal_of, parse_decimal, parse_decimal_cell, strip_plus, without_plus_suffix,
    Decimal,
};
use crate::time::{parse_timestamp_cell, timestamp_cell, Timestamp};
use crate::units::{Elevation, Temperature, Wind};
use crate::wind::{heading_of, WindDirection};
use vstd::prelude::*;

verus! {

pub const RAW_TEXT: usize = 0;
pub const STATION_ID: usize = 1;
pub const OBSERVATION_TIME: usize = 2;
pub const LATITUDE: usize = 3;
pub const LONGITUDE: usize = 4;
pub const TEMP_C: usize = 5;
pub const DEWPOINT_C: usize = 6;
pub const WIND_DIR_DEGREES: usize = 7;
pub const WIND_SPEED_KT: usize = 8;
pub const WIND_GUST_KT: usize = 9;
pub const VISIBILITY_STATUTE_MI: usize = 10;
pub const ALTIM_IN_HG: usize = 11;
pub const WX_STRING: usize = 21;
/// The first of four (cover, base) column pairs, lowest layer first.
pub const FIRST_SKY_COVER: usize = 22;
pub const FLIGHT_CATEGORY: usize = 30;
pub const REPORT_TYPE: usize = 42;
pub const ELEVATION_M: usize = 43;
/// How many columns a row must have.
pub const ROW_WIDTH: usize = 44;
/// The elevation the feed writes for "not reported".
pub const ELEVATION_SENTINEL: i64 = 9999;

#[derive(Debug)]
pub struct Metar {
    pub raw_text: String,
    pub station_id: String,
    pub observation_time: Option<Timestamp>,
    pub lat: Option<Decimal>,
    pub lon: Option<Decimal>,
    pub temp_c: Temperature,
    pub temp_f: Temperature,
    pub dewpoint_c: Temperature,
    pub dewpoint_f: Temperature,
    pub wind_dir_degrees: WindDirection,
    pub wind_dir_cardinal: Option<String>,
    pub wind_speed_kt: Wind,
    pub wind_speed_mph: Wind,
    pub wind_gust_kt: Wind,
    pub wind_gust_mph: Wind,
    pub visibility_statute_mi: Option<Decimal>,
    pub clouds: Vec<Cloud>,
    pub altim_in_hg: Option<Decimal>,
    pub wx_string: Option<String>,
    pub flight_category: Option<String>,
    pub report_type: Option<String>,
    pub elevation_m: Elevation,
    pub elevation_ft: Elevation,
    pub remarks: Option<String>,
}

#[derive(Debug)]
pub struct Metars {
    pub conus: Vec<Metar>,
}

/// A batch that cannot be decoded.
#[derive(Clone, Copy, Debug, PartialEq, Eq)]
pub enum DecodeError {
    /// The row at this position has fewer than `ROW_WIDTH` cells.
    SchemaMismatch { row: usize },
}

/// A row as cells, each a text or absent.
pub type RowView = Seq<Option<Seq<char>>>;

/// The text of a cell; empty when the cell is absent.
pub open spec fn text_or_empty(c: Option<Seq<char>>) -> Seq<char> {
    match c {
        Some(s) => s,
        None => Seq::empty(),
    }
}

/// Rows whose station id starts with 'K' are kept; the others are dropped.
pub open spec fn station_accepted(row: RowView) -> bool {
    row.len() > STATION_ID && (row[STATION_ID as int] matches Some(s) && s.len() > 0 && s[0]
        == 'K')
}

/// The rows of a batch that give records, in their order.
pub open spec fn accepted_rows(rows: Seq<RowView>) -> Seq<RowView>
    decreases rows.len(),
{
    if rows.len() == 0 {
        rows
    } else if station_accepted(rows.last()) {
        accepted_rows(rows.drop_last()).push(rows.last())
    } else {
        accepted_rows(rows.drop_last())
    }
}

/// Visibility: a final '+' is taken off before the number is read.
pub open spec fn visibility_cell(c: Option<Seq<char>>) -> Option<Decimal> {
    match c {
        Some(s) => decimal_of(without_plus_suffix(s)),
        None => None,
    }
}

/// Elevation in meters: the sentinel value means not reported.
pub open spec fn elevation_cell(c: Option<Seq<char>>) -> Option<Decimal> {
    match decimal_cell(c) {
        Some(d) => if d.equals_int(ELEVATION_SENTINEL as int) {
            None
        } else {
            Some(d)
        },
        None => None,
    }
}

pub open spec fn remarks_cell(c: Option<Seq<char>>) -> Option<Seq<char>> {
    match c {
        Some(s) => remarks_of(s),
        None => None,
    }
}

/// The four candidate cloud layers of a row, lowest first.
pub open spec fn layer_candidates(row: RowView) -> Seq<Option<(Option<Seq<char>>, Option<i32>)>> {
    Seq::new(
        4,
        |k: int|
            layer_of(row[FIRST_SKY_COVER + 2 * k], row[FIRST_SKY_COVER + 2 * k + 1]),
    )
}

/// The layers present in a sequence of candidates, in order.
pub open spec fn present_layers(s: Seq<Option<(Option<Seq<char>>, Option<i32>)>>) -> Seq<
    (Option<Seq<char>>, Option<i32>),
>
    decreases s.len(),
{
    if s.len() == 0 {
        Seq::empty()
    } else {
        match s.last() {
            Some(l) => present_layers(s.drop_last()).push(l),
            None => present_layers(s.drop_last()),
        }
    }
}

pub open spec fn clouds_are(clouds: Seq<Cloud>, layers: Seq<(Option<Seq<char>>, Option<i32>)>) -> bool {
    clouds.len() == layers.len() && forall|j: int|
        0 <= j < clouds.len() ==> cloud_is(#[trigger] clouds[j], layers[j])
}

/// What the record decoded from a row holds, field by field.
pub open spec fn decodes_to(row: RowView, m: Metar) -> bool {
    &&& m.raw_text@ == text_or_empty(row[RAW_TEXT as int])
    &&& m.station_id@ == text_or_empty(row[STATION_ID as int])
    &&& m.observation_time == timestamp_cell(row[OBSERVATION_TIME as int])
    &&& m.lat == decimal_cell(row[LATITUDE as int])
    &&& m.lon == decimal_cell(row[LONGITUDE as int])
    &&& m.temp_c == Temperature::Celsius(decimal_cell(row[TEMP_C as int]))
    &&& m.temp_f == Temperature::Fahrenheit(m.temp_c.spec_fahrenheit())
    &&& m.dewpoint_c == Temperature::Celsius(decimal_cell(row[DEWPOINT_C as int]))
    &&& m.dewpoint_f == Temperature::Fahrenheit(m.dewpoint_c.spec_fahrenheit())
    &&& heading_of(row[WIND_DIR_DEGREES as int], m.wind_dir_degrees)
    &&& m.wind_dir_cardinal.deep_view() == m.wind_dir_degrees.spec_cardinal()
    &&& m.wind_speed_kt == Wind::Knots(decimal_cell(row[WIND_SPEED_KT as int]))
    &&& m.wind_speed_mph == Wind::Mph(m.wind_speed_kt.spec_mph())
    &&& m.wind_gust_kt == Wind::Knots(decimal_cell(row[WIND_GUST_KT as int]))
    &&& m.wind_gust_mph == Wind::Mph(m.wind_gust_kt.spec_mph())
    &&& m.visibility_statute_mi == visibility_cell(row[VISIBILITY_STATUTE_MI as int])
    &&& clouds_are(m.clouds@, present_layers(layer_candidates(row)))
    &&& m.altim_in_hg == decimal_cell(row[ALTIM_IN_HG as int])
    &&& m.wx_string.deep_view() == row[WX_STRING as int]
    &&& m.flight_category.deep_view() == row[FLIGHT_CATEGORY as int]
    &&& m.report_type.deep_view() == row[REPORT_TYPE as int]
    &&& m.elevation_m == Elevation::Meters(elevation_cell(row[ELEVATION_M as int]))
    &&& m.elevation_ft == Elevation::Feet(m.elevation_m.spec_feet())
    &&& m.remarks.deep_view() == remarks_cell(row[RAW_TEXT as int])
}

/// Whether some row of the batch is too short.
pub open spec fn short_row(rows: Seq<RowView>, i: int) -> bool {
    0 <= i < rows.len() && rows[i].len() < ROW_WIDTH
}

fn text_cell(c: &Option<String>) -> (r: String)
    ensures
        r@ == text_or_empty(c.deep_view()),
{
    match c {
        Some(s) => s.clone(),
        None => String::new(),
    }
}

fn is_conus_station(c: &Option<String>) -> (r: bool)
    ensures
        r == (c.deep_view() matches Some(s) && s.len() > 0 && s[0] == 'K'),
{
    match c {
        Some(s) => {
            let t = s.as_str();
            t.unicode_len() > 0 && t.get_char(0) == 'K'
        },
        None => false,
    }
}

fn parse_visibility_cell(c: &Option<String>) -> (r: Option<Decimal>)
    ensures
        r == visibility_cell(c.deep_view()),
{
    match c {
        Some(s) => {
            let t = strip_plus(s.as_str());
            parse_decimal(t.as_str())
        },
        None => None,
    }
}

fn parse_elevation_cell(c: &Option<String>) -> (r: Option<Decimal>)
    ensures
        r == elevation_cell(c.deep_view()),
        r matches Some(d) ==> d.fits(),
{
    match parse_decimal_cell(c) {
        Some(d) => {
            proof {
                crate::text::lemma_pow10_mono(d.scale as nat, crate::text::MAX_DIGITS as nat);
                crate::text::lemma_pow10_max();
            }
            let mut p: i64 = 1;
            let mut k: u32 = 0;
            while k < d.scale
                invariant
                    d.fits(),
                    k <= d.scale,
                    p == crate::text::pow10(k as nat),
                decreases d.scale - k,
            {
                proof {
                    crate::text::lemma_pow10_mono((k + 1) as nat, crate::text::MAX_DIGITS as nat);
                    crate::text::lemma_pow10_max();
                }
                p = p * 10;
                k += 1;
            }
            proof {
                crate::text::lemma_pow10_mono(d.scale as nat, crate::text::MAX_DIGITS as nat);
                crate::text::lemma_pow10_max();
                assert(0 < p <= 1_000_000_000_000_000);
            }
            let sentinel = ELEVATION_SENTINEL as i128;
            assert(sentinel * p <= 9999 * 1_000_000_000_000_000) by (nonlinear_arith)
                requires
                    sentinel == 9999,
                    0 < p <= 1_000_000_000_000_000,
            ;
            let scaled: i128 = sentinel * (p as i128);
            if d.mantissa as i128 == scaled {
                None
            } else {
                Some(d)
            }
        },
        None => None,
    }
}

fn clone_cell(c: &Option<String>) -> (r: Option<String>)
    ensures
        r.deep_view() == c.deep_view(),
{
    match c {
        Some(s) => Some(s.clone()),
        None => None,
    }
}

fn cloud_layers(row: &Vec<Option<String>>) -> (r: Vec<Cloud>)
    requires
        row.len() >= ROW_WIDTH,
    ensures
        clouds_are(r@, present_layers(layer_candidates(row.deep_view()))),
{
    let ghost cands = layer_candidates(row.deep_view());
    let mut clouds: Vec<Cloud> = Vec::new();
    let mut k: usize = 0;
    while k < 4
        invariant
            row.len() >= ROW_WIDTH,
            cands == layer_candidates(row.deep_view()),
            k <= 4,
            clouds_are(clouds@, present_layers(cands.take(k as int))),
        decreases 4 - k,
    {
        let i = FIRST_SKY_COVER + 2 * k;
        let c = cloud_from_cells(&row[i], &row[i + 1]);
        proof {
            assert(cands.take(k + 1).drop_last() =~= cands.take(k as int));
            assert(row.deep_view()[i as int] == row@[i as int].deep_view());
            assert(row.deep_view()[i + 1] == row@[i + 1].deep_view());
        }
        match c {
            Some(cloud) => {
                clouds.push(cloud);
            },
            None => {},
        }
        k += 1;
    }
    proof {
        assert(cands.take(4) =~= cands);
    }
    clouds
}

impl Metar {
    /// Decodes one row; each field that its cell does not give is absent.
    pub fn from_row(row: &Vec<Option<String>>) -> (m: Metar)
        requires
            row.len() >= ROW_WIDTH,
        ensures
            decodes_to(row.deep_view(), m),
    {
        let ghost v = row.deep_view();
        assert(forall|i: int| 0 <= i < row.len() ==> v[i] == #[trigger] row@[i].deep_view());
        let temp_c = Temperature::Celsius(parse_decimal_cell(&row[TEMP_C]));
        let temp_f = Temperature::Fahrenheit(temp_c.to_fahrenheit());
        let dewpoint_c = Temperature::Celsius(parse_decimal_cell(&row[DEWPOINT_C]));
        let dewpoint_f = Temperature::Fahrenheit(dewpoint_c.to_fahrenheit());
        let wind_dir_degrees = WindDirection::from_cell(&row[WIND_DIR_DEGREES]);
        let wind_dir_cardinal = wind_dir_degrees.to_cardinal_direction();
        let wind_speed_kt = Wind::Knots(parse_decimal_cell(&row[WIND_SPEED_KT]));
        let wind_speed_mph = Wind::Mph(wind_speed_kt.to_mph());
        let wind_gust_kt = Wind::Knots(parse_decimal_cell(&row[WIND_GUST_KT]));
        let wind_gust_mph = Wind::Mph(wind_gust_kt.to_mph());
        let elevation_m = Elevation::Meters(parse_elevation_cell(&row[ELEVATION_M]));
        let elevation_ft = Elevation::Feet(elevation_m.to_feet());
        let remarks = match &row[RAW_TEXT] {
            Some(s) => extract_remarks(s.as_str()),
            None => None,
        };
        Metar {
            raw_text: text_cell(&row[RAW_TEXT]),
            station_id: text_cell(&row[STATION_ID]),
            observation_time: parse_timestamp_cell(&row[OBSERVATION_TIME]),
            lat: parse_decimal_cell(&row[LATITUDE]),
            lon: parse_decimal_cell(&row[LONGITUDE]),
            temp_c,
            temp_f,
            dewpoint_c,
            dewpoint_f,
            wind_dir_degrees,
            wind_dir_cardinal,
            wind_speed_kt,
            wind_speed_mph,
            wind_gust_kt,
            wind_gust_mph,
            visibility_statute_mi: parse_visibility_cell(&row[VISIBILITY_STATUTE_MI]),
            clouds: cloud_layers(row),
            altim_in_hg: parse_decimal_cell(&row[ALTIM_IN_HG]),
            wx_string: clone_cell(&row[WX_STRING]),
            flight_category: clone_cell(&row[FLIGHT_CATEGORY]),
            report_type: clone_cell(&row[REPORT_TYPE]),
            elevation_m,
            elevation_ft,
            remarks,
        }
    }

    /// Decodes a batch: one record per row whose station id starts with
    /// 'K', in row order. Fails, naming the first, when a row is too short.
    pub fn parse_metars(rows: &Vec<Vec<Option<String>>>) -> (r: Result<Metars, DecodeError>)
        ensures
            match r {
                Ok(ms) => {
                    &&& forall|i: int| !short_row(rows.deep_view(), i)
                    &&& ms.conus@.len() == accepted_rows(rows.deep_view()).len()
                    &&& forall|k: int|
                        0 <= k < ms.conus@.len() ==> decodes_to(
                            #[trigger] accepted_rows(rows.deep_view())[k],
                            ms.conus@[k],
                        )
                },
                Err(DecodeError::SchemaMismatch { row }) => {
                    &&& short_row(rows.deep_view(), row as int)
                    &&& forall|i: int| 0 <= i < row ==> !short_row(rows.deep_view(), i)
                },
            },
    {
        let ghost v = rows.deep_view();
        let n = rows.len();
        let mut i: usize = 0;
        while i < n
            invariant
                n == rows.len(),
                v == rows.deep_view(),
                i <= n,
                forall|j: int| 0 <= j < i ==> !short_row(v, j),
            decreases n - i,
        {
            if rows[i].len() < ROW_WIDTH {
                proof {
                    assert(v[i as int] == rows@[i as int].deep_view());
                }
                return Err(DecodeError::SchemaMismatch { row: i });
            }
            proof {
                assert(v[i as int] == rows@[i as int].deep_view());
            }
            i += 1;
        }
        let mut conus: Vec<Metar> = Vec::new();
        let mut i: usize = 0;
        while i < n
            invariant
                n == rows.len(),
                v == rows.deep_view(),
                i <= n,
                forall|j: int| !short_row(v, j),
                conus@.len() == accepted_rows(v.take(i as int)).len(),
                forall|k: int|
                    0 <= k < conus@.len() ==> decodes_to(
                        #[trigger] accepted_rows(v.take(i as int))[k],
                        conus@[k],
                    ),
            decreases n - i,
        {
            let row = &rows[i];
            proof {
                assert(v[i as int] == row.deep_view());
                assert(v.take(i + 1).drop_last() =~= v.take(i as int));
                assert(v.take(i + 1).last() == v[i as int]);
                assert(!short_row(v, i as int));
            }
            if is_conus_station(&row[STATION_ID]) {
                proof {
                    assert(row.deep_view()[STATION_ID as int] == row@[STATION_ID as int].deep_view());
                }
                let m = Metar::from_row(row);
                conus.push(m);
            } else {
                proof {
                    assert(row.deep_view()[STATION_ID as int] == row@[STATION_ID as int].deep_view());
                }
            }
            i += 1;
        }
        proof {
            assert(v.take(n as int) =~= v);
        }
        Ok(Metars { conus })
    }
}

/// Splitting a batch splits its records: the records of `a + b` are those
/// of `a` followed by those of `b`.
pub proof fn lemma_accepted_rows_concat(a: Seq<RowView>, b: Seq<RowView>)
    ensures
        accepted_rows(a + b) == accepted_rows(a) + accepted_rows(b),
    decreases b.len(),
{
    if b.len() == 0 {
        assert(a + b =~= a);
        assert(accepted_rows(a) + accepted_rows(b) =~= accepted_rows(a));
    } else {
        lemma_accepted_rows_concat(a, b.drop_last());
        assert((a + b).drop_last() =~= a + b.drop_last());
        assert((a + b).last() == b.last());
        if station_accepted(b.last()) {
            assert(accepted_rows(a) + accepted_rows(b.drop_last()).push(b.last()) =~= (
            accepted_rows(a) + accepted_rows(b.drop_last())).push(b.last()));
        }
    }
}

/// A row whose station id does not start with 'K' gives no record: a batch
/// with it decodes to the records of the batch without it.
pub proof fn lemma_rejected_row_gives_nothing(
    before: Seq<RowView>,
    row: RowView,
    after: Seq<RowView>,
)
    requires
        !station_accepted(row),
    ensures
        accepted_rows(before + seq![row] + after) == accepted_rows(before + after),
{
    lemma_accepted_rows_concat(before + seq![row], after);
    lemma_accepted_rows_concat(before, seq![row]);
    lemma_accepted_rows_concat(before, after);
    assert(seq![row].drop_last() =~= Seq::<RowView>::empty());
    assert(seq![row].last() == row);
    reveal_with_fuel(accepted_rows, 2);
    assert(accepted_rows(seq![row]) =~= Seq::<RowView>::empty());
    assert(accepted_rows(before) + accepted_rows(seq![row]) =~= accepted_rows(before));
}

/// Every record comes from a row whose station id starts with 'K'.
pub proof fn lemma_accepted_rows_are_conus(rows: Seq<RowView>)
    ensures
        forall|k: int|
            0 <= k < accepted_rows(rows).len() ==> station_accepted(
                #[trigger] accepted_rows(rows)[k],
            ),
    decreases rows.len(),
{
    if rows.len() > 0 {
        lemma_accepted_rows_are_conus(rows.drop_last());
        let prev = accepted_rows(rows.drop_last());
        assert forall|k: int| 0 <= k < accepted_rows(rows).len() implies station_accepted(
            #[trigger] accepted_rows(rows)[k],
        ) by {
            if k < prev.len() {
                assert(accepted_rows(rows)[k] == prev[k]);
            }
        }
    }
}

} // verus!
