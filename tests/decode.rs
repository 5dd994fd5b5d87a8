use metars::cloud::{cloud_from_cells, Cloud};
use metars::feed::strip_banner;
use metars::metar::{DecodeError, Metar};
use metars::remarks::extract_remarks;
use metars::text::{parse_decimal, parse_int, strip_plus, Decimal};
use metars::time::parse_timestamp_cell;
use metars::units::{Elevation, Temperature, Wind};
use metars::wind::WindDirection;

fn dec(mantissa: i64, scale: u32) -> Decimal {
    Decimal { mantissa, scale }
}

fn cell(s: &str) -> Option<String> {
    Some(s.to_string())
}

fn empty_row() -> Vec<Option<String>> {
    vec![None; 44]
}

fn full_row(station: &str) -> Vec<Option<String>> {
    let mut row = empty_row();
    row[0] = cell(&format!("METAR {} 011953Z 31012G20KT 10SM FEW200 22/08 A3002 RMK AO2 SLP166", station));
    row[1] = cell(station);
    row[2] = cell("2024-05-01T12:53:00Z");
    row[3] = cell("37.3591");
    row[4] = cell("-121.9245");
    row[5] = cell("22.2");
    row[6] = cell("8.3");
    row[7] = cell("310");
    row[8] = cell("12");
    row[9] = cell("20");
    row[10] = cell("10+");
    row[11] = cell("30.02");
    row[21] = cell("-RA");
    row[22] = cell("FEW");
    row[23] = cell("20000");
    row[24] = cell("BKN");
    row[30] = cell("VFR");
    row[42] = cell("METAR");
    row[43] = cell("16");
    row
}

#[test]
fn celsius_to_fahrenheit_values() {
    assert_eq!(Temperature::Celsius(Some(dec(0, 0))).to_fahrenheit(), Some(dec(320, 1)));
    assert_eq!(Temperature::Celsius(Some(dec(100, 0))).to_fahrenheit(), Some(dec(2120, 1)));
    assert_eq!(Temperature::Celsius(Some(dec(-400, 1))).to_fahrenheit(), Some(dec(-4000, 2)));
    assert_eq!(Temperature::Celsius(None).to_fahrenheit(), None);
    assert_eq!(Temperature::Fahrenheit(Some(dec(5, 0))).to_fahrenheit(), Some(dec(5, 0)));
}

#[test]
fn knots_to_mph_values() {
    assert_eq!(Wind::Knots(Some(dec(10, 0))).to_mph(), Some(dec(1150, 2)));
    assert_eq!(Wind::Knots(Some(dec(1, 0))).to_mph(), Some(dec(115, 2)));
    assert_eq!(Wind::Knots(Some(dec(0, 0))).to_mph(), Some(dec(0, 2)));
    assert_eq!(Wind::Knots(None).to_mph(), None);
    assert_eq!(Wind::Mph(Some(dec(7, 0))).to_mph(), Some(dec(7, 0)));
}

#[test]
fn meters_to_feet_values() {
    assert_eq!(Elevation::Meters(Some(dec(16, 0))).to_feet(), Some(dec(52, 0)));
    assert_eq!(Elevation::Meters(Some(dec(100, 0))).to_feet(), Some(dec(328, 0)));
    assert_eq!(Elevation::Meters(Some(dec(-16, 0))).to_feet(), Some(dec(-52, 0)));
    assert_eq!(Elevation::Meters(None).to_feet(), None);
}

#[test]
fn elevation_sentinel_is_absent() {
    let mut row = full_row("KSJC");
    row[43] = cell("9999");
    let m = Metar::from_row(&row);
    assert!(matches!(m.elevation_m, Elevation::Meters(None)));
    assert!(matches!(m.elevation_ft, Elevation::Feet(None)));
    row[43] = cell("9999.0");
    let m = Metar::from_row(&row);
    assert!(matches!(m.elevation_m, Elevation::Meters(None)));
    row[43] = cell("9998");
    let m = Metar::from_row(&row);
    assert!(matches!(m.elevation_ft, Elevation::Feet(Some(d)) if d == dec(32802, 0)));
}

#[test]
fn cardinal_decode() {
    assert_eq!(WindDirection::Degrees(Some(0)).to_cardinal_direction(), None);
    assert_eq!(WindDirection::Degrees(Some(90)).to_cardinal_direction(), Some("E".to_string()));
    assert_eq!(WindDirection::Degrees(Some(360)).to_cardinal_direction(), Some("N".to_string()));
    assert_eq!(WindDirection::Degrees(Some(11)).to_cardinal_direction(), Some("N".to_string()));
    assert_eq!(WindDirection::Degrees(Some(12)).to_cardinal_direction(), Some("NNE".to_string()));
    assert_eq!(WindDirection::Degrees(Some(310)).to_cardinal_direction(), Some("NW".to_string()));
    assert_eq!(WindDirection::Degrees(Some(400)).to_cardinal_direction(), None);
    assert_eq!(WindDirection::Degrees(None).to_cardinal_direction(), None);
    let vrb = WindDirection::from_cell(&cell("VRB"));
    assert!(matches!(vrb, WindDirection::Variable(Some(ref t)) if t == "VRB"));
    assert_eq!(vrb.to_cardinal_direction(), Some("Variable".to_string()));
}

#[test]
fn heading_cells() {
    assert!(matches!(WindDirection::from_cell(&None), WindDirection::Degrees(None)));
    assert!(matches!(WindDirection::from_cell(&cell("270")), WindDirection::Degrees(Some(270))));
    assert!(matches!(WindDirection::from_cell(&cell("abc")), WindDirection::Degrees(None)));
}

#[test]
fn cloud_layers() {
    assert!(cloud_from_cells(&None, &None).is_none());
    assert!(cloud_from_cells(&None, &cell("x")).is_none());
    let c = cloud_from_cells(&cell("BKN"), &None).unwrap();
    assert_eq!(c.sky_cover_label, Some("Broken".to_string()));
    assert_eq!(c.cloud_base_ft_agl, None);
    let c = cloud_from_cells(&None, &cell("2500")).unwrap();
    assert_eq!(c.sky_cover_label, None);
    assert_eq!(c.cloud_base_ft_agl, Some(2500));
}

#[test]
fn sky_cover_labels() {
    let cases = [
        ("CLR", "Clear"),
        ("SKC", "Clear"),
        ("FEW", "Few"),
        ("SCT", "Scattered"),
        ("BKN", "Broken"),
        ("OVC", "Overcast"),
        ("OVX", "Obscured"),
        ("ovc", ""),
        ("CAVOK", ""),
    ];
    for (code, label) in cases {
        let mut c = Cloud { sky_cover: cell(code), sky_cover_label: None, cloud_base_ft_agl: Some(1) };
        c.sky_cover_label();
        assert_eq!(c.sky_cover_label, Some(label.to_string()));
        assert_eq!(c.cloud_base_ft_agl, Some(1));
    }
    let mut c = Cloud { sky_cover: None, sky_cover_label: Some("x".to_string()), cloud_base_ft_agl: None };
    c.sky_cover_label();
    assert_eq!(c.sky_cover_label, None);
}

#[test]
fn remarks() {
    assert_eq!(extract_remarks("METAR KSJC 010000Z RMK AO2 SLP123"), Some("AO2 SLP123".to_string()));
    assert_eq!(extract_remarks("METAR KSJC 010000Z 10SM CLR"), None);
    assert_eq!(extract_remarks("METAR KSJC 010000Z RMK"), Some(String::new()));
    assert_eq!(extract_remarks("METAR KSJC RMKX 01 RMK A"), Some("A".to_string()));
    assert_eq!(extract_remarks("RMK a  b"), Some("a b".to_string()));
    assert_eq!(extract_remarks("X\tRMK A"), Some("A".to_string()));
    assert_eq!(extract_remarks("METAR RMK  AO2 \n SLP123 "), Some("AO2 SLP123".to_string()));
    assert_eq!(extract_remarks("METAR RMK "), Some(String::new()));
    assert_eq!(extract_remarks("METAR xRMK"), None);
    assert_eq!(extract_remarks(""), None);
}

#[test]
fn end_to_end_keeps_conus_rows() {
    let rows = vec![full_row("KSJC"), full_row("PHNL")];
    let ms = Metar::parse_metars(&rows).unwrap();
    assert_eq!(ms.conus.len(), 1);
    let m = &ms.conus[0];
    assert_eq!(m.station_id, "KSJC");
    assert_eq!(m.lat, Some(dec(373591, 4)));
    assert_eq!(m.lon, Some(dec(-1219245, 4)));
    assert!(matches!(m.temp_c, Temperature::Celsius(Some(d)) if d == dec(222, 1)));
    assert!(matches!(m.temp_f, Temperature::Fahrenheit(Some(d)) if d == dec(7196, 2)));
    assert!(matches!(m.dewpoint_f, Temperature::Fahrenheit(Some(d)) if d == dec(4694, 2)));
    assert!(matches!(m.wind_dir_degrees, WindDirection::Degrees(Some(310))));
    assert_eq!(m.wind_dir_cardinal, Some("NW".to_string()));
    assert!(matches!(m.wind_speed_mph, Wind::Mph(Some(d)) if d == dec(1380, 2)));
    assert!(matches!(m.wind_gust_mph, Wind::Mph(Some(d)) if d == dec(2301, 2)));
    assert_eq!(m.visibility_statute_mi, Some(dec(10, 0)));
    assert_eq!(m.altim_in_hg, Some(dec(3002, 2)));
    assert_eq!(m.clouds.len(), 2);
    assert_eq!(m.clouds[0].sky_cover_label, Some("Few".to_string()));
    assert_eq!(m.clouds[0].cloud_base_ft_agl, Some(20000));
    assert_eq!(m.clouds[1].sky_cover_label, Some("Broken".to_string()));
    assert_eq!(m.clouds[1].cloud_base_ft_agl, None);
    assert_eq!(m.wx_string, Some("-RA".to_string()));
    assert_eq!(m.flight_category, Some("VFR".to_string()));
    assert_eq!(m.report_type, Some("METAR".to_string()));
    assert!(matches!(m.elevation_ft, Elevation::Feet(Some(d)) if d == dec(52, 0)));
    assert_eq!(m.remarks, Some("AO2 SLP166".to_string()));
    assert_eq!(m.observation_time.map(|t| t.seconds), Some(1714567980));
}

#[test]
fn non_conus_rows_give_nothing() {
    let mut no_station = full_row("KSFO");
    no_station[1] = None;
    let rows = vec![full_row("PHNL"), full_row("CYVR"), no_station, full_row("kSJC")];
    let ms = Metar::parse_metars(&rows).unwrap();
    assert!(ms.conus.is_empty());
    let rows = vec![full_row("KSJC"), full_row("EGLL"), full_row("KSFO")];
    let ms = Metar::parse_metars(&rows).unwrap();
    assert_eq!(ms.conus.len(), 2);
    assert_eq!(ms.conus[1].station_id, "KSFO");
}

#[test]
fn short_row_is_a_schema_mismatch() {
    let mut short = full_row("PHNL");
    short.truncate(43);
    let rows = vec![full_row("KSJC"), short];
    assert_eq!(Metar::parse_metars(&rows).unwrap_err(), DecodeError::SchemaMismatch { row: 1 });
    assert!(Metar::parse_metars(&Vec::new()).unwrap().conus.is_empty());
}

#[test]
fn absent_and_bad_cells_are_absent() {
    let mut row = empty_row();
    row[1] = cell("KXYZ");
    row[5] = cell("n/a");
    row[8] = cell("");
    row[10] = cell("1+2");
    let m = Metar::from_row(&row);
    assert_eq!(m.visibility_statute_mi, None);
    assert_eq!(m.raw_text, "");
    assert_eq!(m.observation_time, None);
    assert!(matches!(m.temp_c, Temperature::Celsius(None)));
    assert!(matches!(m.temp_f, Temperature::Fahrenheit(None)));
    assert!(matches!(m.wind_speed_kt, Wind::Knots(None)));
    assert_eq!(m.wind_dir_cardinal, None);
    assert!(m.clouds.is_empty());
    assert_eq!(m.remarks, None);
}

#[test]
fn numbers() {
    assert_eq!(parse_decimal("12.8"), Some(dec(128, 1)));
    assert_eq!(parse_decimal("-3.25"), Some(dec(-325, 2)));
    assert_eq!(parse_decimal("+7"), Some(dec(7, 0)));
    assert_eq!(parse_decimal(".5"), Some(dec(5, 1)));
    assert_eq!(parse_decimal("5."), Some(dec(5, 0)));
    assert_eq!(parse_decimal("123456789012345"), Some(dec(123456789012345, 0)));
    assert_eq!(parse_decimal("1234567890123456"), None);
    assert_eq!(parse_decimal("1.2.3"), None);
    assert_eq!(parse_decimal("."), None);
    assert_eq!(parse_decimal(""), None);
    assert_eq!(parse_decimal("10+"), None);
    assert_eq!(parse_int("-2147483648"), Some(i32::MIN));
    assert_eq!(parse_int("2147483648"), None);
    assert_eq!(parse_int("+015"), Some(15));
    assert_eq!(parse_int("1.0"), None);
    assert_eq!(parse_int("-"), None);
    assert_eq!(strip_plus("10+"), "10");
    assert_eq!(strip_plus("1+2"), "1+2");
    assert_eq!(strip_plus("10"), "10");
    assert_eq!(parse_decimal("1e2"), None);
}

#[test]
fn timestamps() {
    let t = parse_timestamp_cell(&cell("2024-05-01T12:53:00Z")).unwrap();
    assert_eq!((t.seconds, t.nanos), (1714567980, 0));
    let t = parse_timestamp_cell(&cell("2024-05-01T14:53:00.5+02:00")).unwrap();
    assert_eq!((t.seconds, t.nanos), (1714567980, 500_000_000));
    assert_eq!(parse_timestamp_cell(&cell("yesterday")), None);
    assert_eq!(parse_timestamp_cell(&None), None);
}

#[test]
fn banner_is_taken_off() {
    let text = "No errors\nNo warnings\n5 ms\ndata source=metars\n3 results\nraw_text,station_id\na,KSJC\n";
    assert_eq!(strip_banner(text), "raw_text,station_id\na,KSJC");
    let plain = "raw_text,station_id\na,KSJC\n";
    assert_eq!(strip_banner(plain), plain);
    assert_eq!(strip_banner("No errors\n1\n2\n3\n"), "");
    assert_eq!(strip_banner("x\nNo errors\n1\n2\n3\n4\n5"), "x\nNo errors\n1\n2\n3\n4\n5");
}
