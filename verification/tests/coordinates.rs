use sst_ingest::coordinate::{tidylon, FULL_TURN, HALF_TURN};
use sst_ingest::document::make_id;
use sst_ingest::value::{decode_series, decode_value, hundredths, Decimal, Scale};

#[test]
fn longitude_past_half_turn_loses_a_full_turn() {
    assert_eq!(tidylon(200_000), -160_000);
    assert_eq!(tidylon(359_500), -500);
    assert_eq!(tidylon(180_001), -179_999);
}

#[test]
fn longitude_up_to_half_turn_stays() {
    assert_eq!(tidylon(0), 0);
    assert_eq!(tidylon(500), 500);
    assert_eq!(tidylon(179_500), 179_500);
    assert_eq!(tidylon(180_000), 180_000);
}

#[test]
fn canonical_longitudes_lie_in_range_and_stay() {
    let mut x: i64 = 0;
    while x < FULL_TURN {
        let y = tidylon(x);
        assert!(-HALF_TURN < y && y <= HALF_TURN);
        assert_eq!(tidylon(y), y);
        let back = if y < 0 { y + FULL_TURN } else { y };
        assert_eq!(back, x);
        assert_eq!(tidylon(back), y);
        x += 125;
    }
}

#[test]
fn canonical_longitude_matches_the_float_rule() {
    let mut x: i64 = 0;
    while x < FULL_TURN {
        let f = x as f64 / 1000.0;
        let want = if f <= 180.0 { f } else { f - 360.0 };
        assert_eq!(tidylon(x) as f64 / 1000.0, want);
        x += 250;
    }
}

#[test]
fn sample_in_hundredths_decodes() {
    let value = decode_value(2575, hundredths());
    assert_eq!(value, Decimal { mantissa: 2575, places: 2 });
    assert_eq!(value.mantissa as f64 * 0.01, 25.75);
}

#[test]
fn decoding_is_linear() {
    let scale = Scale { mantissa: 3, places: 1 };
    for raw in [-40_000i32, -1, 0, 1, 7, 2575, 1_000_000] {
        let once = decode_value(raw, scale);
        let twice = decode_value(2 * raw, scale);
        assert_eq!(twice.mantissa, 2 * once.mantissa);
        assert_eq!(twice.places, once.places);
        assert_eq!(once.mantissa, raw as i64 * 3);
    }
}

#[test]
fn decoding_never_overflows() {
    let scale = Scale { mantissa: i32::MIN, places: 0 };
    assert_eq!(decode_value(i32::MIN, scale).mantissa, 1i64 << 62);
    let scale = Scale { mantissa: i32::MAX, places: 9 };
    assert_eq!(
        decode_value(i32::MIN, scale),
        Decimal { mantissa: i32::MIN as i64 * i32::MAX as i64, places: 9 }
    );
}

#[test]
fn series_decodes_in_order() {
    let values = decode_series(&vec![2575, -180, 0], hundredths());
    assert_eq!(
        values,
        vec![
            Decimal { mantissa: 2575, places: 2 },
            Decimal { mantissa: -180, places: 2 },
            Decimal { mantissa: 0, places: 2 },
        ]
    );
    assert!(decode_series(&Vec::new(), hundredths()).is_empty());
}

#[test]
fn identity_joins_longitude_and_latitude() {
    assert_eq!(make_id(-160_500, -77_500), "-160.5_-77.5");
    assert_eq!(make_id(20_000, 0), "20_0");
    assert_eq!(make_id(500, -500), "0.5_-0.5");
    assert_eq!(make_id(179_125, 89_250), "179.125_89.25");
    assert_eq!(make_id(-5, 1_050), "-0.005_1.05");
    assert_eq!(make_id(100_010, -10_100), "100.01_-10.1");
}

#[test]
fn identity_of_extreme_values() {
    assert_eq!(
        make_id(i64::MIN, i64::MAX),
        "-9223372036854775.808_9223372036854775.807"
    );
}

#[test]
fn identity_matches_the_default_float_text() {
    let mut lat: i64 = -89_500;
    while lat <= 89_500 {
        let mut lon: i64 = 500;
        while lon < 360_000 {
            let canonical = tidylon(lon);
            let lon_f = if lon as f64 / 1000.0 <= 180.0 {
                lon as f64 / 1000.0
            } else {
                lon as f64 / 1000.0 - 360.0
            };
            let lat_f = lat as f64 / 1000.0;
            let want = [lon_f.to_string(), lat_f.to_string()].join("_");
            assert_eq!(make_id(canonical, lat), want);
            lon += 1000;
        }
        lat += 1000;
    }
}

#[test]
fn identities_of_a_grid_are_distinct() {
    let mut seen = std::collections::HashSet::new();
    let mut lat: i64 = -89_500;
    while lat <= 89_500 {
        let mut lon: i64 = 500;
        while lon < 360_000 {
            assert!(seen.insert(make_id(tidylon(lon), lat)));
            lon += 1000;
        }
        lat += 1000;
    }
    assert_eq!(seen.len(), 360 * 180);
}
