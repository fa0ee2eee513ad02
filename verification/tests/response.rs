use cwv_markov::Range;
use cwv_markov::ResponseFunctionSet;
use cwv_markov::ResponseParams;
use cwv_markov::SCALE;
use cwv_markov::scaled_response;

fn rising() -> ResponseParams {
    // The rate-to-precipitating curve of the sigmoid model: 0 to 1 units,
    // centered at 61 units, stretched over 2 units.
    ResponseParams::new(0, 1_000_000, 61_000_000, 2_000_000)
}

fn falling() -> ResponseParams {
    ResponseParams::new(4_000_000, 0, 61_000_000, 2_000_000)
}

#[test]
fn midpoint_is_halfway() {
    assert_eq!(scaled_response(&rising(), 61_000_000), 500_000);
    assert_eq!(scaled_response(&falling(), 61_000_000), 2_000_000);
}

#[test]
fn exact_values_off_center() {
    assert_eq!(scaled_response(&rising(), 0), 15_873);
    assert_eq!(scaled_response(&rising(), 40_000_000), 43_478);
    assert_eq!(scaled_response(&rising(), 80_000_000), 952_380);
    assert_eq!(scaled_response(&falling(), 40_000_000), 3_826_086);
    assert_eq!(scaled_response(&falling(), 80_000_000), 190_478);
}

#[test]
fn monotone_and_bounded() {
    let p = rising();
    let mut prev = scaled_response(&p, -1_000_000_000);
    let mut q: i64 = -1_000_000_000;
    while q <= 130_000_000 {
        let v = scaled_response(&p, q);
        assert!(v >= prev);
        assert!(0 <= v && v <= 1_000_000);
        prev = v;
        q += 1_000_000;
    }
    let f = falling();
    let a = scaled_response(&f, 40_000_000);
    let b = scaled_response(&f, 61_000_000);
    let c = scaled_response(&f, 80_000_000);
    assert!(a >= b && b >= c);
    assert!(c >= 0 && a <= 4_000_000);
}

#[test]
fn zero_width_is_constant_lo() {
    let p = ResponseParams::constant(400_000);
    assert_eq!(scaled_response(&p, -900_000_000), 400_000);
    assert_eq!(scaled_response(&p, 0), 400_000);
    assert_eq!(scaled_response(&p, 900_000_000), 400_000);
    let d = ResponseParams::new(7, 9_999, 5, 0);
    assert_eq!(scaled_response(&d, 123_456), 7);
}

#[test]
fn saturates_toward_levels() {
    let p = rising();
    let far_left = scaled_response(&p, -1_000_000_000_000);
    let far_right = scaled_response(&p, 1_000_000_000_000);
    assert!(far_left < 100);
    assert!(far_right > SCALE - 100);
}

#[test]
fn presets_hold_the_historical_constants() {
    let expected_2011 = ResponseFunctionSet {
        rate_to_precip: ResponseParams::new(0, 1_000_000, 61_000_000, 2_000_000),
        rate_to_not_precip: ResponseParams::new(4_000_000, 0, 61_000_000, 2_000_000),
        evaporation_drift: ResponseParams::new(400_000, 400_000, 0, 0),
        precipitation_drift: ResponseParams::new(3_000_000, 3_000_000, 64_500_000, 1_000_000),
        diffusion_scale_not_precip: ResponseParams::new(2_000_000, 2_000_000, 0, 0),
        diffusion_scale_precip: ResponseParams::new(16_000_000, 64_040_000, 64_500_000, 1_000_000),
    };
    assert_eq!(ResponseFunctionSet::model_2011(), expected_2011);

    let expected_2014 = ResponseFunctionSet {
        rate_to_precip: ResponseParams::new(0, 0, 0, 0),
        rate_to_not_precip: ResponseParams::new(0, 0, 0, 0),
        evaporation_drift: ResponseParams::new(200_000, 200_000, 0, 0),
        precipitation_drift: ResponseParams::new(5_000_000, 5_000_000, 0, 0),
        diffusion_scale_not_precip: ResponseParams::new(2_000_000, 2_000_000, 0, 0),
        diffusion_scale_precip: ResponseParams::new(36_000_000, 36_000_000, 0, 0),
    };
    assert_eq!(ResponseFunctionSet::model_2014(), expected_2014);
}

#[test]
fn preset_2011_curves_evaluate_as_built() {
    // The preset's rate curves are the ones this file builds by hand, so
    // they must agree point by point.
    let m = ResponseFunctionSet::model_2011();
    for q in [0i64, 40_000_000, 61_000_000, 80_000_000] {
        assert_eq!(scaled_response(&m.rate_to_precip, q), scaled_response(&rising(), q));
        assert_eq!(scaled_response(&m.rate_to_not_precip, q), scaled_response(&falling(), q));
    }
    assert_eq!(scaled_response(&m.evaporation_drift, 55_000_000), 400_000);
    assert_eq!(scaled_response(&m.diffusion_scale_not_precip, 55_000_000), 2_000_000);
}

#[test]
fn range_progression() {
    let mut r = Range::new(5, 3);
    assert_eq!(r.next(), 5);
    assert_eq!(r.next(), 8);
    assert_eq!(r.next(), 11);
    let mut down = Range::new(1_000_000, -250_000);
    assert_eq!(down.next(), 1_000_000);
    assert_eq!(down.next(), 750_000);
    assert_eq!(down.next(), 500_000);
}
