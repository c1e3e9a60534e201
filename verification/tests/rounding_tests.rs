use space_game::rounding::{f32_numerator_exec, floor_log2_exec, round_half_even_exec, two_to_exec};

#[test]
fn powers_and_logarithms() {
    assert_eq!(two_to_exec(0), 1);
    assert_eq!(two_to_exec(23), 8_388_608);
    assert_eq!(floor_log2_exec(1), 0);
    assert_eq!(floor_log2_exec(255), 7);
    assert_eq!(floor_log2_exec(256), 8);
}

#[test]
fn halves_round_to_even() {
    assert_eq!(round_half_even_exec(5, 2), 2);
    assert_eq!(round_half_even_exec(7, 2), 4);
    assert_eq!(round_half_even_exec(11, 4), 3);
    assert_eq!(round_half_even_exec(9, 4), 2);
    assert_eq!(round_half_even_exec(8, 4), 2);
}

#[test]
fn twelve_sevenths_in_single_precision() {
    assert_eq!(f32_numerator_exec(12, 7), (14_380_471, 23));
}

#[test]
fn quotients_match_float_division() {
    for ns in 1u64..=255 {
        for m in 1..=ns {
            let (num, k) = f32_numerator_exec(ns, m);
            let d = ns as f32 / m as f32;
            assert_eq!(num as f64, d as f64 * 2f64.powi(k as i32), "{} / {}", ns, m);
        }
    }
}

#[test]
fn products_match_float_multiplication() {
    // The spacing 39 / 33 times 11 rounds to just below 13.
    let (d, k) = f32_numerator_exec(39, 33);
    let t = d * 11;
    let (p, j) = f32_numerator_exec(t, two_to_exec(k));
    let product = (39f32 / 33f32) * 11f32;
    assert_eq!(p as f64, product as f64 * 2f64.powi(j as i32));
    assert_eq!(p / two_to_exec(j), 12);
}
