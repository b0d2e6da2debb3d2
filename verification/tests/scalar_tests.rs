use neuron::fixed::{fx_add, fx_div, fx_div_int, fx_mul, fx_neg, fx_sub, SCALE};
use neuron::transcend::{fx_exp, fx_ln, fx_sigmoid, fx_softplus, fx_tanh, E_FX, E_INV_FX, LN2_FX};

fn fx(x: f64) -> i64 {
    (x * SCALE as f64).round() as i64
}

#[test]
fn test_fx_add_and_saturation() {
    assert_eq!(fx_add(fx(1.5), fx(2.25)), fx(3.75));
    assert_eq!(fx_add(i64::MAX, 1), i64::MAX);
    assert_eq!(fx_sub(i64::MIN, 1), i64::MIN);
    assert_eq!(fx_neg(i64::MIN), i64::MAX);
}

#[test]
fn test_fx_mul_truncates_toward_zero() {
    assert_eq!(fx_mul(fx(2.0), fx(3.0)), fx(6.0));
    assert_eq!(fx_mul(fx(-2.0), fx(3.0)), fx(-6.0));
    // 3 units times 0.5 is 1.5 units, truncated toward zero.
    assert_eq!(fx_mul(3, fx(0.5)), 1);
    assert_eq!(fx_mul(-3, fx(0.5)), -1);
}

#[test]
fn test_fx_div_int() {
    assert_eq!(fx_div_int(fx(1.0), 3), 333_333);
    assert_eq!(fx_div_int(fx(-1.0), 3), -333_333);
    assert_eq!(fx_div(fx(1.0), fx(2.0)), fx(0.5));
}

#[test]
fn test_exp_exact_points() {
    assert_eq!(fx_exp(0), SCALE);
    assert_eq!(fx_exp(fx(1.0)), E_FX);
    assert_eq!(fx_exp(fx(-1.0)), E_INV_FX);
    // far below the representable range the exponential is zero
    assert_eq!(fx_exp(fx(-20.0)), 0);
}

#[test]
fn test_exp_accuracy() {
    // e^0.5 = 1.648721...
    let e_half = fx_exp(fx(0.5));
    assert!((e_half - fx(1.648721)).abs() < 50, "e^0.5 = {}", e_half);
    // e^2 = 7.389056...
    let e_two = fx_exp(fx(2.0));
    assert!((e_two - fx(7.389056)).abs() < 200, "e^2 = {}", e_two);
}

#[test]
fn test_ln_exact_points() {
    assert_eq!(fx_ln(SCALE), 0);
    assert_eq!(fx_ln(2 * SCALE), LN2_FX);
    assert_eq!(fx_ln(0), i64::MIN);
    assert_eq!(fx_ln(-5), i64::MIN);
}

#[test]
fn test_ln_accuracy() {
    // ln(10) = 2.302585...
    let l = fx_ln(fx(10.0));
    assert!((l - fx(2.302585)).abs() < 100, "ln(10) = {}", l);
}

#[test]
fn test_sigmoid_values() {
    assert_eq!(fx_sigmoid(0), SCALE / 2);
    // sigmoid(1) = 1e12 / (1e6 + 367879) = 731058.xx truncated
    assert_eq!(fx_sigmoid(fx(1.0)), 1_000_000_000_000 / (SCALE + E_INV_FX));
    // saturates toward 0 and 1
    assert!(fx_sigmoid(fx(15.0)) >= fx(0.999999));
    assert!(fx_sigmoid(fx(-15.0)) <= 2);
}

#[test]
fn test_tanh_values() {
    assert_eq!(fx_tanh(0), 0);
    let t = fx_tanh(fx(1.0));
    assert!((t - fx(0.761594)).abs() < 50, "tanh(1) = {}", t);
    assert_eq!(fx_tanh(fx(-1.0)), -t);
}

#[test]
fn test_softplus_values() {
    assert_eq!(fx_softplus(0), LN2_FX);
    let s = fx_softplus(fx(1.0));
    assert!((s - fx(1.313262)).abs() < 100, "softplus(1) = {}", s);
}
