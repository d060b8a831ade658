// The comparison helpers shared by the statistics tests, and the tests
// of the helpers themselves.  Floating-point values are compared with a
// relative tolerance, integers and error values exactly.

use incr_stats::error::StatsError;

const TOL: f64 = 1e-14;

fn check_int(act: u32, exp: u32) {
    if act != exp {
        panic!("found {:?}, but expected {:?}", act, exp);
    }
}

fn check_f64(act: f64, exp: f64) {
    if !approx::RelativeEq::relative_eq(&act, &exp, TOL, f64::EPSILON) {
        panic!("found {:?}, but expected {:?}", act, exp);
    }
}

fn check_opt_f64(act: Option<f64>, exp: Option<f64>) {
    match (act, exp) {
        (None, None) => {}
        (Some(a), Some(e)) => check_f64(a, e),
        _ => {
            panic!("found {:?}, but expected {:?}", act, exp);
        }
    }
}

fn check_res_f64(act: Result<f64, StatsError>, exp: Result<f64, StatsError>) {
    match (act, exp) {
        (Err(a), Err(e)) => {
            if a != e {
                panic!("found {:?}, but expected {:?}", a, e);
            }
        }
        (Ok(a), Ok(e)) => check_f64(a, e),
        _ => {
            panic!("found {:?}, but expected {:?}", act, exp);
        }
    }
}

#[test]
fn test_check_star() {
    check_int(0, 0);
    check_int(1, 1);
    check_f64(0.0, 0.0);
    check_f64(1.0, 1.0);
    check_opt_f64(Some(0.0), Some(0.0));
    check_opt_f64(Some(1.0), Some(1.0));
}

#[test]
fn test_check1() {
    check_int(0u32, 0u32);
    check_int(1u32, 1u32);
    check_f64(0.0, 0.0);
    check_f64(1.0, 1.0);
    check_opt_f64(Some(0.0), Some(0.0));
    check_opt_f64(Some(1.0), Some(1.0));
}

#[test]
fn check_test_checks_macro() {
    check_int(0u32, 0u32);
    check_int(1u32, 1u32);
    check_f64(0.0, 0.0);
    check_f64(1.0, 1.0);
    check_res_f64(Err(StatsError::NotEnoughData), Err(StatsError::NotEnoughData));
    check_res_f64(Ok(0.0), Ok(0.0));
    check_res_f64(Ok(1.0), Ok(1.0));
}

#[test]
fn tests_test_checks_macro() {
    check_int(0u32, 0u32);
    check_int(1u32, 1u32);
    check_f64(0.0, 0.0);
    check_f64(1.0, 1.0);
    check_opt_f64(None, None);
    check_opt_f64(Some(0.0), Some(0.0));
    check_opt_f64(Some(1.0), Some(1.0));
}

#[test]
#[should_panic]
fn test_check_panic0() {
    check_int(0u32, 1u32);
}

#[test]
#[should_panic]
fn check_test_check_panic1() {
    check_f64(0.0, 1.0);
}

#[test]
#[should_panic]
fn check_test_check_panic2() {
    check_res_f64(Ok(0.0), Err(StatsError::NotEnoughData));
}

#[test]
#[should_panic]
fn check_test_check_panic3() {
    check_res_f64(Err(StatsError::NotEnoughData), Ok(7.0));
}

#[test]
#[should_panic]
fn check_test_check_panic4() {
    check_res_f64(Ok(6.0), Ok(8.0));
}
