use light_monitor::measurements::{Measurements, NewtonStep};

fn newton_step(f: impl Fn(f64) -> f64, fp: impl Fn(f64) -> f64, tol: f64) -> impl Fn(f64) -> NewtonStep<f64> {
    move |x: f64| {
        let fpx = fp(x);
        if fpx.abs() < 1e-12 {
            return NewtonStep::Degenerate;
        }
        let x_new = x - f(x) / fpx;
        if (x_new - x).abs() < tol {
            NewtonStep::Converged(x_new)
        } else {
            NewtonStep::Moved(x_new)
        }
    }
}

#[test]
fn converges_to_square_root_of_four() {
    let step = newton_step(|x| x * x - 4.0, |x| 2.0 * x, 1e-9);
    let (root, trace) = Measurements::newton_raphson(step, 3.0, 50);
    assert!((root - 2.0).abs() < 1e-9);
    assert!(trace.len() - 1 < 10);
    assert_eq!(trace[0], 3.0);
    assert_eq!(*trace.last().unwrap(), root);
}

#[test]
fn degenerate_derivative_stops_at_the_guess() {
    let step = newton_step(|_x| 5.0, |_x| 0.0, 1e-6);
    let (root, trace) = Measurements::newton_raphson(step, 1.5, 20);
    assert_eq!(root, 1.5);
    assert_eq!(trace, vec![1.5]);
}

#[test]
fn exhaustion_returns_the_last_update() {
    // f(x) = x^2 + 1 has no real root: the updates never settle.
    let step = newton_step(|x| x * x + 1.0, |x| 2.0 * x, 1e-12);
    let (root, trace) = Measurements::newton_raphson(step, 0.5, 3);
    assert_eq!(trace.len(), 4);
    assert_eq!(root, trace[3]);
    assert_eq!(trace[0], 0.5);
    let x1 = 0.5 - (0.25 + 1.0) / 1.0;
    assert_eq!(trace[1], x1);
}

#[test]
fn zero_iterations_return_the_guess() {
    let step = newton_step(|x| x - 1.0, |_x| 1.0, 1e-6);
    let (root, trace) = Measurements::newton_raphson(step, 7.0, 0);
    assert_eq!(root, 7.0);
    assert_eq!(trace, vec![7.0]);
}

#[test]
fn converged_update_is_the_last_in_the_trace() {
    // A linear function converges in one update; the second update is the
    // one that moves less than the tolerance.
    let step = newton_step(|x| 2.0 * x - 6.0, |_x| 2.0, 1e-6);
    let (root, trace) = Measurements::newton_raphson(step, 10.0, 20);
    assert_eq!(root, 3.0);
    assert_eq!(trace, vec![10.0, 3.0, 3.0]);
}

#[test]
fn integer_steps_follow_the_driver() {
    let step = |x: i64| if x > 0 { NewtonStep::Moved(x - 1) } else { NewtonStep::Degenerate };
    let (root, trace) = Measurements::newton_raphson(step, 3i64, 10);
    assert_eq!(root, 0);
    assert_eq!(trace, vec![3, 2, 1, 0]);
}
