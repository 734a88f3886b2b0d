use mandelbrot::evaluator::belongs_to_mandelbrot_set;
use mandelbrot::fixed::SCALE;

// A real radius of 2, the classic escape bound, in raw fixed-point units.
const RADIUS_TWO: i64 = 2 * SCALE;

#[test]
fn zero_point_always_belongs() {
    // c = 0 is a fixed point of the recurrence: it belongs for any positive
    // radius, with the full iteration count.
    let (belongs, iterations) = belongs_to_mandelbrot_set(0, 0, 1000, RADIUS_TWO);
    assert!(belongs);
    assert_eq!(iterations, 1000);

    let (belongs, iterations) = belongs_to_mandelbrot_set(0, 0, 7, 1);
    assert!(belongs);
    assert_eq!(iterations, 7);
}

#[test]
fn far_point_escapes_on_first_step() {
    // c = 2 + 2i has magnitude well beyond radius 2, and the very first
    // update is already outside.
    let c = 2 * SCALE;
    let (belongs, iterations) = belongs_to_mandelbrot_set(c, c, 1000, RADIUS_TWO);
    assert!(!belongs);
    assert_eq!(iterations, 1);

    // c = 1.5 escapes immediately as well: z_1 = 1.5^2 + 1.5 = 3.75 > 2.
    let (belongs, iterations) = belongs_to_mandelbrot_set(3 * SCALE / 2, 0, 1000, RADIUS_TWO);
    assert!(!belongs);
    assert_eq!(iterations, 1);
}

#[test]
fn escape_count_stays_within_bounds() {
    // c = 0.3 lies outside the set but escapes only after several updates;
    // whatever the exact count, it must lie in [1, max_iterations], and a
    // belonging point must report the full count.
    let c_re = 3 * SCALE / 10;
    let (belongs, iterations) = belongs_to_mandelbrot_set(c_re, 0, 1000, RADIUS_TWO);
    assert!(!belongs);
    assert!(1 <= iterations && iterations <= 1000);
    assert!(iterations > 1);

    // c = -1 cycles between -1 and 0 and never escapes.
    let (belongs, iterations) = belongs_to_mandelbrot_set(-SCALE, 0, 500, RADIUS_TWO);
    assert!(belongs);
    assert_eq!(iterations, 500);
}

#[test]
fn truncated_iteration_budget_caps_the_count() {
    // With a tiny budget even an escaping point can run out of updates
    // before escaping and is then reported as belonging with the budget.
    let c_re = 3 * SCALE / 10;
    let (belongs_long, _) = belongs_to_mandelbrot_set(c_re, 0, 1000, RADIUS_TWO);
    assert!(!belongs_long);
    let (belongs_short, iterations) = belongs_to_mandelbrot_set(c_re, 0, 1, RADIUS_TWO);
    assert!(belongs_short);
    assert_eq!(iterations, 1);
}
