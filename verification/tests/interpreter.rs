//! Running scripts: trail sealing, pose bookkeeping and the recorded
//! instructions.

use turtle::turtle::{PathIns, Step, Style, Trail, TurtleState};
use turtle::units::{Angle, COORD_LIMIT, FULL_TURN_UNITS, QUARTER_TURN_UNITS};

fn style(color: &str, width: i64) -> Style {
    Style { color: color.to_string(), width }
}

fn run(steps: Vec<Step>) -> Vec<Trail> {
    TurtleState::default().run(&steps)
}

#[test]
fn empty_script_yields_one_default_trail() {
    let trails = run(vec![]);
    assert_eq!(trails.len(), 1);
    assert_eq!(trails[0].style, Style::default());
    assert_eq!(trails[0].style.color, "black");
    assert_eq!(trails[0].style.width, 1);
    assert!(trails[0].path.is_empty());
}

#[test]
fn go_zero_draws_a_line_to_the_same_spot() {
    let mut turtle = TurtleState::default();
    turtle.journey(&[Step::PenDown(style("red", 2)), Step::Go(0)]);
    assert_eq!(turtle.heading().value(), 0);
    assert_eq!(turtle.position(), (0, 0));
    let trails = turtle.run(&[]);
    assert_eq!(trails.len(), 1);
    assert_eq!(
        trails[0].path,
        vec![PathIns::MoveTo { x: 0, y: 0 }, PathIns::LineTo { x: 0, y: 0 }]
    );
}

#[test]
fn pen_down_seals_trails_by_style() {
    let trails = run(vec![
        Step::PenDown(style("red", 2)),
        Step::Go(10),
        Step::PenUp,
        Step::PenDown(style("blue", 2)),
        Step::Go(5),
    ]);
    assert_eq!(trails.len(), 2);
    assert_eq!(trails[0].style.color, "red");
    assert_eq!(
        trails[0].path,
        vec![PathIns::MoveTo { x: 0, y: 0 }, PathIns::LineTo { x: 10, y: 0 }]
    );
    assert_eq!(trails[1].style.color, "blue");
    assert_eq!(
        trails[1].path,
        vec![PathIns::MoveTo { x: 10, y: 0 }, PathIns::LineTo { x: 15, y: 0 }]
    );
}

#[test]
fn extra_pen_ups_do_not_change_the_trail_count() {
    let trails = run(vec![
        Step::PenDown(style("red", 2)),
        Step::Go(10),
        Step::PenUp,
        Step::PenUp,
        Step::PenUp,
        Step::PenDown(style("blue", 2)),
        Step::Go(5),
        Step::PenUp,
    ]);
    assert_eq!(trails.len(), 2);
    assert_eq!(trails[0].path.len(), 2);
    assert_eq!(trails[1].path.len(), 2);
}

#[test]
fn pen_down_twice_seals_a_move_only_trail() {
    let trails = run(vec![
        Step::PenDown(style("red", 1)),
        Step::PenDown(style("blue", 1)),
    ]);
    assert_eq!(trails.len(), 2);
    assert_eq!(trails[0].style.color, "red");
    assert_eq!(trails[0].path, vec![PathIns::MoveTo { x: 0, y: 0 }]);
    assert_eq!(trails[1].style.color, "blue");
    assert_eq!(trails[1].path, vec![PathIns::MoveTo { x: 0, y: 0 }]);
}

#[test]
fn save_restore_round_trip_restores_the_pose() {
    let mut turtle = TurtleState::new(Angle::new(123), (42, -7));
    turtle.journey(&[
        Step::Save,
        Step::Turn(Angle::new(123_456)),
        Step::Go(777),
        Step::Restore,
    ]);
    assert_eq!(turtle.heading().value(), 123);
    assert_eq!(turtle.position(), (42, -7));
}

#[test]
fn restore_on_an_empty_stack_is_a_no_op() {
    let mut turtle = TurtleState::default();
    turtle.journey(&[Step::Turn(Angle::new(50_000)), Step::Go(100), Step::Restore]);
    assert_eq!(turtle.heading().value(), 50_000);
    let pos = turtle.position();
    turtle.journey(&[Step::Restore]);
    assert_eq!(turtle.position(), pos);
}

#[test]
fn restore_while_drawing_records_a_move() {
    let trails = run(vec![
        Step::PenDown(style("red", 1)),
        Step::Save,
        Step::Go(10),
        Step::Restore,
    ]);
    assert_eq!(trails.len(), 1);
    assert_eq!(
        trails[0].path,
        vec![
            PathIns::MoveTo { x: 0, y: 0 },
            PathIns::LineTo { x: 10, y: 0 },
            PathIns::MoveTo { x: 0, y: 0 },
        ]
    );
}

#[test]
fn teleport_while_drawing_breaks_the_line() {
    let trails = run(vec![
        Step::PenDown(style("red", 1)),
        Step::Teleport((30, 40)),
        Step::Go(5),
    ]);
    assert_eq!(trails.len(), 1);
    assert_eq!(
        trails[0].path,
        vec![
            PathIns::MoveTo { x: 0, y: 0 },
            PathIns::MoveTo { x: 30, y: 40 },
            PathIns::LineTo { x: 35, y: 40 },
        ]
    );
}

#[test]
fn teleport_with_the_pen_up_records_nothing() {
    let mut turtle = TurtleState::default();
    turtle.journey(&[Step::Teleport((30, 40))]);
    assert_eq!(turtle.position(), (30, 40));
    assert!(turtle.iter().is_empty());
    let trails = turtle.run(&[]);
    assert!(trails[0].path.is_empty());
}

#[test]
fn look_to_is_exact_on_axes_and_diagonals() {
    let cases = [
        ((10, 0), 0),
        ((0, 10), QUARTER_TURN_UNITS),
        ((-5, 0), 2 * QUARTER_TURN_UNITS),
        ((0, -3), -QUARTER_TURN_UNITS),
        ((7, 7), QUARTER_TURN_UNITS / 2),
        ((-7, -7), -3 * QUARTER_TURN_UNITS / 2),
    ];
    for &(target, expected) in &cases {
        let mut turtle = TurtleState::default();
        turtle.journey(&[Step::LookTo(target)]);
        assert_eq!(turtle.heading().value(), expected);
    }
}

#[test]
fn look_to_approximates_other_directions() {
    let mut turtle = TurtleState::default();
    // Thirty degrees up from the horizontal: 83_333 angle units.
    turtle.journey(&[Step::LookTo((866_025, 500_000))]);
    assert!((turtle.heading().value() - 83_333).abs() < 800);
}

#[test]
fn square_via_repeat_closes_exactly() {
    let trails = run(vec![
        Step::PenDown(style("black", 1)),
        Step::Repeat {
            count: 4,
            step: Box::new(Step::Perform {
                steps: vec![Step::Go(10), Step::Turn(Angle::quarter_turn())],
            }),
        },
    ]);
    assert_eq!(trails.len(), 1);
    assert_eq!(
        trails[0].path,
        vec![
            PathIns::MoveTo { x: 0, y: 0 },
            PathIns::LineTo { x: 10, y: 0 },
            PathIns::LineTo { x: 10, y: 10 },
            PathIns::LineTo { x: 0, y: 10 },
            PathIns::LineTo { x: 0, y: 0 },
        ]
    );
}

#[test]
fn square_via_repeat_restores_the_heading() {
    let mut turtle = TurtleState::default();
    turtle.journey(&[
        Step::PenDown(style("black", 1)),
        Step::Repeat {
            count: 4,
            step: Box::new(Step::Perform {
                steps: vec![Step::Go(10), Step::Turn(Angle::quarter_turn())],
            }),
        },
    ]);
    // Four quarter turns add up to one full turn, which the angle
    // reduction keeps as the boundary value itself.
    assert_eq!(turtle.heading().value(), FULL_TURN_UNITS);
    assert_eq!(turtle.heading().value() % FULL_TURN_UNITS, 0);
}

#[test]
fn repeat_zero_runs_nothing() {
    let mut turtle = TurtleState::default();
    turtle.journey(&[Step::Repeat { count: 0, step: Box::new(Step::Go(10)) }]);
    assert_eq!(turtle.position(), (0, 0));
}

#[test]
fn pivot_quarter_turn_lands_on_the_exact_chord() {
    let mut turtle = TurtleState::default();
    turtle.journey(&[
        Step::PenDown(style("red", 1)),
        Step::Pivot { distance: 1000, arc: Angle::quarter_turn() },
    ]);
    assert_eq!(turtle.position(), (1000, 1000));
    assert_eq!(turtle.heading().value(), QUARTER_TURN_UNITS);
}

#[test]
fn pivot_endpoint_lies_on_the_chord() {
    // Chord length: |2 r sin(arc / 2)|.
    let sixth = FULL_TURN_UNITS / 6;
    let mut turtle = TurtleState::default();
    turtle.journey(&[Step::Pivot { distance: 1000, arc: Angle::new(sixth) }]);
    let (x, y) = turtle.position();
    let chord = ((x * x + y * y) as f64).sqrt();
    let expected = 2.0 * 1000.0 * (std::f64::consts::PI / 6.0).sin();
    assert!((chord - expected).abs() < 5.0);
    assert_eq!(turtle.heading().value(), sixth);
}

#[test]
fn pivot_records_one_forward_arc() {
    let trails = run(vec![
        Step::PenDown(style("red", 1)),
        Step::Pivot { distance: 1000, arc: Angle::quarter_turn() },
    ]);
    assert_eq!(trails.len(), 1);
    assert_eq!(
        trails[0].path,
        vec![
            PathIns::MoveTo { x: 0, y: 0 },
            PathIns::Arc {
                center_x: 0,
                center_y: 1000,
                radius: 1000,
                start_angle: -QUARTER_TURN_UNITS,
                end_angle: 0,
            },
        ]
    );
}

#[test]
fn pivot_backward_records_move_arc_move() {
    let trails = run(vec![
        Step::PenDown(style("red", 1)),
        Step::Pivot { distance: 1000, arc: Angle::quarter_turn().negate() },
    ]);
    assert_eq!(trails.len(), 1);
    assert_eq!(
        trails[0].path,
        vec![
            PathIns::MoveTo { x: 0, y: 0 },
            PathIns::MoveTo { x: 1000, y: -1000 },
            PathIns::Arc {
                center_x: 0,
                center_y: -1000,
                radius: 1000,
                start_angle: 0,
                end_angle: QUARTER_TURN_UNITS,
            },
            PathIns::MoveTo { x: 1000, y: -1000 },
        ]
    );
}

#[test]
fn pivot_with_the_pen_up_moves_without_recording() {
    let mut turtle = TurtleState::default();
    turtle.journey(&[Step::Pivot { distance: 1000, arc: Angle::quarter_turn() }]);
    assert_eq!(turtle.position(), (1000, 1000));
    assert!(turtle.iter().is_empty());
    let trails = turtle.run(&[]);
    assert!(trails[0].path.is_empty());
}

#[test]
fn running_the_same_script_twice_is_deterministic() {
    let script = || {
        vec![
            Step::Teleport((250, 200)),
            Step::PenDown(style("red", 1)),
            Step::Repeat {
                count: 8,
                step: Box::new(Step::Perform {
                    steps: vec![
                        Step::Save,
                        Step::Go(50),
                        Step::Pivot { distance: 25, arc: Angle::half_turn().negate() },
                        Step::LookTo((250, 200)),
                        Step::Go(25),
                        Step::Restore,
                        Step::Turn(Angle::new(125_000)),
                    ],
                }),
            },
            Step::Restore,
            Step::PenUp,
            Step::Go(20),
        ]
    };
    let first = run(script());
    let second = run(script());
    assert_eq!(first, second);
}

#[test]
fn new_clamps_the_starting_position() {
    let turtle = TurtleState::new(Angle::zero(), (COORD_LIMIT + 5, -COORD_LIMIT - 5));
    assert_eq!(turtle.position(), (COORD_LIMIT, -COORD_LIMIT));
}

#[test]
fn motion_saturates_at_the_coordinate_bounds() {
    let mut turtle = TurtleState::default();
    turtle.journey(&[
        Step::Teleport((COORD_LIMIT - 10, 0)),
        Step::Go(i64::MAX),
    ]);
    assert_eq!(turtle.position(), (COORD_LIMIT, 0));
}

#[test]
fn iter_shows_only_sealed_trails() {
    let mut turtle = TurtleState::default();
    turtle.journey(&[
        Step::PenDown(style("red", 1)),
        Step::Go(10),
        Step::PenDown(style("blue", 1)),
    ]);
    let sealed = turtle.iter();
    assert_eq!(sealed.len(), 1);
    assert_eq!(sealed[0].style.color, "red");
    let trails = turtle.run(&[]);
    assert_eq!(trails.len(), 2);
    assert_eq!(trails[1].style.color, "blue");
}

#[test]
fn look_to_the_own_position_points_along_the_horizontal() {
    let mut turtle = TurtleState::default();
    turtle.journey(&[Step::Turn(Angle::half_turn()), Step::LookTo((0, 0))]);
    assert_eq!(turtle.heading().value(), 0);
}

#[test]
fn turn_composes_headings() {
    let mut turtle = TurtleState::default();
    turtle.journey(&[Step::Turn(Angle::quarter_turn()), Step::Turn(Angle::new(-350_000))]);
    assert_eq!(turtle.heading().value(), -100_000);
}

#[test]
fn perform_shares_state_across_its_commands() {
    let mut turtle = TurtleState::default();
    turtle.journey(&[Step::Perform {
        steps: vec![Step::Go(10), Step::Turn(Angle::quarter_turn()), Step::Go(4)],
    }]);
    assert_eq!(turtle.position(), (10, 4));
    assert_eq!(turtle.heading().value(), QUARTER_TURN_UNITS);
}

#[test]
fn default_style_is_black_width_one() {
    let s = Style::default();
    assert_eq!(s.color, "black");
    assert_eq!(s.width, 1);
}
