//! Classifier behaviour: motion records, modal state, chaining.

use dragknife_repath::command::GCode;
use dragknife_repath::command::Mnemonic;
use dragknife_repath::command::Word;
use dragknife_repath::types::Command;
use dragknife_repath::types::Movement;
use dragknife_repath::DragknifePath;

fn g(mnemonic: Mnemonic, number: u32, args: &[(char, i64)]) -> GCode {
    GCode {
        mnemonic,
        number,
        minor: 0,
        arguments: args.iter().map(|&(letter, value)| Word { letter, value }).collect(),
    }
}

fn g1(args: &[(char, i64)]) -> GCode {
    g(Mnemonic::General, 1, args)
}

#[test]
fn records_chain_end_to_start() {
    let prog = vec![
        g(Mnemonic::General, 0, &[('X', 1_000_000)]),
        g1(&[('X', 2_000_000), ('Y', 3_000_000)]),
        g(Mnemonic::General, 2, &[('X', 4_000_000), ('I', 1_000_000)]),
        g(Mnemonic::Miscellaneous, 5, &[]),
    ];
    let path = DragknifePath::from_gcode(&prog);
    assert_eq!(path.commands.len(), 4);
    for i in 0..path.commands.len() - 1 {
        assert_eq!(path.commands[i].end_pos(), path.commands[i + 1].start_pos());
    }
}

#[test]
fn home_ends_at_machine_zero() {
    let prog = vec![
        g1(&[('X', 10_000_000), ('Y', 4_000_000)]),
        g(Mnemonic::General, 28, &[]),
        g1(&[('Y', 5_000_000)]),
    ];
    let path = DragknifePath::from_gcode(&prog);
    match &path.commands[1] {
        Command::Home(h) => assert_eq!(h.start.x, 10_000_000),
        _ => panic!("expected a home record"),
    }
    let end = path.commands[1].end_pos();
    assert_eq!((end.x, end.y, end.z), (0, 0, 0));
    match &path.commands[2] {
        Command::Linear(l) => {
            assert_eq!((l.start.x, l.start.y, l.start.z), (0, 0, 0));
            assert_eq!((l.end.x, l.end.y, l.end.z), (0, 5_000_000, 0));
            // The home broke the tangent chain: no direction yet at
            // the start of this move is false (the move itself has
            // one), but the record before it offers none.
            assert_eq!(path.commands[1].end_angle(), None);
        },
        _ => panic!("expected a linear record"),
    }
}

#[test]
fn zero_length_cut_inherits_the_previous_tangent() {
    let prog = vec![
        g1(&[('X', 10_000_000), ('Y', 0)]),
        g1(&[('X', 10_000_000), ('Y', 0)]),
    ];
    let path = DragknifePath::from_gcode(&prog);
    match (&path.commands[0], &path.commands[1]) {
        (Command::Linear(a), Command::Linear(b)) => {
            assert_eq!(a.angle, Some(0));
            assert_eq!(b.angle, Some(0));
            assert_eq!(b.start, b.end);
        },
        _ => panic!("expected two linear records"),
    }
}

#[test]
fn relative_mode_accumulates() {
    let prog = vec![
        g(Mnemonic::General, 91, &[]),
        g1(&[('X', 5_000_000)]),
        g1(&[('X', 5_000_000)]),
    ];
    let path = DragknifePath::from_gcode(&prog);
    assert_eq!(path.commands[1].end_pos().x, 5_000_000);
    assert_eq!(path.commands[2].end_pos().x, 10_000_000);
}

#[test]
fn inch_mode_scales_coordinates() {
    let prog = vec![
        g(Mnemonic::General, 20, &[]),
        g1(&[('X', 5_000_000)]),
    ];
    let path = DragknifePath::from_gcode(&prog);
    assert_eq!(path.commands[1].end_pos().x, 12_700_000);
}

#[test]
fn arc_record_reseats_its_endpoint_on_the_circle() {
    let prog = vec![
        g(
            Mnemonic::General,
            2,
            &[('X', 10_000_000), ('Y', 10_000_000), ('I', 10_000_000), ('J', 0)],
        ),
    ];
    let path = DragknifePath::from_gcode(&prog);
    match &path.commands[0] {
        Command::Arc(a) => {
            assert_eq!((a.center.x, a.center.y, a.center.z), (10_000_000, 0, 0));
            assert_eq!((a.end.x, a.end.y, a.end.z), (10_000_000, 10_000_000, 0));
            // |end - center| equals |start - center| exactly here.
            let r2_start = (a.start.x - a.center.x) as i128 * (a.start.x - a.center.x) as i128
                + (a.start.y - a.center.y) as i128 * (a.start.y - a.center.y) as i128;
            let r2_end = (a.end.x - a.center.x) as i128 * (a.end.x - a.center.x) as i128
                + (a.end.y - a.center.y) as i128 * (a.end.y - a.center.y) as i128;
            assert_eq!(r2_start, r2_end);
            // Tangents: polar angle from the centre shifted a quarter
            // turn against the winding (clockwise) sense.
            assert_eq!(a.start_angle, 3_141_592 - 1_570_796);
            assert_eq!(a.end_angle, 0);
        },
        _ => panic!("expected an arc record"),
    }
}

#[test]
fn arc_with_distorted_target_still_lands_near_the_circle() {
    // The commanded endpoint (10.1, 10) is off the circle of radius
    // 10 around (10, 0); the classifier re-seats it within the
    // documented 1e-4 mm of the circle.
    let prog = vec![
        g(
            Mnemonic::General,
            2,
            &[('X', 10_100_000), ('Y', 10_000_000), ('I', 10_000_000), ('J', 0)],
        ),
    ];
    let path = DragknifePath::from_gcode(&prog);
    match &path.commands[0] {
        Command::Arc(a) => {
            let dx = (a.end.x - a.center.x) as f64 / 1.0e6;
            let dy = (a.end.y - a.center.y) as f64 / 1.0e6;
            let dist = (dx * dx + dy * dy).sqrt();
            assert!((dist - 10.0).abs() < 1.0e-4, "distance {dist}");
        },
        _ => panic!("expected an arc record"),
    }
}

#[test]
fn non_general_commands_keep_position_and_tangent() {
    let prog = vec![
        g1(&[('X', 10_000_000)]),
        g(Mnemonic::Miscellaneous, 3, &[('S', 1_000_000_000)]),
    ];
    let path = DragknifePath::from_gcode(&prog);
    match &path.commands[1] {
        Command::Other(o) => {
            assert_eq!(o.pos.x, 10_000_000);
            assert_eq!(o.angle, Some(0));
        },
        _ => panic!("expected an other record"),
    }
}

#[test]
fn value_for_returns_the_first_match() {
    let c = g(Mnemonic::General, 1, &[('X', 1), ('X', 2), ('Y', 3)]);
    assert_eq!(c.value_for('X'), Some(1));
    assert_eq!(c.value_for('Y'), Some(3));
    assert_eq!(c.value_for('Z'), None);
    assert_eq!(c.major_number(), 1);
}

#[test]
fn plane_switch_changes_emitted_axis_letters() {
    let prog = vec![
        g(Mnemonic::General, 18, &[]),
        g1(&[('X', 1_000_000), ('Z', 2_000_000)]),
    ];
    let cfg = dragknife_repath::types::DragknifeConfig::new(
        1_000_000,
        dragknife_repath::types::LiftConfig::AbsoluteHeight(5_000_000),
        174_533,
        300_000_000,
    );
    let out = DragknifePath::from_gcode(&prog).to_fixed_gcode(&cfg);
    assert_eq!(out.len(), 2);
    assert_eq!(out[1].arguments[0].letter, 'Z');
    assert_eq!(out[1].arguments[1].letter, 'X');
}
