//! End-to-end rewrites of small programs, in micro-units (1 mm =
//! 1_000_000 coordinate units, 1 radian = 1_000_000 angle units).

use dragknife_repath::command::GCode;
use dragknife_repath::command::Mnemonic;
use dragknife_repath::command::Word;
use dragknife_repath::types::DragknifeConfig;
use dragknife_repath::types::LiftConfig;
use dragknife_repath::DragknifePath;

fn g(mnemonic: Mnemonic, number: u32, args: &[(char, i64)]) -> GCode {
    GCode {
        mnemonic,
        number,
        minor: 0,
        arguments: args.iter().map(|&(letter, value)| Word { letter, value }).collect(),
    }
}

fn g1(args: &[(char, i64)]) -> GCode {
    g(Mnemonic::General, 1, args)
}

/// Knife offset 1 mm, relative lift 1 mm, threshold 10 degrees,
/// swivel feedrate 300 mm/min.
fn config() -> DragknifeConfig {
    DragknifeConfig::new(1_000_000, LiftConfig::RelativeHeight(1_000_000), 174_533, 300_000_000)
}

fn rewrite(prog: Vec<GCode>, cfg: &DragknifeConfig) -> Vec<GCode> {
    DragknifePath::from_gcode(&prog).to_fixed_gcode(cfg)
}

#[test]
fn straight_cut_no_corner() {
    let prog = vec![
        g(Mnemonic::General, 21, &[]),
        g(Mnemonic::General, 90, &[]),
        g1(&[('X', 10_000_000), ('Y', 0), ('F', 500_000_000)]),
        g1(&[('X', 20_000_000), ('Y', 0)]),
    ];
    let out = rewrite(prog, &config());
    assert_eq!(out.len(), 4);
    assert_eq!(out[0], g(Mnemonic::General, 21, &[]));
    assert_eq!(out[1], g(Mnemonic::General, 90, &[]));
    assert_eq!(out[2], g1(&[('X', 11_000_000), ('Y', 0), ('F', 500_000_000)]));
    assert_eq!(out[3], g1(&[('X', 21_000_000), ('Y', 0)]));
}

#[test]
fn right_angle_corner_inserts_swivel() {
    let prog = vec![
        g(Mnemonic::General, 21, &[]),
        g(Mnemonic::General, 90, &[]),
        g1(&[('X', 10_000_000), ('Y', 0), ('F', 500_000_000)]),
        g1(&[('X', 10_000_000), ('Y', 10_000_000)]),
    ];
    let out = rewrite(prog, &config());
    assert_eq!(out.len(), 7);
    assert_eq!(out[2], g1(&[('X', 11_000_000), ('Y', 0), ('F', 500_000_000)]));
    // Lift to the relative height at the swivel feedrate.
    assert_eq!(out[3], g1(&[('Z', 1_000_000), ('F', 300_000_000)]));
    // Counter-clockwise swivel arc from (11, 0) to (10, 1), centre
    // offset (-1, 0): the blade pivots at (10, 0).
    assert_eq!(
        out[4],
        g(
            Mnemonic::General,
            3,
            &[('X', 10_000_000), ('Y', 1_000_000), ('I', -1_000_000), ('J', 0)]
        )
    );
    // Plunge back to the original height.
    assert_eq!(out[5], g1(&[('Z', 0)]));
    // The next cut restores the cutting feedrate.
    assert_eq!(out[6], g1(&[('X', 10_000_000), ('Y', 11_000_000), ('F', 500_000_000)]));
}

#[test]
fn shallow_bend_below_threshold_no_swivel() {
    let prog = vec![
        g(Mnemonic::General, 21, &[]),
        g(Mnemonic::General, 90, &[]),
        g1(&[('X', 10_000_000), ('Y', 0), ('F', 500_000_000)]),
        g1(&[('X', 20_000_000), ('Y', 1_000_000)]),
    ];
    let out = rewrite(prog, &config());
    assert_eq!(out.len(), 4);
    assert_eq!(out[2], g1(&[('X', 11_000_000), ('Y', 0), ('F', 500_000_000)]));
    assert_eq!(out[3].number, 1);
    assert_eq!(out[3].arguments.len(), 2);
    assert_eq!(out[3].arguments[0].letter, 'X');
    assert_eq!(out[3].arguments[1].letter, 'Y');
}

#[test]
fn clockwise_arc_offsets_both_endpoints() {
    let prog = vec![
        g(Mnemonic::General, 21, &[]),
        g(Mnemonic::General, 90, &[]),
        g(
            Mnemonic::General,
            2,
            &[
                ('X', 10_000_000),
                ('Y', 10_000_000),
                ('I', 10_000_000),
                ('J', 0),
                ('F', 400_000_000),
            ],
        ),
    ];
    let out = rewrite(prog, &config());
    assert_eq!(out.len(), 3);
    // Start tangent pi/2, end tangent 0; the new endpoint leads the
    // old one by the offset along the end tangent, and I/J are
    // re-derived from the new start (0, 1).
    assert_eq!(
        out[2],
        g(
            Mnemonic::General,
            2,
            &[
                ('X', 11_000_000),
                ('Y', 10_000_000),
                ('I', 10_000_000),
                ('J', -1_000_000),
                ('F', 400_000_000),
            ]
        )
    );
}

#[test]
fn relative_positioning_is_dropped_and_resolved() {
    let prog = vec![
        g(Mnemonic::General, 91, &[]),
        g1(&[('X', 5_000_000), ('Y', 0)]),
    ];
    let out = rewrite(prog, &config());
    assert_eq!(out.len(), 1);
    assert_eq!(out[0], g1(&[('X', 6_000_000), ('Y', 0)]));
}

#[test]
fn multi_depth_z_is_preserved() {
    let prog = vec![g1(&[('X', 10_000_000), ('Y', 0), ('Z', -1_000_000), ('F', 200_000_000)])];
    let out = rewrite(prog, &config());
    assert_eq!(out.len(), 1);
    assert_eq!(
        out[0],
        g1(&[('X', 11_000_000), ('Y', 0), ('F', 200_000_000), ('Z', -1_000_000)])
    );
}

#[test]
fn rerun_with_zero_offset_and_pi_threshold_is_noop() {
    let prog = vec![
        g(Mnemonic::General, 21, &[]),
        g(Mnemonic::General, 90, &[]),
        g1(&[('X', 10_000_000), ('Y', 0), ('F', 500_000_000)]),
        g1(&[('X', 20_000_000), ('Y', 0)]),
    ];
    let first = rewrite(prog, &config());
    let neutral = DragknifeConfig::new(
        0,
        LiftConfig::RelativeHeight(1_000_000),
        3_141_592,
        300_000_000,
    );
    let second = rewrite(first.clone(), &neutral);
    assert_eq!(first, second);
}

#[test]
fn inch_program_resolves_to_the_same_internal_path() {
    // 5 inch-units at factor 2.54 are exactly 12.7 mm; a feedrate of
    // 100 under G20 is exactly 254 mm/min internally.
    let mm = vec![g1(&[('X', 12_700_000), ('F', 254_000_000)])];
    let inch = vec![
        g(Mnemonic::General, 20, &[]),
        g1(&[('X', 5_000_000), ('F', 100_000_000)]),
    ];
    let out_mm = rewrite(mm, &config());
    let out_inch = rewrite(inch, &config());
    assert_eq!(out_mm.len(), 1);
    assert_eq!(out_inch.len(), 2);
    // Spatial values are emitted in internal millimetres in both runs.
    assert_eq!(out_mm[0].arguments[0], Word { letter: 'X', value: 13_700_000 });
    assert_eq!(out_inch[1].arguments[0], Word { letter: 'X', value: 13_700_000 });
    // The feedrate is divided back by the active unit factor.
    assert_eq!(out_mm[0].arguments[2], Word { letter: 'F', value: 254_000_000 });
    assert_eq!(out_inch[1].arguments[2], Word { letter: 'F', value: 100_000_000 });
}

#[test]
fn no_swivel_after_a_rapid() {
    // A rapid leaves no tangent, so even a hard corner after it gets
    // no swivel: the blade's orientation is unknown there.
    let prog = vec![
        g1(&[('X', 10_000_000), ('Y', 0), ('F', 500_000_000)]),
        g(Mnemonic::General, 0, &[('X', 0), ('Y', 10_000_000)]),
        g1(&[('X', 0), ('Y', 20_000_000)]),
    ];
    let out = rewrite(prog, &config());
    assert_eq!(out.len(), 3);
    assert_eq!(out[1], g(Mnemonic::General, 0, &[('X', 0), ('Y', 10_000_000)]));
    assert_eq!(out[2], g1(&[('X', 0), ('Y', 21_000_000)]));
}

#[test]
fn clockwise_turn_swivels_with_g2() {
    // Heading +Y then +X: the signed tangent change is positive, so
    // the swivel arc winds clockwise.
    let prog = vec![
        g1(&[('X', 0), ('Y', 10_000_000), ('F', 500_000_000)]),
        g1(&[('X', 10_000_000), ('Y', 10_000_000)]),
    ];
    let out = rewrite(prog, &config());
    assert_eq!(out.len(), 5);
    assert_eq!(out[1], g1(&[('Z', 1_000_000), ('F', 300_000_000)]));
    assert_eq!(
        out[2],
        g(
            Mnemonic::General,
            2,
            &[('X', 1_000_000), ('Y', 10_000_000), ('I', 0), ('J', -1_000_000)]
        )
    );
    assert_eq!(out[3], g1(&[('Z', 0)]));
    assert_eq!(out[4], g1(&[('X', 11_000_000), ('Y', 10_000_000), ('F', 500_000_000)]));
}

#[test]
fn corner_between_arc_and_line_swivels() {
    // A clockwise quarter circle ending heading +X, then a cut heading
    // +Y: the tangents disagree by a quarter turn, so a swivel pivots
    // on the arc's endpoint and the next cut restores the arc's
    // feedrate.
    let prog = vec![
        g(
            Mnemonic::General,
            2,
            &[
                ('X', 10_000_000),
                ('Y', 10_000_000),
                ('I', 10_000_000),
                ('J', 0),
                ('F', 400_000_000),
            ],
        ),
        g1(&[('X', 10_000_000), ('Y', 20_000_000)]),
    ];
    let out = rewrite(prog, &config());
    assert_eq!(out.len(), 5);
    assert_eq!(out[1], g1(&[('Z', 1_000_000), ('F', 300_000_000)]));
    assert_eq!(
        out[2],
        g(
            Mnemonic::General,
            3,
            &[('X', 10_000_000), ('Y', 11_000_000), ('I', -1_000_000), ('J', 0)]
        )
    );
    assert_eq!(out[3], g1(&[('Z', 0)]));
    assert_eq!(out[4], g1(&[('X', 10_000_000), ('Y', 21_000_000), ('F', 400_000_000)]));
}

#[test]
fn empty_program_rewrites_to_nothing() {
    let out = rewrite(vec![], &config());
    assert!(out.is_empty());
}

#[test]
fn unknown_codes_pass_through_unchanged() {
    let prog = vec![
        g(Mnemonic::Miscellaneous, 3, &[('S', 12_000_000_000)]),
        g(Mnemonic::General, 54, &[]),
        g(Mnemonic::ToolChange, 1, &[]),
    ];
    let out = rewrite(prog.clone(), &config());
    assert_eq!(out, prog);
}
