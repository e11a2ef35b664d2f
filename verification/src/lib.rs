//! A dragknife toolpath rewriter.
//!
//! A dragknife blade trails the machine's controlled point by a fixed
//! offset, so commanding the nominal path would cut behind the intended
//! line and tear the material at corners.  This crate interprets a
//! G-code program into motion records (a forward pass that tracks modal
//! state and tangent directions), then re-emits it with the controlled
//! point leading the path by the knife offset, inserting a lift /
//! swivel-arc / plunge sequence over every corner sharper than a
//! configured threshold.
//!
//! All geometry is exact fixed-point arithmetic on integers in
//! micro-units; see `math`, `angle` and `vec3`.

pub mod angle;
pub mod command;
pub mod math;
pub mod types;
pub mod vec3;

use vstd::prelude::*;

use crate::angle::HALF_TURN;
use crate::angle::QUARTER_TURN;
use crate::command::GCode;
use crate::command::GCodeView;
use crate::command::Mnemonic;
use crate::command::Word;
use crate::math::ONE;
use crate::types::spec_apply_modal;
use crate::types::spec_target;
use crate::types::spec_center_offset;
use crate::types::angle_opt_wf;
use crate::types::ArcDirection;
use crate::types::ArcMovement;
use crate::types::Command;
use crate::types::CommandView;
use crate::types::DragknifeConfig;
use crate::types::DragknifeState;
use crate::types::GCodeState;
use crate::types::HomeMovement;
use crate::types::LinearMovement;
use crate::types::Movement;
use crate::types::OtherCommand;
use crate::types::RapidMovement;
use crate::vec3::spec_add3;
use crate::vec3::spec_angle_to;
use crate::vec3::spec_mag;
use crate::vec3::spec_mag2;
use crate::vec3::spec_normalized;
use crate::vec3::spec_project;
use crate::vec3::spec_sat3;
use crate::vec3::spec_scale3;
use crate::vec3::spec_sub3;
use crate::vec3::spec_zero;
use crate::vec3::Vec3;

verus! {

/// The view of an optional prior record.
pub open spec fn spec_view_opt(prev: Option<&Command>) -> Option<CommandView> {
    match prev {
        Some(c) => Some(c@),
        None => None::<CommandView>,
    }
}

/// Where the previous record left the controlled point: machine zero
/// at the start of a program.
pub open spec fn spec_prev_end_pos(prev: Option<CommandView>) -> Vec3 {
    match prev {
        Some(c) => c.end_pos(),
        None => spec_zero(),
    }
}

/// The previous record's final travel direction, if any.
pub open spec fn spec_prev_end_angle(prev: Option<CommandView>) -> Option<i64> {
    match prev {
        Some(c) => c.end_angle(),
        None => None::<i64>,
    }
}

/// The record an arc command (`G2` / `G3`) classifies to: the centre is
/// the start plus the `I`/`J`/`K` offset, the tangents are the polar
/// angles from the centre shifted a quarter turn against (`CW`) or
/// along (`CCW`) the winding sense, and the endpoint is re-seated onto
/// the circle of the start radius.
pub open spec fn spec_arc_record(
    g: GCodeView,
    start: Vec3,
    st: GCodeState,
    dir: ArcDirection,
) -> CommandView {
    let target = spec_target(st, start, g);
    let center = spec_add3(start, spec_center_offset(st, g));
    let shift: int = if dir is CW {
        -(QUARTER_TURN as int)
    } else {
        QUARTER_TURN as int
    };
    let radius = spec_mag(spec_project(spec_sub3(start, center), st.plane));
    let end = spec_sat3(
        spec_add3(
            spec_scale3(spec_normalized(spec_sub3(target, center)), radius, ONE as int),
            center,
        ),
    );
    CommandView::Arc {
        original: g,
        direction: dir,
        start,
        end,
        center,
        start_angle: (spec_angle_to(center, start, st.plane) + shift) as i64,
        end_angle: (spec_angle_to(center, target, st.plane) + shift) as i64,
    }
}

/// The record a command classifies to, given the previous record and
/// the current modal state.
pub open spec fn spec_classify(
    g: GCodeView,
    prev: Option<CommandView>,
    st: GCodeState,
) -> CommandView {
    let start = spec_prev_end_pos(prev);
    if !(g.mnemonic is General) {
        CommandView::Other { original: g, pos: start, angle: spec_prev_end_angle(prev) }
    } else if g.number == 0 {
        CommandView::Rapid { original: g, start, end: spec_target(st, start, g) }
    } else if g.number == 1 {
        let end = spec_target(st, start, g);
        let angle = if spec_mag2(spec_project(spec_sub3(start, end), st.plane)) == 0 {
            spec_prev_end_angle(prev)
        } else {
            Some(spec_angle_to(start, end, st.plane) as i64)
        };
        CommandView::Linear { original: g, start, end, angle }
    } else if g.number == 2 {
        spec_arc_record(g, start, st, ArcDirection::CW)
    } else if g.number == 3 {
        spec_arc_record(g, start, st, ArcDirection::CCW)
    } else if g.number == 28 {
        CommandView::Home { original: g, start }
    } else {
        CommandView::Other { original: g, pos: start, angle: spec_prev_end_angle(prev) }
    }
}

impl Command {
    /// Classify one command into a motion record, given the previous
    /// record, and apply its modal effect to the interpreter state.
    #[verifier::rlimit(60)]
    pub fn from_gcode(
        gcode: &GCode,
        prev_command: Option<&Command>,
        settings: &mut GCodeState,
    ) -> (r: Command)
        requires
            gcode@.wf(),
            old(settings).wf(),
            match prev_command {
                Some(c) => c@.wf(),
                None => true,
            },
        ensures
            r@ == spec_classify(gcode@, spec_view_opt(prev_command), *old(settings)),
            *final(settings) == spec_apply_modal(*old(settings), gcode@),
            final(settings).wf(),
            r@.wf(),
            r@.start_pos() == spec_prev_end_pos(spec_view_opt(prev_command)),
    {
        let start = prev_command.end_pos();
        proof {
            assert(start.bounded_pos());
            assert(angle_opt_wf(prev_command.spec_end_angle()));
        }
        match gcode.mnemonic {
            Mnemonic::Miscellaneous | Mnemonic::ProgramNumber | Mnemonic::ToolChange => {
                Command::Other(
                    OtherCommand {
                        original: gcode.duplicate(),
                        pos: start,
                        angle: prev_command.end_angle(),
                    },
                )
            },
            Mnemonic::General => {
                let n = gcode.major_number();
                if n == 0 {
                    let end = settings.get_target(start, gcode);
                    Command::Rapid(RapidMovement { original: gcode.duplicate(), start, end })
                } else if n == 1 {
                    let end = settings.get_target(start, gcode);
                    let angle = if start.sub(end).project_plane(&settings.plane).magnitude()
                        == 0 {
                        prev_command.end_angle()
                    } else {
                        Some(start.angle_to(&end, &settings.plane))
                    };
                    Command::Linear(
                        LinearMovement { original: gcode.duplicate(), start, end, angle },
                    )
                } else if n == 2 {
                    Command::classify_arc(gcode, start, settings, ArcDirection::CW)
                } else if n == 3 {
                    Command::classify_arc(gcode, start, settings, ArcDirection::CCW)
                } else if n == 28 {
                    Command::Home(HomeMovement { original: gcode.duplicate(), start })
                } else {
                    let other_command = OtherCommand {
                        original: gcode.duplicate(),
                        pos: start,
                        angle: prev_command.end_angle(),
                    };
                    other_command.update_settings(settings);
                    Command::Other(other_command)
                }
            },
        }
    }

    /// Classify a `G2` / `G3` arc: resolve target and centre, compute
    /// the circle radius and both tangents, and re-seat the endpoint on
    /// the circle.
    fn classify_arc(
        gcode: &GCode,
        start: Vec3,
        settings: &mut GCodeState,
        direction: ArcDirection,
    ) -> (r: Command)
        requires
            gcode@.wf(),
            old(settings).wf(),
            start.bounded_pos(),
        ensures
            *final(settings) == *old(settings),
            r@ == spec_arc_record(gcode@, start, *old(settings), direction),
            r@.wf(),
    {
        let target = settings.get_target(start, gcode);
        let center_off = settings.get_center_offset(gcode);
        let center = start.add(center_off);
        let shift: i64 = if let ArcDirection::CW = direction {
            -QUARTER_TURN
        } else {
            QUARTER_TURN
        };
        let start_angle = center.angle_to(&start, &settings.plane) + shift;
        let end_angle = center.angle_to(&target, &settings.plane) + shift;
        let to_start = start.sub(center).project_plane(&settings.plane);
        let radius = to_start.magnitude();
        proof {
            crate::vec3::lemma_mag_le(to_start, 2_010_000_000_000_000, radius as int);
        }
        let dirv = target.sub(center).normalized();
        proof {
            crate::vec3::lemma_scale3_bound(dirv, radius as int, ONE as int, ONE as int);
            assert(((ONE as int) * (radius as int)) / (ONE as int) == radius as int) by {
                vstd::arithmetic::div_mod::lemma_div_multiples_vanish(
                    radius as int,
                    ONE as int,
                );
            }
        }
        let end = dirv.mul_div(radius, ONE).add(center).sat3();
        Command::Arc(
            ArcMovement {
                original: gcode.duplicate(),
                direction,
                start,
                end,
                center,
                start_angle,
                end_angle,
            },
        )
    }
}

/// The modal state the interpreter holds at the start of a program.
pub open spec fn spec_default_state() -> GCodeState {
    GCodeState {
        unit: crate::types::GCodeUnit::Millimeters,
        plane: crate::types::GCodePlane::XY,
        positioning: crate::types::GCodePositioning::Absolute,
        feedrate: crate::types::DEFAULT_FEEDRATE,
    }
}

/// The modal state after interpreting a command sequence.
pub open spec fn spec_modal_after(gs: Seq<GCodeView>) -> GCodeState
    decreases gs.len(),
{
    if gs.len() == 0 {
        spec_default_state()
    } else {
        spec_apply_modal(spec_modal_after(gs.drop_last()), gs.last())
    }
}

/// The record sequence the classifier produces from a command
/// sequence.
pub open spec fn spec_path(gs: Seq<GCodeView>) -> Seq<CommandView>
    decreases gs.len(),
{
    if gs.len() == 0 {
        Seq::<CommandView>::empty()
    } else {
        let prefix = spec_path(gs.drop_last());
        let prev = if prefix.len() == 0 {
            None::<CommandView>
        } else {
            Some(prefix.last())
        };
        prefix.push(spec_classify(gs.last(), prev, spec_modal_after(gs.drop_last())))
    }
}

/// The classifier emits one record per command.
pub proof fn lemma_path_len(gs: Seq<GCodeView>)
    ensures
        spec_path(gs).len() == gs.len(),
    decreases gs.len(),
{
    if gs.len() > 0 {
        lemma_path_len(gs.drop_last());
    }
}

/// Chain continuity: every record starts where its predecessor ended
/// (a `Home` record's end is machine zero).
pub proof fn lemma_chain_continuity(gs: Seq<GCodeView>)
    ensures
        forall|i: int|
            0 <= i < spec_path(gs).len() - 1 ==> (#[trigger] spec_path(gs)[i + 1]).start_pos()
                == spec_path(gs)[i].end_pos(),
    decreases gs.len(),
{
    lemma_path_len(gs);
    if gs.len() > 0 {
        lemma_chain_continuity(gs.drop_last());
        lemma_path_len(gs.drop_last());
        let p = spec_path(gs);
        let q = spec_path(gs.drop_last());
        assert forall|i: int| 0 <= i < p.len() - 1 implies (#[trigger] p[i + 1]).start_pos()
            == p[i].end_pos() by {
            if i + 1 < p.len() - 1 {
                assert(p[i + 1] == q[i + 1] && p[i] == q[i]);
            } else {
                assert(p[i] == q.last());
            }
        }
    }
}

/// Whether an argument letter is consumed by the rewriter itself: the
/// two in-plane main-axis letters, their centre-offset letters, and
/// the feedrate letter.
pub open spec fn spec_excluded_letter(l: char, plane: crate::types::GCodePlane) -> bool {
    ||| l == crate::types::spec_main_name(crate::types::spec_axis_1(plane))
    ||| l == crate::types::spec_main_name(crate::types::spec_axis_2(plane))
    ||| l == crate::types::spec_center_name(crate::types::spec_axis_1(plane))
    ||| l == crate::types::spec_center_name(crate::types::spec_axis_2(plane))
    ||| l == 'F'
}

/// The arguments of the source command that every emitted primary
/// motion carries over: all that the rewriter does not itself rewrite.
pub open spec fn spec_misc_tail(args: Seq<Word>, plane: crate::types::GCodePlane) -> Seq<Word> {
    args.filter(|w: Word| !spec_excluded_letter(w.letter, plane))
}

/// The three commands of a swivel sequence: lift to the configured
/// height at the swivel feedrate, sweep the controlled point on the
/// knife-offset circle around the blade pivot from trailing along the
/// old tangent to trailing along the new one, and plunge back.
pub open spec fn spec_swivel_cmds(
    from: i64,
    to: i64,
    next: CommandView,
    st: GCodeState,
    cfg: DragknifeConfig,
) -> Seq<GCodeView> {
    let plane = st.plane;
    let start_height = crate::vec3::spec_third(next.start_pos(), plane);
    let lift = GCodeView {
        mnemonic: Mnemonic::General,
        number: 1,
        minor: 0,
        arguments: seq![
            Word {
                letter: crate::types::spec_main_name(crate::types::spec_axis_3(plane)),
                value: crate::types::spec_calcute_height(cfg.lift_config, start_height) as i64,
            },
            Word {
                letter: 'F',
                value: crate::types::spec_unscale(cfg.swivel_feedrate as int, st.unit) as i64,
            },
        ],
    };
    let delta = crate::angle::spec_signed_delta(from as int, to as int);
    let co = crate::vec3::spec_coords(
        spec_scale3(
            crate::vec3::spec_unit_angle(from + HALF_TURN, plane),
            cfg.knife_offset as int,
            ONE as int,
        ),
        plane,
    );
    let tgt = crate::vec3::spec_coords(
        spec_add3(
            spec_scale3(
                crate::vec3::spec_unit_angle(to as int, plane),
                cfg.knife_offset as int,
                ONE as int,
            ),
            next.start_pos(),
        ),
        plane,
    );
    let swivel_arc = GCodeView {
        mnemonic: Mnemonic::General,
        number: if delta > 0 {
            2
        } else {
            3
        },
        minor: 0,
        arguments: seq![
            Word {
                letter: crate::types::spec_main_name(crate::types::spec_axis_1(plane)),
                value: tgt.0 as i64,
            },
            Word {
                letter: crate::types::spec_main_name(crate::types::spec_axis_2(plane)),
                value: tgt.1 as i64,
            },
            Word {
                letter: crate::types::spec_center_name(crate::types::spec_axis_1(plane)),
                value: co.0 as i64,
            },
            Word {
                letter: crate::types::spec_center_name(crate::types::spec_axis_2(plane)),
                value: co.1 as i64,
            },
        ],
    };
    let plunge = GCodeView {
        mnemonic: Mnemonic::General,
        number: 1,
        minor: 0,
        arguments: seq![
            Word {
                letter: crate::types::spec_main_name(crate::types::spec_axis_3(plane)),
                value: start_height as i64,
            },
        ],
    };
    seq![lift, swivel_arc, plunge]
}

/// The swivel sequence inserted before a record, or empty.
pub open spec fn spec_swivel(
    prev_angle: Option<i64>,
    next: CommandView,
    st: GCodeState,
    cfg: DragknifeConfig,
) -> Seq<GCodeView> {
    match (prev_angle, next.start_angle()) {
        (Some(from), Some(to)) => {
            if crate::math::spec_abs(crate::angle::spec_signed_delta(from as int, to as int))
                > cfg.sharp_angle_threshold {
                spec_swivel_cmds(from, to, next, st, cfg)
            } else {
                Seq::<GCodeView>::empty()
            }
        },
        _ => Seq::<GCodeView>::empty(),
    }
}

/// The `F` argument an emitted primary motion carries: the new
/// feedrate where the source command changed it, else the pending
/// post-swivel restore, else nothing.  Stored feedrates are divided by
/// the unit factor on the way out.
pub open spec fn spec_feed_words(
    c: CommandView,
    st1: GCodeState,
    dk: DragknifeState,
) -> Seq<Word> {
    if crate::types::spec_update_settings_flag(c) {
        seq![
            Word {
                letter: 'F',
                value: crate::types::spec_unscale(st1.feedrate as int, st1.unit) as i64,
            },
        ]
    } else {
        match dk.next_feedrate {
            Some(f) => seq![
                Word {
                    letter: 'F',
                    value: crate::types::spec_unscale(f as int, st1.unit) as i64,
                },
            ],
            None => Seq::<Word>::empty(),
        }
    }
}

/// The rewriter state after a swivel decision: a fired swivel leaves a
/// pending feedrate restore.
pub open spec fn spec_swivel_state(
    fired: bool,
    st: GCodeState,
    dk: DragknifeState,
) -> DragknifeState {
    if fired {
        DragknifeState {
            next_feedrate: Some(crate::types::spec_unscale(st.feedrate as int, st.unit) as i64),
        }
    } else {
        dk
    }
}

/// One rewrite step: the commands emitted for a record, and the modal
/// and rewriter state afterwards.
///
/// A non-motion record passes through (a `G91` is dropped: the output
/// is absolute); `Home` and `Rapid` pass through unchanged; a `Linear`
/// is re-aimed at its endpoint led by the knife offset along its
/// tangent; an `Arc` has both endpoints led along their tangents with
/// the centre fixed in space.  A swivel sequence precedes the emitted
/// motion wherever the tangents disagree by more than the threshold.
#[verifier::opaque]
pub open spec fn spec_rewrite_one(
    c: CommandView,
    prev_angle: Option<i64>,
    st: GCodeState,
    dk: DragknifeState,
    cfg: DragknifeConfig,
) -> (Seq<GCodeView>, GCodeState, DragknifeState) {
    match c {
        CommandView::Other { original, .. } => {
            if original.is_g(91) {
                (Seq::<GCodeView>::empty(), st, dk)
            } else {
                (seq![original], spec_apply_modal(st, original), dk)
            }
        },
        CommandView::Home { original, .. } => (seq![original], st, dk),
        CommandView::Rapid { original, .. } => (seq![original], st, dk),
        CommandView::Linear { original, end, angle, .. } => {
            let sw = spec_swivel(prev_angle, c, st, cfg);
            let dk1 = spec_swivel_state(sw.len() > 0, st, dk);
            let target3d = match angle {
                Some(a) => spec_add3(
                    end,
                    spec_scale3(
                        crate::vec3::spec_unit_angle(a as int, st.plane),
                        cfg.knife_offset as int,
                        ONE as int,
                    ),
                ),
                None => end,
            };
            let t = crate::vec3::spec_coords(target3d, st.plane);
            let st1 = crate::types::spec_update_settings_state(c, st);
            let new = GCodeView {
                mnemonic: Mnemonic::General,
                number: 1,
                minor: 0,
                arguments: seq![
                    Word {
                        letter: crate::types::spec_main_name(
                            crate::types::spec_axis_1(st.plane),
                        ),
                        value: t.0 as i64,
                    },
                    Word {
                        letter: crate::types::spec_main_name(
                            crate::types::spec_axis_2(st.plane),
                        ),
                        value: t.1 as i64,
                    },
                ] + spec_feed_words(c, st1, dk1) + spec_misc_tail(original.arguments, st.plane),
            };
            (sw.push(new), st1, DragknifeState { next_feedrate: None::<i64> })
        },
        CommandView::Arc {
            original,
            direction,
            start,
            end,
            center,
            start_angle,
            end_angle,
        } => {
            let sw = spec_swivel(prev_angle, c, st, cfg);
            let dk1 = spec_swivel_state(sw.len() > 0, st, dk);
            let new_start = spec_add3(
                start,
                spec_scale3(
                    crate::vec3::spec_unit_angle(start_angle as int, st.plane),
                    cfg.knife_offset as int,
                    ONE as int,
                ),
            );
            let new_end = spec_add3(
                end,
                spec_scale3(
                    crate::vec3::spec_unit_angle(end_angle as int, st.plane),
                    cfg.knife_offset as int,
                    ONE as int,
                ),
            );
            let ne = crate::vec3::spec_coords(new_end, st.plane);
            let co = crate::vec3::spec_coords(spec_sub3(center, new_start), st.plane);
            let st1 = crate::types::spec_update_settings_state(c, st);
            let new = GCodeView {
                mnemonic: Mnemonic::General,
                number: if direction is CW {
                    2
                } else {
                    3
                },
                minor: 0,
                arguments: seq![
                    Word {
                        letter: crate::types::spec_main_name(
                            crate::types::spec_axis_1(st.plane),
                        ),
                        value: ne.0 as i64,
                    },
                    Word {
                        letter: crate::types::spec_main_name(
                            crate::types::spec_axis_2(st.plane),
                        ),
                        value: ne.1 as i64,
                    },
                    Word {
                        letter: crate::types::spec_center_name(
                            crate::types::spec_axis_1(st.plane),
                        ),
                        value: co.0 as i64,
                    },
                    Word {
                        letter: crate::types::spec_center_name(
                            crate::types::spec_axis_2(st.plane),
                        ),
                        value: co.1 as i64,
                    },
                ] + spec_feed_words(c, st1, dk1) + spec_misc_tail(original.arguments, st.plane),
            };
            (sw.push(new), st1, DragknifeState { next_feedrate: None::<i64> })
        },
    }
}

impl Command {
    /// Emit the lift / swivel-arc / plunge sequence when the tangent
    /// change entering this record exceeds the threshold, recording
    /// the pending feedrate restore.
    fn create_swivel_path(
        previous_angle: Option<i64>,
        next: &Command,
        settings: &GCodeState,
        state: &mut DragknifeState,
        config: &DragknifeConfig,
    ) -> (r: Vec<GCode>)
        requires
            next@.wf(),
            settings.wf(),
            old(state).wf(),
            config.wf(),
            angle_opt_wf(previous_angle),
        ensures
            r.deep_view() == spec_swivel(previous_angle, next@, *settings, *config),
            *final(state) == spec_swivel_state(r.len() > 0, *settings, *old(state)),
            final(state).wf(),
    {
        if let (Some(from_angle), Some(to_angle)) = (previous_angle, next.start_angle()) {
            let sa = crate::angle::signed_angle(from_angle, to_angle);
            let sa_abs = if sa >= 0 {
                sa
            } else {
                -sa
            };
            if sa_abs > config.sharp_angle_threshold {
                let plane = settings.plane;
                let start_height = next.start_pos().third_coord(&plane);
                let lift_height = config.lift_config.calcute_height(start_height);
                let lift_feed = settings.unscale(config.swivel_feedrate);
                let mut lift_args: Vec<Word> = Vec::new();
                lift_args.push(Word { letter: plane.axis_3().main_name(), value: lift_height });
                lift_args.push(Word { letter: 'F', value: lift_feed });
                let lift = GCode {
                    mnemonic: Mnemonic::General,
                    number: 1,
                    minor: 0,
                    arguments: lift_args,
                };
                let u_from = Vec3::unit_angle(from_angle + HALF_TURN, &plane);
                let u_to = Vec3::unit_angle(to_angle, &plane);
                proof {
                    crate::vec3::lemma_scale3_bound(
                        u_from,
                        config.knife_offset as int,
                        ONE as int,
                        ONE as int,
                    );
                    crate::vec3::lemma_scale3_bound(
                        u_to,
                        config.knife_offset as int,
                        ONE as int,
                        ONE as int,
                    );
                    vstd::arithmetic::div_mod::lemma_div_multiples_vanish(
                        config.knife_offset as int,
                        ONE as int,
                    );
                }
                let co_v = u_from.mul_div(config.knife_offset, ONE);
                let co = co_v.coords_for_plane(&plane);
                let tgt_v = u_to.mul_div(config.knife_offset, ONE).add(next.start_pos());
                let tgt = tgt_v.coords_for_plane(&plane);
                let mut arc_args: Vec<Word> = Vec::new();
                arc_args.push(Word { letter: plane.axis_1().main_name(), value: tgt.0 });
                arc_args.push(Word { letter: plane.axis_2().main_name(), value: tgt.1 });
                arc_args.push(Word { letter: plane.axis_1().center_name(), value: co.0 });
                arc_args.push(Word { letter: plane.axis_2().center_name(), value: co.1 });
                let swivel_arc = GCode {
                    mnemonic: Mnemonic::General,
                    number: if sa > 0 {
                        2
                    } else {
                        3
                    },
                    minor: 0,
                    arguments: arc_args,
                };
                let mut plunge_args: Vec<Word> = Vec::new();
                plunge_args.push(
                    Word { letter: plane.axis_3().main_name(), value: start_height },
                );
                let plunge = GCode {
                    mnemonic: Mnemonic::General,
                    number: 1,
                    minor: 0,
                    arguments: plunge_args,
                };
                state.next_feedrate = Some(settings.unscale(settings.feedrate));
                let mut out: Vec<GCode> = Vec::new();
                out.push(lift);
                out.push(swivel_arc);
                out.push(plunge);
                proof {
                    let s = spec_swivel_cmds(from_angle, to_angle, next@, *settings, *config);
                    assert(lift@.arguments =~= s[0].arguments);
                    assert(swivel_arc@.arguments =~= s[1].arguments);
                    assert(plunge@.arguments =~= s[2].arguments);
                    assert(lift@ == s[0]);
                    assert(swivel_arc@ == s[1]);
                    assert(plunge@ == s[2]);
                    assert(out.deep_view() =~= spec_swivel(
                        previous_angle,
                        next@,
                        *settings,
                        *config,
                    ));
                }
                return out;
            }
        }
        let out: Vec<GCode> = Vec::new();
        proof {
            assert(out.deep_view() =~= spec_swivel(previous_angle, next@, *settings, *config));
        }
        out
    }

    /// Append the called-for `F` argument (a changed feedrate, else a
    /// pending post-swivel restore), then every source argument the
    /// rewriter does not itself rewrite; update the modal state.
    fn add_misc_args_and_update_settings(
        new_gcode: &mut GCode,
        command: &Command,
        state: &mut DragknifeState,
        settings: &mut GCodeState,
    )
        requires
            command@.wf(),
            command@ is Linear || command@ is Arc,
            old(settings).wf(),
            old(state).wf(),
        ensures
            final(new_gcode)@.mnemonic == old(new_gcode)@.mnemonic,
            final(new_gcode)@.number == old(new_gcode)@.number,
            final(new_gcode)@.minor == old(new_gcode)@.minor,
            final(new_gcode)@.arguments == old(new_gcode)@.arguments + spec_feed_words(
                command@,
                crate::types::spec_update_settings_state(command@, *old(settings)),
                *old(state),
            ) + spec_misc_tail(command@.original().arguments, old(settings).plane),
            *final(settings) == crate::types::spec_update_settings_state(
                command@,
                *old(settings),
            ),
            final(settings).wf(),
            final(state).next_feedrate is None,
    {
        let ghost base = new_gcode@.arguments;
        let updated = command.update_settings(settings);
        if updated {
            state.next_feedrate = None;
            let f = settings.unscale(settings.feedrate);
            new_gcode.arguments.push(Word { letter: 'F', value: f });
        } else if let Some(feedrate) = state.next_feedrate {
            state.next_feedrate = None;
            let f = settings.unscale(feedrate);
            new_gcode.arguments.push(Word { letter: 'F', value: f });
        }
        proof {
            assert(new_gcode@.arguments =~= base + spec_feed_words(
                command@,
                *settings,
                *old(state),
            ));
        }
        let ghost mid = new_gcode@.arguments;
        let plane = settings.plane;
        let l_m1 = plane.axis_1().main_name();
        let l_m2 = plane.axis_2().main_name();
        let l_c1 = plane.axis_1().center_name();
        let l_c2 = plane.axis_2().center_name();
        let orig = command.original();
        let ghost args = orig@.arguments;
        let n = orig.arguments.len();
        let mut i: usize = 0;
        proof {
            reveal_with_fuel(Seq::filter, 2);
            assert(args.take(0) =~= Seq::<Word>::empty());
            assert(spec_misc_tail(args.take(0), plane) =~= Seq::<Word>::empty());
            assert(new_gcode@.arguments =~= mid + spec_misc_tail(args.take(0), plane));
        }
        while i < n
            invariant
                n == args.len(),
                0 <= i <= n,
                args == orig@.arguments,
                orig@ == command@.original(),
                l_m1 == crate::types::spec_main_name(crate::types::spec_axis_1(plane)),
                l_m2 == crate::types::spec_main_name(crate::types::spec_axis_2(plane)),
                l_c1 == crate::types::spec_center_name(crate::types::spec_axis_1(plane)),
                l_c2 == crate::types::spec_center_name(crate::types::spec_axis_2(plane)),
                new_gcode@.mnemonic == old(new_gcode)@.mnemonic,
                new_gcode@.number == old(new_gcode)@.number,
                new_gcode@.minor == old(new_gcode)@.minor,
                new_gcode@.arguments == mid + spec_misc_tail(args.take(i as int), plane),
            decreases n - i,
        {
            let w = orig.arguments[i];
            let ghost before = new_gcode@.arguments;
            let excluded = w.letter == l_m1 || w.letter == l_m2 || w.letter == l_c1 || w.letter
                == l_c2 || w.letter == 'F';
            if !excluded {
                new_gcode.arguments.push(w);
            }
            proof {
                reveal_with_fuel(Seq::filter, 2);
                let t1 = args.take(i as int + 1);
                assert(t1.drop_last() =~= args.take(i as int));
                assert(t1.last() == args[i as int]);
                assert(w == args[i as int]);
                assert(before == mid + spec_misc_tail(args.take(i as int), plane));
                if !excluded {
                    assert(new_gcode@.arguments == before.push(w));
                    assert(!spec_excluded_letter(args[i as int].letter, plane));
                    assert(spec_misc_tail(t1, plane) == spec_misc_tail(
                        args.take(i as int),
                        plane,
                    ).push(args[i as int]));
                    assert(before.push(w) =~= mid + spec_misc_tail(t1, plane));
                } else {
                    assert(spec_excluded_letter(args[i as int].letter, plane));
                    assert(spec_misc_tail(t1, plane) == spec_misc_tail(
                        args.take(i as int),
                        plane,
                    ));
                }
            }
            i += 1;
        }
        proof {
            assert(args.take(n as int) =~= args);
        }
    }

    /// Rewrite one record: pass non-cutting commands through (dropping
    /// `G91`), offset-compensate `Linear` and `Arc` endpoints, and
    /// insert a swivel sequence where the tangent change demands one.
    #[verifier::rlimit(80)]
    pub fn to_fixed_gcode(
        &self,
        previous_angle: Option<i64>,
        settings: &mut GCodeState,
        state: &mut DragknifeState,
        config: &DragknifeConfig,
    ) -> (r: Vec<GCode>)
        requires
            self@.wf(),
            old(settings).wf(),
            old(state).wf(),
            config.wf(),
            angle_opt_wf(previous_angle),
        ensures
            r.deep_view() == spec_rewrite_one(
                self@,
                previous_angle,
                *old(settings),
                *old(state),
                *config,
            ).0,
            *final(settings) == spec_rewrite_one(
                self@,
                previous_angle,
                *old(settings),
                *old(state),
                *config,
            ).1,
            *final(state) == spec_rewrite_one(
                self@,
                previous_angle,
                *old(settings),
                *old(state),
                *config,
            ).2,
            final(settings).wf(),
            final(state).wf(),
    {
        proof {
            reveal(spec_rewrite_one);
        }
        match self {
            Command::Other(command) => {
                let is_g91 = match command.original.mnemonic {
                    Mnemonic::General => command.original.major_number() == 91,
                    _ => false,
                };
                if is_g91 {
                    let out: Vec<GCode> = Vec::new();
                    proof {
                        assert(out.deep_view() =~= Seq::<GCodeView>::empty());
                    }
                    out
                } else {
                    command.update_settings(settings);
                    let mut out: Vec<GCode> = Vec::new();
                    out.push(command.original.duplicate());
                    proof {
                        assert(out.deep_view() =~= seq![command.original@]);
                    }
                    out
                }
            },
            Command::Home(command) => {
                let mut out: Vec<GCode> = Vec::new();
                out.push(command.original.duplicate());
                proof {
                    assert(out.deep_view() =~= seq![command.original@]);
                }
                out
            },
            Command::Rapid(command) => {
                let mut out: Vec<GCode> = Vec::new();
                out.push(command.original.duplicate());
                proof {
                    assert(out.deep_view() =~= seq![command.original@]);
                }
                out
            },
            Command::Linear(command) => {
                let mut out = Command::create_swivel_path(
                    previous_angle,
                    self,
                    settings,
                    state,
                    config,
                );
                let target = if let Some(angle) = command.angle {
                    let u = Vec3::unit_angle(angle, &settings.plane);
                    proof {
                        crate::vec3::lemma_scale3_bound(
                            u,
                            config.knife_offset as int,
                            ONE as int,
                            ONE as int,
                        );
                        vstd::arithmetic::div_mod::lemma_div_multiples_vanish(
                            config.knife_offset as int,
                            ONE as int,
                        );
                    }
                    command.end.add(u.mul_div(config.knife_offset, ONE))
                } else {
                    command.end
                };
                let t = target.coords_for_plane(&settings.plane);
                let mut args: Vec<Word> = Vec::new();
                args.push(Word { letter: settings.plane.axis_1().main_name(), value: t.0 });
                args.push(Word { letter: settings.plane.axis_2().main_name(), value: t.1 });
                let mut new = GCode {
                    mnemonic: Mnemonic::General,
                    number: 1,
                    minor: 0,
                    arguments: args,
                };
                let ghost w1 = Word {
                    letter: crate::types::spec_main_name(
                        crate::types::spec_axis_1(old(settings).plane),
                    ),
                    value: t.0,
                };
                let ghost w2 = Word {
                    letter: crate::types::spec_main_name(
                        crate::types::spec_axis_2(old(settings).plane),
                    ),
                    value: t.1,
                };
                let ghost pre = new@.arguments;
                let ghost dk1v = *state;
                let ghost swn = out.len();
                proof {
                    assert(pre =~= seq![w1, w2]);
                    assert(out.deep_view().len() == swn);
                }
                Command::add_misc_args_and_update_settings(&mut new, self, state, settings);
                out.push(new);
                proof {
                    let step = spec_rewrite_one(
                        self@,
                        previous_angle,
                        *old(settings),
                        *old(state),
                        *config,
                    );
                    let sw = spec_swivel(previous_angle, self@, *old(settings), *config);
                    assert(dk1v == spec_swivel_state(sw.len() > 0, *old(settings), *old(state)));
                    assert(new@.arguments == seq![w1, w2] + spec_feed_words(
                        self@,
                        *settings,
                        dk1v,
                    ) + spec_misc_tail(self@.original().arguments, old(settings).plane));
                    assert(step.0.last().arguments == seq![w1, w2] + spec_feed_words(
                        self@,
                        step.1,
                        dk1v,
                    ) + spec_misc_tail(self@.original().arguments, old(settings).plane));
                    assert(new@ == step.0.last());
                    assert(out.deep_view() =~= step.0);
                }
                out
            },
            Command::Arc(command) => {
                let mut out = Command::create_swivel_path(
                    previous_angle,
                    self,
                    settings,
                    state,
                    config,
                );
                let u_s = Vec3::unit_angle(command.start_angle, &settings.plane);
                let u_e = Vec3::unit_angle(command.end_angle, &settings.plane);
                proof {
                    crate::vec3::lemma_scale3_bound(
                        u_s,
                        config.knife_offset as int,
                        ONE as int,
                        ONE as int,
                    );
                    crate::vec3::lemma_scale3_bound(
                        u_e,
                        config.knife_offset as int,
                        ONE as int,
                        ONE as int,
                    );
                    vstd::arithmetic::div_mod::lemma_div_multiples_vanish(
                        config.knife_offset as int,
                        ONE as int,
                    );
                }
                let new_start = command.start.add(u_s.mul_div(config.knife_offset, ONE));
                let new_end = command.end.add(u_e.mul_div(config.knife_offset, ONE));
                let center_offset = command.center.sub(new_start);
                let ne = new_end.coords_for_plane(&settings.plane);
                let co = center_offset.coords_for_plane(&settings.plane);
                let mut args: Vec<Word> = Vec::new();
                args.push(Word { letter: settings.plane.axis_1().main_name(), value: ne.0 });
                args.push(Word { letter: settings.plane.axis_2().main_name(), value: ne.1 });
                args.push(Word { letter: settings.plane.axis_1().center_name(), value: co.0 });
                args.push(Word { letter: settings.plane.axis_2().center_name(), value: co.1 });
                let mut new = GCode {
                    mnemonic: Mnemonic::General,
                    number: if let ArcDirection::CW = command.direction {
                        2
                    } else {
                        3
                    },
                    minor: 0,
                    arguments: args,
                };
                let ghost w1 = Word {
                    letter: crate::types::spec_main_name(
                        crate::types::spec_axis_1(old(settings).plane),
                    ),
                    value: ne.0,
                };
                let ghost w2 = Word {
                    letter: crate::types::spec_main_name(
                        crate::types::spec_axis_2(old(settings).plane),
                    ),
                    value: ne.1,
                };
                let ghost w3 = Word {
                    letter: crate::types::spec_center_name(
                        crate::types::spec_axis_1(old(settings).plane),
                    ),
                    value: co.0,
                };
                let ghost w4 = Word {
                    letter: crate::types::spec_center_name(
                        crate::types::spec_axis_2(old(settings).plane),
                    ),
                    value: co.1,
                };
                let ghost pre = new@.arguments;
                let ghost dk1v = *state;
                let ghost swn = out.len();
                proof {
                    assert(pre =~= seq![w1, w2, w3, w4]);
                    assert(out.deep_view().len() == swn);
                }
                Command::add_misc_args_and_update_settings(&mut new, self, state, settings);
                out.push(new);
                proof {
                    let step = spec_rewrite_one(
                        self@,
                        previous_angle,
                        *old(settings),
                        *old(state),
                        *config,
                    );
                    let sw = spec_swivel(previous_angle, self@, *old(settings), *config);
                    assert(dk1v == spec_swivel_state(sw.len() > 0, *old(settings), *old(state)));
                    assert(new@.arguments == seq![w1, w2, w3, w4] + spec_feed_words(
                        self@,
                        *settings,
                        dk1v,
                    ) + spec_misc_tail(self@.original().arguments, old(settings).plane));
                    assert(step.0.last().arguments == seq![w1, w2, w3, w4] + spec_feed_words(
                        self@,
                        step.1,
                        dk1v,
                    ) + spec_misc_tail(self@.original().arguments, old(settings).plane));
                    assert(new@ == step.0.last());
                    assert(out.deep_view() =~= step.0);
                }
                out
            },
        }
    }
}

/// A classified program: the ordered sequence of motion records.
pub struct DragknifePath {
    pub commands: Vec<Command>,
}

/// Every record of a sequence is well-formed.
pub open spec fn spec_all_wf(cs: Seq<CommandView>) -> bool {
    forall|i: int| 0 <= i < cs.len() ==> (#[trigger] cs[i]).wf()
}

impl DragknifePath {
    /// Classify a whole program: a forward pass that hands each
    /// command the previous record and the accumulated modal state.
    pub fn from_gcode(gcodes: &Vec<GCode>) -> (r: DragknifePath)
        requires
            forall|i: int| 0 <= i < gcodes.len() ==> (#[trigger] gcodes[i]@).wf(),
        ensures
            r.commands.deep_view() == spec_path(gcodes.deep_view()),
            spec_all_wf(r.commands.deep_view()),
            // Chain continuity: every record starts where its
            // predecessor ended.
            forall|i: int|
                0 <= i < r.commands.deep_view().len() - 1 ==> (#[trigger] r.commands.deep_view()[i
                    + 1]).start_pos() == r.commands.deep_view()[i].end_pos(),
    {
        proof {
            lemma_chain_continuity(gcodes.deep_view());
        }
        let ghost gseq: Seq<GCodeView> = gcodes.deep_view();
        proof {
            assert(gseq =~= gcodes@.map_values(|g: GCode| g@));
        }
        let mut output: Vec<Command> = Vec::new();
        let mut settings = GCodeState::default();
        let n = gcodes.len();
        let mut i: usize = 0;
        proof {
            assert(gseq.take(0) =~= Seq::<GCodeView>::empty());
            assert(output.deep_view() =~= spec_path(gseq.take(0)));
        }
        while i < n
            invariant
                n == gcodes.len(),
                0 <= i <= n,
                gseq == gcodes.deep_view(),
                gseq.len() == n,
                forall|j: int| 0 <= j < n ==> (#[trigger] gseq[j]).wf(),
                output.deep_view() == spec_path(gseq.take(i as int)),
                output.len() == i,
                settings == spec_modal_after(gseq.take(i as int)),
                settings.wf(),
                spec_all_wf(output.deep_view()),
            decreases n - i,
        {
            proof {
                lemma_path_len(gseq.take(i as int));
                assert(gseq[i as int].wf());
            }
            let prev: Option<&Command> = if output.len() == 0 {
                None
            } else {
                Some(&output[output.len() - 1])
            };
            proof {
                if output.len() > 0 {
                    assert(output.deep_view()[output.len() - 1].wf());
                    assert(output[output.len() - 1]@ == output.deep_view()[output.len() - 1]);
                }
            }
            let command = Command::from_gcode(&gcodes[i], prev, &mut settings);
            output.push(command);
            proof {
                let t1 = gseq.take(i as int + 1);
                assert(t1.drop_last() =~= gseq.take(i as int));
                assert(t1.last() == gseq[i as int]);
                assert(output.deep_view() =~= spec_path(t1));
                assert(settings == spec_modal_after(t1));
            }
            i += 1;
        }
        proof {
            assert(gseq.take(n as int) =~= gseq);
        }
        DragknifePath { commands: output }
    }
}

/// The rewriter's running state after replaying a record sequence:
/// the modal state, the pending feedrate restore, and the last
/// record's end tangent.
pub open spec fn spec_rewrite_state(cs: Seq<CommandView>, cfg: DragknifeConfig) -> (
    GCodeState,
    DragknifeState,
    Option<i64>,
)
    decreases cs.len(),
{
    if cs.len() == 0 {
        (spec_default_state(), DragknifeState { next_feedrate: None::<i64> }, None::<i64>)
    } else {
        let prior = spec_rewrite_state(cs.drop_last(), cfg);
        let step = spec_rewrite_one(cs.last(), prior.2, prior.0, prior.1, cfg);
        (step.1, step.2, cs.last().end_angle())
    }
}

/// The full output of the rewrite pass over a record sequence.
pub open spec fn spec_rewrite_out(cs: Seq<CommandView>, cfg: DragknifeConfig) -> Seq<GCodeView>
    decreases cs.len(),
{
    if cs.len() == 0 {
        Seq::<GCodeView>::empty()
    } else {
        let prior = spec_rewrite_state(cs.drop_last(), cfg);
        spec_rewrite_out(cs.drop_last(), cfg) + spec_rewrite_one(
            cs.last(),
            prior.2,
            prior.0,
            prior.1,
            cfg,
        ).0
    }
}

/// One unfolding of the rewrite fold at position `i`.
proof fn lemma_rewrite_unfold(cs: Seq<CommandView>, i: int, cfg: DragknifeConfig)
    requires
        0 <= i < cs.len(),
    ensures
        spec_rewrite_out(cs.take(i + 1), cfg) == spec_rewrite_out(cs.take(i), cfg)
            + spec_rewrite_one(
            cs[i],
            spec_rewrite_state(cs.take(i), cfg).2,
            spec_rewrite_state(cs.take(i), cfg).0,
            spec_rewrite_state(cs.take(i), cfg).1,
            cfg,
        ).0,
        spec_rewrite_state(cs.take(i + 1), cfg).0 == spec_rewrite_one(
            cs[i],
            spec_rewrite_state(cs.take(i), cfg).2,
            spec_rewrite_state(cs.take(i), cfg).0,
            spec_rewrite_state(cs.take(i), cfg).1,
            cfg,
        ).1,
        spec_rewrite_state(cs.take(i + 1), cfg).1 == spec_rewrite_one(
            cs[i],
            spec_rewrite_state(cs.take(i), cfg).2,
            spec_rewrite_state(cs.take(i), cfg).0,
            spec_rewrite_state(cs.take(i), cfg).1,
            cfg,
        ).2,
        spec_rewrite_state(cs.take(i + 1), cfg).2 == cs[i].end_angle(),
{
    let t1 = cs.take(i + 1);
    assert(t1.drop_last() =~= cs.take(i));
    assert(t1.last() == cs[i]);
}

impl DragknifePath {
    /// Rewrite the whole classified program: a second forward pass
    /// that replays modal state, carries the previous end tangent for
    /// swivel detection, and concatenates each record's emission.
    pub fn to_fixed_gcode(&self, config: &DragknifeConfig) -> (r: Vec<GCode>)
        requires
            spec_all_wf(self.commands.deep_view()),
            config.wf(),
        ensures
            r.deep_view() == spec_rewrite_out(self.commands.deep_view(), *config),
    {
        let ghost cs: Seq<CommandView> = self.commands.deep_view();
        let mut fixed: Vec<GCode> = Vec::new();
        let mut prev_angle: Option<i64> = None;
        let mut settings = GCodeState::default();
        let mut dragknife_state = DragknifeState::default();
        let n = self.commands.len();
        let mut i: usize = 0;
        proof {
            assert(cs.take(0) =~= Seq::<CommandView>::empty());
            assert(fixed.deep_view() =~= spec_rewrite_out(cs.take(0), *config));
        }
        while i < n
            invariant
                n == self.commands.len(),
                0 <= i <= n,
                cs == self.commands.deep_view(),
                cs.len() == n,
                spec_all_wf(cs),
                config.wf(),
                fixed.deep_view() == spec_rewrite_out(cs.take(i as int), *config),
                settings == spec_rewrite_state(cs.take(i as int), *config).0,
                dragknife_state == spec_rewrite_state(cs.take(i as int), *config).1,
                prev_angle == spec_rewrite_state(cs.take(i as int), *config).2,
                settings.wf(),
                dragknife_state.wf(),
                angle_opt_wf(prev_angle),
            decreases n - i,
        {
            proof {
                assert(cs[i as int].wf());
                assert(self.commands[i as int]@ == cs[i as int]);
            }
            let mut add = self.commands[i].to_fixed_gcode(
                prev_angle,
                &mut settings,
                &mut dragknife_state,
                config,
            );
            let ghost addv = add.deep_view();
            let ghost fixedv = fixed.deep_view();
            fixed.append(&mut add);
            prev_angle = self.commands[i].end_angle();
            proof {
                lemma_rewrite_unfold(cs, i as int, *config);
                assert(fixed.deep_view() =~= fixedv + addv);
                assert(fixed.deep_view() == spec_rewrite_out(cs.take(i as int + 1), *config));
            }
            i += 1;
        }
        proof {
            assert(cs.take(n as int) =~= cs);
        }
        fixed
    }
}

/// Tangent-offset identity: for every emitted `Linear` with a defined
/// tangent, the in-plane target written on the emitted command is the
/// record's endpoint led by the knife offset along the tangent's unit
/// vector.
pub proof fn lemma_tangent_offset_identity(
    original: GCodeView,
    start: Vec3,
    end: Vec3,
    a: i64,
    prev_angle: Option<i64>,
    st: GCodeState,
    dk: DragknifeState,
    cfg: DragknifeConfig,
)
    ensures
        ({
            let c = CommandView::Linear { original, start, end, angle: Some(a) };
            let out = spec_rewrite_one(c, prev_angle, st, dk, cfg).0;
            let target = spec_add3(
                end,
                spec_scale3(
                    crate::vec3::spec_unit_angle(a as int, st.plane),
                    cfg.knife_offset as int,
                    ONE as int,
                ),
            );
            &&& out.len() > 0
            &&& out.last().arguments.len() >= 2
            &&& out.last().arguments[0] == (Word {
                letter: crate::types::spec_main_name(crate::types::spec_axis_1(st.plane)),
                value: crate::vec3::spec_coords(target, st.plane).0 as i64,
            })
            &&& out.last().arguments[1] == (Word {
                letter: crate::types::spec_main_name(crate::types::spec_axis_2(st.plane)),
                value: crate::vec3::spec_coords(target, st.plane).1 as i64,
            })
        }),
{
    reveal(spec_rewrite_one);
}

/// A sharp-angle threshold of half a turn (pi) disables swivels: the
/// normalized tangent difference never exceeds it.
pub proof fn lemma_threshold_half_turn_no_swivel(
    prev_angle: Option<i64>,
    next: CommandView,
    st: GCodeState,
    cfg: DragknifeConfig,
)
    requires
        cfg.sharp_angle_threshold >= HALF_TURN,
    ensures
        spec_swivel(prev_angle, next, st, cfg) == Seq::<GCodeView>::empty(),
{
    match (prev_angle, next.start_angle()) {
        (Some(from), Some(to)) => {
            crate::angle::lemma_signed_delta_normalization(from as int, to as int);
        },
        _ => {},
    }
}

/// With a zero knife offset the tangent-led displacement vanishes.
pub proof fn lemma_zero_offset_scale(v: Vec3, d: int)
    requires
        d > 0,
    ensures
        spec_scale3(v, 0, d) == spec_zero(),
{
    assert(v.x as int * 0 == 0) by (nonlinear_arith);
    assert(v.y as int * 0 == 0) by (nonlinear_arith);
    assert(v.z as int * 0 == 0) by (nonlinear_arith);
    vstd::arithmetic::div_mod::lemma_basic_div(0, d);
}

/// With a zero knife offset and a half-turn threshold, a `Linear`
/// record is emitted as a single `G1` aimed exactly at its own
/// endpoint: the rewrite moves nothing.
pub proof fn lemma_zero_offset_linear(
    original: GCodeView,
    start: Vec3,
    end: Vec3,
    angle: Option<i64>,
    prev_angle: Option<i64>,
    st: GCodeState,
    dk: DragknifeState,
    cfg: DragknifeConfig,
)
    requires
        cfg.knife_offset == 0,
        cfg.sharp_angle_threshold >= HALF_TURN,
    ensures
        ({
            let c = CommandView::Linear { original, start, end, angle };
            let out = spec_rewrite_one(c, prev_angle, st, dk, cfg).0;
            &&& out.len() == 1
            &&& out.last().arguments.len() >= 2
            &&& out.last().arguments[0].value == crate::vec3::spec_coords(end, st.plane).0
            &&& out.last().arguments[1].value == crate::vec3::spec_coords(end, st.plane).1
        }),
{
    reveal(spec_rewrite_one);
    let c = CommandView::Linear { original, start, end, angle };
    lemma_threshold_half_turn_no_swivel(prev_angle, c, st, cfg);
    match angle {
        Some(a) => {
            lemma_zero_offset_scale(
                crate::vec3::spec_unit_angle(a as int, st.plane),
                ONE as int,
            );
            let target = spec_add3(end, spec_zero());
            assert(target.x == end.x && target.y == end.y && target.z == end.z);
        },
        None => {},
    }
}

/// With a zero knife offset and a half-turn threshold, an `Arc`
/// record is emitted as a single `G2` / `G3` aimed exactly at its own
/// endpoint, with the centre offset taken from its own start: the
/// rewrite moves nothing.
pub proof fn lemma_zero_offset_arc(
    original: GCodeView,
    direction: ArcDirection,
    start: Vec3,
    end: Vec3,
    center: Vec3,
    start_angle: i64,
    end_angle: i64,
    prev_angle: Option<i64>,
    st: GCodeState,
    dk: DragknifeState,
    cfg: DragknifeConfig,
)
    requires
        cfg.knife_offset == 0,
        cfg.sharp_angle_threshold >= HALF_TURN,
    ensures
        ({
            let c = CommandView::Arc {
                original,
                direction,
                start,
                end,
                center,
                start_angle,
                end_angle,
            };
            let out = spec_rewrite_one(c, prev_angle, st, dk, cfg).0;
            &&& out.len() == 1
            &&& out.last().arguments.len() >= 4
            &&& out.last().arguments[0].value == crate::vec3::spec_coords(end, st.plane).0
            &&& out.last().arguments[1].value == crate::vec3::spec_coords(end, st.plane).1
            &&& out.last().arguments[2].value == crate::vec3::spec_coords(
                spec_sub3(center, start),
                st.plane,
            ).0
            &&& out.last().arguments[3].value == crate::vec3::spec_coords(
                spec_sub3(center, start),
                st.plane,
            ).1
        }),
{
    reveal(spec_rewrite_one);
    let c = CommandView::Arc { original, direction, start, end, center, start_angle, end_angle };
    lemma_threshold_half_turn_no_swivel(prev_angle, c, st, cfg);
    lemma_zero_offset_scale(
        crate::vec3::spec_unit_angle(start_angle as int, st.plane),
        ONE as int,
    );
    lemma_zero_offset_scale(crate::vec3::spec_unit_angle(end_angle as int, st.plane), ONE as int);
    let new_start = spec_add3(start, spec_zero());
    let new_end = spec_add3(end, spec_zero());
    assert(new_start.x == start.x && new_start.y == start.y && new_start.z == start.z);
    assert(new_end.x == end.x && new_end.y == end.y && new_end.z == end.z);
}

/// The misc tail distributes over concatenation.
proof fn lemma_misc_tail_add(a: Seq<Word>, b: Seq<Word>, plane: crate::types::GCodePlane)
    ensures
        spec_misc_tail(a + b, plane) == spec_misc_tail(a, plane) + spec_misc_tail(b, plane),
    decreases b.len(),
{
    reveal_with_fuel(Seq::filter, 2);
    if b.len() == 0 {
        assert(a + b =~= a);
        assert(spec_misc_tail(b, plane) =~= Seq::<Word>::empty());
        assert(spec_misc_tail(a, plane) + spec_misc_tail(b, plane) =~= spec_misc_tail(a, plane));
    } else {
        lemma_misc_tail_add(a, b.drop_last(), plane);
        assert((a + b).drop_last() =~= a + b.drop_last());
        assert((a + b).last() == b.last());
        assert(b.drop_last().push(b.last()) =~= b);
        if !spec_excluded_letter(b.last().letter, plane) {
            assert(spec_misc_tail(a, plane) + spec_misc_tail(b.drop_last(), plane).push(
                b.last(),
            ) =~= (spec_misc_tail(a, plane) + spec_misc_tail(b.drop_last(), plane)).push(
                b.last(),
            ));
        }
    }
}

/// A sequence whose letters are all excluded filters to nothing.
proof fn lemma_misc_tail_none(s: Seq<Word>, plane: crate::types::GCodePlane)
    requires
        forall|i: int| 0 <= i < s.len() ==> spec_excluded_letter((#[trigger] s[i]).letter, plane),
    ensures
        spec_misc_tail(s, plane) == Seq::<Word>::empty(),
    decreases s.len(),
{
    reveal_with_fuel(Seq::filter, 2);
    if s.len() > 0 {
        lemma_misc_tail_none(s.drop_last(), plane);
        assert(s.last() == s[s.len() - 1]);
    }
}

/// Filtering is idempotent: the misc tail of a misc tail is itself.
proof fn lemma_misc_tail_idempotent(s: Seq<Word>, plane: crate::types::GCodePlane)
    ensures
        spec_misc_tail(spec_misc_tail(s, plane), plane) == spec_misc_tail(s, plane),
    decreases s.len(),
{
    reveal_with_fuel(Seq::filter, 2);
    if s.len() > 0 {
        lemma_misc_tail_idempotent(s.drop_last(), plane);
        if !spec_excluded_letter(s.last().letter, plane) {
            let t = spec_misc_tail(s.drop_last(), plane);
            assert(spec_misc_tail(s, plane) == t.push(s.last()));
            assert(t.push(s.last()).drop_last() =~= t);
            assert(t.push(s.last()).len() > 0);
            assert(spec_misc_tail(t.push(s.last()), plane) == spec_misc_tail(t, plane).push(
                s.last(),
            ));
        }
    }
}

/// Every letter in a misc tail is one the rewriter does not consume.
proof fn lemma_misc_tail_letters(s: Seq<Word>, plane: crate::types::GCodePlane)
    ensures
        forall|i: int|
            0 <= i < spec_misc_tail(s, plane).len() ==> !spec_excluded_letter(
                (#[trigger] spec_misc_tail(s, plane)[i]).letter,
                plane,
            ),
    decreases s.len(),
{
    reveal_with_fuel(Seq::filter, 2);
    if s.len() > 0 {
        lemma_misc_tail_letters(s.drop_last(), plane);
        let t = spec_misc_tail(s.drop_last(), plane);
        if !spec_excluded_letter(s.last().letter, plane) {
            assert(spec_misc_tail(s, plane) == t.push(s.last()));
            assert forall|i: int| 0 <= i < spec_misc_tail(s, plane).len() implies
                !spec_excluded_letter((#[trigger] spec_misc_tail(s, plane)[i]).letter, plane) by {
                if i < t.len() {
                    assert(spec_misc_tail(s, plane)[i] == t[i]);
                } else {
                    assert(spec_misc_tail(s, plane)[i] == s.last());
                }
            }
        }
    }
}

/// Argument preservation: filtering an emitted primary motion command
/// by the letters the rewriter does not consume gives back exactly the
/// source command's arguments under that filter, in order and with
/// their values.
pub proof fn lemma_argument_preservation(
    c: CommandView,
    prev_angle: Option<i64>,
    st: GCodeState,
    dk: DragknifeState,
    cfg: DragknifeConfig,
)
    requires
        c is Linear || c is Arc,
    ensures
        ({
            let out = spec_rewrite_one(c, prev_angle, st, dk, cfg).0;
            &&& out.len() > 0
            &&& spec_misc_tail(out.last().arguments, st.plane) == spec_misc_tail(
                c.original().arguments,
                st.plane,
            )
        }),
{
    reveal(spec_rewrite_one);
    reveal_with_fuel(Seq::filter, 6);
    let out = spec_rewrite_one(c, prev_angle, st, dk, cfg).0;
    let st1 = crate::types::spec_update_settings_state(c, st);
    let dk1 = spec_swivel_state(spec_swivel(prev_angle, c, st, cfg).len() > 0, st, dk);
    let feed = spec_feed_words(c, st1, dk1);
    let tail = spec_misc_tail(c.original().arguments, st.plane);
    let head = out.last().arguments.subrange(
        0,
        out.last().arguments.len() - feed.len() - tail.len(),
    );
    assert(out.last().arguments == head + feed + tail) by {
        assert(head + feed + tail =~= out.last().arguments);
    }
    assert(forall|i: int|
        0 <= i < head.len() ==> spec_excluded_letter((#[trigger] head[i]).letter, st.plane));
    lemma_misc_tail_none(head, st.plane);
    assert(forall|i: int|
        0 <= i < feed.len() ==> spec_excluded_letter((#[trigger] feed[i]).letter, st.plane));
    lemma_misc_tail_none(feed, st.plane);
    lemma_misc_tail_add(head + feed, tail, st.plane);
    lemma_misc_tail_add(head, feed, st.plane);
    lemma_misc_tail_idempotent(c.original().arguments, st.plane);
    assert((head + feed) + tail =~= head + feed + tail);
    assert(Seq::<Word>::empty() + Seq::<Word>::empty() =~= Seq::<Word>::empty());
    assert(Seq::<Word>::empty() + tail =~= tail);
}

/// Arc endpoint re-seating, exactly, for a target whose offset from
/// the centre lies along the `x` axis: the re-seated endpoint lies on
/// the circle of the start radius around the centre.  (For a general
/// offset direction the endpoint lies on that circle only up to the
/// fixed-point rounding of the normalization.)
pub proof fn lemma_arc_reseat_on_circle(
    g: GCodeView,
    start: Vec3,
    st: GCodeState,
    dir: ArcDirection,
)
    requires
        start.bounded_pos(),
        ({
            let target = spec_target(st, start, g);
            let center = spec_add3(start, spec_center_offset(st, g));
            let d = spec_sub3(target, center);
            let radius = spec_mag(spec_project(spec_sub3(start, center), st.plane));
            &&& center.bounded_pos()
            &&& d.y == 0
            &&& d.z == 0
            &&& d.x != 0
            &&& crate::math::spec_abs(center.x as int) + radius <= crate::math::MAX_POS
        }),
    ensures
        ({
            let c = spec_arc_record(g, start, st, dir);
            let center = spec_add3(start, spec_center_offset(st, g));
            let radius = spec_mag(spec_project(spec_sub3(start, center), st.plane));
            spec_mag2(spec_sub3(c->Arc_end, center)) == radius * radius
        }),
{
    let target = spec_target(st, start, g);
    let center = spec_add3(start, spec_center_offset(st, g));
    let d = spec_sub3(target, center);
    let dx = d.x as int;
    let ax = crate::math::spec_abs(dx);
    assert(spec_mag2(d) == dx * dx) by (nonlinear_arith)
        requires
            d.y as int == 0,
            d.z as int == 0,
            dx == d.x as int,
    ;
    assert(ax * ax == dx * dx && dx * dx < (ax + 1) * (ax + 1) && dx * dx > 0)
        by (nonlinear_arith)
        requires
            ax == crate::math::spec_abs(dx),
            dx != 0,
    ;
    crate::vec3::lemma_isqrt_exists(spec_mag2(d));
    crate::math::lemma_isqrt_unique(spec_mag2(d), ax, crate::vec3::spec_isqrt(spec_mag2(d)));
    assert(spec_mag(d) == ax);
    let nv = spec_normalized(d);
    if dx > 0 {
        vstd::arithmetic::div_mod::lemma_div_multiples_vanish(ONE as int, dx);
        assert((dx * (ONE as int)) / dx == ONE);
        assert(nv.x == ONE);
    } else {
        vstd::arithmetic::div_mod::lemma_div_multiples_vanish(ONE as int, -dx);
        assert(((-dx) * (ONE as int)) / (-dx) == ONE);
        assert(-(dx * (ONE as int)) == (-dx) * (ONE as int)) by (nonlinear_arith);
        assert(nv.x == -ONE);
    }
    assert(0 * (ONE as int) == 0) by (nonlinear_arith);
    vstd::arithmetic::div_mod::lemma_basic_div(0, ax);
    assert(nv.y == 0 && nv.z == 0);
    let pd = spec_project(spec_sub3(start, center), st.plane);
    lemma_square_nonneg(pd.x as int);
    lemma_square_nonneg(pd.y as int);
    lemma_square_nonneg(pd.z as int);
    crate::vec3::lemma_isqrt_exists(spec_mag2(pd));
    let radius = spec_mag(pd);
    assert(radius >= 0);
    let scaled = spec_scale3(nv, radius, ONE as int);
    vstd::arithmetic::div_mod::lemma_div_multiples_vanish(radius, ONE as int);
    assert(((ONE as int) * radius) / (ONE as int) == radius);
    if dx > 0 {
        assert(scaled.x == radius);
    } else {
        assert(-((-(ONE as int)) * radius) == (ONE as int) * radius) by (nonlinear_arith);
        assert(scaled.x == -radius);
    }
    assert(0 * radius == 0) by (nonlinear_arith);
    vstd::arithmetic::div_mod::lemma_basic_div(0, ONE as int);
    assert(scaled.y == 0 && scaled.z == 0);
    let end_pre = spec_add3(scaled, center);
    let end = spec_sat3(end_pre);
    assert(end.x == center.x + scaled.x && end.y == center.y && end.z == center.z);
    let back = spec_sub3(end, center);
    assert(back.x == scaled.x && back.y == 0 && back.z == 0);
    assert(spec_mag2(back) == radius * radius) by (nonlinear_arith)
        requires
            back.y as int == 0,
            back.z as int == 0,
            back.x as int == radius || back.x as int == -radius,
    ;
    let c = spec_arc_record(g, start, st, dir);
    assert(c->Arc_end == end);
}

/// An emitted cutting move reads back: resolving the command whose
/// arguments are the two in-plane targets, at most one `F` word and a
/// tail of non-consumed letters, in millimetre absolute mode on the
/// same plane, gives back exactly the written in-plane target, and its
/// `F` value is the written one.
proof fn lemma_command_reads_back(
    g: GCodeView,
    feed: Seq<Word>,
    tail: Seq<Word>,
    t0: i64,
    t1: i64,
    s2: Vec3,
    st2: GCodeState,
)
    requires
        st2.unit is Millimeters,
        st2.positioning is Absolute,
        g.arguments == seq![
            Word {
                letter: crate::types::spec_main_name(crate::types::spec_axis_1(st2.plane)),
                value: t0,
            },
            Word {
                letter: crate::types::spec_main_name(crate::types::spec_axis_2(st2.plane)),
                value: t1,
            },
        ] + feed + tail,
        feed.len() <= 1,
        feed.len() == 1 ==> feed[0].letter == 'F',
        forall|i: int|
            0 <= i < tail.len() ==> !spec_excluded_letter((#[trigger] tail[i]).letter, st2.plane),
        -crate::math::MAX_POS <= t0 <= crate::math::MAX_POS,
        -crate::math::MAX_POS <= t1 <= crate::math::MAX_POS,
    ensures
        crate::vec3::spec_coords(spec_target(st2, s2, g), st2.plane).0 == t0,
        crate::vec3::spec_coords(spec_target(st2, s2, g), st2.plane).1 == t1,
        g.value_for('F') == (if feed.len() == 1 {
            Some(feed[0].value)
        } else {
            None::<i64>
        }),
{
    let plane = st2.plane;
    let m1 = crate::types::spec_main_name(crate::types::spec_axis_1(plane));
    let m2 = crate::types::spec_main_name(crate::types::spec_axis_2(plane));
    let w1 = Word { letter: m1, value: t0 };
    let w2 = Word { letter: m2, value: t1 };
    let args2 = g.arguments;
    assert(args2[0] == w1 && args2[1] == w2);
    assert(m1 != 'F' && m2 != 'F' && m1 != m2) by {
        match plane {
            crate::types::GCodePlane::XY => {},
            crate::types::GCodePlane::ZX => {},
            crate::types::GCodePlane::YZ => {},
        }
    }
    assert(crate::command::first_value(args2, m1) == Some(w1.value));
    assert(args2.drop_first()[0] == args2[1]);
    assert(crate::command::first_value(args2, m2) == Some(w2.value)) by {
        assert(crate::command::first_value(args2, m2) == crate::command::first_value(
            args2.drop_first(),
            m2,
        ));
    }
    let rest = args2.drop_first().drop_first();
    assert(rest =~= feed + tail);
    assert(crate::command::first_value(args2, 'F') == crate::command::first_value(
        args2.drop_first(),
        'F',
    ));
    assert(args2.drop_first()[0].letter != 'F');
    assert(crate::command::first_value(args2.drop_first(), 'F') == crate::command::first_value(
        rest,
        'F',
    ));
    if feed.len() == 1 {
        assert(rest[0] == feed[0]);
        assert(crate::command::first_value(rest, 'F') == Some(feed[0].value));
    } else {
        assert(rest =~= tail);
        assert(forall|i: int| 0 <= i < tail.len() ==> (#[trigger] tail[i]).letter != 'F');
        crate::command::lemma_first_value_absent(tail, 'F');
    }
    crate::types::lemma_scale_mm_identity(t0 as int);
    crate::types::lemma_scale_mm_identity(t1 as int);
    let end2 = spec_target(st2, s2, g);
    match plane {
        crate::types::GCodePlane::XY => {
            assert(g.value_for('X') == Some(w1.value) && g.value_for('Y') == Some(w2.value));
            assert(end2.x == t0 && end2.y == t1);
        },
        crate::types::GCodePlane::ZX => {
            assert(g.value_for('Z') == Some(w1.value) && g.value_for('X') == Some(w2.value));
            assert(end2.z == t0 && end2.x == t1);
        },
        crate::types::GCodePlane::YZ => {
            assert(g.value_for('Y') == Some(w1.value) && g.value_for('Z') == Some(w2.value));
            assert(end2.y == t0 && end2.z == t1);
        },
    }
}

/// Rewriting is idempotent on emitted cutting moves: a command that a
/// rewrite pass emitted for a `Linear` record without a swivel, fed
/// back through the classifier (in millimetre, absolute mode, on the
/// same plane) and a rewriter with a zero knife offset and a half-turn
/// threshold, is emitted again letter for letter and value for value,
/// and the replay leaves the modal state's plane, unit and positioning
/// unchanged.
#[verifier::rlimit(100)]
pub proof fn lemma_rewrite_emission_idempotent_linear(
    original: GCodeView,
    start: Vec3,
    end: Vec3,
    angle: Option<i64>,
    prev1: Option<i64>,
    st1: GCodeState,
    dk1: DragknifeState,
    cfg1: DragknifeConfig,
    p2: Option<CommandView>,
    prev2: Option<i64>,
    st2: GCodeState,
    cfg0: DragknifeConfig,
)
    requires
        st1.unit is Millimeters,
        st2.unit is Millimeters,
        st2.positioning is Absolute,
        st2.plane == st1.plane,
        cfg0.knife_offset == 0,
        cfg0.sharp_angle_threshold >= HALF_TURN,
        spec_swivel(
            prev1,
            CommandView::Linear { original, start, end, angle },
            st1,
            cfg1,
        ).len() == 0,
        ({
            let target3d = match angle {
                Some(a) => spec_add3(
                    end,
                    spec_scale3(
                        crate::vec3::spec_unit_angle(a as int, st1.plane),
                        cfg1.knife_offset as int,
                        ONE as int,
                    ),
                ),
                None => end,
            };
            let t = crate::vec3::spec_coords(target3d, st1.plane);
            &&& -(crate::math::MAX_POS as int) <= t.0 <= crate::math::MAX_POS as int
            &&& -(crate::math::MAX_POS as int) <= t.1 <= crate::math::MAX_POS as int
        }),
    ensures
        ({
            let c = CommandView::Linear { original, start, end, angle };
            let chunk = spec_rewrite_one(c, prev1, st1, dk1, cfg1).0;
            let g = chunk.last();
            let c2 = spec_classify(g, p2, st2);
            &&& chunk.len() == 1
            &&& spec_rewrite_one(
                c2,
                prev2,
                st2,
                DragknifeState { next_feedrate: None::<i64> },
                cfg0,
            ).0 == chunk
            &&& spec_apply_modal(st2, g) == st2
            &&& crate::types::spec_update_settings_state(c2, st2).unit is Millimeters
            &&& crate::types::spec_update_settings_state(c2, st2).positioning is Absolute
            &&& crate::types::spec_update_settings_state(c2, st2).plane == st2.plane
        }),
{
    reveal(spec_rewrite_one);
    let c = CommandView::Linear { original, start, end, angle };
    let chunk = spec_rewrite_one(c, prev1, st1, dk1, cfg1).0;
    let plane = st1.plane;
    let st1p = crate::types::spec_update_settings_state(c, st1);
    let feed = spec_feed_words(c, st1p, dk1);
    let tail = spec_misc_tail(original.arguments, plane);
    let target3d = match angle {
        Some(a) => spec_add3(
            end,
            spec_scale3(
                crate::vec3::spec_unit_angle(a as int, st1.plane),
                cfg1.knife_offset as int,
                ONE as int,
            ),
        ),
        None => end,
    };
    let t = crate::vec3::spec_coords(target3d, plane);
    let m1 = crate::types::spec_main_name(crate::types::spec_axis_1(plane));
    let m2 = crate::types::spec_main_name(crate::types::spec_axis_2(plane));
    let w1 = Word { letter: m1, value: t.0 as i64 };
    let w2 = Word { letter: m2, value: t.1 as i64 };
    let g = chunk.last();
    assert(chunk.len() == 1);
    assert(g.arguments == seq![w1, w2] + feed + tail);
    // The feed words, if any, consist of one `F` argument.
    assert(feed.len() <= 1 && (feed.len() == 1 ==> feed[0].letter == 'F'));
    lemma_misc_tail_letters(original.arguments, plane);
    // Classify the emitted command again: it reads back its own target.
    let s2 = spec_prev_end_pos(p2);
    let c2 = spec_classify(g, p2, st2);
    let end2 = spec_target(st2, s2, g);
    lemma_command_reads_back(g, feed, tail, w1.value, w2.value, s2, st2);
    let t2 = crate::vec3::spec_coords(end2, plane);
    assert(t2.0 == t.0 && t2.1 == t.1);
    // Rewrite the re-classified record with the neutral configuration.
    let dk2 = DragknifeState { next_feedrate: None::<i64> };
    lemma_threshold_half_turn_no_swivel(prev2, c2, st2, cfg0);
    let st2p = crate::types::spec_update_settings_state(c2, st2);
    let target2 = match c2->Linear_angle {
        Some(a2) => spec_add3(
            end2,
            spec_scale3(
                crate::vec3::spec_unit_angle(a2 as int, st2.plane),
                cfg0.knife_offset as int,
                ONE as int,
            ),
        ),
        None => end2,
    };
    match c2->Linear_angle {
        Some(a2) => {
            lemma_zero_offset_scale(
                crate::vec3::spec_unit_angle(a2 as int, st2.plane),
                ONE as int,
            );
            assert(target2.x == end2.x && target2.y == end2.y && target2.z == end2.z);
        },
        None => {},
    }
    assert(crate::vec3::spec_coords(target2, plane) == t2);
    // The feed words of the replay equal the original feed words.
    let feed2 = spec_feed_words(c2, st2p, dk2);
    if feed.len() == 1 {
        assert(crate::types::spec_update_settings_flag(c2));
        crate::types::lemma_scale_mm_identity(feed[0].value as int);
        assert(st2p.feedrate == feed[0].value);
        assert(feed2 =~= feed);
    } else {
        assert(feed =~= Seq::<Word>::empty());
        assert(!crate::types::spec_update_settings_flag(c2));
        assert(feed2 =~= feed);
    }
    // The misc tail of the replay equals the original misc tail.
    lemma_argument_preservation(c, prev1, st1, dk1, cfg1);
    assert(spec_misc_tail(g.arguments, plane) == tail);
    // Assemble: the replay emits the same command.
    let out2 = spec_rewrite_one(c2, prev2, st2, dk2, cfg0).0;
    assert(out2.len() == 1);
    assert(out2.last().arguments == seq![w1, w2] + feed2 + tail);
    assert(out2.last() == g);
    assert(out2 =~= chunk);
}

/// Rewriting is idempotent on pass-through records: the command a
/// rewrite pass emitted for a non-cutting record (any `Other` that is
/// not itself shaped like a motion command or a dropped `G91`, a
/// `Home`, or a `Rapid`), fed back through the classifier and the
/// rewriter under any states and configurations, is emitted again
/// unchanged.
pub proof fn lemma_rewrite_emission_idempotent_passthrough(
    c: CommandView,
    prev1: Option<i64>,
    st1: GCodeState,
    dk1: DragknifeState,
    cfg1: DragknifeConfig,
    p2: Option<CommandView>,
    prev2: Option<i64>,
    st2: GCodeState,
    dk2: DragknifeState,
    cfg0: DragknifeConfig,
)
    requires
        c is Other || c is Home || c is Rapid,
        c is Other ==> !(c.original().mnemonic is General && (c.original().number == 0
            || c.original().number == 1 || c.original().number == 2 || c.original().number == 3
            || c.original().number == 28 || c.original().number == 91)),
        c is Home ==> c.original().is_g(28),
        c is Rapid ==> c.original().is_g(0),
    ensures
        ({
            let chunk = spec_rewrite_one(c, prev1, st1, dk1, cfg1).0;
            &&& chunk.len() == 1
            &&& spec_rewrite_one(
                spec_classify(chunk.last(), p2, st2),
                prev2,
                st2,
                dk2,
                cfg0,
            ).0 == chunk
        }),
{
    reveal(spec_rewrite_one);
    let chunk = spec_rewrite_one(c, prev1, st1, dk1, cfg1).0;
    assert(chunk =~= seq![c.original()]);
    let c2 = spec_classify(chunk.last(), p2, st2);
    let out2 = spec_rewrite_one(c2, prev2, st2, dk2, cfg0).0;
    assert(out2 =~= chunk);
}

/// Every square is non-negative.
proof fn lemma_square_nonneg(v: int)
    ensures
        v * v >= 0,
{
    assert(v * v >= 0) by (nonlinear_arith);
}

} // verus!
