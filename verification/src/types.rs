//! Modal interpreter state, configuration and motion records.

use vstd::prelude::*;

use crate::command::GCode;
use crate::command::GCodeView;
use crate::command::Mnemonic;
use crate::math::spec_mul_div;
use crate::math::spec_sat;
use crate::math::mul_div;
use crate::math::sat_pos;
use crate::math::MAX_ARG;
use crate::math::MAX_SCALED;
use crate::vec3::Vec3;

verus! {

/// The active length unit.  The unit factor (times 100) is 100 for
/// millimetres and 254 for inches; user-supplied values are multiplied
/// by it when read.
#[derive(Clone, Copy, Debug, PartialEq, Eq, Structural)]
pub enum GCodeUnit {
    Millimeters,
    Inches,
}

impl Default for GCodeUnit {
    fn default() -> (r: Self)
        ensures
            r is Millimeters,
    {
        GCodeUnit::Millimeters
    }
}

/// A machine axis, with its three argument-letter spellings.
#[derive(Clone, Copy, Debug, PartialEq, Eq, Structural)]
pub enum GCodeAxis {
    X,
    Y,
    Z,
}

/// The main coordinate letter of an axis.
pub open spec fn spec_main_name(axis: GCodeAxis) -> char {
    match axis {
        GCodeAxis::X => 'X',
        GCodeAxis::Y => 'Y',
        GCodeAxis::Z => 'Z',
    }
}

/// The arc-center-offset letter of an axis.
pub open spec fn spec_center_name(axis: GCodeAxis) -> char {
    match axis {
        GCodeAxis::X => 'I',
        GCodeAxis::Y => 'J',
        GCodeAxis::Z => 'K',
    }
}

/// The rotary-axis letter of an axis.
pub open spec fn spec_rotation_name(axis: GCodeAxis) -> char {
    match axis {
        GCodeAxis::X => 'A',
        GCodeAxis::Y => 'B',
        GCodeAxis::Z => 'C',
    }
}

impl GCodeAxis {
    pub fn main_name(&self) -> (r: char)
        ensures
            r == spec_main_name(*self),
    {
        match self {
            GCodeAxis::X => 'X',
            GCodeAxis::Y => 'Y',
            GCodeAxis::Z => 'Z',
        }
    }

    pub fn center_name(&self) -> (r: char)
        ensures
            r == spec_center_name(*self),
    {
        match self {
            GCodeAxis::X => 'I',
            GCodeAxis::Y => 'J',
            GCodeAxis::Z => 'K',
        }
    }

    pub fn rotation_name(&self) -> (r: char)
        ensures
            r == spec_rotation_name(*self),
    {
        match self {
            GCodeAxis::X => 'A',
            GCodeAxis::Y => 'B',
            GCodeAxis::Z => 'C',
        }
    }
}

/// The cut plane, selected by `G17` / `G18` / `G19`.
#[derive(Clone, Copy, Debug, PartialEq, Eq, Structural)]
pub enum GCodePlane {
    XY,
    ZX,
    YZ,
}

impl Default for GCodePlane {
    fn default() -> (r: Self)
        ensures
            r is XY,
    {
        GCodePlane::XY
    }
}

/// The first in-plane axis of a plane.
pub open spec fn spec_axis_1(plane: GCodePlane) -> GCodeAxis {
    match plane {
        GCodePlane::XY => GCodeAxis::X,
        GCodePlane::ZX => GCodeAxis::Z,
        GCodePlane::YZ => GCodeAxis::Y,
    }
}

/// The second in-plane axis of a plane.
pub open spec fn spec_axis_2(plane: GCodePlane) -> GCodeAxis {
    match plane {
        GCodePlane::XY => GCodeAxis::Y,
        GCodePlane::ZX => GCodeAxis::X,
        GCodePlane::YZ => GCodeAxis::Z,
    }
}

/// The out-of-plane axis of a plane.
pub open spec fn spec_axis_3(plane: GCodePlane) -> GCodeAxis {
    match plane {
        GCodePlane::XY => GCodeAxis::Z,
        GCodePlane::ZX => GCodeAxis::Y,
        GCodePlane::YZ => GCodeAxis::X,
    }
}

impl GCodePlane {
    pub fn axis_1(&self) -> (r: GCodeAxis)
        ensures
            r == spec_axis_1(*self),
    {
        match self {
            GCodePlane::XY => GCodeAxis::X,
            GCodePlane::ZX => GCodeAxis::Z,
            GCodePlane::YZ => GCodeAxis::Y,
        }
    }

    pub fn axis_2(&self) -> (r: GCodeAxis)
        ensures
            r == spec_axis_2(*self),
    {
        match self {
            GCodePlane::XY => GCodeAxis::Y,
            GCodePlane::ZX => GCodeAxis::X,
            GCodePlane::YZ => GCodeAxis::Z,
        }
    }

    pub fn axis_3(&self) -> (r: GCodeAxis)
        ensures
            r == spec_axis_3(*self),
    {
        match self {
            GCodePlane::XY => GCodeAxis::Z,
            GCodePlane::ZX => GCodeAxis::Y,
            GCodePlane::YZ => GCodeAxis::X,
        }
    }
}

/// Absolute or relative coordinate interpretation, `G90` / `G91`.
#[derive(Clone, Copy, Debug, PartialEq, Eq, Structural)]
pub enum GCodePositioning {
    Relative,
    Absolute,
}

impl Default for GCodePositioning {
    fn default() -> (r: Self)
        ensures
            r is Absolute,
    {
        GCodePositioning::Absolute
    }
}

/// The modal interpreter state accumulated while walking commands.
/// The feedrate is stored in internal micro-(mm/min).
#[derive(Clone, Copy, Debug, PartialEq, Eq, Structural)]
pub struct GCodeState {
    pub unit: GCodeUnit,
    pub plane: GCodePlane,
    pub positioning: GCodePositioning,
    pub feedrate: i64,
}

/// Default feedrate: 3000 mm/min, in micro-units.
pub const DEFAULT_FEEDRATE: i64 = 3_000_000_000;

impl GCodeState {
    /// The stored feedrate never leaves the scaled-argument range.
    pub open spec fn wf(self) -> bool {
        -MAX_SCALED <= self.feedrate <= MAX_SCALED
    }
}

impl Default for GCodeState {
    fn default() -> (r: Self)
        ensures
            r.unit is Millimeters,
            r.plane is XY,
            r.positioning is Absolute,
            r.feedrate == DEFAULT_FEEDRATE,
            r.wf(),
    {
        GCodeState {
            unit: GCodeUnit::Millimeters,
            plane: GCodePlane::XY,
            positioning: GCodePositioning::Absolute,
            feedrate: DEFAULT_FEEDRATE,
        }
    }
}

/// The unit factor times 100: user-supplied values are multiplied by
/// `spec_unit_factor / 100` when read into internal units.
pub open spec fn spec_unit_factor(unit: GCodeUnit) -> int {
    match unit {
        GCodeUnit::Millimeters => 100,
        GCodeUnit::Inches => 254,
    }
}

/// A user-supplied value scaled into internal units.
pub open spec fn spec_scale(v: int, unit: GCodeUnit) -> int {
    spec_mul_div(v, spec_unit_factor(unit), 100)
}

/// An internal value scaled back into the active unit, as emitted
/// feedrates are.
pub open spec fn spec_unscale(v: int, unit: GCodeUnit) -> int {
    spec_mul_div(v, 100, spec_unit_factor(unit))
}

/// Unit round-trip: a coordinate written under `G20` that denotes the
/// same length as its millimetre spelling (`v_in * 2.54 == v_mm`,
/// exactly) resolves to the same internal value, namely `v_mm`.
pub proof fn lemma_unit_round_trip(v_mm: int, v_in: int)
    requires
        v_in * 254 == v_mm * 100,
    ensures
        spec_scale(v_in, GCodeUnit::Inches) == v_mm,
        spec_scale(v_mm, GCodeUnit::Millimeters) == v_mm,
{
    if v_mm >= 0 {
        vstd::arithmetic::div_mod::lemma_div_multiples_vanish(v_mm, 100);
    } else {
        assert(-(v_mm * 100) == (-v_mm) * 100) by (nonlinear_arith);
        vstd::arithmetic::div_mod::lemma_div_multiples_vanish(-v_mm, 100);
    }
}

/// In millimetre mode scaling in or out changes nothing.
pub proof fn lemma_scale_mm_identity(v: int)
    ensures
        spec_scale(v, GCodeUnit::Millimeters) == v,
        spec_unscale(v, GCodeUnit::Millimeters) == v,
{
    if v >= 0 {
        vstd::arithmetic::div_mod::lemma_div_multiples_vanish(v, 100);
    } else {
        assert(-(v * 100) == (-v) * 100) by (nonlinear_arith);
        vstd::arithmetic::div_mod::lemma_div_multiples_vanish(-v, 100);
    }
}

/// One resolved target coordinate: an absent argument inherits the
/// cursor; in absolute mode a present one replaces it, in relative mode
/// it is added.  The result saturates at the admitted position range.
pub open spec fn spec_resolve_coord(
    cur: int,
    arg: Option<i64>,
    st: GCodeState,
) -> int {
    match arg {
        Some(v) => match st.positioning {
            GCodePositioning::Absolute => spec_sat(spec_scale(v as int, st.unit)),
            GCodePositioning::Relative => spec_sat(cur + spec_scale(v as int, st.unit)),
        },
        None => cur,
    }
}

/// The target position a command resolves to from a cursor position.
pub open spec fn spec_target(st: GCodeState, pos: Vec3, g: GCodeView) -> Vec3 {
    Vec3 {
        x: spec_resolve_coord(pos.x as int, g.value_for('X'), st) as i64,
        y: spec_resolve_coord(pos.y as int, g.value_for('Y'), st) as i64,
        z: spec_resolve_coord(pos.z as int, g.value_for('Z'), st) as i64,
    }
}

/// One arc-center-offset coordinate: absent arguments default to zero.
pub open spec fn spec_center_coord(arg: Option<i64>, st: GCodeState) -> int {
    match arg {
        Some(v) => spec_scale(v as int, st.unit),
        None => 0,
    }
}

/// The arc-center offset (from the motion's start point) a command
/// carries in its `I` / `J` / `K` arguments.
pub open spec fn spec_center_offset(st: GCodeState, g: GCodeView) -> Vec3 {
    Vec3 {
        x: spec_center_coord(g.value_for('I'), st) as i64,
        y: spec_center_coord(g.value_for('J'), st) as i64,
        z: spec_center_coord(g.value_for('K'), st) as i64,
    }
}

impl GCodeState {
    /// The unit factor times 100 (100 for mm, 254 for inches).
    pub fn unit_factor(&self) -> (r: i64)
        ensures
            r == spec_unit_factor(self.unit),
            r == 100 || r == 254,
    {
        match self.unit {
            GCodeUnit::Millimeters => 100,
            GCodeUnit::Inches => 254,
        }
    }

    /// Scale a user-supplied value into internal units.
    pub fn scale(&self, v: i64) -> (r: i64)
        requires
            -MAX_ARG <= v <= MAX_ARG,
        ensures
            r == spec_scale(v as int, self.unit),
            -MAX_SCALED <= r <= MAX_SCALED,
    {
        mul_div(v, self.unit_factor(), 100)
    }

    /// Scale an internal value back into the active unit, as emitted
    /// `F` arguments are.
    pub fn unscale(&self, v: i64) -> (r: i64)
        requires
            -MAX_SCALED <= v <= MAX_SCALED,
        ensures
            r == spec_unscale(v as int, self.unit),
            -MAX_SCALED <= r <= MAX_SCALED,
    {
        proof {
            let f = spec_unit_factor(self.unit);
            crate::math::lemma_trunc_div_bound(
                (v as int) * 100,
                f,
                (MAX_SCALED as int) * 100,
            );
            vstd::arithmetic::div_mod::lemma_div_multiples_vanish(MAX_SCALED as int, 100);
            if f != 100 {
                vstd::arithmetic::div_mod::lemma_div_is_ordered_by_denominator(
                    (MAX_SCALED as int) * 100,
                    100,
                    f,
                );
            }
        }
        mul_div(v, 100, self.unit_factor())
    }

    /// Resolve the target position of a motion command from the cursor
    /// position `pos`, per the active positioning mode and unit.
    pub fn get_target(&mut self, pos: Vec3, gcode: &GCode) -> (r: Vec3)
        requires
            gcode@.wf(),
            pos.bounded_pos(),
        ensures
            *final(self) == *old(self),
            r == spec_target(*old(self), pos, gcode@),
            r.bounded_pos(),
    {
        proof {
            if gcode@.value_for('X') is Some {
                crate::command::lemma_first_value_witness(gcode.arguments@, 'X');
            }
            if gcode@.value_for('Y') is Some {
                crate::command::lemma_first_value_witness(gcode.arguments@, 'Y');
            }
            if gcode@.value_for('Z') is Some {
                crate::command::lemma_first_value_witness(gcode.arguments@, 'Z');
            }
        }
        let x = match gcode.value_for('X') {
            Some(v) => match self.positioning {
                GCodePositioning::Absolute => sat_pos(self.scale(v)),
                GCodePositioning::Relative => sat_pos(pos.x + self.scale(v)),
            },
            None => pos.x,
        };
        let y = match gcode.value_for('Y') {
            Some(v) => match self.positioning {
                GCodePositioning::Absolute => sat_pos(self.scale(v)),
                GCodePositioning::Relative => sat_pos(pos.y + self.scale(v)),
            },
            None => pos.y,
        };
        let z = match gcode.value_for('Z') {
            Some(v) => match self.positioning {
                GCodePositioning::Absolute => sat_pos(self.scale(v)),
                GCodePositioning::Relative => sat_pos(pos.z + self.scale(v)),
            },
            None => pos.z,
        };
        Vec3 { x, y, z }
    }

    /// Read the arc-center offset from the command's `I` / `J` / `K`
    /// arguments, defaulting missing components to zero.
    pub fn get_center_offset(&self, gcode: &GCode) -> (r: Vec3)
        requires
            gcode@.wf(),
        ensures
            r == spec_center_offset(*self, gcode@),
            -MAX_SCALED <= r.x <= MAX_SCALED,
            -MAX_SCALED <= r.y <= MAX_SCALED,
            -MAX_SCALED <= r.z <= MAX_SCALED,
    {
        proof {
            if gcode@.value_for('I') is Some {
                crate::command::lemma_first_value_witness(gcode.arguments@, 'I');
            }
            if gcode@.value_for('J') is Some {
                crate::command::lemma_first_value_witness(gcode.arguments@, 'J');
            }
            if gcode@.value_for('K') is Some {
                crate::command::lemma_first_value_witness(gcode.arguments@, 'K');
            }
        }
        let x = match gcode.value_for('I') {
            Some(v) => self.scale(v),
            None => 0,
        };
        let y = match gcode.value_for('J') {
            Some(v) => self.scale(v),
            None => 0,
        };
        let z = match gcode.value_for('K') {
            Some(v) => self.scale(v),
            None => 0,
        };
        Vec3 { x, y, z }
    }
}

/// The lift policy of the swivel sequence: the target out-of-plane
/// coordinate is either `h` itself or the current coordinate plus `h`.
#[derive(Clone, Copy, Debug, PartialEq, Eq, Structural)]
pub enum LiftConfig {
    AbsoluteHeight(i64),
    RelativeHeight(i64),
}

impl Default for LiftConfig {
    fn default() -> (r: Self)
        ensures
            r == LiftConfig::RelativeHeight(1_000_000int as i64),
    {
        LiftConfig::RelativeHeight(1_000_000)
    }
}

/// The lift height the policy computes from the current out-of-plane
/// coordinate.
pub open spec fn spec_calcute_height(lc: LiftConfig, from: int) -> int {
    match lc {
        LiftConfig::AbsoluteHeight(h) => h as int,
        LiftConfig::RelativeHeight(h) => from + h,
    }
}

/// The height parameter carried by either policy.
pub open spec fn spec_lift_height(lc: LiftConfig) -> i64 {
    match lc {
        LiftConfig::AbsoluteHeight(h) => h,
        LiftConfig::RelativeHeight(h) => h,
    }
}

impl LiftConfig {
    /// The lift height for a swivel starting at out-of-plane
    /// coordinate `from`.
    pub fn calcute_height(&self, from: i64) -> (r: i64)
        requires
            -(i64::MAX as int) <= from + spec_lift_height(*self) <= i64::MAX as int,
        ensures
            r == spec_calcute_height(*self, from as int),
    {
        match self {
            LiftConfig::AbsoluteHeight(h) => *h,
            LiftConfig::RelativeHeight(h) => from + *h,
        }
    }

    /// A mutable handle on the height parameter.
    pub fn get_height_mut(&mut self) -> (r: &mut i64)
        ensures
            *r == spec_lift_height(*old(self)),
            *old(self) is AbsoluteHeight ==> *final(self) == LiftConfig::AbsoluteHeight(
                *final(r),
            ),
            *old(self) is RelativeHeight ==> *final(self) == LiftConfig::RelativeHeight(
                *final(r),
            ),
    {
        match self {
            LiftConfig::AbsoluteHeight(h) => h,
            LiftConfig::RelativeHeight(h) => h,
        }
    }
}

/// The user-facing parameter bundle of one rewrite.  All values are in
/// internal micro-units (mm, radians, mm/min).
#[derive(Clone, Copy, Debug, PartialEq, Eq, Structural)]
pub struct DragknifeConfig {
    pub knife_offset: i64,
    pub lift_config: LiftConfig,
    pub sharp_angle_threshold: i64,
    pub swivel_feedrate: i64,
}

impl Default for DragknifeConfig {
    fn default() -> (r: Self)
        ensures
            r.knife_offset == 0,
            r.lift_config == LiftConfig::RelativeHeight(1_000_000int as i64),
            r.sharp_angle_threshold == 0,
            r.swivel_feedrate == 0,
            r.wf(),
    {
        DragknifeConfig {
            knife_offset: 0,
            lift_config: LiftConfig::RelativeHeight(1_000_000),
            sharp_angle_threshold: 0,
            swivel_feedrate: 0,
        }
    }
}

impl DragknifeConfig {
    /// The parameter domains: a non-negative knife offset, a threshold
    /// within `[0, pi]`, and machine-limited magnitudes.
    pub open spec fn wf(self) -> bool {
        &&& 0 <= self.knife_offset <= MAX_ARG
        &&& 0 <= self.sharp_angle_threshold <= crate::angle::HALF_TURN
        &&& -MAX_ARG <= self.swivel_feedrate <= MAX_ARG
        &&& -MAX_ARG <= spec_lift_height(self.lift_config) <= MAX_ARG
    }

    pub fn new(
        knife_offset: i64,
        lift_config: LiftConfig,
        sharp_angle_threshold: i64,
        swivel_feedrate: i64,
    ) -> (r: DragknifeConfig)
        ensures
            r == (DragknifeConfig { knife_offset, lift_config, sharp_angle_threshold,
            swivel_feedrate }),
    {
        DragknifeConfig { knife_offset, lift_config, sharp_angle_threshold, swivel_feedrate }
    }
}

/// The state the rewriter carries across records: a pending feedrate
/// restore after a swivel, already divided by the unit factor.
#[derive(Clone, Copy, Debug, PartialEq, Eq, Structural)]
pub struct DragknifeState {
    pub next_feedrate: Option<i64>,
}

impl DragknifeState {
    pub open spec fn wf(self) -> bool {
        match self.next_feedrate {
            Some(f) => -MAX_SCALED <= f <= MAX_SCALED,
            None => true,
        }
    }
}

impl Default for DragknifeState {
    fn default() -> (r: Self)
        ensures
            r.next_feedrate is None,
            r.wf(),
    {
        DragknifeState { next_feedrate: None }
    }
}

/// The winding sense of an arc: `G2` is clockwise, `G3`
/// counter-clockwise.
#[derive(Clone, Copy, Debug, PartialEq, Eq, Structural)]
pub enum ArcDirection {
    CW,
    CCW,
}

/// A `G28` return to machine zero.
#[derive(Clone, Debug)]
pub struct HomeMovement {
    pub original: GCode,
    pub start: Vec3,
}

/// A `G0` rapid positioning move.
#[derive(Clone, Debug)]
pub struct RapidMovement {
    pub original: GCode,
    pub start: Vec3,
    pub end: Vec3,
}

/// A `G1` cutting move.  `angle` is the in-plane travel direction, or
/// `None` for a move with no in-plane displacement.
#[derive(Clone, Debug)]
pub struct LinearMovement {
    pub original: GCode,
    pub start: Vec3,
    pub end: Vec3,
    pub angle: Option<i64>,
}

/// A `G2` / `G3` arc move with its derived circle geometry and the
/// travel direction at both ends.
#[derive(Clone, Debug)]
pub struct ArcMovement {
    pub original: GCode,
    pub direction: ArcDirection,
    pub start: Vec3,
    pub end: Vec3,
    pub center: Vec3,
    pub start_angle: i64,
    pub end_angle: i64,
}

/// Any command that commands no motion; it keeps the position and
/// direction of its predecessor.
#[derive(Clone, Debug)]
pub struct OtherCommand {
    pub original: GCode,
    pub pos: Vec3,
    pub angle: Option<i64>,
}

/// A classified motion record.
#[derive(Clone, Debug)]
pub enum Command {
    Other(OtherCommand),
    Linear(LinearMovement),
    Arc(ArcMovement),
    Home(HomeMovement),
    Rapid(RapidMovement),
}

/// The mathematical image of a motion record.
pub ghost enum CommandView {
    Other { original: GCodeView, pos: Vec3, angle: Option<i64> },
    Linear { original: GCodeView, start: Vec3, end: Vec3, angle: Option<i64> },
    Arc {
        original: GCodeView,
        direction: ArcDirection,
        start: Vec3,
        end: Vec3,
        center: Vec3,
        start_angle: i64,
        end_angle: i64,
    },
    Home { original: GCodeView, start: Vec3 },
    Rapid { original: GCodeView, start: Vec3, end: Vec3 },
}

impl View for Command {
    type V = CommandView;

    open spec fn view(&self) -> CommandView {
        match self {
            Command::Other(c) => CommandView::Other {
                original: c.original@,
                pos: c.pos,
                angle: c.angle,
            },
            Command::Linear(c) => CommandView::Linear {
                original: c.original@,
                start: c.start,
                end: c.end,
                angle: c.angle,
            },
            Command::Arc(c) => CommandView::Arc {
                original: c.original@,
                direction: c.direction,
                start: c.start,
                end: c.end,
                center: c.center,
                start_angle: c.start_angle,
                end_angle: c.end_angle,
            },
            Command::Home(c) => CommandView::Home { original: c.original@, start: c.start },
            Command::Rapid(c) => CommandView::Rapid {
                original: c.original@,
                start: c.start,
                end: c.end,
            },
        }
    }
}

impl DeepView for Command {
    type V = CommandView;

    open spec fn deep_view(&self) -> CommandView {
        self.view()
    }
}

/// A centre position never exceeds a saturated position by more than
/// one scaled argument.
pub const MAX_CENTER: i64 = 1_002_540_000_000_000;

/// The largest angle a record can carry: an in-plane polar angle
/// shifted by at most a quarter turn.
pub const MAX_REC_ANGLE: i64 = 4_712_388;

/// A record angle, when present, is a polar angle shifted by at most a
/// quarter turn.
pub open spec fn angle_opt_wf(a: Option<i64>) -> bool {
    match a {
        Some(v) => -MAX_REC_ANGLE <= v <= MAX_REC_ANGLE,
        None => true,
    }
}

impl CommandView {
    /// The source command of the record.
    pub open spec fn original(self) -> GCodeView {
        match self {
            CommandView::Other { original, .. } => original,
            CommandView::Linear { original, .. } => original,
            CommandView::Arc { original, .. } => original,
            CommandView::Home { original, .. } => original,
            CommandView::Rapid { original, .. } => original,
        }
    }

    /// The position at which the motion begins.
    pub open spec fn start_pos(self) -> Vec3 {
        match self {
            CommandView::Other { pos, .. } => pos,
            CommandView::Linear { start, .. } => start,
            CommandView::Arc { start, .. } => start,
            CommandView::Home { start, .. } => start,
            CommandView::Rapid { start, .. } => start,
        }
    }

    /// The position at which the motion ends; a `Home` ends at machine
    /// zero.
    pub open spec fn end_pos(self) -> Vec3 {
        match self {
            CommandView::Other { pos, .. } => pos,
            CommandView::Linear { end, .. } => end,
            CommandView::Arc { end, .. } => end,
            CommandView::Home { .. } => crate::vec3::spec_zero(),
            CommandView::Rapid { end, .. } => end,
        }
    }

    /// The travel direction at the start of the motion, if defined.
    pub open spec fn start_angle(self) -> Option<i64> {
        match self {
            CommandView::Other { angle, .. } => angle,
            CommandView::Linear { angle, .. } => angle,
            CommandView::Arc { start_angle, .. } => Some(start_angle),
            CommandView::Home { .. } => None::<i64>,
            CommandView::Rapid { .. } => None::<i64>,
        }
    }

    /// The travel direction at the end of the motion, if defined.
    pub open spec fn end_angle(self) -> Option<i64> {
        match self {
            CommandView::Other { angle, .. } => angle,
            CommandView::Linear { angle, .. } => angle,
            CommandView::Arc { end_angle, .. } => Some(end_angle),
            CommandView::Home { .. } => None::<i64>,
            CommandView::Rapid { .. } => None::<i64>,
        }
    }

    /// Well-formedness of a record: the source command and every
    /// coordinate and angle stay within the admitted ranges.
    pub open spec fn wf(self) -> bool {
        &&& self.original().wf()
        &&& self.start_pos().bounded_pos()
        &&& self.end_pos().bounded_pos()
        &&& angle_opt_wf(self.start_angle())
        &&& angle_opt_wf(self.end_angle())
        &&& (self matches CommandView::Arc { center, .. } ==> center.bounded(MAX_CENTER as int))
    }
}

/// The modal-state update a command performs: `G17` / `G18` / `G19`
/// select the plane, `G20` / `G21` the unit, `G90` / `G91` the
/// positioning mode; everything else leaves the state unchanged.
pub open spec fn spec_apply_modal(st: GCodeState, g: GCodeView) -> GCodeState {
    if g.mnemonic is General {
        if g.number == 17 {
            GCodeState { plane: GCodePlane::XY, ..st }
        } else if g.number == 18 {
            GCodeState { plane: GCodePlane::ZX, ..st }
        } else if g.number == 19 {
            GCodeState { plane: GCodePlane::YZ, ..st }
        } else if g.number == 20 {
            GCodeState { unit: GCodeUnit::Inches, ..st }
        } else if g.number == 21 {
            GCodeState { unit: GCodeUnit::Millimeters, ..st }
        } else if g.number == 90 {
            GCodeState { positioning: GCodePositioning::Absolute, ..st }
        } else if g.number == 91 {
            GCodeState { positioning: GCodePositioning::Relative, ..st }
        } else {
            st
        }
    } else {
        st
    }
}

impl OtherCommand {
    /// Apply the modal effect of the command to the interpreter state.
    pub fn update_settings(&self, settings: &mut GCodeState)
        ensures
            *final(settings) == spec_apply_modal(*old(settings), self.original@),
    {
        match self.original.mnemonic {
            Mnemonic::General => {
                let n = self.original.major_number();
                if n == 17 {
                    settings.plane = GCodePlane::XY;
                } else if n == 18 {
                    settings.plane = GCodePlane::ZX;
                } else if n == 19 {
                    settings.plane = GCodePlane::YZ;
                } else if n == 20 {
                    settings.unit = GCodeUnit::Inches;
                } else if n == 21 {
                    settings.unit = GCodeUnit::Millimeters;
                } else if n == 90 {
                    settings.positioning = GCodePositioning::Absolute;
                } else if n == 91 {
                    settings.positioning = GCodePositioning::Relative;
                }
            },
            _ => {},
        }
    }
}

/// The interpreter-state update of a record during the rewrite pass:
/// a non-motion record applies its modal effect; a motion record whose
/// source carries an `F` argument sets the feedrate.
pub open spec fn spec_update_settings_state(c: CommandView, st: GCodeState) -> GCodeState {
    match c {
        CommandView::Other { original, .. } => spec_apply_modal(st, original),
        _ => match c.original().value_for('F') {
            Some(f) => GCodeState {
                feedrate: spec_scale(f as int, st.unit) as i64,
                ..st
            },
            None => st,
        },
    }
}

/// Whether the record reports a feedrate change to the rewriter.
pub open spec fn spec_update_settings_flag(c: CommandView) -> bool {
    !(c is Other) && c.original().value_for('F') is Some
}

impl Command {
    /// The source command of the record.
    pub fn original(&self) -> (r: &GCode)
        ensures
            r@ == self@.original(),
    {
        match self {
            Command::Other(command) => &command.original,
            Command::Linear(command) => &command.original,
            Command::Arc(command) => &command.original,
            Command::Home(command) => &command.original,
            Command::Rapid(command) => &command.original,
        }
    }

    /// Apply the record's modal or feedrate effect to the interpreter
    /// state; the result reports whether the feedrate changed.
    pub fn update_settings(&self, settings: &mut GCodeState) -> (r: bool)
        requires
            self@.original().wf(),
        ensures
            *final(settings) == spec_update_settings_state(self@, *old(settings)),
            r == spec_update_settings_flag(self@),
            old(settings).wf() ==> final(settings).wf(),
    {
        match self {
            Command::Other(command) => {
                command.update_settings(settings);
                false
            },
            _ => {
                proof {
                    if self@.original().value_for('F') is Some {
                        crate::command::lemma_first_value_witness(self@.original().arguments, 'F');
                    }
                }
                if let Some(feedrate) = self.original().value_for('F') {
                    settings.feedrate = settings.scale(feedrate);
                    true
                } else {
                    false
                }
            },
        }
    }
}

/// The shared behaviour surface of motion records: positions and
/// tangents at both ends.
pub trait Movement {
    /// The position at which the motion begins.
    spec fn spec_start_pos(&self) -> Vec3;

    /// The position at which the motion ends.
    spec fn spec_end_pos(&self) -> Vec3;

    /// The travel direction at the start, if defined.
    spec fn spec_start_angle(&self) -> Option<i64>;

    /// The travel direction at the end, if defined.
    spec fn spec_end_angle(&self) -> Option<i64>;

    fn start_pos(&self) -> (r: Vec3)
        ensures
            r == self.spec_start_pos(),
    ;

    fn end_pos(&self) -> (r: Vec3)
        ensures
            r == self.spec_end_pos(),
    ;

    fn start_angle(&self) -> (r: Option<i64>)
        ensures
            r == self.spec_start_angle(),
    ;

    fn end_angle(&self) -> (r: Option<i64>)
        ensures
            r == self.spec_end_angle(),
    ;
}

impl Movement for Command {
    open spec fn spec_start_pos(&self) -> Vec3 {
        self@.start_pos()
    }

    open spec fn spec_end_pos(&self) -> Vec3 {
        self@.end_pos()
    }

    open spec fn spec_start_angle(&self) -> Option<i64> {
        self@.start_angle()
    }

    open spec fn spec_end_angle(&self) -> Option<i64> {
        self@.end_angle()
    }

    fn start_pos(&self) -> (r: Vec3) {
        match self {
            Command::Other(movement) => movement.pos,
            Command::Linear(movement) => movement.start,
            Command::Arc(movement) => movement.start,
            Command::Home(movement) => movement.start,
            Command::Rapid(movement) => movement.start,
        }
    }

    fn end_pos(&self) -> (r: Vec3) {
        match self {
            Command::Other(movement) => movement.pos,
            Command::Linear(movement) => movement.end,
            Command::Arc(movement) => movement.end,
            Command::Home(_) => Vec3::zero(),
            Command::Rapid(movement) => movement.end,
        }
    }

    fn start_angle(&self) -> (r: Option<i64>) {
        match self {
            Command::Other(movement) => movement.angle,
            Command::Linear(movement) => movement.angle,
            Command::Arc(movement) => Some(movement.start_angle),
            Command::Home(_) => None,
            Command::Rapid(_) => None,
        }
    }

    fn end_angle(&self) -> (r: Option<i64>) {
        match self {
            Command::Other(movement) => movement.angle,
            Command::Linear(movement) => movement.angle,
            Command::Arc(movement) => Some(movement.end_angle),
            Command::Home(_) => None,
            Command::Rapid(_) => None,
        }
    }
}

/// The start of a path: no prior record means machine zero and no
/// prior direction.
impl Movement for Option<&Command> {
    open spec fn spec_start_pos(&self) -> Vec3 {
        match self {
            Some(c) => c@.start_pos(),
            None => crate::vec3::spec_zero(),
        }
    }

    open spec fn spec_end_pos(&self) -> Vec3 {
        match self {
            Some(c) => c@.end_pos(),
            None => crate::vec3::spec_zero(),
        }
    }

    open spec fn spec_start_angle(&self) -> Option<i64> {
        match self {
            Some(c) => c@.start_angle(),
            None => None::<i64>,
        }
    }

    open spec fn spec_end_angle(&self) -> Option<i64> {
        match self {
            Some(c) => c@.end_angle(),
            None => None::<i64>,
        }
    }

    fn start_pos(&self) -> (r: Vec3) {
        match self {
            Some(c) => c.start_pos(),
            None => Vec3::zero(),
        }
    }

    fn end_pos(&self) -> (r: Vec3) {
        match self {
            Some(c) => c.end_pos(),
            None => Vec3::zero(),
        }
    }

    fn start_angle(&self) -> (r: Option<i64>) {
        match self {
            Some(c) => c.start_angle(),
            None => None,
        }
    }

    fn end_angle(&self) -> (r: Option<i64>) {
        match self {
            Some(c) => c.end_angle(),
            None => None,
        }
    }
}

} // verus!
