//! The turtle interpreter: commands, trails and the recording state
//! machine.
//!
//! A script is an ordered tree of [`Step`] values. Running it mutates a
//! [`TurtleState`] — heading, position, a pose stack, the current trail and
//! the journey of sealed trails — and records path instructions into the
//! trail that is current while the pen is down. The whole execution is
//! described exactly, step by step, by the specification function
//! [`state_after_seq`] over the ghost image [`StateV`] of the state.

use vstd::prelude::*;

use crate::units::{
    atan2_units, clamp_coord, cosine_units, lemma_norm_angle_range, norm_angle, sat, scale_by_trig,
    sine_units, Angle, Distance, Pt, Thickness, Units, COORD_LIMIT, FULL_TURN_UNITS,
    QUARTER_TURN_UNITS,
};
use crate::units::atan2_exec;

verus! {

/// The ghost image of a [`Style`]: its color as a character sequence and
/// its stroke width.
#[verifier::ext_equal]
pub ghost struct StyleV {
    pub color: Seq<char>,
    pub width: int,
}

/// The ghost image of a [`PathIns`].
#[verifier::ext_equal]
pub ghost enum InsV {
    MoveTo { x: int, y: int },
    LineTo { x: int, y: int },
    Arc { center_x: int, center_y: int, radius: int, start_angle: int, end_angle: int },
}

/// The ghost image of a [`Trail`].
#[verifier::ext_equal]
pub ghost struct TrailV {
    pub style: StyleV,
    pub path: Seq<InsV>,
}

/// A saved pose: heading and position.
#[verifier::ext_equal]
pub ghost struct PoseV {
    pub heading: int,
    pub x: int,
    pub y: int,
}

/// The ghost image of a [`TurtleState`].
#[verifier::ext_equal]
pub ghost struct StateV {
    pub heading: int,
    pub x: int,
    pub y: int,
    pub saved: Seq<PoseV>,
    pub journey: Seq<TrailV>,
    pub current: TrailV,
    pub drawing: bool,
}

/// A named color and a stroke width. Attached to a trail when the pen goes
/// down; immutable afterwards.
#[derive(Clone, Debug, PartialEq)]
pub struct Style {
    pub color: String,
    pub width: Thickness,
}

impl View for Style {
    type V = StyleV;

    open spec fn view(&self) -> StyleV {
        StyleV { color: self.color@, width: self.width as int }
    }
}

/// The default style: black, width one.
pub open spec fn default_style_v() -> StyleV {
    StyleV { color: "black"@, width: 1 }
}

impl Default for Style {
    /// Black, width one.
    fn default() -> (s: Self)
        ensures
            s@ == default_style_v(),
    {
        Style { color: "black".to_owned(), width: 1 }
    }
}

/// One recorded path instruction. Angles are absolute angle units, not
/// deltas; the arc's radius is a clamped distance.
#[derive(Clone, Debug, PartialEq)]
pub enum PathIns {
    MoveTo { x: Units, y: Units },
    LineTo { x: Units, y: Units },
    Arc { center_x: Units, center_y: Units, radius: Distance, start_angle: Units, end_angle: Units },
}

impl View for PathIns {
    type V = InsV;

    open spec fn view(&self) -> InsV {
        match *self {
            PathIns::MoveTo { x, y } => InsV::MoveTo { x: x as int, y: y as int },
            PathIns::LineTo { x, y } => InsV::LineTo { x: x as int, y: y as int },
            PathIns::Arc { center_x, center_y, radius, start_angle, end_angle } => InsV::Arc {
                center_x: center_x as int,
                center_y: center_y as int,
                radius: radius as int,
                start_angle: start_angle as int,
                end_angle: end_angle as int,
            },
        }
    }
}

/// A style together with the ordered path instructions recorded under it.
#[derive(Clone, Debug, PartialEq)]
pub struct Trail {
    pub style: Style,
    pub path: Vec<PathIns>,
}

impl View for Trail {
    type V = TrailV;

    open spec fn view(&self) -> TrailV {
        TrailV { style: self.style@, path: self.path@.map_values(|i: PathIns| i@) }
    }
}

/// One command of a script. `Repeat` wraps a single command — usually a
/// `Perform` group — and runs it `count` times; `Perform` runs its list in
/// order against the same state.
#[derive(Debug)]
pub enum Step {
    /// Set the position; while drawing, break line continuity with a move.
    Teleport(Pt),
    /// Turn the heading toward a point; no motion, nothing recorded.
    LookTo(Pt),
    /// Advance along the heading; while drawing, record a line.
    Go(Distance),
    /// Turn the heading by an angle; nothing recorded.
    Turn(Angle),
    /// Start (or restyle) drawing: seal the previous trail if one was ever
    /// begun, open a trail with this style, record a move to the position.
    PenDown(Style),
    /// Stop drawing. The in-progress trail is sealed only by the next
    /// `PenDown`, or when the run ends.
    PenUp,
    /// Push the pose onto the stack.
    Save,
    /// Pop the pose stack; on an empty stack a no-op. While drawing, record
    /// a move to the restored position.
    Restore,
    /// Sweep along a circular arc of radius `distance`, turning by `arc`.
    Pivot { distance: Distance, arc: Angle },
    /// Run the wrapped command `count` times.
    Repeat { count: u8, step: Box<Step> },
    /// Run the commands in order.
    Perform { steps: Vec<Step> },
}

/// Coordinates, on the state and on the saved poses, stay within the
/// representable range.
pub open spec fn wf_state(st: StateV) -> bool {
    &&& -COORD_LIMIT <= st.x <= COORD_LIMIT
    &&& -COORD_LIMIT <= st.y <= COORD_LIMIT
    &&& forall|i: int|
        0 <= i < st.saved.len() ==> {
            &&& -COORD_LIMIT <= (#[trigger] st.saved[i]).x <= COORD_LIMIT
            &&& -COORD_LIMIT <= st.saved[i].y <= COORD_LIMIT
        }
}

/// The state a run begins in: the given pose, clamped into the coordinate
/// range, an empty stack and journey, an empty default-styled trail, pen
/// up.
pub open spec fn init_state(heading: int, x: int, y: int) -> StateV {
    StateV {
        heading: heading,
        x: sat(x),
        y: sat(y),
        saved: Seq::empty(),
        journey: Seq::empty(),
        current: (TrailV { style: default_style_v(), path: Seq::empty() }),
        drawing: false,
    }
}

/// Appends one instruction to the current trail — only while drawing.
pub open spec fn emit(st: StateV, ins: InsV) -> StateV {
    if st.drawing {
        StateV {
            current: (TrailV { style: st.current.style, path: st.current.path.push(ins) }),
            ..st
        }
    } else {
        st
    }
}

/// `Teleport`: the position becomes the clamped target; while drawing, a
/// move to it is recorded.
pub open spec fn teleport_spec(st: StateV, px: int, py: int) -> StateV {
    let moved = StateV { x: sat(px), y: sat(py), ..st };
    emit(moved, (InsV::MoveTo { x: moved.x, y: moved.y }))
}

/// `LookTo`: the heading turns toward the clamped target; nothing else
/// changes.
pub open spec fn look_to_spec(st: StateV, px: int, py: int) -> StateV {
    StateV { heading: norm_angle(atan2_units(sat(py) - st.y, sat(px) - st.x)), ..st }
}

/// `Go`: the position advances by the clamped distance along the heading;
/// while drawing, a line to the new position is recorded.
pub open spec fn go_spec(st: StateV, d: int) -> StateV {
    let moved = StateV {
        x: sat(st.x + scale_by_trig(sat(d), cosine_units(st.heading))),
        y: sat(st.y + scale_by_trig(sat(d), sine_units(st.heading))),
        ..st
    };
    emit(moved, (InsV::LineTo { x: moved.x, y: moved.y }))
}

/// `Turn`: the heading composes with the given angle.
pub open spec fn turn_spec(st: StateV, theta: int) -> StateV {
    StateV { heading: norm_angle(st.heading + theta), ..st }
}

/// `PenDown`: if the pen is down, or a trail was ever begun (its path is
/// never empty once a pen touched it), the current trail is sealed into the
/// journey and a fresh one opens with the new style; otherwise the waiting
/// empty trail merely takes the style. Drawing starts and a move to the
/// position is recorded.
pub open spec fn pen_down_spec(st: StateV, s: StyleV) -> StateV {
    let opened = if st.drawing || st.current.path.len() > 0 {
        StateV {
            journey: st.journey.push(st.current),
            current: (TrailV { style: s, path: Seq::empty() }),
            ..st
        }
    } else {
        StateV { current: (TrailV { style: s, path: st.current.path }), ..st }
    };
    let down = StateV { drawing: true, ..opened };
    emit(down, (InsV::MoveTo { x: st.x, y: st.y }))
}

/// `PenUp`: drawing stops; the in-progress trail stays where it is.
pub open spec fn pen_up_spec(st: StateV) -> StateV {
    StateV { drawing: false, ..st }
}

/// `Save`: the pose is pushed onto the stack.
pub open spec fn save_spec(st: StateV) -> StateV {
    StateV { saved: st.saved.push((PoseV { heading: st.heading, x: st.x, y: st.y })), ..st }
}

/// `Restore`: the pose stack pops into the pose; on an empty stack nothing
/// changes. While drawing, a move to the (possibly unchanged) position is
/// recorded.
pub open spec fn restore_spec(st: StateV) -> StateV {
    let popped = if st.saved.len() == 0 {
        st
    } else {
        StateV {
            heading: st.saved.last().heading,
            x: st.saved.last().x,
            y: st.saved.last().y,
            saved: st.saved.drop_last(),
            ..st
        }
    };
    emit(popped, (InsV::MoveTo { x: popped.x, y: popped.y }))
}

/// `Pivot`: the turtle sweeps along a circle of radius `distance`
/// (clamped), turning by `arc`. The tangent heading is the heading turned a
/// quarter turn toward the pivot side; the center sits one radius from the
/// position against the tangent direction; the destination sits one radius
/// from the center along the tangent turned by the arc. While drawing, a
/// positive arc records one forward arc; a non-positive arc records a move
/// to the destination, the arc with reversed ends, and the move again.
/// The heading then composes with the arc and the position becomes the
/// destination.
pub open spec fn pivot_spec(st: StateV, distance: int, arc: int) -> StateV {
    let tangent = if arc > 0 {
        norm_angle(st.heading - QUARTER_TURN_UNITS)
    } else {
        norm_angle(st.heading + QUARTER_TURN_UNITS)
    };
    let dist = sat(distance);
    let cx = sat(st.x - scale_by_trig(dist, cosine_units(tangent)));
    let cy = sat(st.y - scale_by_trig(dist, sine_units(tangent)));
    let dest_angle = norm_angle(tangent + arc);
    let x2 = sat(cx + scale_by_trig(dist, cosine_units(dest_angle)));
    let y2 = sat(cy + scale_by_trig(dist, sine_units(dest_angle)));
    let recorded = if arc > 0 {
        emit(
            st,
            (InsV::Arc {
                center_x: cx,
                center_y: cy,
                radius: dist,
                start_angle: tangent,
                end_angle: dest_angle,
            }),
        )
    } else {
        emit(
            emit(
                emit(st, (InsV::MoveTo { x: x2, y: y2 })),
                (InsV::Arc {
                    center_x: cx,
                    center_y: cy,
                    radius: dist,
                    start_angle: dest_angle,
                    end_angle: tangent,
                }),
            ),
            (InsV::MoveTo { x: x2, y: y2 }),
        )
    };
    StateV { heading: norm_angle(st.heading + arc), x: x2, y: y2, ..recorded }
}

/// The state after one command.
pub open spec fn state_after_step(st: StateV, step: Step) -> StateV
    decreases step, 0int, 0nat,
{
    match step {
        Step::Teleport(pt) => teleport_spec(st, pt.0 as int, pt.1 as int),
        Step::LookTo(pt) => look_to_spec(st, pt.0 as int, pt.1 as int),
        Step::Go(d) => go_spec(st, d as int),
        Step::Turn(theta) => turn_spec(st, theta@),
        Step::PenDown(s) => pen_down_spec(st, s@),
        Step::PenUp => pen_up_spec(st),
        Step::Save => save_spec(st),
        Step::Restore => restore_spec(st),
        Step::Pivot { distance, arc } => pivot_spec(st, distance as int, arc@),
        Step::Repeat { count, step } => repeat_spec(st, *step, count as nat),
        Step::Perform { steps } => state_after_seq(st, steps@),
    }
}

/// The state after a command has run `n` times.
pub open spec fn repeat_spec(st: StateV, step: Step, n: nat) -> StateV
    decreases step, 1int, n,
{
    if n == 0 {
        st
    } else {
        state_after_step(repeat_spec(st, step, (n - 1) as nat), step)
    }
}

/// The state after a whole script, run left to right.
pub open spec fn state_after_seq(st: StateV, steps: Seq<Step>) -> StateV
    decreases steps, 0int, 0nat,
{
    if steps.len() == 0 {
        st
    } else {
        state_after_step(state_after_seq(st, steps.drop_last()), steps.last())
    }
}

/// The trails a full run of the script yields: the sealed journey with the
/// in-progress trail appended last.
pub open spec fn run_script(st: StateV, steps: Seq<Step>) -> Seq<TrailV> {
    let fin = state_after_seq(st, steps);
    fin.journey.push(fin.current)
}

/// The turtle: heading, position, the pose stack, the journey of sealed
/// trails and the in-progress trail. One instance runs one script.
#[derive(Debug)]
pub struct TurtleState {
    heading: Angle,
    position: Pt,
    saved: Vec<(Angle, Pt)>,
    journey: Vec<Trail>,
    current: Trail,
    is_drawing: bool,
}

impl View for TurtleState {
    type V = StateV;

    closed spec fn view(&self) -> StateV {
        StateV {
            heading: self.heading@,
            x: self.position.0 as int,
            y: self.position.1 as int,
            saved: self.saved@.map_values(
                |e: (Angle, Pt)| PoseV { heading: e.0@, x: e.1.0 as int, y: e.1.1 as int },
            ),
            journey: self.journey@.map_values(|t: Trail| t@),
            current: self.current@,
            drawing: self.is_drawing,
        }
    }
}

impl Default for TurtleState {
    /// Heading zero, position at the origin, everything else empty.
    fn default() -> (t: Self)
        ensures
            t@ == init_state(0, 0, 0),
            wf_state(t@),
    {
        let t = TurtleState {
            heading: Angle::zero(),
            position: (0, 0),
            saved: Vec::new(),
            journey: Vec::new(),
            current: (Trail { style: Style::default(), path: Vec::new() }),
            is_drawing: false,
        };
        proof {
            assert(t@ =~~= init_state(0, 0, 0));
        }
        t
    }
}

impl TurtleState {
    /// A fresh turtle at the given pose; the position is clamped into the
    /// coordinate range.
    pub fn new(heading: Angle, position: Pt) -> (t: TurtleState)
        ensures
            t@ == init_state(heading@, position.0 as int, position.1 as int),
            wf_state(t@),
    {
        let mut turtle_state = TurtleState::default();
        turtle_state.heading = heading;
        turtle_state.position = (clamp_coord(position.0), clamp_coord(position.1));
        proof {
            assert(turtle_state@ =~~= init_state(heading@, position.0 as int, position.1 as int));
        }
        turtle_state
    }

    /// The current heading.
    pub fn heading(&self) -> (r: Angle)
        ensures
            r@ == self@.heading,
    {
        self.heading
    }

    /// The current position.
    pub fn position(&self) -> (r: Pt)
        ensures
            r.0 as int == self@.x,
            r.1 as int == self@.y,
    {
        self.position
    }

    /// The trails sealed so far, in the order they were sealed. The
    /// in-progress trail is not among them; [`TurtleState::run`] appends
    /// it.
    pub fn iter(&self) -> (r: &Vec<Trail>)
        ensures
            r@.map_values(|t: Trail| t@) == self@.journey,
    {
        &self.journey
    }

    /// Appends one instruction to the current trail while drawing.
    fn record(&mut self, ins: PathIns)
        ensures
            final(self)@ == emit(old(self)@, ins@),
    {
        if self.is_drawing {
            self.current.path.push(ins);
            proof {
                assert(self@ =~~= emit(old(self)@, ins@));
            }
        }
    }

    /// Sets the position, clamped.
    fn teleport(&mut self, pt: Pt)
        requires
            wf_state(old(self)@),
        ensures
            final(self)@ == (StateV { x: sat(pt.0 as int), y: sat(pt.1 as int), ..old(self)@ }),
            wf_state(final(self)@),
    {
        self.position = (clamp_coord(pt.0), clamp_coord(pt.1));
        proof {
            assert(self@ =~~= (StateV { x: sat(pt.0 as int), y: sat(pt.1 as int), ..old(self)@ }));
        }
    }

    /// Turns the heading toward a point, as [`look_to_spec`] describes.
    fn look_to(&mut self, pt: Pt)
        requires
            wf_state(old(self)@),
        ensures
            final(self)@ == look_to_spec(old(self)@, pt.0 as int, pt.1 as int),
            wf_state(final(self)@),
    {
        let tx = clamp_coord(pt.0);
        let ty = clamp_coord(pt.1);
        let h = atan2_exec(ty - self.position.1, tx - self.position.0);
        self.heading = Angle::new(h);
        proof {
            assert(self@ =~~= look_to_spec(old(self)@, pt.0 as int, pt.1 as int));
        }
    }

    /// Composes the heading with an angle.
    fn turn(&mut self, theta: Angle)
        requires
            wf_state(old(self)@),
        ensures
            final(self)@ == turn_spec(old(self)@, theta@),
            wf_state(final(self)@),
    {
        self.heading = self.heading.add(theta);
        proof {
            assert(self@ =~~= turn_spec(old(self)@, theta@));
        }
    }

    /// Advances the position along the heading, as the motion part of
    /// [`go_spec`] describes.
    fn go(&mut self, d: Distance)
        requires
            wf_state(old(self)@),
        ensures
            final(self)@ == (StateV {
                x: sat(old(self)@.x + scale_by_trig(sat(d as int), cosine_units(old(self)@.heading))),
                y: sat(old(self)@.y + scale_by_trig(sat(d as int), sine_units(old(self)@.heading))),
                ..old(self)@
            }),
            wf_state(final(self)@),
    {
        let dx = self.heading.cos_r(d);
        let dy = self.heading.sin_r(d);
        self.position = (clamp_coord(self.position.0 + dx), clamp_coord(self.position.1 + dy));
        proof {
            assert(self@ =~~= (StateV {
                x: sat(old(self)@.x + scale_by_trig(sat(d as int), cosine_units(old(self)@.heading))),
                y: sat(old(self)@.y + scale_by_trig(sat(d as int), sine_units(old(self)@.heading))),
                ..old(self)@
            }));
        }
    }

    /// Seals or restyles the trail, starts drawing and records a move, as
    /// [`pen_down_spec`] describes.
    fn pen_down(&mut self, style: Style)
        requires
            wf_state(old(self)@),
        ensures
            final(self)@ == pen_down_spec(old(self)@, style@),
            wf_state(final(self)@),
    {
        let p = self.position;
        if self.is_drawing || self.current.path.len() > 0 {
            let mut sealed = Trail { style, path: Vec::new() };
            core::mem::swap(&mut self.current, &mut sealed);
            self.journey.push(sealed);
        } else {
            self.current.style = style;
        }
        self.is_drawing = true;
        self.record(PathIns::MoveTo { x: p.0, y: p.1 });
        proof {
            assert(self@ =~~= pen_down_spec(old(self)@, style@));
        }
    }

    /// Pushes the pose onto the stack.
    fn save(&mut self)
        requires
            wf_state(old(self)@),
        ensures
            final(self)@ == save_spec(old(self)@),
            wf_state(final(self)@),
    {
        self.saved.push((self.heading, self.position));
        proof {
            assert(self@ =~~= save_spec(old(self)@));
        }
    }

    /// Pops the pose stack, as the popping part of [`restore_spec`]
    /// describes; on an empty stack nothing changes.
    fn restore(&mut self)
        requires
            wf_state(old(self)@),
        ensures
            final(self)@ == (if old(self)@.saved.len() == 0 {
                old(self)@
            } else {
                StateV {
                    heading: old(self)@.saved.last().heading,
                    x: old(self)@.saved.last().x,
                    y: old(self)@.saved.last().y,
                    saved: old(self)@.saved.drop_last(),
                    ..old(self)@
                }
            }),
            wf_state(final(self)@),
    {
        if let Some((ang, pos)) = self.saved.pop() {
            self.heading = ang;
            self.position = pos;
            proof {
                assert(self@ =~~= (StateV {
                    heading: old(self)@.saved.last().heading,
                    x: old(self)@.saved.last().x,
                    y: old(self)@.saved.last().y,
                    saved: old(self)@.saved.drop_last(),
                    ..old(self)@
                }));
            }
        } else {
            proof {
                assert(self@ =~~= old(self)@);
            }
        }
    }

    /// Sweeps along a circular arc, as [`pivot_spec`] describes.
    fn pivot(&mut self, distance: Distance, arc: Angle)
        requires
            wf_state(old(self)@),
        ensures
            final(self)@ == pivot_spec(old(self)@, distance as int, arc@),
            wf_state(final(self)@),
    {
        let tangent: Angle = if arc.value() > 0 {
            self.heading.subtract(Angle::quarter_turn())
        } else {
            self.heading.add(Angle::quarter_turn())
        };
        let dist = clamp_coord(distance);
        let cx = clamp_coord(self.position.0 - tangent.cos_r(dist));
        let cy = clamp_coord(self.position.1 - tangent.sin_r(dist));
        let dest_angle = tangent.add(arc);
        let x2 = clamp_coord(cx + dest_angle.cos_r(dist));
        let y2 = clamp_coord(cy + dest_angle.sin_r(dist));
        if arc.value() > 0 {
            self.record(
                PathIns::Arc {
                    center_x: cx,
                    center_y: cy,
                    radius: dist,
                    start_angle: tangent.value(),
                    end_angle: dest_angle.value(),
                },
            );
        } else {
            self.record(PathIns::MoveTo { x: x2, y: y2 });
            self.record(
                PathIns::Arc {
                    center_x: cx,
                    center_y: cy,
                    radius: dist,
                    start_angle: dest_angle.value(),
                    end_angle: tangent.value(),
                },
            );
            self.record(PathIns::MoveTo { x: x2, y: y2 });
        }
        self.heading = self.heading.add(arc);
        self.position = (x2, y2);
        proof {
            assert(self@ =~~= pivot_spec(old(self)@, distance as int, arc@));
        }
    }

    /// Executes one command against the state.
    fn play_step(&mut self, step: &Step)
        requires
            wf_state(old(self)@),
        ensures
            final(self)@ == state_after_step(old(self)@, *step),
            wf_state(final(self)@),
        decreases *step,
    {
        match step {
            Step::Teleport(pt) => {
                self.teleport(*pt);
                let p = self.position;
                self.record(PathIns::MoveTo { x: p.0, y: p.1 });
                proof {
                    assert(self@ =~~= teleport_spec(old(self)@, pt.0 as int, pt.1 as int));
                }
            },
            Step::LookTo(pt) => {
                self.look_to(*pt);
            },
            Step::Go(d) => {
                self.go(*d);
                let p = self.position;
                self.record(PathIns::LineTo { x: p.0, y: p.1 });
                proof {
                    assert(self@ =~~= go_spec(old(self)@, *d as int));
                }
            },
            Step::Turn(theta) => {
                self.turn(*theta);
            },
            Step::PenDown(s) => {
                let style = Style { color: s.color.clone(), width: s.width };
                self.pen_down(style);
            },
            Step::PenUp => {
                self.is_drawing = false;
                proof {
                    assert(self@ =~~= pen_up_spec(old(self)@));
                }
            },
            Step::Save => {
                self.save();
            },
            Step::Restore => {
                self.restore();
                let p = self.position;
                self.record(PathIns::MoveTo { x: p.0, y: p.1 });
                proof {
                    assert(self@ =~~= restore_spec(old(self)@));
                }
            },
            Step::Pivot { distance, arc } => {
                self.pivot(*distance, *arc);
            },
            Step::Repeat { count, step: body } => {
                let n: u8 = *count;
                let ghost st0 = self@;
                let mut k: u8 = 0;
                while k < n
                    invariant
                        k <= n,
                        wf_state(self@),
                        self@ == repeat_spec(st0, **body, k as nat),
                        decreases_to!(*step => **body),
                    decreases n - k,
                {
                    self.play_step(body);
                    k = k + 1;
                }
            },
            Step::Perform { steps } => {
                self.play_seq(steps.as_slice());
            },
        }
    }

    /// Executes the commands of a script in order.
    fn play_seq(&mut self, steps: &[Step])
        requires
            wf_state(old(self)@),
        ensures
            final(self)@ == state_after_seq(old(self)@, steps@),
            wf_state(final(self)@),
        decreases steps@,
    {
        let ghost st0 = self@;
        proof {
            assert(steps@.take(0int) =~= Seq::<Step>::empty());
        }
        let n = steps.len();
        let mut i: usize = 0;
        while i < n
            invariant
                i <= n,
                n == steps@.len(),
                wf_state(self@),
                self@ == state_after_seq(st0, steps@.take(i as int)),
            decreases n - i,
        {
            self.play_step(&steps[i]);
            proof {
                assert(steps@.take(i as int).push(steps@[i as int]) =~= steps@.take(i as int + 1));
                lemma_state_after_snoc(st0, steps@.take(i as int), steps@[i as int]);
            }
            i = i + 1;
        }
        proof {
            assert(steps@.take(n as int) =~= steps@);
        }
    }

    /// Runs a whole script against the state, left to right and depth
    /// first, as [`state_after_seq`] describes.
    pub fn journey(&mut self, steps: &[Step])
        requires
            wf_state(old(self)@),
        ensures
            final(self)@ == state_after_seq(old(self)@, steps@),
            wf_state(final(self)@),
    {
        self.play_seq(steps);
    }

    /// Runs a whole script and hands back every trail: the sealed journey
    /// in sealing order, with the in-progress trail appended last. Even an
    /// empty script yields one empty, default-styled trail.
    pub fn run(self, steps: &[Step]) -> (trails: Vec<Trail>)
        requires
            wf_state(self@),
        ensures
            trails@.map_values(|t: Trail| t@) == run_script(self@, steps@),
            trails@.len() >= 1,
    {
        let mut turtle = self;
        turtle.play_seq(steps);
        let mut trails = turtle.journey;
        trails.push(turtle.current);
        proof {
            assert(trails@.map_values(|t: Trail| t@) =~~= run_script(self@, steps@));
        }
        trails
    }
}

/// Running a script command by command composes: one more trailing command
/// maps the state once more.
pub proof fn lemma_state_after_snoc(st: StateV, steps: Seq<Step>, step: Step)
    ensures
        state_after_seq(st, steps.push(step)) == state_after_step(
            state_after_seq(st, steps),
            step,
        ),
{
    assert(steps.push(step).drop_last() =~= steps);
    assert(steps.push(step).last() == step);
}

/// With the pen down, a zero-length `Go` records a line to the very
/// position the turtle already holds; the pose — heading and position —
/// never changes. With the pen up it changes nothing at all.
pub proof fn lemma_go_zero(st: StateV)
    requires
        wf_state(st),
    ensures
        state_after_step(st, Step::Go(0)).heading == st.heading,
        state_after_step(st, Step::Go(0)).x == st.x,
        state_after_step(st, Step::Go(0)).y == st.y,
        st.drawing ==> state_after_step(st, Step::Go(0)).current.path == st.current.path.push(
            (InsV::LineTo { x: st.x, y: st.y }),
        ),
        !st.drawing ==> state_after_step(st, Step::Go(0)) == st,
{
    assert(scale_by_trig(sat(0), cosine_units(st.heading)) == 0);
    assert(scale_by_trig(sat(0), sine_units(st.heading)) == 0);
    if !st.drawing {
        assert(state_after_step(st, Step::Go(0)) =~~= st);
    }
}

/// Lifting the pen is idempotent: once the pen is up, further `PenUp`
/// commands change nothing — extra pen lifts never affect how many trails
/// a run yields.
pub proof fn lemma_pen_up_idempotent(st: StateV)
    ensures
        state_after_step(state_after_step(st, Step::PenUp), Step::PenUp) == state_after_step(
            st,
            Step::PenUp,
        ),
{
    assert(state_after_step(state_after_step(st, Step::PenUp), Step::PenUp) =~~= state_after_step(
        st,
        Step::PenUp,
    ));
}

/// `[Save, Turn(theta), Go(d), Restore]` returns heading and position
/// exactly to their pre-save values, whatever the turn and the distance.
pub proof fn lemma_save_restore_round_trip(st: StateV, theta: Angle, d: Distance)
    ensures
        ({
            let fin = state_after_seq(
                st,
                seq![Step::Save, Step::Turn(theta), Step::Go(d), Step::Restore],
            );
            &&& fin.heading == st.heading
            &&& fin.x == st.x
            &&& fin.y == st.y
        }),
{
    let s0 = Seq::<Step>::empty();
    let s1 = s0.push(Step::Save);
    let s2 = s1.push(Step::Turn(theta));
    let s3 = s2.push(Step::Go(d));
    let s4 = s3.push(Step::Restore);
    assert(seq![Step::Save, Step::Turn(theta), Step::Go(d), Step::Restore] =~= s4);
    lemma_state_after_snoc(st, s0, Step::Save);
    lemma_state_after_snoc(st, s1, Step::Turn(theta));
    lemma_state_after_snoc(st, s2, Step::Go(d));
    lemma_state_after_snoc(st, s3, Step::Restore);
    let st1 = state_after_step(st, Step::Save);
    let st2 = state_after_step(st1, Step::Turn(theta));
    let st3 = state_after_step(st2, Step::Go(d));
    assert(st3.saved == st.saved.push((PoseV { heading: st.heading, x: st.x, y: st.y })));
}

/// A pivot turns the heading by exactly its arc, composed as angle
/// addition composes it.
pub proof fn lemma_pivot_heading(st: StateV, distance: Distance, arc: Angle)
    ensures
        state_after_step(st, (Step::Pivot { distance, arc })).heading == norm_angle(
            st.heading + arc@,
        ),
{
}

/// An empty script leaves the state untouched, so a full run of it yields
/// exactly the one in-progress trail — on a fresh state, a single empty
/// default-styled trail.
pub proof fn lemma_empty_script(st: StateV)
    ensures
        state_after_seq(st, Seq::<Step>::empty()) == st,
        run_script(st, Seq::<Step>::empty()) == st.journey.push(st.current),
{
}

/// Sealed trails are never altered: a command only appends to the journey,
/// so no instruction ever leaks into a trail that was sealed before it ran.
pub proof fn lemma_sealed_trails_persist(st: StateV, step: Step)
    ensures
        state_after_step(st, step).journey.len() >= st.journey.len(),
        forall|i: int|
            0 <= i < st.journey.len() ==> state_after_step(st, step).journey[i] == st.journey[i],
    decreases step, 0int, 0nat,
{
    match step {
        Step::Repeat { count, step: body } => {
            lemma_sealed_trails_persist_repeat(st, *body, count as nat);
        },
        Step::Perform { steps } => {
            lemma_sealed_trails_persist_seq(st, steps@);
        },
        _ => {},
    }
}

/// The journey-only-grows property, across a repeated command.
pub proof fn lemma_sealed_trails_persist_repeat(st: StateV, step: Step, n: nat)
    ensures
        repeat_spec(st, step, n).journey.len() >= st.journey.len(),
        forall|i: int|
            0 <= i < st.journey.len() ==> repeat_spec(st, step, n).journey[i] == st.journey[i],
    decreases step, 1int, n,
{
    if n > 0 {
        lemma_sealed_trails_persist_repeat(st, step, (n - 1) as nat);
        lemma_sealed_trails_persist(repeat_spec(st, step, (n - 1) as nat), step);
    }
}

/// The journey-only-grows property, across a whole script.
pub proof fn lemma_sealed_trails_persist_seq(st: StateV, steps: Seq<Step>)
    ensures
        state_after_seq(st, steps).journey.len() >= st.journey.len(),
        forall|i: int|
            0 <= i < st.journey.len() ==> state_after_seq(st, steps).journey[i] == st.journey[i],
    decreases steps, 0int, 0nat,
{
    if steps.len() > 0 {
        lemma_sealed_trails_persist_seq(st, steps.drop_last());
        lemma_sealed_trails_persist(state_after_seq(st, steps.drop_last()), steps.last());
    }
}

/// The heading, on the state and on every saved pose, stays within one
/// full turn of zero.
pub open spec fn headings_wf(st: StateV) -> bool {
    &&& -FULL_TURN_UNITS <= st.heading <= FULL_TURN_UNITS
    &&& forall|i: int|
        0 <= i < st.saved.len() ==> -FULL_TURN_UNITS <= (#[trigger] st.saved[i]).heading
            <= FULL_TURN_UNITS
}

/// The heading is a normalized angle between any two state mutations:
/// every command leaves it, and every saved copy of it, within one full
/// turn of zero.
pub proof fn lemma_heading_stays_normalized(st: StateV, step: Step)
    requires
        headings_wf(st),
    ensures
        headings_wf(state_after_step(st, step)),
    decreases step, 0int, 0nat,
{
    match step {
        Step::LookTo(pt) => {
            lemma_norm_angle_range(atan2_units(sat(pt.1 as int) - st.y, sat(pt.0 as int) - st.x));
        },
        Step::Turn(theta) => {
            lemma_norm_angle_range(st.heading + theta@);
        },
        Step::Pivot { distance, arc } => {
            lemma_norm_angle_range(st.heading + arc@);
        },
        Step::Repeat { count, step: body } => {
            lemma_heading_stays_normalized_repeat(st, *body, count as nat);
        },
        Step::Perform { steps } => {
            lemma_heading_stays_normalized_seq(st, steps@);
        },
        _ => {},
    }
}

/// Heading normalization, preserved across a repeated command.
pub proof fn lemma_heading_stays_normalized_repeat(st: StateV, step: Step, n: nat)
    requires
        headings_wf(st),
    ensures
        headings_wf(repeat_spec(st, step, n)),
    decreases step, 1int, n,
{
    if n > 0 {
        lemma_heading_stays_normalized_repeat(st, step, (n - 1) as nat);
        lemma_heading_stays_normalized(repeat_spec(st, step, (n - 1) as nat), step);
    }
}

/// Heading normalization, preserved across a whole script.
pub proof fn lemma_heading_stays_normalized_seq(st: StateV, steps: Seq<Step>)
    requires
        headings_wf(st),
    ensures
        headings_wf(state_after_seq(st, steps)),
    decreases steps, 0int, 0nat,
{
    if steps.len() > 0 {
        lemma_heading_stays_normalized_seq(st, steps.drop_last());
        lemma_heading_stays_normalized(state_after_seq(st, steps.drop_last()), steps.last());
    }
}

/// Running a script is a pure function of the starting state and the
/// script: equal inputs yield equal trail lists, bit for bit.
pub proof fn lemma_run_deterministic(
    st1: StateV,
    st2: StateV,
    steps1: Seq<Step>,
    steps2: Seq<Step>,
)
    requires
        st1 == st2,
        steps1 == steps2,
    ensures
        run_script(st1, steps1) == run_script(st2, steps2),
{
}

} // verus!
