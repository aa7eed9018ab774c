//! Outline vectorizer: turns glyph draw events into a command stream and a
//! parallel fixed-stride coordinate stream.
//!
//! Every emitted command contributes exactly six coordinate slots. Quadratic
//! segments are degree-elevated to cubics by the exact algebraic identity
//! `c1 = p + 2/3 (q - p)`, `c2 = e + 2/3 (q - e)`, and every coordinate is
//! normalized into the unit em-square by the factor `1 / units_per_em`.
//!
//! To keep the arithmetic exact, coordinates are emitted as integer
//! numerators over the common denominator `3 * units_per_em` (or `3` when
//! the font reports no positive scale): a direct coordinate `x` becomes the
//! numerator `3 * x`, and an elevated control `(p + 2q) / 3 / units_per_em`
//! becomes the numerator `p + 2q`. Dividing each numerator by
//! [`TensorPen::denominator`] yields the normalized value.

use vstd::prelude::*;

verus! {

/// Command code of a subpath start.
pub const MOVE_TO_CODE: i32 = 1;

/// Command code of a line segment.
pub const LINE_TO_CODE: i32 = 2;

/// Command code of a cubic segment.
pub const CURVE_TO_CODE: i32 = 3;

/// Command code of a contour close.
pub const CLOSE_PATH_CODE: i32 = 4;

/// Command code of the stream terminator.
pub const END_CODE: i32 = 5;

/// One glyph outline draw event, with coordinates in font design units.
#[derive(Debug, Clone, Copy, PartialEq, Eq, Structural)]
pub enum DrawEvent {
    /// Begin a new contour at (x, y).
    MoveTo(i32, i32),
    /// Line from the current point to (x, y).
    LineTo(i32, i32),
    /// Quadratic segment with control (cx0, cy0) ending at (x, y).
    QuadTo(i32, i32, i32, i32),
    /// Cubic segment with controls (cx0, cy0), (cx1, cy1) ending at (x, y).
    CurveTo(i32, i32, i32, i32, i32, i32),
    /// Close the current contour.
    Close,
}

/// The em-square unit, with a non-positive scale defaulting to one.
pub open spec fn scale_unit(upem: u16) -> int {
    if upem > 0 {
        upem as int
    } else {
        1
    }
}

/// Common denominator of all emitted coordinate numerators.
pub open spec fn denominator_spec(upem: u16) -> int {
    3 * scale_unit(upem)
}

/// Six numerator slots of a command that carries one endpoint.
pub open spec fn endpoint_block(x: i32, y: i32) -> Seq<int> {
    seq![0, 0, 0, 0, 3 * (x as int), 3 * (y as int)]
}

/// Six numerator slots of a cubic segment given directly.
pub open spec fn curve_block(cx0: i32, cy0: i32, cx1: i32, cy1: i32, x: i32, y: i32) -> Seq<int> {
    seq![
        3 * (cx0 as int),
        3 * (cy0 as int),
        3 * (cx1 as int),
        3 * (cy1 as int),
        3 * (x as int),
        3 * (y as int),
    ]
}

/// Six numerator slots of a quadratic segment elevated to a cubic.
///
/// With current point `p`, control `q` and endpoint `e`, the elevated
/// controls are `(p + 2q) / 3` and `(e + 2q) / 3`; over the common
/// denominator their numerators are `p + 2q` and `e + 2q`. A quadratic with
/// no current point uses its own control as `p`.
pub open spec fn quad_block(cur: Option<(i32, i32)>, cx0: i32, cy0: i32, x: i32, y: i32) -> Seq<
    int,
> {
    let p = match cur {
        Some(p) => p,
        None => (cx0, cy0),
    };
    seq![
        p.0 as int + 2 * (cx0 as int),
        p.1 as int + 2 * (cy0 as int),
        x as int + 2 * (cx0 as int),
        y as int + 2 * (cy0 as int),
        3 * (x as int),
        3 * (y as int),
    ]
}

/// Six zero slots of a command that carries no coordinates.
pub open spec fn zero_block() -> Seq<int> {
    seq![0, 0, 0, 0, 0, 0]
}

/// The abstract state of a pen: the two streams, the current point and the
/// contour start.
pub struct PenModel {
    /// Command codes emitted so far.
    pub cmds: Seq<i32>,
    /// Coordinate numerators emitted so far.
    pub crds: Seq<int>,
    /// Current point, in font design units.
    pub cur: Option<(i32, i32)>,
    /// Start of the current contour, in font design units.
    pub start: Option<(i32, i32)>,
}

/// The state of a fresh pen.
pub open spec fn pen_init() -> PenModel {
    PenModel { cmds: Seq::empty(), crds: Seq::empty(), cur: None, start: None }
}

/// How one draw event advances the pen state.
pub open spec fn pen_step(m: PenModel, e: DrawEvent) -> PenModel {
    match e {
        DrawEvent::MoveTo(x, y) => PenModel {
            cmds: m.cmds.push(MOVE_TO_CODE),
            crds: m.crds + endpoint_block(x, y),
            cur: Some((x, y)),
            start: Some((x, y)),
        },
        DrawEvent::LineTo(x, y) => PenModel {
            cmds: m.cmds.push(LINE_TO_CODE),
            crds: m.crds + endpoint_block(x, y),
            cur: Some((x, y)),
            start: m.start,
        },
        DrawEvent::QuadTo(cx0, cy0, x, y) => PenModel {
            cmds: m.cmds.push(CURVE_TO_CODE),
            crds: m.crds + quad_block(m.cur, cx0, cy0, x, y),
            cur: Some((x, y)),
            start: m.start,
        },
        DrawEvent::CurveTo(cx0, cy0, cx1, cy1, x, y) => PenModel {
            cmds: m.cmds.push(CURVE_TO_CODE),
            crds: m.crds + curve_block(cx0, cy0, cx1, cy1, x, y),
            cur: Some((x, y)),
            start: m.start,
        },
        DrawEvent::Close => PenModel {
            cmds: m.cmds.push(CLOSE_PATH_CODE),
            crds: m.crds + zero_block(),
            cur: m.start,
            start: m.start,
        },
    }
}

/// The pen state after a sequence of draw events.
pub open spec fn pen_run(events: Seq<DrawEvent>) -> PenModel
    decreases events.len(),
{
    if events.len() == 0 {
        pen_init()
    } else {
        pen_step(pen_run(events.drop_last()), events.last())
    }
}

/// Runs a whole event sequence through a fresh pen and finishes it.
///
/// The result is exactly the finished encoding of the events: the command
/// codes of the events followed by one terminal `End`, and six coordinate
/// numerators per command over the denominator `denominator_spec(upem)`.
pub fn vectorize_events(events: &Vec<DrawEvent>, units_per_em: u16) -> (r: (Vec<i32>, Vec<i64>))
    ensures
        r.0@ == pen_run(events@).cmds.push(END_CODE),
        r.1@.map_values(|v: i64| v as int) == pen_run(events@).crds + zero_block(),
        r.0@.len() >= 1,
        r.1@.len() == 6 * r.0@.len(),
        r.0@[r.0@.len() - 1] == END_CODE,
        forall|i: int|
            0 <= i < r.0@.len() - 1 ==> 1 <= #[trigger] r.0@[i] <= 4 && r.0@[i] != END_CODE,
{
    let mut pen = TensorPen::new(units_per_em);
    proof {
        assert(events@.take(0) =~= Seq::<DrawEvent>::empty());
    }
    let mut i: usize = 0;
    while i < events.len()
        invariant
            i <= events@.len(),
            pen.wf(),
            pen.cmds() == pen_run(events@.take(i as int)).cmds,
            pen.crds() == pen_run(events@.take(i as int)).crds,
            pen.cur() == pen_run(events@.take(i as int)).cur,
            pen.start() == pen_run(events@.take(i as int)).start,
        decreases events@.len() - i,
    {
        let e = events[i];
        match e {
            DrawEvent::MoveTo(x, y) => pen.move_to(x, y),
            DrawEvent::LineTo(x, y) => pen.line_to(x, y),
            DrawEvent::QuadTo(cx0, cy0, x, y) => pen.quad_to(cx0, cy0, x, y),
            DrawEvent::CurveTo(cx0, cy0, cx1, cy1, x, y) => pen.curve_to(cx0, cy0, cx1, cy1, x, y),
            DrawEvent::Close => pen.close(),
        }
        proof {
            let t = events@.take(i as int + 1);
            assert(t.drop_last() =~= events@.take(i as int));
            assert(t.last() == events@[i as int]);
        }
        i = i + 1;
    }
    proof {
        assert(events@.take(events@.len() as int) =~= events@);
    }
    pen.finish()
}

/// Draw-event sink that accumulates the two parallel streams.
///
/// Single use: feed it the events of one glyph, then call
/// [`TensorPen::finish`].
pub struct TensorPen {
    commands: Vec<i32>,
    coords: Vec<i64>,
    units_per_em: u16,
    current: Option<(i32, i32)>,
    contour_start: Option<(i32, i32)>,
}

impl TensorPen {
    /// The command codes accumulated so far.
    pub closed spec fn cmds(&self) -> Seq<i32> {
        self.commands@
    }

    /// The coordinate numerators accumulated so far.
    pub closed spec fn crds(&self) -> Seq<int> {
        self.coords@.map_values(|v: i64| v as int)
    }

    /// The current point, in font design units.
    pub closed spec fn cur(&self) -> Option<(i32, i32)> {
        self.current
    }

    /// The start of the current contour, in font design units.
    pub closed spec fn start(&self) -> Option<(i32, i32)> {
        self.contour_start
    }

    /// The em-square scale the pen was created with.
    pub closed spec fn upem(&self) -> u16 {
        self.units_per_em
    }

    /// An unfinished pen: six coordinate slots per command, and no
    /// terminator yet.
    pub open spec fn wf(&self) -> bool {
        &&& self.crds().len() == 6 * self.cmds().len()
        &&& forall|i: int|
            0 <= i < self.cmds().len() ==> 1 <= #[trigger] self.cmds()[i] <= 4
    }

    /// A fresh pen with empty streams.
    pub fn new(units_per_em: u16) -> (r: TensorPen)
        ensures
            r.wf(),
            r.cmds() == Seq::<i32>::empty(),
            r.crds() == Seq::<int>::empty(),
            r.cur() is None,
            r.start() is None,
            r.upem() == units_per_em,
    {
        let r = TensorPen {
            commands: Vec::new(),
            coords: Vec::new(),
            units_per_em,
            current: None,
            contour_start: None,
        };
        proof {
            assert(r.crds() =~= Seq::<int>::empty());
        }
        r
    }

    /// The common denominator of all emitted numerators.
    pub fn denominator(&self) -> (r: i64)
        ensures
            r == denominator_spec(self.upem()),
            r >= 3,
    {
        if self.units_per_em > 0 {
            3 * (self.units_per_em as i64)
        } else {
            3
        }
    }

    /// Appends one command and its six numerator slots.
    fn push(&mut self, command: i32, values: [i64; 6])
        ensures
            final(self).cmds() == old(self).cmds().push(command),
            final(self).crds() == old(self).crds() + values@.map_values(|v: i64| v as int),
            final(self).cur() == old(self).cur(),
            final(self).start() == old(self).start(),
            final(self).upem() == old(self).upem(),
    {
        self.commands.push(command);
        self.coords.push(values[0]);
        self.coords.push(values[1]);
        self.coords.push(values[2]);
        self.coords.push(values[3]);
        self.coords.push(values[4]);
        self.coords.push(values[5]);
        proof {
            assert(self.coords@ =~= old(self).coords@ + values@);
            assert(self.crds() =~= old(self).crds() + values@.map_values(|v: i64| v as int));
        }
    }

    /// Appends a command whose only payload is its endpoint, which becomes
    /// the new current point.
    fn push_endpoint(&mut self, command: i32, x: i32, y: i32)
        ensures
            final(self).cmds() == old(self).cmds().push(command),
            final(self).crds() == old(self).crds() + endpoint_block(x, y),
            final(self).cur() == Some((x, y)),
            final(self).start() == old(self).start(),
            final(self).upem() == old(self).upem(),
    {
        self.push(command, [0, 0, 0, 0, 3 * (x as i64), 3 * (y as i64)]);
        self.current = Some((x, y));
        proof {
            assert(self.crds() =~= old(self).crds() + endpoint_block(x, y));
        }
    }

    /// Appends a cubic segment with the given numerator slots; the endpoint
    /// becomes the new current point.
    fn cubic(&mut self, values: [i64; 6], end_x: i32, end_y: i32)
        ensures
            final(self).cmds() == old(self).cmds().push(CURVE_TO_CODE),
            final(self).crds() == old(self).crds() + values@.map_values(|v: i64| v as int),
            final(self).cur() == Some((end_x, end_y)),
            final(self).start() == old(self).start(),
            final(self).upem() == old(self).upem(),
    {
        self.push(CURVE_TO_CODE, values);
        self.current = Some((end_x, end_y));
    }

    /// Begins a new contour at (x, y).
    pub fn move_to(&mut self, x: i32, y: i32)
        requires
            old(self).wf(),
        ensures
            final(self).wf(),
            final(self).cmds() == old(self).cmds().push(MOVE_TO_CODE),
            final(self).crds() == old(self).crds() + endpoint_block(x, y),
            final(self).cur() == Some((x, y)),
            final(self).start() == Some((x, y)),
            final(self).upem() == old(self).upem(),
    {
        self.push_endpoint(MOVE_TO_CODE, x, y);
        self.contour_start = Some((x, y));
    }

    /// Draws a line to (x, y).
    pub fn line_to(&mut self, x: i32, y: i32)
        requires
            old(self).wf(),
        ensures
            final(self).wf(),
            final(self).cmds() == old(self).cmds().push(LINE_TO_CODE),
            final(self).crds() == old(self).crds() + endpoint_block(x, y),
            final(self).cur() == Some((x, y)),
            final(self).start() == old(self).start(),
            final(self).upem() == old(self).upem(),
    {
        self.push_endpoint(LINE_TO_CODE, x, y);
    }

    /// Draws a quadratic segment, degree-elevated to a cubic.
    pub fn quad_to(&mut self, cx0: i32, cy0: i32, x: i32, y: i32)
        requires
            old(self).wf(),
        ensures
            final(self).wf(),
            final(self).cmds() == old(self).cmds().push(CURVE_TO_CODE),
            final(self).crds() == old(self).crds() + quad_block(old(self).cur(), cx0, cy0, x, y),
            final(self).cur() == Some((x, y)),
            final(self).start() == old(self).start(),
            final(self).upem() == old(self).upem(),
    {
        let (px, py) = match self.current {
            Some(p) => p,
            None => (cx0, cy0),
        };
        let c1x = px as i64 + 2 * (cx0 as i64);
        let c1y = py as i64 + 2 * (cy0 as i64);
        let c2x = x as i64 + 2 * (cx0 as i64);
        let c2y = y as i64 + 2 * (cy0 as i64);
        self.cubic([c1x, c1y, c2x, c2y, 3 * (x as i64), 3 * (y as i64)], x, y);
        proof {
            assert(self.crds() =~= old(self).crds() + quad_block(old(self).cur(), cx0, cy0, x, y));
        }
    }

    /// Draws a cubic segment.
    pub fn curve_to(&mut self, cx0: i32, cy0: i32, cx1: i32, cy1: i32, x: i32, y: i32)
        requires
            old(self).wf(),
        ensures
            final(self).wf(),
            final(self).cmds() == old(self).cmds().push(CURVE_TO_CODE),
            final(self).crds() == old(self).crds() + curve_block(cx0, cy0, cx1, cy1, x, y),
            final(self).cur() == Some((x, y)),
            final(self).start() == old(self).start(),
            final(self).upem() == old(self).upem(),
    {
        self.cubic(
            [
                3 * (cx0 as i64),
                3 * (cy0 as i64),
                3 * (cx1 as i64),
                3 * (cy1 as i64),
                3 * (x as i64),
                3 * (y as i64),
            ],
            x,
            y,
        );
        proof {
            assert(self.crds() =~= old(self).crds() + curve_block(cx0, cy0, cx1, cy1, x, y));
        }
    }

    /// Closes the current contour; the current point returns to the
    /// contour's start.
    pub fn close(&mut self)
        requires
            old(self).wf(),
        ensures
            final(self).wf(),
            final(self).cmds() == old(self).cmds().push(CLOSE_PATH_CODE),
            final(self).crds() == old(self).crds() + zero_block(),
            final(self).cur() == old(self).start(),
            final(self).start() == old(self).start(),
            final(self).upem() == old(self).upem(),
    {
        self.push(CLOSE_PATH_CODE, [0, 0, 0, 0, 0, 0]);
        self.current = self.contour_start;
        proof {
            assert(self.crds() =~= old(self).crds() + zero_block());
        }
    }

    /// Appends the terminal `End` command and returns the two streams.
    ///
    /// The finished command stream ends with exactly one `End` code, and
    /// the coordinate stream holds six slots per command.
    pub fn finish(self) -> (r: (Vec<i32>, Vec<i64>))
        requires
            self.wf(),
        ensures
            r.0@ == self.cmds().push(END_CODE),
            r.1@.map_values(|v: i64| v as int) == self.crds() + zero_block(),
            r.0@.len() >= 1,
            r.1@.len() == 6 * r.0@.len(),
            r.0@[r.0@.len() - 1] == END_CODE,
            forall|i: int|
                0 <= i < r.0@.len() - 1 ==> 1 <= #[trigger] r.0@[i] <= 4 && r.0@[i] != END_CODE,
    {
        let mut pen = self;
        pen.push(END_CODE, [0, 0, 0, 0, 0, 0]);
        proof {
            assert(pen.crds() =~= self.crds() + zero_block());
            assert(pen.crds().len() == pen.coords@.len());
        }
        (pen.commands, pen.coords)
    }
}

} // verus!
