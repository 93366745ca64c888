//! Draw plans: tagged operation nodes evaluated against a cursor rectangle,
//! a drawing surface and an accumulator of gesture recognizers.
use vstd::prelude::*;

use crate::geometry::{DrawRect, Empty, Fraction};
use crate::gesture::{GestureRecognizer, Recognizer};

verus! {

broadcast use vstd::std_specs::vec::group_vec_axioms;

/// A pixel colour.
#[derive(Clone, Copy, Debug, PartialEq, Eq, Structural)]
pub enum Color {
    Black,
    White,
    Gray(u8),
    Rgb(u8, u8, u8),
}

/// Whether a partial refresh only checks its arguments, returns at once, or
/// waits for the panel.
#[derive(Clone, Copy, Debug, PartialEq, Eq, Structural)]
pub enum RefreshMode {
    DryRun,
    Async,
    Wait,
}

/// Electrophoretic waveform used to repaint.
#[derive(Clone, Copy, Debug, PartialEq, Eq, Structural)]
pub enum Waveform {
    Du,
    Gc16,
    Gc16Fast,
    Gl16Fast,
    Du4,
    Auto,
}

/// Temperature profile used to repaint.
#[derive(Clone, Copy, Debug, PartialEq, Eq, Structural)]
pub enum Temperature {
    RemarkableDraw,
    Ambient,
    Papyrus,
    Max,
}

/// Dithering applied while repainting.
#[derive(Clone, Copy, Debug, PartialEq, Eq, Structural)]
pub enum Dither {
    Passthrough,
    Drawing,
    Y1,
    Y4,
}

/// How the panel is repainted.
#[derive(Clone, Copy, Debug, PartialEq, Eq, Structural)]
pub struct RefreshProfile {
    pub waveform: Waveform,
    pub temperature: Temperature,
    pub dither: Dither,
    pub quant_bit: i32,
}

/// An RGB image, three bytes per pixel, row by row.
#[derive(Debug)]
pub struct Image {
    pub width: u32,
    pub height: u32,
    pub rgb: Vec<u8>,
}

/// The drawing surface a plan is evaluated against. Positions are device
/// pixels; the rectangles returned by the measuring primitives are the
/// boxes actually covered.
pub trait Surface {
    fn clear(&mut self);

    fn partial_refresh(
        &mut self,
        rect: DrawRect,
        mode: RefreshMode,
        profile: RefreshProfile,
        force_full_refresh: bool,
    );

    fn full_refresh(&mut self, profile: RefreshProfile, wait_completion: bool);

    fn restore_region(&mut self, rect: DrawRect, data: &[u8]);

    /// Hands the pixels of `rect` to whatever `tag` stands for.
    fn dump_region(&mut self, rect: DrawRect, tag: u32);

    fn draw_circle(&mut self, x: i32, y: i32, rad: u32, color: Color);

    fn fill_circle(&mut self, x: i32, y: i32, rad: u32, color: Color);

    fn draw_text(
        &mut self,
        x: i32,
        y: i32,
        text: &str,
        size: u32,
        color: Color,
        dryrun: bool,
    ) -> DrawRect;

    fn draw_image(&mut self, x: i32, y: i32, image: &Image);

    fn draw_line(
        &mut self,
        x0: i32,
        y0: i32,
        x1: i32,
        y1: i32,
        width: u32,
        color: Color,
    ) -> DrawRect;

    fn fill_rect(&mut self, x: i32, y: i32, width: u32, height: u32, color: Color);

    fn draw_rect(&mut self, x: i32, y: i32, width: u32, height: u32, border_px: u32, color: Color);
}

/// What a draw step works on: the surface, the cursor rectangle and the
/// recognizers registered so far.
pub struct DrawContext<S, A> {
    pub surface: S,
    pub rect: DrawRect,
    pub gesture_recognizer: GestureRecognizer<A>,
}

/// One node of a draw plan.
pub enum DrawNode<A> {
    /// Draws nothing.
    Unit,
    /// Clears the whole surface.
    Clear,
    /// Repaints the cursor rectangle.
    PartialRefresh { mode: RefreshMode, profile: RefreshProfile, force_full_refresh: bool },
    /// Repaints the whole panel.
    FullRefresh { profile: RefreshProfile, wait_completion: bool },
    /// Writes saved pixels back into the cursor rectangle.
    RestoreRegion(Vec<u8>),
    /// Hands the pixels of the cursor rectangle to the sink named by the tag.
    DumpRegion(u32),
    /// A circle outline centred on the cursor origin.
    CircleStroke { rad: u32, color: Color },
    /// A filled circle centred on the cursor origin.
    CircleFill { rad: u32, color: Color },
    /// A line of text at the cursor origin; the cursor becomes its box.
    Text { text: String, size: u32, color: Color },
    /// Text placed so that the given fraction of its box lies on the origin.
    TextAligned { text: String, size: u32, origin_x: Fraction, origin_y: Fraction, color: Color },
    /// An image anchored at the top-left; the cursor becomes its box.
    Image(Image),
    /// A line relative to the cursor origin; the cursor becomes its box.
    Line { start: (i32, i32), end: (i32, i32), width: u32, color: Color },
    /// Fills the cursor rectangle.
    RectFill(Color),
    /// Outlines the cursor rectangle.
    RectStroke { border_px: u32, color: Color },
    /// Moves the cursor origin by a pixel delta.
    OffsetRelative { dx: i32, dy: i32 },
    /// Moves the cursor origin by fractions of its own size.
    OffsetAbsolute { fx: Fraction, fy: Fraction },
    MarginTop(i32),
    MarginLeft(i32),
    MarginRight(i32),
    MarginBottom(i32),
    SetX(u32),
    SetY(u32),
    SetWidth(u32),
    SetHeight(u32),
    SetRect(DrawRect),
    /// Registers a recognizer gated on the cursor rectangle.
    RecognizeGesture(Recognizer<A>),
    /// The first node, then the second from the cursor the first left.
    Then(Box<DrawNode<A>>, Box<DrawNode<A>>),
    /// The first node, then the second, then back to the cursor the first left.
    Overlay(Box<DrawNode<A>>, Box<DrawNode<A>>),
    /// Children left to right, each advancing by its width plus `spacing`.
    Horizontal { spacing: i32, draws: Vec<DrawNode<A>> },
    /// Children left to right, each advancing by `element_width`.
    HorizontalFixed { element_width: i32, draws: Vec<DrawNode<A>> },
    /// Children top to bottom, each advancing by its height plus `spacing`.
    Vertical { spacing: i32, draws: Vec<DrawNode<A>> },
    /// Children top to bottom, each advancing by `element_height`.
    VerticalFixed { element_height: i32, draws: Vec<DrawNode<A>> },
}

/// The outcome of evaluating a plan: the cursor left behind and the
/// recognizers registered, in registration order.
pub type Layout<A> = (DrawRect, Seq<Recognizer<A>>);

impl<A> DrawNode<A> {
    /// The children of a list node; empty for any other node.
    pub open spec fn items(self) -> Seq<DrawNode<A>> {
        match self {
            DrawNode::Horizontal { draws, .. } => draws@,
            DrawNode::HorizontalFixed { draws, .. } => draws@,
            DrawNode::Vertical { draws, .. } => draws@,
            DrawNode::VerticalFixed { draws, .. } => draws@,
            _ => Seq::empty(),
        }
    }

    pub open spec fn remaining(self, i: int) -> nat {
        if 0 <= i < self.items().len() {
            (self.items().len() - i) as nat
        } else {
            0
        }
    }

    /// Where a list node moves on to after a child: from the cursor
    /// `before` the child started at, given the cursor `after` it left.
    pub open spec fn advance_spec(self, before: DrawRect, after: DrawRect) -> DrawRect {
        match self {
            DrawNode::Horizontal { spacing, .. } => before.margin_left_spec(after.width + spacing),
            DrawNode::HorizontalFixed { element_width, .. } => before.margin_left_spec(
                element_width as int,
            ),
            DrawNode::Vertical { spacing, .. } => before.margin_top_spec(after.height + spacing),
            DrawNode::VerticalFixed { element_height, .. } => before.margin_top_spec(
                element_height as int,
            ),
            _ => before,
        }
    }

    /// Whether `run` is exact for the node from child `i` on: for the
    /// registrations always, and for the cursor too when `full`. Text and
    /// lines take their cursor from what the surface measured, so they may
    /// only stand where that cursor is thrown away: as the second part of an
    /// overlay, or as a child of a fixed-stride list.
    pub open spec fn sound_from(self, i: int, full: bool) -> bool
        decreases self, self.remaining(i),
    {
        match self {
            DrawNode::Text { .. } => !full,
            DrawNode::TextAligned { .. } => !full,
            DrawNode::Line { .. } => !full,
            DrawNode::Then(a, b) => a.sound_from(0, true) && b.sound_from(0, full),
            DrawNode::Overlay(a, b) => a.sound_from(0, true) && b.sound_from(0, false),
            DrawNode::Horizontal { draws, .. } | DrawNode::Vertical { draws, .. } => {
                if 0 <= i < draws@.len() {
                    draws@[i].sound_from(0, true) && self.sound_from(i + 1, full)
                } else {
                    true
                }
            },
            DrawNode::HorizontalFixed { draws, .. } | DrawNode::VerticalFixed { draws, .. } => {
                if 0 <= i < draws@.len() {
                    draws@[i].sound_from(0, false) && self.sound_from(i + 1, full)
                } else {
                    true
                }
            },
            _ => true,
        }
    }

    /// `run` gives both the cursor and the registrations of drawing the node.
    pub open spec fn exact(self) -> bool {
        self.sound_from(0, true)
    }

    /// `run` gives the registrations of drawing the node.
    pub open spec fn regs_exact(self) -> bool {
        self.sound_from(0, false)
    }

    /// Whether evaluating the node always leaves the cursor where it found it.
    pub open spec fn keeps_cursor(self) -> bool
        decreases self,
    {
        match self {
            DrawNode::Unit | DrawNode::Clear | DrawNode::PartialRefresh { .. }
            | DrawNode::FullRefresh { .. } | DrawNode::RestoreRegion(_) | DrawNode::DumpRegion(_)
            | DrawNode::CircleStroke { .. } | DrawNode::CircleFill { .. } | DrawNode::RectFill(_)
            | DrawNode::RectStroke { .. } | DrawNode::RecognizeGesture(_) => true,
            DrawNode::Then(a, b) => a.keeps_cursor() && b.keeps_cursor(),
            DrawNode::Overlay(a, _) => a.keeps_cursor(),
            _ => false,
        }
    }

    /// Cursor and registrations of a list node from child `i` on, starting
    /// at cursor `r`; for any other node, its whole evaluation. Text and
    /// line leaves are left as they were: their cursor is the surface's.
    pub open spec fn run_from(self, i: int, r: DrawRect) -> Layout<A>
        decreases self, self.remaining(i),
    {
        match self {
            DrawNode::Image(img) => (
                DrawRect { left: r.left, top: r.top, width: img.width, height: img.height },
                Seq::empty(),
            ),
            DrawNode::OffsetRelative { dx, dy } => (r.offset_spec(dx as int, dy as int), Seq::empty()),
            DrawNode::OffsetAbsolute { fx, fy } => (
                r.offset_spec(fx.of_spec(r.width) as int, fy.of_spec(r.height) as int),
                Seq::empty(),
            ),
            DrawNode::MarginTop(m) => (r.margin_top_spec(m as int), Seq::empty()),
            DrawNode::MarginLeft(m) => (r.margin_left_spec(m as int), Seq::empty()),
            DrawNode::MarginRight(m) => (r.margin_right_spec(m as int), Seq::empty()),
            DrawNode::MarginBottom(m) => (r.margin_bottom_spec(m as int), Seq::empty()),
            DrawNode::SetX(x) => (DrawRect { left: x, ..r }, Seq::empty()),
            DrawNode::SetY(y) => (DrawRect { top: y, ..r }, Seq::empty()),
            DrawNode::SetWidth(w) => (DrawRect { width: w, ..r }, Seq::empty()),
            DrawNode::SetHeight(h) => (DrawRect { height: h, ..r }, Seq::empty()),
            DrawNode::SetRect(n) => (n, Seq::empty()),
            DrawNode::RecognizeGesture(g) => (
                r,
                seq![Recognizer::ZoneGate { zone: r, inner: Box::new(g) }],
            ),
            DrawNode::Then(a, b) => {
                let x = a.run_from(0, r);
                let y = b.run_from(0, x.0);
                (y.0, x.1 + y.1)
            },
            DrawNode::Overlay(a, b) => {
                let x = a.run_from(0, r);
                let y = b.run_from(0, x.0);
                (x.0, x.1 + y.1)
            },
            DrawNode::Horizontal { draws, .. } | DrawNode::HorizontalFixed { draws, .. }
            | DrawNode::Vertical { draws, .. } | DrawNode::VerticalFixed { draws, .. } => {
                if 0 <= i < draws@.len() {
                    let x = draws@[i].run_from(0, r);
                    let next = self.advance_spec(r, x.0);
                    if next.has_no_area() {
                        (next, x.1)
                    } else {
                        let y = self.run_from(i + 1, next);
                        (y.0, x.1 + y.1)
                    }
                } else {
                    (r, Seq::empty())
                }
            },
            _ => (r, Seq::empty()),
        }
    }

    /// Cursor and registrations of evaluating the node from cursor `r`.
    pub open spec fn run(self, r: DrawRect) -> Layout<A> {
        self.run_from(0, r)
    }
}

pub(crate) fn neg_sat(v: i32) -> (r: i32)
    ensures
        r == (if v == i32::MIN {
            i32::MAX as int
        } else {
            -v
        }),
{
    if v == i32::MIN {
        i32::MAX
    } else {
        -v
    }
}

impl<A: Copy> DrawNode<A> {
    fn advance(&self, before: DrawRect, after: DrawRect) -> (r: DrawRect)
        ensures
            r == self.advance_spec(before, after),
    {
        match self {
            DrawNode::Horizontal { spacing, .. } => before.margin_left(
                after.width as i64 + *spacing as i64,
            ),
            DrawNode::HorizontalFixed { element_width, .. } => before.margin_left(
                *element_width as i64,
            ),
            DrawNode::Vertical { spacing, .. } => before.margin_top(
                after.height as i64 + *spacing as i64,
            ),
            DrawNode::VerticalFixed { element_height, .. } => before.margin_top(
                *element_height as i64,
            ),
            _ => before,
        }
    }

    /// Evaluates the plan: draws on the surface, moves the cursor and
    /// registers recognizers. The registrations are exactly those of `run`
    /// wherever text and lines only stand where their cursor is thrown
    /// away, and the cursor too where none decides it.
    pub fn draw<S: Surface>(&self, ctx: DrawContext<S, A>) -> (out: DrawContext<S, A>)
        requires
            ctx.gesture_recognizer.wf(),
        ensures
            out.gesture_recognizer.wf(),
            out.gesture_recognizer.entries() == ctx.gesture_recognizer.entries(),
            out.gesture_recognizer.callbacks().len() >= ctx.gesture_recognizer.callbacks().len(),
            out.gesture_recognizer.callbacks().subrange(
                0,
                ctx.gesture_recognizer.callbacks().len() as int,
            ) == ctx.gesture_recognizer.callbacks(),
            self.regs_exact() ==> out.gesture_recognizer.callbacks()
                == ctx.gesture_recognizer.callbacks() + self.run(ctx.rect).1,
            self.exact() ==> out.rect == self.run(ctx.rect).0
                && out.gesture_recognizer.callbacks() == ctx.gesture_recognizer.callbacks()
                + self.run(ctx.rect).1,
            (self is Overlay && self->Overlay_0.exact()) ==> out.rect == self->Overlay_0.run(
                ctx.rect,
            ).0,
            self.keeps_cursor() ==> out.rect == ctx.rect,
        decreases self, 1nat,
    {
        let mut ctx = ctx;
        let ghost cb0 = ctx.gesture_recognizer.callbacks();
        let ghost e0 = ctx.gesture_recognizer.entries();
        match self {
            DrawNode::Unit => {},
            DrawNode::Clear => {
                ctx.surface.clear();
            },
            DrawNode::PartialRefresh { mode, profile, force_full_refresh } => {
                ctx.surface.partial_refresh(ctx.rect, *mode, *profile, *force_full_refresh);
            },
            DrawNode::FullRefresh { profile, wait_completion } => {
                ctx.surface.full_refresh(*profile, *wait_completion);
            },
            DrawNode::RestoreRegion(data) => {
                ctx.surface.restore_region(ctx.rect, data.as_slice());
            },
            DrawNode::DumpRegion(tag) => {
                ctx.surface.dump_region(ctx.rect, *tag);
            },
            DrawNode::CircleStroke { rad, color } => {
                ctx.surface.draw_circle(ctx.rect.left as i32, ctx.rect.top as i32, *rad, *color);
            },
            DrawNode::CircleFill { rad, color } => {
                ctx.surface.fill_circle(ctx.rect.left as i32, ctx.rect.top as i32, *rad, *color);
            },
            DrawNode::Text { text, size, color } => {
                ctx.rect = ctx.surface.draw_text(
                    ctx.rect.left as i32,
                    ctx.rect.top as i32,
                    text.as_str(),
                    *size,
                    *color,
                    false,
                );
            },
            DrawNode::TextAligned { text, size, origin_x, origin_y, color } => {
                let tr = ctx.surface.draw_text(
                    ctx.rect.left as i32,
                    ctx.rect.top as i32,
                    text.as_str(),
                    *size,
                    *color,
                    true,
                );
                let dx = neg_sat(origin_x.of(tr.width));
                let dy = neg_sat(origin_y.of(tr.height));
                ctx.rect = ctx.rect.offset(dx, dy);
                ctx.rect = ctx.surface.draw_text(
                    ctx.rect.left as i32,
                    ctx.rect.top as i32,
                    text.as_str(),
                    *size,
                    *color,
                    false,
                );
            },
            DrawNode::Image(img) => {
                ctx.surface.draw_image(ctx.rect.left as i32, ctx.rect.top as i32, img);
                ctx.rect = DrawRect {
                    left: ctx.rect.left,
                    top: ctx.rect.top,
                    width: img.width,
                    height: img.height,
                };
            },
            DrawNode::Line { start, end, width, color } => {
                let x = ctx.rect.left as i32;
                let y = ctx.rect.top as i32;
                ctx.rect = ctx.surface.draw_line(
                    x.wrapping_add(start.0),
                    y.wrapping_add(start.1),
                    x.wrapping_add(end.0),
                    y.wrapping_add(end.1),
                    *width,
                    *color,
                );
            },
            DrawNode::RectFill(color) => {
                ctx.surface.fill_rect(
                    ctx.rect.left as i32,
                    ctx.rect.top as i32,
                    ctx.rect.width,
                    ctx.rect.height,
                    *color,
                );
            },
            DrawNode::RectStroke { border_px, color } => {
                ctx.surface.draw_rect(
                    ctx.rect.left as i32,
                    ctx.rect.top as i32,
                    ctx.rect.width,
                    ctx.rect.height,
                    *border_px,
                    *color,
                );
            },
            DrawNode::OffsetRelative { dx, dy } => {
                ctx.rect = ctx.rect.offset(*dx, *dy);
            },
            DrawNode::OffsetAbsolute { fx, fy } => {
                let dx = fx.of(ctx.rect.width);
                let dy = fy.of(ctx.rect.height);
                ctx.rect = ctx.rect.offset(dx, dy);
            },
            DrawNode::MarginTop(m) => {
                ctx.rect = ctx.rect.margin_top(*m as i64);
            },
            DrawNode::MarginLeft(m) => {
                ctx.rect = ctx.rect.margin_left(*m as i64);
            },
            DrawNode::MarginRight(m) => {
                ctx.rect = ctx.rect.margin_right(*m as i64);
            },
            DrawNode::MarginBottom(m) => {
                ctx.rect = ctx.rect.margin_bottom(*m as i64);
            },
            DrawNode::SetX(x) => {
                ctx.rect.left = *x;
            },
            DrawNode::SetY(y) => {
                ctx.rect.top = *y;
            },
            DrawNode::SetWidth(w) => {
                ctx.rect.width = *w;
            },
            DrawNode::SetHeight(h) => {
                ctx.rect.height = *h;
            },
            DrawNode::SetRect(r) => {
                ctx.rect = *r;
            },
            DrawNode::RecognizeGesture(g) => {
                let zone = ctx.rect;
                let gated = Recognizer::ZoneGate { zone, inner: Box::new(g.duplicate()) };
                ctx.gesture_recognizer = ctx.gesture_recognizer.with_callback(gated);
                assert(self.run(zone).1 =~= seq![gated]);
                assert(ctx.gesture_recognizer.callbacks().subrange(0, cb0.len() as int) =~= cb0);
            },
            DrawNode::Then(a, b) => {
                let c1 = a.draw(ctx);
                let ghost cb1 = c1.gesture_recognizer.callbacks();
                let c2 = b.draw(c1);
                proof {
                    let cb2 = c2.gesture_recognizer.callbacks();
                    assert(cb2.subrange(0, cb0.len() as int) =~= cb1.subrange(0, cb0.len() as int));
                    assert(cb2 =~= cb1 + cb2.subrange(cb1.len() as int, cb2.len() as int));
                    assert(cb1 =~= cb0 + cb1.subrange(cb0.len() as int, cb1.len() as int));
                }
                return c2;
            },
            DrawNode::Overlay(a, b) => {
                let c1 = a.draw(ctx);
                let ghost cb1 = c1.gesture_recognizer.callbacks();
                let saved = c1.rect;
                let mut c2 = b.draw(c1);
                c2.rect = saved;
                proof {
                    let cb2 = c2.gesture_recognizer.callbacks();
                    assert(cb2.subrange(0, cb0.len() as int) =~= cb1.subrange(0, cb0.len() as int));
                    assert(cb2 =~= cb1 + cb2.subrange(cb1.len() as int, cb2.len() as int));
                    assert(cb1 =~= cb0 + cb1.subrange(cb0.len() as int, cb1.len() as int));
                }
                return c2;
            },
            DrawNode::Horizontal { draws, .. } | DrawNode::HorizontalFixed { draws, .. }
            | DrawNode::Vertical { draws, .. } | DrawNode::VerticalFixed { draws, .. } => {
                proof {
                    lemma_list_full_irrelevant(*self, 0);
                }
                return self.draw_list(draws, ctx);
            },
        }
        assert(cb0 + Seq::<Recognizer<A>>::empty() =~= cb0);
        assert(cb0 + self.run(ctx.rect).1 =~= ctx.gesture_recognizer.callbacks()) by {
            if !(self is RecognizeGesture) {
                assert(ctx.gesture_recognizer.callbacks() == cb0);
            }
        }
        ctx
    }

    /// Evaluates the children of a list node in order, advancing the cursor
    /// after each and stopping once it has no area left.
    #[verifier::rlimit(100)]
    fn draw_list<S: Surface>(&self, draws: &Vec<DrawNode<A>>, ctx0: DrawContext<S, A>) -> (out:
        DrawContext<S, A>)
        requires
            ctx0.gesture_recognizer.wf(),
            draws@ == self.items(),
            self is Horizontal || self is HorizontalFixed || self is Vertical
                || self is VerticalFixed,
        ensures
            out.gesture_recognizer.wf(),
            out.gesture_recognizer.entries() == ctx0.gesture_recognizer.entries(),
            out.gesture_recognizer.callbacks().len() >= ctx0.gesture_recognizer.callbacks().len(),
            out.gesture_recognizer.callbacks().subrange(
                0,
                ctx0.gesture_recognizer.callbacks().len() as int,
            ) == ctx0.gesture_recognizer.callbacks(),
            self.regs_exact() ==> out.gesture_recognizer.callbacks()
                == ctx0.gesture_recognizer.callbacks() + self.run(ctx0.rect).1,
            self.regs_exact() ==> out.rect == self.run(ctx0.rect).0,
        decreases self, 0nat,
    {
        let mut ctx = ctx0;
        let ghost cb0 = ctx0.gesture_recognizer.callbacks();
        let ghost e0 = ctx0.gesture_recognizer.entries();
        let n = draws.len();
        let ghost r0 = ctx0.rect;
        let ghost n0 = cb0.len();
        let mut i: usize = 0;
        assert(cb0.subrange(n0 as int, n0 as int) =~= Seq::<Recognizer<A>>::empty());
        assert(cb0.subrange(0, n0 as int) =~= cb0);
        while i < n
            invariant
                n == draws@.len(),
                draws@ == self.items(),
                i <= n,
                cb0 == ctx0.gesture_recognizer.callbacks(),
                e0 == ctx0.gesture_recognizer.entries(),
                n0 == cb0.len(),
                r0 == ctx0.rect,
                ctx.gesture_recognizer.wf(),
                ctx.gesture_recognizer.entries() == e0,
                ctx.gesture_recognizer.callbacks().len() >= n0,
                ctx.gesture_recognizer.callbacks().subrange(0, n0 as int) == cb0,
                self.regs_exact() ==> self.sound_from(i as int, false),
                self.regs_exact() ==> self.run_from(0, r0).0 == self.run_from(i as int, ctx.rect).0
                    && self.run_from(0, r0).1 == ctx.gesture_recognizer.callbacks().subrange(
                    n0 as int,
                    ctx.gesture_recognizer.callbacks().len() as int,
                ) + self.run_from(i as int, ctx.rect).1,
            decreases n - i,
        {
            let before = ctx.rect;
            let ghost cbb = ctx.gesture_recognizer.callbacks();
            proof {
                if self.regs_exact() {
                    lemma_list_child(*self, i as int);
                }
            }
            ctx = draws[i].draw(ctx);
            let ghost after = ctx.rect;
            let next = self.advance(before, ctx.rect);
            ctx.rect = next;
            proof {
                if self.regs_exact() {
                    let x = draws@[i as int].run_from(0, before);
                    if self is Horizontal || self is Vertical {
                        assert(after == x.0);
                    } else {
                        lemma_fixed_advance(*self, before, after, x.0);
                    }
                }
                let cba = ctx.gesture_recognizer.callbacks();
                assert(cba.subrange(0, n0 as int) =~= cbb.subrange(0, n0 as int));
                assert(cba =~= cbb + cba.subrange(cbb.len() as int, cba.len() as int));
                if self.regs_exact() {
                    assert(draws@[i as int].regs_exact());
                    let x = draws@[i as int].run_from(0, before);
                    assert(cba.subrange(n0 as int, cba.len() as int) =~= cbb.subrange(
                        n0 as int,
                        cbb.len() as int,
                    ) + x.1);
                }
            }
            if next.empty() {
                proof {
                    let cba = ctx.gesture_recognizer.callbacks();
                    assert(cba =~= cb0 + cba.subrange(n0 as int, cba.len() as int));
                }
                return ctx;
            }
            i = i + 1;
        }
        proof {
            let cba = ctx.gesture_recognizer.callbacks();
            assert(cba =~= cb0 + cba.subrange(n0 as int, cba.len() as int));
        }
        ctx
    }
}


proof fn lemma_list_child<A>(n: DrawNode<A>, i: int)
    requires
        n is Horizontal || n is HorizontalFixed || n is Vertical || n is VerticalFixed,
        0 <= i < n.items().len(),
        n.sound_from(i, false),
    ensures
        n.items()[i].regs_exact(),
        (n is Horizontal || n is Vertical) ==> n.items()[i].exact(),
        n.sound_from(i + 1, false),
{
    if n is Horizontal || n is Vertical {
        lemma_exact_regs(n.items()[i]);
    }
}

pub(crate) proof fn lemma_exact_regs<A>(n: DrawNode<A>)
    requires
        n.exact(),
    ensures
        n.regs_exact(),
    decreases n,
{
    match n {
        DrawNode::Then(a, b) => {
            lemma_exact_regs(*b);
        },
        DrawNode::Horizontal { .. } | DrawNode::HorizontalFixed { .. } | DrawNode::Vertical { .. }
        | DrawNode::VerticalFixed { .. } => {
            lemma_list_full_irrelevant(n, 0);
        },
        _ => {},
    }
}

proof fn lemma_fixed_advance<A>(n: DrawNode<A>, before: DrawRect, a: DrawRect, b: DrawRect)
    requires
        n is HorizontalFixed || n is VerticalFixed,
    ensures
        n.advance_spec(before, a) == n.advance_spec(before, b),
{
}

proof fn lemma_list_full_irrelevant<A>(n: DrawNode<A>, i: int)
    requires
        n is Horizontal || n is HorizontalFixed || n is Vertical || n is VerticalFixed,
    ensures
        n.sound_from(i, true) == n.sound_from(i, false),
    decreases n.remaining(i),
{
    if 0 <= i < n.items().len() {
        lemma_list_full_irrelevant(n, i + 1);
    }
}

/// Draws nothing and leaves the cursor as it is.
pub fn unit<A>() -> (r: DrawNode<A>)
    ensures
        r == (DrawNode::<A>::Unit),
{
    DrawNode::<A>::Unit
}

/// Clears the whole surface.
pub fn clear<A>() -> (r: DrawNode<A>)
    ensures
        r == (DrawNode::<A>::Clear),
{
    DrawNode::<A>::Clear
}

/// Repaints the cursor rectangle of the panel.
pub fn partial_refresh<A>(mode: RefreshMode, profile: RefreshProfile, force_full_refresh: bool) -> (r: DrawNode<A>)
    ensures
        r == (DrawNode::<A>::PartialRefresh { mode, profile, force_full_refresh }),
{
    DrawNode::<A>::PartialRefresh { mode, profile, force_full_refresh }
}

/// Repaints the whole panel.
pub fn full_refresh<A>(profile: RefreshProfile, wait_completion: bool) -> (r: DrawNode<A>)
    ensures
        r == (DrawNode::<A>::FullRefresh { profile, wait_completion }),
{
    DrawNode::<A>::FullRefresh { profile, wait_completion }
}

/// Writes saved pixels back into the cursor rectangle.
pub fn restore_region<A>(data: Vec<u8>) -> (r: DrawNode<A>)
    ensures
        r == (DrawNode::<A>::RestoreRegion(data)),
{
    DrawNode::<A>::RestoreRegion(data)
}

/// Hands the pixels of the cursor rectangle to the sink named by `tag`.
pub fn dump_region<A>(tag: u32) -> (r: DrawNode<A>)
    ensures
        r == (DrawNode::<A>::DumpRegion(tag)),
{
    DrawNode::<A>::DumpRegion(tag)
}

/// Outlines a circle centred on the cursor origin.
pub fn circle_stroke<A>(rad: u32, color: Color) -> (r: DrawNode<A>)
    ensures
        r == (DrawNode::<A>::CircleStroke { rad, color }),
{
    DrawNode::<A>::CircleStroke { rad, color }
}

/// Fills a circle centred on the cursor origin.
pub fn circle_fill<A>(rad: u32, color: Color) -> (r: DrawNode<A>)
    ensures
        r == (DrawNode::<A>::CircleFill { rad, color }),
{
    DrawNode::<A>::CircleFill { rad, color }
}

/// A filled circle with an outline of another colour.
pub fn circle_border<A>(rad: u32, fill_color: Color, stroke_color: Color) -> (r: DrawNode<A>)
    ensures
        r == (DrawNode::<A>::Then(Box::new(DrawNode::CircleFill { rad, color: fill_color }), Box::new(DrawNode::CircleStroke { rad, color: stroke_color }))),
{
    DrawNode::<A>::Then(Box::new(DrawNode::CircleFill { rad, color: fill_color }), Box::new(DrawNode::CircleStroke { rad, color: stroke_color }))
}

/// A line of text at the cursor origin; the cursor becomes its box.
pub fn text<A>(string: String, size: u32, color: Color) -> (r: DrawNode<A>)
    ensures
        r == (DrawNode::<A>::Text { text: string, size, color }),
{
    DrawNode::<A>::Text { text: string, size, color }
}

/// Text placed so that the given fraction of its box lies on the cursor origin.
pub fn text_aligned<A>(text: String, size: u32, origin_x: Fraction, origin_y: Fraction, color: Color) -> (r: DrawNode<A>)
    ensures
        r == (DrawNode::<A>::TextAligned { text, size, origin_x, origin_y, color }),
{
    DrawNode::<A>::TextAligned { text, size, origin_x, origin_y, color }
}

/// An image anchored at the cursor origin; the cursor becomes its box.
pub fn image<A>(img: Image) -> (r: DrawNode<A>)
    ensures
        r == (DrawNode::<A>::Image(img)),
{
    DrawNode::<A>::Image(img)
}

/// Runs `f`, then gives back the cursor it started from.
pub fn overlay<A>(f: DrawNode<A>) -> (r: DrawNode<A>)
    ensures
        r == (DrawNode::<A>::Overlay(Box::new(DrawNode::Unit), Box::new(f))),
{
    DrawNode::<A>::Overlay(Box::new(DrawNode::Unit), Box::new(f))
}

/// Moves the cursor origin by a pixel delta.
pub fn offset_relative<A>(dx: i32, dy: i32) -> (r: DrawNode<A>)
    ensures
        r == (DrawNode::<A>::OffsetRelative { dx, dy }),
{
    DrawNode::<A>::OffsetRelative { dx, dy }
}

/// Moves the cursor origin by fractions of the cursor's own size.
pub fn offset_absolute<A>(fx: Fraction, fy: Fraction) -> (r: DrawNode<A>)
    ensures
        r == (DrawNode::<A>::OffsetAbsolute { fx, fy }),
{
    DrawNode::<A>::OffsetAbsolute { fx, fy }
}

/// Moves the top edge down by `margin`, clamping the height at zero.
pub fn margin_top<A>(margin: i32) -> (r: DrawNode<A>)
    ensures
        r == (DrawNode::<A>::MarginTop(margin)),
{
    DrawNode::<A>::MarginTop(margin)
}

/// Moves the left edge right by `margin`, clamping the width at zero.
pub fn margin_left<A>(margin: i32) -> (r: DrawNode<A>)
    ensures
        r == (DrawNode::<A>::MarginLeft(margin)),
{
    DrawNode::<A>::MarginLeft(margin)
}

/// Pulls the right edge in by `margin`, clamping the width at zero.
pub fn margin_right<A>(margin: i32) -> (r: DrawNode<A>)
    ensures
        r == (DrawNode::<A>::MarginRight(margin)),
{
    DrawNode::<A>::MarginRight(margin)
}

/// Pulls the bottom edge in by `margin`, clamping the height at zero.
pub fn margin_bottom<A>(margin: i32) -> (r: DrawNode<A>)
    ensures
        r == (DrawNode::<A>::MarginBottom(margin)),
{
    DrawNode::<A>::MarginBottom(margin)
}

/// Left and right margins.
pub fn margin_horizontal<A>(margin: i32) -> (r: DrawNode<A>)
    ensures
        r == (DrawNode::<A>::Then(Box::new(DrawNode::MarginLeft(margin)), Box::new(DrawNode::MarginRight(margin)))),
{
    DrawNode::<A>::Then(Box::new(DrawNode::MarginLeft(margin)), Box::new(DrawNode::MarginRight(margin)))
}

/// Top and bottom margins.
pub fn margin_vertical<A>(margin: i32) -> (r: DrawNode<A>)
    ensures
        r == (DrawNode::<A>::Then(Box::new(DrawNode::MarginTop(margin)), Box::new(DrawNode::MarginBottom(margin)))),
{
    DrawNode::<A>::Then(Box::new(DrawNode::MarginTop(margin)), Box::new(DrawNode::MarginBottom(margin)))
}

/// Fills the cursor rectangle.
pub fn rect_fill<A>(color: Color) -> (r: DrawNode<A>)
    ensures
        r == (DrawNode::<A>::RectFill(color)),
{
    DrawNode::<A>::RectFill(color)
}

/// A line between points relative to the cursor origin; the cursor becomes its box.
pub fn line<A>(start: (i32, i32), end: (i32, i32), width: u32, color: Color) -> (r: DrawNode<A>)
    ensures
        r == (DrawNode::<A>::Line { start, end, width, color }),
{
    DrawNode::<A>::Line { start, end, width, color }
}

/// Outlines the cursor rectangle.
pub fn rect_stroke<A>(border_px: u32, color: Color) -> (r: DrawNode<A>)
    ensures
        r == (DrawNode::<A>::RectStroke { border_px, color }),
{
    DrawNode::<A>::RectStroke { border_px, color }
}

/// A filled rectangle with an outline of another colour.
pub fn rect_border<A>(border_px: u32, fill_color: Color, stroke_color: Color) -> (r: DrawNode<A>)
    ensures
        r == (DrawNode::<A>::Then(Box::new(DrawNode::RectFill(fill_color)), Box::new(DrawNode::RectStroke { border_px, color: stroke_color }))),
{
    DrawNode::<A>::Then(Box::new(DrawNode::RectFill(fill_color)), Box::new(DrawNode::RectStroke { border_px, color: stroke_color }))
}

/// Children left to right, each advancing by its width plus `spacing`.
pub fn horizontal<A>(spacing: i32, draws: Vec<DrawNode<A>>) -> (r: DrawNode<A>)
    ensures
        r == (DrawNode::<A>::Horizontal { spacing, draws }),
{
    DrawNode::<A>::Horizontal { spacing, draws }
}

/// Children left to right at a fixed stride.
pub fn horizontal_fixed<A>(element_width: i32, draws: Vec<DrawNode<A>>) -> (r: DrawNode<A>)
    ensures
        r == (DrawNode::<A>::HorizontalFixed { element_width, draws }),
{
    DrawNode::<A>::HorizontalFixed { element_width, draws }
}

/// Children top to bottom, each advancing by its height plus `spacing`.
pub fn vertical<A>(spacing: i32, draws: Vec<DrawNode<A>>) -> (r: DrawNode<A>)
    ensures
        r == (DrawNode::<A>::Vertical { spacing, draws }),
{
    DrawNode::<A>::Vertical { spacing, draws }
}

/// Children top to bottom at a fixed stride.
pub fn vertical_fixed<A>(element_height: i32, draws: Vec<DrawNode<A>>) -> (r: DrawNode<A>)
    ensures
        r == (DrawNode::<A>::VerticalFixed { element_height, draws }),
{
    DrawNode::<A>::VerticalFixed { element_height, draws }
}

/// Registers `g`, gated on wherever the cursor is when the plan runs.
pub fn recognize_gesture<A>(g: Recognizer<A>) -> (r: DrawNode<A>)
    ensures
        r == (DrawNode::<A>::RecognizeGesture(g)),
{
    DrawNode::<A>::RecognizeGesture(g)
}

/// Overrides the cursor's left edge.
pub fn set_x<A>(x: u32) -> (r: DrawNode<A>)
    ensures
        r == (DrawNode::<A>::SetX(x)),
{
    DrawNode::<A>::SetX(x)
}

/// Overrides the cursor's top edge.
pub fn set_y<A>(y: u32) -> (r: DrawNode<A>)
    ensures
        r == (DrawNode::<A>::SetY(y)),
{
    DrawNode::<A>::SetY(y)
}

/// Overrides the cursor's origin.
pub fn set_position<A>(x: u32, y: u32) -> (r: DrawNode<A>)
    ensures
        r == (DrawNode::<A>::Then(Box::new(DrawNode::SetX(x)), Box::new(DrawNode::SetY(y)))),
{
    DrawNode::<A>::Then(Box::new(DrawNode::SetX(x)), Box::new(DrawNode::SetY(y)))
}

/// Overrides the cursor's width.
pub fn set_width<A>(width: u32) -> (r: DrawNode<A>)
    ensures
        r == (DrawNode::<A>::SetWidth(width)),
{
    DrawNode::<A>::SetWidth(width)
}

/// Overrides the cursor's height.
pub fn set_height<A>(height: u32) -> (r: DrawNode<A>)
    ensures
        r == (DrawNode::<A>::SetHeight(height)),
{
    DrawNode::<A>::SetHeight(height)
}

/// Overrides the cursor's size.
pub fn set_size<A>(width: u32, height: u32) -> (r: DrawNode<A>)
    ensures
        r == (DrawNode::<A>::Then(Box::new(DrawNode::SetWidth(width)), Box::new(DrawNode::SetHeight(height)))),
{
    DrawNode::<A>::Then(Box::new(DrawNode::SetWidth(width)), Box::new(DrawNode::SetHeight(height)))
}

/// Overrides the whole cursor.
pub fn set_rect<A>(rect: DrawRect) -> (r: DrawNode<A>)
    ensures
        r == (DrawNode::<A>::SetRect(rect)),
{
    DrawNode::<A>::SetRect(rect)
}

/// Margins on all four sides.
pub fn margin<A>(m: i32) -> (r: DrawNode<A>)
    ensures
        r == (DrawNode::<A>::Then(
            Box::new(DrawNode::Then(
                Box::new(DrawNode::MarginLeft(m)),
                Box::new(DrawNode::MarginRight(m)),
            )),
            Box::new(DrawNode::Then(
                Box::new(DrawNode::MarginTop(m)),
                Box::new(DrawNode::MarginBottom(m)),
            )),
        )),
{
    DrawNode::Then(Box::new(margin_horizontal(m)), Box::new(margin_vertical(m)))
}

impl<A> DrawNode<A> {
    /// `self`, then `b` from the cursor `self` left.
    pub fn followed_by(self, b: DrawNode<A>) -> (r: DrawNode<A>)
        ensures
            r == DrawNode::Then(Box::new(self), Box::new(b)),
    {
        DrawNode::Then(Box::new(self), Box::new(b))
    }

    /// `self`, then `b`, then back to the cursor `self` left.
    pub fn overlay(self, b: DrawNode<A>) -> (r: DrawNode<A>)
        ensures
            r == DrawNode::Overlay(Box::new(self), Box::new(b)),
    {
        DrawNode::Overlay(Box::new(self), Box::new(b))
    }
}

/// Overlay hands back exactly the cursor it was given, whatever its subtree
/// draws, measures or moves; with `draw`'s contract this holds of every run.
pub proof fn overlay_restores_cursor<A>(f: DrawNode<A>, r: DrawRect)
    ensures
        DrawNode::Overlay(Box::new(DrawNode::<A>::Unit), Box::new(f)).keeps_cursor(),
        DrawNode::Overlay(Box::new(DrawNode::<A>::Unit), Box::new(f)).run(r).0 == r,
{
    assert(DrawNode::<A>::Unit.keeps_cursor());
    assert(DrawNode::<A>::Unit.run_from(0, r).0 == r);
}

/// A vertical margin larger than the height leaves a height of exactly
/// zero, never less; likewise a horizontal margin and the width.
pub proof fn margin_clamps_to_zero<A>(r: DrawRect, m: i32)
    ensures
        m > r.height ==> DrawNode::<A>::MarginTop(m).run(r).0.height == 0
            && DrawNode::<A>::MarginBottom(m).run(r).0.height == 0,
        m > r.width ==> DrawNode::<A>::MarginLeft(m).run(r).0.width == 0
            && DrawNode::<A>::MarginRight(m).run(r).0.width == 0,
{
}

/// Once the cursor has no area left after child `i`, a list layout stops:
/// no later child registers anything or moves the cursor.
pub proof fn list_halts_on_empty<A>(node: DrawNode<A>, i: int, r: DrawRect)
    requires
        node is Horizontal || node is HorizontalFixed || node is Vertical || node is VerticalFixed,
        0 <= i < node.items().len(),
        node.advance_spec(r, node.items()[i].run(r).0).has_no_area(),
    ensures
        node.run_from(i, r) == (
            node.advance_spec(r, node.items()[i].run(r).0),
            node.items()[i].run(r).1,
        ),
{
}

} // verus!
