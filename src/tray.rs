//! The shell's screen: a full-screen dismiss area above a bottom panel of
//! draft icons, and what each gesture on it sets in motion.
use vstd::prelude::*;
use vstd::string::{StrSliceExecFns, StringExecFns};

use crate::geometry::{trunc_div, DrawRect, Fraction};
use crate::gesture::{recognize_drag, recognize_press, recognize_tap, DragRule, Recognizer};
use crate::orchestrator::{display, display_rect, MainEvent, Restore, DISPLAY_HEIGHT, DISPLAY_WIDTH};
use crate::stat::{split_words, spans_of, words};
use crate::supervisor::TAP_HYSTERESIS;
use crate::ui::{
    lemma_exact_regs, neg_sat,
    circle_fill, line, margin, margin_bottom, margin_horizontal, margin_left, margin_top,
    clear, restore_region, offset_absolute, offset_relative, partial_refresh, full_refresh, image, rect_border,
    rect_stroke, recognize_gesture, set_height, set_rect, set_width, text_aligned, unit,
    horizontal, vertical_fixed, Color, Dither, DrawNode, Image, RefreshMode, RefreshProfile,
    Temperature, Waveform,
};

verus! {

/// Side of a draft icon, in pixels.
pub const ICON_SIZE: i32 = 156;

/// Gap between icons.
pub const ICON_SPACING: i32 = 39;

/// Text size of icon captions.
pub const FONT_SIZE: u32 = 42;

pub const ROWS: usize = 2;

pub const COLUMNS: usize = 7;

/// Height of one icon row with its caption.
pub const ROW_HEIGHT: i32 = 240;

/// Margin that centres a full row horizontally.
pub const ROW_MARGIN: i32 = 39;

/// Height of the bottom panel.
pub const PANEL_HEIGHT: i32 = 480;

/// The bottom panel.
pub open spec fn panel_rect() -> DrawRect {
    DrawRect {
        left: 0,
        top: (DISPLAY_HEIGHT - PANEL_HEIGHT) as u32,
        width: DISPLAY_WIDTH,
        height: PANEL_HEIGHT as u32,
    }
}

pub fn panel() -> (r: DrawRect)
    ensures
        r == panel_rect(),
{
    let d = display();
    DrawRect { left: 0, top: d.height - PANEL_HEIGHT as u32, width: d.width, height: PANEL_HEIGHT as u32 }
}

/// What a gesture on the shell's screen asks for.
#[derive(Clone, Copy, Debug, PartialEq, Eq, Structural)]
pub enum TrayAction {
    /// Leave the shell, resuming the draft that was suspended, if any.
    Exit,
    /// Leave the shell and launch or resume the draft at this index.
    Launch(usize),
    /// Terminate the running draft at this index.
    Close(usize),
}

/// The events that carry out a gesture's action, in order. Leaving the
/// shell stops input completely before any draft runs, and stops the
/// renderer only once the launch has been asked for.
pub fn action_events<D, A>(action: TrayAction, stopped_draft: Option<usize>) -> (r: Vec<
    MainEvent<D, A>,
>)
    ensures
        action is Exit && stopped_draft is None ==> r@.len() == 3 && r@[0] is StopInput
            && r@[1] is StopRenderer && r@[2] is Exit,
        action is Exit && stopped_draft is Some ==> r@.len() == 4 && r@[0] is StopInput
            && r@[1] == MainEvent::<D, A>::Run(stopped_draft->0) && r@[2] is StopRenderer
            && r@[3] is Exit,
        action is Launch ==> r@.len() == 4 && r@[0] is StopInput && r@[1] == MainEvent::<
            D,
            A,
        >::Run(action->Launch_0) && r@[2] is StopRenderer && r@[3] is Exit,
        action is Close ==> r@.len() == 1 && r@[0] is Redraw,
{
    let mut v: Vec<MainEvent<D, A>> = Vec::new();
    match action {
        TrayAction::Exit => {
            v.push(MainEvent::StopInput);
            match stopped_draft {
                Some(i) => v.push(MainEvent::Run(i)),
                None => {},
            }
            v.push(MainEvent::StopRenderer);
            v.push(MainEvent::Exit);
        },
        TrayAction::Launch(i) => {
            v.push(MainEvent::StopInput);
            v.push(MainEvent::Run(i));
            v.push(MainEvent::StopRenderer);
            v.push(MainEvent::Exit);
        },
        TrayAction::Close(_) => {
            v.push(MainEvent::Redraw);
        },
    }
    v
}

/// The repaint profile used for the shell's own updates.
pub open spec fn fast_profile_spec() -> RefreshProfile {
    RefreshProfile {
        waveform: Waveform::Gc16Fast,
        temperature: Temperature::RemarkableDraw,
        dither: Dither::Passthrough,
        quant_bit: 0,
    }
}

/// The repaint profile used for the shell's own updates.
pub fn fast_profile() -> (r: RefreshProfile)
    ensures
        r == fast_profile_spec(),
{
    RefreshProfile {
        waveform: Waveform::Gc16Fast,
        temperature: Temperature::RemarkableDraw,
        dither: Dither::Passthrough,
        quant_bit: 0,
    }
}

/// An asynchronous repaint of the cursor rectangle.
pub fn panel_refresh<A>() -> (r: DrawNode<A>)
    ensures
        r == (DrawNode::<A>::PartialRefresh {
            mode: RefreshMode::Async,
            profile: fast_profile_spec(),
            force_full_refresh: false,
        }),
{
    partial_refresh(RefreshMode::Async, fast_profile(), false)
}

/// A repaint of the whole panel that does not wait for completion.
pub fn screen_refresh<A>() -> (r: DrawNode<A>)
    ensures
        r == (DrawNode::<A>::FullRefresh { profile: fast_profile_spec(), wait_completion: false }),
{
    full_refresh(fast_profile(), false)
}

/// Half of a length: the fraction that centres.
pub open spec fn half() -> Fraction {
    Fraction { num: 1, den: 2 }
}

/// The centre of a rectangle, as its origin moved by half its size.
pub open spec fn centre(c: DrawRect) -> DrawRect {
    c.offset_spec(half().of_spec(c.width) as int, half().of_spec(c.height) as int)
}

/// What the spinner does from cursor `c`: it registers nothing and leaves
/// the cursor at the centre, where its middle dot is drawn.
pub open spec fn spinner_run<A>(c: DrawRect) -> (DrawRect, Seq<Recognizer<A>>) {
    (centre(c), Seq::empty())
}

/// `-ofs`, saturated to the range of `i32`.
pub open spec fn back(ofs: i32) -> i32 {
    if ofs == i32::MIN {
        i32::MAX
    } else {
        (-ofs) as i32
    }
}

proof fn lemma_keeps_cursor<A>(n: DrawNode<A>, r: DrawRect)
    requires
        n.keeps_cursor(),
    ensures
        n.run(r).0 == r,
    decreases n,
{
    match n {
        DrawNode::Then(a, b) => {
            lemma_keeps_cursor(*a, r);
            lemma_keeps_cursor(*b, r);
        },
        DrawNode::Overlay(a, _) => {
            lemma_keeps_cursor(*a, r);
        },
        _ => {},
    }
}

proof fn lemma_list_silent<A>(n: DrawNode<A>, i: int, r: DrawRect)
    requires
        n is VerticalFixed,
        0 <= i,
        forall|k: int, q: DrawRect|
            0 <= k < n.items().len() ==> (#[trigger] n.items()[k].run(q)).1 == Seq::<
                Recognizer<A>,
            >::empty(),
    ensures
        n.run_from(i, r).1 == Seq::<Recognizer<A>>::empty(),
    decreases n.remaining(i),
{
    if i < n.items().len() {
        let p = n.items()[i].run(r);
        let next = n.advance_spec(r, p.0);
        if !next.has_no_area() {
            lemma_list_silent(n, i + 1, next);
            assert(n.run_from(i, r).1 =~= Seq::<Recognizer<A>>::empty());
        }
    }
}

proof fn lemma_overlay_known<A>(a: DrawNode<A>, b: DrawNode<A>, c: DrawRect)
    ensures
        DrawNode::Overlay(Box::new(a), Box::new(b)).run(c) == (
            a.run(c).0,
            a.run(c).1 + b.run(a.run(c).0).1,
        ),
{
}

proof fn lemma_then_known<A>(a: DrawNode<A>, b: DrawNode<A>, c: DrawRect)
    ensures
        DrawNode::Then(Box::new(a), Box::new(b)).run(c) == (
            b.run(a.run(c).0).0,
            a.run(c).1 + b.run(a.run(c).0).1,
        ),
{
}

proof fn lemma_spinner<A>(
    oa: DrawNode<A>,
    t1: DrawNode<A>,
    l1: DrawNode<A>,
    l2: DrawNode<A>,
    t3: DrawNode<A>,
    r: DrawNode<A>,
    ofs: i32,
    rad: u32,
    color: Color,
    c: DrawRect,
)
    requires
        oa == (DrawNode::<A>::OffsetAbsolute { fx: half(), fy: half() }),
        t1 == DrawNode::Then(
            Box::new((DrawNode::<A>::OffsetRelative { dx: back(ofs), dy: 0 })),
            Box::new((DrawNode::<A>::CircleFill { rad, color })),
        ),
        l1 == DrawNode::Overlay(Box::new(oa), Box::new(t1)),
        l2 == DrawNode::Overlay(Box::new(l1), Box::new((DrawNode::<A>::CircleFill { rad, color }))),
        t3 == DrawNode::Then(
            Box::new((DrawNode::<A>::OffsetRelative { dx: ofs, dy: 0 })),
            Box::new((DrawNode::<A>::CircleFill { rad, color })),
        ),
        r == DrawNode::Overlay(Box::new(l2), Box::new(t3)),
    ensures
        r.exact(),
        r.run(c) == spinner_run::<A>(c),
{
    let m = centre(c);
    let e = Seq::<Recognizer<A>>::empty();
    assert(oa.run(c) == (m, e));
    let a = m.offset_spec(back(ofs) as int, 0);
    let b = m.offset_spec(ofs as int, 0);
    assert((DrawNode::<A>::OffsetRelative { dx: back(ofs), dy: 0 }).run(m) == (a, e));
    assert((DrawNode::<A>::OffsetRelative { dx: ofs, dy: 0 }).run(m) == (b, e));
    assert((DrawNode::<A>::CircleFill { rad, color }).run(a) == (a, e));
    assert((DrawNode::<A>::CircleFill { rad, color }).run(b) == (b, e));
    assert((DrawNode::<A>::CircleFill { rad, color }).run(m) == (m, e));
    lemma_then_known((DrawNode::<A>::OffsetRelative { dx: back(ofs), dy: 0 }), (DrawNode::<A>::CircleFill { rad, color }), m);
    lemma_then_known((DrawNode::<A>::OffsetRelative { dx: ofs, dy: 0 }), (DrawNode::<A>::CircleFill { rad, color }), m);
    assert(t1.run(m).1 =~= e);
    assert(t3.run(m).1 =~= e);
    lemma_overlay_known(oa, t1, c);
    assert(l1.run(c).1 =~= e);
    lemma_overlay_known(l1, DrawNode::<A>::CircleFill { rad, color }, c);
    assert(l2.run(c).1 =~= e);
    lemma_overlay_known(l2, t3, c);
    assert(r.run(c).1 =~= e);
    assert(r.exact()) by {
        reveal_with_fuel(DrawNode::sound_from, 8);
    }
}

/// A progress indicator of three dots centred in the cursor rectangle.
pub fn spinner<A>(ofs: i32, rad: u32, color: Color) -> (r: DrawNode<A>)
    ensures
        r.exact(),
        r is Overlay,
        forall|c: DrawRect| #![trigger r.run(c)] r.run(c) == spinner_run::<A>(c),
{
    let h = Fraction { num: 1, den: 2 };
    let bk = neg_sat(ofs);
    let oa = offset_absolute(h, h);
    let t1 = offset_relative(bk, 0).followed_by(circle_fill(rad, color));
    let l1 = oa.overlay(t1);
    let l2 = l1.overlay(circle_fill(rad, color));
    let t3 = offset_relative(ofs, 0).followed_by(circle_fill(rad, color));
    let ghost (goa, gt1, gl1, gl2, gt3) = (oa, t1, l1, l2, t3);
    let r = l2.overlay(t3);
    proof {
        assert forall|c: DrawRect| #![trigger r.run(c)] r.run(c) == spinner_run::<A>(c) by {
            lemma_spinner(goa, gt1, gl1, gl2, gt3, r, ofs, rad, color, c);
        }
        lemma_spinner(goa, gt1, gl1, gl2, gt3, r, ofs, rad, color, display_rect());
    }
    r
}

/// How far an icon `w` pixels wide is moved to sit centred in its square.
pub open spec fn inset(w: u32) -> i32 {
    trunc_div(ICON_SIZE - w, 2) as i32
}

/// What an icon does from cursor `c`: it registers nothing and the cursor
/// becomes the icon's box, centred in the icon square.
pub open spec fn icon_run<A>(img: Image, c: DrawRect) -> (DrawRect, Seq<Recognizer<A>>) {
    let p = c.offset_spec(inset(img.width) as int, inset(img.height) as int);
    (DrawRect { left: p.left, top: p.top, width: img.width, height: img.height }, Seq::empty())
}

proof fn lemma_icon<A>(g: Image, dx: i32, dy: i32, r: DrawNode<A>, c: DrawRect)
    requires
        dx == inset(g.width),
        dy == inset(g.height),
        r == DrawNode::Then(
            Box::new((DrawNode::<A>::OffsetRelative { dx, dy })),
            Box::new(DrawNode::<A>::Image(g)),
        ),
    ensures
        r.exact(),
        r.run(c) == icon_run::<A>(g, c),
{
    let p = c.offset_spec(dx as int, dy as int);
    let e = Seq::<Recognizer<A>>::empty();
    assert((DrawNode::<A>::OffsetRelative { dx, dy }).run(c) == (p, e));
    assert(DrawNode::<A>::Image(g).run(p) == (
        DrawRect { left: p.left, top: p.top, width: g.width, height: g.height },
        e,
    ));
    lemma_then_known((DrawNode::<A>::OffsetRelative { dx, dy }), DrawNode::<A>::Image(g), c);
    assert(r.run(c).1 =~= e);
    assert(r.exact()) by {
        reveal_with_fuel(DrawNode::sound_from, 8);
    }
}

/// An icon centred in its square, or the spinner while it is not loaded.
pub fn draft_icon<A>(icon: Option<Image>) -> (r: DrawNode<A>)
    ensures
        r.exact(),
        icon is None ==> forall|c: DrawRect|
            #![trigger r.run(c)]
            r.run(c) == spinner_run::<A>(c),
        icon is Some ==> forall|c: DrawRect|
            #![trigger r.run(c)]
            r.run(c) == icon_run::<A>(icon->Some_0, c),
{
    match icon {
        Some(img) => {
            let ghost g = img;
            let dx = ((ICON_SIZE as i64 - img.width as i64) / 2) as i32;
            let dy = ((ICON_SIZE as i64 - img.height as i64) / 2) as i32;
            assert(dx == inset(g.width));
            assert(dy == inset(g.height));
            let r = offset_relative(dx, dy).followed_by(image(img));
            proof {
                assert forall|c: DrawRect| #![trigger r.run(c)]
                    r.run(c) == icon_run::<A>(g, c) by {
                    lemma_icon::<A>(g, dx, dy, r, c);
                }
                lemma_icon::<A>(g, dx, dy, r, display_rect());
            }
            r
        },
        None => spinner(16, 4, Color::Black),
    }
}

/// The zone of the close button when its square starts at `c`.
pub open spec fn close_zone(c: DrawRect) -> DrawRect {
    c.margin_left_spec(ICON_SIZE - 32).margin_bottom_spec(ICON_SIZE - 32)
}

/// The tap that terminates draft `index`, gated on `zone`.
pub open spec fn close_gate(zone: DrawRect, index: usize) -> Recognizer<TrayAction> {
    Recognizer::ZoneGate {
        zone,
        inner: Box::new(Recognizer::Tap { hysteresis: 32, action: TrayAction::Close(index) }),
    }
}

/// The tap that launches draft `index`, gated on `zone`.
pub open spec fn launch_gate(zone: DrawRect, index: usize) -> Recognizer<TrayAction> {
    Recognizer::ZoneGate {
        zone,
        inner: Box::new(Recognizer::Tap { hysteresis: 32, action: TrayAction::Launch(index) }),
    }
}

#[verifier::rlimit(100)]
proof fn lemma_close(
    index: usize,
    corner: DrawNode<TrayAction>,
    gated: DrawNode<TrayAction>,
    border: DrawNode<TrayAction>,
    boxed: DrawNode<TrayAction>,
    l1: DrawNode<TrayAction>,
    l2: DrawNode<TrayAction>,
    crossed: DrawNode<TrayAction>,
    r: DrawNode<TrayAction>,
    c: DrawRect,
)
    requires
        corner == DrawNode::Then(
            Box::new(
                DrawNode::Then(
                    Box::new(DrawNode::<TrayAction>::Unit),
                    Box::new(DrawNode::<TrayAction>::MarginLeft(124)),
                ),
            ),
            Box::new(DrawNode::<TrayAction>::MarginBottom(124)),
        ),
        gated == DrawNode::Then(
            Box::new(corner),
            Box::new(
                DrawNode::RecognizeGesture(
                    (Recognizer::Tap { hysteresis: 32, action: TrayAction::Close(index) }),
                ),
            ),
        ),
        border == DrawNode::Then(
            Box::new(DrawNode::<TrayAction>::RectFill(Color::White)),
            Box::new((DrawNode::<TrayAction>::RectStroke { border_px: 2, color: Color::Black })),
        ),
        boxed == DrawNode::Then(
            Box::new(DrawNode::Then(Box::new(gated), Box::new(border))),
            Box::new((DrawNode::<TrayAction>::OffsetAbsolute { fx: half(), fy: half() })),
        ),
        l1 is Line,
        l2 is Line,
        crossed == DrawNode::Overlay(Box::new(boxed), Box::new(l1)),
        r == DrawNode::Overlay(Box::new(crossed), Box::new(l2)),
    ensures
        r.exact(),
        r.run(c).1 == seq![close_gate(close_zone(c), index)],
{
    reveal_with_fuel(DrawNode::run_from, 3);
    let z = close_zone(c);
    let gate = close_gate(z, index);
    let inner = DrawNode::<TrayAction>::Then(
        Box::new(DrawNode::Unit),
        Box::new(DrawNode::MarginLeft(124)),
    );
    assert(inner.run(c).0 == c.margin_left_spec(124));
    assert(inner.run(c).1 =~= Seq::<Recognizer<TrayAction>>::empty());
    assert(corner.run(c).0 == z);
    assert(corner.run(c).1 =~= Seq::<Recognizer<TrayAction>>::empty());
    assert(gated.run(c).1 =~= seq![gate]);
    assert(gated.run(c).0 == z);
    assert(border.run(z).1 =~= Seq::<Recognizer<TrayAction>>::empty());
    let inner2 = DrawNode::Then(Box::new(gated), Box::new(border));
    assert(inner2.run(c).1 =~= seq![gate]);
    assert(boxed.run(c).1 =~= seq![gate]);
    assert(crossed.run(c).1 =~= seq![gate]);
    assert(r.run(c).1 =~= seq![gate]);
    assert(r.exact()) by {
        reveal_with_fuel(DrawNode::sound_from, 8);
    }
}

/// The close button in an icon's corner, shown only while the draft runs:
/// a tap on it, and nothing else, asks to terminate draft `index`.
pub fn close_button(running: bool, index: usize) -> (r: DrawNode<TrayAction>)
    ensures
        r.exact(),
        !running ==> r is Unit,
        running ==> forall|c: DrawRect|
            #![trigger r.run(c)]
            r.run(c).1 == seq![close_gate(close_zone(c), index)],
{
    if running {
        let tap = recognize_tap(TAP_HYSTERESIS, TrayAction::Close(index));
        let corner = unit().followed_by(margin_left(ICON_SIZE - 32)).followed_by(
            margin_bottom(ICON_SIZE - 32),
        );
        let gated = corner.followed_by(recognize_gesture(tap));
        let border = rect_border(2, Color::White, Color::Black);
        let ghost (gc, gg, gb) = (corner, gated, border);
        let boxed = gated.followed_by(border).followed_by(
            offset_absolute(Fraction { num: 1, den: 2 }, Fraction { num: 1, den: 2 }),
        );
        let l1 = line((-10, -10), (10, 10), 3, Color::Black);
        let l2 = line((10, -10), (-10, 10), 3, Color::Black);
        let ghost (gbx, gl1, gl2) = (boxed, l1, l2);
        let crossed = boxed.overlay(l1);
        let ghost gcr = crossed;
        let r = crossed.overlay(l2);
        proof {
            assert forall|c: DrawRect| #![trigger r.run(c)]
                r.run(c).1 == seq![close_gate(close_zone(c), index)] by {
                lemma_close(index, gc, gg, gb, gbx, gl1, gl2, gcr, r, c);
            }
            lemma_close(index, gc, gg, gb, gbx, gl1, gl2, gcr, r, display_rect());
        }
        r
    } else {
        unit()
    }
}

/// The icon square of a draft whose cell starts at `c`.
pub open spec fn square(c: DrawRect) -> DrawRect {
    DrawRect { width: ICON_SIZE as u32, height: ICON_SIZE as u32, ..c }
}

/// The square grown by one pixel on every side, where the frame is drawn.
pub open spec fn framed(c: DrawRect) -> DrawRect {
    square(c).margin_left_spec(-1).margin_right_spec(-1).margin_top_spec(-1).margin_bottom_spec(-1)
}

#[verifier::rlimit(100)]
spec fn mlr_node() -> DrawNode<TrayAction> {
    DrawNode::Then(
        Box::new(DrawNode::<TrayAction>::MarginLeft(-1i32)),
        Box::new(DrawNode::<TrayAction>::MarginRight(-1i32)),
    )
}

spec fn mtb_node() -> DrawNode<TrayAction> {
    DrawNode::Then(
        Box::new(DrawNode::<TrayAction>::MarginTop(-1i32)),
        Box::new(DrawNode::<TrayAction>::MarginBottom(-1i32)),
    )
}

proof fn lemma_vf_texts(n: DrawNode<TrayAction>, i: int)
    requires
        n is VerticalFixed,
        0 <= i,
        forall|k: int| 0 <= k < n.items().len() ==> ((#[trigger] n.items()[k]) is TextAligned),
    ensures
        n.sound_from(i, false),
        n.sound_from(i, true),
    decreases n.remaining(i),
{
    if i < n.items().len() {
        lemma_vf_texts(n, i + 1);
        assert(n.items()[i] is TextAligned);
        assert(n.items()[i].sound_from(0, false));
    }
}

proof fn lemma_h_exact(n: DrawNode<TrayAction>, i: int)
    requires
        n is Horizontal,
        0 <= i,
        forall|k: int| 0 <= k < n.items().len() ==> (#[trigger] n.items()[k]).exact(),
    ensures
        n.sound_from(i, false),
        n.sound_from(i, true),
    decreases n.remaining(i),
{
    if i < n.items().len() {
        lemma_h_exact(n, i + 1);
        assert(n.items()[i].exact());
    }
}

proof fn lemma_program_exact(
    index: usize,
    running: bool,
    sq: DrawNode<TrayAction>,
    mg: DrawNode<TrayAction>,
    fr: DrawNode<TrayAction>,
    icon: DrawNode<TrayAction>,
    close: DrawNode<TrayAction>,
    deco: DrawNode<TrayAction>,
    sized: DrawNode<TrayAction>,
    caption: DrawNode<TrayAction>,
    list: DrawNode<TrayAction>,
    r: DrawNode<TrayAction>,
)
    requires
        sq == DrawNode::Then(
            Box::new(DrawNode::<TrayAction>::SetHeight(156)),
            Box::new(
                DrawNode::RecognizeGesture(
                    (Recognizer::Tap { hysteresis: 32, action: TrayAction::Launch(index) }),
                ),
            ),
        ),
        mg == DrawNode::Then(
            Box::new(
                DrawNode::Then(
                    Box::new(DrawNode::<TrayAction>::MarginLeft(-1i32)),
                    Box::new(DrawNode::<TrayAction>::MarginRight(-1i32)),
                ),
            ),
            Box::new(
                DrawNode::Then(
                    Box::new(DrawNode::<TrayAction>::MarginTop(-1i32)),
                    Box::new(DrawNode::<TrayAction>::MarginBottom(-1i32)),
                ),
            ),
        ),
        fr == DrawNode::Then(
            Box::new(DrawNode::Then(Box::new(sq), Box::new(mg))),
            Box::new((DrawNode::<TrayAction>::RectStroke { border_px: 2, color: Color::Black })),
        ),
        forall|q: DrawRect| #[trigger] icon.run(q).1 == Seq::<Recognizer<TrayAction>>::empty(),
        icon.exact(),
        close.exact(),
        !running ==> (close is Unit),
        running ==> forall|q: DrawRect| #[trigger] close.run(q).1 == seq![
            close_gate(close_zone(q), index),
        ],
        deco == DrawNode::Overlay(Box::new(DrawNode::Overlay(Box::new(fr), Box::new(icon))), Box::new(close)),
        sized == DrawNode::Overlay(Box::new(DrawNode::<TrayAction>::SetWidth(156)), Box::new(deco)),
        (list is VerticalFixed),
        forall|k: int| 0 <= k < list.items().len() ==> ((#[trigger] list.items()[k]) is TextAligned),
        caption == DrawNode::Then(
            Box::new(
                DrawNode::Then(
                    Box::new(DrawNode::<TrayAction>::MarginTop(195)),
                    Box::new((DrawNode::<TrayAction>::OffsetRelative { dx: 78, dy: 0 })),
                ),
            ),
            Box::new(list),
        ),
        r == DrawNode::Overlay(Box::new(sized), Box::new(caption)),
    ensures
        r.exact(),
{
    let sm = DrawNode::Then(Box::new(sq), Box::new(mg));
    let fi = DrawNode::Overlay(Box::new(fr), Box::new(icon));
    let mo = DrawNode::Then(
        Box::new(DrawNode::<TrayAction>::MarginTop(195)),
        Box::new((DrawNode::<TrayAction>::OffsetRelative { dx: 78, dy: 0 })),
    );
    reveal_with_fuel(DrawNode::sound_from, 3);
    lemma_vf_texts(list, 0);
    assert(sq.exact());
    assert(mlr_node().exact());
    assert(mtb_node().exact());
    assert(mg.exact());
    assert(sm.exact());
    assert(fr.exact());
    lemma_exact_regs(icon);
    assert(fi.exact());
    lemma_exact_regs(close);
    assert(deco.exact());
    lemma_exact_regs(deco);
    assert(sized.exact());
    assert(mo.exact());
    assert(caption.regs_exact());
}

proof fn lemma_program(
    index: usize,
    running: bool,
    sq: DrawNode<TrayAction>,
    mg: DrawNode<TrayAction>,
    fr: DrawNode<TrayAction>,
    icon: DrawNode<TrayAction>,
    close: DrawNode<TrayAction>,
    deco: DrawNode<TrayAction>,
    sized: DrawNode<TrayAction>,
    caption: DrawNode<TrayAction>,
    list: DrawNode<TrayAction>,
    r: DrawNode<TrayAction>,
    c: DrawRect,
)
    requires
        sq == DrawNode::Then(
            Box::new(DrawNode::<TrayAction>::SetHeight(156)),
            Box::new(
                DrawNode::RecognizeGesture(
                    (Recognizer::Tap { hysteresis: 32, action: TrayAction::Launch(index) }),
                ),
            ),
        ),
        mg == DrawNode::Then(
            Box::new(
                DrawNode::Then(
                    Box::new(DrawNode::<TrayAction>::MarginLeft(-1i32)),
                    Box::new(DrawNode::<TrayAction>::MarginRight(-1i32)),
                ),
            ),
            Box::new(
                DrawNode::Then(
                    Box::new(DrawNode::<TrayAction>::MarginTop(-1i32)),
                    Box::new(DrawNode::<TrayAction>::MarginBottom(-1i32)),
                ),
            ),
        ),
        fr == DrawNode::Then(
            Box::new(DrawNode::Then(Box::new(sq), Box::new(mg))),
            Box::new((DrawNode::<TrayAction>::RectStroke { border_px: 2, color: Color::Black })),
        ),
        forall|q: DrawRect| #[trigger] icon.run(q).1 == Seq::<Recognizer<TrayAction>>::empty(),
        icon.exact(),
        close.exact(),
        !running ==> (close is Unit),
        running ==> forall|q: DrawRect| #[trigger] close.run(q).1 == seq![
            close_gate(close_zone(q), index),
        ],
        deco == DrawNode::Overlay(Box::new(DrawNode::Overlay(Box::new(fr), Box::new(icon))), Box::new(close)),
        sized == DrawNode::Overlay(Box::new(DrawNode::<TrayAction>::SetWidth(156)), Box::new(deco)),
        (list is VerticalFixed),
        forall|k: int| 0 <= k < list.items().len() ==> ((#[trigger] list.items()[k]) is TextAligned),
        caption == DrawNode::Then(
            Box::new(
                DrawNode::Then(
                    Box::new(DrawNode::<TrayAction>::MarginTop(195)),
                    Box::new((DrawNode::<TrayAction>::OffsetRelative { dx: 78, dy: 0 })),
                ),
            ),
            Box::new(list),
        ),
        r == DrawNode::Overlay(Box::new(sized), Box::new(caption)),
    ensures
        r.run(c).0 == (DrawRect { width: ICON_SIZE as u32, ..c }),
        r.run(c).1 == seq![launch_gate(square(c), index)] + (if running {
            seq![close_gate(close_zone(framed(c)), index)]
        } else {
            Seq::<Recognizer<TrayAction>>::empty()
        }),
{
    let cw = DrawRect { width: 156, ..c };
    let cs = square(c);
    let e = Seq::<Recognizer<TrayAction>>::empty();
    let gate = launch_gate(cs, index);
    lemma_square_leaf(index, cw);
    lemma_frame_margin(cs);
    let sm = DrawNode::Then(Box::new(sq), Box::new(mg));
    lemma_then_known(sq, mg, cw);
    assert(sm.run(cw).1 =~= seq![gate]);
    let st = DrawNode::<TrayAction>::RectStroke { border_px: 2, color: Color::Black };
    assert(st.run(framed(c)).0 == framed(c));
    assert(st.run(framed(c)).1 == e);
    lemma_then_known(sm, st, cw);
    assert(fr.run(cw).1 =~= seq![gate]);
    assert(fr.run(cw).0 == framed(c));
    let fi = DrawNode::Overlay(Box::new(fr), Box::new(icon));
    lemma_overlay_known(fr, icon, cw);
    assert(icon.run(framed(c)).1 == e);
    assert(fi.run(cw).1 =~= seq![gate]);
    let extra = if running {
        seq![close_gate(close_zone(framed(c)), index)]
    } else {
        e
    };
    assert(close.run(framed(c)).1 == extra);
    lemma_overlay_known(fi, close, cw);
    assert(deco.run(cw).1 =~= seq![gate] + extra);
    let sw = DrawNode::<TrayAction>::SetWidth(156);
    assert(sw.run(c).0 == cw);
    assert(sw.run(c).1 == e);
    lemma_overlay_known(sw, deco, c);
    assert(sized.run(c).1 =~= seq![gate] + extra);
    assert(sized.run(c).0 == cw);
    let mt = DrawNode::<TrayAction>::MarginTop(195);
    let orl = DrawNode::<TrayAction>::OffsetRelative { dx: 78, dy: 0 };
    let mo = DrawNode::Then(Box::new(mt), Box::new(orl));
    assert(mt.run(cw).1 == e);
    assert(orl.run(mt.run(cw).0).1 == e);
    lemma_then_known(mt, orl, cw);
    assert(mo.run(cw).1 =~= e);
    let start = mo.run(cw).0;
    assert forall|k: int, q: DrawRect| 0 <= k < list.items().len() implies (#[trigger] list.items()[
        k
    ].run(q)).1 == e by {
        assert(list.items()[k] is TextAligned);
    }
    lemma_list_silent(list, 0, start);
    lemma_then_known(mo, list, cw);
    assert(caption.run(cw).1 =~= e);
    lemma_overlay_known(sized, caption, c);
    assert(r.run(c).1 =~= seq![gate] + extra);

}

proof fn lemma_square_leaf(index: usize, cw: DrawRect)
    ensures
        DrawNode::Then(
            Box::new(DrawNode::<TrayAction>::SetHeight(156)),
            Box::new(
                DrawNode::RecognizeGesture(
                    (Recognizer::Tap { hysteresis: 32, action: TrayAction::Launch(index) }),
                ),
            ),
        ).run(cw) == (
            DrawRect { height: 156, ..cw },
            seq![launch_gate(DrawRect { height: 156, ..cw }, index)],
        ),
{
    let cs = DrawRect { height: 156, ..cw };
    let n = DrawNode::Then(
        Box::new(DrawNode::<TrayAction>::SetHeight(156)),
        Box::new(
            DrawNode::RecognizeGesture(
                (Recognizer::Tap { hysteresis: 32, action: TrayAction::Launch(index) }),
            ),
        ),
    );
    assert((DrawNode::<TrayAction>::SetHeight(156)).run(cw) == (
        cs,
        Seq::<Recognizer<TrayAction>>::empty(),
    ));
    let rg = DrawNode::RecognizeGesture(
        (Recognizer::Tap { hysteresis: 32, action: TrayAction::Launch(index) }),
    );
    assert(rg.run(cs).1 =~= seq![launch_gate(cs, index)]);
    assert(rg.run(cs).0 == cs);
    lemma_then_known((DrawNode::<TrayAction>::SetHeight(156)), rg, cw);
    assert(n.run(cw).1 =~= seq![launch_gate(cs, index)]);
}

proof fn lemma_frame_margin(cs: DrawRect)
    ensures
        DrawNode::Then(
            Box::new(
                DrawNode::Then(
                    Box::new(DrawNode::<TrayAction>::MarginLeft(-1i32)),
                    Box::new(DrawNode::<TrayAction>::MarginRight(-1i32)),
                ),
            ),
            Box::new(
                DrawNode::Then(
                    Box::new(DrawNode::<TrayAction>::MarginTop(-1i32)),
                    Box::new(DrawNode::<TrayAction>::MarginBottom(-1i32)),
                ),
            ),
        ).run(cs).0 == cs.margin_left_spec(-1).margin_right_spec(-1).margin_top_spec(
            -1,
        ).margin_bottom_spec(-1),
        DrawNode::Then(
            Box::new(
                DrawNode::Then(
                    Box::new(DrawNode::<TrayAction>::MarginLeft(-1i32)),
                    Box::new(DrawNode::<TrayAction>::MarginRight(-1i32)),
                ),
            ),
            Box::new(
                DrawNode::Then(
                    Box::new(DrawNode::<TrayAction>::MarginTop(-1i32)),
                    Box::new(DrawNode::<TrayAction>::MarginBottom(-1i32)),
                ),
            ),
        ).run(cs).1 == Seq::<Recognizer<TrayAction>>::empty(),
{
    let mlr = DrawNode::Then(
        Box::new(DrawNode::<TrayAction>::MarginLeft(-1i32)),
        Box::new(DrawNode::<TrayAction>::MarginRight(-1i32)),
    );
    let mtb = DrawNode::Then(
        Box::new(DrawNode::<TrayAction>::MarginTop(-1i32)),
        Box::new(DrawNode::<TrayAction>::MarginBottom(-1i32)),
    );
    let a = cs.margin_left_spec(-1);
    let b = a.margin_right_spec(-1);
    let c = b.margin_top_spec(-1);
    assert((DrawNode::<TrayAction>::MarginLeft(-1i32)).run(cs).0 == a);
    assert((DrawNode::<TrayAction>::MarginRight(-1i32)).run(a).0 == b);
    assert((DrawNode::<TrayAction>::MarginTop(-1i32)).run(b).0 == c);
    assert((DrawNode::<TrayAction>::MarginBottom(-1i32)).run(c).0 == c.margin_bottom_spec(-1));
    assert(mlr.run(cs).0 == b);
    assert(mlr.run(cs).1 =~= Seq::<Recognizer<TrayAction>>::empty());
    assert(mtb.run(b).1 =~= Seq::<Recognizer<TrayAction>>::empty());
}

/// One draft: its icon square, which launches it on a tap, the close
/// button while it runs, and its name below, one word per line. The
/// cursor is left at the square's width.
pub fn draft_program(name: &str, index: usize, icon: Option<Image>, running: bool) -> (r:
    DrawNode<TrayAction>)
    ensures
        r.exact(),
        forall|c: DrawRect|
            #![trigger r.run(c)]
            r.run(c).0 == (DrawRect { width: ICON_SIZE as u32, ..c }) && r.run(c).1
                == seq![launch_gate(square(c), index)] + (if running {
                seq![close_gate(close_zone(framed(c)), index)]
            } else {
                Seq::<Recognizer<TrayAction>>::empty()
            }),
{
    let mut captions: Vec<DrawNode<TrayAction>> = Vec::new();
    let spans = split_words(name);
    let n = spans.len();
    let mut k: usize = 0;
    while k < n
        invariant
            n == spans@.len(),
            spans_of(name@, spans@, words(name@), name@.len() as int),
            forall|j: int| 0 <= j < captions@.len() ==> (#[trigger] captions@[j]) is TextAligned,
        decreases n - k,
    {
        let w = String::from_str(name.substring_char(spans[k].0, spans[k].1));
        captions.push(
            text_aligned(
                w,
                FONT_SIZE,
                Fraction { num: 1, den: 2 },
                Fraction { num: 0, den: 1 },
                Color::Black,
            ),
        );
        k = k + 1;
    }
    let tap = recognize_tap(TAP_HYSTERESIS, TrayAction::Launch(index));
    let sq = set_height(ICON_SIZE as u32).followed_by(recognize_gesture(tap));
    let mg = margin(-1);
    let ghost (gsq, gmg) = (sq, mg);
    let fr = sq.followed_by(mg).followed_by(rect_stroke(2, Color::Black));
    let ic = draft_icon(icon);
    let cl = close_button(running, index);
    let ghost (gfr, gic, gcl) = (fr, ic, cl);
    let deco = fr.overlay(ic).overlay(cl);
    let ghost gdeco = deco;
    let sized = set_width(ICON_SIZE as u32).overlay(deco);
    let list = vertical_fixed(FONT_SIZE as i32 - 8, captions);
    let ghost (gsized, glist) = (sized, list);
    let caption = margin_top(ICON_SIZE + ICON_SPACING).followed_by(
        offset_relative(ICON_SIZE / 2, 0),
    ).followed_by(list);
    let ghost gcap = caption;
    let r = sized.overlay(caption);
    proof {
        assert forall|q: DrawRect| #[trigger] gic.run(q).1 == Seq::<
            Recognizer<TrayAction>,
        >::empty() by {
            if icon is Some {
                assert(gic.run(q).1 =~= Seq::<Recognizer<TrayAction>>::empty());
            } else {
                assert(gic.run(q) == spinner_run::<TrayAction>(q));
            }
        }
        assert forall|c: DrawRect| #![trigger r.run(c)]
            r.run(c).0 == (DrawRect { width: ICON_SIZE as u32, ..c }) && r.run(c).1
                == seq![launch_gate(square(c), index)] + (if running {
                seq![close_gate(close_zone(framed(c)), index)]
            } else {
                Seq::<Recognizer<TrayAction>>::empty()
            }) by {
            lemma_program(
                index,
                running,
                gsq,
                gmg,
                gfr,
                gic,
                gcl,
                gdeco,
                gsized,
                gcap,
                glist,
                r,
                c,
            );
        }
        lemma_program(
            index,
            running,
            gsq,
            gmg,
            gfr,
            gic,
            gcl,
            gdeco,
            gsized,
            gcap,
            glist,
            r,
            display_rect(),
        );
        lemma_program_exact(
            index,
            running,
            gsq,
            gmg,
            gfr,
            gic,
            gcl,
            gdeco,
            gsized,
            gcap,
            glist,
            r,
        );
    }
    r
}

/// How far down row `k` of icons is placed.
pub open spec fn row_y(k: int) -> i32 {
    if k < 8_000_000 {
        (ROW_HEIGHT * k) as i32
    } else {
        i32::MAX
    }
}

/// Registrations of the icons `ps[j..end]` laid out left to right from
/// cursor `r`, each advancing by its width plus the icon spacing, and
/// stopping once the cursor has no area left.
pub open spec fn row_regs(ps: Seq<DrawNode<TrayAction>>, j: int, end: int, r: DrawRect) -> Seq<
    Recognizer<TrayAction>,
>
    decreases end - j,
{
    if j < 0 || j >= end || end > ps.len() {
        Seq::empty()
    } else {
        let p = ps[j].run(r);
        let next = r.margin_left_spec(p.0.width + ICON_SPACING);
        if next.has_no_area() {
            p.1
        } else {
            p.1 + row_regs(ps, j + 1, end, next)
        }
    }
}

/// Registrations of the first `k` rows of `COLUMNS` icons each, row `i`
/// starting at cursor `c` moved down by `row_y(i)`.
pub open spec fn grid_regs(ps: Seq<DrawNode<TrayAction>>, k: nat, c: DrawRect) -> Seq<
    Recognizer<TrayAction>,
>
    decreases k,
{
    if k == 0 {
        Seq::empty()
    } else {
        let first = 7 * (k - 1);
        let end = if 7 * k <= ps.len() {
            (7 * k) as int
        } else {
            ps.len() as int
        };
        grid_regs(ps, (k - 1) as nat, c) + row_regs(ps, first, end, c.offset_spec(0, row_y(k - 1) as int))
    }
}

/// The number of rows `n` icons take.
pub open spec fn row_count(n: nat) -> nat {
    ((n + 6) / 7) as nat
}

proof fn lemma_row(h: DrawNode<TrayAction>, ps: Seq<DrawNode<TrayAction>>, b: int, e: int, i: int, r: DrawRect)
    requires
        (h matches DrawNode::Horizontal { spacing, .. } && spacing == ICON_SPACING),
        0 <= b <= e <= ps.len(),
        h.items() == ps.subrange(b, e),
        0 <= i,
    ensures
        h.run_from(i, r).1 == row_regs(ps, b + i, e, r),
    decreases h.remaining(i),
{
    if i < h.items().len() {
        assert(h.items()[i] == ps[b + i]);
        let p = ps[b + i].run(r);
        let next = r.margin_left_spec(p.0.width + ICON_SPACING);
        assert(h.advance_spec(r, p.0) == next);
        if !next.has_no_area() {
            lemma_row(h, ps, b, e, i + 1, next);
        }
    }
}

proof fn lemma_grid_step(
    old_rows: DrawNode<TrayAction>,
    gp: DrawNode<TrayAction>,
    gh: DrawNode<TrayAction>,
    ps: Seq<DrawNode<TrayAction>>,
    start: int,
    end: int,
    row: int,
    dy: i32,
    q: DrawRect,
)
    requires
        (gh matches DrawNode::Horizontal { spacing, .. } && spacing == ICON_SPACING),
        0 <= row,
        start == 7 * row,
        0 <= start <= end <= ps.len(),
        end == (if 7 * (row + 1) <= ps.len() {
            7 * (row + 1)
        } else {
            ps.len() as int
        }),
        gh.items() == ps.subrange(start, end),
        dy == row_y(row),
        gp == DrawNode::Then(Box::new((DrawNode::<TrayAction>::OffsetRelative { dx: 0, dy })), Box::new(gh)),
        old_rows.run(q) == (q, grid_regs(ps, row as nat, q)),
    ensures
        DrawNode::Overlay(Box::new(old_rows), Box::new(gp)).run(q) == (
            q,
            grid_regs(ps, (row + 1) as nat, q),
        ),
{
    let p0 = q.offset_spec(0, dy as int);
    lemma_row(gh, ps, start, end, 0, p0);
    assert((DrawNode::<TrayAction>::OffsetRelative { dx: 0, dy }).run(q) == (
        p0,
        Seq::<Recognizer<TrayAction>>::empty(),
    ));
    lemma_then_known(DrawNode::<TrayAction>::OffsetRelative { dx: 0, dy }, gh, q);
    lemma_overlay_known(old_rows, gp, q);
    assert(gp.run(q).1 =~= row_regs(ps, start, end, p0));
    assert(DrawNode::Overlay(Box::new(old_rows), Box::new(gp)).run(q).1 =~= grid_regs(
        ps,
        (row + 1) as nat,
        q,
    ));
}

/// The icons in rows of `COLUMNS`, each row below the previous one. The
/// cursor is left where it started; the registrations are those of the
/// rows in order, row `k` holding programs `7k` to `7k + 6` laid out left to
/// right from the cursor moved down by `row_y(k)`.
pub fn draft_icons(programs: Vec<DrawNode<TrayAction>>) -> (r: DrawNode<TrayAction>)
    ensures
        r.keeps_cursor(),
        forall|c: DrawRect|
            #![trigger r.run(c)]
            r.run(c).0 == c && r.run(c).1 == grid_regs(programs@, row_count(programs@.len()), c),
        (forall|k: int| 0 <= k < programs@.len() ==> (#[trigger] programs@[k]).exact())
            ==> r.exact(),
{
    let ghost ps = programs@;
    let ghost n = ps.len();
    let mut rows: DrawNode<TrayAction> = unit();
    let mut items = programs;
    let mut row: usize = 0;
    let mut taken: usize = 0;
    let total = items.len();
    assert(ps.subrange(0, n as int) =~= ps);
    proof {
        assert forall|c: DrawRect| #![trigger rows.run(c)]
            rows.run(c) == (c, grid_regs(ps, 0, c)) by {}
    }
    while items.len() > 0
        invariant
            ps == programs@,
            n == ps.len(),
            n == total,
            taken <= n,
            items@ == ps.subrange(taken as int, n as int),
            items@.len() > 0 ==> taken == 7 * row,
            taken <= 7 * row,
            row > 0 ==> 7 * (row - 1) < taken,
            rows.keeps_cursor(),
            forall|c: DrawRect| #![trigger rows.run(c)] rows.run(c) == (c, grid_regs(ps, row as nat, c)),
            (forall|k: int| 0 <= k < ps.len() ==> (#[trigger] ps[k]).exact()) ==> rows.exact(),
        decreases items@.len(),
    {
        let mut chunk: Vec<DrawNode<TrayAction>> = Vec::new();
        let mut c: usize = 0;
        let ghost start = taken;
        while c < COLUMNS && items.len() > 0
            invariant
                n == ps.len(),
                n <= usize::MAX,
                c <= COLUMNS,
                start == taken,
                start == 7 * row,
                start + c <= n,
                items@ == ps.subrange(start + c, n as int),
                chunk@ == ps.subrange(start as int, start + c),
            decreases items@.len(),
        {
            let ghost before = items@;
            let x = items.remove(0);
            proof {
                assert(before[0] == ps[start + c]);
                assert(x == ps[start + c]);
                assert(items@ =~= ps.subrange(start + c + 1, n as int));
            }
            chunk.push(x);
            assert(chunk@ =~= ps.subrange(start as int, start + c + 1));
            c = c + 1;
        }
        let dy: i32 = if row < 8_000_000 {
            (ROW_HEIGHT as i64 * row as i64) as i32
        } else {
            i32::MAX
        };
        let h = horizontal(ICON_SPACING, chunk);
        let ghost gh = h;
        let placed = offset_relative(0, dy).followed_by(h);
        let ghost gp = placed;
        let ghost old_rows = rows;
        rows = rows.overlay(placed);
        proof {
            let end = start + c;
            assert(c == 7 || end == n);
            assert(end == (if 7 * (row + 1) <= n {
                7 * (row + 1)
            } else {
                n as int
            }));
            assert(dy == row_y(row as int));
            assert forall|q: DrawRect| #![trigger rows.run(q)]
                rows.run(q) == (q, grid_regs(ps, (row + 1) as nat, q)) by {
                lemma_grid_step(old_rows, gp, gh, ps, start as int, end as int, row as int, dy, q);
            }
            if forall|k: int| 0 <= k < ps.len() ==> (#[trigger] ps[k]).exact() {
                assert forall|k: int| 0 <= k < gh.items().len() implies (#[trigger] gh.items()[
                    k
                ]).exact() by {
                    assert(gh.items()[k] == ps[start + k]);
                }
                lemma_h_exact(gh, 0);
                assert(gp.regs_exact()) by {
                    reveal_with_fuel(DrawNode::sound_from, 2);
                }
                assert(rows.exact());
            }
        }
        taken = taken + c;
        row = row + 1;
    }
    proof {
        assert(taken == n);
        assert(row == row_count(n)) by (nonlinear_arith)
            requires
                taken == n,
                taken <= 7 * row,
                row > 0 ==> 7 * (row - 1) < taken,
                n == 0 ==> row == 0,
        ;
    }
    rows
}

/// Where the icons start inside a panel whose cursor is `c`.
pub open spec fn icon_area(c: DrawRect) -> DrawRect {
    c.margin_left_spec(ROW_MARGIN as int).margin_right_spec(ROW_MARGIN as int).margin_top_spec(
        ROW_MARGIN as int,
    )
}

/// The swipe that leaves the shell, gated on `zone`.
pub open spec fn swipe_gate(zone: DrawRect) -> Recognizer<TrayAction> {
    Recognizer::ZoneGate {
        zone,
        inner: Box::new(Recognizer::Drag { rule: DragRule::YBelow(-32i32), action: TrayAction::Exit }),
    }
}

#[verifier::rlimit(100)]
proof fn lemma_panel(
    icons: DrawNode<TrayAction>,
    p1: DrawNode<TrayAction>,
    p2: DrawNode<TrayAction>,
    p3: DrawNode<TrayAction>,
    p4: DrawNode<TrayAction>,
    p5: DrawNode<TrayAction>,
    p6: DrawNode<TrayAction>,
    r: DrawNode<TrayAction>,
    c: DrawRect,
)
    requires
        p1 == DrawNode::Then(
            Box::new(DrawNode::<TrayAction>::Unit),
            Box::new(
                DrawNode::RecognizeGesture(
                    (Recognizer::Drag { rule: DragRule::YBelow(-32i32), action: TrayAction::Exit }),
                ),
            ),
        ),
        p2 == DrawNode::Then(
            Box::new(p1),
            Box::new(
                DrawNode::Then(
                    Box::new(DrawNode::<TrayAction>::RectFill(Color::White)),
                    Box::new((DrawNode::<TrayAction>::RectStroke { border_px: 2, color: Color::Black })),
                ),
            ),
        ),
        p3 == DrawNode::Then(
            Box::new(p2),
            Box::new(
                DrawNode::Then(
                    Box::new(DrawNode::<TrayAction>::MarginLeft(39)),
                    Box::new(DrawNode::<TrayAction>::MarginRight(39)),
                ),
            ),
        ),
        p4 == DrawNode::Then(Box::new(p3), Box::new(DrawNode::<TrayAction>::MarginTop(39))),
        p5 == DrawNode::Then(Box::new(p4), Box::new(icons)),
        p6 == DrawNode::Then(Box::new(p5), Box::new(DrawNode::<TrayAction>::SetRect(panel_rect()))),
        r is Then && *r->Then_0 == p6 && (*r->Then_1) is PartialRefresh,
    ensures
        icons.exact() ==> r.exact(),
        r.run(c).0 == panel_rect(),
        r.run(c).1 == seq![swipe_gate(c)] + icons.run(icon_area(c)).1,
{
    reveal_with_fuel(DrawNode::run_from, 3);
    let g = swipe_gate(c);
    assert(p1.run(c).1 =~= seq![g]);
    assert(p1.run(c).0 == c);
    let bd = DrawNode::Then(
        Box::new(DrawNode::<TrayAction>::RectFill(Color::White)),
        Box::new((DrawNode::<TrayAction>::RectStroke { border_px: 2, color: Color::Black })),
    );
    assert(bd.run(c).1 =~= Seq::<Recognizer<TrayAction>>::empty());
    assert(p2.run(c).1 =~= seq![g]);
    assert(p2.run(c).0 == c);
    let mh = DrawNode::Then(
        Box::new(DrawNode::<TrayAction>::MarginLeft(39)),
        Box::new(DrawNode::<TrayAction>::MarginRight(39)),
    );
    assert(mh.run(c).1 =~= Seq::<Recognizer<TrayAction>>::empty());
    assert(p3.run(c).1 =~= seq![g]);
    assert(p4.run(c).1 =~= seq![g]);
    assert(p4.run(c).0 == icon_area(c));
    assert(p5.run(c).1 =~= seq![g] + icons.run(icon_area(c)).1);
    assert(p6.run(c).1 =~= seq![g] + icons.run(icon_area(c)).1);
    assert(p6.run(c).0 == panel_rect());
    assert(r.run(c).1 =~= seq![g] + icons.run(icon_area(c)).1);
    assert(icons.exact() ==> r.exact()) by {
        reveal_with_fuel(DrawNode::sound_from, 8);
    }
}

/// The bottom panel: a downward swipe started on it leaves the shell; a
/// bordered strip holds the icons; the panel is repainted at the end, and
/// the cursor is left on the panel.
pub fn drafts_panel(icons: DrawNode<TrayAction>) -> (r: DrawNode<TrayAction>)
    ensures
        icons.exact() ==> r.exact(),
        forall|c: DrawRect|
            #![trigger r.run(c)]
            r.run(c).0 == panel_rect() && r.run(c).1 == seq![swipe_gate(c)]
                + icons.run(icon_area(c)).1,
{
    let ghost gi = icons;
    let p1 = unit().followed_by(
        recognize_gesture(recognize_drag(DragRule::YBelow(-(TAP_HYSTERESIS as i32)), TrayAction::Exit)),
    );
    let ghost g1 = p1;
    let p2 = p1.followed_by(rect_border(2, Color::White, Color::Black));
    let ghost g2 = p2;
    let p3 = p2.followed_by(margin_horizontal(ROW_MARGIN));
    let ghost g3 = p3;
    let p4 = p3.followed_by(margin_top(ROW_MARGIN));
    let ghost g4 = p4;
    let p5 = p4.followed_by(icons);
    let ghost g5 = p5;
    let p6 = p5.followed_by(set_rect(panel()));
    let ghost g6 = p6;
    let r = p6.followed_by(panel_refresh());
    proof {
        assert forall|c: DrawRect| #![trigger r.run(c)]
            r.run(c).0 == panel_rect() && r.run(c).1 == seq![swipe_gate(c)]
                + gi.run(icon_area(c)).1 by {
            lemma_panel(gi, g1, g2, g3, g4, g5, g6, r, c);
        }
        lemma_panel(gi, g1, g2, g3, g4, g5, g6, r, display_rect());
    }
    r
}

/// The area above the panel, for a screen whose cursor is `c`.
pub open spec fn dismiss_zone(c: DrawRect) -> DrawRect {
    c.margin_bottom_spec(PANEL_HEIGHT as int)
}

/// Where the panel starts, for a screen whose cursor is `c`.
pub open spec fn panel_start(c: DrawRect) -> DrawRect {
    c.margin_top_spec(DISPLAY_HEIGHT - PANEL_HEIGHT)
}

#[verifier::rlimit(100)]
proof fn lemma_tray(
    panel_plan: DrawNode<TrayAction>,
    dismiss: DrawNode<TrayAction>,
    bottom: DrawNode<TrayAction>,
    inner: DrawNode<TrayAction>,
    r: DrawNode<TrayAction>,
    c: DrawRect,
)
    requires
        dismiss == DrawNode::Then(
            Box::new(
                DrawNode::Then(
                    Box::new(DrawNode::<TrayAction>::Unit),
                    Box::new(DrawNode::<TrayAction>::MarginBottom(480)),
                ),
            ),
            Box::new(DrawNode::RecognizeGesture((Recognizer::Press { action: TrayAction::Exit }))),
        ),
        bottom == DrawNode::Then(
            Box::new(
                DrawNode::Then(
                    Box::new(DrawNode::<TrayAction>::Unit),
                    Box::new(DrawNode::<TrayAction>::MarginTop(1392)),
                ),
            ),
            Box::new(panel_plan),
        ),
        inner == DrawNode::Overlay(Box::new(DrawNode::<TrayAction>::Unit), Box::new(dismiss)),
        r == DrawNode::Overlay(Box::new(inner), Box::new(bottom)),
    ensures
        panel_plan.regs_exact() ==> r.exact(),
        r.run(c).0 == c,
        r.run(c).1 == seq![
            Recognizer::ZoneGate {
                zone: dismiss_zone(c),
                inner: Box::new(Recognizer::Press { action: TrayAction::Exit }),
            },
        ] + panel_plan.run(panel_start(c)).1,
{
    reveal_with_fuel(DrawNode::run_from, 3);
    let g = Recognizer::ZoneGate {
        zone: dismiss_zone(c),
        inner: Box::new(Recognizer::Press { action: TrayAction::Exit }),
    };
    let top = DrawNode::Then(
        Box::new(DrawNode::<TrayAction>::Unit),
        Box::new(DrawNode::<TrayAction>::MarginBottom(480)),
    );
    assert(top.run(c).0 == dismiss_zone(c));
    assert(top.run(c).1 =~= Seq::<Recognizer<TrayAction>>::empty());
    assert(dismiss.run(c).1 =~= seq![g]);
    assert(inner.run(c).1 =~= seq![g]);
    assert(inner.run(c).0 == c);
    let low = DrawNode::Then(
        Box::new(DrawNode::<TrayAction>::Unit),
        Box::new(DrawNode::<TrayAction>::MarginTop(1392)),
    );
    assert(low.run(c).0 == panel_start(c));
    assert(low.run(c).1 =~= Seq::<Recognizer<TrayAction>>::empty());
    assert(bottom.run(c).1 =~= panel_plan.run(panel_start(c)).1);
    assert(r.run(c).1 =~= seq![g] + panel_plan.run(panel_start(c)).1);
    assert(panel_plan.regs_exact() ==> r.exact()) by {
        reveal_with_fuel(DrawNode::sound_from, 8);
    }
}

/// The shell's screen: a press anywhere above the panel leaves the shell,
/// and the panel sits at the bottom. The cursor is left where it started;
/// on the whole display the panel plan starts at the panel.
pub fn tray(panel_plan: DrawNode<TrayAction>) -> (r: DrawNode<TrayAction>)
    ensures
        panel_plan.regs_exact() ==> r.exact(),
        r.keeps_cursor(),
        forall|c: DrawRect|
            #![trigger r.run(c)]
            r.run(c).0 == c && r.run(c).1 == seq![
                Recognizer::ZoneGate {
                    zone: dismiss_zone(c),
                    inner: Box::new(Recognizer::Press { action: TrayAction::Exit }),
                },
            ] + panel_plan.run(panel_start(c)).1,
        panel_start(display_rect()) == panel_rect(),
        dismiss_zone(display_rect()) == (DrawRect {
            left: 0,
            top: 0,
            width: DISPLAY_WIDTH,
            height: (DISPLAY_HEIGHT - PANEL_HEIGHT) as u32,
        }),
{
    let ghost gp = panel_plan;
    let dismiss = unit().followed_by(margin_bottom(PANEL_HEIGHT)).followed_by(
        recognize_gesture(recognize_press(TrayAction::Exit)),
    );
    let bottom = unit().followed_by(margin_top(DISPLAY_HEIGHT as i32 - PANEL_HEIGHT)).followed_by(
        panel_plan,
    );
    let ghost (gd, gb) = (dismiss, bottom);
    let inner = unit().overlay(dismiss);
    let ghost gi = inner;
    assert(DrawNode::<TrayAction>::Unit.keeps_cursor());
    assert(inner.keeps_cursor());
    let r = inner.overlay(bottom);
    proof {
        assert forall|c: DrawRect| #![trigger r.run(c)]
            r.run(c).0 == c && r.run(c).1 == seq![
                Recognizer::ZoneGate {
                    zone: dismiss_zone(c),
                    inner: Box::new(Recognizer::Press { action: TrayAction::Exit }),
                },
            ] + gp.run(panel_start(c)).1 by {
            lemma_tray(gp, gd, gb, gi, r, c);
        }
        lemma_tray(gp, gd, gb, gi, r, display_rect());
    }
    r
}

/// The plan that puts the screen back after a draft ran: the saved panel
/// strip restored and repainted, the whole saved screen restored and
/// repainted, or the display cleared when the screenshot it needs is
/// missing; nothing after a fresh launch.
pub fn restore_plan(restore: Restore, panel_shot: Option<Vec<u8>>, full_shot: Option<Vec<u8>>) -> (r:
    Option<DrawNode<TrayAction>>)
    ensures
        restore is Nothing <==> r is None,
        r matches Some(p) ==> p.exact() && p.regs_exact(),
        r matches Some(p) ==> forall|c: DrawRect|
            #![trigger p.run(c)]
            p.run(c).1 == Seq::<Recognizer<TrayAction>>::empty(),
        (restore is Panel && panel_shot is Some) ==> (r matches Some(p) && p == DrawNode::Then(
            Box::new(
                DrawNode::Then(
                    Box::new(DrawNode::<TrayAction>::SetRect(panel_rect())),
                    Box::new(DrawNode::<TrayAction>::RestoreRegion(panel_shot->Some_0)),
                ),
            ),
            Box::new(
                (DrawNode::<TrayAction>::PartialRefresh {
                    mode: RefreshMode::Async,
                    profile: fast_profile_spec(),
                    force_full_refresh: false,
                }),
            ),
        )),
        (restore is Full && full_shot is Some) ==> (r matches Some(p) && p == DrawNode::Then(
            Box::new(
                DrawNode::Then(
                    Box::new(DrawNode::<TrayAction>::SetRect(display_rect())),
                    Box::new(DrawNode::<TrayAction>::RestoreRegion(full_shot->Some_0)),
                ),
            ),
            Box::new(
                (DrawNode::<TrayAction>::FullRefresh {
                    profile: fast_profile_spec(),
                    wait_completion: false,
                }),
            ),
        )),
        (restore is Clear || (restore is Panel && panel_shot is None) || (restore is Full
            && full_shot is None)) ==> (r matches Some(p) && p == DrawNode::Then(
            Box::new(DrawNode::<TrayAction>::Clear),
            Box::new(
                (DrawNode::<TrayAction>::FullRefresh {
                    profile: fast_profile_spec(),
                    wait_completion: false,
                }),
            ),
        )),
{
    let clear_plan = clear().followed_by(screen_refresh());
    let r = match restore {
        Restore::Nothing => None,
        Restore::Panel => match panel_shot {
            Some(data) => Some(
                set_rect(panel()).followed_by(restore_region(data)).followed_by(panel_refresh()),
            ),
            None => Some(clear_plan),
        },
        Restore::Full => match full_shot {
            Some(data) => Some(
                set_rect(display()).followed_by(restore_region(data)).followed_by(screen_refresh()),
            ),
            None => Some(clear_plan),
        },
        Restore::Clear => Some(clear_plan),
    };
    proof {
        reveal_with_fuel(DrawNode::sound_from, 4);
        reveal_with_fuel(DrawNode::run_from, 4);
        if r is Some {
            let p = r->Some_0;
            assert forall|c: DrawRect| #![trigger p.run(c)]
                p.run(c).1 == Seq::<Recognizer<TrayAction>>::empty() by {
                assert(p.run(c).1 =~= Seq::<Recognizer<TrayAction>>::empty());
            }
        }
    }
    r
}

/// The shell's whole screen for the given draft programs: the icons in
/// rows, on the panel, below the dismiss area (see `tray`, `drafts_panel`
/// and `draft_icons` for what each part registers). When every program is
/// exact, so is the screen, and drawing it registers exactly what `run`
/// says.
pub fn shell_plan(programs: Vec<DrawNode<TrayAction>>) -> (r: DrawNode<TrayAction>)
    ensures
        r.keeps_cursor(),
        (forall|k: int| 0 <= k < programs@.len() ==> (#[trigger] programs@[k]).exact())
            ==> r.exact(),
{
    let ghost ps = programs@;
    let icons = draft_icons(programs);
    let ghost gi = icons;
    let panel_plan = drafts_panel(icons);
    let ghost gp = panel_plan;
    let r = tray(panel_plan);
    proof {
        if forall|k: int| 0 <= k < ps.len() ==> (#[trigger] ps[k]).exact() {
            assert(gi.exact());
            assert(gp.exact());
            lemma_exact_regs(gp);
        }
    }
    r
}

} // verus!
