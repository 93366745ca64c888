use parchment::tray::{draft_icons, draft_program, drafts_panel, restore_plan, tray, TrayAction};
use parchment::orchestrator::Restore;
use parchment::geometry::{DrawRect, Empty, Fraction};
use parchment::gesture::{recognize_tap, Finger};
use parchment::orchestrator::render_frame;
use parchment::ui::{
    circle_fill, clear, dump_region, horizontal, horizontal_fixed, image, margin, margin_bottom,
    margin_left, margin_right, margin_top, offset_absolute, offset_relative, overlay,
    recognize_gesture, rect_fill, rect_stroke, restore_region, set_height, set_rect, set_width,
    set_x, set_y, text, text_aligned, unit, vertical, vertical_fixed, Color, DrawContext, DrawNode,
    Image, RefreshMode, RefreshProfile, Surface,
};
use parchment::gesture::GestureRecognizer;

#[derive(Default)]
struct Recorder {
    fills: Vec<DrawRect>,
    strokes: usize,
    circles: usize,
    texts: Vec<(i32, i32)>,
    clears: usize,
    dumps: Vec<(DrawRect, u32)>,
    restores: Vec<usize>,
}

impl Surface for Recorder {
    fn clear(&mut self) {
        self.clears += 1;
    }
    fn partial_refresh(&mut self, _: DrawRect, _: RefreshMode, _: RefreshProfile, _: bool) {}
    fn full_refresh(&mut self, _: RefreshProfile, _: bool) {}
    fn restore_region(&mut self, _: DrawRect, data: &[u8]) {
        self.restores.push(data.len());
    }
    fn dump_region(&mut self, rect: DrawRect, tag: u32) {
        self.dumps.push((rect, tag));
    }
    fn draw_circle(&mut self, _: i32, _: i32, _: u32, _: Color) {
        self.circles += 1;
    }
    fn fill_circle(&mut self, _: i32, _: i32, _: u32, _: Color) {
        self.circles += 1;
    }
    fn draw_text(&mut self, x: i32, y: i32, _: &str, _: u32, _: Color, dryrun: bool) -> DrawRect {
        if !dryrun {
            self.texts.push((x, y));
        }
        DrawRect { left: x as u32, top: y as u32, width: 40, height: 20 }
    }
    fn draw_image(&mut self, _: i32, _: i32, _: &Image) {}
    fn draw_line(&mut self, x0: i32, y0: i32, _: i32, _: i32, _: u32, _: Color) -> DrawRect {
        DrawRect { left: x0 as u32, top: y0 as u32, width: 3, height: 3 }
    }
    fn fill_rect(&mut self, x: i32, y: i32, w: u32, h: u32, _: Color) {
        self.fills.push(DrawRect { left: x as u32, top: y as u32, width: w, height: h });
    }
    fn draw_rect(&mut self, _: i32, _: i32, _: u32, _: u32, _: u32, _: Color) {
        self.strokes += 1;
    }
}

fn run(node: &DrawNode<u32>, rect: DrawRect) -> DrawContext<Recorder, u32> {
    node.draw(DrawContext {
        surface: Recorder::default(),
        rect,
        gesture_recognizer: GestureRecognizer::new(),
    })
}

fn r(left: u32, top: u32, width: u32, height: u32) -> DrawRect {
    DrawRect { left, top, width, height }
}

#[test]
fn margin_larger_than_dimension_clamps_to_zero() {
    let start = r(10, 20, 50, 40);
    assert_eq!(run(&margin_top(100), start).rect, r(10, 120, 50, 0));
    assert_eq!(run(&margin_bottom(100), start).rect, r(10, 20, 50, 0));
    assert_eq!(run(&margin_left(60), start).rect, r(70, 20, 0, 40));
    assert_eq!(run(&margin_right(60), start).rect, r(10, 20, 0, 40));
    assert_eq!(run(&margin(5), start).rect, r(15, 25, 40, 30));
    assert_eq!(run(&margin(-1), start).rect, r(9, 19, 52, 42));
    assert!(run(&margin_top(40), start).rect.empty());
    assert_eq!(run(&margin_top(-30), start).rect, r(10, 0, 50, 70));
}

#[test]
fn list_layout_stops_once_rect_is_empty() {
    let items = vec![rect_fill(Color::Black), rect_fill(Color::Black), rect_fill(Color::Black)];
    let out = run(&vertical_fixed(60, items), r(0, 0, 100, 100));
    assert_eq!(out.surface.fills, vec![r(0, 0, 100, 100), r(0, 60, 100, 40)]);
    assert!(out.rect.empty());
    let items = vec![rect_fill(Color::White), rect_fill(Color::White), rect_fill(Color::White)];
    let out = run(&horizontal_fixed(30, items), r(0, 0, 100, 10));
    assert_eq!(out.surface.fills.len(), 3);
    assert_eq!(out.rect, r(90, 0, 10, 10));
}

#[test]
fn horizontal_advances_by_child_width_plus_spacing() {
    let items = vec![set_width(20), set_width(30), set_width(10)];
    let out = run(&horizontal(5, items), r(0, 0, 100, 10));
    assert_eq!(out.rect, r(75, 0, 25, 10));
    let items = vec![set_height(50), set_height(60)];
    let out = run(&vertical(10, items), r(0, 0, 10, 100));
    assert_eq!(out.rect, r(0, 130, 10, 0));
    let out = run(&vertical(10, vec![set_height(95), rect_fill(Color::Black)]), r(0, 0, 10, 100));
    assert!(out.surface.fills.is_empty());
}

#[test]
fn overlay_restores_cursor_whatever_the_subtree_does() {
    let start = r(5, 6, 70, 80);
    let sub = margin_left::<u32>(3)
        .followed_by(text("hello".to_string(), 42, Color::Black))
        .followed_by(set_rect(r(1, 1, 1, 1)));
    let out = run(&overlay(sub), start);
    assert_eq!(out.rect, start);
    assert_eq!(out.surface.texts, vec![(8, 6)]);
    let out = run(&margin_top::<u32>(10).overlay(set_x(500)), start);
    assert_eq!(out.rect, r(5, 16, 70, 70));
}

#[test]
fn then_threads_the_cursor() {
    let out = run(&set_x::<u32>(3).followed_by(set_y(4)).followed_by(offset_relative(-1, 10)), r(0, 0, 9, 9));
    assert_eq!(out.rect, r(2, 14, 9, 9));
    let half = Fraction { num: 1, den: 2 };
    let out = run(&offset_absolute(half, half), r(10, 10, 101, 50));
    assert_eq!(out.rect, r(60, 35, 101, 50));
    let neg = Fraction { num: -1, den: 3 };
    let out = run(&offset_absolute(neg, Fraction { num: 0, den: 0 }), r(10, 10, 10, 50));
    assert_eq!(out.rect, r(7, 10, 10, 50));
}

#[test]
fn recognizer_is_gated_on_the_cursor_at_registration() {
    let plan = margin_top::<u32>(1000)
        .followed_by(recognize_gesture(recognize_tap(32, 5u32)))
        .followed_by(set_rect(r(0, 0, 1, 1)));
    let (_, g) = render_frame(&plan, Recorder::default(), true);
    let mut g = g.unwrap();
    let f = |x, y| Finger { tracking_id: 1, x, y };
    g.finger_press(f(10, 10));
    assert!(g.finger_release(f(10, 10)).is_empty());
    g.finger_press(f(10, 1500));
    let m = g.finger_release(f(12, 1500));
    assert_eq!(m.len(), 1);
    assert_eq!(m[0].action, 5);
    let (_, none) = render_frame(&plan, Recorder::default(), false);
    assert!(none.is_none());
}

#[test]
fn leaves_reach_the_surface() {
    let plan = unit::<u32>()
        .followed_by(clear())
        .followed_by(dump_region(4))
        .followed_by(restore_region(vec![1, 2, 3]))
        .followed_by(circle_fill(3, Color::Gray(7)))
        .followed_by(rect_stroke(2, Color::Rgb(1, 2, 3)));
    let out = run(&plan, r(1, 2, 3, 4));
    assert_eq!(out.surface.clears, 1);
    assert_eq!(out.surface.dumps, vec![(r(1, 2, 3, 4), 4)]);
    assert_eq!(out.surface.restores, vec![3]);
    assert_eq!(out.surface.circles, 1);
    assert_eq!(out.surface.strokes, 1);
    assert_eq!(out.rect, r(1, 2, 3, 4));
}

#[test]
fn measured_leaves_take_the_surface_box() {
    let out = run(&text("x".to_string(), 10, Color::Black), r(7, 8, 100, 100));
    assert_eq!(out.rect, r(7, 8, 40, 20));
    let half = Fraction { num: 1, den: 2 };
    let plan = text_aligned("x".to_string(), 10, half, Fraction { num: 0, den: 1 }, Color::Black);
    let out = run(&plan, r(100, 8, 1, 1));
    assert_eq!(out.surface.texts, vec![(80, 8)]);
    let img = Image { width: 4, height: 5, rgb: vec![0; 60] };
    assert_eq!(run(&image(img), r(9, 9, 100, 100)).rect, r(9, 9, 4, 5));
}

#[test]
fn shell_plan_places_its_gestures() {
    let program = draft_program("Foo Bar", 0, None, true);
    let plan = tray(drafts_panel(draft_icons(vec![program])));
    let (surface, g) = render_frame(&plan, Recorder::default(), true);
    assert_eq!(surface.texts.len(), 2);
    let mut g = g.unwrap().reverse_callback_priority();
    let f = |x, y| Finger { tracking_id: 1, x, y };
    let r = g.finger_press(f(10, 10));
    assert_eq!(r[0].action, TrayAction::Exit);
    g.finger_press(f(100, 1500));
    let r = g.finger_release(f(100, 1501));
    assert_eq!(r[0].action, TrayAction::Launch(0));
    g.finger_press(f(170, 1440));
    let r = g.finger_release(f(170, 1440));
    assert_eq!(r[0].action, TrayAction::Close(0));
    g.finger_press(f(700, 1500));
    let r = g.finger_move(f(700, 1540));
    assert_eq!(r[0].action, TrayAction::Exit);
    let idle = draft_program("Idle", 1, None, false);
    let (_, g) = render_frame(&tray(drafts_panel(draft_icons(vec![idle]))), Recorder::default(), true);
    let mut g = g.unwrap().reverse_callback_priority();
    g.finger_press(f(170, 1440));
    assert_eq!(g.finger_release(f(170, 1440))[0].action, TrayAction::Launch(1));
}

#[test]
fn screen_restore_plans() {
    assert!(restore_plan(Restore::Nothing, Some(vec![1]), Some(vec![2])).is_none());
    let run_plan = |p: DrawNode<TrayAction>| {
        p.draw(DrawContext {
            surface: Recorder::default(),
            rect: r(0, 0, 1404, 1872),
            gesture_recognizer: GestureRecognizer::new(),
        })
    };
    let out = run_plan(restore_plan(Restore::Panel, Some(vec![0; 5]), None).unwrap());
    assert_eq!(out.surface.restores, vec![5]);
    assert_eq!(out.rect, r(0, 1392, 1404, 480));
    let out = run_plan(restore_plan(Restore::Full, None, Some(vec![0; 7])).unwrap());
    assert_eq!(out.surface.restores, vec![7]);
    assert_eq!(out.rect, r(0, 0, 1404, 1872));
    let out = run_plan(restore_plan(Restore::Full, None, None).unwrap());
    assert_eq!(out.surface.clears, 1);
    assert!(out.surface.restores.is_empty());
}

#[test]
fn icons_fill_rows_of_seven() {
    let programs: Vec<DrawNode<TrayAction>> =
        (0..9).map(|i| draft_program("App", i, None, false)).collect();
    let plan = draft_icons(programs);
    let (_, g) = render_frame(&plan, Recorder::default(), true);
    let mut g = g.unwrap().reverse_callback_priority();
    let f = |x, y| Finger { tracking_id: 1, x, y };
    // Second icon of the first row: one icon width plus one spacing along.
    g.finger_press(f(156 + 39 + 10, 10));
    assert_eq!(g.finger_release(f(156 + 39 + 10, 10))[0].action, TrayAction::Launch(1));
    // First icon of the second row, one row height down.
    g.finger_press(f(10, 240 + 10));
    assert_eq!(g.finger_release(f(10, 240 + 10))[0].action, TrayAction::Launch(7));
}
