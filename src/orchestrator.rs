//! The orchestrator's decisions: one event in, the commands to carry out.
//! The loop that receives events and performs commands lives with the
//! threads and devices; here is what it decides at each step.
use vstd::prelude::*;

use crate::geometry::DrawRect;
use crate::gesture::{
    has_id, lookup, matches_of, reversed, unmatched, upsert, without, EventType, Finger, GestureMatch,
    GestureRecognizer, Recognizer, Samples,
};
use crate::supervisor::RunType;
use crate::ui::{DrawContext, DrawNode, Surface};

verus! {

/// Width of the display, in pixels.
pub const DISPLAY_WIDTH: u32 = 1404;

/// Height of the display, in pixels.
pub const DISPLAY_HEIGHT: u32 = 1872;

/// The whole display.
pub open spec fn display_rect() -> DrawRect {
    DrawRect { left: 0, top: 0, width: DISPLAY_WIDTH, height: DISPLAY_HEIGHT }
}

/// Relies on libremarkable's `dimensions::DISPLAYWIDTH`: the panel's width.
#[verifier::external_body]
fn device_width() -> (r: u32)
    ensures
        r == DISPLAY_WIDTH,
{
    libremarkable::dimensions::DISPLAYWIDTH as u32
}

/// Relies on libremarkable's `dimensions::DISPLAYHEIGHT`: the panel's height.
#[verifier::external_body]
fn device_height() -> (r: u32)
    ensures
        r == DISPLAY_HEIGHT,
{
    libremarkable::dimensions::DISPLAYHEIGHT as u32
}

/// The whole display, as the device library gives its size.
pub fn display() -> (r: DrawRect)
    ensures
        r == display_rect(),
{
    DrawRect { left: 0, top: 0, width: device_width(), height: device_height() }
}

/// A command for a device-capture thread.
#[derive(Clone, Copy, Debug, PartialEq, Eq, Structural)]
pub enum InputCommand {
    Stop,
    Grab,
    Ungrab,
    ClearBuffer,
}

/// A touch sample as delivered by the multitouch device.
#[derive(Clone, Copy, Debug, PartialEq, Eq, Structural)]
pub enum TouchEvent {
    Press(Finger),
    Move(Finger),
    Release(Finger),
    /// Any other input: buttons, pen, unknown touch events.
    Other,
}

/// What a touch sample does to live histories `e` under recognizers
/// `recs`: the matches fired, and the histories left afterwards.
pub open spec fn touch_outcome<A>(
    e: Seq<(i32, Samples)>,
    recs: Seq<Recognizer<A>>,
    t: TouchEvent,
) -> (Seq<GestureMatch<A>>, Seq<(i32, Samples)>) {
    match t {
        TouchEvent::Press(f) => {
            let s = upsert(e, f.tracking_id, seq![(EventType::Press, f)]);
            (matches_of(s, recs), unmatched(s, recs))
        },
        TouchEvent::Move(f) => if !has_id(e, f.tracking_id) {
            (Seq::empty(), e)
        } else {
            let s = upsert(e, f.tracking_id, lookup(e, f.tracking_id).push((EventType::Move, f)));
            (matches_of(s, recs), unmatched(s, recs))
        },
        TouchEvent::Release(f) => if !has_id(e, f.tracking_id) {
            (Seq::empty(), e)
        } else {
            let s = upsert(
                e,
                f.tracking_id,
                lookup(e, f.tracking_id).push((EventType::Release, f)),
            );
            (matches_of(s, recs), without(unmatched(s, recs), f.tracking_id))
        },
        TouchEvent::Other => (Seq::empty(), e),
    }
}

/// An event on the orchestrator's queue. `D` is a draw-plan handle, `A` a
/// gesture action.
pub enum MainEvent<D, A> {
    /// An icon for the draft keyed by the string finished loading.
    LoadIcon(String),
    SetGestureRecognizer(Option<GestureRecognizer<A>>),
    SetDraw(Option<D>),
    Redraw,
    Input(TouchEvent),
    /// Launch or resume the draft at this index of the registry.
    Run(usize),
    StopInput,
    StopRenderer,
    Exit,
}

/// A command the orchestrator's loop carries out.
#[derive(Debug)]
pub enum Command<A> {
    /// Put the icon just loaded into the icon cache.
    StoreIcon,
    /// Send the current draw plan to the render thread.
    Render { publish_recognizer: bool },
    /// Perform a gesture's action.
    Fire(GestureMatch<A>),
    /// Ask the supervisor to launch or resume the draft at this index.
    RunDraft(usize),
    /// Send a command to every device thread.
    BroadcastInput(InputCommand),
    /// Wait until every device thread has finished.
    JoinInput,
    /// Tell the render thread to exit.
    StopRenderThread,
    /// Wait until the render thread has finished.
    JoinRenderer,
    /// Leave the loop.
    Exit,
}

/// What the orchestrator owns between events.
pub struct MainLoop<D, A> {
    pub gesture_recognizer: Option<GestureRecognizer<A>>,
    pub draw: Option<D>,
}

impl<D, A: Copy> MainLoop<D, A> {
    pub open spec fn wf(&self) -> bool {
        self.gesture_recognizer matches Some(g) ==> g.wf()
    }

    pub fn new() -> (r: MainLoop<D, A>)
        ensures
            r.wf(),
            r.gesture_recognizer is None,
            r.draw is None,
    {
        MainLoop { gesture_recognizer: None, draw: None }
    }

    /// Handles one event, in arrival order, and returns what to do.
    pub fn step(&mut self, event: MainEvent<D, A>) -> (r: Vec<Command<A>>)
        requires
            old(self).wf(),
            event matches MainEvent::SetGestureRecognizer(Some(g)) ==> g.wf(),
        ensures
            final(self).wf(),
            match event {
                MainEvent::LoadIcon(_) => r@.len() == 1 && r@[0] is StoreIcon
                    && final(self).gesture_recognizer == old(self).gesture_recognizer
                    && final(self).draw == old(self).draw,
                MainEvent::SetGestureRecognizer(g) => r@.len() == 0 && final(self).draw == old(
                    self,
                ).draw && match g {
                    Some(g) => (final(self).gesture_recognizer matches Some(n) && n.entries()
                        == g.entries() && n.callbacks() == reversed(g.callbacks())),
                    None => final(self).gesture_recognizer is None,
                },
                MainEvent::SetDraw(d) => final(self).draw == d && final(self).gesture_recognizer
                    == old(self).gesture_recognizer && if d is Some {
                    r@ == seq![Command::<A>::Render { publish_recognizer: true }]
                } else {
                    r@.len() == 0
                },
                MainEvent::Redraw => final(self).draw == old(self).draw
                    && final(self).gesture_recognizer == old(self).gesture_recognizer && if old(
                    self,
                ).draw is Some {
                    r@ == seq![Command::<A>::Render { publish_recognizer: true }]
                } else {
                    r@.len() == 0
                },
                MainEvent::Input(t) => final(self).draw == old(self).draw && (match old(
                    self,
                ).gesture_recognizer {
                    None => r@.len() == 0 && final(self).gesture_recognizer is None,
                    Some(g) => (final(self).gesture_recognizer matches Some(n) && n.callbacks()
                        == g.callbacks() && n.entries() == touch_outcome(
                        g.entries(),
                        g.callbacks(),
                        t,
                    ).1 && r@.len() == touch_outcome(g.entries(), g.callbacks(), t).0.len() && (
                    forall|k: int|
                        0 <= k < r@.len() ==> #[trigger] r@[k] == Command::Fire(
                            touch_outcome(g.entries(), g.callbacks(), t).0[k],
                        ))),
                }),
                MainEvent::Run(i) => r@ == seq![Command::<A>::RunDraft(i)]
                    && final(self).gesture_recognizer == old(self).gesture_recognizer
                    && final(self).draw == old(self).draw,
                MainEvent::StopInput => r@ == seq![
                    Command::<A>::BroadcastInput(InputCommand::Ungrab),
                    Command::<A>::BroadcastInput(InputCommand::ClearBuffer),
                    Command::<A>::BroadcastInput(InputCommand::Stop),
                    Command::<A>::JoinInput,
                ] && final(self).gesture_recognizer == old(self).gesture_recognizer
                    && final(self).draw == old(self).draw,
                MainEvent::StopRenderer => r@ == seq![
                    Command::<A>::StopRenderThread,
                    Command::<A>::JoinRenderer,
                ] && final(self).gesture_recognizer == old(self).gesture_recognizer
                    && final(self).draw == old(self).draw,
                MainEvent::Exit => r@ == seq![Command::<A>::Exit]
                    && final(self).gesture_recognizer == old(self).gesture_recognizer
                    && final(self).draw == old(self).draw,
            },
    {
        let mut out: Vec<Command<A>> = Vec::new();
        match event {
            MainEvent::LoadIcon(_) => {
                out.push(Command::StoreIcon);
            },
            MainEvent::SetGestureRecognizer(g) => {
                match g {
                    Some(g) => {
                        self.gesture_recognizer = Some(g.reverse_callback_priority());
                    },
                    None => {
                        self.gesture_recognizer = None;
                    },
                }
            },
            MainEvent::SetDraw(d) => {
                let present = d.is_some();
                self.draw = d;
                if present {
                    out.push(Command::Render { publish_recognizer: true });
                    assert(out@ =~= seq![Command::<A>::Render { publish_recognizer: true }]);
                }
            },
            MainEvent::Redraw => {
                if self.draw.is_some() {
                    out.push(Command::Render { publish_recognizer: true });
                    assert(out@ =~= seq![Command::<A>::Render { publish_recognizer: true }]);
                }
            },
            MainEvent::Input(t) => {
                let taken = self.gesture_recognizer.take();
                match taken {
                    Some(mut g) => {
                        let fired = match t {
                            TouchEvent::Press(f) => g.finger_press(f),
                            TouchEvent::Move(f) => g.finger_move(f),
                            TouchEvent::Release(f) => g.finger_release(f),
                            TouchEvent::Other => Vec::new(),
                        };
                        self.gesture_recognizer = Some(g);
                        let mut fired = fired;
                        let ghost all = fired@;
                        let n = fired.len();
                        let mut k: usize = 0;
                        assert(all.subrange(0, n as int) =~= all);
                        while k < n
                            invariant
                                fired@.len() + k == n,
                                all.len() == n,
                                fired@ == all.subrange(k as int, n as int),
                                k <= n,
                                out@.len() == k,
                                forall|j: int|
                                    0 <= j < out@.len() ==> #[trigger] out@[j] == Command::Fire(
                                        all[j],
                                    ),
                            decreases n - k,
                        {
                            let m = fired.remove(0);
                            assert(m == all[k as int]);
                            assert(fired@ =~= all.subrange(k + 1, n as int));
                            out.push(Command::Fire(m));
                            k = k + 1;
                        }
                    },
                    None => {},
                }
            },
            MainEvent::Run(i) => {
                out.push(Command::RunDraft(i));
                assert(out@ =~= seq![Command::<A>::RunDraft(i)]);
            },
            MainEvent::StopInput => {
                out.push(Command::BroadcastInput(InputCommand::Ungrab));
                out.push(Command::BroadcastInput(InputCommand::ClearBuffer));
                out.push(Command::BroadcastInput(InputCommand::Stop));
                out.push(Command::JoinInput);
                assert(out@ =~= seq![
                    Command::<A>::BroadcastInput(InputCommand::Ungrab),
                    Command::<A>::BroadcastInput(InputCommand::ClearBuffer),
                    Command::<A>::BroadcastInput(InputCommand::Stop),
                    Command::<A>::JoinInput,
                ]);
            },
            MainEvent::StopRenderer => {
                out.push(Command::StopRenderThread);
                out.push(Command::JoinRenderer);
                assert(out@ =~= seq![Command::<A>::StopRenderThread, Command::<A>::JoinRenderer]);
            },
            MainEvent::Exit => {
                out.push(Command::Exit);
                assert(out@ =~= seq![Command::<A>::Exit]);
            },
        }
        out
    }
}

/// How the screen is put back after a draft was launched or resumed.
#[derive(Clone, Copy, Debug, PartialEq, Eq, Structural)]
pub enum Restore {
    /// Nothing to restore: the draft was launched anew.
    Nothing,
    /// Put back the bottom strip saved when the shell opened.
    Panel,
    /// Put back the whole screen saved for the draft.
    Full,
    /// No saved screen: clear the display.
    Clear,
}

/// Chooses how to restore the screen after running a draft: when the draft
/// resumed is the one that was suspended, only the panel strip is put back;
/// when another one is resumed, its whole saved screen; without the needed
/// screenshot, the display is cleared.
pub fn restore_after_run(
    run: RunType,
    same_as_stopped: bool,
    panel_saved: bool,
    full_saved: bool,
) -> (r: Restore)
    ensures
        run is Launch ==> r is Nothing,
        run is Continue && same_as_stopped ==> r == (if panel_saved {
            Restore::Panel
        } else {
            Restore::Clear
        }),
        run is Continue && !same_as_stopped ==> r == (if full_saved {
            Restore::Full
        } else {
            Restore::Clear
        }),
{
    match run {
        RunType::Launch => Restore::Nothing,
        RunType::Continue => {
            if same_as_stopped {
                if panel_saved {
                    Restore::Panel
                } else {
                    Restore::Clear
                }
            } else if full_saved {
                Restore::Full
            } else {
                Restore::Clear
            }
        },
    }
}

/// Evaluates a plan on a fresh frame: the cursor spans the display and no
/// recognizer is registered yet. Returns the surface and, when asked to
/// publish, the recognizers the plan registered.
pub fn render_frame<S: Surface, A: Copy>(plan: &DrawNode<A>, surface: S, publish: bool) -> (r: (
    S,
    Option<GestureRecognizer<A>>,
))
    ensures
        !publish ==> r.1 is None,
        publish ==> (r.1 matches Some(g) && g.wf() && g.entries().len() == 0 && (plan.regs_exact()
            ==> g.callbacks() == plan.run(display_rect()).1)),
{
    let ctx = DrawContext { surface, rect: display(), gesture_recognizer: GestureRecognizer::new() };
    let out = plan.draw(ctx);
    proof {
        if plan.regs_exact() {
            assert(out.gesture_recognizer.callbacks() =~= plan.run(display_rect()).1);
        }
    }
    if publish {
        (out.surface, Some(out.gesture_recognizer))
    } else {
        (out.surface, None)
    }
}

/// What a device thread received from its command queue.
#[derive(Clone, Copy, Debug, PartialEq, Eq, Structural)]
pub enum Received {
    Command(InputCommand),
    Empty,
    Disconnected,
}

/// What a device thread does next.
#[derive(Clone, Copy, Debug, PartialEq, Eq, Structural)]
pub enum DeviceAction {
    /// Leave the capture loop.
    Finish,
    Grab,
    Ungrab,
    /// Inject the flood burst into the device.
    SendFlood,
    /// Nothing to flood with: skip.
    SkipFlood,
    /// No command left: wait for input.
    Poll,
}

/// The decision of a device thread between waits.
pub fn device_action(received: Received, flood_len: usize) -> (r: DeviceAction)
    ensures
        r == match received {
            Received::Command(InputCommand::Stop) => DeviceAction::Finish,
            Received::Command(InputCommand::Grab) => DeviceAction::Grab,
            Received::Command(InputCommand::Ungrab) => DeviceAction::Ungrab,
            Received::Command(InputCommand::ClearBuffer) => if flood_len == 0 {
                DeviceAction::SkipFlood
            } else {
                DeviceAction::SendFlood
            },
            Received::Empty => DeviceAction::Poll,
            Received::Disconnected => DeviceAction::Finish,
        },
{
    match received {
        Received::Command(InputCommand::Stop) => DeviceAction::Finish,
        Received::Command(InputCommand::Grab) => DeviceAction::Grab,
        Received::Command(InputCommand::Ungrab) => DeviceAction::Ungrab,
        Received::Command(InputCommand::ClearBuffer) => {
            if flood_len == 0 {
                DeviceAction::SkipFlood
            } else {
                DeviceAction::SendFlood
            }
        },
        Received::Empty => DeviceAction::Poll,
        Received::Disconnected => DeviceAction::Finish,
    }
}

/// A raw input event to inject: type, code and value.
#[derive(Clone, Copy, Debug, PartialEq, Eq, Structural)]
pub struct FloodEvent {
    pub kind: u16,
    pub code: u16,
    pub value: i32,
}

/// Event type of synchronization reports.
pub const EV_SYN: u16 = 0;

/// Event type of absolute-axis reports.
pub const EV_ABS: u16 = 3;

/// Absolute axis of the pen's hover distance.
pub const ABS_DISTANCE: u16 = 0x19;

/// Relies on evdev's `EventType::SYNCHRONIZATION`: the type of sync reports.
#[verifier::external_body]
fn ev_syn() -> (r: u16)
    ensures
        r == EV_SYN,
{
    libremarkable::evdev::EventType::SYNCHRONIZATION.0
}

/// Relies on evdev's `EventType::ABSOLUTE`: the type of absolute-axis reports.
#[verifier::external_body]
fn ev_abs() -> (r: u16)
    ensures
        r == EV_ABS,
{
    libremarkable::evdev::EventType::ABSOLUTE.0
}

/// Relies on evdev's `AbsoluteAxisType::ABS_DISTANCE`: the hover-distance axis.
#[verifier::external_body]
fn abs_distance() -> (r: u16)
    ensures
        r == ABS_DISTANCE,
{
    libremarkable::evdev::AbsoluteAxisType::ABS_DISTANCE.0
}

/// The burst that flushes a button device.
pub fn button_flood_events() -> (r: Vec<FloodEvent>)
    ensures
        r@ == seq![
            FloodEvent { kind: EV_SYN, code: 1, value: 0 },
            FloodEvent { kind: EV_SYN, code: 0, value: 1 },
        ],
{
    let syn = ev_syn();
    let mut v = Vec::new();
    v.push(FloodEvent { kind: syn, code: 1, value: 0 });
    v.push(FloodEvent { kind: syn, code: 0, value: 1 });
    assert(v@ =~= seq![
        FloodEvent { kind: EV_SYN, code: 1, value: 0 },
        FloodEvent { kind: EV_SYN, code: 0, value: 1 },
    ]);
    v
}

/// The burst that flushes a touch or pen device.
pub fn touch_flood_events() -> (r: Vec<FloodEvent>)
    ensures
        r@ == seq![
            FloodEvent { kind: EV_ABS, code: ABS_DISTANCE, value: 1 },
            FloodEvent { kind: EV_SYN, code: 0, value: 1 },
            FloodEvent { kind: EV_ABS, code: ABS_DISTANCE, value: 2 },
            FloodEvent { kind: EV_SYN, code: 0, value: 1 },
        ],
{
    let (syn, abs, distance) = (ev_syn(), ev_abs(), abs_distance());
    let mut v = Vec::new();
    v.push(FloodEvent { kind: abs, code: distance, value: 1 });
    v.push(FloodEvent { kind: syn, code: 0, value: 1 });
    v.push(FloodEvent { kind: abs, code: distance, value: 2 });
    v.push(FloodEvent { kind: syn, code: 0, value: 1 });
    assert(v@ =~= seq![
        FloodEvent { kind: EV_ABS, code: ABS_DISTANCE, value: 1 },
        FloodEvent { kind: EV_SYN, code: 0, value: 1 },
        FloodEvent { kind: EV_ABS, code: ABS_DISTANCE, value: 2 },
        FloodEvent { kind: EV_SYN, code: 0, value: 1 },
    ]);
    v
}

/// `events` repeated `times` times, back to back.
pub fn flood_burst(events: &Vec<FloodEvent>, times: usize) -> (r: Vec<FloodEvent>)
    requires
        events@.len() * times <= usize::MAX,
    ensures
        r@.len() == events@.len() * times,
        forall|k: int| 0 <= k < r@.len() ==> #[trigger] r@[k] == events@[k % events@.len() as int],
{
    let n = events.len();
    let mut out: Vec<FloodEvent> = Vec::new();
    let mut t: usize = 0;
    while t < times
        invariant
            n == events@.len(),
            t <= times,
            n * times <= usize::MAX,
            out@.len() == n * t,
            forall|k: int| 0 <= k < out@.len() ==> #[trigger] out@[k] == events@[k % n as int],
        decreases times - t,
    {
        let mut j: usize = 0;
        assert(n * t + n == n * (t + 1)) by (nonlinear_arith);
        assert(n * (t + 1) <= n * times) by (nonlinear_arith)
            requires
                t < times,
        ;
        while j < n
            invariant
                n == events@.len(),
                t < times,
                j <= n,
                n * t + n <= usize::MAX,
                out@.len() == n * t + j,
                forall|k: int| 0 <= k < out@.len() ==> #[trigger] out@[k] == events@[k % n as int],
            decreases n - j,
        {
            let ghost len = out@.len();
            out.push(events[j]);
            proof {
                assert((n * t + j) % (n as int) == j as int) by (nonlinear_arith)
                    requires
                        0 <= j < n,
                        t >= 0,
                ;
                assert(len == n * t + j);
            }
            j = j + 1;
        }
        t = t + 1;
    }
    out
}

} // verus!
