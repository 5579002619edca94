//! Input state and the dispatch step that turns one platform event into the
//! ordered list of application hooks to call.
//!
//! The position type `P` is whatever the platform reports the mouse
//! position in; the library stores and forwards it without reading it.
use vstd::prelude::*;

verus! {

/// A controller button: the controller's id and the button's index on it.
#[derive(Clone, Copy, Debug, PartialEq, Eq, Structural)]
pub struct ControllerButton {
    pub id: u32,
    pub button: u8,
}

/// A button of any input device, equal by device kind and payload.
#[derive(Clone, Copy, Debug, PartialEq, Eq, Structural)]
pub enum Button {
    Keyboard(u32),
    Mouse(u32),
    Controller(ControllerButton),
}

#[derive(Clone, Copy, Debug, PartialEq, Eq, Structural)]
pub enum ButtonState {
    Press,
    Release,
}

/// A platform event, reduced to what the dispatcher reads.
#[derive(Debug)]
pub enum Event<P> {
    Render,
    Update,
    AfterRender,
    Idle,
    Button(Button, ButtonState),
    CursorMoved(P, P),
    OtherMotion,
    Resize(u32, u32),
    Text,
    Cursor(bool),
    Focus(bool),
    Close,
    Custom,
}

/// One call of an application hook, with the arguments it receives.
#[derive(Debug, PartialEq)]
pub enum Hook<P> {
    Render,
    Update,
    PostRender,
    Idle,
    Key(u32),
    Mouse(u32, P, P),
    Controller(ControllerButton),
    KeyHeld(u32),
    MouseHeld(u32),
    ControllerHeld(ControllerButton),
    Cursor(bool),
    Focus(bool),
    Close,
}

/// Input state kept by the dispatcher between events.
pub struct Data<P> {
    pub is_cursor_on: bool,
    pub is_window_focus: bool,
    pub screen_width: u32,
    pub screen_height: u32,
    pub mouse_x: P,
    pub mouse_y: P,
    /// Buttons currently held, in the order they were pressed.
    pub button_held: Vec<Button>,
}

/// The mathematical value of [`Data`].
pub struct DataView<P> {
    pub is_cursor_on: bool,
    pub is_window_focus: bool,
    pub screen_width: u32,
    pub screen_height: u32,
    pub mouse_x: P,
    pub mouse_y: P,
    pub held: Seq<Button>,
}

impl<P> View for Data<P> {
    type V = DataView<P>;

    open spec fn view(&self) -> DataView<P> {
        DataView {
            is_cursor_on: self.is_cursor_on,
            is_window_focus: self.is_window_focus,
            screen_width: self.screen_width,
            screen_height: self.screen_height,
            mouse_x: self.mouse_x,
            mouse_y: self.mouse_y,
            held: self.button_held@,
        }
    }
}

/// The hook fired when a button goes down; a mouse button also gets the position.
pub open spec fn edge_hook<P>(b: Button, x: P, y: P) -> Hook<P> {
    match b {
        Button::Keyboard(k) => Hook::Key(k),
        Button::Mouse(m) => Hook::Mouse(m, x, y),
        Button::Controller(c) => Hook::Controller(c),
    }
}

/// The hook fired on every update tick while a button is held.
pub open spec fn held_hook<P>(b: Button) -> Hook<P> {
    match b {
        Button::Keyboard(k) => Hook::KeyHeld(k),
        Button::Mouse(m) => Hook::MouseHeld(m),
        Button::Controller(c) => Hook::ControllerHeld(c),
    }
}

/// Held buttons after a press or a release: a press of a button not held
/// appends it, a release of a held button removes it, anything else keeps
/// the sequence as it is.
pub open spec fn next_held(held: Seq<Button>, b: Button, st: ButtonState) -> Seq<Button> {
    match st {
        ButtonState::Press => if held.contains(b) {
            held
        } else {
            held.push(b)
        },
        ButtonState::Release => held.remove_value(b),
    }
}

/// Input state after an event.
pub open spec fn next_data<P>(d: DataView<P>, e: Event<P>) -> DataView<P> {
    match e {
        Event::Button(b, st) => DataView { held: next_held(d.held, b, st), ..d },
        Event::CursorMoved(x, y) => DataView { mouse_x: x, mouse_y: y, ..d },
        Event::Resize(w, h) => DataView { screen_width: w, screen_height: h, ..d },
        Event::Cursor(c) => DataView { is_cursor_on: c, ..d },
        Event::Focus(f) => DataView { is_window_focus: f, ..d },
        _ => d,
    }
}

/// The held-button hooks of an update tick, in press order.
pub open spec fn held_hooks<P>(held: Seq<Button>) -> Seq<Hook<P>> {
    Seq::new(held.len(), |i: int| held_hook(held[i]))
}

/// Hooks called for an event, in order, given the input state before it.
pub open spec fn hooks_for<P>(d: DataView<P>, e: Event<P>) -> Seq<Hook<P>> {
    match e {
        Event::Render => seq![Hook::Render],
        Event::Update => held_hooks(d.held).push(Hook::Update),
        Event::AfterRender => seq![Hook::PostRender],
        Event::Idle => seq![Hook::Idle],
        Event::Button(b, _) => if d.held.contains(b) {
            Seq::empty()
        } else {
            seq![edge_hook(b, d.mouse_x, d.mouse_y)]
        },
        Event::Cursor(c) => seq![Hook::Cursor(c)],
        Event::Focus(f) => seq![Hook::Focus(f)],
        Event::Close => seq![Hook::Close],
        _ => Seq::empty(),
    }
}

/// Held buttons after a run of presses and releases, starting from `held`.
pub open spec fn held_after(held: Seq<Button>, evs: Seq<(Button, ButtonState)>) -> Seq<Button>
    decreases evs.len(),
{
    if evs.len() == 0 {
        held
    } else {
        let e = evs.last();
        next_held(held_after(held, evs.drop_last()), e.0, e.1)
    }
}

/// Index of the last event on button `b`, or -1 where there is none.
pub open spec fn last_event(evs: Seq<(Button, ButtonState)>, b: Button) -> int
    decreases evs.len(),
{
    if evs.len() == 0 {
        -1
    } else if evs.last().0 == b {
        evs.len() - 1
    } else {
        last_event(evs.drop_last(), b)
    }
}

/// Button `b` is down after `evs`: its last event is a press.
pub open spec fn is_down(evs: Seq<(Button, ButtonState)>, b: Button) -> bool {
    last_event(evs, b) >= 0 && evs[last_event(evs, b)].1 == ButtonState::Press
}

/// No button is pressed while it is already down.
pub open spec fn no_repeated_press(evs: Seq<(Button, ButtonState)>) -> bool {
    forall|i: int|
        0 <= i < evs.len() && (#[trigger] evs[i]).1 == ButtonState::Press ==> !is_down(
            evs.take(i),
            evs[i].0,
        )
}

proof fn lemma_last_event_bound(evs: Seq<(Button, ButtonState)>, b: Button)
    ensures
        -1 <= last_event(evs, b) < evs.len(),
        last_event(evs, b) >= 0 ==> evs[last_event(evs, b)].0 == b,
    decreases evs.len(),
{
    if evs.len() > 0 && evs.last().0 != b {
        lemma_last_event_bound(evs.drop_last(), b);
    }
}

/// Over any run of presses and releases that never presses a button already
/// down, the held buttons, starting from none, are exactly the buttons down
/// at the end, each once, in the order in which they were pressed.
pub proof fn lemma_held_tracks_buttons_down(evs: Seq<(Button, ButtonState)>)
    requires
        no_repeated_press(evs),
    ensures
        held_after(Seq::empty(), evs).no_duplicates(),
        forall|b: Button| #[trigger]
            held_after(Seq::empty(), evs).contains(b) <==> is_down(evs, b),
        forall|i: int, j: int|
            0 <= i < j < held_after(Seq::empty(), evs).len() ==> last_event(
                evs,
                #[trigger] held_after(Seq::empty(), evs)[i],
            ) < last_event(evs, #[trigger] held_after(Seq::empty(), evs)[j]),
    decreases evs.len(),
{
    if evs.len() == 0 {
        return;
    }
    let n = evs.len() - 1;
    let p = evs.drop_last();
    let (b, st) = evs.last();
    assert forall|i: int|
        0 <= i < p.len() && (#[trigger] p[i]).1 == ButtonState::Press implies !is_down(
        p.take(i),
        p[i].0,
    ) by {
        assert(p.take(i) =~= evs.take(i));
        assert(p[i] == evs[i]);
    }
    lemma_held_tracks_buttons_down(p);
    let h0 = held_after(Seq::empty(), p);
    let h = held_after(Seq::empty(), evs);
    assert(h == next_held(h0, b, st));
    assert forall|c: Button| c != b implies #[trigger] last_event(evs, c) == last_event(p, c)
        && (is_down(evs, c) <==> is_down(p, c)) by {
        lemma_last_event_bound(p, c);
        if last_event(p, c) >= 0 {
            assert(evs[last_event(p, c)] == p[last_event(p, c)]);
        }
    }
    assert(last_event(evs, b) == n);
    assert forall|c: Button| #[trigger] h0.contains(c) implies last_event(p, c) >= 0 && last_event(p, c) < n by {
        lemma_last_event_bound(p, c);
    }
    match st {
        ButtonState::Press => {
            assert(p =~= evs.take(n));
            assert(evs[n] == (b, st));
            assert(!is_down(p, b));
            assert(!h0.contains(b));
            assert(h == h0.push(b));
            assert forall|c: Button| #[trigger] h.contains(c) <==> is_down(evs, c) by {
                if c != b {
                    if h.contains(c) {
                        let k = choose|k: int| 0 <= k < h.len() && h[k] == c;
                        assert(h0[k] == c);
                    }
                    if h0.contains(c) {
                        let k = choose|k: int| 0 <= k < h0.len() && h0[k] == c;
                        assert(h[k] == c);
                    }
                } else {
                    assert(h[h.len() - 1] == b);
                }
            }
            assert forall|i: int, j: int| 0 <= i < j < h.len() implies last_event(evs, #[trigger] h[i]) < last_event(
                evs,
                #[trigger] h[j],
            ) by {
                assert(h0.contains(h[i]));
                if j < h0.len() {
                    assert(h0.contains(h[j]));
                }
            }
        },
        ButtonState::Release => {
            assert(!is_down(evs, b));
            h0.index_of_first_ensures(b);
            if h0.contains(b) {
                let k = h0.index_of_first(b).unwrap();
                assert(h == h0.remove(k));
                assert forall|c: Button| #[trigger] h.contains(c) <==> is_down(evs, c) by {
                    if h.contains(c) {
                        let m = choose|m: int| 0 <= m < h.len() && h[m] == c;
                        if m < k {
                            assert(h0[m] == c);
                        } else {
                            assert(h0[m + 1] == c);
                        }
                        assert(h0.contains(c));
                    }
                    if c != b && h0.contains(c) {
                        let m = choose|m: int| 0 <= m < h0.len() && h0[m] == c;
                        if m < k {
                            assert(h[m] == c);
                        } else {
                            assert(h[m - 1] == c);
                        }
                    }
                }
                assert forall|i: int, j: int| 0 <= i < j < h.len() implies last_event(evs, #[trigger] h[i]) < last_event(
                    evs,
                    #[trigger] h[j],
                ) by {
                    let i0 = if i < k { i } else { i + 1 };
                    let j0 = if j < k { j } else { j + 1 };
                    assert(h[i] == h0[i0]);
                    assert(h[j] == h0[j0]);
                    assert(h0.contains(h0[i0]));
                    assert(h0.contains(h0[j0]));
                }
            } else {
                assert(h == h0);
                assert forall|c: Button| #[trigger] h.contains(c) <==> is_down(evs, c) by {
                    if c == b {
                    }
                }
                assert forall|i: int, j: int| 0 <= i < j < h.len() implies last_event(evs, #[trigger] h[i]) < last_event(
                    evs,
                    #[trigger] h[j],
                ) by {
                    assert(h0.contains(h0[i]));
                    assert(h0.contains(h0[j]));
                }
            }
        },
    }
}

/// Releasing a button that is not held changes no part of the input state.
pub proof fn lemma_release_unheld_is_noop<P>(d: DataView<P>, b: Button)
    requires
        !d.held.contains(b),
    ensures
        next_data(d, Event::Button(b, ButtonState::Release)) == d,
{
    d.held.index_of_first_ensures(b);
    assert(next_held(d.held, b, ButtonState::Release) == d.held);
}

/// A button event other than the release of a button not held fires its
/// edge hook exactly when the button goes from not held to held, and then
/// once; in particular never for a release.
pub proof fn lemma_edge_hook_on_press_only<P>(d: DataView<P>, b: Button, st: ButtonState)
    requires
        d.held.no_duplicates(),
        st == ButtonState::Press || d.held.contains(b),
    ensures
        ({
            let hooks = hooks_for(d, Event::Button(b, st));
            &&& hooks.len() <= 1
            &&& hooks.len() == 1 <==> (!d.held.contains(b) && next_data(
                d,
                Event::Button(b, st),
            ).held.contains(b))
            &&& hooks.len() == 1 ==> hooks[0] == edge_hook(b, d.mouse_x, d.mouse_y)
            &&& st == ButtonState::Release ==> hooks.len() == 0
        }),
{
    d.held.index_of_first_ensures(b);
    if st == ButtonState::Press && !d.held.contains(b) {
        assert(d.held.push(b)[d.held.len() as int] == b);
    }
    if st == ButtonState::Release {
        let k = d.held.index_of_first(b).unwrap();
        let h = d.held.remove(k);
        if h.contains(b) {
            let m = choose|m: int| 0 <= m < h.len() && h[m] == b;
            if m < k {
                assert(d.held[m] == b);
            } else {
                assert(d.held[m + 1] == b);
            }
        }
    }
}

impl<P: Copy> Data<P> {
    /// Held buttons appear at most once.
    pub open spec fn wf(&self) -> bool {
        self.button_held@.no_duplicates()
    }

    /// Fresh input state for a window of the given size: no focus, no cursor,
    /// no button held, the mouse at the given origin.
    pub fn new(screen_width: u32, screen_height: u32, origin: P) -> (d: Self)
        ensures
            d.wf(),
            d@ == (DataView {
                is_cursor_on: false,
                is_window_focus: false,
                screen_width,
                screen_height,
                mouse_x: origin,
                mouse_y: origin,
                held: Seq::<Button>::empty(),
            }),
    {
        Data {
            is_cursor_on: false,
            is_window_focus: false,
            screen_width,
            screen_height,
            mouse_x: origin,
            mouse_y: origin,
            button_held: Vec::new(),
        }
    }

    /// Index of a button among the held ones, if it is held.
    fn position(&self, b: Button) -> (r: Option<usize>)
        ensures
            match r {
                Some(i) => {
                    &&& i < self.button_held@.len()
                    &&& self.button_held@[i as int] == b
                    &&& forall|j: int| 0 <= j < i ==> self.button_held@[j] != b
                },
                None => !self.button_held@.contains(b),
            },
    {
        let mut i: usize = 0;
        while i < self.button_held.len()
            invariant
                i <= self.button_held@.len(),
                forall|j: int| 0 <= j < i ==> self.button_held@[j] != b,
            decreases self.button_held@.len() - i,
        {
            if self.button_held[i] == b {
                return Some(i);
            }
            i = i + 1;
        }
        None
    }

    fn held_calls(&self) -> (hooks: Vec<Hook<P>>)
        ensures
            hooks@ == held_hooks::<P>(self.button_held@),
    {
        let mut hooks: Vec<Hook<P>> = Vec::new();
        let mut i: usize = 0;
        while i < self.button_held.len()
            invariant
                i <= self.button_held@.len(),
                hooks@ == held_hooks::<P>(self.button_held@.take(i as int)),
            decreases self.button_held@.len() - i,
        {
            let h = match self.button_held[i] {
                Button::Keyboard(k) => Hook::KeyHeld(k),
                Button::Mouse(m) => Hook::MouseHeld(m),
                Button::Controller(c) => Hook::ControllerHeld(c),
            };
            hooks.push(h);
            i = i + 1;
            assert(hooks@ =~= held_hooks::<P>(self.button_held@.take(i as int)));
        }
        assert(self.button_held@.take(i as int) =~= self.button_held@);
        hooks
    }

    /// Processes one event: updates the input state and returns the hooks
    /// to call for it, in order. Never fails; a release of a button that is
    /// not held changes nothing.
    pub fn dispatch(&mut self, e: Event<P>) -> (hooks: Vec<Hook<P>>)
        requires
            old(self).wf(),
        ensures
            final(self).wf(),
            final(self)@ == next_data(old(self)@, e),
            hooks@ == hooks_for(old(self)@, e),
    {
        match e {
            Event::Render => vec![Hook::Render],
            Event::Update => {
                let mut hooks = self.held_calls();
                hooks.push(Hook::Update);
                hooks
            },
            Event::AfterRender => vec![Hook::PostRender],
            Event::Idle => vec![Hook::Idle],
            Event::Button(b, st) => {
                let pos = self.position(b);
                let mut hooks: Vec<Hook<P>> = Vec::new();
                if pos.is_none() {
                    let h = match b {
                        Button::Keyboard(k) => Hook::Key(k),
                        Button::Mouse(m) => Hook::Mouse(m, self.mouse_x, self.mouse_y),
                        Button::Controller(c) => Hook::Controller(c),
                    };
                    hooks.push(h);
                }
                proof {
                    self.button_held@.index_of_first_ensures(b);
                }
                match st {
                    ButtonState::Press => {
                        if pos.is_none() {
                            self.button_held.push(b);
                            proof {
                                assert(forall|j: int|
                                    0 <= j < old(self).button_held@.len()
                                        ==> old(self).button_held@[j] != b);
                            }
                        }
                    },
                    ButtonState::Release => {
                        if let Some(i) = pos {
                            self.button_held.remove(i);
                        }
                    },
                }
                proof {
                    assert(hooks@ =~= hooks_for(old(self)@, e));
                }
                hooks
            },
            Event::CursorMoved(x, y) => {
                self.mouse_x = x;
                self.mouse_y = y;
                Vec::new()
            },
            Event::OtherMotion => Vec::new(),
            Event::Resize(w, h) => {
                self.screen_width = w;
                self.screen_height = h;
                Vec::new()
            },
            Event::Text => Vec::new(),
            Event::Cursor(c) => {
                self.is_cursor_on = c;
                vec![Hook::Cursor(c)]
            },
            Event::Focus(f) => {
                self.is_window_focus = f;
                vec![Hook::Focus(f)]
            },
            Event::Close => vec![Hook::Close],
            Event::Custom => Vec::new(),
        }
    }
}

} // verus!
