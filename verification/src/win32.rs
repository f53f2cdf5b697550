//! Window messages, and the keyboard and mouse state they leave behind.

#![allow(non_snake_case, non_camel_case_types)]

use vstd::prelude::*;

pub use crate::utf16::wstr;

verus! {

pub type LRESULT = isize;

pub type WPARAM = usize;

pub type LPARAM = isize;

pub type ATOM = u16;

pub type DWORD = u32;

pub type UINT = u32;

pub type BOOL = i32;

pub type LONG = i32;

/// A position in client coordinates.
#[derive(Clone, Copy, Debug, PartialEq, Eq, Structural)]
pub struct POINT {
    pub x: LONG,
    pub y: LONG,
}

/// A rectangle in client coordinates.
#[derive(Clone, Copy, Debug, PartialEq, Eq, Structural)]
pub struct RECT {
    pub left: LONG,
    pub top: LONG,
    pub right: LONG,
    pub bottom: LONG,
}

// Window styles.
pub const WS_OVERLAPPEDWINDOW: DWORD = 0x00CF0000;

pub const WS_VISIBLE: DWORD = 0x10000000;

// Window messages.
pub const WM_DESTROY: UINT = 0x0002;

pub const WM_CLOSE: UINT = 0x0010;

pub const WM_QUIT: UINT = 0x0012;

pub const WM_KEYDOWN: UINT = 0x0100;

pub const WM_SIZE: UINT = 0x0005;

pub const WM_MOUSEMOVE: UINT = 0x0200;

pub const WM_LBUTTONDOWN: UINT = 0x0201;

pub const WM_LBUTTONUP: UINT = 0x0202;

pub const WM_RBUTTONDOWN: UINT = 0x0204;

pub const WM_RBUTTONUP: UINT = 0x0205;

pub const WM_MOUSEWHEEL: UINT = 0x020A;

// Message-queue and window-creation arguments.
pub const PM_REMOVE: UINT = 0x0001;

pub const SW_SHOW: i32 = 5;

pub const CW_USEDEFAULT: i32 = -0x8000_0000;

// Virtual key codes.
pub const VK_ESCAPE: WPARAM = 0x1B;

pub const VK_LEFT: WPARAM = 0x25;

pub const VK_RIGHT: WPARAM = 0x27;

pub const VK_UP: WPARAM = 0x26;

pub const VK_DOWN: WPARAM = 0x28;

pub const VK_PRIOR: WPARAM = 0x21;

pub const VK_NEXT: WPARAM = 0x22;

/// The number of virtual keys that are tracked.
pub const KEY_COUNT: usize = 256;

/// The resource number of the standard arrow cursor.
pub fn IDC_ARROW() -> (id: usize)
    ensures
        id == 32512,
{
    32512
}

/// The 16 low bits of `v`, read as a two's-complement number.
pub open spec fn signed16(v: int) -> int {
    let r = v % 0x1_0000;
    if r < 0x8000 {
        r
    } else {
        r - 0x1_0000
    }
}

/// The signed low half of a message word.
pub fn loword_i16(v: u32) -> (r: i16)
    ensures
        r == signed16(v as int),
{
    proof {
        assert((v & 0xFFFF) as i16 == if v % 0x1_0000 < 0x8000 {
            v % 0x1_0000 + 0
        } else {
            v % 0x1_0000 - 0x1_0000
        }) by (bit_vector);
    }
    (v & 0xFFFF) as i16
}

/// The signed high half of a message word.
pub fn hiword_i16(v: u32) -> (r: i16)
    ensures
        r == signed16(v as int / 0x1_0000),
{
    proof {
        assert(((v >> 16) & 0xFFFF) as i16 == if (v / 0x1_0000) % 0x1_0000 < 0x8000 {
            (v / 0x1_0000) % 0x1_0000 + 0
        } else {
            (v / 0x1_0000) % 0x1_0000 - 0x1_0000
        }) by (bit_vector);
    }
    ((v >> 16) & 0xFFFF) as i16
}

/// The key presses that have arrived and not been taken yet: how many of each virtual
/// key.
pub struct Keys {
    pub waiting: [u64; 256],
}

impl View for Keys {
    type V = Seq<u64>;

    /// For each virtual key, how many presses of it are waiting.
    open spec fn view(&self) -> Seq<u64> {
        self.waiting@
    }
}

/// The table in which no press is waiting.
pub open spec fn no_keys() -> Seq<u64> {
    Seq::new(KEY_COUNT as nat, |i: int| 0u64)
}

impl Keys {
    /// No press is waiting.
    pub fn new() -> (k: Keys)
        ensures
            k@ == no_keys(),
    {
        let k = Keys { waiting: [0; 256] };
        assert(k@ =~= no_keys());
        k
    }

    /// Notes that key `vk` went down. Codes outside the table are dropped.
    pub fn press(&mut self, vk: WPARAM)
        ensures
            final(self)@ == keys_pressed(old(self)@, vk),
    {
        if vk < KEY_COUNT {
            let count: u64 = self.waiting[vk];
            if count < u64::MAX {
                self.waiting[vk] = count + 1;
            }
        }
    }

    /// Takes one waiting press of key `vk`, if there is one.
    pub fn consume(&mut self, vk: WPARAM) -> (taken: bool)
        ensures
            taken == key_waits(old(self)@, vk),
            final(self)@ == keys_taken(old(self)@, vk),
    {
        if vk >= KEY_COUNT {
            return false;
        }
        let count: u64 = self.waiting[vk];
        if count > 0 {
            self.waiting[vk] = count - 1;
            true
        } else {
            false
        }
    }
}

/// Whether a press of key `vk` is waiting.
pub open spec fn key_waits(waiting: Seq<u64>, vk: WPARAM) -> bool {
    vk < KEY_COUNT && waiting[vk as int] > 0
}

/// The waiting presses after one of key `vk` was taken, if there was one.
pub open spec fn keys_taken(waiting: Seq<u64>, vk: WPARAM) -> Seq<u64> {
    if key_waits(waiting, vk) {
        waiting.update(vk as int, (waiting[vk as int] - 1) as u64)
    } else {
        waiting
    }
}

/// The waiting presses after key `vk` went down. A count that can go no higher stays.
pub open spec fn keys_pressed(waiting: Seq<u64>, vk: WPARAM) -> Seq<u64> {
    if vk < KEY_COUNT && waiting[vk as int] < u64::MAX {
        waiting.update(vk as int, (waiting[vk as int] + 1) as u64)
    } else {
        waiting
    }
}

/// What can happen to the key table.
pub enum KeyEvent {
    /// A key went down.
    Down(WPARAM),
    /// The program asked for a press of a key.
    Take(WPARAM),
}

/// The key table after a run of events.
pub open spec fn keys_after_events(waiting: Seq<u64>, events: Seq<KeyEvent>) -> Seq<u64>
    decreases events.len(),
{
    if events.len() == 0 {
        waiting
    } else {
        let before = keys_after_events(waiting, events.drop_last());
        match events.last() {
            KeyEvent::Down(vk) => keys_pressed(before, vk),
            KeyEvent::Take(vk) => keys_taken(before, vk),
        }
    }
}

/// How often key `vk` went down in a run of events.
pub open spec fn times_down(events: Seq<KeyEvent>, vk: WPARAM) -> nat
    decreases events.len(),
{
    if events.len() == 0 {
        0
    } else {
        times_down(events.drop_last(), vk) + if events.last() == KeyEvent::Down(vk) {
            1nat
        } else {
            0nat
        }
    }
}

/// How often the program was handed a press of key `vk` in a run of events.
pub open spec fn times_taken(waiting: Seq<u64>, events: Seq<KeyEvent>, vk: WPARAM) -> nat
    decreases events.len(),
{
    if events.len() == 0 {
        0
    } else {
        let before = keys_after_events(waiting, events.drop_last());
        times_taken(waiting, events.drop_last(), vk) + if events.last() == KeyEvent::Take(vk)
            && key_waits(before, vk) {
            1nat
        } else {
            0nat
        }
    }
}

/// A key is handed out exactly once for each time it went down: what was handed out and
/// what is left waiting make up what went down and what was waiting before. So the
/// program is handed a press whenever it was handed fewer than there were. The presses
/// are no more than can be counted.
pub proof fn law_one_take_per_press(waiting: Seq<u64>, events: Seq<KeyEvent>, vk: WPARAM)
    requires
        waiting.len() == KEY_COUNT,
        vk < KEY_COUNT,
        waiting[vk as int] + times_down(events, vk) <= u64::MAX,
    ensures
        ({
            let after = keys_after_events(waiting, events);
            let owed = waiting[vk as int] + times_down(events, vk);
            let given = times_taken(waiting, events, vk);
            &&& after.len() == KEY_COUNT
            &&& given + after[vk as int] == owed
            &&& key_waits(after, vk) <==> given < owed
        }),
    decreases events.len(),
{
    if events.len() > 0 {
        law_one_take_per_press(waiting, events.drop_last(), vk);
    }
}

/// What the mouse messages have left behind.
pub struct Mouse {
    pub pos: POINT,
    pub dx: i32,
    pub dy: i32,
    pub left: bool,
    pub right: bool,
    /// The wheel turns since the last poll, oldest first, 120 to a notch.
    pub wheel: Vec<i16>,
    pub initialized: bool,
}

/// The mouse state over mathematical values.
pub struct MouseModel {
    pub x: int,
    pub y: int,
    pub dx: int,
    pub dy: int,
    pub left: bool,
    pub right: bool,
    pub wheel: Seq<i16>,
    pub initialized: bool,
}

/// The client position packed into the second word of a mouse message.
pub open spec fn message_x(l: LPARAM) -> int {
    signed16((l as u32) as int)
}

pub open spec fn message_y(l: LPARAM) -> int {
    signed16((l as u32) as int / 0x1_0000)
}

/// The wheel turn packed into the first word of a wheel message.
pub open spec fn message_wheel(w: WPARAM) -> int {
    signed16((w as u32) as int / 0x1_0000)
}

pub open spec fn fits_i16(v: int) -> bool {
    i16::MIN <= v <= i16::MAX
}

impl MouseModel {
    /// The travel since the last poll leads from one client position to the
    /// current one, and there is none before the first move.
    pub open spec fn wf(self) -> bool {
        &&& fits_i16(self.x)
        &&& fits_i16(self.y)
        &&& fits_i16(self.x - self.dx)
        &&& fits_i16(self.y - self.dy)
        &&& !self.initialized ==> self.dx == 0 && self.dy == 0
    }

    /// The state after the pointer moved to (`x`, `y`). The first move only
    /// fixes the position.
    pub open spec fn moved(self, x: int, y: int) -> MouseModel {
        MouseModel {
            x,
            y,
            dx: if self.initialized { self.dx + (x - self.x) } else { self.dx },
            dy: if self.initialized { self.dy + (y - self.y) } else { self.dy },
            initialized: true,
            ..self
        }
    }

    /// The state after one window message.
    pub open spec fn after(self, msg: UINT, w: WPARAM, l: LPARAM) -> MouseModel {
        if msg == WM_MOUSEMOVE {
            self.moved(message_x(l), message_y(l))
        } else if msg == WM_LBUTTONDOWN {
            MouseModel { left: true, ..self }
        } else if msg == WM_LBUTTONUP {
            MouseModel { left: false, ..self }
        } else if msg == WM_RBUTTONDOWN {
            MouseModel { right: true, ..self }
        } else if msg == WM_RBUTTONUP {
            MouseModel { right: false, ..self }
        } else if msg == WM_MOUSEWHEEL {
            MouseModel { wheel: self.wheel.push(message_wheel(w) as i16), ..self }
        } else {
            self
        }
    }

    /// The state after a poll: travel and wheel start over.
    pub open spec fn polled(self) -> MouseModel {
        MouseModel { dx: 0, dy: 0, wheel: Seq::empty(), ..self }
    }
}

impl View for Mouse {
    type V = MouseModel;

    open spec fn view(&self) -> MouseModel {
        MouseModel {
            x: self.pos.x as int,
            y: self.pos.y as int,
            dx: self.dx as int,
            dy: self.dy as int,
            left: self.left,
            right: self.right,
            wheel: self.wheel@,
            initialized: self.initialized,
        }
    }
}

/// One window message: its kind and its two words.
pub struct WindowMessage {
    pub msg: UINT,
    pub w: WPARAM,
    pub l: LPARAM,
}

/// The mouse state after a run of window messages.
pub open spec fn mouse_after(m: MouseModel, messages: Seq<WindowMessage>) -> MouseModel
    decreases messages.len(),
{
    if messages.len() == 0 {
        m
    } else {
        let last = messages.last();
        mouse_after(m, messages.drop_last()).after(last.msg, last.w, last.l)
    }
}

/// After a poll the travel is the distance from the position at the poll to the
/// current one, whatever path the pointer took, and so it never overflows.
pub proof fn law_travel_is_displacement(m: MouseModel, messages: Seq<WindowMessage>)
    requires
        m.wf(),
        m.initialized,
    ensures
        ({
            let end = mouse_after(m.polled(), messages);
            &&& end.wf()
            &&& end.initialized
            &&& end.dx == end.x - m.x
            &&& end.dy == end.y - m.y
            &&& -0xFFFF <= end.dx <= 0xFFFF
            &&& -0xFFFF <= end.dy <= 0xFFFF
        }),
    decreases messages.len(),
{
    if messages.len() > 0 {
        law_travel_is_displacement(m, messages.drop_last());
    }
}

/// The mouse input gathered between two polls.
pub struct MouseState {
    pub dx: i32,
    pub dy: i32,
    /// The wheel turns, oldest first, 120 to a notch.
    pub wheel: Vec<i16>,
    pub left: bool,
    pub right: bool,
}

impl Mouse {
    /// No button down, nothing moved.
    pub fn new() -> (m: Mouse)
        ensures
            m@.wf(),
            m@ == (MouseModel {
                x: 0,
                y: 0,
                dx: 0,
                dy: 0,
                left: false,
                right: false,
                wheel: Seq::empty(),
                initialized: false,
            }),
    {
        Mouse {
            pos: POINT { x: 0, y: 0 },
            dx: 0,
            dy: 0,
            left: false,
            right: false,
            wheel: Vec::new(),
            initialized: false,
        }
    }

    /// Notes that the pointer is at (`x`, `y`).
    pub fn moved(&mut self, x: i16, y: i16)
        requires
            old(self)@.wf(),
        ensures
            final(self)@.wf(),
            final(self)@ == old(self)@.moved(x as int, y as int),
    {
        let x: i32 = x as i32;
        let y: i32 = y as i32;
        if !self.initialized {
            self.pos = POINT { x, y };
            self.initialized = true;
        }
        self.dx = self.dx + (x - self.pos.x);
        self.dy = self.dy + (y - self.pos.y);
        self.pos = POINT { x, y };
    }

    /// Hands out what was gathered since the last poll and starts over.
    pub fn poll(&mut self) -> (s: MouseState)
        requires
            old(self)@.wf(),
        ensures
            final(self)@.wf(),
            final(self)@ == old(self)@.polled(),
            s.dx == old(self)@.dx,
            s.dy == old(self)@.dy,
            s.wheel@ == old(self)@.wheel,
            s.left == old(self)@.left,
            s.right == old(self)@.right,
    {
        let mut wheel: Vec<i16> = Vec::new();
        std::mem::swap(&mut wheel, &mut self.wheel);
        let s = MouseState { dx: self.dx, dy: self.dy, wheel, left: self.left, right: self.right };
        self.dx = 0;
        self.dy = 0;
        s
    }
}

/// What the window procedure owes the system for one message.
#[derive(Clone, Copy, Debug, PartialEq, Eq, Structural)]
pub enum Reaction {
    /// Return this value.
    Answer(LRESULT),
    /// Post a quit message with this exit code, then return zero.
    PostQuit(i32),
    /// Hand the message to the default procedure and return its result.
    Default,
}

/// What to do after one look at the message queue.
#[derive(Clone, Copy, Debug, PartialEq, Eq, Structural)]
pub enum PumpStep {
    /// Translate and dispatch the message that was taken out.
    Dispatch,
    /// The queue is empty. The flag says whether to go on running.
    Finished(bool),
}

/// The main window: its size, and the input its messages have left behind.
pub struct Window {
    pub width: u32,
    pub height: u32,
    pub quit_requested: bool,
    pub keys: Keys,
    pub mouse: Mouse,
}

/// What the window procedure owes for a message of kind `msg`.
pub open spec fn reaction_to(msg: UINT) -> Reaction {
    if msg == WM_DESTROY {
        Reaction::PostQuit(0)
    } else if msg == WM_CLOSE || msg == WM_KEYDOWN || msg == WM_MOUSEMOVE || msg == WM_LBUTTONDOWN
        || msg == WM_LBUTTONUP || msg == WM_RBUTTONDOWN || msg == WM_RBUTTONUP || msg
        == WM_MOUSEWHEEL {
        Reaction::Answer(0)
    } else {
        Reaction::Default
    }
}

/// Whether a message asks the program to end.
pub open spec fn asks_to_quit(msg: UINT, w: WPARAM) -> bool {
    msg == WM_CLOSE || (msg == WM_KEYDOWN && w == VK_ESCAPE)
}

/// The waiting presses after one window message.
pub open spec fn keys_after(waiting: Seq<u64>, msg: UINT, w: WPARAM) -> Seq<u64> {
    if msg == WM_KEYDOWN {
        keys_pressed(waiting, w)
    } else {
        waiting
    }
}

/// Whether the program is asked to end by a run of window messages.
pub open spec fn quit_after(requested: bool, messages: Seq<WindowMessage>) -> bool
    decreases messages.len(),
{
    if messages.len() == 0 {
        requested
    } else {
        quit_after(requested, messages.drop_last()) || asks_to_quit(
            messages.last().msg,
            messages.last().w,
        )
    }
}

/// A quit request is never taken back.
pub proof fn law_quit_is_final(requested: bool, messages: Seq<WindowMessage>)
    ensures
        quit_after(requested, messages) == (requested || exists|i: int|
            0 <= i < messages.len() && asks_to_quit(#[trigger] messages[i].msg, messages[i].w)),
    decreases messages.len(),
{
    if messages.len() > 0 {
        let n = messages.len() - 1;
        let before = messages.drop_last();
        law_quit_is_final(requested, before);
        if exists|i: int| 0 <= i < n && asks_to_quit(#[trigger] before[i].msg, before[i].w) {
            let i = choose|i: int|
                0 <= i < n && asks_to_quit(#[trigger] before[i].msg, before[i].w);
            assert(asks_to_quit(messages[i].msg, messages[i].w));
        }
        if exists|i: int|
            0 <= i <= n && asks_to_quit(#[trigger] messages[i].msg, messages[i].w) {
            let i = choose|i: int|
                0 <= i <= n && asks_to_quit(#[trigger] messages[i].msg, messages[i].w);
            if i < n {
                assert(asks_to_quit(before[i].msg, before[i].w));
            }
        }
        assert(asks_to_quit(messages[n].msg, messages[n].w) ==> asks_to_quit(
            messages.last().msg,
            messages.last().w,
        ));
    }
}

impl Window {
    pub open spec fn wf(self) -> bool {
        self.mouse@.wf()
    }

    /// A window of the given size that has seen no message.
    pub fn new(width: u32, height: u32) -> (win: Window)
        ensures
            win.wf(),
            win.width == width,
            win.height == height,
            !win.quit_requested,
            win.keys@ == no_keys(),
            win.mouse@ == (MouseModel {
                x: 0,
                y: 0,
                dx: 0,
                dy: 0,
                left: false,
                right: false,
                wheel: Seq::empty(),
                initialized: false,
            }),
    {
        Window {
            width,
            height,
            quit_requested: false,
            keys: Keys::new(),
            mouse: Mouse::new(),
        }
    }

    /// Takes in one window message.
    pub fn window_proc(&mut self, msg: UINT, w: WPARAM, l: LPARAM) -> (r: Reaction)
        requires
            old(self).wf(),
        ensures
            final(self).wf(),
            r == reaction_to(msg),
            final(self).width == old(self).width,
            final(self).height == old(self).height,
            final(self).quit_requested == (old(self).quit_requested || asks_to_quit(msg, w)),
            final(self).keys@ == keys_after(old(self).keys@, msg, w),
            final(self).mouse@ == old(self).mouse@.after(msg, w, l),
    {
        match msg {
            WM_CLOSE => {
                self.quit_requested = true;
                Reaction::Answer(0)
            },
            WM_DESTROY => Reaction::PostQuit(0),
            WM_KEYDOWN => {
                if w == VK_ESCAPE {
                    self.quit_requested = true;
                }
                self.keys.press(w);
                Reaction::Answer(0)
            },
            WM_MOUSEMOVE => {
                let lp: u32 = l as u32;
                self.mouse.moved(loword_i16(lp), hiword_i16(lp));
                Reaction::Answer(0)
            },
            WM_LBUTTONDOWN => {
                self.mouse.left = true;
                Reaction::Answer(0)
            },
            WM_LBUTTONUP => {
                self.mouse.left = false;
                Reaction::Answer(0)
            },
            WM_RBUTTONDOWN => {
                self.mouse.right = true;
                Reaction::Answer(0)
            },
            WM_RBUTTONUP => {
                self.mouse.right = false;
                Reaction::Answer(0)
            },
            WM_MOUSEWHEEL => {
                let wp: u32 = w as u32;
                self.mouse.wheel.push(hiword_i16(wp));
                Reaction::Answer(0)
            },
            _ => Reaction::Default,
        }
    }

    /// Hands out the mouse input gathered since the last poll.
    pub fn poll_mouse(&mut self) -> (s: MouseState)
        requires
            old(self).wf(),
        ensures
            final(self).wf(),
            final(self).width == old(self).width,
            final(self).height == old(self).height,
            final(self).quit_requested == old(self).quit_requested,
            final(self).keys == old(self).keys,
            final(self).mouse@ == old(self).mouse@.polled(),
            s.dx == old(self).mouse@.dx,
            s.dy == old(self).mouse@.dy,
            s.wheel@ == old(self).mouse@.wheel,
            s.left == old(self).mouse@.left,
            s.right == old(self).mouse@.right,
    {
        self.mouse.poll()
    }

    /// Decides what follows one look at the message queue: `peeked` is the kind
    /// of the message that was taken out, or nothing once the queue is empty.
    pub fn pump(&mut self, peeked: Option<UINT>) -> (step: PumpStep)
        requires
            old(self).wf(),
        ensures
            final(self).wf(),
            final(self).width == old(self).width,
            final(self).height == old(self).height,
            final(self).keys == old(self).keys,
            final(self).mouse == old(self).mouse,
            final(self).quit_requested == (old(self).quit_requested || peeked == Some(WM_QUIT)),
            step == (match peeked {
                Some(_) => PumpStep::Dispatch,
                None => PumpStep::Finished(!old(self).quit_requested),
            }),
    {
        match peeked {
            Some(message) => {
                if message == WM_QUIT {
                    self.quit_requested = true;
                }
                PumpStep::Dispatch
            },
            None => PumpStep::Finished(!self.quit_requested),
        }
    }

    /// Takes one waiting press of key `vk`, if there is one: the answer is yes exactly once
    /// for each time the key went down.
    pub fn consume_key(&mut self, vk: WPARAM) -> (taken: bool)
        requires
            old(self).wf(),
        ensures
            final(self).wf(),
            final(self).width == old(self).width,
            final(self).height == old(self).height,
            final(self).quit_requested == old(self).quit_requested,
            final(self).mouse == old(self).mouse,
            taken == key_waits(old(self).keys@, vk),
            final(self).keys@ == keys_taken(old(self).keys@, vk),
    {
        self.keys.consume(vk)
    }
}

/// A press is counted for its own key and for no other; a code that is no key's is passed
/// over.
pub proof fn law_presses_are_counted(waiting: Seq<u64>, vk: WPARAM, other: int)
    requires
        waiting.len() == 256,
        0 <= other < 256,
        other != vk,
    ensures
        ({
            let down = keys_pressed(waiting, vk);
            let taken = keys_taken(waiting, vk);
            &&& down.len() == 256 && taken.len() == 256
            &&& down[other] == waiting[other] && taken[other] == waiting[other]
            &&& vk < 256 && waiting[vk as int] < u64::MAX ==> down[vk as int] == waiting[vk as int]
                + 1
            &&& vk < 256 && waiting[vk as int] > 0 ==> taken[vk as int] == waiting[vk as int] - 1
            &&& vk < 256 && waiting[vk as int] == 0 ==> taken == waiting
            &&& vk >= 256 ==> down == waiting && taken == waiting && !key_waits(waiting, vk)
        }),
{
}

/// A key that went down waits, whatever went before, and taking the press undoes it.
pub proof fn law_taking_undoes_pressing(waiting: Seq<u64>, vk: WPARAM)
    requires
        waiting.len() == 256,
        vk < 256,
        waiting[vk as int] < u64::MAX,
    ensures
        key_waits(keys_pressed(waiting, vk), vk),
        keys_taken(keys_pressed(waiting, vk), vk) == waiting,
{
    assert(keys_taken(keys_pressed(waiting, vk), vk) =~= waiting);
}

/// The low 16 bits of a number.
pub open spec fn low16(v: int) -> int {
    v % 0x1_0000
}

/// A message word that two 16-bit numbers were packed into, the first one low, gives both
/// of them back.
pub proof fn law_packed_numbers_are_read_back(first: i16, second: i16, l: LPARAM, w: WPARAM)
    ensures
        (l as u32) as int == low16(first as int) + 65536 * low16(second as int) ==> message_x(l)
            == first && message_y(l) == second,
        (w as u32) as int == low16(first as int) + 65536 * low16(second as int) ==> message_wheel(w)
            == second,
{
}

/// A half of a message word differs from the number it stands for by a multiple of two to
/// the sixteenth, and is a 16-bit number.
pub proof fn law_halves_are_signed(v: int)
    ensures
        -32768 <= signed16(v) < 32768,
        (v - signed16(v)) % 65536 == 0,
{
}

/// What the messages do to the mouse: one moves it, two each press and release a button,
/// one turns the wheel, and no other touches it. The first move only says where it is.
pub proof fn law_mouse_messages(m: MouseModel, msg: UINT, w: WPARAM, l: LPARAM)
    ensures
        ({
            let n = m.after(msg, w, l);
            &&& msg == 0x200 ==> n.x == message_x(l) && n.y == message_y(l) && n.initialized
            &&& msg == 0x200 && m.initialized ==> n.dx - m.dx == n.x - m.x && n.dy - m.dy == n.y
                - m.y
            &&& msg == 0x200 && !m.initialized ==> n.dx == m.dx && n.dy == m.dy
            &&& msg != 0x200 ==> n.x == m.x && n.y == m.y && n.dx == m.dx && n.dy == m.dy
                && n.initialized == m.initialized
            &&& n.left == (msg == 0x201 || msg != 0x202 && m.left)
            &&& n.right == (msg == 0x204 || msg != 0x205 && m.right)
            &&& msg == 0x20A ==> n.wheel == m.wheel.push(message_wheel(w) as i16)
            &&& msg != 0x20A ==> n.wheel == m.wheel
        }),
{
}

/// After a poll the travel and the wheel start over; position and buttons stay.
pub proof fn law_poll_starts_over(m: MouseModel)
    ensures
        m.polled().dx == 0 && m.polled().dy == 0 && m.polled().wheel.len() == 0,
        m.polled().x == m.x && m.polled().y == m.y,
        m.polled().left == m.left && m.polled().right == m.right,
        m.polled().initialized == m.initialized,
{
}

/// The window answers the messages that it takes in itself: closing, keys and the mouse.
/// When it is destroyed, the program is to end. All others go to the system. Closing the
/// window and the escape key, and nothing else, ask the program to end; only a key that
/// goes down is counted.
pub proof fn law_window_answers(msg: UINT, w: WPARAM, waiting: Seq<u64>)
    ensures
        reaction_to(msg) == Reaction::PostQuit(0) <==> msg == 0x02,
        reaction_to(msg) == Reaction::Answer(0) <==> msg == 0x10 || msg == 0x100 || 0x200 <= msg
            <= 0x202 || 0x204 <= msg <= 0x205 || msg == 0x20A,
        reaction_to(msg) == Reaction::Default <==> !(msg == 0x02 || msg == 0x10 || msg == 0x100
            || 0x200 <= msg <= 0x202 || 0x204 <= msg <= 0x205 || msg == 0x20A),
        asks_to_quit(msg, w) <==> msg == 0x10 || msg == 0x100 && w == 0x1B,
        msg == 0x100 ==> keys_after(waiting, msg, w) == keys_pressed(waiting, w),
        msg != 0x100 ==> keys_after(waiting, msg, w) == waiting,
{
}

/// At first no key waits.
pub proof fn law_no_key_waits_at_first(vk: WPARAM)
    ensures
        no_keys().len() == 256,
        !key_waits(no_keys(), vk),
        vk < 256 ==> no_keys()[vk as int] == 0,
{
}

/// The numbers of the system: a window with a title bar, a menu, an edge to drag and two
/// boxes to size it, which is visible; keys in the order left, up, right, down after page
/// up and page down; and a place for the window that the system chooses.
pub proof fn law_system_numbers()
    ensures
        WS_OVERLAPPEDWINDOW == 0xC0_0000 + 0x8_0000 + 0x4_0000 + 0x2_0000 + 0x1_0000,
        WS_VISIBLE == 0x1000_0000,
        VK_PRIOR == 0x21 && VK_NEXT == VK_PRIOR + 1,
        VK_LEFT == 0x25 && VK_UP == VK_LEFT + 1 && VK_RIGHT == VK_UP + 1 && VK_DOWN == VK_RIGHT + 1,
        VK_ESCAPE == 0x1B,
        PM_REMOVE == 1,
        SW_SHOW == 5,
        CW_USEDEFAULT == i32::MIN,
        KEY_COUNT == 256,
        WM_QUIT == 0x12 && WM_SIZE == 0x05,
{
}

} // verus!
