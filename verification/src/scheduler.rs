//! The scheduler's decisions: when a redraw is owed, how resize requests are
//! debounced, and how written-back input is framed.  The embedding loop
//! performs the waiting and the I/O; every decision is a pure function of
//! this state and the event.

use vstd::prelude::*;

verus! {

/// An event the scheduler decides on.
#[derive(Debug, Clone, Copy, PartialEq, Eq, Structural)]
pub enum SchedEvent {
    /// A chunk of child output was parsed and applied.
    OutputProcessed,
    /// The frame timer fired.
    FrameTick,
    /// The cursor-blink timer fired.
    BlinkTick,
    /// The embedder asked for a resize.
    ResizeRequest { rows: u16, cols: u16 },
    /// The resize-debounce timer fired.
    ResizeDebounce,
}

/// What the embedding loop must do next.
#[derive(Debug, Clone, Copy, PartialEq, Eq, Structural)]
pub enum SchedDecision {
    /// Pull the damage and redraw once.
    Redraw,
    /// Toggle the cursor-blink phase and redraw it.
    ToggleBlink,
    /// Apply this size to the grid now.
    ApplyResize { rows: u16, cols: u16 },
}

/// The scheduler: rate-limits redraws and debounces resizes.
#[derive(Debug, Clone, Copy, PartialEq, Eq, Structural)]
pub struct Scheduler {
    pub render_requested: bool,
    pub blink_on: bool,
    pub pending_resize_rows: u16,
    pub pending_resize_cols: u16,
    pub has_pending_resize: bool,
}

impl Scheduler {
    /// A scheduler with nothing owed.
    pub fn new() -> (r: Scheduler)
        ensures
            !r.render_requested,
            r.blink_on,
            !r.has_pending_resize,
    {
        Scheduler {
            render_requested: false,
            blink_on: true,
            pending_resize_rows: 0,
            pending_resize_cols: 0,
            has_pending_resize: false,
        }
    }

    /// Decides on one event.  Output marks a render owed; the frame tick
    /// pays it with exactly one redraw, so a burst coalesces and the last
    /// burst before quiet still produces one trailing render.  The latest
    /// resize request always wins; the debounce tick applies it once.
    pub fn on_event(&mut self, e: SchedEvent) -> (d: Option<SchedDecision>)
        ensures
            e == SchedEvent::OutputProcessed ==> *final(self) == (Scheduler {
                render_requested: true,
                ..*old(self)
            }) && d is None,
            e == SchedEvent::FrameTick && old(self).render_requested ==> *final(self) == (
            Scheduler { render_requested: false, ..*old(self) }) && d == Some(
                SchedDecision::Redraw,
            ),
            e == SchedEvent::FrameTick && !old(self).render_requested ==> *final(self) == *old(self)
                && d is None,
            e == SchedEvent::BlinkTick ==> *final(self) == (Scheduler {
                blink_on: !old(self).blink_on,
                ..*old(self)
            }) && d == Some(SchedDecision::ToggleBlink),
            forall|r: u16, c: u16|
                e == (SchedEvent::ResizeRequest { rows: r, cols: c }) ==> *final(self) == (
                Scheduler {
                    pending_resize_rows: r,
                    pending_resize_cols: c,
                    has_pending_resize: true,
                    ..*old(self)
                }) && d is None,
            e == SchedEvent::ResizeDebounce && old(self).has_pending_resize ==> *final(self) == (
            Scheduler { has_pending_resize: false, ..*old(self) }) && d == Some(
                SchedDecision::ApplyResize {
                    rows: old(self).pending_resize_rows,
                    cols: old(self).pending_resize_cols,
                },
            ),
            e == SchedEvent::ResizeDebounce && !old(self).has_pending_resize ==> *final(self)
                == *old(self) && d is None,
    {
        match e {
            SchedEvent::OutputProcessed => {
                self.render_requested = true;
                None
            },
            SchedEvent::FrameTick => {
                if self.render_requested {
                    self.render_requested = false;
                    Some(SchedDecision::Redraw)
                } else {
                    None
                }
            },
            SchedEvent::BlinkTick => {
                self.blink_on = !self.blink_on;
                Some(SchedDecision::ToggleBlink)
            },
            SchedEvent::ResizeRequest { rows, cols } => {
                self.pending_resize_rows = rows;
                self.pending_resize_cols = cols;
                self.has_pending_resize = true;
                None
            },
            SchedEvent::ResizeDebounce => {
                if self.has_pending_resize {
                    self.has_pending_resize = false;
                    Some(SchedDecision::ApplyResize {
                        rows: self.pending_resize_rows,
                        cols: self.pending_resize_cols,
                    })
                } else {
                    None
                }
            },
        }
    }
}

/// Wraps pasted bytes in the bracketed-paste markers when that mode is on,
/// and hands them through unchanged otherwise.
pub fn encode_paste(data: &[u8], bracketed: bool) -> (r: Vec<u8>)
    ensures
        bracketed ==> r@ == seq![0x1bu8, 0x5bu8, 0x32u8, 0x30u8, 0x30u8, 0x7eu8] + data@ + seq![
            0x1bu8,
            0x5bu8,
            0x32u8,
            0x30u8,
            0x31u8,
            0x7eu8,
        ],
        !bracketed ==> r@ == data@,
{
    let mut r: Vec<u8> = Vec::new();
    if bracketed {
        r.push(0x1b);
        r.push(0x5b);
        r.push(0x32);
        r.push(0x30);
        r.push(0x30);
        r.push(0x7e);
    }
    let mut i: usize = 0;
    let ghost pre = r@;
    while i < data.len()
        invariant
            i <= data@.len(),
            r@ == pre + data@.take(i as int),
        decreases data@.len() - i,
    {
        r.push(data[i]);
        proof {
            assert(r@ =~= pre + data@.take(i + 1));
        }
        i += 1;
    }
    proof {
        assert(data@.take(data@.len() as int) =~= data@);
    }
    if bracketed {
        r.push(0x1b);
        r.push(0x5b);
        r.push(0x32);
        r.push(0x30);
        r.push(0x31);
        r.push(0x7e);
        proof {
            assert(r@ =~= seq![0x1bu8, 0x5bu8, 0x32u8, 0x30u8, 0x30u8, 0x7eu8] + data@ + seq![
                0x1bu8,
                0x5bu8,
                0x32u8,
                0x30u8,
                0x31u8,
                0x7eu8,
            ]);
        }
    } else {
        proof {
            assert(r@ =~= data@);
        }
    }
    r
}

/// An arrow key direction.
#[derive(Debug, Clone, Copy, PartialEq, Eq, Structural)]
pub enum ArrowKey {
    Up,
    Down,
    Right,
    Left,
}

/// Encodes an arrow key for the child process: `ESC O` prefixed in
/// application-cursor mode, `ESC [` otherwise, then the direction's letter.
pub fn encode_arrow(k: ArrowKey, app_cursor: bool) -> (r: Vec<u8>)
    ensures
        r@.len() == 3,
        r@[0] == 0x1bu8,
        r@[1] == if app_cursor { 0x4fu8 } else { 0x5bu8 },
        r@[2] == (match k {
            ArrowKey::Up => 0x41u8,
            ArrowKey::Down => 0x42u8,
            ArrowKey::Right => 0x43u8,
            ArrowKey::Left => 0x44u8,
        }),
{
    let mut r: Vec<u8> = Vec::new();
    r.push(0x1b);
    r.push(if app_cursor {
        0x4f
    } else {
        0x5b
    });
    r.push(match k {
        ArrowKey::Up => 0x41,
        ArrowKey::Down => 0x42,
        ArrowKey::Right => 0x43,
        ArrowKey::Left => 0x44,
    });
    r
}

} // verus!
