//! Decision logic of the interactive watch loop.
//!
//! The loop itself lives outside the library: it repaints the terminal,
//! polls the keyboard with a bounded wait and sleeps out each tick.
//! Everything it decides per tick is computed here — which rows to
//! draw, the color band of the countdown, whether to draw the progress
//! bar, and how to react to a key.

use vstd::prelude::*;
use crate::display;
use crate::display::{all_secrets_valid, names_first_invalid, rows_match, CodeError, CodeRow};
use crate::store::AccountStore;
use crate::totp;
use crate::totp::spec_remaining;

verus! {

/// The two states of the watch loop.
#[derive(Clone, Copy, Debug, PartialEq, Eq, Structural)]
pub enum WatchState {
    Running,
    Terminating,
}

/// A keyboard event, reduced to what the loop reacts to.
#[derive(Clone, Copy, Debug, PartialEq, Eq, Structural)]
pub enum KeyPress {
    /// Ctrl+C.
    CtrlC,
    /// An ASCII digit key, carrying its value 0-9.
    Digit(u8),
    /// Anything else.
    Other,
}

/// What the loop must do with a key.
#[derive(Clone, Copy, Debug, PartialEq, Eq, Structural)]
pub enum WatchAction {
    /// Leave the loop and restore the terminal.
    Quit,
    /// Copy the code of the account at `index` in listing order.
    CopyCode { index: usize },
    /// Nothing.
    Ignore,
}

/// Color band of a countdown: urgent under 6 seconds, a warning under
/// 11, normal above.
#[derive(Clone, Copy, Debug, PartialEq, Eq, Structural)]
pub enum Urgency {
    Urgent,
    Warning,
    Normal,
}

pub open spec fn spec_band(remaining: int) -> Urgency {
    if remaining <= 5 {
        Urgency::Urgent
    } else if remaining <= 10 {
        Urgency::Warning
    } else {
        Urgency::Normal
    }
}

/// The color band for a remaining time.
pub fn color_band(remaining: u64) -> (r: Urgency)
    ensures
        r == spec_band(remaining as int),
{
    if remaining <= 5 {
        Urgency::Urgent
    } else if remaining <= 10 {
        Urgency::Warning
    } else {
        Urgency::Normal
    }
}

/// How the loop reacts to a key: Ctrl+C quits; digit `d` with `1 <= d
/// <= count` copies the `d`-th account in listing order; every other
/// key is ignored.
pub open spec fn spec_action(input: KeyPress, count: int) -> WatchAction {
    match input {
        KeyPress::CtrlC => WatchAction::Quit,
        KeyPress::Digit(d) => if 1 <= d && d <= count {
            WatchAction::CopyCode { index: (d - 1) as usize }
        } else {
            WatchAction::Ignore
        },
        KeyPress::Other => WatchAction::Ignore,
    }
}

/// Decide what to do with one key, given how many accounts are listed.
pub fn next_action(input: KeyPress, count: usize) -> (a: WatchAction)
    ensures
        a == spec_action(input, count as int),
        a matches WatchAction::CopyCode { index } ==> index < count,
{
    match input {
        KeyPress::CtrlC => WatchAction::Quit,
        KeyPress::Digit(d) => {
            if 1 <= d && (d as usize) <= count {
                WatchAction::CopyCode { index: (d - 1) as usize }
            } else {
                WatchAction::Ignore
            }
        },
        KeyPress::Other => WatchAction::Ignore,
    }
}

/// The state after an action: only `Quit` leaves `Running`.
pub open spec fn spec_next_state(s: WatchState, a: WatchAction) -> WatchState {
    if a is Quit {
        WatchState::Terminating
    } else {
        s
    }
}

pub fn next_state(s: WatchState, a: WatchAction) -> (r: WatchState)
    ensures
        r == spec_next_state(s, a),
{
    if let WatchAction::Quit = a {
        WatchState::Terminating
    } else {
        s
    }
}

/// Filled cells of a progress bar of `width` cells: the share of the
/// 30-second window already elapsed, rounded down.
pub fn bar_filled(remaining: u64, width: u64) -> (r: u64)
    requires
        1 <= remaining <= 30,
        width <= u64::MAX / 30,
    ensures
        r == (30 - remaining) * width / 30,
        r <= width,
{
    proof {
        assert((30 - remaining) * width <= 30 * width) by (nonlinear_arith)
            requires
                remaining >= 1,
                width >= 0,
        ;
        assert(30 * width <= u64::MAX) by (nonlinear_arith)
            requires
                width <= u64::MAX / 30,
        ;
        vstd::arithmetic::div_mod::lemma_div_is_ordered(
            ((30 - remaining) * width) as int,
            (30 * width) as int,
            30,
        );
        vstd::arithmetic::div_mod::lemma_div_by_multiple(width as int, 30);
    }
    (30 - remaining) * width / 30
}

/// One frame of the watch display.
pub struct TickFrame {
    /// A row per account, in listing order.
    pub rows: Vec<CodeRow>,
    /// Color band shared by every countdown this tick.
    pub band: Urgency,
    /// Filled cells of the progress bar — drawn only when exactly one
    /// account is listed, since the bar tracks a single countdown.
    pub bar: Option<u64>,
}

/// Compute everything one tick of the watch loop draws.
///
/// The rows are the same listing the one-shot display shows; the band
/// follows the shared remaining time; the bar appears exactly when one
/// account is listed.
pub fn watch_tick(store: &AccountStore, now: u64, bar_width: u64) -> (r: Result<
    TickFrame,
    CodeError,
>)
    requires
        bar_width <= u64::MAX / 30,
    ensures
        r is Ok <==> all_secrets_valid(*store),
        r matches Ok(f) ==> rows_match(*store, now, f.rows@) && f.band == spec_band(
            spec_remaining(now),
        ) && (f.bar is Some <==> store.len_spec() == 1) && (f.bar matches Some(b) ==> b == (30
            - spec_remaining(now)) * bar_width / 30 && b <= bar_width),
        r matches Err(e) ==> names_first_invalid(*store, e),
{
    let rows = match display::render_rows(store, now) {
        Ok(rows) => rows,
        Err(e) => {
            return Err(e);
        },
    };
    let remaining = totp::remaining_seconds(now);
    let band = color_band(remaining);
    let bar = if rows.len() == 1 {
        Some(bar_filled(remaining, bar_width))
    } else {
        None
    };
    Ok(TickFrame { rows, band, bar })
}

} // verus!
