//! The display driver's own state: which modules it drives, the brightness
//! it last set, and its policy on write failures. The serial I/O that these
//! decisions drive happens outside the library.
use vstd::prelude::*;
use crate::discovery::MatrixError;
use crate::game::GameState;
use crate::protocol::{brightness_command, brightness_command_spec, bw_frame, bw_frame_spec, BAUD_RATE, BW_FRAME_LEN, MODULE_WIDTH};

verus! {

/// Consecutive failed renders after which the driver reconnects.
pub const MAX_CONSECUTIVE_ERRORS: u32 = 3;

/// Pause before rediscovering the modules, in milliseconds.
pub const RECOVERY_DELAY_MS: u64 = 2000;

/// Pause after a failed render below the reconnect threshold, in milliseconds.
pub const RETRY_DELAY_MS: u64 = 50;

/// Pause after opening a module, before its first use, in milliseconds.
pub const SETTLE_DELAY_MS: u64 = 100;

/// Timeout of each serial read or write, in milliseconds.
pub const IO_TIMEOUT_MS: u64 = 5000;

/// What the driver does after a failed render.
#[derive(Clone, Copy, PartialEq, Eq, Debug, Structural)]
pub enum RecoveryAction {
    /// Pause for `delay_ms`, report the error, and let the next tick retry.
    RetryNextTick { delay_ms: u64 },
    /// Pause for `delay_ms`, rediscover and reopen the modules, and render again.
    Reconnect { delay_ms: u64 },
}

/// The state of a driver bound to one or two modules.
pub struct MatrixState {
    /// Number of modules bound; module `m` shows grid columns `9 m` to `9 m + 8`.
    pub modules: usize,
    /// Rows drawn on each module.
    pub height: usize,
    /// Whether two modules were asked for; kept across reconnects.
    pub dual_mode: bool,
    /// Brightness last set on the modules.
    pub brightness: u8,
    /// Renders that failed since the last one that succeeded.
    pub consecutive_errors: u32,
}

/// The failure count after one more failure (held at `u32::MAX`).
pub open spec fn next_errors(e: u32) -> u32 {
    if e == u32::MAX {
        e
    } else {
        (e + 1) as u32
    }
}

/// What follows a failed render that leaves `e` consecutive failures.
pub open spec fn failure_action(e: u32) -> RecoveryAction {
    if e >= MAX_CONSECUTIVE_ERRORS {
        RecoveryAction::Reconnect { delay_ms: RECOVERY_DELAY_MS }
    } else {
        RecoveryAction::RetryNextTick { delay_ms: RETRY_DELAY_MS }
    }
}

/// Failure count after `n` failed renders in a row, starting from `e`.
pub open spec fn errors_after(e: u32, n: nat) -> u32
    decreases n,
{
    if n == 0 {
        e
    } else {
        next_errors(errors_after(e, (n - 1) as nat))
    }
}

/// From a fresh or just-recovered driver, each of the first
/// `MAX_CONSECUTIVE_ERRORS - 1` failed renders in a row leaves the modules
/// bound and retries on the next tick, and the failure that reaches
/// `MAX_CONSECUTIVE_ERRORS` asks for a reconnect; so does every failure after
/// it until a render succeeds.
pub proof fn lemma_reconnect_threshold(n: nat)
    requires
        1 <= n <= u32::MAX,
    ensures
        errors_after(0, n) == n,
        n < MAX_CONSECUTIVE_ERRORS ==> failure_action(errors_after(0, n)) == (RecoveryAction::RetryNextTick {
            delay_ms: RETRY_DELAY_MS,
        }),
        n >= MAX_CONSECUTIVE_ERRORS ==> failure_action(errors_after(0, n)) == (RecoveryAction::Reconnect {
            delay_ms: RECOVERY_DELAY_MS,
        }),
    decreases n,
{
    if n == 1 {
        assert(errors_after(0, 0) == 0);
    } else {
        lemma_reconnect_threshold((n - 1) as nat);
    }
}

/// Frames per second the serial line can carry for `modules` modules: one
/// monochrome frame per module per tick, ten bits on the wire per byte, and
/// a tenth of margin; at least one.
pub open spec fn max_fps(modules: int) -> int {
    let fps = BAUD_RATE as int / (modules * BW_FRAME_LEN * 11);
    if fps < 1 {
        1
    } else {
        fps
    }
}

impl MatrixState {
    /// One or two modules are bound.
    pub open spec fn wf(&self) -> bool {
        1 <= self.modules <= 2
    }

    /// The state of a driver that opened `opened` of the modules it chose; an
    /// error where it opened none.
    pub fn bind(opened: usize, dual_mode: bool, height: usize, brightness: u8) -> (r: Result<MatrixState, MatrixError>)
        requires
            opened <= 2,
        ensures
            r is Ok <==> opened >= 1,
            opened == 0 <==> r == Err::<MatrixState, MatrixError>(MatrixError::PortOpenFailed),
            r matches Ok(s) ==> s.wf() && s.modules == opened && s.height == height && s.dual_mode == dual_mode
                && s.brightness == brightness && s.consecutive_errors == 0,
    {
        if opened == 0 {
            return Err(MatrixError::PortOpenFailed);
        }
        Ok(MatrixState { modules: opened, height, dual_mode, brightness, consecutive_errors: 0 })
    }

    /// Width of the grid the bound modules show, in cells.
    pub fn width(&self) -> (r: usize)
        requires
            self.wf(),
        ensures
            r == self.modules * MODULE_WIDTH,
    {
        self.modules * MODULE_WIDTH
    }

    /// Records `level` as the brightness and returns the command that sets it,
    /// to be sent to every module.
    pub fn set_brightness(&mut self, level: u8) -> (r: Vec<u8>)
        ensures
            *final(self) == (MatrixState { brightness: level, ..*old(self) }),
            r@ == brightness_command_spec(level),
    {
        self.brightness = level;
        brightness_command(level)
    }

    /// The frame command for each bound module, in module order.
    pub fn frames(&self, game: &GameState) -> (r: Vec<Vec<u8>>)
        requires
            self.wf(),
            game.wf(),
        ensures
            r@.len() == self.modules,
            forall|m: int| 0 <= m < self.modules ==> (#[trigger] r@[m])@ == bw_frame_spec(*game, m, self.height as int),
    {
        let mut r: Vec<Vec<u8>> = Vec::new();
        let mut m: usize = 0;
        while m < self.modules
            invariant
                self.wf(),
                game.wf(),
                0 <= m <= self.modules,
                r@.len() == m,
                forall|i: int| 0 <= i < m ==> (#[trigger] r@[i])@ == bw_frame_spec(*game, i, self.height as int),
            decreases self.modules - m,
        {
            r.push(bw_frame(game, m, self.height));
            m += 1;
        }
        r
    }

    /// Records a successful render.
    pub fn record_success(&mut self)
        ensures
            *final(self) == (MatrixState { consecutive_errors: 0, ..*old(self) }),
    {
        self.consecutive_errors = 0;
    }

    /// Records a failed render and says what to do about it: below
    /// `MAX_CONSECUTIVE_ERRORS` failures in a row, pause briefly and retry on
    /// the next tick; from there on, reconnect.
    pub fn record_failure(&mut self) -> (r: RecoveryAction)
        ensures
            *final(self) == (MatrixState { consecutive_errors: next_errors(old(self).consecutive_errors), ..*old(self) }),
            r == failure_action(final(self).consecutive_errors),
    {
        self.consecutive_errors = self.consecutive_errors.saturating_add(1);
        if self.consecutive_errors >= MAX_CONSECUTIVE_ERRORS {
            RecoveryAction::Reconnect { delay_ms: RECOVERY_DELAY_MS }
        } else {
            RecoveryAction::RetryNextTick { delay_ms: RETRY_DELAY_MS }
        }
    }

    /// Frames per second the serial line can carry for the bound modules.
    pub fn estimated_max_fps(&self) -> (r: u32)
        requires
            self.wf(),
        ensures
            r == max_fps(self.modules as int),
    {
        let per_module: u32 = BW_FRAME_LEN as u32;
        let total = (self.modules as u32) * per_module;
        let fps = BAUD_RATE / (total * 11);
        if fps < 1 {
            1
        } else {
            fps
        }
    }
}

} // verus!
