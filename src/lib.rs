//! Territory-capture simulation for LED matrix modules: the simulation
//! engine, the wire protocol and module selection of the display driver,
//! its fault-recovery policy, and the frame scheduler.
use vstd::prelude::*;

pub mod chance;
pub mod discovery;
pub mod game;
pub mod matrix;
pub mod physics;
pub mod protocol;
pub mod scheduler;
pub mod scoring;

verus! {

/// Converts a brightness percentage (0 to 100) into the 0 to 255 scale of the
/// display modules, rounding down.
pub fn percent_to_led_value(percent: u8) -> (r: u8)
    requires
        percent <= 100,
    ensures
        r as int == percent as int * 255 / 100,
{
    ((percent as u16 * 255) / 100) as u8
}

/// Requests that the desktop status icon can make of the running program.
#[derive(Clone, Copy, PartialEq, Eq, Debug, Structural)]
pub enum TrayCommand {
    Exit,
}

/// The request pending from the status icon, given whether its exit item
/// has been chosen.
pub fn tray_command(exit_requested: bool) -> (r: Option<TrayCommand>)
    ensures
        r == (if exit_requested { Some(TrayCommand::Exit) } else { None }),
{
    if exit_requested {
        Some(TrayCommand::Exit)
    } else {
        None
    }
}

} // verus!
