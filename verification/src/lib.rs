//! Countdown display engine for the next departures of a transit line.
//!
//! The engine decides which departure to count down to, turns the remaining
//! time into the smallest set of LED switches on a four-digit clock, keeps
//! a small panel with the next two departure times up to date, and says how a
//! refreshed list of departures replaces the one on display. Every function
//! returns the commands for the hardware as plain values; a caller performs
//! them on the bus.
//!
//! - [`segments`], [`renderer`], [`lights`]: the LEDs of each digit, the
//!   switches between two digits, and what the clock shows after them.
//! - [`time`], [`selector`]: the time left until a departure, and the choice
//!   of the departure to count down to.
//! - [`ht16k33_clock`], [`ssd1306_screen`]: the clock and the panel.
//! - [`refresh`], [`bus`]: publishing fetched departures, and carrying
//!   commands out where a write can fail.
//! - [`train_time`], [`stations`], [`cli`], [`text`]: reading the answers of
//!   the schedule service, the pages of stops and the command line.
//! - [`led_driver`]: what the LED driver accepts.

pub mod bus;
pub mod cli;
pub mod errors;
pub mod ht16k33_clock;
pub mod led_driver;
pub mod lights;
pub mod refresh;
pub mod renderer;
pub mod segments;
pub mod selector;
pub mod sequences;
pub mod ssd1306_screen;
pub mod stations;
pub mod text;
pub mod time;
pub mod train_time;
