//! The panel that shows the clock times of the next two departures.

use vstd::prelude::*;
use crate::time::{clock_text, Departure};

verus! {

/// Left edge of both lines of text, in pixels.
pub const TEXT_LEFT: i32 = 35;

/// Top edge of the line of the next departure.
pub const FIRST_LINE_TOP: i32 = 5;

/// Top edge of the line of the departure after it.
pub const SECOND_LINE_TOP: i32 = 25;

/// One command for the driver of the panel.
#[derive(Clone, Debug, PartialEq, Eq)]
pub enum PanelCommand {
    /// Blank the pixel buffer.
    Clear,
    /// Draw `text` into the buffer with its top left corner at `(x, y)`.
    DrawText { text: String, x: i32, y: i32 },
    /// Send the buffer to the panel.
    Flush,
}

/// A panel command with its text as a sequence of characters.
pub enum PanelOp {
    /// Blank the pixel buffer.
    Clear,
    /// Draw `text` with its top left corner at `(x, y)`.
    DrawText { text: Seq<char>, x: int, y: int },
    /// Send the buffer to the panel.
    Flush,
}

impl DeepView for PanelCommand {
    type V = PanelOp;

    open spec fn deep_view(&self) -> PanelOp {
        match self {
            PanelCommand::Clear => PanelOp::Clear,
            PanelCommand::DrawText { text, x, y } => PanelOp::DrawText {
                text: text@,
                x: *x as int,
                y: *y as int,
            },
            PanelCommand::Flush => PanelOp::Flush,
        }
    }
}

/// The two departures that the panel shows.
#[derive(Clone, Copy, Debug, PartialEq, Eq, Structural)]
pub struct PanelState {
    /// The next departure.
    pub train1: Option<Departure>,
    /// The departure after it.
    pub train2: Option<Departure>,
}

/// The first two departures of a list, as far as it has them.
pub open spec fn upcoming(train_times: Seq<Departure>) -> PanelState {
    PanelState {
        train1: if train_times.len() > 0 {
            Some(train_times[0])
        } else {
            None
        },
        train2: if train_times.len() > 1 {
            Some(train_times[1])
        } else {
            None
        },
    }
}

/// The line of one departure: its local time of day as `HH:MM`, at
/// `(TEXT_LEFT, top)`. Nothing where there is no departure.
pub open spec fn time_line(train: Option<Departure>, top: int) -> Seq<PanelOp> {
    match train {
        Some(departure) => seq![
            PanelOp::DrawText {
                text: clock_text(departure.local_hour(), departure.local_minute()),
                x: TEXT_LEFT as int,
                y: top,
            },
        ],
        None => Seq::empty(),
    }
}

/// Painting the panel anew: blank the buffer, draw the lines, send it once.
pub open spec fn paint(state: PanelState) -> Seq<PanelOp> {
    seq![PanelOp::Clear] + time_line(state.train1, FIRST_LINE_TOP as int) + time_line(
        state.train2,
        SECOND_LINE_TOP as int,
    ) + seq![PanelOp::Flush]
}

/// The commands of one tick: none while the first two departures are the
/// ones shown, else a new painting of them.
pub open spec fn panel_commands(shown: PanelState, train_times: Seq<Departure>) -> Seq<PanelOp> {
    if upcoming(train_times) == shown {
        Seq::empty()
    } else {
        paint(upcoming(train_times))
    }
}

/// Blanking the panel.
pub open spec fn blank_commands() -> Seq<PanelOp> {
    seq![PanelOp::Clear, PanelOp::Flush]
}

/// The panel: the two departures that it was last painted with.
pub struct ScreenDisplay {
    train1: Option<Departure>,
    train2: Option<Departure>,
}

impl View for ScreenDisplay {
    type V = PanelState;

    closed spec fn view(&self) -> PanelState {
        PanelState { train1: self.train1, train2: self.train2 }
    }
}

/// Whether two slots hold the same departure, or both none.
fn same_departure(a: Option<Departure>, b: Option<Departure>) -> (same: bool)
    ensures
        same == (a == b),
{
    match (a, b) {
        (Some(x), Some(y)) => x == y,
        (None, None) => true,
        _ => false,
    }
}

impl ScreenDisplay {
    /// A panel that shows no departure.
    pub fn new() -> (screen: ScreenDisplay)
        ensures
            screen@ == (PanelState { train1: None, train2: None }),
    {
        ScreenDisplay { train1: None, train2: None }
    }

    /// The departure on the first line.
    pub fn train1(&self) -> (train: Option<Departure>)
        ensures
            train == self@.train1,
    {
        self.train1
    }

    /// The departure on the second line.
    pub fn train2(&self) -> (train: Option<Departure>)
        ensures
            train == self@.train2,
    {
        self.train2
    }

    /// Brings the panel up to the first two departures of `train_times`.
    ///
    /// Returns the commands for the panel driver, in the order in which they
    /// are to be performed: none where the panel already shows these two.
    pub fn display_trains(&mut self, train_times: &Vec<Departure>) -> (commands: Vec<PanelCommand>)
        ensures
            final(self)@ == upcoming(train_times@),
            commands.deep_view() == panel_commands(old(self)@, train_times@),
    {
        let first: Option<Departure> = if train_times.len() > 0 {
            Some(train_times[0])
        } else {
            None
        };
        let second: Option<Departure> = if train_times.len() > 1 {
            Some(train_times[1])
        } else {
            None
        };
        let mut update_screen: bool = false;
        if !same_departure(first, self.train1) {
            self.train1 = first;
            update_screen = true;
        }
        if !same_departure(second, self.train2) {
            self.train2 = second;
            update_screen = true;
        }
        let mut commands: Vec<PanelCommand> = Vec::new();
        if update_screen {
            commands.push(PanelCommand::Clear);
            if let Some(train1) = self.train1 {
                commands.push(
                    PanelCommand::DrawText {
                        text: train1.clock_face(),
                        x: TEXT_LEFT,
                        y: FIRST_LINE_TOP,
                    },
                );
            }
            if let Some(train2) = self.train2 {
                commands.push(
                    PanelCommand::DrawText {
                        text: train2.clock_face(),
                        x: TEXT_LEFT,
                        y: SECOND_LINE_TOP,
                    },
                );
            }
            commands.push(PanelCommand::Flush);
        }
        assert(commands.deep_view() =~= panel_commands(old(self)@, train_times@));
        commands
    }

    /// Blanks the panel; with `reset_trains` the departures shown are
    /// forgotten too, so that the next ones are painted whatever they are.
    pub fn clear_display(&mut self, reset_trains: bool) -> (commands: Vec<PanelCommand>)
        ensures
            commands.deep_view() == blank_commands(),
            final(self)@ == if reset_trains {
                PanelState { train1: None, train2: None }
            } else {
                old(self)@
            },
    {
        if reset_trains {
            self.train1 = None;
            self.train2 = None;
        }
        let mut commands: Vec<PanelCommand> = Vec::new();
        commands.push(PanelCommand::Clear);
        commands.push(PanelCommand::Flush);
        assert(commands.deep_view() =~= blank_commands());
        commands
    }
}

/// A second tick on the same departures sends nothing.
pub proof fn lemma_repeated_panel_tick_is_silent(train_times: Seq<Departure>)
    ensures
        panel_commands(upcoming(train_times), train_times).len() == 0,
{
}

/// Without departures the panel keeps none; it is blanked where it showed
/// one, and left alone where it showed none.
pub proof fn lemma_no_departures_blank_panel(shown: PanelState)
    ensures
        upcoming(Seq::empty()) == (PanelState { train1: None, train2: None }),
        panel_commands(shown, Seq::empty()) == if shown.train1.is_some() || shown.train2.is_some() {
            blank_commands()
        } else {
            Seq::empty()
        },
{
    if shown.train1.is_some() || shown.train2.is_some() {
        assert(paint(upcoming(Seq::empty())) =~= blank_commands());
    }
}

} // verus!
