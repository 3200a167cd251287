use super::normal::NormalMode;
use super::{key_of, pressed, Mode, ModeView};
use crate::canvas::handler::CanvasHandler;
use crate::editor::{AppOp, AppOpView};
use crate::keybind::{Event, KeyCode};
use crate::util::chars::collect_string;
use vstd::prelude::*;

verus! {

/// What Command mode does with the event `e` when the command line reads
/// `cmd`:
///
/// - Enter runs the command and returns to Normal mode: `:q` quits, any
///   other command does nothing;
/// - a character is added to the line;
/// - Backspace removes the last character, and returns to Normal mode when
///   the line is empty after that;
/// - anything else changes nothing.
pub open spec fn command_next(cmd: Seq<char>, e: Event) -> (ModeView, AppOpView) {
    match pressed(e) {
        Some(KeyCode::Enter) => (
            ModeView::Normal,
            if cmd == seq![':', 'q'] {
                AppOpView::QuitApp
            } else {
                AppOpView::Nop
            },
        ),
        Some(KeyCode::Char(c)) => (ModeView::Command(cmd.push(c)), AppOpView::Nop),
        Some(KeyCode::Backspace) => if cmd.len() <= 1 {
            (ModeView::Normal, AppOpView::Nop)
        } else {
            (ModeView::Command(cmd.drop_last()), AppOpView::Nop)
        },
        _ => (ModeView::Command(cmd), AppOpView::Nop),
    }
}

/// The mode in which a command line is typed.
pub struct CmdMode {
    cmd: Vec<char>,
}

impl View for CmdMode {
    type V = Seq<char>;

    closed spec fn view(&self) -> Seq<char> {
        self.cmd@
    }
}

impl CmdMode {
    /// A command line that holds the colon.
    pub fn new() -> (r: CmdMode)
        ensures
            r@ == seq![':'],
    {
        let mut cmd: Vec<char> = Vec::new();
        cmd.push(':');
        assert(cmd@ =~= seq![':']);
        CmdMode { cmd }
    }

    /// The command line.
    pub fn cmd(&self) -> (r: String)
        ensures
            r@ == self@,
    {
        collect_string(&self.cmd)
    }

    /// The successor of Command mode and the operation that it asks for.
    pub fn next(self, e: Event, canvas_handler: &CanvasHandler) -> (r: (Mode, AppOp))
        ensures
            r.0.wf(),
            r.1.wf(),
            (r.0@, r.1@) == command_next(self@, e),
    {
        let mut this = self;
        match key_of(&e) {
            Some(KeyCode::Enter) => {
                let quit = this.cmd.len() == 2 && this.cmd[0] == ':' && this.cmd[1] == 'q';
                proof {
                    if quit {
                        assert(this.cmd@ =~= seq![':', 'q']);
                    } else if this.cmd@ == seq![':', 'q'] {
                        assert(seq![':', 'q'].len() == 2);
                        assert(seq![':', 'q'][0] == ':' && seq![':', 'q'][1] == 'q');
                    }
                }
                let app_op = if quit {
                    AppOp::QuitApp
                } else {
                    AppOp::Nop
                };
                (Mode::Normal(NormalMode::new()), app_op)
            },
            Some(KeyCode::Char(c)) => {
                this.cmd.push(c);
                (Mode::Command(this), AppOp::Nop)
            },
            Some(KeyCode::Backspace) => {
                this.cmd.pop();
                if this.cmd.len() == 0 {
                    (Mode::Normal(NormalMode::new()), AppOp::Nop)
                } else {
                    (Mode::Command(this), AppOp::Nop)
                }
            },
            _ => (Mode::Command(this), AppOp::Nop),
        }
    }

    /// The command line as typed so far.
    pub fn status_msg(&self) -> (r: String)
        ensures
            r@ == self@,
    {
        collect_string(&self.cmd)
    }
}

impl Default for CmdMode {
    fn default() -> (r: CmdMode)
        ensures
            r@ == seq![':'],
    {
        CmdMode::new()
    }
}

} // verus!
