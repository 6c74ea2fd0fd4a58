//! Lines of the log beside the spinner: a line never begins in the middle of a frame.
use crate::display::opt_str;
use crate::text::copy_text;
use vstd::prelude::*;

verus! {

/// Writes one line of the log. Its first write takes a frame of the spinner off the screen.
pub struct LogLineWriter {
    pub started: bool,
}

/// What takes a frame off the screen.
pub const WIPE: &'static str = "\r\x1b[2K";

/// What hides the cursor while the spinner turns.
pub const HIDE_CURSOR: &'static str = "\x1b[?25l";

/// What takes the last frame off the screen and shows the cursor again.
pub const WIPE_AND_SHOW_CURSOR: &'static str = "\r\x1b[2K\x1b[?25h";

impl LogLineWriter {
    /// A writer for a new line.
    pub fn new() -> (r: Self)
        ensures
            !r.started,
    {
        LogLineWriter { started: false }
    }

    /// Prepares a write: says whether the frame on the screen has to go first. After the first write
    /// of a line no frame is on the screen; a later write leaves it as it is.
    pub fn before_write(&mut self, frame_visible: &mut bool) -> (r: bool)
        ensures
            final(self).started,
            r == (!old(self).started && *old(frame_visible)),
            *final(frame_visible) == (old(self).started && *old(frame_visible)),
    {
        if self.started {
            return false;
        }
        self.started = true;
        let wipe = *frame_visible;
        *frame_visible = false;
        wipe
    }
}

impl Default for LogLineWriter {
    fn default() -> (r: Self)
        ensures
            !r.started,
    {
        LogLineWriter::new()
    }
}

/// A frame of the spinner: the label, and the time behind it once there is one to show.
pub open spec fn frame_of(prefix: Seq<char>, label: Seq<char>, time: Option<Seq<char>>) -> Seq<char> {
    "\r\x1b[K"@ + prefix + label + (match time {
        Some(t) => " "@ + t,
        None => Seq::empty(),
    })
}

/// A frame of the spinner.
pub fn frame_text(prefix: &str, label: &str, time: Option<&str>) -> (r: String)
    ensures
        r@ == frame_of(prefix@, label@, opt_str(time)),
{
    let mut out = copy_text("\r\x1b[K");
    out.append(prefix);
    out.append(label);
    match time {
        Some(t) => {
            let ghost before = out@;
            out.append(" ");
            out.append(t);
            assert(out@ =~= before + (" "@ + t@));
        },
        None => {},
    }
    assert(out@ =~= frame_of(prefix@, label@, opt_str(time)));
    out
}

/// Whether the spinner turns on: until it is stopped, and never over a question to the user.
pub fn spins(active: bool, asking: bool) -> (r: bool)
    ensures
        r == (active && !asking),
{
    active && !asking
}

/// What a frame holds: it starts the line anew and clears it, and shows the label behind its mark, and
/// the time behind a space where there is one.
pub proof fn law_what_a_frame_holds(prefix: Seq<char>, label: Seq<char>, time: Seq<char>)
    ensures
        frame_of(prefix, label, None) == "\r\x1b[K"@ + prefix + label,
        frame_of(prefix, label, Some(time)) == frame_of(prefix, label, None) + " "@ + time,
        WIPE@ == "\r\x1b[2K"@,
        HIDE_CURSOR@ == "\x1b[?25l"@,
        WIPE_AND_SHOW_CURSOR@ == "\r\x1b[2K\x1b[?25h"@,
{
    let none = Seq::<char>::empty();
    let front = "\r\x1b[K"@ + prefix + label;
    assert(front + none =~= front);
    assert(front + (" "@ + time) =~= front + " "@ + time);
}

} // verus!
