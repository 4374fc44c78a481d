//! Sending a file that is picked in the file explorer.

use vstd::prelude::*;
use vstd::string::StringExecFns;
use crate::host_type::{HostType, HostTypePopup};
use crate::screens::DebugScreen;

verus! {

/// `after` is `before` with one line more, which reads `line`.
pub open spec fn noted(before: DebugScreen, after: DebugScreen, line: Seq<char>) -> bool {
    &&& after.lines@.len() == before.lines@.len() + 1
    &&& after.lines@.drop_last() == before.lines@
    &&& after.lines@.last()@ == line
}

fn note(debug_screen: &mut DebugScreen, line: String)
    ensures
        noted(*old(debug_screen), *final(debug_screen), line@),
{
    debug_screen.push_line(line);
    assert(debug_screen.lines@.drop_last() =~= old(debug_screen).lines@);
}

/// Whether the file explorer is to be opened: only the sender sends files.
/// A receiver is told so on the debug screen.
pub fn open_explorer_and_file_select(host: &HostTypePopup, debug_screen: &mut DebugScreen) -> (open:
    bool)
    ensures
        open == (host.selected == HostType::SENDER),
        if open {
            *final(debug_screen) == *old(debug_screen)
        } else {
            noted(
                *old(debug_screen),
                *final(debug_screen),
                "File sending is only available in client mode."@,
            )
        },
{
    if host.selected != HostType::SENDER {
        note(debug_screen, String::from_str("File sending is only available in client mode."));
        return false;
    }
    true
}

/// What the debug screen says of the file that was picked.
pub open spec fn selection_note(picked: Option<String>, connected: bool) -> Seq<Seq<char>> {
    match picked {
        Some(path) => if connected {
            seq!["Selected file: "@ + path@]
        } else {
            seq!["Selected file: "@ + path@, "No active TCP connection available."@]
        },
        None => seq!["No file selected."@],
    }
}

/// The texts of the lines that were added to the debug screen.
pub open spec fn added_lines(before: DebugScreen, after: DebugScreen) -> Seq<Seq<char>> {
    Seq::new(
        (after.lines@.len() - before.lines@.len()) as nat,
        |i: int| after.lines@[before.lines@.len() + i]@,
    )
}

/// Takes what the file explorer came back with. A file that was picked is
/// noted on the debug screen, and returned for upload where a connection is
/// open; without a connection and without a file the debug screen says so.
pub fn file_selected(debug_screen: &mut DebugScreen, connected: bool, picked: Option<String>) -> (r:
    Option<String>)
    ensures
        r == if connected {
            picked
        } else {
            None
        },
        final(debug_screen).lines@.len() >= old(debug_screen).lines@.len(),
        final(debug_screen).lines@.take(old(debug_screen).lines@.len() as int) == old(
            debug_screen,
        ).lines@,
        added_lines(*old(debug_screen), *final(debug_screen)) == selection_note(picked, connected),
{
    match picked {
        Some(path) => {
            let line = String::from_str("Selected file: ").concat(path.as_str());
            debug_screen.push_line(line);
            if connected {
                assert(debug_screen.lines@.take(old(debug_screen).lines@.len() as int) =~= old(
                    debug_screen,
                ).lines@);
                assert(added_lines(*old(debug_screen), *debug_screen) =~= selection_note(
                    picked,
                    connected,
                ));
                Some(path)
            } else {
                debug_screen.push_line(String::from_str("No active TCP connection available."));
                assert(debug_screen.lines@.take(old(debug_screen).lines@.len() as int) =~= old(
                    debug_screen,
                ).lines@);
                assert(added_lines(*old(debug_screen), *debug_screen) =~= selection_note(
                    picked,
                    connected,
                ));
                None
            }
        },
        None => {
            debug_screen.push_line(String::from_str("No file selected."));
            assert(debug_screen.lines@.take(old(debug_screen).lines@.len() as int) =~= old(
                debug_screen,
            ).lines@);
            assert(added_lines(*old(debug_screen), *debug_screen) =~= selection_note(
                picked,
                connected,
            ));
            None
        },
    }
}

/// Notes on the debug screen how the upload went.
pub fn upload_finished(debug_screen: &mut DebugScreen, result: Result<(), String>)
    ensures
        noted(
            *old(debug_screen),
            *final(debug_screen),
            match result {
                Ok(()) => "File uploaded successfully."@,
                Err(e) => "Error uploading file: "@ + e@,
            },
        ),
{
    match result {
        Ok(()) => note(debug_screen, String::from_str("File uploaded successfully.")),
        Err(e) => note(debug_screen, String::from_str("Error uploading file: ").concat(e.as_str())),
    }
}

} // verus!
