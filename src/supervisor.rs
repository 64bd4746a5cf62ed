//! The game process lifecycle as a state machine: not started, running,
//! then exited or failed to spawn. The caller spawns, reads and waits; the
//! machine says which lifecycle signals to emit and when to look for a
//! crash report.

use vstd::prelude::*;
use crate::args::{strip_game_timestamp, strip_ts_spec};
use crate::text::{concat2, concat3};
use crate::classpath::{lower_of, lowercase};
use crate::text::str_eq;

verus! {

/// Where the game process is in its life.
#[derive(Clone, Copy, Debug, PartialEq, Eq, Structural)]
pub enum ProcessState {
    NotStarted,
    Running { pid: Option<u32> },
    Exited { code: Option<i32> },
    SpawnFailed,
}

/// A lifecycle signal: whether the game of a profile runs, and its
/// process id.
#[derive(Clone, Debug)]
pub struct StatusSignal {
    pub is_running: bool,
    pub profile_id: String,
    pub pid: Option<u32>,
}

/// Which output stream a line came from.
#[derive(Clone, Copy, Debug, PartialEq, Eq, Structural)]
pub enum OutputStream {
    Stdout,
    Stderr,
}

/// A console line as delivered to listeners.
#[derive(Clone, Debug)]
pub struct OutputLine {
    pub line: String,
    pub stream: OutputStream,
    pub timestamp: i64,
}

/// What follows the end of the process.
#[derive(Clone, Debug)]
pub struct ExitAction {
    /// The stopped signal to emit.
    pub signal: StatusSignal,
    /// Whether to scan the latest log for a known crash signature.
    pub scan_for_crash: bool,
}

/// The process supervisor of one launch of a profile.
#[derive(Clone, Debug)]
pub struct Supervisor {
    pub state: ProcessState,
    pub profile_id: String,
}

impl Supervisor {
    pub fn new(profile_id: String) -> (r: Supervisor)
        ensures
            r.state == ProcessState::NotStarted,
            r.profile_id == profile_id,
    {
        Supervisor { state: ProcessState::NotStarted, profile_id }
    }

    /// The process was launched: it runs, and the started signal carries
    /// its id.
    pub fn spawned(&mut self, pid: Option<u32>) -> (r: StatusSignal)
        requires
            old(self).state == ProcessState::NotStarted,
        ensures
            final(self).state == (ProcessState::Running { pid }),
            final(self).profile_id == old(self).profile_id,
            r.is_running && r.pid == pid && r.profile_id == old(self).profile_id,
    {
        self.state = ProcessState::Running { pid };
        StatusSignal { is_running: true, profile_id: self.profile_id.clone(), pid }
    }

    /// The executable could not be launched; this is final.
    pub fn spawn_failed(&mut self)
        requires
            old(self).state == ProcessState::NotStarted,
        ensures
            final(self).state == ProcessState::SpawnFailed,
            final(self).profile_id == old(self).profile_id,
    {
        self.state = ProcessState::SpawnFailed;
    }

    /// The process ended with `code` (none when a signal ended it). The
    /// stopped signal clears the id; a crash scan follows any exit other
    /// than a clean zero.
    pub fn exited(&mut self, code: Option<i32>) -> (r: ExitAction)
        requires
            old(self).state is Running,
        ensures
            final(self).state == (ProcessState::Exited { code }),
            final(self).profile_id == old(self).profile_id,
            !r.signal.is_running && r.signal.pid is None && r.signal.profile_id == old(self).profile_id,
            r.scan_for_crash == (code != Some(0i32)),
    {
        self.state = ProcessState::Exited { code };
        let clean = match code {
            Some(c) => c == 0,
            None => false,
        };
        ExitAction {
            signal: StatusSignal { is_running: false, profile_id: self.profile_id.clone(), pid: None },
            scan_for_crash: !clean,
        }
    }

    /// Whether the game is running.
    pub fn is_running(&self) -> (r: bool)
        ensures
            r == (self.state is Running),
    {
        match self.state {
            ProcessState::Running { .. } => true,
            _ => false,
        }
    }
}

/// A console line for listeners: the game's own timestamp removed.
pub fn output_line(raw: &str, stream: OutputStream, timestamp: i64) -> (r: OutputLine)
    ensures
        r.line@ == strip_ts_spec(raw@),
        r.stream == stream,
        r.timestamp == timestamp,
{
    OutputLine { line: strip_game_timestamp(raw), stream, timestamp }
}

/// Whether the presence connection is up.
#[derive(Clone, Copy, Debug)]
pub struct PresenceState {
    pub connected: bool,
}

/// What to do with the presence connection.
#[derive(Clone, Copy, Debug, PartialEq, Eq, Structural)]
pub enum PresenceAction {
    Nothing,
    /// Close the connection.
    Close,
    /// Show the idle activity.
    ShowIdle,
}

pub fn is_connected(state: &PresenceState) -> (r: bool)
    ensures
        r == state.connected,
{
    state.connected
}

/// Disconnects: a live connection is closed; otherwise nothing happens.
pub fn disconnect(state: &mut PresenceState) -> (r: PresenceAction)
    ensures
        !final(state).connected,
        r == (if old(state).connected {
            PresenceAction::Close
        } else {
            PresenceAction::Nothing
        }),
{
    let was = state.connected;
    state.connected = false;
    if was {
        PresenceAction::Close
    } else {
        PresenceAction::Nothing
    }
}

/// After the game ends the presence returns to idle, if connected.
pub fn clear_presence(state: &PresenceState) -> (r: PresenceAction)
    ensures
        r == (if state.connected {
            PresenceAction::ShowIdle
        } else {
            PresenceAction::Nothing
        }),
{
    if state.connected {
        PresenceAction::ShowIdle
    } else {
        PresenceAction::Nothing
    }
}

/// The presence texts while playing: `Playing <name>`, and the version
/// with the loader (or `Minecraft <version>` for vanilla).
pub open spec fn presence_texts_spec(name: Seq<char>, version: Seq<char>, loader: Seq<char>) -> (Seq<char>, Seq<char>) {
    let state = if lower_of(loader) == "vanilla"@ {
        "Minecraft "@ + version
    } else {
        version + " \u{2022} "@ + loader
    };
    ("Playing "@ + name, state)
}

pub fn presence_texts(profile_name: &str, version: &str, loader: &str) -> (r: (String, String))
    ensures
        (r.0@, r.1@) == presence_texts_spec(profile_name@, version@, loader@),
{
    let lc = lowercase(loader);
    let state = if str_eq(lc.as_str(), "vanilla") {
        concat2("Minecraft ", version)
    } else {
        concat3(version, " \u{2022} ", loader)
    };
    (concat2("Playing ", profile_name), state)
}

} // verus!
