//! The session lifecycle.
//!
//! A session is a collaboration between this library and an unverified shell:
//! the shell performs the process and filesystem work (creating the channel
//! node, spawning the engine, opening the channel, writing bytes, waiting for
//! exit) and reports each outcome; the library decides what to do next and
//! produces every byte that goes onto the channel.
//!
//! Opening is a fixed three-step handshake, driven through [`open_advance`]:
//! create the channel node, spawn the engine bound to it, open the channel's
//! write end (which blocks until the engine has opened the read end). Each
//! step that fails aborts the handshake with the error of that step.
//!
//! A running session is a [`Milk`] value. Sending is fire-and-forget: a
//! command is framed onto the stream and never acknowledged. The only
//! synchronization point is teardown, [`Milk::close`], which frames the
//! reserved termination command; the shell writes it and then blocks until
//! the engine has exited. Because `close` takes the handle by value, a
//! second teardown of the same session is not expressible.

use vstd::prelude::*;

use crate::channel::MAX_SUFFIX;
use crate::channel::channel_path;
use crate::channel::fresh_channel_path;
use crate::channel::push_char;
use crate::channel::spec_channel_path;
use crate::codec::exit_line;
use crate::codec::frame_of;
use crate::codec::is_command;
use crate::codec::lemma_stream_of_push;
use crate::codec::stream_of;

verus! {

/// The ways a session operation can fail. Every failure is reported to the
/// caller at the failing operation itself; nothing is retried or hidden.
#[derive(Clone, Copy, Debug, PartialEq, Eq, Structural)]
pub enum SessionError {
    /// The channel node could not be created on the filesystem.
    ChannelCreation,
    /// The engine process could not be launched.
    ProcessSpawn,
    /// The channel's write end could not be opened.
    ChannelOpen,
    /// A command write was not accepted onto the channel (the reader end is
    /// gone, typically because the engine process exited).
    CommandWrite,
}

/// Where the opening handshake stands. Each pending phase names the one
/// action the shell must perform next before reporting its outcome.
#[derive(Clone, Copy, Debug, PartialEq, Eq, Structural)]
pub enum OpenPhase {
    /// The channel node must be created next.
    CreateChannel,
    /// The engine process must be spawned next, bound to the channel.
    SpawnProcess,
    /// The channel must be opened for writing next; this blocks until the
    /// engine has opened the read end.
    OpenChannel,
    /// The handshake is complete: the engine is running and reads the channel.
    Ready,
    /// The handshake failed at the step this error names.
    Aborted(SessionError),
}

/// The transition table of the opening handshake: which phase follows which,
/// and which error each failing step aborts with.
pub open spec fn open_next(phase: OpenPhase, ok: bool) -> OpenPhase {
    match phase {
        OpenPhase::CreateChannel => if ok {
            OpenPhase::SpawnProcess
        } else {
            OpenPhase::Aborted(SessionError::ChannelCreation)
        },
        OpenPhase::SpawnProcess => if ok {
            OpenPhase::OpenChannel
        } else {
            OpenPhase::Aborted(SessionError::ProcessSpawn)
        },
        OpenPhase::OpenChannel => if ok {
            OpenPhase::Ready
        } else {
            OpenPhase::Aborted(SessionError::ChannelOpen)
        },
        OpenPhase::Ready => OpenPhase::Ready,
        OpenPhase::Aborted(e) => OpenPhase::Aborted(e),
    }
}

/// Advances the opening handshake by the outcome of the pending action.
pub fn open_advance(phase: OpenPhase, ok: bool) -> (r: OpenPhase)
    ensures
        r == open_next(phase, ok),
{
    match phase {
        OpenPhase::CreateChannel => if ok {
            OpenPhase::SpawnProcess
        } else {
            OpenPhase::Aborted(SessionError::ChannelCreation)
        },
        OpenPhase::SpawnProcess => if ok {
            OpenPhase::OpenChannel
        } else {
            OpenPhase::Aborted(SessionError::ProcessSpawn)
        },
        OpenPhase::OpenChannel => if ok {
            OpenPhase::Ready
        } else {
            OpenPhase::Aborted(SessionError::ChannelOpen)
        },
        OpenPhase::Ready => OpenPhase::Ready,
        OpenPhase::Aborted(e) => OpenPhase::Aborted(e),
    }
}

/// When every step of the handshake succeeds, opening yields a ready
/// session: a valid handle is owed whenever channel creation, process spawn
/// and channel open all report success.
pub proof fn lemma_open_reaches_ready()
    ensures
        open_next(
            open_next(open_next(OpenPhase::CreateChannel, true), true),
            true,
        ) == OpenPhase::Ready,
{
}

/// A failed handshake is final: no later outcome revives it, so an opening
/// error is always reported to the caller exactly as it was classified.
pub proof fn lemma_abort_is_final(e: SessionError, ok: bool)
    ensures
        open_next(OpenPhase::Aborted(e), ok) == OpenPhase::Aborted(e),
{
}

/// Classifies the outcome of one command write. A write the channel did not
/// accept is a `CommandWrite` error, never a silent success: after the
/// engine process has died, every further send fails loudly.
pub fn write_outcome(accepted: bool) -> (r: Result<(), SessionError>)
    ensures
        accepted <==> r is Ok,
        !accepted ==> r == Err::<(), SessionError>(SessionError::CommandWrite),
{
    if accepted {
        Ok(())
    } else {
        Err(SessionError::CommandWrite)
    }
}

/// The protocol core of one live session: its channel identity and, as ghost
/// state, the commands submitted so far, in submission order.
pub struct Milk {
    path: String,
    sent: Ghost<Seq<Seq<char>>>,
}

impl Milk {
    /// The channel identity of this session.
    pub closed spec fn chan(self) -> Seq<char> {
        self.path@
    }

    /// The commands submitted on this session so far, in order.
    pub closed spec fn log(self) -> Seq<Seq<char>> {
        self.sent@
    }

    /// A well-formed session: its channel path was rendered from a suffix in
    /// range, and everything submitted so far was a single-line command.
    pub open spec fn wf(self) -> bool {
        &&& exists|n: u64| n <= MAX_SUFFIX && self.chan() == #[trigger] spec_channel_path(n)
        &&& forall|i: int| 0 <= i < self.log().len() ==> is_command(#[trigger] self.log()[i])
    }

    /// Begins a session: picks a fresh channel identity with a random suffix
    /// and an empty submission log. The shell must then drive the opening
    /// handshake before any command is sent.
    pub fn new() -> (r: Milk)
        ensures
            r.wf(),
            r.log() == Seq::<Seq<char>>::empty(),
    {
        let path = fresh_channel_path();
        Milk { path, sent: Ghost(Seq::empty()) }
    }

    /// Begins a session on the channel identity rendered from the given
    /// suffix; otherwise as [`Milk::new`].
    pub fn with_suffix(suffix: u64) -> (r: Milk)
        requires
            suffix <= MAX_SUFFIX,
        ensures
            r.wf(),
            r.chan() == spec_channel_path(suffix),
            r.log() == Seq::<Seq<char>>::empty(),
    {
        let path = channel_path(suffix);
        Milk { path, sent: Ghost(Seq::empty()) }
    }

    /// The channel path, for the shell to create, bind and open.
    pub fn path(&self) -> (r: &str)
        ensures
            r@ == self.chan(),
    {
        self.path.as_str()
    }

    /// Submits one command: records it and returns its frame, the exact
    /// bytes the shell must write to the channel. Success of the write means
    /// only "accepted onto the channel"; nothing waits for execution.
    pub fn cmd(&mut self, command: &str) -> (w: String)
        requires
            old(self).wf(),
            is_command(command@),
        ensures
            final(self).wf(),
            final(self).chan() == old(self).chan(),
            final(self).log() == old(self).log().push(command@),
            w@ == frame_of(command@),
    {
        let mut w = command.to_owned();
        push_char(&mut w, '\n');
        proof {
            self.sent@ = self.sent@.push(command@);
            assert(w@ =~= frame_of(command@));
            assert forall|i: int| 0 <= i < self.log().len() implies is_command(
                #[trigger] self.log()[i],
            ) by {
                if i < old(self).log().len() {
                    assert(self.log()[i] == old(self).log()[i]);
                } else {
                    assert(self.log()[i] == command@);
                }
            };
        }
        w
    }

    /// Submits a batch of commands: records them in order and returns the
    /// concatenation of their frames, the exact bytes the shell must write.
    /// The relative order of the batch is preserved on the stream; there is
    /// no atomicity across the batch beyond what one write gives.
    pub fn cmds(&mut self, commands: Vec<&str>) -> (w: String)
        requires
            old(self).wf(),
            forall|i: int| 0 <= i < commands@.len() ==> is_command(#[trigger] commands@[i]@),
        ensures
            final(self).wf(),
            final(self).chan() == old(self).chan(),
            final(self).log() == old(self).log() + commands@.map_values(|s: &str| s@),
            w@ == stream_of(commands@.map_values(|s: &str| s@)),
    {
        let ghost views = commands@.map_values(|s: &str| s@);
        let mut w = String::new();
        let mut i: usize = 0;
        while i < commands.len()
            invariant
                0 <= i <= commands.len(),
                views == commands@.map_values(|s: &str| s@),
                forall|j: int| 0 <= j < commands@.len() ==> is_command(#[trigger] commands@[j]@),
                self.wf(),
                self.chan() == old(self).chan(),
                self.log() == old(self).log() + views.take(i as int),
                w@ == stream_of(views.take(i as int)),
            decreases commands.len() - i,
        {
            let c = commands[i];
            proof {
                assert(views[i as int] == commands@[i as int]@);
                assert(is_command(c@));
            }
            let f = self.cmd(c);
            w.append(f.as_str());
            proof {
                lemma_stream_of_push(views.take(i as int), c@);
                assert(views.take(i as int + 1) =~= views.take(i as int).push(c@));
                assert(old(self).log() + views.take(i as int + 1)
                    =~= (old(self).log() + views.take(i as int)).push(c@));
            }
            i += 1;
        }
        proof {
            assert(views.take(commands@.len() as int) =~= views);
        }
        w
    }

    /// Tears the session down: consumes the handle and returns the frame of
    /// the reserved termination command, the last bytes the shell writes
    /// before it blocks until the engine has exited. Taking the handle by
    /// value makes a second teardown of the same session unwritable; and
    /// because the termination frame ends the stream, teardown completing is
    /// the one point at which every submitted command is known to have been
    /// executed.
    pub fn close(self) -> (w: String)
        ensures
            w@ == frame_of(exit_line()),
    {
        let mut w: String = "exit".to_owned();
        push_char(&mut w, '\n');
        proof {
            assert(w@ =~= frame_of(exit_line()));
        }
        w
    }
}

/// Teardown synchronizes, for every reachable session: the stream a session
/// puts on the channel — the frames of its submitted commands followed by
/// the termination frame from [`Milk::close`] — is read back by the engine
/// as exactly those commands, in submission order, with the termination
/// command last. Waiting for the engine to exit after the termination
/// command is therefore a wait for every earlier command.
pub proof fn lemma_session_close_synchronizes(m: Milk)
    requires
        m.wf(),
    ensures
        ({
            let lines = crate::codec::split_stream(stream_of(m.log().push(exit_line())));
            &&& lines == m.log().push(exit_line())
            &&& lines.last() == exit_line()
            &&& lines.drop_last() == m.log()
        }),
{
    crate::codec::lemma_teardown_after_all_commands(m.log());
}

} // verus!
