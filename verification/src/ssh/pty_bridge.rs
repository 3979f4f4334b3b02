//! What the bridge between the local terminal and a remote shell does with what
//! it reads. The bytes themselves pass through untouched.
use vstd::prelude::*;

use crate::ssh::channel::ChannelEvent;

verus! {

/// What to do with what came in.
#[derive(Clone, Copy, Debug, PartialEq, Eq, Structural)]
pub enum BridgeStep {
    /// Write the bytes to the local terminal.
    Show,
    /// Send the bytes to the remote shell.
    Send,
    /// Tell the remote shell that there is no more input.
    SendEof,
    /// The session is over.
    End,
    Ignore,
}

/// The local side of a bridge.
#[derive(Clone, Copy, Debug, PartialEq, Eq, Structural)]
pub struct Bridge {
    /// Once the local input has ended it is no longer read: it would return
    /// nothing, at once, forever.
    pub stdin_open: bool,
}

impl Bridge {
    pub fn new() -> (r: Self)
        ensures
            r.stdin_open,
    {
        Bridge { stdin_open: true }
    }

    /// Takes in a read of `n` bytes of local input.
    pub fn local_read(&mut self, n: usize) -> (r: BridgeStep)
        ensures
            r == (if n == 0 {
                BridgeStep::SendEof
            } else {
                BridgeStep::Send
            }),
            final(self).stdin_open == (old(self).stdin_open && n > 0),
    {
        if n == 0 {
            self.stdin_open = false;
            BridgeStep::SendEof
        } else {
            BridgeStep::Send
        }
    }

    /// What to do with what came in on the channel.
    pub fn remote_sent(&self, message: &ChannelEvent) -> (r: BridgeStep)
        ensures
            r == (match *message {
                ChannelEvent::Data(_) => BridgeStep::Show,
                ChannelEvent::ExtendedData(_) => BridgeStep::Show,
                ChannelEvent::Other => BridgeStep::Ignore,
                _ => BridgeStep::End,
            }),
    {
        match message {
            ChannelEvent::Data(_) => BridgeStep::Show,
            ChannelEvent::ExtendedData(_) => BridgeStep::Show,
            ChannelEvent::Other => BridgeStep::Ignore,
            _ => BridgeStep::End,
        }
    }
}

/// Whatever the shell writes is shown, on either stream; its end, however it is
/// told, ends the session; and nothing else does.
pub proof fn the_bridge_shows_what_the_shell_writes(bridge: Bridge, message: ChannelEvent, r: BridgeStep)
    requires
        call_ensures(Bridge::remote_sent, (&bridge, &message), r),
    ensures
        message is Data || message is ExtendedData <==> r == BridgeStep::Show,
        message is ExitStatus || message is Eof || message is Close || message is Gone <==> r == BridgeStep::End,
{
}

/// Local input is sent until it ends, which is told once and for all.
pub proof fn local_input_is_sent_until_it_ends(bridge: &mut Bridge, n: usize, r: BridgeStep)
    requires
        call_ensures(Bridge::local_read, (bridge, n), r),
    ensures
        n > 0 ==> r == BridgeStep::Send && final(bridge).stdin_open == old(bridge).stdin_open,
        n == 0 ==> r == BridgeStep::SendEof && !final(bridge).stdin_open,
{
}

} // verus!
