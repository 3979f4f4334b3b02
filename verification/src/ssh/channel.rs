//! What comes in on an exec channel, and what is made of it.
use vstd::prelude::*;

use crate::bytes::push_all;
use crate::error::{AppError, ErrorView};
use crate::ssh::script_runner::StepOutcome;
use crate::text::{lossy, owned, utf8_lossy};

verus! {

/// What came in on a channel.
pub enum ChannelEvent {
    Data(Vec<u8>),
    ExtendedData(Vec<u8>),
    ExitStatus(u32),
    Eof,
    Close,
    /// The channel is gone.
    Gone,
    Other,
}

/// What a command wrote so far, and how it exited.
pub struct Capture {
    pub output: Vec<u8>,
    pub exit_code: i32,
}

/// The bytes that an event carries.
pub open spec fn event_bytes(event: ChannelEvent) -> Seq<u8> {
    match event {
        ChannelEvent::Data(data) => data@,
        ChannelEvent::ExtendedData(data) => data@,
        _ => Seq::empty(),
    }
}

/// An exit status as a signed code.
pub open spec fn signed_status(status: u32) -> int {
    if status < 0x8000_0000 {
        status as int
    } else {
        status - 0x1_0000_0000
    }
}

fn exit_code_of(status: u32) -> (r: i32)
    ensures
        r == signed_status(status),
{
    if status < 0x8000_0000 {
        status as i32
    } else {
        (status as i64 - 0x1_0000_0000) as i32
    }
}

impl Capture {
    /// Nothing came in yet.
    pub fn new() -> (r: Self)
        ensures
            r.output@ == Seq::<u8>::empty(),
            r.exit_code == 0,
    {
        Capture { output: Vec::new(), exit_code: 0 }
    }

    /// Takes in what came from a step of a script, and says whether the step is
    /// over. Servers commonly send the end of the output before the exit
    /// status, so only the close, which always comes last, ends it.
    pub fn take_step(&mut self, event: &ChannelEvent) -> (r: bool)
        ensures
            r == (event is Close || event is Gone),
            final(self).output@ == old(self).output@ + event_bytes(*event),
            final(self).exit_code == (match *event {
                ChannelEvent::ExitStatus(status) => signed_status(status),
                _ => old(self).exit_code as int,
            }),
    {
        match event {
            ChannelEvent::Data(data) => {
                push_all(&mut self.output, data);
                false
            },
            ChannelEvent::ExtendedData(data) => {
                push_all(&mut self.output, data);
                false
            },
            ChannelEvent::ExitStatus(status) => {
                self.exit_code = exit_code_of(*status);
                assert(self.output@ =~= old(self).output@ + event_bytes(*event));
                false
            },
            ChannelEvent::Close => {
                assert(self.output@ =~= old(self).output@ + event_bytes(*event));
                true
            },
            ChannelEvent::Gone => {
                assert(self.output@ =~= old(self).output@ + event_bytes(*event));
                true
            },
            _ => {
                assert(self.output@ =~= old(self).output@ + event_bytes(*event));
                false
            },
        }
    }

    /// Takes in what came from a one-shot probe, and says whether it is over:
    /// a probe's exit status is of no interest.
    pub fn take_probe(&mut self, event: &ChannelEvent) -> (r: bool)
        ensures
            r == (event is ExitStatus || event is Eof || event is Close || event is Gone),
            final(self).output@ == old(self).output@ + event_bytes(*event),
            final(self).exit_code == old(self).exit_code,
    {
        match event {
            ChannelEvent::Data(data) => {
                push_all(&mut self.output, data);
                false
            },
            ChannelEvent::ExtendedData(data) => {
                push_all(&mut self.output, data);
                false
            },
            ChannelEvent::Other => {
                assert(self.output@ =~= old(self).output@ + event_bytes(*event));
                false
            },
            _ => {
                assert(self.output@ =~= old(self).output@ + event_bytes(*event));
                true
            },
        }
    }

    /// What the step came to. One that ran out of time still has its output.
    pub fn step_outcome(&self, timed_out: bool) -> (r: StepOutcome)
        ensures
            match r {
                StepOutcome::Finished { exit_code, output } => !timed_out && exit_code == self.exit_code && output@
                    == utf8_lossy(self.output@),
                StepOutcome::TimedOut { output } => timed_out && output@ == utf8_lossy(self.output@),
                StepOutcome::Failed { .. } => false,
            },
    {
        let output = lossy(&self.output);
        if timed_out {
            StepOutcome::TimedOut { output }
        } else {
            StepOutcome::Finished { exit_code: self.exit_code, output }
        }
    }

    /// What the probe wrote. One that ran out of time is an error.
    pub fn probe_text(&self, timed_out: bool) -> (r: Result<String, AppError>)
        ensures
            match r {
                Ok(text) => !timed_out && text@ == utf8_lossy(self.output@),
                Err(e) => timed_out && e@ == ErrorView::SshConnect("timed out fetching system info"@),
            },
    {
        if timed_out {
            Err(AppError::SshConnect(owned("timed out fetching system info")))
        } else {
            Ok(lossy(&self.output))
        }
    }
}

/// Both of a channel's streams count as output, byte for byte; no other event
/// carries any.
pub proof fn both_streams_are_output(event: ChannelEvent)
    ensures
        event matches ChannelEvent::Data(data) ==> event_bytes(event) == data@,
        event matches ChannelEvent::ExtendedData(data) ==> event_bytes(event) == data@,
        !(event is Data) && !(event is ExtendedData) ==> event_bytes(event).len() == 0,
{
}

/// An exit status below 2^31 is its own code, and one above it the negative code of
/// the same 32 bits.
pub proof fn an_exit_status_keeps_its_bits(status: u32)
    ensures
        status < 0x8000_0000 ==> signed_status(status) == status,
        status >= 0x8000_0000 ==> signed_status(status) == status - 0x1_0000_0000,
        -0x8000_0000 <= signed_status(status) <= 0x7fff_ffff,
{
}

/// A command that finished keeps its exit code and all of its output, one that ran
/// out of time its output; a probe that ran out of time is an error.
pub proof fn what_a_command_wrote_is_kept(
    c: Capture,
    timed_out: bool,
    outcome: StepOutcome,
    probed: Result<String, AppError>,
)
    requires
        call_ensures(Capture::step_outcome, (&c, timed_out), outcome),
        call_ensures(Capture::probe_text, (&c, timed_out), probed),
    ensures
        timed_out ==> (outcome matches StepOutcome::TimedOut { output } && output@ == utf8_lossy(c.output@))
            && probed is Err,
        !timed_out ==> (outcome matches StepOutcome::Finished { exit_code, output } && exit_code == c.exit_code && output@
            == utf8_lossy(c.output@)) && (probed matches Ok(text) && text@ == utf8_lossy(c.output@)),
{
}

} // verus!
