//! The loop that serves one TUN device, as a function from what happened to
//! what to do next.
//!
//! Each device is served on its own: one read, then at most one write, then
//! the next read. The loop keeps nothing from one datagram to the next. The
//! program does the reading and writing and reports back how it went.

use crate::argparse::Arguments;
use crate::packets::{handle, reply_to};
use vstd::prelude::*;

verus! {

/// What happened on the device.
pub enum TunEvent<'a> {
    /// A read returned these bytes. No bytes mean the end of the stream.
    Received(&'a [u8]),
    /// A read failed.
    ReadFailed,
    /// The reply was written in full.
    Written,
    /// The reply could not be written.
    WriteFailed,
}

/// What to do next on the device.
#[derive(Debug, PartialEq, Eq)]
pub enum TunAction {
    /// Read the next datagram.
    Read,
    /// Write these bytes as one datagram.
    Write(Vec<u8>),
    /// Leave the loop.
    Stop,
}

/// Whether `action` is what follows `event`: a datagram is followed by
/// writing its reply, or by the next read where it has none; the end of the
/// stream and a failed read end the loop; after a write, failed or not, the
/// next datagram is read.
pub open spec fn follows(n_hosts: usize, event: TunEvent, action: TunAction) -> bool {
    match event {
        TunEvent::Received(buffer) => if buffer@.len() == 0 {
            action is Stop
        } else {
            match reply_to(n_hosts, buffer@) {
                Some(reply) => action is Write && action->Write_0@ == reply,
                None => action is Read,
            }
        },
        TunEvent::ReadFailed => action is Stop,
        TunEvent::Written => action is Read,
        TunEvent::WriteFailed => action is Read,
    }
}

/// Decides what to do after `event`.
pub fn next_action(program_args: &Arguments, event: TunEvent) -> (action: TunAction)
    ensures
        follows(program_args.n_hosts, event, action),
{
    match event {
        TunEvent::Received(buffer) => {
            if buffer.len() == 0 {
                TunAction::Stop
            } else {
                match handle(program_args, buffer) {
                    Some(reply) => TunAction::Write(reply),
                    None => TunAction::Read,
                }
            }
        },
        TunEvent::ReadFailed => TunAction::Stop,
        TunEvent::Written => TunAction::Read,
        TunEvent::WriteFailed => TunAction::Read,
    }
}

/// The loop never writes anything but the reply to the datagram that was read
/// last, and it ends only where reading ends.
pub proof fn lemma_one_reply_for_each_datagram(n_hosts: usize, event: TunEvent, action: TunAction)
    requires
        follows(n_hosts, event, action),
    ensures
        action is Write ==> event is Received && reply_to(n_hosts, event->Received_0@) == Some(
            action->Write_0@,
        ),
        action is Stop <==> event is ReadFailed || (event is Received && event->Received_0@.len()
            == 0),
{
}

} // verus!
