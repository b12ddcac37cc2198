//! A channel of a session as a stream of bytes.
//!
//! The channel hands over data in messages of any size; the reader asks for
//! as many bytes as it has room for. The stream keeps the data of one
//! message and serves it piece by piece. The channel itself is with the
//! caller, who feeds its messages in.

use vstd::prelude::*;
use crate::errors::{Error, ErrorView};

verus! {

/// A message of a channel, as far as a stream reads it.
#[derive(Debug, PartialEq, Eq)]
pub enum ChannelMsg {
    /// Bytes from the other side.
    Data(Vec<u8>),
    /// The other side will send no more.
    Eof,
    /// The channel is closed.
    Close,
    /// Anything else: window adjustments, exit codes, and the like.
    Other,
}

/// What a read has to do next.
#[derive(Debug, PartialEq, Eq)]
pub enum ReadStep {
    /// The read is through: these bytes go to the reader.
    Ready(Vec<u8>),
    /// Nothing is buffered: wait for a message of the channel.
    Wait,
}

/// What follows a message of the channel, for a read that waited for it.
#[derive(Debug, PartialEq, Eq)]
pub enum AfterMessage {
    /// Try the read again.
    Again,
    /// The read is through without a byte: the channel is no more.
    Finished,
    /// The read fails: the stream has ended where data was expected.
    UnexpectedEof,
}

/// The read side of a channel.
pub struct SshTunnelStream {
    read_buf: Vec<u8>,
    buffer_offset: usize,
    buffer_end: usize,
}

impl SshTunnelStream {
    #[verifier::type_invariant]
    closed spec fn inv(&self) -> bool {
        self.buffer_offset <= self.buffer_end <= self.read_buf.len()
    }

    /// The bytes that are buffered and not yet served.
    pub closed spec fn buffered(&self) -> Seq<u8> {
        self.read_buf@.subrange(self.buffer_offset as int, self.buffer_end as int)
    }

    /// A stream with nothing buffered.
    pub fn new() -> (r: Self)
        ensures
            r.buffered() == Seq::<u8>::empty(),
    {
        SshTunnelStream { read_buf: Vec::new(), buffer_offset: 0, buffer_end: 0 }
    }

    /// The number of bytes that are buffered and not yet served.
    pub fn remaining(&self) -> (r: usize)
        ensures
            r == self.buffered().len(),
    {
        proof {
            use_type_invariant(self);
        }
        self.buffer_end - self.buffer_offset
    }

    /// Serves a reader that has room for `room` bytes.
    ///
    /// Where bytes are buffered, the reader gets as many of them as it has
    /// room for, the oldest first, and the rest stays. Where nothing is
    /// buffered, the read has to wait for the channel.
    pub fn poll_read(&mut self, room: usize) -> (r: ReadStep)
        ensures
            match r {
                ReadStep::Ready(bytes) => {
                    &&& old(self).buffered().len() > 0
                    &&& bytes@.len() == vstd::math::min(old(self).buffered().len() as int, room as int)
                    &&& bytes@ == old(self).buffered().take(bytes@.len() as int)
                    &&& final(self).buffered() == old(self).buffered().skip(bytes@.len() as int)
                },
                ReadStep::Wait => {
                    &&& old(self).buffered().len() == 0
                    &&& final(self).buffered() == old(self).buffered()
                },
            },
    {
        proof {
            use_type_invariant(&*self);
        }
        let remaining = self.buffer_end - self.buffer_offset;
        if remaining == 0 {
            return ReadStep::Wait;
        }
        let length = if remaining < room {
            remaining
        } else {
            room
        };
        let offset = self.buffer_offset;
        let mut bytes: Vec<u8> = Vec::new();
        let mut i: usize = 0;
        while i < length
            invariant
                i <= length,
                offset + length <= self.read_buf.len(),
                bytes@ == self.read_buf@.subrange(offset as int, offset + i),
            decreases length - i,
        {
            bytes.push(self.read_buf[offset + i]);
            i += 1;
        }
        self.buffer_offset = offset + length;
        ReadStep::Ready(bytes)
    }

    /// Takes a message of the channel, or the news that there will be none.
    ///
    /// Data is buffered in the place of what was buffered, and the read is
    /// tried again. So it is after a message that carries no data. The end
    /// of the data and the close of the channel fail the read, and the end
    /// of all messages ends it without a byte.
    pub fn on_message(&mut self, message: Option<ChannelMsg>) -> (r: AfterMessage)
        ensures
            match message {
                Some(ChannelMsg::Data(data)) => r == AfterMessage::Again && final(self).buffered()
                    == data@,
                Some(ChannelMsg::Eof) | Some(ChannelMsg::Close) => r == AfterMessage::UnexpectedEof
                    && final(self).buffered() == old(self).buffered(),
                Some(ChannelMsg::Other) => r == AfterMessage::Again && final(self).buffered()
                    == old(self).buffered(),
                None => r == AfterMessage::Finished && final(self).buffered() == old(
                    self,
                ).buffered(),
            },
    {
        match message {
            Some(ChannelMsg::Data(data)) => {
                let end = data.len();
                *self = SshTunnelStream { read_buf: data, buffer_offset: 0, buffer_end: end };
                assert(self.buffered() =~= data@);
                AfterMessage::Again
            },
            Some(ChannelMsg::Eof) | Some(ChannelMsg::Close) => AfterMessage::UnexpectedEof,
            Some(ChannelMsg::Other) => AfterMessage::Again,
            None => AfterMessage::Finished,
        }
    }
}

/// The outcome of a write of `length` bytes that the channel has taken
/// whole or not at all: all bytes count as written, or the write fails with
/// the channel's message.
pub fn written(length: usize, sent: Result<(), String>) -> (r: Result<usize, Error>)
    ensures
        match sent {
            Ok(()) => r == Ok::<usize, Error>(length),
            Err(m) => r matches Err(e) && e@ == ErrorView::PpStreamError(m@),
        },
{
    match sent {
        Ok(()) => Ok(length),
        Err(m) => Err(Error::PpStreamError(m)),
    }
}

/// The outcome of a shutdown, which tells the other side that no more will
/// be sent: done, or failed with the channel's message.
pub fn shut_down(sent: Result<(), String>) -> (r: Result<(), Error>)
    ensures
        match sent {
            Ok(()) => r == Ok::<(), Error>(()),
            Err(m) => r matches Err(e) && e@ == ErrorView::PpStreamError(m@),
        },
{
    match sent {
        Ok(()) => Ok(()),
        Err(m) => Err(Error::PpStreamError(m)),
    }
}

} // verus!
