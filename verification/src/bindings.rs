//! Bound statements and the rows that their execution streams.

use crate::codec::Row;
use crate::error::{AnyError, AnyErrorView};
use crate::frontend::{execute_body, execute_message, flush, push_flush, sync, sync_message, Frontend};
use crate::message::{err_text, make_err, BackendMessage};
use crate::wire::{fits, frame, no_nul};
use vstd::prelude::*;
use vstd::utf8::encode_utf8;

verus! {

/// A statement with its parameters, under the name of its portal. It lives
/// as long as the connection that bound it.
pub struct BoundStatement {
    pub statement: String,
    pub portal: String,
}

/// Where the stream of rows stands.
#[derive(Clone, Copy, PartialEq, Eq, Structural)]
pub enum Phase {
    /// Rows may still come.
    Rows,
    /// The rows are over; the server is asked to get ready again.
    Draining,
    /// The server is ready again.
    Done,
}

/// The rows of an executed portal. While it is not done, nobody else may use
/// the connection.
pub struct BoundQuery {
    pub phase: Phase,
}

/// What a message of the server means for whoever pulls rows.
pub enum Step {
    /// A row.
    Row(Row),
    /// The server reports an error. It is reported once; `send` goes out, and
    /// the stream drains.
    Failed { error: AnyError, send: Vec<u8> },
    /// The rows are over: `send` goes out, and the stream drains.
    Drain { send: Vec<u8> },
    /// Nothing for whoever pulls: the next message is read.
    Skip,
    /// The stream is over.
    End,
}

/// What follows a message, short of the bytes to send.
pub enum Turn {
    Row(Seq<Option<Seq<u8>>>),
    Failed(AnyErrorView),
    Drain,
    Skip,
    End,
}

/// What a message means in a phase, and the phase that follows. While rows
/// may come, a row is handed on; the end of the data starts the draining, and
/// so does an error, which is reported; every other message is passed over.
/// While the stream drains, the server's readiness ends it, and every other
/// message is passed over. After that the stream stays over.
pub open spec fn turn(phase: Phase, message: BackendMessage) -> (Phase, Turn) {
    match phase {
        Phase::Rows => match message {
            BackendMessage::DataRow(row) => (Phase::Rows, Turn::Row(row@)),
            BackendMessage::ErrorResponse(fields) => (
                Phase::Draining,
                Turn::Failed(AnyErrorView::Server(err_text(fields.deep_view()))),
            ),
            BackendMessage::EmptyQueryResponse
            | BackendMessage::PortalSuspended
            | BackendMessage::CommandComplete => (Phase::Draining, Turn::Drain),
            _ => (Phase::Rows, Turn::Skip),
        },
        Phase::Draining => match message {
            BackendMessage::ReadyForQuery => (Phase::Done, Turn::End),
            _ => (Phase::Draining, Turn::Skip),
        },
        Phase::Done => (Phase::Done, Turn::End),
    }
}

/// Whether `step` is what `turn` asks for, with `sent` as the bytes that go
/// out with it.
pub open spec fn stepped(turn: Turn, step: Step, sent: Seq<u8>) -> bool {
    match turn {
        Turn::Row(row) => step matches Step::Row(r) && r@ == row,
        Turn::Failed(error) => step matches Step::Failed { error: e, send } && e@ == error
            && send@ == sent,
        Turn::Drain => step matches Step::Drain { send } && send@ == sent,
        Turn::Skip => step is Skip,
        Turn::End => step is End,
    }
}

impl BoundStatement {
    /// Asks the server to run the portal and to send all its rows: the
    /// Execute message and a Flush, behind what was registered to go out
    /// first, and the stream that reads the answers. Fails, with nothing
    /// sent, where the message cannot be written.
    pub fn execute(&mut self, conn: &mut Frontend) -> (r: Result<(BoundQuery, Vec<u8>), AnyError>)
        ensures
            *final(self) == *old(self),
            final(conn).counter == old(conn).counter,
            final(conn).notify == old(conn).notify,
            r is Ok <==> no_nul(encode_utf8(old(self).portal@)) && fits(execute_body(old(self).portal@)),
            r matches Ok(started) ==> {
                &&& started.0.phase == Phase::Rows
                &&& started.1@ == old(conn).to_send@ + frame(0x45, execute_body(old(self).portal@))
                    + flush()
                &&& final(conn).to_send@ == Seq::<u8>::empty()
            },
            r matches Err(e) ==> e@ == AnyErrorView::Encode && final(conn).to_send@ == old(
                conn,
            ).to_send@,
    {
        let mut buf: Vec<u8> = Vec::new();
        if !execute_message(self.portal.as_str(), 0, &mut buf) {
            return Err(AnyError::Encode);
        }
        push_flush(&mut buf);
        let wire = conn.write_data(buf.as_slice());
        assert(wire@ =~= old(conn).to_send@ + frame(0x45, execute_body(self.portal@)) + flush());
        Ok((BoundQuery { phase: Phase::Rows }, wire))
    }
}

impl BoundQuery {
    /// Takes the next message of the server. What goes out with the step is a
    /// Sync, behind what was registered to go out first.
    pub fn next(&mut self, conn: &mut Frontend, message: BackendMessage) -> (step: Step)
        ensures
            final(self).phase == turn(old(self).phase, message).0,
            stepped(
                turn(old(self).phase, message).1,
                step,
                old(conn).to_send@ + sync_message(),
            ),
            final(conn).counter == old(conn).counter,
            final(conn).notify == old(conn).notify,
            final(conn).to_send@ == if step is Failed || step is Drain {
                Seq::<u8>::empty()
            } else {
                old(conn).to_send@
            },
    {
        match self.phase {
            Phase::Rows => match message {
                BackendMessage::DataRow(row) => Step::Row(row),
                BackendMessage::ErrorResponse(fields) => {
                    self.phase = Phase::Draining;
                    let error = AnyError::Server(make_err(&fields));
                    Step::Failed { error, send: BoundQuery::sync_wire(conn) }
                },
                BackendMessage::EmptyQueryResponse => {
                    self.phase = Phase::Draining;
                    Step::Drain { send: BoundQuery::sync_wire(conn) }
                },
                BackendMessage::PortalSuspended => {
                    self.phase = Phase::Draining;
                    Step::Drain { send: BoundQuery::sync_wire(conn) }
                },
                BackendMessage::CommandComplete => {
                    self.phase = Phase::Draining;
                    Step::Drain { send: BoundQuery::sync_wire(conn) }
                },
                _ => Step::Skip,
            },
            Phase::Draining => match message {
                BackendMessage::ReadyForQuery => {
                    self.phase = Phase::Done;
                    Step::End
                },
                _ => Step::Skip,
            },
            Phase::Done => Step::End,
        }
    }

    /// A Sync behind what was registered to go out first.
    fn sync_wire(conn: &mut Frontend) -> (wire: Vec<u8>)
        ensures
            wire@ == old(conn).to_send@ + sync_message(),
            final(conn).to_send@ == Seq::<u8>::empty(),
            final(conn).counter == old(conn).counter,
            final(conn).notify == old(conn).notify,
    {
        let mut buf: Vec<u8> = Vec::new();
        sync(&mut buf);
        conn.write_data(buf.as_slice())
    }
}

} // verus!
