//! Prepared statements: parsing and binding, each as the bytes to send and as
//! the reading of the server's answer.

use crate::bindings::BoundStatement;
use crate::codec::Serializable;
use crate::error::{AnyError, AnyErrorView};
use crate::frontend::{
    binary_formats, bind_body, bind_fits, bind_message, flush, name_of, param_wires, parse_body,
    parse_message, push_flush, Frontend, BINARY,
};
use crate::message::{err_text, make_err, BackendMessage};
use crate::wire::{fits, frame, no_nul};
use vstd::prelude::*;
use vstd::utf8::encode_utf8;

verus! {

/// A statement that a connection has parsed, by the name it was given there.
/// It means nothing to another connection.
pub struct Statement {
    pub name: String,
}

impl View for Statement {
    type V = Seq<char>;

    open spec fn view(&self) -> Seq<char> {
        self.name@
    }
}

/// A Parse or a Bind that is on its way: the name that it gives to the
/// statement or the portal, and the bytes to send. The server's next message
/// completes it.
pub struct Pending {
    pub name: String,
    pub wire: Vec<u8>,
}

/// Whether a Parse message can be written.
pub open spec fn parse_fits(name: Seq<char>, query: Seq<char>) -> bool {
    no_nul(encode_utf8(name)) && no_nul(encode_utf8(query)) && fits(parse_body(name, query))
}

/// What the server's answer makes of a Parse or a Bind: its completion
/// succeeds, an error of the server is reported, and no other message has a
/// place here.
pub open spec fn completion(message: BackendMessage, complete: bool) -> Option<AnyErrorView> {
    match message {
        BackendMessage::ErrorResponse(fields) => Some(
            AnyErrorView::Server(err_text(fields.deep_view())),
        ),
        _ => if complete {
            None
        } else {
            Some(AnyErrorView::InvalidMessage)
        },
    }
}

/// The binary format, `count` times.
fn binary(count: usize) -> (formats: Vec<i16>)
    ensures
        formats@ == binary_formats(count as nat),
{
    let mut formats: Vec<i16> = Vec::new();
    let mut i: usize = 0;
    while i < count
        invariant
            i <= count,
            formats@ == binary_formats(i as nat),
        decreases count - i,
    {
        formats.push(BINARY);
        i += 1;
        assert(formats@ =~= binary_formats(i as nat));
    }
    formats
}

impl Statement {
    /// Asks the server to parse `query` under a new name: the Parse message
    /// and a Flush, behind what was registered to go out first. Fails, with
    /// nothing sent, where the message cannot be written.
    pub fn parse(conn: &mut Frontend, query: &str) -> (r: Result<Pending, AnyError>)
        requires
            old(conn).counter < usize::MAX,
        ensures
            final(conn).counter == old(conn).counter + 1,
            final(conn).notify == old(conn).notify,
            r is Ok <==> parse_fits(name_of(final(conn).counter as int), query@),
            r matches Ok(pending) ==> {
                &&& pending.name@ == name_of(final(conn).counter as int)
                &&& pending.wire@ == old(conn).to_send@ + frame(
                    0x50,
                    parse_body(pending.name@, query@),
                ) + flush()
                &&& final(conn).to_send@ == Seq::<u8>::empty()
            },
            r matches Err(e) ==> e@ == AnyErrorView::Encode && final(conn).to_send@ == old(
                conn,
            ).to_send@,
    {
        let name = conn.generate_name();
        let mut buf: Vec<u8> = Vec::new();
        let types: Vec<u32> = Vec::new();
        if !parse_message(name.as_str(), query, types.as_slice(), &mut buf) {
            return Err(AnyError::Encode);
        }
        assert(types@ =~= Seq::<u32>::empty());
        push_flush(&mut buf);
        let wire = conn.write_data(buf.as_slice());
        assert(wire@ =~= old(conn).to_send@ + frame(0x50, parse_body(name@, query@)) + flush());
        Ok(Pending { name, wire })
    }

    /// Reads the server's answer to a Parse: the statement where the server
    /// has parsed it.
    pub fn parse_complete(pending: Pending, message: BackendMessage) -> (r: Result<
        Statement,
        AnyError,
    >)
        ensures
            r is Ok <==> message is ParseComplete,
            r matches Ok(statement) ==> statement.name == pending.name,
            r matches Err(e) ==> Some(e@) == completion(message, false),
    {
        match message {
            BackendMessage::ParseComplete => Ok(Statement { name: pending.name }),
            BackendMessage::ErrorResponse(fields) => Err(AnyError::Server(make_err(&fields))),
            _ => Err(AnyError::InvalidMessage),
        }
    }

    /// Asks the server to bind `params` to the statement under a new portal
    /// name: the Bind message and a Flush, behind what was registered to go
    /// out first. Fails, with nothing sent, where the message cannot be
    /// written.
    pub fn bind(&self, conn: &mut Frontend, params: &[&dyn Serializable]) -> (r: Result<
        Pending,
        AnyError,
    >)
        requires
            old(conn).counter < usize::MAX,
            forall|i: int| 0 <= i < params@.len() ==> (#[trigger] params@[i]).sendable(),
        ensures
            final(conn).counter == old(conn).counter + 1,
            final(conn).notify == old(conn).notify,
            r is Ok <==> bind_fits(
                name_of(final(conn).counter as int),
                self.name@,
                param_wires(params@),
            ),
            r matches Ok(pending) ==> {
                &&& pending.name@ == name_of(final(conn).counter as int)
                &&& pending.wire@ == old(conn).to_send@ + frame(
                    0x42,
                    bind_body(pending.name@, self.name@, param_wires(params@)),
                ) + flush()
                &&& final(conn).to_send@ == Seq::<u8>::empty()
            },
            r matches Err(e) ==> e@ == AnyErrorView::Encode && final(conn).to_send@ == old(
                conn,
            ).to_send@,
    {
        let name = conn.generate_name();
        if params.len() > 0x7fff {
            return Err(AnyError::Encode);
        }
        let formats = binary(params.len());
        let mut results: Vec<i16> = Vec::new();
        results.push(BINARY);
        assert(results@ =~= seq![BINARY]);
        assert(param_wires(params@).len() == params@.len());
        let mut buf: Vec<u8> = Vec::new();
        if !bind_message(
            name.as_str(),
            self.name.as_str(),
            formats.as_slice(),
            params,
            results.as_slice(),
            &mut buf,
        ) {
            return Err(AnyError::Encode);
        }
        push_flush(&mut buf);
        let wire = conn.write_data(buf.as_slice());
        assert(wire@ =~= old(conn).to_send@ + frame(
            0x42,
            bind_body(name@, self.name@, param_wires(params@)),
        ) + flush());
        Ok(Pending { name, wire })
    }

    /// Reads the server's answer to a Bind: the bound statement where the
    /// server has bound it.
    pub fn bind_complete(&self, pending: Pending, message: BackendMessage) -> (r: Result<
        BoundStatement,
        AnyError,
    >)
        ensures
            r is Ok <==> message is BindComplete,
            r matches Ok(bound) ==> bound.portal == pending.name && bound.statement@ == self.name@,
            r matches Err(e) ==> Some(e@) == completion(message, false),
    {
        match message {
            BackendMessage::BindComplete => Ok(
                BoundStatement { statement: self.name.clone(), portal: pending.name },
            ),
            BackendMessage::ErrorResponse(fields) => Err(AnyError::Server(make_err(&fields))),
            _ => Err(AnyError::InvalidMessage),
        }
    }
}

} // verus!
