//! The client's side of a connection, without the stream: the names it gives
//! out, the bytes that wait to be sent, and the messages it writes.

use crate::codec::{field_bytes, nullables, IsNull, Serializable};
use crate::message::BackendMessage;
use crate::text::{decimal, usize_to_string};
use crate::wire::{be_i16, be_i32, be_u32, cstr, fits, frame, no_nul, sized};
use vstd::prelude::*;
use vstd::string::StringExecFns;
use vstd::utf8::encode_utf8;

verus! {

/// The message that asks the server to send what it has.
pub open spec fn flush() -> Seq<u8> {
    frame(0x48, Seq::empty())
}

/// The message that ends a series of requests.
pub open spec fn sync_message() -> Seq<u8> {
    frame(0x53, Seq::empty())
}

/// Names and values, each ended by a zero byte, one after the other.
pub open spec fn pairs(parameters: Seq<(Seq<char>, Seq<char>)>) -> Seq<u8>
    decreases parameters.len(),
{
    if parameters.len() == 0 {
        Seq::empty()
    } else {
        pairs(parameters.drop_last()) + cstr(encode_utf8(parameters.last().0)) + cstr(
            encode_utf8(parameters.last().1),
        )
    }
}

/// The body of the startup message: protocol version 3.0, the parameters, a
/// zero byte.
pub open spec fn startup_body(parameters: Seq<(Seq<char>, Seq<char>)>) -> Seq<u8> {
    be_i32(196608i32) + pairs(parameters) + seq![0u8]
}

/// Whether no name and no value holds a zero byte.
pub open spec fn pairs_clean(parameters: Seq<(Seq<char>, Seq<char>)>) -> bool {
    forall|i: int|
        0 <= i < parameters.len() ==> no_nul(encode_utf8((#[trigger] parameters[i]).0)) && no_nul(
            encode_utf8(parameters[i].1),
        )
}

/// Object ids one after the other, four bytes each.
pub open spec fn oid_list(types: Seq<u32>) -> Seq<u8>
    decreases types.len(),
{
    if types.len() == 0 {
        Seq::empty()
    } else {
        oid_list(types.drop_last()) + be_u32(types.last())
    }
}

/// Format codes one after the other, two bytes each.
pub open spec fn format_list(formats: Seq<i16>) -> Seq<u8>
    decreases formats.len(),
{
    if formats.len() == 0 {
        Seq::empty()
    } else {
        format_list(formats.drop_last()) + be_i16(formats.last())
    }
}

/// The body of a Parse message: the name, the query, and the types of the
/// parameters behind their number.
pub open spec fn parse_body_of(name: Seq<char>, query: Seq<char>, types: Seq<u32>) -> Seq<u8> {
    cstr(encode_utf8(name)) + cstr(encode_utf8(query)) + be_i16(types.len() as i16) + oid_list(
        types,
    )
}

/// The body of a Parse message as this library sends it: without parameter
/// types, which the server then infers.
pub open spec fn parse_body(name: Seq<char>, query: Seq<char>) -> Seq<u8> {
    parse_body_of(name, query, Seq::empty())
}

/// The format code of the binary format.
pub const BINARY: i16 = 1;

/// The binary format, `count` times.
pub open spec fn binary_formats(count: nat) -> Seq<i16> {
    Seq::new(count, |i: int| BINARY)
}

/// The body of a Bind message: portal, statement, the formats of the
/// parameters behind their number, the parameters behind theirs, each behind
/// its length, and the formats of the results behind their number.
pub open spec fn bind_body_of(
    portal: Seq<char>,
    statement: Seq<char>,
    formats: Seq<i16>,
    wires: Seq<Option<Seq<u8>>>,
    results: Seq<i16>,
) -> Seq<u8> {
    cstr(encode_utf8(portal)) + cstr(encode_utf8(statement)) + be_i16(formats.len() as i16)
        + format_list(formats) + be_i16(wires.len() as i16) + nullables(wires) + be_i16(
        results.len() as i16,
    ) + format_list(results)
}

/// The body of a Bind message as this library sends it: the binary format
/// for each parameter, and the binary format for all results.
pub open spec fn bind_body(portal: Seq<char>, statement: Seq<char>, wires: Seq<Option<Seq<u8>>>) -> Seq<u8> {
    bind_body_of(portal, statement, binary_formats(wires.len()), wires, seq![BINARY])
}

/// Whether a Bind message can be written: no zero byte in the names, a
/// number of parameters that 15 bits hold, parameters whose lengths 31 bits
/// hold, and a body whose length they hold.
pub open spec fn bind_fits(portal: Seq<char>, statement: Seq<char>, wires: Seq<Option<Seq<u8>>>) -> bool {
    &&& no_nul(encode_utf8(portal))
    &&& no_nul(encode_utf8(statement))
    &&& wires.len() <= i16::MAX
    &&& forall|i: int| 0 <= i < wires.len() ==> field_bytes(#[trigger] wires[i]).len() <= i32::MAX
    &&& fits(bind_body(portal, statement, wires))
}

/// The body of an Execute message that asks for all rows.
pub open spec fn execute_body(portal: Seq<char>) -> Seq<u8> {
    cstr(encode_utf8(portal)) + be_i32(0i32)
}

/// The binary forms of a list of parameters.
pub open spec fn param_wires(params: Seq<&dyn Serializable>) -> Seq<Option<Seq<u8>>> {
    Seq::new(params.len(), |i: int| params[i].wire())
}

/// `postgres_protocol::message::frontend::startup_message`: appends the
/// length, the protocol version 196608, each name and value with a zero byte
/// behind it, and a last zero byte. It fails where a name or a value holds a
/// zero byte or the length does not fit in 31 bits; nothing is said of `buf`
/// then.
#[verifier::external_body]
pub(crate) fn startup_message(parameters: &Vec<(String, String)>, buf: &mut Vec<u8>) -> (ok: bool)
    ensures
        ok == (pairs_clean(parameters.deep_view()) && fits(startup_body(parameters.deep_view()))),
        ok ==> final(buf)@ == old(buf)@ + sized(startup_body(parameters.deep_view())),
{
    let pairs = parameters.iter().map(|p| (p.0.as_str(), p.1.as_str()));
    postgres_protocol::message::frontend::startup_message(pairs, buf).is_ok()
}

/// `postgres_protocol::message::frontend::password_message`: appends `p`, the
/// length, the password and a zero byte. It fails where the password holds a
/// zero byte or the length does not fit in 31 bits; nothing is said of `buf`
/// then.
#[verifier::external_body]
pub(crate) fn password_message(password: &[u8], buf: &mut Vec<u8>) -> (ok: bool)
    ensures
        ok == (no_nul(password@) && fits(cstr(password@))),
        ok ==> final(buf)@ == old(buf)@ + frame(0x70, cstr(password@)),
{
    postgres_protocol::message::frontend::password_message(password, buf).is_ok()
}

/// `postgres_protocol::message::frontend::parse`: appends `P`, the length,
/// the name and the query, each with a zero byte behind it, the number of
/// parameter types and the types. It fails where the name or the query holds
/// a zero byte, there are more types than 15 bits count, or the length does
/// not fit in 31 bits; nothing is said of `buf` then.
#[verifier::external_body]
pub(crate) fn parse_message(name: &str, query: &str, types: &[u32], buf: &mut Vec<u8>) -> (ok: bool)
    ensures
        ok == (no_nul(encode_utf8(name@)) && no_nul(encode_utf8(query@)) && types@.len()
            <= i16::MAX && fits(parse_body_of(name@, query@, types@))),
        ok ==> final(buf)@ == old(buf)@ + frame(0x50, parse_body_of(name@, query@, types@)),
{
    postgres_protocol::message::frontend::parse(name, query, types.iter().copied(), buf).is_ok()
}

/// Whether a Bind message with these formats can be written: no zero byte
/// in the names, no more formats, parameters or result formats than 15 bits
/// count, parameters whose lengths 31 bits hold, and a body whose length
/// they hold.
pub open spec fn bind_fits_of(
    portal: Seq<char>,
    statement: Seq<char>,
    formats: Seq<i16>,
    wires: Seq<Option<Seq<u8>>>,
    results: Seq<i16>,
) -> bool {
    &&& no_nul(encode_utf8(portal))
    &&& no_nul(encode_utf8(statement))
    &&& formats.len() <= i16::MAX
    &&& wires.len() <= i16::MAX
    &&& results.len() <= i16::MAX
    &&& forall|i: int| 0 <= i < wires.len() ==> field_bytes(#[trigger] wires[i]).len() <= i32::MAX
    &&& fits(bind_body_of(portal, statement, formats, wires, results))
}

/// `postgres_protocol::message::frontend::bind`: appends `B`, the length, the
/// portal and the statement, each with a zero byte behind it, the parameter
/// formats behind their number, the parameters behind theirs, each behind
/// its length with -1 for NULL, and the result formats behind their number.
/// It fails where a name holds a zero byte, one of the three lists is
/// longer than 15 bits count, or a length does not fit in 31 bits; nothing is
/// said of `buf` then.
#[verifier::external_body]
pub(crate) fn bind_message(
    portal: &str,
    statement: &str,
    formats: &[i16],
    params: &[&dyn Serializable],
    results: &[i16],
    buf: &mut Vec<u8>,
) -> (ok: bool)
    requires
        forall|i: int| 0 <= i < params@.len() ==> (#[trigger] params@[i]).sendable(),
    ensures
        ok == bind_fits_of(portal@, statement@, formats@, param_wires(params@), results@),
        ok ==> final(buf)@ == old(buf)@ + frame(
            0x42,
            bind_body_of(portal@, statement@, formats@, param_wires(params@), results@),
        ),
{
    let write = |p: &&dyn Serializable, b: &mut Vec<u8>| Ok(match p.serialize(b) {
        IsNull::Yes => postgres_protocol::IsNull::Yes,
        IsNull::No => postgres_protocol::IsNull::No,
    });
    let (formats, results) = (formats.iter().copied(), results.iter().copied());
    postgres_protocol::message::frontend::bind(portal, statement, formats, params, write, results, buf).is_ok()
}

/// `postgres_protocol::message::frontend::execute`: appends `E`, the
/// length, the portal with a zero byte behind it, and the greatest number of
/// rows to return, 0 standing for all. It fails where the portal holds a zero
/// byte or the length does not fit in 31 bits; nothing is said of `buf` then.
#[verifier::external_body]
pub(crate) fn execute_message(portal: &str, max_rows: i32, buf: &mut Vec<u8>) -> (ok: bool)
    ensures
        ok == (no_nul(encode_utf8(portal@)) && fits(cstr(encode_utf8(portal@)) + be_i32(max_rows))),
        ok ==> final(buf)@ == old(buf)@ + frame(
            0x45,
            cstr(encode_utf8(portal@)) + be_i32(max_rows),
        ),
{
    postgres_protocol::message::frontend::execute(portal, max_rows, buf).is_ok()
}

/// `postgres_protocol::message::frontend::sync`: appends `S` and the length
/// 4.
#[verifier::external_body]
pub(crate) fn sync(buf: &mut Vec<u8>)
    ensures
        final(buf)@ == old(buf)@ + sync_message(),
{
    postgres_protocol::message::frontend::sync(buf)
}

/// Appends the Flush message.
pub(crate) fn push_flush(buf: &mut Vec<u8>)
    ensures
        final(buf)@ == old(buf)@ + flush(),
{
    buf.push(0x48);
    buf.push(0);
    buf.push(0);
    buf.push(0);
    buf.push(4);
    proof {
        crate::wire::lemma_be_i32_of_4();
        assert(buf@ =~= old(buf)@ + flush());
    }
}

/// What to do with what the read buffer gave.
pub enum ReadStep {
    /// A message for whoever reads.
    Deliver(BackendMessage),
    /// A notification for the sink; reading goes on.
    Forward(BackendMessage),
    /// The buffer holds no whole message: more bytes are needed.
    Fill,
}

/// The client's side of a connection.
pub struct Frontend {
    /// What was registered to go out before the next write.
    pub to_send: Vec<u8>,
    /// How many names were given out.
    pub counter: usize,
    /// Whether a sink takes the notifications.
    pub notify: bool,
}

/// The names that are given out: `s`, the number, `s`.
pub open spec fn name_of(counter: int) -> Seq<char> {
    "s"@ + decimal(counter) + "s"@
}

impl Frontend {
    /// The client's side of a new connection.
    pub fn new(notify: bool) -> (frontend: Frontend)
        ensures
            frontend.to_send@ == Seq::<u8>::empty(),
            frontend.counter == 0,
            frontend.notify == notify,
    {
        Frontend { to_send: Vec::new(), counter: 0, notify }
    }

    /// Registers bytes to go out before those of the next write.
    pub fn register_next(&mut self, msg: &[u8])
        ensures
            final(self).to_send@ == old(self).to_send@ + msg@,
            final(self).counter == old(self).counter,
            final(self).notify == old(self).notify,
    {
        let mut i: usize = 0;
        while i < msg.len()
            invariant
                i <= msg.len(),
                self.to_send@ == old(self).to_send@ + msg@.take(i as int),
                self.counter == old(self).counter,
                self.notify == old(self).notify,
            decreases msg.len() - i,
        {
            self.to_send.push(msg[i]);
            assert(self.to_send@ =~= old(self).to_send@ + msg@.take(i + 1));
            i += 1;
        }
        assert(msg@.take(i as int) == msg@);
    }

    /// A name that this connection has not given out before.
    pub fn generate_name(&mut self) -> (name: String)
        requires
            old(self).counter < usize::MAX,
        ensures
            final(self).counter == old(self).counter + 1,
            final(self).to_send == old(self).to_send,
            final(self).notify == old(self).notify,
            name@ == name_of(final(self).counter as int),
    {
        self.counter += 1;
        let mut name = String::from_str("s");
        name.append(usize_to_string(self.counter).as_str());
        name.append("s");
        name
    }

    /// What goes out for a write of `buf`: what was registered, then `buf`.
    /// Nothing stays registered.
    pub fn write_data(&mut self, buf: &[u8]) -> (wire: Vec<u8>)
        ensures
            wire@ == old(self).to_send@ + buf@,
            final(self).to_send@ == Seq::<u8>::empty(),
            final(self).counter == old(self).counter,
            final(self).notify == old(self).notify,
    {
        let mut wire: Vec<u8> = Vec::new();
        let mut i: usize = 0;
        while i < self.to_send.len()
            invariant
                i <= self.to_send.len(),
                wire@ == self.to_send@.take(i as int),
                *self == *old(self),
            decreases self.to_send.len() - i,
        {
            wire.push(self.to_send[i]);
            assert(wire@ =~= self.to_send@.take(i + 1));
            i += 1;
        }
        assert(self.to_send@.take(i as int) == self.to_send@);
        let mut k: usize = 0;
        while k < buf.len()
            invariant
                k <= buf.len(),
                wire@ == self.to_send@ + buf@.take(k as int),
                *self == *old(self),
            decreases buf.len() - k,
        {
            wire.push(buf[k]);
            assert(wire@ =~= self.to_send@ + buf@.take(k + 1));
            k += 1;
        }
        assert(buf@.take(k as int) == buf@);
        self.to_send = Vec::new();
        wire
    }

    /// What to do with what the read buffer gave: more bytes are needed where
    /// it gave no message; a notification goes to the sink, if there is one,
    /// and reading goes on; every other message is for whoever reads.
    pub fn read_message(&self, parsed: Option<BackendMessage>) -> (step: ReadStep)
        ensures
            step == match parsed {
                None => ReadStep::Fill,
                Some(message) => if message is NotificationResponse && self.notify {
                    ReadStep::Forward(message)
                } else {
                    ReadStep::Deliver(message)
                },
            },
    {
        match parsed {
            None => ReadStep::Fill,
            Some(message) => {
                let notification = match &message {
                    BackendMessage::NotificationResponse => true,
                    _ => false,
                };
                if notification && self.notify {
                    ReadStep::Forward(message)
                } else {
                    ReadStep::Deliver(message)
                }
            },
        }
    }
}

} // verus!
