//! The startup of a connection: authentication, then the parameters that the
//! server reports, until it is ready for queries.

use crate::error::{AnyError, AnyErrorView};
use crate::frontend::{pairs_clean, password_message, startup_body, startup_message};
use crate::message::{err_text, make_err, BackendMessage};
use crate::wire::{cstr, fits, frame, no_nul, sized};
use vstd::prelude::*;
use vstd::string::StringExecFns;
use vstd::utf8::encode_utf8;

verus! {

/// The answer to an MD5 password request: `md5`, then the hexadecimal digits
/// of the MD5 digest of the salt behind the hexadecimal digits of the MD5
/// digest of the user name behind the password.
pub uninterp spec fn md5_password(username: Seq<u8>, password: Seq<u8>, salt: Seq<u8>) -> Seq<char>;

/// `postgres_protocol::authentication::md5_hash`: the answer to an MD5
/// password request, which is `md5` and 32 hexadecimal digits: 35 bytes, none
/// of them zero.
#[verifier::external_body]
fn md5_hash(username: &[u8], password: &[u8], salt: [u8; 4]) -> (hash: String)
    ensures
        hash@ == md5_password(username@, password@, salt@),
        encode_utf8(hash@).len() == 35,
        no_nul(encode_utf8(hash@)),
{
    postgres_protocol::authentication::md5_hash(username, password, salt)
}

/// Who asks for the connection.
pub struct Authentication {
    pub username: String,
    pub password: String,
}

/// What follows a message during authentication.
pub enum Reply {
    /// The server accepts the client.
    Accepted,
    /// The client answers with these bytes, and authentication goes on.
    Answer(Seq<u8>),
    /// Authentication fails.
    Failed(AnyErrorView),
}

/// What follows `message` during the authentication of `auth`: the server's
/// approval ends it; a request for the password is answered with the
/// password, a request for the MD5 password with the digest; every other
/// method is not supported; an error of the server is reported; no other
/// message has a place here.
pub open spec fn auth_reply(auth: Authentication, message: BackendMessage) -> Reply {
    match message {
        BackendMessage::AuthenticationOk => Reply::Accepted,
        BackendMessage::AuthenticationCleartextPassword => {
            let password = encode_utf8(auth.password@);
            if no_nul(password) && fits(cstr(password)) {
                Reply::Answer(frame(0x70, cstr(password)))
            } else {
                Reply::Failed(AnyErrorView::Encode)
            }
        },
        BackendMessage::AuthenticationMd5Password { salt } => Reply::Answer(
            frame(
                0x70,
                cstr(
                    encode_utf8(
                        md5_password(
                            encode_utf8(auth.username@),
                            encode_utf8(auth.password@),
                            salt@,
                        ),
                    ),
                ),
            ),
        ),
        BackendMessage::AuthenticationKerberosV5
        | BackendMessage::AuthenticationScmCredential
        | BackendMessage::AuthenticationGss
        | BackendMessage::AuthenticationGssContinue
        | BackendMessage::AuthenticationSspi
        | BackendMessage::AuthenticationSasl
        | BackendMessage::AuthenticationSaslContinue
        | BackendMessage::AuthenticationSaslFinal => Reply::Failed(
            AnyErrorView::UnsupportedAuthentication,
        ),
        BackendMessage::ErrorResponse(fields) => Reply::Failed(
            AnyErrorView::Server(err_text(fields.deep_view())),
        ),
        _ => Reply::Failed(AnyErrorView::UnexpectedMessage),
    }
}

/// Whether what `on_message` did is what `reply` asks for.
pub open spec fn replied(reply: Reply, r: Result<bool, AnyError>, before: Seq<u8>, after: Seq<u8>) -> bool {
    match reply {
        Reply::Accepted => r == Ok::<bool, AnyError>(true) && after == before,
        Reply::Answer(bytes) => r == Ok::<bool, AnyError>(false) && after == before + bytes,
        Reply::Failed(error) => r matches Err(e) && e@ == error && after == before,
    }
}

/// Appends the password message for `password` to `buf`, if there is one.
pub fn password_reply(password: &[u8], buf: &mut Vec<u8>) -> (r: Result<bool, AnyError>)
    ensures
        replied(
            if no_nul(password@) && fits(cstr(password@)) {
                Reply::Answer(frame(0x70, cstr(password@)))
            } else {
                Reply::Failed(AnyErrorView::Encode)
            },
            r,
            old(buf)@,
            final(buf)@,
        ),
{
    let mut message: Vec<u8> = Vec::new();
    if !password_message(password, &mut message) {
        return Err(AnyError::Encode);
    }
    buf.append(&mut message);
    Ok(false)
}

impl Authentication {
    /// Takes a message of the server during authentication. Says whether the
    /// server has accepted the client, and appends the client's answer to
    /// `buf`.
    pub fn on_message(&mut self, message: BackendMessage, buf: &mut Vec<u8>) -> (r: Result<
        bool,
        AnyError,
    >)
        ensures
            *final(self) == *old(self),
            replied(auth_reply(*old(self), message), r, old(buf)@, final(buf)@),
            message is AuthenticationMd5Password ==> final(buf)@.len() == old(buf)@.len() + 41,
    {
        match message {
            BackendMessage::AuthenticationOk => Ok(true),
            BackendMessage::AuthenticationCleartextPassword => password_reply(
                self.password.as_str().as_bytes(),
                buf,
            ),
            BackendMessage::AuthenticationMd5Password { salt } => {
                let hash = md5_hash(
                    self.username.as_str().as_bytes(),
                    self.password.as_str().as_bytes(),
                    salt,
                );
                proof {
                    crate::wire::lemma_i32_round_trip(40i32);
                }
                password_reply(hash.as_str().as_bytes(), buf)
            },
            BackendMessage::AuthenticationKerberosV5 => Err(AnyError::UnsupportedAuthentication),
            BackendMessage::AuthenticationScmCredential => Err(
                AnyError::UnsupportedAuthentication,
            ),
            BackendMessage::AuthenticationGss => Err(AnyError::UnsupportedAuthentication),
            BackendMessage::AuthenticationGssContinue => Err(AnyError::UnsupportedAuthentication),
            BackendMessage::AuthenticationSspi => Err(AnyError::UnsupportedAuthentication),
            BackendMessage::AuthenticationSasl => Err(AnyError::UnsupportedAuthentication),
            BackendMessage::AuthenticationSaslContinue => Err(AnyError::UnsupportedAuthentication),
            BackendMessage::AuthenticationSaslFinal => Err(AnyError::UnsupportedAuthentication),
            BackendMessage::ErrorResponse(fields) => Err(AnyError::Server(make_err(&fields))),
            _ => Err(AnyError::UnexpectedMessage),
        }
    }
}

/// What the server reports of itself before it is ready.
pub struct Initialization {
    /// The process and the secret key that a cancel request names.
    pub key_data: Option<(i32, i32)>,
    /// The parameters, in the order of their arrival. Where a name arrived
    /// more than once its value is the one that arrived last: see
    /// `parameter`.
    pub parameters: Vec<(String, String)>,
}

/// The value of `name` among `parameters`: that of the last entry with the
/// name.
pub open spec fn value_of(parameters: Seq<(Seq<char>, Seq<char>)>, name: Seq<char>) -> Option<
    Seq<char>,
>
    decreases parameters.len(),
{
    if parameters.len() == 0 {
        None
    } else if parameters.last().0 == name {
        Some(parameters.last().1)
    } else {
        value_of(parameters.drop_last(), name)
    }
}

/// A value that arrives for a name replaces the value that the name had, and
/// leaves the values of all other names as they were.
pub proof fn lemma_later_value_replaces(
    parameters: Seq<(Seq<char>, Seq<char>)>,
    name: Seq<char>,
    value: Seq<char>,
    other: Seq<char>,
)
    ensures
        value_of(parameters.push((name, value)), name) == Some(value),
        other != name ==> value_of(parameters.push((name, value)), other) == value_of(
            parameters,
            other,
        ),
{
    assert(parameters.push((name, value)).drop_last() =~= parameters);
}

/// What initialization holds after `message`.
pub open spec fn init_next(init: Initialization, message: BackendMessage, next: Initialization) -> bool {
    match message {
        BackendMessage::BackendKeyData { process_id, secret_key } => next.key_data == Some(
            (process_id, secret_key),
        ) && next.parameters.deep_view() == init.parameters.deep_view(),
        BackendMessage::ParameterStatus { name, value } => next.key_data == init.key_data
            && next.parameters.deep_view() == init.parameters.deep_view().push((name@, value@)),
        _ => next.key_data == init.key_data && next.parameters.deep_view()
            == init.parameters.deep_view(),
    }
}

/// What `on_message` answers during initialization: the key data, a
/// parameter and a notice leave the server not ready; its readiness ends the
/// startup; an error of the server is reported; no other message has a place
/// here.
pub open spec fn init_reply(message: BackendMessage) -> Result<bool, AnyErrorView> {
    match message {
        BackendMessage::BackendKeyData { .. } => Ok(false),
        BackendMessage::ParameterStatus { .. } => Ok(false),
        BackendMessage::NoticeResponse => Ok(false),
        BackendMessage::ReadyForQuery => Ok(true),
        BackendMessage::ErrorResponse(fields) => Err(
            AnyErrorView::Server(err_text(fields.deep_view())),
        ),
        _ => Err(AnyErrorView::UnexpectedMessage),
    }
}

/// Whether `r` is the answer `reply`.
pub open spec fn answered(reply: Result<bool, AnyErrorView>, r: Result<bool, AnyError>) -> bool {
    match reply {
        Ok(done) => r == Ok::<bool, AnyError>(done),
        Err(error) => r matches Err(e) && e@ == error,
    }
}

impl Initialization {
    /// The value that the server reported last for `name`, if it reported
    /// one.
    pub fn parameter(&self, name: &str) -> (value: Option<&String>)
        ensures
            value is Some <==> value_of(self.parameters.deep_view(), name@) is Some,
            value matches Some(v) ==> Some(v@) == value_of(self.parameters.deep_view(), name@),
    {
        let ghost all = self.parameters.deep_view();
        let want = String::from_str(name);
        let mut i: usize = self.parameters.len();
        assert(all.take(i as int) =~= all);
        while i > 0
            invariant
                i <= self.parameters.len(),
                all == self.parameters.deep_view(),
                want@ == name@,
                value_of(all, name@) == value_of(all.take(i as int), name@),
            decreases i,
        {
            let ghost front = all.take(i as int);
            assert(front.drop_last() =~= all.take(i - 1));
            assert(front.last() == all[i - 1]);
            assert(all[i - 1] == (self.parameters@[i - 1].0@, self.parameters@[i - 1].1@));
            i -= 1;
            if self.parameters[i].0 == want {
                assert(front.last().0 == name@);
                return Some(&self.parameters[i].1);
            }
            assert(front.last().0 != name@);
        }
        None
    }

    /// Takes a message of the server after authentication. Says whether the
    /// server is ready. Nothing is appended to the buffer.
    pub fn on_message(&mut self, message: BackendMessage, buf: &mut Vec<u8>) -> (r: Result<
        bool,
        AnyError,
    >)
        ensures
            init_next(*old(self), message, *final(self)),
            answered(init_reply(message), r),
            final(buf)@ == old(buf)@,
    {
        match message {
            BackendMessage::BackendKeyData { process_id, secret_key } => {
                self.key_data = Some((process_id, secret_key));
                Ok(false)
            },
            BackendMessage::ParameterStatus { name, value } => {
                let ghost before = self.parameters.deep_view();
                self.parameters.push((name, value));
                assert(self.parameters.deep_view() =~= before.push((name@, value@)));
                Ok(false)
            },
            BackendMessage::ErrorResponse(fields) => Err(AnyError::Server(make_err(&fields))),
            BackendMessage::NoticeResponse => Ok(false),
            BackendMessage::ReadyForQuery => Ok(true),
            _ => Err(AnyError::UnexpectedMessage),
        }
    }
}

/// Where the startup of a connection stands.
pub enum InitializationState {
    Authenticating(Authentication),
    Initializing(Initialization),
}

/// Whether `next` is the start of initialization.
pub open spec fn fresh(next: InitializationState) -> bool {
    next matches InitializationState::Initializing(init) && init.key_data is None
        && init.parameters.deep_view() == Seq::<(Seq<char>, Seq<char>)>::empty()
}

impl InitializationState {
    /// Takes a message of the server during startup, and says whether the
    /// startup is over. While the client authenticates, the answer goes to
    /// `buf`, and the server's approval starts initialization; after that,
    /// the server's readiness ends the startup.
    pub fn on_message(&mut self, message: BackendMessage, buf: &mut Vec<u8>) -> (r: Result<
        bool,
        AnyError,
    >)
        ensures
            match *old(self) {
                InitializationState::Authenticating(auth) => match auth_reply(auth, message) {
                    Reply::Accepted => fresh(*final(self)) && r == Ok::<bool, AnyError>(false)
                        && final(buf)@ == old(buf)@,
                    reply => *final(self) == *old(self) && replied(
                        reply,
                        r,
                        old(buf)@,
                        final(buf)@,
                    ),
                },
                InitializationState::Initializing(init) => {
                    &&& *final(self) matches InitializationState::Initializing(next)
                    &&& init_next(init, message, next)
                    &&& answered(init_reply(message), r)
                    &&& final(buf)@ == old(buf)@
                },
            },
            *old(self) is Authenticating && message is AuthenticationMd5Password
                ==> final(buf)@.len() == old(buf)@.len() + 41,
    {
        match self {
            InitializationState::Authenticating(auth) => {
                match auth.on_message(message, buf) {
                    Ok(true) => {
                        let init = Initialization { key_data: None, parameters: Vec::new() };
                        assert(init.parameters.deep_view() =~= Seq::<
                            (Seq<char>, Seq<char>),
                        >::empty());
                        *self = InitializationState::Initializing(init);
                        Ok(false)
                    },
                    other => other,
                }
            },
            InitializationState::Initializing(init) => init.on_message(message, buf),
        }
    }
}

/// The parameters of the startup message.
pub open spec fn startup_parameters(database: Seq<char>, username: Seq<char>) -> Seq<
    (Seq<char>, Seq<char>),
> {
    seq![("user"@, username), ("database"@, database)]
}

/// Starts a connection: the startup message to send, and the state that
/// takes the server's answers. Fails where a name holds a zero byte.
pub fn connect(database: String, username: String, password: String) -> (r: Result<
    (InitializationState, Vec<u8>),
    AnyError,
>)
    ensures
        r is Ok <==> pairs_clean(startup_parameters(database@, username@)) && fits(
            startup_body(startup_parameters(database@, username@)),
        ),
        r matches Ok(start) ==> {
            &&& start.0 matches InitializationState::Authenticating(auth)
            &&& auth.username@ == username@
            &&& auth.password@ == password@
            &&& start.1@ == sized(startup_body(startup_parameters(database@, username@)))
        },
        r matches Err(e) ==> e@ == AnyErrorView::Encode,
{
    let mut parameters: Vec<(String, String)> = Vec::new();
    parameters.push((String::from_str("user"), username.clone()));
    parameters.push((String::from_str("database"), database));
    assert(parameters.deep_view() =~= startup_parameters(database@, username@));
    let mut buf: Vec<u8> = Vec::new();
    if !startup_message(&parameters, &mut buf) {
        return Err(AnyError::Encode);
    }
    Ok((InitializationState::Authenticating(Authentication { username, password }), buf))
}

} // verus!
