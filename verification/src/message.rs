//! The messages of the server, as far as the client reads them.

use crate::codec::Row;
use vstd::prelude::*;
use vstd::string::StringExecFns;

verus! {

/// A field of an error or a notice: the code of the field and its value.
pub struct ErrorField {
    pub code: u8,
    pub value: String,
}

pub struct ErrorFieldView {
    pub code: u8,
    pub value: Seq<char>,
}

impl DeepView for ErrorField {
    type V = ErrorFieldView;

    open spec fn deep_view(&self) -> ErrorFieldView {
        ErrorFieldView { code: self.code, value: self.value@ }
    }
}

/// A message of the server. A variant holds what the client reads of the
/// message, which for most is nothing but its kind.
pub enum BackendMessage {
    AuthenticationCleartextPassword,
    AuthenticationGss,
    AuthenticationKerberosV5,
    AuthenticationMd5Password { salt: [u8; 4] },
    AuthenticationOk,
    AuthenticationScmCredential,
    AuthenticationSspi,
    AuthenticationGssContinue,
    AuthenticationSasl,
    AuthenticationSaslContinue,
    AuthenticationSaslFinal,
    BackendKeyData { process_id: i32, secret_key: i32 },
    BindComplete,
    CloseComplete,
    CommandComplete,
    CopyData,
    CopyDone,
    CopyInResponse,
    CopyOutResponse,
    DataRow(Row),
    EmptyQueryResponse,
    ErrorResponse(Vec<ErrorField>),
    NoData,
    NoticeResponse,
    NotificationResponse,
    ParameterDescription,
    ParameterStatus { name: String, value: String },
    ParseComplete,
    PortalSuspended,
    ReadyForQuery,
    RowDescription,
}

/// What `{:?}` writes for a string: the string between double quotes, with
/// the characters escaped that a string literal cannot hold as they are.
pub uninterp spec fn debug_text(s: Seq<char>) -> Seq<char>;

/// std's `Debug` for `str`, through `format!`.
#[verifier::external_body]
fn debug_string(s: &str) -> (r: String)
    ensures
        r@ == debug_text(s@),
{
    format!("{:?}", s)
}

/// std's `String::push`: appends one character.
#[verifier::external_body]
fn push_char(s: &mut String, c: char)
    ensures
        final(s)@ == old(s)@.push(c),
{
    s.push(c)
}

/// How one field is reported: its code, its value as `{:?}` writes it, a
/// space.
pub open spec fn field_text(field: ErrorFieldView) -> Seq<char> {
    seq![field.code as char] + debug_text(field.value) + seq![' ']
}

/// How an error of the server is reported: field after field.
pub open spec fn err_text(fields: Seq<ErrorFieldView>) -> Seq<char>
    decreases fields.len(),
{
    if fields.len() == 0 {
        Seq::empty()
    } else {
        err_text(fields.drop_last()) + field_text(fields.last())
    }
}

/// How one field that was already written as `{:?}` writes it is reported.
pub open spec fn shown_field_text(code: u8, shown: Seq<char>) -> Seq<char> {
    seq![code as char] + shown + seq![' ']
}

/// Appends a field to the report of an error, given the value as `{:?}`
/// writes it.
pub fn push_field(text: &mut String, code: u8, shown: &str)
    ensures
        final(text)@ == old(text)@ + shown_field_text(code, shown@),
{
    push_char(text, code as char);
    text.append(shown);
    push_char(text, ' ');
    assert(text@ =~= old(text)@ + shown_field_text(code, shown@));
}

/// The text that reports an error of the server.
pub fn make_err(errs: &Vec<ErrorField>) -> (err: String)
    ensures
        err@ == err_text(errs.deep_view()),
{
    let ghost view = errs.deep_view();
    let mut err = String::new();
    let mut i: usize = 0;
    assert(view.take(0) =~= Seq::<ErrorFieldView>::empty());
    while i < errs.len()
        invariant
            i <= errs.len(),
            view == errs.deep_view(),
            err@ == err_text(view.take(i as int)),
        decreases errs.len() - i,
    {
        let ghost next = view.take(i + 1);
        assert(next.drop_last() == view.take(i as int));
        assert(next.last() == errs@[i as int].deep_view());
        let shown = debug_string(errs[i].value.as_str());
        push_field(&mut err, errs[i].code, shown.as_str());
        i += 1;
    }
    assert(view.take(i as int) == view);
    err
}

} // verus!
