//! The typed codec: values to and from the server's binary format, and the
//! rows that come back.

use crate::error::{AnyError, AnyErrorView};
use crate::wire::{be_i16, be_i32, be_i64, be_i8, be_u32, i16_of, i32_of, i64_of, i8_of};
use vstd::prelude::*;
use vstd::utf8::{decode_utf8, encode_utf8, valid_utf8};

verus! {

/// Whether a value is SQL's NULL.
pub enum IsNull {
    Yes,
    No,
}

/// A value that can be sent as a statement parameter.
pub trait Serializable: Send + Sync {
    /// The binary form of the value; `None` for NULL.
    spec fn wire(&self) -> Option<Seq<u8>>;

    /// Whether the protocol's 32-bit lengths can hold the value.
    spec fn sendable(&self) -> bool;

    /// Appends the binary form to `buf` and says whether the value is NULL.
    fn serialize(&self, buf: &mut Vec<u8>) -> (null: IsNull)
        requires
            self.sendable(),
        ensures
            null is Yes <==> self.wire() is None,
            final(buf)@ == old(buf)@ + field_bytes(self.wire()),
    ;
}

/// The bytes of a field: none for NULL.
pub open spec fn field_bytes(wire: Option<Seq<u8>>) -> Seq<u8> {
    match wire {
        Some(bytes) => bytes,
        None => Seq::empty(),
    }
}

/// A type with object ids in the server's catalogue: one for the type, one for
/// arrays of it.
pub trait HasOid {
    spec fn oid_of() -> u32;

    spec fn array_oid_of() -> u32;

    fn oid() -> (oid: u32)
        ensures
            oid == Self::oid_of(),
    ;

    fn array_oid() -> (oid: u32)
        ensures
            oid == Self::array_oid_of(),
    ;
}

/// A value that can be read from a field of a row.
pub trait Deserializable: Sized {
    /// Whether `buf` is the binary form of a value of this type.
    spec fn readable(buf: Seq<u8>) -> bool;

    /// Whether `value` is what `buf` holds.
    spec fn reads_as(buf: Seq<u8>, value: &Self) -> bool;

    fn deserialize(buf: &[u8]) -> (r: Result<Self, AnyError>)
        ensures
            r is Ok <==> Self::readable(buf@),
            r matches Ok(v) ==> Self::reads_as(buf@, &v),
            r matches Err(e) ==> e@ == AnyErrorView::Decode,
    ;
}

/// `postgres_protocol::types::bool_to_sql`: appends one byte, 1 for true and 0
/// for false.
#[verifier::external_body]
fn bool_to_sql(v: bool, buf: &mut Vec<u8>)
    ensures
        final(buf)@ == old(buf)@.push(if v { 1u8 } else { 0u8 }),
{
    postgres_protocol::types::bool_to_sql(v, buf)
}

/// `postgres_protocol::types::char_to_sql`: appends the one byte of `v`.
#[verifier::external_body]
fn char_to_sql(v: i8, buf: &mut Vec<u8>)
    ensures
        final(buf)@ == old(buf)@ + be_i8(v),
{
    postgres_protocol::types::char_to_sql(v, buf)
}

/// `postgres_protocol::types::int2_to_sql`: appends the two bytes of `v`, most
/// significant first.
#[verifier::external_body]
fn int2_to_sql(v: i16, buf: &mut Vec<u8>)
    ensures
        final(buf)@ == old(buf)@ + be_i16(v),
{
    postgres_protocol::types::int2_to_sql(v, buf)
}

/// `postgres_protocol::types::int4_to_sql`: appends the four bytes of `v`,
/// most significant first.
#[verifier::external_body]
fn int4_to_sql(v: i32, buf: &mut Vec<u8>)
    ensures
        final(buf)@ == old(buf)@ + be_i32(v),
{
    postgres_protocol::types::int4_to_sql(v, buf)
}

/// `postgres_protocol::types::int8_to_sql`: appends the eight bytes of `v`,
/// most significant first.
#[verifier::external_body]
fn int8_to_sql(v: i64, buf: &mut Vec<u8>)
    ensures
        final(buf)@ == old(buf)@ + be_i64(v),
{
    postgres_protocol::types::int8_to_sql(v, buf)
}

/// `postgres_protocol::types::text_to_sql`: appends the UTF-8 bytes of `v`.
#[verifier::external_body]
fn text_to_sql(v: &str, buf: &mut Vec<u8>)
    ensures
        final(buf)@ == old(buf)@ + encode_utf8(v@),
{
    postgres_protocol::types::text_to_sql(v, buf)
}

/// `postgres_protocol::types::bool_from_sql`: reads a field of exactly one
/// byte, true unless the byte is zero.
#[verifier::external_body]
fn bool_from_sql(buf: &[u8]) -> (r: Option<bool>)
    ensures
        r is Some <==> buf@.len() == 1,
        r matches Some(v) ==> v == (buf@[0] != 0),
{
    postgres_protocol::types::bool_from_sql(buf).ok()
}

/// `postgres_protocol::types::char_from_sql`: reads a field of exactly one
/// byte as a signed number.
#[verifier::external_body]
fn char_from_sql(buf: &[u8]) -> (r: Option<i8>)
    ensures
        r is Some <==> buf@.len() == 1,
        r matches Some(v) ==> v == i8_of(buf@),
{
    postgres_protocol::types::char_from_sql(buf).ok()
}

/// `postgres_protocol::types::int2_from_sql`: reads a field of exactly two
/// bytes as a signed number, most significant byte first.
#[verifier::external_body]
fn int2_from_sql(buf: &[u8]) -> (r: Option<i16>)
    ensures
        r is Some <==> buf@.len() == 2,
        r matches Some(v) ==> v == i16_of(buf@),
{
    postgres_protocol::types::int2_from_sql(buf).ok()
}

/// `postgres_protocol::types::int4_from_sql`: reads a field of exactly four
/// bytes as a signed number, most significant byte first.
#[verifier::external_body]
fn int4_from_sql(buf: &[u8]) -> (r: Option<i32>)
    ensures
        r is Some <==> buf@.len() == 4,
        r matches Some(v) ==> v == i32_of(buf@),
{
    postgres_protocol::types::int4_from_sql(buf).ok()
}

/// `postgres_protocol::types::int8_from_sql`: reads a field of exactly eight
/// bytes as a signed number, most significant byte first.
#[verifier::external_body]
fn int8_from_sql(buf: &[u8]) -> (r: Option<i64>)
    ensures
        r is Some <==> buf@.len() == 8,
        r matches Some(v) ==> v == i64_of(buf@),
{
    postgres_protocol::types::int8_from_sql(buf).ok()
}

/// `postgres_protocol::types::text_from_sql`: reads a field as text, which it
/// is where its bytes are valid UTF-8.
#[verifier::external_body]
fn text_from_sql(buf: &[u8]) -> (r: Option<String>)
    ensures
        r is Some <==> valid_utf8(buf@),
        r matches Some(v) ==> v@ == decode_utf8(buf@),
{
    postgres_protocol::types::text_from_sql(buf).ok().map(str::to_string)
}

impl Serializable for bool {
    open spec fn wire(&self) -> Option<Seq<u8>> {
        Some(seq![if *self { 1u8 } else { 0u8 }])
    }

    open spec fn sendable(&self) -> bool {
        true
    }

    fn serialize(&self, buf: &mut Vec<u8>) -> (null: IsNull) {
        bool_to_sql(*self, buf);
        assert(buf@ =~= old(buf)@ + field_bytes(self.wire()));
        IsNull::No
    }
}

impl HasOid for bool {
    open spec fn oid_of() -> u32 {
        16
    }

    open spec fn array_oid_of() -> u32 {
        1000
    }

    fn oid() -> (oid: u32) {
        16
    }

    fn array_oid() -> (oid: u32) {
        1000
    }
}

impl Deserializable for bool {
    open spec fn readable(buf: Seq<u8>) -> bool {
        buf.len() == 1
    }

    open spec fn reads_as(buf: Seq<u8>, value: &Self) -> bool {
        *value == (buf[0] != 0)
    }

    fn deserialize(buf: &[u8]) -> (r: Result<Self, AnyError>) {
        match bool_from_sql(buf) {
            Some(v) => Ok(v),
            None => Err(AnyError::Decode),
        }
    }
}

impl Serializable for i8 {
    open spec fn wire(&self) -> Option<Seq<u8>> {
        Some(be_i8(*self))
    }

    open spec fn sendable(&self) -> bool {
        true
    }

    fn serialize(&self, buf: &mut Vec<u8>) -> (null: IsNull) {
        char_to_sql(*self, buf);
        IsNull::No
    }
}

impl HasOid for i8 {
    open spec fn oid_of() -> u32 {
        18
    }

    open spec fn array_oid_of() -> u32 {
        1002
    }

    fn oid() -> (oid: u32) {
        18
    }

    fn array_oid() -> (oid: u32) {
        1002
    }
}

impl Deserializable for i8 {
    open spec fn readable(buf: Seq<u8>) -> bool {
        buf.len() == 1
    }

    open spec fn reads_as(buf: Seq<u8>, value: &Self) -> bool {
        *value == i8_of(buf)
    }

    fn deserialize(buf: &[u8]) -> (r: Result<Self, AnyError>) {
        match char_from_sql(buf) {
            Some(v) => Ok(v),
            None => Err(AnyError::Decode),
        }
    }
}

impl Serializable for i16 {
    open spec fn wire(&self) -> Option<Seq<u8>> {
        Some(be_i16(*self))
    }

    open spec fn sendable(&self) -> bool {
        true
    }

    fn serialize(&self, buf: &mut Vec<u8>) -> (null: IsNull) {
        int2_to_sql(*self, buf);
        IsNull::No
    }
}

impl HasOid for i16 {
    open spec fn oid_of() -> u32 {
        21
    }

    open spec fn array_oid_of() -> u32 {
        1005
    }

    fn oid() -> (oid: u32) {
        21
    }

    fn array_oid() -> (oid: u32) {
        1005
    }
}

impl Deserializable for i16 {
    open spec fn readable(buf: Seq<u8>) -> bool {
        buf.len() == 2
    }

    open spec fn reads_as(buf: Seq<u8>, value: &Self) -> bool {
        *value == i16_of(buf)
    }

    fn deserialize(buf: &[u8]) -> (r: Result<Self, AnyError>) {
        match int2_from_sql(buf) {
            Some(v) => Ok(v),
            None => Err(AnyError::Decode),
        }
    }
}

impl Serializable for i32 {
    open spec fn wire(&self) -> Option<Seq<u8>> {
        Some(be_i32(*self))
    }

    open spec fn sendable(&self) -> bool {
        true
    }

    fn serialize(&self, buf: &mut Vec<u8>) -> (null: IsNull) {
        int4_to_sql(*self, buf);
        IsNull::No
    }
}

impl HasOid for i32 {
    open spec fn oid_of() -> u32 {
        23
    }

    open spec fn array_oid_of() -> u32 {
        1007
    }

    fn oid() -> (oid: u32) {
        23
    }

    fn array_oid() -> (oid: u32) {
        1007
    }
}

impl Deserializable for i32 {
    open spec fn readable(buf: Seq<u8>) -> bool {
        buf.len() == 4
    }

    open spec fn reads_as(buf: Seq<u8>, value: &Self) -> bool {
        *value == i32_of(buf)
    }

    fn deserialize(buf: &[u8]) -> (r: Result<Self, AnyError>) {
        match int4_from_sql(buf) {
            Some(v) => Ok(v),
            None => Err(AnyError::Decode),
        }
    }
}

impl Serializable for i64 {
    open spec fn wire(&self) -> Option<Seq<u8>> {
        Some(be_i64(*self))
    }

    open spec fn sendable(&self) -> bool {
        true
    }

    fn serialize(&self, buf: &mut Vec<u8>) -> (null: IsNull) {
        int8_to_sql(*self, buf);
        IsNull::No
    }
}

impl HasOid for i64 {
    open spec fn oid_of() -> u32 {
        20
    }

    open spec fn array_oid_of() -> u32 {
        1016
    }

    fn oid() -> (oid: u32) {
        20
    }

    fn array_oid() -> (oid: u32) {
        1016
    }
}

impl Deserializable for i64 {
    open spec fn readable(buf: Seq<u8>) -> bool {
        buf.len() == 8
    }

    open spec fn reads_as(buf: Seq<u8>, value: &Self) -> bool {
        *value == i64_of(buf)
    }

    fn deserialize(buf: &[u8]) -> (r: Result<Self, AnyError>) {
        match int8_from_sql(buf) {
            Some(v) => Ok(v),
            None => Err(AnyError::Decode),
        }
    }
}

impl Serializable for String {
    open spec fn wire(&self) -> Option<Seq<u8>> {
        Some(encode_utf8(self@))
    }

    open spec fn sendable(&self) -> bool {
        true
    }

    fn serialize(&self, buf: &mut Vec<u8>) -> (null: IsNull) {
        text_to_sql(self.as_str(), buf);
        IsNull::No
    }
}

impl HasOid for String {
    open spec fn oid_of() -> u32 {
        25
    }

    open spec fn array_oid_of() -> u32 {
        1009
    }

    fn oid() -> (oid: u32) {
        25
    }

    fn array_oid() -> (oid: u32) {
        1009
    }
}

impl Serializable for str {
    open spec fn wire(&self) -> Option<Seq<u8>> {
        Some(encode_utf8(self@))
    }

    open spec fn sendable(&self) -> bool {
        true
    }

    fn serialize(&self, buf: &mut Vec<u8>) -> (null: IsNull) {
        text_to_sql(self, buf);
        IsNull::No
    }
}

impl HasOid for str {
    open spec fn oid_of() -> u32 {
        25
    }

    open spec fn array_oid_of() -> u32 {
        1009
    }

    fn oid() -> (oid: u32) {
        25
    }

    fn array_oid() -> (oid: u32) {
        1009
    }
}

impl Deserializable for String {
    open spec fn readable(buf: Seq<u8>) -> bool {
        valid_utf8(buf)
    }

    open spec fn reads_as(buf: Seq<u8>, value: &Self) -> bool {
        value@ == decode_utf8(buf)
    }

    fn deserialize(buf: &[u8]) -> (r: Result<Self, AnyError>) {
        match text_from_sql(buf) {
            Some(v) => Ok(v),
            None => Err(AnyError::Decode),
        }
    }
}

impl<T: Serializable> Serializable for Option<T> {
    open spec fn wire(&self) -> Option<Seq<u8>> {
        match self {
            Some(v) => v.wire(),
            None => None,
        }
    }

    open spec fn sendable(&self) -> bool {
        match self {
            Some(v) => v.sendable(),
            None => true,
        }
    }

    fn serialize(&self, buf: &mut Vec<u8>) -> (null: IsNull) {
        match self {
            Some(v) => v.serialize(buf),
            None => {
                assert(buf@ =~= old(buf)@ + field_bytes(self.wire()));
                IsNull::Yes
            },
        }
    }
}

impl<T: HasOid> HasOid for Option<T> {
    open spec fn oid_of() -> u32 {
        T::oid_of()
    }

    open spec fn array_oid_of() -> u32 {
        T::array_oid_of()
    }

    fn oid() -> (oid: u32) {
        T::oid()
    }

    fn array_oid() -> (oid: u32) {
        T::array_oid()
    }
}

/// The binary forms of a list of values.
pub open spec fn wires<T: Serializable>(items: Seq<T>) -> Seq<Option<Seq<u8>>> {
    Seq::new(items.len(), |i: int| items[i].wire())
}

/// A field behind its length; NULL is the length -1 and nothing else.
pub open spec fn nullable(wire: Option<Seq<u8>>) -> Seq<u8> {
    match wire {
        Some(bytes) => be_i32(bytes.len() as i32) + bytes,
        None => be_i32(-1i32),
    }
}

/// Fields one after the other, each behind its length.
pub open spec fn nullables(wires: Seq<Option<Seq<u8>>>) -> Seq<u8>
    decreases wires.len(),
{
    if wires.len() == 0 {
        Seq::empty()
    } else {
        nullables(wires.drop_last()) + nullable(wires.last())
    }
}

/// Whether one of the fields is NULL.
pub open spec fn any_null(wires: Seq<Option<Seq<u8>>>) -> bool {
    exists|i: int| 0 <= i < wires.len() && (#[trigger] wires[i]) is None
}

/// An array of one dimension: the number of dimensions, a flag for NULLs,
/// the element type, the length and the lower bound of the dimension, then
/// the elements, each behind its length.
pub open spec fn array_body(len: i32, lower_bound: i32, oid: u32, wires: Seq<Option<Seq<u8>>>) -> Seq<u8> {
    be_i32(1i32) + be_i32(if any_null(wires) { 1i32 } else { 0i32 }) + be_u32(oid) + be_i32(len)
        + be_i32(lower_bound) + nullables(wires)
}

/// An array as this library sends it: one dimension of the number of its
/// elements, with lower bound 0.
pub open spec fn array_wire(oid: u32, wires: Seq<Option<Seq<u8>>>) -> Seq<u8> {
    array_body(wires.len() as i32, 0i32, oid, wires)
}

/// Whether an array can be sent: its length and that of each element fit in
/// 32 bits.
pub open spec fn array_sendable<T: Serializable>(items: Seq<T>) -> bool {
    &&& items.len() <= i32::MAX
    &&& forall|i: int|
        0 <= i < items.len() ==> (#[trigger] items[i]).sendable() && field_bytes(
            items[i].wire(),
        ).len() <= i32::MAX
}

/// `postgres_protocol::types::array_to_sql` with one dimension: appends the
/// number of dimensions (1), the NULL flag, the element type `oid`, the
/// dimension's `len` and `lower_bound`, then each element behind its length,
/// -1 standing for NULL. The outside function fails where an element is
/// longer than 32 bits can say; those inputs are left out.
#[verifier::external_body]
fn array_to_sql<T: Serializable>(len: i32, lower_bound: i32, oid: u32, items: &[T], buf: &mut Vec<u8>)
    requires
        array_sendable(items@),
    ensures
        final(buf)@ == old(buf)@ + array_body(len, lower_bound, oid, wires(items@)),
{
    let dimension = postgres_protocol::types::ArrayDimension { len, lower_bound };
    let write = |item: &T, buf: &mut Vec<u8>| Ok(match item.serialize(buf) {
        IsNull::Yes => postgres_protocol::IsNull::Yes,
        IsNull::No => postgres_protocol::IsNull::No,
    });
    postgres_protocol::types::array_to_sql(Some(dimension), oid, items, write, buf).unwrap()
}

impl<T: HasOid + Serializable> Serializable for [T] {
    open spec fn wire(&self) -> Option<Seq<u8>> {
        Some(array_wire(T::oid_of(), wires(self@)))
    }

    open spec fn sendable(&self) -> bool {
        array_sendable(self@)
    }

    fn serialize(&self, buf: &mut Vec<u8>) -> (null: IsNull) {
        array_to_sql(self.len() as i32, 0, T::oid(), self, buf);
        IsNull::No
    }
}

impl<T: HasOid + Serializable> Serializable for Vec<T> {
    open spec fn wire(&self) -> Option<Seq<u8>> {
        Some(array_wire(T::oid_of(), wires(self@)))
    }

    open spec fn sendable(&self) -> bool {
        array_sendable(self@)
    }

    fn serialize(&self, buf: &mut Vec<u8>) -> (null: IsNull) {
        array_to_sql(self.len() as i32, 0, T::oid(), self.as_slice(), buf);
        IsNull::No
    }
}

impl<T: Serializable> Serializable for &T {
    open spec fn wire(&self) -> Option<Seq<u8>> {
        (**self).wire()
    }

    open spec fn sendable(&self) -> bool {
        (**self).sendable()
    }

    fn serialize(&self, buf: &mut Vec<u8>) -> (null: IsNull) {
        (**self).serialize(buf)
    }
}

impl<T: HasOid> HasOid for &T {
    open spec fn oid_of() -> u32 {
        T::oid_of()
    }

    open spec fn array_oid_of() -> u32 {
        T::array_oid_of()
    }

    fn oid() -> (oid: u32) {
        T::oid()
    }

    fn array_oid() -> (oid: u32) {
        T::array_oid()
    }
}

/// A row of a result: its fields in the server's binary format, `None` where
/// the server sent NULL.
pub struct Row {
    pub fields: Vec<Option<Vec<u8>>>,
}

/// The bytes of a field.
pub open spec fn field_view(field: Option<Vec<u8>>) -> Option<Seq<u8>> {
    match field {
        Some(bytes) => Some(bytes@),
        None => None,
    }
}

impl View for Row {
    type V = Seq<Option<Seq<u8>>>;

    open spec fn view(&self) -> Seq<Option<Seq<u8>>> {
        Seq::new(self.fields@.len(), |i: int| field_view(self.fields@[i]))
    }
}

impl DeepView for Row {
    type V = Seq<Option<Seq<u8>>>;

    open spec fn deep_view(&self) -> Seq<Option<Seq<u8>>> {
        self@
    }
}

/// Whether column `i` of a row can be read as a `T` or as NULL.
pub open spec fn column_ok<T: Deserializable>(row: Seq<Option<Seq<u8>>>, i: int) -> bool {
    0 <= i < row.len() && (row[i] matches Some(bytes) ==> T::readable(bytes))
}

/// Whether column `i` of a row holds a `T`, not NULL.
pub open spec fn column_set<T: Deserializable>(row: Seq<Option<Seq<u8>>>, i: int) -> bool {
    column_ok::<T>(row, i) && row[i] is Some
}

impl Row {
    /// The value in column `i`: `None` for NULL. Fails where the row has no
    /// such column or the field is not the binary form of a `T`.
    pub fn get<T: Deserializable>(&self, i: usize) -> (r: Result<Option<T>, AnyError>)
        ensures
            r is Ok <==> column_ok::<T>(self@, i as int),
            r matches Ok(value) ==> (value is None <==> self@[i as int] is None),
            r matches Ok(Some(v)) ==> T::reads_as(self@[i as int]->0, &v),
            r matches Err(e) ==> e@ == AnyErrorView::Decode,
    {
        if i >= self.fields.len() {
            return Err(AnyError::Decode);
        }
        match &self.fields[i] {
            None => Ok(None),
            Some(bytes) => match T::deserialize(bytes.as_slice()) {
                Ok(v) => Ok(Some(v)),
                Err(e) => Err(e),
            },
        }
    }
}

} // verus!
