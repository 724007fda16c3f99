use crate::header::Counters;
use crate::region::Region;
use std::rc::Rc;
use std::string::FromUtf8Error;
use std::sync::Arc;
use vstd::prelude::*;
use vstd::utf8::{decode_utf8, encode_utf8, valid_utf8};

verus! {

#[verifier::external_type_specification]
#[verifier::external_body]
pub struct ExFromUtf8Error(FromUtf8Error);

/// `Rc::from` on a vector: the slice behind the new handle holds the vector's
/// elements in their order.
#[verifier::external_body]
fn rc_slice_from_vec<E>(items: Vec<E>) -> (rc: Rc<[E]>)
    ensures
        rc@ == items@,
{
    Rc::from(items)
}

/// `Arc::from` on a vector: the slice behind the new handle holds the vector's
/// elements in their order.
#[verifier::external_body]
fn arc_slice_from_vec<E>(items: Vec<E>) -> (arc: Arc<[E]>)
    ensures
        arc@ == items@,
{
    Arc::from(items)
}

/// `String::from_utf8`: it succeeds on the bytes that are valid UTF-8, and on no
/// others, and the string it gives is made of those bytes.
#[verifier::external_body]
fn string_from_utf8(bytes: Vec<u8>) -> (text: Result<String, FromUtf8Error>)
    ensures
        text is Ok <==> valid_utf8(bytes@),
        text matches Ok(string) ==> encode_utf8(string@) == bytes@,
{
    String::from_utf8(bytes)
}

/// `Rc::from` on a string: the text behind the new handle is the string's.
#[verifier::external_body]
fn rc_str_from_string(text: String) -> (rc: Rc<str>)
    ensures
        rc@ == text@,
{
    Rc::from(text)
}

/// `Arc::from` on a string: the text behind the new handle is the string's.
#[verifier::external_body]
fn arc_str_from_string(text: String) -> (arc: Arc<str>)
    ensures
        arc@ == text@,
{
    Arc::from(text)
}

/// The string that is made of `bytes`.
fn text_of(bytes: Vec<u8>) -> (text: String)
    requires
        valid_utf8(bytes@),
    ensures
        text@ == decode_utf8(bytes@),
{
    broadcast use vstd::utf8::encode_utf8_decode_utf8;

    match string_from_utf8(bytes) {
        Ok(text) => text,
        Err(_) => vstd::pervasive::unreached(),
    }
}

impl<E> Region<E> {
    /// Hands a sealed allocation with plain counters over to a handle for one
    /// thread. The handle's slice is the payload.
    pub fn into_rc_slice(self) -> (rc: Rc<[E]>)
        requires
            self.wf(),
            self@.sealed(),
            self@.counters == Counters::Plain,
        ensures
            rc@ == self@.payload,
    {
        rc_slice_from_vec(self.into_payload())
    }

    /// Hands a sealed allocation with atomic counters over to a handle that
    /// threads may share. The handle's slice is the payload.
    pub fn into_arc_slice(self) -> (arc: Arc<[E]>)
        requires
            self.wf(),
            self@.sealed(),
            self@.counters == Counters::Atomic,
        ensures
            arc@ == self@.payload,
    {
        arc_slice_from_vec(self.into_payload())
    }
}

impl Region<u8> {
    /// Hands a sealed allocation with plain counters, whose payload is UTF-8, over
    /// to a handle for one thread. The handle's text is what the payload encodes.
    pub fn into_rc_str(self) -> (rc: Rc<str>)
        requires
            self.wf(),
            self@.sealed(),
            self@.counters == Counters::Plain,
            valid_utf8(self@.payload),
        ensures
            rc@ == decode_utf8(self@.payload),
    {
        rc_str_from_string(text_of(self.into_payload()))
    }

    /// Hands a sealed allocation with atomic counters, whose payload is UTF-8,
    /// over to a handle that threads may share. The handle's text is what the
    /// payload encodes.
    pub fn into_arc_str(self) -> (arc: Arc<str>)
        requires
            self.wf(),
            self@.sealed(),
            self@.counters == Counters::Atomic,
            valid_utf8(self@.payload),
        ensures
            arc@ == decode_utf8(self@.payload),
    {
        arc_str_from_string(text_of(self.into_payload()))
    }
}

} // verus!
