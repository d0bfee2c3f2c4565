//! Composing through an intermediate `String`: the greeting is formatted into
//! a fresh allocation and its bytes are then copied into the message field.
//! The buffer ends up exactly as with the in-place variant, but the
//! allocation may make the module's memory grow under a host that holds
//! addresses into it. Prefer [`crate::no_growth`].

use vstd::prelude::*;
use vstd::string::StringSliceAdditionalSpecFns;
use vstd::utf8::valid_utf8;
use crate::buffer::{
    composed, field, greeting_of, valid_lengths, SharedBuffer, MEMORY_BUFFER_SIZE, MSG_OFFSET,
    NAME_OFFSET, SALUT_OFFSET,
};
use crate::text::{greeting_text, lemma_encode_greeting};

verus! {

/// The error of `core::str::from_utf8`, passed through as an opaque value.
#[verifier::external_type_specification]
#[verifier::external_body]
pub struct ExUtf8Error(core::str::Utf8Error);

/// `core::str::from_utf8` succeeds exactly on well-formed UTF-8, and the
/// string slice it returns is made of the bytes it was given.
pub assume_specification<'a>[ core::str::from_utf8 ](v: &'a [u8]) -> (res: Result<
    &'a str,
    core::str::Utf8Error,
>)
    ensures
        res is Ok <==> valid_utf8(v@),
        res matches Ok(s) ==> s.spec_bytes() == v@,
;

/// `format!` with two `{}` places, each filled by a string slice: the result
/// is the first slice, a comma and a space, the second slice and a bang.
#[verifier::external_body]
fn format_greeting(sal: &str, name: &str) -> (greeting: String)
    ensures
        greeting@ == greeting_text(sal@, name@),
{
    format!("{}, {}!", sal, name)
}

/// Address of the salutation field, as an offset from the buffer's start.
pub fn get_salutation_ptr() -> (addr: usize)
    ensures
        addr == SALUT_OFFSET,
{
    SALUT_OFFSET
}

/// Address of the name field, as an offset from the buffer's start.
pub fn get_name_ptr() -> (addr: usize)
    ensures
        addr == NAME_OFFSET,
{
    NAME_OFFSET
}

/// Address of the message field, as an offset from the buffer's start.
pub fn get_msg_ptr() -> (addr: usize)
    ensures
        addr == MSG_OFFSET,
{
    MSG_OFFSET
}

/// Writes the greeting into the message field and returns its length.
/// Both input fields hold well-formed UTF-8.
pub fn set_name(buf: &mut SharedBuffer, sal_len: i32, name_len: i32) -> (total: i32)
    requires
        valid_lengths(sal_len as int, name_len as int),
        valid_utf8(field(old(buf)@, SALUT_OFFSET as int, sal_len as int)),
        valid_utf8(field(old(buf)@, NAME_OFFSET as int, name_len as int)),
    ensures
        total == sal_len + 2 + name_len + 1,
        field(final(buf)@, MSG_OFFSET as int, total as int) == greeting_of(
            old(buf)@,
            sal_len as int,
            name_len as int,
        ),
        final(buf)@ == composed(old(buf)@, sal_len as int, name_len as int),
{
    let sal: &str = str_from_buffer(buf, SALUT_OFFSET, sal_len as usize);
    let name: &str = str_from_buffer(buf, NAME_OFFSET, name_len as usize);

    let greeting: String = format_greeting(sal, name);
    let bytes: &[u8] = greeting.as_str().as_bytes();
    proof {
        lemma_encode_greeting(sal@, name@);
    }

    let mut idx: usize = 0;
    while idx < bytes.len()
        invariant
            idx <= bytes.len(),
            bytes.len() <= MEMORY_BUFFER_SIZE - MSG_OFFSET,
            buf@ == old(buf)@.subrange(0, MSG_OFFSET as int) + bytes@.subrange(0, idx as int)
                + old(buf)@.subrange(MSG_OFFSET + idx, MEMORY_BUFFER_SIZE as int),
        decreases bytes.len() - idx,
    {
        buf.bytes[MSG_OFFSET + idx] = bytes[idx];
        idx += 1;
    }

    greeting.as_str().len() as i32
}

/// The text held in `len` bytes of the buffer from offset `from` on.
fn str_from_buffer(buf: &SharedBuffer, from: usize, len: usize) -> (text: &str)
    requires
        from + len <= MEMORY_BUFFER_SIZE,
        valid_utf8(field(buf@, from as int, len as int)),
    ensures
        text.spec_bytes() == field(buf@, from as int, len as int),
{
    std::str::from_utf8(&buf.bytes[from..(from + len)]).unwrap()
}

} // verus!
