//! Composing in place: bytes move between positions of the buffer and
//! nothing is allocated on the way.

use vstd::prelude::*;
use crate::buffer::{
    composed, copy_bytes, field, greeting_of, lemma_copied_apart, valid_lengths, SharedBuffer,
    BANG, COMMA, MSG_OFFSET, NAME_OFFSET, SALUT_OFFSET, SPACE,
};

verus! {

/// Address of the salutation field, as an offset from the buffer's start.
pub fn get_salutation_ptr() -> (addr: usize)
    ensures
        addr == SALUT_OFFSET,
{
    SALUT_OFFSET
}

/// Address of the name field, as an offset from the buffer's start.
pub fn get_name_ptr() -> (addr: usize)
    ensures
        addr == NAME_OFFSET,
{
    NAME_OFFSET
}

/// Address of the message field, as an offset from the buffer's start.
pub fn get_msg_ptr() -> (addr: usize)
    ensures
        addr == MSG_OFFSET,
{
    MSG_OFFSET
}

/// Writes the greeting into the message field and returns its length.
pub fn set_name(buf: &mut SharedBuffer, sal_len: i32, name_len: i32) -> (total: i32)
    requires
        valid_lengths(sal_len as int, name_len as int),
    ensures
        total == sal_len + 2 + name_len + 1,
        field(final(buf)@, MSG_OFFSET as int, total as int) == greeting_of(
            old(buf)@,
            sal_len as int,
            name_len as int,
        ),
        final(buf)@ == composed(old(buf)@, sal_len as int, name_len as int),
{
    let mut idx: usize;

    proof {
        lemma_copied_apart(buf@, MSG_OFFSET as int, SALUT_OFFSET as int, sal_len as int);
    }
    copy_bytes(buf, MSG_OFFSET, SALUT_OFFSET, sal_len);
    idx = MSG_OFFSET + sal_len as usize;

    buf.bytes[idx] = COMMA;
    idx += 1;
    buf.bytes[idx] = SPACE;
    idx += 1;

    proof {
        lemma_copied_apart(buf@, idx as int, NAME_OFFSET as int, name_len as int);
    }
    copy_bytes(buf, idx, NAME_OFFSET, name_len);
    idx += name_len as usize;

    buf.bytes[idx] = BANG;
    idx += 1;

    (idx - MSG_OFFSET) as i32
}

} // verus!
