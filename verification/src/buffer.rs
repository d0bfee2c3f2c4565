//! The shared buffer, its three fields, and the bounded copy between them.

use vstd::arithmetic::div_mod::{lemma_mod_sub_multiples_vanish, lemma_small_mod};
use vstd::prelude::*;

verus! {

/// Total capacity of the shared buffer, in bytes.
pub const MEMORY_BUFFER_SIZE: usize = 128;

/// Offset of the salutation field.
pub const SALUT_OFFSET: usize = 0;

/// Offset of the name field.
pub const NAME_OFFSET: usize = 16;

/// Offset of the message field.
pub const MSG_OFFSET: usize = 32;

/// Bytes the salutation field can hold before it runs into the name field.
pub const SALUT_CAPACITY: usize = NAME_OFFSET - SALUT_OFFSET;

/// Bytes the name field can hold before it runs into the message field.
pub const NAME_CAPACITY: usize = MSG_OFFSET - NAME_OFFSET;

/// Bytes the message field can hold before the buffer ends.
pub const MSG_CAPACITY: usize = MEMORY_BUFFER_SIZE - MSG_OFFSET;

/// The byte of a space.
pub const SPACE: u8 = 32;

/// The byte of an exclamation mark.
pub const BANG: u8 = 33;

/// The byte of a comma.
pub const COMMA: u8 = 44;

/// The one piece of state: a byte array of fixed length, so its storage is
/// never resized. The host writes the two input fields and reads the message
/// field; any bytes are a valid content.
pub struct SharedBuffer {
    pub bytes: [u8; MEMORY_BUFFER_SIZE],
}

impl View for SharedBuffer {
    type V = Seq<u8>;

    open spec fn view(&self) -> Seq<u8> {
        self.bytes@
    }
}

impl SharedBuffer {
    /// A buffer of zero bytes.
    pub fn new() -> (buf: SharedBuffer)
        ensures
            buf@ == Seq::new(MEMORY_BUFFER_SIZE as nat, |i: int| 0u8),
    {
        SharedBuffer { bytes: [0u8; MEMORY_BUFFER_SIZE] }
    }
}

/// The `len` bytes of `mem` that start at `offset`.
pub open spec fn field(mem: Seq<u8>, offset: int, len: int) -> Seq<u8> {
    mem.subrange(offset, offset + len)
}

/// The lengths that keep each input inside its field and the greeting inside
/// the message field.
pub open spec fn valid_lengths(sal_len: int, name_len: int) -> bool {
    &&& 0 <= sal_len <= SALUT_CAPACITY
    &&& 0 <= name_len <= NAME_CAPACITY
    &&& sal_len + 2 + name_len + 1 <= MSG_CAPACITY
}

/// Tells whether the two lengths keep each input inside its field and the
/// greeting inside the message field.
pub fn lengths_fit(sal_len: i32, name_len: i32) -> (fit: bool)
    ensures
        fit == valid_lengths(sal_len as int, name_len as int),
{
    0 <= sal_len && sal_len <= SALUT_CAPACITY as i32 && 0 <= name_len && name_len
        <= NAME_CAPACITY as i32 && sal_len + 2 + name_len + 1 <= MSG_CAPACITY as i32
}

/// The greeting: the salutation, a comma and a space, the name, a bang.
pub open spec fn greeting(salutation: Seq<u8>, name: Seq<u8>) -> Seq<u8> {
    salutation + seq![COMMA, SPACE] + name + seq![BANG]
}

/// The greeting made of the two input fields of `mem`.
pub open spec fn greeting_of(mem: Seq<u8>, sal_len: int, name_len: int) -> Seq<u8> {
    greeting(field(mem, SALUT_OFFSET as int, sal_len), field(mem, NAME_OFFSET as int, name_len))
}

/// The buffer after a greeting was composed in `mem`: the greeting stands at
/// the start of the message field, every other byte is as before.
pub open spec fn composed(mem: Seq<u8>, sal_len: int, name_len: int) -> Seq<u8> {
    let msg = greeting_of(mem, sal_len, name_len);
    mem.subrange(0, MSG_OFFSET as int) + msg + mem.subrange(
        MSG_OFFSET + msg.len(),
        mem.len() as int,
    )
}

/// The offset a forward copy from `from` to `to` reads for place `i` of the
/// target. Where the target starts inside the source, the copy overwrites
/// source bytes before it reads them, so the `to - from` bytes in front of
/// the target repeat through it.
pub open spec fn source_offset(to: int, from: int, i: int) -> int {
    if from < to {
        from + i % (to - from)
    } else {
        from + i
    }
}

/// What a copy of `len` bytes from offset `from` to offset `to`, lowest
/// offset first, leaves in `mem`.
pub open spec fn copied(mem: Seq<u8>, to: int, from: int, len: int) -> Seq<u8> {
    Seq::new(
        mem.len(),
        |j: int|
            if to <= j < to + len {
                mem[source_offset(to, from, j - to)]
            } else {
                mem[j]
            },
    )
}

/// Copies `len` bytes of the buffer from offset `from` to offset `to`, lowest
/// offset first. Both ranges lie inside the buffer.
pub fn copy_bytes(buf: &mut SharedBuffer, to: usize, from: usize, len: i32)
    requires
        0 <= len,
        from + len <= MEMORY_BUFFER_SIZE,
        to + len <= MEMORY_BUFFER_SIZE,
    ensures
        final(buf)@ == copied(old(buf)@, to as int, from as int, len as int),
{
    let n: usize = len as usize;
    let mut idx: usize = 0;
    while idx < n
        invariant
            idx <= n,
            from + n <= MEMORY_BUFFER_SIZE,
            to + n <= MEMORY_BUFFER_SIZE,
            buf@ == copied(old(buf)@, to as int, from as int, idx as int),
        decreases n - idx,
    {
        proof {
            lemma_copied_next(old(buf)@, to as int, from as int, idx as int);
        }
        let byte: u8 = buf.bytes[from + idx];
        buf.bytes[to + idx] = byte;
        idx += 1;
    }
}

/// One more byte copied: the byte read at `from + len` is the one that
/// `source_offset` names, whether or not the copy has written there before.
proof fn lemma_copied_next(mem: Seq<u8>, to: int, from: int, len: int)
    requires
        0 <= len,
        0 <= from,
        0 <= to,
        from + len < mem.len(),
        to + len < mem.len(),
    ensures
        copied(mem, to, from, len + 1) == copied(mem, to, from, len).update(
            to + len,
            copied(mem, to, from, len)[from + len],
        ),
{
    let so_far = copied(mem, to, from, len);
    if from < to {
        let gap = to - from;
        if len < gap {
            lemma_small_mod(len as nat, gap as nat);
        } else {
            lemma_mod_sub_multiples_vanish(len, gap);
        }
    }
    assert(copied(mem, to, from, len + 1) =~= so_far.update(to + len, so_far[from + len]));
}

/// Where no source byte is overwritten before it is read, the target ends up
/// with the bytes that the source held, and nothing else changes.
pub proof fn lemma_copied_apart(mem: Seq<u8>, to: int, from: int, len: int)
    requires
        0 <= len,
        0 <= from,
        0 <= to,
        from + len <= mem.len(),
        to + len <= mem.len(),
        to <= from || from + len <= to,
    ensures
        copied(mem, to, from, len) == mem.subrange(0, to) + field(mem, from, len) + mem.subrange(
            to + len,
            mem.len() as int,
        ),
{
    let target = mem.subrange(0, to) + field(mem, from, len) + mem.subrange(
        to + len,
        mem.len() as int,
    );
    assert forall|j: int| 0 <= j < mem.len() implies copied(mem, to, from, len)[j] == target[j] by {
        if to <= j < to + len && from < to {
            lemma_small_mod((j - to) as nat, (to - from) as nat);
        }
    }
    assert(copied(mem, to, from, len) =~= target);
}

/// Composing never resizes the buffer: every address that lay inside it
/// before still does, and the three fields stay where they were.
pub proof fn lemma_composed_keeps_length(mem: Seq<u8>, sal_len: int, name_len: int)
    requires
        mem.len() == MEMORY_BUFFER_SIZE,
        valid_lengths(sal_len, name_len),
    ensures
        composed(mem, sal_len, name_len).len() == mem.len(),
        SALUT_OFFSET + SALUT_CAPACITY <= composed(mem, sal_len, name_len).len(),
        NAME_OFFSET + NAME_CAPACITY <= composed(mem, sal_len, name_len).len(),
        MSG_OFFSET + MSG_CAPACITY <= composed(mem, sal_len, name_len).len(),
{
}

/// Composing leaves both input fields as they were.
pub proof fn lemma_composed_keeps_inputs(mem: Seq<u8>, sal_len: int, name_len: int)
    requires
        mem.len() == MEMORY_BUFFER_SIZE,
        valid_lengths(sal_len, name_len),
    ensures
        field(composed(mem, sal_len, name_len), SALUT_OFFSET as int, sal_len) == field(
            mem,
            SALUT_OFFSET as int,
            sal_len,
        ),
        field(composed(mem, sal_len, name_len), NAME_OFFSET as int, name_len) == field(
            mem,
            NAME_OFFSET as int,
            name_len,
        ),
{
}

/// The message depends on the input fields alone: two buffers whose input
/// fields hold the same bytes get the same message, whatever else they hold.
pub proof fn lemma_same_inputs_same_message(
    first: Seq<u8>,
    second: Seq<u8>,
    sal_len: int,
    name_len: int,
)
    requires
        first.len() == MEMORY_BUFFER_SIZE,
        second.len() == MEMORY_BUFFER_SIZE,
        valid_lengths(sal_len, name_len),
        field(first, SALUT_OFFSET as int, sal_len) == field(second, SALUT_OFFSET as int, sal_len),
        field(first, NAME_OFFSET as int, name_len) == field(second, NAME_OFFSET as int, name_len),
    ensures
        field(composed(first, sal_len, name_len), MSG_OFFSET as int, sal_len + 2 + name_len + 1)
            == field(
            composed(second, sal_len, name_len),
            MSG_OFFSET as int,
            sal_len + 2 + name_len + 1,
        ),
{
}

/// Composing a second time with the same lengths changes nothing.
pub proof fn lemma_composed_idempotent(mem: Seq<u8>, sal_len: int, name_len: int)
    requires
        mem.len() == MEMORY_BUFFER_SIZE,
        valid_lengths(sal_len, name_len),
    ensures
        composed(composed(mem, sal_len, name_len), sal_len, name_len) == composed(
            mem,
            sal_len,
            name_len,
        ),
{
    lemma_composed_keeps_length(mem, sal_len, name_len);
    lemma_composed_keeps_inputs(mem, sal_len, name_len);
}

} // verus!
