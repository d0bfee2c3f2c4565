//! How the bytes of a greeting read as text.

use vstd::prelude::*;
use vstd::utf8::{
    decode_utf8, decode_utf8_encode_utf8, encode_utf8, encode_utf8_decode_utf8,
    encode_utf8_valid_utf8, is_ascii_chars_encode_utf8, valid_utf8,
};
use crate::buffer::{greeting, BANG, COMMA, SPACE};

verus! {

/// The greeting as text: the salutation, a comma and a space, the name, a bang.
pub open spec fn greeting_text(salutation: Seq<char>, name: Seq<char>) -> Seq<char> {
    salutation + seq![',', ' '] + name + seq!['!']
}

/// Encoding goes character by character, so two texts laid end to end
/// encode to their encodings laid end to end.
pub proof fn lemma_encode_concat(a: Seq<char>, b: Seq<char>)
    ensures
        encode_utf8(a + b) == encode_utf8(a) + encode_utf8(b),
    decreases a.len(),
{
    if a.len() == 0 {
        assert(a + b =~= b);
    } else {
        assert((a + b).drop_first() =~= a.drop_first() + b);
        lemma_encode_concat(a.drop_first(), b);
    }
}

/// The encoding of a greeting text is the greeting of the encoded parts.
pub proof fn lemma_encode_greeting(salutation: Seq<char>, name: Seq<char>)
    ensures
        encode_utf8(greeting_text(salutation, name)) == greeting(
            encode_utf8(salutation),
            encode_utf8(name),
        ),
{
    let sep = seq![',', ' '];
    let end = seq!['!'];
    lemma_encode_concat(salutation + sep + name, end);
    lemma_encode_concat(salutation + sep, name);
    lemma_encode_concat(salutation, sep);
    is_ascii_chars_encode_utf8(sep);
    is_ascii_chars_encode_utf8(end);
    assert(encode_utf8(sep) =~= seq![COMMA, SPACE]);
    assert(encode_utf8(end) =~= seq![BANG]);
}

/// Where both parts are well-formed UTF-8, so is their greeting, and it
/// decodes to the greeting text of the decoded parts.
pub proof fn lemma_greeting_decodes(salutation: Seq<u8>, name: Seq<u8>)
    requires
        valid_utf8(salutation),
        valid_utf8(name),
    ensures
        valid_utf8(greeting(salutation, name)),
        decode_utf8(greeting(salutation, name)) == greeting_text(
            decode_utf8(salutation),
            decode_utf8(name),
        ),
{
    let text = greeting_text(decode_utf8(salutation), decode_utf8(name));
    lemma_encode_greeting(decode_utf8(salutation), decode_utf8(name));
    decode_utf8_encode_utf8(salutation);
    decode_utf8_encode_utf8(name);
    encode_utf8_valid_utf8(text);
    encode_utf8_decode_utf8(text);
}

} // verus!
