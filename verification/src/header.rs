//! The grammar of header names and values, over characters and bytes.

use vstd::prelude::*;

verus! {

/// The longest header name, in characters, that the transport accepts.
pub const MAX_NAME_LEN: usize = 65535;

/// The number of headers that the transport's map is sure to hold: while it
/// holds fewer, it takes one more.
pub const ASSURED_HEADERS: usize = 6554;

/// A character that may stand in a header name: a letter, a digit, or one of
/// ``! # $ % & ' * + - . ^ _ ` | ~``.
pub open spec fn is_token_char(c: char) -> bool {
    let n = c as u32;
    ||| 0x61 <= n <= 0x7a
    ||| 0x41 <= n <= 0x5a
    ||| 0x30 <= n <= 0x39
    ||| c == '!'
    ||| c == '#'
    ||| c == '$'
    ||| c == '%'
    ||| c == '&'
    ||| c == '\''
    ||| c == '*'
    ||| c == '+'
    ||| c == '-'
    ||| c == '.'
    ||| c == '^'
    ||| c == '_'
    ||| c == '`'
    ||| c == '|'
    ||| c == '~'
}

/// A header name is well formed when it is a non-empty token of bounded length.
pub open spec fn valid_header_name(name: Seq<char>) -> bool {
    &&& 1 <= name.len() <= MAX_NAME_LEN
    &&& forall|i: int| 0 <= i < name.len() ==> is_token_char(#[trigger] name[i])
}

/// An upper-case letter becomes its lower-case form; any other character stays.
pub open spec fn lower_char(c: char) -> char {
    if 0x41 <= c as u32 <= 0x5a {
        ((c as u32) + 0x20) as char
    } else {
        c
    }
}

/// The form in which the transport keeps a header name: every letter in lower case.
pub open spec fn lowered(name: Seq<char>) -> Seq<char> {
    Seq::new(name.len(), |i: int| lower_char(name[i]))
}

/// Putting a name in lower case twice is putting it in lower case once.
pub proof fn lemma_lowered_twice(name: Seq<char>)
    ensures
        lowered(lowered(name)) == lowered(name),
{
    assert(lowered(lowered(name)) =~= lowered(name));
}

/// A character that may stand in a header value: a tab, or anything from the
/// space upwards except the delete character.
pub open spec fn is_value_char(c: char) -> bool {
    ||| c == '\t'
    ||| (0x20 <= c as u32 && c as u32 != 0x7f)
}

/// A header value is well formed when each of its characters may stand in one.
pub open spec fn valid_header_value(value: Seq<char>) -> bool {
    forall|i: int| 0 <= i < value.len() ==> is_value_char(#[trigger] value[i])
}

/// A byte that reads as text: a tab or a printable ASCII character.
pub open spec fn is_visible_byte(b: u8) -> bool {
    ||| b == 0x09
    ||| 0x20 <= b < 0x7f
}

/// A received header value can be decoded when all of its bytes read as text.
pub open spec fn is_text(bytes: Seq<u8>) -> bool {
    forall|i: int| 0 <= i < bytes.len() ==> is_visible_byte(#[trigger] bytes[i])
}

/// The text of a decodable header value: each byte as the character it encodes.
pub open spec fn text_of(bytes: Seq<u8>) -> Seq<char> {
    Seq::new(bytes.len(), |i: int| bytes[i] as char)
}

} // verus!
