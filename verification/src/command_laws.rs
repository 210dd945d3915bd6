//! What holds of recovery commands and the bytes that carry them.

use vstd::prelude::*;
use vstd::utf8::*;

verus! {

/// The bytes of a character that is not ASCII are not ASCII either, and an
/// ASCII character is its own byte.
proof fn lemma_scalar_bytes(c: char, byte: u8)
    requires
        byte < 0x80,
    ensures
        encode_scalar(c as u32).contains(byte) <==> c == byte as char,
{
    let v = c as u32;
    let bytes = encode_scalar(v);
    if has_width_1_encoding(v) {
        assert(v <= 0x7f ==> (v & 0x7f) as u8 as u32 == v) by (bit_vector);
        assert(bytes[0] as u32 == v);
    } else {
        assert(0xC0 | ((v >> 6) & 0x1F) as u8 >= 0x80) by (bit_vector);
        assert(0xE0 | ((v >> 12) & 0x0F) as u8 >= 0x80) by (bit_vector);
        assert(0xF0 | ((v >> 18) & 0x7) as u8 >= 0x80) by (bit_vector);
        assert(0x80 | (v & 0x3F) as u8 >= 0x80) by (bit_vector);
        assert(0x80 | ((v >> 6) & 0x3F) as u8 >= 0x80) by (bit_vector);
        assert(0x80 | ((v >> 12) & 0x3F) as u8 >= 0x80) by (bit_vector);
        assert forall|i: int| 0 <= i < bytes.len() implies bytes[i] >= 0x80 by {
            if has_width_2_encoding(v) {
            } else if has_width_3_encoding(v) {
            } else {
            }
        }
    }
}

/// An ASCII byte stands in the encoding of a text exactly where the text
/// holds the ASCII character.
pub proof fn law_ascii_bytes_are_characters(text: Seq<char>, byte: u8)
    requires
        byte < 0x80,
    ensures
        encode_utf8(text).contains(byte) <==> text.contains(byte as char),
    decreases text.len(),
{
    if text.len() > 0 {
        let head = encode_scalar(text[0] as u32);
        let tail = encode_utf8(text.drop_first());
        law_ascii_bytes_are_characters(text.drop_first(), byte);
        lemma_scalar_bytes(text[0], byte);
        if head.contains(byte) {
            let i = choose|i: int| 0 <= i < head.len() && head[i] == byte;
            assert(encode_utf8(text)[i] == byte);
        }
        if tail.contains(byte) {
            let i = choose|i: int| 0 <= i < tail.len() && tail[i] == byte;
            assert(encode_utf8(text)[head.len() + i] == byte);
            let k = choose|k: int|
                0 <= k < text.drop_first().len() && text.drop_first()[k] == byte as char;
            assert(text[k + 1] == byte as char);
        }
        if encode_utf8(text).contains(byte) {
            let i = choose|i: int|
                0 <= i < encode_utf8(text).len() && encode_utf8(text)[i] == byte;
            if i < head.len() {
                assert(head[i] == byte);
            } else {
                assert(tail[i - head.len()] == byte);
            }
        }
        if text.contains(byte as char) {
            let k = choose|k: int| 0 <= k < text.len() && text[k] == byte as char;
            if k > 0 {
                assert(text.drop_first()[k - 1] == byte as char);
            }
        }
    }
}

/// The encoding of two texts put together.
proof fn lemma_encode_concat(a: Seq<char>, b: Seq<char>)
    ensures
        encode_utf8(a + b) == encode_utf8(a) + encode_utf8(b),
    decreases a.len(),
{
    if a.len() == 0 {
        assert(a + b =~= b);
        assert(encode_utf8(a) + encode_utf8(b) =~= encode_utf8(b));
    } else {
        lemma_encode_concat(a.drop_first(), b);
        assert((a + b).drop_first() =~= a.drop_first() + b);
        assert(encode_utf8(a + b) =~= encode_utf8(a) + encode_utf8(b));
    }
}

/// An accepted command that is not empty is sent as at most 256 bytes, of
/// which the last is NUL and no other is.
pub proof fn law_payload_is_nul_terminated(command: Seq<char>)
    requires
        crate::command::command_refusal(command) is None,
        command.len() > 0,
    ensures
        ({
            let payload = crate::command::payload_of(command);
            &&& 0 < payload.len() <= 0x100
            &&& payload.last() == 0
            &&& !payload.drop_last().contains(0u8)
        }),
{
    assert(crate::command::payload_of(command).drop_last() =~= encode_utf8(command));
}

/// The device can read the command back from the bytes before the NUL.
pub proof fn law_payload_holds_command(command: Seq<char>)
    requires
        command.len() > 0,
    ensures
        decode_utf8(crate::command::payload_of(command).drop_last()) == command,
{
    assert(crate::command::payload_of(command).drop_last() =~= encode_utf8(command));
    encode_utf8_decode_utf8(command);
}

/// Different commands are sent as different bytes.
pub proof fn law_payloads_differ(a: Seq<char>, b: Seq<char>)
    requires
        crate::command::payload_of(a) == crate::command::payload_of(b),
    ensures
        a == b,
{
    if a.len() > 0 && b.len() > 0 {
        law_payload_holds_command(a);
        law_payload_holds_command(b);
    } else {
        assert(crate::command::payload_of(a).len() == 0);
        assert(crate::command::payload_of(b).len() == 0);
        assert(a =~= b);
    }
}

/// A command is refused exactly if it takes more than 255 bytes or holds a
/// NUL character.
pub proof fn law_command_refusal(command: Seq<char>)
    ensures
        crate::command::command_refusal(command) is None <==> encode_utf8(command).len() <= 255
            && !command.contains('\0'),
{
    law_ascii_bytes_are_characters(command, 0);
}

/// A text can name a variable exactly if it is not empty and holds neither NUL
/// nor ASCII white space.
pub proof fn law_variable_names(variable: Seq<char>)
    ensures
        crate::command::is_variable_name(variable) <==> variable.len() > 0 && !variable.contains(
            '\0',
        ) && !variable.contains(' ') && !variable.contains('\t') && !variable.contains('\n')
            && !variable.contains('\u{c}') && !variable.contains('\r'),
{
    law_ascii_bytes_are_characters(variable, 0);
    law_ascii_bytes_are_characters(variable, 0x20);
    law_ascii_bytes_are_characters(variable, 0x09);
    law_ascii_bytes_are_characters(variable, 0x0a);
    law_ascii_bytes_are_characters(variable, 0x0c);
    law_ascii_bytes_are_characters(variable, 0x0d);
    let bytes = encode_utf8(variable);
    if variable.len() > 0 && !crate::command::is_variable_name(variable) {
        let i = choose|i: int|
            0 <= i < bytes.len() && crate::command::is_forbidden_in_name(#[trigger] bytes[i]);
        assert(bytes.contains(bytes[i]));
    }
}

/// Setting a variable is allowed exactly if the name is one, the value holds no
/// NUL character, and the two take at most 247 bytes together.
pub proof fn law_setenv_allowed(variable: Seq<char>, value: Seq<char>)
    ensures
        crate::command::setenv_allowed(variable, value) <==> crate::command::is_variable_name(
            variable,
        ) && !value.contains('\0') && encode_utf8(variable).len() + encode_utf8(value).len()
            <= 247,
{
    reveal_strlit("setenv ");
    reveal_strlit(" ");
    let command = crate::command::setenv_command(variable, value);
    lemma_encode_concat("setenv "@ + variable + " "@, value);
    lemma_encode_concat("setenv "@ + variable, " "@);
    lemma_encode_concat("setenv "@, variable);
    is_ascii_chars_encode_utf8("setenv "@);
    is_ascii_chars_encode_utf8(" "@);
    law_ascii_bytes_are_characters(value, 0);
    law_ascii_bytes_are_characters(command, 0);
    if crate::command::is_variable_name(variable) && !value.contains('\0') {
        law_variable_names(variable);
        if command.contains('\0') {
            let i = choose|i: int| 0 <= i < command.len() && command[i] == '\0';
            if i < 7 {
            } else if i < 7 + variable.len() {
                assert(variable[i - 7] == '\0');
            } else if i > 7 + variable.len() {
                assert(value[i - 8 - variable.len()] == '\0');
            }
        }
    }
}

/// The command that sets a variable tells which variable and which value.
pub proof fn law_setenv_is_unambiguous(
    variable: Seq<char>,
    value: Seq<char>,
    other_variable: Seq<char>,
    other_value: Seq<char>,
)
    requires
        crate::command::is_variable_name(variable),
        crate::command::is_variable_name(other_variable),
        crate::command::setenv_command(variable, value) == crate::command::setenv_command(
            other_variable,
            other_value,
        ),
    ensures
        variable == other_variable,
        value == other_value,
{
    reveal_strlit("setenv ");
    reveal_strlit(" ");
    law_variable_names(variable);
    law_variable_names(other_variable);
    let command = crate::command::setenv_command(variable, value);
    if variable.len() < other_variable.len() {
        assert(command[7int + variable.len()] == ' ');
        assert(other_variable[variable.len() as int] == ' ');
    }
    if other_variable.len() < variable.len() {
        assert(command[7int + other_variable.len()] == ' ');
        assert(variable[other_variable.len() as int] == ' ');
    }
    assert(command.subrange(7, 7int + variable.len()) =~= variable);
    assert(command.subrange(7, 7int + variable.len()) =~= other_variable);
    assert(command.skip(8int + variable.len()) =~= value);
    assert(command.skip(8int + variable.len()) =~= other_value);
}

} // verus!
