//! Images as text: the address that holds an image in itself.

use vstd::prelude::*;
use vstd::string::*;

verus! {

/// The digit of value `value` in the base of 64.
pub open spec fn base64_digit(value: int) -> char {
    if value < 26 {
        ('A' as int + value) as char
    } else if value < 52 {
        ('a' as int + value - 26) as char
    } else if value < 62 {
        ('0' as int + value - 52) as char
    } else if value == 62 {
        '+'
    } else {
        '/'
    }
}

/// The text of bytes in the base of 64, with padding: three bytes at a time give four digits.
pub open spec fn base64(bytes: Seq<u8>) -> Seq<char>
    decreases bytes.len(),
{
    if bytes.len() == 0 {
        Seq::empty()
    } else {
        let a = bytes[0] as int;
        if bytes.len() == 1 {
            seq![base64_digit(a / 4), base64_digit(a % 4 * 16), '=', '=']
        } else {
            let b = bytes[1] as int;
            if bytes.len() == 2 {
                seq![
                    base64_digit(a / 4),
                    base64_digit(a % 4 * 16 + b / 16),
                    base64_digit(b % 16 * 4),
                    '=',
                ]
            } else {
                let c = bytes[2] as int;
                seq![
                    base64_digit(a / 4),
                    base64_digit(a % 4 * 16 + b / 16),
                    base64_digit(b % 16 * 4 + c / 64),
                    base64_digit(c % 64),
                ] + base64(bytes.skip(3))
            }
        }
    }
}

/// Whether the text of so many bytes in the base of 64 fits into memory.
pub open spec fn encodable(length: int) -> bool {
    (length + 2) / 3 * 4 <= isize::MAX
}

/// Calls `encode` of `base64::engine::general_purpose::STANDARD`, which writes bytes in the base of
/// 64 with padding. It panics where the size of the text overflows.
#[verifier::external_body]
fn encode_base64(bytes: &[u8]) -> (result: String)
    requires
        encodable(bytes@.len() as int),
    ensures
        result@ == base64(bytes@),
{
    base64::Engine::encode(&base64::engine::general_purpose::STANDARD, bytes)
}

/// Whether the text of so many bytes in the base of 64 fits into memory.
pub fn fits_memory(length: usize) -> (result: bool)
    ensures
        result == encodable(length as int),
{
    let groups = length / 3 + (if length % 3 == 0 {
        0
    } else {
        1
    });
    groups <= isize::MAX as usize / 4
}

/// The address that holds a PNG image in itself.
pub open spec fn image_address(bytes: Seq<u8>) -> Seq<char> {
    "data:image/png;base64,"@ + base64(bytes)
}

/// The address that holds a PNG image in itself.
pub fn png_address(bytes: &[u8]) -> (result: String)
    requires
        encodable(bytes@.len() as int),
    ensures
        result@ == image_address(bytes@),
{
    let encoded = encode_base64(bytes);
    "data:image/png;base64,".to_owned().concat(&encoded)
}

/// The text of bytes in the base of 64 has four digits for each three bytes, the last group filled
/// up.
pub proof fn law_base64_length(bytes: Seq<u8>)
    ensures
        base64(bytes).len() == (bytes.len() + 2) / 3 * 4,
    decreases bytes.len(),
{
    if bytes.len() >= 3 {
        law_base64_length(bytes.skip(3));
    }
}

}
