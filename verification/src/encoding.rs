//! The Base64 form of texts.

use base64::engine::general_purpose::STANDARD;
use base64::Engine;
use vstd::prelude::*;

verus! {

/// The character that stands for `value`, which is below 64, in the standard
/// alphabet: letters in upper case, letters in lower case, digits, `+` and `/`.
pub open spec fn symbol(value: int) -> char {
    if value < 26 {
        (65 + value) as char
    } else if value < 52 {
        (97 + (value - 26)) as char
    } else if value < 62 {
        (48 + (value - 52)) as char
    } else if value == 62 {
        '+'
    } else {
        '/'
    }
}

/// The Base64 form of `bytes` in the standard alphabet: each three bytes are four
/// symbols of six bits, and `=` fills up the symbols of the last one or two
/// bytes.
pub open spec fn base64_form(bytes: Seq<u8>) -> Seq<char>
    decreases bytes.len(),
{
    let a = bytes[0] as int;
    let b = bytes[1] as int;
    let c = bytes[2] as int;
    if bytes.len() == 0 {
        Seq::empty()
    } else if bytes.len() == 1 {
        seq![symbol(a / 4), symbol(a % 4 * 16), '=', '=']
    } else if bytes.len() == 2 {
        seq![symbol(a / 4), symbol(a % 4 * 16 + b / 16), symbol(b % 16 * 4), '=']
    } else {
        seq![
            symbol(a / 4),
            symbol(a % 4 * 16 + b / 16),
            symbol(b % 16 * 4 + c / 64),
            symbol(c % 64),
        ] + base64_form(bytes.skip(3))
    }
}

/// The Base64 form of the UTF-8 bytes of `content`.
pub open spec fn base64_text(content: Seq<char>) -> Seq<char> {
    base64_form(vstd::utf8::encode_utf8(content))
}

/// `base64::Engine::encode` of `base64::engine::general_purpose::STANDARD`: the
/// Base64 form of the UTF-8 bytes of `plain`, in the standard alphabet and with
/// padding.
#[verifier::external_body]
pub(crate) fn encode_base64(plain: &str) -> (encoded: String)
    ensures
        encoded@ == base64_text(plain@),
{
    STANDARD.encode(plain)
}

/// The symbols of different values differ, and none is the padding.
proof fn lemma_symbols_differ(left: int, right: int)
    requires
        0 <= left < 64,
        0 <= right < 64,
    ensures
        symbol(left) == symbol(right) ==> left == right,
        symbol(left) != '=',
{
}

/// No two sequences of bytes have the same Base64 form.
pub proof fn law_base64_form_is_one_to_one(left: Seq<u8>, right: Seq<u8>)
    requires
        base64_form(left) == base64_form(right),
    ensures
        left == right,
    decreases left.len(),
{
    let form = base64_form(left);
    if left.len() == 0 {
        assert(right.len() == 0) by {
            if right.len() > 0 {
                assert(base64_form(right).len() >= 4);
            }
        }
        assert(left == right);
    } else {
        assert(form.len() >= 4);
        assert(right.len() > 0);
        let a = left[0] as int;
        let b = if left.len() > 1 {
            left[1] as int
        } else {
            0
        };
        let c = if left.len() > 2 {
            left[2] as int
        } else {
            0
        };
        let x = right[0] as int;
        let y = if right.len() > 1 {
            right[1] as int
        } else {
            0
        };
        let z = if right.len() > 2 {
            right[2] as int
        } else {
            0
        };
        assert(form[0] == symbol(a / 4));
        assert(form[0] == symbol(x / 4));
        assert(form[1] == symbol(a % 4 * 16 + b / 16));
        assert(form[1] == symbol(x % 4 * 16 + y / 16));
        lemma_symbols_differ(a / 4, x / 4);
        lemma_symbols_differ(a % 4 * 16 + b / 16, x % 4 * 16 + y / 16);
        lemma_symbols_differ(b % 16 * 4 + c / 64, y % 16 * 4 + z / 64);
        lemma_symbols_differ(y % 16 * 4 + z / 64, b % 16 * 4 + c / 64);
        lemma_symbols_differ(c % 64, z % 64);
        lemma_symbols_differ(z % 64, c % 64);
        assert(form[2] == '=' <==> left.len() == 1);
        assert(form[2] == '=' <==> right.len() == 1);
        assert(form[3] == '=' <==> left.len() <= 2);
        assert(form[3] == '=' <==> right.len() <= 2);
        assert(a == x);
        if left.len() > 1 {
            assert(form[2] == symbol(b % 16 * 4 + c / 64));
            assert(form[2] == symbol(y % 16 * 4 + z / 64));
            assert(b == y);
        }
        if left.len() > 2 {
            assert(form[3] == symbol(c % 64));
            assert(form[3] == symbol(z % 64));
            assert(c == z);
            assert(base64_form(left.skip(3)) == form.skip(4));
            assert(base64_form(right.skip(3)) == form.skip(4));
            law_base64_form_is_one_to_one(left.skip(3), right.skip(3));
            assert(left == seq![left[0], left[1], left[2]] + left.skip(3));
            assert(right == seq![right[0], right[1], right[2]] + right.skip(3));
        } else {
            assert(left == right);
        }
    }
}

/// No two texts have the same Base64 form, and only the empty text has an empty
/// one.
pub proof fn law_base64_text_is_one_to_one(left: Seq<char>, right: Seq<char>)
    ensures
        base64_text(left) == base64_text(right) <==> left == right,
        base64_text(left).len() == 0 <==> left.len() == 0,
{
    vstd::utf8::encode_utf8_decode_utf8(left);
    vstd::utf8::encode_utf8_decode_utf8(right);
    if base64_text(left) == base64_text(right) {
        law_base64_form_is_one_to_one(vstd::utf8::encode_utf8(left), vstd::utf8::encode_utf8(right));
    }
    if base64_text(left).len() == 0 {
        assert(vstd::utf8::encode_utf8(left).len() == 0);
    }
}

} // verus!
