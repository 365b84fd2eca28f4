//! The identifier of the device, a UUID, as the number that its 128 bits are, most significant first.
use vstd::prelude::*;

verus! {

/// The hexadecimal digit for `n`, below sixteen, as a small letter where it is one.
pub open spec fn hex_digit(n: u128) -> char {
    if n < 10 {
        ('0' as u8 + n) as char
    } else {
        ('a' as u8 + n - 10) as char
    }
}

/// The hexadecimal digit at position `k` of the thirty-two that write `id`.
pub open spec fn digit_value(id: u128, k: int) -> u128 {
    (id >> ((4 * (31 - k)) as u128)) & 0xf
}

/// The digits of `id`.
pub open spec fn simple(id: u128) -> Seq<char> {
    Seq::new(32, |k: int| hex_digit(digit_value(id, k)))
}

/// The digits of `id` in groups of eight, four, four, four and twelve with hyphens between them.
pub open spec fn hyphenated(id: u128) -> Seq<char> {
    let digits = simple(id);
    digits.subrange(0, 8) + seq!['-'] + digits.subrange(8, 12) + seq!['-'] + digits.subrange(12, 16)
        + seq!['-'] + digits.subrange(16, 20) + seq!['-'] + digits.subrange(20, 32)
}

/// `text` is one of the ways to write `id`: with or without hyphens, in braces, or as a URN, in any
/// case.
pub open spec fn writes(text: Seq<char>, id: u128) -> bool {
    let small = crate::text::lowered(text);
    ||| small == simple(id)
    ||| small == hyphenated(id)
    ||| small == "{"@ + hyphenated(id) + "}"@
    ||| small == "urn:uuid:"@ + hyphenated(id)
}

/// `Display` of `uuid::Uuid`, on the UUID that `Uuid::from_u128` makes: the digits in small letters, with
/// hyphens.
#[verifier::external_body]
pub(crate) fn device_id_text(id: u128) -> (text: String)
    ensures
        text@ == hyphenated(id),
{
    uuid::Uuid::from_u128(id).to_string()
}

/// `uuid::Uuid::parse_str`, with `Uuid::as_u128` on its result: it reads the simple, the hyphenated, the
/// braced and the URN form, in any case, and refuses everything else.
#[verifier::external_body]
pub(crate) fn parse_device_id(text: &str) -> (parsed: Option<u128>)
    ensures
        match parsed {
            Some(id) => writes(text@, id),
            None => forall|id: u128| !writes(text@, id),
        },
{
    match uuid::Uuid::parse_str(text) {
        Ok(id) => Some(id.as_u128()),
        Err(_) => None,
    }
}

/// The value of a digit is below sixteen.
proof fn lemma_digit_value(id: u128, k: int)
    ensures
        digit_value(id, k) < 16,
{
    let shifted = id >> ((4 * (31 - k)) as u128);
    assert(shifted & 0xf < 16) by (bit_vector);
}

/// The number of the character that is the digit for `n`.
proof fn lemma_hex_digit(n: u128)
    requires
        n < 16,
    ensures
        hex_digit(n) as u32 == (if n < 10 {
            n + 48
        } else {
            n + 87
        }),
{
}

/// The digits of an identifier say which it is.
proof fn lemma_simple_injective(a: u128, b: u128)
    requires
        simple(a) == simple(b),
    ensures
        a == b,
{
    assert forall|k: int| 0 <= k < 32 implies digit_value(a, k) == #[trigger] digit_value(b, k) by {
        lemma_digit_value(a, k);
        lemma_digit_value(b, k);
        assert(simple(a)[k] == hex_digit(digit_value(a, k)));
        assert(simple(b)[k] == hex_digit(digit_value(b, k)));
        lemma_hex_digit(digit_value(a, k));
        lemma_hex_digit(digit_value(b, k));
    }
    assert(digit_value(a, 0) == digit_value(b, 0));
    assert(digit_value(a, 1) == digit_value(b, 1));
    assert(digit_value(a, 2) == digit_value(b, 2));
    assert(digit_value(a, 3) == digit_value(b, 3));
    assert(digit_value(a, 4) == digit_value(b, 4));
    assert(digit_value(a, 5) == digit_value(b, 5));
    assert(digit_value(a, 6) == digit_value(b, 6));
    assert(digit_value(a, 7) == digit_value(b, 7));
    assert(digit_value(a, 8) == digit_value(b, 8));
    assert(digit_value(a, 9) == digit_value(b, 9));
    assert(digit_value(a, 10) == digit_value(b, 10));
    assert(digit_value(a, 11) == digit_value(b, 11));
    assert(digit_value(a, 12) == digit_value(b, 12));
    assert(digit_value(a, 13) == digit_value(b, 13));
    assert(digit_value(a, 14) == digit_value(b, 14));
    assert(digit_value(a, 15) == digit_value(b, 15));
    assert(digit_value(a, 16) == digit_value(b, 16));
    assert(digit_value(a, 17) == digit_value(b, 17));
    assert(digit_value(a, 18) == digit_value(b, 18));
    assert(digit_value(a, 19) == digit_value(b, 19));
    assert(digit_value(a, 20) == digit_value(b, 20));
    assert(digit_value(a, 21) == digit_value(b, 21));
    assert(digit_value(a, 22) == digit_value(b, 22));
    assert(digit_value(a, 23) == digit_value(b, 23));
    assert(digit_value(a, 24) == digit_value(b, 24));
    assert(digit_value(a, 25) == digit_value(b, 25));
    assert(digit_value(a, 26) == digit_value(b, 26));
    assert(digit_value(a, 27) == digit_value(b, 27));
    assert(digit_value(a, 28) == digit_value(b, 28));
    assert(digit_value(a, 29) == digit_value(b, 29));
    assert(digit_value(a, 30) == digit_value(b, 30));
    assert(digit_value(a, 31) == digit_value(b, 31));
    assert(a == b) by (bit_vector)
        requires
            (a >> 124u128) & 0xf == (b >> 124u128) & 0xf,
            (a >> 120u128) & 0xf == (b >> 120u128) & 0xf,
            (a >> 116u128) & 0xf == (b >> 116u128) & 0xf,
            (a >> 112u128) & 0xf == (b >> 112u128) & 0xf,
            (a >> 108u128) & 0xf == (b >> 108u128) & 0xf,
            (a >> 104u128) & 0xf == (b >> 104u128) & 0xf,
            (a >> 100u128) & 0xf == (b >> 100u128) & 0xf,
            (a >> 96u128) & 0xf == (b >> 96u128) & 0xf,
            (a >> 92u128) & 0xf == (b >> 92u128) & 0xf,
            (a >> 88u128) & 0xf == (b >> 88u128) & 0xf,
            (a >> 84u128) & 0xf == (b >> 84u128) & 0xf,
            (a >> 80u128) & 0xf == (b >> 80u128) & 0xf,
            (a >> 76u128) & 0xf == (b >> 76u128) & 0xf,
            (a >> 72u128) & 0xf == (b >> 72u128) & 0xf,
            (a >> 68u128) & 0xf == (b >> 68u128) & 0xf,
            (a >> 64u128) & 0xf == (b >> 64u128) & 0xf,
            (a >> 60u128) & 0xf == (b >> 60u128) & 0xf,
            (a >> 56u128) & 0xf == (b >> 56u128) & 0xf,
            (a >> 52u128) & 0xf == (b >> 52u128) & 0xf,
            (a >> 48u128) & 0xf == (b >> 48u128) & 0xf,
            (a >> 44u128) & 0xf == (b >> 44u128) & 0xf,
            (a >> 40u128) & 0xf == (b >> 40u128) & 0xf,
            (a >> 36u128) & 0xf == (b >> 36u128) & 0xf,
            (a >> 32u128) & 0xf == (b >> 32u128) & 0xf,
            (a >> 28u128) & 0xf == (b >> 28u128) & 0xf,
            (a >> 24u128) & 0xf == (b >> 24u128) & 0xf,
            (a >> 20u128) & 0xf == (b >> 20u128) & 0xf,
            (a >> 16u128) & 0xf == (b >> 16u128) & 0xf,
            (a >> 12u128) & 0xf == (b >> 12u128) & 0xf,
            (a >> 8u128) & 0xf == (b >> 8u128) & 0xf,
            (a >> 4u128) & 0xf == (b >> 4u128) & 0xf,
            (a >> 0u128) & 0xf == (b >> 0u128) & 0xf,
    ;
}

/// The hyphenated digits of an identifier say which it is.
proof fn lemma_hyphenated_injective(a: u128, b: u128)
    requires
        hyphenated(a) == hyphenated(b),
    ensures
        a == b,
{
    let x = hyphenated(a);
    let y = hyphenated(b);
    assert(simple(a) =~= x.subrange(0, 8) + x.subrange(9, 13) + x.subrange(14, 18) + x.subrange(
        19,
        23,
    ) + x.subrange(24, 36));
    assert(simple(b) =~= y.subrange(0, 8) + y.subrange(9, 13) + y.subrange(14, 18) + y.subrange(
        19,
        23,
    ) + y.subrange(24, 36));
    lemma_simple_injective(a, b);
}

/// A text writes one identifier at most.
pub proof fn text_writes_one_id(text: Seq<char>, a: u128, b: u128)
    requires
        writes(text, a),
        writes(text, b),
    ensures
        a == b,
{
    reveal_strlit("{");
    reveal_strlit("}");
    reveal_strlit("urn:uuid:");
    let small = crate::text::lowered(text);
    if small.len() == 32 {
        lemma_simple_injective(a, b);
    } else if small.len() == 36 {
        lemma_hyphenated_injective(a, b);
    } else if small.len() == 38 {
        assert(hyphenated(a) =~= small.subrange(1, 37));
        assert(hyphenated(b) =~= small.subrange(1, 37));
        lemma_hyphenated_injective(a, b);
    } else {
        assert(hyphenated(a) =~= small.subrange(9, 45));
        assert(hyphenated(b) =~= small.subrange(9, 45));
        lemma_hyphenated_injective(a, b);
    }
}

/// The text of an identifier writes it, and is in small letters.
pub proof fn text_of_id_writes_it(id: u128)
    ensures
        crate::text::lowered(hyphenated(id)) == hyphenated(id),
        writes(hyphenated(id), id),
{
    let text = hyphenated(id);
    assert forall|i: int| 0 <= i < text.len() implies crate::text::lowered_char(#[trigger] text[i])
        == text[i] by {
        let k: int = if i < 8 {
            i
        } else if i < 13 {
            i - 1
        } else if i < 18 {
            i - 2
        } else if i < 23 {
            i - 3
        } else {
            i - 4
        };
        if i != 8 && i != 13 && i != 18 && i != 23 {
            lemma_digit_value(id, k);
            lemma_hex_digit(digit_value(id, k));
            assert(text[i] == simple(id)[k]);
        }
    }
    assert(crate::text::lowered(text) =~= text);
}

/// The digits of an identifier are hexadecimal, four bits to a digit from the highest on, and hyphens part
/// them after the eighth, the twelfth, the sixteenth and the twentieth.
pub proof fn digits_are_hexadecimal(id: u128, k: int)
    requires
        0 <= k < 32,
    ensures
        simple(id).len() == 32,
        simple(id)[k] == "0123456789abcdef"@[((id >> ((4 * (31 - k)) as u128)) & 0xf) as int],
        hyphenated(id).len() == 36,
        hyphenated(id).take(8) == simple(id).take(8),
        hyphenated(id)[8] == '-',
        hyphenated(id).subrange(9, 13) == simple(id).subrange(8, 12),
        hyphenated(id)[13] == '-',
        hyphenated(id).subrange(14, 18) == simple(id).subrange(12, 16),
        hyphenated(id)[18] == '-',
        hyphenated(id).subrange(19, 23) == simple(id).subrange(16, 20),
        hyphenated(id)[23] == '-',
        hyphenated(id).skip(24) == simple(id).skip(20),
{
    reveal_strlit("0123456789abcdef");
    lemma_digit_value(id, k);
    let digits = "0123456789abcdef"@;
    assert(digits =~= Seq::new(16, |n: int| hex_digit(n as u128)));
    assert(simple(id)[k] == hex_digit(digit_value(id, k)));
    assert(hyphenated(id).take(8) =~= simple(id).take(8));
    assert(hyphenated(id).subrange(9, 13) =~= simple(id).subrange(8, 12));
    assert(hyphenated(id).subrange(14, 18) =~= simple(id).subrange(12, 16));
    assert(hyphenated(id).subrange(19, 23) =~= simple(id).subrange(16, 20));
    assert(hyphenated(id).skip(24) =~= simple(id).skip(20));
}

/// An identifier is written in four ways and no other: its digits, with hyphens or without, and with hyphens
/// in braces or as a URN, each in any case of the letters.
pub proof fn identifiers_are_written_in_four_ways(text: Seq<char>, id: u128)
    ensures
        writes(text, id) <==> {
            let small = crate::text::lowered(text);
            ||| small == simple(id)
            ||| small == hyphenated(id)
            ||| small == seq!['{'] + hyphenated(id) + seq!['}']
            ||| small == "urn:"@ + seq!['u', 'u', 'i', 'd', ':'] + hyphenated(id)
        },
{
    reveal_strlit("{");
    reveal_strlit("}");
    reveal_strlit("urn:");
    reveal_strlit("urn:uuid:");
    assert("{"@ =~= seq!['{']);
    assert("}"@ =~= seq!['}']);
    assert("urn:uuid:"@ =~= "urn:"@ + seq!['u', 'u', 'i', 'd', ':']);
}

} // verus!
