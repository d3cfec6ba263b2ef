//! The bounded message that describes the latest event. It lives in a
//! `heapless::String` of 128 bytes; this module states what the few string
//! operations it uses do, and proves on top of them what text each event
//! leaves behind.

use vstd::prelude::*;
use vstd::utf8::*;

verus! {

/// `heapless::String`, a string with a fixed capacity of `N` bytes. Nothing
/// inside it is visible here.
#[verifier::external_type_specification]
#[verifier::external_body]
pub struct ExHeaplessString<const N: usize>(heapless::String<N>);

/// The characters that a message holds, first to last.
pub uninterp spec fn message_text(message: heapless::String<128>) -> Seq<char>;

/// The number of bytes that `text` takes up in a message.
pub open spec fn byte_len(text: Seq<char>) -> nat {
    encode_utf8(text).len()
}

/// `heapless::String::new`: the new string holds no character.
#[verifier::external_body]
pub(crate) fn message_new() -> (message: heapless::String<128>)
    ensures
        message_text(message) == Seq::<char>::empty(),
{
    heapless::String::new()
}

/// `heapless::String::clear`: afterwards the string holds no character.
#[verifier::external_body]
pub(crate) fn message_clear(message: &mut heapless::String<128>)
    ensures
        message_text(*final(message)) == Seq::<char>::empty(),
{
    message.clear()
}

/// `heapless::String::push_str`: where the bytes of `text` fit behind those
/// already held, they are appended and the call succeeds; where they do not
/// fit, the call fails and the string is unchanged.
#[verifier::external_body]
pub(crate) fn message_push_str(
    message: &mut heapless::String<128>,
    text: &str,
) -> (outcome: Result<(), ()>)
    ensures
        outcome is Ok <==> byte_len(message_text(*old(message))) + byte_len(text@) <= 128,
        outcome is Ok ==> message_text(*final(message)) == message_text(*old(message)) + text@,
        outcome is Err ==> message_text(*final(message)) == message_text(*old(message)),
{
    message.push_str(text)
}

/// `heapless::String::push`: where the bytes of `c` fit behind those already
/// held, `c` is appended and the call succeeds; where they do not fit, the
/// call fails and the string is unchanged.
#[verifier::external_body]
pub(crate) fn message_push(
    message: &mut heapless::String<128>,
    c: char,
) -> (outcome: Result<(), ()>)
    ensures
        outcome is Ok <==> byte_len(message_text(*old(message))) + byte_len(seq![c]) <= 128,
        outcome is Ok ==> message_text(*final(message)) == message_text(*old(message)).push(c),
        outcome is Err ==> message_text(*final(message)) == message_text(*old(message)),
{
    message.push(c)
}

/// `heapless::String::as_str`: the slice holds the string's characters.
#[verifier::external_body]
pub(crate) fn message_as_str(message: &heapless::String<128>) -> (text: &str)
    ensures
        text@ == message_text(*message),
{
    message.as_str()
}

/// The character of the decimal digit `d`.
pub open spec fn digit_char(d: nat) -> char {
    (48 + d) as char
}

/// `n` written in decimal, without leading zeros.
pub open spec fn decimal(n: nat) -> Seq<char>
    decreases n,
{
    if n < 10 {
        seq![digit_char(n)]
    } else {
        decimal(n / 10).push(digit_char(n % 10))
    }
}

/// The message of a ground impact with the given output.
pub open spec fn ground_message(output: u16) -> Seq<char> {
    "Particle Output: "@ + decimal(output as nat) + ", Trigger: HIGH"@
}

/// The message of a collision with the given output.
pub open spec fn collision_message(output: u16) -> Seq<char> {
    "Collision Output: "@ + decimal(output as nat) + ", Trigger: HIGH"@
}

/// A decimal number is made of ASCII digits, one for each power of ten
/// that it reaches.
pub proof fn lemma_decimal_ascii(n: nat)
    ensures
        is_ascii_chars(decimal(n)),
        decimal(n).len() >= 1,
        n < 10 ==> decimal(n).len() == 1,
        10 <= n < 100 ==> decimal(n).len() == 2,
        100 <= n < 1000 ==> decimal(n).len() == 3,
        1000 <= n < 10000 ==> decimal(n).len() == 4,
        10000 <= n < 100000 ==> decimal(n).len() == 5,
    decreases n,
{
    if n >= 10 {
        lemma_decimal_ascii(n / 10);
    }
}

/// ASCII text takes one byte for each character.
proof fn lemma_ascii_byte_len(text: Seq<char>)
    requires
        is_ascii_chars(text),
    ensures
        byte_len(text) == text.len(),
{
    is_ascii_chars_encode_utf8(text);
}

/// The decimal digits of a 16-bit number, lowest first, and how many of
/// them it takes to write the number.
fn decimal_digits(value: u16) -> (r: ([u8; 5], usize))
    ensures
        1 <= r.1 <= 5,
        forall|k: int| 0 <= k < 5 ==> r.0@[k] < 10,
        digits_text(r.0@, r.1 as int) == decimal(value as nat),
{
    let digits: [u8; 5] = [
        (value % 10) as u8,
        (value / 10 % 10) as u8,
        (value / 100 % 10) as u8,
        (value / 1000 % 10) as u8,
        (value / 10000) as u8,
    ];
    let count: usize = if value >= 10000 {
        5
    } else if value >= 1000 {
        4
    } else if value >= 100 {
        3
    } else if value >= 10 {
        2
    } else {
        1
    };
    proof {
        let n = value as nat;
        reveal_with_fuel(decimal, 6);
        reveal_with_fuel(digits_text, 6);
        assert(n / 10 / 10 == n / 100);
        assert(n / 100 / 10 == n / 1000);
        assert(n / 1000 / 10 == n / 10000);
        assert(digits_text(digits@, count as int) =~= decimal(n));
    }
    (digits, count)
}

/// Appends `value` in decimal to a message that has room for five digits.
fn push_decimal(message: &mut heapless::String<128>, value: u16)
    requires
        is_ascii_chars(message_text(*old(message))),
        message_text(*old(message)).len() + 5 <= 128,
    ensures
        message_text(*final(message)) == message_text(*old(message)) + decimal(value as nat),
        is_ascii_chars(message_text(*final(message))),
{
    let (digits, count) = decimal_digits(value);
    let mut k: usize = count;
    while k > 0
        invariant
            k <= count <= 5,
            forall|j: int| 0 <= j < 5 ==> digits@[j] < 10,
            is_ascii_chars(message_text(*message)),
            message_text(*message).len() + k <= 128,
            message_text(*message) + digits_text(digits@, k as int) == message_text(*old(message))
                + digits_text(digits@, count as int),
        decreases k,
    {
        let ghost before = message_text(*message);
        let c = (48u8 + digits[k - 1]) as char;
        proof {
            assert(c == digit_char(digits@[k - 1] as nat));
            lemma_ascii_byte_len(before);
            lemma_ascii_byte_len(seq![c]);
            assert(before.push(c) + digits_text(digits@, k - 1) =~= before + digits_text(
                digits@,
                k as int,
            ));
        }
        let _ = message_push(message, c);
        k = k - 1;
    }
    proof {
        assert(message_text(*message) + digits_text(digits@, 0) =~= message_text(*message));
    }
}

/// Replaces the message by `prefix`, `value` in decimal and the trigger
/// note.
fn write_event(message: &mut heapless::String<128>, prefix: &str, value: u16)
    requires
        is_ascii_chars(prefix@),
        prefix@.len() <= 100,
    ensures
        message_text(*final(message)) == prefix@ + decimal(value as nat) + ", Trigger: HIGH"@,
{
    let suffix = ", Trigger: HIGH";
    proof {
        reveal_strlit(", Trigger: HIGH");
        lemma_ascii_byte_len(Seq::<char>::empty());
        lemma_ascii_byte_len(prefix@);
        lemma_ascii_byte_len(suffix@);
        lemma_decimal_ascii(value as nat);
    }
    message_clear(message);
    let _ = message_push_str(message, prefix);
    assert(message_text(*message) =~= prefix@);
    push_decimal(message, value);
    proof {
        lemma_ascii_byte_len(message_text(*message));
    }
    let _ = message_push_str(message, suffix);
}

/// Replaces the message by that of a ground impact with the given output.
pub(crate) fn write_ground_message(message: &mut heapless::String<128>, output: u16)
    ensures
        message_text(*final(message)) == ground_message(output),
{
    proof {
        reveal_strlit("Particle Output: ");
    }
    write_event(message, "Particle Output: ", output);
}

/// Replaces the message by that of a collision with the given output.
pub(crate) fn write_collision_message(message: &mut heapless::String<128>, output: u16)
    ensures
        message_text(*final(message)) == collision_message(output),
{
    proof {
        reveal_strlit("Collision Output: ");
    }
    write_event(message, "Collision Output: ", output);
}

/// The characters of the digits `digits[count - 1]`, ..., `digits[0]`, in
/// that order: the digits are stored lowest first and read highest first.
pub open spec fn digits_text(digits: Seq<u8>, count: int) -> Seq<char>
    decreases count,
{
    if count <= 0 {
        Seq::<char>::empty()
    } else {
        seq![digit_char(digits[count - 1] as nat)] + digits_text(digits, count - 1)
    }
}

} // verus!
