//! Random access tokens, written as lower-case hexadecimal text.
use vstd::prelude::*;

verus! {

/// The lower-case hexadecimal digit for a value below sixteen.
pub open spec fn hex_digit(n: int) -> char {
    if n < 10 {
        (n + 48) as char
    } else {
        (n + 87) as char
    }
}

/// Each byte written as two lower-case hexadecimal digits, high nibble first
/// (what `{:02x}` writes for a byte).
pub open spec fn hex_lower(bytes: Seq<u8>) -> Seq<char> {
    Seq::new(
        2 * bytes.len(),
        |i: int|
            if i % 2 == 0 {
                hex_digit(bytes[i / 2] as int / 16)
            } else {
                hex_digit(bytes[i / 2] as int % 16)
            },
    )
}

/// `String::push` (std): appends one character at the end of the string.
pub assume_specification[ String::push ](s: &mut String, ch: char)
    ensures
        final(s)@ == old(s)@.push(ch),
;

fn hex_digit_char(n: u8) -> (c: char)
    requires
        n < 16,
    ensures
        c == hex_digit(n as int),
{
    if n < 10 {
        (n + 48) as char
    } else {
        (n + 87) as char
    }
}

/// Writes `bytes` as lower-case hexadecimal text, two digits per byte.
pub fn to_hex_lower(bytes: &[u8]) -> (text: String)
    ensures
        text@ == hex_lower(bytes@),
{
    let mut text = String::new();
    let mut i: usize = 0;
    while i < bytes.len()
        invariant
            i <= bytes.len(),
            text@ =~= hex_lower(bytes@.take(i as int)),
        decreases bytes.len() - i,
    {
        let b = bytes[i];
        let hi = hex_digit_char(b / 16);
        let lo = hex_digit_char(b % 16);
        text.push(hi);
        text.push(lo);
        i = i + 1;
    }
    assert(bytes@.take(bytes.len() as int) =~= bytes@);
    text
}

#[verifier::external_type_specification]
#[verifier::external_body]
pub struct ExThreadRng(rand::rngs::ThreadRng);

/// `rand::thread_rng`: a handle on the thread-local generator. Nothing is
/// stated of its state, which is random.
#[verifier::external_body]
fn thread_rng() -> rand::rngs::ThreadRng {
    rand::thread_rng()
}

/// `RngCore::fill_bytes` of `ThreadRng`: overwrites every byte of `dest`
/// with random data. What the bytes are is left unsaid: they come from the
/// generator.
#[verifier::external_body]
fn fill_random(rng: &mut rand::rngs::ThreadRng, dest: &mut [u8; 32]) {
    rand::RngCore::fill_bytes(rng, dest)
}

/// Generates access tokens from thirty-two random bytes at a time.
pub struct TokenGenerator {
    random_bytes: [u8; 32],
    thread_rng: rand::rngs::ThreadRng,
    draws: Ghost<Seq<Seq<u8>>>,
}

impl TokenGenerator {
    /// The bytes that the last token was written from (all zero before the first).
    pub closed spec fn last_bytes(&self) -> Seq<u8> {
        self.random_bytes@
    }

    /// The bytes of every token written so far, oldest first.
    pub closed spec fn draws(&self) -> Seq<Seq<u8>> {
        self.draws@
    }

    pub fn new() -> (gen: Self)
        ensures
            gen.last_bytes() == Seq::new(32, |i: int| 0u8),
            gen.draws() == Seq::<Seq<u8>>::empty(),
    {
        let gen = TokenGenerator {
            random_bytes: [0u8; 32],
            thread_rng: thread_rng(),
            draws: Ghost(Seq::empty()),
        };
        assert(gen.random_bytes@ =~= Seq::new(32, |i: int| 0u8));
        gen
    }

    /// Draws thirty-two fresh random bytes and writes them as a token of
    /// sixty-four lower-case hexadecimal digits.
    pub fn generate_token(&mut self) -> (token: String)
        ensures
            final(self).last_bytes().len() == 32,
            final(self).draws() == old(self).draws().push(final(self).last_bytes()),
            token@ == hex_lower(final(self).last_bytes()),
            token@.len() == 64,
    {
        fill_random(&mut self.thread_rng, &mut self.random_bytes);
        self.draws = Ghost(self.draws@.push(self.random_bytes@));
        let token = to_hex_lower(&self.random_bytes);
        token
    }
}

} // verus!

verus! {

/// The lower-case hexadecimal digits, in order of value.
pub open spec fn hex_alphabet() -> Seq<char> {
    seq!['0', '1', '2', '3', '4', '5', '6', '7', '8', '9', 'a', 'b', 'c', 'd', 'e', 'f']
}

/// Each value below sixteen is written as its own lower-case hexadecimal
/// digit: `0`–`9`, then `a`–`f`.
pub proof fn law_hex_digit_is_lower_case_digit(n: int)
    requires
        0 <= n < 16,
    ensures
        hex_digit(n) == hex_alphabet()[n],
{
    if n == 0 { assert(hex_digit(0) == '0'); }
    else if n == 1 { assert(hex_digit(1) == '1'); }
    else if n == 2 { assert(hex_digit(2) == '2'); }
    else if n == 3 { assert(hex_digit(3) == '3'); }
    else if n == 4 { assert(hex_digit(4) == '4'); }
    else if n == 5 { assert(hex_digit(5) == '5'); }
    else if n == 6 { assert(hex_digit(6) == '6'); }
    else if n == 7 { assert(hex_digit(7) == '7'); }
    else if n == 8 { assert(hex_digit(8) == '8'); }
    else if n == 9 { assert(hex_digit(9) == '9'); }
    else if n == 10 { assert(hex_digit(10) == 'a'); }
    else if n == 11 { assert(hex_digit(11) == 'b'); }
    else if n == 12 { assert(hex_digit(12) == 'c'); }
    else if n == 13 { assert(hex_digit(13) == 'd'); }
    else if n == 14 { assert(hex_digit(14) == 'e'); }
    else { assert(hex_digit(15) == 'f'); }
}

/// Each byte is written as the digit of its high half, then the digit of
/// its low half, and only two digits per byte: the text is twice as long.
pub proof fn law_hex_lower_writes_each_byte(bytes: Seq<u8>, i: int)
    requires
        0 <= i < bytes.len(),
    ensures
        hex_lower(bytes).len() == 2 * bytes.len(),
        hex_lower(bytes)[2 * i] == hex_alphabet()[bytes[i] as int / 16],
        hex_lower(bytes)[2 * i + 1] == hex_alphabet()[bytes[i] as int % 16],
{
    law_hex_digit_is_lower_case_digit(bytes[i] as int / 16);
    law_hex_digit_is_lower_case_digit(bytes[i] as int % 16);
    assert((2 * i) % 2 == 0 && (2 * i) / 2 == i);
    assert((2 * i + 1) % 2 == 1 && (2 * i + 1) / 2 == i);
}

/// Different bytes give different text: the text determines the bytes.
pub proof fn law_hex_lower_is_injective(a: Seq<u8>, b: Seq<u8>)
    requires
        hex_lower(a) == hex_lower(b),
    ensures
        a == b,
{
    assert(a.len() == b.len()) by {
        assert(hex_lower(a).len() == 2 * a.len());
        assert(hex_lower(b).len() == 2 * b.len());
    }
    assert forall|i: int| 0 <= i < a.len() implies a[i] == b[i] by {
        law_hex_lower_writes_each_byte(a, i);
        law_hex_lower_writes_each_byte(b, i);
        let ha = a[i] as int / 16;
        let la = a[i] as int % 16;
        let hb = b[i] as int / 16;
        let lb = b[i] as int % 16;
        assert(hex_alphabet()[ha] == hex_alphabet()[hb]);
        assert(hex_alphabet()[la] == hex_alphabet()[lb]);
        assert(ha == hb);
        assert(la == lb);
    }
    assert(a =~= b);
}

} // verus!
