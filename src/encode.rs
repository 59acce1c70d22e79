use base64::Engine;
use vstd::prelude::*;

verus! {

/// The 64 characters of the standard base64 alphabet, in the order of their values.
pub open spec fn base64_alphabet() -> Seq<char> {
    seq![
        'A', 'B', 'C', 'D', 'E', 'F', 'G', 'H', 'I', 'J', 'K', 'L', 'M',
        'N', 'O', 'P', 'Q', 'R', 'S', 'T', 'U', 'V', 'W', 'X', 'Y', 'Z',
        'a', 'b', 'c', 'd', 'e', 'f', 'g', 'h', 'i', 'j', 'k', 'l', 'm',
        'n', 'o', 'p', 'q', 'r', 's', 't', 'u', 'v', 'w', 'x', 'y', 'z',
        '0', '1', '2', '3', '4', '5', '6', '7', '8', '9', '+', '/',
    ]
}

/// One group of one to three bytes as four base64 characters: the bytes, read as a
/// big-endian 24-bit number padded with zero bits, give four 6-bit digits; the
/// digits that only padding filled become `=`.
pub open spec fn base64_group(b: Seq<u8>) -> Seq<char>
    recommends
        1 <= b.len() <= 3,
{
    let n: int = b[0] * 65536 + (if b.len() > 1 { b[1] as int } else { 0 }) * 256 + (if b.len() > 2 { b[2] as int } else { 0 });
    seq![
        base64_alphabet()[n / 262144],
        base64_alphabet()[(n / 4096) % 64],
        if b.len() > 1 { base64_alphabet()[(n / 64) % 64] } else { '=' },
        if b.len() > 2 { base64_alphabet()[n % 64] } else { '=' },
    ]
}

/// The standard, padded base64 text of `bytes`: each group of three bytes in turn,
/// the last group possibly shorter.
pub open spec fn base64_text(bytes: Seq<u8>) -> Seq<char>
    decreases bytes.len(),
{
    if bytes.len() == 0 {
        Seq::empty()
    } else if bytes.len() <= 3 {
        base64_group(bytes)
    } else {
        base64_group(bytes.take(3)) + base64_text(bytes.skip(3))
    }
}

/// Relies on base64's `STANDARD` engine and `Engine::encode`: the padded base64
/// text of the bytes.
#[verifier::external_body]
fn encode_standard(bytes: &[u8]) -> (r: String)
    ensures
        r@ == base64_text(bytes@),
{
    base64::engine::general_purpose::STANDARD.encode(bytes)
}

/// Four characters for each started group of three bytes.
pub proof fn lemma_base64_length(bytes: Seq<u8>)
    ensures
        base64_text(bytes).len() == 4 * ((bytes.len() + 2) / 3),
    decreases bytes.len(),
{
    if bytes.len() > 3 {
        lemma_base64_length(bytes.skip(3));
    }
}

/// A file's contents as text that can cross to the display layer: their padded
/// base64 form.
pub fn image_as_base64(contents: &Vec<u8>) -> (r: String)
    ensures
        r@ == base64_text(contents@),
        r@.len() == 4 * ((contents@.len() + 2) / 3),
{
    proof {
        lemma_base64_length(contents@);
    }
    encode_standard(contents.as_slice())
}

/// The value of a base64 character: its place in [`base64_alphabet`]; padding and
/// any other character count as zero.
pub open spec fn digit_value(c: char) -> int {
    if 'A' <= c <= 'Z' {
        c as int - 65
    } else if 'a' <= c <= 'z' {
        c as int - 71
    } else if '0' <= c <= '9' {
        c as int + 4
    } else if c == '+' {
        62
    } else if c == '/' {
        63
    } else {
        0
    }
}

/// The bytes of one group of four base64 characters: one byte where the group ends
/// in `==`, two where it ends in `=`, else three.
pub open spec fn group_bytes(t: Seq<char>) -> Seq<u8> {
    let n = digit_value(t[0]) * 262144 + digit_value(t[1]) * 4096 + digit_value(t[2]) * 64 + digit_value(t[3]);
    if t[2] == '=' {
        seq![(n / 65536) as u8]
    } else if t[3] == '=' {
        seq![(n / 65536) as u8, ((n / 256) % 256) as u8]
    } else {
        seq![(n / 65536) as u8, ((n / 256) % 256) as u8, (n % 256) as u8]
    }
}

/// The bytes that padded base64 text stands for, read four characters at a time.
pub open spec fn base64_decoded(t: Seq<char>) -> Seq<u8>
    decreases t.len(),
{
    if t.len() < 4 {
        Seq::empty()
    } else {
        group_bytes(t.take(4)) + base64_decoded(t.skip(4))
    }
}

proof fn lemma_alphabet_values()
    ensures
        base64_alphabet().len() == 64,
        forall|i: int| 0 <= i < 64 ==> digit_value(#[trigger] base64_alphabet()[i]) == i,
        forall|i: int| 0 <= i < 64 ==> #[trigger] base64_alphabet()[i] != '=',
{
    let a = base64_alphabet();
    assert forall|i: int| 0 <= i < 64 implies digit_value(#[trigger] a[i]) == i && a[i] != '=' by {
        assert(a[i] == a[i]);
    }
}

proof fn lemma_group_arith(b0: int, b1: int, b2: int)
    requires
        0 <= b0 < 256,
        0 <= b1 < 256,
        0 <= b2 < 256,
    ensures
        ({
            let n = b0 * 65536 + b1 * 256 + b2;
            &&& 0 <= n / 262144 < 64
            &&& (n / 262144) * 262144 + ((n / 4096) % 64) * 4096 + ((n / 64) % 64) * 64 + n % 64 == n
            &&& n / 65536 == b0
            &&& (n / 256) % 256 == b1
            &&& n % 256 == b2
            &&& (b1 == 0 && b2 == 0 ==> (n / 64) % 64 == 0 && n % 64 == 0)
            &&& (b2 == 0 ==> n % 64 == 0)
        }),
{
    let n = b0 * 65536 + b1 * 256 + b2;
    assert(0 <= n < 16777216) by (nonlinear_arith)
        requires 0 <= b0 < 256, 0 <= b1 < 256, 0 <= b2 < 256, n == b0 * 65536 + b1 * 256 + b2;
    assert((n / 262144) * 262144 + ((n / 4096) % 64) * 4096 + ((n / 64) % 64) * 64 + n % 64 == n) by (nonlinear_arith)
        requires 0 <= n < 16777216;
    assert(n / 65536 == b0 && (n / 256) % 256 == b1 && n % 256 == b2) by (nonlinear_arith)
        requires 0 <= b0 < 256, 0 <= b1 < 256, 0 <= b2 < 256, n == b0 * 65536 + b1 * 256 + b2;
    assert(b1 == 0 && b2 == 0 ==> (n / 64) % 64 == 0 && n % 64 == 0) by (nonlinear_arith)
        requires 0 <= b0 < 256, 0 <= b1 < 256, 0 <= b2 < 256, n == b0 * 65536 + b1 * 256 + b2;
    assert(b2 == 0 ==> n % 64 == 0) by (nonlinear_arith)
        requires 0 <= b0 < 256, 0 <= b1 < 256, 0 <= b2 < 256, n == b0 * 65536 + b1 * 256 + b2;
    assert(0 <= n / 262144 < 64) by (nonlinear_arith)
        requires 0 <= n < 16777216;
}

proof fn lemma_group_round_trip(b: Seq<u8>)
    requires
        1 <= b.len() <= 3,
    ensures
        base64_group(b).len() == 4,
        group_bytes(base64_group(b)) == b,
{
    lemma_alphabet_values();
    let b1: int = if b.len() > 1 { b[1] as int } else { 0 };
    let b2: int = if b.len() > 2 { b[2] as int } else { 0 };
    lemma_group_arith(b[0] as int, b1, b2);
    let n: int = b[0] * 65536 + b1 * 256 + b2;
    let t = base64_group(b);
    assert(0 <= (n / 4096) % 64 < 64);
    assert(0 <= (n / 64) % 64 < 64);
    assert(0 <= n % 64 < 64);
    assert(digit_value(t[0]) == n / 262144);
    assert(digit_value(t[1]) == (n / 4096) % 64);
    if b.len() == 1 {
        assert(group_bytes(t) =~= b);
    } else if b.len() == 2 {
        assert(t[2] != '=');
        assert(group_bytes(t) =~= b);
    } else {
        assert(t[2] != '=');
        assert(t[3] != '=');
        assert(group_bytes(t) =~= b);
    }
}

/// Decoding the base64 text of any bytes gives back exactly those bytes.
pub proof fn lemma_base64_round_trip(bytes: Seq<u8>)
    ensures
        base64_decoded(base64_text(bytes)) == bytes,
    decreases bytes.len(),
{
    if bytes.len() == 0 {
        assert(base64_decoded(Seq::<char>::empty()) =~= bytes);
    } else if bytes.len() <= 3 {
        lemma_group_round_trip(bytes);
        let t = base64_group(bytes);
        assert(t.take(4) =~= t);
        assert(t.skip(4) =~= Seq::<char>::empty());
        assert(base64_decoded(t.skip(4)) =~= Seq::<u8>::empty());
        assert(base64_decoded(t) == group_bytes(t) + Seq::<u8>::empty());
        assert(base64_decoded(t) =~= bytes);
    } else {
        let g = base64_group(bytes.take(3));
        let rest = base64_text(bytes.skip(3));
        lemma_group_round_trip(bytes.take(3));
        lemma_base64_round_trip(bytes.skip(3));
        lemma_base64_length(bytes.skip(3));
        assert((g + rest).take(4) =~= g);
        assert((g + rest).skip(4) =~= rest);
        assert(bytes.take(3) + bytes.skip(3) =~= bytes);
    }
}

} // verus!
