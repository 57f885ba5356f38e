//! Values as bytes: the pieces of which the tags of elements are made.
use vstd::prelude::*;
use vstd::utf8::encode_utf8;

verus! {

/// A number as bytes, seven bits in each, the lowest first. All but the last have the
/// highest bit set.
pub open spec fn varint(n: nat) -> Seq<u8>
    decreases n,
{
    if n < 128 {
        seq![n as u8]
    } else {
        seq![(n % 128 + 128) as u8] + varint(n / 128)
    }
}

/// A number as bytes.
pub open spec fn u32_bytes(n: u32) -> Seq<u8> {
    varint(n as nat)
}

/// A signed number as bytes: numbers near zero come first, on either side in turn.
pub open spec fn i32_bytes(n: i32) -> Seq<u8> {
    varint(
        (if n < 0 {
            -2 * n - 1
        } else {
            2 * n
        }) as nat,
    )
}

/// A text as bytes: how many there are in UTF-8, and these.
pub open spec fn text_bytes(text: Seq<char>) -> Seq<u8> {
    varint(encode_utf8(text).len()) + encode_utf8(text)
}

/// The number at the beginning of some bytes, and what follows it.
pub uninterp spec fn u32_at_start(bytes: Seq<u8>) -> Option<(u32, Seq<u8>)>;

/// The signed number at the beginning of some bytes, and what follows it.
pub uninterp spec fn i32_at_start(bytes: Seq<u8>) -> Option<(i32, Seq<u8>)>;

/// The text at the beginning of some bytes, and what follows it. How a length is read
/// depends on how large one can be, which is `most`.
pub uninterp spec fn text_at_start(bytes: Seq<u8>, most: usize) -> Option<(Seq<char>, Seq<u8>)>;

/// `postcard::to_stdvec` of a `u32`: the number as a varint.
#[verifier::external_body]
pub(crate) fn encode_u32(n: u32) -> (r: Vec<u8>)
    ensures
        r@ == u32_bytes(n),
{
    postcard::to_stdvec(&n).unwrap_or_default()
}

/// `postcard::to_stdvec` of an `i32`: the number as a varint, with its sign in the
/// lowest bit.
#[verifier::external_body]
pub(crate) fn encode_i32(n: i32) -> (r: Vec<u8>)
    ensures
        r@ == i32_bytes(n),
{
    postcard::to_stdvec(&n).unwrap_or_default()
}

/// `postcard::to_stdvec` of a string: its length in bytes as a varint, and its bytes.
#[verifier::external_body]
pub(crate) fn encode_text(text: &str) -> (r: Vec<u8>)
    ensures
        r@ == text_bytes(text@),
{
    postcard::to_stdvec(text).unwrap_or_default()
}

/// `postcard::take_from_bytes` for a `u32`: the number and the rest are a
/// function of the bytes, and a number that was encoded at the beginning of the
/// bytes is read back, with what follows it as the rest.
#[verifier::external_body]
pub(crate) fn take_u32(bytes: &Vec<u8>) -> (r: Option<(u32, Vec<u8>)>)
    ensures
        r is Some <==> u32_at_start(bytes@) is Some,
        r matches Some((n, rest)) ==> u32_at_start(bytes@) == Some((n, rest@)),
        forall|n: u32, rest: Seq<u8>|
            bytes@ == #[trigger] (u32_bytes(n) + rest) ==> r is Some && (r->0).0 == n && (r->0).1@ == rest,
{
    postcard::take_from_bytes::<u32>(bytes).ok().map(|(n, rest)| (n, rest.to_vec()))
}

/// `postcard::take_from_bytes` for an `i32`: the number and the rest are a
/// function of the bytes, and a number that was encoded at the beginning of the
/// bytes is read back, with what follows it as the rest.
#[verifier::external_body]
pub(crate) fn take_i32(bytes: &Vec<u8>) -> (r: Option<(i32, Vec<u8>)>)
    ensures
        r is Some <==> i32_at_start(bytes@) is Some,
        r matches Some((n, rest)) ==> i32_at_start(bytes@) == Some((n, rest@)),
        forall|n: i32, rest: Seq<u8>|
            bytes@ == #[trigger] (i32_bytes(n) + rest) ==> r is Some && (r->0).0 == n && (r->0).1@ == rest,
{
    postcard::take_from_bytes::<i32>(bytes).ok().map(|(n, rest)| (n, rest.to_vec()))
}

/// `postcard::take_from_bytes` for a string: the text and the rest are a
/// function of the bytes and of the greatest length there can be, and a text that was encoded at the beginning of the
/// bytes is read back, with what follows it as the rest.
#[verifier::external_body]
pub(crate) fn take_text(bytes: &Vec<u8>) -> (r: Option<(String, Vec<u8>)>)
    ensures
        r is Some <==> text_at_start(bytes@, usize::MAX) is Some,
        r matches Some((text, rest)) ==> text_at_start(bytes@, usize::MAX) == Some((text@, rest@)),
        forall|text: Seq<char>, rest: Seq<u8>|
            bytes@ == #[trigger] (text_bytes(text) + rest) ==> r is Some && (r->0).0@ == text && (r->0).1@
                == rest,
{
    postcard::take_from_bytes::<String>(bytes).ok().map(|(text, rest)| (text, rest.to_vec()))
}

/// Two byte strings, one behind the other.
pub fn concat_bytes(first: Vec<u8>, second: Vec<u8>) -> (r: Vec<u8>)
    ensures
        r@ == first@ + second@,
{
    let mut out = first;
    let mut more = second;
    out.append(&mut more);
    out
}

proof fn lemma_varint_starts(a: nat, b: nat, x: Seq<u8>, y: Seq<u8>)
    requires
        varint(a) + x == varint(b) + y,
    ensures
        a == b,
        x == y,
    decreases a,
{
    let left = varint(a) + x;
    let right = varint(b) + y;
    assert(left[0] == varint(a)[0]);
    assert(right[0] == varint(b)[0]);
    if a >= 128 && b >= 128 {
        assert(left.skip(1) =~= varint(a / 128) + x);
        assert(right.skip(1) =~= varint(b / 128) + y);
        lemma_varint_starts(a / 128, b / 128, x, y);
    } else if a < 128 && b < 128 {
        assert(left.skip(1) =~= x);
        assert(right.skip(1) =~= y);
    }
}

/// Where two byte strings that begin with numbers are the same, the numbers are
/// the same, and so is what follows them.
pub proof fn law_numbers_are_told_apart(a: u32, b: u32, x: Seq<u8>, y: Seq<u8>)
    requires
        u32_bytes(a) + x == u32_bytes(b) + y,
    ensures
        a == b,
        x == y,
{
    lemma_varint_starts(a as nat, b as nat, x, y);
}

/// Where two byte strings that begin with signed numbers are the same, the numbers
/// are the same, and so is what follows them.
pub proof fn law_signed_numbers_are_told_apart(a: i32, b: i32, x: Seq<u8>, y: Seq<u8>)
    requires
        i32_bytes(a) + x == i32_bytes(b) + y,
    ensures
        a == b,
        x == y,
{
    let m = (if a < 0 {
        -2 * a - 1
    } else {
        2 * a
    }) as nat;
    let n = (if b < 0 {
        -2 * b - 1
    } else {
        2 * b
    }) as nat;
    lemma_varint_starts(m, n, x, y);
}

/// Where two byte strings that begin with texts are the same, the texts are the
/// same, and so is what follows them.
pub proof fn law_texts_are_told_apart(a: Seq<char>, b: Seq<char>, x: Seq<u8>, y: Seq<u8>)
    requires
        text_bytes(a) + x == text_bytes(b) + y,
    ensures
        a == b,
        x == y,
{
    let first = encode_utf8(a);
    let second = encode_utf8(b);
    assert(text_bytes(a) + x =~= varint(first.len()) + (first + x));
    assert(text_bytes(b) + y =~= varint(second.len()) + (second + y));
    lemma_varint_starts(first.len(), second.len(), first + x, second + y);
    let n = first.len() as int;
    assert((first + x).take(n) =~= first);
    assert((second + y).take(n) =~= second);
    assert((first + x).skip(n) =~= x);
    assert((second + y).skip(n) =~= y);
    vstd::utf8::encode_utf8_decode_utf8(a);
    vstd::utf8::encode_utf8_decode_utf8(b);
}

} // verus!
