//! Text encodings the node uses: base58 (Bitcoin alphabet) for node
//! identifiers and decimal for port numbers.
use vstd::prelude::*;
use crate::msgpack::be_value;

verus! {

/// Whether `c` is a letter of the Bitcoin base58 alphabet
/// `123456789ABCDEFGHJKLMNPQRSTUVWXYZabcdefghijkmnopqrstuvwxyz`.
pub open spec fn is_base58_char(c: char) -> bool {
    ||| ('1' <= c && c <= '9')
    ||| ('A' <= c && c <= 'H')
    ||| ('J' <= c && c <= 'N')
    ||| ('P' <= c && c <= 'Z')
    ||| ('a' <= c && c <= 'k')
    ||| ('m' <= c && c <= 'z')
}

/// The number of zero bytes at the start of `b`.
pub open spec fn leading_zero_bytes(b: Seq<u8>) -> nat
    decreases b.len(),
{
    if b.len() > 0 && b[0] == 0 {
        1 + leading_zero_bytes(b.drop_first())
    } else {
        0
    }
}

/// The number of `1`s at the start of `s`.
pub open spec fn leading_ones(s: Seq<char>) -> nat
    decreases s.len(),
{
    if s.len() > 0 && s[0] == '1' {
        1 + leading_ones(s.drop_first())
    } else {
        0
    }
}

/// The letter of base58 digit `d` (below 58) in the Bitcoin alphabet.
pub open spec fn b58_char(d: nat) -> char {
    if d < 9 {
        (49 + d) as char
    } else if d < 17 {
        (65 + (d - 9)) as char
    } else if d < 22 {
        (74 + (d - 17)) as char
    } else if d < 33 {
        (80 + (d - 22)) as char
    } else if d < 44 {
        (97 + (d - 33)) as char
    } else {
        (109 + (d - 44)) as char
    }
}

/// The digit that the base58 letter `c` stands for.
pub open spec fn b58_digit(c: char) -> nat {
    let v = c as int;
    if v <= 57 {
        (v - 49) as nat
    } else if v <= 72 {
        (v - 65 + 9) as nat
    } else if v <= 78 {
        (v - 74 + 17) as nat
    } else if v <= 90 {
        (v - 80 + 22) as nat
    } else if v <= 107 {
        (v - 97 + 33) as nat
    } else {
        (v - 109 + 44) as nat
    }
}

/// The base58 digits of `n`, most significant first, without leading zero
/// digits (none for `0`).
pub open spec fn b58_digits(n: nat) -> Seq<char>
    decreases n,
{
    if n == 0 {
        seq![]
    } else {
        b58_digits(n / 58).push(b58_char(n % 58))
    }
}

/// The number that the base58 letters `s` denote, most significant first.
pub open spec fn b58_value(s: Seq<char>) -> nat
    decreases s.len(),
{
    if s.len() == 0 {
        0
    } else {
        b58_value(s.drop_last()) * 58 + b58_digit(s.last())
    }
}

/// The big-endian bytes of `n` without leading zero bytes (none for `0`).
pub open spec fn be_min_bytes(n: nat) -> Seq<u8>
    decreases n,
{
    if n == 0 {
        seq![]
    } else {
        be_min_bytes(n / 256).push((n % 256) as u8)
    }
}

/// The base58 text of `data`: a `1` for each leading zero byte, then the
/// base58 digits of the number that the rest denotes in big-endian order.
pub open spec fn bs58_text(data: Seq<u8>) -> Seq<char> {
    let z = leading_zero_bytes(data);
    Seq::new(z, |i: int| '1') + b58_digits(be_value(data.skip(z as int)))
}

/// The bytes of the base58 text `text`: a zero byte for each leading `1`,
/// then the big-endian bytes of the number that the rest denotes; `None`
/// where a letter is outside the Bitcoin alphabet.
pub open spec fn bs58_bytes(text: Seq<char>) -> Option<Seq<u8>> {
    if forall|i: int| 0 <= i < text.len() ==> is_base58_char(#[trigger] text[i]) {
        let z = leading_ones(text);
        Some(Seq::new(z, |i: int| 0u8) + be_min_bytes(b58_value(text.skip(z as int))))
    } else {
        None
    }
}

/// Each digit below 58 has a letter of the alphabet, which stands for it;
/// only the digit 0 has the letter `1`.
pub proof fn lemma_b58_char(d: nat)
    requires
        d < 58,
    ensures
        is_base58_char(b58_char(d)),
        b58_digit(b58_char(d)) == d,
        (b58_char(d) == '1') <==> d == 0,
{
}

/// The digits of `n` are letters of the alphabet, the first of them is not
/// `1`, and they denote `n`.
pub proof fn lemma_b58_digits(n: nat)
    ensures
        forall|i: int| 0 <= i < b58_digits(n).len() ==> is_base58_char(#[trigger] b58_digits(n)[i]),
        n > 0 ==> b58_digits(n).len() > 0 && b58_digits(n)[0] != '1',
        b58_value(b58_digits(n)) == n,
    decreases n,
{
    if n > 0 {
        lemma_b58_digits(n / 58);
        lemma_b58_char(n % 58);
        let d = b58_digits(n);
        assert(d.drop_last() =~= b58_digits(n / 58));
        assert forall|i: int| 0 <= i < d.len() implies is_base58_char(#[trigger] d[i]) by {
            if i < d.len() - 1 {
                assert(d[i] == b58_digits(n / 58)[i]);
            }
        }
        if n / 58 > 0 {
            assert(d[0] == b58_digits(n / 58)[0]);
        }
    }
}

/// The number of `1`s at the start of `k` ones followed by `s`.
pub proof fn lemma_leading_ones_after_ones(k: nat, s: Seq<char>)
    ensures
        leading_ones(Seq::new(k, |i: int| '1') + s) == k + leading_ones(s),
    decreases k,
{
    if k > 0 {
        let t = Seq::new(k, |i: int| '1') + s;
        assert(t.drop_first() =~= Seq::new((k - 1) as nat, |i: int| '1') + s);
        lemma_leading_ones_after_ones((k - 1) as nat, s);
    }
}

/// The leading zero bytes of `b` are zero, and the byte after them is not.
pub proof fn lemma_leading_zero_bytes(b: Seq<u8>)
    ensures
        leading_zero_bytes(b) <= b.len(),
        forall|i: int| 0 <= i < leading_zero_bytes(b) ==> #[trigger] b[i] == 0,
        leading_zero_bytes(b) < b.len() ==> b[leading_zero_bytes(b) as int] != 0,
    decreases b.len(),
{
    if b.len() > 0 && b[0] == 0 {
        lemma_leading_zero_bytes(b.drop_first());
        assert forall|i: int| 0 <= i < leading_zero_bytes(b) implies #[trigger] b[i] == 0 by {
            if i > 0 {
                assert(b[i] == b.drop_first()[i - 1]);
            }
        }
    }
}

/// Bytes that do not start with a zero byte denote a number whose big-endian
/// bytes without leading zeros are those bytes.
pub proof fn lemma_be_min_bytes(b: Seq<u8>)
    requires
        b.len() == 0 || b[0] != 0,
    ensures
        be_min_bytes(be_value(b)) == b,
        b.len() > 0 ==> be_value(b) > 0,
    decreases b.len(),
{
    if b.len() > 0 {
        let p = b.drop_last();
        lemma_be_min_bytes(p);
        let n = be_value(b);
        assert(n / 256 == be_value(p) && n % 256 == b.last() as nat);
        assert(be_min_bytes(n) =~= b);
    }
}

/// Base58 text reads back as the bytes it was written from, and its
/// letters are of the alphabet with a `1` for each leading zero byte.
pub proof fn lemma_bs58_round_trip(data: Seq<u8>)
    ensures
        forall|i: int| 0 <= i < bs58_text(data).len() ==> is_base58_char(#[trigger] bs58_text(data)[i]),
        leading_ones(bs58_text(data)) == leading_zero_bytes(data),
        bs58_bytes(bs58_text(data)) == Some(data),
{
    let z = leading_zero_bytes(data);
    let rest = data.skip(z as int);
    let v = be_value(rest);
    let ones = Seq::new(z, |i: int| '1');
    let t = bs58_text(data);
    lemma_leading_zero_bytes(data);
    lemma_b58_digits(v);
    lemma_be_min_bytes(rest);
    lemma_leading_ones_after_ones(z, b58_digits(v));
    assert forall|i: int| 0 <= i < t.len() implies is_base58_char(#[trigger] t[i]) by {
        if i >= z {
            assert(t[i] == b58_digits(v)[i - z]);
        }
    }
    assert(t.skip(z as int) =~= b58_digits(v));
    assert(Seq::new(z, |i: int| 0u8) + be_min_bytes(v) =~= data);
}

/// Each letter of the alphabet is the letter of the digit it stands for.
pub proof fn lemma_b58_digit(c: char)
    requires
        is_base58_char(c),
    ensures
        b58_digit(c) < 58,
        b58_char(b58_digit(c)) == c,
        (c == '1') <==> b58_digit(c) == 0,
{
}

/// Letters of the alphabet that do not start with `1` are the digits of
/// the number they denote.
pub proof fn lemma_b58_value_digits(s: Seq<char>)
    requires
        forall|i: int| 0 <= i < s.len() ==> is_base58_char(#[trigger] s[i]),
        s.len() == 0 || s[0] != '1',
    ensures
        b58_digits(b58_value(s)) == s,
        s.len() > 0 ==> b58_value(s) > 0,
    decreases s.len(),
{
    if s.len() > 0 {
        let p = s.drop_last();
        assert forall|i: int| 0 <= i < p.len() implies is_base58_char(#[trigger] p[i]) by {
            assert(p[i] == s[i]);
        }
        if p.len() > 0 {
            assert(p[0] == s[0]);
        } else {
            lemma_b58_digit(s[0]);
            assert(s.last() == s[0]);
        }
        lemma_b58_value_digits(p);
        lemma_b58_digit(s.last());
        let n = b58_value(s);
        assert(n / 58 == b58_value(p) && n % 58 == b58_digit(s.last()));
        assert(b58_digits(n) =~= s);
    }
}

/// The big-endian bytes of a number have no leading zero byte, and denote
/// the number.
pub proof fn lemma_be_min_bytes_value(n: nat)
    ensures
        be_value(be_min_bytes(n)) == n,
        be_min_bytes(n).len() == 0 || be_min_bytes(n)[0] != 0,
        n > 0 ==> be_min_bytes(n).len() > 0,
    decreases n,
{
    if n > 0 {
        lemma_be_min_bytes_value(n / 256);
        let b = be_min_bytes(n);
        assert(b.drop_last() =~= be_min_bytes(n / 256));
        if n / 256 > 0 {
            assert(b[0] == be_min_bytes(n / 256)[0]);
        }
    }
}

/// The leading `1`s of `s` are `1`s, and the letter after them is not.
pub proof fn lemma_leading_ones(s: Seq<char>)
    ensures
        leading_ones(s) <= s.len(),
        forall|i: int| 0 <= i < leading_ones(s) ==> #[trigger] s[i] == '1',
        leading_ones(s) < s.len() ==> s[leading_ones(s) as int] != '1',
    decreases s.len(),
{
    if s.len() > 0 && s[0] == '1' {
        lemma_leading_ones(s.drop_first());
        assert forall|i: int| 0 <= i < leading_ones(s) implies #[trigger] s[i] == '1' by {
            if i > 0 {
                assert(s[i] == s.drop_first()[i - 1]);
            }
        }
    }
}

/// The number of zero bytes at the start of `k` zero bytes followed by `b`.
pub proof fn lemma_leading_zero_bytes_after_zeros(k: nat, b: Seq<u8>)
    ensures
        leading_zero_bytes(Seq::new(k, |i: int| 0u8) + b) == k + leading_zero_bytes(b),
    decreases k,
{
    if k > 0 {
        let t = Seq::new(k, |i: int| 0u8) + b;
        assert(t.drop_first() =~= Seq::new((k - 1) as nat, |i: int| 0u8) + b);
        lemma_leading_zero_bytes_after_zeros((k - 1) as nat, b);
    }
}

/// Base58 text decodes to bytes that encode back to the same text.
pub proof fn lemma_bs58_text_round_trip(text: Seq<char>)
    requires
        forall|i: int| 0 <= i < text.len() ==> is_base58_char(#[trigger] text[i]),
    ensures
        bs58_bytes(text) is Some,
        bs58_text(bs58_bytes(text).unwrap()) == text,
{
    let z = leading_ones(text);
    let rest = text.skip(z as int);
    let v = b58_value(rest);
    let m = be_min_bytes(v);
    let bytes = Seq::new(z, |i: int| 0u8) + m;
    lemma_leading_ones(text);
    assert forall|i: int| 0 <= i < rest.len() implies is_base58_char(#[trigger] rest[i]) by {
        assert(rest[i] == text[i + z]);
    }
    if rest.len() > 0 {
        assert(rest[0] == text[z as int]);
    }
    lemma_b58_value_digits(rest);
    lemma_be_min_bytes_value(v);
    lemma_leading_zero_bytes_after_zeros(z, m);
    assert(leading_zero_bytes(m) == 0);
    assert(bytes.skip(z as int) =~= m);
    assert(Seq::new(z, |i: int| '1') + rest =~= text);
}

/// Encodes `data` in base58 (Bitcoin alphabet) with
/// `bs58::encode(..).into_string()`: a `1` for each leading zero byte, then
/// the digits of the value of the rest. The output buffer it sizes always
/// fits, so the call does not fail.
#[verifier::external_body]
pub(crate) fn bs58_encode(data: &[u8]) -> (res: String)
    ensures
        res@ == bs58_text(data@),
{
    bs58::encode(data).into_string()
}

/// Decodes the base58 text `text` with `bs58::decode(..).into_vec()`: a zero
/// byte for each leading `1`, then the big-endian bytes of the value of the
/// rest. It fails (`None`) exactly on a text with a letter outside the
/// Bitcoin alphabet: the buffer it decodes into is as long as the text, and
/// the bytes of a text never outnumber its letters.
#[verifier::external_body]
pub(crate) fn bs58_decode(text: &str) -> (res: Option<Vec<u8>>)
    ensures
        match res {
            Some(v) => bs58_bytes(text@) == Some(v@),
            None => bs58_bytes(text@) is None,
        },
{
    bs58::decode(text).into_vec().ok()
}

/// The decimal digit `d`.
pub open spec fn digit_char(d: nat) -> char {
    (48 + d) as char
}

/// The decimal form of `n`, without leading zeros.
pub open spec fn decimal(n: nat) -> Seq<char>
    decreases n,
{
    if n < 10 {
        seq![digit_char(n)]
    } else {
        decimal(n / 10).push(digit_char(n % 10))
    }
}

/// The number that the decimal digits `s` denote, most significant first.
pub open spec fn decimal_value(s: Seq<char>) -> nat
    decreases s.len(),
{
    if s.len() == 0 {
        0
    } else {
        decimal_value(s.drop_last()) * 10 + ((s.last() as int - 48) as nat)
    }
}

/// The decimal digit `d` is the character of code `48 + d`.
proof fn lemma_digit_char(d: nat)
    requires
        d < 10,
    ensures
        digit_char(d) as int == 48 + d,
        '0' <= digit_char(d) <= '9',
{
}

/// The decimal form of `n` is made of digits and reads back as `n`.
pub proof fn lemma_decimal_value(n: nat)
    ensures
        decimal(n).len() > 0,
        forall|i: int| 0 <= i < decimal(n).len() ==> '0' <= #[trigger] decimal(n)[i] <= '9',
        decimal_value(decimal(n)) == n,
    decreases n,
{
    if n >= 10 {
        lemma_decimal_value(n / 10);
        lemma_digit_char(n % 10);
        let d = decimal(n);
        assert(d.drop_last() =~= decimal(n / 10));
        assert(d.last() == digit_char(n % 10));
        assert(decimal_value(d) == decimal_value(decimal(n / 10)) * 10 + (n % 10));
        assert forall|i: int| 0 <= i < d.len() implies '0' <= #[trigger] d[i] <= '9' by {
            if i < d.len() - 1 {
                assert(d[i] == decimal(n / 10)[i]);
            }
        }
    } else {
        lemma_digit_char(n);
        assert(decimal(n).drop_last() =~= Seq::<char>::empty());
        assert(decimal(n).last() == digit_char(n));
        assert(decimal_value(decimal(n)) == decimal_value(Seq::<char>::empty()) * 10 + n);
    }
}

/// The decimal form of `v`, as `u16::to_string` writes it.
#[verifier::external_body]
pub(crate) fn u16_to_string(v: u16) -> (res: String)
    ensures
        res@ == decimal(v as nat),
{
    v.to_string()
}

} // verus!
