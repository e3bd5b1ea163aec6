//! The seed of a new node: a configuration file written with a placeholder
//! gets a random seed in its place on first start.
use base58::ToBase58;
use vstd::prelude::*;
use crate::encoding::bs58_text;

verus! {

/// The text that stands for a seed still to be generated.
pub open spec fn seed_placeholder() -> Seq<char> {
    seq![
        'A', 'U', 'T', 'O', 'M', 'A', 'T', 'I', 'C', 'A', 'L', 'L', 'Y', '_', 'G', 'E', 'N', 'E',
        'R', 'A', 'T', 'E', 'D', '_', 'O', 'N', '_', 'F', 'I', 'R', 'S', 'T', '_', 'S', 'T', 'A',
        'R', 'T',
    ]
}

/// Whether `pattern` occurs in `s`.
pub open spec fn contains_text(s: Seq<char>, pattern: Seq<char>) -> bool {
    exists|i: int| 0 <= i <= s.len() - pattern.len() && #[trigger] s.subrange(i, i + pattern.len()) == pattern
}

/// `s` with every occurrence of the non-empty `from` replaced by `to`,
/// taking occurrences from the left without overlap.
pub open spec fn replace_all(s: Seq<char>, from: Seq<char>, to: Seq<char>) -> Seq<char>
    decreases s.len(),
{
    if from.len() == 0 || s.len() < from.len() {
        s
    } else if s.subrange(0, from.len() as int) == from {
        to + replace_all(s.skip(from.len() as int), from, to)
    } else {
        seq![s[0]] + replace_all(s.skip(1), from, to)
    }
}

/// Whether `pattern` occurs in `s`, from `str::contains`.
#[verifier::external_body]
fn str_contains(s: &str, pattern: &str) -> (res: bool)
    ensures
        res == contains_text(s@, pattern@),
{
    s.contains(pattern)
}

/// `s` with every occurrence of the non-empty `from` replaced by `to`, from
/// `str::replace`, which replaces the matches from the left without overlap.
#[verifier::external_body]
fn str_replace(s: &str, from: &str, to: &str) -> (res: String)
    requires
        from@.len() > 0,
    ensures
        res@ == replace_all(s@, from@, to@),
{
    s.replace(from, to)
}

/// `data` in base58 (Bitcoin alphabet), from `base58::ToBase58::to_base58`:
/// a `1` for each leading zero byte, then the digits of the value of the
/// rest, as `bs58` writes it. (The crate's note of a 128-byte limit concerns
/// the fixed buffers of its decoder; its encoder sizes its buffer from the
/// input.)
#[verifier::external_body]
fn to_base58(data: &[u8]) -> (res: String)
    ensures
        res@ == bs58_text(data@),
{
    data.to_base58()
}

/// Whether a configuration text still asks for a seed to be generated.
pub fn needs_generated_seed(config: &str) -> (res: bool)
    ensures
        res == contains_text(config@, seed_placeholder()),
{
    let placeholder = "AUTOMATICALLY_GENERATED_ON_FIRST_START";
    proof {
        reveal_strlit("AUTOMATICALLY_GENERATED_ON_FIRST_START");
        assert(placeholder@ =~= seed_placeholder());
    }
    str_contains(config, placeholder)
}

/// The configuration text with the base58 form of `random_bytes` in place of
/// every seed placeholder.
pub fn insert_generated_seed(config: &str, random_bytes: &[u8]) -> (res: String)
    ensures
        res@ == replace_all(config@, seed_placeholder(), bs58_text(random_bytes@)),
{
    let placeholder = "AUTOMATICALLY_GENERATED_ON_FIRST_START";
    proof {
        reveal_strlit("AUTOMATICALLY_GENERATED_ON_FIRST_START");
        assert(placeholder@ =~= seed_placeholder());
    }
    let seed = to_base58(random_bytes);
    str_replace(config, placeholder, seed.as_str())
}

} // verus!
