//! The tags that a pool gives its blocks.
use vstd::prelude::*;
use vstd::string::StringExecFns;

verus! {

/// The decimal digit for `d`, which is below ten.
pub open spec fn digit_char(d: nat) -> char {
    ((d + 48) as u8) as char
}

/// `n` in decimal, most significant digit first, without leading zeros.
pub open spec fn decimal(n: nat) -> Seq<char>
    decreases n,
{
    if n < 10 {
        seq![digit_char(n)]
    } else {
        decimal(n / 10).push(digit_char(n % 10))
    }
}

/// The tag of a block stored under `key` when the clock read `stamp`:
/// `SIG-`, the key, `-`, and the stamp in decimal.
pub open spec fn block_tag(key: Seq<char>, stamp: nat) -> Seq<char> {
    seq!['S', 'I', 'G', '-'] + key + seq!['-'] + decimal(stamp)
}

/// Relies on `u128::to_string`, through `Display`: the number in decimal,
/// without leading zeros.
#[verifier::external_body]
fn decimal_string(n: u128) -> (r: String)
    ensures
        r@ == decimal(n as nat),
{
    n.to_string()
}

/// The tag of a block stored under `key` when the clock read `stamp`.
pub(crate) fn format_tag(key: &str, stamp: u128) -> (r: String)
    ensures
        r@ == block_tag(key@, stamp as nat),
{
    proof {
        reveal_strlit("SIG-");
        reveal_strlit("-");
    }
    let digits = decimal_string(stamp);
    let mut tag = String::from_str("SIG-");
    tag.append(key);
    tag.append("-");
    tag.append(digits.as_str());
    assert(tag@ =~= block_tag(key@, stamp as nat));
    tag
}

} // verus!
