use vstd::prelude::*;

use vstd::string::StringExecFns;
use vstd::string::StringSliceAdditionalSpecFns;

verus! {

/// The ASCII character for a decimal digit value below 10.
pub open spec fn dec_digit(n: u64) -> char
    recommends
        n < 10,
{
    (((n + 0x30) as u8) as char)
}

/// The decimal notation of `x`, most significant digit first, no leading
/// zeros (a single zero for 0).
pub open spec fn dec_of(x: u64) -> Seq<char>
    decreases x,
{
    if x < 10 {
        seq![dec_digit(x)]
    } else {
        dec_of(x / 10).push(dec_digit(x % 10))
    }
}

/// Relies on alloc::string::String::push: appends one character at the end.
#[verifier::external_body]
fn push_char(s: &mut String, c: char)
    ensures
        final(s)@ == old(s)@.push(c),
{
    s.push(c);
}

/// Appends the decimal notation of `x` to `s`.
pub fn append_dec(s: &mut String, x: u64)
    ensures
        final(s)@ == old(s)@ + dec_of(x),
    decreases x,
{
    if x >= 10 {
        append_dec(s, x / 10);
    }
    let d: u8 = #[verifier::truncate] ((x % 10) as u8);
    let c: char = (0x30 + d) as char;
    push_char(s, c);
    proof {
        if x < 10 {
            assert(old(s)@ + dec_of(x) =~= old(s)@.push(c));
        } else {
            assert(old(s)@ + dec_of(x) =~= (old(s)@ + dec_of(x / 10)).push(c));
        }
    }
}

/// The decimal notation of `x` as a fresh string.
pub fn u64_to_dec(x: u64) -> (s: String)
    ensures
        s@ == dec_of(x),
{
    let mut s = String::new();
    append_dec(&mut s, x);
    proof {
        assert(s@ =~= dec_of(x));
    }
    s
}

/// Tests two strings for equality of their character sequences, by comparing
/// their UTF-8 bytes.
pub fn str_equal(a: &str, b: &str) -> (r: bool)
    ensures
        r == (a@ == b@),
{
    proof {
        vstd::utf8::encode_utf8_decode_utf8(a@);
        vstd::utf8::encode_utf8_decode_utf8(b@);
    }
    let ab = a.as_bytes();
    let bb = b.as_bytes();
    if ab.len() != bb.len() {
        return false;
    }
    let mut i: usize = 0;
    while i < ab.len()
        invariant
            i <= ab@.len(),
            ab@.len() == bb@.len(),
            ab@ == a.spec_bytes(),
            bb@ == b.spec_bytes(),
            forall|j: int| 0 <= j < i ==> ab@[j] == bb@[j],
        decreases ab@.len() - i,
    {
        if ab[i] != bb[i] {
            return false;
        }
        i = i + 1;
    }
    proof {
        assert(a.spec_bytes() =~= b.spec_bytes());
        vstd::utf8::encode_utf8_decode_utf8(a@);
        vstd::utf8::encode_utf8_decode_utf8(b@);
    }
    true
}

/// The acknowledgment a worker returns for an accepted bid, naming the
/// auction and the chain.
pub open spec fn ack_message(chain_id: u64, auction_id: Seq<char>) -> Seq<char> {
    "ACK: Auction "@ + auction_id + " on Chain "@ + dec_of(chain_id) + " bid accepted."@
}

/// Builds the acknowledgment string for an accepted bid.
pub fn ack_message_string(chain_id: u64, auction_id: &str) -> (s: String)
    ensures
        s@ == ack_message(chain_id, auction_id@),
{
    let mut s = "ACK: Auction ".to_owned();
    s.append(auction_id);
    s.append(" on Chain ");
    append_dec(&mut s, chain_id);
    s.append(" bid accepted.");
    proof {
        assert(s@ =~= ack_message(chain_id, auction_id@));
    }
    s
}

} // verus!
