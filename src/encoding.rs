//! The canonical byte encoding that record digests are taken over.
//!
//! Records are written as compact JSON objects with a fixed field order:
//! strings are escaped as JSON strings, integers are written in decimal and
//! byte arrays as JSON arrays of decimal numbers.
use vstd::prelude::*;

verus! {

/// What `serde_json::to_vec` writes for a string: the string as a quoted,
/// escaped JSON string literal.
pub uninterp spec fn json_str_of(s: Seq<char>) -> Seq<u8>;

/// Relies on serde_json::to_vec on a `str`: the compact JSON text of that
/// string. Writing a string into a `Vec` never fails.
#[verifier::external_body]
pub(crate) fn json_str(s: &str) -> (r: Vec<u8>)
    ensures
        r@ == json_str_of(s@),
{
    match serde_json::to_vec(s) {
        Ok(v) => v,
        Err(_) => Vec::new(),
    }
}

/// Decimal digits of `n` in ASCII, most significant first, with no leading zeros.
pub open spec fn decimal(n: nat) -> Seq<u8>
    decreases n,
{
    if n < 10 {
        seq![(48 + n) as u8]
    } else {
        decimal(n / 10) + seq![(48 + n % 10) as u8]
    }
}

/// The items of a JSON array of strings, separated by commas.
pub open spec fn json_str_items(items: Seq<String>) -> Seq<u8>
    decreases items.len(),
{
    if items.len() == 0 {
        seq![]
    } else if items.len() == 1 {
        json_str_of(items[0]@)
    } else {
        json_str_items(items.drop_last()) + seq![',' as u8] + json_str_of(items.last()@)
    }
}

/// A JSON array of strings.
pub open spec fn json_str_list(items: Seq<String>) -> Seq<u8> {
    seq!['[' as u8] + json_str_items(items) + seq![']' as u8]
}

/// The items of a JSON array of numbers, separated by commas.
pub open spec fn json_byte_items(b: Seq<u8>) -> Seq<u8>
    decreases b.len(),
{
    if b.len() == 0 {
        seq![]
    } else if b.len() == 1 {
        decimal(b[0] as nat)
    } else {
        json_byte_items(b.drop_last()) + seq![',' as u8] + decimal(b.last() as nat)
    }
}

/// A byte array written as a JSON array of numbers.
pub open spec fn json_byte_list(b: Seq<u8>) -> Seq<u8> {
    seq!['[' as u8] + json_byte_items(b) + seq![']' as u8]
}

/// Appends the decimal rendering of `n` to `out`.
pub fn push_decimal(out: &mut Vec<u8>, n: u64)
    ensures
        final(out)@ == old(out)@ + decimal(n as nat),
    decreases n,
{
    if n >= 10 {
        push_decimal(out, n / 10);
    }
    out.push((48 + n % 10) as u8);
    assert(final(out)@ =~= old(out)@ + decimal(n as nat));
}

/// Appends the bytes of `b` to `out`.
pub fn push_all(out: &mut Vec<u8>, b: &[u8])
    ensures
        final(out)@ == old(out)@ + b@,
{
    let mut i: usize = 0;
    while i < b.len()
        invariant
            i <= b@.len(),
            out@ == old(out)@ + b@.subrange(0, i as int),
        decreases b@.len() - i,
    {
        out.push(b[i]);
        i = i + 1;
        assert(out@ =~= old(out)@ + b@.subrange(0, i as int));
    }
    assert(b@.subrange(0, i as int) =~= b@);
}

/// Appends the JSON array of the strings in `items` to `out`.
pub fn push_json_str_list(out: &mut Vec<u8>, items: &Vec<String>)
    ensures
        final(out)@ == old(out)@ + json_str_list(items@),
{
    out.push('[' as u8);
    let mut i: usize = 0;
    while i < items.len()
        invariant
            i <= items@.len(),
            out@ == old(out)@ + seq!['[' as u8] + json_str_items(items@.take(i as int)),
        decreases items@.len() - i,
    {
        let ghost prev = out@;
        if i > 0 {
            out.push(',' as u8);
        }
        let s = json_str(items[i].as_str());
        push_all(out, s.as_slice());
        proof {
            let t = items@.take(i + 1);
            assert(t.drop_last() =~= items@.take(i as int));
            assert(t.last() == items@[i as int]);
            if i == 0 {
                assert(json_str_items(items@.take(0)) =~= seq![]);
                assert(json_str_items(t) == json_str_of(t[0]@));
            }
            assert(out@ =~= old(out)@ + seq!['[' as u8] + json_str_items(t));
        }
        i = i + 1;
    }
    assert(items@.take(i as int) =~= items@);
    out.push(']' as u8);
    assert(final(out)@ =~= old(out)@ + json_str_list(items@));
}

/// Appends the JSON array of the numbers in `b` to `out`.
pub fn push_json_byte_list(out: &mut Vec<u8>, b: &[u8; 32])
    ensures
        final(out)@ == old(out)@ + json_byte_list(b@),
{
    out.push('[' as u8);
    let mut i: usize = 0;
    while i < 32
        invariant
            i <= 32,
            b@.len() == 32,
            out@ == old(out)@ + seq!['[' as u8] + json_byte_items(b@.take(i as int)),
        decreases 32 - i,
    {
        if i > 0 {
            out.push(',' as u8);
        }
        push_decimal(out, b[i] as u64);
        proof {
            let t = b@.take(i + 1);
            assert(t.drop_last() =~= b@.take(i as int));
            assert(t.last() == b@[i as int]);
            if i == 0 {
                assert(json_byte_items(b@.take(0)) =~= seq![]);
                assert(json_byte_items(t) == decimal(t[0] as nat));
            }
            assert(out@ =~= old(out)@ + seq!['[' as u8] + json_byte_items(t));
        }
        i = i + 1;
    }
    assert(b@.take(32) =~= b@);
    out.push(']' as u8);
    assert(final(out)@ =~= old(out)@ + json_byte_list(b@));
}

} // verus!
