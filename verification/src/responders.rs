use vstd::prelude::*;

verus! {

/// The decimal digits of `n` as ASCII bytes, most significant first, with no
/// leading zero.
pub open spec fn decimal(n: nat) -> Seq<u8>
    decreases n,
{
    if n < 10 {
        seq![(48 + n) as u8]
    } else {
        decimal(n / 10).push((48 + n % 10) as u8)
    }
}

/// The number that the ASCII decimal digits `s` write.
pub open spec fn decimal_value(s: Seq<u8>) -> nat
    decreases s.len(),
{
    if s.len() == 0 {
        0
    } else {
        decimal_value(s.drop_last()) * 10 + (s.last() - 48) as nat
    }
}

/// An ASCII decimal digit.
pub open spec fn is_digit(b: u8) -> bool {
    48 <= b <= 57
}

/// The entity tag of a file whose modification time hashes to `hash`: the
/// hash in decimal, as the header value writes a number.
pub fn etag(hash: u64) -> (r: Vec<u8>)
    ensures
        r@ == decimal(hash as nat),
{
    let mut digits: Vec<u8> = Vec::new();
    digits.push(48 + (hash % 10) as u8);
    let mut rest = hash / 10;
    while rest > 0
        invariant
            rest > 0 ==> decimal(hash as nat) =~= decimal(rest as nat) + digits@,
            rest == 0 ==> decimal(hash as nat) =~= digits@,
        decreases rest,
    {
        let d = 48 + (rest % 10) as u8;
        digits.insert(0, d);
        rest = rest / 10;
    }
    digits
}

/// Whether two byte strings are the same.
fn same_bytes(a: &[u8], b: &[u8]) -> (r: bool)
    ensures
        r == (a@ == b@),
{
    if a.len() != b.len() {
        return false;
    }
    let mut i: usize = 0;
    while i < a.len()
        invariant
            a@.len() == b@.len(),
            i <= a@.len(),
            forall|j: int| 0 <= j < i ==> a@[j] == b@[j],
        decreases a@.len() - i,
    {
        if a[i] != b[i] {
            return false;
        }
        i = i + 1;
    }
    assert(a@ =~= b@);
    true
}

/// Whether a file whose modification time hashes to `hash` is answered "not
/// modified": the request's `If-None-Match` header is there and is exactly
/// the file's entity tag.
pub fn is_not_modified(if_none_match: Option<&[u8]>, hash: u64) -> (r: bool)
    ensures
        r == (if_none_match matches Some(h) && h@ == decimal(hash as nat)),
{
    match if_none_match {
        None => false,
        Some(h) => {
            let tag = etag(hash);
            same_bytes(h, tag.as_slice())
        },
    }
}

} // verus!
