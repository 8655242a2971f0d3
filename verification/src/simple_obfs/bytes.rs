//! Byte-level vocabulary shared by the two codecs.

use vstd::prelude::*;

verus! {

/// The big-endian value of two bytes.
pub open spec fn be16(hi: u8, lo: u8) -> nat {
    (hi as nat) * 256 + (lo as nat)
}

/// The two bytes of `n`, most significant first.
pub open spec fn be16_bytes(n: nat) -> Seq<u8>
    recommends
        n < 0x1_0000,
{
    seq![(n / 256) as u8, (n % 256) as u8]
}

/// The smaller of two lengths.
pub open spec fn shorter(a: nat, b: nat) -> nat {
    if a <= b {
        a
    } else {
        b
    }
}

/// The blank line that ends an HTTP head stands at offset `i` of `data`.
pub open spec fn double_crlf_at(data: Seq<u8>, i: int) -> bool {
    &&& 0 <= i
    &&& i + 4 <= data.len()
    &&& data[i] == 0x0d
    &&& data[i + 1] == 0x0a
    &&& data[i + 2] == 0x0d
    &&& data[i + 3] == 0x0a
}

/// The first offset from `from` on at which a blank line stands.
pub open spec fn double_crlf_from(data: Seq<u8>, from: nat) -> Option<nat>
    decreases data.len() - from,
{
    if from + 4 > data.len() {
        None
    } else if double_crlf_at(data, from as int) {
        Some(from)
    } else {
        double_crlf_from(data, from + 1)
    }
}

/// The first offset at which a blank line stands.
pub open spec fn first_double_crlf(data: Seq<u8>) -> Option<nat> {
    double_crlf_from(data, 0)
}

/// What follows the head of an HTTP message: everything behind the first
/// blank line, or nothing while that line has not come.
pub open spec fn http_body(data: Seq<u8>) -> Seq<u8> {
    match first_double_crlf(data) {
        Some(i) => data.skip(i as int + 4),
        None => Seq::empty(),
    }
}

/// A search that passes over `[from, at)` and finds a blank line at `at`.
proof fn lemma_double_crlf_found(data: Seq<u8>, from: nat, at: nat)
    requires
        from <= at,
        double_crlf_at(data, at as int),
        forall|j: int| from <= j < at ==> !double_crlf_at(data, j),
    ensures
        double_crlf_from(data, from) == Some(at),
    decreases at - from,
{
    if from < at {
        lemma_double_crlf_found(data, from + 1, at);
    }
}

/// A search that finds no blank line at all.
proof fn lemma_double_crlf_absent(data: Seq<u8>, from: nat)
    requires
        forall|j: int| from <= j ==> !double_crlf_at(data, j),
    ensures
        double_crlf_from(data, from) is None,
    decreases data.len() - from,
{
    if from + 4 <= data.len() {
        lemma_double_crlf_absent(data, from + 1);
    }
}

/// A blank line before which there is none is what the search finds.
pub proof fn lemma_first_double_crlf_at(data: Seq<u8>, at: nat)
    requires
        double_crlf_at(data, at as int),
        forall|j: int| 0 <= j < at ==> !double_crlf_at(data, j),
    ensures
        first_double_crlf(data) == Some(at),
{
    lemma_double_crlf_found(data, 0, at);
}

/// The search answers with a blank line before which there is none, and
/// answers nothing only if there is no blank line.
pub proof fn lemma_first_double_crlf(data: Seq<u8>)
    ensures
        first_double_crlf(data) matches Some(i) ==> {
            &&& double_crlf_at(data, i as int)
            &&& forall|j: int| 0 <= j < i ==> !double_crlf_at(data, j)
        },
        first_double_crlf(data) is None ==> forall|j: int| !double_crlf_at(data, j),
{
    lemma_double_crlf_scan(data, 0);
}

proof fn lemma_double_crlf_scan(data: Seq<u8>, from: nat)
    ensures
        double_crlf_from(data, from) matches Some(i) ==> {
            &&& from <= i
            &&& double_crlf_at(data, i as int)
            &&& forall|j: int| from <= j < i ==> !double_crlf_at(data, j)
        },
        double_crlf_from(data, from) is None ==> forall|j: int|
            from <= j ==> !double_crlf_at(data, j),
    decreases data.len() - from,
{
    if from + 4 <= data.len() && !double_crlf_at(data, from as int) {
        lemma_double_crlf_scan(data, from + 1);
    }
}

/// A blank line that stands in the first part of a stream stays the first
/// one, whatever follows.
pub proof fn lemma_first_double_crlf_extends(data: Seq<u8>, more: Seq<u8>)
    requires
        first_double_crlf(data) is Some,
    ensures
        first_double_crlf(data + more) == first_double_crlf(data),
{
    lemma_first_double_crlf(data);
    let at = first_double_crlf(data)->0;
    let all = data + more;
    assert(double_crlf_at(all, at as int));
    assert forall|j: int| 0 <= j < at implies !double_crlf_at(all, j) by {
        assert(!double_crlf_at(data, j));
    }
    lemma_double_crlf_found(all, 0, at);
}

/// Once the blank line has come, what follows it is body, piece by piece.
pub proof fn lemma_http_body_extends(data: Seq<u8>, more: Seq<u8>)
    requires
        first_double_crlf(data) is Some,
    ensures
        http_body(data + more) == http_body(data) + more,
{
    lemma_first_double_crlf(data);
    lemma_first_double_crlf_extends(data, more);
    let at = first_double_crlf(data)->0;
    assert((data + more).skip(at as int + 4) =~= data.skip(at as int + 4) + more);
}

/// Finds the first blank line.
pub fn find_double_crlf(data: &[u8]) -> (found: Option<usize>)
    ensures
        match found {
            Some(i) => first_double_crlf(data@) == Some(i as nat),
            None => first_double_crlf(data@) is None,
        },
        found matches Some(i) ==> i + 4 <= data.len(),
{
    if data.len() < 4 {
        return None;
    }
    let last: usize = data.len() - 4;
    let mut i: usize = 0;
    while i <= last
        invariant
            last + 4 == data.len(),
            i <= last + 1,
            forall|j: int| 0 <= j < i ==> !double_crlf_at(data@, j),
        decreases last + 1 - i,
    {
        if data[i] == 0x0d && data[i + 1] == 0x0a && data[i + 2] == 0x0d && data[i + 3] == 0x0a {
            proof {
                lemma_double_crlf_found(data@, 0, i as nat);
            }
            return Some(i);
        }
        i = i + 1;
    }
    proof {
        lemma_double_crlf_absent(data@, 0);
    }
    None
}

/// The big-endian value of two bytes.
pub fn read_be16(hi: u8, lo: u8) -> (n: usize)
    ensures
        n == be16(hi, lo),
        n < 0x1_0000,
{
    (hi as usize) * 256 + (lo as usize)
}

/// Appends the two bytes of `n`, most significant first.
pub fn push_be16(out: &mut Vec<u8>, n: usize)
    requires
        n < 0x1_0000,
    ensures
        final(out)@ == old(out)@ + be16_bytes(n as nat),
{
    out.push((n / 256) as u8);
    out.push((n % 256) as u8);
}

/// The two bytes of a number read back as that number.
pub proof fn lemma_be16_round_trip(n: nat)
    requires
        n < 0x1_0000,
    ensures
        be16_bytes(n).len() == 2,
        be16(be16_bytes(n)[0], be16_bytes(n)[1]) == n,
{
}

/// Two bytes are the quotient and the remainder of their value by 256, and
/// the other way round: the most significant byte stands first.
pub proof fn law_big_endian(hi: u8, lo: u8, n: nat)
    requires
        n < 0x1_0000,
    ensures
        be16(hi, lo) / 256 == hi,
        be16(hi, lo) % 256 == lo as nat,
        be16_bytes(n).len() == 2,
        be16_bytes(n)[0] * 256 + be16_bytes(n)[1] == n,
        be16_bytes(be16(hi, lo)) == seq![hi, lo],
{
    assert(be16_bytes(be16(hi, lo)) =~= seq![hi, lo]);
}

/// The smaller of two lengths is one of them and exceeds neither.
pub proof fn law_shorter(a: nat, b: nat)
    ensures
        shorter(a, b) <= a,
        shorter(a, b) <= b,
        shorter(a, b) == a || shorter(a, b) == b,
{
}

/// What the search finds is carriage return, line feed, carriage return, line
/// feed, with no such four bytes before; it finds nothing only where they
/// stand nowhere. What follows them, and all of it, is the body.
pub proof fn law_blank_line(data: Seq<u8>, i: int)
    ensures
        first_double_crlf(data) matches Some(at) ==> {
            &&& at + 4 <= data.len()
            &&& data.subrange(at as int, at as int + 4) == seq![13u8, 10, 13, 10]
            &&& http_body(data) == data.subrange(at as int + 4, data.len() as int)
        },
        0 <= i && i + 4 <= data.len() && data.subrange(i, i + 4) == seq![13u8, 10, 13, 10] ==> (
        first_double_crlf(data) matches Some(at) && at <= i),
        first_double_crlf(data) is None ==> http_body(data).len() == 0,
{
    lemma_first_double_crlf(data);
    if let Some(at) = first_double_crlf(data) {
        assert(data.subrange(at as int, at as int + 4) =~= seq![13u8, 10, 13, 10]);
        assert(http_body(data) =~= data.subrange(at as int + 4, data.len() as int));
    }
    if 0 <= i && i + 4 <= data.len() && data.subrange(i, i + 4) == seq![13u8, 10, 13, 10] {
        let four = data.subrange(i, i + 4);
        assert(four[0] == 13 && four[1] == 10 && four[2] == 13 && four[3] == 10);
        assert(double_crlf_at(data, i));
    }
}

} // verus!
