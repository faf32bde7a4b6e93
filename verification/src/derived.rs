//! Derived strings: terminator-delimited byte strings built from decoder
//! output, and the formatting of field identifiers.

use vstd::prelude::*;

verus! {

/// The terminator byte that closes every derived string.
pub open spec fn terminator() -> u8 {
    0u8
}

/// A text holds no terminator byte, so it can become a derived string.
pub open spec fn nul_free(text: Seq<u8>) -> bool {
    !text.contains(terminator())
}

/// The stored form of a derived string: the text followed by one terminator.
pub open spec fn terminated(text: Seq<u8>) -> Seq<u8> {
    text + seq![terminator()]
}

/// A stored string is a derived string: one closing terminator byte and
/// no terminator anywhere before it.
pub open spec fn is_derived(s: Seq<u8>) -> bool {
    &&& s.len() >= 1
    &&& s[s.len() - 1] == terminator()
    &&& forall|i: int| 0 <= i < s.len() - 1 ==> s[i] != terminator()
}

/// A terminated clean text is a derived string, and the text is what stands
/// before the terminator.
pub proof fn lemma_terminated_is_derived(text: Seq<u8>)
    requires
        nul_free(text),
    ensures
        is_derived(terminated(text)),
        terminated(text).len() == text.len() + 1,
        terminated(text).subrange(0, text.len() as int) == text,
{
    let s = terminated(text);
    assert forall|i: int| 0 <= i < s.len() - 1 implies s[i] != terminator() by {
        assert(s[i] == text[i]);
        assert(!text.contains(terminator()));
    }
    assert(s.subrange(0, text.len() as int) =~= text);
}

/// The decimal digits of `n`, most significant first, as ASCII bytes.
pub open spec fn dec_bytes(n: nat) -> Seq<u8>
    decreases n,
{
    if n < 10 {
        seq![(48 + n) as u8]
    } else {
        dec_bytes(n / 10).push((48 + n % 10) as u8)
    }
}

/// The identifier under which a field is reported: `{ifd index}.{tag name}`.
pub open spec fn key_bytes(ifd_index: u16, tag: Seq<u8>) -> Seq<u8> {
    dec_bytes(ifd_index as nat) + seq![46u8] + tag
}

/// Decimal digits are never the terminator byte.
pub proof fn lemma_dec_bytes_nul_free(n: nat)
    ensures
        nul_free(dec_bytes(n)),
    decreases n,
{
    if n >= 10 {
        lemma_dec_bytes_nul_free(n / 10);
    }
    assert forall|i: int| 0 <= i < dec_bytes(n).len() implies dec_bytes(n)[i] != terminator() by {
        if n < 10 {
        } else {
            if i < dec_bytes(n / 10).len() {
                assert(dec_bytes(n / 10)[i] != terminator());
            }
        }
    }
}

/// A field identifier holds a terminator byte exactly when its tag name does.
pub proof fn lemma_key_bytes_nul_free(ifd_index: u16, tag: Seq<u8>)
    ensures
        nul_free(key_bytes(ifd_index, tag)) <==> nul_free(tag),
{
    lemma_dec_bytes_nul_free(ifd_index as nat);
    let k = key_bytes(ifd_index, tag);
    let d = dec_bytes(ifd_index as nat);
    if nul_free(tag) {
        assert forall|i: int| 0 <= i < k.len() implies k[i] != terminator() by {
            if i < d.len() {
                assert(d[i] != terminator());
            } else if i == d.len() {
            } else {
                assert(tag[i - d.len() - 1] != terminator());
            }
        }
    } else {
        let j = choose|j: int| 0 <= j < tag.len() && tag[j] == terminator();
        assert(k[d.len() + 1 + j] == terminator());
    }
}

/// Scans `text` for the terminator byte.
pub fn contains_nul(text: &[u8]) -> (r: bool)
    ensures
        r == !nul_free(text@),
{
    let mut i: usize = 0;
    while i < text.len()
        invariant
            0 <= i <= text@.len(),
            forall|k: int| 0 <= k < i ==> text@[k] != terminator(),
        decreases text@.len() - i,
    {
        if text[i] == 0 {
            assert(text@.contains(terminator()));
            return true;
        }
        i = i + 1;
    }
    assert(!text@.contains(terminator()));
    false
}

/// Appends the decimal digits of `n` to `out`, most significant first.
pub fn push_dec_bytes(n: u16, out: &mut Vec<u8>)
    ensures
        final(out)@ == old(out)@ + dec_bytes(n as nat),
    decreases n,
{
    if n >= 10 {
        push_dec_bytes(n / 10, out);
    }
    let digit: u8 = 48 + (n % 10) as u8;
    out.push(digit);
    proof {
        if n < 10 {
            assert(dec_bytes(n as nat) =~= seq![digit]);
            assert(out@ =~= old(out)@ + dec_bytes(n as nat));
        } else {
            assert((n / 10) as nat == n as nat / 10);
            assert(dec_bytes(n as nat) == dec_bytes(n as nat / 10).push(digit));
            assert(out@ =~= old(out)@ + dec_bytes(n as nat));
        }
    }
}

/// Builds the identifier bytes for a field: `{ifd index}.{tag name}`.
pub fn build_key(ifd_index: u16, tag: &[u8]) -> (r: Vec<u8>)
    ensures
        r@ == key_bytes(ifd_index, tag@),
{
    let mut out: Vec<u8> = Vec::new();
    push_dec_bytes(ifd_index, &mut out);
    out.push(46);
    out.extend_from_slice(tag);
    proof {
        assert(out@ =~= key_bytes(ifd_index, tag@));
    }
    out
}

} // verus!
