//! Derivation of storage keys from account identities.
//!
//! A balance lives under the raw bytes of its account. An allowance lives
//! under a tag, the owner and the spender, joined by a separator byte. With
//! addresses of one fixed length the two namespaces never meet, and distinct
//! (owner, spender) pairs never share a key.

use vstd::prelude::*;

verus! {

/// Number of bytes of an account identity.
pub const ADDRESS_LEN: usize = 20;

/// An account identity: opaque bytes, compared byte for byte.
pub type Address = [u8; 20];

/// The byte that joins the parts of a composite key: `/`.
pub const SEPARATOR: u8 = 0x2f;

/// The tag that opens every allowance key: the ASCII text `allowed`.
pub open spec fn allowance_tag() -> Seq<u8> {
    seq![0x61u8, 0x6cu8, 0x6cu8, 0x6fu8, 0x77u8, 0x65u8, 0x64u8]
}

/// The parts in order, with `sep` between each two neighbours.
pub open spec fn join_parts(parts: Seq<Seq<u8>>, sep: u8) -> Seq<u8>
    decreases parts.len(),
{
    if parts.len() == 0 {
        Seq::empty()
    } else if parts.len() == 1 {
        parts[0]
    } else {
        join_parts(parts.drop_last(), sep).push(sep) + parts.last()
    }
}

/// The byte strings that a list of slices holds.
pub open spec fn part_bytes(parts: Seq<&[u8]>) -> Seq<Seq<u8>> {
    Seq::new(parts.len(), |i: int| parts[i]@)
}

/// The key of the balance of `who`: the address itself.
pub open spec fn balance_key(who: Seq<u8>) -> Seq<u8> {
    who
}

/// The key of the allowance that `owner` grants to `spender`.
pub open spec fn allowance_key(owner: Seq<u8>, spender: Seq<u8>) -> Seq<u8> {
    join_parts(seq![allowance_tag(), owner, spender], SEPARATOR)
}

/// An allowance key written out: tag, separator, owner, separator, spender.
pub proof fn lemma_allowance_key_layout(owner: Seq<u8>, spender: Seq<u8>)
    ensures
        allowance_key(owner, spender) == allowance_tag().push(SEPARATOR) + owner + seq![SEPARATOR]
            + spender,
        allowance_key(owner, spender).len() == 9 + owner.len() + spender.len(),
{
    let parts = seq![allowance_tag(), owner, spender];
    let two = parts.drop_last();
    assert(two.drop_last() =~= seq![allowance_tag()]);
    assert(join_parts(two.drop_last(), SEPARATOR) == allowance_tag());
    assert(join_parts(two, SEPARATOR) == allowance_tag().push(SEPARATOR) + owner);
    assert(join_parts(parts, SEPARATOR) =~= allowance_tag().push(SEPARATOR) + owner
        + seq![SEPARATOR] + spender);
}

/// No allowance key granted by an address is the balance key of an address.
pub proof fn lemma_namespaces_disjoint(owner: Seq<u8>, spender: Seq<u8>, who: Seq<u8>)
    requires
        owner.len() == ADDRESS_LEN,
        who.len() == ADDRESS_LEN,
    ensures
        allowance_key(owner, spender) != balance_key(who),
{
    lemma_allowance_key_layout(owner, spender);
}

/// With owners of one length, an allowance key names one owner and one
/// spender.
pub proof fn lemma_allowance_key_injective(
    owner1: Seq<u8>,
    spender1: Seq<u8>,
    owner2: Seq<u8>,
    spender2: Seq<u8>,
)
    requires
        owner1.len() == owner2.len(),
        allowance_key(owner1, spender1) == allowance_key(owner2, spender2),
    ensures
        owner1 == owner2,
        spender1 == spender2,
{
    lemma_allowance_key_layout(owner1, spender1);
    lemma_allowance_key_layout(owner2, spender2);
    let key = allowance_key(owner1, spender1);
    let n = owner1.len() as int;
    assert(owner1 =~= key.subrange(8, 8 + n));
    assert(owner2 =~= key.subrange(8, 8 + n));
    assert(spender1 =~= key.subrange(9 + n, key.len() as int));
    assert(spender2 =~= key.subrange(9 + n, key.len() as int));
}

/// Appends the bytes of `part` to `key`.
fn append_bytes(key: &mut Vec<u8>, part: &[u8])
    ensures
        final(key)@ == old(key)@ + part@,
{
    let mut j: usize = 0;
    while j < part.len()
        invariant
            j <= part@.len(),
            key@ == old(key)@ + part@.take(j as int),
        decreases part@.len() - j,
    {
        key.push(part[j]);
        assert(part@.take(j + 1) =~= part@.take(j as int).push(part@[j as int]));
        j += 1;
    }
    assert(part@.take(part@.len() as int) =~= part@);
}

/// Joins the parts of a composite key with the separator.
pub fn make_key_by_parts(parts: Vec<&[u8]>) -> (key: Vec<u8>)
    ensures
        key@ == join_parts(part_bytes(parts@), SEPARATOR),
{
    let ghost all = part_bytes(parts@);
    let mut key: Vec<u8> = Vec::new();
    let mut i: usize = 0;
    while i < parts.len()
        invariant
            i <= parts@.len(),
            all == part_bytes(parts@),
            key@ == join_parts(all.take(i as int), SEPARATOR),
        decreases parts@.len() - i,
    {
        if i > 0 {
            key.push(SEPARATOR);
        }
        append_bytes(&mut key, parts[i]);
        proof {
            let next = all.take(i + 1);
            assert(next.drop_last() =~= all.take(i as int));
            assert(next.last() == parts@[i as int]@);
            if i == 0 {
                assert(key@ =~= next[0]);
            }
        }
        i += 1;
    }
    assert(all.take(parts@.len() as int) =~= all);
    key
}

/// The key of the allowance that `owner` grants to `spender`.
pub fn make_approve_key(owner: &Address, spender: &Address) -> (key: Vec<u8>)
    ensures
        key@ == allowance_key(owner@, spender@),
{
    let tag: [u8; 7] = [0x61, 0x6c, 0x6c, 0x6f, 0x77, 0x65, 0x64];
    let parts: Vec<&[u8]> = vec![tag.as_slice(), owner.as_slice(), spender.as_slice()];
    assert(tag@ =~= allowance_tag());
    assert(part_bytes(parts@) =~= seq![allowance_tag(), owner@, spender@]);
    make_key_by_parts(parts)
}

} // verus!
