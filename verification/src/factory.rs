//! The registry of pairs: the key under which a pair of assets is kept,
//! whichever of the two is named first.

use vstd::prelude::*;
use vstd::utf8::encode_utf8;
use crate::asset::{asset_name, AssetInfo};

verus! {

/// The bytes of an asset's name.
pub open spec fn asset_bytes(a: AssetInfo) -> Seq<u8> {
    encode_utf8(asset_name(a))
}

/// Whether the first sequence of bytes comes before the second or is equal
/// to it, in the order of a dictionary.
pub open spec fn bytes_le(a: Seq<u8>, b: Seq<u8>) -> bool
    decreases a.len(),
{
    if a.len() == 0 {
        true
    } else if b.len() == 0 {
        false
    } else if a[0] != b[0] {
        a[0] < b[0]
    } else {
        bytes_le(a.skip(1), b.skip(1))
    }
}

/// Two sequences that agree on their first `i` bytes are in the order of
/// what follows those bytes.
proof fn lemma_bytes_le_skip(a: Seq<u8>, b: Seq<u8>, i: int)
    requires
        0 <= i <= a.len(),
        i <= b.len(),
        forall|j: int| 0 <= j < i ==> a[j] == b[j],
    ensures
        bytes_le(a, b) == bytes_le(a.skip(i), b.skip(i)),
    decreases i,
{
    if i > 0 {
        lemma_bytes_le_skip(a, b, i - 1);
        let x = a.skip(i - 1);
        let y = b.skip(i - 1);
        assert(x[0] == a[i - 1]);
        assert(y[0] == b[i - 1]);
        assert(x.skip(1) =~= a.skip(i));
        assert(y.skip(1) =~= b.skip(i));
    } else {
        assert(a.skip(0) =~= a);
        assert(b.skip(0) =~= b);
    }
}

/// Compares two sequences of bytes in the order of a dictionary.
pub fn bytes_before_or_equal(a: &[u8], b: &[u8]) -> (r: bool)
    ensures
        r == bytes_le(a@, b@),
{
    let mut i: usize = 0;
    while i < a.len() && i < b.len()
        invariant
            0 <= i <= a.len(),
            i <= b.len(),
            forall|j: int| 0 <= j < i ==> a@[j] == b@[j],
        decreases a.len() - i,
    {
        if a[i] != b[i] {
            proof {
                lemma_bytes_le_skip(a@, b@, i as int);
                assert(a@.skip(i as int)[0] == a@[i as int]);
                assert(b@.skip(i as int)[0] == b@[i as int]);
            }
            return a[i] < b[i];
        }
        i = i + 1;
    }
    proof {
        lemma_bytes_le_skip(a@, b@, i as int);
    }
    i == a.len()
}

/// The key of a pair of assets: the bytes of the two names, the one that
/// comes first in the order of a dictionary first.
pub open spec fn spec_pair_key(asset_infos: [AssetInfo; 2]) -> Seq<u8> {
    let first = asset_bytes(asset_infos[0]);
    let second = asset_bytes(asset_infos[1]);
    if bytes_le(first, second) {
        first + second
    } else {
        second + first
    }
}

/// Appends bytes to a key.
fn extend(key: &mut Vec<u8>, bytes: &[u8])
    ensures
        final(key)@ == old(key)@ + bytes@,
{
    let ghost start = key@;
    let mut i: usize = 0;
    while i < bytes.len()
        invariant
            0 <= i <= bytes.len(),
            key@ == start + bytes@.take(i as int),
        decreases bytes.len() - i,
    {
        key.push(bytes[i]);
        assert(bytes@.take(i as int + 1) =~= bytes@.take(i as int).push(bytes@[i as int]));
        assert(key@ =~= start + bytes@.take(i as int + 1));
        i = i + 1;
    }
    assert(bytes@.take(bytes.len() as int) =~= bytes@);
}

impl AssetInfo {
    /// The bytes of the address or denomination.
    pub fn as_bytes(&self) -> (r: &[u8])
        ensures
            r@ == asset_bytes(*self),
    {
        self.name().as_str().as_bytes()
    }
}

/// The key under which a pair of assets is kept. It is the same whichever
/// of the two assets is named first.
pub fn pair_key(asset_infos: &[AssetInfo; 2]) -> (r: Vec<u8>)
    ensures
        r@ == spec_pair_key(*asset_infos),
{
    let first = asset_infos[0].as_bytes();
    let second = asset_infos[1].as_bytes();
    let mut key: Vec<u8> = Vec::new();
    if bytes_before_or_equal(first, second) {
        extend(&mut key, first);
        extend(&mut key, second);
    } else {
        extend(&mut key, second);
        extend(&mut key, first);
    }
    assert(key@ =~= spec_pair_key(*asset_infos));
    key
}

/// The first key after the key of a pair: the key with a one appended.
pub fn calc_range_start(start_after: Option<[AssetInfo; 2]>) -> (r: Option<Vec<u8>>)
    ensures
        match start_after {
            Some(asset_infos) => r is Some && r->Some_0@ == spec_pair_key(asset_infos).push(1u8),
            None => r is None,
        },
{
    match start_after {
        Some(asset_infos) => {
            let mut v = pair_key(&asset_infos);
            v.push(1);
            Some(v)
        },
        None => None,
    }
}

/// Of two orders on bytes one holds, and both only for equal bytes.
pub proof fn lemma_bytes_le_total(a: Seq<u8>, b: Seq<u8>)
    ensures
        bytes_le(a, b) || bytes_le(b, a),
        bytes_le(a, b) && bytes_le(b, a) ==> a == b,
    decreases a.len(),
{
    if a.len() == 0 {
        if bytes_le(b, a) {
            assert(a =~= b);
        }
    } else if b.len() == 0 {
    } else if a[0] != b[0] {
    } else {
        lemma_bytes_le_total(a.skip(1), b.skip(1));
        if bytes_le(a, b) && bytes_le(b, a) {
            assert(a =~= seq![a[0]] + a.skip(1));
            assert(b =~= seq![b[0]] + b.skip(1));
        }
    }
}

/// The key of a pair does not depend on which asset is named first.
pub proof fn lemma_pair_key_symmetric(first: AssetInfo, second: AssetInfo)
    ensures
        spec_pair_key([first, second]) == spec_pair_key([second, first]),
{
    lemma_bytes_le_total(asset_bytes(first), asset_bytes(second));
    let forward: [AssetInfo; 2] = [first, second];
    let backward: [AssetInfo; 2] = [second, first];
    assert(forward[0] == first && forward[1] == second);
    assert(backward[0] == second && backward[1] == first);
}

} // verus!
