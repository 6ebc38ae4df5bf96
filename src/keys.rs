use crate::tree::bytes_eq;
use vstd::prelude::*;

verus! {

/// The four bytes of `x`, least significant first.
pub open spec fn le_bytes(x: u32) -> Seq<u8> {
    seq![
        (x % 256) as u8,
        ((x / 256) % 256) as u8,
        ((x / 65536) % 256) as u8,
        (x / 16777216) as u8,
    ]
}

/// `n` zero bytes.
pub open spec fn zeros(n: nat) -> Seq<u8> {
    Seq::new(n, |i: int| 0u8)
}

/// A sub-key: `ff 00`, the ASCII text `subkey`, `ext_data` in little-endian
/// order, then zeros.
pub open spec fn subkey_bytes(ext_data: u32) -> Seq<u8> {
    seq![0xffu8, 0x00u8, 0x73u8, 0x75u8, 0x62u8, 0x6bu8, 0x65u8, 0x79u8] + le_bytes(ext_data) + zeros(20)
}

/// A key of the `81 00` namespace: the prefix, twenty chosen bytes, then zeros.
pub open spec fn prefixed_key_bytes(body: Seq<u8>) -> Seq<u8> {
    seq![0x81u8, 0x00u8] + body + zeros(10)
}

/// A key of a `81 xx` namespace: the prefix, twenty-four chosen bytes, then zeros.
pub open spec fn clustered_key_bytes(second: u8, body: Seq<u8>) -> Seq<u8> {
    seq![0x81u8, second] + body + zeros(6)
}

/// Builds the sub-key that carries `ext_data`.
pub fn subkey(ext_data: u32) -> (r: [u8; 32])
    ensures
        r@ == subkey_bytes(ext_data),
{
    let mut key = [0u8; 32];
    key[0] = 0xff;
    key[2] = 0x73;
    key[3] = 0x75;
    key[4] = 0x62;
    key[5] = 0x6b;
    key[6] = 0x65;
    key[7] = 0x79;
    key[8] = (ext_data % 256) as u8;
    key[9] = ((ext_data / 256) % 256) as u8;
    key[10] = ((ext_data / 65536) % 256) as u8;
    key[11] = (ext_data / 16777216) as u8;
    assert(key@ =~= subkey_bytes(ext_data));
    key
}

/// Builds a key of the `81 00` namespace around the given bytes.
pub fn prefixed_key(body: &[u8; 20]) -> (r: [u8; 32])
    ensures
        r@ == prefixed_key_bytes(body@),
{
    let mut key = [0u8; 32];
    key[0] = 0x81;
    let mut i: usize = 0;
    while i < 20
        invariant
            i <= 20,
            key@.len() == 32,
            key@[0] == 0x81u8,
            key@[1] == 0u8,
            forall|j: int| 2 <= j < 2 + i ==> key@[j] == body@[j - 2],
            forall|j: int| 2 + i <= j < 32 ==> key@[j] == 0u8,
        decreases 20 - i,
    {
        key[i + 2] = body[i];
        i = i + 1;
    }
    assert(key@ =~= prefixed_key_bytes(body@));
    key
}

/// Builds a key of the `81 second` namespace around the given bytes.
pub fn clustered_key(second: u8, body: &[u8; 24]) -> (r: [u8; 32])
    ensures
        r@ == clustered_key_bytes(second, body@),
{
    let mut key = [0u8; 32];
    key[0] = 0x81;
    key[1] = second;
    let mut i: usize = 0;
    while i < 24
        invariant
            i <= 24,
            key@.len() == 32,
            key@[0] == 0x81u8,
            key@[1] == second,
            forall|j: int| 2 <= j < 2 + i ==> key@[j] == body@[j - 2],
            forall|j: int| 2 + i <= j < 32 ==> key@[j] == 0u8,
        decreases 24 - i,
    {
        key[i + 2] = body[i];
        i = i + 1;
    }
    assert(key@ =~= clustered_key_bytes(second, body@));
    key
}

/// A sequence of keys with each run of equal neighbours kept once.
pub open spec fn dedup_seq(s: Seq<[u8; 32]>) -> Seq<[u8; 32]>
    decreases s.len(),
{
    if s.len() == 0 {
        s
    } else if s.len() >= 2 && s[s.len() - 2]@ == s.last()@ {
        dedup_seq(s.drop_last())
    } else {
        dedup_seq(s.drop_last()).push(s.last())
    }
}

/// Removes consecutive repeated keys, as `Vec::dedup` does.
pub fn dedup_keys(keys: &Vec<[u8; 32]>) -> (r: Vec<[u8; 32]>)
    ensures
        r@ == dedup_seq(keys@),
{
    let mut r: Vec<[u8; 32]> = Vec::new();
    let mut i: usize = 0;
    while i < keys.len()
        invariant
            i <= keys@.len(),
            r@ == dedup_seq(keys@.take(i as int)),
        decreases keys@.len() - i,
    {
        assert(keys@.take(i + 1).drop_last() =~= keys@.take(i as int));
        if i == 0 || !bytes_eq(&keys[i - 1], &keys[i]) {
            r.push(keys[i]);
        }
        i = i + 1;
    }
    assert(keys@.take(keys@.len() as int) =~= keys@);
    r
}

} // verus!
