use smt_bench::error::SmtError;
use smt_bench::keys::{clustered_key, dedup_keys, prefixed_key, subkey};
use smt_bench::leaf::Leaf;
use smt_bench::tree::{bytes_eq, verify, SmtTree};
use sparse_merkle_tree::traits::Value;
use sparse_merkle_tree::H256;

fn key_with_last(b: u8) -> [u8; 32] {
    let mut k = [0u8; 32];
    k[31] = b;
    k
}

fn filled(b: u8) -> Leaf {
    Leaf([b; 32])
}

#[test]
fn fresh_tree_has_zero_root_and_values() {
    let tree = SmtTree::new();
    assert_eq!(tree.root(), [0u8; 32]);
    assert_eq!(tree.get(key_with_last(7)).0, [0u8; 32]);
    assert_eq!(tree.get([0xffu8; 32]).0, [0u8; 32]);
}

#[test]
fn update_then_get_returns_value() {
    let mut tree = SmtTree::new();
    let root = tree.update(key_with_last(1), filled(9));
    assert_ne!(root, [0u8; 32]);
    assert_eq!(root, tree.root());
    assert_eq!(tree.get(key_with_last(1)).0, [9u8; 32]);
    assert_eq!(tree.get(key_with_last(2)).0, [0u8; 32]);
}

#[test]
fn zero_value_deletes_key() {
    let mut tree = SmtTree::new();
    tree.update(key_with_last(1), filled(9));
    let root = tree.update(key_with_last(1), Leaf::zero());
    assert_eq!(root, [0u8; 32]);
    assert_eq!(tree.get(key_with_last(1)).0, [0u8; 32]);
}

#[test]
fn order_of_updates_does_not_change_root() {
    let mut a = SmtTree::new();
    a.update(key_with_last(1), filled(1));
    a.update(key_with_last(2), filled(2));
    a.update([0x80u8; 32], filled(3));
    let mut b = SmtTree::new();
    b.update([0x80u8; 32], filled(3));
    b.update(key_with_last(2), filled(7));
    b.update(key_with_last(1), filled(1));
    b.update(key_with_last(2), filled(2));
    assert_eq!(a.root(), b.root());
}

#[test]
fn update_all_applies_last_write() {
    let mut a = SmtTree::new();
    let ups = vec![(key_with_last(1), filled(5)), (key_with_last(1), filled(6)), (key_with_last(3), filled(4))];
    let root = a.update_all(&ups);
    assert_eq!(a.get(key_with_last(1)).0, [6u8; 32]);
    let mut b = SmtTree::new();
    b.update(key_with_last(3), filled(4));
    b.update(key_with_last(1), filled(6));
    assert_eq!(root, b.root());
}

#[test]
fn same_update_twice_keeps_root() {
    let mut tree = SmtTree::new();
    tree.update(key_with_last(4), filled(2));
    let first = tree.update(key_with_last(5), filled(3));
    let second = tree.update(key_with_last(5), filled(3));
    assert_eq!(first, second);
}

#[test]
fn proof_round_trip_and_tampering() {
    let mut tree = SmtTree::new();
    for i in 0..20u8 {
        tree.update(key_with_last(i), filled(i + 1));
    }
    let key = key_with_last(11);
    let proof = tree.prove(&vec![key]).unwrap();
    let root = tree.root();
    let value = tree.get(key).0;
    assert_eq!(verify(&proof, root, &vec![(key, value)]), Ok(true));
    assert_eq!(verify(&proof, root, &vec![(key, [99u8; 32])]), Ok(false));
    let mut other_root = root;
    other_root[0] ^= 1;
    assert_eq!(verify(&proof, other_root, &vec![(key, value)]), Ok(false));
}

#[test]
fn two_key_scenario() {
    let mut tree = SmtTree::new();
    let k0 = [0u8; 32];
    let k1 = key_with_last(1);
    let a = [0xaau8; 32];
    let b = [0xbbu8; 32];
    tree.update(k0, Leaf(a));
    tree.update(k1, Leaf(b));
    let root = tree.root();
    assert_ne!(root, [0u8; 32]);
    let mut again = SmtTree::new();
    again.update(k1, Leaf(b));
    again.update(k0, Leaf(a));
    assert_eq!(root, again.root());
    let proof = tree.prove(&vec![k0]).unwrap();
    assert_eq!(verify(&proof, root, &vec![(k0, a)]), Ok(true));
    assert_eq!(verify(&proof, root, &vec![(k0, b)]), Ok(false));
}

#[test]
fn shared_prefix_proof_is_compact() {
    let mut tree = SmtTree::new();
    let mut keys = Vec::new();
    for i in 0..8u8 {
        let mut body = [0u8; 24];
        body[0] = i;
        body[23] = i.wrapping_mul(37);
        let k = clustered_key(1, &body);
        tree.update(k, filled(i + 1));
        keys.push(k);
    }
    for i in 0..8u8 {
        tree.update([i.wrapping_mul(29).wrapping_add(3); 32], filled(50 + i));
    }
    let mut single_total = 0usize;
    for k in &keys {
        single_total += tree.prove(&vec![*k]).unwrap().len();
    }
    let joint = tree.prove(&keys).unwrap();
    assert!(joint.len() < single_total);
    let leaves: Vec<([u8; 32], [u8; 32])> = keys.iter().map(|k| (*k, tree.get(*k).0)).collect();
    assert_eq!(verify(&joint, tree.root(), &leaves), Ok(true));
}

#[test]
fn proof_of_absent_key_verifies_with_zero() {
    let mut tree = SmtTree::new();
    tree.update(key_with_last(1), filled(1));
    let key = key_with_last(2);
    let proof = tree.prove(&vec![key]).unwrap();
    assert_eq!(verify(&proof, tree.root(), &vec![(key, [0u8; 32])]), Ok(true));
    assert_eq!(verify(&proof, tree.root(), &vec![(key, [1u8; 32])]), Ok(false));
}

#[test]
fn empty_key_set_gives_empty_proof() {
    let mut tree = SmtTree::new();
    let proof = tree.prove(&Vec::new()).unwrap();
    assert!(proof.is_empty());
    assert_eq!(verify(&proof, [0u8; 32], &vec![]), Ok(true));
    tree.update(key_with_last(1), filled(1));
    let proof = tree.prove(&Vec::new()).unwrap();
    assert!(proof.is_empty());
    assert_eq!(verify(&proof, tree.root(), &vec![]), Ok(false));
}

#[test]
fn oversized_replay_stack_is_an_error() {
    let proof = vec![0x4cu8; 258];
    let pairs: Vec<([u8; 32], [u8; 32])> = (0..258u32).map(|i| (subkey(i), [1u8; 32])).collect();
    assert_eq!(verify(&proof, [0u8; 32], &pairs), Err(SmtError::CorruptedStack));
}

#[test]
fn present_key_claimed_absent_is_rejected() {
    let mut tree = SmtTree::new();
    tree.update(key_with_last(1), filled(1));
    tree.update(key_with_last(2), filled(2));
    let proof = tree.prove(&vec![key_with_last(1)]).unwrap();
    assert_eq!(verify(&proof, tree.root(), &vec![(key_with_last(1), [0u8; 32])]), Ok(false));
}

#[test]
fn joint_exclusion_proof_is_compact() {
    let mut tree = SmtTree::new();
    for i in 0..6u8 {
        tree.update([i.wrapping_mul(41).wrapping_add(1); 32], filled(i + 1));
    }
    let keys: Vec<[u8; 32]> = (0..4u8).map(|i| clustered_key(2, &[i; 24])).collect();
    let mut single_total = 0usize;
    for k in &keys {
        single_total += tree.prove(&vec![*k]).unwrap().len();
    }
    let joint = tree.prove(&keys).unwrap();
    assert!(joint.len() < single_total);
    let pairs: Vec<([u8; 32], [u8; 32])> = keys.iter().map(|k| (*k, [0u8; 32])).collect();
    assert_eq!(verify(&joint, tree.root(), &pairs), Ok(true));
}

#[test]
fn unknown_instruction_is_an_error() {
    let r = verify(&vec![0x00u8], [0u8; 32], &vec![(key_with_last(1), [1u8; 32])]);
    assert_eq!(r, Err(SmtError::InvalidCode(0)));
}

#[test]
fn proof_with_wrong_leaf_count_is_an_error() {
    let mut tree = SmtTree::new();
    tree.update(key_with_last(1), filled(1));
    let proof = tree.prove(&vec![key_with_last(1)]).unwrap();
    let r = verify(&proof, tree.root(), &vec![]);
    assert!(r.is_err());
}

#[test]
fn subkey_layout() {
    let k = subkey(0x0403_0201);
    let mut want = [0u8; 32];
    want[0] = 0xff;
    want[2..8].copy_from_slice(b"subkey");
    want[8..12].copy_from_slice(&[1, 2, 3, 4]);
    assert_eq!(k, want);
}

#[test]
fn prefixed_and_clustered_layout() {
    let p = prefixed_key(&[7u8; 20]);
    assert_eq!(&p[..2], &[0x81, 0x00]);
    assert_eq!(&p[2..22], &[7u8; 20]);
    assert_eq!(&p[22..], &[0u8; 10]);
    let c = clustered_key(3, &[9u8; 24]);
    assert_eq!(&c[..2], &[0x81, 0x03]);
    assert_eq!(&c[2..26], &[9u8; 24]);
    assert_eq!(&c[26..], &[0u8; 6]);
}

#[test]
fn dedup_removes_neighbour_repeats_only() {
    let a = subkey(1);
    let b = subkey(2);
    let r = dedup_keys(&vec![a, a, b, b, b, a]);
    assert_eq!(r, vec![a, b, a]);
    assert!(dedup_keys(&Vec::new()).is_empty());
}

#[test]
fn digest_equality() {
    assert!(bytes_eq(&[3u8; 32], &[3u8; 32]));
    assert!(!bytes_eq(&[3u8; 32], &key_with_last(3)));
}

#[test]
fn leaf_zero_is_all_zero_bytes() {
    assert_eq!(Leaf::zero().0, [0u8; 32]);
    assert_eq!(Leaf::default().0, [0u8; 32]);
    assert_eq!(Leaf::zero().to_h256(), H256::zero());
}

#[test]
fn leaf_digest_is_its_bytes() {
    let mut bytes = [0u8; 32];
    bytes[3] = 7;
    bytes[31] = 200;
    let digest: [u8; 32] = Leaf(bytes).to_h256().into();
    assert_eq!(digest, bytes);
}
