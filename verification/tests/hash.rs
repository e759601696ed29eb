use pallet_subspace::pallet::Pallet;
use sp_core::H256;

fn counting_bytes() -> Vec<u8> {
    (1..=32).collect()
}

#[test]
fn vector_becomes_the_hash_of_its_bytes() {
    let hash = Pallet::vec_to_hash(counting_bytes());
    assert_eq!(hash.as_bytes(), counting_bytes().as_slice());
    assert_eq!(hash, H256::from_slice(&counting_bytes()));
    assert_ne!(hash, H256::zero());
}

#[test]
fn hash_becomes_the_vector_of_its_bytes() {
    let mut bytes = [0u8; 32];
    bytes[0] = 0xab;
    bytes[31] = 0xcd;
    let vec = Pallet::hash_to_vec(H256::from(bytes));
    assert_eq!(vec, bytes.to_vec());
    assert_eq!(Pallet::hash_to_vec(H256::zero()), vec![0u8; 32]);
}

#[test]
fn hash_and_vector_round_trip() {
    let bytes = counting_bytes();
    assert_eq!(Pallet::hash_to_vec(Pallet::vec_to_hash(bytes.clone())), bytes);
    let hash = H256::repeat_byte(0x5a);
    assert_eq!(Pallet::vec_to_hash(Pallet::hash_to_vec(hash)), hash);
}

#[test]
fn only_thirty_two_bytes_make_a_hash() {
    assert_eq!(Pallet::try_vec_to_hash(vec![]), None);
    assert_eq!(Pallet::try_vec_to_hash(vec![7; 31]), None);
    assert_eq!(Pallet::try_vec_to_hash(vec![7; 33]), None);
    assert_eq!(Pallet::try_vec_to_hash(vec![7; 32]), Some(H256::repeat_byte(7)));
}
