use chain_map::hashers::easy_hasher::EasyHasher;
use chain_map::hashers::mid_hasher::MidHasher;
use chain_map::hashers::Hasher;

#[test]
fn easy_hasher_get_hash_usual() {
    let hasher = EasyHasher {};
    assert_eq!(315, hasher.get_hash("kek"));
}

#[test]
fn easy_hasher_get_index_usual() {
    let hasher = EasyHasher {};
    assert_eq!(27, hasher.get_index(315, 32));
}

#[test]
fn easy_hasher_get_hash_zero() {
    let hasher = EasyHasher {};
    assert_eq!(0, hasher.get_hash(""));
}

#[test]
fn easy_hasher_get_index_zero() {
    let hasher = EasyHasher {};
    assert_eq!(0, hasher.get_index(0, 32));
}

#[test]
fn mid_hasher_get_hash_usual() {
    let hasher = MidHasher {};
    assert_eq!(112320, hasher.get_hash("net"));
    assert_eq!(118068, hasher.get_hash("ten"));
}

#[test]
fn mid_hasher_get_index_usual() {
    let hasher = MidHasher {};
    assert_eq!(0, hasher.get_index(112320, 32));
    assert_eq!(20, hasher.get_index(118068, 32));
}

#[test]
fn get_index_usual_resized() {
    let hasher = MidHasher {};
    assert_eq!(0, hasher.get_index(112320, 64));
    assert_eq!(52, hasher.get_index(118068, 64));
}

#[test]
fn mid_hasher_get_hash_zero() {
    let hasher = MidHasher {};
    assert_eq!(0, hasher.get_hash(""));
}

#[test]
fn mid_hasher_get_index_zero() {
    let hasher = MidHasher {};
    assert_eq!(0, hasher.get_index(0, 32));
}
