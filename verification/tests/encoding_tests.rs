use metaverse::encoding::{
    class_id_account, get_estate_token_properties, get_land_token_properties, i32_be_bytes,
    into_sub_account, test_attributes, u64_be_bytes,
};
use metaverse::types::PalletId;

#[test]
fn be_bytes_of_negative_i32() {
    assert_eq!(i32_be_bytes(-1), vec![255, 255, 255, 255]);
    assert_eq!(i32_be_bytes(258), vec![0, 0, 1, 2]);
}

#[test]
fn be_bytes_of_u64() {
    assert_eq!(u64_be_bytes(0x0102_0304_0506_0708), vec![1, 2, 3, 4, 5, 6, 7, 8]);
}

#[test]
fn land_token_properties_hold_coordinate_and_metaverse() {
    let (metadata, attributes) = get_land_token_properties(1, (0, -1));
    assert_eq!(metadata, vec![0, 0, 0, 0, 255, 255, 255, 255]);
    assert_eq!(attributes.len(), 2);
    assert_eq!(attributes[0].0, b"Coordinate:".to_vec());
    assert_eq!(attributes[0].1, vec![0, 0, 0, 0, 255, 255, 255, 255]);
    assert_eq!(attributes[1].0, b"MetaverseId:".to_vec());
    assert_eq!(attributes[1].1, vec![0, 0, 0, 0, 0, 0, 0, 1]);
}

#[test]
fn estate_token_properties_hold_metaverse_and_estate() {
    let (metadata, attributes) = get_estate_token_properties(2, 3);
    assert_eq!(metadata, vec![0, 0, 0, 0, 0, 0, 0, 2, 0, 0, 0, 0, 0, 0, 0, 3]);
    assert_eq!(attributes[0].0, b"Estate Id:".to_vec());
    assert_eq!(attributes[0].1, vec![0, 0, 0, 0, 0, 0, 0, 3]);
    assert_eq!(attributes[1].0, b"MetaverseId:".to_vec());
    assert_eq!(attributes[1].1, vec![0, 0, 0, 0, 0, 0, 0, 2]);
}

#[test]
fn test_attributes_pairs() {
    let a = test_attributes(1);
    assert_eq!(a, vec![(vec![1, 6], vec![1, 11])]);
}

#[test]
fn pallet_account_is_modl_and_id() {
    let id = PalletId(*b"bit/trsy");
    let mut bytes = [0u8; 16];
    bytes[..4].copy_from_slice(b"modl");
    bytes[4..12].copy_from_slice(b"bit/trsy");
    assert_eq!(class_id_account(&id), u128::from_le_bytes(bytes));
}

#[test]
fn pallet_sub_account_takes_low_bytes_of_sub() {
    let id = PalletId(*b"bit/land");
    let mut bytes = [0u8; 16];
    bytes[..4].copy_from_slice(b"modl");
    bytes[4..12].copy_from_slice(b"bit/land");
    bytes[12..16].copy_from_slice(&7u64.to_le_bytes()[..4]);
    assert_eq!(into_sub_account(&id, 7), u128::from_le_bytes(bytes));
    assert_ne!(into_sub_account(&id, 7), into_sub_account(&id, 8));
}
