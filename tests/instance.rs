use royalty_nft_instance::encoding::{u128_from_le_bytes, u128_to_le_bytes};
use royalty_nft_instance::instance::{ATTRIBUTES_OPCODE, DATA_OPCODE};
use royalty_nft_instance::{AlkaneId, AlkaneTransfer, CallResponse, Context, InstanceError, RoyaltyNFTOrbitalInstance};

fn me() -> AlkaneId {
    AlkaneId { block: 2, tx: 17 }
}

fn collection() -> AlkaneId {
    AlkaneId { block: 2, tx: 300 }
}

fn ctx() -> Context {
    Context {
        myself: me(),
        caller: collection(),
        incoming_alkanes: vec![AlkaneTransfer { id: AlkaneId { block: 5, tx: 6 }, value: 42 }],
    }
}

fn initialized(index: u128) -> RoyaltyNFTOrbitalInstance {
    let mut inst = RoyaltyNFTOrbitalInstance::new();
    inst.initialize(&ctx(), index).unwrap();
    inst
}

fn le32(id: AlkaneId) -> Vec<u8> {
    let mut v = id.block.to_le_bytes().to_vec();
    v.extend_from_slice(&id.tx.to_le_bytes());
    v
}

#[test]
fn initialize_twice_is_rejected() {
    let mut inst = RoyaltyNFTOrbitalInstance::new();
    let first = inst.initialize(&ctx(), 7).unwrap();
    assert_eq!(inst.index(), 7);
    let other = Context { myself: me(), caller: AlkaneId { block: 8, tx: 8 }, incoming_alkanes: vec![] };
    let second = inst.initialize(&other, 9);
    assert_eq!(second.unwrap_err(), InstanceError::AlreadyInitialized);
    assert_eq!(inst.index(), 7);
    assert_eq!(inst.collection_ref(), collection());
    assert_eq!(first.alkanes.len(), 2);
}

#[test]
fn initialize_mints_one_unit_after_the_incoming_transfers() {
    let mut inst = RoyaltyNFTOrbitalInstance::new();
    let r = inst.initialize(&ctx(), 1).unwrap();
    assert_eq!(
        r.alkanes,
        vec![
            AlkaneTransfer { id: AlkaneId { block: 5, tx: 6 }, value: 42 },
            AlkaneTransfer { id: me(), value: 1 },
        ]
    );
    assert!(r.data.is_empty());
    assert!(inst.initialized);
}

#[test]
fn initialize_stores_fixed_byte_layouts() {
    let inst = initialized(7);
    assert_eq!(inst.collection_alkane_id, le32(collection()));
    assert_eq!(inst.index_value, 7u128.to_le_bytes().to_vec());
    assert!(inst.is_well_formed());
}

#[test]
fn fresh_instance_reads_index_zero() {
    let inst = RoyaltyNFTOrbitalInstance::new();
    assert_eq!(inst.index(), 0);
    assert_eq!(inst.name(), "Alkane RoyaltyNFT #0");
}

#[test]
fn name_and_symbol_of_index_three() {
    let inst = initialized(3);
    assert_eq!(inst.name(), "Alkane RoyaltyNFT #3");
    assert_eq!(inst.symbol(), "alkane-royalty-nft-3");
    let r = inst.get_name(&ctx());
    assert_eq!(r.data, b"Alkane RoyaltyNFT #3".to_vec());
    assert_eq!(r.alkanes, ctx().incoming_alkanes);
    assert_eq!(inst.get_symbol(&ctx()).data, b"alkane-royalty-nft-3".to_vec());
}

#[test]
fn name_of_multi_digit_indices() {
    assert_eq!(initialized(10).name(), "Alkane RoyaltyNFT #10");
    assert_eq!(initialized(4096).symbol(), "alkane-royalty-nft-4096");
    assert_eq!(initialized(u128::MAX).name(), format!("Alkane RoyaltyNFT #{}", u128::MAX));
}

#[test]
fn total_supply_is_one() {
    let inst = initialized(3);
    assert_eq!(inst.get_total_supply(&ctx()).data, 1u128.to_le_bytes().to_vec());
}

#[test]
fn content_type_is_svg() {
    let inst = initialized(3);
    assert_eq!(inst.get_content_type(&ctx()).data, b"image/svg+xml".to_vec());
}

#[test]
fn royalty_info_layout() {
    let inst = initialized(3);
    let mut expected = 500u128.to_le_bytes().to_vec();
    expected.extend_from_slice(&le32(collection()));
    assert_eq!(inst.get_royalty_info(&ctx()).data, expected);
}

#[test]
fn collection_identifier_and_alkane_id_agree() {
    let inst = initialized(3);
    let text = inst.get_collection_identifier(&ctx()).data;
    assert_eq!(text, b"2:300".to_vec());
    let raw = inst.get_collection_alkane_id(&ctx()).data;
    assert_eq!(raw, le32(collection()));
    let decoded = AlkaneId::from_bytes(&raw);
    assert_eq!(format!("{}:{}", decoded.block, decoded.tx).into_bytes(), text);
}

#[test]
fn collection_identifier_of_large_values() {
    let mut inst = RoyaltyNFTOrbitalInstance::new();
    let id = AlkaneId { block: u128::MAX, tx: 0 };
    inst.set_collection_alkane_id(&id);
    let text = inst.get_collection_identifier(&ctx()).data;
    assert_eq!(text, format!("{}:0", u128::MAX).into_bytes());
    assert_eq!(inst.collection_ref(), id);
}

#[test]
fn delegated_calls_carry_opcode_and_index() {
    let inst = initialized(12);
    let a = inst.attributes_call();
    assert_eq!(a.target, collection());
    assert_eq!(a.inputs, vec![ATTRIBUTES_OPCODE, 12]);
    assert_eq!(a.inputs[0], 999);
    let d = inst.data_call();
    assert_eq!(d.target, collection());
    assert_eq!(d.inputs, vec![DATA_OPCODE, 12]);
    assert_eq!(d.inputs[0], 1000);
}

#[test]
fn delegated_reply_is_passed_through() {
    let inst = initialized(12);
    let r: CallResponse = inst.delegated_response(&ctx(), vec![0xde, 0xad, 0, 7]);
    assert_eq!(r.data, vec![0xde, 0xad, 0, 7]);
    assert_eq!(r.alkanes, ctx().incoming_alkanes);
}

#[test]
fn forward_copies_the_incoming_transfers() {
    let r = CallResponse::forward(&ctx().incoming_alkanes);
    assert_eq!(r.alkanes, ctx().incoming_alkanes);
    assert!(r.data.is_empty());
}

#[test]
fn storage_keys() {
    assert_eq!(RoyaltyNFTOrbitalInstance::collection_alkane_id_pointer(), "/collection-alkane-id");
    assert_eq!(RoyaltyNFTOrbitalInstance::index_pointer(), "/index");
}

#[test]
fn well_formedness_checks_slot_widths() {
    let mut inst = RoyaltyNFTOrbitalInstance::new();
    assert!(inst.is_well_formed());
    inst.index_value = vec![1, 2, 3];
    assert!(!inst.is_well_formed());
    inst.index_value = vec![0; 16];
    inst.collection_alkane_id = vec![0; 31];
    assert!(!inst.is_well_formed());
}

#[test]
fn le_codec_matches_std() {
    for n in [0u128, 1, 255, 256, 0x0102_0304_0506_0708_090a_0b0c_0d0e_0f10, u128::MAX] {
        let b = u128_to_le_bytes(n);
        assert_eq!(b, n.to_le_bytes().to_vec());
        assert_eq!(u128_from_le_bytes(&b, 0), n);
    }
    let mut padded = vec![9u8, 9];
    padded.extend_from_slice(&300u128.to_le_bytes());
    assert_eq!(u128_from_le_bytes(&padded, 2), 300);
}

#[test]
fn alkane_id_bytes_round_trip() {
    let id = AlkaneId { block: 0x1234, tx: u128::MAX - 1 };
    let b = id.to_bytes();
    assert_eq!(b, le32(id));
    assert_eq!(AlkaneId::from_bytes(&b), id);
}
