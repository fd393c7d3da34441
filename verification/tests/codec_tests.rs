use escrow::codec::RECORD_LEN;
use escrow::codec::decode_record;
use escrow::codec::encode_record;
use escrow::ledger::EscrowAccount;

#[test]
fn record_round_trip() {
    let entry = EscrowAccount {
        owner: 0x1122_3344_5566_7788,
        asset: 0x99aa_bbcc_ddee_ff00,
        amount: 150,
        derivation_nonce: 255,
    };
    let bytes = encode_record(&entry);
    assert_eq!(bytes.len(), RECORD_LEN);
    assert_eq!(decode_record(&bytes), Some(entry));
}

#[test]
fn record_layout_is_little_endian_field_order() {
    let entry = EscrowAccount { owner: 1, asset: 3, amount: 0x0102, derivation_nonce: 7 };
    let bytes = encode_record(&entry);
    let expected: Vec<u8> = vec![
        1, 0, 0, 0, 0, 0, 0, 0, // owner, fixed-width little-endian
        2, 1, 0, 0, 0, 0, 0, 0, // amount, 64-bit little-endian
        3, 0, 0, 0, 0, 0, 0, 0, // asset, fixed-width little-endian
        7, // appended derivation nonce
    ];
    assert_eq!(bytes, expected);
}

#[test]
fn decode_rejects_wrong_lengths() {
    assert_eq!(decode_record(&[]), None);
    assert_eq!(decode_record(&[0u8; 24]), None);
    assert_eq!(decode_record(&[0u8; 26]), None);
    let zeroed = decode_record(&[0u8; 25]).unwrap();
    assert_eq!(zeroed.owner, 0);
    assert_eq!(zeroed.amount, 0);
    assert_eq!(zeroed.asset, 0);
    assert_eq!(zeroed.derivation_nonce, 0);
}
