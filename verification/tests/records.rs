use universal_nft::state::gateway::{GatewayConfig, GATEWAY_CONFIG_DISCRIMINATOR};
use universal_nft::state::nft_origin::{NftOrigin, NFT_ORIGIN_DISCRIMINATOR};
use universal_nft::state::replay::{ReplayMarker, REPLAY_MARKER_DISCRIMINATOR};

fn origin(uri: &str) -> NftOrigin {
    NftOrigin {
        origin_chain: 0x0102,
        origin_token_id: [4u8; 32],
        origin_mint: [5u8; 32],
        metadata_uri: uri.to_string(),
        created_at: -2,
        bump: 254,
    }
}

#[test]
fn replay_marker_data_is_tag_then_fields() {
    let marker = ReplayMarker { token_id: [1u8; 32], nonce: 0x0201, created_at: 1_700_000_000, bump: 253 };
    let mut expected = REPLAY_MARKER_DISCRIMINATOR.to_vec();
    expected.extend_from_slice(&[1u8; 32]);
    expected.extend_from_slice(&[1, 2, 0, 0, 0, 0, 0, 0]);
    expected.extend_from_slice(&1_700_000_000i64.to_le_bytes());
    expected.push(253);
    assert_eq!(marker.to_account_data(), expected);
    assert_eq!(expected.len(), 8 + ReplayMarker::LEN);
    assert_eq!(ReplayMarker::LEN, 49);
}

#[test]
fn replay_marker_keeps_a_time_before_the_epoch() {
    let marker = ReplayMarker { token_id: [0u8; 32], nonce: 0, created_at: -1, bump: 0 };
    let data = marker.to_account_data();
    assert_eq!(&data[48..56], &[0xFF; 8]);
}

#[test]
fn origin_data_is_tag_then_fields() {
    let mut expected = NFT_ORIGIN_DISCRIMINATOR.to_vec();
    expected.extend_from_slice(&[2, 1]);
    expected.extend_from_slice(&[4u8; 32]);
    expected.extend_from_slice(&[5u8; 32]);
    expected.extend_from_slice(&[3, 0, 0, 0]);
    expected.extend_from_slice(b"uri");
    expected.extend_from_slice(&[0xFE, 0xFF, 0xFF, 0xFF, 0xFF, 0xFF, 0xFF, 0xFF]);
    expected.push(254);
    assert_eq!(origin("uri").to_account_data(), Some(expected.clone()));
    assert_eq!(expected.len(), 8 + NftOrigin::LEN + 3);
}

#[test]
fn origin_is_read_back_as_written() {
    for uri in ["", "ipfs://bafy", "\u{e9}\u{1F600}"] {
        let record = origin(uri);
        let data = record.to_account_data().unwrap();
        assert_eq!(NftOrigin::load(&data), Some(record));
    }
}

#[test]
fn origin_load_refuses_another_tag() {
    let mut data = origin("x").to_account_data().unwrap();
    data[0] ^= 1;
    assert_eq!(NftOrigin::load(&data), None);
}

#[test]
fn origin_load_refuses_what_is_cut_short_or_too_long() {
    let data = origin("abc").to_account_data().unwrap();
    for kept in 0..data.len() {
        assert_eq!(NftOrigin::load(&data[..kept]), None, "kept {kept}");
    }
    let mut longer = data.clone();
    longer.push(0);
    assert_eq!(NftOrigin::load(&longer), None);
}

#[test]
fn origin_load_refuses_malformed_text() {
    let mut data = origin("abc").to_account_data().unwrap();
    data[78] = 0xFF;
    assert_eq!(NftOrigin::load(&data), None);
}

#[test]
fn gateway_config_is_read_past_the_tag() {
    let config = GatewayConfig { gateway: [9u8; 32] };
    let data = config.to_account_data();
    assert_eq!(data.len(), 8 + GatewayConfig::LEN);
    assert_eq!(&data[..8], &GATEWAY_CONFIG_DISCRIMINATOR);
    assert_eq!(&data[8..], &[9u8; 32]);
    assert_eq!(GatewayConfig::load(&data), Some(config));
}

#[test]
fn gateway_config_load_does_not_read_the_tag() {
    let mut data = vec![0u8; 8];
    data.extend_from_slice(&[6u8; 32]);
    assert_eq!(GatewayConfig::load(&data), Some(GatewayConfig { gateway: [6u8; 32] }));
}

#[test]
fn gateway_config_load_refuses_other_lengths() {
    assert_eq!(GatewayConfig::load(&[]), None);
    assert_eq!(GatewayConfig::load(&[0u8; 7]), None);
    assert_eq!(GatewayConfig::load(&[0u8; 39]), None);
    assert_eq!(GatewayConfig::load(&[0u8; 41]), None);
    assert!(GatewayConfig::load(&[0u8; 40]).is_some());
}
