use ito_contract::event::{price_memo, NearEvent, Nep171EventKind, NftMintData, NftTransferData};

fn make_tokens(s_vec: Vec<&str>) -> Vec<String> {
    s_vec.iter().map(|t| t.to_string()).collect()
}

#[test]
fn nft_mint() {
    let mint_log = NftMintData { owner_id: "bob".to_string(), token_ids: make_tokens(vec!["0", "1"]), memo: None };
    let NearEvent::Nep171(event) = NearEvent::nft_mint(vec![mint_log]);
    assert_eq!(event.version, "1.0.0");
    match event.event_kind {
        Nep171EventKind::NftMint(data) => {
            assert_eq!(data.len(), 1);
            assert_eq!(data[0].owner_id, "bob");
            assert_eq!(data[0].token_ids, make_tokens(vec!["0", "1"]));
            assert_eq!(data[0].memo, None);
        }
        Nep171EventKind::NftTransfer(_) => panic!("expected a mint event"),
    }
}

#[test]
fn nft_mints() {
    let mint_log = NftMintData { owner_id: "bob".to_string(), token_ids: make_tokens(vec!["0", "1"]), memo: None };
    let NearEvent::Nep171(event) = NearEvent::nft_mint(vec![
        mint_log,
        NftMintData {
            owner_id: "alice".to_string(),
            token_ids: make_tokens(vec!["2", "3"]),
            memo: Some("has memo".to_string()),
        },
    ]);
    assert_eq!(event.version, "1.0.0");
    match event.event_kind {
        Nep171EventKind::NftMint(data) => {
            assert_eq!(data.len(), 2);
            assert_eq!(data[0].owner_id, "bob");
            assert_eq!(data[0].memo, None);
            assert_eq!(data[1].owner_id, "alice");
            assert_eq!(data[1].token_ids, make_tokens(vec!["2", "3"]));
            assert_eq!(data[1].memo, Some("has memo".to_string()));
        }
        Nep171EventKind::NftTransfer(_) => panic!("expected a mint event"),
    }
}

#[test]
fn nft_transfer() {
    let NearEvent::Nep171(event) = NearEvent::nft_transfer(vec![NftTransferData {
        old_owner_id: "bob".to_string(),
        new_owner_id: "alice".to_string(),
        authorized_id: None,
        token_ids: make_tokens(vec!["0", "1"]),
        memo: None,
    }]);
    assert_eq!(event.version, "1.0.0");
    match event.event_kind {
        Nep171EventKind::NftTransfer(data) => {
            assert_eq!(data.len(), 1);
            assert_eq!(data[0].old_owner_id, "bob");
            assert_eq!(data[0].new_owner_id, "alice");
            assert_eq!(data[0].authorized_id, None);
            assert_eq!(data[0].token_ids, make_tokens(vec!["0", "1"]));
        }
        Nep171EventKind::NftMint(_) => panic!("expected a transfer event"),
    }
}

#[test]
fn nft_transfers() {
    let NearEvent::Nep171(event) = NearEvent::nft_transfer(vec![
        NftTransferData {
            old_owner_id: "alice".to_string(),
            new_owner_id: "bob".to_string(),
            authorized_id: Some("4".to_string()),
            token_ids: make_tokens(vec!["2", "3"]),
            memo: Some("has memo".to_string()),
        },
        NftTransferData {
            old_owner_id: "bob".to_string(),
            new_owner_id: "alice".to_string(),
            authorized_id: None,
            token_ids: make_tokens(vec!["0", "1"]),
            memo: None,
        },
    ]);
    assert_eq!(event.version, "1.0.0");
    match event.event_kind {
        Nep171EventKind::NftTransfer(data) => {
            assert_eq!(data.len(), 2);
            assert_eq!(data[0].authorized_id, Some("4".to_string()));
            assert_eq!(data[0].old_owner_id, "alice");
            assert_eq!(data[0].memo, Some("has memo".to_string()));
            assert_eq!(data[1].old_owner_id, "bob");
            assert_eq!(data[1].new_owner_id, "alice");
            assert_eq!(data[1].memo, None);
        }
        Nep171EventKind::NftMint(_) => panic!("expected a transfer event"),
    }
}

#[test]
fn mint_event_wraps_one_record() {
    let NearEvent::Nep171(event) = NearEvent::log_nft_mint(
        "bob".to_string(),
        vec!["0".to_string(), "1".to_string()],
        None,
    );
    assert_eq!(event.version, "1.0.0");
    match event.event_kind {
        Nep171EventKind::NftMint(data) => {
            assert_eq!(data.len(), 1);
            assert_eq!(data[0].owner_id, "bob");
            assert_eq!(data[0].token_ids, vec!["0".to_string(), "1".to_string()]);
            assert_eq!(data[0].memo, None);
        }
        Nep171EventKind::NftTransfer(_) => panic!("expected a mint event"),
    }
}

#[test]
fn transfer_event_wraps_one_record() {
    let NearEvent::Nep171(event) = NearEvent::log_nft_transfer(
        "bob".to_string(),
        "alice".to_string(),
        vec!["0".to_string()],
        None,
        Some("4".to_string()),
    );
    assert_eq!(event.version, "1.0.0");
    match event.event_kind {
        Nep171EventKind::NftTransfer(data) => {
            assert_eq!(data.len(), 1);
            assert_eq!(data[0].old_owner_id, "bob");
            assert_eq!(data[0].new_owner_id, "alice");
            assert_eq!(data[0].authorized_id, Some("4".to_string()));
        }
        Nep171EventKind::NftMint(_) => panic!("expected a transfer event"),
    }
}

#[test]
fn price_memo_is_json_object() {
    assert_eq!(price_memo(1000), "{\"price\":\"1000\"}");
}
