use packet_worker::commands::{
    tx_request, CommandError, KeyBalanceCmd, QueryTxEventsCmd, QueryTxHash, QueryTxRequest,
};
use packet_worker::error::SpawnErrorDetail;
use packet_worker::spawn::{chain_config_for, ChainConfig, Config};

fn chain(id: &str, key_name: &str) -> ChainConfig {
    ChainConfig { id: id.to_string(), key_name: key_name.to_string() }
}

#[test]
fn a_chain_is_found_by_its_identifier() {
    let config = Config {
        chains: vec![chain("ibc-0", "alice"), chain("ibc-1", "bob"), chain("ibc-1", "carol")],
    };
    assert_eq!(config.find_chain(&"ibc-0".to_string()), Some(&chain("ibc-0", "alice")));
    assert_eq!(config.find_chain(&"ibc-1".to_string()), Some(&chain("ibc-1", "bob")));
    assert_eq!(config.find_chain(&"ibc-2".to_string()), None);
    assert_eq!(chain_config_for(&config, &"ibc-1".to_string()), Ok(&chain("ibc-1", "bob")));
}

#[test]
fn a_missing_chain_is_named_in_the_error() {
    let config = Config { chains: vec![chain("ibc-0", "alice")] };
    let e = chain_config_for(&config, &"ibc-9".to_string()).unwrap_err();
    assert_eq!(e.detail, SpawnErrorDetail::MissingChainConfig("ibc-9".to_string()));
    assert!(e.log_as_debug());
    let empty = Config { chains: Vec::new() };
    assert!(chain_config_for(&empty, &"ibc-0".to_string()).is_err());
}

#[test]
fn the_given_key_name_goes_before_the_configured_one() {
    let given = KeyBalanceCmd { chain_id: "ibc-0".to_string(), key_name: Some("k1".to_string()) };
    assert_eq!(given.key_name_shown(&"testkey".to_string()), "k1");
    let none = KeyBalanceCmd { chain_id: "ibc-0".to_string(), key_name: None };
    assert_eq!(none.key_name_shown(&"testkey".to_string()), "testkey");
}

#[test]
fn a_hash_in_upper_case_hexadecimal_is_decoded() {
    let cmd = QueryTxEventsCmd {
        chain_id: "ibc-0".to_string(),
        hash: "B8E78AD83810239E21863AC7B5FC4F99396ABB39EB534F721EEF43A4979C2821".to_string(),
    };
    let bytes: Vec<u8> = vec![
        0xB8, 0xE7, 0x8A, 0xD8, 0x38, 0x10, 0x23, 0x9E, 0x21, 0x86, 0x3A, 0xC7, 0xB5, 0xFC, 0x4F,
        0x99, 0x39, 0x6A, 0xBB, 0x39, 0xEB, 0x53, 0x4F, 0x72, 0x1E, 0xEF, 0x43, 0xA4, 0x97, 0x9C,
        0x28, 0x21,
    ];
    assert_eq!(cmd.request(), Ok(QueryTxRequest::Transaction(QueryTxHash(bytes))));
}

#[test]
fn text_that_is_no_hash_is_an_error() {
    for text in ["xyz", "b8e7", "B8E78AD83810239E21863AC7B5FC4F99396ABB39EB534F721EEF43A4979C28ZZ"]
    {
        let cmd = QueryTxEventsCmd { chain_id: "ibc-0".to_string(), hash: text.to_string() };
        assert_eq!(cmd.request(), Err(CommandError::InvalidHash(text.to_string())));
    }
}

#[test]
fn a_decoded_hash_becomes_a_query() {
    assert_eq!(
        tx_request(Some(vec![1, 2, 3]), &"010203".to_string()),
        Ok(QueryTxRequest::Transaction(QueryTxHash(vec![1, 2, 3])))
    );
    assert_eq!(
        tx_request(None, &"nothing".to_string()),
        Err(CommandError::InvalidHash("nothing".to_string()))
    );
}
