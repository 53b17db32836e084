use metaverse::node::{
    collator_parachain_id, copyright_start_year, genesis_chain, genesis_output, runs_as_parachain, load_spec, p2p_listen_port, parachain_account, parachain_id,
    prometheus_listen_port, relay_chain_base_path, relay_chain_id, rpc_http_listen_port, rpc_ws_listen_port, ChainSpecSource,
    RuntimeFeatures,
};

const ALL: RuntimeFeatures = RuntimeFeatures { metaverse: true, tewai: true, pioneer: true };
const NONE: RuntimeFeatures = RuntimeFeatures { metaverse: false, tewai: false, pioneer: false };

#[test]
fn dev_and_local_name_the_built_in_chains() {
    assert_eq!(load_spec("dev", 2000, NONE), ChainSpecSource::Development);
    assert_eq!(load_spec("local", 2000, NONE), ChainSpecSource::LocalTestnet);
    assert_eq!(load_spec("", 2000, NONE), ChainSpecSource::LocalTestnet);
}

#[test]
fn runtime_names_need_their_runtime() {
    assert_eq!(load_spec("metaverse", 2000, ALL), ChainSpecSource::MetaverseTestnet);
    assert_eq!(load_spec("tewai", 2000, ALL), ChainSpecSource::TewaiTestnet);
    assert_eq!(load_spec("pioneer", 2042, ALL), ChainSpecSource::PioneerLocalTestnet(2042));
    assert_eq!(load_spec("metaverse", 2000, NONE), ChainSpecSource::JsonFile("metaverse".to_string()));
    assert_eq!(load_spec("tewai", 2000, NONE), ChainSpecSource::JsonFile("tewai".to_string()));
    assert_eq!(load_spec("pioneer", 2000, NONE), ChainSpecSource::JsonFile("pioneer".to_string()));
}

#[test]
fn any_other_identifier_is_a_path() {
    assert_eq!(
        load_spec("./specs/raw.json", 2000, ALL),
        ChainSpecSource::JsonFile("./specs/raw.json".to_string())
    );
    assert_eq!(load_spec("devs", 2000, ALL), ChainSpecSource::JsonFile("devs".to_string()));
    assert_eq!(load_spec("Dev", 2000, ALL), ChainSpecSource::JsonFile("Dev".to_string()));
}

#[test]
fn parachain_id_defaults_to_2000() {
    assert_eq!(parachain_id(None), 2000);
    assert_eq!(parachain_id(Some(7)), 7);
}

#[test]
fn relay_chain_id_prefers_its_own_configuration() {
    assert_eq!(relay_chain_id("rococo".to_string(), Some("kusama".to_string())), "rococo");
    assert_eq!(relay_chain_id(String::new(), Some("kusama".to_string())), "kusama");
    assert_eq!(relay_chain_id(String::new(), None), "");
}

#[test]
fn relay_chain_defaults() {
    assert_eq!(p2p_listen_port(), 30334);
    assert_eq!(rpc_ws_listen_port(), 9945);
    assert_eq!(rpc_http_listen_port(), 9934);
    assert_eq!(prometheus_listen_port(), 9616);
    assert_eq!(copyright_start_year(), 2017);
}


#[test]
fn collator_parachain_id_prefers_the_command_line() {
    assert_eq!(collator_parachain_id(Some(7), Some(8)), 7);
    assert_eq!(collator_parachain_id(None, Some(8)), 8);
    assert_eq!(collator_parachain_id(None, None), 2000);
}

#[test]
fn parachain_account_is_para_and_the_id() {
    let mut expected = [0u8; 32];
    expected[..8].copy_from_slice(&[b'p', b'a', b'r', b'a', 0xd0, 0x07, 0, 0]);
    assert_eq!(parachain_account(2000), expected);
    let account = parachain_account(0x0102_0304);
    assert_eq!(&account[..8], &[b'p', b'a', b'r', b'a', 4, 3, 2, 1]);
    assert!(account[8..].iter().all(|b| *b == 0));
}

#[test]
fn relay_chain_base_path_prefers_the_shared_one() {
    assert_eq!(
        relay_chain_base_path(Some("/data/shared".to_string()), Some("/data/relay".to_string())),
        Some("/data/shared".to_string())
    );
    assert_eq!(relay_chain_base_path(None, Some("/data/relay".to_string())), Some("/data/relay".to_string()));
    assert_eq!(relay_chain_base_path(None, None), None);
}

#[test]
fn genesis_exports_read_pioneer_by_default() {
    assert_eq!(genesis_chain(None), "pioneer");
    assert_eq!(genesis_chain(Some("dev".to_string())), "dev");
}

#[test]
fn genesis_output_is_raw_or_hex() {
    assert_eq!(genesis_output(vec![0x00, 0xab, 0x1f, 0x90], true), vec![0x00, 0xab, 0x1f, 0x90]);
    assert_eq!(genesis_output(vec![0x00, 0xab, 0x1f, 0x90], false), b"0x00ab1f90".to_vec());
    assert_eq!(genesis_output(vec![], false), b"0x".to_vec());
    assert_eq!(genesis_output(vec![0xff, 0x09], false), b"0xff09".to_vec());
}

#[test]
fn pioneer_chains_run_as_a_parachain() {
    assert!(runs_as_parachain("pioneer", ALL));
    assert!(runs_as_parachain("pioneer_local", ALL));
    assert!(!runs_as_parachain("pioneer_local", NONE));
    assert!(!runs_as_parachain("pione", ALL));
    assert!(!runs_as_parachain("dev", ALL));
    assert!(!runs_as_parachain("xpioneer", ALL));
}
