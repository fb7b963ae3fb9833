use mullvad_tui::config::{
    config_exists, config_path, extract_private_key, find_existing_private_key,
    generate_all_configs, generate_config, list_configs,
};
use mullvad_tui::server::Server;

fn sample_server() -> Server {
    Server {
        code: "se-mma-wg-001".to_string(),
        hostname: "se-mma-wg-001-wireguard".to_string(),
        public_key: "PUBKEYPUBKEYPUBKEYPUBKEYPUBKEYPUBKEYPUBKEY=".to_string(),
        ipv4_addr: "203.0.113.5".to_string(),
        port: 51820,
        country: "Sweden".to_string(),
        city: "Malmo".to_string(),
    }
}

const VALID_KEY: &str = "aaaabbbbccccddddeeeeffffgggghhhhiiiijjjjkkk=";

#[test]
fn config_path_is_fixed_mapping() {
    assert_eq!(config_path("se-mma-wg-001"), "/etc/wireguard/se-mma-wg-001.conf");
}

#[test]
fn config_exists_checks_listing() {
    let codes = vec!["se-mma-wg-001".to_string(), "us-nyc-wg-404".to_string()];
    assert!(config_exists(&codes, "se-mma-wg-001"));
    assert!(!config_exists(&codes, "de-fra-wg-002"));
}

#[test]
fn list_configs_filters_and_sorts() {
    let entries = vec![
        "us-nyc-wg-404.conf".to_string(),
        "readme.txt".to_string(),
        "se-mma-wg-001.conf".to_string(),
        "plain.conf".to_string(),
        ".conf".to_string(),
        "de-fra-wg-002.conf.bak".to_string(),
    ];
    let codes = list_configs(&entries);
    assert_eq!(codes, vec!["se-mma-wg-001".to_string(), "us-nyc-wg-404".to_string()]);
}

#[test]
fn list_configs_empty_listing_is_empty() {
    let entries: Vec<String> = Vec::new();
    assert_eq!(list_configs(&entries).len(), 0);
}

#[test]
fn extract_key_accepts_valid_shape() {
    let content = format!("[Interface]\nPrivateKey = {}\nAddress = 10.0.0.2/32\n", VALID_KEY);
    assert_eq!(extract_private_key(&content), Some(VALID_KEY.to_string()));
}

#[test]
fn extract_key_is_case_insensitive() {
    let content = format!("PRIVATEKEY = {}\n", VALID_KEY);
    assert_eq!(extract_private_key(&content), Some(VALID_KEY.to_string()));
}

#[test]
fn extract_key_rejects_wrong_length() {
    let content = "PrivateKey = aGVsbG8==\n";
    assert_eq!(extract_private_key(content), None);
}

#[test]
fn extract_key_rejects_missing_padding() {
    let key43 = "aaaabbbbccccddddeeeeffffgggghhhhiiiijjjjkkkX";
    assert_eq!(key43.len(), 44);
    let content = format!("PrivateKey = {}\n", key43);
    assert_eq!(extract_private_key(&content), None);
}

#[test]
fn extract_key_skips_non_matching_lines() {
    let content = format!(
        "# comment\nAddress = 10.0.0.2/32\nPrivateKey = short=\nPrivateKey = {}\n",
        VALID_KEY
    );
    assert_eq!(extract_private_key(&content), Some(VALID_KEY.to_string()));
}

#[test]
fn find_existing_key_takes_first_valid() {
    let contents = vec![
        "[Interface]\nAddress = 10.0.0.2/32\n".to_string(),
        format!("[Interface]\nPrivateKey = {}\n", VALID_KEY),
    ];
    assert_eq!(find_existing_private_key(&contents), Some(VALID_KEY.to_string()));
    let none: Vec<String> = vec!["[Interface]\n".to_string()];
    assert_eq!(find_existing_private_key(&none), None);
}

#[test]
fn generated_profile_has_fixed_template() {
    let s = sample_server();
    let f = generate_config(&s, VALID_KEY, "10.99.0.2/32,fc00::2/128");
    assert_eq!(f.path, "/etc/wireguard/se-mma-wg-001.conf");
    assert_eq!(f.tmp_path, "/etc/wireguard/se-mma-wg-001.conf.tmp");
    let expected = format!(
        "[Interface]\nPrivateKey = {}\nAddress = 10.99.0.2/32,fc00::2/128\nDNS = 10.64.0.1\n\n[Peer]\nPublicKey = {}\nEndpoint = 203.0.113.5:51820\nAllowedIPs = 0.0.0.0/0, ::/0\n",
        VALID_KEY, s.public_key
    );
    assert_eq!(f.content, expected);
}

#[test]
fn written_profile_resolves_its_key() {
    let s = sample_server();
    let f = generate_config(&s, VALID_KEY, "10.99.0.2/32");
    assert_eq!(extract_private_key(&f.content), Some(VALID_KEY.to_string()));
}

#[test]
fn generate_all_configs_renders_each_endpoint() {
    let mut b = sample_server();
    b.code = "us-nyc-wg-404".to_string();
    let servers = vec![sample_server(), b];
    let files = generate_all_configs(&servers, VALID_KEY, "10.99.0.2/32");
    assert_eq!(files.len(), 2);
    assert_eq!(files[0].path, "/etc/wireguard/se-mma-wg-001.conf");
    assert_eq!(files[1].path, "/etc/wireguard/us-nyc-wg-404.conf");
    assert_eq!(extract_private_key(&files[1].content), Some(VALID_KEY.to_string()));
}

#[test]
fn endpoint_renders_address_and_port() {
    let s = sample_server();
    assert_eq!(s.endpoint(), "203.0.113.5:51820");
}

#[test]
fn location_renders_city_and_country() {
    let s = sample_server();
    assert_eq!(s.location(), "Malmo, Sweden");
}

#[test]
fn extract_key_handles_crlf_profiles() {
    let content = format!("[Interface]\r\nPrivateKey = {}\r\nAddress = 10.0.0.2/32\r\n", VALID_KEY);
    assert_eq!(extract_private_key(&content), Some(VALID_KEY.to_string()));
}
