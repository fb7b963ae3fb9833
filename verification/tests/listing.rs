use mullvad_tui::api::{code_from_hostname, parse_register_response};
use mullvad_tui::app::{App, AutostartRequest, InputMode, View};
use mullvad_tui::server::{get_cities, get_countries, get_servers_in_city, group_servers, Server};
use mullvad_tui::wireguard::{ConnectError, ConnectionStatus, FlowStep};

fn server(code: &str, country: &str, city: &str) -> Server {
    Server {
        code: code.to_string(),
        hostname: format!("{}-wireguard", code),
        public_key: "PK=".to_string(),
        ipv4_addr: "203.0.113.5".to_string(),
        port: 51820,
        country: country.to_string(),
        city: city.to_string(),
    }
}

fn sample_servers() -> Vec<Server> {
    vec![
        server("us-nyc-wg-404", "USA", "New York"),
        server("se-sto-wg-003", "Sweden", "Stockholm"),
        server("se-mma-wg-002", "Sweden", "Malmo"),
        server("se-mma-wg-001", "Sweden", "Malmo"),
    ]
}

#[test]
fn group_servers_sorts_every_level() {
    let tree = group_servers(&sample_servers());
    let countries = get_countries(&tree);
    assert_eq!(countries, vec!["Sweden".to_string(), "USA".to_string()]);
    let cities = get_cities(&tree, "Sweden");
    assert_eq!(cities, vec!["Malmo".to_string(), "Stockholm".to_string()]);
    let malmo = get_servers_in_city(&tree, "Sweden", "Malmo");
    assert_eq!(malmo.len(), 2);
    assert_eq!(malmo[0].code, "se-mma-wg-001");
    assert_eq!(malmo[1].code, "se-mma-wg-002");
}

#[test]
fn tree_lookups_miss_unknown_names() {
    let tree = group_servers(&sample_servers());
    assert_eq!(get_cities(&tree, "Germany").len(), 0);
    assert_eq!(get_servers_in_city(&tree, "Sweden", "Gothenburg").len(), 0);
    assert_eq!(get_servers_in_city(&tree, "Germany", "Berlin").len(), 0);
}

#[test]
fn code_from_hostname_strips_suffix() {
    assert_eq!(code_from_hostname("se-mma-wg-001-wireguard"), "se-mma-wg-001");
    assert_eq!(code_from_hostname("se-mma-wg-001"), "se-mma-wg-001");
    assert_eq!(code_from_hostname(""), "");
}

#[test]
fn register_response_charset_decides_outcome() {
    let ok = "10.99.0.2/32,fc00:bbbb:bbbb:bb01::2:2/128";
    assert_eq!(parse_register_response(ok), Ok(ok.to_string()));
    let err = parse_register_response("Account does not exist");
    assert_eq!(
        err,
        Err("Mullvad API error: Account does not exist".to_string())
    );
}

#[test]
fn new_app_starts_in_country_view() {
    let app = App::new();
    assert_eq!(app.view, View::Countries);
    assert_eq!(app.input_mode, InputMode::Normal);
    assert_eq!(app.connection_status, ConnectionStatus::Disconnected);
    assert!(!app.should_quit);
    assert_eq!(app.current_list_len(), 0);
    assert_eq!(app.current_selection(), 0);
}

#[test]
fn navigation_wraps_both_ways() {
    let mut app = App::new();
    app.countries = vec!["Germany".to_string(), "Sweden".to_string(), "USA".to_string()];
    app.next();
    assert_eq!(app.selected_country_idx, 1);
    app.next();
    assert_eq!(app.selected_country_idx, 2);
    app.next();
    assert_eq!(app.selected_country_idx, 0);
    app.previous();
    assert_eq!(app.selected_country_idx, 2);
    app.previous();
    assert_eq!(app.selected_country_idx, 1);
}

#[test]
fn navigation_on_empty_list_stays_put() {
    let mut app = App::new();
    app.next();
    app.previous();
    assert_eq!(app.selected_country_idx, 0);
}

#[test]
fn select_descends_and_back_ascends() {
    let mut app = App::new();
    app.server_tree = group_servers(&sample_servers());
    app.countries = get_countries(&app.server_tree);
    let r = app.select();
    assert_eq!(r, None);
    assert_eq!(app.view, View::Cities);
    assert_eq!(app.selected_country, Some("Sweden".to_string()));
    assert_eq!(app.cities, vec!["Malmo".to_string(), "Stockholm".to_string()]);
    let r = app.select();
    assert_eq!(r, None);
    assert_eq!(app.view, View::Servers);
    assert_eq!(app.selected_city, Some("Malmo".to_string()));
    assert_eq!(app.city_servers.len(), 2);
    let r = app.select();
    assert_eq!(r, Some("se-mma-wg-001".to_string()));
    app.back();
    assert_eq!(app.view, View::Cities);
    assert_eq!(app.selected_city, None);
    app.back();
    assert_eq!(app.view, View::Countries);
    assert_eq!(app.selected_country, None);
}

#[test]
fn setup_account_trims_and_rejects_empty() {
    let mut app = App::new();
    app.enter_setup();
    assert_eq!(app.view, View::Setup);
    assert_eq!(app.input_mode, InputMode::AccountInput);
    assert_eq!(app.setup_account(), None);
    app.input_buffer = "  1234567890123456  ".to_string();
    assert_eq!(app.setup_account(), Some("1234567890123456".to_string()));
}

#[test]
fn finish_connect_records_status_and_message() {
    let mut app = App::new();
    app.finish_connect("se-mma-wg-001", &FlowStep::Done);
    assert_eq!(
        app.connection_status,
        ConnectionStatus::Connected("se-mma-wg-001".to_string())
    );
    assert_eq!(app.message, Some("Connected to se-mma-wg-001".to_string()));
    assert_eq!(app.error, None);
}

#[test]
fn finish_connect_reports_classified_errors() {
    let mut app = App::new();
    app.finish_connect("se-mma-wg-001", &FlowStep::Fail(ConnectError::MissingProfile));
    assert_eq!(
        app.error,
        Some("No config for se-mma-wg-001. Press 'i' to initialize.".to_string())
    );
    app.finish_connect(
        "se-mma-wg-001",
        &FlowStep::Fail(ConnectError::TunnelUpFailed("  boom \n".to_string())),
    );
    assert_eq!(
        app.error,
        Some("Failed to connect: wg-quick up failed:\nboom".to_string())
    );
}

#[test]
fn finish_disconnect_clears_status() {
    let mut app = App::new();
    app.update_status(ConnectionStatus::Connected("se-mma-wg-001".to_string()));
    app.finish_disconnect(&FlowStep::Done);
    assert_eq!(app.connection_status, ConnectionStatus::Disconnected);
    assert_eq!(app.message, Some("Disconnected".to_string()));
}

#[test]
fn toggle_autostart_picks_enable_or_disable() {
    let mut app = App::new();
    app.view = View::Servers;
    app.city_servers = vec![server("se-mma-wg-001", "Sweden", "Malmo")];
    assert_eq!(
        app.toggle_autostart(),
        Some(AutostartRequest::Enable("se-mma-wg-001".to_string()))
    );
    app.autostart_server = Some("se-mma-wg-001".to_string());
    assert_eq!(
        app.toggle_autostart(),
        Some(AutostartRequest::Disable("se-mma-wg-001".to_string()))
    );
    app.view = View::Countries;
    assert_eq!(app.toggle_autostart(), None);
}

#[test]
fn finish_autostart_updates_registry_view() {
    let mut app = App::new();
    let req = AutostartRequest::Enable("se-mma-wg-001".to_string());
    app.finish_autostart(&req, true, "");
    assert_eq!(app.autostart_server, Some("se-mma-wg-001".to_string()));
    assert_eq!(app.message, Some("Enabled autostart for se-mma-wg-001".to_string()));
    let req = AutostartRequest::Disable("se-mma-wg-001".to_string());
    app.finish_autostart(&req, true, "");
    assert_eq!(app.autostart_server, None);
    assert_eq!(app.message, Some("Disabled autostart for se-mma-wg-001".to_string()));
}

#[test]
fn endpoint_renders_small_port() {
    let mut s = server("se-mma-wg-001", "Sweden", "Malmo");
    s.port = 7;
    assert_eq!(s.endpoint(), "203.0.113.5:7");
    s.port = 65535;
    assert_eq!(s.endpoint(), "203.0.113.5:65535");
}
