use mullvad_tui::autostart::{get_enabled_server, unit_name, AsStep, AutostartFlow};
use mullvad_tui::firewall::{apply, remove, DnsProto, FilterState, IpVersion};
use mullvad_tui::wireguard::{
    classify_up_failure, get_status, ConnectError, ConnectFlow, ConnectionStatus, DisconnectFlow,
    FlowStep, TunnelAction, UpFailure,
};

#[test]
fn status_parses_first_recognized_interface() {
    let out = "interface: se-mma-wg-001\n  public key: abc\n";
    assert_eq!(
        get_status(out, true),
        ConnectionStatus::Connected("se-mma-wg-001".to_string())
    );
}

#[test]
fn status_skips_unrecognized_interfaces() {
    let out = "interface: wlan0\ninterface: us-nyc-wg-404\n";
    assert_eq!(
        get_status(out, true),
        ConnectionStatus::Connected("us-nyc-wg-404".to_string())
    );
}

#[test]
fn status_disconnected_without_interface_or_on_failure() {
    assert_eq!(get_status("", true), ConnectionStatus::Disconnected);
    assert_eq!(get_status("interface: \n", true), ConnectionStatus::Disconnected);
    assert_eq!(
        get_status("interface: se-mma-wg-001\n", false),
        ConnectionStatus::Disconnected
    );
}

#[test]
fn classifier_follows_priority_order() {
    assert_eq!(
        classify_up_failure("resolvconf: signature mismatch, also already exists"),
        UpFailure::SignatureMismatch
    );
    assert_eq!(
        classify_up_failure("RTNETLINK answers: Operation not supported"),
        UpFailure::ModuleNotLoaded
    );
    assert_eq!(classify_up_failure("wg0 already exists"), UpFailure::InterfaceExists);
    assert_eq!(classify_up_failure("some other noise"), UpFailure::Other);
}

#[test]
fn connect_tears_down_current_tunnel_first() {
    let status = ConnectionStatus::Connected("us-nyc-wg-404".to_string());
    let (mut flow, step) = ConnectFlow::new("se-mma-wg-001", &status, true);
    assert_eq!(
        step,
        FlowStep::Run(TunnelAction::FirewallRemove("us-nyc-wg-404".to_string()))
    );
    let step = flow.on_result(true, "");
    assert_eq!(step, FlowStep::Run(TunnelAction::TunnelDown("us-nyc-wg-404".to_string())));
    let step = flow.on_result(true, "");
    assert_eq!(step, FlowStep::Run(TunnelAction::FlushDns));
    let step = flow.on_result(true, "");
    assert_eq!(step, FlowStep::Run(TunnelAction::TunnelUp("se-mma-wg-001".to_string())));
    let step = flow.on_result(true, "");
    assert_eq!(step, FlowStep::Run(TunnelAction::FirewallApply("se-mma-wg-001".to_string())));
    let step = flow.on_result(true, "");
    assert_eq!(step, FlowStep::Done);
    assert!(flow.is_finished());
}

#[test]
fn connect_aborts_when_teardown_fails() {
    let status = ConnectionStatus::Connected("us-nyc-wg-404".to_string());
    let (mut flow, _) = ConnectFlow::new("se-mma-wg-001", &status, true);
    let _ = flow.on_result(true, "");
    let step = flow.on_result(false, "device busy");
    assert_eq!(
        step,
        FlowStep::Fail(ConnectError::DisconnectFailed("device busy".to_string()))
    );
    assert!(flow.is_finished());
}

#[test]
fn connect_requires_profile() {
    let (flow, step) = ConnectFlow::new("se-mma-wg-001", &ConnectionStatus::Disconnected, false);
    assert_eq!(step, FlowStep::Fail(ConnectError::MissingProfile));
    assert!(flow.is_finished());
}

#[test]
fn signature_mismatch_retries_exactly_once() {
    let (mut flow, step) =
        ConnectFlow::new("se-mma-wg-001", &ConnectionStatus::Disconnected, true);
    assert_eq!(step, FlowStep::Run(TunnelAction::TunnelUp("se-mma-wg-001".to_string())));
    let step = flow.on_result(false, "resolvconf: signature mismatch");
    assert_eq!(step, FlowStep::Run(TunnelAction::ResolverRefresh));
    let step = flow.on_result(true, "");
    assert_eq!(step, FlowStep::Run(TunnelAction::TunnelUp("se-mma-wg-001".to_string())));
    // The retry's outcome is final: a second mismatch is not retried again.
    let step = flow.on_result(false, "still a signature mismatch");
    assert_eq!(
        step,
        FlowStep::Fail(ConnectError::RetryFailed("still a signature mismatch".to_string()))
    );
    assert!(flow.is_finished());
}

#[test]
fn retry_success_applies_firewall() {
    let (mut flow, _) = ConnectFlow::new("se-mma-wg-001", &ConnectionStatus::Disconnected, true);
    let _ = flow.on_result(false, "signature mismatch");
    let _ = flow.on_result(true, "");
    let step = flow.on_result(true, "");
    assert_eq!(step, FlowStep::Run(TunnelAction::FirewallApply("se-mma-wg-001".to_string())));
}

#[test]
fn module_not_loaded_is_classified() {
    let (mut flow, _) = ConnectFlow::new("se-mma-wg-001", &ConnectionStatus::Disconnected, true);
    let step = flow.on_result(false, "RTNETLINK answers: Operation not supported");
    assert_eq!(step, FlowStep::Fail(ConnectError::ModuleNotLoaded));
}

#[test]
fn existing_interface_is_classified() {
    let (mut flow, _) = ConnectFlow::new("se-mma-wg-001", &ConnectionStatus::Disconnected, true);
    let step = flow.on_result(false, "interface se-mma-wg-001 already exists");
    assert_eq!(step, FlowStep::Fail(ConnectError::InterfaceExists));
}

#[test]
fn unclassified_failure_carries_raw_output() {
    let (mut flow, _) = ConnectFlow::new("se-mma-wg-001", &ConnectionStatus::Disconnected, true);
    let step = flow.on_result(false, "boom");
    assert_eq!(step, FlowStep::Fail(ConnectError::TunnelUpFailed("boom".to_string())));
}

#[test]
fn disconnect_removes_rules_before_teardown() {
    let (mut flow, step) = DisconnectFlow::new("se-mma-wg-001");
    assert_eq!(
        step,
        FlowStep::Run(TunnelAction::FirewallRemove("se-mma-wg-001".to_string()))
    );
    let step = flow.on_result(true, "");
    assert_eq!(step, FlowStep::Run(TunnelAction::TunnelDown("se-mma-wg-001".to_string())));
    let step = flow.on_result(true, "");
    assert_eq!(step, FlowStep::Run(TunnelAction::FlushDns));
    let step = flow.on_result(true, "");
    assert_eq!(step, FlowStep::Done);
    assert!(flow.is_finished());
}

#[test]
fn disconnect_surfaces_teardown_failure() {
    let (mut flow, _) = DisconnectFlow::new("se-mma-wg-001");
    let _ = flow.on_result(true, "");
    let step = flow.on_result(false, "is not a WireGuard interface");
    assert_eq!(
        step,
        FlowStep::Fail(ConnectError::TunnelDownFailed(
            "is not a WireGuard interface".to_string()
        ))
    );
}

#[test]
fn firewall_apply_then_remove_restores_rules() {
    let mut state = FilterState::new();
    state.insert_rule(IpVersion::V4, DnsProto::Udp, "eth0");
    state.insert_rule(IpVersion::V6, DnsProto::Tcp, "wlan0");
    let before = state.rules.clone();
    state.apply_rules("se-mma-wg-001");
    assert_eq!(state.len(), 6);
    state.remove_rules("se-mma-wg-001");
    assert_eq!(state.rules, before);
}

#[test]
fn firewall_remove_when_absent_is_a_no_op() {
    let mut state = FilterState::new();
    state.insert_rule(IpVersion::V4, DnsProto::Udp, "eth0");
    let before = state.rules.clone();
    state.remove_rules("se-mma-wg-001");
    assert_eq!(state.rules, before);
}

#[test]
fn apply_commands_have_fixed_order_and_shape() {
    let cmds = apply("se-mma-wg-001");
    assert_eq!(cmds.len(), 7);
    assert_eq!(cmds[0].program, "resolvectl");
    assert_eq!(cmds[0].args, vec!["dns", "se-mma-wg-001", "10.64.0.1"]);
    assert_eq!(cmds[1].args, vec!["domain", "se-mma-wg-001", "~."]);
    assert_eq!(cmds[2].args, vec!["flush-caches"]);
    assert_eq!(cmds[3].program, "iptables");
    assert_eq!(
        cmds[3].args,
        vec!["-I", "OUTPUT", "!", "-o", "se-mma-wg-001", "-p", "udp", "--dport", "53", "-j", "REJECT"]
    );
    assert_eq!(cmds[4].args[6], "tcp");
    assert_eq!(cmds[5].program, "ip6tables");
    assert_eq!(cmds[6].program, "ip6tables");
}

#[test]
fn remove_commands_invert_apply_exactly() {
    let up = apply("se-mma-wg-001");
    let down = remove("se-mma-wg-001");
    assert_eq!(down.len(), 5);
    for k in 0..4 {
        let ins = &up[3 + k];
        let del = &down[k];
        assert_eq!(del.program, ins.program);
        assert_eq!(del.args[0], "-D");
        assert_eq!(ins.args[0], "-I");
        assert_eq!(del.args[1..], ins.args[1..]);
    }
    assert_eq!(down[4].args, vec!["flush-caches"]);
}

#[test]
fn get_enabled_server_parses_listing() {
    let listing = "UNIT FILE            STATE   PRESET\n\
                   wg-quick@wlan0.service disabled -\n\
                   wg-quick@se-mma-wg-001.service enabled enabled\n";
    assert_eq!(get_enabled_server(listing), Some("se-mma-wg-001".to_string()));
}

#[test]
fn get_enabled_server_requires_profile_marker() {
    let listing = "wg-quick@wlan0.service enabled enabled\n";
    assert_eq!(get_enabled_server(listing), None);
    assert_eq!(get_enabled_server(""), None);
}

#[test]
fn unit_name_carries_code() {
    assert_eq!(unit_name("se-mma-wg-001"), "wg-quick@se-mma-wg-001");
}

#[test]
fn enable_disables_previous_profile_first() {
    let current = Some("us-nyc-wg-404".to_string());
    let (mut flow, step) = AutostartFlow::new("se-mma-wg-001", &current);
    assert_eq!(step, AsStep::RunDisable("us-nyc-wg-404".to_string()));
    // The disable of the old profile is best-effort: even its failure moves
    // on to enabling the requested one.
    let step = flow.on_result(false, "unit not found");
    assert_eq!(step, AsStep::RunEnable("se-mma-wg-001".to_string()));
    let step = flow.on_result(true, "");
    assert_eq!(step, AsStep::Succeeded);
    assert!(flow.is_finished());
}

#[test]
fn enable_same_profile_skips_disable() {
    let current = Some("se-mma-wg-001".to_string());
    let (_, step) = AutostartFlow::new("se-mma-wg-001", &current);
    assert_eq!(step, AsStep::RunEnable("se-mma-wg-001".to_string()));
}

#[test]
fn enable_failure_is_surfaced() {
    let (mut flow, step) = AutostartFlow::new("se-mma-wg-001", &None);
    assert_eq!(step, AsStep::RunEnable("se-mma-wg-001".to_string()));
    let step = flow.on_result(false, "Access denied");
    assert_eq!(step, AsStep::Failed("Access denied".to_string()));
}

#[test]
fn parsers_accept_carriage_returns() {
    let listing = "wg-quick@se-mma-wg-001.service enabled enabled\r\n";
    assert_eq!(get_enabled_server(listing), Some("se-mma-wg-001".to_string()));
    let out = "interface: se-mma-wg-001\r\npeer: x\r\n";
    assert_eq!(
        get_status(out, true),
        ConnectionStatus::Connected("se-mma-wg-001".to_string())
    );
}
