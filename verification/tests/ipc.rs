use hal9001::ipc::{socket_path_choice, 
    answers, check_version, consent_precheck, consent_verdict, route, ConsentOutcome, Gatekeeper,
    MutatingAction, ReadMethod, Route, RpcError, RpcParams, UnknownConsent,
};

fn params() -> RpcParams {
    RpcParams { object_path: None, enabled: None, command: None, data: None }
}

#[test]
fn requests_are_denied_without_a_dialog_and_approved_in_auto_mode() {
    let mut g = Gatekeeper::new();
    assert_eq!(g.request("storage.mount", "montar?"), ConsentOutcome::Denied);
    assert!(g.pending().is_empty());
    g.set_auto_approve(true);
    assert_eq!(g.request("storage.mount", "montar?"), ConsentOutcome::Approved);
    assert!(g.pending().is_empty());
}

#[test]
fn pending_requests_are_resolved_once() {
    let mut g = Gatekeeper::new();
    g.attach_listener();
    assert!(g.has_listener());
    assert_eq!(g.request("system.exec", "ls"), ConsentOutcome::Pending(1));
    assert_eq!(g.request("pty.input", "x"), ConsentOutcome::Pending(2));
    let p = g.pending();
    assert_eq!(p.len(), 2);
    assert_eq!(p[0].method, "system.exec");
    assert_eq!(g.resolve(1, true), Ok(true));
    assert_eq!(g.pending().len(), 1);
    assert_eq!(g.pending()[0].id, 2);
    assert_eq!(g.resolve(1, false), Err(UnknownConsent { id: 1 }));
    assert_eq!(g.resolve(2, false), Ok(false));
    assert!(g.pending().is_empty());
    assert_eq!(UnknownConsent { id: 7 }.message(), "pedido de consentimento 7 não encontrado");
}

#[test]
fn routing() {
    assert!(matches!(route("battery.get", &params()), Ok(Route::Read(ReadMethod::BatteryGet))));
    let e = route("reboot", &params()).unwrap_err();
    assert_eq!(e.code, -32601);
    assert_eq!(e.message, "método não encontrado: reboot");
    let e = route("storage.mount", &params()).unwrap_err();
    assert_eq!(e.code, -32602);
    assert_eq!(e.message, "parâmetros inválidos: campo `object_path` (string) obrigatório");
    let mut p = params();
    p.object_path = Some("/org/x".to_string());
    match route("storage.unmount", &p).unwrap() {
        Route::NeedsConsent { method, description, action } => {
            assert_eq!(method, "storage.unmount");
            assert_eq!(description, "desmontar o dispositivo /org/x?");
            assert!(matches!(action, MutatingAction::Unmount(o) if o == "/org/x"));
        }
        _ => panic!("consent expected"),
    }
    let mut p = params();
    p.command = Some("ls".to_string());
    match route("system.exec", &p).unwrap() {
        Route::NeedsConsent { description, action, .. } => {
            assert_eq!(description, "executar no AI Terminal Deck: ls");
            assert!(matches!(action, MutatingAction::TerminalInput(t) if t == "ls\r"));
        }
        _ => panic!("consent expected"),
    }
    let mut p = params();
    p.enabled = Some(false);
    match route("network.wifi_set", &p).unwrap() {
        Route::NeedsConsent { description, action, .. } => {
            assert_eq!(description, "desligar o Wi-Fi?");
            assert!(matches!(action, MutatingAction::SetWifi(false)));
        }
        _ => panic!("consent expected"),
    }
}

#[test]
fn consent_errors() {
    let e = consent_precheck(false, false, "pty.input").unwrap_err();
    assert_eq!(e.code, -32001);
    assert_eq!(e.message, "consentimento indisponível para `pty.input` (nenhuma TUI anexada ao gatekeeper)");
    assert!(consent_precheck(false, true, "pty.input").is_ok());
    let e = consent_verdict(false, "system.exec").unwrap_err();
    assert_eq!(e.code, -32000);
    assert_eq!(e.message, "consentimento negado para `system.exec`");
    assert!(consent_verdict(true, "system.exec").is_ok());
}

#[test]
fn protocol_checks() {
    assert!(check_version(Some("2.0")).is_ok());
    assert_eq!(check_version(Some("1.0")).unwrap_err().code, -32600);
    assert_eq!(check_version(None).unwrap_err().message, "requisição inválida (esperado JSON-RPC 2.0)");
    assert!(!answers(false));
    assert_eq!(RpcError::parse_error("eof").message, "erro de parse do JSON: eof");
    assert_eq!(RpcError::backend("dbus down").code, -32003);
    assert_eq!(RpcError::no_session("none").code, -32002);
}

#[test]
fn socket_path_prefers_runtime_dir() {
    assert_eq!(socket_path_choice(Some("/run/user/1000".to_string()), Some("1000".to_string()), true, "/tmp"), "/run/user/1000/hall-9001.sock");
    assert_eq!(socket_path_choice(Some(String::new()), Some("1000".to_string()), true, "/tmp"), "/run/user/1000/hall-9001.sock");
    assert_eq!(socket_path_choice(None, Some("1000".to_string()), false, "/tmp"), "/tmp/hall-9001.sock");
    assert_eq!(socket_path_choice(None, None, true, "/tmp/"), "/tmp/hall-9001.sock");
}
