use wslc_manager::json::parse_json;
use wslc_manager::ws::{ws_command, ws_reply, ws_request, WsReply, WsRequest};
use wslc_manager::WslcClient;

fn req(text: &str) -> WsRequest {
    ws_request(&parse_json(text).unwrap())
}

#[test]
fn messages_choose_requests() {
    assert!(matches!(req(r#"{"cmd": "refresh"}"#), WsRequest::Refresh));
    assert!(matches!(req(r#"{"cmd": "stop", "name": "web"}"#), WsRequest::Stop(n) if n == "web"));
    assert!(matches!(req(r#"{"cmd": "remove"}"#), WsRequest::Remove(n) if n.is_empty()));
    assert!(matches!(req(r#"{"cmd": "logs", "name": "w", "lines": 4294967301}"#), WsRequest::Logs { name, lines: Some(5) } if name == "w"));
    assert!(matches!(req(r#"{"cmd": "logs", "name": "w", "lines": -1}"#), WsRequest::Logs { lines: None, .. }));
    assert!(matches!(req(r#"{"cmd": "exec", "name": "w", "command": "ls"}"#), WsRequest::Exec { name, command } if name == "w" && command == "ls"));
    assert!(matches!(req(r#"{"cmd": "dance"}"#), WsRequest::Unknown));
    assert!(matches!(req("[1, 2]"), WsRequest::Unknown));
}

#[test]
fn requests_run_commands() {
    let c = WslcClient::new();
    let args = |r: &WsRequest| ws_command(&c, r).map(|cmd| cmd.args);
    assert_eq!(args(&WsRequest::Remove("w".to_string())), Some(vec!["container".to_string(), "rm".to_string(), "-f".to_string(), "w".to_string()]));
    assert_eq!(args(&WsRequest::Restart("w".to_string())), Some(vec!["container".to_string(), "stop".to_string(), "w".to_string()]));
    assert_eq!(
        args(&WsRequest::Logs { name: "w".to_string(), lines: Some(3) }),
        Some(vec!["container".to_string(), "logs".to_string(), "--tail".to_string(), "3".to_string(), "w".to_string()])
    );
    assert_eq!(args(&WsRequest::Refresh), None);
    assert_eq!(args(&WsRequest::Unknown), None);
}

#[test]
fn replies_name_the_container() {
    assert!(matches!(ws_reply(&WsRequest::Stop("web".to_string()), Ok(String::new())), WsReply::Success(m) if m == "容器 web 已停止"));
    assert!(matches!(ws_reply(&WsRequest::Start("web".to_string()), Ok(String::new())), WsReply::Success(m) if m == "容器 web 已启动"));
    assert!(matches!(ws_reply(&WsRequest::Restart("web".to_string()), Ok(String::new())), WsReply::Success(m) if m == "容器 web 已重启"));
    assert!(matches!(ws_reply(&WsRequest::Remove("web".to_string()), Ok(String::new())), WsReply::Success(m) if m == "容器 web 已删除"));
    assert!(matches!(ws_reply(&WsRequest::Stop("web".to_string()), Err("boom".to_string())), WsReply::Error(m) if m == "boom"));
    assert!(matches!(ws_reply(&WsRequest::Logs { name: "w".to_string(), lines: None }, Ok("l1".to_string())), WsReply::Logs { name, logs } if name == "w" && logs == "l1"));
    assert!(matches!(ws_reply(&WsRequest::Exec { name: "w".to_string(), command: "ls".to_string() }, Ok("o".to_string())), WsReply::ExecOutput { output, .. } if output == "o"));
    assert!(matches!(ws_reply(&WsRequest::Unknown, Ok("x".to_string())), WsReply::Error(m) if m == "Unknown command"));
}
