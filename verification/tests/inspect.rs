use wslc_manager::inspect::container_detail;
use wslc_manager::json::parse_json;
use wslc_manager::WslcClient;

const DOC: &str = r#"[{
  "Id": "abc123",
  "Name": "//web",
  "Created": "2024-01-01",
  "Config": {"Image": "nginx:latest", "Cmd": ["nginx", 5, "-g", "daemon off;"], "Env": ["A=1", "B=2"]},
  "State": {"Running": true, "Status": "running", "StartedAt": "2024-01-02"},
  "NetworkSettings": {"Ports": {
     "80/tcp": [{"HostIp": "0.0.0.0", "HostPort": "8080"}, {"HostIp": "::", "HostPort": "8081"}],
     "443/tcp": [{"HostIp": "0.0.0.0"}],
     "53": null
  }},
  "Mounts": [{"Source": "/srv", "Destination": "/usr/share/nginx", "Mode": "ro"}, {"Type": "volume"}]
}]"#;

#[test]
fn inspect_reads_the_first_document() {
    let c = WslcClient::new();
    let d = c.inspect_container("web", Ok(DOC.to_string())).unwrap();
    assert_eq!(d.id, "abc123");
    assert_eq!(d.name, "web");
    assert_eq!(d.image, "nginx:latest");
    assert_eq!(d.status, "running");
    assert_eq!(d.created, "2024-01-01");
    assert_eq!(d.started, "2024-01-02");
    assert_eq!(d.cmd, vec!["nginx", "-g", "daemon off;"]);
    assert_eq!(d.env, vec!["A=1", "B=2"]);
    // Members come in the map's key order: "443/tcp" before "53" before "80/tcp".
    assert_eq!(d.ports.len(), 3);
    assert_eq!(d.ports[0].host_port, "-");
    assert_eq!(d.ports[0].container_port, "443");
    assert_eq!(d.ports[0].protocol, "tcp");
    assert_eq!(d.ports[1].host_port, "8080");
    assert_eq!(d.ports[1].container_port, "80");
    assert_eq!(d.ports[2].host_port, "8081");
    assert_eq!(d.mounts.len(), 2);
    assert_eq!(d.mounts[0].source, "/srv");
    assert_eq!(d.mounts[0].destination, "/usr/share/nginx");
    assert_eq!(d.mounts[0].mode, "ro");
    assert_eq!(d.mounts[1].source, "-");
    assert_eq!(d.mounts[1].mode, "-");
}

#[test]
fn inspect_defaults_for_a_sparse_document() {
    let c = WslcClient::new();
    let d = c
        .inspect_container("db", Ok(r#"{"Image": "pg", "State": {"Running": false, "Status": "exited"}}"#.to_string()))
        .unwrap();
    assert_eq!(d.name, "db");
    assert_eq!(d.id, "-");
    assert_eq!(d.image, "pg");
    assert_eq!(d.status, "exited");
    assert_eq!(d.started, "-");
    assert!(d.ports.is_empty() && d.env.is_empty() && d.mounts.is_empty() && d.cmd.is_empty());
    let e = c.inspect_container("db", Ok("{}".to_string())).unwrap();
    assert_eq!(e.status, "unknown");
    assert_eq!(e.image, "-");
}

#[test]
fn inspect_reads_top_level_ports_and_protocol_suffix() {
    let c = WslcClient::new();
    let d = c
        .inspect_container("x", Ok(r#"{"Ports": {"9000/udp/x": [{"HostPort": "1"}], "7000": [{"HostPort": "2"}]}}"#.to_string()))
        .unwrap();
    assert_eq!(d.ports.len(), 2);
    assert_eq!(d.ports[0].container_port, "7000");
    assert_eq!(d.ports[0].protocol, "7000");
    assert_eq!(d.ports[1].container_port, "9000");
    assert_eq!(d.ports[1].protocol, "x");
}

#[test]
fn inspect_errors() {
    let c = WslcClient::new();
    assert_eq!(
        c.inspect_container("web", Ok("not json".to_string())).unwrap_err(),
        "Failed to parse container inspect output"
    );
    assert_eq!(c.inspect_container("web", Err("gone".to_string())).unwrap_err(), "gone");
}

#[test]
fn empty_inspect_array_reads_as_itself() {
    let doc = parse_json("[]").unwrap();
    let d = container_detail("n", &doc);
    assert_eq!(d.name, "n");
    assert_eq!(d.status, "unknown");
}

#[test]
fn wrapped_and_bare_documents_read_alike() {
    let bare = parse_json(r#"{"Id": "q", "Name": "/w", "State": {"Running": true}}"#).unwrap();
    let wrapped = parse_json(r#"[{"Id": "q", "Name": "/w", "State": {"Running": true}}]"#).unwrap();
    let a = container_detail("w", &bare);
    let b = container_detail("w", &wrapped);
    assert_eq!(a.id, b.id);
    assert_eq!(a.name, b.name);
    assert_eq!(a.status, b.status);
    assert_eq!(a.name, "w");
}
