use wslc_manager::api::{
    compose_service_command, exec_request_command, export_compose_yaml, force_requested,
    is_blank_text, logs_request_command, required_text, run_request_command,
    stopped_container_names,
};
use wslc_manager::json::parse_json;
use wslc_manager::{
    BatchReport, CloneAction, CloneJob, ComposeService, ContainerDetail, ContainerInfo, LogQuery,
    MountInfo, PortMapping, RunContainerRequest, WslcClient, WslcCommand,
};

fn args(c: &WslcCommand) -> Vec<&str> {
    c.args.iter().map(|s| s.as_str()).collect()
}

#[test]
fn required_fields_are_trimmed_or_refused() {
    let body = parse_json(r#"{"image": "  nginx  ", "blank": "   ", "n": 3}"#).unwrap();
    assert_eq!(required_text(&body, "image", "镜像名称不能为空"), Ok("nginx".to_string()));
    assert_eq!(required_text(&body, "blank", "卷名称不能为空"), Err("卷名称不能为空".to_string()));
    assert_eq!(required_text(&body, "missing", "网络名称不能为空"), Err("网络名称不能为空".to_string()));
    assert_eq!(required_text(&body, "n", "导出路径不能为空"), Err("导出路径不能为空".to_string()));
    assert!(is_blank_text(" \t\n"));
    assert!(!is_blank_text(" a "));
}

#[test]
fn run_request_refuses_a_blank_image_and_runs_detached() {
    let c = WslcClient::new();
    let blank = RunContainerRequest {
        image: "  ".to_string(),
        name: None,
        ports: None,
        volumes: None,
        envs: None,
        command: None,
    };
    assert_eq!(run_request_command(&c, &blank).err(), Some("镜像名称不能为空".to_string()));
    let req = RunContainerRequest {
        image: " nginx".to_string(),
        name: Some("web".to_string()),
        ports: None,
        volumes: None,
        envs: Some(vec!["X=1".to_string()]),
        command: None,
    };
    let cmd = run_request_command(&c, &req).unwrap();
    assert_eq!(args(&cmd), vec!["run", "-d", "--name", "web", "-e", "X=1", " nginx"]);
}

#[test]
fn request_options() {
    let c = WslcClient::new();
    assert!(force_requested(Some("true")));
    assert!(!force_requested(Some("TRUE")));
    assert!(!force_requested(None));
    let q = LogQuery { lines: Some(10), follow: None };
    assert_eq!(args(&logs_request_command(&c, "web", &q)), vec!["container", "logs", "--tail", "10", "web"]);
    let q = LogQuery { lines: None, follow: Some(true) };
    assert_eq!(args(&logs_request_command(&c, "web", &q)), vec!["container", "logs", "-f", "web"]);
    let body = parse_json("{}").unwrap();
    assert_eq!(args(&exec_request_command(&c, "web", &body)), vec!["exec", "web", "bash", "-c", "echo 'No command'"]);
    let body = parse_json(r#"{"command": "uptime"}"#).unwrap();
    assert_eq!(args(&exec_request_command(&c, "web", &body)), vec!["exec", "web", "bash", "-c", "uptime"]);
}

#[test]
fn batch_report_tallies_each_outcome() {
    let mut r = BatchReport::new();
    r.record("a", &Ok(String::new()));
    r.record("b", &Err("no such container".to_string()));
    r.record("c", &Ok("c".to_string()));
    assert_eq!(r.succeeded, 2);
    assert_eq!(r.failed, 1);
    assert_eq!(r.errors, vec!["b: no such container".to_string()]);
    assert_eq!(r.succeeded + r.failed, 3);
}

fn container(name: &str, running: bool) -> ContainerInfo {
    ContainerInfo {
        id: "id".to_string(),
        name: name.to_string(),
        image: "img".to_string(),
        created: "-".to_string(),
        status: "-".to_string(),
        ports: "-".to_string(),
        is_running: running,
    }
}

#[test]
fn only_stopped_containers_are_removed() {
    let listing = Ok(vec![container("a", true), container("b", false), container("c", false)]);
    assert_eq!(stopped_container_names(&listing), vec!["b".to_string(), "c".to_string()]);
    assert!(stopped_container_names(&Err("down".to_string())).is_empty());
}

#[test]
fn compose_services_run_as_project_containers() {
    let c = WslcClient::new();
    let s = ComposeService {
        name: "db".to_string(),
        image: "postgres".to_string(),
        ports: Some("5432:5432".to_string()),
        volumes: None,
        envs: None,
        command: Some("postgres -c x".to_string()),
    };
    let (name, cmd) = compose_service_command(&c, "shop", &s);
    assert_eq!(name, "shop-db");
    assert_eq!(
        args(&cmd),
        vec!["run", "-d", "--name", "shop-db", "-p", "5432:5432", "postgres", "bash", "-c", "postgres -c x"]
    );
}

fn detail() -> ContainerDetail {
    ContainerDetail {
        id: "i".to_string(),
        name: "web".to_string(),
        image: "nginx".to_string(),
        status: "running".to_string(),
        created: "-".to_string(),
        started: "-".to_string(),
        ports: vec![PortMapping {
            host_port: "8080".to_string(),
            container_port: "80".to_string(),
            protocol: "tcp".to_string(),
        }],
        env: vec!["A=1".to_string()],
        mounts: vec![MountInfo { source: "/a".to_string(), destination: "/b".to_string(), mode: "rw".to_string() }],
        cmd: vec!["nginx".to_string(), "-g".to_string()],
    }
}

#[test]
fn compose_yaml_lists_every_setting() {
    let yaml = export_compose_yaml("web", &detail());
    assert_eq!(
        yaml,
        "version: '3.8'\nservices:\n  web:\n    image: nginx\n    command: nginx -g\n    ports:\n      - \"8080:80\"\n    environment:\n      - A=1\n    volumes:\n      - \"/a:/b\"\n"
    );
    let mut bare = detail();
    bare.cmd.clear();
    bare.ports.clear();
    bare.env.clear();
    bare.mounts.clear();
    assert_eq!(export_compose_yaml("w", &bare), "version: '3.8'\nservices:\n  w:\n    image: nginx\n");
}

fn exec_args(a: &CloneAction) -> Vec<String> {
    match a {
        CloneAction::Execute(c) => c.args.clone(),
        CloneAction::Finish(_) => panic!("expected a command"),
    }
}

#[test]
fn clone_runs_inspect_commit_run_and_cleanup() {
    let c = WslcClient::new();
    let (mut job, first) = CloneJob::start(&c, "web", "web2");
    assert_eq!(args(&first), vec!["inspect", "web"]);
    assert_eq!(job.temp_image, "temp-clone-web");
    let doc = r#"[{"NetworkSettings": {"Ports": {"80/tcp": [{"HostPort": "8080"}]}}}]"#;
    let a = job.step(&c, Ok(doc.to_string()));
    assert_eq!(exec_args(&a), vec!["commit", "web", "temp-clone-web"]);
    let a = job.step(&c, Ok(String::new()));
    assert_eq!(exec_args(&a), vec!["run", "-d", "--name", "web2", "-p", "8080:80", "temp-clone-web"]);
    let a = job.step(&c, Err("port taken".to_string()));
    assert_eq!(exec_args(&a), vec!["rmi", "-f", "temp-clone-web"]);
    match job.step(&c, Ok(String::new())) {
        CloneAction::Finish(r) => assert_eq!(r, Err("port taken".to_string())),
        _ => panic!("expected the end"),
    }
}

#[test]
fn clone_stops_when_inspection_or_commit_fails() {
    let c = WslcClient::new();
    let (mut job, _) = CloneJob::start(&c, "web", "web2");
    match job.step(&c, Err("No such container".to_string())) {
        CloneAction::Finish(r) => assert_eq!(r, Err("No such container".to_string())),
        _ => panic!("expected the end"),
    }
    let (mut job, _) = CloneJob::start(&c, "web", "web2");
    let _ = job.step(&c, Ok("{}".to_string()));
    match job.step(&c, Err("commit failed".to_string())) {
        CloneAction::Finish(r) => assert_eq!(r, Err("commit failed".to_string())),
        _ => panic!("expected the end"),
    }
    let (mut job, _) = CloneJob::start(&c, "web", "web2");
    let _ = job.step(&c, Ok("{}".to_string()));
    let a = job.step(&c, Ok(String::new()));
    assert_eq!(exec_args(&a), vec!["run", "-d", "--name", "web2", "temp-clone-web"]);
}

#[test]
fn batch_tally_counts_a_whole_batch_in_order() {
    let items = vec![
        ("a".to_string(), Err("gone".to_string())),
        ("b".to_string(), Ok("b".to_string())),
        ("c".to_string(), Err("busy".to_string())),
        ("d".to_string(), Ok(String::new())),
    ];
    let r = BatchReport::tally(&items);
    assert_eq!(r.succeeded, 2);
    assert_eq!(r.failed, 2);
    assert_eq!(r.errors, vec!["a: gone".to_string(), "c: busy".to_string()]);
    let empty = BatchReport::tally(&Vec::new());
    assert_eq!((empty.succeeded, empty.failed, empty.errors.len()), (0, 0, 0));
}
