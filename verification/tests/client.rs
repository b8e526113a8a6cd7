use wslc_manager::{CommandOutcome, ContainerInfo, ImageInfo, WslcClient, WslcCommand};

fn args(c: &WslcCommand) -> Vec<&str> {
    c.args.iter().map(|s| s.as_str()).collect()
}

fn exited(success: bool, stdout: &[u8], stderr: &[u8]) -> CommandOutcome {
    CommandOutcome::Exited { success, stdout: stdout.to_vec(), stderr: stderr.to_vec() }
}

#[test]
fn run_command_reads_outcomes() {
    assert_eq!(WslcClient::run_command(exited(true, b"ok\n", b"warn")), Ok("ok\n".to_string()));
    assert_eq!(WslcClient::run_command(exited(false, b"out", b"")), Ok("out".to_string()));
    assert_eq!(WslcClient::run_command(exited(false, b"out", b"bad")), Err("bad".to_string()));
    assert_eq!(
        WslcClient::run_command(CommandOutcome::Failed("not found".to_string())),
        Err("Failed to execute command: not found".to_string())
    );
}

#[test]
fn run_command_replaces_invalid_utf8() {
    assert_eq!(
        WslcClient::run_command(exited(true, &[0x61, 0xff, 0x62], b"")),
        Ok("a\u{fffd}b".to_string())
    );
    assert_eq!(
        WslcClient::run_command(exited(false, b"", &[0xc3])),
        Err("\u{fffd}".to_string())
    );
}

#[test]
fn simple_commands() {
    let c = WslcClient::new();
    let cmd = c.stop_container("web");
    assert_eq!(cmd.program, "wslc");
    assert_eq!(args(&cmd), vec!["container", "stop", "web"]);
    assert_eq!(args(&c.start_container("web")), vec!["container", "start", "web"]);
    assert_eq!(args(&c.remove_container("web", true)), vec!["container", "rm", "-f", "web"]);
    assert_eq!(args(&c.remove_container("web", false)), vec!["container", "rm", "web"]);
    assert_eq!(args(&c.exec_command("web", "ls -l")), vec!["exec", "web", "bash", "-c", "ls -l"]);
    assert_eq!(args(&c.pull_image("nginx")), vec!["pull", "nginx"]);
    assert_eq!(args(&c.remove_image("nginx", true)), vec!["rmi", "-f", "nginx"]);
    assert_eq!(args(&c.remove_image("nginx", false)), vec!["rmi", "nginx"]);
    assert_eq!(args(&c.get_container_stats("web")), vec!["stats", "web", "--no-stream"]);
    assert_eq!(args(&c.get_container_top("web")), vec!["exec", "web", "ps", "aux"]);
    assert_eq!(args(&c.export_container("web", "/tmp/w.tar")), vec!["export", "web", "-o", "/tmp/w.tar"]);
    assert_eq!(args(&c.import_image("img", "f.tar", Some("bash"))), vec!["import", "img", "f.tar", "-c", "bash"]);
    assert_eq!(args(&c.import_image("img", "f.tar", None)), vec!["import", "img", "f.tar"]);
    assert_eq!(args(&c.commit_container("web", "snap")), vec!["commit", "web", "snap"]);
    assert_eq!(args(&c.copy_from_container("web", "/etc/hosts", ".")), vec!["cp", "web:/etc/hosts", "."]);
    assert_eq!(args(&c.copy_to_container("web", "a.txt", "/tmp")), vec!["cp", "a.txt", "web:/tmp"]);
    assert_eq!(args(&c.rename_container("a", "b")), vec!["container", "rename", "a", "b"]);
    assert_eq!(args(&c.create_volume("v")), vec!["volume", "create", "v"]);
    assert_eq!(args(&c.remove_volume("v")), vec!["volume", "rm", "v"]);
    assert_eq!(args(&c.create_network("n", Some("bridge"))), vec!["network", "create", "--driver", "bridge", "n"]);
    assert_eq!(args(&c.create_network("n", None)), vec!["network", "create", "n"]);
    assert_eq!(args(&c.remove_network("n")), vec!["network", "rm", "n"]);
    assert_eq!(args(&c.inspect_container_command("web")), vec!["inspect", "web"]);
    assert_eq!(args(&c.get_version_command()), vec!["--version"]);
    assert_eq!(args(&c.list_containers_command(true)), vec!["container", "ps", "-a"]);
    assert_eq!(args(&c.list_containers_command(false)), vec!["container", "ps"]);
    assert_eq!(args(&c.list_images_command()), vec!["image", "ls"]);
    assert_eq!(args(&c.list_volumes_command()), vec!["volume", "ls"]);
    assert_eq!(args(&c.list_networks_command()), vec!["network", "ls"]);
}

#[test]
fn run_container_command_lists_options_in_order() {
    let c = WslcClient::new();
    let cmd = c.run_container(
        "nginx",
        Some("web"),
        Some("8080:80"),
        Some("/data:/data"),
        Some(vec!["A=1".to_string(), "B=2".to_string()]),
        true,
        Some("echo hi"),
    );
    assert_eq!(
        args(&cmd),
        vec![
            "run", "-d", "--name", "web", "-p", "8080:80", "-v", "/data:/data", "-e", "A=1", "-e",
            "B=2", "nginx", "bash", "-c", "echo hi"
        ]
    );
    let bare = c.run_container("alpine", None, None, None, None, false, None);
    assert_eq!(args(&bare), vec!["run", "--rm", "alpine"]);
}

#[test]
fn logs_command_renders_line_count() {
    let c = WslcClient::new();
    assert_eq!(args(&c.get_logs("web", Some(250), true)), vec!["container", "logs", "--tail", "250", "-f", "web"]);
    assert_eq!(args(&c.get_logs("web", Some(0), false)), vec!["container", "logs", "--tail", "0", "web"]);
    assert_eq!(args(&c.get_logs("web", None, false)), vec!["container", "logs", "web"]);
    assert_eq!(wslc_manager::client::u32_to_decimal(4294967295), "4294967295");
}

#[test]
fn version_is_trimmed_and_errors_pass_through() {
    let c = WslcClient::new();
    assert_eq!(c.get_version(Ok("  wslc 1.2.3\n".to_string())), Ok("wslc 1.2.3".to_string()));
    assert_eq!(c.get_version(Err("no wslc".to_string())), Err("no wslc".to_string()));
}

#[test]
fn listings_pass_errors_on() {
    let c = WslcClient::new();
    assert_eq!(c.list_containers(Err("e1".to_string())).unwrap_err(), "e1");
    assert_eq!(c.list_images(Err("e2".to_string())).unwrap_err(), "e2");
    assert_eq!(c.list_volumes(Err("e3".to_string())).unwrap_err(), "e3");
    assert_eq!(c.list_networks(Err("e4".to_string())).unwrap_err(), "e4");
    assert_eq!(c.list_containers(Ok(String::new())).unwrap().len(), 0);
}

#[test]
fn restart_starts_after_a_successful_stop() {
    let c = WslcClient::new();
    let next = c.restart_container("web", Ok(String::new())).unwrap();
    assert_eq!(args(&next), vec!["container", "start", "web"]);
    assert_eq!(c.restart_container("web", Err("busy".to_string())).err(), Some("busy".to_string()));
}

fn container(name: &str, running: bool) -> ContainerInfo {
    ContainerInfo {
        id: "id".to_string(),
        name: name.to_string(),
        image: "img".to_string(),
        created: "-".to_string(),
        status: if running { "Up".to_string() } else { "Exited".to_string() },
        ports: "-".to_string(),
        is_running: running,
    }
}

fn image(repo: &str, tag: &str) -> ImageInfo {
    ImageInfo {
        repository: repo.to_string(),
        tag: tag.to_string(),
        image_id: "x".to_string(),
        created: "-".to_string(),
        size: "1MB".to_string(),
    }
}

#[test]
fn system_info_counts_listings_and_running_containers() {
    let c = WslcClient::new();
    let info = c
        .get_system_info(
            Ok("1.0".to_string()),
            Ok(vec![container("a", true), container("b", false), container("c", true)]),
            Ok(vec![image("nginx", "latest")]),
            Err("no volumes".to_string()),
            Ok(vec![]),
        )
        .unwrap();
    assert_eq!(info.wslc_version, "1.0");
    assert_eq!(info.container_count, 3);
    assert_eq!(info.running_containers, 2);
    assert_eq!(info.image_count, 1);
    assert_eq!(info.volume_count, 0);
    assert_eq!(info.network_count, 0);
    let empty = c
        .get_system_info(Err("x".to_string()), Err("x".to_string()), Err("x".to_string()), Err("x".to_string()), Err("x".to_string()))
        .unwrap();
    assert_eq!(empty.wslc_version, "");
    assert_eq!(empty.container_count, 0);
    assert_eq!(empty.running_containers, 0);
}

#[test]
fn image_exists_by_repository_or_full_name() {
    let c = WslcClient::new();
    let listing = Ok(vec![image("nginx", "latest"), image("redis", "7")]);
    assert!(c.image_exists(&listing, "nginx"));
    assert!(c.image_exists(&listing, "redis:7"));
    assert!(!c.image_exists(&listing, "redis:6"));
    assert!(!c.image_exists(&Err("down".to_string()), "nginx"));
}

#[test]
fn container_exists_when_inspection_succeeds() {
    let c = WslcClient::new();
    let found = c.inspect_container("web", Ok("{}".to_string()));
    assert!(c.container_exists(&found));
    let missing = c.inspect_container("web", Err("No such container".to_string()));
    assert!(!c.container_exists(&missing));
}
