use wslc_manager::listing::{
    parse_container_table, parse_image_table, parse_network_table, parse_volume_table,
};
use wslc_manager::ContainerInfo;

fn container_listing() -> String {
    let header = format!(
        "{:<14}{:<10}{:<14}{:<14}{:<14}{}",
        "CONTAINER ID", "NAMES", "IMAGE", "CREATED", "STATUS", "PORTS"
    );
    let web = format!(
        "{:<14}{:<10}{:<14}{:<14}{:<14}{}",
        "abc123", "web", "nginx:latest", "2 hours ago", "Up 2 hours", "0.0.0.0:80->80/tcp"
    );
    let db = format!(
        "{:<14}{:<10}{:<14}{:<14}{:<14}",
        "def456", "db", "postgres", "3 days ago", "Exited (0)"
    );
    format!("{}\n{}\n\n{}\n", header, web, db)
}

#[test]
fn containers_are_read_by_header_columns() {
    let cs = parse_container_table(&container_listing()).unwrap();
    assert_eq!(cs.len(), 2);
    let web: &ContainerInfo = &cs[0];
    assert_eq!(web.id, "abc123");
    assert_eq!(web.name, "web");
    assert_eq!(web.image, "nginx:latest");
    assert_eq!(web.created, "2 hours ago");
    assert_eq!(web.status, "Up 2 hours");
    assert_eq!(web.ports, "0.0.0.0:80->80/tcp");
    assert!(web.is_running);
    let db = &cs[1];
    assert_eq!(db.id, "def456");
    assert_eq!(db.status, "Exited (0)");
    assert_eq!(db.ports, "-");
    assert!(!db.is_running);
}

#[test]
fn container_status_is_matched_without_case() {
    let header = format!("{:<14}{:<10}{:<14}{:<14}{:<14}{}", "CONTAINER ID", "NAMES", "IMAGE", "CREATED", "STATUS", "PORTS");
    let row = format!("{:<14}{:<10}{:<14}{:<14}{:<14}", "a1", "x", "img", "now", "RUNNING");
    let cs = parse_container_table(&format!("{}\r\n{}", header, row)).unwrap();
    assert_eq!(cs.len(), 1);
    assert!(cs[0].is_running);
    assert_eq!(cs[0].status, "RUNNING");
}

#[test]
fn empty_and_header_only_listings_have_no_containers() {
    assert_eq!(parse_container_table("").unwrap().len(), 0);
    assert_eq!(parse_container_table("CONTAINER ID   NAMES\n").unwrap().len(), 0);
}

#[test]
fn short_container_rows_are_skipped_and_repeated_headers_too() {
    let out = "CONTAINER ID  NAMES     IMAGE\nabc\nCONTAINER ID  NAMES\n";
    assert_eq!(parse_container_table(out).unwrap().len(), 0);
}

#[test]
fn short_container_row_takes_defaults() {
    // The row ends inside the IMAGE column: created and ports fall back to "-",
    // and the image and status cells run to the end of the line.
    let header = format!("{:<14}{:<10}{:<14}{:<14}{:<14}{}", "CONTAINER ID", "NAMES", "IMAGE", "CREATED", "STATUS", "PORTS");
    let out = format!("{}\n{:<14}{:<10}{}", header, "id9", "nm", "im");
    // The status column starts past the end of this line: slicing there is out of range.
    assert!(parse_container_table(&out).is_none());
}

#[test]
fn containers_out_of_column_order_cannot_be_read() {
    // NAMES after IMAGE makes the name slice run backwards.
    let out = "CONTAINER ID   IMAGE     NAMES\nabc123         nginx     web-server-with-a-long-name\n";
    assert!(parse_container_table(out).is_none());
}

#[test]
fn container_cell_inside_a_character_cannot_be_read() {
    // The NAMES column starts at byte 13, inside the two-byte 'é'.
    let out = "CONTAINER ID NAMES\n123456789012\u{e9}xxxxxxxxxxxxxxxxxxxxxxxxxxxxxxxxxxxxxxxxxxxxxxxxxxxxxxxxxxxxxxxxxxxxxxxxxxxxxxxxxxxxxxxx\n";
    assert!(parse_container_table(out).is_none());
}

#[test]
fn container_fallback_columns_apply_without_header_names() {
    // A header without any known name: columns start at 0, 12, 24, 45, 60 and 78.
    let mut row = String::new();
    row.push_str(&format!("{:<12}{:<12}{:<21}{:<15}{:<18}{}", "id1", "name1", "image1", "created1", "Up", "ports1"));
    let out = format!("HEADER\n{}\n", row);
    let cs = parse_container_table(&out).unwrap();
    assert_eq!(cs.len(), 1);
    assert_eq!(cs[0].id, "id1");
    assert_eq!(cs[0].name, "name1");
    assert_eq!(cs[0].image, "image1");
    assert_eq!(cs[0].created, "created1");
    assert_eq!(cs[0].status, "Up");
    assert_eq!(cs[0].ports, "ports1");
    assert!(cs[0].is_running);
}

#[test]
fn images_are_read_by_header_columns() {
    let header = format!("{:<15}{:<10}{:<15}{:<15}{}", "REPOSITORY", "TAG", "IMAGE ID", "CREATED", "SIZE");
    let row = format!("{:<15}{:<10}{:<15}{:<15}{}", "nginx", "latest", "sha256:1", "2 weeks ago", "187MB");
    let short = "tiny";
    let out = format!("{}\n{}\n{}\nREPOSITORY again\n", header, row, short);
    let images = parse_image_table(&out).unwrap();
    assert_eq!(images.len(), 1);
    assert_eq!(images[0].repository, "nginx");
    assert_eq!(images[0].tag, "latest");
    assert_eq!(images[0].image_id, "sha256:1");
    assert_eq!(images[0].created, "2 weeks ago");
    assert_eq!(images[0].size, "187MB");
}

#[test]
fn volumes_are_read_with_defaults() {
    let header = format!("{:<12}{:<10}{}", "VOLUME NAME", "DRIVER", "MOUNTPOINT");
    let full = format!("{:<12}{:<10}{}", "data", "local", "/var/lib/data");
    let short = format!("{:<12}{:<5}", "cache", "x");
    let out = format!("{}\n{}\n{}\n", header, full, short);
    let vols = parse_volume_table(&out).unwrap();
    assert_eq!(vols.len(), 2);
    assert_eq!(vols[0].name, "data");
    assert_eq!(vols[0].driver, "local");
    assert_eq!(vols[0].mountpoint, "/var/lib/data");
    assert_eq!(vols[0].created, "-");
    // The row ends before the MOUNTPOINT column.
    assert_eq!(vols[1].name, "cache");
    assert_eq!(vols[1].driver, "local");
    assert_eq!(vols[1].mountpoint, "-");
}

#[test]
fn volume_row_shorter_than_driver_column_cannot_be_read() {
    let header = format!("{:<12}{:<10}{}", "VOLUME NAME", "DRIVER", "MOUNTPOINT");
    let out = format!("{}\nab\n", header);
    // The name cell runs to the DRIVER column, past the end of the line.
    assert!(parse_volume_table(&out).is_none());
}

#[test]
fn networks_are_read_with_defaults() {
    let header = format!("{:<14}{:<10}{:<10}{}", "NETWORK ID", "NAME", "DRIVER", "SCOPE");
    let full = format!("{:<14}{:<10}{:<10}{}", "n1", "bridge0", "bridge", "local");
    let short = format!("{:<14}{}", "n2", "host");
    let out = format!("{}\n{}\n{}\nID line\n", header, full, short);
    let nets = parse_network_table(&out).unwrap();
    assert_eq!(nets.len(), 2);
    assert_eq!(nets[0].id, "n1");
    assert_eq!(nets[0].name, "bridge0");
    assert_eq!(nets[0].driver, "bridge");
    assert_eq!(nets[0].scope, "local");
    assert_eq!(nets[1].id, "n2");
    assert_eq!(nets[1].name, "host");
    assert_eq!(nets[1].driver, "bridge");
    assert_eq!(nets[1].scope, "local");
}

#[test]
fn network_header_without_names_uses_offsets() {
    // "ID" at 0, then NAME at 12, DRIVER at 32 and SCOPE at 42 by fallback.
    let row = format!("{:<12}{:<20}{:<10}{}", "id7", "net7", "overlay", "swarm");
    let out = format!("XX\n{}\n", row);
    let nets = parse_network_table(&out).unwrap();
    assert_eq!(nets.len(), 1);
    assert_eq!(nets[0].id, "id7");
    assert_eq!(nets[0].name, "net7");
    assert_eq!(nets[0].driver, "overlay");
    assert_eq!(nets[0].scope, "swarm");
}

