use wslc_manager::listing::{
    parse_container_table, parse_image_table, parse_network_table, parse_volume_table,
};
use wslc_manager::text::trim_to_string;
use wslc_manager::WslcClient;

#[test]
fn trimming_twice_is_trimming_once() {
    for s in ["  a b \t", "\u{3000}x\u{a0}", "", "   ", "plain"] {
        let once = trim_to_string(s);
        assert_eq!(trim_to_string(&once), once);
        assert_eq!(once, s.trim());
    }
}

#[test]
fn listed_fields_carry_no_surrounding_whitespace() {
    let header = format!("{:<14}{:<10}{:<14}{:<14}{:<14}{}", "CONTAINER ID", "NAMES", "IMAGE", "CREATED", "STATUS", "PORTS");
    let row = format!("{:<14}{:<10}{:<14}{:<14}{:<14}{}", " a ", "\tb", "c  ", " d", "Up e", " f ");
    let cs = parse_container_table(&format!("{}\n{}", header, row)).unwrap();
    let c = &cs[0];
    for f in [&c.id, &c.name, &c.image, &c.created, &c.status, &c.ports] {
        assert_eq!(f.trim(), f.as_str());
    }
}

#[test]
fn running_containers_never_exceed_listed_ones() {
    let header = format!("{:<14}{:<10}{:<14}{:<14}{:<14}{}", "CONTAINER ID", "NAMES", "IMAGE", "CREATED", "STATUS", "PORTS");
    let up = format!("{:<14}{:<10}{:<14}{:<14}{:<14}", "1", "a", "i", "c", "Up 1s");
    let down = format!("{:<14}{:<10}{:<14}{:<14}{:<14}", "2", "b", "i", "c", "Exited");
    let listing = format!("{}\n{}\n{}\n{}\n", header, up, down, up);
    let c = WslcClient::new();
    let cs = c.list_containers(Ok(listing));
    let info = c.get_system_info(Ok(String::new()), cs, Ok(vec![]), Ok(vec![]), Ok(vec![])).unwrap();
    assert_eq!(info.container_count, 3);
    assert_eq!(info.running_containers, 2);
    assert!(info.running_containers <= info.container_count);
}

#[test]
fn inspected_names_lose_leading_slashes() {
    let c = WslcClient::new();
    let d = c.inspect_container("x", Ok(r#"{"Name": "///a/b"}"#.to_string())).unwrap();
    assert_eq!(d.name, "a/b");
    let d = c.inspect_container("/given", Ok("{}".to_string())).unwrap();
    assert_eq!(d.name, "given");
}

#[test]
fn a_trailing_newline_leaves_listings_unchanged() {
    let header = format!("{:<14}{:<10}{:<14}{:<14}{:<14}{}", "CONTAINER ID", "NAMES", "IMAGE", "CREATED", "STATUS", "PORTS");
    let row = format!("{:<14}{:<10}{:<14}{:<14}{:<14}{}", "1", "a", "i", "c", "Up", "p");
    for text in [format!("{}\n{}", header, row), format!("{}\n{}\n", header, row), String::new()] {
        let a = parse_container_table(&text).unwrap();
        let b = parse_container_table(&format!("{}\n", text)).unwrap();
        assert_eq!(a.len(), b.len());
        for (x, y) in a.iter().zip(b.iter()) {
            assert_eq!((&x.id, &x.name, &x.status, &x.ports), (&y.id, &y.name, &y.status, &y.ports));
        }
    }
    let images = "REPOSITORY TAG IMAGE ID\n";
    assert_eq!(parse_image_table(images).unwrap().len(), parse_image_table(&format!("{}\n", images)).unwrap().len());
    let vols = "VOLUME NAME   DRIVER\nv1            local\n";
    assert_eq!(parse_volume_table(vols).unwrap().len(), parse_volume_table(&format!("{}\n", vols)).unwrap().len());
    let nets = "NETWORK ID  NAME\n";
    assert_eq!(parse_network_table(nets).unwrap().len(), parse_network_table(&format!("{}\n", nets)).unwrap().len());
}

#[test]
fn a_newline_after_a_carriage_return_changes_the_last_line() {
    // The row fills the line up to the PORTS column. With a final "\r" the
    // line is one byte longer and the ports cell is the blank "\r"; with
    // "\r\n" the terminator drops it and the ports cell falls back to "-".
    let header = format!("{:<14}{:<10}{:<14}{:<14}{:<14}{}", "CONTAINER ID", "NAMES", "IMAGE", "CREATED", "STATUS", "PORTS");
    let row = format!("{:<14}{:<10}{:<14}{:<14}{:<14}", "1", "a", "i", "c", "Up");
    let with_cr = format!("{}\n{}\r", header, row);
    let a = parse_container_table(&with_cr).unwrap();
    let b = parse_container_table(&format!("{}\n", with_cr)).unwrap();
    assert_eq!(a[0].ports, "");
    assert_eq!(b[0].ports, "-");
}
