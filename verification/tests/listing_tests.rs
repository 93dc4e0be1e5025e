use nethex::listing::{format_interface_listing, InterfaceInfo};

#[test]
fn empty_listing_is_header_only() {
    let ifs: Vec<InterfaceInfo> = Vec::new();
    let lines = format_interface_listing(&ifs);
    assert_eq!(lines.len(), 1);
    assert_eq!(lines[0], "Detected Network Interfaces:");
}

#[test]
fn listing_shows_names_and_indented_addresses() {
    let ifs = vec![
        InterfaceInfo {
            name: "eth0".to_string(),
            addrs: vec!["192.168.0.7/24".to_string(), "fe80::1/64".to_string()],
        },
        InterfaceInfo { name: "lo".to_string(), addrs: vec![] },
    ];
    let lines = format_interface_listing(&ifs);
    assert_eq!(
        lines,
        vec![
            "Detected Network Interfaces:",
            "eth0",
            "  IP: 192.168.0.7/24",
            "  IP: fe80::1/64",
            "lo",
        ]
    );
}
