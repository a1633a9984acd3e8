use gopher_client::{navigation_options, server_uri, start_choice, GopherUrl, StartChoice};

#[test]
fn start_choices() {
    assert_eq!(start_choice("1"), StartChoice::Server(1));
    assert_eq!(start_choice("2"), StartChoice::Server(2));
    assert_eq!(start_choice("3"), StartChoice::Server(3));
    assert_eq!(start_choice("4"), StartChoice::Custom);
    assert_eq!(start_choice("q"), StartChoice::Quit);
    assert_eq!(start_choice("Q"), StartChoice::Quit);
    for other in ["", "0", "5", "11", "quit", " 1", "1 ", "x"] {
        assert_eq!(start_choice(other), StartChoice::Invalid, "{:?}", other);
    }
}

#[test]
fn known_servers() {
    assert_eq!(server_uri(1), Some("gopher://tramberend.de"));
    assert_eq!(server_uri(2), Some("gopher://gopher.floodgap.com"));
    assert_eq!(server_uri(3), Some("gopher://gopher.quux.org:70/"));
    assert_eq!(server_uri(0), None);
    assert_eq!(server_uri(4), None);
    assert_eq!(server_uri(255), None);
}

#[test]
fn known_servers_resolve() {
    for number in 1..=3u8 {
        let url = GopherUrl::parse(server_uri(number).unwrap()).unwrap();
        assert_eq!(url.port, 70);
    }
    assert_eq!(GopherUrl::parse(server_uri(2).unwrap()).unwrap().host, "gopher.floodgap.com");
}

#[test]
fn options_at_the_root_of_an_empty_menu() {
    assert_eq!(
        navigation_options(0, false),
        vec![
            "Navigation Options:",
            "  (Q)uit   - Exit program",
            "  (R)eload - Refresh current menu",
        ]
    );
}

#[test]
fn options_with_history_and_items() {
    assert_eq!(
        navigation_options(12, true),
        vec![
            "Navigation Options:",
            "  (Q)uit   - Exit program",
            "  (B)ack   - Return to previous menu",
            "  (R)eload - Refresh current menu",
            "  [0-11]   - Select menu item",
        ]
    );
}

#[test]
fn options_with_one_item() {
    assert_eq!(
        navigation_options(1, false),
        vec![
            "Navigation Options:",
            "  (Q)uit   - Exit program",
            "  (R)eload - Refresh current menu",
            "  [0-0]   - Select menu item",
        ]
    );
    assert_eq!(
        navigation_options(usize::MAX, false)[3],
        format!("  [0-{}]   - Select menu item", usize::MAX - 1)
    );
}
