use gopher_client::{decode_text, parse_menu, GopherItem, Menu, MenuItem};

fn line_item(item_type: GopherItem, display_text: &str, selector: &str, host: &str, port: u16) -> MenuItem {
    MenuItem {
        item_type,
        display_text: display_text.to_string(),
        selector: selector.to_string(),
        host: host.to_string(),
        port,
    }
}

#[test]
fn response_with_three_lines_has_two_selectable_items() {
    let menu = parse_menu(
        "1Menu One\t/one\tgopher.example.com\t70\r\niInfo line\t\t\t\r\n0Doc\t/doc.txt\tgopher.example.com\t70\r\n",
    );
    assert_eq!(menu.items.len(), 2);
    assert_eq!(
        menu.items[0],
        line_item(GopherItem::Directory, "Menu One", "/one", "gopher.example.com", 70)
    );
    assert_eq!(
        menu.items[1],
        line_item(GopherItem::Text, "Doc", "/doc.txt", "gopher.example.com", 70)
    );
    assert!(menu.items.iter().all(|item| item.item_type != GopherItem::Info));
    assert_eq!(menu.lines, vec!["[0] [DIR] Menu One", "[1] [TXT] Doc"]);
}

#[test]
fn info_line_is_shown_and_not_indexed() {
    let menu = parse_menu(
        "1Menu One\t/one\tgopher.example.com\t70\r\niInfo line\t\t\t0\r\n0Doc\t/doc.txt\tgopher.example.com\t70\r\n",
    );
    assert_eq!(menu.items.len(), 2);
    assert_eq!(menu.items[0].display_text, "Menu One");
    assert_eq!(menu.items[1].display_text, "Doc");
    assert_eq!(menu.lines, vec!["[0] [DIR] Menu One", "    Info line", "[1] [TXT] Doc"]);
}

#[test]
fn empty_response_is_an_empty_menu() {
    assert_eq!(parse_menu(""), Menu { items: vec![], lines: vec![] });
    assert_eq!(parse_menu("\r\n\r\n\n"), Menu { items: vec![], lines: vec![] });
}

#[test]
fn lines_that_are_no_items_are_dropped() {
    let menu = parse_menu(
        "iwelcome\tfake\t(NULL)\t0\n\n   \n9unknown\tx\ty\t1\n1short\t/s\n0bad port\t/p\th\tseventy\n.\n7Find\t/f\th\t70",
    );
    assert_eq!(menu.items, vec![line_item(GopherItem::Search, "Find", "/f", "h", 70)]);
    assert_eq!(menu.lines, vec!["    welcome", "[0] [SEARCH] Find"]);
}

#[test]
fn line_endings_may_be_bare_line_feeds() {
    let menu = parse_menu("0a\t/a\th\t1\n0b\t/b\th\t2\n");
    assert_eq!(menu.items.len(), 2);
    assert_eq!(menu.items[1].port, 2);
}

#[test]
fn last_line_needs_no_line_ending() {
    let menu = parse_menu("0a\t/a\th\t1\r\n0b\t/b\th\t2");
    assert_eq!(menu.items.len(), 2);
    assert_eq!(menu.items[1].port, 2);
}

#[test]
fn carriage_return_without_line_feed_stays_in_the_line() {
    let menu = parse_menu("0a\t/a\th\t1\r");
    assert!(menu.items.is_empty());
    let menu = parse_menu("0a\t/a\r\th\t1\r\n");
    assert_eq!(menu.items[0].selector, "/a\r");
}

#[test]
fn only_one_carriage_return_belongs_to_the_line_ending() {
    let menu = parse_menu("0a\t/a\th\t1\r\r\n");
    assert!(menu.items.is_empty());
}

#[test]
fn indices_count_selectable_items_only() {
    let mut response = String::new();
    for i in 0..12 {
        response.push_str(&format!("inote {}\t\t\t0\r\n", i));
        response.push_str(&format!("1dir {}\t/d{}\th\t70\r\n", i, i));
    }
    let menu = parse_menu(&response);
    assert_eq!(menu.items.len(), 12);
    assert_eq!(menu.lines.len(), 24);
    for i in 0..12 {
        assert_eq!(menu.lines[2 * i], format!("    note {}", i));
        assert_eq!(menu.lines[2 * i + 1], format!("[{}] [DIR] dir {}", i, i));
        assert_eq!(menu.items[i].selector, format!("/d{}", i));
    }
}

#[test]
fn menu_agrees_with_line_by_line_parsing() {
    let response = "1A\t/a\th\t70\r\ni \t\t\t1\r\n\r\n0B\t/b\th\t+71\rX\r\ngC\t/c\th\t72\nIbroken\n";
    let menu = parse_menu(response);
    let mut items = Vec::new();
    let mut lines = Vec::new();
    for line in response.lines() {
        if let Ok(item) = MenuItem::parse(line) {
            if item.item_type == GopherItem::Info {
                lines.push(item.display(None));
            } else {
                lines.push(item.display(Some(items.len())));
                items.push(item);
            }
        }
    }
    assert_eq!(menu, Menu { items, lines });
    assert_eq!(menu.items.len(), 2);
}

#[test]
fn well_formed_bytes_decode_to_their_text() {
    assert_eq!(decode_text(b"plain text\r\n"), "plain text\r\n");
    assert_eq!(decode_text("gr\u{fc}\u{df}e \u{2603}".as_bytes()), "gr\u{fc}\u{df}e \u{2603}");
    assert_eq!(decode_text(b""), "");
}

#[test]
fn ill_formed_bytes_decode_with_replacement_characters() {
    assert_eq!(decode_text(b"caf\xe9 menu"), "caf\u{fffd} menu");
    assert_eq!(decode_text(b"\xff\xfe"), "\u{fffd}\u{fffd}");
    assert_eq!(decode_text(b"ok\xe2\x98"), "ok\u{fffd}");
}

#[test]
fn menu_of_lossy_text_keeps_the_good_lines() {
    let text = decode_text(b"1Caf\xe9\t/cafe\th\t70\r\n0Doc\t/doc\th\t70\r\n");
    let menu = parse_menu(&text);
    assert_eq!(menu.items.len(), 2);
    assert_eq!(menu.items[0].display_text, "Caf\u{fffd}");
}
