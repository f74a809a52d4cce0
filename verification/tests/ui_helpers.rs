use signal_tui::link::{render_qr_lines, LinkResult, QrCell};
use signal_tui::setup::{step_label, validate_phone, Step};
use signal_tui::signal::types::MessageStatus;
use signal_tui::ui::{
    build_separator, centered_popup, extract_url, find_focused_message, osc8_link, sender_color,
    status_symbol, styled_uri_spans, truncate, PopupPlace, TextSpan, Tint,
};

#[test]
fn truncation() {
    assert_eq!(truncate("hello", 5), "hello");
    assert_eq!(truncate("hello", 10), "hello");
    assert_eq!(truncate("hello world", 6), "hello\u{2026}");
    assert_eq!(truncate("hello", 1), "\u{2026}");
    assert_eq!(truncate("hello", 0), "\u{2026}");
    assert_eq!(truncate("", 0), "");
    assert_eq!(truncate("\u{e9}\u{e9}\u{e9}", 4), "\u{e9}\u{e9}\u{e9}\u{2026}");
    assert_eq!(truncate("\u{e9}\u{e9}\u{e9}", 3), "\u{e9}\u{e9}\u{2026}");
}

#[test]
fn urls() {
    assert_eq!(extract_url("see https://example.org/x now"), "https://example.org/x");
    assert_eq!(extract_url("http://a.b"), "http://a.b");
    assert_eq!(extract_url("https://a.b then file:///tmp/x y"), "file:///tmp/x");
    assert_eq!(extract_url("http://first https://second"), "https://second");
    assert_eq!(extract_url("no link here"), "no link here");
    assert_eq!(extract_url(""), "");
}

#[test]
fn status_symbols() {
    assert_eq!(status_symbol(MessageStatus::Failed, false, true), ("\u{2717}", Tint::Red));
    assert_eq!(status_symbol(MessageStatus::Sending, false, true), ("\u{25cc}", Tint::DarkGray));
    assert_eq!(status_symbol(MessageStatus::Sent, false, true), ("\u{25cb}", Tint::DarkGray));
    assert_eq!(status_symbol(MessageStatus::Delivered, false, true), ("\u{2713}", Tint::White));
    assert_eq!(status_symbol(MessageStatus::Read, false, true), ("\u{25cf}", Tint::Green));
    assert_eq!(status_symbol(MessageStatus::Viewed, false, true), ("\u{25c9}", Tint::Cyan));
    assert_eq!(status_symbol(MessageStatus::Read, true, false), ("\u{f012d}", Tint::DarkGray));
    assert_eq!(status_symbol(MessageStatus::Failed, true, true), ("\u{f055c}", Tint::Red));
}

#[test]
fn sender_colors() {
    assert_eq!(sender_color("you"), Tint::Green);
    // '' hashes to 0, 'a' to 97 (97 % 8 = 1), 'ab' to 97 * 31 + 98 = 3105 (3105 % 8 = 1)
    assert_eq!(sender_color(""), Tint::Cyan);
    assert_eq!(sender_color("a"), Tint::Magenta);
    assert_eq!(sender_color("ab"), Tint::Magenta);
    // 'b' is 98 (98 % 8 = 2), 'c' 99 (3), 'd' 100 (4), 'e' 101 (5), 'f' 102 (6), 'g' 103 (7)
    assert_eq!(sender_color("b"), Tint::Yellow);
    assert_eq!(sender_color("c"), Tint::Blue);
    assert_eq!(sender_color("d"), Tint::LightRed);
    assert_eq!(sender_color("e"), Tint::LightGreen);
    assert_eq!(sender_color("f"), Tint::LightCyan);
    assert_eq!(sender_color("g"), Tint::LightMagenta);
    let long = "a very long sender name that makes the hash wrap around many times";
    let expected = long.bytes().fold(0u32, |acc, b| acc.wrapping_mul(31).wrapping_add(b as u32)) % 8;
    let palette = [
        Tint::Cyan,
        Tint::Magenta,
        Tint::Yellow,
        Tint::Blue,
        Tint::LightRed,
        Tint::LightGreen,
        Tint::LightCyan,
        Tint::LightMagenta,
    ];
    assert_eq!(sender_color(long), palette[expected as usize]);
}

#[test]
fn separators() {
    assert_eq!(build_separator(" Mon ", 11), "\u{2500}\u{2500}\u{2500} Mon \u{2500}\u{2500}\u{2500}");
    assert_eq!(build_separator("ab", 5), "\u{2500}ab\u{2500}\u{2500}");
    assert_eq!(build_separator("label", 3), "label");
    assert_eq!(build_separator("", 0), "");
}

#[test]
fn popups() {
    assert_eq!(centered_popup(80, 24, 42, 15), PopupPlace { x: 19, y: 4, width: 42, height: 15 });
    assert_eq!(centered_popup(30, 10, 42, 15), PopupPlace { x: 2, y: 1, width: 26, height: 8 });
    assert_eq!(centered_popup(3, 1, 42, 15), PopupPlace { x: 1, y: 0, width: 0, height: 0 });
}

#[test]
fn hyperlinks() {
    assert_eq!(osc8_link("https://a.b", "text"), "\x1b]8;;https://a.b\x07text\x1b]8;;\x07");
}

fn span(text: &str, is_link: bool) -> TextSpan {
    TextSpan { text: text.to_string(), is_link }
}

#[test]
fn spans() {
    assert_eq!(styled_uri_spans("plain text"), (vec![span("plain text", false)], None));
    assert_eq!(styled_uri_spans(""), (vec![], None));
    assert_eq!(
        styled_uri_spans("see https://a.b/c and http://d.e"),
        (
            vec![
                span("see ", false),
                span("https://a.b/c", true),
                span(" and ", false),
                span("http://d.e", true),
            ],
            None
        )
    );
    assert_eq!(styled_uri_spans("https://a.b"), (vec![span("https://a.b", true)], None));
    assert_eq!(
        styled_uri_spans("[image: a.png](file:///tmp/a.png)"),
        (vec![span("[image: a.png]", true)], Some("file:///tmp/a.png".to_string()))
    );
    assert_eq!(
        styled_uri_spans("[attachment: a.pdf] file:///tmp/a.pdf rest"),
        (vec![span("[attachment: a.pdf]", true)], Some("file:///tmp/a.pdf".to_string()))
    );
    assert_eq!(styled_uri_spans("[image: a.png]"), (vec![span("[image: a.png]", false)], None));
}

#[test]
fn focused_message() {
    let widths = vec![10, 0, 25, 5];
    let owners = vec![Some(0), None, Some(1), None];
    // rows in a view of 10 columns: line 0 takes 1, line 1 takes 1, line 2 takes 3, line 3 takes 1
    assert_eq!(find_focused_message(&widths, &owners, 10, 0, 1), Some(0));
    assert_eq!(find_focused_message(&widths, &owners, 10, 0, 2), Some(0));
    assert_eq!(find_focused_message(&widths, &owners, 10, 0, 3), Some(1));
    assert_eq!(find_focused_message(&widths, &owners, 10, 2, 3), Some(1));
    assert_eq!(find_focused_message(&widths, &owners, 10, 5, 1), Some(1));
    assert_eq!(find_focused_message(&widths, &owners, 10, 6, 1), None);
    assert_eq!(find_focused_message(&widths, &owners, 0, 0, 0), Some(0));
    assert_eq!(find_focused_message(&vec![3], &vec![None], 10, 0, 1), None);
    assert_eq!(find_focused_message(&vec![], &vec![], 10, 0, 1), None);
}

#[test]
fn phone_numbers() {
    assert_eq!(validate_phone("+15551234567"), Ok(()));
    assert_eq!(validate_phone("  +1555123  "), Ok(()));
    assert_eq!(validate_phone(""), Err("Phone number cannot be empty".to_string()));
    assert_eq!(validate_phone("   "), Err("Phone number cannot be empty".to_string()));
    assert_eq!(validate_phone("15551234567"), Err("Must start with + (E.164 format)".to_string()));
    assert_eq!(validate_phone("+155512"), Err("Phone number too short".to_string()));
    assert_eq!(validate_phone("+1555-1234"), Err("Only digits allowed after +".to_string()));
    assert_eq!(validate_phone("+1555123\u{663}"), Err("Only digits allowed after +".to_string()));
}

#[test]
fn step_labels() {
    assert_eq!(step_label(Step::SignalCli), "Step 1 of 4");
    assert_eq!(step_label(Step::Account), "Step 2 of 4");
    assert_eq!(step_label(Step::Linking), "Step 3 of 4");
    assert_eq!(step_label(Step::Preferences), "Step 4 of 4");
    assert_eq!(step_label(Step::Done), "Complete");
    assert_ne!(LinkResult::Success, LinkResult::Cancelled);
}

#[test]
fn qr_cells() {
    // a code of one dark module: five by five with the quiet zone, three rows of cells
    let rows = render_qr_lines(&vec![true], 1);
    assert_eq!(rows.len(), 3);
    assert!(rows.iter().all(|r| r.len() == 5));
    assert_eq!(rows[0], vec![QrCell::Blank; 5]);
    assert_eq!(
        rows[1],
        vec![QrCell::Blank, QrCell::Blank, QrCell::Upper, QrCell::Blank, QrCell::Blank]
    );
    assert_eq!(rows[2], vec![QrCell::Blank; 5]);
    // two by two: dark, light / dark, dark
    let rows = render_qr_lines(&vec![true, false, true, true], 2);
    assert_eq!(rows.len(), 3);
    assert_eq!(rows[1][2], QrCell::Full);
    assert_eq!(rows[1][3], QrCell::Lower);
    assert_eq!(rows[0][2], QrCell::Blank);
    assert_eq!(rows[2][2], QrCell::Blank);
}

fn cells(text: &str, links: &str) -> Vec<Option<signal_tui::ui::ScreenCell>> {
    text.chars()
        .zip(links.chars())
        .map(|(c, l)| match l {
            '-' => None,
            _ => Some(signal_tui::ui::ScreenCell {
                symbol: if c == '_' { String::new() } else { c.to_string() },
                is_link: l == 'L',
            }),
        })
        .collect()
}

#[test]
fn link_regions() {
    let rows = vec![
        cells("see https://a.b/c now", "....LLLLLLLLLLLLL...."),
        cells("go to https://long.ex", "......LLLLLLLLLLLLLLL"),
        cells("ample/path and http:/", "LLLLLLLLLL.....LLLLLL"),
        cells("/x.y here ___ z      ", "LLLL......LLL.-......"),
        cells("ab", "L-"),
    ];
    let regions = signal_tui::ui::collect_link_regions(&rows, 10, 20);
    let found: Vec<(u16, u16, &str, &str)> =
        regions.iter().map(|r| (r.x, r.y, r.url.as_str(), r.text.as_str())).collect();
    assert_eq!(
        found,
        vec![
            (14, 20, "https://a.b/c", "https://a.b/c"),
            (16, 21, "https://long.ex", "https://long.ex"),
            (10, 22, "https://long.ex", "ample/path"),
            (25, 22, "http:/", "http:/"),
            (10, 23, "http:/", "/x.y"),
            (10, 24, "a", "a"),
        ]
    );
    assert!(signal_tui::ui::collect_link_regions(&vec![], 0, 0).is_empty());
}
