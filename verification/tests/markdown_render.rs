use babak_code::markdown::{parse_markdown, parse_markdown_dimmed};
use babak_code::styled::Color;

#[test]
fn header_levels() {
    let t = parse_markdown("# H1\n## H2\n### H3");
    assert_eq!(t.len(), 3);
    assert_eq!(t[0].spans[0].style.fg, Some(Color::Yellow));
    assert_eq!(t[0].spans[0].content, "H1");
    assert_eq!(t[1].spans[0].style.fg, Some(Color::Cyan));
    assert_eq!(t[2].spans[0].style.fg, Some(Color::Green));
}

#[test]
fn inline_bold_italic_code() {
    let t = parse_markdown("hello **world** and *nice* and `code`");
    let combined: String = t[0].spans.iter().map(|s| s.content.as_str()).collect();
    assert_eq!(combined, "hello world and nice and code");
    assert!(t[0].spans.iter().any(|s| s.style.bold));
    assert!(t[0].spans.iter().any(|s| s.style.italic));
    assert!(t[0].spans.iter().any(|s| s.style.fg == Some(Color::Green)));
}

#[test]
fn code_block_content() {
    let t = parse_markdown("```\nlet x = 1;\n```");
    assert_eq!(t.len(), 1);
    assert_eq!(t[0].spans[0].content, "let x = 1;");
    assert_eq!(t[0].spans[0].style.fg, Some(Color::Cyan));
}

#[test]
fn dimmed_header_is_dark_gray() {
    let t = parse_markdown_dimmed("# H1");
    assert_eq!(t[0].spans[0].style.fg, Some(Color::DarkGray));
}

#[test]
fn dimmed_code_block_is_dark_gray() {
    let t = parse_markdown_dimmed("```\nlet x = 1;\n```");
    assert_eq!(t[0].spans[0].style.fg, Some(Color::DarkGray));
}

#[test]
fn unordered_list() {
    let t = parse_markdown("- one\n- two");
    assert!(t[0].spans[0].content.starts_with("• "));
    assert!(t[1].spans[0].content.starts_with("• "));
}

#[test]
fn blockquote_prefix() {
    let t = parse_markdown("> quoted");
    assert!(t[0].spans[0].content.starts_with("│ "));
}

#[test]
fn dimmed_rendering_is_all_dark_gray() {
    let t = parse_markdown_dimmed("# T\n\nsome *em* and `code` [link](http://x)\n\n```rust\nfn f() {}\n```\n- a\n1. b");
    assert!(!t.is_empty());
    for line in &t {
        for span in &line.spans {
            assert_eq!(span.style.fg, Some(Color::DarkGray));
        }
    }
}

#[test]
fn ordered_list_numbers_items() {
    let t = parse_markdown("3. a\n4. b");
    assert!(t[0].spans[0].content.starts_with("3. "));
    assert!(t[1].spans[0].content.starts_with("4. "));
}

#[test]
fn dimmed_differs_from_normal_only_in_colour() {
    let src = "# T\n\nsome **bold** *em* ~~x~~ and `code` [link](http://x)\n\n```rust\nfn f() {}\n```\n- a\n1. b";
    let normal = parse_markdown(src);
    let dimmed = parse_markdown_dimmed(src);
    assert_eq!(normal.len(), dimmed.len());
    for (n, d) in normal.iter().zip(dimmed.iter()) {
        assert_eq!(n.spans.len(), d.spans.len());
        for (a, b) in n.spans.iter().zip(d.spans.iter()) {
            assert_eq!(a.content, b.content);
            let mut sa = a.style;
            let mut sb = b.style;
            sa.fg = None;
            sb.fg = None;
            assert_eq!(sa, sb);
            assert_eq!(b.style.fg, Some(Color::DarkGray));
        }
    }
}
