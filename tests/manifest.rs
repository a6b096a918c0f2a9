use tocer::line::{classify, file_path, key_value_pair, Line};
use tocer::Toc;

#[test]
fn interface_tag_with_space() {
    let toc = Toc::from_text("## Interface: 11302\n");
    assert_eq!(toc.tag("Interface"), Some("11302"));
    assert_eq!(toc.tags.len(), 1);
    assert!(toc.files.is_empty());
}

#[test]
fn title_keeps_color_codes() {
    let toc = Toc::from_text("##Title: |cff20ff20Bagnon|r\n");
    assert_eq!(toc.tag("Title"), Some("|cff20ff20Bagnon|r"));
}

#[test]
fn tag_line_without_colon_is_discarded() {
    let toc = Toc::from_text("## bad comment\n");
    assert!(toc.tags.is_empty());
    assert!(toc.files.is_empty());
}

#[test]
fn files_in_order_and_trimmed() {
    let toc = Toc::from_text("a.lua\nb.lua\n# comment\nc.lua  \n");
    assert_eq!(toc.files, vec!["a.lua", "b.lua", "c.lua"]);
    assert!(toc.tags.is_empty());
}

#[test]
fn empty_input_gives_nothing() {
    let toc = Toc::from_text("");
    assert!(toc.tags.is_empty());
    assert!(toc.files.is_empty());
    assert_eq!(toc.tag("Interface"), None);
}

#[test]
fn last_line_without_newline_counts() {
    let toc = Toc::from_text("a.lua\nlastline");
    assert_eq!(toc.files, vec!["a.lua", "lastline"]);
    let toc = Toc::from_text("a.lua\n## X: 1");
    assert_eq!(toc.tag("X"), Some("1"));
    assert_eq!(toc.files, vec!["a.lua"]);
}

#[test]
fn every_line_is_accounted_for() {
    // five lines: two files, one comment, one tag-shaped comment, one tag
    let toc = Toc::from_text("a.lua\n# c\n## no colon\n## K: v\nb.lua");
    assert_eq!(toc.files.len(), 2);
    assert_eq!(toc.tags.len(), 1);
}

#[test]
fn concatenation_merges_files_and_tags() {
    let a = "## A: 1\n## B: 2\nx.lua\n";
    let b = "## B: 3\ny.lua\nz.lua\n";
    let joined = format!("{}{}", a, b);
    let ta = Toc::from_text(a);
    let tb = Toc::from_text(b);
    let tj = Toc::from_text(&joined);
    let mut files = ta.files.clone();
    files.extend(tb.files.clone());
    assert_eq!(tj.files, files);
    assert_eq!(tj.files, vec!["x.lua", "y.lua", "z.lua"]);
    assert_eq!(tj.tag("A"), Some("1"));
    assert_eq!(tj.tag("B"), Some("3"));
    assert_eq!(tj.tags.len(), 2);
}

#[test]
fn later_tag_overwrites_earlier() {
    let toc = Toc::from_text("## K: first\n## K: second\n");
    assert_eq!(toc.tags.len(), 1);
    assert_eq!(toc.tag("K"), Some("second"));
}

#[test]
fn blank_key_is_a_comment() {
    let toc = Toc::from_text("##   : value\n##: v\n");
    assert!(toc.tags.is_empty());
    assert!(toc.files.is_empty());
}

#[test]
fn crlf_terminators_are_stripped() {
    let toc = Toc::from_text("## Title: T\r\na.lua\r\n");
    assert_eq!(toc.tag("Title"), Some("T"));
    assert_eq!(toc.files, vec!["a.lua"]);
}

#[test]
fn blank_line_is_an_empty_path() {
    let toc = Toc::from_text("a.lua\n\nb.lua\n");
    assert_eq!(toc.files, vec!["a.lua", "", "b.lua"]);
}

#[test]
fn only_first_colon_separates() {
    let toc = Toc::from_text("## Url: http://x:80/\n");
    assert_eq!(toc.tag("Url"), Some("http://x:80/"));
}

#[test]
fn non_ascii_key() {
    let toc = Toc::from_text("## Títle-ü: Ωmega\n");
    assert_eq!(toc.tag("Títle-ü"), Some("Ωmega"));
}

#[test]
fn unicode_whitespace_is_trimmed() {
    assert_eq!(file_path("\u{a0}\u{3000}a.lua\u{2003}\t\n"), Ok("a.lua".to_string()));
    assert_eq!(file_path("\u{200b}a.lua"), Ok("\u{200b}a.lua".to_string()));
}

#[test]
fn file_path_refuses_comment() {
    assert_eq!(file_path("# x"), Err("# x".to_string()));
    assert_eq!(file_path("  x.lua "), Ok("x.lua".to_string()));
}

#[test]
fn key_value_pair_cases() {
    assert_eq!(key_value_pair("##a: b"), Ok(("a".to_string(), "b".to_string())));
    assert_eq!(key_value_pair("# a: b"), Err("# a: b".to_string()));
    assert_eq!(key_value_pair("##a b"), Err("##a b".to_string()));
}

#[test]
fn classify_three_ways() {
    assert!(matches!(classify("## K : V \n"), Line::Tag(k, v) if k == "K" && v == "V"));
    assert!(matches!(classify(" p.lua\n"), Line::File(p) if p == "p.lua"));
    assert!(matches!(classify("## nothing\n"), Line::Comment));
    assert!(matches!(classify("#"), Line::Comment));
}

#[test]
fn add_line_by_line() {
    let mut toc = Toc::new();
    toc.add_line("## Interface: 1\n");
    toc.add_line("a.lua\n");
    toc.add_line("# c\n");
    toc.add_line("## Interface: 2");
    assert_eq!(toc.tag("Interface"), Some("2"));
    assert_eq!(toc.files, vec!["a.lua"]);
}
