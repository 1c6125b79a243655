use jottty::config::{
    db_path_from_config, default_bullet, default_db_path, default_settings_text, expand_tilde,
    join_path, Config,
};
use jottty::date::date_str_format;
use jottty::entity::{DatomOp, Entity};
use jottty::journal::{extract_bullet_content, is_bullet_point, parse_journal, trim_start};
use jottty::page::{edit_datoms, note_datoms, page_blocks, page_names, render_journal};
use serde_json::Value;

fn entity(id: &str, pairs: &[(&str, Value)]) -> Entity {
    let mut attrs = serde_json::Map::new();
    for (k, v) in pairs {
        attrs.insert(k.to_string(), v.clone());
    }
    Entity { id: id.to_string(), attrs }
}

#[test]
fn bullets_are_recognised() {
    assert!(is_bullet_point("- a", "-"));
    assert!(is_bullet_point("* a", "+"));
    assert!(is_bullet_point("+ a", "+"));
    assert!(!is_bullet_point("a - b", "+"));
    assert!(!is_bullet_point("*a", "+"));
}

#[test]
fn bullet_content_is_trimmed() {
    assert_eq!(extract_bullet_content("-   hello", "-"), "hello");
    assert_eq!(extract_bullet_content("* world ", "+"), "world ");
    assert_eq!(extract_bullet_content("=>x", "=>"), "x");
}

#[test]
fn trim_start_drops_unicode_space() {
    assert_eq!(trim_start(" \t\u{3000}x y"), "x y");
    assert_eq!(trim_start(""), "");
}

#[test]
fn parse_journal_splits_notes() {
    let text = "# 2024-01-01\n- first\ncontinued\n\n- second\r\n# comment\n* third";
    let notes = parse_journal(text, "-");
    assert_eq!(notes, vec!["first\ncontinued", "second", "third"]);
}

#[test]
fn parse_journal_skips_blank_bullets() {
    assert_eq!(parse_journal("- \n-   \n- x\n", "-"), vec!["x"]);
    assert!(parse_journal("", "-").is_empty());
    assert!(parse_journal("# only a heading\n", "-").is_empty());
}

#[test]
fn parse_journal_keeps_text_before_first_bullet() {
    assert_eq!(parse_journal("loose\n  - a", "-"), vec!["loose", "a"]);
}

#[test]
fn render_lists_block_contents() {
    let es = vec![
        entity("block:1", &[("block/content", Value::from("one"))]),
        entity("block:2", &[("block/title", Value::from("t"))]),
        entity("block:3", &[("block/content", Value::from("three"))]),
    ];
    assert_eq!(render_journal("2024-01-01", &es, "*"), "# 2024-01-01\n* one\n* three\n");
}

#[test]
fn render_then_parse_gives_contents_back() {
    let es = vec![
        entity("block:1", &[("block/content", Value::from("one"))]),
        entity("block:2", &[("block/content", Value::from("two"))]),
    ];
    let text = render_journal("2024-01-01", &es, "-");
    assert_eq!(parse_journal(&text, "-"), vec!["one", "two"]);
}

#[test]
fn note_datoms_build_a_block() {
    let ds = note_datoms("block:b", "January 01, 2024", "hi", "page:2024-01-01", "2024-01-01");
    assert_eq!(ds.len(), 4);
    assert_eq!(ds[0].op, DatomOp::Add);
    assert_eq!((ds[0].e.as_str(), ds[0].a.as_str()), ("block:b", "block/title"));
    assert_eq!(ds[0].v, Value::from("January 01, 2024"));
    assert_eq!((ds[1].a.as_str(), &ds[1].v), ("block/content", &Value::from("hi")));
    assert_eq!((ds[2].a.as_str(), &ds[2].v), ("block/page", &Value::from("page:2024-01-01")));
    assert_eq!((ds[3].e.as_str(), ds[3].a.as_str()), ("page:2024-01-01", "page/name"));
    assert_eq!(ds[3].v, Value::from("2024-01-01"));
}

#[test]
fn edit_datoms_retract_then_add() {
    let es = vec![entity(
        "block:old",
        &[
            ("block/title", Value::from("T")),
            ("block/content", Value::from("c")),
            ("block/page", Value::from(3)),
        ],
    )];
    let notes = vec!["n1".to_string(), "n2".to_string()];
    let ids = vec!["block:a".to_string(), "block:b".to_string()];
    let ds = edit_datoms(&es, &notes, &ids, "Title", "page:p", "p");
    assert_eq!(ds.len(), 2 + 6 + 1);
    assert_eq!(ds[0].op, DatomOp::Retract);
    assert_eq!((ds[0].a.as_str(), &ds[0].v), ("block/title", &Value::from("T")));
    assert_eq!((ds[1].a.as_str(), &ds[1].v), ("block/content", &Value::from("c")));
    assert_eq!((ds[2].e.as_str(), ds[2].a.as_str()), ("block:a", "block/title"));
    assert_eq!(ds[3].v, Value::from("n1"));
    assert_eq!(ds[5].e, "block:b");
    assert_eq!(ds[6].v, Value::from("n2"));
    assert_eq!(ds[7].v, Value::from("page:p"));
    assert_eq!((ds[8].e.as_str(), ds[8].a.as_str()), ("page:p", "page/name"));
}

#[test]
fn page_blocks_and_names_filter() {
    let es = vec![
        entity("block:1", &[("block/page", Value::from("page:a"))]),
        entity("page:a", &[("page/name", Value::from("a"))]),
        entity("block:2", &[("block/page", Value::from("page:b"))]),
        entity("block:3", &[("block/page", Value::from("page:a"))]),
    ];
    assert_eq!(page_names(&es), vec!["a".to_string()]);
    let blocks = page_blocks(es, "page:a");
    assert_eq!(blocks.len(), 2);
    assert_eq!(blocks[0].id, "block:1");
    assert_eq!(blocks[1].id, "block:3");
}

#[test]
fn long_date_form() {
    assert_eq!(date_str_format("2024-01-05"), "January 05, 2024");
    assert_eq!(date_str_format("not a date"), "not a date");
}

#[test]
fn settings_fall_back_to_defaults() {
    assert_eq!(default_bullet(), "-");
    let c = Config::from_file(None, Some("vim".to_string()), "nvim".to_string());
    assert_eq!(c.bullet, "-");
    assert_eq!(c.editor, "vim");
    let c = Config::from_file(Some("*".to_string()), None, "nano".to_string());
    assert_eq!(c.bullet, "*");
    assert_eq!(c.editor, "nano");
    assert_eq!(default_settings_text("-", "nvim"), "bullet = \"-\"\\neditor = \"nvim\"\\n");
}

#[test]
fn database_paths() {
    assert_eq!(expand_tilde("~/notes/db", "/home/u"), "/home/u/notes/db");
    assert_eq!(expand_tilde("/abs/db", "/home/u"), "/abs/db");
    assert_eq!(join_path("dir/", "db.sqlite"), "dir/db.sqlite");
    assert_eq!(join_path("", "db.sqlite"), "db.sqlite");
    assert_eq!(
        db_path_from_config(Some("~/x.db".to_string()), Some("/d".to_string()), "/h"),
        Some("/h/x.db".to_string())
    );
    assert_eq!(
        db_path_from_config(None, Some("~/d".to_string()), "/h"),
        Some("/h/d/db.sqlite".to_string())
    );
    assert_eq!(db_path_from_config(None, None, "/h"), None);
    assert_eq!(default_db_path("/h"), "/h/.jottty/db.sqlite");
}
