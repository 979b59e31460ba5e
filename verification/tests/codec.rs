use promptflow::document::{parse_markdown_prompt, parse_markdown_prompt_at, serialize_markdown_prompt};
use promptflow::header::{serde_yaml_parse, serde_yaml_serialize};
use promptflow::ident::sanitize_filename;
use promptflow::model::{PromptFrontmatter, PromptItem};
use promptflow::time::{format_timestamp, secs_string, chrono_now, generate_timestamp};

fn sample_item() -> PromptItem {
    PromptItem {
        id: "my-prompt".to_string(),
        title: "My Prompt".to_string(),
        content: "Hello\nworld --- and more".to_string(),
        tags: vec!["a".to_string(), "b".to_string()],
        description: Some("a sample".to_string()),
        use_count: 3,
        last_used: Some("2024-01-02T03:04:05Z".to_string()),
        created_at: "2024-01-01T00:00:00Z".to_string(),
        updated_at: "2024-01-02T03:04:05Z".to_string(),
        file_path: "/root/favorites/my-prompt.md".to_string(),
        folder: "favorites".to_string(),
    }
}

#[test]
fn serialize_exact_text() {
    let item = sample_item();
    let raw = serialize_markdown_prompt(&item);
    let expected = "---\n\
                    title: \"My Prompt\"\n\
                    tags: [\"a\", \"b\"]\n\
                    description: \"a sample\"\n\
                    use_count: 3\n\
                    last_used: 2024-01-02T03:04:05Z\n\
                    created_at: 2024-01-01T00:00:00Z\n\
                    updated_at: 2024-01-02T03:04:05Z\n\
                    ---\n\
                    \n\
                    Hello\nworld --- and more";
    assert_eq!(raw, expected);
}

#[test]
fn round_trip_preserves_every_field() {
    let item = sample_item();
    let raw = serialize_markdown_prompt(&item);
    let back = parse_markdown_prompt_at(&raw, &item.file_path, &item.folder, "9999Z");
    assert_eq!(back, item);
}

#[test]
fn round_trip_without_optionals() {
    let mut item = sample_item();
    item.description = None;
    item.last_used = None;
    item.tags = vec![];
    let raw = serialize_markdown_prompt(&item);
    assert!(raw.contains("tags: []"));
    assert!(!raw.contains("description:"));
    assert!(!raw.contains("last_used:"));
    let back = parse_markdown_prompt_at(&raw, &item.file_path, &item.folder, "9999Z");
    assert_eq!(back, item);
}

#[test]
fn fallback_decode_uses_stem_and_trimmed_body() {
    let back = parse_markdown_prompt_at(
        "  just some text  ",
        "/root/favorites/note.md",
        "favorites",
        "1234Z",
    );
    assert_eq!(back.title, "note");
    assert_eq!(back.id, "note");
    assert_eq!(back.content, "just some text");
    assert!(back.tags.is_empty());
    assert_eq!(back.description, None);
    assert_eq!(back.use_count, 0);
    assert_eq!(back.last_used, None);
    assert_eq!(back.created_at, "1234Z");
    assert_eq!(back.updated_at, "1234Z");
}

#[test]
fn single_delimiter_still_falls_back() {
    let back = parse_markdown_prompt_at("--- only one", "/d/f/x.md", "favorites", "7Z");
    assert_eq!(back.title, "x");
    assert_eq!(back.content, "--- only one");
}

#[test]
fn text_before_the_first_delimiter_is_discarded() {
    let raw = "pre---title: \"Q\"\nuse_count: 1---post";
    let back = parse_markdown_prompt_at(raw, "/d/f/q.md", "favorites", "1Z");
    assert_eq!(back.title, "Q");
    assert_eq!(back.use_count, 1);
    assert_eq!(back.content, "post");
}

#[test]
fn decode_never_fails() {
    let r = parse_markdown_prompt("anything at all", "/d/f/y.md", "favorites");
    assert!(r.is_ok());
    assert_eq!(r.unwrap().title, "y");
}

fn assert_calendar_form(t: &str) {
    assert_eq!(t.len(), 20);
    assert!(t.ends_with('Z'));
    assert_eq!(&t[4..5], "-");
    assert_eq!(&t[7..8], "-");
    assert_eq!(&t[10..11], "T");
    assert_eq!(&t[13..14], ":");
    assert_eq!(&t[16..17], ":");
}

#[test]
fn fallback_decode_time_uses_the_fixed_calendar_form() {
    let p = parse_markdown_prompt("body only", "/d/f/n.md", "favorites").unwrap();
    assert_calendar_form(&p.created_at);
    assert_eq!(p.created_at, p.updated_at);
}

#[test]
fn header_defaults_use_the_fixed_calendar_form() {
    let f = serde_yaml_parse("title: \"T\"").unwrap();
    assert_calendar_form(&f.created_at);
    assert_eq!(f.created_at, f.updated_at);
}

#[test]
fn empty_title_in_header_falls_back_to_stem() {
    let raw = "---\ntitle: \"   \"\nuse_count: 2\n---\n\nbody";
    let back = parse_markdown_prompt_at(raw, "/d/f/fallback.md", "favorites", "1Z");
    assert_eq!(back.title, "fallback");
    assert_eq!(back.use_count, 2);
    assert_eq!(back.content, "body");
}

#[test]
fn header_parse_is_defensive() {
    let yaml = "# a comment\n\
                \n\
                no colon here\n\
                unknown_key: ignored\n\
                title:   \"Spaced\"  \n\
                tags: ['x', \"y\", , ]\n\
                use_count: not-a-number\n";
    let f = serde_yaml_parse(yaml).unwrap();
    assert_eq!(f.title, "Spaced");
    assert_eq!(f.tags, vec!["x".to_string(), "y".to_string()]);
    assert_eq!(f.use_count, 0);
    assert_eq!(f.description, None);
    assert_eq!(f.last_used, None);
}

#[test]
fn header_parse_reads_counts_with_sign_and_rejects_overflow() {
    let f = serde_yaml_parse("use_count: +12").unwrap();
    assert_eq!(f.use_count, 12);
    let g = serde_yaml_parse("use_count: 4294967296").unwrap();
    assert_eq!(g.use_count, 0);
    let h = serde_yaml_parse("use_count: 4294967295").unwrap();
    assert_eq!(h.use_count, u32::MAX);
}

#[test]
fn header_serialize_orders_lines() {
    let f = PromptFrontmatter {
        title: "T".to_string(),
        tags: vec![],
        description: None,
        use_count: 0,
        last_used: None,
        created_at: "1Z".to_string(),
        updated_at: "2Z".to_string(),
    };
    let s = serde_yaml_serialize(&f);
    assert_eq!(s, "title: \"T\"\ntags: []\nuse_count: 0\ncreated_at: 1Z\nupdated_at: 2Z");
}

#[test]
fn tags_without_brackets_are_ignored() {
    let f = serde_yaml_parse("tags: a, b").unwrap();
    assert!(f.tags.is_empty());
}

#[test]
fn derive_id_follows_the_character_mapping() {
    // every character is mapped, then separators are trimmed from the ends
    assert_eq!(sanitize_filename("Hello, World!"), "hello_-world");
    assert_eq!(sanitize_filename("My Prompt"), "my-prompt");
    assert_eq!(sanitize_filename(""), "");
    assert_eq!(sanitize_filename("!!!"), "");
    assert_eq!(sanitize_filename("a\u{3000}b"), "a-b");
    assert_eq!(sanitize_filename("a!b"), "a_b");
    assert_eq!(sanitize_filename("ABC"), "abc");
}

#[test]
fn derive_id_is_idempotent() {
    for t in ["Hello, World!", "My Prompt", "starter-engineering-workflow", "日本語 タイトル"] {
        let once = sanitize_filename(t);
        let twice = sanitize_filename(&once);
        assert_eq!(twice, once);
    }
}

#[test]
fn timestamp_formats_exactly() {
    assert_eq!(format_timestamp(0), "1970-01-01T00:00:00Z");
    // 400 whole days, then one hour, one minute and one second
    assert_eq!(format_timestamp(86400 * 400 + 3661), "1971-02-06T01:01:01Z");
    // the month is capped at twelve late in a 365-day year
    assert_eq!(format_timestamp(86400 * 364), "1970-12-05T00:00:00Z");
    assert_eq!(secs_string(5), "5Z");
}

#[test]
fn clock_readings_have_the_documented_shape() {
    let raw = chrono_now();
    assert!(raw.ends_with('Z'));
    assert!(raw[..raw.len() - 1].chars().all(|c| c.is_ascii_digit()));
    let cal = generate_timestamp();
    assert_eq!(cal.len(), 20);
    assert!(cal.ends_with('Z'));
    assert_eq!(&cal[4..5], "-");
    assert_eq!(&cal[10..11], "T");
}
