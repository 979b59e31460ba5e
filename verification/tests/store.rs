use promptflow::document::parse_markdown_prompt_at;
use promptflow::model::{CreatePromptInput, UpdatePromptInput};
use promptflow::store::{
    create_prompt, update_prompt, increment_use_count, delete_prompt, decode_collection,
    seed_starter_documents, starter_prompts, select_missing, init_templates_items,
    file_name_matches,
};

const NOW: &str = "2024-01-01T00:00:00Z";
const LATER: &str = "2024-02-02T00:00:00Z";

fn create_input() -> CreatePromptInput {
    CreatePromptInput {
        title: "My Prompt".to_string(),
        content: "Hello".to_string(),
        tags: vec!["a".to_string(), "b".to_string()],
        description: None,
        folder: "favorites".to_string(),
    }
}

#[test]
fn create_derives_id_path_and_header() {
    let (item, raw) = create_prompt(create_input(), "/root", NOW);
    assert_eq!(item.id, "my-prompt");
    assert_eq!(item.file_path, "/root/favorites/my-prompt.md");
    assert_eq!(item.folder, "favorites");
    assert_eq!(item.use_count, 0);
    assert_eq!(item.created_at, NOW);
    assert_eq!(item.updated_at, NOW);
    assert!(raw.contains("tags: [\"a\", \"b\"]"));
    assert!(raw.contains("use_count: 0"));
}

#[test]
fn create_lands_unknown_folders_in_favorites() {
    let mut input = create_input();
    input.folder = "elsewhere".to_string();
    let (item, _) = create_prompt(input, "/root", NOW);
    assert_eq!(item.folder, "favorites");
    let mut input2 = create_input();
    input2.folder = "templates".to_string();
    let (item2, _) = create_prompt(input2, "/root", NOW);
    assert_eq!(item2.folder, "templates");
}

#[test]
fn update_changes_only_given_fields() {
    let (item, raw) = create_prompt(create_input(), "/root", NOW);
    let updates = UpdatePromptInput {
        title: None,
        content: Some("New body".to_string()),
        tags: None,
        description: None,
    };
    let (updated, _raw2) = update_prompt(&raw, &item.file_path, &item.folder, &updates, LATER);
    assert_eq!(updated.content, "New body");
    assert_eq!(updated.title, item.title);
    assert_eq!(updated.tags, item.tags);
    assert_eq!(updated.description, item.description);
    assert_eq!(updated.use_count, item.use_count);
    assert_eq!(updated.created_at, NOW);
    assert_eq!(updated.updated_at, LATER);
}

#[test]
fn update_can_replace_each_field() {
    let (item, raw) = create_prompt(create_input(), "/root", NOW);
    let updates = UpdatePromptInput {
        title: Some("Renamed".to_string()),
        content: Some("C".to_string()),
        tags: Some(vec!["z".to_string()]),
        description: Some("d".to_string()),
    };
    let (updated, raw2) = update_prompt(&raw, &item.file_path, &item.folder, &updates, LATER);
    assert_eq!(updated.title, "Renamed");
    assert_eq!(updated.tags, vec!["z".to_string()]);
    assert_eq!(updated.description, Some("d".to_string()));
    // the id never changes, even when the title does
    assert_eq!(updated.id, "my-prompt");
    let back = parse_markdown_prompt_at(&raw2, &item.file_path, &item.folder, "0Z");
    assert_eq!(back, updated);
}

#[test]
fn record_use_increments_by_exactly_one() {
    let (item, raw) = create_prompt(create_input(), "/root", NOW);
    let (used, raw2) = increment_use_count(&raw, &item.file_path, &item.folder, LATER);
    assert_eq!(used.use_count, 1);
    assert_eq!(used.last_used, Some(LATER.to_string()));
    assert_eq!(used.updated_at, LATER);
    assert_eq!(used.created_at, NOW);
    assert_eq!(used.title, item.title);
    let (used2, _) = increment_use_count(&raw2, &item.file_path, &item.folder, LATER);
    assert_eq!(used2.use_count, 2);
}

#[test]
fn missing_documents_are_not_found_before_update_or_use() {
    let r = promptflow::store::check_prompt_exists("gone", false);
    assert!(r.is_err());
    let e = r.unwrap_err();
    assert_eq!(e.code, "NOT_FOUND");
    assert_eq!(e.message, "Prompt not found: gone");
    assert_eq!(promptflow::store::check_prompt_exists("here", true), Ok(()));
}

#[test]
fn delete_missing_document_succeeds() {
    let r = delete_prompt("/root", "gone", "favorites", false);
    assert_eq!(r, Ok(None));
}

#[test]
fn delete_existing_document_names_its_file() {
    let r = delete_prompt("/root", "my-prompt", "favorites", true);
    assert_eq!(r, Ok(Some("/root/favorites/my-prompt.md".to_string())));
}

#[test]
fn listing_decodes_md_files_and_skips_others() {
    let (item, raw) = create_prompt(create_input(), "/root", NOW);
    let files = vec![
        (item.file_path.clone(), raw),
        ("/root/favorites/readme.txt".to_string(), "not a prompt".to_string()),
        ("/root/favorites/broken.md".to_string(), "no header at all".to_string()),
    ];
    let prompts = decode_collection(&files, "favorites", "5Z");
    assert_eq!(prompts.len(), 2);
    assert_eq!(prompts[0].id, "my-prompt");
    // a file the header codec cannot read still lists, body-only
    assert_eq!(prompts[1].title, "broken");
    assert_eq!(prompts[1].content, "no header at all");
}

#[test]
fn seeding_writes_the_whole_set_once() {
    let seeded = seed_starter_documents("/root/templates", &vec![], NOW);
    assert_eq!(seeded.len(), 6);
    for p in &seeded {
        assert_eq!(p.folder, "templates");
        assert_eq!(p.use_count, 0);
        assert_eq!(p.created_at, NOW);
        assert!(p.file_path.starts_with("/root/templates/"));
        assert!(p.file_path.ends_with(".md"));
    }
}

#[test]
fn seeding_twice_changes_nothing() {
    let first = seed_starter_documents("/root/templates", &vec![], NOW);
    let ids: Vec<String> = first.iter().map(|p| p.id.clone()).collect();
    // the user may have edited the files since; only the ids remain
    let second = seed_starter_documents("/root/templates", &ids, LATER);
    assert!(second.is_empty());
}

#[test]
fn seeding_never_overwrites_a_present_document() {
    let all = starter_prompts("/root/templates", NOW);
    let kept = all[2].id.clone();
    let seeded = seed_starter_documents("/root/templates", &vec![kept.clone()], NOW);
    assert_eq!(seeded.len(), 5);
    assert!(seeded.iter().all(|p| p.id != kept));
}

#[test]
fn select_missing_keeps_order() {
    let all = starter_prompts("/root/templates", NOW);
    let existing = vec![all[0].id.clone(), all[3].id.clone()];
    let missing = select_missing(&all, &existing);
    assert_eq!(missing.len(), 4);
    assert_eq!(missing[0].id, all[1].id);
    assert_eq!(missing[1].id, all[2].id);
}

#[test]
fn built_in_templates_use_fixed_files_and_derived_ids() {
    let items = init_templates_items("/root/templates", NOW);
    assert_eq!(items.len(), 5);
    assert_eq!(items[0].file_path, "/root/templates/template1.md");
    assert_eq!(items[0].id, "template-1");
    assert_eq!(items[0].title, "Template 1");
    assert_eq!(items[0].content, "This is a template");
    assert_eq!(items[4].file_path, "/root/templates/template5.md");
}

#[test]
fn extension_filter_matches_suffixes() {
    assert!(file_name_matches("a.md", &Some(".md".to_string())));
    assert!(!file_name_matches("a.txt", &Some(".md".to_string())));
    assert!(file_name_matches("anything", &None));
    assert!(!file_name_matches("md", &Some(".md".to_string())));
}
