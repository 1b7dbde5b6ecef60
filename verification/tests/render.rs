//! Content rendering: every variant, the role labels, the asset resolver
//! and the filename sanitizer, on concrete values.

use chatterbook::assets::{resolve_asset, AssetCopy, UploadFolder};
use chatterbook::content::{
    render_content, render_message_block, render_role, Author, Content, ContentReference,
    Message, MultimodalPart, Part, Thought,
};
use chatterbook::text::{join_strings, sanitize_filename, str_ends_with, str_eq, str_starts_with};
use chatterbook::time_fmt::{format_creation_time, Timestamp};

fn message_with(role: &str, content: Content) -> Message {
    Message {
        author: Author { role: role.to_string(), name: None },
        content,
        status: "finished_successfully".to_string(),
        create_time: None,
        update_time: None,
    }
}

fn no_folders() -> Vec<UploadFolder> {
    Vec::new()
}

fn no_failed() -> Vec<AssetCopy> {
    Vec::new()
}

#[test]
fn sanitize_keeps_alphanumerics_and_underscores() {
    assert_eq!(sanitize_filename("Hello_42"), "Hello_42");
    assert_eq!(sanitize_filename("a b/c:d"), "a_b_c_d");
    assert_eq!(sanitize_filename("2023-11-14 22:13:20 UTC"), "2023_11_14_22_13_20_UTC");
    assert_eq!(sanitize_filename(""), "");
}

#[test]
fn string_helpers() {
    assert!(str_starts_with("sediment://abc", "sediment://"));
    assert!(!str_starts_with("sediment:/abc", "sediment://"));
    assert!(str_ends_with("photo.png", ".png"));
    assert!(!str_ends_with("photo.jpg", ".png"));
    assert!(str_eq("same", "same"));
    assert!(!str_eq("same", "Same"));
    let parts = vec!["a".to_string(), "b".to_string(), "c".to_string()];
    assert_eq!(join_strings(&parts, "\n"), "a\nb\nc");
    assert_eq!(join_strings(&Vec::new(), "\n"), "");
}

#[test]
fn text_variant_joins_parts_with_newlines() {
    let c = Content::Text {
        parts: vec![Part::Text("one".to_string()), Part::Text("two".to_string())],
    };
    let (text, copies) = render_content(&c, "base", &no_folders(), &no_failed());
    assert_eq!(text, "one\ntwo");
    assert!(copies.is_empty());
}

#[test]
fn text_variant_marks_inline_images_visibly() {
    let c = Content::Text {
        parts: vec![
            Part::Text("before".to_string()),
            Part::Image {
                content_type: "image_asset_pointer".to_string(),
                asset_pointer: Some("sediment://x".to_string()),
                width: Some(10),
                height: Some(10),
            },
        ],
    };
    let (text, _) = render_content(&c, "base", &no_folders(), &no_failed());
    assert_eq!(text, "before\n[unsupported inline image]");
}

#[test]
fn thoughts_variant_bolds_summaries() {
    let c = Content::Thoughts {
        thoughts: vec![
            Thought { summary: "First".to_string(), content: "alpha".to_string() },
            Thought { summary: "Second".to_string(), content: "beta".to_string() },
        ],
    };
    let (text, _) = render_content(&c, "base", &no_folders(), &no_failed());
    assert_eq!(text, "**First**\nalpha\n\n**Second**\nbeta");
}

#[test]
fn code_variant_renders_fenced_block_tagged_python() {
    let c = Content::Code { language: Some("python".to_string()), text: "print(1)".to_string() };
    let (text, copies) = render_content(&c, "base", &no_folders(), &no_failed());
    assert_eq!(text, "```python\nprint(1)\n```");
    assert!(copies.is_empty());
}

#[test]
fn code_variant_defaults_to_text_language() {
    let c = Content::Code { language: None, text: "x".to_string() };
    let (text, _) = render_content(&c, "base", &no_folders(), &no_failed());
    assert_eq!(text, "```text\nx\n```");
}

#[test]
fn recap_variant_appends_one_link_per_referenced_url() {
    let c = Content::ReasoningRecap {
        content: "summary".to_string(),
        content_references: Some(vec![
            ContentReference {
                matched_text: "m1".to_string(),
                safe_urls: vec!["https://a.example".to_string(), "https://b.example".to_string()],
            },
            ContentReference { matched_text: "m2".to_string(), safe_urls: vec![] },
        ]),
    };
    let (text, _) = render_content(&c, "base", &no_folders(), &no_failed());
    assert_eq!(text, "summary\n[Reference](https://a.example)");
}

#[test]
fn recap_variant_without_references_is_plain() {
    let c = Content::ReasoningRecap { content: "just text".to_string(), content_references: None };
    let (text, _) = render_content(&c, "base", &no_folders(), &no_failed());
    assert_eq!(text, "just text");
}

#[test]
fn every_variant_yields_a_nonempty_block() {
    let variants = vec![
        Content::Text { parts: vec![] },
        Content::Thoughts { thoughts: vec![] },
        Content::Code { language: None, text: String::new() },
        Content::ReasoningRecap { content: String::new(), content_references: None },
        Content::MultimodalText { parts: vec![] },
    ];
    for c in variants {
        let m = message_with("assistant", c);
        let (block, _) = render_message_block(&m, "base", &no_folders(), &no_failed());
        assert!(!block.is_empty());
        assert!(block.contains("---"));
    }
}

#[test]
fn role_labels() {
    assert_eq!(render_role(&"user".to_string()), "User");
    assert_eq!(render_role(&"assistant".to_string()), "Assistant");
    assert_eq!(render_role(&"tool".to_string()), "tool");
}

#[test]
fn message_block_frames_content() {
    let m = message_with("user", Content::Text { parts: vec![Part::Text("Hi".to_string())] });
    let (block, _) = render_message_block(&m, "base", &no_folders(), &no_failed());
    assert_eq!(block, "**User:**\n\nHi\n\n---\n\n");
}

fn one_folder() -> Vec<UploadFolder> {
    vec![
        UploadFolder { name: "archive".to_string(), files: vec!["file-xyz123.png".to_string()] },
        UploadFolder {
            name: "user-0001".to_string(),
            files: vec!["other.png".to_string(), "file-xyz123.png".to_string()],
        },
    ]
}

#[test]
fn resolver_picks_first_match_in_first_user_folder() {
    let copy = resolve_asset("sediment://file-xyz", "convbase", &one_folder()).unwrap();
    assert_eq!(copy.folder, "user-0001");
    assert_eq!(copy.file, "file-xyz123.png");
    assert_eq!(copy.dest, "convbase_file-xyz123.png");
}

#[test]
fn resolver_rejects_foreign_prefix_and_missing_files() {
    assert!(resolve_asset("other://file-xyz", "b", &one_folder()).is_none());
    assert!(resolve_asset("sediment://absent", "b", &one_folder()).is_none());
    assert!(resolve_asset("sediment://file-xyz", "b", &no_folders()).is_none());
}

#[test]
fn multimodal_unresolved_pointer_renders_placeholder_and_copies_nothing() {
    let c = Content::MultimodalText {
        parts: vec![MultimodalPart::ImageAssetPointer {
            asset_pointer: "sediment://file-gone".to_string(),
            size_bytes: 1,
            width: 1,
            height: 1,
        }],
    };
    let (text, copies) = render_content(&c, "base", &no_folders(), &no_failed());
    assert_eq!(text, "![Missing image for sediment://file-gone]");
    assert!(copies.is_empty());
}

#[test]
fn multimodal_resolved_pointer_links_the_copy() {
    let c = Content::MultimodalText {
        parts: vec![MultimodalPart::ImageAssetPointer {
            asset_pointer: "sediment://file-xyz".to_string(),
            size_bytes: 1,
            width: 1,
            height: 1,
        }],
    };
    let (text, copies) = render_content(&c, "convbase", &one_folder(), &no_failed());
    assert_eq!(text, "![](convbase_file-xyz123.png)");
    assert_eq!(copies.len(), 1);
    assert_eq!(copies[0].dest, "convbase_file-xyz123.png");
}

#[test]
fn multimodal_failed_copy_falls_back_to_placeholder() {
    let c = Content::MultimodalText {
        parts: vec![MultimodalPart::ImageAssetPointer {
            asset_pointer: "sediment://file-xyz".to_string(),
            size_bytes: 1,
            width: 1,
            height: 1,
        }],
    };
    let failed = vec![AssetCopy {
        folder: "user-0001".to_string(),
        file: "file-xyz123.png".to_string(),
        dest: "convbase_file-xyz123.png".to_string(),
    }];
    let (text, copies) = render_content(&c, "convbase", &one_folder(), &failed);
    assert_eq!(text, "![Missing image for sediment://file-xyz]");
    assert!(copies.is_empty());
}

#[test]
fn creation_time_formats_through_the_calendar() {
    let t = format_creation_time(&Timestamp { secs: 1700000000, nanos: 0 }).unwrap();
    assert_eq!(t, "2023-11-14 22:13:20 UTC");
    let epoch = format_creation_time(&Timestamp { secs: 0, nanos: 0 }).unwrap();
    assert_eq!(epoch, "1970-01-01 00:00:00 UTC");
    assert!(format_creation_time(&Timestamp { secs: i64::MAX, nanos: 0 }).is_none());
}
