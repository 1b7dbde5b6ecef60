//! Whole-conversation conversion: graph building, entry-point resolution,
//! walking, and the skip decisions, on concrete graphs.

use chatterbook::assets::{AssetCopy, UploadFolder};
use chatterbook::content::{Author, Content, Message, Part};
use chatterbook::graph::{
    build_table, resolve_entry, walk_thread, BranchPolicy, MessageNode, NodeParse,
};
use chatterbook::time_fmt::Timestamp;
use chatterbook::transcript::{convert_conversation, Conversation, Outcome, SkipReason};

fn text_message(role: &str, body: &str) -> Message {
    Message {
        author: Author { role: role.to_string(), name: None },
        content: Content::Text { parts: vec![Part::Text(body.to_string())] },
        status: "finished_successfully".to_string(),
        create_time: None,
        update_time: None,
    }
}

fn node(id: &str, parent: Option<&str>, children: &[&str], message: Option<Message>) -> NodeParse {
    NodeParse::Parsed(MessageNode {
        id: id.to_string(),
        parent: parent.map(|p| p.to_string()),
        children: children.iter().map(|c| c.to_string()).collect(),
        message,
    })
}

fn hello_nodes() -> Vec<NodeParse> {
    vec![
        node("root", None, &["m1"], None),
        node("m1", Some("root"), &["m2"], Some(text_message("user", "Hi"))),
        node("m2", Some("m1"), &[], Some(text_message("assistant", "Hello back"))),
    ]
}

fn conversation(title: Option<&str>, secs: Option<i64>, nodes: Vec<NodeParse>) -> Conversation {
    Conversation {
        id: "c1".to_string(),
        title: title.map(|t| t.to_string()),
        create_time: secs.map(|s| Timestamp { secs: s, nanos: 0 }),
        nodes,
    }
}

fn no_folders() -> Vec<UploadFolder> {
    Vec::new()
}

fn no_failed() -> Vec<AssetCopy> {
    Vec::new()
}

#[test]
fn hello_conversation_renders_in_order() {
    let conv = conversation(Some("Hello"), Some(1700000000), hello_nodes());
    let r = convert_conversation(conv, BranchPolicy::LastChild, &no_folders(), &no_failed());
    assert_eq!(r.dropped_nodes, 0);
    match r.outcome {
        Outcome::Written { doc_name, text, copies } => {
            assert_eq!(doc_name, "conversation_2023_11_14_22_13_20_UTC_Hello.md");
            assert_eq!(
                text,
                "# Hello\n\n_Created: 2023-11-14 22:13:20 UTC_\n\n\
                 **User:**\n\nHi\n\n---\n\n\
                 **Assistant:**\n\nHello back\n\n---\n\n"
            );
            assert!(copies.is_empty());
        },
        Outcome::Skipped { .. } => panic!("expected a document"),
    }
}

#[test]
fn placeholder_title_is_skipped_before_any_graph_work() {
    let conv = conversation(Some("New chat"), Some(1700000000), hello_nodes());
    let r = convert_conversation(conv, BranchPolicy::LastChild, &no_folders(), &no_failed());
    match r.outcome {
        Outcome::Skipped { reason } => assert_eq!(reason, SkipReason::PlaceholderTitle),
        Outcome::Written { .. } => panic!("placeholder title must never be written"),
    }
}

#[test]
fn missing_title_renders_as_untitled() {
    let conv = conversation(None, None, hello_nodes());
    let r = convert_conversation(conv, BranchPolicy::LastChild, &no_folders(), &no_failed());
    match r.outcome {
        Outcome::Written { doc_name, text, .. } => {
            assert_eq!(doc_name, "conversation_unknown_untitled.md");
            assert!(text.starts_with("# untitled\n\n**User:**"));
            assert!(!text.contains("_Created:"));
        },
        Outcome::Skipped { .. } => panic!("expected a document"),
    }
}

#[test]
fn graph_without_parentless_node_is_skipped() {
    let nodes = vec![
        node("a", Some("b"), &["b"], Some(text_message("user", "x"))),
        node("b", Some("a"), &[], Some(text_message("assistant", "y"))),
    ];
    let conv = conversation(Some("Loop"), None, nodes);
    let r = convert_conversation(conv, BranchPolicy::LastChild, &no_folders(), &no_failed());
    match r.outcome {
        Outcome::Skipped { reason } => assert_eq!(reason, SkipReason::NoEntryPoint),
        Outcome::Written { .. } => panic!("resolution must fail without a root"),
    }
}

#[test]
fn childless_root_is_skipped() {
    let nodes = vec![node("root", None, &[], None)];
    let conv = conversation(Some("Empty"), None, nodes);
    let r = convert_conversation(conv, BranchPolicy::LastChild, &no_folders(), &no_failed());
    match r.outcome {
        Outcome::Skipped { reason } => assert_eq!(reason, SkipReason::NoEntryPoint),
        Outcome::Written { .. } => panic!("resolution must fail on a childless root"),
    }
}

#[test]
fn malformed_node_is_dropped_and_walk_stops_there() {
    let nodes = vec![
        node("root", None, &["m1"], None),
        node("m1", Some("root"), &["m2"], Some(text_message("user", "only"))),
        NodeParse::Malformed,
    ];
    let conv = conversation(Some("Partial"), None, nodes);
    let r = convert_conversation(conv, BranchPolicy::LastChild, &no_folders(), &no_failed());
    assert_eq!(r.dropped_nodes, 1);
    match r.outcome {
        Outcome::Written { text, .. } => {
            assert!(text.contains("**User:**\n\nonly"));
            assert!(!text.contains("Assistant"));
        },
        Outcome::Skipped { .. } => panic!("the valid ancestor still renders"),
    }
}

#[test]
fn walk_with_zero_messages_is_skipped_as_empty() {
    let nodes = vec![node("root", None, &["ghostchild"], None)];
    let conv = conversation(Some("Nothing"), None, nodes);
    let r = convert_conversation(conv, BranchPolicy::LastChild, &no_folders(), &no_failed());
    match r.outcome {
        Outcome::Skipped { reason } => assert_eq!(reason, SkipReason::EmptyTranscript),
        Outcome::Written { .. } => panic!("no message was rendered"),
    }
}

#[test]
fn branch_policy_selects_first_or_last_child() {
    let nodes = || {
        vec![
            node("root", None, &["m1"], None),
            node(
                "m1",
                Some("root"),
                &["old", "new"],
                Some(text_message("user", "question")),
            ),
            node("old", Some("m1"), &[], Some(text_message("assistant", "draft"))),
            node("new", Some("m1"), &[], Some(text_message("assistant", "final answer"))),
        ]
    };
    let last = convert_conversation(
        conversation(Some("Edit"), None, nodes()),
        BranchPolicy::LastChild,
        &no_folders(),
        &no_failed(),
    );
    match last.outcome {
        Outcome::Written { text, .. } => {
            assert!(text.contains("final answer"));
            assert!(!text.contains("draft"));
        },
        Outcome::Skipped { .. } => panic!("expected a document"),
    }
    let first = convert_conversation(
        conversation(Some("Edit"), None, nodes()),
        BranchPolicy::FirstChild,
        &no_folders(),
        &no_failed(),
    );
    match first.outcome {
        Outcome::Written { text, .. } => {
            assert!(text.contains("draft"));
            assert!(!text.contains("final answer"));
        },
        Outcome::Skipped { .. } => panic!("expected a document"),
    }
}

#[test]
fn entry_point_follows_the_policy_at_the_root() {
    let nodes = vec![
        node("root", None, &["a", "b"], None),
        node("a", Some("root"), &[], Some(text_message("user", "first branch"))),
        node("b", Some("root"), &[], Some(text_message("user", "last branch"))),
    ];
    let table = build_table(nodes);
    let first = resolve_entry(&table, BranchPolicy::FirstChild).unwrap();
    assert_eq!(first, "a");
    let last = resolve_entry(&table, BranchPolicy::LastChild).unwrap();
    assert_eq!(last, "b");
}

#[test]
fn cyclic_graph_terminates_and_visits_each_node_once() {
    let nodes = vec![
        node("root", None, &["a"], None),
        node("a", Some("root"), &["b"], Some(text_message("user", "ping"))),
        node("b", Some("a"), &["a"], Some(text_message("assistant", "pong"))),
    ];
    let table = build_table(nodes);
    let entry = resolve_entry(&table, BranchPolicy::LastChild).unwrap();
    let walked = walk_thread(&table, &entry, BranchPolicy::LastChild);
    assert_eq!(walked.len(), 2);
    assert_eq!(table.nodes[walked[0]].id, "a");
    assert_eq!(table.nodes[walked[1]].id, "b");
}

#[test]
fn duplicate_identifiers_keep_the_later_node() {
    let nodes = vec![
        node("root", None, &["m1"], None),
        node("m1", Some("root"), &[], Some(text_message("user", "early"))),
        node("m1", Some("root"), &[], Some(text_message("user", "late"))),
    ];
    let table = build_table(nodes);
    assert_eq!(table.nodes.len(), 2);
    assert_eq!(table.dropped, 0);
    let entry = resolve_entry(&table, BranchPolicy::LastChild).unwrap();
    let walked = walk_thread(&table, &entry, BranchPolicy::LastChild);
    assert_eq!(walked.len(), 1);
    match &table.nodes[walked[0]].message {
        Some(m) => match &m.content {
            Content::Text { parts } => match &parts[0] {
                Part::Text(s) => assert_eq!(s, "late"),
                _ => panic!("expected a literal part"),
            },
            _ => panic!("expected a text payload"),
        },
        None => panic!("expected a message"),
    }
}

#[test]
fn conversion_is_idempotent_on_unchanged_input() {
    let run = || {
        convert_conversation(
            conversation(Some("Hello"), Some(1700000000), hello_nodes()),
            BranchPolicy::LastChild,
            &no_folders(),
            &no_failed(),
        )
    };
    let a = run();
    let b = run();
    match (a.outcome, b.outcome) {
        (
            Outcome::Written { doc_name: n1, text: t1, .. },
            Outcome::Written { doc_name: n2, text: t2, .. },
        ) => {
            assert_eq!(n1, n2);
            assert_eq!(t1, t2);
        },
        _ => panic!("both runs must write"),
    }
}
