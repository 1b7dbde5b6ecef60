//! The transcript assembler: orchestrates the node table, the entry-point
//! resolution, the walker and the renderer into one document per
//! conversation, and decides whether the conversation produced any content
//! worth persisting.

use vstd::prelude::*;

use crate::assets::{copies_names, AssetCopy, AssetNames, UploadFolder};
use crate::content::{
    render_message_block, spec_content_copies, spec_render_block, Message,
};
use crate::graph::{
    build_table, picked_nodes, resolve_entry, spec_dropped, spec_entry, spec_table, spec_walk,
    walk_thread, BranchPolicy, MessageNode, NodeParse, NodeTable,
};
use crate::text::{sanitize_filename, spec_sanitize, str_eq};
use crate::time_fmt::{
    format_creation_time, spec_time_in_range, spec_utc_time_string, Timestamp,
};

verus! {

/// One conversation of the archive: its identifier, optional title,
/// optional creation instant, and the raw parse results of its graph nodes.
#[derive(Debug)]
pub struct Conversation {
    pub id: String,
    pub title: Option<String>,
    pub create_time: Option<Timestamp>,
    pub nodes: Vec<NodeParse>,
}

/// Why a conversation was skipped instead of written.
#[derive(Clone, Copy, Debug, PartialEq, Eq, Structural)]
pub enum SkipReason {
    /// The title is exactly the reserved placeholder title.
    PlaceholderTitle,
    /// No parentless node, or the parentless node has no children.
    NoEntryPoint,
    /// The walk rendered zero messages.
    EmptyTranscript,
}

/// What one conversation produced: a document to write together with the
/// image copies it references, or the decision to skip it.
#[derive(Debug)]
pub enum Outcome {
    Skipped { reason: SkipReason },
    Written { doc_name: String, text: String, copies: Vec<AssetCopy> },
}

/// The mathematical shadow of an [`Outcome`].
pub enum OutcomePlan {
    Skipped(SkipReason),
    Written { doc_name: Seq<char>, text: Seq<char>, copies: Seq<AssetNames> },
}

/// The plan an [`Outcome`] holds.
pub open spec fn outcome_plan(o: Outcome) -> OutcomePlan {
    match o {
        Outcome::Skipped { reason } => OutcomePlan::Skipped(reason),
        Outcome::Written { doc_name, text, copies } => OutcomePlan::Written {
            doc_name: doc_name@,
            text: text@,
            copies: copies_names(copies@),
        },
    }
}

/// The outcome of one conversation, with the count of graph entries that
/// were dropped as malformed, surfaced rather than lost.
#[derive(Debug)]
pub struct Conversion {
    pub outcome: Outcome,
    pub dropped_nodes: usize,
}

/// The title under which a conversation renders: its own, or `untitled`.
pub open spec fn spec_title(c: Conversation) -> Seq<char> {
    match c.title {
        Some(t) => t@,
        None => "untitled"@,
    }
}

/// The reserved placeholder title; a conversation so titled is never
/// rendered.
pub open spec fn spec_placeholder_title() -> Seq<char> {
    "New chat"@
}

/// The timestamp text that enters the file name: the formatted creation
/// time, or a fixed marker when there is none.
pub open spec fn spec_time_text(topt: Option<Seq<char>>) -> Seq<char> {
    match topt {
        Some(t) => t,
        None => "unknown"@,
    }
}

/// The document's base name: the template, the sanitized timestamp and the
/// sanitized title.
pub open spec fn spec_base_name(title: Seq<char>, topt: Option<Seq<char>>) -> Seq<char> {
    "conversation_"@ + spec_sanitize(spec_time_text(topt)) + "_"@ + spec_sanitize(title)
}

/// The document's head: the level-1 heading with the raw title, then the
/// italicized creation line when a creation time is known.
pub open spec fn spec_header(title: Seq<char>, topt: Option<Seq<char>>) -> Seq<char> {
    "# "@ + title + "\n\n"@ + match topt {
        Some(t) => "_Created: "@ + t + "_\n\n"@,
        None => Seq::<char>::empty(),
    }
}

/// The blocks of the walked messages, in thread order.
pub open spec fn spec_blocks(
    msgs: Seq<MessageNode>,
    base: Seq<char>,
    folders: Seq<UploadFolder>,
    failed: Seq<AssetCopy>,
) -> Seq<char>
    decreases msgs.len(),
{
    if msgs.len() == 0 {
        Seq::<char>::empty()
    } else {
        spec_blocks(msgs.drop_last(), base, folders, failed) + match msgs.last().message {
            Some(m) => spec_render_block(m, base, folders, failed),
            None => Seq::<char>::empty(),
        }
    }
}

/// The copies the walked messages ask for, in thread order.
pub open spec fn spec_all_copies(
    msgs: Seq<MessageNode>,
    base: Seq<char>,
    folders: Seq<UploadFolder>,
    failed: Seq<AssetCopy>,
) -> Seq<AssetNames>
    decreases msgs.len(),
{
    if msgs.len() == 0 {
        Seq::<AssetNames>::empty()
    } else {
        spec_all_copies(msgs.drop_last(), base, folders, failed) + match msgs.last().message {
            Some(m) => spec_content_copies(m.content, base, folders, failed),
            None => Seq::<AssetNames>::empty(),
        }
    }
}

/// The whole document of one conversation.
pub open spec fn spec_document(
    title: Seq<char>,
    topt: Option<Seq<char>>,
    msgs: Seq<MessageNode>,
    base: Seq<char>,
    folders: Seq<UploadFolder>,
    failed: Seq<AssetCopy>,
) -> Seq<char> {
    spec_header(title, topt) + spec_blocks(msgs, base, folders, failed)
}

/// The whole conversion of one conversation, as a value: the skip decision
/// or the document, determined by the conversation, the formatted creation
/// time, the branch policy, the upload listing and the copies reported
/// failed — and by nothing else.
pub open spec fn spec_convert(
    c: Conversation,
    topt: Option<Seq<char>>,
    policy: BranchPolicy,
    folders: Seq<UploadFolder>,
    failed: Seq<AssetCopy>,
) -> OutcomePlan {
    if spec_title(c) == spec_placeholder_title() {
        OutcomePlan::Skipped(SkipReason::PlaceholderTitle)
    } else {
        let table = spec_table(c.nodes@);
        match spec_entry(table, policy) {
            None => OutcomePlan::Skipped(SkipReason::NoEntryPoint),
            Some(entry) => {
                let walked = spec_walk(table, entry, Set::<Seq<char>>::empty(), policy);
                if walked.len() == 0 {
                    OutcomePlan::Skipped(SkipReason::EmptyTranscript)
                } else {
                    let base = spec_base_name(spec_title(c), topt);
                    OutcomePlan::Written {
                        doc_name: base + ".md"@,
                        text: spec_document(spec_title(c), topt, walked, base, folders, failed),
                        copies: spec_all_copies(walked, base, folders, failed),
                    }
                }
            },
        }
    }
}

/// The views of an optional string.
pub open spec fn opt_view(o: Option<String>) -> Option<Seq<char>> {
    match o {
        Some(s) => Some(s@),
        None => None,
    }
}

/// Renders the blocks of the walked nodes, in order, gathering the copies
/// they ask for.
fn render_blocks(
    table: &NodeTable,
    ixs: &Vec<usize>,
    base: &str,
    folders: &Vec<UploadFolder>,
    failed: &Vec<AssetCopy>,
) -> (r: (String, Vec<AssetCopy>))
    requires
        forall|k: int| 0 <= k < ixs@.len() ==> ixs@[k] < table.nodes@.len(),
    ensures
        r.0@ == spec_blocks(picked_nodes(table.nodes@, ixs@), base@, folders@, failed@),
        copies_names(r.1@) == spec_all_copies(
            picked_nodes(table.nodes@, ixs@),
            base@,
            folders@,
            failed@,
        ),
{
    let ghost picked = picked_nodes(table.nodes@, ixs@);
    let mut text = String::new();
    let mut copies: Vec<AssetCopy> = Vec::new();
    let mut j: usize = 0;
    proof {
        assert(copies_names(copies@) =~= Seq::<AssetNames>::empty());
    }
    while j < ixs.len()
        invariant
            j <= ixs@.len(),
            forall|k: int| 0 <= k < ixs@.len() ==> ixs@[k] < table.nodes@.len(),
            picked == picked_nodes(table.nodes@, ixs@),
            text@ == spec_blocks(picked.subrange(0, j as int), base@, folders@, failed@),
            copies_names(copies@) == spec_all_copies(
                picked.subrange(0, j as int),
                base@,
                folders@,
                failed@,
            ),
        decreases ixs@.len() - j,
    {
        let ghost prev_copies = copies@;
        let ix = ixs[j];
        let node = &table.nodes[ix];
        proof {
            assert(picked[j as int] == table.nodes@[ix as int]);
        }
        match &node.message {
            Some(m) => {
                let (block, mut newcopies) = render_message_block(m, base, folders, failed);
                text.append(block.as_str());
                copies.append(&mut newcopies);
            },
            None => {},
        }
        j = j + 1;
        proof {
            assert(picked.subrange(0, j as int).drop_last() =~= picked.subrange(0, j - 1));
            assert(picked.subrange(0, j as int).last() == picked[j - 1]);
            assert(copies_names(copies@) =~= copies_names(prev_copies) + copies_names(
                copies@.skip(prev_copies.len() as int),
            ));
            assert(copies_names(copies@) =~= spec_all_copies(
                picked.subrange(0, j as int),
                base@,
                folders@,
                failed@,
            ));
            assert(text@ =~= spec_blocks(picked.subrange(0, j as int), base@, folders@, failed@));
        }
    }
    proof {
        assert(picked.subrange(0, picked.len() as int) =~= picked);
    }
    (text, copies)
}

/// Assembles one conversation against an already-formatted creation time:
/// skips it when its title is the reserved placeholder, when no entry point
/// resolves, or when the walk renders zero messages; otherwise produces the
/// document, its file name and the copies it references.  The result is a
/// function of the arguments and of nothing else.
pub fn assemble_transcript(
    conv: Conversation,
    time_text: &Option<String>,
    policy: BranchPolicy,
    folders: &Vec<UploadFolder>,
    failed: &Vec<AssetCopy>,
) -> (r: Conversion)
    ensures
        outcome_plan(r.outcome) == spec_convert(conv, opt_view(*time_text), policy, folders@, failed@),
        r.dropped_nodes as int == if spec_title(conv) == spec_placeholder_title() {
            0int
        } else {
            spec_dropped(conv.nodes@)
        },
{
    let Conversation { id: _, title, create_time: _, nodes } = conv;
    let title: String = match title {
        Some(t) => t,
        None => String::from_str("untitled"),
    };
    if str_eq(title.as_str(), "New chat") {
        return Conversion {
            outcome: Outcome::Skipped { reason: SkipReason::PlaceholderTitle },
            dropped_nodes: 0,
        };
    }
    let table = build_table(nodes);
    let entry = match resolve_entry(&table, policy) {
        Some(e) => e,
        None => {
            return Conversion {
                outcome: Outcome::Skipped { reason: SkipReason::NoEntryPoint },
                dropped_nodes: table.dropped,
            };
        },
    };
    let ixs = walk_thread(&table, &entry, policy);
    if ixs.len() == 0 {
        proof {
            assert(picked_nodes(table.nodes@, ixs@).len() == 0);
        }
        return Conversion {
            outcome: Outcome::Skipped { reason: SkipReason::EmptyTranscript },
            dropped_nodes: table.dropped,
        };
    }
    let time_str: String = match time_text {
        Some(t) => t.clone(),
        None => String::from_str("unknown"),
    };
    let save_time = sanitize_filename(time_str.as_str());
    let safe_title = sanitize_filename(title.as_str());
    let mut base = String::from_str("conversation_");
    base.append(save_time.as_str());
    base.append("_");
    base.append(safe_title.as_str());
    proof {
        assert(base@ =~= spec_base_name(title@, opt_view(*time_text)));
    }
    let mut doc_name = base.clone();
    doc_name.append(".md");
    let mut text = String::from_str("# ");
    text.append(title.as_str());
    text.append("\n\n");
    match time_text {
        Some(t) => {
            text.append("_Created: ");
            text.append(t.as_str());
            text.append("_\n\n");
        },
        None => {},
    }
    proof {
        assert(text@ =~= spec_header(title@, opt_view(*time_text)));
    }
    let (blocks, copies) = render_blocks(&table, &ixs, base.as_str(), folders, failed);
    text.append(blocks.as_str());
    proof {
        assert(picked_nodes(table.nodes@, ixs@).len() > 0);
        assert(text@ =~= spec_document(
            title@,
            opt_view(*time_text),
            picked_nodes(table.nodes@, ixs@),
            base@,
            folders@,
            failed@,
        ));
        assert(doc_name@ =~= base@ + ".md"@);
    }
    Conversion {
        outcome: Outcome::Written { doc_name, text, copies },
        dropped_nodes: table.dropped,
    }
}

/// Converts one conversation end to end, formatting its creation time
/// through the calendar library.  Whatever the formatter returns, the result
/// is the assembly of the conversation against some creation-time text; when
/// the instant lies in the always-formattable range, it is the assembly
/// against exactly that instant's text, and when there is no instant, the
/// assembly against none.
pub fn convert_conversation(
    conv: Conversation,
    policy: BranchPolicy,
    folders: &Vec<UploadFolder>,
    failed: &Vec<AssetCopy>,
) -> (r: Conversion)
    ensures
        exists|topt: Option<Seq<char>>|
            outcome_plan(r.outcome) == #[trigger] spec_convert(
                conv,
                topt,
                policy,
                folders@,
                failed@,
            ),
        conv.create_time is None ==> outcome_plan(r.outcome) == spec_convert(
            conv,
            None::<Seq<char>>,
            policy,
            folders@,
            failed@,
        ),
        conv.create_time matches Some(ts) ==> (spec_time_in_range(ts) ==> outcome_plan(r.outcome)
            == spec_convert(
            conv,
            Some(spec_utc_time_string(ts.secs as int, ts.nanos as int)),
            policy,
            folders@,
            failed@,
        )),
        r.dropped_nodes as int == if spec_title(conv) == spec_placeholder_title() {
            0int
        } else {
            spec_dropped(conv.nodes@)
        },
{
    let time_text: Option<String> = match &conv.create_time {
        Some(ts) => format_creation_time(ts),
        None => None,
    };
    let ghost topt = opt_view(time_text);
    let r = assemble_transcript(conv, &time_text, policy, folders, failed);
    proof {
        assert(outcome_plan(r.outcome) == spec_convert(conv, topt, policy, folders@, failed@));
    }
    r
}

/// A conversation titled exactly the reserved placeholder title is never
/// rendered, whatever its graph holds, its timestamp, the listing or the
/// failed copies.
pub proof fn lemma_placeholder_title_never_written(
    c: Conversation,
    topt: Option<Seq<char>>,
    policy: BranchPolicy,
    folders: Seq<UploadFolder>,
    failed: Seq<AssetCopy>,
)
    requires
        spec_title(c) == spec_placeholder_title(),
    ensures
        spec_convert(c, topt, policy, folders, failed) == OutcomePlan::Skipped(
            SkipReason::PlaceholderTitle,
        ),
{
}

/// When no node is parentless, or the first parentless node has no children,
/// resolution fails and the conversation produces no document.
pub proof fn lemma_failed_resolution_writes_nothing(
    c: Conversation,
    topt: Option<Seq<char>>,
    policy: BranchPolicy,
    folders: Seq<UploadFolder>,
    failed: Seq<AssetCopy>,
)
    requires
        spec_entry(spec_table(c.nodes@), policy) is None,
    ensures
        !(spec_convert(c, topt, policy, folders, failed) is Written),
{
}

/// The conversion is a function of its inputs alone: run twice on unchanged
/// input, it produces the identical outcome, and in particular byte-identical
/// document text.
pub proof fn lemma_convert_deterministic(
    c: Conversation,
    topt: Option<Seq<char>>,
    policy: BranchPolicy,
    folders: Seq<UploadFolder>,
    failed: Seq<AssetCopy>,
    first: Conversion,
    second: Conversion,
)
    requires
        outcome_plan(first.outcome) == spec_convert(c, topt, policy, folders, failed),
        outcome_plan(second.outcome) == spec_convert(c, topt, policy, folders, failed),
    ensures
        outcome_plan(first.outcome) == outcome_plan(second.outcome),
{
}

} // verus!
