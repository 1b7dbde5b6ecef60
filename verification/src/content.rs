//! The message payloads and their rendering.  A message carries exactly one
//! content variant; rendering is exhaustive over the variants and turns each
//! into a textual block, resolving media pointers through the asset resolver
//! as it goes.

use vstd::prelude::*;

use crate::assets::{copies_names, copy_names, resolve_asset, spec_resolve, AssetCopy, AssetNames, UploadFolder};
use crate::text::{join_strings, spec_join, str_eq};
use crate::time_fmt::Timestamp;

verus! {

/// One part of a plain-text payload: a literal string, or an inline image
/// descriptor that rendering does not support.
#[derive(Clone, Debug)]
pub enum Part {
    Text(String),
    Image {
        content_type: String,
        asset_pointer: Option<String>,
        width: Option<u32>,
        height: Option<u32>,
    },
}

/// One reasoning chunk: a short summary and its body.
#[derive(Clone, Debug)]
pub struct Thought {
    pub summary: String,
    pub content: String,
}

/// One citation reference of a reasoning recap: the matched text span and
/// the safe URLs it may link to.
#[derive(Clone, Debug)]
pub struct ContentReference {
    pub matched_text: String,
    pub safe_urls: Vec<String>,
}

/// One part of a multimodal payload: an image named by an opaque asset
/// pointer, with its dimensions.
#[derive(Clone, Debug)]
pub enum MultimodalPart {
    ImageAssetPointer { asset_pointer: String, size_bytes: u64, width: u32, height: u32 },
}

/// A message's payload: exactly one of the defined variants.
#[derive(Clone, Debug)]
pub enum Content {
    Text { parts: Vec<Part> },
    Thoughts { thoughts: Vec<Thought> },
    Code { language: Option<String>, text: String },
    ReasoningRecap { content: String, content_references: Option<Vec<ContentReference>> },
    MultimodalText { parts: Vec<MultimodalPart> },
}

/// A message's author: a role tag and an optional display name.
#[derive(Clone, Debug)]
pub struct Author {
    pub role: String,
    pub name: Option<String>,
}

/// One message of a conversation: its author, its payload, and auxiliary
/// fields that are carried along but not needed for rendering.
#[derive(Clone, Debug)]
pub struct Message {
    pub author: Author,
    pub content: Content,
    pub status: String,
    pub create_time: Option<Timestamp>,
    pub update_time: Option<Timestamp>,
}

/// What one text part renders to: the literal itself, or a visible marker
/// for the unsupported inline-image case.
pub open spec fn spec_render_part(p: Part) -> Seq<char> {
    match p {
        Part::Text(s) => s@,
        Part::Image { .. } => "[unsupported inline image]"@,
    }
}

/// A text payload: its parts, one per line.
pub open spec fn spec_render_text(parts: Seq<Part>) -> Seq<char> {
    spec_join(parts.map(|i: int, p: Part| spec_render_part(p)), "\n"@)
}

/// One reasoning chunk: the summary in bold, the body below it.
pub open spec fn spec_render_thought(t: Thought) -> Seq<char> {
    "**"@ + t.summary@ + "**\n"@ + t.content@
}

/// A reasoning payload: its chunks, separated by blank lines.
pub open spec fn spec_render_thoughts(ts: Seq<Thought>) -> Seq<char> {
    spec_join(ts.map(|i: int, t: Thought| spec_render_thought(t)), "\n\n"@)
}

/// A code payload: a fenced block tagged with the language, `text` when none
/// is given.
pub open spec fn spec_render_code(language: Option<String>, text: Seq<char>) -> Seq<char> {
    let lang = match language {
        Some(l) => l@,
        None => "text"@,
    };
    "```"@ + lang + "\n"@ + text + "\n```"@
}

/// The citation links a recap appends: one per reference that carries at
/// least one safe URL, using the first URL only.
pub open spec fn spec_render_references(refs: Seq<ContentReference>) -> Seq<char>
    decreases refs.len(),
{
    if refs.len() == 0 {
        Seq::<char>::empty()
    } else {
        spec_render_references(refs.drop_last()) + if refs.last().safe_urls.len() > 0 {
            "\n[Reference]("@ + refs.last().safe_urls[0]@ + ")"@
        } else {
            Seq::<char>::empty()
        }
    }
}

/// A recap payload: its text, then its citation links.
pub open spec fn spec_render_recap(
    content: Seq<char>,
    refs: Option<Vec<ContentReference>>,
) -> Seq<char> {
    content + match refs {
        Some(rs) => spec_render_references(rs@),
        None => Seq::<char>::empty(),
    }
}

/// Whether a planned copy is among the ones reported as failed.
pub open spec fn spec_copy_failed(failed: Seq<AssetCopy>, names: AssetNames) -> bool {
    exists|i: int| 0 <= i < failed.len() && copy_names(failed[i]) == names
}

/// What one image part renders to: an image link to the copied file when the
/// pointer resolves and the copy did not fail, otherwise a visible
/// placeholder naming the pointer.
pub open spec fn spec_render_image(
    pointer: Seq<char>,
    base: Seq<char>,
    folders: Seq<UploadFolder>,
    failed: Seq<AssetCopy>,
) -> Seq<char> {
    match spec_resolve(pointer, base, folders) {
        Some(names) => if !spec_copy_failed(failed, names) {
            "![]("@ + names.dest + ")"@
        } else {
            "![Missing image for "@ + pointer + "]"@
        },
        None => "![Missing image for "@ + pointer + "]"@,
    }
}

/// The pointer an image part carries.
pub open spec fn spec_part_pointer(p: MultimodalPart) -> Seq<char> {
    match p {
        MultimodalPart::ImageAssetPointer { asset_pointer, .. } => asset_pointer@,
    }
}

/// A multimodal payload: its image parts, separated by blank lines.
pub open spec fn spec_render_multimodal(
    parts: Seq<MultimodalPart>,
    base: Seq<char>,
    folders: Seq<UploadFolder>,
    failed: Seq<AssetCopy>,
) -> Seq<char> {
    spec_join(
        parts.map(|i: int, p: MultimodalPart| spec_render_image(
            spec_part_pointer(p),
            base,
            folders,
            failed,
        )),
        "\n\n"@,
    )
}

/// The whole payload dispatch: every variant renders, none is skipped.
pub open spec fn spec_render_content(
    c: Content,
    base: Seq<char>,
    folders: Seq<UploadFolder>,
    failed: Seq<AssetCopy>,
) -> Seq<char> {
    match c {
        Content::Text { parts } => spec_render_text(parts@),
        Content::Thoughts { thoughts } => spec_render_thoughts(thoughts@),
        Content::Code { language, text } => spec_render_code(language, text@),
        Content::ReasoningRecap { content, content_references } => spec_render_recap(
            content@,
            content_references,
        ),
        Content::MultimodalText { parts } => spec_render_multimodal(
            parts@,
            base,
            folders,
            failed,
        ),
    }
}

/// The copies a payload asks for: one per image part whose pointer resolves
/// and whose copy is not reported failed, in part order.
pub open spec fn spec_content_copies(
    c: Content,
    base: Seq<char>,
    folders: Seq<UploadFolder>,
    failed: Seq<AssetCopy>,
) -> Seq<AssetNames> {
    match c {
        Content::MultimodalText { parts } => spec_multimodal_copies(parts@, base, folders, failed),
        _ => Seq::<AssetNames>::empty(),
    }
}

/// The copies the image parts of a multimodal payload ask for.
pub open spec fn spec_multimodal_copies(
    parts: Seq<MultimodalPart>,
    base: Seq<char>,
    folders: Seq<UploadFolder>,
    failed: Seq<AssetCopy>,
) -> Seq<AssetNames>
    decreases parts.len(),
{
    if parts.len() == 0 {
        Seq::<AssetNames>::empty()
    } else {
        spec_multimodal_copies(parts.drop_last(), base, folders, failed) + match spec_resolve(
            spec_part_pointer(parts.last()),
            base,
            folders,
        ) {
            Some(names) => if !spec_copy_failed(failed, names) {
                seq![names]
            } else {
                Seq::<AssetNames>::empty()
            },
            None => Seq::<AssetNames>::empty(),
        }
    }
}

/// The label a role renders under: `user` and `assistant` get fixed labels,
/// any other role string passes through verbatim.
pub open spec fn spec_render_role(role: Seq<char>) -> Seq<char> {
    if role == "user"@ {
        "User"@
    } else if role == "assistant"@ {
        "Assistant"@
    } else {
        role
    }
}

/// One message's block in the document: the bold role label, the rendered
/// payload, and the separator rule.
pub open spec fn spec_render_block(
    m: Message,
    base: Seq<char>,
    folders: Seq<UploadFolder>,
    failed: Seq<AssetCopy>,
) -> Seq<char> {
    "**"@ + spec_render_role(m.author.role@) + ":**\n\n"@ + spec_render_content(
        m.content,
        base,
        folders,
        failed,
    ) + "\n\n---\n\n"@
}

/// Whether `c` is among the copies reported as failed.
fn copy_failed(failed: &Vec<AssetCopy>, c: &AssetCopy) -> (r: bool)
    ensures
        r == spec_copy_failed(failed@, copy_names(*c)),
{
    let mut i: usize = 0;
    while i < failed.len()
        invariant
            i <= failed@.len(),
            forall|j: int| 0 <= j < i ==> copy_names(failed@[j]) != copy_names(*c),
        decreases failed@.len() - i,
    {
        if failed[i].folder == c.folder && failed[i].file == c.file && failed[i].dest == c.dest {
            proof {
                assert(copy_names(failed@[i as int]) == copy_names(*c));
            }
            return true;
        }
        i = i + 1;
    }
    false
}

/// Renders a text payload: the parts, one per line, an inline image part
/// shown as the unsupported-case marker.
fn render_text(parts: &Vec<Part>) -> (r: String)
    ensures
        r@ == spec_render_text(parts@),
{
    let mut rendered: Vec<String> = Vec::new();
    let mut i: usize = 0;
    while i < parts.len()
        invariant
            i <= parts@.len(),
            rendered@.len() == i,
            forall|k: int| 0 <= k < i ==> rendered@[k]@ == spec_render_part(parts@[k]),
        decreases parts@.len() - i,
    {
        let piece = match &parts[i] {
            Part::Text(s) => s.clone(),
            Part::Image { .. } => String::from_str("[unsupported inline image]"),
        };
        rendered.push(piece);
        i = i + 1;
    }
    proof {
        assert(rendered@.map(|k: int, s: String| s@) =~= parts@.map(
            |k: int, p: Part| spec_render_part(p),
        ));
    }
    join_strings(&rendered, "\n")
}

/// Renders a reasoning payload: each chunk as a bolded summary over its
/// body, chunks separated by blank lines.
fn render_thoughts(thoughts: &Vec<Thought>) -> (r: String)
    ensures
        r@ == spec_render_thoughts(thoughts@),
{
    let mut rendered: Vec<String> = Vec::new();
    let mut i: usize = 0;
    while i < thoughts.len()
        invariant
            i <= thoughts@.len(),
            rendered@.len() == i,
            forall|k: int| 0 <= k < i ==> rendered@[k]@ == spec_render_thought(thoughts@[k]),
        decreases thoughts@.len() - i,
    {
        let mut piece = String::from_str("**");
        piece.append(thoughts[i].summary.as_str());
        piece.append("**\n");
        piece.append(thoughts[i].content.as_str());
        proof {
            assert(piece@ =~= spec_render_thought(thoughts@[i as int]));
        }
        rendered.push(piece);
        i = i + 1;
    }
    proof {
        assert(rendered@.map(|k: int, s: String| s@) =~= thoughts@.map(
            |k: int, t: Thought| spec_render_thought(t),
        ));
    }
    join_strings(&rendered, "\n\n")
}

/// Renders a code payload as a fenced block tagged with its language.
fn render_code(language: &Option<String>, text: &String) -> (r: String)
    ensures
        r@ == spec_render_code(*language, text@),
{
    let mut out = String::from_str("```");
    match language {
        Some(l) => out.append(l.as_str()),
        None => out.append("text"),
    }
    out.append("\n");
    out.append(text.as_str());
    out.append("\n```");
    proof {
        assert(out@ =~= spec_render_code(*language, text@));
    }
    out
}

/// Renders a recap payload: the text, then one citation link per reference
/// that carries a safe URL.
fn render_recap(content: &String, refs: &Option<Vec<ContentReference>>) -> (r: String)
    ensures
        r@ == spec_render_recap(content@, *refs),
{
    let mut out = content.clone();
    if let Some(rs) = refs {
        let mut i: usize = 0;
        while i < rs.len()
            invariant
                i <= rs@.len(),
                out@ == content@ + spec_render_references(rs@.subrange(0, i as int)),
            decreases rs@.len() - i,
        {
            if rs[i].safe_urls.len() > 0 {
                out.append("\n[Reference](");
                out.append(rs[i].safe_urls[0].as_str());
                out.append(")");
            }
            i = i + 1;
            proof {
                assert(rs@.subrange(0, i as int).drop_last() =~= rs@.subrange(0, i - 1));
                assert(rs@.subrange(0, i as int).last() == rs@[i - 1]);
                assert(out@ =~= content@ + spec_render_references(rs@.subrange(0, i as int)));
            }
        }
        proof {
            assert(rs@.subrange(0, rs@.len() as int) =~= rs@);
        }
    }
    proof {
        assert(out@ =~= spec_render_recap(content@, *refs));
    }
    out
}

/// Renders a multimodal payload and gathers the copies it asks for: an image
/// link per resolved pointer, a visible placeholder per unresolved one.
fn render_multimodal(
    parts: &Vec<MultimodalPart>,
    base: &str,
    folders: &Vec<UploadFolder>,
    failed: &Vec<AssetCopy>,
) -> (r: (String, Vec<AssetCopy>))
    ensures
        r.0@ == spec_render_multimodal(parts@, base@, folders@, failed@),
        copies_names(r.1@) == spec_multimodal_copies(parts@, base@, folders@, failed@),
{
    let mut rendered: Vec<String> = Vec::new();
    let mut copies: Vec<AssetCopy> = Vec::new();
    let mut i: usize = 0;
    while i < parts.len()
        invariant
            i <= parts@.len(),
            rendered@.len() == i,
            forall|k: int| 0 <= k < i ==> rendered@[k]@ == spec_render_image(
                spec_part_pointer(parts@[k]),
                base@,
                folders@,
                failed@,
            ),
            copies_names(copies@) == spec_multimodal_copies(
                parts@.subrange(0, i as int),
                base@,
                folders@,
                failed@,
            ),
        decreases parts@.len() - i,
    {
        let ghost prev = copies@;
        let MultimodalPart::ImageAssetPointer { asset_pointer, .. } = &parts[i];
        let piece = match resolve_asset(asset_pointer.as_str(), base, folders) {
            Some(c) => {
                if !copy_failed(failed, &c) {
                    let mut link = String::from_str("![](");
                    link.append(c.dest.as_str());
                    link.append(")");
                    proof {
                        assert(copy_names(c) == spec_resolve(
                            spec_part_pointer(parts@[i as int]),
                            base@,
                            folders@,
                        )->Some_0);
                    }
                    copies.push(c);
                    link
                } else {
                    missing_image(asset_pointer)
                }
            },
            None => missing_image(asset_pointer),
        };
        proof {
            assert(piece@ =~= spec_render_image(
                spec_part_pointer(parts@[i as int]),
                base@,
                folders@,
                failed@,
            ));
        }
        rendered.push(piece);
        i = i + 1;
        proof {
            assert(parts@.subrange(0, i as int).drop_last() =~= parts@.subrange(0, i - 1));
            assert(parts@.subrange(0, i as int).last() == parts@[i - 1]);
            if copies@.len() > prev.len() {
                assert(copies@ == prev.push(copies@.last()));
                assert(copies_names(copies@) =~= copies_names(prev).push(
                    copy_names(copies@.last()),
                ));
                assert(copies_names(copies@) =~= spec_multimodal_copies(
                    parts@.subrange(0, i as int),
                    base@,
                    folders@,
                    failed@,
                ));
            } else {
                assert(copies@ == prev);
                assert(copies_names(copies@) =~= spec_multimodal_copies(
                    parts@.subrange(0, i as int),
                    base@,
                    folders@,
                    failed@,
                ));
            }
        }
    }
    proof {
        assert(parts@.subrange(0, parts@.len() as int) =~= parts@);
        assert(rendered@.map(|k: int, s: String| s@) =~= parts@.map(
            |k: int, p: MultimodalPart| spec_render_image(
                spec_part_pointer(p),
                base@,
                folders@,
                failed@,
            ),
        ));
    }
    let text = join_strings(&rendered, "\n\n");
    (text, copies)
}

/// The placeholder a pointer renders to when no file materializes it.
fn missing_image(pointer: &String) -> (r: String)
    ensures
        r@ == "![Missing image for "@ + pointer@ + "]"@,
{
    let mut out = String::from_str("![Missing image for ");
    out.append(pointer.as_str());
    out.append("]");
    proof {
        assert(out@ =~= "![Missing image for "@ + pointer@ + "]"@);
    }
    out
}

/// Renders one payload into its textual block, together with the copies it
/// asks for.  Dispatch is exhaustive: every variant produces output.
pub fn render_content(
    c: &Content,
    base: &str,
    folders: &Vec<UploadFolder>,
    failed: &Vec<AssetCopy>,
) -> (r: (String, Vec<AssetCopy>))
    ensures
        r.0@ == spec_render_content(*c, base@, folders@, failed@),
        copies_names(r.1@) == spec_content_copies(*c, base@, folders@, failed@),
{
    match c {
        Content::Text { parts } => {
            let text = render_text(parts);
            proof {
                assert(copies_names(Seq::<AssetCopy>::empty()) =~= Seq::<AssetNames>::empty());
            }
            (text, Vec::new())
        },
        Content::Thoughts { thoughts } => {
            let text = render_thoughts(thoughts);
            proof {
                assert(copies_names(Seq::<AssetCopy>::empty()) =~= Seq::<AssetNames>::empty());
            }
            (text, Vec::new())
        },
        Content::Code { language, text } => {
            let block = render_code(language, text);
            proof {
                assert(copies_names(Seq::<AssetCopy>::empty()) =~= Seq::<AssetNames>::empty());
            }
            (block, Vec::new())
        },
        Content::ReasoningRecap { content, content_references } => {
            let block = render_recap(content, content_references);
            proof {
                assert(copies_names(Seq::<AssetCopy>::empty()) =~= Seq::<AssetNames>::empty());
            }
            (block, Vec::new())
        },
        Content::MultimodalText { parts } => render_multimodal(parts, base, folders, failed),
    }
}

/// The label the given role renders under.
pub fn render_role(role: &String) -> (r: String)
    ensures
        r@ == spec_render_role(role@),
{
    if str_eq(role.as_str(), "user") {
        String::from_str("User")
    } else if str_eq(role.as_str(), "assistant") {
        String::from_str("Assistant")
    } else {
        role.clone()
    }
}

/// Renders one message's whole block: bold role label, payload, separator.
pub fn render_message_block(
    m: &Message,
    base: &str,
    folders: &Vec<UploadFolder>,
    failed: &Vec<AssetCopy>,
) -> (r: (String, Vec<AssetCopy>))
    ensures
        r.0@ == spec_render_block(*m, base@, folders@, failed@),
        copies_names(r.1@) == spec_content_copies(m.content, base@, folders@, failed@),
{
    let label = render_role(&m.author.role);
    let (body, copies) = render_content(&m.content, base, folders, failed);
    let mut out = String::from_str("**");
    out.append(label.as_str());
    out.append(":**\n\n");
    out.append(body.as_str());
    out.append("\n\n---\n\n");
    proof {
        assert(out@ =~= spec_render_block(*m, base@, folders@, failed@));
    }
    (out, copies)
}

/// Rendering is exhaustive and never silent: whatever variant a message
/// carries, its block is non-empty, even when the underlying text is empty.
pub proof fn lemma_render_block_nonempty(
    m: Message,
    base: Seq<char>,
    folders: Seq<UploadFolder>,
    failed: Seq<AssetCopy>,
)
    ensures
        spec_render_block(m, base, folders, failed).len() > 0,
{
    reveal_strlit("**");
    assert("**"@.len() == 2);
}

} // verus!
