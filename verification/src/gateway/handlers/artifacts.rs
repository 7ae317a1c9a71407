//! Serving and exporting report documents.
//!
//! - `@<agent_id>/<file>`: an agent's workspace artifacts (`@default` is the
//!   shared default workspace).
//! - `@<agent_id>/<root>/<task>/<file>`: a delegation-scoped report inside that
//!   agent's workspace.
//! - `[<root>/<task>/]<file>`: the global artifacts directory.
use vstd::prelude::*;
use vstd::string::*;

use crate::path::{components, lies_below};
use crate::text::{
    cat, char_at, char_from, chars_of, contains_text, ends_with, is_ascii_letter, is_digit,
    lemma_find_char, lemma_pieces_split, lowercase, occurs, pieces, same, split, split_first,
    split_once, starts_with, strip_prefix, texts, trim_end_text, trim_start_char, trimmed_end_text,
    trimmed_start_of, without_prefix,
};

verus! {

/// The query of an artifact request.
#[derive(Debug)]
pub struct ArtifactExportQuery {
    /// Export conversion target.
    pub to: Option<String>,
}

// ---------------------------------------------------------------------------
// Where an artifact lies
// ---------------------------------------------------------------------------

/// The directory that a request path is relative to.
#[derive(Debug)]
pub enum ArtifactRoot {
    /// The global artifacts directory.
    Global,
    /// The artifacts of the shared default workspace.
    DefaultWorkspace,
    /// The artifacts of an agent's workspace.
    Agent(String),
}

/// Where an artifact lies.
#[derive(Debug)]
pub struct ArtifactPath {
    pub root: ArtifactRoot,
    /// The path below the root.
    pub rel: String,
}

/// Whether a path segment may stand in a request path.
pub open spec fn is_plain_segment(segment: Seq<char>) -> bool {
    segment.len() > 0 && segment != "."@ && segment != ".."@
}

/// Whether every segment of a path is plain.
pub open spec fn is_plain_path(path: Seq<char>) -> bool {
    forall|i: int|
        0 <= i < pieces(path, '/').len() ==> is_plain_segment(#[trigger] pieces(path, '/')[i])
}

/// Whether a request path is safe: relative, of plain segments, without
/// backslashes and without percent-encoded dots or slashes.
pub open spec fn is_safe_path(path: Seq<char>) -> bool {
    &&& !"/"@.is_prefix_of(path)
    &&& !occurs(lowercase(path), "%2e"@)
    &&& !occurs(lowercase(path), "%2f"@)
    &&& !occurs(path, "\\"@)
    &&& is_plain_path(path)
}

/// Whether a character may stand in an agent id.
pub open spec fn is_agent_id_char(c: char) -> bool {
    is_ascii_letter(c) || is_digit(c) || c == '-' || c == '_'
}

/// Whether a text is an agent id.
pub open spec fn is_agent_id(s: Seq<char>) -> bool {
    s.len() > 0 && forall|i: int| 0 <= i < s.len() ==> is_agent_id_char(#[trigger] s[i])
}

/// The owner of a request path and the path below its root; the global directory
/// has no owner. Unsafe paths lie nowhere.
pub open spec fn artifact_place(path: Seq<char>) -> Option<(Option<Seq<char>>, Seq<char>)> {
    if !is_safe_path(path) {
        None
    } else {
        match without_prefix(path, "@"@) {
            Some(rest) => match split_first(rest, "/"@) {
                Some((owner, rel)) => if is_agent_id(owner) {
                    Some((Some(owner), rel))
                } else {
                    None
                },
                None => None,
            },
            None => Some((None, path)),
        }
    }
}

/// Whether a root is that of an owner.
pub open spec fn is_root_of(root: ArtifactRoot, owner: Option<Seq<char>>) -> bool {
    match owner {
        None => root is Global,
        Some(o) => if o == "default"@ {
            root is DefaultWorkspace
        } else {
            root matches ArtifactRoot::Agent(id) && id@ == o
        },
    }
}

fn is_safe(path: &str) -> (r: bool)
    ensures
        r == is_safe_path(path@),
{
    let lower = path.to_lowercase();
    if starts_with(path, "/") || contains_text(&lower, "%2e") || contains_text(&lower, "%2f")
        || contains_text(path, "\\") {
        return false;
    }
    let segments = split(path, '/');
    let mut i: usize = 0;
    while i < segments.len()
        invariant
            i <= segments@.len(),
            texts(segments@) == pieces(path@, '/'),
            forall|j: int| 0 <= j < i ==> is_plain_segment(#[trigger] pieces(path@, '/')[j]),
        decreases segments.len() - i,
    {
        assert(texts(segments@)[i as int] == segments@[i as int]@);
        let seg = &segments[i];
        if seg.as_str().is_empty() || same(seg, ".") || same(seg, "..") {
            assert(!is_plain_segment(pieces(path@, '/')[i as int]));
            return false;
        }
        i += 1;
    }
    true
}

fn is_id(s: &str) -> (r: bool)
    ensures
        r == is_agent_id(s@),
{
    let cs = chars_of(s);
    let mut i: usize = 0;
    while i < cs.len()
        invariant
            i <= cs@.len(),
            cs@ == s@,
            forall|j: int| 0 <= j < i ==> is_agent_id_char(#[trigger] s@[j]),
        decreases cs.len() - i,
    {
        let c = cs[i];
        let ok = ('a' <= c && c <= 'z') || ('A' <= c && c <= 'Z') || ('0' <= c && c <= '9') || c
            == '-' || c == '_';
        if !ok {
            assert(!is_agent_id_char(s@[i as int]));
            return false;
        }
        i += 1;
    }
    cs.len() > 0
}

/// Resolve a request path to where it lies, honoring the `@owner` prefix for
/// agent-workspace artifacts and falling back to the global directory. Returns
/// `None` for unsafe paths.
pub fn resolve_artifact_path(path: &str) -> (r: Option<ArtifactPath>)
    ensures
        match artifact_place(path@) {
            Some((owner, rel)) => r matches Some(p) && is_root_of(p.root, owner) && p.rel@ == rel,
            None => r is None,
        },
{
    if !is_safe(path) {
        return None;
    }
    match strip_prefix(path, "@") {
        Some(rest) => match split_once(&rest, "/") {
            Some((owner, rel)) => {
                if !is_id(&owner) {
                    return None;
                }
                let root = if same(&owner, "default") {
                    ArtifactRoot::DefaultWorkspace
                } else {
                    ArtifactRoot::Agent(owner)
                };
                Some(ArtifactPath { root, rel })
            },
            None => None,
        },
        None => Some(ArtifactPath { root: ArtifactRoot::Global, rel: path.to_string() }),
    }
}

/// A path that lies somewhere lies below its root: no segment of what is joined
/// to the root is empty or leads upwards, and the owner of a workspace is an
/// agent id.
pub proof fn law_artifacts_stay_below_their_root(path: Seq<char>)
    requires
        artifact_place(path) is Some,
    ensures
        artifact_place(path) matches Some((owner, rel)) && is_plain_path(rel) && (owner is Some
            ==> is_agent_id(owner->0)),
{
    reveal_strlit("@");
    reveal_strlit("/");
    match without_prefix(path, "@"@) {
        Some(rest) => {
            assert("/"@ =~= seq!['/']);
            lemma_find_char(rest, '/', 0);
            let i = char_at(rest, '/')->0;
            crate::text::lemma_char_from(rest, '/', 0);
            let rel = rest.skip(i + 1);
            assert(path =~= seq!['@'] + rest);
            // The first separator of the path is that of the rest, one further.
            lemma_char_shift(path, rest, 0);
            lemma_pieces_split(path, '/', 0);
            assert(path.skip(i + 2) =~= rel);
            let all = pieces(path, '/');
            assert(all =~= seq![path.take(i + 1)] + pieces(rel, '/'));
            assert forall|k: int| 0 <= k < pieces(rel, '/').len() implies is_plain_segment(
                #[trigger] pieces(rel, '/')[k],
            ) by {
                assert(all[k + 1] == pieces(rel, '/')[k]);
            }
        },
        None => {},
    }
}

proof fn lemma_char_shift(path: Seq<char>, rest: Seq<char>, from: int)
    requires
        0 <= from,
        path.len() == rest.len() + 1,
        path.skip(1) == rest,
        path[0] == '@',
    ensures
        char_from(path, '/', from + 1) == match char_from(rest, '/', from) {
            Some(i) => Some(i + 1),
            None => None,
        },
        from == 0 ==> char_at(path, '/') == char_from(path, '/', 1),
    decreases rest.len() - from,
{
    if from < rest.len() {
        assert(rest[from] == path[from + 1]);
        lemma_char_shift(path, rest, from + 1);
    }
}

// ---------------------------------------------------------------------------
// Answering a request
// ---------------------------------------------------------------------------

/// An answer in text.
#[derive(Debug)]
pub struct TextReply {
    pub status: u16,
    pub content_type: String,
    pub body: String,
}

/// Whether `r` is a plain-text answer.
pub open spec fn is_plain_reply(r: TextReply, status: u16, body: Seq<char>) -> bool {
    r.status == status && r.content_type@ == "text/plain; charset=utf-8"@ && r.body@ == body
}

fn plain_reply(status: u16, body: String) -> (r: TextReply)
    ensures
        is_plain_reply(r, status, body@),
{
    TextReply { status, content_type: "text/plain; charset=utf-8".to_string(), body }
}

/// What a request for an artifact asks for.
#[derive(Debug)]
pub enum ArtifactAction {
    /// Answer at once.
    Reply(TextReply),
    /// Convert the document and answer with the file.
    Export { path: ArtifactPath, filename: String, target: String },
    /// Answer with the document.
    Serve { path: ArtifactPath, content_type: String },
}

/// Whether an export target is supported.
pub open spec fn is_export_target(to: Seq<char>) -> bool {
    to == "pptx"@ || to == "docx"@ || to == "xlsx"@
}

/// Whether `p` is where a path lies.
pub open spec fn is_place(p: ArtifactPath, path: Seq<char>) -> bool {
    artifact_place(path) matches Some((owner, rel)) && is_root_of(p.root, owner) && p.rel@ == rel
}

/// What a request for an artifact asks for: a path that lies nowhere is
/// forbidden, an unknown export target refused; an export converts the document
/// called by the last segment, else the document is served by its ending.
pub fn artifact_handler(path: &str, query: &ArtifactExportQuery) -> (r: ArtifactAction)
    ensures
        if artifact_place(path@) is None {
            r matches ArtifactAction::Reply(t) && is_plain_reply(t, 403, "Access denied"@)
        } else {
            match query.to {
                Some(to) => if is_export_target(to@) {
                    r matches ArtifactAction::Export { path: p, filename, target } && is_place(
                        p,
                        path@,
                    ) && filename@ == pieces(path@, '/').last() && target@ == to@
                } else {
                    r matches ArtifactAction::Reply(t) && is_plain_reply(
                        t,
                        400,
                        "Unsupported export target '"@ + to@
                            + "' (supported: pptx, docx, xlsx)"@,
                    )
                },
                None => r matches ArtifactAction::Serve { path: p, content_type } && is_place(
                    p,
                    path@,
                ) && content_type@ == if ".html"@.is_suffix_of(path@) {
                    "text/html; charset=utf-8"@
                } else {
                    "text/markdown; charset=utf-8"@
                },
            }
        },
{
    let place = match resolve_artifact_path(path) {
        Some(p) => p,
        None => {
            return ArtifactAction::Reply(plain_reply(403, "Access denied".to_string()));
        },
    };
    match &query.to {
        Some(to) => {
            if same(to, "pptx") || same(to, "docx") || same(to, "xlsx") {
                let segments = split(path, '/');
                proof {
                    lemma_pieces_split(path@, '/', 0);
                    assert(texts(segments@).last() == segments@.last()@);
                }
                let filename = segments[segments.len() - 1].clone();
                ArtifactAction::Export { path: place, filename, target: to.clone() }
            } else {
                let mut body = "Unsupported export target '".to_string();
                body.append(to);
                body.append("' (supported: pptx, docx, xlsx)");
                ArtifactAction::Reply(plain_reply(400, body))
            }
        },
        None => {
            let content_type = if ends_with(path, ".html") {
                "text/html; charset=utf-8".to_string()
            } else {
                "text/markdown; charset=utf-8".to_string()
            };
            ArtifactAction::Serve { path: place, content_type }
        },
    }
}

/// The answer when a document cannot be read.
pub fn document_not_found() -> (r: TextReply)
    ensures
        is_plain_reply(r, 404, "Document not found"@),
{
    plain_reply(404, "Document not found".to_string())
}

// ---------------------------------------------------------------------------
// Exporting
// ---------------------------------------------------------------------------

/// How a conversion ended.
#[derive(Debug)]
pub enum Conversion {
    /// The converted file.
    Done(Vec<u8>),
    /// The document could not be converted.
    Failed(String),
    /// The converter broke down.
    Panicked(String),
}

/// The answer to an export.
#[derive(Debug)]
pub enum ExportReply {
    File { content_type: String, disposition: String, bytes: Vec<u8> },
    Text(TextReply),
}

/// The media type of an export target.
pub open spec fn export_type(target: Seq<char>) -> Seq<char> {
    if target == "pptx"@ {
        "application/vnd.openxmlformats-officedocument.presentationml.presentation"@
    } else if target == "docx"@ {
        "application/vnd.openxmlformats-officedocument.wordprocessingml.document"@
    } else if target == "xlsx"@ {
        "application/vnd.openxmlformats-officedocument.spreadsheetml.sheet"@
    } else {
        "application/octet-stream"@
    }
}

/// The name of a document without its endings.
pub open spec fn document_stem(filename: Seq<char>) -> Seq<char> {
    trimmed_end_text(trimmed_end_text(filename, ".html"@), ".md"@)
}

/// The answer to an export: the converted file under the document's name with
/// the target's ending, or what went wrong.
pub fn export_document(filename: &str, target: &str, conversion: Conversion) -> (r: ExportReply)
    ensures
        match conversion {
            Conversion::Done(out) => r matches ExportReply::File {
                content_type,
                disposition,
                bytes,
            } && content_type@ == export_type(target@) && disposition@
                == "attachment; filename=\""@ + document_stem(filename@) + "."@ + target@ + "\""@
                && bytes == out,
            Conversion::Failed(e) => r matches ExportReply::Text(t) && is_plain_reply(
                t,
                422,
                "Conversion failed: "@ + e@,
            ),
            Conversion::Panicked(e) => r matches ExportReply::Text(t) && is_plain_reply(
                t,
                500,
                "Conversion panicked: "@ + e@,
            ),
        },
{
    match conversion {
        Conversion::Done(bytes) => {
            let stem = trim_end_text(&trim_end_text(filename, ".html"), ".md");
            let content_type = if same(target, "pptx") {
                "application/vnd.openxmlformats-officedocument.presentationml.presentation".to_string()
            } else if same(target, "docx") {
                "application/vnd.openxmlformats-officedocument.wordprocessingml.document".to_string()
            } else if same(target, "xlsx") {
                "application/vnd.openxmlformats-officedocument.spreadsheetml.sheet".to_string()
            } else {
                "application/octet-stream".to_string()
            };
            let mut disposition = "attachment; filename=\"".to_string();
            disposition.append(&stem);
            disposition.append(".");
            disposition.append(target);
            disposition.append("\"");
            ExportReply::File { content_type, disposition, bytes }
        },
        Conversion::Failed(e) => ExportReply::Text(
            plain_reply(422, cat("Conversion failed: ", &e)),
        ),
        Conversion::Panicked(e) => ExportReply::Text(
            plain_reply(500, cat("Conversion panicked: ", &e)),
        ),
    }
}

/// Whether an image source of a document may be read: a relative one that does
/// not lead upwards.
pub fn image_source_allowed(src: &str) -> (r: bool)
    ensures
        r == (!"/"@.is_prefix_of(src@) && !occurs(src@, ".."@) && !"http"@.is_prefix_of(src@)),
{
    !(starts_with(src, "/") || contains_text(src, "..") || starts_with(src, "http"))
}

/// Whether an image, by its canonical path, lies in the directory of its artifact or
/// below it: any other is skipped.
pub fn image_lies_below(canon: &str, base: &str) -> (r: bool)
    ensures
        r == components(base@).is_prefix_of(components(canon@)),
{
    lies_below(canon, base)
}

/// The format of an image: its file's extension, `png` without one.
pub fn image_format(extension: &Option<String>) -> (r: String)
    ensures
        r@ == match *extension {
            Some(e) => trimmed_start_of(e@, '.'),
            None => trimmed_start_of("png"@, '.'),
        },
{
    match extension {
        Some(e) => trim_start_char(e, '.'),
        None => trim_start_char("png", '.'),
    }
}

} // verus!
