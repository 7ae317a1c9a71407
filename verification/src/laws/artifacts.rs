//! Laws of the artifacts and pages that the gateway serves.
use vstd::prelude::*;

use crate::gateway::handlers::artifacts::{
    artifact_handler, document_not_found, export_document, image_format, image_lies_below,
    image_source_allowed, resolve_artifact_path, ArtifactAction, ArtifactExportQuery, ArtifactPath,
    ArtifactRoot, Conversion, ExportReply, TextReply,
};
use crate::gateway::handlers::web_ui::{
    asset_reply, cloud_login_callback_html, embedded_index_html, manifest_handler,
    register_sw_handler, sw_js_handler, Asset, AssetReply, TextAsset,
};
use crate::laws::text::{
    law_a_beginning_is_taken_away, law_a_text_is_split_at_the_first_separator,
    law_every_place_is_replaced,
};
use crate::path::components;
use crate::text::{lowercase, occurs, opt_text, pieces, stands_at};

verus! {

/// A path that is served climbs nowhere: it is relative, names no parent, no
/// place itself and nothing empty, and hides nothing of this behind an encoding or
/// a backslash.
pub proof fn law_served_paths_do_not_climb(path: &str, r: Option<ArtifactPath>, i: int)
    requires
        call_ensures(resolve_artifact_path, (path,), r),
        r is Some,
    ensures
        path@.len() > 0 && path@[0] != '/',
        !occurs(path@, "\\"@),
        !occurs(lowercase(path@), "%2e"@),
        !occurs(lowercase(path@), "%2f"@),
        0 <= i < pieces(path@, '/').len() ==> pieces(path@, '/')[i].len() > 0 && pieces(
            path@,
            '/',
        )[i] != "."@ && pieces(path@, '/')[i] != ".."@,
{
    reveal_strlit("/");
    if path@.len() > 0 && path@[0] == '/' {
        assert("/"@ =~= path@.take(1));
        assert("/"@.is_prefix_of(path@));
    }
    if path@.len() == 0 {
        crate::text::lemma_pieces_split(path@, '/', 0);
        assert(pieces(path@, '/')[0].len() == 0);
    }
}

/// A path without an owner lies in the global directory, as it is; one that an
/// owner's name begins lies below that owner, the default workspace being its own
/// place.
pub proof fn law_artifacts_lie_with_their_owner(
    path: &str,
    r: Option<ArtifactPath>,
    owner: Seq<char>,
    rest: Seq<char>,
)
    requires
        call_ensures(resolve_artifact_path, (path,), r),
        r is Some,
        !owner.contains('/'),
    ensures
        path@[0] != '@' ==> r->0.root is Global && r->0.rel@ == path@,
        path@ == seq!['@'] + owner + seq!['/'] + rest ==> r->0.rel@ == rest && (owner
            == "default"@ ==> r->0.root is DefaultWorkspace) && (owner != "default"@ ==> (
        r->0.root matches ArtifactRoot::Agent(id) && id@ == owner)),
{
    reveal_strlit("@");
    reveal_strlit("/");
    assert("@"@ =~= seq!['@']);
    assert("/"@ =~= seq!['/']);
    law_served_paths_do_not_climb(path, r, 0);
    if path@[0] != '@' {
        if "@"@.is_prefix_of(path@) {
            assert(path@[0] == "@"@[0]);
        }
    }
    if path@ == seq!['@'] + owner + seq!['/'] + rest {
        let inner = owner + seq!['/'] + rest;
        assert(path@ =~= "@"@ + inner);
        law_a_beginning_is_taken_away("@"@, inner, path@);
        lemma_split_slash(owner, rest);
    }
}

proof fn lemma_split_slash(a: Seq<char>, b: Seq<char>)
    requires
        !a.contains('/'),
    ensures
        crate::text::split_first(a + seq!['/'] + b, seq!['/']) == Some((a, b)),
{
    let s = a + seq!['/'] + b;
    let n = a.len() as int;
    law_a_text_is_split_at_the_first_separator(s, seq!['/']);
    crate::laws::text::law_a_text_occurs_where_it_stands(a, seq!['/'], b, s);
    let (x, y) = crate::text::split_first(s, seq!['/'])->0;
    assert(s == x + seq!['/'] + y);
    assert(s.subrange(n, n + 1) =~= seq!['/']);
    assert(stands_at(s, seq!['/'], n));
    if x.len() < n {
        assert((x + seq!['/'] + y)[x.len() as int] == '/');
        assert(a[x.len() as int] == '/');
    }
    assert(x.len() == n);
    assert(x =~= s.take(n) && a =~= s.take(n));
    assert(y =~= s.skip(n + 1) && b =~= s.skip(n + 1));
}

/// A request is answered by what it asks for: a path that is not served is
/// forbidden; a document is exported to the target that is asked for, if it is a
/// known one, and served otherwise, pages as pages and the rest as text.
pub proof fn law_documents_are_served_or_exported(
    path: &str,
    query: &ArtifactExportQuery,
    place: Option<ArtifactPath>,
    r: ArtifactAction,
)
    requires
        call_ensures(artifact_handler, (path, query), r),
        call_ensures(resolve_artifact_path, (path,), place),
    ensures
        place is None ==> (r matches ArtifactAction::Reply(t) && t.status == 403),
        r is Export <==> place is Some && query.to is Some && (query.to->0@ == "pptx"@
            || query.to->0@ == "docx"@ || query.to->0@ == "xlsx"@),
        r is Serve <==> place is Some && query.to is None,
        place is Some && query.to is Some && !(r is Export) ==> (r matches ArtifactAction::Reply(t)
            && t.status == 400),
        r matches ArtifactAction::Export { path: p, filename, target } ==> p.rel@ == place->0.rel@
            && target@ == query.to->0@ && filename@ == pieces(path@, '/').last(),
        r matches ArtifactAction::Serve { path: p, content_type } ==> p.rel@ == place->0.rel@ && (
        ".html"@.is_suffix_of(path@) ==> content_type@ == "text/html; charset=utf-8"@) && (
        !".html"@.is_suffix_of(path@) ==> content_type@ == "text/markdown; charset=utf-8"@),
{
}

/// An export is a file of the type of its target, named after the document; a
/// document that cannot be converted is told from a converter that broke down.
pub proof fn law_an_export_has_the_type_of_its_target(
    filename: &str,
    target: &str,
    conversion: Conversion,
    r: ExportReply,
)
    requires
        call_ensures(export_document, (filename, target, conversion), r),
    ensures
        r is File <==> conversion is Done,
        r matches ExportReply::File { content_type, bytes, .. } ==> {
            &&& Conversion::Done(bytes) == conversion
            &&& target@ == "pptx"@ ==> content_type@
                == "application/vnd.openxmlformats-officedocument.presentationml.presentation"@
            &&& target@ == "docx"@ ==> content_type@
                == "application/vnd.openxmlformats-officedocument.wordprocessingml.document"@
            &&& target@ == "xlsx"@ ==> content_type@
                == "application/vnd.openxmlformats-officedocument.spreadsheetml.sheet"@
        },
        conversion matches Conversion::Failed(e) ==> (r matches ExportReply::Text(t) && t.status
            == 422 && t.body@ == "Conversion failed: "@ + e@),
        conversion matches Conversion::Panicked(e) ==> (r matches ExportReply::Text(t) && t.status
            == 500 && t.body@ == "Conversion panicked: "@ + e@),
{
    reveal_strlit("pptx");
    reveal_strlit("docx");
    reveal_strlit("xlsx");
    assert("pptx"@[0] == 'p' && "docx"@[0] == 'd' && "xlsx"@[0] == 'x');
}

/// An exported file bears the name of its document without the ending of a page,
/// and with that of the target.
pub proof fn law_an_export_is_named_after_its_document(
    filename: &str,
    target: &str,
    bytes: Vec<u8>,
    r: ExportReply,
    name: Seq<char>,
)
    requires
        call_ensures(export_document, (filename, target, Conversion::Done(bytes)), r),
        !".html"@.is_suffix_of(name),
        !".md"@.is_suffix_of(name),
    ensures
        filename@ == name || filename@ == name + ".html"@ || filename@ == name + ".md"@ ==> (
        r matches ExportReply::File { disposition, .. } && disposition@
            == "attachment; filename=\""@ + name + "."@ + target@ + "\""@),
{
    reveal_strlit(".html");
    reveal_strlit(".md");
    crate::laws::text::law_an_ending_is_trimmed_until_it_is_gone(name, ".html"@);
    crate::laws::text::law_an_ending_is_trimmed_until_it_is_gone(name, ".md"@);
    let md = name + ".md"@;
    assert(!".html"@.is_suffix_of(md)) by {
        if ".html"@.is_suffix_of(md) {
            assert(md.last() == 'd');
            assert(md.skip(md.len() - 5).last() == ".html"@.last());
        }
    }
    crate::laws::text::law_an_ending_is_trimmed_until_it_is_gone(md, ".html"@);
}

/// An image is read only from below: not from an absolute place, not from a
/// parent, not from the net.
pub proof fn law_images_come_from_below(
    src: &str,
    r: bool,
    extension: &Option<String>,
    format: String,
    missing: TextReply,
)
    requires
        call_ensures(image_source_allowed, (src,), r),
        call_ensures(image_format, (extension,), format),
        call_ensures(document_not_found, (), missing),
    ensures
        r ==> !occurs(src@, ".."@) && !"/"@.is_prefix_of(src@) && !"http"@.is_prefix_of(src@),
        !occurs(src@, ".."@) && !"/"@.is_prefix_of(src@) && !"http"@.is_prefix_of(src@) ==> r,
        format@.len() > 0 ==> format@[0] != '.',
        *extension is Some && extension->0@.len() > 0 && extension->0@[0] != '.' ==> format@
            == extension->0@,
        *extension is None ==> format@ == "png"@,
        missing.status == 404,
{
    reveal_strlit("png");
    let e = if *extension is Some {
        extension->0@
    } else {
        "png"@
    };
    crate::laws::text::law_trimming_a_character_takes_only_that(e, '.');
    assert(e.skip(0) =~= e);
}

/// An asset that is there is served whole, under its own type unless another is
/// given; one that is not there is not found.
pub proof fn law_assets_are_served_whole(
    asset: Option<Asset>,
    content_type: Option<&str>,
    r: AssetReply,
    worker: AssetReply,
    text: &Option<String>,
    script: TextAsset,
    manifest: TextAsset,
)
    requires
        call_ensures(asset_reply, (asset, content_type), r),
        call_ensures(sw_js_handler, (asset,), worker),
        call_ensures(register_sw_handler, (text,), script),
        call_ensures(manifest_handler, (text,), manifest),
    ensures
        asset is Some ==> r.status == 200 && r.body@ == asset->0.data@ && r.content_type is Some
            && worker.status == 200 && worker.body@ == asset->0.data@ && opt_text(
            worker.content_type,
        ) == Some("application/javascript"@),
        asset is Some && content_type is Some ==> r.content_type->0@ == content_type->0@,
        asset is Some && content_type is None ==> r.content_type->0@ == asset->0.mime@,
        asset is None ==> r.status == 404 && r.body@.len() == 0 && worker.status == 404
            && worker.body@.len() == 0,
        script.content_type@ == "application/javascript"@,
        manifest.content_type@ == "application/manifest+json"@,
        *text is Some ==> script.body@ == text->0@ && manifest.body@ == text->0@,
        *text is None ==> manifest.body@.len() == 0,
{
}

/// The page is the one that was built, with the version in the place of its
/// placeholder and nothing else changed.
pub proof fn law_the_page_shows_its_version(
    asset: &Option<String>,
    version: &str,
    r: String,
    before: Seq<char>,
    after: Seq<char>,
)
    requires
        call_ensures(embedded_index_html, (asset, version), r),
        *asset is Some,
    ensures
        !occurs(asset->0@, "{VERSION}"@) ==> r@ == asset->0@,
        asset->0@ == before + "{VERSION}"@ + after && !occurs(after, "{VERSION}"@) && (forall|
            i: int,
        |
            0 <= i < before.len() ==> !stands_at(asset->0@, "{VERSION}"@, i)) ==> r@ == before
            + version@ + after,
{
    reveal_strlit("{VERSION}");
    law_every_place_is_replaced(before, "{VERSION}"@, after, version@, asset->0@);
    law_every_place_is_replaced(before, "{VERSION}"@, after, version@, after);
}

/// An image is taken only where its place lies below the base: there each step of
/// the base is a step on the way to it.
pub proof fn law_an_image_lies_below_its_base(canon: &str, base: &str, r: bool, i: int)
    requires
        call_ensures(image_lies_below, (canon, base), r),
    ensures
        r ==> components(base@).len() <= components(canon@).len() && (0 <= i < components(
            base@,
        ).len() ==> components(canon@)[i] == components(base@)[i]),
        components(canon@) == components(base@) ==> r,
        components(canon@).len() < components(base@).len() ==> !r,
{
    let a = components(base@);
    let b = components(canon@);
    if r && 0 <= i < a.len() {
        assert(b.take(a.len() as int)[i] == a[i]);
    }
    if a == b {
        assert(b.take(a.len() as int) =~= a);
    }
}

/// The page of a login is the page itself with its references made absolute.
pub proof fn law_the_login_page_is_the_page(
    asset: &Option<String>,
    version: &str,
    page: String,
    r: String,
)
    requires
        call_ensures(embedded_index_html, (asset, version), page),
        call_ensures(cloud_login_callback_html, (asset, version), r),
    ensures
        !occurs(r@, "href=\"./"@),
        !occurs(r@, "src=\"./"@),
        !occurs(page@, "href=\"./"@) && !occurs(page@, "src=\"./"@) ==> r@ == page@,
{
    reveal_strlit("href=\"./");
    reveal_strlit("src=\"./");
    let none = Seq::<char>::empty();
    crate::gateway::handlers::web_ui::law_no_relative_reference_is_left(page@);
    law_every_place_is_replaced(none, "href=\"./"@, none, "href=\"/"@, page@);
    law_every_place_is_replaced(none, "src=\"./"@, none, "src=\"/"@, page@);
}

/// A path that does not climb is served: one without an owner always, and one of
/// an owner whose name is made of letters, digits, hyphens and underscores.
pub proof fn law_paths_that_do_not_climb_are_served(
    path: &str,
    r: Option<ArtifactPath>,
    owner: Seq<char>,
    rest: Seq<char>,
)
    requires
        call_ensures(resolve_artifact_path, (path,), r),
        path@.len() > 0,
        path@[0] != '/',
        !occurs(path@, "\\"@),
        !occurs(lowercase(path@), "%2e"@),
        !occurs(lowercase(path@), "%2f"@),
        forall|i: int|
            0 <= i < pieces(path@, '/').len() ==> (#[trigger] pieces(path@, '/')[i]).len() > 0
                && pieces(path@, '/')[i] != "."@ && pieces(path@, '/')[i] != ".."@,
    ensures
        path@[0] != '@' ==> r is Some,
        path@ == seq!['@'] + owner + seq!['/'] + rest && owner.len() > 0 && (forall|i: int|
            0 <= i < owner.len() ==> ('a' <= #[trigger] owner[i] <= 'z' || 'A' <= owner[i] <= 'Z'
                || '0' <= owner[i] <= '9' || owner[i] == '-' || owner[i] == '_')) ==> r is Some,
{
    reveal_strlit("@");
    reveal_strlit("/");
    assert("@"@ =~= seq!['@']);
    assert("/"@ =~= seq!['/']);
    if "/"@.is_prefix_of(path@) {
        assert(path@[0] == "/"@[0]);
    }
    if "@"@.is_prefix_of(path@) {
        assert(path@[0] == "@"@[0]);
    }
    if path@ == seq!['@'] + owner + seq!['/'] + rest && owner.len() > 0 && (forall|i: int|
        0 <= i < owner.len() ==> ('a' <= #[trigger] owner[i] <= 'z' || 'A' <= owner[i] <= 'Z' || '0'
            <= owner[i] <= '9' || owner[i] == '-' || owner[i] == '_')) {
        let inner = owner + seq!['/'] + rest;
        assert(path@ =~= "@"@ + inner);
        law_a_beginning_is_taken_away("@"@, inner, path@);
        if owner.contains('/') {
            let i = choose|i: int| 0 <= i < owner.len() && owner[i] == '/';
            assert(owner[i] == '/');
        }
        lemma_split_slash(owner, rest);
    }
}

} // verus!
