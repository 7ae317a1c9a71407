//! The pages of the web UI.
use vstd::prelude::*;
use vstd::string::*;

use crate::text::{
    lemma_replaced_brings_in_nothing, lemma_replaced_is_gone, occurs, replace, replaced, stands_at,
};

verus! {

/// The page of the web UI with the version filled in; a note where no page was
/// built.
pub open spec fn index_page(asset: Option<Seq<char>>, version: Seq<char>) -> Seq<char> {
    replaced(
        match asset {
            Some(html) => html,
            None =>
                "<h1>Syscity Chat UI</h1><p>Build not found. Run: cd web and pnpm build</p>"@,
        },
        "{VERSION}"@,
        version,
    )
}

/// The embedded page with the version placeholder filled in.
pub fn embedded_index_html(asset: &Option<String>, version: &str) -> (r: String)
    ensures
        r@ == index_page(crate::text::opt_text(*asset), version@),
{
    let html = match asset {
        Some(html) => html.clone(),
        None =>
            "<h1>Syscity Chat UI</h1><p>Build not found. Run: cd web and pnpm build</p>".to_string(),
    };
    proof {
        reveal_strlit("{VERSION}");
    }
    replace(&html, "{VERSION}", version)
}

/// A page with its relative asset references made absolute.
pub open spec fn absolute_page(html: Seq<char>) -> Seq<char> {
    replaced(replaced(html, "href=\"./"@, "href=\"/"@), "src=\"./"@, "src=\"/"@)
}

/// No relative asset reference is left in a page made absolute.
pub proof fn law_no_relative_reference_is_left(html: Seq<char>)
    ensures
        !occurs(absolute_page(html), "href=\"./"@),
        !occurs(absolute_page(html), "src=\"./"@),
{
    reveal_strlit("href=\"./");
    reveal_strlit("href=\"/");
    reveal_strlit("src=\"./");
    reveal_strlit("src=\"/");
    let linked = replaced(html, "href=\"./"@, "href=\"/"@);
    let page = absolute_page(html);
    assert forall|i: int| !stands_at(linked, "href=\"./"@, i) by {
        lemma_replaced_is_gone(html, "href=\"./"@, "href=\"/"@, 0, i);
    }
    assert forall|i: int| !stands_at(page, "src=\"./"@, i) by {
        lemma_replaced_is_gone(linked, "src=\"./"@, "src=\"/"@, 0, i);
    }
    assert forall|i: int| !stands_at(page, "href=\"./"@, i) by {
        if stands_at(page, "href=\"./"@, i) {
            lemma_replaced_brings_in_nothing(
                linked,
                "src=\"./"@,
                "src=\"/"@,
                0,
                "href=\"./"@,
                i,
            );
        }
    }
}

/// The page for a nested path: the same page, with its relative asset references
/// made absolute so that they resolve there too.
pub fn cloud_login_callback_html(asset: &Option<String>, version: &str) -> (r: String)
    ensures
        r@ == absolute_page(index_page(crate::text::opt_text(*asset), version@)),
{
    let page = embedded_index_html(asset, version);
    proof {
        reveal_strlit("href=\"./");
        reveal_strlit("src=\"./");
    }
    let linked = replace(&page, "href=\"./", "href=\"/");
    replace(&linked, "src=\"./", "src=\"/")
}

/// The script that registers the service worker; a built-in one where none was
/// built.
pub fn register_sw_script(asset: &Option<String>) -> (r: String)
    ensures
        r@ == match *asset {
            Some(js) => js@,
            None =>
                "if('serviceWorker' in navigator){window.addEventListener('load',()=>{navigator.serviceWorker.register('./sw.js',{scope:'./'})})}"@,
        },
{
    match asset {
        Some(js) => js.clone(),
        None =>
            "if('serviceWorker' in navigator){window.addEventListener('load',()=>{navigator.serviceWorker.register('./sw.js',{scope:'./'})})}".to_string(),
    }
}

/// An asset of the web UI.
#[derive(Debug)]
pub struct Asset {
    pub data: Vec<u8>,
    pub mime: String,
}

/// The answer to a request for an asset.
#[derive(Debug)]
pub struct AssetReply {
    pub status: u16,
    pub content_type: Option<String>,
    pub body: Vec<u8>,
}

/// The answer to a request for an asset: the asset under its own type or the
/// given one, or that there is none.
pub fn asset_reply(asset: Option<Asset>, content_type: Option<&str>) -> (r: AssetReply)
    ensures
        match asset {
            Some(a) => r.status == 200 && r.body == a.data && r.content_type is Some
                && r.content_type->0@ == (match content_type {
                Some(t) => t@,
                None => a.mime@,
            }),
            None => r.status == 404 && r.body@.len() == 0 && r.content_type is None,
        },
{
    match asset {
        Some(a) => {
            let mime = match content_type {
                Some(t) => t.to_string(),
                None => a.mime,
            };
            AssetReply { status: 200, content_type: Some(mime), body: a.data }
        },
        None => AssetReply { status: 404, content_type: None, body: Vec::new() },
    }
}

/// The answer to a request for the service worker.
pub fn sw_js_handler(asset: Option<Asset>) -> (r: AssetReply)
    ensures
        match asset {
            Some(a) => r.status == 200 && r.body == a.data && r.content_type is Some
                && r.content_type->0@ == "application/javascript"@,
            None => r.status == 404 && r.body@.len() == 0 && r.content_type is None,
        },
{
    asset_reply(asset, Some("application/javascript"))
}

/// A text of the web UI, under its type.
#[derive(Debug)]
pub struct TextAsset {
    pub content_type: String,
    pub body: String,
}

/// The answer to a request for the script that registers the service worker.
pub fn register_sw_handler(asset: &Option<String>) -> (r: TextAsset)
    ensures
        r.content_type@ == "application/javascript"@,
        r.body@ == match *asset {
            Some(js) => js@,
            None =>
                "if('serviceWorker' in navigator){window.addEventListener('load',()=>{navigator.serviceWorker.register('./sw.js',{scope:'./'})})}"@,
        },
{
    TextAsset {
        content_type: "application/javascript".to_string(),
        body: register_sw_script(asset),
    }
}

/// The answer to a request for the manifest of the web app; an empty one where
/// none was built.
pub fn manifest_handler(asset: &Option<String>) -> (r: TextAsset)
    ensures
        r.content_type@ == "application/manifest+json"@,
        r.body@ == match *asset {
            Some(m) => m@,
            None => Seq::empty(),
        },
{
    let body = match asset {
        Some(m) => m.clone(),
        None => String::new(),
    };
    TextAsset { content_type: "application/manifest+json".to_string(), body }
}

} // verus!
