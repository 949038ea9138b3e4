//! Link and text extraction from a fetched page. The HTML parser (the `tl`
//! crate) is the external collaborator: it yields the `href` values of the
//! page's anchors and the raw text of its text-bearing tags. Resolving each
//! href against the page URL and tokenizing the text are this crate's own,
//! verified logic.

use vstd::prelude::*;
use vstd::string::*;
use crate::urls::{CrawlUrl, UrlModel, resolve_spec, resolve_href};

verus! {

/// The `href` attribute values of the anchor tags of a page, in document
/// order, as `tl` parses it.
pub uninterp spec fn hrefs_of(body: Seq<char>) -> Seq<Seq<char>>;

/// The text content of the anchor, paragraph, heading and inline-span tags
/// of a page, in document order, as `tl` parses it.
pub uninterp spec fn texts_of(body: Seq<char>) -> Seq<Seq<char>>;

/// What `String::from_utf8_lossy` decodes from arbitrary bytes (invalid
/// sequences become replacement characters).
pub uninterp spec fn lossy_of(bytes: Seq<u8>) -> Seq<char>;

/// What `str::to_lowercase` makes of a string.
pub uninterp spec fn lower_of(s: Seq<char>) -> Seq<char>;

/// The whitespace-separated tokens of a string, as `str::split_whitespace`
/// yields them.
pub uninterp spec fn ws_tokens_of(s: Seq<char>) -> Seq<Seq<char>>;

/// Relies on `tl::parse` and its query API (`VDom::query_selector`,
/// `NodeHandle::get`, `HTMLTag::attributes`, `Bytes::as_utf8_str`): the
/// `href` values of the page's anchor tags, in order; an unparseable page
/// yields none. A function of the body alone.
#[verifier::external_body]
fn html_hrefs(body: &str) -> (r: Vec<String>)
    ensures
        r.deep_view() == hrefs_of(body@),
{
    let mut out = Vec::new();
    if let Ok(dom) = tl::parse(body, tl::ParserOptions::default()) {
        let p = dom.parser();
        if let Some(them) = dom.query_selector("a") {
            for it in them {
                if let Some(tl::Node::Tag(tag)) = it.get(p) {
                    if let Some(Some(a)) = tag.attributes().get("href") {
                        out.push(a.as_utf8_str().into_owned());
                    }
                }
            }
        }
    }
    out
}

/// Relies on `tl::parse` and its query API (`VDom::query_selector`,
/// `NodeHandle::get`, `Node::inner_text`): the text content of the page's
/// anchor, paragraph, heading and span tags, in order; an unparseable page
/// yields none. A function of the body alone.
#[verifier::external_body]
fn html_texts(body: &str) -> (r: Vec<String>)
    ensures
        r.deep_view() == texts_of(body@),
{
    let mut out = Vec::new();
    if let Ok(dom) = tl::parse(body, tl::ParserOptions::default()) {
        let p = dom.parser();
        if let Some(them) = dom.query_selector("a, p, h1, h2, h3, h4, h5, h6, span") {
            for it in them {
                if let Some(node) = it.get(p) {
                    out.push(node.inner_text(p).into_owned());
                }
            }
        }
    }
    out
}

/// Relies on `String::from_utf8_lossy`: validated text decoding of fetched
/// bytes, invalid sequences replaced; a function of the bytes alone.
#[verifier::external_body]
fn utf8_lossy(bytes: &Vec<u8>) -> (r: String)
    ensures
        r@ == lossy_of(bytes@),
{
    String::from_utf8_lossy(bytes.as_slice()).into_owned()
}

/// Relies on `str::to_lowercase`: the Unicode lowercase form, a function of
/// the characters alone.
#[verifier::external_body]
fn lower(s: &str) -> (r: String)
    ensures
        r@ == lower_of(s@),
{
    s.to_lowercase()
}

/// Relies on `str::split_whitespace`: the maximal runs of
/// non-whitespace characters, in order; a function of the characters alone.
#[verifier::external_body]
fn split_ws(s: &str) -> (r: Vec<String>)
    ensures
        r.deep_view() == ws_tokens_of(s@),
{
    s.split_whitespace().map(|w| w.to_owned()).collect()
}

/// Decode a fetched body for parsing and tallying.
pub fn body_text(bytes: &Vec<u8>) -> (r: String)
    ensures
        r@ == lossy_of(bytes@),
{
    utf8_lossy(bytes)
}

/// The links a page yields: each href resolved against the page URL,
/// unresolvable ones dropped, order kept.
pub open spec fn links_spec(base: Seq<char>, hrefs: Seq<Seq<char>>) -> Seq<UrlModel>
    decreases hrefs.len(),
{
    if hrefs.len() == 0 {
        Seq::empty()
    } else {
        links_spec(base, hrefs.drop_last()) + match resolve_spec(base, hrefs.last()) {
            Some(u) => seq![u],
            None => Seq::empty(),
        }
    }
}

/// Extract and resolve every anchor of a page: exactly the resolvable
/// hrefs, each resolved against `page`, in order.
pub fn extract_links(page: &CrawlUrl, body: &str) -> (r: Vec<CrawlUrl>)
    ensures
        r@.map_values(|u: CrawlUrl| u@) == links_spec(page@.text, hrefs_of(body@)),
{
    let hrefs = html_hrefs(body);
    let ghost hv = hrefs.deep_view();
    let mut out: Vec<CrawlUrl> = Vec::new();
    let n = hrefs.len();
    let mut i: usize = 0;
    while i < n
        invariant
            n == hrefs.len(),
            hv == hrefs.deep_view(),
            hv == hrefs_of(body@),
            i <= n,
            out@.map_values(|u: CrawlUrl| u@) == links_spec(page@.text, hv.take(i as int)),
        decreases n - i,
    {
        assert(hv[i as int] == hrefs@[i as int]@);
        let ghost prefix = hv.take(i as int);
        let ghost step = hv.take(i + 1);
        assert(step.drop_last() =~= prefix);
        assert(step.last() == hv[i as int]);
        match resolve_href(page, hrefs[i].as_str()) {
            Some(u) => {
                out.push(u);
                assert(out@.map_values(|u: CrawlUrl| u@) =~= links_spec(page@.text, step));
            }
            None => {
                assert(out@.map_values(|u: CrawlUrl| u@) =~= links_spec(page@.text, step));
            }
        }
        i += 1;
    }
    proof {
        assert(hv.take(n as int) =~= hv);
    }
    out
}

/// The tally tokens of a page: every whitespace-separated token of every
/// extracted text, lowercased, in order.
pub open spec fn tokens_spec(texts: Seq<Seq<char>>) -> Seq<Seq<char>>
    decreases texts.len(),
{
    if texts.len() == 0 {
        Seq::empty()
    } else {
        tokens_spec(texts.drop_last()) + ws_tokens_of(texts.last()).map_values(
            |t: Seq<char>| lower_of(t),
        )
    }
}

/// Tokenize a page for the word tally: split each text-bearing tag's text
/// on whitespace and lowercase every token.
pub fn page_tokens(body: &str) -> (r: Vec<String>)
    ensures
        r.deep_view() == tokens_spec(texts_of(body@)),
{
    let texts = html_texts(body);
    let ghost tv = texts.deep_view();
    let mut out: Vec<String> = Vec::new();
    let n = texts.len();
    let mut i: usize = 0;
    while i < n
        invariant
            n == texts.len(),
            tv == texts.deep_view(),
            tv == texts_of(body@),
            i <= n,
            out.deep_view() == tokens_spec(tv.take(i as int)),
        decreases n - i,
    {
        assert(tv[i as int] == texts@[i as int]@);
        let toks = split_ws(texts[i].as_str());
        let ghost tk = toks.deep_view();
        let m = toks.len();
        let mut j: usize = 0;
        proof {
            assert(tk.take(0).map_values(|t: Seq<char>| lower_of(t))
                =~= Seq::<Seq<char>>::empty());
            assert(out.deep_view() =~= tokens_spec(tv.take(i as int)) + tk.take(0).map_values(
                |t: Seq<char>| lower_of(t),
            ));
        }
        while j < m
            invariant
                m == toks.len(),
                tk == toks.deep_view(),
                tk == ws_tokens_of(tv[i as int]),
                j <= m,
                i < n,
                tv == texts_of(body@),
                out.deep_view() == tokens_spec(tv.take(i as int)) + tk.take(j as int)
                    .map_values(|t: Seq<char>| lower_of(t)),
            decreases m - j,
        {
            assert(tk[j as int] == toks@[j as int]@);
            let ghost old_dv = out.deep_view();
            let low = lower(toks[j].as_str());
            out.push(low);
            proof {
                assert(out.deep_view() =~= old_dv.push(lower_of(tk[j as int])));
                assert(tk.take(j + 1).map_values(|t: Seq<char>| lower_of(t)) =~= tk.take(
                    j as int,
                ).map_values(|t: Seq<char>| lower_of(t)).push(lower_of(tk[j as int])));
                assert(out.deep_view() =~= tokens_spec(tv.take(i as int)) + tk.take(j + 1)
                    .map_values(|t: Seq<char>| lower_of(t)));
            }
            j += 1;
        }
        proof {
            assert(tk.take(m as int) =~= tk);
            assert(tv.take(i + 1).drop_last() =~= tv.take(i as int));
            assert(tv.take(i + 1).last() == tv[i as int]);
            assert(out.deep_view() =~= tokens_spec(tv.take(i + 1)));
        }
        i += 1;
    }
    proof {
        assert(tv.take(n as int) =~= tv);
    }
    out
}

} // verus!
