//! Link extraction: the `href` values of a page's anchor tags, each read as an
//! absolute URL or resolved against the page's origin.

use vstd::prelude::*;
use crate::token::{Token, LinkQueue, is_anchor_start, page_hrefs, token_hrefs};
use crate::web_url::{
    WebUrl,
    UrlError,
    parsed_url,
    joined_url,
    origin_of,
    parse_url,
    join_url,
};

verus! {

/// A link reference that is neither an absolute URL nor a relative reference
/// that resolves on the page's origin.
#[derive(Clone, Debug)]
pub struct MalformedLinkError {
    pub href: String,
}

/// The absolute URL that a link reference stands for on a page whose origin is
/// serialised as `origin`: the text itself where it parses as an absolute URL,
/// else, where it is a relative reference, its resolution on the origin.
pub open spec fn resolve(origin: Seq<char>, href: Seq<char>) -> Option<Seq<char>> {
    match parsed_url(href) {
        Ok(u) => Some(u),
        Err(UrlError::RelativeUrlWithoutBase) => match joined_url(origin, href) {
            Ok(u) => Some(u),
            Err(_) => None,
        },
        Err(UrlError::Invalid) => None,
    }
}

/// The resolutions of all link references in order, or the first one that
/// does not resolve.
pub open spec fn resolve_all(origin: Seq<char>, hrefs: Seq<Seq<char>>) -> Result<
    Seq<Seq<char>>,
    Seq<char>,
>
    decreases hrefs.len(),
{
    if hrefs.len() == 0 {
        Ok(Seq::empty())
    } else {
        match resolve_all(origin, hrefs.drop_last()) {
            Err(h) => Err(h),
            Ok(prev) => match resolve(origin, hrefs.last()) {
                Some(u) => Ok(prev.push(u)),
                None => Err(hrefs.last()),
            },
        }
    }
}

/// The links of a page at `base` whose tokens are `toks`: the URLs of its
/// anchors' `href` values in document order, or the first malformed value.
pub open spec fn extracted_links(base: Seq<char>, toks: Seq<Token>) -> Result<
    Seq<Seq<char>>,
    Seq<char>,
> {
    resolve_all(origin_of(base), page_hrefs(toks))
}

pub open spec fn urls_view(v: Seq<WebUrl>) -> Seq<Seq<char>> {
    v.map_values(|u: WebUrl| u@)
}

/// What a call of `get_links` returned, over views.
pub open spec fn links_outcome(r: Result<Vec<WebUrl>, MalformedLinkError>) -> Result<
    Seq<Seq<char>>,
    Seq<char>,
> {
    match r {
        Ok(v) => Ok(urls_view(v@)),
        Err(e) => Err(e.href@),
    }
}

proof fn lemma_resolve_all_err_extends(origin: Seq<char>, hrefs: Seq<Seq<char>>, n: int)
    requires
        0 <= n <= hrefs.len(),
        resolve_all(origin, hrefs.subrange(0, n)) is Err,
    ensures
        resolve_all(origin, hrefs) == resolve_all(origin, hrefs.subrange(0, n)),
    decreases hrefs.len() - n,
{
    if n < hrefs.len() {
        let longer = hrefs.subrange(0, n + 1);
        assert(longer.drop_last() =~= hrefs.subrange(0, n));
        assert(hrefs.subrange(0, n + 1).subrange(0, n) =~= hrefs.subrange(0, n));
        lemma_resolve_all_err_extends(origin, hrefs, n + 1);
    } else {
        assert(hrefs.subrange(0, n) =~= hrefs);
    }
}

proof fn lemma_resolve_all_ok(origin: Seq<char>, hrefs: Seq<Seq<char>>)
    requires
        resolve_all(origin, hrefs) is Ok,
    ensures
        resolve_all(origin, hrefs)->Ok_0.len() == hrefs.len(),
        forall|i: int|
            0 <= i < hrefs.len() ==> resolve(origin, #[trigger] hrefs[i]) == Some(
                resolve_all(origin, hrefs)->Ok_0[i],
            ),
    decreases hrefs.len(),
{
    if hrefs.len() > 0 {
        lemma_resolve_all_ok(origin, hrefs.drop_last());
        assert forall|i: int| 0 <= i < hrefs.len() implies resolve(origin, #[trigger] hrefs[i])
            == Some(resolve_all(origin, hrefs)->Ok_0[i]) by {
            if i < hrefs.len() - 1 {
                assert(hrefs[i] == hrefs.drop_last()[i]);
            }
        }
    }
}

proof fn lemma_no_anchor_hrefs(toks: Seq<Token>)
    requires
        forall|i: int| 0 <= i < toks.len() ==> !is_anchor_start(#[trigger] toks[i]),
    ensures
        page_hrefs(toks) == Seq::<Seq<char>>::empty(),
    decreases toks.len(),
{
    if toks.len() > 0 {
        let init = toks.drop_last();
        assert forall|i: int| 0 <= i < init.len() implies !is_anchor_start(#[trigger] init[i]) by {
            assert(init[i] == toks[i]);
        }
        lemma_no_anchor_hrefs(init);
        assert(!is_anchor_start(toks[toks.len() - 1]));
        assert(token_hrefs(toks.last()) =~= Seq::<Seq<char>>::empty());
        assert(page_hrefs(toks) =~= Seq::<Seq<char>>::empty());
    }
}

/// A page without anchor tags has no links.
pub proof fn lemma_no_anchor_no_links(base: Seq<char>, toks: Seq<Token>)
    requires
        forall|i: int| 0 <= i < toks.len() ==> !is_anchor_start(#[trigger] toks[i]),
    ensures
        extracted_links(base, toks) == Ok::<Seq<Seq<char>>, Seq<char>>(Seq::empty()),
{
    lemma_no_anchor_hrefs(toks);
}

/// A link reference that parses as an absolute URL is kept as that URL.
pub proof fn lemma_absolute_link_kept(base: Seq<char>, toks: Seq<Token>, i: int)
    requires
        0 <= i < page_hrefs(toks).len(),
        parsed_url(page_hrefs(toks)[i]) is Ok,
        extracted_links(base, toks) is Ok,
    ensures
        extracted_links(base, toks)->Ok_0.len() == page_hrefs(toks).len(),
        extracted_links(base, toks)->Ok_0[i] == parsed_url(page_hrefs(toks)[i])->Ok_0,
{
    lemma_resolve_all_ok(origin_of(base), page_hrefs(toks));
}

/// A relative link reference is resolved on the page's origin, that is the
/// page's URL with its path emptied and its query removed.
pub proof fn lemma_relative_link_on_origin(base: Seq<char>, toks: Seq<Token>, i: int)
    requires
        0 <= i < page_hrefs(toks).len(),
        parsed_url(page_hrefs(toks)[i]) == Err::<Seq<char>, UrlError>(
            UrlError::RelativeUrlWithoutBase,
        ),
        extracted_links(base, toks) is Ok,
    ensures
        extracted_links(base, toks)->Ok_0.len() == page_hrefs(toks).len(),
        joined_url(origin_of(base), page_hrefs(toks)[i]) == Ok::<
            Seq<char>,
            UrlError,
        >(extracted_links(base, toks)->Ok_0[i]),
{
    lemma_resolve_all_ok(origin_of(base), page_hrefs(toks));
}

/// A malformed link reference anywhere on a page makes the whole extraction fail.
pub proof fn lemma_malformed_link_fails(base: Seq<char>, toks: Seq<Token>, i: int)
    requires
        0 <= i < page_hrefs(toks).len(),
        resolve(origin_of(base), page_hrefs(toks)[i]) is None,
    ensures
        extracted_links(base, toks) is Err,
{
    if extracted_links(base, toks) is Ok {
        lemma_resolve_all_ok(origin_of(base), page_hrefs(toks));
    }
}

/// Extraction has no hidden state: two calls on the same page give the same result.
pub proof fn lemma_extraction_idempotent(
    url: WebUrl,
    toks: Seq<Token>,
    r1: Result<Vec<WebUrl>, MalformedLinkError>,
    r2: Result<Vec<WebUrl>, MalformedLinkError>,
)
    requires
        links_outcome(r1) == extracted_links(url@, toks),
        links_outcome(r2) == extracted_links(url@, toks),
    ensures
        links_outcome(r1) == links_outcome(r2),
{
}

/// The links of the page at `url` whose token stream is `tokens`: each `href`
/// of an anchor start tag, in document order, read as an absolute URL or
/// resolved on the page's origin. The first value that is neither is an error.
pub fn get_links(url: &WebUrl, tokens: &Vec<Token>) -> (r: Result<Vec<WebUrl>, MalformedLinkError>)
    ensures
        links_outcome(r) == extracted_links(url@, tokens@),
{
    let origin = url.origin();
    let mut queue = LinkQueue::new();
    let mut i: usize = 0;
    while i < tokens.len()
        invariant
            i <= tokens@.len(),
            queue@ == page_hrefs(tokens@.subrange(0, i as int)),
        decreases tokens@.len() - i,
    {
        queue.process_token(&tokens[i]);
        proof {
            let sub = tokens@.subrange(0, i + 1);
            assert(sub.drop_last() =~= tokens@.subrange(0, i as int));
        }
        i = i + 1;
    }
    assert(tokens@.subrange(0, tokens@.len() as int) =~= tokens@);
    let links = queue.links();
    let ghost hrefs = page_hrefs(tokens@);
    let mut out: Vec<WebUrl> = Vec::new();
    let mut j: usize = 0;
    assert(hrefs.subrange(0, 0) =~= Seq::<Seq<char>>::empty());
    assert(urls_view(out@) =~= Seq::<Seq<char>>::empty());
    while j < links.len()
        invariant
            j <= links@.len(),
            links@.map_values(|s: String| s@) == hrefs,
            hrefs == page_hrefs(tokens@),
            origin@ == origin_of(url@),
            resolve_all(origin@, hrefs.subrange(0, j as int)) == Ok::<
                Seq<Seq<char>>,
                Seq<char>,
            >(urls_view(out@)),
        decreases links@.len() - j,
    {
        let link = links[j].as_str();
        let ghost sub = hrefs.subrange(0, j + 1);
        proof {
            assert(sub.drop_last() =~= hrefs.subrange(0, j as int));
            assert(sub.last() == link@);
        }
        let resolved = match parse_url(link) {
            Ok(u) => Some(u),
            Err(UrlError::RelativeUrlWithoutBase) => match join_url(&origin, link) {
                Ok(u) => Some(u),
                Err(_) => None,
            },
            Err(UrlError::Invalid) => None,
        };
        match resolved {
            Some(u) => {
                let ghost before = out@;
                out.push(u);
                assert(urls_view(out@) =~= urls_view(before).push(u@));
            },
            None => {
                proof {
                    assert(resolve(origin@, link@) is None);
                    assert(resolve_all(origin@, sub) == Err::<Seq<Seq<char>>, Seq<char>>(
                        link@,
                    ));
                    lemma_resolve_all_err_extends(origin@, hrefs, j + 1);
                }
                let e = MalformedLinkError { href: links[j].clone() };
                assert(e.href@ == link@);
                return Err(e);
            },
        }
        j = j + 1;
    }
    assert(hrefs.subrange(0, links@.len() as int) =~= hrefs);
    Ok(out)
}

} // verus!
