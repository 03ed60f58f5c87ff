//! Extraction of comic-strip image URLs from the fetched page.
//!
//! The page marks each strip with a wrapper element of a fixed class; the
//! full-resolution URL sits in a data attribute on the first image element
//! inside the wrapper. Parsing the HTML is the business of the `select`
//! crate; everything after the parse — turning the per-wrapper findings
//! into a URL list or into the first structural error — is verified here.

use vstd::prelude::*;

verus! {

/// What a scan of `html` finds, one entry per element carrying class
/// `class`, in document order: `None` when the element has no descendant
/// named `tag`; `Some(None)` when the first such descendant lacks the
/// attribute `attr`; `Some(Some(v))` when that attribute has value `v`.
/// The scan is a pure function of the four strings.
pub uninterp spec fn class_scan_of(
    html: Seq<char>,
    class: Seq<char>,
    tag: Seq<char>,
    attr: Seq<char>,
) -> Seq<Option<Option<Seq<char>>>>;

/// Relies on select's `Document::from(&str)`, `Document::find` with a
/// `Class` predicate, `Node::find` with a `Name` predicate and
/// `Iterator::next`, and `Node::attr`: parses `html` and reports, for each
/// element carrying class `class` in document order, the value of
/// attribute `attr` on its first descendant named `tag`.
#[verifier::external_body]
fn scan_class_tag_attr(html: &str, class: &str, tag: &str, attr: &str) -> (r: Vec<
    Option<Option<String>>,
>)
    ensures
        r.deep_view() == class_scan_of(html@, class@, tag@, attr@),
{
    let document = select::document::Document::from(html);
    document
        .find(select::predicate::Class(class))
        .map(|node| {
            node.find(select::predicate::Name(tag))
                .next()
                .map(|image| image.attr(attr).map(String::from))
        })
        .collect()
}

/// The markup deviated from the expected shape. The whole extraction is
/// abandoned at the first such wrapper: on the one page this program
/// reads, a malformed wrapper means the layout changed, not that one
/// strip is missing.
#[derive(Clone, Copy, Debug, PartialEq, Eq, Structural)]
pub enum ParseError {
    /// The wrapper element at position `wrapper` has no image descendant.
    MissingImage { wrapper: usize },
    /// The first image descendant of the wrapper element at position
    /// `wrapper` lacks the desktop-image attribute.
    MissingAttribute { wrapper: usize },
}

/// One scanned wrapper is well formed: it has an image descendant and the
/// descendant carries the attribute.
pub open spec fn wrapper_ok(s: Option<Option<Seq<char>>>) -> bool {
    s matches Some(Some(_))
}

/// Every scanned wrapper is well formed.
pub open spec fn all_wrappers_ok(scans: Seq<Option<Option<Seq<char>>>>) -> bool {
    forall|i: int| 0 <= i < scans.len() ==> wrapper_ok(#[trigger] scans[i])
}

/// The URL each wrapper contributes, in wrapper order. Meaningful only
/// when every wrapper is well formed.
pub open spec fn urls_of(scans: Seq<Option<Option<Seq<char>>>>) -> Seq<Seq<char>> {
    scans.map_values(|s: Option<Option<Seq<char>>>| s.unwrap().unwrap())
}

/// The contract tying an extraction result to the scan it came from:
/// success carries exactly the wrappers' URLs in document order and is
/// owed whenever every wrapper is well formed; failure names the first
/// malformed wrapper and how it is malformed.
pub open spec fn extraction_matches(
    scans: Seq<Option<Option<Seq<char>>>>,
    r: Result<Vec<String>, ParseError>,
) -> bool {
    match r {
        Ok(urls) => all_wrappers_ok(scans) && urls.deep_view() == urls_of(scans),
        Err(e) => match e {
            ParseError::MissingImage { wrapper } => wrapper < scans.len() && scans[wrapper as int]
                is None && all_wrappers_ok(scans.take(wrapper as int)),
            ParseError::MissingAttribute { wrapper } => wrapper < scans.len() && (
            scans[wrapper as int] matches Some(None)) && all_wrappers_ok(
                scans.take(wrapper as int),
            ),
        },
    }
}

/// Turn the per-wrapper scan results into the URL list, or into the error
/// naming the first malformed wrapper.
pub fn collect_urls(scans: &Vec<Option<Option<String>>>) -> (r: Result<Vec<String>, ParseError>)
    ensures
        extraction_matches(scans.deep_view(), r),
{
    let ghost gscans = scans.deep_view();
    let mut urls: Vec<String> = Vec::new();
    let mut i: usize = 0;
    while i < scans.len()
        invariant
            i <= scans.len(),
            gscans == scans.deep_view(),
            gscans.len() == scans.len(),
            all_wrappers_ok(gscans.take(i as int)),
            urls.deep_view() == urls_of(gscans.take(i as int)),
        decreases scans.len() - i,
    {
        match &scans[i] {
            None => {
                return Err(ParseError::MissingImage { wrapper: i });
            },
            Some(None) => {
                return Err(ParseError::MissingAttribute { wrapper: i });
            },
            Some(Some(url)) => {
                let ghost prev_urls = urls.deep_view();
                urls.push(url.clone());
                proof {
                    assert(gscans[i as int] == scans@[i as int].deep_view());
                    assert(gscans[i as int] == Some(Some(url@)));
                    assert(urls.deep_view() =~= prev_urls.push(url@));
                }
            },
        }
        proof {
            assert(wrapper_ok(gscans[i as int]));
            assert(gscans.take(i + 1 as int) =~= gscans.take(i as int).push(gscans[i as int]));
            assert(urls.deep_view() =~= urls_of(gscans.take(i + 1 as int)));
        }
        i = i + 1;
    }
    proof {
        assert(gscans.take(i as int) =~= gscans);
    }
    Ok(urls)
}

/// Parse the page and extract the desktop-resolution image URL of every
/// comic-strip wrapper element, in document order; fail on the first
/// wrapper that lacks an image or the attribute.
pub fn extract_image_urls(html: &str) -> (r: Result<Vec<String>, ParseError>)
    ensures
        extraction_matches(
            class_scan_of(html@, "quadrinho-wrapper"@, "img"@, "data-src-desktop"@),
            r,
        ),
{
    let scans = scan_class_tag_attr(html, "quadrinho-wrapper", "img", "data-src-desktop");
    collect_urls(&scans)
}

/// For a page whose scan finds `k` wrapper elements, each well formed,
/// extraction succeeds with exactly `k` URLs, the `i`-th URL being the
/// `i`-th wrapper's attribute value.
pub proof fn lemma_extraction_complete(
    scans: Seq<Option<Option<Seq<char>>>>,
    r: Result<Vec<String>, ParseError>,
)
    requires
        all_wrappers_ok(scans),
        extraction_matches(scans, r),
    ensures
        r is Ok,
        r->Ok_0.deep_view().len() == scans.len(),
        forall|i: int|
            0 <= i < scans.len() ==> r->Ok_0.deep_view()[i] == #[trigger] scans[i].unwrap().unwrap(),
{
    match r {
        Ok(urls) => {},
        Err(e) => {
            match e {
                ParseError::MissingImage { wrapper } => {
                    assert(wrapper_ok(scans[wrapper as int]));
                },
                ParseError::MissingAttribute { wrapper } => {
                    assert(wrapper_ok(scans[wrapper as int]));
                },
            }
        },
    }
}

/// For a page whose scan finds no wrapper element at all, extraction
/// succeeds with the empty URL sequence — absence of strips is not an
/// error.
pub proof fn lemma_extraction_empty(
    scans: Seq<Option<Option<Seq<char>>>>,
    r: Result<Vec<String>, ParseError>,
)
    requires
        scans.len() == 0,
        extraction_matches(scans, r),
    ensures
        r is Ok,
        r->Ok_0.deep_view().len() == 0,
{
    assert(all_wrappers_ok(scans));
    lemma_extraction_complete(scans, r);
}

} // verus!
