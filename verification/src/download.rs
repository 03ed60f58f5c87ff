//! Pairing fetched image bodies with the URLs they came from.
//!
//! The downloader fetches one body per URL, strictly in order and failing
//! the whole batch on the first error; the network calls themselves happen
//! outside the library. What is verified here is the index correspondence
//! the viewer depends on: the bundle has one image per URL, the `i`-th
//! image holds exactly the `i`-th fetched body, and it remembers the
//! `i`-th URL.

use vstd::prelude::*;

verus! {

/// One downloaded strip: the raw image bytes and the URL they came from.
pub struct DownloadedImage {
    /// The image URL the bytes were fetched from.
    pub url: String,
    /// The raw bytes of the image, exactly as fetched.
    pub bytes: Vec<u8>,
}

/// Pair each URL with the body fetched for it, in input order.
///
/// The result has one entry per URL; its `i`-th entry carries the `i`-th
/// URL and, byte for byte, the `i`-th body.
pub fn bundle_images(urls: &Vec<String>, bodies: Vec<Vec<u8>>) -> (r: Vec<DownloadedImage>)
    requires
        urls@.len() == bodies@.len(),
    ensures
        r@.len() == urls@.len(),
        forall|i: int|
            0 <= i < r@.len() ==> #[trigger] r@[i].url@ == urls@[i]@ && r@[i].bytes == bodies@[i],
{
    let ghost gbodies = bodies@;
    let mut rest = bodies;
    let mut out: Vec<DownloadedImage> = Vec::new();
    let mut i: usize = 0;
    while i < urls.len()
        invariant
            i <= urls.len(),
            urls@.len() == gbodies.len(),
            rest@ =~= gbodies.skip(i as int),
            out@.len() == i,
            forall|j: int|
                0 <= j < i ==> #[trigger] out@[j].url@ == urls@[j]@ && out@[j].bytes == gbodies[j],
        decreases urls.len() - i,
    {
        let body = rest.remove(0);
        proof {
            assert(body == gbodies[i as int]);
            assert(gbodies.skip(i as int).remove(0) =~= gbodies.skip(i + 1 as int));
        }
        let entry = DownloadedImage { url: urls[i].clone(), bytes: body };
        out.push(entry);
        i = i + 1;
    }
    out
}

} // verus!
