//! Extracting the file-download links of a listing page: every anchor whose
//! `href` carries the download marker, in document order, each resolved
//! against the base URL. Extraction is all-or-nothing: one unresolvable
//! matching `href` fails the whole extraction.

use vstd::prelude::*;

use crate::html::anchor_hrefs;
use crate::html::anchor_hrefs_of;
use crate::text::contains_seq;
use crate::text::contains_substr;
use crate::urls::resolved_url;
use crate::urls::BaseUrl;
use crate::urls::DownloadLink;

verus! {

/// Why extraction failed: the page holds no matching anchor (the singular
/// form only), or a matching `href` — carried in the error — does not
/// resolve against the base.
#[derive(Debug, Clone, PartialEq, Eq)]
pub enum ParseError {
    NotFound,
    Unresolvable(String),
}

/// The fixed substring that marks an anchor as a file-download link.
pub open spec fn download_marker() -> Seq<char> {
    "servlet.FileDownload"@
}

/// An `href` value that points at a downloadable file.
pub open spec fn is_download_href(h: Seq<char>) -> bool {
    contains_seq(h, download_marker())
}

/// The `href` values among `hs` that carry the download marker, in order.
pub open spec fn matching_hrefs(hs: Seq<Seq<char>>) -> Seq<Seq<char>>
    decreases hs.len(),
{
    if hs.len() == 0 {
        Seq::empty()
    } else if is_download_href(hs.last()) {
        matching_hrefs(hs.drop_last()).push(hs.last())
    } else {
        matching_hrefs(hs.drop_last())
    }
}

/// The matching `href` values of the document `page`, in document order.
pub open spec fn page_download_hrefs(page: Seq<char>) -> Seq<Seq<char>> {
    matching_hrefs(anchor_hrefs_of(page))
}

/// Every `href` in `hs` resolves against `base`.
pub open spec fn all_resolvable(base: Seq<char>, hs: Seq<Seq<char>>) -> bool {
    forall|i: int| 0 <= i < hs.len() ==> resolved_url(base, #[trigger] hs[i]) is Some
}

/// Each `href` in `hs` replaced by its resolution against `base`.
pub open spec fn resolve_all(base: Seq<char>, hs: Seq<Seq<char>>) -> Seq<Seq<char>> {
    hs.map_values(|h: Seq<char>| resolved_url(base, h)->Some_0)
}

/// The serializations of a sequence of links.
pub open spec fn links_of(v: Seq<DownloadLink>) -> Seq<Seq<char>> {
    v.map_values(|l: DownloadLink| l@)
}

/// Decides whether one `href` value carries the download marker.
pub fn href_matches(h: &str) -> (b: bool)
    ensures
        b == is_download_href(h@),
{
    contains_substr(h, "servlet.FileDownload")
}

/// Appending one `href` to a prefix of the anchors extends its matching
/// subsequence by that `href` exactly when the `href` matches.
proof fn lemma_matching_step(hs: Seq<Seq<char>>, k: int)
    requires
        0 <= k < hs.len(),
    ensures
        matching_hrefs(hs.take(k + 1)) == (if is_download_href(hs[k]) {
            matching_hrefs(hs.take(k)).push(hs[k])
        } else {
            matching_hrefs(hs.take(k))
        }),
{
    assert(hs.take(k + 1).drop_last() =~= hs.take(k));
    assert(hs.take(k + 1).last() == hs[k]);
}

/// The matching subsequence of a prefix of the anchors is a prefix of the
/// whole matching subsequence.
proof fn lemma_matching_prefix(hs: Seq<Seq<char>>, k: int)
    requires
        0 <= k <= hs.len(),
    ensures
        matching_hrefs(hs.take(k)).is_prefix_of(matching_hrefs(hs)),
    decreases hs.len() - k,
{
    if k == hs.len() {
        assert(hs.take(k) =~= hs);
        assert(matching_hrefs(hs) =~= matching_hrefs(hs).subrange(
            0,
            matching_hrefs(hs).len() as int,
        ));
    } else {
        lemma_matching_step(hs, k);
        lemma_matching_prefix(hs, k + 1);
        let a = matching_hrefs(hs.take(k));
        let b = matching_hrefs(hs.take(k + 1));
        let c = matching_hrefs(hs);
        assert(a.is_prefix_of(b)) by {
            assert(a =~= b.subrange(0, a.len() as int));
        }
        assert(a =~= c.subrange(0, a.len() as int));
    }
}

/// Extracts every file-download link of `page`, in document order, each
/// resolved against `base`. A page without matching anchors yields the
/// empty sequence; a matching `href` that does not resolve fails the whole
/// extraction, naming the first such `href`.
pub fn extract_download_links(page: &str, base: &BaseUrl) -> (r: Result<
    Vec<DownloadLink>,
    ParseError,
>)
    ensures
        ({
            let ms = page_download_hrefs(page@);
            &&& (r is Ok <==> all_resolvable(base@, ms))
            &&& (r matches Ok(v) ==> links_of(v@) == resolve_all(base@, ms))
            &&& (r matches Err(e) ==> e matches ParseError::Unresolvable(h) && (exists|i: int|
                {
                    &&& 0 <= i < ms.len()
                    &&& ms[i] == h@
                    &&& resolved_url(base@, ms[i]) is None
                    &&& forall|j: int| 0 <= j < i ==> resolved_url(base@, #[trigger] ms[j]) is Some
                }))
        }),
{
    let hrefs = anchor_hrefs(page);
    let ghost hv = anchor_hrefs_of(page@);
    let ghost ms = page_download_hrefs(page@);
    let mut out: Vec<DownloadLink> = Vec::new();
    let mut k: usize = 0;
    while k < hrefs.len()
        invariant
            hrefs@.len() == hv.len(),
            forall|i: int| 0 <= i < hv.len() ==> (#[trigger] hrefs@[i])@ == hv[i],
            hv == anchor_hrefs_of(page@),
            ms == page_download_hrefs(page@),
            0 <= k <= hv.len(),
            all_resolvable(base@, matching_hrefs(hv.take(k as int))),
            links_of(out@) == resolve_all(base@, matching_hrefs(hv.take(k as int))),
        decreases hv.len() - k,
    {
        let href = &hrefs[k];
        let ghost prev = matching_hrefs(hv.take(k as int));
        proof {
            lemma_matching_step(hv, k as int);
        }
        if href_matches(href.as_str()) {
            match base.join(href.as_str()) {
                Some(resolved) => {
                    let ghost old_out = out@;
                    out.push(DownloadLink::new(resolved));
                    proof {
                        assert(links_of(out@) =~= links_of(old_out).push(out@.last()@));
                        assert(resolve_all(base@, prev.push(hv[k as int])) =~= resolve_all(
                            base@,
                            prev,
                        ).push(resolved_url(base@, hv[k as int])->Some_0));
                    }
                },
                None => {
                    proof {
                        lemma_matching_prefix(hv, k as int + 1);
                        let taken = matching_hrefs(hv.take(k as int + 1));
                        let i = prev.len() as int;
                        assert(taken =~= ms.subrange(0, taken.len() as int));
                        assert(ms[i] == taken[i]);
                        assert(forall|j: int|
                            0 <= j < i ==> resolved_url(base@, #[trigger] ms[j]) is Some) by {
                            assert(forall|j: int| 0 <= j < i ==> ms[j] == taken[j] && taken[j]
                                == prev[j]);
                        }
                        assert(!all_resolvable(base@, ms));
                    }
                    return Err(ParseError::Unresolvable(href.clone()));
                },
            }
        }
        k += 1;
    }
    proof {
        assert(hv.take(hv.len() as int) =~= hv);
    }
    Ok(out)
}

/// Extracts the first file-download link of `page`, resolved against
/// `base`: the single-file form of extraction. A page without matching
/// anchors is an error here, unlike in the plural form.
pub fn extract_download_link(page: &str, base: &BaseUrl) -> (r: Result<DownloadLink, ParseError>)
    ensures
        ({
            let ms = page_download_hrefs(page@);
            &&& (ms.len() == 0 ==> r == Err::<DownloadLink, ParseError>(ParseError::NotFound))
            &&& (ms.len() > 0 && resolved_url(base@, ms[0]) is Some ==> (r matches Ok(l) && Some(
                l@,
            ) == resolved_url(base@, ms[0])))
            &&& (ms.len() > 0 && resolved_url(base@, ms[0]) is None ==> (r matches Err(e)
                && e matches ParseError::Unresolvable(h) && h@ == ms[0]))
        }),
{
    let hrefs = anchor_hrefs(page);
    let ghost hv = anchor_hrefs_of(page@);
    let ghost ms = page_download_hrefs(page@);
    let mut k: usize = 0;
    while k < hrefs.len()
        invariant
            hrefs@.len() == hv.len(),
            forall|i: int| 0 <= i < hv.len() ==> (#[trigger] hrefs@[i])@ == hv[i],
            hv == anchor_hrefs_of(page@),
            ms == page_download_hrefs(page@),
            0 <= k <= hv.len(),
            matching_hrefs(hv.take(k as int)).len() == 0,
        decreases hv.len() - k,
    {
        let href = &hrefs[k];
        proof {
            lemma_matching_step(hv, k as int);
        }
        if href_matches(href.as_str()) {
            proof {
                lemma_matching_prefix(hv, k as int + 1);
                let taken = matching_hrefs(hv.take(k as int + 1));
                assert(taken =~= ms.subrange(0, taken.len() as int));
                assert(ms[0] == taken[0]);
                assert(taken[0] == hv[k as int]);
            }
            match base.join(href.as_str()) {
                Some(resolved) => {
                    return Ok(DownloadLink::new(resolved));
                },
                None => {
                    return Err(ParseError::Unresolvable(href.clone()));
                },
            }
        }
        k += 1;
    }
    proof {
        assert(hv.take(hv.len() as int) =~= hv);
    }
    Err(ParseError::NotFound)
}

/// A page with no matching anchor resolves to the empty link sequence:
/// with the extraction contracts, the plural form then returns `Ok` of an
/// empty sequence, and the singular form the not-found error.
pub proof fn lemma_no_match_extraction(base: Seq<char>, page: Seq<char>)
    requires
        page_download_hrefs(page).len() == 0,
    ensures
        all_resolvable(base, page_download_hrefs(page)),
        resolve_all(base, page_download_hrefs(page)) == Seq::<Seq<char>>::empty(),
{
    assert(resolve_all(base, page_download_hrefs(page)) =~= Seq::<Seq<char>>::empty());
}

/// Each position of an extracted sequence carries exactly the resolution
/// of the matching `href` at that position against the base, under the
/// URL-resolution rules that `resolved_url` names.
pub proof fn lemma_links_are_resolutions(base: Seq<char>, hs: Seq<Seq<char>>, i: int)
    requires
        0 <= i < hs.len(),
    ensures
        resolve_all(base, hs).len() == hs.len(),
        resolve_all(base, hs)[i] == resolved_url(base, hs[i])->Some_0,
{
}

/// The position of the anchor at `i` within the matching subsequence, for
/// a matching anchor.
pub open spec fn match_pos(hs: Seq<Seq<char>>, i: int) -> int {
    matching_hrefs(hs.take(i + 1)).len() - 1
}

/// Every `href` that extraction keeps carries the download marker: nothing
/// but file-download anchors reaches the extracted sequence.
pub proof fn lemma_matching_hrefs_match(hs: Seq<Seq<char>>, p: int)
    requires
        0 <= p < matching_hrefs(hs).len(),
    ensures
        is_download_href(matching_hrefs(hs)[p]),
    decreases hs.len(),
{
    if hs.len() > 0 {
        if !is_download_href(hs.last()) || p < matching_hrefs(hs).len() - 1 {
            lemma_matching_hrefs_match(hs.drop_last(), p);
        }
    }
}

/// Every anchor that carries the download marker appears in the extracted
/// sequence, at its document-order position among the matching anchors.
pub proof fn lemma_matching_anchor_appears(hs: Seq<Seq<char>>, i: int)
    requires
        0 <= i < hs.len(),
        is_download_href(hs[i]),
    ensures
        0 <= match_pos(hs, i) < matching_hrefs(hs).len(),
        matching_hrefs(hs)[match_pos(hs, i)] == hs[i],
{
    lemma_matching_step(hs, i);
    lemma_matching_prefix(hs, i + 1);
    let ti = matching_hrefs(hs.take(i + 1));
    assert(ti =~= matching_hrefs(hs).subrange(0, ti.len() as int));
    assert(matching_hrefs(hs)[match_pos(hs, i)] == ti[ti.len() - 1]);
}

/// Extraction preserves document order: two matching anchors stand in the
/// extracted sequence at positions ordered as in the document, and each
/// position carries that anchor's resolution against the base.
pub proof fn lemma_extraction_preserves_order(base: Seq<char>, hs: Seq<Seq<char>>, i: int, j: int)
    requires
        0 <= i < j < hs.len(),
        is_download_href(hs[i]),
        is_download_href(hs[j]),
    ensures
        ({
            let ms = matching_hrefs(hs);
            &&& 0 <= match_pos(hs, i) < match_pos(hs, j) < ms.len()
            &&& ms[match_pos(hs, i)] == hs[i]
            &&& ms[match_pos(hs, j)] == hs[j]
            &&& resolve_all(base, ms)[match_pos(hs, i)] == resolved_url(base, hs[i])->Some_0
            &&& resolve_all(base, ms)[match_pos(hs, j)] == resolved_url(base, hs[j])->Some_0
        }),
{
    lemma_matching_step(hs, i);
    lemma_matching_step(hs, j);
    lemma_matching_prefix(hs, i + 1);
    lemma_matching_prefix(hs, j + 1);
    lemma_matching_len_monotone(hs, i + 1, j);
    let ms = matching_hrefs(hs);
    let ti = matching_hrefs(hs.take(i + 1));
    let tj = matching_hrefs(hs.take(j + 1));
    assert(ti =~= ms.subrange(0, ti.len() as int));
    assert(tj =~= ms.subrange(0, tj.len() as int));
    assert(ms[match_pos(hs, i)] == ti[ti.len() - 1]);
    assert(ms[match_pos(hs, j)] == tj[tj.len() - 1]);
    assert(tj.len() - 1 == matching_hrefs(hs.take(j)).len());
}

/// A longer prefix of the anchors never has fewer matches.
proof fn lemma_matching_len_monotone(hs: Seq<Seq<char>>, a: int, b: int)
    requires
        0 <= a <= b <= hs.len(),
    ensures
        matching_hrefs(hs.take(a)).len() <= matching_hrefs(hs.take(b)).len(),
    decreases b - a,
{
    if a < b {
        lemma_matching_step(hs, a);
        lemma_matching_len_monotone(hs, a + 1, b);
    }
}

} // verus!
