//! Laws on the markup of the HTML report: which elements it opens, and how
//! many, whatever the text of the report holds.

use vstd::prelude::*;

use crate::check::{self, CheckReport};
use crate::policy::{PolicyResult, Violation};
use crate::render::html::{
    self, escaped, failing_note, holds_at, html_document, location_html, pass_class, policies_html,
    policy_html, policy_status, violation_html, violations_html, PAGE_0, PAGE_1, PAGE_10, PAGE_11,
    PAGE_12, PAGE_2, PAGE_3, PAGE_4, PAGE_5, PAGE_6, PAGE_7, PAGE_8, PAGE_9, SECTION_0, SECTION_1,
    SECTION_2, SECTION_3, SECTION_4, STYLES,
};
use crate::text;

verus! {

/// Occurrences of `p` starting before position `n` of `s`.
pub open spec fn occ_upto(s: Seq<char>, p: Seq<char>, n: int) -> nat
    decreases n,
{
    if n <= 0 {
        0
    } else {
        occ_upto(s, p, n - 1) + if holds_at(s, n - 1, p) {
            1nat
        } else {
            0nat
        }
    }
}

/// Number of places where `p` occurs in `s`.
pub open spec fn occurrences(s: Seq<char>, p: Seq<char>) -> nat {
    occ_upto(s, p, s.len() as int)
}

/// The start of an element: `<` followed by characters other than `<`.
pub open spec fn tag_pattern(p: Seq<char>) -> bool {
    &&& p.len() >= 1
    &&& p[0] == '<'
    &&& forall|i: int| 1 <= i < p.len() ==> p[i] != '<'
}

/// Whether `a` ends with a proper, non-empty beginning of `p`.
pub open spec fn partial(a: Seq<char>, p: Seq<char>) -> bool {
    exists|k: int|
        1 <= k < p.len() && k <= a.len() && #[trigger] a.subrange(a.len() - k, a.len() as int)
            == p.subrange(0, k)
}

proof fn lemma_holds_chars(s: Seq<char>, i: int, p: Seq<char>, k: int)
    requires
        holds_at(s, i, p),
        0 <= k < p.len(),
    ensures
        s[i + k] == p[k],
{
    assert(s.subrange(i, i + p.len())[k] == s[i + k]);
}

proof fn lemma_occ_none(s: Seq<char>, p: Seq<char>, n: int)
    requires
        forall|i: int| 0 <= i < n ==> !holds_at(s, i, p),
    ensures
        occ_upto(s, p, n) == 0,
    decreases n,
{
    if n > 0 {
        lemma_occ_none(s, p, n - 1);
    }
}

proof fn lemma_occ_single(s: Seq<char>, p: Seq<char>, k0: int, n: int)
    requires
        0 <= k0 < n,
        holds_at(s, k0, p),
        forall|i: int| 0 <= i < n && holds_at(s, i, p) ==> i == k0,
    ensures
        occ_upto(s, p, n) == 1,
    decreases n,
{
    if n - 1 == k0 {
        lemma_occ_none(s, p, n - 1);
    } else {
        lemma_occ_single(s, p, k0, n - 1);
    }
}

proof fn lemma_occ_front(a: Seq<char>, b: Seq<char>, p: Seq<char>, n: int)
    requires
        tag_pattern(p),
        !partial(a, p),
        0 <= n <= a.len(),
    ensures
        occ_upto(a + b, p, n) == occ_upto(a, p, n),
    decreases n,
{
    if n > 0 {
        lemma_occ_front(a, b, p, n - 1);
        let i = n - 1;
        let s = a + b;
        if i + p.len() <= a.len() {
            assert(s.subrange(i, i + p.len()) =~= a.subrange(i, i + p.len()));
        } else if holds_at(s, i, p) {
            let k = a.len() - i;
            assert(a.subrange(a.len() - k, a.len() as int) =~= p.subrange(0, k)) by {
                assert forall|j: int| 0 <= j < k implies a.subrange(a.len() - k, a.len() as int)[j]
                    == p.subrange(0, k)[j] by {
                    lemma_holds_chars(s, i, p, j);
                }
            }
            assert(!partial(a, p));
        }
    }
}

proof fn lemma_occ_back(a: Seq<char>, b: Seq<char>, p: Seq<char>, n: int)
    requires
        0 <= n <= b.len(),
    ensures
        occ_upto(a + b, p, a.len() + n) == occ_upto(a + b, p, a.len() as int) + occ_upto(b, p, n),
    decreases n,
{
    if n > 0 {
        lemma_occ_back(a, b, p, n - 1);
        let s = a + b;
        let i = a.len() + n - 1;
        if i + p.len() <= s.len() {
            assert(s.subrange(i, i + p.len()) =~= b.subrange(n - 1, n - 1 + p.len()));
        }
    }
}

/// Occurrences of an element start add up over a concatenation, when the
/// first part does not end inside one.
pub proof fn lemma_occ_add(a: Seq<char>, b: Seq<char>, p: Seq<char>)
    requires
        tag_pattern(p),
        !partial(a, p),
    ensures
        occurrences(a + b, p) == occurrences(a, p) + occurrences(b, p),
{
    lemma_occ_front(a, b, p, a.len() as int);
    lemma_occ_back(a, b, p, b.len() as int);
}

/// Ending inside an element start survives no concatenation of two parts
/// that do not.
pub proof fn lemma_partial_add(y: Seq<char>, x: Seq<char>, p: Seq<char>)
    requires
        tag_pattern(p),
        !partial(y, p),
        !partial(x, p),
    ensures
        !partial(y + x, p),
{
    let s = y + x;
    if partial(s, p) {
        let k = choose|k: int|
            1 <= k < p.len() && k <= s.len() && #[trigger] s.subrange(s.len() - k, s.len() as int)
                == p.subrange(0, k);
        let t = s.subrange(s.len() - k, s.len() as int);
        if k <= x.len() {
            assert(x.subrange(x.len() - k, x.len() as int) =~= t);
        } else {
            let m = k - x.len();
            if x.contains('<') {
                let j = choose|j: int| 0 <= j < x.len() && x[j] == '<';
                assert(t[m + j] == x[j]);
                assert(p.subrange(0, k)[m + j] == p[m + j]);
            } else {
                assert(y.subrange(y.len() - m, y.len() as int) =~= p.subrange(0, m)) by {
                    assert forall|j: int| 0 <= j < m implies y.subrange(y.len() - m, y.len() as int)[j]
                        == p.subrange(0, m)[j] by {
                        assert(t[j] == y[y.len() - m + j]);
                        assert(p.subrange(0, k)[j] == p[j]);
                    }
                }
            }
        }
    }
}

/// Text without `<` holds no element start and does not end inside one.
pub proof fn lemma_plain_text(s: Seq<char>, p: Seq<char>)
    requires
        tag_pattern(p),
        !s.contains('<'),
    ensures
        occurrences(s, p) == 0,
        !partial(s, p),
{
    assert forall|i: int| 0 <= i < s.len() implies !holds_at(s, i, p) by {
        if holds_at(s, i, p) {
            lemma_holds_chars(s, i, p, 0);
        }
    }
    lemma_occ_none(s, p, s.len() as int);
    if partial(s, p) {
        let k = choose|k: int|
            1 <= k < p.len() && k <= s.len() && #[trigger] s.subrange(s.len() - k, s.len() as int)
                == p.subrange(0, k);
        assert(s.subrange(s.len() - k, s.len() as int)[0] == p.subrange(0, k)[0]);
    }
}


proof fn lemma_step(acc: Seq<char>, x: Seq<char>, p: Seq<char>)
    requires
        tag_pattern(p),
        !partial(acc, p),
        !partial(x, p),
    ensures
        occurrences(acc + x, p) == occurrences(acc, p) + occurrences(x, p),
        !partial(acc + x, p),
{
    lemma_occ_add(acc, x, p);
    lemma_partial_add(acc, x, p);
}

/// Whether, within the first five characters after position `i`, `s`
/// differs from `p` (inside both).
pub open spec fn lead_mismatch(s: Seq<char>, i: int, p: Seq<char>) -> bool {
    ||| (i + 1 < s.len() && 1 < p.len() && s[i + 1] != p[1])
    ||| (i + 2 < s.len() && 2 < p.len() && s[i + 2] != p[2])
    ||| (i + 3 < s.len() && 3 < p.len() && s[i + 3] != p[3])
    ||| (i + 4 < s.len() && 4 < p.len() && s[i + 4] != p[4])
}

/// A text whose every `<` other than at `skip` soon departs from `p`
/// holds `p` nowhere else and does not end inside it.
proof fn lemma_scan(c: Seq<char>, p: Seq<char>, skip: int)
    requires
        tag_pattern(p),
        forall|i: int| 0 <= i < c.len() && i != skip && c[i] == '<' ==> #[trigger] lead_mismatch(c, i, p),
        0 <= skip < c.len() ==> skip + p.len() <= c.len(),
    ensures
        forall|i: int| 0 <= i < c.len() && i != skip ==> !holds_at(c, i, p),
        !partial(c, p),
{
    assert forall|i: int| 0 <= i < c.len() && i != skip implies !holds_at(c, i, p) by {
        if holds_at(c, i, p) {
            lemma_holds_chars(c, i, p, 0);
            assert(lead_mismatch(c, i, p));
            if 1 < p.len() {
                lemma_holds_chars(c, i, p, 1);
            }
            if 2 < p.len() {
                lemma_holds_chars(c, i, p, 2);
            }
            if 3 < p.len() {
                lemma_holds_chars(c, i, p, 3);
            }
            if 4 < p.len() {
                lemma_holds_chars(c, i, p, 4);
            }
        }
    }
    if partial(c, p) {
        let k = choose|k: int|
            1 <= k < p.len() && k <= c.len() && #[trigger] c.subrange(c.len() - k, c.len() as int)
                == p.subrange(0, k);
        let t = c.subrange(c.len() - k, c.len() as int);
        let i = c.len() - k;
        assert(t[0] == p.subrange(0, k)[0]);
        assert(c[i] == '<');
        assert(i != skip);
        assert(lead_mismatch(c, i, p));
        assert forall|j: int| 0 <= j < k implies c[i + j] == p[j] by {
            assert(t[j] == p.subrange(0, k)[j]);
        }
    }
}

/// A text holding `p` nowhere, and not ending inside it.
pub open spec fn lacks(c: Seq<char>, p: Seq<char>) -> bool {
    occurrences(c, p) == 0 && !partial(c, p)
}

/// A text holding `p` once, and not ending inside it.
pub open spec fn holds_once(c: Seq<char>, p: Seq<char>) -> bool {
    occurrences(c, p) == 1 && !partial(c, p)
}

proof fn lemma_scan_none(c: Seq<char>, p: Seq<char>)
    requires
        tag_pattern(p),
        forall|i: int| 0 <= i < c.len() && c[i] == '<' ==> #[trigger] lead_mismatch(c, i, p),
    ensures
        lacks(c, p),
{
    lemma_scan(c, p, -1);
    lemma_occ_none(c, p, c.len() as int);
}

proof fn lemma_scan_once(c: Seq<char>, p: Seq<char>, k0: int)
    requires
        tag_pattern(p),
        0 <= k0 < c.len(),
        holds_at(c, k0, p),
        forall|i: int| 0 <= i < c.len() && i != k0 && c[i] == '<' ==> #[trigger] lead_mismatch(c, i, p),
    ensures
        holds_once(c, p),
{
    lemma_scan(c, p, k0);
    lemma_occ_single(c, p, k0, c.len() as int);
}

/// The start of a list item: `<li>`.
pub open spec fn li_tag() -> Seq<char> {
    seq!['<', 'l', 'i', '>']
}

/// The start of a section: `<section`.
pub open spec fn section_tag() -> Seq<char> {
    seq!['<', 's', 'e', 'c', 't', 'i', 'o', 'n']
}

/// The start of a script: `<script`.
pub open spec fn script_tag() -> Seq<char> {
    seq!['<', 's', 'c', 'r', 'i', 'p', 't']
}

/// The start of a link to another resource: `<link`.
pub open spec fn link_tag() -> Seq<char> {
    seq!['<', 'l', 'i', 'n', 'k']
}

/// The start of an image: `<img`.
pub open spec fn img_tag() -> Seq<char> {
    seq!['<', 'i', 'm', 'g']
}

/// The start of an embedded frame: `<iframe`.
pub open spec fn iframe_tag() -> Seq<char> {
    seq!['<', 'i', 'f', 'r', 'a', 'm', 'e']
}

/// The start of a hyperlink: `<a`.
pub open spec fn anchor_tag() -> Seq<char> {
    seq!['<', 'a']
}

/// The start of the footer link to the project page: `<a href="https://github.com/dreynow/dbt-fleet">`.
pub open spec fn footer_link() -> Seq<char> {
    seq!['<', 'a', ' ', 'h', 'r', 'e', 'f', '=', '"', 'h', 't', 't', 'p', 's', ':', '/', '/', 'g', 'i', 't', 'h', 'u', 'b', '.', 'c', 'o', 'm', '/', 'd', 'r', 'e', 'y', 'n', 'o', 'w', '/', 'd', 'b', 't', '-', 'f', 'l', 'e', 'e', 't', '"', '>']
}

proof fn lemma_patterns()
    ensures
        tag_pattern(li_tag()),
        tag_pattern(section_tag()),
        tag_pattern(script_tag()),
        tag_pattern(link_tag()),
        tag_pattern(img_tag()),
        tag_pattern(iframe_tag()),
        tag_pattern(anchor_tag()),
        tag_pattern(footer_link()),
{
    assert(tag_pattern(li_tag()));
    assert(tag_pattern(section_tag()));
    assert(tag_pattern(script_tag()));
    assert(tag_pattern(link_tag()));
    assert(tag_pattern(img_tag()));
    assert(tag_pattern(iframe_tag()));
    assert(tag_pattern(anchor_tag()));
    assert(tag_pattern(footer_link()));
}

proof fn lemma_piece_page_0()
    ensures
        lacks(PAGE_0@, li_tag()),
        lacks(PAGE_0@, section_tag()),
        lacks(PAGE_0@, script_tag()),
        lacks(PAGE_0@, link_tag()),
        lacks(PAGE_0@, img_tag()),
        lacks(PAGE_0@, iframe_tag()),
        lacks(PAGE_0@, anchor_tag()),
        lacks(PAGE_0@, footer_link()),
{
    lemma_patterns();
    reveal_strlit("<!DOCTYPE html>\n<html lang=\"en\">\n<head>\n  <meta charset=\"UTF-8\">\n  <meta name=\"viewport\" content=\"width=device-width, initial-scale=1.0\">\n  <title>dbt-fleet report \u{2014} ");
    let c = PAGE_0@;
    assert(c == "<!DOCTYPE html>\n<html lang=\"en\">\n<head>\n  <meta charset=\"UTF-8\">\n  <meta name=\"viewport\" content=\"width=device-width, initial-scale=1.0\">\n  <title>dbt-fleet report \u{2014} "@);
    lemma_scan_none(c, li_tag());
    lemma_scan_none(c, section_tag());
    lemma_scan_none(c, script_tag());
    lemma_scan_none(c, link_tag());
    lemma_scan_none(c, img_tag());
    lemma_scan_none(c, iframe_tag());
    lemma_scan_none(c, anchor_tag());
    lemma_scan_none(c, footer_link());
}

proof fn lemma_piece_page_1()
    ensures
        lacks(PAGE_1@, li_tag()),
        lacks(PAGE_1@, section_tag()),
        lacks(PAGE_1@, script_tag()),
        lacks(PAGE_1@, link_tag()),
        lacks(PAGE_1@, img_tag()),
        lacks(PAGE_1@, iframe_tag()),
        lacks(PAGE_1@, anchor_tag()),
        lacks(PAGE_1@, footer_link()),
{
    lemma_patterns();
    reveal_strlit("</title>\n  <style>");
    let c = PAGE_1@;
    assert(c == "</title>\n  <style>"@);
    lemma_scan_none(c, li_tag());
    lemma_scan_none(c, section_tag());
    lemma_scan_none(c, script_tag());
    lemma_scan_none(c, link_tag());
    lemma_scan_none(c, img_tag());
    lemma_scan_none(c, iframe_tag());
    lemma_scan_none(c, anchor_tag());
    lemma_scan_none(c, footer_link());
}

proof fn lemma_piece_page_2()
    ensures
        lacks(PAGE_2@, li_tag()),
        lacks(PAGE_2@, section_tag()),
        lacks(PAGE_2@, script_tag()),
        lacks(PAGE_2@, link_tag()),
        lacks(PAGE_2@, img_tag()),
        lacks(PAGE_2@, iframe_tag()),
        lacks(PAGE_2@, anchor_tag()),
        lacks(PAGE_2@, footer_link()),
{
    lemma_patterns();
    reveal_strlit("</style>\n</head>\n<body>\n  <div class=\"page\">\n    <header>\n      <div class=\"brand\">dbt-fleet<span class=\"version\">v");
    let c = PAGE_2@;
    assert(c == "</style>\n</head>\n<body>\n  <div class=\"page\">\n    <header>\n      <div class=\"brand\">dbt-fleet<span class=\"version\">v"@);
    lemma_scan_none(c, li_tag());
    lemma_scan_none(c, section_tag());
    lemma_scan_none(c, script_tag());
    lemma_scan_none(c, link_tag());
    lemma_scan_none(c, img_tag());
    lemma_scan_none(c, iframe_tag());
    lemma_scan_none(c, anchor_tag());
    lemma_scan_none(c, footer_link());
}

proof fn lemma_piece_page_3()
    ensures
        lacks(PAGE_3@, li_tag()),
        lacks(PAGE_3@, section_tag()),
        lacks(PAGE_3@, script_tag()),
        lacks(PAGE_3@, link_tag()),
        lacks(PAGE_3@, img_tag()),
        lacks(PAGE_3@, iframe_tag()),
        lacks(PAGE_3@, anchor_tag()),
        lacks(PAGE_3@, footer_link()),
{
    lemma_patterns();
    reveal_strlit("</span></div>\n      <div class=\"meta\">");
    let c = PAGE_3@;
    assert(c == "</span></div>\n      <div class=\"meta\">"@);
    lemma_scan_none(c, li_tag());
    lemma_scan_none(c, section_tag());
    lemma_scan_none(c, script_tag());
    lemma_scan_none(c, link_tag());
    lemma_scan_none(c, img_tag());
    lemma_scan_none(c, iframe_tag());
    lemma_scan_none(c, anchor_tag());
    lemma_scan_none(c, footer_link());
}

proof fn lemma_piece_page_4()
    ensures
        lacks(PAGE_4@, li_tag()),
        lacks(PAGE_4@, section_tag()),
        lacks(PAGE_4@, script_tag()),
        lacks(PAGE_4@, link_tag()),
        lacks(PAGE_4@, img_tag()),
        lacks(PAGE_4@, iframe_tag()),
        lacks(PAGE_4@, anchor_tag()),
        lacks(PAGE_4@, footer_link()),
{
    lemma_patterns();
    reveal_strlit("</div>\n    </header>\n\n    <div class=\"summary\">\n      <div class=\"summary-row\">\n        <span class=\"status-badge ");
    let c = PAGE_4@;
    assert(c == "</div>\n    </header>\n\n    <div class=\"summary\">\n      <div class=\"summary-row\">\n        <span class=\"status-badge "@);
    lemma_scan_none(c, li_tag());
    lemma_scan_none(c, section_tag());
    lemma_scan_none(c, script_tag());
    lemma_scan_none(c, link_tag());
    lemma_scan_none(c, img_tag());
    lemma_scan_none(c, iframe_tag());
    lemma_scan_none(c, anchor_tag());
    lemma_scan_none(c, footer_link());
}

proof fn lemma_piece_page_5()
    ensures
        lacks(PAGE_5@, li_tag()),
        lacks(PAGE_5@, section_tag()),
        lacks(PAGE_5@, script_tag()),
        lacks(PAGE_5@, link_tag()),
        lacks(PAGE_5@, img_tag()),
        lacks(PAGE_5@, iframe_tag()),
        lacks(PAGE_5@, anchor_tag()),
        lacks(PAGE_5@, footer_link()),
{
    lemma_patterns();
    reveal_strlit("\">");
    let c = PAGE_5@;
    assert(c == "\">"@);
    lemma_scan_none(c, li_tag());
    lemma_scan_none(c, section_tag());
    lemma_scan_none(c, script_tag());
    lemma_scan_none(c, link_tag());
    lemma_scan_none(c, img_tag());
    lemma_scan_none(c, iframe_tag());
    lemma_scan_none(c, anchor_tag());
    lemma_scan_none(c, footer_link());
}

proof fn lemma_piece_page_6()
    ensures
        lacks(PAGE_6@, li_tag()),
        lacks(PAGE_6@, section_tag()),
        lacks(PAGE_6@, script_tag()),
        lacks(PAGE_6@, link_tag()),
        lacks(PAGE_6@, img_tag()),
        lacks(PAGE_6@, iframe_tag()),
        lacks(PAGE_6@, anchor_tag()),
        lacks(PAGE_6@, footer_link()),
{
    lemma_patterns();
    reveal_strlit("</span>\n      </div>\n      <div class=\"summary-stats\">\n        <div class=\"stat\">\n          <div class=\"label\">Tier-1 models</div>\n          <div class=\"value\">");
    let c = PAGE_6@;
    assert(c == "</span>\n      </div>\n      <div class=\"summary-stats\">\n        <div class=\"stat\">\n          <div class=\"label\">Tier-1 models</div>\n          <div class=\"value\">"@);
    lemma_scan_none(c, li_tag());
    lemma_scan_none(c, section_tag());
    lemma_scan_none(c, script_tag());
    lemma_scan_none(c, link_tag());
    lemma_scan_none(c, img_tag());
    lemma_scan_none(c, iframe_tag());
    lemma_scan_none(c, anchor_tag());
    lemma_scan_none(c, footer_link());
}

proof fn lemma_piece_page_7()
    ensures
        lacks(PAGE_7@, li_tag()),
        lacks(PAGE_7@, section_tag()),
        lacks(PAGE_7@, script_tag()),
        lacks(PAGE_7@, link_tag()),
        lacks(PAGE_7@, img_tag()),
        lacks(PAGE_7@, iframe_tag()),
        lacks(PAGE_7@, anchor_tag()),
        lacks(PAGE_7@, footer_link()),
{
    lemma_patterns();
    reveal_strlit("</div>\n        </div>\n        <div class=\"stat\">\n          <div class=\"label\">Policies</div>\n          <div class=\"value\">");
    let c = PAGE_7@;
    assert(c == "</div>\n        </div>\n        <div class=\"stat\">\n          <div class=\"label\">Policies</div>\n          <div class=\"value\">"@);
    lemma_scan_none(c, li_tag());
    lemma_scan_none(c, section_tag());
    lemma_scan_none(c, script_tag());
    lemma_scan_none(c, link_tag());
    lemma_scan_none(c, img_tag());
    lemma_scan_none(c, iframe_tag());
    lemma_scan_none(c, anchor_tag());
    lemma_scan_none(c, footer_link());
}

proof fn lemma_piece_page_8()
    ensures
        lacks(PAGE_8@, li_tag()),
        lacks(PAGE_8@, section_tag()),
        lacks(PAGE_8@, script_tag()),
        lacks(PAGE_8@, link_tag()),
        lacks(PAGE_8@, img_tag()),
        lacks(PAGE_8@, iframe_tag()),
        lacks(PAGE_8@, anchor_tag()),
        lacks(PAGE_8@, footer_link()),
{
    lemma_patterns();
    reveal_strlit("</div>\n        </div>\n        <div class=\"stat\">\n          <div class=\"label\">Violations</div>\n          <div class=\"value\">");
    let c = PAGE_8@;
    assert(c == "</div>\n        </div>\n        <div class=\"stat\">\n          <div class=\"label\">Violations</div>\n          <div class=\"value\">"@);
    lemma_scan_none(c, li_tag());
    lemma_scan_none(c, section_tag());
    lemma_scan_none(c, script_tag());
    lemma_scan_none(c, link_tag());
    lemma_scan_none(c, img_tag());
    lemma_scan_none(c, iframe_tag());
    lemma_scan_none(c, anchor_tag());
    lemma_scan_none(c, footer_link());
}

proof fn lemma_piece_page_9()
    ensures
        lacks(PAGE_9@, li_tag()),
        lacks(PAGE_9@, section_tag()),
        lacks(PAGE_9@, script_tag()),
        lacks(PAGE_9@, link_tag()),
        lacks(PAGE_9@, img_tag()),
        lacks(PAGE_9@, iframe_tag()),
        lacks(PAGE_9@, anchor_tag()),
        lacks(PAGE_9@, footer_link()),
{
    lemma_patterns();
    reveal_strlit("</div>\n        </div>\n      </div>\n    </div>\n\n    <h2>Policy results");
    let c = PAGE_9@;
    assert(c == "</div>\n        </div>\n      </div>\n    </div>\n\n    <h2>Policy results"@);
    lemma_scan_none(c, li_tag());
    lemma_scan_none(c, section_tag());
    lemma_scan_none(c, script_tag());
    lemma_scan_none(c, link_tag());
    lemma_scan_none(c, img_tag());
    lemma_scan_none(c, iframe_tag());
    lemma_scan_none(c, anchor_tag());
    lemma_scan_none(c, footer_link());
}

proof fn lemma_piece_page_10()
    ensures
        lacks(PAGE_10@, li_tag()),
        lacks(PAGE_10@, section_tag()),
        lacks(PAGE_10@, script_tag()),
        lacks(PAGE_10@, link_tag()),
        lacks(PAGE_10@, img_tag()),
        lacks(PAGE_10@, iframe_tag()),
        lacks(PAGE_10@, anchor_tag()),
        lacks(PAGE_10@, footer_link()),
{
    lemma_patterns();
    reveal_strlit("</h2>\n    ");
    let c = PAGE_10@;
    assert(c == "</h2>\n    "@);
    lemma_scan_none(c, li_tag());
    lemma_scan_none(c, section_tag());
    lemma_scan_none(c, script_tag());
    lemma_scan_none(c, link_tag());
    lemma_scan_none(c, img_tag());
    lemma_scan_none(c, iframe_tag());
    lemma_scan_none(c, anchor_tag());
    lemma_scan_none(c, footer_link());
}

proof fn lemma_piece_page_11()
    ensures
        lacks(PAGE_11@, li_tag()),
        lacks(PAGE_11@, section_tag()),
        lacks(PAGE_11@, script_tag()),
        lacks(PAGE_11@, link_tag()),
        lacks(PAGE_11@, img_tag()),
        lacks(PAGE_11@, iframe_tag()),
        holds_once(PAGE_11@, anchor_tag()),
        holds_once(PAGE_11@, footer_link()),
{
    lemma_patterns();
    reveal_strlit("\n\n    <footer>\n      Generated by <a href=\"https://github.com/dreynow/dbt-fleet\">dbt-fleet</a> v");
    let c = PAGE_11@;
    assert(c == "\n\n    <footer>\n      Generated by <a href=\"https://github.com/dreynow/dbt-fleet\">dbt-fleet</a> v"@);
    lemma_scan_none(c, li_tag());
    lemma_scan_none(c, section_tag());
    lemma_scan_none(c, script_tag());
    lemma_scan_none(c, link_tag());
    lemma_scan_none(c, img_tag());
    lemma_scan_none(c, iframe_tag());
    assert(c.subrange(34, 36) =~= anchor_tag());
    lemma_scan_once(c, anchor_tag(), 34);
    assert(c.subrange(34, 81) =~= footer_link());
    lemma_scan_once(c, footer_link(), 34);
}

proof fn lemma_piece_page_12()
    ensures
        lacks(PAGE_12@, li_tag()),
        lacks(PAGE_12@, section_tag()),
        lacks(PAGE_12@, script_tag()),
        lacks(PAGE_12@, link_tag()),
        lacks(PAGE_12@, img_tag()),
        lacks(PAGE_12@, iframe_tag()),
        lacks(PAGE_12@, anchor_tag()),
        lacks(PAGE_12@, footer_link()),
{
    lemma_patterns();
    reveal_strlit(".\n    </footer>\n  </div>\n</body>\n</html>\n");
    let c = PAGE_12@;
    assert(c == ".\n    </footer>\n  </div>\n</body>\n</html>\n"@);
    lemma_scan_none(c, li_tag());
    lemma_scan_none(c, section_tag());
    lemma_scan_none(c, script_tag());
    lemma_scan_none(c, link_tag());
    lemma_scan_none(c, img_tag());
    lemma_scan_none(c, iframe_tag());
    lemma_scan_none(c, anchor_tag());
    lemma_scan_none(c, footer_link());
}

proof fn lemma_piece_section_0()
    ensures
        lacks(SECTION_0@, li_tag()),
        holds_once(SECTION_0@, section_tag()),
        lacks(SECTION_0@, script_tag()),
        lacks(SECTION_0@, link_tag()),
        lacks(SECTION_0@, img_tag()),
        lacks(SECTION_0@, iframe_tag()),
        lacks(SECTION_0@, anchor_tag()),
        lacks(SECTION_0@, footer_link()),
{
    lemma_patterns();
    reveal_strlit("<section class=\"policy ");
    let c = SECTION_0@;
    assert(c == "<section class=\"policy "@);
    lemma_scan_none(c, li_tag());
    assert(c.subrange(0, 8) =~= section_tag());
    lemma_scan_once(c, section_tag(), 0);
    lemma_scan_none(c, script_tag());
    lemma_scan_none(c, link_tag());
    lemma_scan_none(c, img_tag());
    lemma_scan_none(c, iframe_tag());
    lemma_scan_none(c, anchor_tag());
    lemma_scan_none(c, footer_link());
}

proof fn lemma_piece_section_1()
    ensures
        lacks(SECTION_1@, li_tag()),
        lacks(SECTION_1@, section_tag()),
        lacks(SECTION_1@, script_tag()),
        lacks(SECTION_1@, link_tag()),
        lacks(SECTION_1@, img_tag()),
        lacks(SECTION_1@, iframe_tag()),
        lacks(SECTION_1@, anchor_tag()),
        lacks(SECTION_1@, footer_link()),
{
    lemma_patterns();
    reveal_strlit("\">\n  <div class=\"policy-header\">\n    <div>\n      <div class=\"policy-name\">");
    let c = SECTION_1@;
    assert(c == "\">\n  <div class=\"policy-header\">\n    <div>\n      <div class=\"policy-name\">"@);
    lemma_scan_none(c, li_tag());
    lemma_scan_none(c, section_tag());
    lemma_scan_none(c, script_tag());
    lemma_scan_none(c, link_tag());
    lemma_scan_none(c, img_tag());
    lemma_scan_none(c, iframe_tag());
    lemma_scan_none(c, anchor_tag());
    lemma_scan_none(c, footer_link());
}

proof fn lemma_piece_section_2()
    ensures
        lacks(SECTION_2@, li_tag()),
        lacks(SECTION_2@, section_tag()),
        lacks(SECTION_2@, script_tag()),
        lacks(SECTION_2@, link_tag()),
        lacks(SECTION_2@, img_tag()),
        lacks(SECTION_2@, iframe_tag()),
        lacks(SECTION_2@, anchor_tag()),
        lacks(SECTION_2@, footer_link()),
{
    lemma_patterns();
    reveal_strlit("</div>\n      <div class=\"policy-description\">");
    let c = SECTION_2@;
    assert(c == "</div>\n      <div class=\"policy-description\">"@);
    lemma_scan_none(c, li_tag());
    lemma_scan_none(c, section_tag());
    lemma_scan_none(c, script_tag());
    lemma_scan_none(c, link_tag());
    lemma_scan_none(c, img_tag());
    lemma_scan_none(c, iframe_tag());
    lemma_scan_none(c, anchor_tag());
    lemma_scan_none(c, footer_link());
}

proof fn lemma_piece_section_3()
    ensures
        lacks(SECTION_3@, li_tag()),
        lacks(SECTION_3@, section_tag()),
        lacks(SECTION_3@, script_tag()),
        lacks(SECTION_3@, link_tag()),
        lacks(SECTION_3@, img_tag()),
        lacks(SECTION_3@, iframe_tag()),
        lacks(SECTION_3@, anchor_tag()),
        lacks(SECTION_3@, footer_link()),
{
    lemma_patterns();
    reveal_strlit("</div>\n    </div>\n    <div class=\"policy-status\">");
    let c = SECTION_3@;
    assert(c == "</div>\n    </div>\n    <div class=\"policy-status\">"@);
    lemma_scan_none(c, li_tag());
    lemma_scan_none(c, section_tag());
    lemma_scan_none(c, script_tag());
    lemma_scan_none(c, link_tag());
    lemma_scan_none(c, img_tag());
    lemma_scan_none(c, iframe_tag());
    lemma_scan_none(c, anchor_tag());
    lemma_scan_none(c, footer_link());
}

proof fn lemma_piece_section_4()
    ensures
        lacks(SECTION_4@, li_tag()),
        lacks(SECTION_4@, section_tag()),
        lacks(SECTION_4@, script_tag()),
        lacks(SECTION_4@, link_tag()),
        lacks(SECTION_4@, img_tag()),
        lacks(SECTION_4@, iframe_tag()),
        lacks(SECTION_4@, anchor_tag()),
        lacks(SECTION_4@, footer_link()),
{
    lemma_patterns();
    reveal_strlit("</div>\n  </div>");
    let c = SECTION_4@;
    assert(c == "</div>\n  </div>"@);
    lemma_scan_none(c, li_tag());
    lemma_scan_none(c, section_tag());
    lemma_scan_none(c, script_tag());
    lemma_scan_none(c, link_tag());
    lemma_scan_none(c, img_tag());
    lemma_scan_none(c, iframe_tag());
    lemma_scan_none(c, anchor_tag());
    lemma_scan_none(c, footer_link());
}

proof fn lemma_piece_li_open()
    ensures
        holds_once("<li>"@, li_tag()),
        lacks("<li>"@, section_tag()),
        lacks("<li>"@, script_tag()),
        lacks("<li>"@, link_tag()),
        lacks("<li>"@, img_tag()),
        lacks("<li>"@, iframe_tag()),
        lacks("<li>"@, anchor_tag()),
        lacks("<li>"@, footer_link()),
{
    lemma_patterns();
    reveal_strlit("<li>");
    let c = "<li>"@;
    assert(c.subrange(0, 4) =~= li_tag());
    lemma_scan_once(c, li_tag(), 0);
    lemma_scan_none(c, section_tag());
    lemma_scan_none(c, script_tag());
    lemma_scan_none(c, link_tag());
    lemma_scan_none(c, img_tag());
    lemma_scan_none(c, iframe_tag());
    lemma_scan_none(c, anchor_tag());
    lemma_scan_none(c, footer_link());
}

proof fn lemma_piece_location_open()
    ensures
        lacks("<span class=\"violation-location\">"@, li_tag()),
        lacks("<span class=\"violation-location\">"@, section_tag()),
        lacks("<span class=\"violation-location\">"@, script_tag()),
        lacks("<span class=\"violation-location\">"@, link_tag()),
        lacks("<span class=\"violation-location\">"@, img_tag()),
        lacks("<span class=\"violation-location\">"@, iframe_tag()),
        lacks("<span class=\"violation-location\">"@, anchor_tag()),
        lacks("<span class=\"violation-location\">"@, footer_link()),
{
    lemma_patterns();
    reveal_strlit("<span class=\"violation-location\">");
    let c = "<span class=\"violation-location\">"@;
    lemma_scan_none(c, li_tag());
    lemma_scan_none(c, section_tag());
    lemma_scan_none(c, script_tag());
    lemma_scan_none(c, link_tag());
    lemma_scan_none(c, img_tag());
    lemma_scan_none(c, iframe_tag());
    lemma_scan_none(c, anchor_tag());
    lemma_scan_none(c, footer_link());
}

proof fn lemma_piece_column_open()
    ensures
        lacks("<span class=\"col\">:"@, li_tag()),
        lacks("<span class=\"col\">:"@, section_tag()),
        lacks("<span class=\"col\">:"@, script_tag()),
        lacks("<span class=\"col\">:"@, link_tag()),
        lacks("<span class=\"col\">:"@, img_tag()),
        lacks("<span class=\"col\">:"@, iframe_tag()),
        lacks("<span class=\"col\">:"@, anchor_tag()),
        lacks("<span class=\"col\">:"@, footer_link()),
{
    lemma_patterns();
    reveal_strlit("<span class=\"col\">:");
    let c = "<span class=\"col\">:"@;
    lemma_scan_none(c, li_tag());
    lemma_scan_none(c, section_tag());
    lemma_scan_none(c, script_tag());
    lemma_scan_none(c, link_tag());
    lemma_scan_none(c, img_tag());
    lemma_scan_none(c, iframe_tag());
    lemma_scan_none(c, anchor_tag());
    lemma_scan_none(c, footer_link());
}

proof fn lemma_piece_location_close_column()
    ensures
        lacks("</span></span>"@, li_tag()),
        lacks("</span></span>"@, section_tag()),
        lacks("</span></span>"@, script_tag()),
        lacks("</span></span>"@, link_tag()),
        lacks("</span></span>"@, img_tag()),
        lacks("</span></span>"@, iframe_tag()),
        lacks("</span></span>"@, anchor_tag()),
        lacks("</span></span>"@, footer_link()),
{
    lemma_patterns();
    reveal_strlit("</span></span>");
    let c = "</span></span>"@;
    lemma_scan_none(c, li_tag());
    lemma_scan_none(c, section_tag());
    lemma_scan_none(c, script_tag());
    lemma_scan_none(c, link_tag());
    lemma_scan_none(c, img_tag());
    lemma_scan_none(c, iframe_tag());
    lemma_scan_none(c, anchor_tag());
    lemma_scan_none(c, footer_link());
}

proof fn lemma_piece_location_close()
    ensures
        lacks("</span>"@, li_tag()),
        lacks("</span>"@, section_tag()),
        lacks("</span>"@, script_tag()),
        lacks("</span>"@, link_tag()),
        lacks("</span>"@, img_tag()),
        lacks("</span>"@, iframe_tag()),
        lacks("</span>"@, anchor_tag()),
        lacks("</span>"@, footer_link()),
{
    lemma_patterns();
    reveal_strlit("</span>");
    let c = "</span>"@;
    lemma_scan_none(c, li_tag());
    lemma_scan_none(c, section_tag());
    lemma_scan_none(c, script_tag());
    lemma_scan_none(c, link_tag());
    lemma_scan_none(c, img_tag());
    lemma_scan_none(c, iframe_tag());
    lemma_scan_none(c, anchor_tag());
    lemma_scan_none(c, footer_link());
}

proof fn lemma_piece_message_open()
    ensures
        lacks("<span class=\"violation-message\">"@, li_tag()),
        lacks("<span class=\"violation-message\">"@, section_tag()),
        lacks("<span class=\"violation-message\">"@, script_tag()),
        lacks("<span class=\"violation-message\">"@, link_tag()),
        lacks("<span class=\"violation-message\">"@, img_tag()),
        lacks("<span class=\"violation-message\">"@, iframe_tag()),
        lacks("<span class=\"violation-message\">"@, anchor_tag()),
        lacks("<span class=\"violation-message\">"@, footer_link()),
{
    lemma_patterns();
    reveal_strlit("<span class=\"violation-message\">");
    let c = "<span class=\"violation-message\">"@;
    lemma_scan_none(c, li_tag());
    lemma_scan_none(c, section_tag());
    lemma_scan_none(c, script_tag());
    lemma_scan_none(c, link_tag());
    lemma_scan_none(c, img_tag());
    lemma_scan_none(c, iframe_tag());
    lemma_scan_none(c, anchor_tag());
    lemma_scan_none(c, footer_link());
}

proof fn lemma_piece_item_close()
    ensures
        lacks("</span></li>"@, li_tag()),
        lacks("</span></li>"@, section_tag()),
        lacks("</span></li>"@, script_tag()),
        lacks("</span></li>"@, link_tag()),
        lacks("</span></li>"@, img_tag()),
        lacks("</span></li>"@, iframe_tag()),
        lacks("</span></li>"@, anchor_tag()),
        lacks("</span></li>"@, footer_link()),
{
    lemma_patterns();
    reveal_strlit("</span></li>");
    let c = "</span></li>"@;
    lemma_scan_none(c, li_tag());
    lemma_scan_none(c, section_tag());
    lemma_scan_none(c, script_tag());
    lemma_scan_none(c, link_tag());
    lemma_scan_none(c, img_tag());
    lemma_scan_none(c, iframe_tag());
    lemma_scan_none(c, anchor_tag());
    lemma_scan_none(c, footer_link());
}

proof fn lemma_piece_list_open()
    ensures
        lacks("<ul class=\"violations\">"@, li_tag()),
        lacks("<ul class=\"violations\">"@, section_tag()),
        lacks("<ul class=\"violations\">"@, script_tag()),
        lacks("<ul class=\"violations\">"@, link_tag()),
        lacks("<ul class=\"violations\">"@, img_tag()),
        lacks("<ul class=\"violations\">"@, iframe_tag()),
        lacks("<ul class=\"violations\">"@, anchor_tag()),
        lacks("<ul class=\"violations\">"@, footer_link()),
{
    lemma_patterns();
    reveal_strlit("<ul class=\"violations\">");
    let c = "<ul class=\"violations\">"@;
    lemma_scan_none(c, li_tag());
    lemma_scan_none(c, section_tag());
    lemma_scan_none(c, script_tag());
    lemma_scan_none(c, link_tag());
    lemma_scan_none(c, img_tag());
    lemma_scan_none(c, iframe_tag());
    lemma_scan_none(c, anchor_tag());
    lemma_scan_none(c, footer_link());
}

proof fn lemma_piece_list_close()
    ensures
        lacks("</ul>"@, li_tag()),
        lacks("</ul>"@, section_tag()),
        lacks("</ul>"@, script_tag()),
        lacks("</ul>"@, link_tag()),
        lacks("</ul>"@, img_tag()),
        lacks("</ul>"@, iframe_tag()),
        lacks("</ul>"@, anchor_tag()),
        lacks("</ul>"@, footer_link()),
{
    lemma_patterns();
    reveal_strlit("</ul>");
    let c = "</ul>"@;
    lemma_scan_none(c, li_tag());
    lemma_scan_none(c, section_tag());
    lemma_scan_none(c, script_tag());
    lemma_scan_none(c, link_tag());
    lemma_scan_none(c, img_tag());
    lemma_scan_none(c, iframe_tag());
    lemma_scan_none(c, anchor_tag());
    lemma_scan_none(c, footer_link());
}

proof fn lemma_piece_section_close()
    ensures
        lacks("</section>"@, li_tag()),
        lacks("</section>"@, section_tag()),
        lacks("</section>"@, script_tag()),
        lacks("</section>"@, link_tag()),
        lacks("</section>"@, img_tag()),
        lacks("</section>"@, iframe_tag()),
        lacks("</section>"@, anchor_tag()),
        lacks("</section>"@, footer_link()),
{
    lemma_patterns();
    reveal_strlit("</section>");
    let c = "</section>"@;
    lemma_scan_none(c, li_tag());
    lemma_scan_none(c, section_tag());
    lemma_scan_none(c, script_tag());
    lemma_scan_none(c, link_tag());
    lemma_scan_none(c, img_tag());
    lemma_scan_none(c, iframe_tag());
    lemma_scan_none(c, anchor_tag());
    lemma_scan_none(c, footer_link());
}


/// Occurrences of `p` in the fixed text of a violation's list item.
pub open spec fn violation_occ(v: Violation, p: Seq<char>) -> nat {
    occurrences("<li>"@, p) + occurrences("<span class=\"violation-location\">"@, p) + (match v.column {
        Some(_) => occurrences("<span class=\"col\">:"@, p) + occurrences("</span></span>"@, p),
        None => occurrences("</span>"@, p),
    }) + occurrences("<span class=\"violation-message\">"@, p) + occurrences("</span></li>"@, p)
}

/// Occurrences of `p` in the fixed text of the list items of violations.
pub open spec fn violations_occ(vs: Seq<Violation>, p: Seq<char>) -> nat
    decreases vs.len(),
{
    if vs.len() == 0 {
        0
    } else {
        violations_occ(vs.drop_last(), p) + violation_occ(vs.last(), p)
    }
}

/// Occurrences of `p` in the fixed text of a policy section.
pub open spec fn policy_occ(q: PolicyResult, p: Seq<char>) -> nat {
    occurrences(SECTION_0@, p) + occurrences(SECTION_1@, p) + occurrences(SECTION_2@, p) + occurrences(
        SECTION_3@,
        p,
    ) + occurrences(SECTION_4@, p) + occurrences("</section>"@, p) + (if q.violations@.len() == 0 {
        0
    } else {
        occurrences("<ul class=\"violations\">"@, p) + violations_occ(q.violations@, p) + occurrences(
            "</ul>"@,
            p,
        )
    })
}

/// Occurrences of `p` in the fixed text of the policy sections.
pub open spec fn policies_occ(ps: Seq<PolicyResult>, p: Seq<char>) -> nat
    decreases ps.len(),
{
    if ps.len() == 0 {
        0
    } else {
        policies_occ(ps.drop_last(), p) + policy_occ(ps.last(), p)
    }
}

/// Occurrences of `p` in the page template around the sections.
pub open spec fn page_occ(p: Seq<char>) -> nat {
    occurrences(PAGE_0@, p) + occurrences(PAGE_1@, p) + occurrences(STYLES@, p) + occurrences(PAGE_2@, p)
        + occurrences(PAGE_3@, p) + occurrences(PAGE_4@, p) + occurrences(PAGE_5@, p) + occurrences(
        PAGE_6@,
        p,
    ) + occurrences(PAGE_7@, p) + occurrences(PAGE_8@, p) + occurrences(PAGE_9@, p) + occurrences(
        PAGE_10@,
        p,
    ) + occurrences(PAGE_11@, p) + occurrences(PAGE_12@, p)
}

/// Whether no fixed piece of the template ends inside `p`.
pub open spec fn template_clean(p: Seq<char>) -> bool {
    &&& !partial(PAGE_0@, p) && !partial(PAGE_1@, p) && !partial(STYLES@, p) && !partial(PAGE_2@, p)
    &&& !partial(PAGE_3@, p) && !partial(PAGE_4@, p) && !partial(PAGE_5@, p) && !partial(PAGE_6@, p)
    &&& !partial(PAGE_7@, p) && !partial(PAGE_8@, p) && !partial(PAGE_9@, p) && !partial(PAGE_10@, p)
    &&& !partial(PAGE_11@, p) && !partial(PAGE_12@, p)
    &&& !partial(SECTION_0@, p) && !partial(SECTION_1@, p) && !partial(SECTION_2@, p)
    &&& !partial(SECTION_3@, p) && !partial(SECTION_4@, p) && !partial("</section>"@, p)
    &&& !partial("<ul class=\"violations\">"@, p) && !partial("</ul>"@, p)
    &&& !partial("<li>"@, p) && !partial("<span class=\"violation-location\">"@, p)
    &&& !partial("<span class=\"col\">:"@, p) && !partial("</span></span>"@, p)
    &&& !partial("</span>"@, p) && !partial("<span class=\"violation-message\">"@, p)
    &&& !partial("</span></li>"@, p)
}

proof fn lemma_plain_words(p: Seq<char>)
    requires
        tag_pattern(p),
    ensures
        lacks("pass"@, p),
        lacks("fail"@, p),
        lacks("All policies passing"@, p),
        lacks("Policy violations"@, p),
        lacks("Passing"@, p),
        lacks(" violation"@, p),
        lacks("s"@, p),
        lacks(" ("@, p),
        lacks(" failing)"@, p),
        lacks(Seq::<char>::empty(), p),
{
    reveal_strlit("pass");
    reveal_strlit("fail");
    reveal_strlit("All policies passing");
    reveal_strlit("Policy violations");
    reveal_strlit("Passing");
    reveal_strlit(" violation");
    reveal_strlit("s");
    reveal_strlit(" (");
    reveal_strlit(" failing)");
    lemma_plain_text("pass"@, p);
    lemma_plain_text("fail"@, p);
    lemma_plain_text("All policies passing"@, p);
    lemma_plain_text("Policy violations"@, p);
    lemma_plain_text("Passing"@, p);
    lemma_plain_text(" violation"@, p);
    lemma_plain_text("s"@, p);
    lemma_plain_text(" ("@, p);
    lemma_plain_text(" failing)"@, p);
    lemma_plain_text(Seq::<char>::empty(), p);
}

proof fn lemma_plain_digits(n: nat, p: Seq<char>)
    requires
        tag_pattern(p),
    ensures
        lacks(text::digits(n), p),
{
    text::lemma_digits_lack(n, '<');
    lemma_plain_text(text::digits(n), p);
}

proof fn lemma_plain_escaped(s: Seq<char>, p: Seq<char>)
    requires
        tag_pattern(p),
    ensures
        lacks(escaped(s), p),
{
    html::lemma_escaped(s);
    lemma_plain_text(escaped(s), p);
}

proof fn lemma_violation_occ(v: Violation, p: Seq<char>)
    requires
        tag_pattern(p),
        template_clean(p),
    ensures
        occurrences(violation_html(v), p) == violation_occ(v, p),
        !partial(violation_html(v), p),
{
    lemma_plain_escaped(v.file@, p);
    lemma_plain_escaped(v.message@, p);
    let a = "<span class=\"violation-location\">"@;
    let loc = location_html(v);
    assert(occurrences(loc, p) == occurrences(a, p) + (match v.column {
        Some(_) => occurrences("<span class=\"col\">:"@, p) + occurrences("</span></span>"@, p),
        None => occurrences("</span>"@, p),
    }) && !partial(loc, p)) by {
        match v.column {
            Some(c) => {
                lemma_plain_escaped(c@, p);
                lemma_step(a, escaped(v.file@), p);
                lemma_step(a + escaped(v.file@), "<span class=\"col\">:"@, p);
                lemma_step(a + escaped(v.file@) + "<span class=\"col\">:"@, escaped(c@), p);
                lemma_step(
                    a + escaped(v.file@) + "<span class=\"col\">:"@ + escaped(c@),
                    "</span></span>"@,
                    p,
                );
            },
            None => {
                lemma_step(a, escaped(v.file@), p);
                lemma_step(a + escaped(v.file@), "</span>"@, p);
            },
        }
    }
    lemma_step("<li>"@, loc, p);
    lemma_step("<li>"@ + loc, "<span class=\"violation-message\">"@, p);
    lemma_step("<li>"@ + loc + "<span class=\"violation-message\">"@, escaped(v.message@), p);
    lemma_step(
        "<li>"@ + loc + "<span class=\"violation-message\">"@ + escaped(v.message@),
        "</span></li>"@,
        p,
    );
}

proof fn lemma_violations_occ(vs: Seq<Violation>, p: Seq<char>)
    requires
        tag_pattern(p),
        template_clean(p),
    ensures
        occurrences(violations_html(vs), p) == violations_occ(vs, p),
        !partial(violations_html(vs), p),
    decreases vs.len(),
{
    if vs.len() == 0 {
        lemma_plain_words(p);
    } else {
        lemma_violations_occ(vs.drop_last(), p);
        lemma_violation_occ(vs.last(), p);
        lemma_step(violations_html(vs.drop_last()), violation_html(vs.last()), p);
    }
}

proof fn lemma_policy_occ(q: PolicyResult, p: Seq<char>)
    requires
        tag_pattern(p),
        template_clean(p),
    ensures
        occurrences(policy_html(q), p) == policy_occ(q, p),
        !partial(policy_html(q), p),
{
    lemma_plain_words(p);
    lemma_plain_escaped(q.name@, p);
    lemma_plain_escaped(q.description@, p);
    let n = q.violations@.len();
    lemma_plain_digits(n, p);
    let status = policy_status(q);
    assert(lacks(status, p)) by {
        if n != 0 {
            lemma_step(text::digits(n), " violation"@, p);
            lemma_step(text::digits(n) + " violation"@, check::plural(n as int, "s"@), p);
        }
    }
    let list = if n == 0 {
        Seq::empty()
    } else {
        "<ul class=\"violations\">"@ + violations_html(q.violations@) + "</ul>"@
    };
    assert(!partial(list, p) && occurrences(list, p) == (if n == 0 {
        0
    } else {
        occurrences("<ul class=\"violations\">"@, p) + violations_occ(q.violations@, p) + occurrences(
            "</ul>"@,
            p,
        )
    })) by {
        if n != 0 {
            lemma_violations_occ(q.violations@, p);
            lemma_step("<ul class=\"violations\">"@, violations_html(q.violations@), p);
            lemma_step("<ul class=\"violations\">"@ + violations_html(q.violations@), "</ul>"@, p);
        }
    }
    let cls = pass_class(n == 0);
    let s1 = SECTION_0@ + cls;
    let s2 = s1 + SECTION_1@;
    let s3 = s2 + escaped(q.name@);
    let s4 = s3 + SECTION_2@;
    let s5 = s4 + escaped(q.description@);
    let s6 = s5 + SECTION_3@;
    let s7 = s6 + status;
    let s8 = s7 + SECTION_4@;
    let s9 = s8 + list;
    lemma_step(SECTION_0@, cls, p);
    lemma_step(s1, SECTION_1@, p);
    lemma_step(s2, escaped(q.name@), p);
    lemma_step(s3, SECTION_2@, p);
    lemma_step(s4, escaped(q.description@), p);
    lemma_step(s5, SECTION_3@, p);
    lemma_step(s6, status, p);
    lemma_step(s7, SECTION_4@, p);
    lemma_step(s8, list, p);
    lemma_step(s9, "</section>"@, p);
    assert(policy_html(q) == s9 + "</section>"@);
}

proof fn lemma_policies_occ(ps: Seq<PolicyResult>, p: Seq<char>)
    requires
        tag_pattern(p),
        template_clean(p),
    ensures
        occurrences(policies_html(ps), p) == policies_occ(ps, p),
        !partial(policies_html(ps), p),
    decreases ps.len(),
{
    if ps.len() == 0 {
        lemma_plain_words(p);
    } else {
        lemma_policies_occ(ps.drop_last(), p);
        lemma_policy_occ(ps.last(), p);
        lemma_step(policies_html(ps.drop_last()), policy_html(ps.last()), p);
    }
}

proof fn lemma_document_occ(r: CheckReport, date: Seq<char>, p: Seq<char>)
    requires
        tag_pattern(p),
        template_clean(p),
        !date.contains('<'),
        !r.version@.contains('<'),
    ensures
        occurrences(html_document(r, date), p) == page_occ(p) + policies_occ(r.policies@, p),
{
    lemma_plain_words(p);
    lemma_plain_text(date, p);
    lemma_plain_text(r.version@, p);
    lemma_policies_occ(r.policies@, p);
    let passed = r.total_violations == 0;
    let label = if passed {
        "All policies passing"@
    } else {
        "Policy violations"@
    };
    let ps = r.policies@;
    let note = failing_note(ps);
    assert(lacks(note, p)) by {
        let k = check::failing_count(ps);
        if k > 0 {
            lemma_plain_digits(k as nat, p);
            lemma_step(" ("@, text::digits(k as nat), p);
            lemma_step(" ("@ + text::digits(k as nat), " failing)"@, p);
        }
    }
    lemma_plain_digits(r.tier1_models as nat, p);
    lemma_plain_digits(ps.len(), p);
    lemma_plain_digits(r.total_violations as nat, p);
    let t1 = text::digits(r.tier1_models as nat);
    let t2 = text::digits(ps.len());
    let t3 = text::digits(r.total_violations as nat);
    let cls = pass_class(passed);
    let a1 = PAGE_0@ + date;
    let a2 = a1 + PAGE_1@;
    let a3 = a2 + STYLES@;
    let a4 = a3 + PAGE_2@;
    let a5 = a4 + r.version@;
    let a6 = a5 + PAGE_3@;
    let a7 = a6 + date;
    let a8 = a7 + PAGE_4@;
    let a9 = a8 + cls;
    let a10 = a9 + PAGE_5@;
    let a11 = a10 + label;
    let a12 = a11 + PAGE_6@;
    let a13 = a12 + t1;
    let a14 = a13 + PAGE_7@;
    let a15 = a14 + t2;
    let a16 = a15 + PAGE_8@;
    let a17 = a16 + t3;
    let a18 = a17 + PAGE_9@;
    let a19 = a18 + note;
    let a20 = a19 + PAGE_10@;
    let a21 = a20 + policies_html(ps);
    let a22 = a21 + PAGE_11@;
    let a23 = a22 + r.version@;
    let a24 = a23 + PAGE_12@;
    assert(html_document(r, date) == a24);
    lemma_step(PAGE_0@, date, p);
    lemma_step(a1, PAGE_1@, p);
    lemma_step(a2, STYLES@, p);
    lemma_step(a3, PAGE_2@, p);
    lemma_step(a4, r.version@, p);
    lemma_step(a5, PAGE_3@, p);
    lemma_step(a6, date, p);
    lemma_step(a7, PAGE_4@, p);
    lemma_step(a8, cls, p);
    lemma_step(a9, PAGE_5@, p);
    lemma_step(a10, label, p);
    lemma_step(a11, PAGE_6@, p);
    lemma_step(a12, t1, p);
    lemma_step(a13, PAGE_7@, p);
    lemma_step(a14, t2, p);
    lemma_step(a15, PAGE_8@, p);
    lemma_step(a16, t3, p);
    lemma_step(a17, PAGE_9@, p);
    lemma_step(a18, note, p);
    lemma_step(a19, PAGE_10@, p);
    lemma_step(a20, policies_html(ps), p);
    lemma_step(a21, PAGE_11@, p);
    lemma_step(a22, r.version@, p);
    lemma_step(a23, PAGE_12@, p);
}


proof fn lemma_styles_plain()
    ensures
        !STYLES@.contains('<'),
{
    reveal_strlit("\n:root {\n  --bg: #fafaf9;\n  --surface: #ffffff;\n  --border: #e7e5e4;\n  --border-strong: #d6d3d1;\n  --text: #1c1917;\n  --text-muted: #57534e;\n  --text-subtle: #78716c;\n  --accent: #0c0a09;\n  --pass: #15803d;\n  --pass-bg: #f0fdf4;\n  --fail: #b91c1c;\n  --fail-bg: #fef2f2;\n  --warn-bg: #fffbeb;\n}\n\n* { box-sizing: border-box; }\n\nhtml, body {\n  margin: 0;\n  padding: 0;\n  background: var(--bg);\n  color: var(--text);\n  font-family: -apple-system, BlinkMacSystemFont, \"Segoe UI\", Roboto, Oxygen,\n    Ubuntu, Cantarell, \"Helvetica Neue\", sans-serif;\n  font-size: 15px;\n  line-height: 1.5;\n  -webkit-font-smoothing: antialiased;\n  -moz-osx-font-smoothing: grayscale;\n}\n\n.page {\n  max-width: 880px;\n  margin: 0 auto;\n  padding: 48px 24px 96px;\n}\n\nheader {\n  display: flex;\n  align-items: baseline;\n  justify-content: space-between;\n  border-bottom: 1px solid var(--border);\n  padding-bottom: 24px;\n  margin-bottom: 32px;\n}\n\n.brand {\n  font-weight: 600;\n  letter-spacing: -0.01em;\n  font-size: 18px;\n}\n\n.brand .version {\n  color: var(--text-subtle);\n  font-weight: 400;\n  font-size: 13px;\n  margin-left: 8px;\n}\n\n.meta {\n  font-size: 13px;\n  color: var(--text-muted);\n}\n\n.summary {\n  background: var(--surface);\n  border: 1px solid var(--border);\n  border-radius: 12px;\n  padding: 28px 32px;\n  margin-bottom: 32px;\n}\n\n.summary-row {\n  display: flex;\n  align-items: center;\n  gap: 16px;\n}\n\n.status-badge {\n  display: inline-flex;\n  align-items: center;\n  gap: 8px;\n  font-weight: 600;\n  font-size: 14px;\n  padding: 6px 12px;\n  border-radius: 999px;\n  letter-spacing: 0.01em;\n}\n\n.status-badge.pass { background: var(--pass-bg); color: var(--pass); }\n.status-badge.fail { background: var(--fail-bg); color: var(--fail); }\n\n.status-badge::before {\n  content: \"\";\n  display: inline-block;\n  width: 8px;\n  height: 8px;\n  border-radius: 50%;\n  background: currentColor;\n}\n\n.summary-stats {\n  margin-top: 20px;\n  display: grid;\n  grid-template-columns: repeat(3, 1fr);\n  gap: 24px;\n}\n\n.stat .label {\n  font-size: 12px;\n  text-transform: uppercase;\n  letter-spacing: 0.05em;\n  color: var(--text-subtle);\n  margin-bottom: 4px;\n}\n\n.stat .value {\n  font-size: 28px;\n  font-weight: 600;\n  letter-spacing: -0.02em;\n  color: var(--text);\n}\n\nh2 {\n  font-size: 14px;\n  text-transform: uppercase;\n  letter-spacing: 0.06em;\n  color: var(--text-subtle);\n  font-weight: 600;\n  margin: 40px 0 16px;\n}\n\n.policy {\n  background: var(--surface);\n  border: 1px solid var(--border);\n  border-radius: 12px;\n  margin-bottom: 16px;\n  overflow: hidden;\n}\n\n.policy-header {\n  display: flex;\n  align-items: flex-start;\n  justify-content: space-between;\n  padding: 20px 24px;\n  gap: 16px;\n}\n\n.policy.fail .policy-header {\n  background: var(--fail-bg);\n  border-bottom: 1px solid var(--border);\n}\n\n.policy.pass .policy-header {\n  background: var(--pass-bg);\n}\n\n.policy-name {\n  font-family: ui-monospace, \"SF Mono\", Menlo, Consolas, monospace;\n  font-size: 14px;\n  font-weight: 600;\n  color: var(--text);\n}\n\n.policy-description {\n  font-size: 13px;\n  color: var(--text-muted);\n  margin-top: 4px;\n}\n\n.policy-status {\n  font-size: 13px;\n  font-weight: 600;\n  white-space: nowrap;\n  flex-shrink: 0;\n}\n\n.policy.pass .policy-status { color: var(--pass); }\n.policy.fail .policy-status { color: var(--fail); }\n\n.violations {\n  list-style: none;\n  margin: 0;\n  padding: 0;\n}\n\n.violations li {\n  padding: 12px 24px;\n  border-top: 1px solid var(--border);\n  font-size: 13px;\n  display: grid;\n  grid-template-columns: 1fr auto;\n  gap: 16px;\n  align-items: baseline;\n}\n\n.violations li:first-child {\n  border-top: none;\n}\n\n.violation-location {\n  font-family: ui-monospace, \"SF Mono\", Menlo, Consolas, monospace;\n  color: var(--text);\n  word-break: break-all;\n}\n\n.violation-location .col {\n  color: var(--text-muted);\n}\n\n.violation-message {\n  color: var(--text-muted);\n  text-align: right;\n  font-style: italic;\n}\n\nfooter {\n  margin-top: 64px;\n  padding-top: 24px;\n  border-top: 1px solid var(--border);\n  font-size: 12px;\n  color: var(--text-subtle);\n  text-align: center;\n}\n\nfooter a {\n  color: var(--text-muted);\n  text-decoration: none;\n}\n\nfooter a:hover {\n  text-decoration: underline;\n}\n");
    assert(STYLES@ == "\n:root {\n  --bg: #fafaf9;\n  --surface: #ffffff;\n  --border: #e7e5e4;\n  --border-strong: #d6d3d1;\n  --text: #1c1917;\n  --text-muted: #57534e;\n  --text-subtle: #78716c;\n  --accent: #0c0a09;\n  --pass: #15803d;\n  --pass-bg: #f0fdf4;\n  --fail: #b91c1c;\n  --fail-bg: #fef2f2;\n  --warn-bg: #fffbeb;\n}\n\n* { box-sizing: border-box; }\n\nhtml, body {\n  margin: 0;\n  padding: 0;\n  background: var(--bg);\n  color: var(--text);\n  font-family: -apple-system, BlinkMacSystemFont, \"Segoe UI\", Roboto, Oxygen,\n    Ubuntu, Cantarell, \"Helvetica Neue\", sans-serif;\n  font-size: 15px;\n  line-height: 1.5;\n  -webkit-font-smoothing: antialiased;\n  -moz-osx-font-smoothing: grayscale;\n}\n\n.page {\n  max-width: 880px;\n  margin: 0 auto;\n  padding: 48px 24px 96px;\n}\n\nheader {\n  display: flex;\n  align-items: baseline;\n  justify-content: space-between;\n  border-bottom: 1px solid var(--border);\n  padding-bottom: 24px;\n  margin-bottom: 32px;\n}\n\n.brand {\n  font-weight: 600;\n  letter-spacing: -0.01em;\n  font-size: 18px;\n}\n\n.brand .version {\n  color: var(--text-subtle);\n  font-weight: 400;\n  font-size: 13px;\n  margin-left: 8px;\n}\n\n.meta {\n  font-size: 13px;\n  color: var(--text-muted);\n}\n\n.summary {\n  background: var(--surface);\n  border: 1px solid var(--border);\n  border-radius: 12px;\n  padding: 28px 32px;\n  margin-bottom: 32px;\n}\n\n.summary-row {\n  display: flex;\n  align-items: center;\n  gap: 16px;\n}\n\n.status-badge {\n  display: inline-flex;\n  align-items: center;\n  gap: 8px;\n  font-weight: 600;\n  font-size: 14px;\n  padding: 6px 12px;\n  border-radius: 999px;\n  letter-spacing: 0.01em;\n}\n\n.status-badge.pass { background: var(--pass-bg); color: var(--pass); }\n.status-badge.fail { background: var(--fail-bg); color: var(--fail); }\n\n.status-badge::before {\n  content: \"\";\n  display: inline-block;\n  width: 8px;\n  height: 8px;\n  border-radius: 50%;\n  background: currentColor;\n}\n\n.summary-stats {\n  margin-top: 20px;\n  display: grid;\n  grid-template-columns: repeat(3, 1fr);\n  gap: 24px;\n}\n\n.stat .label {\n  font-size: 12px;\n  text-transform: uppercase;\n  letter-spacing: 0.05em;\n  color: var(--text-subtle);\n  margin-bottom: 4px;\n}\n\n.stat .value {\n  font-size: 28px;\n  font-weight: 600;\n  letter-spacing: -0.02em;\n  color: var(--text);\n}\n\nh2 {\n  font-size: 14px;\n  text-transform: uppercase;\n  letter-spacing: 0.06em;\n  color: var(--text-subtle);\n  font-weight: 600;\n  margin: 40px 0 16px;\n}\n\n.policy {\n  background: var(--surface);\n  border: 1px solid var(--border);\n  border-radius: 12px;\n  margin-bottom: 16px;\n  overflow: hidden;\n}\n\n.policy-header {\n  display: flex;\n  align-items: flex-start;\n  justify-content: space-between;\n  padding: 20px 24px;\n  gap: 16px;\n}\n\n.policy.fail .policy-header {\n  background: var(--fail-bg);\n  border-bottom: 1px solid var(--border);\n}\n\n.policy.pass .policy-header {\n  background: var(--pass-bg);\n}\n\n.policy-name {\n  font-family: ui-monospace, \"SF Mono\", Menlo, Consolas, monospace;\n  font-size: 14px;\n  font-weight: 600;\n  color: var(--text);\n}\n\n.policy-description {\n  font-size: 13px;\n  color: var(--text-muted);\n  margin-top: 4px;\n}\n\n.policy-status {\n  font-size: 13px;\n  font-weight: 600;\n  white-space: nowrap;\n  flex-shrink: 0;\n}\n\n.policy.pass .policy-status { color: var(--pass); }\n.policy.fail .policy-status { color: var(--fail); }\n\n.violations {\n  list-style: none;\n  margin: 0;\n  padding: 0;\n}\n\n.violations li {\n  padding: 12px 24px;\n  border-top: 1px solid var(--border);\n  font-size: 13px;\n  display: grid;\n  grid-template-columns: 1fr auto;\n  gap: 16px;\n  align-items: baseline;\n}\n\n.violations li:first-child {\n  border-top: none;\n}\n\n.violation-location {\n  font-family: ui-monospace, \"SF Mono\", Menlo, Consolas, monospace;\n  color: var(--text);\n  word-break: break-all;\n}\n\n.violation-location .col {\n  color: var(--text-muted);\n}\n\n.violation-message {\n  color: var(--text-muted);\n  text-align: right;\n  font-style: italic;\n}\n\nfooter {\n  margin-top: 64px;\n  padding-top: 24px;\n  border-top: 1px solid var(--border);\n  font-size: 12px;\n  color: var(--text-subtle);\n  text-align: center;\n}\n\nfooter a {\n  color: var(--text-muted);\n  text-decoration: none;\n}\n\nfooter a:hover {\n  text-decoration: underline;\n}\n"@);
}

proof fn lemma_template_facts()
    ensures
        template_clean(li_tag()),
        template_clean(section_tag()),
        template_clean(script_tag()),
        template_clean(link_tag()),
        template_clean(img_tag()),
        template_clean(iframe_tag()),
        template_clean(anchor_tag()),
        template_clean(footer_link()),
        page_occ(li_tag()) == 0,
        page_occ(section_tag()) == 0,
        page_occ(script_tag()) == 0,
        page_occ(link_tag()) == 0,
        page_occ(img_tag()) == 0,
        page_occ(iframe_tag()) == 0,
        page_occ(anchor_tag()) == 1,
        page_occ(footer_link()) == 1,
        forall|v: Violation| violation_occ(v, li_tag()) == 1,
        forall|v: Violation| violation_occ(v, section_tag()) == 0,
        forall|v: Violation| violation_occ(v, script_tag()) == 0,
        forall|v: Violation| violation_occ(v, link_tag()) == 0,
        forall|v: Violation| violation_occ(v, img_tag()) == 0,
        forall|v: Violation| violation_occ(v, iframe_tag()) == 0,
        forall|v: Violation| violation_occ(v, anchor_tag()) == 0,
        forall|v: Violation| violation_occ(v, footer_link()) == 0,
        forall|q: PolicyResult| #[trigger] policy_occ(q, li_tag()) == violations_occ(q.violations@, li_tag()),
        forall|q: PolicyResult| #[trigger] policy_occ(q, script_tag()) == violations_occ(q.violations@, script_tag()),
        forall|q: PolicyResult| #[trigger] policy_occ(q, link_tag()) == violations_occ(q.violations@, link_tag()),
        forall|q: PolicyResult| #[trigger] policy_occ(q, img_tag()) == violations_occ(q.violations@, img_tag()),
        forall|q: PolicyResult| #[trigger] policy_occ(q, iframe_tag()) == violations_occ(q.violations@, iframe_tag()),
        forall|q: PolicyResult| #[trigger] policy_occ(q, anchor_tag()) == violations_occ(q.violations@, anchor_tag()),
        forall|q: PolicyResult| #[trigger] policy_occ(q, footer_link()) == violations_occ(q.violations@, footer_link()),
        forall|q: PolicyResult| #[trigger] policy_occ(q, section_tag()) == 1 + violations_occ(q.violations@, section_tag()),
{
    lemma_patterns();
    lemma_styles_plain();
    lemma_plain_text(STYLES@, li_tag());
    lemma_plain_text(STYLES@, section_tag());
    lemma_plain_text(STYLES@, script_tag());
    lemma_plain_text(STYLES@, link_tag());
    lemma_plain_text(STYLES@, img_tag());
    lemma_plain_text(STYLES@, iframe_tag());
    lemma_plain_text(STYLES@, anchor_tag());
    lemma_plain_text(STYLES@, footer_link());
    lemma_piece_page_0();
    lemma_piece_page_1();
    lemma_piece_page_2();
    lemma_piece_page_3();
    lemma_piece_page_4();
    lemma_piece_page_5();
    lemma_piece_page_6();
    lemma_piece_page_7();
    lemma_piece_page_8();
    lemma_piece_page_9();
    lemma_piece_page_10();
    lemma_piece_page_11();
    lemma_piece_page_12();
    lemma_piece_section_0();
    lemma_piece_section_1();
    lemma_piece_section_2();
    lemma_piece_section_3();
    lemma_piece_section_4();
    lemma_piece_li_open();
    lemma_piece_location_open();
    lemma_piece_column_open();
    lemma_piece_location_close_column();
    lemma_piece_location_close();
    lemma_piece_message_open();
    lemma_piece_item_close();
    lemma_piece_list_open();
    lemma_piece_list_close();
    lemma_piece_section_close();
}

proof fn lemma_violations_count(vs: Seq<Violation>, p: Seq<char>, each: nat)
    requires
        forall|v: Violation| violation_occ(v, p) == each,
    ensures
        violations_occ(vs, p) == vs.len() * each,
    decreases vs.len(),
{
    if vs.len() > 0 {
        lemma_violations_count(vs.drop_last(), p, each);
        assert((vs.len() - 1) * each + each == vs.len() * each) by (nonlinear_arith);
    }
}

proof fn lemma_policies_items(ps: Seq<PolicyResult>)
    ensures
        policies_occ(ps, li_tag()) == check::violation_total(ps),
        policies_occ(ps, section_tag()) == ps.len(),
        policies_occ(ps, script_tag()) == 0,
        policies_occ(ps, link_tag()) == 0,
        policies_occ(ps, img_tag()) == 0,
        policies_occ(ps, iframe_tag()) == 0,
        policies_occ(ps, anchor_tag()) == 0,
        policies_occ(ps, footer_link()) == 0,
    decreases ps.len(),
{
    if ps.len() > 0 {
        lemma_policies_items(ps.drop_last());
        lemma_template_facts();
        let q = ps.last();
        lemma_violations_count(q.violations@, li_tag(), 1);
        lemma_violations_count(q.violations@, section_tag(), 0);
        lemma_violations_count(q.violations@, script_tag(), 0);
        lemma_violations_count(q.violations@, link_tag(), 0);
        lemma_violations_count(q.violations@, img_tag(), 0);
        lemma_violations_count(q.violations@, iframe_tag(), 0);
        lemma_violations_count(q.violations@, anchor_tag(), 0);
        lemma_violations_count(q.violations@, footer_link(), 0);
    }
}

/// The markup of the HTML report, whatever the text of the report holds:
/// one section per policy result, one list item per violation, no script,
/// no link to another resource, no image, no embedded frame, and no
/// hyperlink but the footer link to the project page. The stamp and the
/// version, written as they are, must hold no `<`.
pub proof fn lemma_report_markup(r: CheckReport, date: Seq<char>)
    requires
        !date.contains('<'),
        !r.version@.contains('<'),
    ensures
        occurrences(html_document(r, date), section_tag()) == r.policies@.len(),
        occurrences(html_document(r, date), li_tag()) == check::violation_total(r.policies@),
        check::consistent(r) ==> occurrences(html_document(r, date), li_tag()) == r.total_violations,
        occurrences(html_document(r, date), script_tag()) == 0,
        occurrences(html_document(r, date), link_tag()) == 0,
        occurrences(html_document(r, date), img_tag()) == 0,
        occurrences(html_document(r, date), iframe_tag()) == 0,
        occurrences(html_document(r, date), anchor_tag()) == 1,
        occurrences(html_document(r, date), footer_link()) == 1,
{
    lemma_patterns();
    lemma_template_facts();
    lemma_policies_items(r.policies@);
    lemma_document_occ(r, date, li_tag());
    lemma_document_occ(r, date, section_tag());
    lemma_document_occ(r, date, script_tag());
    lemma_document_occ(r, date, link_tag());
    lemma_document_occ(r, date, img_tag());
    lemma_document_occ(r, date, iframe_tag());
    lemma_document_occ(r, date, anchor_tag());
    lemma_document_occ(r, date, footer_link());
}


proof fn lemma_plain_concat(a: Seq<char>, b: Seq<char>)
    requires
        !a.contains('<'),
        !b.contains('<'),
    ensures
        !(a + b).contains('<'),
{
    if (a + b).contains('<') {
        let k = choose|k: int| 0 <= k < (a + b).len() && (a + b)[k] == '<';
        if k < a.len() {
            assert(a[k] == '<');
        } else {
            assert(b[k - a.len()] == '<');
        }
    }
}

proof fn lemma_plain_padded(n: int, w: int)
    ensures
        !text::padded_signed(n, w).contains('<'),
{
    let m: nat = if n >= 0 {
        n as nat
    } else {
        (-n) as nat
    };
    let z = text::zeros((if n >= 0 {
        w
    } else {
        w - 1
    }) - text::digits(m).len());
    text::lemma_digits_lack(m, '<');
    assert(!z.contains('<')) by {
        if z.contains('<') {
            let k = choose|k: int| 0 <= k < z.len() && z[k] == '<';
        }
    }
    lemma_plain_concat(z, text::digits(m));
    if n < 0 {
        assert(!seq!['-'].contains('<')) by {
            if seq!['-'].contains('<') {
                let k = choose|k: int| 0 <= k < 1 && seq!['-'][k] == '<';
            }
        }
        lemma_plain_concat(seq!['-'], z + text::digits(m));
        assert(text::padded_signed(n, w) =~= seq!['-'] + (z + text::digits(m)));
    }
}

/// The report's time stamp holds no `<`.
pub proof fn lemma_stamp_plain(t: int)
    ensures
        !html::utc_minute_text(t).contains('<'),
{
    let (y, mo, d, h, mi, _s) = crate::calendar::civil_of_unix(t);
    reveal_strlit("-");
    reveal_strlit(" ");
    reveal_strlit(":");
    reveal_strlit(" UTC");
    lemma_plain_padded(y, 4);
    lemma_plain_padded(mo, 2);
    lemma_plain_padded(d, 2);
    lemma_plain_padded(h, 2);
    lemma_plain_padded(mi, 2);
    let dash = "-"@;
    let sp = " "@;
    let colon = ":"@;
    let utc = " UTC"@;
    assert(!dash.contains('<') && !sp.contains('<') && !colon.contains('<') && !utc.contains('<'));
    let p1 = text::padded_signed(y, 4) + dash;
    lemma_plain_concat(text::padded_signed(y, 4), dash);
    lemma_plain_concat(p1, text::padded_signed(mo, 2));
    let p2 = p1 + text::padded_signed(mo, 2);
    lemma_plain_concat(p2, dash);
    let p3 = p2 + dash;
    lemma_plain_concat(p3, text::padded_signed(d, 2));
    let p4 = p3 + text::padded_signed(d, 2);
    lemma_plain_concat(p4, sp);
    let p5 = p4 + sp;
    lemma_plain_concat(p5, text::padded_signed(h, 2));
    let p6 = p5 + text::padded_signed(h, 2);
    lemma_plain_concat(p6, colon);
    let p7 = p6 + colon;
    lemma_plain_concat(p7, text::padded_signed(mi, 2));
    let p8 = p7 + text::padded_signed(mi, 2);
    lemma_plain_concat(p8, utc);
    assert(html::utc_minute_text(t) == p8 + utc);
}

/// The report as rendered at Unix time `t` has the markup of
/// [`lemma_report_markup`]: the version, written as it is, must hold no `<`.
pub proof fn lemma_rendered_report_markup(r: CheckReport, t: int)
    requires
        !r.version@.contains('<'),
    ensures
        ({
            let doc = html_document(r, html::utc_minute_text(t));
            &&& occurrences(doc, section_tag()) == r.policies@.len()
            &&& occurrences(doc, li_tag()) == check::violation_total(r.policies@)
            &&& occurrences(doc, script_tag()) == 0
            &&& occurrences(doc, link_tag()) == 0
            &&& occurrences(doc, img_tag()) == 0
            &&& occurrences(doc, iframe_tag()) == 0
            &&& occurrences(doc, anchor_tag()) == 1
            &&& occurrences(doc, footer_link()) == 1
        }),
{
    lemma_stamp_plain(t);
    lemma_report_markup(r, html::utc_minute_text(t));
}

} // verus!
