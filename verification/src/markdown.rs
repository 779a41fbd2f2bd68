//! Markdown preview: the event transform that strips raw HTML, disarms
//! script links, drops external images, and turns math and Mermaid blocks
//! into markers for the front end; and the rendering built on it.

use vstd::prelude::*;
use crate::cmark::{
    cmark_html, cmark_preview_events, events_view, plan_view, preview_events, render_plan,
    MdEvent, MdEventView, OutEvent, OutEventView,
};
use crate::text::{
    ascii_fold, chars_of, fold_char, owned, push_all, push_str, starts_with, starts_with_lit, str_eq,
    string_from_chars,
};

verus! {

// ── Attribute encoding ───────────────────────────────────────────────────────

/// The encoding of one character inside a double-quoted attribute value.
pub open spec fn attr_char(c: char) -> Seq<char> {
    if c == '&' {
        "&amp;"@
    } else if c == '"' {
        "&quot;"@
    } else if c == '<' {
        "&lt;"@
    } else if c == '>' {
        "&gt;"@
    } else if c == '\'' {
        "&#39;"@
    } else if c == '\n' {
        "&#10;"@
    } else if c == '\r' {
        "&#13;"@
    } else {
        seq![c]
    }
}

/// `s` encoded for a double-quoted attribute value: `&`, `"`, `<`, `>`, `'`,
/// line feed and carriage return become character references.
pub open spec fn attr_encoded(s: Seq<char>) -> Seq<char>
    decreases s.len(),
{
    if s.len() == 0 {
        Seq::empty()
    } else {
        attr_encoded(s.drop_last()) + attr_char(s.last())
    }
}

fn push_attr_char(out: &mut Vec<char>, c: char)
    ensures
        final(out)@ == old(out)@ + attr_char(c),
{
    if c == '&' {
        push_str(out, "&amp;");
    } else if c == '"' {
        push_str(out, "&quot;");
    } else if c == '<' {
        push_str(out, "&lt;");
    } else if c == '>' {
        push_str(out, "&gt;");
    } else if c == '\'' {
        push_str(out, "&#39;");
    } else if c == '\n' {
        push_str(out, "&#10;");
    } else if c == '\r' {
        push_str(out, "&#13;");
    } else {
        out.push(c);
        assert(out@ =~= old(out)@ + seq![c]);
    }
}

fn attr_encode_chars(v: &Vec<char>) -> (r: Vec<char>)
    ensures
        r@ == attr_encoded(v@),
{
    let mut out: Vec<char> = Vec::new();
    let mut i: usize = 0;
    proof {
        assert(v@.take(0) =~= Seq::<char>::empty());
    }
    while i < v.len()
        invariant
            i <= v@.len(),
            out@ == attr_encoded(v@.take(i as int)),
        decreases v@.len() - i,
    {
        assert(v@.take(i + 1).drop_last() =~= v@.take(i as int));
        assert(v@.take(i + 1).last() == v@[i as int]);
        push_attr_char(&mut out, v[i]);
        i = i + 1;
    }
    assert(v@.take(v@.len() as int) =~= v@);
    out
}

/// HTML-encode `s` for use in a double-quoted attribute value.
pub fn html_attr_encode(s: &str) -> (r: String)
    ensures
        r@ == attr_encoded(s@),
{
    let v = chars_of(s);
    let e = attr_encode_chars(&v);
    string_from_chars(&e)
}

/// A character that would end or break out of an attribute value.
pub open spec fn attr_unsafe(c: char) -> bool {
    c == '"' || c == '<' || c == '>' || c == '\'' || c == '\n' || c == '\r'
}

proof fn lemma_attr_char_safe(c: char)
    ensures
        forall|k: int| 0 <= k < attr_char(c).len() ==> !attr_unsafe(#[trigger] attr_char(c)[k]),
{
    reveal_strlit("&amp;");
    reveal_strlit("&quot;");
    reveal_strlit("&lt;");
    reveal_strlit("&gt;");
    reveal_strlit("&#39;");
    reveal_strlit("&#10;");
    reveal_strlit("&#13;");
}

/// An encoded value holds no quote, angle bracket, apostrophe or line break,
/// so it cannot end the attribute or open a tag.
pub proof fn law_attr_encoding_is_inert(s: Seq<char>)
    ensures
        forall|k: int| 0 <= k < attr_encoded(s).len() ==> !attr_unsafe(#[trigger] attr_encoded(s)[k]),
    decreases s.len(),
{
    if s.len() > 0 {
        law_attr_encoding_is_inert(s.drop_last());
        lemma_attr_char_safe(s.last());
        let a = attr_encoded(s.drop_last());
        let b = attr_char(s.last());
        assert forall|k: int| 0 <= k < attr_encoded(s).len() implies !attr_unsafe(#[trigger] attr_encoded(s)[k]) by {
            if k < a.len() {
                assert(attr_encoded(s)[k] == a[k]);
            } else {
                assert(attr_encoded(s)[k] == b[k - a.len()]);
            }
        }
    }
}

// ── Markers ──────────────────────────────────────────────────────────────────

/// The marker for inline math.
pub open spec fn math_inline_marker(c: Seq<char>) -> Seq<char> {
    "<span class=\"math-inline\" data-math=\""@ + attr_encoded(c) + "\"></span>"@
}

/// The marker for display math.
pub open spec fn math_block_marker(c: Seq<char>) -> Seq<char> {
    "<div class=\"math-block\" data-math=\""@ + attr_encoded(c) + "\"></div>"@
}

/// The marker for a Mermaid diagram.
pub open spec fn mermaid_marker(c: Seq<char>) -> Seq<char> {
    "<div class=\"mermaid-block\" data-diagram=\""@ + attr_encoded(c) + "\"></div>"@
}

fn wrap(open: &str, content: &str, close: &str) -> (r: String)
    ensures
        r@ == open@ + attr_encoded(content@) + close@,
{
    let mut out = chars_of(open);
    let v = chars_of(content);
    let e = attr_encode_chars(&v);
    push_all(&mut out, &e);
    push_str(&mut out, close);
    string_from_chars(&out)
}

/// `<span class="math-inline" data-math="…"></span>` for inline math.
pub fn make_math_inline(content: &str) -> (r: String)
    ensures
        r@ == math_inline_marker(content@),
{
    wrap("<span class=\"math-inline\" data-math=\"", content, "\"></span>")
}

/// `<div class="math-block" data-math="…"></div>` for display math.
pub fn make_math_block(content: &str) -> (r: String)
    ensures
        r@ == math_block_marker(content@),
{
    wrap("<div class=\"math-block\" data-math=\"", content, "\"></div>")
}

/// `<div class="mermaid-block" data-diagram="…"></div>` for a Mermaid diagram.
pub fn make_mermaid_block(content: &str) -> (r: String)
    ensures
        r@ == mermaid_marker(content@),
{
    wrap("<div class=\"mermaid-block\" data-diagram=\"", content, "\"></div>")
}

// ── Link and image destinations ──────────────────────────────────────────────

/// A character a browser skips when it reads the scheme of a URL: the ASCII
/// control characters and the space.
pub open spec fn url_skipped(c: char) -> bool {
    c <= ' '
}

/// The characters of `d` a browser reads for its scheme: skipped characters
/// removed, ASCII letters in lower case.
pub open spec fn url_folded(d: Seq<char>) -> Seq<char>
    decreases d.len(),
{
    if d.len() == 0 {
        Seq::empty()
    } else if url_skipped(d.last()) {
        url_folded(d.drop_last())
    } else {
        url_folded(d.drop_last()).push(ascii_fold(d.last()))
    }
}

/// A link destination whose scheme runs script (`javascript:` or
/// `vbscript:`, in any case, with control characters and spaces ignored).
pub open spec fn scripted_url(d: Seq<char>) -> bool {
    starts_with(url_folded(d), "javascript:"@) || starts_with(url_folded(d), "vbscript:"@)
}

/// A character that ends the part of a URL where a scheme can stand.
pub open spec fn url_delim(c: char) -> bool {
    c == '/' || c == '?' || c == '#'
}

/// `s` names a scheme: a `:` comes before any `/`, `?` or `#`.
pub open spec fn has_scheme(s: Seq<char>) -> bool {
    exists|k: int| 0 <= k < s.len() && #[trigger] s[k] == ':' && forall|j: int| 0 <= j < k ==> !url_delim(#[trigger] s[j])
}

/// An image source the browser would fetch from elsewhere: one with a scheme
/// or a network path (`//host/...`). Only relative paths stay.
pub open spec fn external_url(d: Seq<char>) -> bool {
    starts_with(url_folded(d), "//"@) || has_scheme(url_folded(d))
}

fn url_fold(d: &str) -> (r: Vec<char>)
    ensures
        r@ == url_folded(d@),
{
    let v = chars_of(d);
    let mut out: Vec<char> = Vec::new();
    let mut i: usize = 0;
    proof {
        assert(v@.take(0) =~= Seq::<char>::empty());
    }
    while i < v.len()
        invariant
            i <= v@.len(),
            v@ == d@,
            out@ == url_folded(v@.take(i as int)),
        decreases v@.len() - i,
    {
        assert(v@.take(i + 1).drop_last() =~= v@.take(i as int));
        assert(v@.take(i + 1).last() == v@[i as int]);
        let c = v[i];
        if c > ' ' {
            out.push(fold_char(c));
        }
        i = i + 1;
    }
    assert(v@.take(v@.len() as int) =~= v@);
    out
}

fn scheme_present(s: &Vec<char>) -> (r: bool)
    ensures
        r == has_scheme(s@),
{
    let mut i: usize = 0;
    while i < s.len()
        invariant
            i <= s@.len(),
            forall|j: int| 0 <= j < i ==> s@[j] != ':' && !url_delim(#[trigger] s@[j]),
        decreases s@.len() - i,
    {
        let c = s[i];
        if c == ':' {
            assert(s@[i as int] == ':');
            return true;
        }
        if c == '/' || c == '?' || c == '#' {
            assert forall|k: int| 0 <= k < s@.len() && #[trigger] s@[k] == ':' implies !(forall|j: int| 0 <= j < k ==> !url_delim(#[trigger] s@[j])) by {
                assert(k > i);
                assert(url_delim(s@[i as int]));
            }
            return false;
        }
        i = i + 1;
    }
    false
}

/// Whether a link to `d` would run script (see [`scripted_url`]).
pub fn is_scripted_url(d: &str) -> (r: bool)
    ensures
        r == scripted_url(d@),
{
    let f = url_fold(d);
    starts_with_lit(&f, "javascript:") || starts_with_lit(&f, "vbscript:")
}

/// Whether an image at `d` would be fetched from elsewhere (see
/// [`external_url`]).
pub fn is_external_url(d: &str) -> (r: bool)
    ensures
        r == external_url(d@),
{
    let f = url_fold(d);
    starts_with_lit(&f, "//") || scheme_present(&f)
}

/// The anchor that stands for a link whose destination runs script: the
/// link text stays, with nothing to follow.
pub open spec fn inert_anchor() -> Seq<char> {
    "<a>"@
}

// ── Event transform ──────────────────────────────────────────────────────────

/// The text of a Mermaid block whose body starts at event `k`, and the index
/// just past its end event (or the end of the events).
pub open spec fn mermaid_body(ev: Seq<MdEventView>, k: int) -> (Seq<char>, int)
    decreases ev.len() - k,
{
    if k < 0 || k >= ev.len() {
        (Seq::empty(), ev.len() as int)
    } else {
        match ev[k] {
            MdEventView::Text(t) => {
                let (d, j) = mermaid_body(ev, k + 1);
                (t + d, j)
            },
            MdEventView::EndCodeBlock => (Seq::empty(), k + 1),
            _ => mermaid_body(ev, k + 1),
        }
    }
}

/// The preview plan for events `i..`: raw HTML dropped, a link whose
/// destination runs script opened as an [`inert_anchor`], the start of an
/// image from elsewhere dropped (its text stays), math and Mermaid blocks
/// replaced by markers, everything else kept.
pub open spec fn transform_from(ev: Seq<MdEventView>, i: int) -> Seq<OutEventView>
    decreases ev.len() - i,
{
    if i < 0 || i >= ev.len() {
        Seq::empty()
    } else {
        match ev[i] {
            MdEventView::RawHtml => transform_from(ev, i + 1),
            MdEventView::InlineMath(c) => seq![OutEventView::InlineHtml(math_inline_marker(c))] + transform_from(ev, i + 1),
            MdEventView::DisplayMath(c) => seq![OutEventView::Html(math_block_marker(c))] + transform_from(ev, i + 1),
            MdEventView::StartFencedCode(l) => if l == "mermaid"@ {
                let (d, j) = mermaid_body(ev, i + 1);
                proof {
                    lemma_mermaid_body_end(ev, i + 1);
                }
                seq![OutEventView::Html(mermaid_marker(d))] + transform_from(ev, j)
            } else {
                seq![OutEventView::Keep(i as usize)] + transform_from(ev, i + 1)
            },
            MdEventView::StartLink(d) => if scripted_url(d) {
                seq![OutEventView::InlineHtml(inert_anchor())] + transform_from(ev, i + 1)
            } else {
                seq![OutEventView::Keep(i as usize)] + transform_from(ev, i + 1)
            },
            MdEventView::StartImage(d) => if external_url(d) {
                transform_from(ev, i + 1)
            } else {
                seq![OutEventView::Keep(i as usize)] + transform_from(ev, i + 1)
            },
            _ => seq![OutEventView::Keep(i as usize)] + transform_from(ev, i + 1),
        }
    }
}

/// A Mermaid body ends after it starts, and never past the last event.
pub proof fn lemma_mermaid_body_end(ev: Seq<MdEventView>, k: int)
    requires
        0 <= k,
    ensures
        k < mermaid_body(ev, k).1 <= ev.len() || (k >= ev.len() && mermaid_body(ev, k).1 == ev.len()),
    decreases ev.len() - k,
{
    if k < ev.len() {
        match ev[k] {
            MdEventView::EndCodeBlock => {},
            _ => {
                lemma_mermaid_body_end(ev, k + 1);
            },
        }
    }
}

fn collect_mermaid(events: &Vec<MdEvent>, k: usize) -> (r: (Vec<char>, usize))
    requires
        k <= events@.len(),
    ensures
        (r.0@, r.1 as int) == mermaid_body(events_view(events@), k as int),
        k <= r.1 <= events@.len(),
{
    let ghost ev = events_view(events@);
    let mut diagram: Vec<char> = Vec::new();
    let mut j: usize = k;
    proof {
        lemma_mermaid_body_end(ev, k as int);
    }
    while j < events.len()
        invariant
            k <= j <= events@.len(),
            ev == events_view(events@),
            ev.len() == events@.len(),
            mermaid_body(ev, k as int) == (diagram@ + mermaid_body(ev, j as int).0, mermaid_body(ev, j as int).1),
        decreases events@.len() - j,
    {
        assert(ev[j as int] == events@[j as int]@);
        match &events[j] {
            MdEvent::Text(t) => {
                let ghost before = diagram@;
                push_str(&mut diagram, t.as_str());
                proof {
                    let (d, e) = mermaid_body(ev, j + 1);
                    assert(before + (t@ + d) =~= diagram@ + d);
                }
                j = j + 1;
            },
            MdEvent::EndCodeBlock => {
                assert(diagram@ + Seq::<char>::empty() =~= diagram@);
                return (diagram, j + 1);
            },
            _ => {
                j = j + 1;
            },
        }
    }
    assert(diagram@ + Seq::<char>::empty() =~= diagram@);
    (diagram, j)
}

/// The preview plan for parsed `events` (see [`transform_from`]).
pub fn transform_events(events: &Vec<MdEvent>) -> (r: Vec<OutEvent>)
    ensures
        plan_view(r@) == transform_from(events_view(events@), 0),
{
    let ghost ev = events_view(events@);
    let mut out: Vec<OutEvent> = Vec::new();
    let mut i: usize = 0;
    while i < events.len()
        invariant
            i <= events@.len(),
            ev == events_view(events@),
            ev.len() == events@.len(),
            transform_from(ev, 0) == plan_view(out@) + transform_from(ev, i as int),
        decreases events@.len() - i,
    {
        assert(ev[i as int] == events@[i as int]@);
        let ghost prev = out@;
        match &events[i] {
            MdEvent::RawHtml => {
                i = i + 1;
            },
            MdEvent::InlineMath(c) => {
                out.push(OutEvent::InlineHtml(make_math_inline(c.as_str())));
                assert(plan_view(out@) =~= plan_view(prev).push(OutEventView::InlineHtml(math_inline_marker(c@))));
                i = i + 1;
            },
            MdEvent::DisplayMath(c) => {
                out.push(OutEvent::Html(make_math_block(c.as_str())));
                assert(plan_view(out@) =~= plan_view(prev).push(OutEventView::Html(math_block_marker(c@))));
                i = i + 1;
            },
            MdEvent::StartFencedCode(l) => {
                let lv = chars_of(l.as_str());
                if str_eq(&lv, "mermaid") {
                    let (d, j) = collect_mermaid(events, i + 1);
                    let ds = string_from_chars(&d);
                    out.push(OutEvent::Html(make_mermaid_block(ds.as_str())));
                    assert(plan_view(out@) =~= plan_view(prev).push(OutEventView::Html(mermaid_marker(d@))));
                    i = j;
                } else {
                    out.push(OutEvent::Keep(i));
                    assert(plan_view(out@) =~= plan_view(prev).push(OutEventView::Keep(i)));
                    i = i + 1;
                }
            },
            MdEvent::StartLink(d) => {
                if is_scripted_url(d.as_str()) {
                    out.push(OutEvent::InlineHtml(owned("<a>")));
                    assert(plan_view(out@) =~= plan_view(prev).push(OutEventView::InlineHtml(inert_anchor())));
                } else {
                    out.push(OutEvent::Keep(i));
                    assert(plan_view(out@) =~= plan_view(prev).push(OutEventView::Keep(i)));
                }
                i = i + 1;
            },
            MdEvent::StartImage(d) => {
                if !is_external_url(d.as_str()) {
                    out.push(OutEvent::Keep(i));
                    assert(plan_view(out@) =~= plan_view(prev).push(OutEventView::Keep(i)));
                }
                i = i + 1;
            },
            _ => {
                out.push(OutEvent::Keep(i));
                assert(plan_view(out@) =~= plan_view(prev).push(OutEventView::Keep(i)));
                i = i + 1;
            },
        }
    }
    assert(plan_view(out@) + transform_from(ev, i as int) =~= plan_view(out@));
    out
}

/// An event the preview may keep: any parsed event but raw HTML, the start
/// of a link whose destination runs script, and the start of an image from
/// elsewhere.
pub open spec fn keeps(ev: Seq<MdEventView>, j: int) -> bool {
    &&& 0 <= j < ev.len()
    &&& !(ev[j] is RawHtml)
    &&& !(ev[j] matches MdEventView::StartLink(d) && scripted_url(d))
    &&& !(ev[j] matches MdEventView::StartImage(d) && external_url(d))
}

/// What a plan step may be: a parsed event the preview keeps, HTML that is a
/// display-math or Mermaid marker, or inline HTML that is an inline-math
/// marker or the inert anchor.
pub open spec fn plan_step_ok(ev: Seq<MdEventView>, o: OutEventView) -> bool {
    match o {
        OutEventView::Keep(j) => keeps(ev, j as int),
        OutEventView::Html(h) => (exists|c: Seq<char>| h == #[trigger] math_block_marker(c))
            || (exists|c: Seq<char>| h == #[trigger] mermaid_marker(c)),
        OutEventView::InlineHtml(h) => (exists|c: Seq<char>| h == #[trigger] math_inline_marker(c))
            || h == inert_anchor(),
    }
}

/// Every step of `p` is one [`plan_step_ok`] allows.
pub open spec fn plan_ok(ev: Seq<MdEventView>, p: Seq<OutEventView>) -> bool {
    forall|k: int| 0 <= k < p.len() ==> plan_step_ok(ev, #[trigger] p[k])
}

proof fn lemma_plan_ok_prepend(ev: Seq<MdEventView>, h: OutEventView, tail: Seq<OutEventView>)
    requires
        plan_step_ok(ev, h),
        plan_ok(ev, tail),
    ensures
        plan_ok(ev, seq![h] + tail),
{
    let p = seq![h] + tail;
    assert forall|k: int| 0 <= k < p.len() implies plan_step_ok(ev, #[trigger] p[k]) by {
        if k > 0 {
            assert(p[k] == tail[k - 1]);
        }
    }
}

proof fn lemma_plan_ok_from(ev: Seq<MdEventView>, i: int)
    requires
        0 <= i,
        ev.len() <= usize::MAX,
    ensures
        plan_ok(ev, transform_from(ev, i)),
    decreases ev.len() - i,
{
    if i < ev.len() {
        let keep = OutEventView::Keep(i as usize);
        assert(keep matches OutEventView::Keep(j) && j as int == i);
        match ev[i] {
            MdEventView::RawHtml => {
                lemma_plan_ok_from(ev, i + 1);
            },
            MdEventView::InlineMath(c) => {
                lemma_plan_ok_from(ev, i + 1);
                assert(math_inline_marker(c) == math_inline_marker(c));
                lemma_plan_ok_prepend(ev, OutEventView::InlineHtml(math_inline_marker(c)), transform_from(ev, i + 1));
            },
            MdEventView::DisplayMath(c) => {
                lemma_plan_ok_from(ev, i + 1);
                assert(math_block_marker(c) == math_block_marker(c));
                lemma_plan_ok_prepend(ev, OutEventView::Html(math_block_marker(c)), transform_from(ev, i + 1));
            },
            MdEventView::StartFencedCode(l) => {
                if l == "mermaid"@ {
                    lemma_mermaid_body_end(ev, i + 1);
                    let (d, j) = mermaid_body(ev, i + 1);
                    lemma_plan_ok_from(ev, j);
                    assert(mermaid_marker(d) == mermaid_marker(d));
                    lemma_plan_ok_prepend(ev, OutEventView::Html(mermaid_marker(d)), transform_from(ev, j));
                } else {
                    lemma_plan_ok_from(ev, i + 1);
                    lemma_plan_ok_prepend(ev, keep, transform_from(ev, i + 1));
                }
            },
            MdEventView::StartLink(d) => {
                lemma_plan_ok_from(ev, i + 1);
                if scripted_url(d) {
                    lemma_plan_ok_prepend(ev, OutEventView::InlineHtml(inert_anchor()), transform_from(ev, i + 1));
                } else {
                    lemma_plan_ok_prepend(ev, keep, transform_from(ev, i + 1));
                }
            },
            MdEventView::StartImage(d) => {
                lemma_plan_ok_from(ev, i + 1);
                if !external_url(d) {
                    lemma_plan_ok_prepend(ev, keep, transform_from(ev, i + 1));
                }
            },
            _ => {
                lemma_plan_ok_from(ev, i + 1);
                lemma_plan_ok_prepend(ev, keep, transform_from(ev, i + 1));
            },
        }
    }
}

/// No raw HTML survives the preview transform: every event the plan keeps is
/// one of the parsed events and is not raw HTML (a block or inline), and
/// the only HTML the plan adds is a math or Mermaid marker or the inert
/// anchor.
pub proof fn law_preview_drops_raw_html(ev: Seq<MdEventView>)
    requires
        ev.len() <= usize::MAX,
    ensures
        forall|k: int| 0 <= k < transform_from(ev, 0).len() ==> (#[trigger] transform_from(ev, 0)[k] matches OutEventView::Keep(j)
            ==> 0 <= j < ev.len() && !(ev[j as int] is RawHtml)),
        forall|k: int| 0 <= k < transform_from(ev, 0).len() ==> (#[trigger] transform_from(ev, 0)[k] matches OutEventView::Html(h)
            ==> (exists|c: Seq<char>| h == #[trigger] math_block_marker(c)) || (exists|c: Seq<char>| h == #[trigger] mermaid_marker(c))),
        forall|k: int| 0 <= k < transform_from(ev, 0).len() ==> (#[trigger] transform_from(ev, 0)[k] matches OutEventView::InlineHtml(h)
            ==> (exists|c: Seq<char>| h == #[trigger] math_inline_marker(c)) || h == inert_anchor()),
{
    lemma_plan_ok_from(ev, 0);
    let t = transform_from(ev, 0);
    assert forall|k: int| 0 <= k < t.len() implies (#[trigger] t[k] matches OutEventView::Keep(j)
        ==> 0 <= j < ev.len() && !(ev[j as int] is RawHtml)) by {
        assert(plan_step_ok(ev, t[k]));
    }
    assert forall|k: int| 0 <= k < t.len() implies (#[trigger] t[k] matches OutEventView::Html(h)
        ==> (exists|c: Seq<char>| h == #[trigger] math_block_marker(c)) || (exists|c: Seq<char>| h == #[trigger] mermaid_marker(c))) by {
        assert(plan_step_ok(ev, t[k]));
    }
    assert forall|k: int| 0 <= k < t.len() implies (#[trigger] t[k] matches OutEventView::InlineHtml(h)
        ==> (exists|c: Seq<char>| h == #[trigger] math_inline_marker(c)) || h == inert_anchor()) by {
        assert(plan_step_ok(ev, t[k]));
    }
}

/// No link that runs script and no image from elsewhere survives the preview
/// transform: the plan keeps no link start whose destination is a
/// `javascript:` or `vbscript:` URL, and no image start whose source has a
/// scheme or is a network path.
pub proof fn law_preview_disarms_links_and_images(ev: Seq<MdEventView>)
    requires
        ev.len() <= usize::MAX,
    ensures
        forall|k: int| 0 <= k < transform_from(ev, 0).len() ==> (#[trigger] transform_from(ev, 0)[k] matches OutEventView::Keep(j)
            ==> !(ev[j as int] matches MdEventView::StartLink(d) && scripted_url(d))
                && !(ev[j as int] matches MdEventView::StartImage(d) && external_url(d))),
{
    lemma_plan_ok_from(ev, 0);
    let t = transform_from(ev, 0);
    assert forall|k: int| 0 <= k < t.len() implies (#[trigger] t[k] matches OutEventView::Keep(j)
        ==> !(ev[j as int] matches MdEventView::StartLink(d) && scripted_url(d))
            && !(ev[j as int] matches MdEventView::StartImage(d) && external_url(d))) by {
        assert(plan_step_ok(ev, t[k]));
    }
}

/// Render Markdown to HTML for the preview (tables, strikethrough, task lists,
/// footnotes, GFM and math enabled), through [`transform_events`].
pub fn render_markdown(markdown: &str) -> (r: String)
    ensures
        r@ == cmark_html(markdown@, transform_from(cmark_preview_events(markdown@), 0)),
{
    let events = preview_events(markdown);
    let plan = transform_events(&events);
    proof {
        let ev = events_view(events@);
        assert(ev.len() == events@.len());
        law_preview_drops_raw_html(ev);
        assert forall|k: int| 0 <= k < plan@.len() implies (#[trigger] plan@[k]@ matches OutEventView::Keep(i)
            ==> i < cmark_preview_events(markdown@).len()) by {
            assert(plan_view(plan@)[k] == plan@[k]@);
        }
    }
    render_plan(markdown, &plan)
}

} // verus!
