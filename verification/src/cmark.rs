//! The CommonMark parser (pulldown-cmark) seen through the library's own
//! event types.
//!
//! Each event of the parse is converted one for one into an [`MdEvent`] (or
//! only its kind, [`MdKind`]), keeping the event's byte range; rendering takes
//! a plan that keeps parsed events by index or inserts HTML of its own.

use vstd::prelude::*;
use pulldown_cmark::{html, Event, Options, Parser, Tag, TagEnd};
use pulldown_cmark::CodeBlockKind::Fenced;
use pulldown_cmark::Event::{DisplayMath, End, Html, InlineHtml, InlineMath, Start, Text};
use pulldown_cmark::Tag::{Image, Link};

verus! {

/// The kind of a parse event, as far as code exclusion needs it.
#[derive(Clone, Copy, Debug, PartialEq, Eq, Structural)]
pub enum MdKind {
    /// Start of a fenced or indented code block (its range is the whole block).
    CodeBlockStart,
    /// An inline code span (its range includes the backticks).
    InlineCode,
    /// Any other event.
    Other,
}

/// A parse event with the payloads the preview transform needs.
#[derive(Clone, Debug)]
pub enum MdEvent {
    /// Raw HTML, a block line or inline.
    RawHtml,
    /// `$...$` math.
    InlineMath(String),
    /// `$$...$$` math.
    DisplayMath(String),
    /// Start of a fenced code block, with its info string.
    StartFencedCode(String),
    /// End of a code block.
    EndCodeBlock,
    /// A text node.
    Text(String),
    /// Start of a link, with its destination.
    StartLink(String),
    /// Start of an image, with its source.
    StartImage(String),
    /// Any other event.
    Other,
}

/// The view of an [`MdEvent`]: payloads as character sequences.
pub enum MdEventView {
    RawHtml,
    InlineMath(Seq<char>),
    DisplayMath(Seq<char>),
    StartFencedCode(Seq<char>),
    EndCodeBlock,
    Text(Seq<char>),
    StartLink(Seq<char>),
    StartImage(Seq<char>),
    Other,
}

impl View for MdEvent {
    type V = MdEventView;

    open spec fn view(&self) -> MdEventView {
        match self {
            MdEvent::RawHtml => MdEventView::RawHtml,
            MdEvent::InlineMath(s) => MdEventView::InlineMath(s@),
            MdEvent::DisplayMath(s) => MdEventView::DisplayMath(s@),
            MdEvent::StartFencedCode(s) => MdEventView::StartFencedCode(s@),
            MdEvent::EndCodeBlock => MdEventView::EndCodeBlock,
            MdEvent::Text(s) => MdEventView::Text(s@),
            MdEvent::StartLink(s) => MdEventView::StartLink(s@),
            MdEvent::StartImage(s) => MdEventView::StartImage(s@),
            MdEvent::Other => MdEventView::Other,
        }
    }
}

/// One step of a rendering plan.
#[derive(Clone, Debug)]
pub enum OutEvent {
    /// Emit the parsed event with this index unchanged.
    Keep(usize),
    /// Emit this HTML as a block.
    Html(String),
    /// Emit this HTML inline.
    InlineHtml(String),
}

/// The view of an [`OutEvent`].
pub enum OutEventView {
    Keep(usize),
    Html(Seq<char>),
    InlineHtml(Seq<char>),
}

impl View for OutEvent {
    type V = OutEventView;

    open spec fn view(&self) -> OutEventView {
        match self {
            OutEvent::Keep(i) => OutEventView::Keep(*i),
            OutEvent::Html(s) => OutEventView::Html(s@),
            OutEvent::InlineHtml(s) => OutEventView::InlineHtml(s@),
        }
    }
}

/// Event kinds and byte ranges of a parse with tables, strikethrough, task
/// lists and GFM enabled (the parse used to exclude code from link scans).
pub uninterp spec fn cmark_gfm_spans(content: Seq<char>) -> Seq<(MdKind, usize, usize)>;

/// Events of a parse with tables, strikethrough, task lists, footnotes, GFM
/// and math enabled (the parse used for the preview).
pub uninterp spec fn cmark_preview_events(content: Seq<char>) -> Seq<MdEventView>;

/// HTML that pulldown-cmark's `push_html` writes for the preview parse of
/// `content` transformed by `plan`.
pub uninterp spec fn cmark_html(content: Seq<char>, plan: Seq<OutEventView>) -> Seq<char>;

/// The view of a sequence of events.
pub open spec fn events_view(v: Seq<MdEvent>) -> Seq<MdEventView> {
    v.map_values(|e: MdEvent| e@)
}

/// The view of a rendering plan.
pub open spec fn plan_view(v: Seq<OutEvent>) -> Seq<OutEventView> {
    v.map_values(|e: OutEvent| e@)
}

/// `Parser::new_ext(..).into_offset_iter()` with the link-scan options: the
/// kind and byte range of every event, in parse order. The parse is taken
/// as a function of the content alone and named [`cmark_gfm_spans`].
#[verifier::external_body]
pub(crate) fn gfm_spans(content: &str) -> (r: Vec<(MdKind, usize, usize)>)
    ensures
        r@ == cmark_gfm_spans(content@),
{
    let opts = Options::ENABLE_TABLES | Options::ENABLE_STRIKETHROUGH | Options::ENABLE_TASKLISTS
        | Options::ENABLE_GFM;
    Parser::new_ext(content, opts).into_offset_iter().map(|(e, r)| {
        let kind = match e {
            Event::Start(Tag::CodeBlock(_)) => MdKind::CodeBlockStart,
            Event::Code(_) => MdKind::InlineCode,
            _ => MdKind::Other,
        };
        (kind, r.start, r.end)
    }).collect()
}

/// `Parser::new_ext(..)` with the preview options: every event converted to
/// an [`MdEvent`], in parse order; named [`cmark_preview_events`].
#[verifier::external_body]
pub(crate) fn preview_events(content: &str) -> (r: Vec<MdEvent>)
    ensures
        events_view(r@) == cmark_preview_events(content@),
{
    let opts = Options::ENABLE_TABLES | Options::ENABLE_STRIKETHROUGH | Options::ENABLE_TASKLISTS
        | Options::ENABLE_FOOTNOTES | Options::ENABLE_GFM | Options::ENABLE_MATH;
    Parser::new_ext(content, opts).map(|e| match e {
        Html(_) | InlineHtml(_) => MdEvent::RawHtml,
        InlineMath(s) => MdEvent::InlineMath(s.to_string()),
        DisplayMath(s) => MdEvent::DisplayMath(s.to_string()),
        Start(Tag::CodeBlock(Fenced(l))) => MdEvent::StartFencedCode(l.to_string()),
        End(TagEnd::CodeBlock) => MdEvent::EndCodeBlock,
        Text(s) => MdEvent::Text(s.to_string()),
        Start(Link { dest_url, .. }) => MdEvent::StartLink(dest_url.to_string()),
        Start(Image { dest_url, .. }) => MdEvent::StartImage(dest_url.to_string()),
        _ => MdEvent::Other,
    }).collect()
}

/// `html::push_html` over the preview parse of `content`, with the events
/// replaced as `plan` says; named [`cmark_html`]. Every kept index must name
/// a parsed event.
#[verifier::external_body]
pub(crate) fn render_plan(content: &str, plan: &Vec<OutEvent>) -> (r: String)
    requires
        forall|k: int| 0 <= k < plan@.len() ==> (#[trigger] plan@[k]@ matches OutEventView::Keep(i)
            ==> i < cmark_preview_events(content@).len()),
    ensures
        r@ == cmark_html(content@, plan_view(plan@)),
{
    let opts = Options::ENABLE_TABLES | Options::ENABLE_STRIKETHROUGH | Options::ENABLE_TASKLISTS
        | Options::ENABLE_FOOTNOTES | Options::ENABLE_GFM | Options::ENABLE_MATH;
    let events: Vec<Event> = Parser::new_ext(content, opts).collect();
    let out = plan.iter().map(|p| match p {
        OutEvent::Keep(i) => events[*i].clone(),
        OutEvent::Html(s) => Event::Html(s.clone().into()),
        OutEvent::InlineHtml(s) => Event::InlineHtml(s.clone().into()),
    });
    let mut html_output = String::new();
    html::push_html(&mut html_output, out);
    html_output
}

} // verus!

