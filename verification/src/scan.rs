//! The document scanner: a two-state machine over a document's event stream
//! that locates eligible fenced-code regions and yields one snippet each.

use vstd::prelude::*;
use vstd::string::StringExecFns;
use crate::fingerprint::fingerprint;
use crate::fingerprint::fingerprint_spec;
use crate::registry::opt_str_view;
use crate::registry::views;
use crate::snippet::ExampleSnippet;
use crate::snippet::SnippetView;
use crate::tags::first_unknown_token;
use crate::tags::parse_tags_spec;
use crate::tags::tags_from_string;
use crate::tags::ExampleError;
use crate::tags::ExampleTags;
use crate::tags::TagsView;
use crate::text::clean_code;
use crate::text::clean_code_spec;

verus! {

/// The structural kind of one document event.
pub enum EventKind {
    /// Start of a fenced code block, with its info string.
    CodeStart { info: String },
    /// One inline text payload.
    Text { text: String },
    /// End of a fenced code block.
    CodeEnd,
    /// Any other structural event; the pipeline passes it through.
    Other,
}

/// One event of a document's ordered event stream, with its byte span.
pub struct DocEvent {
    pub kind: EventKind,
    pub start: usize,
    pub end: usize,
}

/// The mathematical value of an event's kind.
pub enum KindView {
    CodeStart(Seq<char>),
    Text(Seq<char>),
    CodeEnd,
    Other,
}

/// The mathematical value of an event.
pub struct EventView {
    pub kind: KindView,
    pub start: nat,
    pub end: nat,
}

impl View for DocEvent {
    type V = EventView;

    open spec fn view(&self) -> EventView {
        EventView {
            kind: match self.kind {
                EventKind::CodeStart { info } => KindView::CodeStart(info@),
                EventKind::Text { text } => KindView::Text(text@),
                EventKind::CodeEnd => KindView::CodeEnd,
                EventKind::Other => KindView::Other,
            },
            start: self.start as nat,
            end: self.end as nat,
        }
    }
}

/// The views of an event sequence.
pub open spec fn event_views(l: Seq<DocEvent>) -> Seq<EventView> {
    l.map_values(|e: DocEvent| e@)
}

/// The mathematical value of a pipeline error.
pub enum ErrorView {
    UnknownTag(Seq<char>),
    ExtraText,
    MissingText,
}

impl View for ExampleError {
    type V = ErrorView;

    open spec fn view(&self) -> ErrorView {
        match self {
            ExampleError::UnknownTag { token } => ErrorView::UnknownTag(token@),
            ExampleError::ExtraText => ErrorView::ExtraText,
            ExampleError::MissingText => ErrorView::MissingText,
        }
    }
}

/// The scanner's state: outside any eligible region, or inside one with its
/// flags and the text payload seen so far.
pub enum ScanState {
    Outside,
    InBlock(TagsView, Option<Seq<char>>),
}

/// The scan continued from a state: each eligible region contributes one
/// snippet whose identifier is the fingerprint of the span carried by the
/// region's end event and whose code is the cleaned text payload.
pub open spec fn scan_from(
    events: Seq<EventView>,
    path: Seq<char>,
    state: ScanState,
    acc: Seq<SnippetView>,
) -> Result<Seq<SnippetView>, ErrorView>
    decreases events.len(),
{
    if events.len() == 0 {
        Ok(acc)
    } else {
        let e = events[0];
        let rest = events.drop_first();
        match state {
            ScanState::Outside => match e.kind {
                KindView::CodeStart(info) => match parse_tags_spec(info) {
                    Err(()) => Err(ErrorView::UnknownTag(first_unknown_token(info))),
                    Ok(None) => scan_from(rest, path, ScanState::Outside, acc),
                    Ok(Some(t)) => scan_from(rest, path, ScanState::InBlock(t, None), acc),
                },
                _ => scan_from(rest, path, ScanState::Outside, acc),
            },
            ScanState::InBlock(tags, text) => match e.kind {
                KindView::Text(t) => if text is Some {
                    Err(ErrorView::ExtraText)
                } else {
                    scan_from(rest, path, ScanState::InBlock(tags, Some(t)), acc)
                },
                KindView::CodeEnd => match text {
                    None => Err(ErrorView::MissingText),
                    Some(t) => {
                        let sn = SnippetView {
                            ident: fingerprint_spec(path, e.start, e.end),
                            code: clean_code_spec(t),
                            tags: tags,
                        };
                        scan_from(rest, path, ScanState::Outside, acc.push(sn))
                    },
                },
                _ => scan_from(rest, path, ScanState::InBlock(tags, text), acc),
            },
        }
    }
}

/// What one scan of a document yields.
pub open spec fn scan_spec(events: Seq<EventView>, path: Seq<char>) -> Result<
    Seq<SnippetView>,
    ErrorView,
> {
    scan_from(events, path, ScanState::Outside, Seq::empty())
}

/// The scanner is a function of the document alone: scanning the same event
/// stream of the same document twice yields identical snippet sequences,
/// with the same identifiers, the same code and the same tags.
pub proof fn lemma_scan_idempotent(
    events: Seq<EventView>,
    path: Seq<char>,
    r1: Result<Seq<SnippetView>, ErrorView>,
    r2: Result<Seq<SnippetView>, ErrorView>,
)
    requires
        r1 == scan_spec(events, path),
        r2 == scan_spec(events, path),
    ensures
        r1 == r2,
{
}

/// The scanner's state with its exec payloads.
enum State {
    Outside,
    InBlock(ExampleTags, Option<String>),
}

spec fn state_view(s: State) -> ScanState {
    match s {
        State::Outside => ScanState::Outside,
        State::InBlock(t, txt) => ScanState::InBlock(t@, opt_str_view(txt)),
    }
}

/// Walks a document's event stream once and yields one snippet per eligible
/// region, in document order.
///
/// An unknown token in an eligible region's info string, a second text
/// payload inside one region, and a region that ends without any text
/// payload are the fatal errors.
pub fn scan(events: &Vec<DocEvent>, doc_path: &str) -> (r: Result<Vec<ExampleSnippet>, ExampleError>)
    ensures
        match r {
            Ok(v) => scan_spec(event_views(events@), doc_path@) == Ok::<_, ErrorView>(views(v@)),
            Err(e) => scan_spec(event_views(events@), doc_path@) == Err::<Seq<SnippetView>, _>(e@),
        },
{
    let ghost evs = event_views(events@);
    let mut acc: Vec<ExampleSnippet> = Vec::new();
    let mut state: State = State::Outside;
    let mut i: usize = 0;
    proof {
        assert(evs.skip(0) =~= evs);
        assert(views(acc@) =~= Seq::<SnippetView>::empty());
    }
    while i < events.len()
        invariant
            i <= events@.len(),
            evs == event_views(events@),
            evs.len() == events@.len(),
            scan_from(evs.skip(i as int), doc_path@, state_view(state), views(acc@)) == scan_spec(
                evs,
                doc_path@,
            ),
        decreases events@.len() - i,
    {
        let ghost rem = evs.skip(i as int);
        proof {
            assert(rem[0] == events@[i as int]@);
            assert(rem.drop_first() =~= evs.skip(i + 1));
        }
        let ev = &events[i];
        let prev = state;
        state = State::Outside;
        match prev {
            State::Outside => {
                match &ev.kind {
                    EventKind::CodeStart { info } => {
                        match tags_from_string(info.clone()) {
                            Err(e) => {
                                return Err(e);
                            },
                            Ok(None) => {
                                state = State::Outside;
                            },
                            Ok(Some(t)) => {
                                state = State::InBlock(t, None);
                            },
                        }
                    },
                    _ => {
                        state = State::Outside;
                    },
                }
            },
            State::InBlock(tags, text) => {
                match &ev.kind {
                    EventKind::Text { text: payload } => {
                        if text.is_some() {
                            return Err(ExampleError::ExtraText);
                        }
                        state = State::InBlock(tags, Some(payload.clone()));
                    },
                    EventKind::CodeEnd => {
                        match text {
                            None => {
                                return Err(ExampleError::MissingText);
                            },
                            Some(t) => {
                                let ident = fingerprint(doc_path, ev.start, ev.end);
                                let code = clean_code(t.as_str());
                                let ghost acc0 = views(acc@);
                                let ghost sn_view = SnippetView {
                                    ident: fingerprint_spec(doc_path@, ev@.start, ev@.end),
                                    code: clean_code_spec(t@),
                                    tags: tags@,
                                };
                                acc.push(ExampleSnippet { ident, code, tags });
                                proof {
                                    assert(views(acc@) =~= acc0.push(sn_view));
                                }
                                state = State::Outside;
                            },
                        }
                    },
                    _ => {
                        state = State::InBlock(tags, text);
                    },
                }
            },
        }
        i = i + 1;
    }
    proof {
        assert(evs.skip(events@.len() as int) =~= Seq::<EventView>::empty());
    }
    Ok(acc)
}

} // verus!
