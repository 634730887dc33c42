//! The document weaver: re-scans a document at weaving time, matches regions
//! against the loaded registry by fingerprint, and rewrites the event stream.

use vstd::prelude::*;
use vstd::string::StrSliceExecFns;
use vstd::string::StringExecFns;
use crate::fingerprint::fingerprint;
use crate::fingerprint::fingerprint_spec;
use crate::registry::views;
use crate::scan::event_views;
use crate::scan::DocEvent;
use crate::scan::ErrorView;
use crate::scan::EventKind;
use crate::scan::EventView;
use crate::scan::KindView;
use crate::scan::ScanState;
use crate::snippet::ExampleSnippet;
use crate::snippet::SnippetView;
use crate::tags::first_unknown_token;
use crate::tags::parse_tags_spec;
use crate::tags::tags_from_string;
use crate::tags::ExampleError;
use crate::tags::ExampleTags;
use crate::text::count_nonempty;
use crate::text::split_chars;
use crate::text::split_str;

verus! {

/// One event of the rewritten stream. Untouched input events are carried by
/// their index, so the caller can reproduce them byte for byte.
pub enum OutEvent {
    /// The input event at this index, unchanged.
    Passthrough { index: usize },
    /// Start of an emitted fenced code block.
    CodeStart { info: String },
    /// An emitted text payload.
    Text { text: String },
    /// End of an emitted fenced code block.
    CodeEnd { info: String },
    /// An emitted raw line: the link-reference definition.
    Html { html: String },
    ParagraphStart,
    ParagraphEnd,
    /// Start of an emitted inline image node.
    ImageStart { url: String },
    /// End of an emitted inline image node.
    ImageEnd { url: String },
}

/// The mathematical value of an output event.
pub enum OutEventView {
    Passthrough(nat),
    CodeStart(Seq<char>),
    Text(Seq<char>),
    CodeEnd(Seq<char>),
    Html(Seq<char>),
    ParagraphStart,
    ParagraphEnd,
    ImageStart(Seq<char>),
    ImageEnd(Seq<char>),
}

impl View for OutEvent {
    type V = OutEventView;

    open spec fn view(&self) -> OutEventView {
        match self {
            OutEvent::Passthrough { index } => OutEventView::Passthrough(*index as nat),
            OutEvent::CodeStart { info } => OutEventView::CodeStart(info@),
            OutEvent::Text { text } => OutEventView::Text(text@),
            OutEvent::CodeEnd { info } => OutEventView::CodeEnd(info@),
            OutEvent::Html { html } => OutEventView::Html(html@),
            OutEvent::ParagraphStart => OutEventView::ParagraphStart,
            OutEvent::ParagraphEnd => OutEventView::ParagraphEnd,
            OutEvent::ImageStart { url } => OutEventView::ImageStart(url@),
            OutEvent::ImageEnd { url } => OutEventView::ImageEnd(url@),
        }
    }
}

pub open spec fn out_views(l: Seq<OutEvent>) -> Seq<OutEventView> {
    l.map_values(|e: OutEvent| e@)
}

pub open spec fn str_views(l: Seq<String>) -> Seq<Seq<char>> {
    l.map_values(|t: String| t@)
}

/// The relative path of a snippet's artifact file.
pub open spec fn artifact_url(rel: Seq<char>, ident: Seq<char>) -> Seq<char> {
    rel + "/"@ + ident + ".png"@
}

/// What one matching registry entry adds to the output stream: the code
/// echo unless hidden, always the link-reference line, and the embedded
/// image unless hidden.
pub open spec fn match_events(m: SnippetView, rel: Seq<char>) -> Seq<OutEventView> {
    let url = artifact_url(rel, m.ident);
    let code_part: Seq<OutEventView> = if m.tags.hide_code {
        Seq::empty()
    } else {
        seq![
            OutEventView::CodeStart("rust"@),
            OutEventView::Text(m.code + "\n"@),
            OutEventView::CodeEnd("rust"@),
        ]
    };
    let link = seq![OutEventView::Html("["@ + m.ident + "]: "@ + url)];
    let img: Seq<OutEventView> = if m.tags.hide_output {
        Seq::empty()
    } else {
        seq![
            OutEventView::ParagraphStart,
            OutEventView::ImageStart(url),
            OutEventView::ImageEnd(url),
            OutEventView::ParagraphEnd,
        ]
    };
    code_part + link + img
}

/// What the whole registry adds for one completed region: every entry whose
/// identifier equals the region's fingerprint contributes its events and one
/// harness invocation, in registry order.
pub open spec fn registry_matches(reg: Seq<SnippetView>, ident: Seq<char>, rel: Seq<char>) -> (
    Seq<OutEventView>,
    Seq<Seq<char>>,
)
    decreases reg.len(),
{
    if reg.len() == 0 {
        (Seq::empty(), Seq::empty())
    } else {
        let rest = registry_matches(reg.drop_first(), ident, rel);
        if reg[0].ident == ident {
            (match_events(reg[0], rel) + rest.0, seq![reg[0].ident] + rest.1)
        } else {
            rest
        }
    }
}

/// The weave continued from a state. Events unrelated to eligible regions
/// pass through by index; a completed eligible region is replaced by what
/// the registry's matching entries emit, and silently dropped if no entry
/// matches.
pub open spec fn weave_from(
    events: Seq<EventView>,
    i: nat,
    path: Seq<char>,
    reg: Seq<SnippetView>,
    rel: Seq<char>,
    state: ScanState,
    out: Seq<OutEventView>,
    inv: Seq<Seq<char>>,
) -> Result<(Seq<OutEventView>, Seq<Seq<char>>), ErrorView>
    decreases events.len() - i,
{
    if i >= events.len() {
        Ok((out, inv))
    } else {
        let e = events[i as int];
        match state {
            ScanState::Outside => match e.kind {
                KindView::CodeStart(info) => match parse_tags_spec(info) {
                    Err(()) => Err(ErrorView::UnknownTag(first_unknown_token(info))),
                    Ok(None) => weave_from(
                        events,
                        i + 1,
                        path,
                        reg,
                        rel,
                        ScanState::Outside,
                        out.push(OutEventView::Passthrough(i)),
                        inv,
                    ),
                    Ok(Some(t)) => weave_from(
                        events,
                        i + 1,
                        path,
                        reg,
                        rel,
                        ScanState::InBlock(t, None),
                        out,
                        inv,
                    ),
                },
                _ => weave_from(
                    events,
                    i + 1,
                    path,
                    reg,
                    rel,
                    ScanState::Outside,
                    out.push(OutEventView::Passthrough(i)),
                    inv,
                ),
            },
            ScanState::InBlock(tags, text) => match e.kind {
                KindView::Text(_) => weave_from(
                    events,
                    i + 1,
                    path,
                    reg,
                    rel,
                    ScanState::InBlock(tags, text),
                    out,
                    inv,
                ),
                KindView::CodeEnd => {
                    let ident = fingerprint_spec(path, e.start, e.end);
                    let m = registry_matches(reg, ident, rel);
                    weave_from(
                        events,
                        i + 1,
                        path,
                        reg,
                        rel,
                        ScanState::Outside,
                        out + m.0,
                        inv + m.1,
                    )
                },
                _ => weave_from(
                    events,
                    i + 1,
                    path,
                    reg,
                    rel,
                    ScanState::InBlock(tags, text),
                    out.push(OutEventView::Passthrough(i)),
                    inv,
                ),
            },
        }
    }
}

/// What one weaving pass yields: the rewritten event stream and the ordered
/// harness invocations.
pub open spec fn weave_spec(
    events: Seq<EventView>,
    path: Seq<char>,
    reg: Seq<SnippetView>,
    rel: Seq<char>,
) -> Result<(Seq<OutEventView>, Seq<Seq<char>>), ErrorView> {
    weave_from(events, 0, path, reg, rel, ScanState::Outside, Seq::empty(), Seq::empty())
}

/// The rewritten stream of one document, with the harness invocations the
/// weaver owes, in document order.
pub struct WovenDocument {
    pub events: Vec<OutEvent>,
    pub invocations: Vec<String>,
}

spec fn weave_state_view(s: WeaveState) -> ScanState {
    match s {
        WeaveState::Outside => ScanState::Outside,
        WeaveState::InBlock(t) => ScanState::InBlock(t@, None),
    }
}

/// The weaver's state; the weaver never records a region's text payload.
enum WeaveState {
    Outside,
    InBlock(ExampleTags),
}

/// Emits, for every registry entry from the given index on whose identifier
/// equals the fingerprint, the entry's events and its invocation.
#[verifier::rlimit(100)]
fn emit_matches(
    out: &mut Vec<OutEvent>,
    inv: &mut Vec<String>,
    reg: &Vec<ExampleSnippet>,
    k: usize,
    ident: &String,
    rel: &String,
)
    requires
        k <= reg@.len(),
    ensures
        out_views(final(out)@) == out_views(old(out)@) + registry_matches(
            views(reg@).skip(k as int),
            ident@,
            rel@,
        ).0,
        str_views(final(inv)@) == str_views(old(inv)@) + registry_matches(
            views(reg@).skip(k as int),
            ident@,
            rel@,
        ).1,
    decreases reg@.len() - k,
{
    let ghost rem = views(reg@).skip(k as int);
    if k >= reg.len() {
        proof {
            assert(rem =~= Seq::<SnippetView>::empty());
            assert(out_views(out@) =~= out_views(out@) + registry_matches(rem, ident@, rel@).0);
            assert(str_views(inv@) =~= str_views(inv@) + registry_matches(rem, ident@, rel@).1);
        }
        return ;
    }
    proof {
        assert(views(reg@).len() == reg@.len());
        assert(rem[0] == reg@[k as int]@);
        assert(rem.drop_first() =~= views(reg@).skip(k + 1));
    }
    let ghost out0 = out_views(out@);
    let ghost inv0 = str_views(inv@);
    let m = &reg[k];
    if m.ident.eq(ident) {
        inv.push(m.ident.clone());
        let mut url = rel.clone();
        url.append("/");
        url.append(m.ident.as_str());
        url.append(".png");
        proof {
            assert(url@ == artifact_url(rel@, m.ident@));
        }
        if !m.tags.hide_code {
            out.push(OutEvent::CodeStart { info: String::from_str("rust") });
            let mut codetext = m.code.clone();
            codetext.append("\n");
            out.push(OutEvent::Text { text: codetext });
            out.push(OutEvent::CodeEnd { info: String::from_str("rust") });
        }
        let mut html = String::from_str("[");
        html.append(m.ident.as_str());
        html.append("]: ");
        html.append(url.as_str());
        out.push(OutEvent::Html { html });
        if !m.tags.hide_output {
            out.push(OutEvent::ParagraphStart);
            out.push(OutEvent::ImageStart { url: url.clone() });
            out.push(OutEvent::ImageEnd { url });
            out.push(OutEvent::ParagraphEnd);
        }
        proof {
            assert(out_views(out@) =~= out0 + match_events(rem[0], rel@));
            assert(str_views(inv@) =~= inv0 + seq![rem[0].ident]);
        }
        let ghost out1 = out_views(out@);
        let ghost inv1 = str_views(inv@);
        emit_matches(out, inv, reg, k + 1, ident, rel);
        proof {
            let rest = registry_matches(rem.drop_first(), ident@, rel@);
            assert(out_views(out@) =~= out0 + (match_events(rem[0], rel@) + rest.0));
            assert(str_views(inv@) =~= inv0 + (seq![rem[0].ident] + rest.1));
        }
    } else {
        emit_matches(out, inv, reg, k + 1, ident, rel);
    }
}

/// Rewrites one document's event stream against a loaded registry.
///
/// Eligible regions are matched by fingerprint: each matching registry entry
/// contributes a code echo (unless `hide_code`), the link-reference line for
/// its artifact, an embedded image (unless `hide_output`), and one harness
/// invocation. A completed region that no entry matches is dropped. All
/// other events pass through unchanged, in order.
pub fn weave(
    events: &Vec<DocEvent>,
    doc_path: &str,
    registry: &Vec<ExampleSnippet>,
    rel_image_path: &String,
) -> (r: Result<WovenDocument, ExampleError>)
    ensures
        match r {
            Ok(w) => weave_spec(event_views(events@), doc_path@, views(registry@), rel_image_path@)
                == Ok::<_, ErrorView>((out_views(w.events@), str_views(w.invocations@))),
            Err(e) => weave_spec(
                event_views(events@),
                doc_path@,
                views(registry@),
                rel_image_path@,
            ) == Err::<(Seq<OutEventView>, Seq<Seq<char>>), _>(e@),
        },
{
    let ghost evs = event_views(events@);
    let ghost regv = views(registry@);
    let mut out: Vec<OutEvent> = Vec::new();
    let mut inv: Vec<String> = Vec::new();
    let mut state: WeaveState = WeaveState::Outside;
    let mut i: usize = 0;
    proof {
        assert(out_views(out@) =~= Seq::<OutEventView>::empty());
        assert(str_views(inv@) =~= Seq::<Seq<char>>::empty());
    }
    while i < events.len()
        invariant
            i <= events@.len(),
            evs == event_views(events@),
            regv == views(registry@),
            evs.len() == events@.len(),
            weave_from(
                evs,
                i as nat,
                doc_path@,
                regv,
                rel_image_path@,
                weave_state_view(state),
                out_views(out@),
                str_views(inv@),
            ) == weave_spec(evs, doc_path@, regv, rel_image_path@),
        decreases events@.len() - i,
    {
        proof {
            assert(evs[i as int] == events@[i as int]@);
        }
        let ev = &events[i];
        let prev = state;
        state = WeaveState::Outside;
        let ghost out0 = out_views(out@);
        let ghost inv0 = str_views(inv@);
        match prev {
            WeaveState::Outside => {
                match &ev.kind {
                    EventKind::CodeStart { info } => {
                        match tags_from_string(info.clone()) {
                            Err(e) => {
                                return Err(e);
                            },
                            Ok(None) => {
                                out.push(OutEvent::Passthrough { index: i });
                                proof {
                                    assert(out_views(out@) =~= out0.push(
                                        OutEventView::Passthrough(i as nat),
                                    ));
                                }
                                state = WeaveState::Outside;
                            },
                            Ok(Some(t)) => {
                                state = WeaveState::InBlock(t);
                            },
                        }
                    },
                    _ => {
                        out.push(OutEvent::Passthrough { index: i });
                        proof {
                            assert(out_views(out@) =~= out0.push(
                                OutEventView::Passthrough(i as nat),
                            ));
                        }
                        state = WeaveState::Outside;
                    },
                }
            },
            WeaveState::InBlock(tags) => {
                match &ev.kind {
                    EventKind::Text { .. } => {
                        state = WeaveState::InBlock(tags);
                    },
                    EventKind::CodeEnd => {
                        let ident = fingerprint(doc_path, ev.start, ev.end);
                        emit_matches(&mut out, &mut inv, registry, 0, &ident, rel_image_path);
                        proof {
                            assert(regv.skip(0) =~= regv);
                        }
                        state = WeaveState::Outside;
                    },
                    _ => {
                        out.push(OutEvent::Passthrough { index: i });
                        proof {
                            assert(out_views(out@) =~= out0.push(
                                OutEventView::Passthrough(i as nat),
                            ));
                        }
                        state = WeaveState::InBlock(tags);
                    },
                }
            },
        }
        i = i + 1;
    }
    Ok(WovenDocument { events: out, invocations: inv })
}

/// One step up per component of the chapter's path.
pub open spec fn repeat_updir(n: nat) -> Seq<char>
    decreases n,
{
    if n == 0 {
        Seq::empty()
    } else {
        repeat_updir((n - 1) as nat) + "../"@
    }
}

/// The relative path from a chapter to the generated-artifact directory.
pub open spec fn img_url_spec(path: Seq<char>) -> Seq<char> {
    repeat_updir(count_nonempty(split_chars(path, '/'))) + "_generated"@
}

/// The relative path from a chapter at the given path to the directory that
/// holds the generated artifacts: one step up per path component.
pub fn get_relative_img_url(chapter_path: &str) -> (r: String)
    ensures
        r@ == img_url_spec(chapter_path@),
{
    let parts = split_str(chapter_path, '/');
    let ghost pviews = parts@.map_values(|t: String| t@);
    let mut depth: usize = 0;
    let mut k: usize = 0;
    proof {
        assert(pviews.skip(0) =~= pviews);
    }
    while k < parts.len()
        invariant
            k <= parts@.len(),
            pviews == parts@.map_values(|t: String| t@),
            depth <= k,
            depth + count_nonempty(pviews.skip(k as int)) == count_nonempty(pviews),
        decreases parts@.len() - k,
    {
        let ghost rem = pviews.skip(k as int);
        proof {
            assert(rem[0] == parts@[k as int]@);
            assert(rem.drop_first() =~= pviews.skip(k + 1));
        }
        if !parts[k].as_str().is_empty() {
            depth = depth + 1;
        }
        k = k + 1;
    }
    proof {
        assert(pviews.skip(parts@.len() as int) =~= Seq::<Seq<char>>::empty());
    }
    let mut outp = String::new();
    let mut j: usize = 0;
    proof {
        assert(outp@ =~= repeat_updir(0));
    }
    while j < depth
        invariant
            j <= depth,
            outp@ == repeat_updir(j as nat),
        decreases depth - j,
    {
        outp.append("../");
        j = j + 1;
    }
    outp.append("_generated");
    proof {
        assert(count_nonempty(pviews) == count_nonempty(split_chars(chapter_path@, '/')));
    }
    outp
}

} // verus!
