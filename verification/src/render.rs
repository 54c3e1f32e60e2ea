//! The renderer: a single pass over the event sequence that emits the HTML
//! body and collects the heading records.

use vstd::prelude::*;
use vstd::string::StringExecFns;
use crate::events::{
    Alignment, HeadingRec, HeadingRecord, MdEvent, SpecEvent, SpecTag, TagKind, opt_str_view,
    view_events, view_headings,
};
use crate::escape::{escape_into, escape_seq};
use crate::numfmt::{dec_digits, u64_dec};

verus! {

/// The nesting state the renderer carries from event to event.
pub struct SpecRState {
    /// One entry per open list, innermost last; `true` for an ordered list.
    pub list_stack: Seq<bool>,
    /// The column alignments of the open table, while one is open.
    pub table: Option<Seq<Alignment>>,
    /// Whether a heading is open.
    pub in_heading: bool,
}

/// The whole renderer at one moment: nesting state, output so far, headings
/// so far.
pub struct SpecMachine {
    pub st: SpecRState,
    pub out: Seq<char>,
    pub headings: Seq<HeadingRec>,
}

pub open spec fn init_machine() -> SpecMachine {
    SpecMachine {
        st: SpecRState { list_stack: Seq::empty(), table: Option::None, in_heading: false },
        out: Seq::empty(),
        headings: Seq::empty(),
    }
}

/// Whether some column of the table is right-aligned: the table-wide policy
/// under which every cell of such a table is rendered as a header cell.
pub open spec fn any_right(al: Seq<Alignment>) -> bool {
    exists|i: int| 0 <= i < al.len() && al[i] is Right
}

/// Whether a cell opened in this state is a header cell.
pub open spec fn cell_is_header(st: SpecRState) -> bool {
    match st.table {
        Option::Some(al) => any_right(al),
        Option::None => false,
    }
}

/// ` class="..."` when a class is configured, nothing otherwise.
pub open spec fn class_attr(c: Option<Seq<char>>) -> Seq<char> {
    match c {
        Option::Some(s) => " class=\""@ + s + "\""@,
        Option::None => Seq::empty(),
    }
}

/// The characters a start tag emits in the given state.
pub open spec fn start_html(
    st: SpecRState,
    tag: SpecTag,
    hc: Option<Seq<char>>,
    pc: Option<Seq<char>>,
) -> Seq<char> {
    match tag {
        SpecTag::Heading { level, anchor } => "<h"@ + dec_digits(level) + class_attr(hc) + ">"@,
        SpecTag::Paragraph => "<p"@ + class_attr(pc) + ">"@,
        SpecTag::Strong => "<strong>"@,
        SpecTag::Emphasis => "<em>"@,
        SpecTag::Link { url } => "<a href=\""@ + url + "\">"@,
        SpecTag::Image { url, alt } => "<img src=\""@ + url + "\" alt=\""@ + alt + "\""@ + (
        if alt.len() == 0 {
            Seq::<char>::empty()
        } else {
            " title=\""@ + alt + "\""@
        }) + ">\n"@,
        SpecTag::List { start } => match start {
            Option::Some(n) => "<ol start=\""@ + dec_digits(n) + "\">\n"@,
            Option::None => "<ul>\n"@,
        },
        SpecTag::ListItem => "<li>"@,
        SpecTag::CodeBlock { language } => "<pre><code class=\"language-"@ + (match language {
            Option::Some(l) => l,
            Option::None => Seq::empty(),
        }) + "\">"@,
        SpecTag::BlockQuote => "<blockquote>\n"@,
        SpecTag::Table { alignments } => "<table>\n"@,
        SpecTag::TableHead => "<thead>\n<tr>"@,
        SpecTag::TableRow => "<tr>"@,
        SpecTag::TableCell => if cell_is_header(st) {
            "<th>"@
        } else {
            "<td>"@
        },
        SpecTag::Strikethrough => "<s>"@,
        SpecTag::Other => Seq::empty(),
    }
}

/// The characters an end tag emits in the given state. An end tag of a list
/// with no list open emits nothing; an image end tag emits nothing since the
/// image element is self-contained.
pub open spec fn end_html(st: SpecRState, tag: SpecTag) -> Seq<char> {
    match tag {
        SpecTag::Heading { level, anchor } => "</h"@ + dec_digits(level) + ">\n"@,
        SpecTag::Paragraph => "</p>\n"@,
        SpecTag::Strong => "</strong>"@,
        SpecTag::Emphasis => "</em>"@,
        SpecTag::Link { url } => "</a>"@,
        SpecTag::Image { url, alt } => Seq::empty(),
        SpecTag::List { start } => if st.list_stack.len() > 0 {
            if st.list_stack.last() {
                "</ol>\n"@
            } else {
                "</ul>\n"@
            }
        } else {
            Seq::empty()
        },
        SpecTag::ListItem => "</li>\n"@,
        SpecTag::CodeBlock { language } => "</code></pre>\n"@,
        SpecTag::BlockQuote => "</blockquote>\n"@,
        SpecTag::Table { alignments } => "</table>\n"@,
        SpecTag::TableHead => "</tr></thead>\n"@,
        SpecTag::TableRow => "</tr>\n"@,
        SpecTag::TableCell => if cell_is_header(st) {
            "</th>"@
        } else {
            "</td>"@
        },
        SpecTag::Strikethrough => "</s>"@,
        SpecTag::Other => Seq::empty(),
    }
}

/// The characters one event appends to the output in the given state.
pub open spec fn event_html(
    st: SpecRState,
    ev: SpecEvent,
    hc: Option<Seq<char>>,
    pc: Option<Seq<char>>,
) -> Seq<char> {
    match ev {
        SpecEvent::Start(tag) => start_html(st, tag, hc, pc),
        SpecEvent::End(tag) => end_html(st, tag),
        SpecEvent::Text(t) => escape_seq(t),
        SpecEvent::Code(t) => "<code>"@ + escape_seq(t) + "</code>"@,
        SpecEvent::Rule => "<hr>\n"@,
        SpecEvent::Other => Seq::empty(),
    }
}

/// The nesting state after one event.
pub open spec fn step_state(st: SpecRState, ev: SpecEvent) -> SpecRState {
    match ev {
        SpecEvent::Start(tag) => match tag {
            SpecTag::Heading { level, anchor } => SpecRState { in_heading: true, ..st },
            SpecTag::List { start } => SpecRState {
                list_stack: st.list_stack.push(start is Some),
                ..st
            },
            SpecTag::Table { alignments } => SpecRState {
                table: Option::Some(alignments),
                ..st
            },
            _ => st,
        },
        SpecEvent::End(tag) => match tag {
            SpecTag::Heading { level, anchor } => SpecRState { in_heading: false, ..st },
            SpecTag::List { start } => if st.list_stack.len() > 0 {
                SpecRState { list_stack: st.list_stack.drop_last(), ..st }
            } else {
                st
            },
            SpecTag::Table { alignments } => SpecRState { table: Option::None, ..st },
            _ => st,
        },
        _ => st,
    }
}

/// The heading records after one event: a heading start appends a fresh
/// record, text inside an open heading extends the last record's raw text.
pub open spec fn step_headings(st: SpecRState, hs: Seq<HeadingRec>, ev: SpecEvent) -> Seq<
    HeadingRec,
> {
    match ev {
        SpecEvent::Start(tag) => match tag {
            SpecTag::Heading { level, anchor } => hs.push(
                HeadingRec {
                    level: level,
                    anchor: match anchor {
                        Option::Some(a) => a,
                        Option::None => Seq::empty(),
                    },
                    text: Seq::empty(),
                },
            ),
            _ => hs,
        },
        SpecEvent::Text(t) => if st.in_heading && hs.len() > 0 {
            hs.update(
                hs.len() - 1,
                HeadingRec { text: hs.last().text + t, ..hs.last() },
            )
        } else {
            hs
        },
        _ => hs,
    }
}

/// The machine after one more event.
pub open spec fn step(
    m: SpecMachine,
    ev: SpecEvent,
    hc: Option<Seq<char>>,
    pc: Option<Seq<char>>,
) -> SpecMachine {
    SpecMachine {
        st: step_state(m.st, ev),
        out: m.out + event_html(m.st, ev, hc, pc),
        headings: step_headings(m.st, m.headings, ev),
    }
}

/// The machine after a whole event sequence, started from the initial state.
pub open spec fn run(
    events: Seq<SpecEvent>,
    hc: Option<Seq<char>>,
    pc: Option<Seq<char>>,
) -> SpecMachine
    decreases events.len(),
{
    if events.len() == 0 {
        init_machine()
    } else {
        step(run(events.drop_last(), hc, pc), events.last(), hc, pc)
    }
}

/// The HTML body a whole event sequence renders to.
pub open spec fn body_html(
    events: Seq<SpecEvent>,
    hc: Option<Seq<char>>,
    pc: Option<Seq<char>>,
) -> Seq<char> {
    run(events, hc, pc).out
}

pub proof fn lemma_run_push(
    s: Seq<SpecEvent>,
    e: SpecEvent,
    hc: Option<Seq<char>>,
    pc: Option<Seq<char>>,
)
    ensures
        run(s.push(e), hc, pc) == step(run(s, hc, pc), e, hc, pc),
{
    assert(s.push(e).drop_last() =~= s);
    assert(s.push(e).last() == e);
}

/// An end-of-list event with no list open emits nothing and changes nothing:
/// the defensive no-op for unbalanced event streams.
pub proof fn lemma_end_list_empty_stack(
    st: SpecRState,
    start: Option<int>,
    hc: Option<Seq<char>>,
    pc: Option<Seq<char>>,
)
    requires
        st.list_stack.len() == 0,
    ensures
        event_html(st, SpecEvent::End(SpecTag::List { start }), hc, pc) == Seq::<char>::empty(),
        step_state(st, SpecEvent::End(SpecTag::List { start })) == st,
{
}

/// The heading list is append-only and keeps document order: one more event
/// never removes or reorders records — it can only append one record, or
/// extend the text of the last one, keeping its level and anchor.
pub proof fn lemma_headings_append_only(
    s: Seq<SpecEvent>,
    e: SpecEvent,
    hc: Option<Seq<char>>,
    pc: Option<Seq<char>>,
)
    ensures
        ({
            let before = run(s, hc, pc).headings;
            let after = run(s.push(e), hc, pc).headings;
            before.len() <= after.len() <= before.len() + 1 && (forall|i: int|
                0 <= i < before.len() - 1 ==> after[i] == before[i]) && (before.len() > 0
                && after.len() == before.len() ==> after.last().level == before.last().level
                && after.last().anchor == before.last().anchor
                && before.last().text.is_prefix_of(after.last().text))
        }),
{
    lemma_run_push(s, e, hc, pc);
    let before = run(s, hc, pc).headings;
    let after = run(s.push(e), hc, pc).headings;
    if before.len() > 0 && after.len() == before.len() {
        assert(before.last().text.is_prefix_of(after.last().text)) by {
            assert(after.last().text.take(before.last().text.len() as int)
                =~= before.last().text);
        }
    }
}

fn emit_class(out: &mut String, c: &Option<String>)
    ensures
        final (out)@ == old(out)@ + class_attr(opt_str_view(*c)),
{
    match c {
        Option::Some(s) => {
            out.append(" class=\"");
            out.append(s.as_str());
            out.append("\"");
            proof {
                assert(out@ =~= old(out)@ + class_attr(opt_str_view(*c)));
            }
        },
        Option::None => {
            proof {
                assert(out@ =~= old(out)@ + class_attr(opt_str_view(*c)));
            }
        },
    }
}

/// Whether some column is right-aligned.
fn has_right(al: &Vec<Alignment>) -> (r: bool)
    ensures
        r == any_right(al@),
{
    let mut j: usize = 0;
    while j < al.len()
        invariant
            j <= al.len(),
            forall|k: int| 0 <= k < j ==> !(al@[k] is Right),
        decreases al.len() - j,
    {
        let a = al[j];
        match a {
            Alignment::Right => {
                return true;
            },
            _ => {},
        }
        j += 1;
    }
    false
}

/// The view of the optional current-table alignments.
pub open spec fn opt_align_view(t: Option<Vec<Alignment>>) -> Option<Seq<Alignment>> {
    match t {
        Option::Some(v) => Option::Some(v@),
        Option::None => Option::None,
    }
}

/// Renders the event sequence: returns the HTML body fragment and the heading
/// records collected on the way, in document order.
pub fn render(
    events: &Vec<MdEvent>,
    heading_class: &Option<String>,
    paragraph_class: &Option<String>,
) -> (r: (String, Vec<HeadingRecord>))
    ensures
        ({
            let m = run(
                view_events(events@),
                opt_str_view(*heading_class),
                opt_str_view(*paragraph_class),
            );
            r.0@ == m.out && view_headings(r.1@) == m.headings
        }),
{
    let ghost evs = view_events(events@);
    let ghost hc = opt_str_view(*heading_class);
    let ghost pc = opt_str_view(*paragraph_class);
    let mut out = String::new();
    let mut headings: Vec<HeadingRecord> = Vec::new();
    let mut list_stack: Vec<bool> = Vec::new();
    let mut table: Option<Vec<Alignment>> = Option::None;
    let mut in_heading = false;
    let mut i: usize = 0;
    while i < events.len()
        invariant
            i <= events.len(),
            evs == view_events(events@),
            hc == opt_str_view(*heading_class),
            pc == opt_str_view(*paragraph_class),
            evs.len() == events@.len(),
            ({
                let m = run(evs.take(i as int), hc, pc);
                out@ == m.out && view_headings(headings@) == m.headings && list_stack@
                    == m.st.list_stack && opt_align_view(table) == m.st.table && in_heading
                    == m.st.in_heading
            }),
        decreases events.len() - i,
    {
        let ghost m0 = run(evs.take(i as int), hc, pc);
        let ghost ev_v = events@[i as int]@;
        proof {
            assert(evs[i as int] == events@[i as int]@);
            assert(evs.take(i as int + 1) =~= evs.take(i as int).push(ev_v));
            lemma_run_push(evs.take(i as int), ev_v, hc, pc);
        }
        let ev = &events[i];
        match ev {
            MdEvent::Start(tag) => match tag {
                TagKind::Heading { level, anchor } => {
                    out.append("<h");
                    let ls = u64_dec(*level as u64);
                    out.append(ls.as_str());
                    emit_class(&mut out, heading_class);
                    out.append(">");
                    let a = match anchor {
                        Option::Some(s) => s.clone(),
                        Option::None => String::new(),
                    };
                    headings.push(HeadingRecord { level: *level, anchor: a, text: String::new() });
                    in_heading = true;
                    proof {
                        assert(out@ =~= m0.out + event_html(m0.st, ev_v, hc, pc));
                        assert(view_headings(headings@) =~= step_headings(
                            m0.st,
                            m0.headings,
                            ev_v,
                        ));
                    }
                },
                TagKind::Paragraph => {
                    out.append("<p");
                    emit_class(&mut out, paragraph_class);
                    out.append(">");
                    proof {
                        assert(out@ =~= m0.out + event_html(m0.st, ev_v, hc, pc));
                    }
                },
                TagKind::Strong => {
                    out.append("<strong>");
                },
                TagKind::Emphasis => {
                    out.append("<em>");
                },
                TagKind::Link { url } => {
                    out.append("<a href=\"");
                    out.append(url.as_str());
                    out.append("\">");
                    proof {
                        assert(out@ =~= m0.out + event_html(m0.st, ev_v, hc, pc));
                    }
                },
                TagKind::Image { url, alt } => {
                    out.append("<img src=\"");
                    out.append(url.as_str());
                    out.append("\" alt=\"");
                    out.append(alt.as_str());
                    out.append("\"");
                    if !alt.as_str().is_empty() {
                        out.append(" title=\"");
                        out.append(alt.as_str());
                        out.append("\"");
                    }
                    out.append(">\n");
                    proof {
                        assert(out@ =~= m0.out + event_html(m0.st, ev_v, hc, pc));
                    }
                },
                TagKind::List { start } => {
                    match start {
                        Option::Some(n) => {
                            out.append("<ol start=\"");
                            let ns = u64_dec(*n);
                            out.append(ns.as_str());
                            out.append("\">\n");
                            list_stack.push(true);
                        },
                        Option::None => {
                            out.append("<ul>\n");
                            list_stack.push(false);
                        },
                    }
                    proof {
                        assert(out@ =~= m0.out + event_html(m0.st, ev_v, hc, pc));
                    }
                },
                TagKind::ListItem => {
                    out.append("<li>");
                },
                TagKind::CodeBlock { language } => {
                    out.append("<pre><code class=\"language-");
                    match language {
                        Option::Some(l) => out.append(l.as_str()),
                        Option::None => {},
                    }
                    out.append("\">");
                    proof {
                        assert(out@ =~= m0.out + event_html(m0.st, ev_v, hc, pc));
                    }
                },
                TagKind::BlockQuote => {
                    out.append("<blockquote>\n");
                },
                TagKind::Table { alignments } => {
                    out.append("<table>\n");
                    let al = alignments.clone();
                    proof {
                        assert(al@ =~= alignments@);
                    }
                    table = Option::Some(al);
                },
                TagKind::TableHead => {
                    out.append("<thead>\n<tr>");
                },
                TagKind::TableRow => {
                    out.append("<tr>");
                },
                TagKind::TableCell => {
                    let is_th = match &table {
                        Option::Some(al) => has_right(al),
                        Option::None => false,
                    };
                    if is_th {
                        out.append("<th>");
                    } else {
                        out.append("<td>");
                    }
                },
                TagKind::Strikethrough => {
                    out.append("<s>");
                },
                TagKind::Other => {},
            },
            MdEvent::End(tag) => match tag {
                TagKind::Heading { level, anchor } => {
                    out.append("</h");
                    let ls = u64_dec(*level as u64);
                    out.append(ls.as_str());
                    out.append(">\n");
                    in_heading = false;
                    proof {
                        assert(out@ =~= m0.out + event_html(m0.st, ev_v, hc, pc));
                    }
                },
                TagKind::Paragraph => {
                    out.append("</p>\n");
                },
                TagKind::Strong => {
                    out.append("</strong>");
                },
                TagKind::Emphasis => {
                    out.append("</em>");
                },
                TagKind::Link { url } => {
                    out.append("</a>");
                },
                TagKind::Image { url, alt } => {},
                TagKind::List { start } => {
                    match list_stack.pop() {
                        Option::Some(ordered) => {
                            if ordered {
                                out.append("</ol>\n");
                            } else {
                                out.append("</ul>\n");
                            }
                        },
                        Option::None => {},
                    }
                    proof {
                        assert(out@ =~= m0.out + event_html(m0.st, ev_v, hc, pc));
                        assert(list_stack@ =~= step_state(m0.st, ev_v).list_stack);
                    }
                },
                TagKind::ListItem => {
                    out.append("</li>\n");
                },
                TagKind::CodeBlock { language } => {
                    out.append("</code></pre>\n");
                },
                TagKind::BlockQuote => {
                    out.append("</blockquote>\n");
                },
                TagKind::Table { alignments } => {
                    out.append("</table>\n");
                    table = Option::None;
                },
                TagKind::TableHead => {
                    out.append("</tr></thead>\n");
                },
                TagKind::TableRow => {
                    out.append("</tr>\n");
                },
                TagKind::TableCell => {
                    let is_th = match &table {
                        Option::Some(al) => has_right(al),
                        Option::None => false,
                    };
                    if is_th {
                        out.append("</th>");
                    } else {
                        out.append("</td>");
                    }
                },
                TagKind::Strikethrough => {
                    out.append("</s>");
                },
                TagKind::Other => {},
            },
            MdEvent::Text(t) => {
                escape_into(&mut out, t.as_str());
                if in_heading && headings.len() > 0 {
                    let last = headings.len() - 1;
                    let rec = &mut headings[last];
                    rec.text.append(t.as_str());
                    proof {
                        assert(view_headings(headings@) =~= step_headings(
                            m0.st,
                            m0.headings,
                            ev_v,
                        ));
                    }
                }
            },
            MdEvent::Code(t) => {
                out.append("<code>");
                escape_into(&mut out, t.as_str());
                out.append("</code>");
                proof {
                    assert(out@ =~= m0.out + event_html(m0.st, ev_v, hc, pc));
                }
            },
            MdEvent::Rule => {
                out.append("<hr>\n");
            },
            MdEvent::Other => {},
        }
        proof {
            let m1 = run(evs.take(i as int + 1), hc, pc);
            assert(out@ =~= m1.out);
            assert(view_headings(headings@) =~= m1.headings);
            assert(list_stack@ =~= m1.st.list_stack);
            assert(opt_align_view(table) == m1.st.table);
            assert(in_heading == m1.st.in_heading);
        }
        i += 1;
    }
    proof {
        assert(evs.take(events@.len() as int) =~= evs);
    }
    (out, headings)
}

} // verus!
