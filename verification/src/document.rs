//! The document assembler: the TOC fragment first, the rendered body after
//! it, unconditionally — with no headings the TOC is the wrapper around an
//! empty list.

use vstd::prelude::*;
use vstd::string::StringExecFns;
use crate::events::{HeadingRec, MdEvent, SpecEvent, SpecTag, opt_str_view, view_events};
use crate::escape::escape_seq;
use crate::numfmt::dec_digits;
use crate::render::{class_attr, render, run, body_html};
use crate::toc::{generate_toc, toc_entry, toc_html};

verus! {

/// The whole output for an event sequence: the TOC built from the headings
/// the renderer collects, followed by the rendered body.
pub open spec fn document_of(
    events: Seq<SpecEvent>,
    hc: Option<Seq<char>>,
    pc: Option<Seq<char>>,
) -> Seq<char> {
    toc_html(run(events, hc, pc).headings) + body_html(events, hc, pc)
}

/// Renders a whole document from its event sequence and the optional CSS
/// classes for headings and paragraphs.
pub fn render_document(
    events: &Vec<MdEvent>,
    heading_class: &Option<String>,
    paragraph_class: &Option<String>,
) -> (r: String)
    ensures
        r@ == document_of(
            view_events(events@),
            opt_str_view(*heading_class),
            opt_str_view(*paragraph_class),
        ),
{
    let (body, headings) = render(events, heading_class, paragraph_class);
    let mut doc = generate_toc(&headings);
    doc.append(body.as_str());
    doc
}

/// One conversion: the events of a document, the optional CSS classes, and
/// the HTML output of the latest conversion.
pub struct MyApp {
    pub events: Vec<MdEvent>,
    pub html_output: String,
    pub heading_class: Option<String>,
    pub paragraph_class: Option<String>,
}

impl MyApp {
    /// Renders the stored events and keeps the resulting HTML document.
    pub fn convert_markdown(&mut self)
        ensures
            final (self).html_output@ == document_of(
                view_events(old(self).events@),
                opt_str_view(old(self).heading_class),
                opt_str_view(old(self).paragraph_class),
            ),
            final (self).events == old(self).events,
            final (self).heading_class == old(self).heading_class,
            final (self).paragraph_class == old(self).paragraph_class,
    {
        let html = render_document(&self.events, &self.heading_class, &self.paragraph_class);
        self.html_output = html;
    }
}

/// Escaping happens exactly once in each place: a heading's text is escaped
/// where the body emits it, while the record keeps the raw text, and the TOC
/// label escapes that raw text again, independently — never text that was
/// already escaped.
pub proof fn lemma_heading_escaped_once(
    level: int,
    anchor: Seq<char>,
    t: Seq<char>,
    hc: Option<Seq<char>>,
    pc: Option<Seq<char>>,
)
    ensures
        ({
            let evs = seq![
                SpecEvent::Start(SpecTag::Heading { level, anchor: Option::Some(anchor) }),
                SpecEvent::Text(t),
                SpecEvent::End(SpecTag::Heading { level, anchor: Option::Some(anchor) }),
            ];
            let m = run(evs, hc, pc);
            m.out == "<h"@ + dec_digits(level) + class_attr(hc) + ">"@ + escape_seq(t) + "</h"@
                + dec_digits(level) + ">\n"@ && m.headings == seq![
                HeadingRec { level, anchor, text: t },
            ] && toc_entry(m.headings[0]) == "<li><a href=\"#"@ + anchor + "\">"@ + escape_seq(t)
                + "</a></li>\n"@
        }),
{
    let e0 = SpecEvent::Start(SpecTag::Heading { level, anchor: Option::Some(anchor) });
    let e1 = SpecEvent::Text(t);
    let e2 = SpecEvent::End(SpecTag::Heading { level, anchor: Option::Some(anchor) });
    let evs = seq![e0, e1, e2];
    let s01 = seq![e0, e1];
    let s0 = seq![e0];
    assert(evs.drop_last() =~= s01);
    assert(evs.last() == e2);
    assert(s01.drop_last() =~= s0);
    assert(s01.last() == e1);
    assert(s0.drop_last() =~= Seq::<SpecEvent>::empty());
    assert(s0.last() == e0);
    reveal_with_fuel(run, 4);
    let m = run(evs, hc, pc);
    assert(m.out =~= "<h"@ + dec_digits(level) + class_attr(hc) + ">"@ + escape_seq(t) + "</h"@
        + dec_digits(level) + ">\n"@);
    assert(Seq::<char>::empty() + t =~= t);
    assert(m.headings =~= seq![HeadingRec { level, anchor, text: t }]);
}

} // verus!
