//! Laws of the renderer: over the events of any well-formed document, every
//! paired HTML tag is emitted as often opened as closed, and the nesting
//! state returns to what it was.

use vstd::prelude::*;
use crate::events::{SpecEvent, SpecTag};
use crate::render::{SpecRState, cell_is_header, init_machine, run, step_state};

verus! {

/// The name of one paired HTML tag the renderer can emit. Self-contained
/// elements (`img`, `hr`) have no closing tag and are not counted.
pub enum TagName {
    H(int),
    P,
    Strong,
    Em,
    A,
    Ol,
    Ul,
    Li,
    Pre,
    Code,
    Blockquote,
    Table,
    Thead,
    Tr,
    Th,
    Td,
    S,
}

pub open spec fn count1(b: bool) -> nat {
    if b {
        1
    } else {
        0
    }
}

/// How many opening tags of the given name one event emits in the given
/// state, mirroring `event_html` emission by emission.
pub open spec fn opens_of(st: SpecRState, ev: SpecEvent, t: TagName) -> nat {
    match ev {
        SpecEvent::Start(tag) => match tag {
            SpecTag::Heading { level, anchor } => count1(t == TagName::H(level)),
            SpecTag::Paragraph => count1(t == TagName::P),
            SpecTag::Strong => count1(t == TagName::Strong),
            SpecTag::Emphasis => count1(t == TagName::Em),
            SpecTag::Link { url } => count1(t == TagName::A),
            SpecTag::Image { url, alt } => 0,
            SpecTag::List { start } => if start is Some {
                count1(t == TagName::Ol)
            } else {
                count1(t == TagName::Ul)
            },
            SpecTag::ListItem => count1(t == TagName::Li),
            SpecTag::CodeBlock { language } => count1(t == TagName::Pre) + count1(
                t == TagName::Code,
            ),
            SpecTag::BlockQuote => count1(t == TagName::Blockquote),
            SpecTag::Table { alignments } => count1(t == TagName::Table),
            SpecTag::TableHead => count1(t == TagName::Thead) + count1(t == TagName::Tr),
            SpecTag::TableRow => count1(t == TagName::Tr),
            SpecTag::TableCell => if cell_is_header(st) {
                count1(t == TagName::Th)
            } else {
                count1(t == TagName::Td)
            },
            SpecTag::Strikethrough => count1(t == TagName::S),
            SpecTag::Other => 0,
        },
        SpecEvent::Code(c) => count1(t == TagName::Code),
        _ => 0,
    }
}

/// How many closing tags of the given name one event emits in the given
/// state.
pub open spec fn closes_of(st: SpecRState, ev: SpecEvent, t: TagName) -> nat {
    match ev {
        SpecEvent::End(tag) => match tag {
            SpecTag::Heading { level, anchor } => count1(t == TagName::H(level)),
            SpecTag::Paragraph => count1(t == TagName::P),
            SpecTag::Strong => count1(t == TagName::Strong),
            SpecTag::Emphasis => count1(t == TagName::Em),
            SpecTag::Link { url } => count1(t == TagName::A),
            SpecTag::Image { url, alt } => 0,
            SpecTag::List { start } => if st.list_stack.len() > 0 {
                if st.list_stack.last() {
                    count1(t == TagName::Ol)
                } else {
                    count1(t == TagName::Ul)
                }
            } else {
                0
            },
            SpecTag::ListItem => count1(t == TagName::Li),
            SpecTag::CodeBlock { language } => count1(t == TagName::Pre) + count1(
                t == TagName::Code,
            ),
            SpecTag::BlockQuote => count1(t == TagName::Blockquote),
            SpecTag::Table { alignments } => count1(t == TagName::Table),
            SpecTag::TableHead => count1(t == TagName::Thead) + count1(t == TagName::Tr),
            SpecTag::TableRow => count1(t == TagName::Tr),
            SpecTag::TableCell => if cell_is_header(st) {
                count1(t == TagName::Th)
            } else {
                count1(t == TagName::Td)
            },
            SpecTag::Strikethrough => count1(t == TagName::S),
            SpecTag::Other => 0,
        },
        SpecEvent::Code(c) => count1(t == TagName::Code),
        _ => 0,
    }
}

/// The nesting state after a sequence of events, from an arbitrary start.
pub open spec fn state_run(st: SpecRState, evs: Seq<SpecEvent>) -> SpecRState
    decreases evs.len(),
{
    if evs.len() == 0 {
        st
    } else {
        state_run(step_state(st, evs[0]), evs.skip(1))
    }
}

/// Total opening tags of one name over a sequence of events.
pub open spec fn opens_run(st: SpecRState, evs: Seq<SpecEvent>, t: TagName) -> nat
    decreases evs.len(),
{
    if evs.len() == 0 {
        0
    } else {
        opens_of(st, evs[0], t) + opens_run(step_state(st, evs[0]), evs.skip(1), t)
    }
}

/// Total closing tags of one name over a sequence of events.
pub open spec fn closes_run(st: SpecRState, evs: Seq<SpecEvent>, t: TagName) -> nat
    decreases evs.len(),
{
    if evs.len() == 0 {
        0
    } else {
        closes_of(st, evs[0], t) + closes_run(step_state(st, evs[0]), evs.skip(1), t)
    }
}

/// The shape of a well-formed document: a sequence of atoms and of elements
/// whose start and end tags match and nest properly.
pub enum Doc {
    Empty,
    Atom(SpecEvent, Box<Doc>),
    Elem(SpecTag, Box<Doc>, Box<Doc>),
}

/// The event sequence of a document shape.
pub open spec fn doc_events(d: Doc) -> Seq<SpecEvent>
    decreases d,
{
    match d {
        Doc::Empty => Seq::empty(),
        Doc::Atom(e, rest) => seq![e] + doc_events(*rest),
        Doc::Elem(t, inner, rest) => seq![SpecEvent::Start(t)] + doc_events(*inner) + seq![
            SpecEvent::End(t),
        ] + doc_events(*rest),
    }
}

/// Well-formedness: atoms are the text-level events, and no table starts
/// while a table is open (inside such a nesting the cell tag could change
/// between a cell's start and its end, and the balance below does not hold
/// of it).
pub open spec fn wf_doc(d: Doc, in_table: bool) -> bool
    decreases d,
{
    match d {
        Doc::Empty => true,
        Doc::Atom(e, rest) => (e is Text || e is Code || e is Rule || e is Other) && wf_doc(
            *rest,
            in_table,
        ),
        Doc::Elem(t, inner, rest) => wf_doc(*rest, in_table) && match t {
            SpecTag::Table { alignments } => !in_table && wf_doc(*inner, true),
            _ => wf_doc(*inner, in_table),
        },
    }
}

proof fn lemma_run_concat(st: SpecRState, a: Seq<SpecEvent>, b: Seq<SpecEvent>)
    ensures
        state_run(st, a + b) == state_run(state_run(st, a), b),
        forall|t: TagName|
            opens_run(st, a + b, t) == opens_run(st, a, t) + opens_run(state_run(st, a), b, t),
        forall|t: TagName|
            closes_run(st, a + b, t) == closes_run(st, a, t) + closes_run(state_run(st, a), b, t),
    decreases a.len(),
{
    if a.len() == 0 {
        assert(a + b =~= b);
    } else {
        assert((a + b)[0] == a[0]);
        assert((a + b).skip(1) =~= a.skip(1) + b);
        let st1 = step_state(st, a[0]);
        lemma_run_concat(st1, a.skip(1), b);
        assert(state_run(st, a) == state_run(st1, a.skip(1)));
        assert forall|t: TagName|
            opens_run(st, a + b, t) == opens_run(st, a, t) + opens_run(
                state_run(st, a),
                b,
                t,
            ) by {
            assert(opens_run(st, a + b, t) == opens_of(st, a[0], t) + opens_run(
                st1,
                a.skip(1) + b,
                t,
            ));
            assert(opens_run(st, a, t) == opens_of(st, a[0], t) + opens_run(st1, a.skip(1), t));
        }
        assert forall|t: TagName|
            closes_run(st, a + b, t) == closes_run(st, a, t) + closes_run(
                state_run(st, a),
                b,
                t,
            ) by {
            assert(closes_run(st, a + b, t) == closes_of(st, a[0], t) + closes_run(
                st1,
                a.skip(1) + b,
                t,
            ));
            assert(closes_run(st, a, t) == closes_of(st, a[0], t) + closes_run(st1, a.skip(1), t));
        }
    }
}

proof fn lemma_run_single(st: SpecRState, e: SpecEvent)
    ensures
        state_run(st, seq![e]) == step_state(st, e),
        forall|t: TagName| opens_run(st, seq![e], t) == opens_of(st, e, t),
        forall|t: TagName| closes_run(st, seq![e], t) == closes_of(st, e, t),
{
    reveal_with_fuel(state_run, 2);
    reveal_with_fuel(opens_run, 2);
    reveal_with_fuel(closes_run, 2);
    assert(seq![e].skip(1) =~= Seq::<SpecEvent>::empty());
    assert(state_run(step_state(st, e), Seq::<SpecEvent>::empty()) == step_state(st, e));
}

/// Balance from an arbitrary state: over the events of a well-formed
/// document every paired tag is opened exactly as often as it is closed, and
/// the list stack and the open table end as they began.
pub proof fn lemma_balanced(d: Doc, st: SpecRState)
    requires
        wf_doc(d, st.table is Some),
    ensures
        forall|t: TagName|
            opens_run(st, doc_events(d), t) == closes_run(st, doc_events(d), t),
        state_run(st, doc_events(d)).list_stack == st.list_stack,
        state_run(st, doc_events(d)).table == st.table,
    decreases d,
{
    match d {
        Doc::Empty => {},
        Doc::Atom(e, rest) => {
            lemma_run_single(st, e);
            lemma_run_concat(st, seq![e], doc_events(*rest));
            assert(step_state(st, e) == st);
            lemma_balanced(*rest, st);
        },
        Doc::Elem(tag, inner, rest) => {
            let s_ev = SpecEvent::Start(tag);
            let e_ev = SpecEvent::End(tag);
            let ie = doc_events(*inner);
            let re = doc_events(*rest);
            let st1 = step_state(st, s_ev);
            lemma_run_single(st, s_ev);
            lemma_run_concat(st, seq![s_ev], ie);
            let u = seq![s_ev] + ie;
            lemma_balanced(*inner, st1);
            let st2 = state_run(st1, ie);
            assert(state_run(st, u) == st2);
            lemma_run_single(st2, e_ev);
            lemma_run_concat(st, u, seq![e_ev]);
            let v = u + seq![e_ev];
            let st3 = step_state(st2, e_ev);
            assert(state_run(st, v) == st3);
            assert(st3.list_stack == st.list_stack && st3.table == (match tag {
                SpecTag::Table { alignments } => Option::None,
                _ => st.table,
            }));
            lemma_run_concat(st, v, re);
            lemma_balanced(*rest, st3);
            assert(doc_events(d) == v + re);
            assert forall|t: TagName|
                opens_run(st, doc_events(d), t) == closes_run(st, doc_events(d), t) by {
                assert(opens_of(st, s_ev, t) == closes_of(st2, e_ev, t));
                assert(closes_of(st, s_ev, t) == 0);
                assert(opens_of(st2, e_ev, t) == 0);
            }
        },
    }
}

proof fn lemma_state_run_push(st: SpecRState, a: Seq<SpecEvent>, e: SpecEvent)
    ensures
        state_run(st, a.push(e)) == step_state(state_run(st, a), e),
    decreases a.len(),
{
    if a.len() == 0 {
        reveal_with_fuel(state_run, 2);
        assert(a.push(e)[0] == e);
        assert(a.push(e).skip(1) =~= Seq::<SpecEvent>::empty());
        assert(state_run(step_state(st, e), Seq::<SpecEvent>::empty()) == step_state(st, e));
    } else {
        assert(a.push(e)[0] == a[0]);
        assert(a.push(e).skip(1) =~= a.skip(1).push(e));
        lemma_state_run_push(step_state(st, a[0]), a.skip(1), e);
    }
}

/// The renderer's own fold reaches the same nesting state as the
/// front-to-back fold the counts use.
pub proof fn lemma_run_state(
    evs: Seq<SpecEvent>,
    hc: Option<Seq<char>>,
    pc: Option<Seq<char>>,
)
    ensures
        run(evs, hc, pc).st == state_run(init_machine().st, evs),
    decreases evs.len(),
{
    if evs.len() == 0 {
    } else {
        lemma_run_state(evs.drop_last(), hc, pc);
        lemma_state_run_push(init_machine().st, evs.drop_last(), evs.last());
        assert(evs.drop_last().push(evs.last()) =~= evs);
    }
}

/// Balanced output: over the events of any well-formed document, rendered
/// from the initial state, every paired HTML tag is opened exactly as often
/// as it is closed, and the renderer ends with no list and no table open.
pub proof fn lemma_balanced_document(d: Doc, hc: Option<Seq<char>>, pc: Option<Seq<char>>)
    requires
        wf_doc(d, false),
    ensures
        forall|t: TagName|
            opens_run(init_machine().st, doc_events(d), t) == closes_run(
                init_machine().st,
                doc_events(d),
                t,
            ),
        run(doc_events(d), hc, pc).st.list_stack == Seq::<bool>::empty(),
        run(doc_events(d), hc, pc).st.table is None,
{
    lemma_balanced(d, init_machine().st);
    lemma_run_state(doc_events(d), hc, pc);
}

} // verus!
