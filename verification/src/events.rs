//! The event model: the structural events a markdown front end hands to the
//! renderer, and the heading records the renderer collects for the table of
//! contents.

use vstd::prelude::*;

verus! {

/// Column alignment of a table, as the front end reports it.
#[derive(Clone, Copy, PartialEq, Eq, Structural, Debug)]
pub enum Alignment {
    NoAlign,
    Left,
    Center,
    Right,
}

/// The kind of a structural tag. A `Start`/`End` pair of one kind brackets
/// the content of that element.
#[derive(Debug)]
pub enum TagKind {
    Heading { level: u32, anchor: Option<String> },
    Paragraph,
    Strong,
    Emphasis,
    Link { url: String },
    Image { url: String, alt: String },
    List { start: Option<u64> },
    ListItem,
    CodeBlock { language: Option<String> },
    BlockQuote,
    Table { alignments: Vec<Alignment> },
    TableHead,
    TableRow,
    TableCell,
    Strikethrough,
    Other,
}

/// One structural event of a document.
#[derive(Debug)]
pub enum MdEvent {
    Start(TagKind),
    End(TagKind),
    Text(String),
    Code(String),
    Rule,
    Other,
}

/// Mathematical model of a `TagKind`: strings become character sequences.
pub enum SpecTag {
    Heading { level: int, anchor: Option<Seq<char>> },
    Paragraph,
    Strong,
    Emphasis,
    Link { url: Seq<char> },
    Image { url: Seq<char>, alt: Seq<char> },
    List { start: Option<int> },
    ListItem,
    CodeBlock { language: Option<Seq<char>> },
    BlockQuote,
    Table { alignments: Seq<Alignment> },
    TableHead,
    TableRow,
    TableCell,
    Strikethrough,
    Other,
}

/// Mathematical model of an `MdEvent`.
pub enum SpecEvent {
    Start(SpecTag),
    End(SpecTag),
    Text(Seq<char>),
    Code(Seq<char>),
    Rule,
    Other,
}

pub open spec fn opt_str_view(o: Option<String>) -> Option<Seq<char>> {
    match o {
        Option::Some(s) => Option::Some(s@),
        Option::None => Option::None,
    }
}

impl View for TagKind {
    type V = SpecTag;

    open spec fn view(&self) -> SpecTag {
        match self {
            TagKind::Heading { level, anchor } => SpecTag::Heading {
                level: *level as int,
                anchor: opt_str_view(*anchor),
            },
            TagKind::Paragraph => SpecTag::Paragraph,
            TagKind::Strong => SpecTag::Strong,
            TagKind::Emphasis => SpecTag::Emphasis,
            TagKind::Link { url } => SpecTag::Link { url: url@ },
            TagKind::Image { url, alt } => SpecTag::Image { url: url@, alt: alt@ },
            TagKind::List { start } => SpecTag::List {
                start: match start {
                    Option::Some(n) => Option::Some(*n as int),
                    Option::None => Option::None,
                },
            },
            TagKind::ListItem => SpecTag::ListItem,
            TagKind::CodeBlock { language } => SpecTag::CodeBlock {
                language: opt_str_view(*language),
            },
            TagKind::BlockQuote => SpecTag::BlockQuote,
            TagKind::Table { alignments } => SpecTag::Table { alignments: alignments@ },
            TagKind::TableHead => SpecTag::TableHead,
            TagKind::TableRow => SpecTag::TableRow,
            TagKind::TableCell => SpecTag::TableCell,
            TagKind::Strikethrough => SpecTag::Strikethrough,
            TagKind::Other => SpecTag::Other,
        }
    }
}

impl View for MdEvent {
    type V = SpecEvent;

    open spec fn view(&self) -> SpecEvent {
        match self {
            MdEvent::Start(t) => SpecEvent::Start(t@),
            MdEvent::End(t) => SpecEvent::End(t@),
            MdEvent::Text(s) => SpecEvent::Text(s@),
            MdEvent::Code(s) => SpecEvent::Code(s@),
            MdEvent::Rule => SpecEvent::Rule,
            MdEvent::Other => SpecEvent::Other,
        }
    }
}

/// The view of a whole event sequence.
pub open spec fn view_events(s: Seq<MdEvent>) -> Seq<SpecEvent> {
    s.map_values(|e: MdEvent| e@)
}

/// One heading seen by the renderer: its level, its anchor id (empty when the
/// front end gave none) and its accumulated plain text, kept unescaped.
#[derive(Debug)]
pub struct HeadingRecord {
    pub level: u32,
    pub anchor: String,
    pub text: String,
}

/// Mathematical model of a `HeadingRecord`.
pub struct HeadingRec {
    pub level: int,
    pub anchor: Seq<char>,
    pub text: Seq<char>,
}

impl View for HeadingRecord {
    type V = HeadingRec;

    open spec fn view(&self) -> HeadingRec {
        HeadingRec { level: self.level as int, anchor: self.anchor@, text: self.text@ }
    }
}

/// The view of a whole heading sequence.
pub open spec fn view_headings(s: Seq<HeadingRecord>) -> Seq<HeadingRec> {
    s.map_values(|h: HeadingRecord| h@)
}

} // verus!
