//! The e-mail document: a headline, optional intro, body blocks and
//! footer lines, rendered to HTML and plain text.
use vstd::prelude::*;

verus! {

/// A complete e-mail: renders to a `text/html` body and a `text/plain`
/// alternative.
#[derive(Debug, Clone, PartialEq, Eq)]
pub struct EmailDocument {
    /// `Subject:` header value.
    pub subject: String,
    /// Hidden preheader shown in inbox previews (keep it under 120 chars).
    pub preheader: String,
    /// Optional pill above the headline.
    pub eyebrow: Option<String>,
    /// Main headline.
    pub heading: String,
    /// Optional paragraph between headline and blocks.
    pub intro: Option<String>,
    /// Body blocks, in order.
    pub blocks: Vec<Block>,
    /// Muted lines after the last block.
    pub footer_lines: Vec<String>,
}

/// One body element.
#[derive(Debug, Clone, PartialEq, Eq)]
pub enum Block {
    /// A content card.
    Group(GroupCard),
    /// A section heading.
    SectionHeading {
        /// Heading text.
        text: String,
    },
    /// A prose paragraph.
    Paragraph {
        /// Paragraph body.
        text: String,
    },
    /// A monospaced code block, one entry per line.
    Code(CodeBlock),
    /// A call-to-action button.
    Cta(Cta),
}

/// A content card: eyebrow, title, optional subtitle, a body, and an
/// optional how-to footer.
#[derive(Debug, Clone, PartialEq, Eq)]
pub struct GroupCard {
    /// Pill above the title.
    pub eyebrow: String,
    /// Card headline.
    pub title: String,
    /// Optional line under the title.
    pub subtitle: Option<String>,
    /// Field table or nested record cards.
    pub body: GroupBody,
    /// Optional instruction in a tinted footer; inline HTML (such as
    /// `<code>`) is kept, so escape it at the call site when it comes from
    /// users.
    pub how_to: Option<String>,
}

/// The body of a card.
#[derive(Debug, Clone, PartialEq, Eq)]
pub enum GroupBody {
    /// Label/value rows.
    Fields {
        /// Field rows.
        fields: Vec<Field>,
    },
    /// Nested record cards, each in its own panel.
    Records {
        /// Records, in order.
        records: Vec<RecordCard>,
    },
}

/// One label/value row.
#[derive(Debug, Clone, PartialEq, Eq)]
pub struct Field {
    /// Short label (`"Host"`).
    pub label: String,
    /// Value.
    pub value: String,
    /// Show the value in a monospaced box.
    pub mono: bool,
}

/// One nested record card.
#[derive(Debug, Clone, PartialEq, Eq)]
pub struct RecordCard {
    /// Eyebrow (`"Record 1 of 5"`).
    pub eyebrow: String,
    /// Primary identifier (host or name).
    pub primary_label: String,
    /// Optional type tag pill (`"TXT"`).
    pub type_tag: Option<String>,
    /// Main value, shown monospaced.
    pub value: String,
    /// Optional note under the value.
    pub note: Option<String>,
}

/// A code block.
#[derive(Debug, Clone, PartialEq, Eq)]
pub struct CodeBlock {
    /// Optional heading above the block.
    pub eyebrow: Option<String>,
    /// Lines, in order.
    pub lines: Vec<String>,
}

/// A call-to-action button.
#[derive(Debug, Clone, PartialEq, Eq)]
pub struct Cta {
    /// Button label.
    pub label: String,
    /// Link target (`https://` or `mailto:`).
    pub href: String,
}

// ----- plain-value views ---------------------------------------------

/// A field as plain values.
pub struct FieldV {
    pub label: Seq<char>,
    pub value: Seq<char>,
    pub mono: bool,
}

/// A record card as plain values.
pub struct RecordV {
    pub eyebrow: Seq<char>,
    pub primary_label: Seq<char>,
    pub type_tag: Option<Seq<char>>,
    pub value: Seq<char>,
    pub note: Option<Seq<char>>,
}

/// A card body as plain values.
pub enum BodyV {
    Fields(Seq<FieldV>),
    Records(Seq<RecordV>),
}

/// A card as plain values.
pub struct GroupV {
    pub eyebrow: Seq<char>,
    pub title: Seq<char>,
    pub subtitle: Option<Seq<char>>,
    pub body: BodyV,
    pub how_to: Option<Seq<char>>,
}

/// A block as plain values.
pub enum BlockV {
    Group(GroupV),
    SectionHeading(Seq<char>),
    Paragraph(Seq<char>),
    Code(Option<Seq<char>>, Seq<Seq<char>>),
    Cta(Seq<char>, Seq<char>),
}

/// A document as plain values.
pub struct DocV {
    pub subject: Seq<char>,
    pub preheader: Seq<char>,
    pub eyebrow: Option<Seq<char>>,
    pub heading: Seq<char>,
    pub intro: Option<Seq<char>>,
    pub blocks: Seq<BlockV>,
    pub footer_lines: Seq<Seq<char>>,
}

/// An optional string as an optional sequence.
pub open spec fn opt_view(o: Option<String>) -> Option<Seq<char>> {
    match o {
        Some(s) => Some(s@),
        None => None,
    }
}

/// A vector of strings as sequences.
pub open spec fn lines_view(v: Vec<String>) -> Seq<Seq<char>> {
    v@.map_values(|s: String| s@)
}

/// A field as plain values.
pub open spec fn field_view(f: Field) -> FieldV {
    FieldV { label: f.label@, value: f.value@, mono: f.mono }
}

/// A record card as plain values.
pub open spec fn record_view(r: RecordCard) -> RecordV {
    RecordV {
        eyebrow: r.eyebrow@,
        primary_label: r.primary_label@,
        type_tag: opt_view(r.type_tag),
        value: r.value@,
        note: opt_view(r.note),
    }
}

/// A card body as plain values.
pub open spec fn body_view(b: GroupBody) -> BodyV {
    match b {
        GroupBody::Fields { fields } => BodyV::Fields(fields@.map_values(|f: Field| field_view(f))),
        GroupBody::Records { records } => BodyV::Records(
            records@.map_values(|r: RecordCard| record_view(r)),
        ),
    }
}

/// A card as plain values.
pub open spec fn group_view(g: GroupCard) -> GroupV {
    GroupV {
        eyebrow: g.eyebrow@,
        title: g.title@,
        subtitle: opt_view(g.subtitle),
        body: body_view(g.body),
        how_to: opt_view(g.how_to),
    }
}

/// A block as plain values.
pub open spec fn block_view(b: Block) -> BlockV {
    match b {
        Block::Group(g) => BlockV::Group(group_view(g)),
        Block::SectionHeading { text } => BlockV::SectionHeading(text@),
        Block::Paragraph { text } => BlockV::Paragraph(text@),
        Block::Code(c) => BlockV::Code(opt_view(c.eyebrow), lines_view(c.lines)),
        Block::Cta(c) => BlockV::Cta(c.label@, c.href@),
    }
}

/// A document as plain values.
pub open spec fn doc_view(d: EmailDocument) -> DocV {
    DocV {
        subject: d.subject@,
        preheader: d.preheader@,
        eyebrow: opt_view(d.eyebrow),
        heading: d.heading@,
        intro: opt_view(d.intro),
        blocks: d.blocks@.map_values(|b: Block| block_view(b)),
        footer_lines: lines_view(d.footer_lines),
    }
}

} // verus!
