//! The events of the markdown parser (`pulldown-cmark`), as plain values:
//! one variant for each of the parser's, each with the parser's fields.
use vstd::prelude::*;

use pulldown_cmark::{
    Alignment, BlockQuoteKind, CodeBlockKind, CowStr, Event, HeadingLevel, LinkType,
    MetadataBlockKind, Options, Parser, Tag, TagEnd,
};

verus! {

// ---------------------------------------------------------------------------
// Declared parser types
// ---------------------------------------------------------------------------

/// A markdown event of `pulldown-cmark`.
#[verifier::external_type_specification]
#[verifier::external_body]
pub struct ExEvent<'a>(Event<'a>);

/// A start tag of `pulldown-cmark`.
#[verifier::external_type_specification]
#[verifier::external_body]
pub struct ExTag<'a>(Tag<'a>);

/// An end tag of `pulldown-cmark`.
#[verifier::external_type_specification]
#[verifier::external_body]
pub struct ExTagEnd(TagEnd);

/// A heading level of `pulldown-cmark`.
#[verifier::external_type_specification]
#[verifier::external_body]
pub struct ExHeadingLevel(HeadingLevel);

/// A string of `pulldown-cmark`.
#[verifier::external_type_specification]
#[verifier::external_body]
pub struct ExCowStr<'a>(CowStr<'a>);

/// The kind of a code block of `pulldown-cmark`.
#[verifier::external_type_specification]
#[verifier::external_body]
pub struct ExCodeBlockKind<'a>(CodeBlockKind<'a>);

/// The kind of an admonition block quote of `pulldown-cmark`.
#[verifier::external_type_specification]
#[verifier::external_body]
pub struct ExBlockQuoteKind(BlockQuoteKind);

/// The kind of a metadata block of `pulldown-cmark`.
#[verifier::external_type_specification]
#[verifier::external_body]
pub struct ExMetadataBlockKind(MetadataBlockKind);

/// A table column alignment of `pulldown-cmark`.
#[verifier::external_type_specification]
#[verifier::external_body]
pub struct ExAlignment(Alignment);

/// The kind of a link of `pulldown-cmark`.
#[verifier::external_type_specification]
#[verifier::external_body]
pub struct ExLinkType(LinkType);

// ---------------------------------------------------------------------------
// Plain values
// ---------------------------------------------------------------------------

/// The kind of an admonition block quote (`> [!NOTE]` and the like).
#[derive(Debug, Clone, Copy, PartialEq, Eq, Structural)]
pub enum QuoteKind {
    Note,
    Tip,
    Important,
    Warning,
    Caution,
}

/// The kind of a metadata block.
#[derive(Debug, Clone, Copy, PartialEq, Eq, Structural)]
pub enum MetadataKind {
    YamlStyle,
    PlusesStyle,
}

/// The alignment of a table column.
#[derive(Debug, Clone, Copy, PartialEq, Eq, Structural)]
pub enum Align {
    Unaligned,
    Left,
    Center,
    Right,
}

/// How a link or image was written.
#[derive(Debug, Clone, Copy, PartialEq, Eq, Structural)]
pub enum LinkKind {
    Inline,
    Reference,
    ReferenceUnknown,
    Collapsed,
    CollapsedUnknown,
    Shortcut,
    ShortcutUnknown,
    Autolink,
    Email,
    WikiLink(bool),
}

/// The kind of a code block: indented, or fenced with its info string.
pub enum CodeKind {
    Indented,
    Fenced(String),
}

/// A heading: its level (1 to 6), id, classes and attributes.
pub struct HeadingData {
    pub level: u8,
    pub id: Option<String>,
    pub classes: Vec<String>,
    pub attrs: Vec<(String, Option<String>)>,
}

/// A link or image: how it was written, its destination, title and id.
pub struct LinkData {
    pub link_type: LinkKind,
    pub dest_url: String,
    pub title: String,
    pub id: String,
}

/// The start of an element.
pub enum CmTag {
    Paragraph,
    Heading(HeadingData),
    BlockQuote(Option<QuoteKind>),
    CodeBlock(CodeKind),
    HtmlBlock,
    List(Option<u64>),
    Item,
    FootnoteDefinition(String),
    DefinitionList,
    DefinitionListTitle,
    DefinitionListDefinition,
    Table(Vec<Align>),
    TableHead,
    TableRow,
    TableCell,
    Emphasis,
    Strong,
    Strikethrough,
    Superscript,
    Subscript,
    Link(LinkData),
    Image(LinkData),
    MetadataBlock(MetadataKind),
}

/// The end of an element.
#[derive(Debug, Clone, Copy, PartialEq, Eq, Structural)]
pub enum CmTagEnd {
    Paragraph,
    Heading(u8),
    BlockQuote(Option<QuoteKind>),
    CodeBlock,
    HtmlBlock,
    List(bool),
    Item,
    FootnoteDefinition,
    DefinitionList,
    DefinitionListTitle,
    DefinitionListDefinition,
    Table,
    TableHead,
    TableRow,
    TableCell,
    Emphasis,
    Strong,
    Strikethrough,
    Superscript,
    Subscript,
    Link,
    Image,
    MetadataBlock(MetadataKind),
}

/// One parser event.
pub enum CmEvent {
    Start(CmTag),
    End(CmTagEnd),
    Text(String),
    Code(String),
    InlineMath(String),
    DisplayMath(String),
    Html(String),
    InlineHtml(String),
    FootnoteReference(String),
    SoftBreak,
    HardBreak,
    Rule,
    TaskListMarker(bool),
}

// ---------------------------------------------------------------------------
// Views
// ---------------------------------------------------------------------------

pub enum CodeKindView {
    Indented,
    Fenced(Seq<char>),
}

pub struct HeadingView {
    pub level: u8,
    pub id: Option<Seq<char>>,
    pub classes: Seq<Seq<char>>,
    pub attrs: Seq<(Seq<char>, Option<Seq<char>>)>,
}

pub struct LinkView {
    pub link_type: LinkKind,
    pub dest_url: Seq<char>,
    pub title: Seq<char>,
    pub id: Seq<char>,
}

pub enum CmTagView {
    Paragraph,
    Heading(HeadingView),
    BlockQuote(Option<QuoteKind>),
    CodeBlock(CodeKindView),
    HtmlBlock,
    List(Option<u64>),
    Item,
    FootnoteDefinition(Seq<char>),
    DefinitionList,
    DefinitionListTitle,
    DefinitionListDefinition,
    Table(Seq<Align>),
    TableHead,
    TableRow,
    TableCell,
    Emphasis,
    Strong,
    Strikethrough,
    Superscript,
    Subscript,
    Link(LinkView),
    Image(LinkView),
    MetadataBlock(MetadataKind),
}

pub enum CmEventView {
    Start(CmTagView),
    End(CmTagEnd),
    Text(Seq<char>),
    Code(Seq<char>),
    InlineMath(Seq<char>),
    DisplayMath(Seq<char>),
    Html(Seq<char>),
    InlineHtml(Seq<char>),
    FootnoteReference(Seq<char>),
    SoftBreak,
    HardBreak,
    Rule,
    TaskListMarker(bool),
}

pub open spec fn opt_str_view(s: Option<String>) -> Option<Seq<char>> {
    match s {
        Some(t) => Some(t@),
        None => None,
    }
}

impl View for HeadingData {
    type V = HeadingView;

    open spec fn view(&self) -> HeadingView {
        HeadingView {
            level: self.level,
            id: opt_str_view(self.id),
            classes: Seq::new(self.classes@.len(), |i: int| self.classes@[i]@),
            attrs: Seq::new(
                self.attrs@.len(),
                |i: int| (self.attrs@[i].0@, opt_str_view(self.attrs@[i].1)),
            ),
        }
    }
}

impl View for LinkData {
    type V = LinkView;

    open spec fn view(&self) -> LinkView {
        LinkView {
            link_type: self.link_type,
            dest_url: self.dest_url@,
            title: self.title@,
            id: self.id@,
        }
    }
}

impl View for CmTag {
    type V = CmTagView;

    open spec fn view(&self) -> CmTagView {
        match self {
            CmTag::Paragraph => CmTagView::Paragraph,
            CmTag::Heading(h) => CmTagView::Heading(h@),
            CmTag::BlockQuote(k) => CmTagView::BlockQuote(*k),
            CmTag::CodeBlock(k) => CmTagView::CodeBlock(
                match k {
                    CodeKind::Indented => CodeKindView::Indented,
                    CodeKind::Fenced(l) => CodeKindView::Fenced(l@),
                },
            ),
            CmTag::HtmlBlock => CmTagView::HtmlBlock,
            CmTag::List(n) => CmTagView::List(*n),
            CmTag::Item => CmTagView::Item,
            CmTag::FootnoteDefinition(l) => CmTagView::FootnoteDefinition(l@),
            CmTag::DefinitionList => CmTagView::DefinitionList,
            CmTag::DefinitionListTitle => CmTagView::DefinitionListTitle,
            CmTag::DefinitionListDefinition => CmTagView::DefinitionListDefinition,
            CmTag::Table(a) => CmTagView::Table(a@),
            CmTag::TableHead => CmTagView::TableHead,
            CmTag::TableRow => CmTagView::TableRow,
            CmTag::TableCell => CmTagView::TableCell,
            CmTag::Emphasis => CmTagView::Emphasis,
            CmTag::Strong => CmTagView::Strong,
            CmTag::Strikethrough => CmTagView::Strikethrough,
            CmTag::Superscript => CmTagView::Superscript,
            CmTag::Subscript => CmTagView::Subscript,
            CmTag::Link(l) => CmTagView::Link(l@),
            CmTag::Image(l) => CmTagView::Image(l@),
            CmTag::MetadataBlock(k) => CmTagView::MetadataBlock(*k),
        }
    }
}

impl View for CmEvent {
    type V = CmEventView;

    open spec fn view(&self) -> CmEventView {
        match self {
            CmEvent::Start(t) => CmEventView::Start(t@),
            CmEvent::End(t) => CmEventView::End(*t),
            CmEvent::Text(s) => CmEventView::Text(s@),
            CmEvent::Code(s) => CmEventView::Code(s@),
            CmEvent::InlineMath(s) => CmEventView::InlineMath(s@),
            CmEvent::DisplayMath(s) => CmEventView::DisplayMath(s@),
            CmEvent::Html(s) => CmEventView::Html(s@),
            CmEvent::InlineHtml(s) => CmEventView::InlineHtml(s@),
            CmEvent::FootnoteReference(s) => CmEventView::FootnoteReference(s@),
            CmEvent::SoftBreak => CmEventView::SoftBreak,
            CmEvent::HardBreak => CmEventView::HardBreak,
            CmEvent::Rule => CmEventView::Rule,
            CmEvent::TaskListMarker(b) => CmEventView::TaskListMarker(*b),
        }
    }
}

pub open spec fn cm_events_view(s: Seq<CmEvent>) -> Seq<CmEventView> {
    Seq::new(s.len(), |i: int| s[i]@)
}

// ---------------------------------------------------------------------------
// Parsing
// ---------------------------------------------------------------------------

/// The events `pulldown-cmark` gives for `text` with strikethrough and
/// tables enabled.
pub uninterp spec fn markdown_events(text: Seq<char>) -> Seq<CmEventView>;

/// Parses `text` with `pulldown_cmark::Parser::new_ext` (strikethrough and
/// tables) and converts each event variant for variant.  Claimed: the events
/// are a function of the text, and an ordered list's first number has at
/// most nine digits (the parser reads at most nine).
#[verifier::external_body]
pub(crate) fn parse_events(text: &str) -> (r: Vec<CmEvent>)
    ensures
        cm_events_view(r@) == markdown_events(text@),
        forall|i: int|
            0 <= i < r@.len() ==> (#[trigger] r@[i]@ matches CmEventView::Start(
                CmTagView::List(Some(n)),
            ) ==> n <= 999_999_999),
{
    let opts = Options::ENABLE_STRIKETHROUGH | Options::ENABLE_TABLES;
    Parser::new_ext(text, opts).map(event_of).collect()
}

/// One `pulldown_cmark::Event`, variant for variant (the text events are
/// converted by [`text_event_of`]).
#[verifier::external_body]
fn event_of(e: Event) -> CmEvent {
    match e {
        Event::Start(t) => CmEvent::Start(tag_of(t)),
        Event::End(t) => CmEvent::End(tag_end_of(t)),
        Event::SoftBreak => CmEvent::SoftBreak,
        Event::HardBreak => CmEvent::HardBreak,
        Event::Rule => CmEvent::Rule,
        Event::TaskListMarker(b) => CmEvent::TaskListMarker(b),
        other => text_event_of(other),
    }
}

/// One `pulldown_cmark::Event` that carries text, variant for variant (the
/// others are converted by [`event_of`]).
#[verifier::external_body]
fn text_event_of(e: Event) -> CmEvent {
    match e {
        Event::Text(t) => CmEvent::Text(t.into_string()),
        Event::Code(t) => CmEvent::Code(t.into_string()),
        Event::InlineMath(t) => CmEvent::InlineMath(t.into_string()),
        Event::DisplayMath(t) => CmEvent::DisplayMath(t.into_string()),
        Event::Html(t) => CmEvent::Html(t.into_string()),
        Event::InlineHtml(t) => CmEvent::InlineHtml(t.into_string()),
        Event::FootnoteReference(t) => CmEvent::FootnoteReference(t.into_string()),
        other => event_of(other),
    }
}

/// One `pulldown_cmark::Tag` of a block, variant for variant (the others are
/// converted by [`table_tag_of`] and [`inline_tag_of`]).
#[verifier::external_body]
fn tag_of(t: Tag) -> CmTag {
    match t {
        Tag::Paragraph => CmTag::Paragraph,
        Tag::Heading { level, id, classes, attrs } => CmTag::Heading(heading_of(level, id, classes, attrs)),
        Tag::BlockQuote(k) => CmTag::BlockQuote(k.map(quote_of)),
        Tag::CodeBlock(k) => CmTag::CodeBlock(code_of(k)),
        Tag::HtmlBlock => CmTag::HtmlBlock,
        Tag::List(n) => CmTag::List(n),
        Tag::Item => CmTag::Item,
        Tag::MetadataBlock(k) => CmTag::MetadataBlock(metadata_of(k)),
        other => table_tag_of(other),
    }
}

/// One `pulldown_cmark::Tag` of a table, definition list or footnote,
/// variant for variant (the others are converted by [`inline_tag_of`] and
/// [`tag_of`]).
#[verifier::external_body]
fn table_tag_of(t: Tag) -> CmTag {
    match t {
        Tag::FootnoteDefinition(l) => CmTag::FootnoteDefinition(l.into_string()),
        Tag::DefinitionList => CmTag::DefinitionList,
        Tag::DefinitionListTitle => CmTag::DefinitionListTitle,
        Tag::DefinitionListDefinition => CmTag::DefinitionListDefinition,
        Tag::Table(a) => CmTag::Table(a.into_iter().map(align_of).collect()),
        Tag::TableHead => CmTag::TableHead,
        Tag::TableRow => CmTag::TableRow,
        Tag::TableCell => CmTag::TableCell,
        other => inline_tag_of(other),
    }
}

/// One inline `pulldown_cmark::Tag`, variant for variant (the others are
/// converted by [`tag_of`] and [`table_tag_of`]).
#[verifier::external_body]
fn inline_tag_of(t: Tag) -> CmTag {
    match t {
        Tag::Emphasis => CmTag::Emphasis,
        Tag::Strong => CmTag::Strong,
        Tag::Strikethrough => CmTag::Strikethrough,
        Tag::Superscript => CmTag::Superscript,
        Tag::Subscript => CmTag::Subscript,
        Tag::Link { link_type, dest_url, title, id } => CmTag::Link(link_of(link_type, dest_url, title, id)),
        Tag::Image { link_type, dest_url, title, id } => CmTag::Image(link_of(link_type, dest_url, title, id)),
        other => tag_of(other),
    }
}

/// The fields of a `pulldown_cmark::Tag::Heading` (the level as its number).
#[verifier::external_body]
fn heading_of(level: HeadingLevel, id: Option<CowStr>, classes: Vec<CowStr>, attrs: Vec<(CowStr, Option<CowStr>)>) -> HeadingData {
    HeadingData {
        level: level as u8,
        id: id.map(CowStr::into_string),
        classes: classes.into_iter().map(CowStr::into_string).collect(),
        attrs: attrs.into_iter().map(|(k, v)| (k.into_string(), v.map(CowStr::into_string))).collect(),
    }
}

/// The fields of a `pulldown_cmark::Tag::Link` or `Tag::Image`.
#[verifier::external_body]
fn link_of(link_type: LinkType, dest_url: CowStr, title: CowStr, id: CowStr) -> LinkData {
    LinkData {
        link_type: link_kind_of(link_type),
        dest_url: dest_url.into_string(),
        title: title.into_string(),
        id: id.into_string(),
    }
}

/// One `pulldown_cmark::LinkType`, variant for variant.
#[verifier::external_body]
fn link_kind_of(k: LinkType) -> LinkKind {
    match k {
        LinkType::Inline => LinkKind::Inline, LinkType::Reference => LinkKind::Reference,
        LinkType::ReferenceUnknown => LinkKind::ReferenceUnknown, LinkType::Collapsed => LinkKind::Collapsed,
        LinkType::CollapsedUnknown => LinkKind::CollapsedUnknown, LinkType::Shortcut => LinkKind::Shortcut,
        LinkType::ShortcutUnknown => LinkKind::ShortcutUnknown, LinkType::Autolink => LinkKind::Autolink,
        LinkType::Email => LinkKind::Email, LinkType::WikiLink { has_pothole } => LinkKind::WikiLink(has_pothole),
    }
}

/// One `pulldown_cmark::CodeBlockKind`, variant for variant.
#[verifier::external_body]
fn code_of(k: CodeBlockKind) -> CodeKind {
    match k {
        CodeBlockKind::Indented => CodeKind::Indented,
        CodeBlockKind::Fenced(l) => CodeKind::Fenced(l.into_string()),
    }
}

/// One `pulldown_cmark::BlockQuoteKind`, variant for variant.
#[verifier::external_body]
fn quote_of(k: BlockQuoteKind) -> QuoteKind {
    match k {
        BlockQuoteKind::Note => QuoteKind::Note, BlockQuoteKind::Tip => QuoteKind::Tip,
        BlockQuoteKind::Important => QuoteKind::Important, BlockQuoteKind::Warning => QuoteKind::Warning,
        BlockQuoteKind::Caution => QuoteKind::Caution,
    }
}

/// One `pulldown_cmark::MetadataBlockKind`, variant for variant.
#[verifier::external_body]
fn metadata_of(k: MetadataBlockKind) -> MetadataKind {
    match k {
        MetadataBlockKind::YamlStyle => MetadataKind::YamlStyle,
        MetadataBlockKind::PlusesStyle => MetadataKind::PlusesStyle,
    }
}

/// One `pulldown_cmark::Alignment`, variant for variant.
#[verifier::external_body]
fn align_of(a: Alignment) -> Align {
    match a {
        Alignment::None => Align::Unaligned, Alignment::Left => Align::Left,
        Alignment::Center => Align::Center, Alignment::Right => Align::Right,
    }
}

/// One `pulldown_cmark::TagEnd` of a block, variant for variant (a
/// heading's level as its number; the others are converted by
/// [`table_tag_end_of`] and [`inline_tag_end_of`]).
#[verifier::external_body]
fn tag_end_of(t: TagEnd) -> CmTagEnd {
    match t {
        TagEnd::Paragraph => CmTagEnd::Paragraph,
        TagEnd::Heading(l) => CmTagEnd::Heading(l as u8),
        TagEnd::BlockQuote(k) => CmTagEnd::BlockQuote(k.map(quote_of)),
        TagEnd::CodeBlock => CmTagEnd::CodeBlock,
        TagEnd::HtmlBlock => CmTagEnd::HtmlBlock,
        TagEnd::List(o) => CmTagEnd::List(o),
        TagEnd::Item => CmTagEnd::Item,
        TagEnd::MetadataBlock(k) => CmTagEnd::MetadataBlock(metadata_of(k)),
        other => table_tag_end_of(other),
    }
}

/// One `pulldown_cmark::TagEnd` of a table, definition list or footnote,
/// variant for variant (the others are converted by [`inline_tag_end_of`]
/// and [`tag_end_of`]).
#[verifier::external_body]
fn table_tag_end_of(t: TagEnd) -> CmTagEnd {
    match t {
        TagEnd::FootnoteDefinition => CmTagEnd::FootnoteDefinition,
        TagEnd::DefinitionList => CmTagEnd::DefinitionList,
        TagEnd::DefinitionListTitle => CmTagEnd::DefinitionListTitle,
        TagEnd::DefinitionListDefinition => CmTagEnd::DefinitionListDefinition,
        TagEnd::Table => CmTagEnd::Table,
        TagEnd::TableHead => CmTagEnd::TableHead,
        TagEnd::TableRow => CmTagEnd::TableRow,
        TagEnd::TableCell => CmTagEnd::TableCell,
        other => inline_tag_end_of(other),
    }
}

/// One inline `pulldown_cmark::TagEnd`, variant for variant (the others are
/// converted by [`tag_end_of`] and [`table_tag_end_of`]).
#[verifier::external_body]
fn inline_tag_end_of(t: TagEnd) -> CmTagEnd {
    match t {
        TagEnd::Emphasis => CmTagEnd::Emphasis,
        TagEnd::Strong => CmTagEnd::Strong,
        TagEnd::Strikethrough => CmTagEnd::Strikethrough,
        TagEnd::Superscript => CmTagEnd::Superscript,
        TagEnd::Subscript => CmTagEnd::Subscript,
        TagEnd::Link => CmTagEnd::Link,
        TagEnd::Image => CmTagEnd::Image,
        other => tag_end_of(other),
    }
}

} // verus!
