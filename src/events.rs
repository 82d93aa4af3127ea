//! The parse events the translation consumes, the contexts it tracks, and
//! the outside work it asks for.
use vstd::prelude::*;

verus! {

/// The kind of construct that is currently open.
#[derive(Debug, Clone, Copy, PartialEq, Eq, Structural)]
pub enum EventType {
    Code,
    Emphasis,
    Header,
    Strong,
    Table,
    TableHead,
    Text,
    BlockQuote,
}

impl Default for EventType {
    fn default() -> (r: Self)
        ensures
            r == EventType::Text,
    {
        EventType::Text
    }
}

/// A nesting construct of a Markdown document.
#[derive(Debug, Clone)]
pub enum Tag {
    Paragraph,
    /// A heading, with the level the parser gave it.
    Heading(u32),
    BlockQuote,
    /// A code block, with the info string of a fenced block.
    CodeBlock(Option<String>),
    /// A list, with the start number of an ordered list.
    List(Option<u64>),
    Item,
    Table,
    TableHead,
    TableRow,
    TableCell,
    Emphasis,
    Strong,
    /// A link, with its destination.
    Link(String),
    /// An image, with its path and title.
    Image(String, String),
    /// A construct that has no LaTeX form here (strike-through, footnotes).
    Other,
}

/// One structural token of a Markdown document, in document order.
#[derive(Debug, Clone)]
pub enum Event {
    Start(Tag),
    End(Tag),
    Text(String),
    Code(String),
    Html(String),
    SoftBreak,
    HardBreak,
    /// A token that has no LaTeX form here (rules, task markers, footnote references).
    Other,
}

/// Outside work that an event needs before it can be translated.
#[derive(Debug, Clone, PartialEq, Eq)]
pub enum Request {
    Nothing,
    /// Find the first file under `root` whose path ends with `fragment`, and
    /// read the title on its first line.
    FindTitle { root: String, fragment: String },
    /// Render the vector image at `source` to a raster image at `target`.
    Rasterize { source: String, target: String },
}

/// The outcome of the outside work for one event.
#[derive(Debug, Clone, PartialEq, Eq)]
pub enum Reply {
    /// The work was done (or there was none to do).
    Done,
    /// The title of the file that was found.
    Title(String),
    /// Nothing was found.
    NotFound,
    /// The work failed.
    Failed,
}

/// Why a translation stopped without a result.
#[derive(Debug, Clone, PartialEq, Eq)]
pub enum ConvertError {
    /// The template has no `\begin{document}`.
    MissingDocumentBegin,
    /// Every candidate delimiter of an inline listing occurs in its code.
    NoListingDelimiter,
    /// A vector image was not rasterized.
    ImageNotRasterized,
}

} // verus!
