//! Markdown preview text model: styled spans of inline text, and their
//! breaking into words for wrapping.

use vstd::prelude::*;
use crate::text::{chars_of, is_whitespace, is_ws, push_all, string_of, trim};
use pulldown_cmark::{Alignment as ColumnAlignment, CodeBlockKind, Event, Options, Parser, Tag, TagEnd};

verus! {

/// A span of inline text with formatting metadata.
#[derive(Debug, Clone)]
pub struct RichSpan {
    pub text: String,
    pub bold: bool,
    pub italic: bool,
    pub strikethrough: bool,
    pub code: bool,
    /// If Some, this span is a link with the given URL.
    pub link_url: Option<String>,
}

/// A span as its text characters, its four styles and its link.
pub open spec fn span_view(s: RichSpan) -> (Seq<char>, bool, bool, bool, bool, Option<Seq<char>>) {
    (
        s.text@,
        s.bold,
        s.italic,
        s.strikethrough,
        s.code,
        match s.link_url {
            Some(u) => Some(u@),
            None => None,
        },
    )
}

/// The views of the spans.
pub open spec fn spans_view(v: Seq<RichSpan>) -> Seq<(Seq<char>, bool, bool, bool, bool, Option<Seq<char>>)> {
    v.map_values(|s: RichSpan| span_view(s))
}

/// The texts of the spans, concatenated.
pub open spec fn flat(v: Seq<RichSpan>) -> Seq<char>
    decreases v.len(),
{
    if v.len() == 0 {
        Seq::empty()
    } else {
        flat(v.drop_last()) + v.last().text@
    }
}

/// A copy of a link.
fn copy_link(u: &Option<String>) -> (r: Option<String>)
    ensures
        match (r, *u) {
            (Some(a), Some(b)) => a@ == b@,
            (None, None) => true,
            _ => false,
        },
{
    match u {
        Some(s) => Some(s.clone()),
        None => None,
    }
}

impl RichSpan {
    /// Unstyled text.
    pub fn plain(text: &str) -> (r: RichSpan)
        ensures
            span_view(r) == (text@, false, false, false, false, None::<Seq<char>>),
    {
        RichSpan {
            text: text.to_string(),
            bold: false,
            italic: false,
            strikethrough: false,
            code: false,
            link_url: None,
        }
    }

    /// Flatten the text content of a slice of spans.
    pub fn flat_text(spans: &[RichSpan]) -> (r: String)
        ensures
            r@ == flat(spans@),
    {
        let mut r = String::new();
        let n = spans.len();
        assert(spans@.take(0) =~= Seq::<RichSpan>::empty());
        for i in 0..n
            invariant
                n == spans@.len(),
                r@ == flat(spans@.take(i as int)),
        {
            push_all(&mut r, spans[i].text.as_str());
            assert(spans@.take(i + 1).drop_last() =~= spans@.take(i as int));
        }
        assert(spans@.take(n as int) =~= spans@);
        r
    }
}

/// `s` cut after each white-space character (what `str::split_inclusive`
/// with `char::is_whitespace` yields): every piece but the last ends with
/// white space, and no piece is empty.
pub open spec fn ws_pieces(s: Seq<char>) -> Seq<Seq<char>>
    decreases s.len(),
{
    if s.len() == 0 {
        Seq::empty()
    } else {
        let r = ws_pieces(s.drop_last());
        if r.len() == 0 || is_ws(r.last().last()) {
            r.push(seq![s.last()])
        } else {
            r.update(r.len() - 1, r.last().push(s.last()))
        }
    }
}

/// The word spans of one span: itself when it is inline code, else one span
/// per piece of its text, each with the span's styles and link.
pub open spec fn span_words(s: RichSpan) -> Seq<(Seq<char>, bool, bool, bool, bool, Option<Seq<char>>)> {
    let v = span_view(s);
    if s.code {
        seq![v]
    } else {
        ws_pieces(s.text@).map_values(
            |p: Seq<char>| (p, v.1, v.2, v.3, v.4, v.5),
        )
    }
}

/// The word spans of all the spans, in order.
pub open spec fn words_of_spans(v: Seq<RichSpan>) -> Seq<(Seq<char>, bool, bool, bool, bool, Option<Seq<char>>)>
    decreases v.len(),
{
    if v.len() == 0 {
        Seq::empty()
    } else {
        words_of_spans(v.drop_last()) + span_words(v.last())
    }
}

proof fn lemma_pieces_nonempty(s: Seq<char>)
    ensures
        forall|k: int| 0 <= k < ws_pieces(s).len() ==> (#[trigger] ws_pieces(s)[k]).len() > 0,
        s.len() > 0 ==> ws_pieces(s).len() > 0,
    decreases s.len(),
{
    if s.len() > 0 {
        lemma_pieces_nonempty(s.drop_last());
        let r = ws_pieces(s.drop_last());
        let w = ws_pieces(s);
        assert forall|k: int| 0 <= k < w.len() implies (#[trigger] w[k]).len() > 0 by {
            if k < r.len() && !(r.len() == 0 || is_ws(r.last().last())) && k == r.len() - 1 {
                assert(w[k] == r.last().push(s.last()));
            } else if k < r.len() {
                assert(w[k] == r[k]);
            }
        }
    }
}

/// The pieces of the characters `s`, cut after each white-space character.
pub fn split_after_whitespace(s: &[char]) -> (r: Vec<Vec<char>>)
    ensures
        r@.map_values(|p: Vec<char>| p@) == ws_pieces(s@),
{
    let mut pieces: Vec<Vec<char>> = Vec::new();
    let n = s.len();
    assert(s@.take(0) =~= Seq::<char>::empty());
    for i in 0..n
        invariant
            n == s@.len(),
            pieces@.map_values(|p: Vec<char>| p@) == ws_pieces(s@.take(i as int)),
    {
        let ghost tk = s@.take(i + 1);
        let ghost pv = pieces@.map_values(|p: Vec<char>| p@);
        proof {
            assert(tk.drop_last() =~= s@.take(i as int));
            lemma_pieces_nonempty(s@.take(i as int));
        }
        let c = s[i];
        let l = pieces.len();
        let new_piece = if l == 0 {
            true
        } else {
            let lp = &pieces[l - 1];
            assert(lp@ == pv[l - 1]);
            assert(pv[l - 1].len() > 0);
            is_whitespace(lp[lp.len() - 1])
        };
        if new_piece {
            let mut one: Vec<char> = Vec::new();
            one.push(c);
            assert(one@ =~= seq![c]);
            pieces.push(one);
            assert(pieces@.map_values(|p: Vec<char>| p@) =~= pv.push(seq![c]));
        } else {
            let mut last = pieces.pop().unwrap();
            last.push(c);
            pieces.push(last);
            assert(pieces@.map_values(|p: Vec<char>| p@) =~= pv.update(pv.len() - 1, pv.last().push(c)));
        }
    }
    assert(s@.take(n as int) =~= s@);
    pieces
}

/// Break spans into word-level spans for wrapping: inline code stays one
/// token; other text is cut after each white-space character.
pub fn spans_to_words(spans: &[RichSpan]) -> (r: Vec<RichSpan>)
    ensures
        spans_view(r@) == words_of_spans(spans@),
{
    let mut words: Vec<RichSpan> = Vec::new();
    let n = spans.len();
    assert(spans@.take(0) =~= Seq::<RichSpan>::empty());
    for i in 0..n
        invariant
            n == spans@.len(),
            spans_view(words@) == words_of_spans(spans@.take(i as int)),
    {
        let span = &spans[i];
        let ghost before = spans_view(words@);
        proof {
            assert(spans@.take(i + 1).drop_last() =~= spans@.take(i as int));
        }
        if span.code {
            let copy = RichSpan {
                text: span.text.clone(),
                bold: span.bold,
                italic: span.italic,
                strikethrough: span.strikethrough,
                code: span.code,
                link_url: copy_link(&span.link_url),
            };
            words.push(copy);
            assert(spans_view(words@) =~= before + span_words(*span));
        } else {
            let cs = chars_of(span.text.as_str());
            let parts = split_after_whitespace(cs.as_slice());
            let ghost pv = parts@.map_values(|p: Vec<char>| p@);
            let m = parts.len();
            for k in 0..m
                invariant
                    m == parts@.len(),
                    pv == parts@.map_values(|p: Vec<char>| p@),
                    pv == ws_pieces(span.text@),
                    !span.code,
                    spans_view(words@) == before + span_words(*span).take(k as int),
            {
                let w = RichSpan {
                    text: string_of(parts[k].as_slice()),
                    bold: span.bold,
                    italic: span.italic,
                    strikethrough: span.strikethrough,
                    code: span.code,
                    link_url: copy_link(&span.link_url),
                };
                let ghost wb = spans_view(words@);
                words.push(w);
                assert(span_view(w) == span_words(*span)[k as int]);
                assert(spans_view(words@) =~= wb.push(span_view(w)));
                assert(span_words(*span).take(k + 1) =~= span_words(*span).take(k as int).push(
                    span_words(*span)[k as int],
                ));
            }
            assert(span_words(*span).take(m as int) =~= span_words(*span));
        }
    }
    assert(spans@.take(n as int) =~= spans@);
    words
}

} // verus!

verus! {

// ---------------------------------------------------------------------------
// Markdown events to blocks
// ---------------------------------------------------------------------------

/// Column alignment of a table.
#[derive(Debug, Clone, Copy, PartialEq, Eq, Structural)]
pub enum Alignment {
    Unaligned,
    Left,
    Center,
    Right,
}

/// A markdown element that starts.
pub enum MdTag {
    /// A heading of level 1 to 6.
    Heading(usize),
    Paragraph,
    /// A code block, with the info string of a fenced one.
    CodeBlock(Option<String>),
    /// A list, with the first number of an ordered one.
    List(Option<u64>),
    Item,
    BlockQuote,
    Strong,
    Emphasis,
    Strikethrough,
    /// A link to the URL.
    Link(String),
    /// An image: URL and title.
    Image(String, String),
    /// A table with its columns' alignments.
    Table(Vec<Alignment>),
    TableHead,
    TableRow,
    TableCell,
    /// Any other element.
    Other,
}

/// A markdown element that ends.
#[derive(Debug, Clone, Copy, PartialEq, Eq, Structural)]
pub enum MdTagEnd {
    Heading,
    Paragraph,
    CodeBlock,
    List,
    Item,
    BlockQuote,
    Strong,
    Emphasis,
    Strikethrough,
    Link,
    Image,
    Table,
    TableHead,
    TableRow,
    TableCell,
    Other,
}

/// An event of a markdown parse, in document order.
pub enum MdEvent {
    Start(MdTag),
    End(MdTagEnd),
    Text(String),
    Code(String),
    SoftBreak,
    HardBreak,
    Rule,
    TaskListMarker(bool),
    /// Any other event.
    Other,
}

/// A span's view.
pub type SpanV = (Seq<char>, bool, bool, bool, bool, Option<Seq<char>>);

/// A block as the preview draws it.
pub enum BlockView {
    Heading(nat, Seq<SpanV>),
    Paragraph(Seq<SpanV>),
    CodeBlock(Seq<char>),
    Mermaid(Seq<char>),
    ListItem(Seq<SpanV>, bool, nat, nat),
    TaskListItem(Seq<SpanV>, bool, nat),
    HorizontalRule,
    BlockQuote(Seq<SpanV>),
    Table(Seq<Seq<SpanV>>, Seq<Seq<Seq<SpanV>>>, Seq<Alignment>),
    Image(Seq<char>, Seq<char>, Seq<char>),
}

/// What the block reader keeps between events.
#[verifier::ext_equal]
pub struct MdState {
    pub blocks: Seq<BlockView>,
    pub spans: Seq<SpanV>,
    pub bold: nat,
    pub italic: nat,
    pub strike: nat,
    pub links: Seq<Seq<char>>,
    pub heading: Option<nat>,
    pub in_code: bool,
    pub in_mermaid: bool,
    pub code: Seq<char>,
    pub in_quote: bool,
    pub lists: Seq<(bool, nat)>,
    pub in_item: bool,
    pub task: Option<bool>,
    pub aligns: Seq<Alignment>,
    pub header: Seq<Seq<SpanV>>,
    pub rows: Seq<Seq<Seq<SpanV>>>,
    pub row: Seq<Seq<SpanV>>,
    pub in_head: bool,
    pub in_cell: bool,
    pub in_image: bool,
    pub image_url: Seq<char>,
    pub image_title: Seq<char>,
}

/// The reader before the first event.
pub open spec fn md_start() -> MdState {
    MdState {
        blocks: Seq::empty(),
        spans: Seq::empty(),
        bold: 0,
        italic: 0,
        strike: 0,
        links: Seq::empty(),
        heading: None,
        in_code: false,
        in_mermaid: false,
        code: Seq::empty(),
        in_quote: false,
        lists: Seq::empty(),
        in_item: false,
        task: None,
        aligns: Seq::empty(),
        header: Seq::empty(),
        rows: Seq::empty(),
        row: Seq::empty(),
        in_head: false,
        in_cell: false,
        in_image: false,
        image_url: Seq::empty(),
        image_title: Seq::empty(),
    }
}

/// `s` with the ASCII letters in lower case.
pub open spec fn ascii_lower(s: Seq<char>) -> Seq<char> {
    s.map_values(|c: char| if 'A' <= c && c <= 'Z' { ((c as u8) + 32) as char } else { c })
}

/// Whether a fenced code block's info string names a mermaid diagram.
pub open spec fn is_mermaid(lang: Option<String>) -> bool {
    match lang {
        Some(l) => ascii_lower(trim(l@)) == "mermaid"@,
        None => false,
    }
}

/// One less, never below zero.
pub open spec fn dec(n: nat) -> nat {
    if n == 0 {
        0
    } else {
        (n - 1) as nat
    }
}

/// The list item (or task item) the gathered spans make.
pub open spec fn item_block(s: MdState) -> BlockView {
    let depth = dec(s.lists.len());
    match s.task {
        Some(checked) => BlockView::TaskListItem(s.spans, checked, depth),
        None => if s.lists.len() > 0 {
            BlockView::ListItem(s.spans, s.lists.last().0, s.lists.last().1, depth)
        } else {
            BlockView::ListItem(s.spans, false, 0, depth)
        },
    }
}

/// A span of text (or inline code) in the current styles and link.
pub open spec fn styled(s: MdState, text: Seq<char>, code: bool) -> SpanV {
    (
        text,
        s.bold > 0,
        s.italic > 0,
        s.strike > 0,
        code,
        if s.links.len() > 0 {
            Some(s.links.last())
        } else {
            None
        },
    )
}

/// The reader after a start event.
pub open spec fn md_start_tag(s: MdState, t: MdTag) -> MdState {
    match t {
        MdTag::Heading(level) => MdState { heading: Some(level as nat), spans: Seq::empty(), ..s },
        MdTag::Paragraph => if !s.in_cell && !s.in_image {
            MdState { spans: Seq::empty(), ..s }
        } else {
            s
        },
        MdTag::CodeBlock(lang) => MdState {
            in_code: true,
            in_mermaid: is_mermaid(lang),
            code: Seq::empty(),
            ..s
        },
        MdTag::List(start) => MdState {
            lists: s.lists.push(
                (
                    start is Some,
                    match start {
                        Some(n) => n as usize as nat,
                        None => 0,
                    },
                ),
            ),
            ..s
        },
        MdTag::Item => MdState {
            in_item: true,
            task: None,
            lists: if s.lists.len() > 0 && s.lists.last().0 {
                s.lists.update(s.lists.len() - 1, (true, s.lists.last().1 + 1))
            } else {
                s.lists
            },
            spans: Seq::empty(),
            ..s
        },
        MdTag::BlockQuote => MdState { in_quote: true, ..s },
        MdTag::Strong => MdState { bold: s.bold + 1, ..s },
        MdTag::Emphasis => MdState { italic: s.italic + 1, ..s },
        MdTag::Strikethrough => MdState { strike: s.strike + 1, ..s },
        MdTag::Link(url) => MdState { links: s.links.push(url@), ..s },
        MdTag::Image(url, title) => MdState {
            in_image: true,
            image_url: url@,
            image_title: title@,
            spans: Seq::empty(),
            ..s
        },
        MdTag::Table(aligns) => MdState {
            aligns: aligns@,
            header: Seq::empty(),
            rows: Seq::empty(),
            ..s
        },
        MdTag::TableHead => MdState { in_head: true, row: Seq::empty(), ..s },
        MdTag::TableRow => MdState { row: Seq::empty(), ..s },
        MdTag::TableCell => MdState { in_cell: true, spans: Seq::empty(), ..s },
        MdTag::Other => s,
    }
}

/// The reader after an end event.
pub open spec fn md_end_tag(s: MdState, t: MdTagEnd) -> MdState {
    match t {
        MdTagEnd::Heading => match s.heading {
            Some(level) => MdState {
                blocks: s.blocks.push(BlockView::Heading(level, s.spans)),
                spans: Seq::empty(),
                heading: None,
                ..s
            },
            None => s,
        },
        MdTagEnd::Paragraph => if s.in_image || s.in_cell {
            s
        } else if s.in_quote {
            MdState { blocks: s.blocks.push(BlockView::BlockQuote(s.spans)), spans: Seq::empty(), ..s }
        } else if s.in_item {
            MdState { blocks: s.blocks.push(item_block(s)), spans: Seq::empty(), task: None, ..s }
        } else {
            MdState { blocks: s.blocks.push(BlockView::Paragraph(s.spans)), spans: Seq::empty(), ..s }
        },
        MdTagEnd::CodeBlock => if s.in_mermaid {
            MdState { in_code: false, in_mermaid: false, blocks: s.blocks.push(BlockView::Mermaid(s.code)), ..s }
        } else {
            MdState {
                in_code: false,
                blocks: s.blocks.push(BlockView::CodeBlock(s.code)),
                code: Seq::empty(),
                ..s
            }
        },
        MdTagEnd::List => MdState {
            lists: if s.lists.len() > 0 {
                s.lists.drop_last()
            } else {
                s.lists
            },
            ..s
        },
        MdTagEnd::Item => {
            let s1 = if s.spans.len() > 0 {
                MdState { blocks: s.blocks.push(item_block(s)), spans: Seq::empty(), ..s }
            } else {
                s
            };
            MdState { in_item: false, task: None, ..s1 }
        },
        MdTagEnd::BlockQuote => {
            let s1 = if s.spans.len() > 0 {
                MdState { blocks: s.blocks.push(BlockView::BlockQuote(s.spans)), spans: Seq::empty(), ..s }
            } else {
                s
            };
            MdState { in_quote: false, ..s1 }
        },
        MdTagEnd::Strong => MdState { bold: dec(s.bold), ..s },
        MdTagEnd::Emphasis => MdState { italic: dec(s.italic), ..s },
        MdTagEnd::Strikethrough => MdState { strike: dec(s.strike), ..s },
        MdTagEnd::Link => MdState {
            links: if s.links.len() > 0 {
                s.links.drop_last()
            } else {
                s.links
            },
            ..s
        },
        MdTagEnd::Image => MdState {
            blocks: s.blocks.push(
                BlockView::Image(flat_views(s.spans), s.image_url, s.image_title),
            ),
            image_url: Seq::empty(),
            image_title: Seq::empty(),
            spans: Seq::empty(),
            in_image: false,
            ..s
        },
        MdTagEnd::Table => MdState {
            blocks: s.blocks.push(BlockView::Table(s.header, s.rows, s.aligns)),
            header: Seq::empty(),
            rows: Seq::empty(),
            aligns: Seq::empty(),
            ..s
        },
        MdTagEnd::TableHead => MdState { header: s.row, row: Seq::empty(), in_head: false, ..s },
        MdTagEnd::TableRow => if !s.in_head {
            MdState { rows: s.rows.push(s.row), row: Seq::empty(), ..s }
        } else {
            s
        },
        MdTagEnd::TableCell => MdState { row: s.row.push(s.spans), spans: Seq::empty(), in_cell: false, ..s },
        MdTagEnd::Other => s,
    }
}

/// The texts of span views, concatenated.
pub open spec fn flat_views(v: Seq<SpanV>) -> Seq<char>
    decreases v.len(),
{
    if v.len() == 0 {
        Seq::empty()
    } else {
        flat_views(v.drop_last()) + v.last().0
    }
}

/// The reader after one event.
pub open spec fn md_step(s: MdState, e: MdEvent) -> MdState {
    match e {
        MdEvent::Start(t) => md_start_tag(s, t),
        MdEvent::End(t) => md_end_tag(s, t),
        MdEvent::Text(t) => if s.in_code {
            MdState { code: s.code + t@, ..s }
        } else {
            MdState { spans: s.spans.push(styled(s, t@, false)), ..s }
        },
        MdEvent::Code(t) => if s.in_code {
            MdState { code: s.code + t@, ..s }
        } else {
            MdState { spans: s.spans.push(styled(s, t@, true)), ..s }
        },
        MdEvent::SoftBreak => if s.in_code {
            MdState { code: s.code.push(' '), ..s }
        } else {
            MdState { spans: s.spans.push((seq![' '], false, false, false, false, None)), ..s }
        },
        MdEvent::HardBreak => if s.in_code {
            MdState { code: s.code.push('\n'), ..s }
        } else {
            MdState { spans: s.spans.push((seq!['\n'], false, false, false, false, None)), ..s }
        },
        MdEvent::Rule => MdState { blocks: s.blocks.push(BlockView::HorizontalRule), ..s },
        MdEvent::TaskListMarker(checked) => MdState { task: Some(checked), ..s },
        MdEvent::Other => s,
    }
}

/// The reader after the events, in order.
pub open spec fn md_run(events: Seq<MdEvent>) -> MdState
    decreases events.len(),
{
    if events.len() == 0 {
        md_start()
    } else {
        md_step(md_run(events.drop_last()), events.last())
    }
}

/// How many emphasis elements are open after the events: each start of one
/// opens it, each end closes the innermost (none closes below zero).
pub open spec fn open_emphasis(es: Seq<MdEvent>) -> nat
    decreases es.len(),
{
    if es.len() == 0 {
        0
    } else {
        let d = open_emphasis(es.drop_last());
        match es.last() {
            MdEvent::Start(MdTag::Emphasis) => d + 1,
            MdEvent::End(MdTagEnd::Emphasis) => if d == 0 { 0 } else { (d - 1) as nat },
            _ => d,
        }
    }
}

/// How many strong elements are open after the events.
pub open spec fn open_strong(es: Seq<MdEvent>) -> nat
    decreases es.len(),
{
    if es.len() == 0 {
        0
    } else {
        let d = open_strong(es.drop_last());
        match es.last() {
            MdEvent::Start(MdTag::Strong) => d + 1,
            MdEvent::End(MdTagEnd::Strong) => if d == 0 { 0 } else { (d - 1) as nat },
            _ => d,
        }
    }
}

/// How many strikethrough elements are open after the events.
pub open spec fn open_strike(es: Seq<MdEvent>) -> nat
    decreases es.len(),
{
    if es.len() == 0 {
        0
    } else {
        let d = open_strike(es.drop_last());
        match es.last() {
            MdEvent::Start(MdTag::Strikethrough) => d + 1,
            MdEvent::End(MdTagEnd::Strikethrough) => if d == 0 { 0 } else { (d - 1) as nat },
            _ => d,
        }
    }
}

/// The targets of the links left open by the events, outermost first.
pub open spec fn open_links(es: Seq<MdEvent>) -> Seq<Seq<char>>
    decreases es.len(),
{
    if es.len() == 0 {
        Seq::empty()
    } else {
        let l = open_links(es.drop_last());
        match es.last() {
            MdEvent::Start(MdTag::Link(url)) => l.push(url@),
            MdEvent::End(MdTagEnd::Link) => if l.len() == 0 { l } else { l.drop_last() },
            _ => l,
        }
    }
}

/// The reader counts exactly the emphasis, strong and strikethrough
/// elements left open by the events so far, and keeps the open links.
pub proof fn lemma_style_depths(es: Seq<MdEvent>)
    ensures
        md_run(es).italic == open_emphasis(es),
        md_run(es).bold == open_strong(es),
        md_run(es).strike == open_strike(es),
        md_run(es).links == open_links(es),
    decreases es.len(),
{
    if es.len() > 0 {
        lemma_style_depths(es.drop_last());
        match es.last() {
            MdEvent::Start(t) => {
                match t {
                    MdTag::Emphasis => {},
                    MdTag::Strong => {},
                    MdTag::Strikethrough => {},
                    MdTag::Link(_) => {},
                    _ => {},
                }
            },
            MdEvent::End(t) => {
                match t {
                    MdTagEnd::Emphasis => {},
                    MdTagEnd::Strong => {},
                    MdTagEnd::Strikethrough => {},
                    MdTagEnd::Link => {},
                    _ => {},
                }
            },
            _ => {},
        }
    }
}

/// Text (or inline code) read outside a code block becomes a new span with
/// that text, italic exactly when an emphasis element is open, bold exactly
/// when a strong one is, struck through exactly when a strikethrough one is,
/// marked as code exactly for inline code, and linked to the innermost open
/// link, if any.
pub proof fn lemma_text_span_styles(es: Seq<MdEvent>, t: String, code: bool)
    requires
        !md_run(es).in_code,
    ensures
        ({
            let e = if code { MdEvent::Code(t) } else { MdEvent::Text(t) };
            let spans = md_run(es.push(e)).spans;
            let sp = spans.last();
            &&& spans.len() == md_run(es).spans.len() + 1
            &&& spans.drop_last() == md_run(es).spans
            &&& sp.0 == t@
            &&& sp.1 == (open_strong(es) > 0)
            &&& sp.2 == (open_emphasis(es) > 0)
            &&& sp.3 == (open_strike(es) > 0)
            &&& sp.4 == code
            &&& sp.5 == if open_links(es).len() > 0 { Some(open_links(es).last()) } else { None }
        }),
{
    lemma_style_depths(es);
    let e = if code { MdEvent::Code(t) } else { MdEvent::Text(t) };
    assert(es.push(e).drop_last() =~= es);
}

/// A heading of level `l` with text `t` (outside a code block) adds one
/// heading block of that level whose single span is the text.
pub proof fn lemma_heading_block(es: Seq<MdEvent>, l: usize, t: String)
    requires
        !md_run(es).in_code,
    ensures
        ({
            let all = es.push(MdEvent::Start(MdTag::Heading(l))).push(MdEvent::Text(t)).push(
                MdEvent::End(MdTagEnd::Heading),
            );
            let blocks = md_run(all).blocks;
            &&& blocks.len() == md_run(es).blocks.len() + 1
            &&& blocks.drop_last() == md_run(es).blocks
            &&& blocks.last() matches BlockView::Heading(level, spans) && level == l && spans.len() == 1
                && spans[0].0 == t@
        }),
{
    let e1 = es.push(MdEvent::Start(MdTag::Heading(l)));
    let e2 = e1.push(MdEvent::Text(t));
    let e3 = e2.push(MdEvent::End(MdTagEnd::Heading));
    assert(e1.drop_last() =~= es);
    assert(e2.drop_last() =~= e1);
    assert(e3.drop_last() =~= e2);
    let s0 = md_run(es);
    let s1 = md_run(e1);
    let s2 = md_run(e2);
    assert(s1 == md_start_tag(s0, MdTag::Heading(l)));
    assert(s1.spans.len() == 0 && s1.heading == Some(l as nat) && !s1.in_code);
    assert(s2 == md_step(s1, MdEvent::Text(t)));
    assert(s2.spans =~= seq![styled(s1, t@, false)]);
    assert(md_run(e3) == md_end_tag(s2, MdTagEnd::Heading));
    assert(md_run(e3).blocks.drop_last() =~= s0.blocks);
}

/// An emphasised paragraph read at the top level (outside code, quotes,
/// list items, table cells and images, with no emphasis open) adds one
/// paragraph block whose single span is the text, in italics.
pub proof fn lemma_emphasis_paragraph(es: Seq<MdEvent>, t: String)
    requires
        !md_run(es).in_code,
        !md_run(es).in_quote,
        !md_run(es).in_item,
        !md_run(es).in_cell,
        !md_run(es).in_image,
    ensures
        ({
            let all = es.push(MdEvent::Start(MdTag::Paragraph)).push(MdEvent::Start(MdTag::Emphasis)).push(
                MdEvent::Text(t),
            ).push(MdEvent::End(MdTagEnd::Emphasis)).push(MdEvent::End(MdTagEnd::Paragraph));
            let blocks = md_run(all).blocks;
            &&& blocks.len() == md_run(es).blocks.len() + 1
            &&& blocks.drop_last() == md_run(es).blocks
            &&& blocks.last() matches BlockView::Paragraph(spans) && spans.len() == 1 && spans[0].0 == t@
                && spans[0].2 && !spans[0].4
            &&& open_emphasis(all) == open_emphasis(es)
        }),
{
    let e1 = es.push(MdEvent::Start(MdTag::Paragraph));
    let e2 = e1.push(MdEvent::Start(MdTag::Emphasis));
    let e3 = e2.push(MdEvent::Text(t));
    let e4 = e3.push(MdEvent::End(MdTagEnd::Emphasis));
    let e5 = e4.push(MdEvent::End(MdTagEnd::Paragraph));
    assert(e1.drop_last() =~= es);
    assert(e2.drop_last() =~= e1);
    assert(e3.drop_last() =~= e2);
    assert(e4.drop_last() =~= e3);
    assert(e5.drop_last() =~= e4);
    let s0 = md_run(es);
    let s1 = md_run(e1);
    let s2 = md_run(e2);
    let s3 = md_run(e3);
    let s4 = md_run(e4);
    assert(s1 == md_start_tag(s0, MdTag::Paragraph));
    assert(s1.spans.len() == 0 && s1.blocks == s0.blocks);
    assert(s2 == md_start_tag(s1, MdTag::Emphasis));
    assert(s2.italic == s0.italic + 1 && s2.spans.len() == 0 && !s2.in_code);
    assert(s3 == md_step(s2, MdEvent::Text(t)));
    assert(s3.spans =~= seq![styled(s2, t@, false)]);
    assert(s4 == md_end_tag(s3, MdTagEnd::Emphasis));
    assert(s4.spans == s3.spans && s4.blocks == s0.blocks);
    assert(!s4.in_image && !s4.in_cell && !s4.in_quote && !s4.in_item);
    assert(md_run(e5) == md_end_tag(s4, MdTagEnd::Paragraph));
    assert(md_run(e5).blocks == s0.blocks.push(BlockView::Paragraph(s3.spans)));
    assert(open_emphasis(e1) == open_emphasis(es));
    assert(open_emphasis(e2) == open_emphasis(e1) + 1);
    assert(open_emphasis(e3) == open_emphasis(e2));
    assert(open_emphasis(e4) == open_emphasis(e3) - 1);
    assert(open_emphasis(e5) == open_emphasis(e4));
    assert(md_run(e5).blocks.drop_last() =~= s0.blocks);
}

} // verus!

verus! {

/// A block of the preview.
pub enum MdBlock {
    Heading(usize, Vec<RichSpan>),
    Paragraph(Vec<RichSpan>),
    CodeBlock(String),
    /// A fenced `mermaid` code block: the diagram's source.
    MermaidDiagram(String),
    ListItem { spans: Vec<RichSpan>, ordered: bool, index: usize, depth: usize },
    TaskListItem { spans: Vec<RichSpan>, checked: bool, depth: usize },
    HorizontalRule,
    BlockQuote(Vec<RichSpan>),
    Table { header: Vec<Vec<RichSpan>>, rows: Vec<Vec<Vec<RichSpan>>>, alignments: Vec<Alignment> },
    Image { alt: String, url: String, title: String },
}

/// The cells' views.
pub open spec fn cells_view(v: Seq<Vec<RichSpan>>) -> Seq<Seq<SpanV>> {
    v.map_values(|c: Vec<RichSpan>| spans_view(c@))
}

/// The rows' views.
pub open spec fn rows_view(v: Seq<Vec<Vec<RichSpan>>>) -> Seq<Seq<Seq<SpanV>>> {
    v.map_values(|r: Vec<Vec<RichSpan>>| cells_view(r@))
}

/// A block's view.
pub open spec fn block_view(b: MdBlock) -> BlockView {
    match b {
        MdBlock::Heading(l, s) => BlockView::Heading(l as nat, spans_view(s@)),
        MdBlock::Paragraph(s) => BlockView::Paragraph(spans_view(s@)),
        MdBlock::CodeBlock(c) => BlockView::CodeBlock(c@),
        MdBlock::MermaidDiagram(c) => BlockView::Mermaid(c@),
        MdBlock::ListItem { spans, ordered, index, depth } => BlockView::ListItem(
            spans_view(spans@),
            ordered,
            index as nat,
            depth as nat,
        ),
        MdBlock::TaskListItem { spans, checked, depth } => BlockView::TaskListItem(
            spans_view(spans@),
            checked,
            depth as nat,
        ),
        MdBlock::HorizontalRule => BlockView::HorizontalRule,
        MdBlock::BlockQuote(s) => BlockView::BlockQuote(spans_view(s@)),
        MdBlock::Table { header, rows, alignments } => BlockView::Table(
            cells_view(header@),
            rows_view(rows@),
            alignments@,
        ),
        MdBlock::Image { alt, url, title } => BlockView::Image(alt@, url@, title@),
    }
}

/// The blocks' views.
pub open spec fn blocks_view(v: Seq<MdBlock>) -> Seq<BlockView> {
    v.map_values(|b: MdBlock| block_view(b))
}

/// The block reader's state.
pub struct MdReader {
    pub blocks: Vec<MdBlock>,
    pub spans: Vec<RichSpan>,
    pub bold: usize,
    pub italic: usize,
    pub strike: usize,
    pub links: Vec<String>,
    pub heading: Option<usize>,
    pub in_code: bool,
    pub in_mermaid: bool,
    pub code: String,
    pub in_quote: bool,
    pub lists: Vec<(bool, usize)>,
    pub in_item: bool,
    pub task: Option<bool>,
    pub aligns: Vec<Alignment>,
    pub header: Vec<Vec<RichSpan>>,
    pub rows: Vec<Vec<Vec<RichSpan>>>,
    pub row: Vec<Vec<RichSpan>>,
    pub in_head: bool,
    pub in_cell: bool,
    pub in_image: bool,
    pub image_url: String,
    pub image_title: String,
}

impl MdReader {
    /// The state the reader holds.
    pub open spec fn view(&self) -> MdState {
        MdState {
            blocks: blocks_view(self.blocks@),
            spans: spans_view(self.spans@),
            bold: self.bold as nat,
            italic: self.italic as nat,
            strike: self.strike as nat,
            links: self.links@.map_values(|u: String| u@),
            heading: match self.heading {
                Some(l) => Some(l as nat),
                None => None,
            },
            in_code: self.in_code,
            in_mermaid: self.in_mermaid,
            code: self.code@,
            in_quote: self.in_quote,
            lists: self.lists@.map_values(|l: (bool, usize)| (l.0, l.1 as nat)),
            in_item: self.in_item,
            task: self.task,
            aligns: self.aligns@,
            header: cells_view(self.header@),
            rows: rows_view(self.rows@),
            row: cells_view(self.row@),
            in_head: self.in_head,
            in_cell: self.in_cell,
            in_image: self.in_image,
            image_url: self.image_url@,
            image_title: self.image_title@,
        }
    }

    /// A reader before the first event.
    pub fn new() -> (r: MdReader)
        ensures
            r.view() == md_start(),
    {
        let r = MdReader {
            blocks: Vec::new(),
            spans: Vec::new(),
            bold: 0,
            italic: 0,
            strike: 0,
            links: Vec::new(),
            heading: None,
            in_code: false,
            in_mermaid: false,
            code: String::new(),
            in_quote: false,
            lists: Vec::new(),
            in_item: false,
            task: None,
            aligns: Vec::new(),
            header: Vec::new(),
            rows: Vec::new(),
            row: Vec::new(),
            in_head: false,
            in_cell: false,
            in_image: false,
            image_url: String::new(),
            image_title: String::new(),
        };
        assert(r.view().blocks =~= Seq::<BlockView>::empty());
        assert(r.view().spans =~= Seq::<SpanV>::empty());
        assert(r.view().links =~= Seq::<Seq<char>>::empty());
        assert(r.view().lists =~= Seq::<(bool, nat)>::empty());
        assert(r.view().header =~= Seq::<Seq<SpanV>>::empty());
        assert(r.view().rows =~= Seq::<Seq<Seq<SpanV>>>::empty());
        assert(r.view().row =~= Seq::<Seq<SpanV>>::empty());
        r
    }

}

/// Whether the info string names a mermaid diagram.
fn mermaid_lang(lang: &Option<String>) -> (r: bool)
    ensures
        r == is_mermaid(*lang),
{
    match lang {
        Some(l) => {
            let cs = chars_of(l.as_str());
            let t = crate::text::trimmed(cs.as_slice());
            let mut lower: Vec<char> = Vec::new();
            let n = t.len();
            for i in 0..n
                invariant
                    n == t@.len(),
                    lower@ == ascii_lower(t@).take(i as int),
            {
                let c = t[i];
                let d = if 'A' <= c && c <= 'Z' {
                    ((c as u8) + 32) as char
                } else {
                    c
                };
                lower.push(d);
                assert(lower@ =~= ascii_lower(t@).take(i + 1));
            }
            assert(ascii_lower(t@).take(n as int) =~= ascii_lower(t@));
            let m = chars_of("mermaid");
            crate::text::chars_eq(lower.as_slice(), m.as_slice())
        },
        None => false,
    }
}

/// The reader's events fit its counters: a list's first number plus the
/// number of events stays within `usize`.
pub open spec fn starts_fit(events: Seq<MdEvent>) -> bool {
    forall|k: int|
        0 <= k < events.len() ==> (#[trigger] events[k] matches MdEvent::Start(MdTag::List(Some(n))) ==> n
            + events.len() <= usize::MAX)
}

impl MdReader {
    /// The counters have room for the `left` events still to come.
    pub open spec fn room(&self, left: nat) -> bool {
        &&& self.bold + left <= usize::MAX
        &&& self.italic + left <= usize::MAX
        &&& self.strike + left <= usize::MAX
        &&& forall|j: int| 0 <= j < self.lists@.len() ==> (#[trigger] self.lists@[j]).1 + left <= usize::MAX
    }

    /// Reads a start event.
    pub fn start_tag(&mut self, t: MdTag, Ghost(left): Ghost<nat>)
        requires
            old(self).room(left + 1),
            t matches MdTag::List(Some(n)) ==> n + left + 1 <= usize::MAX,
        ensures
            final(self).view() == md_start_tag(old(self).view(), t),
            final(self).room(left),
    {
        let ghost s = self.view();
        match t {
            MdTag::Heading(level) => {
                self.heading = Some(level);
                self.spans = Vec::new();
            },
            MdTag::Paragraph => {
                if !self.in_cell && !self.in_image {
                    self.spans = Vec::new();
                }
            },
            MdTag::CodeBlock(lang) => {
                self.in_code = true;
                self.in_mermaid = mermaid_lang(&lang);
                self.code = String::new();
            },
            MdTag::List(start) => {
                let ordered = start.is_some();
                let index = match start {
                    Some(n) => n as usize,
                    None => 0,
                };
                self.lists.push((ordered, index));
                assert(self.view().lists =~= s.lists.push(
                    (
                        start is Some,
                        match start {
                            Some(n) => n as usize as nat,
                            None => 0,
                        },
                    ),
                ));
            },
            MdTag::Item => {
                self.in_item = true;
                self.task = None;
                let l = self.lists.len();
                if l > 0 && self.lists[l - 1].0 {
                    let (o, idx) = self.lists[l - 1];
                    self.lists.set(l - 1, (o, idx + 1));
                    assert(self.view().lists =~= s.lists.update(
                        s.lists.len() - 1,
                        (true, s.lists.last().1 + 1),
                    ));
                }
                self.spans = Vec::new();
            },
            MdTag::BlockQuote => {
                self.in_quote = true;
            },
            MdTag::Strong => {
                self.bold = self.bold + 1;
            },
            MdTag::Emphasis => {
                self.italic = self.italic + 1;
            },
            MdTag::Strikethrough => {
                self.strike = self.strike + 1;
            },
            MdTag::Link(url) => {
                self.links.push(url);
                assert(self.view().links =~= s.links.push(url@));
            },
            MdTag::Image(url, title) => {
                self.in_image = true;
                self.image_url = url;
                self.image_title = title;
                self.spans = Vec::new();
            },
            MdTag::Table(aligns) => {
                self.aligns = aligns;
                self.header = Vec::new();
                self.rows = Vec::new();
            },
            MdTag::TableHead => {
                self.in_head = true;
                self.row = Vec::new();
            },
            MdTag::TableRow => {
                self.row = Vec::new();
            },
            MdTag::TableCell => {
                self.in_cell = true;
                self.spans = Vec::new();
            },
            MdTag::Other => {},
        }
        assert(self.view() =~= md_start_tag(s, t));
    }
}

/// The texts of the spans' views, concatenated, for some spans.
proof fn lemma_flat_views(v: Seq<RichSpan>)
    ensures
        flat_views(spans_view(v)) == flat(v),
    decreases v.len(),
{
    if v.len() > 0 {
        lemma_flat_views(v.drop_last());
        assert(spans_view(v).drop_last() =~= spans_view(v.drop_last()));
    }
}

impl MdReader {
    /// The list or task item the gathered spans make (taking them and the
    /// task marker).
    fn take_item(&mut self) -> (r: MdBlock)
        ensures
            block_view(r) == item_block(old(self).view()),
            final(self).view() == (MdState { spans: Seq::empty(), task: None, ..old(self).view() }),
            final(self).lists == old(self).lists,
            final(self).bold == old(self).bold,
            final(self).italic == old(self).italic,
            final(self).strike == old(self).strike,
    {
        let ghost s = self.view();
        let l = self.lists.len();
        let depth = l.saturating_sub(1);
        let mut spans: Vec<RichSpan> = Vec::new();
        std::mem::swap(&mut spans, &mut self.spans);
        let b = match self.task {
            Some(checked) => MdBlock::TaskListItem { spans, checked, depth },
            None => {
                if l > 0 {
                    let (ordered, index) = self.lists[l - 1];
                    MdBlock::ListItem { spans, ordered, index, depth }
                } else {
                    MdBlock::ListItem { spans, ordered: false, index: 0, depth }
                }
            },
        };
        self.task = None;
        assert(self.view() =~= (MdState { spans: Seq::empty(), task: None, ..s }));
        b
    }

    /// Reads an end event of the kinds it handles.
    #[verifier::spinoff_prover]
    fn end_block(&mut self, t: MdTagEnd)
        requires
            t == MdTagEnd::Heading || t == MdTagEnd::Paragraph || t == MdTagEnd::CodeBlock || t == MdTagEnd::Item || t == MdTagEnd::BlockQuote,
        ensures
            final(self).view() == md_end_tag(old(self).view(), t),
            final(self).bold <= old(self).bold,
            final(self).italic <= old(self).italic,
            final(self).strike <= old(self).strike,
            final(self).lists@.len() <= old(self).lists@.len(),
            forall|j: int| 0 <= j < final(self).lists@.len() ==> final(self).lists@[j] == old(self).lists@[j],
    {
        let ghost s = self.view();
        match t {
            MdTagEnd::Heading => {
                match self.heading {
                    Some(level) => {
                        let mut spans: Vec<RichSpan> = Vec::new();
                        std::mem::swap(&mut spans, &mut self.spans);
                        let b = MdBlock::Heading(level, spans);
                        self.blocks.push(b);
                        self.heading = None;
                        assert(self.view().blocks =~= s.blocks.push(block_view(b)));
                    },
                    None => {},
                }
            },
            MdTagEnd::Paragraph => {
                if self.in_image || self.in_cell {
                } else if self.in_quote {
                    let mut spans: Vec<RichSpan> = Vec::new();
                    std::mem::swap(&mut spans, &mut self.spans);
                    let b = MdBlock::BlockQuote(spans);
                    self.blocks.push(b);
                    assert(self.view().blocks =~= s.blocks.push(block_view(b)));
                } else if self.in_item {
                    let b = self.take_item();
                    self.blocks.push(b);
                    assert(self.view().blocks =~= s.blocks.push(block_view(b)));
                } else {
                    let mut spans: Vec<RichSpan> = Vec::new();
                    std::mem::swap(&mut spans, &mut self.spans);
                    let b = MdBlock::Paragraph(spans);
                    self.blocks.push(b);
                    assert(self.view().blocks =~= s.blocks.push(block_view(b)));
                }
            },
            MdTagEnd::CodeBlock => {
                self.in_code = false;
                if self.in_mermaid {
                    let b = MdBlock::MermaidDiagram(self.code.clone());
                    self.blocks.push(b);
                    self.in_mermaid = false;
                    assert(self.view().blocks =~= s.blocks.push(block_view(b)));
                } else {
                    let mut code = String::new();
                    std::mem::swap(&mut code, &mut self.code);
                    let b = MdBlock::CodeBlock(code);
                    self.blocks.push(b);
                    assert(self.view().blocks =~= s.blocks.push(block_view(b)));
                }
            },
            MdTagEnd::Item => {
                if self.spans.len() > 0 {
                    let b = self.take_item();
                    self.blocks.push(b);
                    assert(self.view().blocks =~= s.blocks.push(block_view(b)));
                }
                self.in_item = false;
                self.task = None;
            },
            MdTagEnd::BlockQuote => {
                if self.spans.len() > 0 {
                    let mut spans: Vec<RichSpan> = Vec::new();
                    std::mem::swap(&mut spans, &mut self.spans);
                    let b = MdBlock::BlockQuote(spans);
                    self.blocks.push(b);
                    assert(self.view().blocks =~= s.blocks.push(block_view(b)));
                }
                self.in_quote = false;
            },
            _ => {},
        }
        assert(self.view() =~= md_end_tag(s, t));
    }

    /// Reads an end event of the kinds it handles.
    #[verifier::spinoff_prover]
    fn end_inline(&mut self, t: MdTagEnd)
        requires
            t == MdTagEnd::List || t == MdTagEnd::Strong || t == MdTagEnd::Emphasis || t == MdTagEnd::Strikethrough || t == MdTagEnd::Link,
        ensures
            final(self).view() == md_end_tag(old(self).view(), t),
            final(self).bold <= old(self).bold,
            final(self).italic <= old(self).italic,
            final(self).strike <= old(self).strike,
            final(self).lists@.len() <= old(self).lists@.len(),
            forall|j: int| 0 <= j < final(self).lists@.len() ==> final(self).lists@[j] == old(self).lists@[j],
    {
        let ghost s = self.view();
        match t {
            MdTagEnd::List => {
                if self.lists.len() > 0 {
                    let ghost before = self.lists@;
                    self.lists.pop();
                    assert(self.lists@ =~= before.drop_last());
                    assert(self.view().lists =~= s.lists.drop_last());
                }
            },
            MdTagEnd::Strong => {
                self.bold = self.bold.saturating_sub(1);
            },
            MdTagEnd::Emphasis => {
                self.italic = self.italic.saturating_sub(1);
            },
            MdTagEnd::Strikethrough => {
                self.strike = self.strike.saturating_sub(1);
            },
            MdTagEnd::Link => {
                if self.links.len() > 0 {
                    self.links.pop();
                    assert(self.view().links =~= s.links.drop_last());
                }
            },
            _ => {},
        }
        assert(self.view() =~= md_end_tag(s, t));
    }

    /// Reads an end event of the kinds it handles.
    #[verifier::spinoff_prover]
    fn end_table(&mut self, t: MdTagEnd)
        requires
            t == MdTagEnd::Image || t == MdTagEnd::Table || t == MdTagEnd::TableHead || t == MdTagEnd::TableRow || t == MdTagEnd::TableCell,
        ensures
            final(self).view() == md_end_tag(old(self).view(), t),
            final(self).bold <= old(self).bold,
            final(self).italic <= old(self).italic,
            final(self).strike <= old(self).strike,
            final(self).lists@.len() <= old(self).lists@.len(),
            forall|j: int| 0 <= j < final(self).lists@.len() ==> final(self).lists@[j] == old(self).lists@[j],
    {
        let ghost s = self.view();
        match t {
            MdTagEnd::Image => {
                let alt = RichSpan::flat_text(self.spans.as_slice());
                proof {
                    lemma_flat_views(self.spans@);
                }
                let mut url = String::new();
                std::mem::swap(&mut url, &mut self.image_url);
                let mut title = String::new();
                std::mem::swap(&mut title, &mut self.image_title);
                let b = MdBlock::Image { alt, url, title };
                self.blocks.push(b);
                self.spans = Vec::new();
                self.in_image = false;
                assert(self.view().blocks =~= s.blocks.push(block_view(b)));
            },
            MdTagEnd::Table => {
                let mut header: Vec<Vec<RichSpan>> = Vec::new();
                std::mem::swap(&mut header, &mut self.header);
                let mut rows: Vec<Vec<Vec<RichSpan>>> = Vec::new();
                std::mem::swap(&mut rows, &mut self.rows);
                let mut alignments: Vec<Alignment> = Vec::new();
                std::mem::swap(&mut alignments, &mut self.aligns);
                let b = MdBlock::Table { header, rows, alignments };
                self.blocks.push(b);
                assert(self.view().blocks =~= s.blocks.push(block_view(b)));
            },
            MdTagEnd::TableHead => {
                let mut row: Vec<Vec<RichSpan>> = Vec::new();
                std::mem::swap(&mut row, &mut self.row);
                self.header = row;
                self.in_head = false;
            },
            MdTagEnd::TableRow => {
                if !self.in_head {
                    let mut row: Vec<Vec<RichSpan>> = Vec::new();
                    std::mem::swap(&mut row, &mut self.row);
                    self.rows.push(row);
                    assert(self.view().rows =~= s.rows.push(cells_view(row@)));
                }
            },
            MdTagEnd::TableCell => {
                let mut spans: Vec<RichSpan> = Vec::new();
                std::mem::swap(&mut spans, &mut self.spans);
                self.row.push(spans);
                self.in_cell = false;
                assert(self.view().row =~= s.row.push(spans_view(spans@)));
            },
            _ => {},
        }
        assert(self.view() =~= md_end_tag(s, t));
    }

    /// Reads an end event.
    pub fn end_tag(&mut self, t: MdTagEnd)
        ensures
            final(self).view() == md_end_tag(old(self).view(), t),
            final(self).bold <= old(self).bold,
            final(self).italic <= old(self).italic,
            final(self).strike <= old(self).strike,
            final(self).lists@.len() <= old(self).lists@.len(),
            forall|j: int| 0 <= j < final(self).lists@.len() ==> final(self).lists@[j] == old(self).lists@[j],
    {
        match t {
            MdTagEnd::Heading | MdTagEnd::Paragraph | MdTagEnd::CodeBlock | MdTagEnd::Item
            | MdTagEnd::BlockQuote => self.end_block(t),
            MdTagEnd::List | MdTagEnd::Strong | MdTagEnd::Emphasis | MdTagEnd::Strikethrough
            | MdTagEnd::Link => self.end_inline(t),
            MdTagEnd::Image | MdTagEnd::Table | MdTagEnd::TableHead | MdTagEnd::TableRow
            | MdTagEnd::TableCell => self.end_table(t),
            MdTagEnd::Other => {},
        }
    }
}

impl MdReader {
    /// A span of `text` in the current styles and link.
    fn styled_span(&self, text: String, code: bool) -> (r: RichSpan)
        ensures
            span_view(r) == styled(self.view(), text@, code),
    {
        let l = self.links.len();
        let link = if l > 0 {
            Some(self.links[l - 1].clone())
        } else {
            None
        };
        RichSpan {
            text,
            bold: self.bold > 0,
            italic: self.italic > 0,
            strikethrough: self.strike > 0,
            code,
            link_url: link,
        }
    }

    /// Reads one event.
    #[verifier::spinoff_prover]
    pub fn step(&mut self, e: MdEvent, Ghost(left): Ghost<nat>)
        requires
            old(self).room(left + 1),
            e matches MdEvent::Start(MdTag::List(Some(n))) ==> n + left + 1 <= usize::MAX,
        ensures
            final(self).view() == md_step(old(self).view(), e),
            final(self).room(left),
    {
        let ghost s = self.view();
        match e {
            MdEvent::Start(t) => self.start_tag(t, Ghost(left)),
            MdEvent::End(t) => {
                let ghost old_lists = self.lists@;
                self.end_tag(t);
                assert forall|j: int| 0 <= j < self.lists@.len() implies (#[trigger] self.lists@[j]).1 + left
                    <= usize::MAX by {
                    assert(self.lists@[j] == old_lists[j]);
                }
            },
            MdEvent::Text(t) => {
                if self.in_code {
                    push_all(&mut self.code, t.as_str());
                } else {
                    let sp = self.styled_span(t, false);
                    self.spans.push(sp);
                    assert(self.view().spans =~= s.spans.push(span_view(sp)));
                }
            },
            MdEvent::Code(t) => {
                if self.in_code {
                    push_all(&mut self.code, t.as_str());
                } else {
                    let sp = self.styled_span(t, true);
                    self.spans.push(sp);
                    assert(self.view().spans =~= s.spans.push(span_view(sp)));
                }
            },
            MdEvent::SoftBreak => {
                if self.in_code {
                    crate::text::push_char(&mut self.code, ' ');
                } else {
                    let sp = RichSpan::plain(" ");
                    proof {
                        reveal_strlit(" ");
                        assert(" "@ =~= seq![' ']);
                    }
                    self.spans.push(sp);
                    assert(self.view().spans =~= s.spans.push(span_view(sp)));
                }
            },
            MdEvent::HardBreak => {
                if self.in_code {
                    crate::text::push_char(&mut self.code, '\n');
                } else {
                    let sp = RichSpan::plain("\n");
                    proof {
                        reveal_strlit("\n");
                        assert("\n"@ =~= seq!['\n']);
                    }
                    self.spans.push(sp);
                    assert(self.view().spans =~= s.spans.push(span_view(sp)));
                }
            },
            MdEvent::Rule => {
                self.blocks.push(MdBlock::HorizontalRule);
                assert(self.view().blocks =~= s.blocks.push(BlockView::HorizontalRule));
            },
            MdEvent::TaskListMarker(checked) => {
                self.task = Some(checked);
            },
            MdEvent::Other => {},
        }
        assert(self.view() =~= md_step(s, e));
    }
}

/// The blocks the preview draws for a markdown document's events (read in
/// order: see `md_step`).
pub fn parse_to_blocks(events: Vec<MdEvent>) -> (r: Vec<MdBlock>)
    requires
        starts_fit(events@),
    ensures
        blocks_view(r@) == md_run(events@).blocks,
{
    let mut reader = MdReader::new();
    let n = events.len();
    let ghost all = events@;
    assert(all.take(n as int) =~= all);
    let mut pending = events;
    let mut events: Vec<MdEvent> = Vec::new();
    while pending.len() > 0
        invariant
            n == all.len(),
            pending@ == all.take(pending@.len() as int),
            events@.len() + pending@.len() == n,
            forall|k: int| 0 <= k < events@.len() ==> #[trigger] events@[k] == all[n - 1 - k],
        decreases pending@.len(),
    {
        let ghost before = pending@;
        let e = pending.pop().unwrap();
        assert(pending@ =~= all.take(pending@.len() as int));
        events.push(e);
    }
    let mut i: usize = 0;
    assert(all.take(0) =~= Seq::<MdEvent>::empty());
    assert(reader.view().lists.len() == reader.lists@.len());
    while i < n
        invariant
            i <= n,
            n == all.len(),
            starts_fit(all),
            events@.len() == n - i,
            forall|k: int| 0 <= k < n - i ==> #[trigger] events@[k] == all[n - 1 - k],
            reader.view() == md_run(all.take(i as int)),
            reader.room((n - i) as nat),
        decreases n - i,
    {
        let e = events.pop().unwrap();
        assert(e == all[i as int]);
        assert(all.take(i + 1).drop_last() =~= all.take(i as int));
        reader.step(e, Ghost((n - i - 1) as nat));
        i = i + 1;
    }
    assert(all.take(n as int) =~= all);
    reader.blocks
}

#[verifier::external_type_specification]
#[verifier::external_body]
pub struct ExMarkdownEvent<'a>(pulldown_cmark::Event<'a>);

#[verifier::external_type_specification]
#[verifier::external_body]
pub struct ExMarkdownTag<'a>(pulldown_cmark::Tag<'a>);

#[verifier::external_type_specification]
#[verifier::external_body]
pub struct ExMarkdownTagEnd(pulldown_cmark::TagEnd);

#[verifier::external_type_specification]
#[verifier::external_body]
pub struct ExMarkdownAlignment(ColumnAlignment);

/// The events `pulldown_cmark::Parser::new_ext` yields for a source with
/// strikethrough, tables and task lists enabled, each in the library's terms.
pub uninterp spec fn markdown_events_of(source: Seq<char>) -> Seq<MdEvent>;

/// `Parser::new_ext` with strikethrough, tables and task lists: the source's
/// events, each converted one for one. The contract claims only that the
/// result is `markdown_events_of` of the source.
#[verifier::external_body]
fn parse_markdown_events(source: &str) -> (r: Vec<MdEvent>)
    ensures
        r@ == markdown_events_of(source@),
{
    let options = Options::ENABLE_STRIKETHROUGH | Options::ENABLE_TABLES | Options::ENABLE_TASKLISTS;
    Parser::new_ext(source, options).map(convert_event).collect()
}

/// One parser event in the library's terms (conversion only).
#[verifier::external_body]
fn convert_event(e: Event<'_>) -> MdEvent {
    match e {
        Event::Start(t) => MdEvent::Start(convert_start_tag(t)),
        Event::End(t) => MdEvent::End(convert_end_tag(t)),
        Event::Text(t) => MdEvent::Text(t.to_string()),
        Event::Code(t) => MdEvent::Code(t.to_string()),
        Event::SoftBreak => MdEvent::SoftBreak,
        Event::HardBreak => MdEvent::HardBreak,
        Event::Rule => MdEvent::Rule,
        Event::TaskListMarker(checked) => MdEvent::TaskListMarker(checked),
        _ => MdEvent::Other,
    }
}

/// A start tag with fields in the library's terms (conversion only).
#[verifier::external_body]
fn convert_start_tag(t: Tag<'_>) -> MdTag {
    match t {
        Tag::Heading { level, .. } => MdTag::Heading(level as usize),
        Tag::CodeBlock(CodeBlockKind::Fenced(lang)) => MdTag::CodeBlock(Some(lang.to_string())),
        Tag::CodeBlock(CodeBlockKind::Indented) => MdTag::CodeBlock(None),
        Tag::List(start) => MdTag::List(start),
        Tag::Link { dest_url, .. } => MdTag::Link(dest_url.to_string()),
        Tag::Image { dest_url, title, .. } => MdTag::Image(dest_url.to_string(), title.to_string()),
        Tag::Table(aligns) => MdTag::Table(aligns.into_iter().map(convert_alignment).collect()),
        other => convert_plain_start_tag(other),
    }
}

/// A start tag without fields in the library's terms (conversion only).
#[verifier::external_body]
fn convert_plain_start_tag(t: Tag<'_>) -> MdTag {
    match t {
        Tag::Paragraph => MdTag::Paragraph,
        Tag::Item => MdTag::Item,
        Tag::BlockQuote(_) => MdTag::BlockQuote,
        Tag::Strong => MdTag::Strong,
        Tag::Emphasis => MdTag::Emphasis,
        Tag::Strikethrough => MdTag::Strikethrough,
        Tag::TableHead => MdTag::TableHead,
        Tag::TableRow => MdTag::TableRow,
        Tag::TableCell => MdTag::TableCell,
        _ => MdTag::Other,
    }
}

/// An end tag in the library's terms (conversion only).
#[verifier::external_body]
fn convert_end_tag(t: TagEnd) -> MdTagEnd {
    match t {
        TagEnd::Heading(_) => MdTagEnd::Heading, TagEnd::Paragraph => MdTagEnd::Paragraph,
        TagEnd::CodeBlock => MdTagEnd::CodeBlock, TagEnd::List(_) => MdTagEnd::List,
        TagEnd::Item => MdTagEnd::Item, TagEnd::BlockQuote(_) => MdTagEnd::BlockQuote,
        TagEnd::Strong => MdTagEnd::Strong, TagEnd::Emphasis => MdTagEnd::Emphasis,
        TagEnd::Strikethrough => MdTagEnd::Strikethrough, TagEnd::Link => MdTagEnd::Link,
        TagEnd::Image => MdTagEnd::Image, TagEnd::Table => MdTagEnd::Table,
        TagEnd::TableHead => MdTagEnd::TableHead, TagEnd::TableRow => MdTagEnd::TableRow,
        TagEnd::TableCell => MdTagEnd::TableCell, _ => MdTagEnd::Other,
    }
}

/// A table column's alignment in the library's terms (conversion only).
#[verifier::external_body]
fn convert_alignment(a: ColumnAlignment) -> Alignment {
    match a {
        ColumnAlignment::None => Alignment::Unaligned,
        ColumnAlignment::Left => Alignment::Left,
        ColumnAlignment::Center => Alignment::Center,
        ColumnAlignment::Right => Alignment::Right,
    }
}

/// An event with an ordered list's first number lowered to the largest that
/// still leaves room to count `n` items on.
pub open spec fn clamp_event(e: MdEvent, n: nat) -> MdEvent {
    match e {
        MdEvent::Start(MdTag::List(Some(m))) => if m + n > usize::MAX {
            MdEvent::Start(MdTag::List(Some((usize::MAX - n) as u64)))
        } else {
            e
        },
        _ => e,
    }
}

/// The events with every ordered list's first number lowered where it
/// leaves no room to count on.
pub open spec fn clamp_starts(es: Seq<MdEvent>) -> Seq<MdEvent> {
    es.map_values(|e: MdEvent| clamp_event(e, es.len()))
}

/// Lowering the list numbers makes them all fit, and changes nothing when
/// they already fit.
pub proof fn lemma_clamp_starts(es: Seq<MdEvent>)
    requires
        es.len() <= usize::MAX,
    ensures
        starts_fit(clamp_starts(es)),
        starts_fit(es) ==> clamp_starts(es) == es,
{
    let c = clamp_starts(es);
    assert forall|k: int| 0 <= k < c.len() implies (#[trigger] c[k] matches MdEvent::Start(MdTag::List(Some(n))) ==> n
        + c.len() <= usize::MAX) by {
        assert(c[k] == clamp_event(es[k], es.len()));
    }
    if starts_fit(es) {
        assert forall|k: int| 0 <= k < es.len() implies c[k] == es[k] by {
            assert(c[k] == clamp_event(es[k], es.len()));
            if es[k] is Start {
                assert(es[k] matches MdEvent::Start(MdTag::List(Some(m))) ==> m + es.len() <= usize::MAX);
            }
        }
        assert(c =~= es);
    }
}

/// The events with too-large list numbers lowered (see `clamp_starts`).
fn clamp_list_starts(events: Vec<MdEvent>) -> (r: Vec<MdEvent>)
    ensures
        r@ == clamp_starts(events@),
{
    let n = events.len();
    let ghost all = events@;
    assert(all.take(n as int) =~= all);
    let mut pending = events;
    let mut rev: Vec<MdEvent> = Vec::new();
    while pending.len() > 0
        invariant
            n == all.len(),
            pending@ == all.take(pending@.len() as int),
            rev@.len() + pending@.len() == n,
            forall|k: int| 0 <= k < rev@.len() ==> #[trigger] rev@[k] == all[n - 1 - k],
        decreases pending@.len(),
    {
        let e = pending.pop().unwrap();
        assert(pending@ =~= all.take(pending@.len() as int));
        rev.push(e);
    }
    let mut out: Vec<MdEvent> = Vec::new();
    while rev.len() > 0
        invariant
            n == all.len(),
            rev@.len() + out@.len() == n,
            forall|k: int| 0 <= k < rev@.len() ==> #[trigger] rev@[k] == all[n - 1 - k],
            forall|k: int| 0 <= k < out@.len() ==> #[trigger] out@[k] == clamp_event(all[k], n as nat),
        decreases rev@.len(),
    {
        let e = rev.pop().unwrap();
        let i = out.len();
        assert(e == all[i as int]);
        let c = match e {
            MdEvent::Start(MdTag::List(Some(m))) => {
                if (m as u128) + (n as u128) > (usize::MAX as u128) {
                    MdEvent::Start(MdTag::List(Some((usize::MAX - n) as u64)))
                } else {
                    MdEvent::Start(MdTag::List(Some(m)))
                }
            },
            other => other,
        };
        out.push(c);
    }
    assert(out@ =~= clamp_starts(all));
    out
}

/// The preview's blocks of a markdown source: none when an ordered list
/// starts at a number too large to count on from.
pub fn markdown_source_blocks(source: &str) -> (r: Option<Vec<MdBlock>>)
    ensures
        r is Some <==> starts_fit(markdown_events_of(source@)),
        r matches Some(b) ==> blocks_view(b@) == md_run(markdown_events_of(source@)).blocks,
{
    markdown_blocks(parse_markdown_events(source))
}

/// The blocks the preview draws for a markdown source: those of its events,
/// with an ordered list that starts too high to count on from numbered from
/// the largest start that fits.
pub fn preview_blocks(source: &str) -> (r: Vec<MdBlock>)
    ensures
        blocks_view(r@) == md_run(clamp_starts(markdown_events_of(source@))).blocks,
        starts_fit(markdown_events_of(source@)) ==> blocks_view(r@) == md_run(markdown_events_of(source@)).blocks,
{
    let events = parse_markdown_events(source);
    let n = events.len();
    proof {
        assert(events@.len() == n);
        lemma_clamp_starts(events@);
    }
    let clamped = clamp_list_starts(events);
    parse_to_blocks(clamped)
}

/// The preview's blocks of a parse's events: none when an ordered list
/// starts at a number too large to count on from (the counter would
/// overflow).
pub fn markdown_blocks(events: Vec<MdEvent>) -> (r: Option<Vec<MdBlock>>)
    ensures
        r is Some <==> starts_fit(events@),
        r matches Some(b) ==> blocks_view(b@) == md_run(events@).blocks,
{
    let n = events.len();
    let mut fits = true;
    for k in 0..n
        invariant
            n == events@.len(),
            fits <==> forall|j: int| 0 <= j < k ==> (#[trigger] events@[j] matches MdEvent::Start(MdTag::List(Some(m))) ==> m + n <= usize::MAX),
    {
        if let MdEvent::Start(MdTag::List(Some(m))) = &events[k] {
            if (*m as u128) + (n as u128) > (usize::MAX as u128) {
                fits = false;
            }
        }
    }
    if fits {
        Some(parse_to_blocks(events))
    } else {
        None
    }
}

} // verus!
