//! Hover: what the word at the cursor is.

use crate::completion::text_in;
use crate::definition::{component_under, range_in};
use crate::documents::{BodyView, Component, ComponentBody, ComponentView, Document, DocumentCache};
use crate::parser::Span;
use crate::position::{Position, Range};
use crate::text::join2;
use crate::util::UrlPos;
use vstd::prelude::*;
use vstd::string::*;

verus! {

/// A piece of what a hover shows: plain text, or code in a language.
#[derive(Debug)]
pub enum MarkedString {
    String(String),
    LanguageString { language: String, value: String },
}

/// What a piece of a hover holds, with its texts as sequences of characters.
pub ghost enum MarkedStringView {
    String(Seq<char>),
    LanguageString { language: Seq<char>, value: Seq<char> },
}

impl View for MarkedString {
    type V = MarkedStringView;

    open spec fn view(&self) -> MarkedStringView {
        match self {
            MarkedString::String(text) => MarkedStringView::String(text@),
            MarkedString::LanguageString { language, value } => MarkedStringView::LanguageString {
                language: language@,
                value: value@,
            },
        }
    }
}

/// What the editor shows for the word at the cursor, and the range of the word.
#[derive(Debug)]
pub struct Hover {
    pub contents: Vec<MarkedString>,
    pub range: Option<Range>,
}

/// What a hover holds, with its pieces as views.
pub ghost struct HoverView {
    pub contents: Seq<MarkedStringView>,
    pub range: Option<Range>,
}

impl View for Hover {
    type V = HoverView;

    open spec fn view(&self) -> HoverView {
        HoverView {
            contents: self.contents@.map_values(|piece: MarkedString| piece@),
            range: self.range,
        }
    }
}

/// What a symbol is called in a hover.
pub open spec fn title_of(symbol: ComponentView) -> Seq<char> {
    match symbol.body {
        BodyView::Module { .. } => "module"@,
        BodyView::Variable { .. } => "variable"@,
        BodyView::Type => "type"@,
        BodyView::Variant { of_type } => "variant of type "@ + of_type,
        BodyView::InlineCmd { .. } => "inline command"@,
        BodyView::BlockCmd { .. } => "block command"@,
        BodyView::MathCmd { .. } => "math command"@,
    }
}

/// Where the signature of its module writes the type of a symbol.
pub open spec fn signature_span(symbol: ComponentView) -> Option<Span> {
    match symbol.body {
        BodyView::Variable { type_declaration } => type_declaration,
        BodyView::InlineCmd { type_declaration, .. } => type_declaration,
        BodyView::BlockCmd { type_declaration, .. } => type_declaration,
        BodyView::MathCmd { type_declaration, .. } => type_declaration,
        _ => None,
    }
}

/// What a hover shows of a symbol: what the symbol is, and its type where the signature
/// of its module gives one. `None` where the type cannot be read.
pub open spec fn contents_of(docs: Seq<Document>, symbol: ComponentView) -> Option<
    Seq<MarkedStringView>,
> {
    match signature_span(symbol) {
        Some(span) => match text_in(docs, symbol.url, span) {
            Some(value) => Some(
                seq![
                    MarkedStringView::String(title_of(symbol)),
                    MarkedStringView::LanguageString { language: "satysfi"@, value },
                ],
            ),
            None => None,
        },
        None => Some(seq![MarkedStringView::String(title_of(symbol))]),
    }
}

/// The hover at a cursor: what the symbol is that the word at the cursor names, with the
/// range of the word.
pub open spec fn hover_at(docs: Seq<Document>, url: Seq<char>, pos: Position) -> Option<HoverView> {
    match component_under(docs, url, pos) {
        Some((node, symbol)) => match (
            range_in(docs, url, node.span),
            contents_of(docs, symbol),
        ) {
            (Some(range), Some(contents)) => Some(HoverView { contents, range: Some(range) }),
            _ => None,
        },
        None => None,
    }
}

impl DocumentCache {
    /// What a hover shows of a symbol.
    pub fn hover_contents(&self, symbol: &Component) -> (contents: Option<Vec<MarkedString>>)
        ensures
            match contents_of(self.docs@, symbol@) {
                Some(expected) => contents matches Some(c) && c@.map_values(
                    |piece: MarkedString| piece@,
                ) == expected,
                None => contents is None,
            },
    {
        let (title, signature) = match &symbol.body {
            ComponentBody::Module { .. } => ("module".to_owned(), None),
            ComponentBody::Variable { type_declaration } => (
                "variable".to_owned(),
                *type_declaration,
            ),
            ComponentBody::Type => ("type".to_owned(), None),
            ComponentBody::Variant { of_type } => (
                join2("variant of type ", of_type.as_str()),
                None,
            ),
            ComponentBody::InlineCmd { type_declaration, .. } => (
                "inline command".to_owned(),
                *type_declaration,
            ),
            ComponentBody::BlockCmd { type_declaration, .. } => (
                "block command".to_owned(),
                *type_declaration,
            ),
            ComponentBody::MathCmd { type_declaration, .. } => (
                "math command".to_owned(),
                *type_declaration,
            ),
        };
        let mut contents: Vec<MarkedString> = Vec::new();
        contents.push(MarkedString::String(title));
        match signature {
            Some(span) => match self.text_at(symbol.url.as_str(), span) {
                Some(value) => {
                    contents.push(
                        MarkedString::LanguageString { language: "satysfi".to_owned(), value },
                    );
                },
                None => {
                    return None;
                },
            },
            None => {},
        }
        proof {
            assert(contents@.map_values(|piece: MarkedString| piece@) =~= contents_of(
                self.docs@,
                symbol@,
            )->0);
        }
        Some(contents)
    }

    /// The hover at the cursor.
    pub fn get_hover(&self, curpos: &UrlPos) -> (hover: Option<Hover>)
        ensures
            match hover_at(self.docs@, curpos.url@, curpos.pos) {
                Some(expected) => hover matches Some(h) && h@ == expected,
                None => hover is None,
            },
    {
        let (node, symbol) = match self.find_component_under_cursor(curpos) {
            Some(found) => found,
            None => {
                return None;
            },
        };
        let range = match self.get_range(curpos.url.as_str(), node.span) {
            Some(range) => range,
            None => {
                return None;
            },
        };
        match self.hover_contents(symbol) {
            Some(contents) => Some(Hover { contents, range: Some(range) }),
            None => None,
        }
    }
}

} // verus!
