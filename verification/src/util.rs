//! A place in a document that the server knows, and the two ways to name a place.

use crate::documents::ProgramText;
use crate::position::{Position, offset_at, offset_to_position, position_at, position_to_offset};
use vstd::prelude::*;
use vstd::string::*;
use vstd::utf8::encode_utf8;

verus! {

/// A document and a position in it.
#[derive(Debug)]
pub struct UrlPos {
    pub url: String,
    pub pos: Position,
}

/// A text in which a place can be named by its byte offset and by its line and column.
pub trait ConvertPosition {
    /// The text.
    spec fn held(&self) -> Seq<char>;

    /// The position of a byte offset.
    fn get_position(&self, pos: usize) -> (position: Option<Position>)
        ensures
            position == position_at(encode_utf8(self.held()), pos as int),
    ;

    /// The byte offset of a position.
    fn from_position(&self, pos: &Position) -> (offset: Option<usize>)
        ensures
            offset matches Some(o) ==> offset_at(encode_utf8(self.held()), *pos) == Some(o as int),
            offset is None ==> offset_at(encode_utf8(self.held()), *pos) is None,
    ;
}

impl ConvertPosition for ProgramText {
    open spec fn held(&self) -> Seq<char> {
        self.text@
    }

    fn get_position(&self, pos: usize) -> (position: Option<Position>) {
        offset_to_position(self.text.as_str(), pos)
    }

    fn from_position(&self, pos: &Position) -> (offset: Option<usize>) {
        position_to_offset(self.text.as_str(), *pos)
    }
}

impl ConvertPosition for String {
    open spec fn held(&self) -> Seq<char> {
        self@
    }

    fn get_position(&self, pos: usize) -> (position: Option<Position>) {
        offset_to_position(self.as_str(), pos)
    }

    fn from_position(&self, pos: &Position) -> (offset: Option<usize>) {
        position_to_offset(self.as_str(), *pos)
    }
}

} // verus!
