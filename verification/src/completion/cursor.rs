//! What can be written at a cursor: the list of the mode at the cursor.

use crate::completion::{
    CompletionItem, CompletionItemView, CompletionResourceItem, command_completion, cursor_in,
    get_completion_list, header_items, header_line_items, mode_at, module_completion,
    program_completion, shows,
};
use crate::documents::{
    Document, DocumentCache, Packages, SourceFile, SymbolKind, is_url, line_at, string_view,
    text_view,
};
use crate::parser::Mode;
use crate::position::{Position, whole_line};
use crate::search::first_of;
use crate::text::same_text;
use crate::util::UrlPos;
use vstd::prelude::*;
use vstd::string::*;
use vstd::utf8::encode_utf8;

verus! {

/// The directory of the file of the document `url`.
pub open spec fn dir_of(docs: Seq<Document>, url: Seq<char>) -> Option<Seq<char>> {
    match first_of(docs, is_url(url)) {
        Some(i) => string_view(docs[i].dir),
        None => None,
    }
}

/// What can be written in the header at a cursor.
pub open spec fn header_completion(
    docs: Seq<Document>,
    url: Seq<char>,
    pos: Position,
    home: Option<Seq<char>>,
    files: Seq<SourceFile>,
) -> Option<Seq<CompletionItemView>> {
    match cursor_in(docs, url, pos) {
        Some((tree, text, environment, offset)) => match whole_line(text, pos.line as nat) {
            Some(line) => header_items(line, pos, dir_of(docs, url), home, files),
            None => None,
        },
        None => None,
    }
}

/// What can be written at a cursor: which list it is depends on the mode at the cursor.
/// In a program, a dot that was just typed asks for the members of the module in front
/// of it. In a literal and in a comment nothing is proposed.
pub open spec fn completion(
    docs: Seq<Document>,
    url: Seq<char>,
    pos: Position,
    trigger: Option<Seq<char>>,
    resources: Seq<CompletionResourceItem>,
    home: Option<Seq<char>>,
    files: Seq<SourceFile>,
) -> Option<Seq<CompletionItemView>> {
    let line = line_at(docs, url, pos);
    match mode_at(docs, url, pos) {
        Mode::Program => if trigger == Some("."@) {
            module_completion(docs, url, pos)
        } else {
            program_completion(docs, url, pos, resources)
        },
        Mode::Vertical => command_completion(docs, url, pos, line, SymbolKind::BlockCommand, 0x2b),
        Mode::Horizontal => command_completion(
            docs,
            url,
            pos,
            line,
            SymbolKind::InlineCommand,
            0x5c,
        ),
        Mode::Math => command_completion(docs, url, pos, line, SymbolKind::MathCommand, 0x5c),
        Mode::Header => header_completion(docs, url, pos, home, files),
        Mode::Literal => None,
        Mode::Comment => None,
    }
}

impl DocumentCache {
    /// What can be written in the header at the cursor.
    pub fn get_completion_list_header(&self, curpos: &UrlPos, packages: &Packages) -> (items:
        Option<Vec<CompletionItem>>)
        ensures
            shows(
                items,
                header_completion(
                    self.docs@,
                    curpos.url@,
                    curpos.pos,
                    string_view(packages.home),
                    packages.files@,
                ),
            ),
    {
        let url = curpos.url.as_str();
        let text = match self.get_line(curpos) {
            Some(text) => text,
            None => {
                return None;
            },
        };
        match self.get_doc_info(url) {
            Some(_) => {},
            None => {
                return None;
            },
        }
        header_line_items(text, curpos.pos, self.get_dir(url), packages)
    }

    /// What can be written at the cursor. `trigger` is what was typed to ask for it, if
    /// the editor says so.
    pub fn get_completion_list(
        &self,
        curpos: &UrlPos,
        trigger: Option<&str>,
        resources: &Vec<CompletionResourceItem>,
        packages: &Packages,
    ) -> (items: Option<Vec<CompletionItem>>)
        ensures
            shows(
                items,
                completion(
                    self.docs@,
                    curpos.url@,
                    curpos.pos,
                    text_view(trigger),
                    resources@,
                    string_view(packages.home),
                    packages.files@,
                ),
            ),
    {
        let line_str = self.get_line(curpos);
        match self.get_mode(curpos) {
            Mode::Program => {
                let dot = match trigger {
                    Some(trigger) => same_text(trigger, "."),
                    None => false,
                };
                if dot {
                    self.get_completion_list_with_module(curpos)
                } else {
                    self.get_completion_list_program(curpos, resources)
                }
            },
            Mode::Vertical => self.get_completion_list_vertical(curpos, line_str),
            Mode::Horizontal => self.get_completion_list_horizontal(curpos, line_str),
            Mode::Math => self.get_completion_list_math(curpos, line_str),
            Mode::Header => self.get_completion_list_header(curpos, packages),
            Mode::Literal => None,
            Mode::Comment => None,
        }
    }
}

} // verus!
