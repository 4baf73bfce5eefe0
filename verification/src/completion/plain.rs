//! What a document alone proposes, without its dependencies.

use crate::completion::{
    CompletionItem, CompletionItemView, CompletionResourceItem, get_primitive_list, item_models,
    local_symbols, mode_in, resource_models, shows,
};
use crate::documents::{ComponentView, DocumentCache, DocumentData, SymbolKind, pointed};
use crate::parser::Mode;
use crate::position::{Position, offset_at, position_to_offset};
use vstd::prelude::*;
use vstd::string::*;
use vstd::utf8::encode_utf8;

verus! {

/// The completion item of a symbol of the document itself, plainly: its name, and that it
/// is defined in this file.
pub open spec fn plain_item(symbol: ComponentView) -> CompletionItemView {
    CompletionItemView {
        label: symbol.name,
        kind: None,
        detail: Some("in this file"@),
        documentation: None,
        insert_text: None,
        insert_text_format: None,
        text_edit: None,
    }
}

/// The plain completion items of the symbols of kind `kind` of a document that are in
/// scope at a position; none where the grammar did not accept the document or the
/// position is not one of its text.
pub open spec fn plain_items(data: DocumentData, pos: Position, kind: SymbolKind) -> Seq<
    CompletionItemView,
> {
    match data {
        DocumentData::Parsed { program_text, environment } => match offset_at(
            encode_utf8(program_text.text@),
            pos,
        ) {
            Some(offset) => {
                let symbols = local_symbols(environment@, kind, offset);
                Seq::new(symbols.len(), |i: int| plain_item(symbols[i]))
            },
            None => Seq::empty(),
        },
        _ => Seq::empty(),
    }
}

/// The plain completion items of the symbols of kind `kind` of a document that are in
/// scope at a position.
pub fn get_symbol_list(doc_data: &DocumentData, pos: &Position, kind: SymbolKind) -> (items: Vec<
    CompletionItem,
>)
    ensures
        item_models(items@) == plain_items(*doc_data, *pos, kind),
{
    let mut items: Vec<CompletionItem> = Vec::new();
    proof {
        assert(item_models(items@) =~= Seq::<CompletionItemView>::empty());
    }
    match doc_data {
        DocumentData::Parsed { program_text, environment } => {
            match position_to_offset(program_text.text.as_str(), *pos) {
                Some(offset) => {
                    let symbols = DocumentCache::symbols_in_scope(environment, kind, offset);
                    let ghost all = plain_items(*doc_data, *pos, kind);
                    let mut k: usize = 0;
                    while k < symbols.len()
                        invariant
                            0 <= k <= symbols@.len(),
                            pointed(symbols@) == local_symbols(environment@, kind, offset as int),
                            all.len() == symbols@.len(),
                            forall|i: int|
                                0 <= i < all.len() ==> all[i] == plain_item(
                                    #[trigger] pointed(symbols@)[i],
                                ),
                            item_models(items@) =~= all.take(k as int),
                        decreases symbols@.len() - k,
                    {
                        let item = CompletionItem {
                            label: symbols[k].name.clone(),
                            kind: None,
                            detail: Some("in this file".to_owned()),
                            documentation: None,
                            insert_text: None,
                            insert_text_format: None,
                            text_edit: None,
                        };
                        proof {
                            assert(pointed(symbols@)[k as int] == symbols@[k as int]@);
                            assert(all.take(k + 1) =~= all.take(k as int).push(item@));
                            assert(item_models(items@.push(item)) =~= item_models(items@).push(
                                item@,
                            ));
                        }
                        items.push(item);
                        k = k + 1;
                    }
                    proof {
                        assert(all.take(k as int) =~= all);
                    }
                },
                None => {},
            }
        },
        _ => {},
    }
    items
}

/// The variables of a document that are in scope at a position.
pub fn get_variable_list(doc_data: &DocumentData, pos: &Position) -> (items: Vec<CompletionItem>)
    ensures
        item_models(items@) == plain_items(*doc_data, *pos, SymbolKind::Variable),
{
    get_symbol_list(doc_data, pos, SymbolKind::Variable)
}

/// The inline commands of a document that are in scope at a position.
pub fn get_inline_cmd_list(doc_data: &DocumentData, pos: &Position) -> (items: Vec<CompletionItem>)
    ensures
        item_models(items@) == plain_items(*doc_data, *pos, SymbolKind::InlineCommand),
{
    get_symbol_list(doc_data, pos, SymbolKind::InlineCommand)
}

/// The block commands of a document that are in scope at a position.
pub fn get_block_cmd_list(doc_data: &DocumentData, pos: &Position) -> (items: Vec<CompletionItem>)
    ensures
        item_models(items@) == plain_items(*doc_data, *pos, SymbolKind::BlockCommand),
{
    get_symbol_list(doc_data, pos, SymbolKind::BlockCommand)
}

/// What a document alone proposes at a position: in a program its variables and the
/// built-ins, in a text its inline commands, in a block its block commands, and nothing
/// in another mode or where the position is not one of its text.
pub open spec fn plain_completion(
    data: DocumentData,
    pos: Position,
    resources: Seq<CompletionResourceItem>,
) -> Option<Seq<CompletionItemView>> {
    match data {
        DocumentData::Parsed { program_text, .. } => match offset_at(
            encode_utf8(program_text.text@),
            pos,
        ) {
            Some(offset) => match mode_in(program_text.cst, program_text.text@, offset) {
                Mode::Program => Some(
                    plain_items(data, pos, SymbolKind::Variable) + resource_models(resources),
                ),
                Mode::Horizontal => Some(plain_items(data, pos, SymbolKind::InlineCommand)),
                Mode::Vertical => Some(plain_items(data, pos, SymbolKind::BlockCommand)),
                _ => None,
            },
            None => None,
        },
        _ => None,
    }
}

/// What a document alone proposes at a position.
pub fn get_completion_list(
    doc_data: &DocumentData,
    pos: &Position,
    resources: &Vec<CompletionResourceItem>,
) -> (items: Option<Vec<CompletionItem>>)
    ensures
        shows(items, plain_completion(*doc_data, *pos, resources@)),
{
    match doc_data {
        DocumentData::Parsed { program_text, .. } => {
            let offset = match position_to_offset(program_text.text.as_str(), *pos) {
                Some(offset) => offset,
                None => {
                    return None;
                },
            };
            match DocumentCache::mode_of(program_text, offset) {
                Mode::Program => {
                    let mut items = get_variable_list(doc_data, pos);
                    let mut primitives = get_primitive_list(resources);
                    proof {
                        assert(item_models(items@ + primitives@) =~= item_models(items@)
                            + item_models(primitives@));
                    }
                    items.append(&mut primitives);
                    Some(items)
                },
                Mode::Horizontal => Some(get_inline_cmd_list(doc_data, pos)),
                Mode::Vertical => Some(get_block_cmd_list(doc_data, pos)),
                _ => None,
            }
        },
        _ => None,
    }
}

} // verus!
