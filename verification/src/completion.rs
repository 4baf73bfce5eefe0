//! Completion: what can be written at the cursor.

pub mod cursor;
pub mod header;
pub mod item;
pub mod plain;
pub mod program;
pub mod snippet;
pub mod symbols;
pub mod visibility;

pub use self::cursor::{completion, dir_of, header_completion};
pub use self::header::{
    header_completion_items, header_items, header_items_of, header_line_items, header_range,
    keyword_completion_item, keyword_item, keyword_items, names_in, names_under, names_with,
    package_name, package_names_under, package_names_with,
};
pub use self::item::{
    CompletionItem, CompletionItemKind, CompletionItemView, CompletionResourceItem,
    InsertTextFormat, TextEdit, TextEditView, copy_text, get_primitive_list,
    header_completion_item, header_item, item_models, module_completion_item, module_item,
    optional_text, resource_model, resource_models, type_completion_item, type_item,
    variable_completion_item, variable_item,
};
pub use self::plain::{
    get_block_cmd_list, get_completion_list, get_inline_cmd_list, get_symbol_list,
    get_variable_list, plain_completion, plain_item, plain_items,
};
pub use self::program::{
    cmd_range_in, cmd_range_of, command_completion, command_items, cursor_in, dependency_modules,
    has_name, line_before, member_item, member_items, mode_at, module_before_dot,
    module_candidates, mode_in, module_completion, module_pattern, program_completion, program_items,
    qualified_items, reached, regex_capture, shows,
};
pub use self::snippet::{
    ArgType, arg_name, arg_optional, command_snippet, compactible, escaped,
    form_command_text_snippet, is_list_type, lemma_short_tail, list_type, required_item,
    required_items, short_tail, snippet_of, snippets, starts_with_backslash,
};
pub use self::symbols::{
    command_item, declared_type, dependency_items, in_scope, is_exported, item_of, items_of,
    kind_word, local_description, local_symbols, package_description, package_environment,
    package_symbols, text_in, word_of,
};
pub use self::visibility::{
    lemma_offered_needs_open, lemma_open_offers, lemma_private_hidden, lemma_qualified_shows,
    lemma_scope,
};
