//! The documents that the server knows, and the symbols that each of them defines.

pub mod builder;
pub mod cache;
pub mod component;
pub mod dependency;
pub mod document;
pub mod environment;
pub mod environments;
pub mod packages;
pub mod signature;

pub use self::builder::{
    args_of, block_end, built, command_body, command_model, command_rule, concat_options,
    defined_name, definition_items, definition_models, find_other, first_other_upto,
    lemma_concat_from, lemma_concat_missing, lemma_concat_step, lemma_first_other_stays,
    lemma_scope_follows_definition, module_model, mutable_model, parsed_args, rec_item, rec_items,
    rule_of, scope_end, signature_args, signature_of, stmt_items, stmt_models, stmts_models,
    type_model, variable_model, variable_models, variant_item, variant_items, variant_model,
    well_scoped, well_spanned,
};
pub use self::cache::{
    Document, DocumentCache, all_called_for, all_loaded, called_for, data_at, dep_settled,
    dependencies_at, dependencies_of, directory_of, extends, file_names, gathered, has_dependency,
    inserted, is_url, keeps, known, lemma_gathered_enough, lemma_known_extends,
    lemma_known_pushed, lemma_register_cycle, lemma_register_twice, lemma_registered_holds,
    lemma_settled_extends, lemma_unloaded_drops, lemma_unloaded_extends, line_at, loaded, names,
    names_document, pointed_dependencies, registered, settled, unloaded, unvisited,
    unvisited_count, updated,
};
pub use self::component::{
    BodyView, CommandKind, Component, ComponentBody, ComponentView, SymbolKind, Visibility,
    contains_name, is_kind, is_shared, kind_of, members_of, models, offered, offered_anywhere,
    opened_members, shared_upto,
    pointed, strings,
};
pub use self::dependency::{
    Dependency, DependencyKind, DependencyView, dependency_models, exists_in, find_document_file,
    find_file, found_url, has_path, has_url, header_item, header_items, header_models,
    header_rule, resolve, resolved,
};
pub use self::document::{
    DocumentData, bound_open, bound_open_items, built_from, document_of, localized,
    localized_items, localized_modules_at, localized_names, open_modules_at, open_names,
    scoped_open, scoped_open_items,
};
pub use self::environment::{
    Environment, EnvironmentView, OpenModule, OpenModuleView, ProgramText, environment_model,
    lemma_environment_spans, open_item, open_items, open_models,
};
pub use self::packages::{
    Packages, SourceFile, as_text, candidate_roots, import_candidate_paths, import_paths,
    is_absolute, join_path, name_start, names_end, package_dirs, parent_len, root_len, package_file, package_paths,
    parent_dir, parent_of, path_join, require_candidate_dirs, require_candidate_paths,
    require_roots, string_view, text_view,
};
pub use self::signature::{
    Declaration, ModuleInfo, command_declaration, declare_command, declare_type, declare_value,
    declared, declared_type_upto, declared_upto, declares, declares_type, find_child,
    find_declared, first_child, first_child_upto, lemma_first_child_stays, type_declaration,
    value_declaration,
};
