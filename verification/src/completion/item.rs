//! Completion items, and the items of the built-ins.

use crate::position::Range;
use crate::text::{join3, same_text};
use vstd::prelude::*;
use vstd::string::*;

verus! {

/// What kind of thing a completion item stands for.
#[derive(Debug, Clone, Copy, PartialEq, Eq, Structural)]
pub enum CompletionItemKind {
    Function,
    Variable,
    Module,
    Struct,
}

/// How the text of a completion item is to be read.
#[derive(Debug, Clone, Copy, PartialEq, Eq, Structural)]
pub enum InsertTextFormat {
    PlainText,
    Snippet,
}

/// A change of the text of a document: what stands in `range` is replaced by `new_text`.
#[derive(Debug)]
pub struct TextEdit {
    pub range: Range,
    pub new_text: String,
}

/// What a text edit holds, with its text as a sequence of characters.
pub ghost struct TextEditView {
    pub range: Range,
    pub new_text: Seq<char>,
}

impl View for TextEdit {
    type V = TextEditView;

    open spec fn view(&self) -> TextEditView {
        TextEditView { range: self.range, new_text: self.new_text@ }
    }
}

/// One proposal of what to write at the cursor.
#[derive(Debug)]
pub struct CompletionItem {
    /// The text that the editor shows, and inserts where nothing else is given.
    pub label: String,
    pub kind: Option<CompletionItemKind>,
    /// More about the item, such as its type.
    pub detail: Option<String>,
    /// A description, in Markdown.
    pub documentation: Option<String>,
    /// The text to insert.
    pub insert_text: Option<String>,
    pub insert_text_format: Option<InsertTextFormat>,
    /// The change to make when the item is chosen.
    pub text_edit: Option<TextEdit>,
}

/// What a completion item holds, with its texts as sequences of characters.
pub ghost struct CompletionItemView {
    pub label: Seq<char>,
    pub kind: Option<CompletionItemKind>,
    pub detail: Option<Seq<char>>,
    pub documentation: Option<Seq<char>>,
    pub insert_text: Option<Seq<char>>,
    pub insert_text_format: Option<InsertTextFormat>,
    pub text_edit: Option<TextEditView>,
}

/// The text behind an optional string.
pub open spec fn optional_text(text: Option<String>) -> Option<Seq<char>> {
    match text {
        Some(t) => Some(t@),
        None => None,
    }
}

impl View for CompletionItem {
    type V = CompletionItemView;

    open spec fn view(&self) -> CompletionItemView {
        CompletionItemView {
            label: self.label@,
            kind: self.kind,
            detail: optional_text(self.detail),
            documentation: optional_text(self.documentation),
            insert_text: optional_text(self.insert_text),
            insert_text_format: self.insert_text_format,
            text_edit: match self.text_edit {
                Some(edit) => Some(edit@),
                None => None,
            },
        }
    }
}

/// The views of a list of completion items.
pub open spec fn item_models(list: Seq<CompletionItem>) -> Seq<CompletionItemView> {
    list.map_values(|item: CompletionItem| item@)
}

/// An item of the table of built-in completions.
#[derive(Debug)]
pub struct CompletionResourceItem {
    /// The text that the editor shows, and inserts where nothing else is given.
    pub label: String,
    /// More about the item, such as its type.
    pub detail: Option<String>,
    /// A description.
    pub documentation: Option<String>,
    /// The text to insert in place of the label.
    pub insert_text: Option<String>,
    /// How the text to insert is to be read: `snippet` for a snippet.
    pub insert_text_format: Option<String>,
}

/// The completion item of a built-in: its text is a snippet where the table says
/// `snippet`.
pub open spec fn resource_model(resource: CompletionResourceItem) -> CompletionItemView {
    CompletionItemView {
        label: resource.label@,
        kind: None,
        detail: optional_text(resource.detail),
        documentation: optional_text(resource.documentation),
        insert_text: optional_text(resource.insert_text),
        insert_text_format: if optional_text(resource.insert_text_format) == Some("snippet"@) {
            Some(InsertTextFormat::Snippet)
        } else {
            None
        },
        text_edit: None,
    }
}

/// The completion items of the built-ins.
pub open spec fn resource_models(resources: Seq<CompletionResourceItem>) -> Seq<CompletionItemView> {
    Seq::new(resources.len(), |i: int| resource_model(resources[i]))
}

/// A copy of an optional string.
pub fn copy_text(text: &Option<String>) -> (copy: Option<String>)
    ensures
        optional_text(copy) == optional_text(*text),
{
    match text {
        Some(t) => Some(t.clone()),
        None => None,
    }
}

impl From<CompletionResourceItem> for CompletionItem {
    /// The completion item of a built-in.
    fn from(resource_item: CompletionResourceItem) -> (item: Self) {
        let snippet = match &resource_item.insert_text_format {
            Some(format) => same_text(format.as_str(), "snippet"),
            None => false,
        };
        CompletionItem {
            label: resource_item.label,
            kind: None,
            detail: resource_item.detail,
            documentation: resource_item.documentation,
            insert_text: resource_item.insert_text,
            insert_text_format: if snippet {
                Some(InsertTextFormat::Snippet)
            } else {
                None
            },
            text_edit: None,
        }
    }
}

impl vstd::std_specs::convert::FromSpecImpl<CompletionResourceItem> for CompletionItem {
    open spec fn obeys_from_spec() -> bool {
        true
    }

    open spec fn from_spec(resource_item: CompletionResourceItem) -> CompletionItem {
        CompletionItem {
            label: resource_item.label,
            kind: None,
            detail: resource_item.detail,
            documentation: resource_item.documentation,
            insert_text: resource_item.insert_text,
            insert_text_format: if optional_text(resource_item.insert_text_format) == Some(
                "snippet"@,
            ) {
                Some(InsertTextFormat::Snippet)
            } else {
                None
            },
            text_edit: None,
        }
    }
}

impl CompletionItem {
    /// The completion item of a built-in.
    pub fn from_resource(resource: &CompletionResourceItem) -> (item: CompletionItem)
        ensures
            item@ == resource_model(*resource),
    {
        let snippet = match &resource.insert_text_format {
            Some(format) => same_text(format.as_str(), "snippet"),
            None => false,
        };
        CompletionItem {
            label: resource.label.clone(),
            kind: None,
            detail: copy_text(&resource.detail),
            documentation: copy_text(&resource.documentation),
            insert_text: copy_text(&resource.insert_text),
            insert_text_format: if snippet {
                Some(InsertTextFormat::Snippet)
            } else {
                None
            },
            text_edit: None,
        }
    }
}

/// The completion items of the built-ins, in the order of the table.
pub fn get_primitive_list(resources: &Vec<CompletionResourceItem>) -> (items: Vec<CompletionItem>)
    ensures
        item_models(items@) == resource_models(resources@),
{
    let mut items: Vec<CompletionItem> = Vec::new();
    let mut k: usize = 0;
    while k < resources.len()
        invariant
            0 <= k <= resources@.len(),
            item_models(items@) =~= resource_models(resources@).take(k as int),
        decreases resources@.len() - k,
    {
        let item = CompletionItem::from_resource(&resources[k]);
        proof {
            let all = resource_models(resources@);
            assert(all.take(k + 1) =~= all.take(k as int).push(item@));
            assert(item_models(items@.push(item)) =~= item_models(items@).push(item@));
        }
        items.push(item);
        k = k + 1;
    }
    proof {
        assert(resource_models(resources@).take(k as int) =~= resource_models(resources@));
    }
    items
}

/// The completion item of a variable.
pub open spec fn variable_item(
    name: Seq<char>,
    description: Seq<char>,
    declared: Option<Seq<char>>,
) -> CompletionItemView {
    CompletionItemView {
        label: name,
        kind: Some(CompletionItemKind::Function),
        detail: declared,
        documentation: Some(description),
        insert_text: None,
        insert_text_format: None,
        text_edit: None,
    }
}

/// The completion item of a module.
pub open spec fn module_item(name: Seq<char>, description: Seq<char>) -> CompletionItemView {
    CompletionItemView {
        label: name,
        kind: Some(CompletionItemKind::Module),
        detail: None,
        documentation: Some(description),
        insert_text: None,
        insert_text_format: None,
        text_edit: None,
    }
}

/// The completion item of a type.
pub open spec fn type_item(name: Seq<char>, description: Seq<char>) -> CompletionItemView {
    CompletionItemView {
        label: name,
        kind: Some(CompletionItemKind::Struct),
        detail: None,
        documentation: Some(description),
        insert_text: None,
        insert_text_format: None,
        text_edit: None,
    }
}

/// The completion item of a package for a header line: the line becomes `@require: ` or
/// `@import: ` with the name of the package.
pub open spec fn header_item(import_type: Seq<char>, path: Seq<char>, range: Range) -> CompletionItemView {
    CompletionItemView {
        label: path,
        kind: Some(CompletionItemKind::Module),
        detail: None,
        documentation: None,
        insert_text: None,
        insert_text_format: None,
        text_edit: Some(
            TextEditView { range, new_text: "@"@ + import_type + ": "@ + path },
        ),
    }
}

/// The completion item of a variable.
pub fn variable_completion_item(name: String, desc: String, type_declaration: Option<String>) -> (item:
    CompletionItem)
    ensures
        item@ == variable_item(name@, desc@, optional_text(type_declaration)),
{
    CompletionItem {
        label: name,
        kind: Some(CompletionItemKind::Function),
        detail: type_declaration,
        documentation: Some(desc),
        insert_text: None,
        insert_text_format: None,
        text_edit: None,
    }
}

/// The completion item of a module.
pub fn module_completion_item(name: String, desc: String) -> (item: CompletionItem)
    ensures
        item@ == module_item(name@, desc@),
{
    CompletionItem {
        label: name,
        kind: Some(CompletionItemKind::Module),
        detail: None,
        documentation: Some(desc),
        insert_text: None,
        insert_text_format: None,
        text_edit: None,
    }
}

/// The completion item of a type.
pub fn type_completion_item(name: String, desc: String) -> (item: CompletionItem)
    ensures
        item@ == type_item(name@, desc@),
{
    CompletionItem {
        label: name,
        kind: Some(CompletionItemKind::Struct),
        detail: None,
        documentation: Some(desc),
        insert_text: None,
        insert_text_format: None,
        text_edit: None,
    }
}

/// The completion item of a package for a header line.
pub fn header_completion_item(import_type: &str, path: &str, range: Range) -> (item:
    CompletionItem)
    ensures
        item@ == header_item(import_type@, path@, range),
{
    let mut new_text = join3("@", import_type, ": ");
    new_text.append(path);
    CompletionItem {
        label: path.to_owned(),
        kind: Some(CompletionItemKind::Module),
        detail: None,
        documentation: None,
        insert_text: None,
        insert_text_format: None,
        text_edit: Some(TextEdit { range, new_text }),
    }
}

} // verus!
