//! The snippet of a command: its name with a place for each of its arguments.

use crate::documents::strings;
use crate::search::{present, present_all};
use crate::text::{decimal, digits, ends_in, join2, join3, same_text, trim, trimmed};
use vstd::prelude::*;
use vstd::string::*;
use vstd::utf8::encode_utf8;

verus! {

/// The type of an argument of a command, as a signature writes it.
#[derive(Debug)]
pub struct ArgType<'a> {
    /// The type, without the `?` of an optional argument.
    pub name: &'a str,
    /// Whether the argument can be left out.
    pub optional: bool,
}

/// Whether the text of an argument type ends in `?`: the argument is optional.
pub open spec fn arg_optional(text: Seq<char>) -> bool {
    trimmed(text).len() > 0 && trimmed(text).last() == '?'
}

/// The type that the text of an argument type names.
pub open spec fn arg_name(text: Seq<char>) -> Seq<char> {
    if arg_optional(text) {
        trimmed(trimmed(text).drop_last())
    } else {
        trimmed(text)
    }
}

/// Whether a type is a list type: its name is longer than five bytes and ends in `list`.
pub open spec fn is_list_type(name: Seq<char>) -> bool {
    encode_utf8(name).len() > 5 && ends_in(name, "list"@)
}

/// Whether an argument of this type can be written in the short form, as text in braces
/// or brackets behind the command.
pub open spec fn compactible(name: Seq<char>, optional: bool) -> bool {
    !optional && (name == "inline-text"@ || name == "inline-text list"@ || name == "itemize"@
        || name == "block-text"@)
}

/// The snippet of one argument: the place `idx` of the snippet, in the brackets that the
/// type of the argument asks for.
pub open spec fn snippet_of(name: Seq<char>, optional: bool, idx: nat, short: bool) -> Seq<char> {
    if optional {
        if is_list_type(name) {
            "${"@ + digits(idx) + ":?:[]}"@
        } else {
            "${"@ + digits(idx) + ":?:()}"@
        }
    } else if name == "inline-text"@ {
        if short {
            "{$"@ + digits(idx) + "}"@
        } else {
            "({$"@ + digits(idx) + "})"@
        }
    } else if name == "inline-text list"@ {
        if short {
            "{|$"@ + digits(idx) + "|}"@
        } else {
            "({|$"@ + digits(idx) + "|})"@
        }
    } else if name == "itemize"@ {
        if short {
            "{\n  * $"@ + digits(idx) + "\n}"@
        } else {
            "({* $"@ + digits(idx) + "})"@
        }
    } else if name == "block-text"@ {
        if short {
            "<\n  $"@ + digits(idx) + "\n>"@
        } else {
            "('<$"@ + digits(idx) + ">)"@
        }
    } else if is_list_type(name) {
        "[$"@ + digits(idx) + "]"@
    } else {
        "($"@ + digits(idx) + ")"@
    }
}

/// Whether a type is a list type.
pub fn list_type(name: &str) -> (listy: bool)
    ensures
        listy == is_list_type(name@),
{
    let n = name.unicode_len();
    proof {
        reveal_strlit("list");
    }
    if name.as_bytes().len() > 5 && n >= 4 {
        let tail = name.substring_char(n - 4, n);
        same_text(tail, "list")
    } else {
        false
    }
}

impl<'a> ArgType<'a> {
    /// Reads the type of an argument.
    pub fn from_str(text: &'a str) -> (arg: ArgType<'a>)
        ensures
            arg.name@ == arg_name(text@),
            arg.optional == arg_optional(text@),
    {
        let text = trim(text);
        let n = text.unicode_len();
        if n > 0 && text.get_char(n - 1) == '?' {
            proof {
                assert(text@.subrange(0, n - 1) =~= text@.drop_last());
            }
            ArgType { name: trim(text.substring_char(0, n - 1)), optional: true }
        } else {
            ArgType { name: text, optional: false }
        }
    }

    /// Whether the argument can be written in the short form.
    pub fn is_compactible(&self) -> (short: bool)
        ensures
            short == compactible(self.name@, self.optional),
    {
        !self.optional && (same_text(self.name, "inline-text") || same_text(
            self.name,
            "inline-text list",
        ) || same_text(self.name, "itemize") || same_text(self.name, "block-text"))
    }

    /// The snippet of the argument at place `idx`.
    pub fn as_snippet(&self, idx: usize, short: bool) -> (snippet: String)
        ensures
            snippet@ == snippet_of(self.name@, self.optional, idx as nat, short),
    {
        let place = decimal(idx);
        let place = place.as_str();
        if self.optional {
            if list_type(self.name) {
                join3("${", place, ":?:[]}")
            } else {
                join3("${", place, ":?:()}")
            }
        } else if same_text(self.name, "inline-text") {
            if short {
                join3("{$", place, "}")
            } else {
                join3("({$", place, "})")
            }
        } else if same_text(self.name, "inline-text list") {
            if short {
                join3("{|$", place, "|}")
            } else {
                join3("({|$", place, "|})")
            }
        } else if same_text(self.name, "itemize") {
            if short {
                join3("{\n  * $", place, "\n}")
            } else {
                join3("({* $", place, "})")
            }
        } else if same_text(self.name, "block-text") {
            if short {
                join3("<\n  $", place, "\n>")
            } else {
                join3("('<$", place, ">)")
            }
        } else if list_type(self.name) {
            join3("[$", place, "]")
        } else {
            join3("($", place, ")")
        }
    }
}

/// The required one among the argument types: the name of the type of an argument that
/// cannot be left out.
pub open spec fn required_item(text: Seq<char>) -> Option<Seq<char>> {
    if arg_optional(text) {
        None
    } else {
        Some(arg_name(text))
    }
}

/// Of each argument type its required one.
pub open spec fn required_items(type_args: Seq<Seq<char>>) -> Seq<Option<Seq<char>>> {
    Seq::new(type_args.len(), |i: int| required_item(type_args[i]))
}

/// Whether the arguments from place `i` on can all be written in the short form.
pub open spec fn short_tail(names: Seq<Seq<char>>, i: int) -> bool
    decreases names.len() - i,
{
    if i < 0 || i >= names.len() {
        true
    } else {
        compactible(names[i], false) && short_tail(names, i + 1)
    }
}

/// The snippets of the first `n` arguments in a row. An argument is written in the short
/// form where it and all arguments behind it can be.
pub open spec fn snippets(names: Seq<Seq<char>>, n: nat) -> Seq<char>
    decreases n,
{
    if n == 0 || n > names.len() {
        Seq::empty()
    } else {
        snippets(names, (n - 1) as nat) + snippet_of(
            names[n - 1],
            false,
            n,
            short_tail(names, n - 1),
        )
    }
}

/// The name of a command as a snippet writes it: a `\` at its start is doubled.
pub open spec fn escaped(name: Seq<char>) -> Seq<char> {
    if name.len() > 0 && name[0] == '\\' {
        "\\"@ + name
    } else {
        name
    }
}

/// The snippet of a command: its name, a place for each argument that cannot be left
/// out, a semicolon unless the last argument is written in the short form, and the place
/// of the cursor.
pub open spec fn command_snippet(name: Seq<char>, type_args: Seq<Seq<char>>) -> Seq<char> {
    let names = present_all(required_items(type_args));
    escaped(name) + snippets(names, names.len()) + if names.len() > 0 && compactible(
        names.last(),
        false,
    ) {
        Seq::empty()
    } else {
        ";"@
    } + "$0"@
}

/// Where every argument behind place `k` can be written in the short form and the one
/// before cannot, the arguments from `i` on can be iff `i` is not before `k`.
pub proof fn lemma_short_tail(names: Seq<Seq<char>>, k: int, i: int)
    requires
        0 <= k <= names.len(),
        0 <= i <= names.len(),
        forall|j: int| k <= j < names.len() ==> compactible(#[trigger] names[j], false),
        k > 0 ==> !compactible(names[k - 1], false),
    ensures
        short_tail(names, i) == (i >= k),
    decreases names.len() - i,
{
    if i < names.len() {
        lemma_short_tail(names, k, i + 1);
    }
}

/// The snippet of a command with the name `name` and the argument types `type_args`.
pub fn form_command_text_snippet(name: &str, type_args: &Vec<String>) -> (snippet: String)
    ensures
        snippet@ == command_snippet(name@, strings(type_args@)),
{
    let ghost items = required_items(strings(type_args@));
    let mut args: Vec<ArgType> = Vec::new();
    let ghost mut names: Seq<Seq<char>> = Seq::empty();
    let mut k: usize = 0;
    while k < type_args.len()
        invariant
            0 <= k <= type_args@.len(),
            items == required_items(strings(type_args@)),
            names == present(items, k as nat),
            args@.len() == names.len(),
            forall|j: int|
                0 <= j < args@.len() ==> (#[trigger] args@[j]).name@ == names[j] && !args@[j].optional,
        decreases type_args@.len() - k,
    {
        let arg = ArgType::from_str(type_args[k].as_str());
        proof {
            assert(strings(type_args@)[k as int] == type_args@[k as int]@);
        }
        if !arg.optional {
            proof {
                names = names.push(arg.name@);
            }
            args.push(arg);
        }
        k = k + 1;
    }
    let n = args.len();
    let mut first_short: usize = n;
    while first_short > 0 && args[first_short - 1].is_compactible()
        invariant
            n == args@.len(),
            args@.len() == names.len(),
            0 <= first_short <= n,
            forall|j: int|
                0 <= j < args@.len() ==> (#[trigger] args@[j]).name@ == names[j] && !args@[j].optional,
            forall|j: int| first_short <= j < names.len() ==> compactible(#[trigger] names[j], false),
        decreases first_short,
    {
        first_short = first_short - 1;
    }
    let mut snippet = if starts_with_backslash(name) {
        join2("\\", name)
    } else {
        name.to_owned()
    };
    let mut i: usize = 0;
    while i < n
        invariant
            n == args@.len(),
            args@.len() == names.len(),
            0 <= i <= n,
            0 <= first_short <= n,
            forall|j: int|
                0 <= j < args@.len() ==> (#[trigger] args@[j]).name@ == names[j] && !args@[j].optional,
            forall|j: int| first_short <= j < names.len() ==> compactible(#[trigger] names[j], false),
            first_short > 0 ==> !compactible(names[first_short - 1], false),
            snippet@ == escaped(name@) + snippets(names, i as nat),
        decreases n - i,
    {
        proof {
            lemma_short_tail(names, first_short as int, i as int);
        }
        let part = args[i].as_snippet(i + 1, i >= first_short);
        snippet.append(part.as_str());
        proof {
            assert(snippet@ =~= escaped(name@) + snippets(names, (i + 1) as nat));
        }
        i = i + 1;
    }
    if !(n > 0 && first_short < n) {
        snippet.append(";");
    }
    snippet.append("$0");
    proof {
        assert(names == present_all(items));
        if n > 0 {
            lemma_short_tail(names, first_short as int, n - 1);
            assert(short_tail(names, n - 1) == compactible(names.last(), false));
        }
        assert(snippet@ =~= command_snippet(name@, strings(type_args@)));
    }
    snippet
}

/// Whether a name begins with `\`.
pub fn starts_with_backslash(name: &str) -> (found: bool)
    ensures
        found == (name@.len() > 0 && name@[0] == '\\'),
{
    name.unicode_len() > 0 && name.get_char(0) == '\\'
}

} // verus!
