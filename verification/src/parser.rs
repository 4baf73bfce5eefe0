//! The syntax tree of a document: the grammar of the `satysfi-parser` crate produces it,
//! and this module holds it, checks it against the text, and searches it.

use crate::position::{Position, offset_to_position, position_at};
use crate::text::{chars_between, decimal, digits, is_char_range, slice_text};
use vstd::utf8::encode_utf8;
use vstd::prelude::*;
use vstd::string::*;

pub use satysfi_parser::Rule;

verus! {

/// The rule kinds of the grammar: `Rule` of `satysfi-parser`, an enum without fields.
/// The type is declared with its variants, which Verus reads from the crate itself, so
/// that the kind of a node can be named and matched on; nothing is assumed of it.
#[verifier::external_type_specification]
pub struct ExRule(satysfi_parser::Rule);

/// `==` on rule kinds is the impl that `satysfi-parser` derives for its field-less enum:
/// two kinds are equal where they are the same variant.
pub assume_specification[ <satysfi_parser::Rule as PartialEq>::eq ](
    a: &satysfi_parser::Rule,
    b: &satysfi_parser::Rule,
) -> (same: bool)
    ensures
        same == (*a == *b),
;

/// A range of byte offsets into the text of one document.
#[derive(Clone, Copy, Debug, PartialEq, Eq, Structural)]
pub struct Span {
    pub start: usize,
    pub end: usize,
}

impl Span {
    /// Whether an offset lies in the span. Both ends count: a cursor that sits on the edge
    /// of a scope is inside it.
    pub open spec fn holds(self, pos: int) -> bool {
        self.start <= pos <= self.end
    }

    /// Whether `other` lies inside this span.
    pub open spec fn encloses(self, other: Span) -> bool {
        self.start <= other.start && other.end <= self.end
    }

    /// Whether an offset lies in the span; both ends count.
    pub fn includes(&self, pos: usize) -> (inside: bool)
        ensures
            inside == self.holds(pos as int),
    {
        self.start <= pos && pos <= self.end
    }

    /// Whether `other` lies inside this span.
    pub fn contains(&self, other: &Span) -> (inside: bool)
        ensures
            inside == self.encloses(*other),
    {
        self.start <= other.start && other.end <= self.end
    }
}

/// The text that a span cuts out of a document: empty where the span is no range of whole
/// characters of the text.
pub open spec fn text_of(text: Seq<char>, span: Span) -> Seq<char> {
    if is_char_range(text, span.start as int, span.end as int) {
        chars_between(text, span.start as int, span.end as int)
    } else {
        Seq::empty()
    }
}

/// The text of a span.
pub fn get_text<'a>(text: &'a str, span: Span) -> (part: &'a str)
    ensures
        part@ == text_of(text@, span),
{
    match slice_text(text, span.start, span.end) {
        Some(part) => part,
        None => {
            let empty = "";
            proof {
                reveal_strlit("");
                assert(empty@ =~= Seq::<char>::empty());
            }
            empty
        },
    }
}

/// A line and a column, both counted from zero; the column counts characters.
#[derive(Clone, Copy, Debug, PartialEq, Eq, Structural)]
pub struct LineCol {
    pub line: usize,
    pub column: usize,
}

/// The lexical mode at a place of a document. Each mode has its own vocabulary.
#[derive(Clone, Copy, Debug, PartialEq, Eq, Structural)]
pub enum Mode {
    Program,
    Vertical,
    Horizontal,
    Math,
    Header,
    Literal,
    Comment,
}

/// The mode that a node of this kind puts its contents in, where it changes the mode.
pub open spec fn shifted_mode(rule: Rule) -> Option<Mode> {
    match rule {
        Rule::vertical => Some(Mode::Vertical),
        Rule::horizontal_single | Rule::horizontal_list | Rule::horizontal_bullet_list => Some(
            Mode::Horizontal,
        ),
        Rule::math_single | Rule::math_list => Some(Mode::Math),
        Rule::headers | Rule::stage => Some(Mode::Header),
        Rule::const_string => Some(Mode::Literal),
        Rule::cmd_expr_arg
        | Rule::cmd_expr_option
        | Rule::math_cmd_expr_arg
        | Rule::math_cmd_expr_option => Some(Mode::Program),
        _ => None,
    }
}

/// The mode that a node of this kind puts its contents in, where it changes the mode.
pub fn rule_mode(rule: Rule) -> (mode: Option<Mode>)
    ensures
        mode == shifted_mode(rule),
{
    match rule {
        Rule::vertical => Some(Mode::Vertical),
        Rule::horizontal_single | Rule::horizontal_list | Rule::horizontal_bullet_list => Some(
            Mode::Horizontal,
        ),
        Rule::math_single | Rule::math_list => Some(Mode::Math),
        Rule::headers | Rule::stage => Some(Mode::Header),
        Rule::const_string => Some(Mode::Literal),
        Rule::cmd_expr_arg
        | Rule::cmd_expr_option
        | Rule::math_cmd_expr_arg
        | Rule::math_cmd_expr_option => Some(Mode::Program),
        _ => None,
    }
}

/// One node of a tree as the grammar lists it: its kind, its span and the number of its
/// children. A tree is listed root first, each node followed by the listings of its
/// children.
#[derive(Clone, Copy, Debug)]
pub struct RawNode {
    pub rule: Rule,
    pub start: usize,
    pub end: usize,
    pub children: usize,
}

/// Where the grammar gave up, as it reports it: line and column count from one.
#[derive(Debug)]
pub struct RawFailure {
    pub line: usize,
    pub column: usize,
    pub expected: Vec<String>,
}

/// Why a text gave no tree.
#[derive(Debug)]
pub enum ParseFailure {
    /// The grammar does not accept the text: it stopped at `location`, where it looked for
    /// one of `expected`.
    Syntax { location: LineCol, expected: Vec<String> },
    /// The grammar accepted the text, but what it returned is no tree over this text.
    Malformed,
}

/// The values that references point to.
pub open spec fn values<T>(refs: Seq<&T>) -> Seq<T> {
    refs.map_values(|r: &T| *r)
}

/// A node of the concrete syntax tree: the rule that matched, the text it covers, and the
/// nodes of the rules that matched inside it, in the order of the text.
#[derive(Debug)]
pub struct Cst {
    pub rule: Rule,
    pub span: Span,
    pub inner: Vec<Cst>,
}

/// The listings of the first `n` of `kids`, one after the other.
pub open spec fn listed_among(kids: Seq<Cst>, n: nat) -> Seq<RawNode>
    decreases n,
{
    if n == 0 || n > kids.len() {
        Seq::empty()
    } else {
        listed_among(kids, (n - 1) as nat) + kids[n - 1].listed()
    }
}

/// The offset behind the listing of one tree that starts at `at`, if `nodes` holds one
/// there.
pub open spec fn subtree_end(nodes: Seq<RawNode>, at: int) -> Option<int>
    decreases nodes.len() - at, 0nat,
{
    if at < 0 || at >= nodes.len() {
        None
    } else {
        children_end(nodes, at + 1, nodes[at].children as nat)
    }
}

/// The offset behind the listings of `count` trees that start at `at`.
pub open spec fn children_end(nodes: Seq<RawNode>, at: int, count: nat) -> Option<int>
    decreases nodes.len() - at, count,
{
    if count == 0 {
        Some(at)
    } else if at < 0 || at >= nodes.len() {
        None
    } else {
        match subtree_end(nodes, at) {
            Some(next) => if at < next <= nodes.len() {
                children_end(nodes, next, (count - 1) as nat)
            } else {
                None
            },
            None => None,
        }
    }
}

/// Where the listing of child `k` of the node at `at` starts.
pub open spec fn child_at(nodes: Seq<RawNode>, at: int, k: nat) -> int
    decreases k,
{
    if k == 0 {
        at + 1
    } else {
        match subtree_end(nodes, child_at(nodes, at, (k - 1) as nat)) {
            Some(next) => next,
            None => -1,
        }
    }
}

/// The spans of the children of the node at `at`.
pub open spec fn child_spans(nodes: Seq<RawNode>, at: int) -> Seq<Span> {
    Seq::new(
        nodes[at].children as nat,
        |k: int|
            Span {
                start: nodes[child_at(nodes, at, k as nat)].start,
                end: nodes[child_at(nodes, at, k as nat)].end,
            },
    )
}

/// Whether `nodes` is the listing of exactly one tree.
pub open spec fn is_listing(nodes: Seq<RawNode>) -> bool {
    subtree_end(nodes, 0) == Some(nodes.len() as int)
}

impl Cst {
    /// The node without its children.
    pub open spec fn raw(&self) -> RawNode {
        RawNode {
            rule: self.rule,
            start: self.span.start,
            end: self.span.end,
            children: self.inner@.len() as usize,
        }
    }

    /// The node followed by the listings of its first `n` children.
    pub open spec fn listed_upto(&self, n: nat) -> Seq<RawNode>
        decreases self, n,
    {
        if n == 0 || n > self.inner@.len() {
            seq![self.raw()]
        } else {
            self.listed_upto((n - 1) as nat) + self.inner@[n - 1].listed_upto(
                self.inner@[n - 1].inner@.len(),
            )
        }
    }

    /// The spans of the children.
    pub open spec fn child_spans(&self) -> Seq<Span> {
        Seq::new(self.inner@.len(), |k: int| self.inner@[k].span)
    }

    /// The tree as a list: the node, then the listing of each child.
    pub open spec fn listed(&self) -> Seq<RawNode> {
        self.listed_upto(self.inner@.len())
    }

    /// The nodes of kind `rule` among the first `n` children and below them, in the order
    /// of the text; a node comes before the nodes inside it.
    pub open spec fn picked_upto(&self, rule: Rule, n: nat) -> Seq<Cst>
        decreases self, n,
    {
        if n == 0 || n > self.inner@.len() {
            Seq::empty()
        } else {
            let child = self.inner@[n - 1];
            let own = if child.rule == rule {
                seq![child]
            } else {
                Seq::empty()
            };
            self.picked_upto(rule, (n - 1) as nat) + own + child.picked_upto(
                rule,
                child.inner@.len(),
            )
        }
    }

    /// The nodes of kind `rule` below this node.
    pub open spec fn picked(&self, rule: Rule) -> Seq<Cst> {
        self.picked_upto(rule, self.inner@.len())
    }

    /// The index of the first child among the first `n` whose span holds `pos`.
    pub open spec fn chosen_upto(&self, pos: int, n: nat) -> Option<int>
        decreases n,
    {
        if n == 0 || n > self.inner@.len() {
            None
        } else {
            match self.chosen_upto(pos, (n - 1) as nat) {
                Some(i) => Some(i),
                None => if self.inner@[n - 1].span.holds(pos) {
                    Some(n - 1)
                } else {
                    None
                },
            }
        }
    }

    /// The index of the first child whose span holds `pos`.
    pub open spec fn chosen(&self, pos: int) -> Option<int> {
        self.chosen_upto(pos, self.inner@.len())
    }

    /// The nodes around `pos`, the innermost first: below each node the first child whose
    /// span holds `pos`, and last this node itself where its span holds `pos`.
    pub open spec fn dug(&self, pos: int) -> Seq<Cst>
        decreases self,
    {
        let below = match self.chosen(pos) {
            Some(i) => if 0 <= i < self.inner@.len() {
                self.inner@[i].dug(pos)
            } else {
                Seq::empty()
            },
            None => Seq::empty(),
        };
        if self.span.holds(pos) {
            below.push(*self)
        } else {
            below
        }
    }

    /// The first of `nodes` that strictly encloses `span`.
    pub open spec fn first_around(nodes: Seq<Cst>, span: Span) -> Option<Cst>
        decreases nodes.len(),
    {
        if nodes.len() == 0 {
            None
        } else if nodes[0].span.encloses(span) && nodes[0].span != span {
            Some(nodes[0])
        } else {
            Self::first_around(nodes.drop_first(), span)
        }
    }

    /// The mode that the first of `nodes` to change the mode sets; the program mode where
    /// none does.
    pub open spec fn first_mode(nodes: Seq<Cst>) -> Mode
        decreases nodes.len(),
    {
        if nodes.len() == 0 {
            Mode::Program
        } else {
            match shifted_mode(nodes[0].rule) {
                Some(mode) => mode,
                None => Self::first_mode(nodes.drop_first()),
            }
        }
    }

    /// The text that the node covers.
    pub fn as_str<'a>(&self, text: &'a str) -> (part: &'a str)
        ensures
            part@ == text_of(text@, self.span),
    {
        get_text(text, self.span)
    }

    /// All nodes of kind `rule` below this node.
    pub fn pickup(&self, rule: Rule) -> (found: Vec<&Cst>)
        ensures
            values(found@) == self.picked(rule),
        decreases self,
    {
        let mut found: Vec<&Cst> = Vec::new();
        let mut k: usize = 0;
        while k < self.inner.len()
            invariant
                0 <= k <= self.inner@.len(),
                values(found@) =~= self.picked_upto(rule, k as nat),
            decreases self.inner@.len() - k,
        {
            let child = &self.inner[k];
            if child.rule == rule {
                found.push(child);
            }
            let mut below = child.pickup(rule);
            found.append(&mut below);
            k = k + 1;
        }
        found
    }

    /// The first child whose span holds `pos`.
    pub fn choose_child(&self, pos: usize) -> (child: Option<&Cst>)
        ensures
            match self.chosen(pos as int) {
                Some(i) => 0 <= i < self.inner@.len() && child == Some(&self.inner@[i]),
                None => child is None,
            },
    {
        let mut k: usize = 0;
        while k < self.inner.len()
            invariant
                0 <= k <= self.inner@.len(),
                self.chosen_upto(pos as int, k as nat) is None,
            decreases self.inner@.len() - k,
        {
            if self.inner[k].span.includes(pos) {
                proof {
                    self.lemma_chosen_stays(pos as int, (k + 1) as nat, self.inner@.len());
                }
                return Some(&self.inner[k]);
            }
            k = k + 1;
        }
        None
    }

    /// Once a child is chosen among the first `n`, the same one is chosen among more.
    pub proof fn lemma_chosen_stays(&self, pos: int, n: nat, m: nat)
        requires
            n <= m <= self.inner@.len(),
            self.chosen_upto(pos, n) is Some,
        ensures
            self.chosen_upto(pos, m) == self.chosen_upto(pos, n),
            0 <= self.chosen_upto(pos, n)->0 < n,
            self.inner@[self.chosen_upto(pos, n)->0].span.holds(pos),
        decreases m,
    {
        if n < m {
            self.lemma_chosen_stays(pos, n, (m - 1) as nat);
        } else {
            self.lemma_chosen_first(pos, n);
        }
    }

    proof fn lemma_chosen_first(&self, pos: int, n: nat)
        requires
            n <= self.inner@.len(),
            self.chosen_upto(pos, n) is Some,
        ensures
            0 <= self.chosen_upto(pos, n)->0 < n,
            self.inner@[self.chosen_upto(pos, n)->0].span.holds(pos),
        decreases n,
    {
        if n > 0 && self.chosen_upto(pos, (n - 1) as nat) is Some {
            self.lemma_chosen_first(pos, (n - 1) as nat);
        }
    }

    /// The nodes around `pos`, the innermost first and this node last.
    pub fn dig(&self, pos: usize) -> (chain: Vec<&Cst>)
        ensures
            values(chain@) == self.dug(pos as int),
        decreases self,
    {
        let mut chain: Vec<&Cst> = match self.choose_child(pos) {
            Some(child) => child.dig(pos),
            None => Vec::new(),
        };
        if self.span.includes(pos) {
            chain.push(self);
        }
        proof {
            assert(values(chain@) =~= self.dug(pos as int));
        }
        chain
    }

    /// The innermost node whose span holds `pos`: the first of the nodes around it.
    pub fn node_at(&self, pos: usize) -> (node: Option<&Cst>)
        ensures
            match node {
                Some(found) => self.dug(pos as int).len() > 0 && *found == self.dug(pos as int)[0],
                None => self.dug(pos as int).len() == 0,
            },
    {
        let chain = self.dig(pos);
        if chain.len() > 0 {
            proof {
                assert(values(chain@)[0] == *chain@[0]);
            }
            Some(chain[0])
        } else {
            None
        }
    }

    /// The innermost node around the start of `child` that strictly encloses it.
    pub fn get_parent(&self, child: &Cst) -> (parent: Option<&Cst>)
        ensures
            parent is Some <==> Self::first_around(
                self.dug(child.span.start as int),
                child.span,
            ) is Some,
            parent matches Some(p) ==> Self::first_around(
                self.dug(child.span.start as int),
                child.span,
            ) == Some(*p),
    {
        let chain = self.dig(child.span.start);
        let mut k: usize = 0;
        proof {
            assert(values(chain@).skip(0) =~= values(chain@));
        }
        while k < chain.len()
            invariant
                0 <= k <= chain@.len(),
                values(chain@) == self.dug(child.span.start as int),
                Self::first_around(self.dug(child.span.start as int), child.span)
                    == Self::first_around(values(chain@).skip(k as int), child.span),
            decreases chain@.len() - k,
        {
            let node = chain[k];
            proof {
                let rest = values(chain@).skip(k as int);
                assert(rest[0] == *node);
                assert(rest.drop_first() =~= values(chain@).skip(k + 1));
            }
            if node.span.contains(&child.span) && node.span != child.span {
                return Some(node);
            }
            k = k + 1;
        }
        None
    }

    /// The mode at `pos`: that of the innermost node around it that changes the mode.
    pub fn mode(&self, pos: usize) -> (mode: Mode)
        ensures
            mode == Self::first_mode(self.dug(pos as int)),
    {
        let chain = self.dig(pos);
        let mut k: usize = 0;
        proof {
            assert(values(chain@).skip(0) =~= values(chain@));
        }
        while k < chain.len()
            invariant
                0 <= k <= chain@.len(),
                values(chain@) == self.dug(pos as int),
                Self::first_mode(self.dug(pos as int)) == Self::first_mode(
                    values(chain@).skip(k as int),
                ),
            decreases chain@.len() - k,
        {
            proof {
                let rest = values(chain@).skip(k as int);
                assert(rest[0] == *chain@[k as int]);
                assert(rest.drop_first() =~= values(chain@).skip(k + 1));
            }
            match rule_mode(chain[k].rule) {
                Some(mode) => {
                    return mode;
                },
                None => {},
            }
            k = k + 1;
        }
        Mode::Program
    }

    /// The tree that a listing describes.
    pub fn from_listing(nodes: &Vec<RawNode>) -> (tree: Option<Cst>)
        ensures
            tree is Some <==> is_listing(nodes@),
            tree matches Some(t) ==> t.listed() == nodes@ && t.raw() == nodes@[0]
                && t.child_spans() == child_spans(nodes@, 0),
    {
        if nodes.len() == 0 {
            return None;
        }
        match Self::subtree(nodes, 0) {
            Some((tree, next)) => {
                if next == nodes.len() {
                    proof {
                        assert(nodes@.subrange(0, next as int) =~= nodes@);
                    }
                    Some(tree)
                } else {
                    None
                }
            },
            None => None,
        }
    }

    /// The tree whose listing starts at `at`, and the offset behind that listing.
    fn subtree(nodes: &Vec<RawNode>, at: usize) -> (found: Option<(Cst, usize)>)
        requires
            at < nodes@.len(),
        ensures
            found is Some <==> subtree_end(nodes@, at as int) is Some,
            found matches Some((tree, next)) ==> {
                &&& subtree_end(nodes@, at as int) == Some(next as int)
                &&& at < next <= nodes@.len()
                &&& tree.listed() == nodes@.subrange(at as int, next as int)
                &&& tree.raw() == nodes@[at as int]
                &&& tree.child_spans() == child_spans(nodes@, at as int)
            },
        decreases nodes@.len() - at,
    {
        let total = nodes.len();
        let node = nodes[at];
        let mut inner: Vec<Cst> = Vec::new();
        let mut next: usize = at + 1;
        let mut k: usize = 0;
        while k < node.children
            invariant
                at < nodes@.len(),
                node == nodes@[at as int],
                0 <= k <= node.children,
                at < next <= nodes@.len(),
                inner@.len() == k,
                children_end(nodes@, at + 1, node.children as nat) == children_end(
                    nodes@,
                    next as int,
                    (node.children - k) as nat,
                ),
                listed_among(inner@, k as nat) == nodes@.subrange(at + 1, next as int),
                next == child_at(nodes@, at as int, k as nat),
                forall|j: int|
                    0 <= j < k ==> (#[trigger] inner@[j]).span == (Span {
                        start: nodes@[child_at(nodes@, at as int, j as nat)].start,
                        end: nodes@[child_at(nodes@, at as int, j as nat)].end,
                    }),
            decreases node.children - k,
        {
            if next >= nodes.len() {
                return None;
            }
            match Self::subtree(nodes, next) {
                None => {
                    return None;
                },
                Some((kid, after)) => {
                    proof {
                        lemma_listed_among_prefix(inner@, kid, k as nat);
                        kid.lemma_listed_upto(kid.inner@.len());
                        assert(kid.listed()[0] == kid.raw());
                        assert(nodes@.subrange(next as int, after as int)[0] == nodes@[next as int]);
                        assert(inner@.push(kid)[k as int] == kid);
                        assert(nodes@.subrange(at + 1, next as int) + nodes@.subrange(
                            next as int,
                            after as int,
                        ) =~= nodes@.subrange(at + 1, after as int));
                    }
                    inner.push(kid);
                    next = after;
                },
            }
            k = k + 1;
        }
        let tree = Cst { rule: node.rule, span: Span { start: node.start, end: node.end }, inner };
        proof {
            tree.lemma_listed_upto(tree.inner@.len());
            assert(tree.raw() == node);
            assert(tree.child_spans() =~= child_spans(nodes@, at as int));
            assert(seq![node] + nodes@.subrange(at + 1, next as int) =~= nodes@.subrange(
                at as int,
                next as int,
            ));
        }
        Some((tree, next))
    }

    /// The listing of a node is the node followed by the listings of its children.
    pub proof fn lemma_listed_upto(&self, n: nat)
        requires
            n <= self.inner@.len(),
        ensures
            self.listed_upto(n) == seq![self.raw()] + listed_among(self.inner@, n),
        decreases n,
    {
        if n > 0 {
            self.lemma_listed_upto((n - 1) as nat);
            assert(self.listed_upto(n) =~= seq![self.raw()] + listed_among(self.inner@, n));
        } else {
            assert(self.listed_upto(n) =~= seq![self.raw()] + listed_among(self.inner@, n));
        }
    }

    /// Parses `text` by one rule of the grammar.
    pub fn parse(text: &str, rule: Rule) -> (parsed: Result<Cst, ParseFailure>)
        ensures
            parsed is Ok <==> accepted(grammar_nodes(rule, text@), text@),
            parsed matches Ok(tree) ==> Some(tree.listed()) == grammar_nodes(rule, text@)
                && tree.child_spans() == child_spans(grammar_nodes(rule, text@)->0, 0),
            parsed matches Err(failure) ==> (failure is Syntax <==> grammar_nodes(
                rule,
                text@,
            ) is None),
            parsed matches Err(ParseFailure::Syntax { location, .. }) ==> Some(location)
                == failure_place(grammar_answer(rule, text@)),
    {
        SatysfiParser::parse(rule, text)
    }
}

/// One more child behind them leaves the listings of the first children as they are.
pub proof fn lemma_listed_among_prefix(kids: Seq<Cst>, kid: Cst, n: nat)
    requires
        n <= kids.len(),
    ensures
        listed_among(kids.push(kid), n) == listed_among(kids, n),
    decreases n,
{
    if n > 0 {
        lemma_listed_among_prefix(kids, kid, (n - 1) as nat);
        assert(kids.push(kid)[n - 1] == kids[n - 1]);
    }
}

/// What the grammar answers for `text` under the rule `rule`: the nodes of the tree that
/// it lists, or, where the rule does not match the whole text, the line and the column at
/// which it gave up, both counted from one.
pub uninterp spec fn grammar_answer(rule: Rule, text: Seq<char>) -> Result<
    Seq<RawNode>,
    (usize, usize),
>;

/// What the grammar answers for `text` as a whole program.
pub uninterp spec fn program_answer(text: Seq<char>) -> Result<Seq<RawNode>, (usize, usize)>;

/// The answer that the parser handed out: the nodes as a sequence, or the line and the
/// column of the failure.
pub open spec fn answer_in(listed: Result<Vec<RawNode>, RawFailure>) -> Result<
    Seq<RawNode>,
    (usize, usize),
> {
    match listed {
        Ok(nodes) => Ok(nodes@),
        Err(raw) => Err((raw.line, raw.column)),
    }
}

/// The nodes that an answer of the grammar lists; nothing where it gave up.
pub open spec fn listing_of(answer: Result<Seq<RawNode>, (usize, usize)>) -> Option<Seq<RawNode>> {
    match answer {
        Ok(nodes) => Some(nodes),
        Err(_) => None,
    }
}

/// The place of a line and a column that are counted from one, counted from zero.
pub open spec fn place_of(line: usize, column: usize) -> LineCol {
    LineCol {
        line: if line > 0 {
            (line - 1) as usize
        } else {
            0
        },
        column: if column > 0 {
            (column - 1) as usize
        } else {
            0
        },
    }
}

/// Where the grammar gave up, with line and column counted from zero; nothing where it
/// lists a tree.
pub open spec fn failure_place(answer: Result<Seq<RawNode>, (usize, usize)>) -> Option<LineCol> {
    match answer {
        Ok(_) => None,
        Err((line, column)) => Some(place_of(line, column)),
    }
}

/// What the grammar lists for `text` under the rule `rule`: the nodes of the tree, or
/// nothing where the rule does not match the whole text.
pub open spec fn grammar_nodes(rule: Rule, text: Seq<char>) -> Option<Seq<RawNode>> {
    listing_of(grammar_answer(rule, text))
}

/// What the grammar lists for `text` as a whole program.
pub open spec fn program_nodes(text: Seq<char>) -> Option<Seq<RawNode>> {
    listing_of(program_answer(text))
}

/// Whether every span of a listing is a range of whole characters of `text`.
pub open spec fn all_fit(nodes: Seq<RawNode>, text: Seq<char>) -> bool {
    forall|i: int|
        0 <= i < nodes.len() ==> is_char_range(
            text,
            (#[trigger] nodes[i]).start as int,
            nodes[i].end as int,
        )
}

/// Whether what the grammar listed makes a tree over `text`: it lists one tree, and
/// every span is a range of whole characters of the text.
pub open spec fn accepted(nodes: Option<Seq<RawNode>>, text: Seq<char>) -> bool {
    match nodes {
        Some(nodes) => is_listing(nodes) && all_fit(nodes, text),
        None => false,
    }
}

/// The failure that the grammar reported, with line and column counted from zero.
pub open spec fn syntax_failure(raw: RawFailure) -> ParseFailure {
    ParseFailure::Syntax { location: place_of(raw.line, raw.column), expected: raw.expected }
}

/// Whether every span of a listing is a range of whole characters of `text`.
pub fn listing_fits(nodes: &Vec<RawNode>, text: &str) -> (ok: bool)
    ensures
        ok == all_fit(nodes@, text@),
{
    let mut k: usize = 0;
    while k < nodes.len()
        invariant
            0 <= k <= nodes@.len(),
            forall|i: int|
                0 <= i < k ==> is_char_range(
                    text@,
                    (#[trigger] nodes@[i]).start as int,
                    nodes@[i].end as int,
                ),
        decreases nodes@.len() - k,
    {
        if slice_text(text, nodes[k].start, nodes[k].end).is_none() {
            return false;
        }
        k = k + 1;
    }
    true
}

/// `Rule::parse` of `satysfi-parser`: the rule's parser, run on the whole text. Where it
/// matches, the nodes of its tree are handed out as `Cst::listup` lists them, root first;
/// where it does not, the place and the expected tokens of its error. The place is the
/// one that the answer of the grammar names; of the tokens nothing is claimed, for they
/// come in no fixed order.
#[verifier::external_body]
fn grammar_rule(rule: Rule, text: &str) -> (listed: Result<Vec<RawNode>, RawFailure>)
    ensures
        answer_in(listed) == grammar_answer(rule, text@),
{
    match rule.parse(text) {
        Ok(cst) => Ok(
            cst.listup().iter().map(
                |c| RawNode { rule: c.rule, start: c.span.start, end: c.span.end, children: c.inner.len() },
            ).collect(),
        ),
        Err(e) => Err(
            RawFailure {
                line: e.location.line,
                column: e.location.column,
                expected: e.expected.tokens().map(|t| t.to_owned()).collect(),
            },
        ),
    }
}

/// `grammar::program` of `satysfi-parser`: the parser of a whole document, handed out as
/// `grammar_rule` hands out a rule's.
#[verifier::external_body]
fn grammar_program(text: &str) -> (listed: Result<Vec<RawNode>, RawFailure>)
    ensures
        answer_in(listed) == program_answer(text@),
{
    match satysfi_parser::grammar::program(text) {
        Ok(cst) => Ok(
            cst.listup().iter().map(
                |c| RawNode { rule: c.rule, start: c.span.start, end: c.span.end, children: c.inner.len() },
            ).collect(),
        ),
        Err(e) => Err(
            RawFailure {
                line: e.location.line,
                column: e.location.column,
                expected: e.expected.tokens().map(|t| t.to_owned()).collect(),
            },
        ),
    }
}

impl ParseFailure {
    /// The failure that the grammar reported, with line and column counted from zero.
    pub fn from_raw(raw: RawFailure) -> (failure: ParseFailure)
        ensures
            failure == syntax_failure(raw),
    {
        let line = if raw.line > 0 {
            raw.line - 1
        } else {
            0
        };
        let column = if raw.column > 0 {
            raw.column - 1
        } else {
            0
        };
        ParseFailure::Syntax { location: LineCol { line, column }, expected: raw.expected }
    }
}

/// Whether the offset `pos` of a document with the text `text` stands in a comment:
/// behind a `%` on its line, in a stretch of the text that belongs to no inner node.
pub uninterp spec fn comment_at(text: Seq<char>, pos: int) -> bool;

/// `CstText::parse` with `grammar::program`, and `CstText::is_comment` of
/// `satysfi-parser`: the text is parsed as a whole document and asked whether the offset
/// stands in a comment. A text that the grammar does not accept has no comments.
#[verifier::external_body]
fn in_comment(text: &str, pos: usize) -> (inside: bool)
    ensures
        inside == comment_at(text@, pos as int),
{
    match satysfi_parser::CstText::parse(text, satysfi_parser::grammar::program) {
        Ok(parsed) => parsed.is_comment(pos),
        Err(_) => false,
    }
}

/// The parser of the language.
pub struct SatysfiParser;

impl SatysfiParser {
    /// The tree over `text` that the grammar's answer describes: a listing has to be one
    /// of a single tree, and every span a range of whole characters of the text.
    pub fn tree_of(listed: Result<Vec<RawNode>, RawFailure>, text: &str) -> (parsed: Result<
        Cst,
        ParseFailure,
    >)
        ensures
            match listed {
                Ok(nodes) => {
                    &&& parsed is Ok <==> accepted(Some(nodes@), text@)
                    &&& parsed matches Ok(tree) ==> tree.listed() == nodes@ && tree.raw() == nodes@[0]
                        && tree.child_spans() == child_spans(nodes@, 0)
                    &&& parsed matches Err(failure) ==> failure is Malformed
                },
                Err(raw) => parsed == Err::<Cst, ParseFailure>(syntax_failure(raw)),
            },
    {
        match listed {
            Ok(nodes) => {
                if !listing_fits(&nodes, text) {
                    return Err(ParseFailure::Malformed);
                }
                match Cst::from_listing(&nodes) {
                    Some(tree) => Ok(tree),
                    None => Err(ParseFailure::Malformed),
                }
            },
            Err(raw) => Err(ParseFailure::from_raw(raw)),
        }
    }

    /// Parses `text` by one rule of the grammar.
    pub fn parse(rule: Rule, text: &str) -> (parsed: Result<Cst, ParseFailure>)
        ensures
            parsed is Ok <==> accepted(grammar_nodes(rule, text@), text@),
            parsed matches Ok(tree) ==> Some(tree.listed()) == grammar_nodes(rule, text@)
                && tree.child_spans() == child_spans(grammar_nodes(rule, text@)->0, 0),
            parsed matches Err(failure) ==> (failure is Syntax <==> grammar_nodes(
                rule,
                text@,
            ) is None),
            parsed matches Err(ParseFailure::Syntax { location, .. }) ==> Some(location)
                == failure_place(grammar_answer(rule, text@)),
    {
        Self::tree_of(grammar_rule(rule, text), text)
    }

    /// Whether the offset `pos` of a document with the text `text` stands in a comment.
    pub fn is_comment(text: &str, pos: usize) -> (inside: bool)
        ensures
            inside == comment_at(text@, pos as int),
    {
        in_comment(text, pos)
    }

    /// Parses `text` as a whole document.
    pub fn parse_program(text: &str) -> (parsed: Result<Cst, ParseFailure>)
        ensures
            parsed is Ok <==> accepted(program_nodes(text@), text@),
            parsed matches Ok(tree) ==> Some(tree.listed()) == program_nodes(text@)
                && tree.child_spans() == child_spans(program_nodes(text@)->0, 0),
            parsed matches Err(failure) ==> (failure is Syntax <==> program_nodes(text@) is None),
            parsed matches Err(ParseFailure::Syntax { location, .. }) ==> Some(location)
                == failure_place(program_answer(text@)),
    {
        Self::tree_of(grammar_program(text), text)
    }
}

/// A place in a text: the byte offset with its line and its column in UTF-16 code units.
#[derive(Debug, Clone, Copy, PartialEq, Eq, Structural)]
pub struct CstPosition {
    pub byte: usize,
    pub line: u32,
    pub character: u32,
}

/// A stretch of a text between two places.
#[derive(Debug, Clone, Copy, PartialEq, Eq, Structural)]
pub struct CstRange {
    pub start: CstPosition,
    pub end: CstPosition,
}

/// Whether `a` comes before `b` in a text, or is the same position.
pub open spec fn not_after(a: Position, b: Position) -> bool {
    a.line < b.line || (a.line == b.line && a.character <= b.character)
}

/// The place of an offset in a text, where the offset has a position.
pub open spec fn place_at(text: Seq<char>, byte: int) -> Option<CstPosition> {
    match position_at(encode_utf8(text), byte) {
        Some(position) => Some(
            CstPosition { byte: byte as usize, line: position.line, character: position.character },
        ),
        None => None,
    }
}

/// The range of a span in a text, where both ends have a position.
pub open spec fn range_between(text: Seq<char>, span: Span) -> Option<CstRange> {
    match (place_at(text, span.start as int), place_at(text, span.end as int)) {
        (Some(start), Some(end)) => Some(CstRange { start, end }),
        _ => None,
    }
}

impl CstPosition {
    /// The place of an offset in a text.
    pub fn at(text: &str, byte: usize) -> (place: Option<CstPosition>)
        ensures
            place == place_at(text@, byte as int),
    {
        match offset_to_position(text, byte) {
            Some(position) => Some(
                CstPosition { byte, line: position.line, character: position.character },
            ),
            None => None,
        }
    }

    /// The line and the column of the place.
    pub fn position(&self) -> (position: Position)
        ensures
            position == (Position { line: self.line, character: self.character }),
    {
        Position { line: self.line, character: self.character }
    }
}

impl CstRange {
    /// The range of a span in a text.
    pub fn of(text: &str, span: Span) -> (range: Option<CstRange>)
        ensures
            range == range_between(text@, span),
    {
        match CstPosition::at(text, span.start) {
            Some(start) => match CstPosition::at(text, span.end) {
                Some(end) => Some(CstRange { start, end }),
                None => None,
            },
            None => None,
        }
    }

    /// Whether a position lies in the range. Both ends count.
    pub fn includes(&self, pos: &Position) -> (inside: bool)
        ensures
            inside == (not_after(
                Position { line: self.start.line, character: self.start.character },
                *pos,
            ) && not_after(*pos, Position { line: self.end.line, character: self.end.character })),
    {
        let after_start = self.start.line < pos.line || (self.start.line == pos.line
            && self.start.character <= pos.character);
        let before_end = pos.line < self.end.line || (pos.line == self.end.line && pos.character
            <= self.end.character);
        after_start && before_end
    }
}

/// The name of a rule kind, as `satysfi-parser` prints it.
pub uninterp spec fn rule_label(rule: Rule) -> Seq<char>;

/// The `Debug` output of a rule kind of `satysfi-parser`: the name of the rule.
#[verifier::external_body]
fn rule_name(rule: Rule) -> (name: String)
    ensures
        name@ == rule_label(rule),
{
    format!("{:?}", rule)
}

/// `n` spaces.
pub open spec fn spaces(n: nat) -> Seq<char> {
    Seq::new(n, |i: int| ' ')
}

/// A range as a listing shows it: line and column of both ends, or `(?)` where the range
/// is not known.
pub open spec fn shown_range(range: Option<CstRange>) -> Seq<char> {
    match range {
        Some(range) => "("@ + digits(range.start.line as nat) + ":"@ + digits(
            range.start.character as nat,
        ) + ".."@ + digits(range.end.line as nat) + ":"@ + digits(range.end.character as nat)
            + ")"@,
        None => "(?)"@,
    }
}

/// The head of the line of a node in a listing.
pub open spec fn shown_head(node: Cst, text: Seq<char>, indent: nat) -> Seq<char> {
    spaces(indent) + if node.inner@.len() == 0 {
        "| ["@
    } else {
        "- ["@
    } + rule_label(node.rule) + "] "@ + shown_range(range_between(text, node.span))
}

/// The indent of the children of a node with the indent `indent`.
pub open spec fn deeper(indent: nat) -> nat {
    if indent + 2 <= usize::MAX {
        indent + 2
    } else {
        indent
    }
}

impl Cst {
    /// The listing of a node and of its first `n` children.
    pub open spec fn pretty_upto(&self, text: Seq<char>, indent: nat, n: nat) -> Seq<char>
        decreases self, n,
    {
        if n == 0 || n > self.inner@.len() {
            if self.inner@.len() == 0 {
                shown_head(*self, text, indent) + ": \""@ + text_of(text, self.span) + "\"\n"@
            } else {
                shown_head(*self, text, indent) + "\n"@
            }
        } else {
            self.pretty_upto(text, indent, (n - 1) as nat) + self.inner@[n - 1].pretty_upto(
                text,
                deeper(indent),
                self.inner@[n - 1].inner@.len(),
            )
        }
    }

    /// The listing of a tree: a line for each node, with its kind and its range; a node
    /// without children shows its text, and the children of a node stand below it, two
    /// spaces further in.
    pub open spec fn pretty(&self, text: Seq<char>, indent: nat) -> Seq<char> {
        self.pretty_upto(text, indent, self.inner@.len())
    }

    /// The listing of the tree.
    pub fn pretty_text(&self, text: &str, indent: usize) -> (listing: String)
        ensures
            listing@ == self.pretty(text@, indent as nat),
        decreases self,
    {
        let mut listing = String::new();
        let mut i: usize = 0;
        while i < indent
            invariant
                0 <= i <= indent,
                listing@ =~= spaces(i as nat),
            decreases indent - i,
        {
            listing.append(" ");
            proof {
                reveal_strlit(" ");
                assert(spaces(i as nat) + " "@ =~= spaces((i + 1) as nat));
            }
            i = i + 1;
        }
        if self.inner.len() == 0 {
            listing.append("| [");
        } else {
            listing.append("- [");
        }
        listing.append(rule_name(self.rule).as_str());
        listing.append("] ");
        match CstRange::of(text, self.span) {
            Some(range) => {
                listing.append("(");
                listing.append(decimal(range.start.line as usize).as_str());
                listing.append(":");
                listing.append(decimal(range.start.character as usize).as_str());
                listing.append("..");
                listing.append(decimal(range.end.line as usize).as_str());
                listing.append(":");
                listing.append(decimal(range.end.character as usize).as_str());
                listing.append(")");
            },
            None => {
                listing.append("(?)");
            },
        }
        proof {
            assert(listing@ =~= shown_head(*self, text@, indent as nat));
        }
        if self.inner.len() == 0 {
            listing.append(": \"");
            listing.append(self.as_str(text));
            listing.append("\"\n");
            return listing;
        }
        listing.append("\n");
        let below = if indent <= usize::MAX - 2 {
            indent + 2
        } else {
            indent
        };
        let mut k: usize = 0;
        while k < self.inner.len()
            invariant
                0 <= k <= self.inner@.len(),
                self.inner@.len() > 0,
                below == deeper(indent as nat),
                listing@ == self.pretty_upto(text@, indent as nat, k as nat),
            decreases self.inner@.len() - k,
        {
            let child = self.inner[k].pretty_text(text, below);
            listing.append(child.as_str());
            k = k + 1;
        }
        listing
    }
}

impl Cst {
    /// Whether the spans of the node and of its first `n` children are nested in one
    /// another in the order of the text, and those of the nodes below them as well.
    pub open spec fn nested_upto(&self, n: nat) -> bool
        decreases self, n,
    {
        if n == 0 || n > self.inner@.len() {
            self.span.start <= self.span.end
        } else {
            let child = self.inner@[n - 1];
            &&& self.nested_upto((n - 1) as nat)
            &&& child.nested_upto(child.inner@.len())
            &&& self.span.encloses(child.span)
            &&& n >= 2 ==> self.inner@[n - 2].span.end <= child.span.start
        }
    }

    /// Whether the tree is laid out as the text is: no span ends before it starts, the
    /// span of a node encloses those of its children, and no child starts before the one
    /// before it ends.
    pub open spec fn nested(&self) -> bool {
        self.nested_upto(self.inner@.len())
    }

    /// Whether the tree is laid out as the text is.
    pub fn is_nested(&self) -> (ok: bool)
        ensures
            ok == self.nested(),
        decreases self,
    {
        if self.span.start > self.span.end {
            proof {
                if self.nested() {
                    self.lemma_nested_own(self.inner@.len());
                }
            }
            return false;
        }
        let mut k: usize = 0;
        while k < self.inner.len()
            invariant
                0 <= k <= self.inner@.len(),
                self.nested_upto(k as nat),
            decreases self.inner@.len() - k,
        {
            let child = &self.inner[k];
            let fits = child.is_nested() && self.span.contains(&child.span) && (k == 0
                || self.inner[k - 1].span.end <= child.span.start);
            if !fits {
                proof {
                    if self.nested() {
                        self.lemma_nested_child(k as int, self.inner@.len());
                    }
                }
                return false;
            }
            k = k + 1;
        }
        true
    }

    proof fn lemma_nested_own(&self, n: nat)
        requires
            n <= self.inner@.len(),
            self.nested_upto(n),
        ensures
            self.span.start <= self.span.end,
        decreases n,
    {
        if n > 0 {
            self.lemma_nested_own((n - 1) as nat);
        }
    }

    /// In a tree that is laid out as the text is, each child is so too, lies in the span
    /// of its parent, and starts where the child before it has ended.
    pub proof fn lemma_nested_child(&self, k: int, n: nat)
        requires
            0 <= k < n <= self.inner@.len(),
            self.nested_upto(n),
        ensures
            self.span.start <= self.span.end,
            self.inner@[k].nested(),
            self.inner@[k].span.start <= self.inner@[k].span.end,
            self.span.encloses(self.inner@[k].span),
            k >= 1 ==> self.inner@[k - 1].span.end <= self.inner@[k].span.start,
        decreases n,
    {
        self.lemma_nested_own(n);
        if k < n - 1 {
            self.lemma_nested_child(k, (n - 1) as nat);
        } else {
            self.inner@[k].lemma_nested_own(self.inner@[k].inner@.len());
        }
    }

    /// In a tree that is laid out as the text is, a child ends before a later child
    /// starts.
    pub proof fn lemma_nested_siblings(&self, i: int, j: int)
        requires
            0 <= i < j < self.inner@.len(),
            self.nested(),
        ensures
            self.inner@[i].span.end <= self.inner@[j].span.start,
        decreases j - i,
    {
        self.lemma_nested_child(j, self.inner@.len());
        if i < j - 1 {
            self.lemma_nested_siblings(i, j - 1);
            self.lemma_nested_child(j - 1, self.inner@.len());
            self.inner@[j - 1].lemma_nested_own(self.inner@[j - 1].inner@.len());
        }
    }

    /// In a tree that is laid out as the text is, the nodes below a node lie in its span.
    pub proof fn lemma_nested_picked(&self, rule: Rule, n: nat, i: int)
        requires
            n <= self.inner@.len(),
            self.nested(),
            0 <= i < self.picked_upto(rule, n).len(),
        ensures
            self.span.encloses(self.picked_upto(rule, n)[i].span),
            self.picked_upto(rule, n)[i].span.start <= self.picked_upto(rule, n)[i].span.end,
        decreases self, n,
    {
        if n > 0 {
            let child = self.inner@[n - 1];
            let before = self.picked_upto(rule, (n - 1) as nat);
            let own = if child.rule == rule {
                seq![child]
            } else {
                Seq::empty()
            };
            let below = child.picked_upto(rule, child.inner@.len());
            self.lemma_nested_child(n - 1, self.inner@.len());
            if i < before.len() {
                self.lemma_nested_picked(rule, (n - 1) as nat, i);
            } else if i < before.len() + own.len() {
                child.lemma_nested_own(child.inner@.len());
            } else {
                child.lemma_nested_picked(rule, child.inner@.len(), i - before.len() - own.len());
                child.lemma_nested_own(child.inner@.len());
            }
        }
    }
}

} // verus!
