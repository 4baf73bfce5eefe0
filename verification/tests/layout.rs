use satysfi_language_server::documents::{DocumentData, Packages};
use satysfi_language_server::parser::{listing_fits, Cst, RawNode, SatysfiParser, Span};
use satysfi_parser::Rule as R;

const SAMPLES: [&str; 8] = [
    "@stage: 1\n@require: stdjabook\n@require: base/list-ext\n@import: local/thing\n\nlet x = 1\nlet-rec fact n = if n <= 0 then 1 else n * fact (n - 1)\nlet other ?:opt (a, b) [c; d] = (| key = a; rest = b |)\nlet-mutable counter <- 0\n",
    "type 'a tree = Leaf | Node of 'a * 'a tree * 'a tree\ntype point = (| x : length; y : length |)\ntype 'a wrap = 'a list constraint 'a :: (| size : int |)\nlet f t = match t with | Leaf -> 0 | Node(v, l, r) when v > 0 -> 1 | _ -> 2\n",
    "module Sample : sig\n  type t\n  val make : int -> t\n  val (+++) : t -> t -> t\n  direct \\emph : [inline-text] inline-cmd\n  direct +para : [bool?; inline-text] block-cmd\n  val \\frac : [math; math] math-cmd\nend = struct\n  type t = int\n  let make n = n\n  let (+++) a b = a + b\n  let-inline ctx \\emph it = read-inline ctx it\n  let-block ctx +para ?:indent it = line-break true true ctx (read-inline ctx it)\n  let-math \\frac a b = math-frac a b\n  module Inner = struct\n    let deep = 1\n  end\nend\nopen Sample\nlet y = Sample.make 3\nlet z = Sample.(make 1 +++ make 2)\n",
    "@require: stdjabook\n\nlet-inline \\greet name = {Hello, #name;!}\nlet-inline ctx \\list items = {|a|b|c|}\nlet-block +section title body = '<>\nin\n\ndocument (|\n  title = {A \\emph{sample} text};\n  author = {me};\n|) '<\n  +section{One}<\n    +p{Some \\emph{text} with ${x^2 + y_i} and `code` and \\greet(`you`);}\n    +p{\n      * first\n      * second\n        ** nested\n    }\n    +pn?:(true){Escaped \\{ and \\} and \\\\ and \\@}\n  >\n  #body;\n>\n",
    "let f = fun x y -> x + y\nlet g = let a = 1 in let b = 2 in open List in a + b\nlet h = while true do counter <- !counter + 1\nlet i = not true && (-1 < 2) || false\nlet j = [1; 2; 3;]\nlet k = (1, 2.5, 3pt, `s`, ())\nlet l = (| a with b = 1 |)\nlet m = x |> f |> g\nlet n = command \\emph\nlet o = Some(1) :: []\n",
    "let-math \\sum = ${\\sigma_{i=0}^{n} a_i}\nlet eq = ${x = \\frac{a}{b} + \\sqrt!(1pt){c}}\nlet ms = ${|a|b|c|}\n",
    "% a comment at the start\nlet x = 1 % a comment behind a binding\n% another\nlet y = {text % in text\n  more}\n",
    "let x = {あいう 😀 \\emph{え}}\nlet y = `あ`\n",
];

fn tree_of(text: &str) -> Option<Cst> {
    match SatysfiParser::parse_program(text) {
        Ok(tree) => Some(tree),
        Err(failure) => {
            println!("no tree: {:?}\n{}", failure, text);
            None
        }
    }
}

#[test]
fn the_trees_of_the_grammar_are_laid_out_as_the_text_is() {
    let mut parsed = 0;
    for text in SAMPLES {
        let tree = match tree_of(text) {
            Some(tree) => tree,
            None => continue,
        };
        parsed += 1;
        assert!(tree.is_nested(), "not nested:\n{}", tree.pretty_text(text, 0));
        let data = DocumentData::new(text, "file:///work/doc.saty", None, &Packages {
            home: None,
            files: vec![],
        });
        assert!(matches!(data, DocumentData::Parsed { .. }), "not parsed: {}", text);
    }

    assert_eq!(parsed, SAMPLES.len());
}

#[test]
fn a_tree_that_is_not_laid_out_as_the_text_is() {
    let node = |rule, start, end, children| RawNode { rule, start, end, children };
    // A child that leaves the span of its parent.
    let sticking_out = vec![node(R::expr, 0, 2, 1), node(R::var, 1, 3, 0)];
    assert!(listing_fits(&sticking_out, "abc"));
    assert!(!Cst::from_listing(&sticking_out).unwrap().is_nested());
    // Children in the wrong order.
    let swapped = vec![node(R::expr, 0, 3, 2), node(R::var, 2, 3, 0), node(R::var, 0, 1, 0)];
    assert!(!Cst::from_listing(&swapped).unwrap().is_nested());
    // A span that ends before it starts.
    let backwards = Cst { rule: R::var, span: Span { start: 2, end: 1 }, inner: vec![] };
    assert!(!backwards.is_nested());
    let fine = vec![node(R::expr, 0, 3, 2), node(R::var, 0, 1, 0), node(R::var, 1, 3, 0)];
    assert!(Cst::from_listing(&fine).unwrap().is_nested());
}
