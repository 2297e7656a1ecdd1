use arn::ast::{to_ast, AstError};
use arn::build_ast;
use arn::lexer::{lex, LexError};
use arn::ops::lookup;
use arn::postfix::{sum_rank, to_postfix};
use arn::tokens::{Node, Num, Token};
use arn::values::traverse_replace;
use arn::BuildError;

fn show(nodes: &[Node]) -> String {
    let mut out = String::new();
    for n in nodes {
        match n {
            Node::Op(s, l, r) => out.push_str(&format!("({} {}| {}) ", s, show(l), show(r))),
            Node::String(s) => out.push_str(&format!("\"{}\" ", s)),
            Node::CmpString(s, c) => out.push_str(&format!("{}{}{} ", c, s, c)),
            Node::Number(n) => out.push_str(&format!("{} ", n.text)),
            Node::Variable(s) => out.push_str(&format!("{} ", s)),
            Node::Group(b) => out.push_str(&format!("G[ {}] ", show(b))),
            Node::Block(b, name) => {
                let name = name.clone().unwrap_or_default();
                out.push_str(&format!("B{}[ {}] ", name, show(b)))
            }
            Node::Sequence(e, b, l) => {
                let len = match l {
                    Some(l) => show(std::slice::from_ref(&**l)),
                    None => "inf ".to_string(),
                };
                out.push_str(&format!(
                    "S[ {}; {}; {}] ",
                    show(e),
                    show(std::slice::from_ref(&**b)),
                    len
                ))
            }
        }
    }
    out
}

fn tokens(source: &str) -> String {
    let t = to_postfix(&lex(source).unwrap()).unwrap();
    let mut out = String::new();
    for t in &t {
        match t {
            Token::String(s) => out.push_str(&format!("\"{}\" ", s)),
            Token::CmpString(s, _) => out.push_str(&format!("`{}` ", s)),
            Token::Number(n) => out.push_str(&format!("{} ", n.text)),
            Token::Variable(s) => out.push_str(&format!("{} ", s)),
            Token::Block(_, c, _) => out.push_str(&format!("{}.. ", c)),
            Token::Operator(s, _) => out.push_str(&format!("{} ", s)),
            Token::Comma => out.push_str(", "),
        }
    }
    out
}

#[test]
fn the_postfix_form_follows_precedence() {
    assert_eq!(tokens("3+4*2"), "3 4 2 * + ");
    assert_eq!(tokens("3*4+2"), "3 4 * 2 + ");
    assert_eq!(tokens("1,2"), "1 2 ");
    assert_eq!(tokens("1+2,3*4"), "1 2 + 3 4 * ");
    assert_eq!(tokens("+"), "_ _ + ");
    assert_eq!(tokens("!1"), "1 ! ");
    assert_eq!(tokens("3#"), "3 # ");
    assert_eq!(tokens("+\\[1]"), "_ _ + [.. \\ ");
    assert_eq!(tokens(""), "");
    assert_eq!(tokens(",,"), "");
}

#[test]
fn the_tree_has_each_operator_with_its_operands() {
    assert_eq!(show(&build_ast("3+4*2").unwrap()), "(+ 3 | (* 4 | 2 ) ) ");
    assert_eq!(show(&build_ast("(1)").unwrap()), "G[ 1 ] ");
    assert_eq!(show(&build_ast("v{v}").unwrap()), "Bv[ v ] ");
    assert_eq!(show(&build_ast("[1,2]").unwrap()), "S[ 1 2 ; B[ ] ; 2 ] ");
    assert_eq!(show(&build_ast("[1,{_}]").unwrap()), "S[ 1 ; B[ _ ] ; inf ] ");
    assert_eq!(
        show(&build_ast("[1,{_}->5]").unwrap()),
        "S[ 1 ; B[ _ ] ; 5 ] "
    );
    assert_eq!(show(&build_ast("[1->5]").unwrap()), "S[ (-> 1 | 5 ) ; B[ ] ; 1 ] ");
    assert_eq!(show(&build_ast("[]").unwrap()), "S[ ; B[ ] ; 0 ] ");
    assert_eq!(show(&build_ast("`ab`").unwrap()), "`ab` ");
    assert_eq!(show(&build_ast("&.{_}1 2").unwrap()), "(&. | B[ _ ] 1 2 ) ");
    assert_eq!(show(&build_ast("5??(1){_}").unwrap()), "(?? 5 | G[ 1 ] B[ _ ] ) ");
}

fn arity_holds(nodes: &[Node]) -> bool {
    nodes.iter().all(|n| match n {
        Node::Op(s, l, r) => {
            let info = lookup(&s.chars().collect()).unwrap();
            l.len() == info.left as usize
                && r.len() == info.right as usize
                && arity_holds(l)
                && arity_holds(r)
        }
        Node::Group(b) | Node::Block(b, _) => arity_holds(b),
        Node::Sequence(e, b, l) => {
            arity_holds(e)
                && arity_holds(std::slice::from_ref(&**b))
                && l.as_ref().map_or(true, |l| arity_holds(std::slice::from_ref(&**l)))
        }
        _ => true,
    })
}

#[test]
fn every_operator_node_has_the_arity_of_its_operator() {
    let programs = [
        "3+4*2",
        "+",
        "+,*,-",
        "++--",
        "&.",
        "??",
        "$",
        "a:=b.c^d",
        "[1,{_+p?(#p--2)}->10]",
        "(:-#&%2=0)&&:-(((:<)?(--:-#))+((:<)?:-#))||(:<)?:v:-#",
        ":/((@v{:*(v-me)}).me)",
        ":{@a{:}@a<>}&:_",
        "*\\(~||[1])",
        "(+\\)/(#)",
        "1 2 3 + + +",
        "# # #",
        "! ! !",
        ":= := :=",
        "{{{+}}}",
        "\"a\"+`b`+'c'",
    ];
    for p in programs {
        match build_ast(p) {
            Ok(nodes) => assert!(arity_holds(&nodes), "{}", p),
            Err(e) => panic!("{} gave {:?}", p, e),
        }
    }
}

#[test]
fn lexing_answers_for_every_text() {
    let texts = [
        "",
        " ",
        "\n\n",
        "\"",
        "\"\\\"",
        "'",
        "`",
        "(((((",
        "{.}",
        "{:}",
        "{a.}",
        "\u{2192}",
        "a\u{2192}b",
        "\u{a7}\u{a7}",
        "_e_e_",
        "1e",
        "e",
        "__",
        "z",
        "zz",
        "\\",
        ":\\",
        "\t",
        "\u{1F600}",
        "a\"b",
        "a(b",
        "9999999999999999999999999999999999999999",
    ];
    for t in texts {
        match lex(t) {
            Ok(_) => {}
            Err(LexError::MissingOpener(_)) | Err(LexError::MissingCloser(_)) => {}
        }
    }
    assert_eq!(lex(")").err(), Some(LexError::MissingOpener(')')));
    assert_eq!(lex("1]").err(), Some(LexError::MissingOpener(']')));
    assert_eq!(lex("a}").err(), Some(LexError::MissingOpener('}')));
    assert_eq!(lex("{{").err(), Some(LexError::MissingCloser('}')));
    assert_eq!(lex("{1}").err(), None);
    assert_eq!(lex("{1").err(), Some(LexError::MissingCloser('}')));
    assert_eq!(lex("(1").err(), Some(LexError::MissingCloser(')')));
    assert_eq!(lex("[").err(), Some(LexError::MissingCloser(']')));
    assert_eq!(lex("{a.}").err(), Some(LexError::MissingCloser('}')));
    assert_eq!(lex("(1)(2").err(), Some(LexError::MissingCloser(')')));
    assert_eq!(build_ast("(((").err(), Some(BuildError::Lex(LexError::MissingCloser(')'))));
    assert_eq!(lex("({1)").err(), Some(LexError::MissingCloser('}')));
    assert_eq!(lex("[(1]").err(), Some(LexError::MissingCloser(')')));
    assert_eq!(lex("(1))").err(), Some(LexError::MissingOpener(')')));
    assert_eq!(lex("(1}").err(), Some(LexError::MissingCloser(')')));
    assert_eq!(lex("1+(2*{3}").err(), Some(LexError::MissingCloser(')')));
    assert_eq!(lex("(1)+{2}+[3]").err(), None);
}

fn op(s: &str, l: i32, r: i32) -> Token {
    Token::Operator(s.to_string(), (l, r))
}

fn n(t: &str) -> Token {
    Token::Number(Num { text: t.to_string() })
}

#[test]
fn a_token_list_that_is_no_postfix_form_is_refused() {
    assert_eq!(to_ast(&[op("+", 1, 1)]).err(), Some(AstError::MissingOperand));
    assert_eq!(to_ast(&[n("1"), op("+", 1, 1)]).err(), Some(AstError::MissingOperand));
    assert_eq!(to_ast(&[n("1"), Token::Comma]).err(), Some(AstError::UnexpectedComma));
    assert_eq!(
        to_ast(&[Token::Block(Vec::new(), '<', None)]).err(),
        Some(AstError::UnknownBracket('<'))
    );
    assert_eq!(show(&to_ast(&[n("1"), n("2"), op("+", 1, 1)]).unwrap()), "(+ 1 | 2 ) ");
    assert_eq!(show(&to_ast(&[n("1"), op("x", -1, 0)]).unwrap()), "1 (x | ) ");
}

#[test]
fn ranks_are_summed() {
    assert_eq!(sum_rank(0, &[]), 0);
    assert_eq!(sum_rank(2, &[n("1"), op("+", 1, 1), op("&.", 0, 3), Token::Comma]), 7);
    assert_eq!(sum_rank(-1, &[op("x", -2, 1)]), -2);
}

#[test]
fn entries_replace_the_implicit_argument_from_the_end() {
    let tree = build_ast("{_+_*x}").unwrap().remove(0);
    let mut entries = vec![
        Node::Number(Num { text: "1".to_string() }),
        Node::Number(Num { text: "2".to_string() }),
        Node::Number(Num { text: "3".to_string() }),
    ];
    let replaced = traverse_replace(&mut entries, &tree).unwrap();
    assert_eq!(show(&[replaced]), "B[ (+ 3 | (* 2 | x ) ) ] ");
    assert_eq!(entries.len(), 1);
    let mut few = vec![Node::Number(Num { text: "1".to_string() })];
    assert!(traverse_replace(&mut few, &tree).is_none());
    let mut any = vec![Node::Number(Num { text: "1".to_string() })];
    let sequence = build_ast("[1]").unwrap().remove(0);
    assert!(traverse_replace(&mut any, &sequence).is_none());
}

fn operators_of(tokens: &[Token]) -> Vec<String> {
    let mut found: Vec<String> = Vec::new();
    for t in tokens {
        if let Token::Operator(s, rank) = t {
            found.push(format!("{} {} {}", s, rank.0, rank.1));
        }
    }
    found.sort();
    found
}

fn operands_of(tokens: &[Token]) -> Vec<String> {
    let mut found: Vec<String> = Vec::new();
    for t in tokens {
        match t {
            Token::Operator(_, _) | Token::Comma => {}
            Token::Block(body, c, name) => {
                let body = to_postfix(body).unwrap();
                found.push(format!("{:?}", Token::Block(body, *c, name.clone())));
            }
            other => found.push(format!("{:?}", other)),
        }
    }
    found
}

/// Whether `b` is `a` with implicit arguments put in.
fn padded(a: &[String], b: &[String]) -> bool {
    let implicit = format!("{:?}", Token::Variable("_".to_string()));
    let mut i: usize = 0;
    for t in b {
        if i < a.len() && a[i] == *t {
            i += 1;
        } else if *t != implicit {
            return false;
        }
    }
    i == a.len()
}

#[test]
fn the_postfix_form_keeps_the_operators_and_the_order_of_the_rest() {
    let sources = [
        "3+4*2",
        "1+2,3*4",
        "+\\[1 2 3]",
        "x:=5,++x,++x,x",
        "(1+2)*3",
        "{_+1}@[1 2 3]",
        "#",
        "+",
        "a+_*b",
        "",
    ];
    for source in sources {
        let lexed = lex(source).unwrap();
        let converted = to_postfix(&lexed).unwrap();
        assert_eq!(operators_of(&converted), operators_of(&lexed), "{}", source);
        let kept: Vec<String> = converted
            .iter()
            .filter(|t| !matches!(t, Token::Operator(_, _)))
            .map(|t| format!("{:?}", t))
            .collect();
        assert!(padded(&operands_of(&lexed), &kept), "{}", source);
        assert!(converted.iter().all(|t| !matches!(t, Token::Comma)), "{}", source);
    }
    let lexed = lex("3+4*2").unwrap();
    assert_eq!(operators_of(&lexed), vec!["* 1 1".to_string(), "+ 1 1".to_string()]);
    assert_eq!(operands_of(&lexed).len(), 3);
    assert!(!padded(&operands_of(&lex("1+2").unwrap()), &operands_of(&lex("2+1").unwrap())));
}

#[test]
fn an_operator_node_takes_what_its_token_counts() {
    assert_eq!(
        show(&to_ast(&[n("1"), n("2"), n("3"), op("+", 2, 1)]).unwrap()),
        "(+ 1 2 | 3 ) "
    );
    assert_eq!(
        show(&to_ast(&[n("1"), n("2"), n("3"), op("+", 0, 2)]).unwrap()),
        "1 (+ | 2 3 ) "
    );
    assert_eq!(
        show(&to_ast(&[n("1"), n("2"), n("3"), op("zz", 3, 0)]).unwrap()),
        "(zz 1 2 3 | ) "
    );
    assert_eq!(to_ast(&[n("1"), n("2"), op("+", 2, 1)]).err(), Some(AstError::MissingOperand));
    let inner = Token::Block(vec![n("1"), n("2"), op("-", 1, 1)], '(', None);
    assert_eq!(show(&to_ast(&[inner, op("!", 1, 0)]).unwrap()), "(! G[ (- 1 | 2 ) ] | ) ");
}
