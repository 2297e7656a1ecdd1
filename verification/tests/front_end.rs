use arn::lexer::{lex, LexError};
use arn::num::{is_arn_num, parse_arn_num};
use arn::tokens::Token;

fn show(tokens: &[Token]) -> String {
    let mut out = String::new();
    for t in tokens {
        match t {
            Token::String(s) => out.push_str(&format!("S({}) ", s)),
            Token::CmpString(s, c) => out.push_str(&format!("C({},{}) ", s, c)),
            Token::Number(n) => out.push_str(&format!("N({}) ", n.text)),
            Token::Variable(s) => out.push_str(&format!("V({}) ", s)),
            Token::Block(body, c, name) => {
                let name = match name {
                    Some(n) => n.clone(),
                    None => String::new(),
                };
                out.push_str(&format!("B{}{}[ {}] ", c, name, show(body)));
            }
            Token::Operator(s, rank) => out.push_str(&format!("O({},{},{}) ", s, rank.0, rank.1)),
            Token::Comma => out.push_str(", "),
        }
    }
    out
}

#[test]
fn numbers_of_the_language() {
    assert!(is_arn_num("42"));
    assert!(is_arn_num("_3"));
    assert!(is_arn_num("1e_2"));
    assert!(is_arn_num("_e3"));
    assert!(is_arn_num("_"));
    assert!(!is_arn_num(""));
    assert!(!is_arn_num("1_"));
    assert!(!is_arn_num("1e2e3"));
    assert!(!is_arn_num("a"));
    assert!(!is_arn_num("__1"));
}

#[test]
fn numerals_are_rewritten() {
    assert_eq!(parse_arn_num("42").text, "42");
    assert_eq!(parse_arn_num("_3").text, "-3");
    assert_eq!(parse_arn_num("1e_2").text, "1e-2");
    assert_eq!(parse_arn_num("_e3").text, "-1e3");
    assert_eq!(parse_arn_num("e5").text, "1e5");
}

#[test]
fn lex_arithmetic() {
    let tokens = lex("3+4*2").unwrap();
    assert_eq!(show(&tokens), "N(3) O(+,1,1) N(4) O(*,1,1) N(2) ");
}

#[test]
fn lex_inserts_the_implicit_argument() {
    assert_eq!(show(&lex("+").unwrap()), "V(_) O(+,1,1) V(_) ");
    assert_eq!(show(&lex("+2").unwrap()), "V(_) O(+,1,1) N(2) ");
    assert_eq!(show(&lex("1,+2").unwrap()), "N(1) , V(_) O(+,1,1) N(2) ");
    assert_eq!(show(&lex("_").unwrap()), "V(_) ");
}

#[test]
fn lex_strings_and_groups() {
    assert_eq!(show(&lex("\"abc\"^3").unwrap()), "S(abc) O(^,1,1) N(3) ");
    assert_eq!(show(&lex("\"a\\\"b\"").unwrap()), "S(a\"b) ");
    assert_eq!(show(&lex("(1=>10)").unwrap()), "B([ N(1) O(=>,1,1) N(10) ] ");
    assert_eq!(show(&lex("v{v+1}").unwrap()), "B{v[ V(v) O(+,1,1) N(1) ] ");
    assert_eq!(show(&lex("[1,2,3]").unwrap()), "B[[ N(1) , N(2) , N(3) ] ");
    assert_eq!(show(&lex("`ab`").unwrap()), "C(ab,`) ");
    assert_eq!(show(&lex("((1))").unwrap()), "B([ B([ N(1) ] ] ");
    assert_eq!(show(&lex("`ab").unwrap()), "C(ab,`) ");
    assert_eq!(show(&lex("\"ab").unwrap()), "S(ab) ");
}

#[test]
fn lex_newline_is_a_comma() {
    assert_eq!(show(&lex("1\n2").unwrap()), "N(1) , N(2) ");
}

#[test]
fn lex_reports_unmatched_groups() {
    assert_eq!(lex("1)").err(), Some(LexError::MissingOpener(')')));
    assert_eq!(lex("((1").err(), Some(LexError::MissingCloser(')')));
    assert_eq!(lex("[[1").err(), Some(LexError::MissingCloser(']')));
}
