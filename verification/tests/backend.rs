use arn::back::{collect_back_seq, seq_step_back};
use arn::build_ast;
use arn::eval::{collect_seq, parse_node, parse_op, seq_step};
use arn::machine::{
    answer_pick, Answer, BinaryOp, ErrorKind, Machine, Order, Request, Stop, UnaryOp,
};
use arn::order::order_values;
use arn::run::{parse, Options, Outcome};
use arn::scalar::equal_values;
use arn::tokens::{Node, Num};
use arn::types::{Dynamic, Environment, Sequence, Val};

fn value(n: &Num) -> f64 {
    n.text.parse::<f64>().unwrap()
}

fn numeral(x: f64) -> Num {
    Num { text: format!("{}", x) }
}

fn significant(x: f64, digits: usize) -> String {
    if x == 0.0 {
        return format!("{:.*}", digits.saturating_sub(1), 0.0);
    }
    let exponent = x.abs().log10().floor() as i64;
    if exponent < 0 || exponent >= digits as i64 {
        let mantissa = x / 10f64.powi(exponent as i32);
        format!("{:.*}e{}", digits - 1, mantissa, exponent)
    } else {
        format!("{:.*}", digits - 1 - exponent as usize, x)
    }
}

fn answer(request: &Request) -> Answer {
    match request {
        Request::Parse(text) => match text.parse::<f64>() {
            Ok(x) => Answer::Number(numeral(x)),
            Err(_) => Answer::Invalid,
        },
        Request::Unary(op, a) => {
            let a = value(a);
            Answer::Number(numeral(match op {
                UnaryOp::Floor => a.floor(),
                UnaryOp::Ceil => a.ceil(),
                UnaryOp::Abs => a.abs(),
                UnaryOp::Sqrt => a.sqrt(),
                UnaryOp::Square => a * a,
            }))
        }
        Request::Binary(op, a, b) => {
            let (a, b) = (value(a), value(b));
            Answer::Number(numeral(match op {
                BinaryOp::Add => a + b,
                BinaryOp::Sub => a - b,
                BinaryOp::Mul => a * b,
                BinaryOp::Div => a / b,
                BinaryOp::Rem => a % b,
            }))
        }
        Request::Compare(a, b) => {
            let (a, b) = (value(a), value(b));
            Answer::Order(if a < b {
                Order::Less
            } else if a > b {
                Order::Greater
            } else if a == b {
                Order::Equal
            } else {
                Order::Unordered
            })
        }
        Request::IsInteger(a) => Answer::Flag(value(a).fract() == 0.0),
        Request::ToU32(a) => {
            let a = value(a);
            if a.is_nan() {
                Answer::Invalid
            } else {
                Answer::Count(a.floor().max(0.0).min(u32::MAX as f64) as u32)
            }
        }
        Request::Format(a, digits) => Answer::Text(significant(value(a), *digits)),
        Request::Pi => Answer::Number(numeral(std::f64::consts::PI)),
        Request::Pick(_) => Answer::Index(0),
    }
}

fn options() -> Options {
    Options {
        one_ten: false,
        one_hundred: false,
        rangeify: false,
        zero_range: false,
        first: false,
        last: false,
        index: false,
        sum: false,
        size: false,
        not: false,
        output_precision: 4,
        depth: 200,
        fuel: 100_000,
    }
}

fn run_with(source: &str, input: &str, options: &Options) -> Result<String, String> {
    let ast = build_ast(source).map_err(|e| format!("{:?}", e))?;
    let mut answers: Vec<Answer> = Vec::new();
    loop {
        match parse(&ast, options, input, answers.clone(), Vec::new()) {
            Outcome::Done(out) => return Ok(out),
            Outcome::Need(request, _) => answers.push(answer(&request)),
            Outcome::Failed(e, _) => return Err(format!("{:?}: {}", e.kind, e.detail)),
            Outcome::Exhausted(_) => return Err("exhausted".to_string()),
            Outcome::BadInput => return Err("bad input".to_string()),
        }
    }
}

fn run(source: &str, input: &str) -> Result<String, String> {
    run_with(source, input, &options()).map(|out| match out.strip_suffix('\n') {
        Some(rest) => rest.to_string(),
        None => out,
    })
}

#[test]
fn arithmetic_follows_precedence() {
    assert_eq!(run("3+4*2", ""), Ok("11".to_string()));
    assert_eq!(run("(3+4)*2", ""), Ok("14".to_string()));
    assert_eq!(run("7/2", ""), Ok("3.5".to_string()));
    assert_eq!(run("2^10", ""), Ok("1024".to_string()));
    assert_eq!(run("_3+1", ""), Ok("_2".to_string()));
}

#[test]
fn the_implicit_argument_is_the_input() {
    assert_eq!(run("_", "hello"), Ok("hello".to_string()));
    assert_eq!(run("+1", "41"), Ok("42".to_string()));
}

#[test]
fn a_text_is_repeated() {
    assert_eq!(run("\"abc\"^3", ""), Ok("abcabcabc".to_string()));
}

#[test]
fn ranges_and_queries() {
    assert_eq!(run("~5", ""), Ok("1\n2\n3\n4\n5\n".to_string()));
    assert_eq!(run("1=>3", ""), Ok("1\n2\n3\n".to_string()));
    assert_eq!(run("1->3", ""), Ok("1\n2\n".to_string()));
    assert_eq!(run("(~5)#", ""), Ok("5".to_string()));
    assert_eq!(run("(~5):{", ""), Ok("1".to_string()));
    assert_eq!(run("(~5):}", ""), Ok("5".to_string()));
    assert_eq!(run("(~5).<", ""), Ok("5\n4\n3\n2\n1\n".to_string()));
    assert_eq!(run("(~5)?2", ""), Ok("3".to_string()));
    assert_eq!(run("(~5):i4", ""), Ok("3".to_string()));
    assert_eq!(run("(~5):i9", ""), Ok("_1".to_string()));
    assert_eq!(run("[1,2,3]", ""), Ok("1\n2\n3\n".to_string()));
}

#[test]
fn a_sequence_generates_its_entries() {
    assert_eq!(run("[1,{_*2}->5]", ""), Ok("1\n2\n4\n8\n16\n".to_string()));
}

#[test]
fn comparison_and_logic() {
    assert_eq!(run("1<2", ""), Ok("1".to_string()));
    assert_eq!(run("2<=1", ""), Ok("0".to_string()));
    assert_eq!(run("1=1", ""), Ok("1".to_string()));
    assert_eq!(run("\"1\"=1", ""), Ok("1".to_string()));
    assert_eq!(run("1!=2", ""), Ok("1".to_string()));
    assert_eq!(run("!0", ""), Ok("1".to_string()));
    assert_eq!(run("3&&4", ""), Ok("4".to_string()));
    assert_eq!(run("0||5", ""), Ok("5".to_string()));
}

#[test]
fn a_fold_builds_and_runs_a_program() {
    assert_eq!(run("+\\[1,2,3]", ""), Ok("6".to_string()));
    assert_eq!(run("*\\~5", ""), Ok("120".to_string()));
}

#[test]
fn the_input_is_split_at_spaces() {
    assert_eq!(run("_:!\" \"", "a b c"), Ok("a\nb\nc\n".to_string()));
}

#[test]
fn a_filter_keeps_what_the_block_accepts() {
    assert_eq!(run("${_%2=0}(1=>10)", ""), Ok("2\n4\n6\n8\n10\n".to_string()));
    assert_eq!(run("$:{>9}(1=>10)", ""), Ok("1".to_string()));
    assert_eq!(run("/:{_%2=0}(1=>10)", ""), Ok("5".to_string()));
}

#[test]
fn blocks_are_mapped_and_bound() {
    assert_eq!(run("(~3)@{_*2}", ""), Ok("2\n4\n6\n".to_string()));
    assert_eq!(run("(~3)@v{v+1}", ""), Ok("2\n3\n4\n".to_string()));
    assert_eq!(run("5&{_+1}", ""), Ok("6".to_string()));
    assert_eq!(run("&.{_*2}1 10", ""), Ok("1024".to_string()));
}

#[test]
fn names_are_defined_and_called() {
    assert_eq!(run("x:=5,x+1", ""), Ok("6".to_string()));
    assert_eq!(run("d:={_*2},4.d", ""), Ok("8".to_string()));
    assert_eq!(run("x:=5,++x,x", ""), Ok("6".to_string()));
    assert_eq!(run("(~4).max", ""), Ok("4".to_string()));
    assert_eq!(run("(~4).min", ""), Ok("1".to_string()));
    assert_eq!(run("5.f", ""), Ok("120".to_string()));
    assert_eq!(run("(~4).me", ""), Ok("2.5".to_string()));
}

#[test]
fn the_output_functions_print() {
    assert_eq!(run("1.ol,2", ""), Ok("1\n2".to_string()));
    assert_eq!(run("1.o,2", ""), Ok("12".to_string()));
}

#[test]
fn sequences_are_rearranged() {
    assert_eq!(run(":<[3,1,2]", ""), Ok("1\n2\n3\n".to_string()));
    assert_eq!(run(":>[3,1,2]", ""), Ok("3\n2\n1\n".to_string()));
    assert_eq!(run("#>[1,2,1,3,2]", ""), Ok("1\n2\n3\n".to_string()));
    assert_eq!(run("#:[1,2,1,3,2]", ""), Ok("1\n1\n0\n1\n0\n".to_string()));
    assert_eq!(run("[1,2,1]:@", ""), Ok("1 1 \n2 \n".to_string()));
    assert_eq!(run("[1,2]|[3]", ""), Ok("1\n2\n3\n".to_string()));
    assert_eq!(run("[1,2]|3", ""), Ok("1\n2\n3\n".to_string()));
    assert_eq!(run("\"ab\"|\"cd\"", ""), Ok("abcd".to_string()));
    assert_eq!(run("[1,2,3]:|\"-\"", ""), Ok("1-2-3".to_string()));
    assert_eq!(run("[[1,2],[3,4]]:_", ""), Ok("1\n2\n3\n4\n".to_string()));
    assert_eq!(run("[[1,2],[3,4]]:%", ""), Ok("1 3 \n2 4 \n".to_string()));
    assert_eq!(run("[1,2,3,4].$1", ""), Ok("1 \n2 3 4 \n".to_string()));
    assert_eq!(run("$.[1,2,3,4]", ""), Ok("1 2 \n3 4 \n".to_string()));
    assert_eq!(run("[1,2]z[3,4]", ""), Ok("1 3 \n2 4 \n".to_string()));
    assert_eq!(run("[2,5]..", ""), Ok("2\n3\n4\n".to_string()));
    assert_eq!(run("[2,5].=", ""), Ok("2\n3\n4\n5\n".to_string()));
    assert_eq!(run("[1,2,3].{", ""), Ok("2\n3\n".to_string()));
    assert_eq!(run("[1,2,3].}", ""), Ok("1\n2\n".to_string()));
    assert_eq!(run("3.~", ""), Ok("3\n2\n1\n".to_string()));
    assert_eq!(run("1<>2", ""), Ok("1\n2\n".to_string()));
}

#[test]
fn integers_are_factored_and_converted() {
    assert_eq!(run("#.10", ""), Ok("2\n3\n5\n7\n".to_string()));
    assert_eq!(run("*.12", ""), Ok("12\n2\n3\n4\n6\n1\n".to_string()));
    assert_eq!(run("5;b", ""), Ok("101\n".to_string()));
    assert_eq!(run("255;h", ""), Ok("ff\n".to_string()));
    assert_eq!(run("\"ff\";H", ""), Ok("255".to_string()));
    assert_eq!(run("5;3", ""), Ok("12\n".to_string()));
    assert_eq!(run("[1,2,3];b", ""), Ok("01\n10\n11\n".to_string()));
    assert_eq!(run("|:\"abcd\"", ""), Ok("ab\ndc\n".to_string()));
    assert_eq!(run("16^*", ""), Ok("1".to_string()));
}

#[test]
fn loops_run_until_the_test_fails() {
    assert_eq!(run("{_+1}: {_<10}", "1"), Ok("10".to_string()));
    assert_eq!(run("[1,1,2,3,3]::{_=_}", ""), Ok("1 1 \n2 \n3 3 \n".to_string()));
    assert_eq!(run("5??(1){_+1}", ""), Ok("6".to_string()));
    assert_eq!(run("5??(0){_+1}", ""), Ok("5".to_string()));
}

#[test]
fn the_options_reduce_the_result() {
    let mut o = options();
    o.first = true;
    assert_eq!(run_with("~5", "", &o), Ok("1\n".to_string()));
    let mut o = options();
    o.last = true;
    assert_eq!(run_with("~5", "", &o), Ok("5\n".to_string()));
    let mut o = options();
    o.sum = true;
    assert_eq!(run_with("~5", "", &o), Ok("15\n".to_string()));
    let mut o = options();
    o.size = true;
    assert_eq!(run_with("~5", "", &o), Ok("5\n".to_string()));
    let mut o = options();
    o.not = true;
    assert_eq!(run_with("0", "", &o), Ok("1\n".to_string()));
    let mut o = options();
    o.index = true;
    assert_eq!(run_with("~5", "2", &o), Ok("3\n".to_string()));
    let mut o = options();
    o.one_ten = true;
    assert_eq!(run_with("_", "", &o), Ok("1 2 3 4 5 6 7 8 9 10\n".to_string()));
    let mut o = options();
    o.rangeify = true;
    assert_eq!(run_with("_", "3", &o), Ok("1 2 3\n".to_string()));
    assert_eq!(run_with("_", "x", &o), Err("bad input".to_string()));
    let mut o = options();
    o.zero_range = true;
    assert_eq!(run_with("_", "3", &o), Ok("0 1 2\n".to_string()));
}

#[test]
fn failures_are_reported() {
    assert_eq!(run("nosuchname", ""), Err("UnrecognizedName: nosuchname".to_string()));
    assert_eq!(run("[1,{_}]#", ""), Err("InfiniteSequence: ".to_string()));
    assert_eq!(run("[]:{", ""), Err("EmptySequence: ".to_string()));
    let mut o = options();
    o.fuel = 40;
    assert_eq!(run_with("{_+1}: {1}", "1", &o), Err("exhausted".to_string()));
    let mut o = options();
    o.depth = 3;
    assert_eq!(run_with("((((1))))", "", &o), Err("exhausted".to_string()));
}

fn machine(answers: Vec<Answer>) -> Machine {
    let mut m = Machine::new(answers, 1_000, 4, Vec::new());
    m.push_env(Environment::init());
    m
}

/// Runs `f` on a fresh machine again and again, each time with one more
/// answer, until it needs none.
fn settle<T>(f: impl Fn(&mut Machine) -> T) -> (T, Machine) {
    let mut answers: Vec<Answer> = Vec::new();
    loop {
        let mut m = machine(answers.clone());
        let r = f(&mut m);
        match &m.stopped {
            Some(Stop::Need(request)) => answers.push(answer(request)),
            _ => return (r, m),
        }
    }
}

fn kind_of(m: &Machine) -> Option<ErrorKind> {
    match &m.stopped {
        Some(Stop::Fail(e)) => Some(e.kind),
        _ => None,
    }
}

fn text(v: &Dynamic) -> String {
    match &v.val {
        Val::String(s) => format!("S:{}", s),
        Val::Number(n) => format!("N:{}", n.text),
        Val::Boolean(b) => format!("B:{}", b),
        Val::Array(q) => format!("A:{}", q.cstr.iter().map(text).collect::<Vec<_>>().join(",")),
        Val::Empty => "E".to_string(),
    }
}

fn num(t: &str) -> Dynamic {
    Dynamic::number(Num { text: t.to_string() })
}

fn strs(items: &[&str]) -> Vec<Dynamic> {
    items.iter().map(|s| Dynamic::text(s.to_string())).collect()
}

#[test]
fn coercions_are_idempotent() {
    let values = vec![
        Dynamic::text("12".to_string()),
        Dynamic::text("x y".to_string()),
        num("3.5"),
        Dynamic::boolean(true),
        Dynamic::empty(),
        Dynamic::array(Sequence::from_vec_dyn(strs(&["7", "8"]), Node::String(String::new()), Some(2))),
    ];
    for v in &values {
        let (once, _) = settle(|m| v.into_string(m, 50));
        let (twice, _) = settle(|m| once.into_string(m, 50));
        assert_eq!(text(&once), text(&twice));
        let (once, _) = settle(|m| v.into_num(m, 50));
        let (twice, _) = settle(|m| once.into_num(m, 50));
        assert_eq!(text(&once), text(&twice));
        let (once, _) = settle(|m| v.into_bool(m, 50));
        let (twice, _) = settle(|m| once.into_bool(m, 50));
        assert_eq!(text(&once), text(&twice));
        let (once, _) = settle(|m| v.into_array(m));
        let (twice, _) = settle(|m| once.into_array(m));
        assert_eq!(text(&once), text(&twice));
    }
}

#[test]
fn coercions_follow_the_kind() {
    let (s, _) = settle(|m| Dynamic::boolean(true).into_string(m, 50));
    assert_eq!(text(&s), "S:true");
    let (s, _) = settle(|m| num("2.50").into_string(m, 50));
    assert_eq!(text(&s), "S:2.5");
    let (s, _) = settle(|m| num("-3").into_string(m, 50));
    assert_eq!(text(&s), "S:_3");
    let (n, _) = settle(|m| Dynamic::text("abc".to_string()).into_num(m, 50));
    assert_eq!(text(&n), "N:0");
    let (n, _) = settle(|m| Dynamic::boolean(true).into_num(m, 50));
    assert_eq!(text(&n), "N:1");
    let (n, _) = settle(|m| Dynamic::empty().into_num(m, 50));
    assert_eq!(text(&n), "N:0");
    let (b, _) = settle(|m| Dynamic::text(String::new()).into_bool(m, 50));
    assert_eq!(text(&b), "B:false");
    let (b, _) = settle(|m| num("0").into_bool(m, 50));
    assert_eq!(text(&b), "B:false");
    let (b, _) = settle(|m| num("2").into_bool(m, 50));
    assert_eq!(text(&b), "B:true");
    let (a, _) = settle(|m| Dynamic::text("a b".to_string()).into_array(m));
    assert_eq!(text(&a), "A:S:a,S:b");
    let (a, _) = settle(|m| Dynamic::text("ab".to_string()).into_array(m));
    assert_eq!(text(&a), "A:S:a,S:b");
    let (a, _) = settle(|m| num("12").into_array(m));
    assert_eq!(text(&a), "A:S:1,S:2");
    let (a, _) = settle(|m| Dynamic::empty().into_array(m));
    assert_eq!(text(&a), "A:");
    let seq = Dynamic::array(Sequence::from_vec_dyn(
        strs(&["7", "8"]),
        Node::String(String::new()),
        Some(2),
    ));
    let (s, _) = settle(|m| seq.literal_string(m, 50));
    assert_eq!(s, "7");
    let (n, _) = settle(|m| seq.literal_num(m, 50));
    assert_eq!(n.text, "7");
}

#[test]
fn a_boolean_equals_one_or_zero() {
    let cases = [(true, "1", true), (true, "0", false), (false, "0", true), (false, "1", false), (true, "2", false)];
    for (b, n, expected) in cases {
        let (r, _) = settle(|m| equal_values(m, &Dynamic::boolean(b), &num(n)));
        assert_eq!(r, expected);
        let (r, _) = settle(|m| equal_values(m, &num(n), &Dynamic::boolean(b)));
        assert_eq!(r, expected);
    }
}

#[test]
fn values_are_equal_across_kinds() {
    let (r, _) = settle(|m| equal_values(m, &Dynamic::text("1.0".to_string()), &num("1")));
    assert!(r);
    let (r, _) = settle(|m| equal_values(m, &Dynamic::text("x".to_string()), &num("1")));
    assert!(!r);
    let (r, _) = settle(|m| equal_values(m, &Dynamic::text("1".to_string()), &Dynamic::boolean(true)));
    assert!(r);
    let (r, _) = settle(|m| equal_values(m, &Dynamic::boolean(true), &Dynamic::text("1".to_string())));
    assert!(r);
    let (r, _) = settle(|m| equal_values(m, &Dynamic::boolean(false), &Dynamic::text("0".to_string())));
    assert!(r);
    let (r, _) = settle(|m| equal_values(m, &Dynamic::boolean(false), &Dynamic::text("1".to_string())));
    assert!(!r);
    let (r, _) = settle(|m| equal_values(m, &Dynamic::text("0".to_string()), &Dynamic::boolean(true)));
    assert!(!r);
    let (r, _) = settle(|m| equal_values(m, &Dynamic::empty(), &Dynamic::empty()));
    assert!(r);
    let (r, _) = settle(|m| equal_values(m, &Dynamic::empty(), &num("0")));
    assert!(!r);
    let seq = Dynamic::array(Sequence::from_vec_dyn(Vec::new(), Node::String(String::new()), Some(0)));
    let (_, m) = settle(|m| equal_values(m, &seq, &seq));
    assert_eq!(kind_of(&m), Some(ErrorKind::Incomparable));
}

#[test]
fn values_are_ordered() {
    let (o, _) = settle(|m| order_values(m, 50, &Dynamic::text("abc".to_string()), &Dynamic::text("abd".to_string())));
    assert_eq!(o, Order::Less);
    let (o, _) = settle(|m| order_values(m, 50, &Dynamic::text("b".to_string()), &Dynamic::text("abd".to_string())));
    assert_eq!(o, Order::Greater);
    let (o, _) = settle(|m| order_values(m, 50, &Dynamic::text("10".to_string()), &num("9")));
    assert_eq!(o, Order::Greater);
    let (o, _) = settle(|m| order_values(m, 50, &num("2"), &Dynamic::boolean(true)));
    assert_eq!(o, Order::Greater);
    let (o, _) = settle(|m| order_values(m, 50, &Dynamic::boolean(false), &num("0")));
    assert_eq!(o, Order::Equal);
    let (o, _) = settle(|m| order_values(m, 50, &Dynamic::boolean(false), &Dynamic::boolean(true)));
    assert_eq!(o, Order::Less);
    let (o, _) = settle(|m| order_values(m, 50, &Dynamic::text("x".to_string()), &num("9")));
    assert_eq!(o, Order::Unordered);
    let (o, _) = settle(|m| order_values(m, 50, &Dynamic::empty(), &num("9")));
    assert_eq!(o, Order::Unordered);
    let short = Dynamic::array(Sequence::from_vec_dyn(strs(&["a"]), Node::String(String::new()), Some(1)));
    let long = Dynamic::array(Sequence::from_vec_dyn(strs(&["a", "b"]), Node::String(String::new()), Some(2)));
    let (o, _) = settle(|m| order_values(m, 50, &short, &long));
    assert_eq!(o, Order::Less);
}

fn doubling(length: Option<usize>) -> Sequence {
    let ast = build_ast("[1,{_*2}]").unwrap();
    let (block, first) = match &ast[0] {
        Node::Sequence(entries, block, _) => ((**block).clone(), entries[0].clone()),
        _ => panic!("no sequence"),
    };
    let first = match first {
        Node::Number(n) => n,
        _ => panic!("no number"),
    };
    let mut q = Sequence::from_vec_dyn(vec![Dynamic::number(first)], block, length);
    let mut env = Environment::init();
    env.define_var("_", Dynamic::text(String::new()));
    q.set_env(env);
    q
}

#[test]
fn the_kth_step_yields_the_kth_computed_entry() {
    let (q, _) = settle(|m| {
        let mut q = doubling(Some(5));
        let mut yielded = Vec::new();
        while let Some(v) = seq_step(m, 50, &mut q) {
            yielded.push(text(&v));
            assert_eq!(q.index, yielded.len());
            assert_eq!(text(&q.cstr[yielded.len() - 1]), yielded[yielded.len() - 1]);
        }
        (q, yielded)
    });
    let (q, yielded) = q;
    assert_eq!(yielded, vec!["N:1", "N:2", "N:4", "N:8", "N:16"]);
    assert_eq!(q.cstr.len(), 5);
    assert_eq!(q.index, 5);
}

#[test]
fn the_walk_from_the_back_is_the_walk_from_the_front_reversed() {
    let (front, _) = settle(|m| collect_seq(m, 50, doubling(Some(6))));
    let (back, _) = settle(|m| collect_back_seq(m, 50, doubling(Some(6))));
    let mut reversed: Vec<String> = front.iter().map(text).collect();
    reversed.reverse();
    assert_eq!(back.iter().map(text).collect::<Vec<_>>(), reversed);
    assert_eq!(reversed, vec!["N:32", "N:16", "N:8", "N:4", "N:2", "N:1"]);
    let (step, _) = settle(|m| {
        let mut q = doubling(Some(3));
        let a = seq_step_back(m, 50, &mut q).map(|v| text(&v));
        let b = seq_step_back(m, 50, &mut q).map(|v| text(&v));
        let c = seq_step_back(m, 50, &mut q).map(|v| text(&v));
        let d = seq_step_back(m, 50, &mut q).map(|v| text(&v));
        (a, b, c, d)
    });
    assert_eq!(step, (Some("N:4".to_string()), Some("N:2".to_string()), Some("N:1".to_string()), None));
    let (_, m) = settle(|m| collect_back_seq(m, 50, doubling(None)));
    assert_eq!(kind_of(&m), Some(ErrorKind::InfiniteSequence));
}

#[test]
fn a_step_on_a_name_is_seen_afterwards() {
    assert_eq!(run("x:=5,++x,++x,x", ""), Ok("7".to_string()));
    assert_eq!(run("x:=5,--x,x", ""), Ok("4".to_string()));
    assert_eq!(run("x:=5,{++x},x", ""), Ok("5".to_string()));
    assert_eq!(run("++5", ""), Ok("6".to_string()));
}

#[test]
fn a_group_and_a_block_yield_their_last_statement() {
    assert_eq!(run("(1,2,3)", ""), Ok("3".to_string()));
    assert_eq!(run("{1,2,3}", ""), Ok("3".to_string()));
    assert_eq!(run("(1.o,2.o,3)", ""), Ok("123".to_string()));
    assert_eq!(run("()", ""), Ok("".to_string()));
    assert_eq!(run("1\n2", ""), Ok("2".to_string()));
}

#[test]
fn a_block_does_not_export_what_it_binds() {
    assert_eq!(run("x:=1,{x:=2,x}", ""), Ok("2".to_string()));
    assert_eq!(run("x:=1,{x:=2},x", ""), Ok("1".to_string()));
    assert_eq!(run("x:=1,(x:=2),x", ""), Ok("2".to_string()));
}

#[test]
fn a_block_leaves_every_frame_as_it_was() {
    for source in ["{x:=2,y:=3,++x}", "{++x,++x}", "{f:={_+1},x:=f 4}", "{y}", "{}"] {
        let tree = build_ast(source).unwrap().remove(0);
        let (before, m) = settle(|m| {
            m.define_var("x", num("1"));
            m.push_env(Environment::init());
            m.define_var("_", num("7"));
            let before = format!("{:?}", m.envs);
            parse_node(m, 50, &tree);
            before
        });
        assert_eq!(format!("{:?}", m.envs), before, "{}", source);
        assert_eq!(m.envs.len(), 2);
    }
    assert_eq!(run("x:=1,{x:=2,y:=3,++x},x", ""), Ok("1".to_string()));
    assert_eq!(run("x:=1,{++x}", ""), Ok("2".to_string()));
}

#[test]
fn a_step_changes_one_name_only() {
    let tree = build_ast("++x").unwrap().remove(0);
    let (r, m) = settle(|m| {
        m.define_var("x", num("1"));
        m.define_var("y", num("5"));
        m.push_env(Environment::init());
        m.define_var("x", num("10"));
        m.define_var("z", Dynamic::text("a".to_string()));
        parse_node(m, 50, &tree)
    });
    assert_eq!(text(&r), "N:11");
    let (_, expected) = settle(|m| {
        m.define_var("x", num("1"));
        m.define_var("y", num("5"));
        m.push_env(Environment::init());
        m.define_var("x", num("11"));
        m.define_var("z", Dynamic::text("a".to_string()));
    });
    assert_eq!(format!("{:?}", m.envs), format!("{:?}", expected.envs));
}

#[test]
fn every_failure_has_its_input() {
    let fails = |source: &str, kind: &str| {
        let r = run(source, "");
        match r {
            Err(e) => assert!(e.starts_with(kind), "{} gave {}", source, e),
            Ok(out) => panic!("{} gave {}", source, out),
        }
    };
    fails("nosuch", "UnrecognizedName");
    fails("`ab`", "MissingWord");
    fails("e+1", "MalformedNumber");
    fails("[1,{_}]#", "InfiniteSequence");
    fails("[]:}", "EmptySequence");
    fails("[{_+_}->3]", "TooFewEntries");
    fails("~(0/0)", "NotANumber");
    fails("\"zz\";H", "InvalidDigits");
    fails("\"x\";b", "InvalidDigits");
    fails("5;q", "UnrecognizedBase");
    fails("5;99", "UnrecognizedBase");
    fails("!.5", "UnknownOperator");
    fails("[[1]]:i[1]", "Incomparable");
    fails(":<[1,\"x\"]", "Incomparable");
    fails("|:\"\u{e9}a\"", "BadSplit");
    fails("[1,2]z[1]", "EmptySequence");
    fails("+\\[]", "Syntax");
    fails("*.0", "EmptySequence");
    fails("[1].$5", "EmptySequence");
    fails("[1]?3", "EmptySequence");
    fails("[1]..", "EmptySequence");
    fails("[]:_", "EmptySequence");
    fails("[1,{_}].<", "InfiniteSequence");
    fails("[1,{_}]:_", "InfiniteSequence");
    let (_, m) = settle(|m| parse_op(m, 50, "+", &Vec::new(), &Vec::new()));
    assert_eq!(kind_of(&m), Some(ErrorKind::MissingOperand));
    let (_, m) = settle(|m| parse_op(m, 50, "§", &Vec::new(), &Vec::new()));
    assert_eq!(kind_of(&m), Some(ErrorKind::UnknownOperator));
    let mut m = machine(vec![Answer::Flag(true)]);
    let ast = build_ast("1+1").unwrap();
    parse_node(&mut m, 50, &ast[0]);
    assert_eq!(kind_of(&m), Some(ErrorKind::BadAnswer));
    let mut m = machine(Vec::new());
    let mut q = Sequence::from_vec_dyn(Vec::new(), Node::Block(Vec::new(), None), None);
    assert!(seq_step(&mut m, 50, &mut q).is_none());
    assert_eq!(kind_of(&m), Some(ErrorKind::NoEnvironment));
    let mut m = machine(Vec::new());
    let endless = Dynamic::array(Sequence::from_vec_dyn(Vec::new(), Node::Block(Vec::new(), None), None));
    let mut q = Sequence::from_vec_dyn(vec![endless], Node::Block(vec![Node::Variable("_".to_string())], None), None);
    q.set_env(Environment::init());
    assert!(seq_step(&mut m, 50, &mut q).is_some());
    assert!(seq_step(&mut m, 50, &mut q).is_none());
    assert_eq!(kind_of(&m), Some(ErrorKind::NoLiteral));
}

#[test]
fn a_stopped_machine_stays_as_it_is() {
    let mut m = machine(Vec::new());
    let ast = build_ast("1+1").unwrap();
    parse_node(&mut m, 50, &ast[0]);
    assert!(matches!(m.stopped, Some(Stop::Need(Request::Parse(_)))));
    let out = m.out.clone();
    let cursor = m.cursor;
    parse_node(&mut m, 50, &ast[0]);
    assert!(matches!(m.stopped, Some(Stop::Need(Request::Parse(_)))));
    assert_eq!(m.out, out);
    assert_eq!(m.cursor, cursor);
}

#[test]
fn an_index_is_picked_below_the_length() {
    for len in [1usize, 2, 7, 100] {
        match answer_pick(&Request::Pick(len)) {
            Some(Answer::Index(i)) => assert!(i < len),
            other => panic!("{:?}", other),
        }
    }
    assert!(answer_pick(&Request::Pick(0)).is_none());
    assert!(answer_pick(&Request::Pi).is_none());
    let picked = run("?.[4,5,6]", "").unwrap();
    assert_eq!(picked, "4");
}

#[test]
fn numbers_are_tidied_for_printing() {
    assert_eq!(run("1/4", ""), Ok("2.500e_1".to_string()));
    assert_eq!(run("10/4", ""), Ok("2.5".to_string()));
    assert_eq!(run("100", ""), Ok("100".to_string()));
    assert_eq!(run("0-5", ""), Ok("_5".to_string()));
    assert_eq!(run("123456", ""), Ok("1.235e5".to_string()));
    assert_eq!(run("E", ""), Ok("2.718".to_string()));
    assert_eq!(run("pi", ""), Ok("3.142".to_string()));
}

#[test]
fn names_are_trimmed_when_they_are_defined() {
    let mut env = Environment::init();
    env.define_var("  x \n", Dynamic::boolean(true));
    assert!(env.get("x").is_some());
    assert!(env.get("  x \n").is_none());
    env.define_var("x", Dynamic::boolean(false));
    assert_eq!(env.vals.len(), 1);
    let (v, _) = settle(|m| env.get_var(m, 50, "x"));
    assert_eq!(text(&v), "B:false");
    let (v, m) = settle(|m| env.attempt_call(m, 50, "y", &Dynamic::empty()));
    assert_eq!(text(&v), "E");
    assert_eq!(kind_of(&m), Some(ErrorKind::UnrecognizedName));
}

#[test]
fn closures_change_what_a_value_holds() {
    let (v, _) = settle(|m| Dynamic::text("ab".to_string()).mutate_string(m, 50, |s| s + "c"));
    assert_eq!(text(&v), "S:abc");
    let (v, _) = settle(|m| Dynamic::boolean(true).mutate_bool(m, 50, |b| !b));
    assert_eq!(text(&v), "B:false");
    let (v, _) = settle(|m| Dynamic::text("7".to_string()).mutate_num(m, 50, |n| Num { text: n.text + "1" }));
    assert_eq!(text(&v), "N:71");
    let (v, _) = settle(|m| Dynamic::text("ab".to_string()).mutate_array(m, |q| Sequence::from_vec(&q.cstr, Node::String(String::new()), Some(1))));
    assert_eq!(text(&v), "A:S:a,S:b");
    let mut v = num("2");
    let (_, _) = settle(|m| {
        v.clone().as_string(m, 50);
    });
    let (s, _) = settle(|m| {
        let mut w = v.clone();
        w.as_string(m, 50);
        w
    });
    assert_eq!(text(&s), "S:2");
    let (s, _) = settle(|m| {
        let mut w = Dynamic::text("3".to_string());
        w.as_num(m, 50);
        w
    });
    assert_eq!(text(&s), "N:3");
    let (s, _) = settle(|m| {
        let mut w = Dynamic::text("3".to_string());
        w.as_bool(m, 50);
        w
    });
    assert_eq!(text(&s), "B:true");
    v = Dynamic::new(Val::Boolean(true), 1);
    assert!(v.is_bool() && !v.is_string() && !v.is_num() && !v.is_array());
}

#[test]
fn the_generator_sees_the_entries_before() {
    assert_eq!(
        run("[1,1,{_+_}->10]", ""),
        Ok("1\n1\n2\n3\n5\n8\n13\n21\n34\n55\n".to_string())
    );
    assert_eq!(run("[1,{#p}->4]", ""), Ok("1\n1\n2\n3\n".to_string()));
    assert_eq!(run("[1,{_*2}]?20", ""), Ok("1.049e6".to_string()));
    assert_eq!(run("[5,6,7,{_}->2]", ""), Ok("5\n6\n".to_string()));
}

#[test]
fn the_functions_every_program_starts_with() {
    assert_eq!(run("(~5).med", ""), Ok("3".to_string()));
    assert_eq!(run("(~4).med", ""), Ok("2.5".to_string()));
    assert_eq!(run("[1,2,2,3].mo", ""), Ok("2".to_string()));
    assert_eq!(run("[3,9,4].ma", ""), Ok("9".to_string()));
    assert_eq!(run("[3,9,4].mi", ""), Ok("3".to_string()));
    assert_eq!(run("4.fact", ""), Ok("24".to_string()));
    assert_eq!(run("Fi|Bu", ""), Ok("FizzBuzz".to_string()));
    assert_eq!(run("a#", ""), Ok("0".to_string()));
    assert_eq!(run("c", ""), Ok("".to_string()));
}

#[test]
fn every_outcome_holds_what_was_printed() {
    let ast = build_ast("1.ol,2.ol,nosuch").unwrap();
    let mut answers: Vec<Answer> = Vec::new();
    let mut seen = String::new();
    loop {
        match parse(&ast, &options(), "", answers.clone(), Vec::new()) {
            Outcome::Need(request, printed) => {
                assert!(printed.starts_with(&seen));
                seen = printed;
                answers.push(answer(&request));
            }
            Outcome::Failed(e, printed) => {
                assert_eq!(e.kind, ErrorKind::UnrecognizedName);
                assert_eq!(printed, "1\n2\n");
                break;
            }
            other => panic!("{:?}", other),
        }
    }
    let endless = build_ast("[1,{_+1}]").unwrap();
    let mut o = options();
    o.fuel = 4;
    let mut answers: Vec<Answer> = Vec::new();
    loop {
        match parse(&endless, &o, "", answers.clone(), Vec::new()) {
            Outcome::Need(request, _) => answers.push(answer(&request)),
            Outcome::Exhausted(printed) => {
                assert_eq!(printed, "1\n2\n3\n4\n");
                break;
            }
            other => panic!("{:?}", other),
        }
    }
}
