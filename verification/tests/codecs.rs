use arn::compress::{is_packed, pack, pack_bytes, unpack, unpack_bytes};
use arn::dict::{capitalize, decompress};
use arn::digits::{pad, parse_int};
use arn::num::{decimal_chars, num_of_u64, num_of_usize};
use arn::run::{adjust_input, create_str_range, parse_usize, wrap_program, Options};

fn number(digits: &[u8], base: u128) -> u128 {
    digits.iter().rev().fold(0u128, |acc, d| acc * base + *d as u128)
}

#[test]
fn packing_keeps_the_number() {
    let cases: Vec<Vec<u8>> = vec![
        vec![],
        vec![0],
        vec![65],
        vec![94, 94, 94],
        vec![1, 2, 3, 4, 5, 6, 7, 8, 9, 10],
        vec![0, 0, 1],
        vec![200, 7],
    ];
    for digits in cases {
        let packed = pack_bytes(&digits);
        assert_eq!(number(&packed, 256), number(&digits, 95));
        assert!(packed.last() != Some(&0));
        let unpacked = unpack_bytes(&packed);
        assert_eq!(number(&unpacked, 95), number(&packed, 256));
        assert!(unpacked.iter().all(|d| *d < 95));
        assert!(unpacked.last() != Some(&0));
    }
    assert_eq!(pack_bytes(&vec![1, 3]), vec![30, 1]);
    assert_eq!(unpack_bytes(&vec![30, 1]), vec![1, 3]);
}

#[test]
fn a_program_is_packed_and_unpacked() {
    assert_eq!(pack("a"), "b");
    assert_eq!(unpack("b"), "a");
    assert_eq!(pack(""), "");
    assert_eq!(unpack(""), "");
    for program in ["3+4*2", "[1,{_+p?(#p--2)}->10]", "(1=>10)$.{_%2=0}", "a\nb", "\"abc\"^3"] {
        let packed = pack(program);
        assert!(packed.chars().count() <= program.chars().count() + 1);
        assert_eq!(unpack(&packed), program);
        assert!(!is_packed(program));
    }
    assert!(is_packed("a "));
    assert!(is_packed("\u{25cb}"));
    assert_eq!(unpack("\u{394}"), unpack("\u{394}"));
}

#[test]
fn a_long_program_survives_packing() {
    let program: String = std::iter::repeat("[1,{_+p?(#p--2)}->10]:_").take(20).collect();
    assert_eq!(unpack(&pack(&program)), program);
}

#[test]
fn compressed_strings_expand_to_words() {
    let mut dictionary: Vec<String> = (0..250).map(|i| format!("w{}", i)).collect();
    dictionary[0] = "hello".to_string();
    dictionary[1] = " world ".to_string();
    dictionary[101] = "there".to_string();
    assert_eq!(decompress("aa", false, &dictionary), Some("Hello".to_string()));
    assert_eq!(decompress("aaab", false, &dictionary), Some("Helloworld".to_string()));
    assert_eq!(decompress("aaab", true, &dictionary), Some("HelloWorld".to_string()));
    assert_eq!(decompress("bb", false, &dictionary), Some("There".to_string()));
    assert_eq!(decompress("a b", false, &dictionary), Some("Hello w100\0".to_string()));
    assert_eq!(decompress(" ,", false, &dictionary), Some(",".to_string()));
    assert_eq!(decompress("zz", false, &dictionary), None);
    assert_eq!(decompress("", false, &dictionary), Some(String::new()));
    assert_eq!(capitalize("word", false), "Word");
    assert_eq!(capitalize("word", true), "word");
    assert_eq!(capitalize("\u{df}x", false), "SSx");
    assert_eq!(capitalize("", false), "");
}

#[test]
fn integers_are_read_in_a_base() {
    let read = |t: &str, radix: u8| parse_int(&t.chars().collect(), radix);
    assert_eq!(read("0", 10), Some(0));
    assert_eq!(read("-12", 10), Some(-12));
    assert_eq!(read("+12", 10), Some(12));
    assert_eq!(read("ff", 16), Some(255));
    assert_eq!(read("FF", 16), Some(255));
    assert_eq!(read("101", 2), Some(5));
    assert_eq!(read("z", 36), Some(35));
    assert_eq!(read("", 10), None);
    assert_eq!(read("-", 10), None);
    assert_eq!(read("12a", 10), None);
    assert_eq!(read("2", 2), None);
    assert_eq!(read("1 ", 10), None);
    assert_eq!(read("170141183460469231731687303715884105727", 10), Some(i128::MAX));
    assert_eq!(read("170141183460469231731687303715884105728", 10), None);
    assert_eq!(read("-170141183460469231731687303715884105728", 10), Some(i128::MIN));
    assert_eq!(read("-170141183460469231731687303715884105729", 10), None);
    assert_eq!(read("99999999999999999999999999999999999999999999", 10), None);
    assert_eq!(pad(&"12".chars().collect(), 5), "00012".chars().collect::<Vec<_>>());
    assert_eq!(pad(&"12".chars().collect(), 1), "12".chars().collect::<Vec<_>>());
}

#[test]
fn integers_are_written_in_base_ten() {
    assert_eq!(num_of_usize(0).text, "0");
    assert_eq!(num_of_usize(9).text, "9");
    assert_eq!(num_of_usize(10).text, "10");
    assert_eq!(num_of_usize(1234567).text, "1234567");
    assert_eq!(num_of_u64(u64::MAX).text, "18446744073709551615");
    assert_eq!(decimal_chars(507), vec!['5', '0', '7']);
}

#[test]
fn ranges_are_written_out() {
    assert_eq!(create_str_range(1, 5), "1 2 3 4 5");
    assert_eq!(create_str_range(0, 0), "0");
    assert_eq!(create_str_range(9, 11), "9 10 11");
    assert_eq!(create_str_range(3, 2), "");
    assert_eq!(parse_usize("17"), Some(17));
    assert_eq!(parse_usize("+17"), Some(17));
    assert_eq!(parse_usize("-0"), None);
    assert_eq!(parse_usize("1.5"), None);
    assert_eq!(parse_usize(""), None);
}

fn options() -> Options {
    Options {
        one_ten: false,
        one_hundred: false,
        rangeify: false,
        zero_range: false,
        first: false,
        last: false,
        index: false,
        sum: false,
        size: false,
        not: false,
        output_precision: 4,
        depth: 100,
        fuel: 1000,
    }
}

#[test]
fn the_input_is_replaced_by_a_range() {
    assert_eq!(adjust_input(&options(), "abc"), Some("abc".to_string()));
    let mut o = options();
    o.one_hundred = true;
    assert_eq!(adjust_input(&o, "abc").unwrap().split(' ').count(), 100);
    let mut o = options();
    o.zero_range = true;
    assert_eq!(adjust_input(&o, "1"), Some("0".to_string()));
    assert_eq!(adjust_input(&o, "0"), None);
    assert_eq!(adjust_input(&o, "x"), None);
    let mut o = options();
    o.rangeify = true;
    o.zero_range = true;
    assert_eq!(adjust_input(&o, "1"), Some("0".to_string()));
    assert_eq!(adjust_input(&o, "2"), None);
}

#[test]
fn a_program_is_wrapped() {
    assert_eq!(wrap_program("p", false, false, false, false), "p");
    assert_eq!(wrap_program("p", true, false, false, false), "[p]");
    assert_eq!(wrap_program("p", false, true, false, false), "{p}\\");
    assert_eq!(wrap_program("p", false, false, true, false), "(p):_");
    assert_eq!(wrap_program("p", false, false, false, true), "(p):i");
    assert_eq!(wrap_program("p", true, true, true, true), "(({[p]}\\):_):i");
}
