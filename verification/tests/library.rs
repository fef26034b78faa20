use xml::common::{
    decimal, from_str_radix, hex_upper, is_name_char, is_name_start_char, is_whitespace_char,
    trim_whitespace, TextPosition,
};
use xml::name::OwnedName;
use xml::namespace::{Namespace, NamespaceStack};
use xml::reader::events::Error;
use xml::reader::lexer::CharReader;

fn chars(s: &str) -> Vec<char> {
    s.chars().collect()
}

fn string(v: &Vec<char>) -> String {
    v.iter().collect()
}

#[test]
fn name_text_round_trip() {
    for s in ["a", "p:a", "long-name.x", "x:y_z"] {
        let n = OwnedName::parse(&chars(s)).unwrap();
        assert_eq!(string(&n.to_repr()), s);
    }
    let n = OwnedName::parse(&chars("p:a")).unwrap();
    assert_eq!(n.prefix, Some(chars("p")));
    assert_eq!(n.local_name, chars("a"));
    assert_eq!(n.namespace, None);
    let n = OwnedName::qualified(chars("a"), None, Some(chars("p")));
    assert_eq!(OwnedName::parse(&n.to_repr()), Some(n));
}

#[test]
fn names_that_do_not_parse() {
    for s in ["", ":a", "a:", "a:b:c", "::"] {
        assert_eq!(OwnedName::parse(&chars(s)), None, "{}", s);
    }
}

#[test]
fn name_repr_with_namespace() {
    let n = OwnedName::qualified(chars("a"), Some(chars("urn:x")), Some(chars("p")));
    assert_eq!(string(&n.to_repr()), "{urn:x}p:a");
    assert!(n.same_as(&n.duplicate()));
    assert!(!n.same_as(&OwnedName::local(chars("a"))));
}

#[test]
fn namespace_put_keeps_first_binding() {
    let mut ns = Namespace::empty();
    assert!(ns.is_essentially_empty());
    assert!(ns.put(chars("p"), chars("urn:1")));
    assert!(!ns.put(chars("p"), chars("urn:2")));
    assert_eq!(ns.get(&chars("p")), Some(chars("urn:1")));
    assert_eq!(ns.get(&chars("q")), None);
    assert_eq!(ns.len(), 1);
    assert!(!ns.is_essentially_empty());
}

#[test]
fn namespace_stack_topmost_frame_decides() {
    let mut st = NamespaceStack::default();
    assert_eq!(st.get(&chars("xml")), Some(chars("http://www.w3.org/XML/1998/namespace")));
    assert_eq!(st.get(&chars("")), Some(chars("")));
    st.push_empty();
    assert!(st.put(chars("p"), chars("urn:outer")));
    st.push_empty();
    assert!(st.put(chars("p"), chars("urn:inner")));
    assert_eq!(st.get(&chars("p")), Some(chars("urn:inner")));
    let sq = st.squash();
    assert_eq!(sq.get(&chars("p")), Some(chars("urn:inner")));
    assert_eq!(sq.get(&chars("xmlns")), Some(chars("http://www.w3.org/2000/xmlns/")));
    assert!(st.try_pop().is_some());
    assert_eq!(st.get(&chars("p")), Some(chars("urn:outer")));
    assert_eq!(st.len(), 2);
    assert!(st.squash().get(&chars("q")).is_none());
    let default_squash = NamespaceStack::default().squash();
    assert!(default_squash.is_essentially_empty());
}

#[test]
fn radix_parsing() {
    assert_eq!(from_str_radix(&chars("9835"), 10), Some(9835));
    assert_eq!(from_str_radix(&chars("266b"), 16), Some(0x266b));
    assert_eq!(from_str_radix(&chars("266B"), 16), Some(0x266b));
    assert_eq!(from_str_radix(&chars("+12"), 10), Some(12));
    assert_eq!(from_str_radix(&chars(""), 10), None);
    assert_eq!(from_str_radix(&chars("+"), 10), None);
    assert_eq!(from_str_radix(&chars("1a"), 10), None);
    assert_eq!(from_str_radix(&chars("-1"), 10), None);
    assert_eq!(from_str_radix(&chars("4294967295"), 10), Some(u32::MAX));
    assert_eq!(from_str_radix(&chars("4294967296"), 10), None);
    assert_eq!(from_str_radix(&chars("ffffffff"), 16), Some(u32::MAX));
    assert_eq!(from_str_radix(&chars("100000000"), 16), None);
}

#[test]
fn number_formatting() {
    assert_eq!(string(&hex_upper(0xd83d)), "D83D");
    assert_eq!(string(&hex_upper(0)), "0");
    assert_eq!(string(&hex_upper(0x10FFFF)), "10FFFF");
    assert_eq!(string(&decimal(0)), "0");
    assert_eq!(string(&decimal(1234567890)), "1234567890");
    assert_eq!(string(&decimal(u64::MAX)), u64::MAX.to_string());
}

#[test]
fn error_description() {
    let e = Error::new(TextPosition { row: 0, column: 5 }, chars("Unexpected end of stream"));
    assert_eq!(string(&e.describe()), "1:6 Unexpected end of stream");
    assert_eq!(e.position(), TextPosition { row: 0, column: 5 });
    assert_eq!(string(e.msg()), "Unexpected end of stream");
}

#[test]
fn text_positions() {
    let mut p = TextPosition::new();
    p.advance(3);
    assert_eq!(p, TextPosition { row: 0, column: 3 });
    p.new_line();
    assert_eq!(p, TextPosition { row: 1, column: 0 });
    let mut q = TextPosition { row: 0, column: u64::MAX - 1 };
    q.advance(5);
    assert_eq!(q.column, u64::MAX);
}

#[test]
fn character_classes() {
    assert!(is_whitespace_char(' ') && is_whitespace_char('\t') && is_whitespace_char('\n'));
    assert!(is_whitespace_char('\r') && !is_whitespace_char('a'));
    assert!(is_name_start_char('a') && is_name_start_char('_') && is_name_start_char(':'));
    assert!(!is_name_start_char('-') && !is_name_start_char('1'));
    assert!(is_name_char('-') && is_name_char('1') && is_name_char('.'));
    assert!(!is_name_char(' ') && !is_name_char('<'));
}

#[test]
fn whitespace_trimming() {
    assert_eq!(string(&trim_whitespace(&chars(" \t a b \n"))), "a b");
    assert_eq!(string(&trim_whitespace(&chars("   "))), "");
    assert_eq!(string(&trim_whitespace(&chars("x"))), "x");
}

#[test]
fn char_reader_feeds_and_reads() {
    let mut r = CharReader::new(chars("ab"));
    assert_eq!(r.next_char(), Some('a'));
    r.feed(&chars("c"));
    assert_eq!(r.next_char(), Some('b'));
    assert_eq!(r.next_char(), Some('c'));
    assert_eq!(r.next_char(), None);
    assert_eq!(r.next_char(), None);
}
