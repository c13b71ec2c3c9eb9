use micro_http_async::string_map::StringMap;
use micro_http_async::text::{
    copy, copy_range, cut, cut_all, extend, find_from, from_chars, has, is_str, matches_at,
    replace_all, same, split_text, to_chars, without_char,
};

fn pieces(s: &str, pat: &str) -> Vec<String> {
    split_text(&to_chars(s), &to_chars(pat)).iter().map(|p| from_chars(p)).collect()
}

fn replaced(s: &str, pat: &str, with: &str) -> String {
    from_chars(&replace_all(&to_chars(s), &to_chars(pat), &to_chars(with)))
}

#[test]
fn strings_and_chars_convert_both_ways() {
    assert_eq!(to_chars("a\u{e9}\u{1f600}"), vec!['a', '\u{e9}', '\u{1f600}']);
    assert_eq!(to_chars(""), Vec::<char>::new());
    assert_eq!(from_chars(&['x', '\u{e9}']), "x\u{e9}");
    assert_eq!(from_chars(&[]), "");
}

#[test]
fn split_matches_the_standard_library() {
    let cases = [
        ("a,b,c", ","),
        ("", ","),
        (",", ","),
        (",,", ","),
        ("abc", ","),
        ("aaa", "aa"),
        ("aaaa", "aa"),
        ("a\r\nb\r\n", "\r\n"),
        ("a\rb\n\r\nc", "\r\n"),
        ("xUser-Agent: yUser-Agent: z", "User-Agent: "),
        ("ab", "abc"),
        ("\u{e9},\u{e9}", ","),
    ];
    for (s, pat) in cases {
        let expected: Vec<String> = s.split(pat).map(String::from).collect();
        assert_eq!(pieces(s, pat), expected);
    }
    assert_eq!(pieces("aaa", "aa"), vec!["", "a"]);
    assert_eq!(pieces("a,b,", ","), vec!["a", "b", ""]);
}

#[test]
fn cut_works_on_strings_as_patterns() {
    assert_eq!(cut(&to_chars("k=v=w"), "="), vec![to_chars("k"), to_chars("v"), to_chars("w")]);
    let rows = vec![to_chars("skip&me"), to_chars("a&b"), to_chars(""), to_chars("c")];
    assert_eq!(
        cut_all(&rows, 1, "&"),
        vec![to_chars("a"), to_chars("b"), to_chars(""), to_chars("c")]
    );
    assert_eq!(cut_all(&rows, 4, "&"), Vec::<Vec<char>>::new());
}

#[test]
fn find_gives_the_first_place() {
    let s = to_chars("abcabc");
    assert_eq!(find_from(&s, &to_chars("bc"), 0), Some(1));
    assert_eq!(find_from(&s, &to_chars("bc"), 1), Some(1));
    assert_eq!(find_from(&s, &to_chars("bc"), 2), Some(4));
    assert_eq!(find_from(&s, &to_chars("bc"), 5), None);
    assert_eq!(find_from(&s, &to_chars("bc"), 6), None);
    assert_eq!(find_from(&s, &to_chars("x"), 0), None);
    assert_eq!(find_from(&s, &to_chars(""), 3), Some(3));
    assert_eq!(find_from(&s, &to_chars(""), 6), Some(6));
    assert_eq!(find_from(&s, &to_chars("abcabcd"), 0), None);
    assert!(has(&s, &to_chars("cab")));
    assert!(has(&s, &to_chars("")));
    assert!(!has(&s, &to_chars("cb")));
    assert!(matches_at(&s, &to_chars("abc"), 3));
    assert!(!matches_at(&s, &to_chars("abc"), 4));
    assert!(!matches_at(&s, &to_chars("abc"), 7));
    assert!(matches_at(&s, &to_chars(""), 6));
}

#[test]
fn texts_compare_by_content() {
    assert!(same(&to_chars("abc"), &to_chars("abc")));
    assert!(!same(&to_chars("abc"), &to_chars("abd")));
    assert!(!same(&to_chars("abc"), &to_chars("ab")));
    assert!(same(&[], &[]));
    assert!(is_str(&to_chars("GET"), "GET"));
    assert!(!is_str(&to_chars("GET"), "GET "));
}

#[test]
fn copies_are_exact() {
    let s = to_chars("hello");
    assert_eq!(copy(&s), s);
    assert_eq!(copy_range(&s, 1, 3), to_chars("el"));
    assert_eq!(copy_range(&s, 5, 5), Vec::<char>::new());
    assert_eq!(copy_range(&[1u8, 2, 3], 0, 2), vec![1u8, 2]);
    let mut t = to_chars("ab");
    extend(&mut t, &to_chars("cd"));
    extend(&mut t, &[]);
    assert_eq!(t, to_chars("abcd"));
}

#[test]
fn replace_matches_the_standard_library() {
    let cases = [
        ("a[ x ]b[ x ]", "[ x ]", "1"),
        ("aaa", "aa", "b"),
        ("abc", "x", "y"),
        ("", "x", "y"),
        ("xx", "x", ""),
        ("a-b", "-", "--"),
    ];
    for (s, pat, with) in cases {
        assert_eq!(replaced(s, pat, with), s.replace(pat, with));
    }
    assert_eq!(replaced("aaa", "aa", "b"), "ba");
}

#[test]
fn characters_are_removed() {
    assert_eq!(without_char(&to_chars("\"a\"b\""), '"'), to_chars("ab"));
    assert_eq!(without_char(&to_chars("abc"), '"'), to_chars("abc"));
    assert_eq!(without_char(&to_chars("\"\""), '"'), Vec::<char>::new());
}

#[test]
fn map_keeps_one_value_per_key() {
    let mut m: StringMap<u32> = StringMap::new();
    assert!(m.is_empty());
    assert_eq!(m.len(), 0);
    assert_eq!(m.get("a"), None);
    m.insert(String::from("a"), 1);
    m.insert(String::from("b"), 2);
    m.insert(String::from("a"), 3);
    m.insert_text(to_chars(""), 4);
    assert_eq!(m.len(), 3);
    assert!(!m.is_empty());
    assert_eq!(m.get("a"), Some(&3));
    assert_eq!(m.get("b"), Some(&2));
    assert_eq!(m.get(""), Some(&4));
    assert_eq!(m.get("c"), None);
    assert_eq!(m.get_text(&to_chars("b")), Some(&2));
    assert!(m.contains_key("a"));
    assert!(!m.contains_key("A"));
}

#[test]
fn map_keeps_keys_in_order_of_first_insertion() {
    let mut m: StringMap<&str> = StringMap::new();
    m.insert(String::from("z"), "1");
    m.insert(String::from("a"), "2");
    m.insert(String::from("z"), "3");
    assert_eq!(m.key_at(0), "z");
    assert_eq!(m.key_at(1), "a");
    assert_eq!(*m.value_at(0), "3");
    assert_eq!(*m.value_at(1), "2");
}
