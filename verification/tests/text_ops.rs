use query_gguf::files::lower_char;
use query_gguf::path::{join_chars, strip_prefix_all_chars};
use query_gguf::split::{find_in, join_pieces, lines_of, split_chars};
use query_gguf::text::{chars_of, has_char, has_prefix, is_str, same_chars, slice_of, string_of};
use query_gguf::trim::{is_space_char, strip_one_chars, strip_start_index, trim_chars};
use std::path::PathBuf;

fn chars(s: &str) -> Vec<char> {
    s.chars().collect()
}

fn text(v: &Vec<char>) -> String {
    v.iter().collect()
}

const TEXTS: [&str; 25] = [
    "",
    " ",
    "a",
    " a ",
    "\t a b \r\n",
    "\u{a0}x\u{3000}",
    "\u{2003}\u{85}y\u{1680}\u{2028}\u{2029}\u{202f}\u{205f}",
    "\u{200b}z\u{200b}",
    "\u{feff}w",
    "a\nb",
    "a\nb\n",
    "a\r\nb\r\n",
    "a\rb",
    "a\r",
    "a\r\r\n",
    "\n",
    "\n\n",
    "\r\n",
    "\r",
    "x\n\ny",
    "a|b|c",
    "|a||b|",
    "\"\"quoted\"\"",
    "\"",
    "//a/b/",
];

#[test]
fn white_space_is_that_of_std() {
    for code in 0u32..=0x10FFFF {
        if let Some(c) = char::from_u32(code) {
            assert_eq!(is_space_char(c), c.is_whitespace(), "U+{:04X}", code);
        }
    }
}

#[test]
fn small_letters_are_those_of_ascii() {
    for code in 0u32..=0x2FF {
        let c = char::from_u32(code).unwrap();
        assert_eq!(lower_char(c), c.to_ascii_lowercase(), "U+{:04X}", code);
    }
}

#[test]
fn strings_and_characters_convert_both_ways() {
    for s in TEXTS {
        assert_eq!(chars_of(s), chars(s));
        assert_eq!(string_of(&chars(s)), s);
    }
    assert_eq!(chars_of("h\u{e9}llo \u{1F600}"), vec!['h', '\u{e9}', 'l', 'l', 'o', ' ', '\u{1F600}']);
    assert_eq!(string_of(&vec!['\u{1F600}', 'a']), "\u{1F600}a");
}

#[test]
fn trimming_is_that_of_std() {
    for s in TEXTS {
        assert_eq!(text(&trim_chars(&chars(s))), s.trim(), "{:?}", s);
        let leading = strip_start_index(&chars(s), '/');
        assert_eq!(&s[leading..], s.trim_start_matches('/'), "{:?}", s);
    }
}

#[test]
fn one_layer_is_one_character_from_each_end() {
    let one = |s: &str| text(&strip_one_chars(&chars(s), '"'));
    assert_eq!(one(""), "");
    assert_eq!(one("x"), "x");
    assert_eq!(one("\""), "");
    assert_eq!(one("\"\""), "");
    assert_eq!(one("\"\"\""), "\"");
    assert_eq!(one("\"x\""), "x");
    assert_eq!(one("\"\"x\"\""), "\"x\"");
    assert_eq!(one("\"x"), "x");
    assert_eq!(one("x\""), "x");
    assert_eq!(one("a\"b"), "a\"b");
    for s in TEXTS {
        let without_start = s.strip_prefix('"').unwrap_or(s);
        let expected = without_start.strip_suffix('"').unwrap_or(without_start);
        assert_eq!(one(s), expected, "{:?}", s);
    }
}

#[test]
fn splitting_is_that_of_std() {
    for s in TEXTS {
        for sep in ['|', '=', '\n'] {
            let pieces: Vec<String> = split_chars(&chars(s), sep).iter().map(text).collect();
            let expected: Vec<&str> = s.split(sep).collect();
            assert_eq!(pieces, expected, "{:?}", s);
            assert_eq!(text(&join_pieces(&split_chars(&chars(s), sep), sep)), s);
        }
    }
}

#[test]
fn lines_are_those_of_std() {
    for s in TEXTS {
        let lines: Vec<String> = lines_of(&chars(s)).iter().map(text).collect();
        let expected: Vec<&str> = s.lines().collect();
        assert_eq!(lines, expected, "{:?}", s);
    }
}

#[test]
fn searching_and_comparing() {
    assert_eq!(find_in(&chars("a=b=c"), '='), 1);
    assert_eq!(find_in(&chars("abc"), '='), 3);
    assert_eq!(find_in(&chars(""), '='), 0);
    assert!(has_char(&chars("a=b"), '='));
    assert!(!has_char(&chars("ab"), '='));
    assert!(has_prefix(&chars("mode_1"), &chars("mode_")));
    assert!(has_prefix(&chars("mode_"), &chars("mode_")));
    assert!(has_prefix(&chars("x"), &chars("")));
    assert!(!has_prefix(&chars("mode"), &chars("mode_")));
    assert!(!has_prefix(&chars("node_1"), &chars("mode_")));
    assert!(same_chars(&chars("abc"), &chars("abc")));
    assert!(!same_chars(&chars("abc"), &chars("abd")));
    assert!(!same_chars(&chars("abc"), &chars("ab")));
    assert!(is_str(&chars("temp"), "temp"));
    assert!(!is_str(&chars("temp"), "top_k"));
    assert_eq!(slice_of(&chars("abcdef"), 2, 4), chars("cd"));
    assert_eq!(slice_of(&chars("abcdef"), 3, 3), chars(""));
}

#[test]
fn joining_paths_is_that_of_std() {
    for base in ["", "/", "/a", "/a/", "a", "a/b/"] {
        for rel in ["", "x", "x/y", "/x", "/", "x/"] {
            let joined = join_chars(&chars(base), &chars(rel));
            assert_eq!(
                text(&joined),
                PathBuf::from(base).join(rel).to_str().unwrap(),
                "{:?} {:?}",
                base,
                rel
            );
        }
    }
}

#[test]
fn repeated_prefix_is_stripped_as_std_strips_it() {
    for s in ["", "prompts/x", "prompts/prompts/x", "prompts", "xprompts/y", "prompts//x", "prompts/"] {
        assert_eq!(
            text(&strip_prefix_all_chars(&chars(s), &chars("prompts/"))),
            s.trim_start_matches("prompts/"),
            "{:?}",
            s
        );
    }
    assert_eq!(text(&strip_prefix_all_chars(&chars("aaa"), &chars(""))), "aaa");
}
