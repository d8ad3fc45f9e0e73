use deflake::command::{
    char_is_space, prepare, split_words, substitute, ConfigError, Invocation,
};

fn strings(words: &[&str]) -> Vec<String> {
    words.iter().map(|word| word.to_string()).collect()
}

#[test]
fn substitute_puts_the_file_in_place_of_the_placeholder() {
    assert_eq!(substitute("run {}", "a.test"), "run a.test");
    assert_eq!(substitute("{} --check", "tests/a.rs"), "tests/a.rs --check");
    assert_eq!(substitute("sh -c {}", ""), "sh -c ");
}

#[test]
fn substitute_without_placeholder_gives_the_template() {
    assert_eq!(substitute("echo hello", "a.test"), "echo hello");
    assert_eq!(substitute("echo hello", "b.test"), "echo hello");
    assert_eq!(substitute("", "a.test"), "");
}

#[test]
fn substitute_replaces_every_occurrence() {
    assert_eq!(substitute("{} {}", "f"), "f f");
    assert_eq!(substitute("{}{}", "f"), "ff");
    assert_eq!(substitute("cp {} {}.bak", "x"), "cp x x.bak");
}

#[test]
fn substitute_leaves_braces_that_are_no_placeholder() {
    assert_eq!(substitute("{ }", "f"), "{ }");
    assert_eq!(substitute("}{", "f"), "}{");
    assert_eq!(substitute("{", "f"), "{");
    assert_eq!(substitute("a{", "f"), "a{");
    assert_eq!(substitute("{{}}", "f"), "{f}");
    assert_eq!(substitute("{{}", "f"), "{f");
}

#[test]
fn substitute_does_not_look_into_the_file() {
    assert_eq!(substitute("run {}", "{}"), "run {}");
    assert_eq!(substitute("{}", "{}{}"), "{}{}");
}

#[test]
fn substitute_agrees_with_str_replace() {
    let templates = [
        "", "{}", "{", "}", "{}{}", "{{}}", "}{}{", "run {} now", "é{}ü", "a{b}c", "{}}", "{{{}",
    ];
    let files = ["", "f", "a b", "{}", "tests/ä.rs"];
    for template in templates {
        for file in files {
            assert_eq!(substitute(template, file), template.replace("{}", file));
        }
    }
}

#[test]
fn char_is_space_agrees_with_char_is_whitespace() {
    for code in 0..=0x10FFFFu32 {
        if let Some(c) = char::from_u32(code) {
            assert_eq!(char_is_space(c), c.is_whitespace(), "U+{:04X}", code);
        }
    }
}

#[test]
fn char_is_space_on_named_characters() {
    assert!(char_is_space(' '));
    assert!(char_is_space('\t'));
    assert!(char_is_space('\n'));
    assert!(char_is_space('\r'));
    assert!(char_is_space('\u{A0}'));
    assert!(char_is_space('\u{3000}'));
    assert!(!char_is_space('a'));
    assert!(!char_is_space('{'));
    assert!(!char_is_space('\u{200B}'));
    assert!(!char_is_space('\0'));
}

#[test]
fn split_words_splits_at_white_space() {
    assert_eq!(split_words("echo hello"), strings(&["echo", "hello"]));
    assert_eq!(split_words("  echo   hello  "), strings(&["echo", "hello"]));
    assert_eq!(split_words("a\tb\nc\r\nd"), strings(&["a", "b", "c", "d"]));
    assert_eq!(split_words("one"), strings(&["one"]));
    assert_eq!(split_words("a\u{2003}b\u{A0}c"), strings(&["a", "b", "c"]));
}

#[test]
fn split_words_of_blank_text_is_empty() {
    assert_eq!(split_words(""), Vec::<String>::new());
    assert_eq!(split_words("   "), Vec::<String>::new());
    assert_eq!(split_words("\t\n \r"), Vec::<String>::new());
}

#[test]
fn split_words_keeps_quotes_and_other_signs() {
    assert_eq!(split_words("sh -c 'exit 1'"), strings(&["sh", "-c", "'exit", "1'"]));
    assert_eq!(split_words("a=b --x={}"), strings(&["a=b", "--x={}"]));
}

#[test]
fn split_words_agrees_with_split_whitespace() {
    let texts = [
        "",
        " ",
        "a",
        " a",
        "a ",
        "a b",
        "a  b",
        "\ta\u{85}b\u{1680}c\u{2028}d\u{2029}e\u{202F}f\u{205F}g\u{3000}",
        "cargo test --test a -- --nocapture",
        "ünï cödé \u{200B}zero",
    ];
    for text in texts {
        let expected: Vec<String> = text.split_whitespace().map(|w| w.to_string()).collect();
        assert_eq!(split_words(text), expected, "{:?}", text);
    }
}

#[test]
fn prepare_takes_the_first_word_as_the_program() {
    let invocation = prepare("cargo test -- {}", "tests/a.rs").unwrap();
    assert_eq!(
        invocation,
        Invocation { binary: "cargo".to_string(), args: strings(&["test", "--", "tests/a.rs"]) }
    );
}

#[test]
fn prepare_of_a_lone_program_has_no_arguments() {
    let invocation = prepare("false", "a.test").unwrap();
    assert_eq!(invocation.binary, "false");
    assert!(invocation.args.is_empty());
    let invocation = prepare("{}", "./run.sh").unwrap();
    assert_eq!(invocation.binary, "./run.sh");
    assert!(invocation.args.is_empty());
}

#[test]
fn prepare_splits_a_file_that_holds_white_space() {
    let invocation = prepare("run {}", "a b").unwrap();
    assert_eq!(invocation.binary, "run");
    assert_eq!(invocation.args, strings(&["a", "b"]));
}

#[test]
fn prepare_rejects_a_command_without_words() {
    assert_eq!(prepare("", "a.test"), Err(ConfigError::EmptyCommand));
    assert_eq!(prepare("   ", "a.test"), Err(ConfigError::EmptyCommand));
    assert_eq!(prepare("\t\n", "a.test"), Err(ConfigError::EmptyCommand));
    assert_eq!(prepare("{}", ""), Err(ConfigError::EmptyCommand));
    assert_eq!(prepare(" {} ", "  "), Err(ConfigError::EmptyCommand));
}

#[test]
fn prepare_gives_the_same_command_for_every_file_without_placeholder() {
    let first = prepare("echo hello", "a.test").unwrap();
    let second = prepare("echo hello", "b.test").unwrap();
    assert_eq!(first, second);
    assert_eq!(first.binary, "echo");
    assert_eq!(first.args, strings(&["hello"]));
}

#[test]
fn the_number_of_words_is_the_same_for_every_one_word_file() {
    let templates = ["run {}", "{}", "a{}b", "x {}{} y", "  {} -- {} ", "no placeholder", "{} {"];
    let files = ["a", "tests/a.rs", "{}", "\u{e9}t\u{e9}"];
    for template in templates {
        let expected = split_words(&substitute(template, files[0])).len();
        for file in files {
            assert_eq!(split_words(&substitute(template, file)).len(), expected);
        }
    }
}
