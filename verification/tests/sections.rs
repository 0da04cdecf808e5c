use pacman_conf::text::{chars_of, line_ranges, string_of, trim_in};
use pacman_conf::{parse_sections, Entry, Section};

fn entry(key: &str, value: &str) -> Entry {
    Entry { key: key.to_string(), value: value.to_string() }
}

fn section(name: &str, entries: Vec<Entry>) -> Section {
    Section { name: name.to_string(), entries }
}

#[test]
fn empty_text_has_no_section() {
    assert_eq!(parse_sections(""), Vec::<Section>::new());
    assert_eq!(parse_sections("\n\n   \n"), Vec::<Section>::new());
}

#[test]
fn header_opens_a_section() {
    assert_eq!(parse_sections("[options]"), vec![section("options", vec![])]);
    assert_eq!(parse_sections("[options]\n"), vec![section("options", vec![])]);
    assert_eq!(parse_sections("  [core]  \r\n"), vec![section("core", vec![])]);
}

#[test]
fn header_name_is_kept_as_written() {
    assert_eq!(parse_sections("[ core ]"), vec![section(" core ", vec![])]);
    assert_eq!(parse_sections("[]"), vec![section("", vec![])]);
    assert_eq!(parse_sections("[a=b]"), vec![section("a=b", vec![])]);
    assert_eq!(parse_sections("[[x]]"), vec![section("[x]", vec![])]);
}

#[test]
fn settings_go_to_the_open_section() {
    let text = "[options]\nRootDir = /\nDBPath=/db\n[core]\nServer = a\n";
    assert_eq!(
        parse_sections(text),
        vec![
            section("options", vec![entry("RootDir", "/"), entry("DBPath", "/db")]),
            section("core", vec![entry("Server", "a")]),
        ]
    );
}

#[test]
fn settings_before_any_header_are_dropped() {
    let text = "RootDir = /\n[options]\nDBPath = /db\n";
    assert_eq!(parse_sections(text), vec![section("options", vec![entry("DBPath", "/db")])]);
}

#[test]
fn comments_and_blank_lines_are_skipped() {
    let text = "# first\n\n[options]\n   # indented = comment\n\t\nColor = yes\n#[core]\n";
    assert_eq!(parse_sections(text), vec![section("options", vec![entry("Color", "yes")])]);
}

#[test]
fn the_first_equals_sign_splits() {
    let text = "[options]\nXferCommand = /usr/bin/curl -o %o --data a=b %u\nKey==x\n=v\nk=\n";
    assert_eq!(
        parse_sections(text),
        vec![section(
            "options",
            vec![
                entry("XferCommand", "/usr/bin/curl -o %o --data a=b %u"),
                entry("Key", "=x"),
                entry("", "v"),
                entry("k", ""),
            ]
        )]
    );
}

#[test]
fn values_are_not_split_on_whitespace() {
    let text = "[options]\nHoldPkg = pacman glibc\n";
    assert_eq!(
        parse_sections(text),
        vec![section("options", vec![entry("HoldPkg", "pacman glibc")])]
    );
}

#[test]
fn lines_without_equals_sign_are_dropped() {
    let text = "[options]\nColor\n[core\ncore]\nILoveCandy\n";
    assert_eq!(parse_sections(text), vec![section("options", vec![])]);
}

#[test]
fn a_bracket_line_that_does_not_close_is_a_setting_or_nothing() {
    let text = "[options]\n[core] = x\n[\n]\n";
    assert_eq!(parse_sections(text), vec![section("options", vec![entry("[core]", "x")])]);
}

#[test]
fn repeated_keys_keep_every_value_in_order() {
    let text = "[core]\nServer = one\nSigLevel = A\nServer = two\nServer = three\nSigLevel = B\n";
    assert_eq!(
        parse_sections(text),
        vec![section(
            "core",
            vec![
                entry("Server", "one"),
                entry("SigLevel", "A"),
                entry("Server", "two"),
                entry("Server", "three"),
                entry("SigLevel", "B"),
            ]
        )]
    );
}

#[test]
fn sections_of_one_name_are_merged_at_the_first() {
    let text = "[core]\nServer = one\n[extra]\nServer = x\n[core]\nServer = two\n";
    assert_eq!(
        parse_sections(text),
        vec![
            section("core", vec![entry("Server", "one"), entry("Server", "two")]),
            section("extra", vec![entry("Server", "x")]),
        ]
    );
}

#[test]
fn section_lookups() {
    let s = section(
        "core",
        vec![entry("Server", "one"), entry("SigLevel", "A"), entry("Server", "two"), entry("SigLevel", "B")],
    );
    assert_eq!(s.values("Server"), vec!["one".to_string(), "two".to_string()]);
    assert_eq!(s.values("Usage"), Vec::<String>::new());
    assert_eq!(s.first("SigLevel"), Some(&"A".to_string()));
    assert_eq!(s.first("server"), None);
}

#[test]
fn unicode_whitespace_is_trimmed() {
    let text = "\u{a0}[core]\u{3000}\n\u{2003}Server\u{2009}=\u{205f}one\u{85}\n";
    assert_eq!(parse_sections(text), vec![section("core", vec![entry("Server", "one")])]);
}

#[test]
fn lines_and_ranges() {
    let chars = chars_of("  a b \n\nxy");
    assert_eq!(chars, vec![' ', ' ', 'a', ' ', 'b', ' ', '\n', '\n', 'x', 'y']);
    assert_eq!(line_ranges(&chars), vec![(2, 5), (7, 7), (8, 10)]);
    assert_eq!(trim_in(&chars, 0, 6), (2, 5));
    assert_eq!(trim_in(&chars, 0, 2), (2, 2));
    assert_eq!(string_of(&chars, 2, 5), "a b".to_string());
    let ends = chars_of("a\n");
    assert_eq!(line_ranges(&ends), vec![(0, 1), (2, 2)]);
    let none = chars_of("");
    assert_eq!(line_ranges(&none), vec![(0, 0)]);
}

#[test]
fn lines_agree_with_the_standard_reader() {
    let texts = [
        "", "a", "a\n", "a\nb", "a\r\nb\r\n", "\n\na\n\n", " a \n\tb\t\n", "a\rb\n", "\u{a0}x\u{a0}\ny",
    ];
    for text in texts {
        let chars = chars_of(text);
        let ours: Vec<String> = line_ranges(&chars)
            .into_iter()
            .map(|(lo, hi)| string_of(&chars, lo, hi))
            .filter(|l| !l.is_empty())
            .collect();
        let theirs: Vec<String> = text
            .lines()
            .map(|l| l.trim().to_string())
            .filter(|l| !l.is_empty())
            .collect();
        assert_eq!(ours, theirs, "{:?}", text);
    }
}
