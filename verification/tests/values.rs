use pacman_conf::text::{char_is_whitespace, lower_char, lowercase};
use pacman_conf::{
    parse_architecture, parse_bool, parse_clean_method, parse_number, parse_parallel_downloads,
    parse_usage, Architecture, CleanMethod, NumberFault, Usage,
};

#[test]
fn yes_in_any_case_is_true() {
    assert_eq!(parse_bool("yes"), Ok(true));
    assert_eq!(parse_bool("Yes"), Ok(true));
    assert_eq!(parse_bool("YES"), Ok(true));
    assert_eq!(parse_bool("yEs"), Ok(true));
}

#[test]
fn no_in_any_case_is_false() {
    assert_eq!(parse_bool("no"), Ok(false));
    assert_eq!(parse_bool("No"), Ok(false));
    assert_eq!(parse_bool("NO"), Ok(false));
    assert_eq!(parse_bool("nO"), Ok(false));
}

#[test]
fn other_tokens_are_no_boolean() {
    assert_eq!(parse_bool("true"), Err("Invalid boolean value: true".to_string()));
    assert_eq!(parse_bool("1"), Err("Invalid boolean value: 1".to_string()));
    assert_eq!(parse_bool(""), Err("Invalid boolean value: ".to_string()));
    assert_eq!(parse_bool(" yes"), Err("Invalid boolean value:  yes".to_string()));
    assert_eq!(parse_bool("yess"), Err("Invalid boolean value: yess".to_string()));
    assert_eq!(parse_bool("y"), Err("Invalid boolean value: y".to_string()));
}

#[test]
fn architectures() {
    assert_eq!(parse_architecture("auto"), Ok(Architecture::Auto));
    assert_eq!(parse_architecture("Auto"), Ok(Architecture::Auto));
    assert_eq!(parse_architecture("i686"), Ok(Architecture::I686));
    assert_eq!(parse_architecture("I686"), Ok(Architecture::I686));
    assert_eq!(parse_architecture("x86_64"), Ok(Architecture::X86_64));
    assert_eq!(parse_architecture("X86_64"), Ok(Architecture::X86_64));
    assert_eq!(parse_architecture("arm"), Err("Invalid architecture: arm".to_string()));
    assert_eq!(parse_architecture("x86-64"), Err("Invalid architecture: x86-64".to_string()));
}

#[test]
fn clean_methods() {
    assert_eq!(parse_clean_method("KeepInstalled"), Ok(CleanMethod::KeepInstalled));
    assert_eq!(parse_clean_method("keepinstalled"), Ok(CleanMethod::KeepInstalled));
    assert_eq!(parse_clean_method("KeepCurrent"), Ok(CleanMethod::KeepCurrent));
    assert_eq!(parse_clean_method("KEEPCURRENT"), Ok(CleanMethod::KeepCurrent));
    assert_eq!(
        parse_clean_method("KeepAll"),
        Err("Invalid clean method: KeepAll".to_string())
    );
}

#[test]
fn usages() {
    assert_eq!(parse_usage("sync"), Ok(Usage::Sync));
    assert_eq!(parse_usage("Search"), Ok(Usage::Search));
    assert_eq!(parse_usage("INSTALL"), Ok(Usage::Install));
    assert_eq!(parse_usage("upgrade"), Ok(Usage::Upgrade));
    assert_eq!(parse_usage("All"), Ok(Usage::All));
    assert_eq!(parse_usage("bogus"), Err("Invalid usage: bogus".to_string()));
    assert_eq!(parse_usage("Sync Search"), Err("Invalid usage: Sync Search".to_string()));
}

#[test]
fn kelvin_sign_reads_as_k() {
    assert_eq!(parse_clean_method("\u{212A}eepCurrent"), Ok(CleanMethod::KeepCurrent));
    assert_eq!(
        "\u{212A}eepCurrent".to_lowercase(),
        "keepcurrent".to_string()
    );
}

#[test]
fn vocabularies_agree_with_unicode_lowercase() {
    let tokens = [
        "yes", "no", "auto", "i686", "x86_64", "keepinstalled", "keepcurrent", "sync", "search",
        "install", "upgrade", "all",
    ];
    let inputs = [
        "Yes", "nO", "AUTO", "I686", "X86_64", "keepInstalled", "\u{212A}EEPCURRENT", "SYNC",
        "\u{130}nstall", "ALL", "a\u{3a3}", "\u{17f}ync", "upgrad\u{c9}", "",
    ];
    for input in inputs {
        let low = lowercase(input);
        for token in tokens {
            assert_eq!(low == token, input.to_lowercase() == token, "{:?} {:?}", input, token);
        }
    }
}

#[test]
fn lowercase_of_each_char_agrees_on_ascii_letters() {
    for code in 0u32..=0x10FFFF {
        if let Some(c) = char::from_u32(code) {
            let std_low: String = c.to_lowercase().collect();
            let ours = lower_char(c);
            let std_is_ascii = std_low.len() == 1 && std_low.is_ascii();
            if std_is_ascii {
                assert_eq!(ours.to_string(), std_low, "{:?}", c);
            } else {
                assert_eq!(ours, c, "{:?}", c);
                assert!(!ours.is_ascii(), "{:?}", c);
            }
        }
    }
}

#[test]
fn whitespace_is_the_unicode_property() {
    for code in 0u32..=0x10FFFF {
        if let Some(c) = char::from_u32(code) {
            assert_eq!(char_is_whitespace(c), c.is_whitespace(), "{:?}", c);
        }
    }
}

#[test]
fn numbers() {
    assert_eq!(parse_number("10"), Ok(10));
    assert_eq!(parse_number("0"), Ok(0));
    assert_eq!(parse_number("+7"), Ok(7));
    assert_eq!(parse_number("00012"), Ok(12));
    assert_eq!(parse_number("4294967295"), Ok(4294967295));
    assert_eq!(parse_number("4294967296"), Err(NumberFault::TooLarge));
    assert_eq!(parse_number("99999999999"), Err(NumberFault::TooLarge));
    assert_eq!(parse_number(""), Err(NumberFault::Empty));
    assert_eq!(parse_number("+"), Err(NumberFault::InvalidDigit));
    assert_eq!(parse_number("-"), Err(NumberFault::InvalidDigit));
    assert_eq!(parse_number("-5"), Err(NumberFault::InvalidDigit));
    assert_eq!(parse_number("++5"), Err(NumberFault::InvalidDigit));
    assert_eq!(parse_number("12a"), Err(NumberFault::InvalidDigit));
    assert_eq!(parse_number("1 2"), Err(NumberFault::InvalidDigit));
    assert_eq!(parse_number("1_000"), Err(NumberFault::InvalidDigit));
    assert_eq!(parse_number("99999999999x"), Err(NumberFault::TooLarge));
    assert_eq!(parse_number("9x99999999999"), Err(NumberFault::InvalidDigit));
    assert_eq!(parse_number("\u{661}"), Err(NumberFault::InvalidDigit));
}

#[test]
fn numbers_agree_with_the_standard_parser() {
    let inputs = [
        "", "+", "-", "0", "5", "+5", "-5", "++5", "+-5", "10", "0010", "4294967295",
        "4294967296", "42949672950", "+4294967295", "+4294967296", "99999999999999999999",
        "12a", "a12", "1 2", " 12", "12 ", "1_000", "0x10", "99999999999x", "9x99999999999",
        "429496729x", "4294967296x", "\u{661}\u{662}", "1.5", "1e3",
    ];
    for input in inputs {
        let ours = parse_number(input);
        let theirs = input.parse::<u32>();
        match (ours, theirs) {
            (Ok(a), Ok(b)) => assert_eq!(a, b, "{:?}", input),
            (Err(f), Err(e)) => {
                let text = match f {
                    NumberFault::Empty => "cannot parse integer from empty string",
                    NumberFault::InvalidDigit => "invalid digit found in string",
                    NumberFault::TooLarge => "number too large to fit in target type",
                };
                assert_eq!(text, e.to_string(), "{:?}", input);
            }
            (a, b) => panic!("{:?}: {:?} against {:?}", input, a, b),
        }
    }
}

#[test]
fn parallel_downloads_messages() {
    assert_eq!(parse_parallel_downloads("10"), Ok(10));
    assert_eq!(
        parse_parallel_downloads("many"),
        Err("Invalid ParallelDownloads value: invalid digit found in string".to_string())
    );
    assert_eq!(
        parse_parallel_downloads(""),
        Err("Invalid ParallelDownloads value: cannot parse integer from empty string".to_string())
    );
    assert_eq!(
        parse_parallel_downloads("4294967296"),
        Err("Invalid ParallelDownloads value: number too large to fit in target type".to_string())
    );
    assert_eq!(
        parse_parallel_downloads("-1"),
        Err("Invalid ParallelDownloads value: invalid digit found in string".to_string())
    );
}
