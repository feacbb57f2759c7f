use coreutils::cat::config::CatConfig;

use coreutils::cat::show::error_line;
use coreutils::cat::show::parse_file;
use coreutils::cat::show::show;
use coreutils::cat::show::FileRead;
use coreutils::test_utils;

#[test]
fn format_number_nonblank() {
    assert_eq!(
        coreutils::cat::format::number_nonblank_lines(test_utils::MULTI_BLANK.to_string()),
        "\t 1 this is a file\r\n\
        \r\n\
        \r\n\
        \t 2 that has\r\n\
        \r\n\
        \r\n\
        \t 3 multiple blank lines.\r\n"
    )
}

#[test]
fn format_show_ends() {
    assert_eq!(
        coreutils::cat::format::show_ends(test_utils::MULTI.to_string()),
        "this is a text file$\r\n\
        with multiple lines$\r\n\
        of text to show.$\r\n"
    )
}

#[test]
fn number_lines() {
    assert_eq!(
        coreutils::cat::format::number_lines(test_utils::BLANK.to_string()),
        "\t 1 this is a file\r\n\
        \t 2 \r\n\
        \t 3 that has\r\n\
        \t 4 \r\n\
        \t 5 blank lines.\r\n"
    )
}

#[test]
fn format_squeeze_blank() {
    assert_eq!(
        coreutils::cat::format::squeeze_blank(test_utils::MULTI_BLANK.to_string()),
        "this is a file\r\n\
        \r\n\
        that has\r\n\
        \r\n\
        multiple blank lines.\r\n"
    )
}

#[test]
fn format_show_tabs() {
    assert_eq!(
        coreutils::cat::format::show_tabs(test_utils::TABS.to_string()),
        "This^Itext^Ihas^Isome^Itabs^Iin^Iit.\r\n"
    )
}

#[test]
fn format_show_nonprinting() {
    assert_eq!(
        coreutils::cat::format::show_nonprinting(test_utils::NON_PRINTABLE.to_string()),
        "Lots ^I of ^@ control ^@^@ characters.^M^J"
    )
}

#[test]
fn regular_ascii_file() {
    let bytes = test_utils::ASCII.as_bytes().to_vec();
    let contents = match parse_file("ascii.txt", FileRead::Bytes(bytes)) {
        Ok(contents) => contents,
        Err(e) => panic!("{}", e),
    };
    assert_eq!(contents, test_utils::ASCII)
}

#[test]
fn binary_file() {
    let mut bytes: Vec<u8> = vec![0x7f, 0x45, 0x4c, 0x46, 0x00, 0xff, 0xfe, 0x80];
    bytes.extend_from_slice("Hello".as_bytes());
    bytes.extend_from_slice(&[0xc3, 0x28, 0x00]);
    let contents = match parse_file("hello.bin", FileRead::Bytes(bytes)) {
        Ok(contents) => contents,
        Err(e) => panic!("{}", e),
    };
    assert!(contents.contains("Hello"))
}

#[test]
fn invalid_bytes_are_replaced() {
    let contents = parse_file("x", FileRead::Bytes(vec![0x61, 0xff, 0x62])).unwrap();
    assert_eq!(contents, "a\u{fffd}b");
}

#[test]
fn directory_is_refused() {
    assert_eq!(
        parse_file("some/dir", FileRead::IsDirectory).unwrap_err(),
        "some/dir: Is a directory"
    );
}

#[test]
fn unreadable_file_gives_its_reason() {
    assert_eq!(
        parse_file("a.txt", FileRead::NoMetadata("not found".to_string())).unwrap_err(),
        "a.txt: not found"
    );
    assert_eq!(
        parse_file("b.txt", FileRead::NotOpened("access denied".to_string())).unwrap_err(),
        "b.txt: access denied"
    );
}

#[test]
fn error_line_names_the_program() {
    assert_eq!(error_line("a.txt: not found"), "cat: a.txt: not found");
}

fn reference_lines(text: &str) -> Vec<String> {
    text.lines().map(|l| l.to_string()).collect()
}

#[test]
fn lines_agree_with_the_standard_library() {
    let samples = [
        "",
        "a",
        "a\n",
        "a\r\n",
        "a\r",
        "\n",
        "\r\n",
        "\r",
        "\r\r\n",
        "a\n\nb",
        "a\r\n\r\nb\r\n",
        "a\rb\nc",
        "one\ntwo\r\nthree\r",
        "\n\n\n",
        "tail without end\r\n\r",
        "h\u{e9}llo\r\nw\u{f6}rld\n",
    ];
    for text in samples {
        assert_eq!(coreutils::cat::format::lines(text), reference_lines(text), "for {:?}", text);
    }
}

#[test]
fn empty_text_has_no_lines() {
    assert!(coreutils::cat::format::lines("").is_empty());
    assert_eq!(coreutils::cat::format::number_lines(String::new()), "");
    assert_eq!(coreutils::cat::format::number_nonblank_lines(String::new()), "");
    assert_eq!(coreutils::cat::format::squeeze_blank(String::new()), "");
    assert_eq!(coreutils::cat::format::show_ends(String::new()), "");
    assert_eq!(coreutils::cat::format::show_tabs(String::new()), "");
    assert_eq!(coreutils::cat::format::show_nonprinting(String::new()), "");
}

#[test]
fn numbers_grow_past_one_digit() {
    let text = "x\n".repeat(12);
    let numbered = coreutils::cat::format::number_lines(text);
    assert!(numbered.starts_with("\t 1 x\r\n\t 2 x\r\n"));
    assert!(numbered.ends_with("\t 10 x\r\n\t 11 x\r\n\t 12 x\r\n"));
}

#[test]
fn last_line_without_ending_gets_one() {
    assert_eq!(coreutils::cat::format::number_lines("a\nb".to_string()), "\t 1 a\r\n\t 2 b\r\n");
    assert_eq!(coreutils::cat::format::squeeze_blank("a\nb".to_string()), "a\r\nb\r\n");
}

#[test]
fn show_ends_marks_only_return_line_feed() {
    assert_eq!(coreutils::cat::format::show_ends("a\nb\r\nc\rd\r\r\n\r".to_string()), "a\nb$\r\nc\rd\r$\r\n\r");
    assert_eq!(
        coreutils::cat::format::show_ends("a\nb\r\nc\rd\r\r\n\r".to_string()),
        "a\nb\r\nc\rd\r\r\n\r".replace("\r\n", "$\r\n")
    );
}

#[test]
fn squeeze_keeps_first_of_each_run() {
    assert_eq!(coreutils::cat::format::squeeze_blank("\n\n\na\n\n\n\nb\n\n".to_string()), "\r\na\r\n\r\nb\r\n\r\n");
}

#[test]
fn control_characters_beyond_ascii() {
    assert_eq!(coreutils::cat::format::show_nonprinting("\u{7f}".to_string()), "^\u{bf}");
    assert_eq!(coreutils::cat::format::show_nonprinting("\u{80}\u{9f}".to_string()), "^\u{c0}^\u{df}");
    assert_eq!(coreutils::cat::format::show_nonprinting("\u{a0}\u{1f}~".to_string()), "\u{a0}^_~");
    for code in 0u32..0x300 {
        let c = char::from_u32(code).unwrap();
        assert_eq!(coreutils::cat::format::control(c), c.is_control(), "for {:?}", c);
    }
}

#[test]
fn show_applies_markups_in_order() {
    let mut config = CatConfig::new();
    config.number = true;
    config.show_ends = true;
    config.show_tabs = true;
    assert_eq!(show(&config, "a\tb\r\n".to_string()), "^I 1 a^Ib$\r\n");

    let mut config = CatConfig::new();
    config.number_nonblank = true;
    config.squeeze_blank = true;
    config.show_nonprinting = true;
    assert_eq!(show(&config, "a\n\n\nb\n".to_string()), "^I 1 a^M^J^M^J^I 2 b^M^J");

    let config = CatConfig::new();
    assert_eq!(show(&config, "a\tb\n".to_string()), "a\tb\n");
}

#[test]
fn squeezing_twice_changes_nothing() {
    let samples = [
        "",
        "\n",
        "\n\n\n",
        "a\n\n\nb",
        "a\r\n\r\n\r\nb\r\n",
        "\r\n\r\na\r\r\n\n\nlast",
        "a\r",
        "\r",
        "x\n\r\n\n\r\r\n\r\n",
    ];
    for text in samples {
        let once = coreutils::cat::format::squeeze_blank(text.to_string());
        let twice = coreutils::cat::format::squeeze_blank(once.clone());
        assert_eq!(twice, once, "for {:?}", text);
    }
}
