use usi_engine::decimal::push_decimal;
use usi_engine::text::{chars_of, is_whitespace};
use usi_engine::usi::parser::{parse_info, parse_usi_line, ThinkingInfo, UsiResponse};

fn info_of(line: &str) -> ThinkingInfo {
    match parse_info(line) {
        UsiResponse::Info(info) => info,
        other => panic!("Expected Info, got {:?}", other),
    }
}

#[test]
fn white_space_is_what_the_standard_library_says() {
    let mut count = 0;
    for code in 0..=0x10FFFFu32 {
        if let Some(c) = char::from_u32(code) {
            assert_eq!(is_whitespace(c), c.is_whitespace(), "U+{:04X}", code);
            if is_whitespace(c) {
                count += 1;
            }
        }
    }
    assert_eq!(count, 25);
}

#[test]
fn chars_of_gives_each_character() {
    assert_eq!(chars_of(""), Vec::<char>::new());
    assert_eq!(chars_of("usi"), vec!['u', 's', 'i']);
    assert_eq!(chars_of("歩 7七"), vec!['歩', ' ', '7', '七']);
}

#[test]
fn lines_are_trimmed_as_the_standard_library_trims_them() {
    let samples = [
        "", " ", "a", " a", "a ", "  a b  ", "\t\r\n", "\u{3000}x\u{a0}", "x\u{feff}", " \u{0} ",
        "ab  ", "   ab", "a  b", "\u{2028}歩 7七\u{2029}", "\u{85}\u{1680}q\u{202f}\u{205f}",
        "\u{180e}z\u{200b}",
    ];
    for sample in samples {
        assert_eq!(
            parse_usi_line(sample),
            UsiResponse::Unknown(sample.trim().to_string()),
            "sample {:?}",
            sample
        );
    }
}

#[test]
fn lines_are_split_as_the_standard_library_splits_them() {
    let samples = [
        "", " ", "a", " a", "a ", "  a b  ", "\t\r\n", "\u{3000}x\u{a0}y", "a\u{feff}b", "a  b  c",
        "info depth 5", "   ", "one", "歩 7七\u{2003}金", "a\u{b}b\u{c}c\u{d}d\u{85}e",
        "\u{2000}a\u{2001}b\u{2002}c\u{2004}d\u{2005}e\u{2006}f\u{2007}g\u{2008}h\u{2009}i\u{200a}",
        "a\u{180e}b\u{200b}c\u{200c}d\u{2060}e",
    ];
    for sample in samples {
        let info = info_of(&format!("x pv {}", sample));
        let expected: Vec<&str> = sample.split_whitespace().collect();
        assert_eq!(info.pv, expected, "sample {:?}", sample);
    }
}

#[test]
fn numbers_are_written_in_decimal() {
    for n in [0u64, 1, 9, 10, 11, 99, 100, 101, 4294967295, u64::MAX] {
        let mut out = String::from("n=");
        push_decimal(&mut out, n);
        assert_eq!(out, format!("n={}", n));
    }
}

#[test]
fn numbers_are_read_as_the_standard_library_reads_them() {
    let samples = [
        "0", "1", "+1", "-1", "00", "+0", "-0", "+", "-", "++1", "+-1", "-+1", "1+", "12a", "a12",
        "4294967295", "4294967296", "2147483647", "2147483648", "-2147483648", "-2147483649",
        "18446744073709551615", "18446744073709551616", "+18446744073709551615",
        "000000000000000000000000000001", "99999999999999999999999999999", "٣", "９", "1.0",
        "-000", "+000", "0-", "1-1", "/", ":", "0/", "9:",
    ];
    for sample in samples {
        let info = info_of(&format!(
            "x depth {0} score cp {0} nodes {0} nps {0} time {0}",
            sample
        ));
        assert_eq!(info.depth, sample.parse::<u32>().ok(), "depth {:?}", sample);
        assert_eq!(info.time, sample.parse::<u32>().ok(), "time {:?}", sample);
        assert_eq!(info.nodes, sample.parse::<u64>().ok(), "nodes {:?}", sample);
        assert_eq!(info.nps, sample.parse::<u64>().ok(), "nps {:?}", sample);
        assert_eq!(info.score_cp, sample.parse::<i32>().ok(), "score {:?}", sample);
    }
}

#[test]
fn numbers_that_were_written_are_read_back() {
    let mut n: u64 = 0;
    loop {
        let mut line = String::from("x nodes ");
        push_decimal(&mut line, n);
        line.push_str(" depth ");
        push_decimal(&mut line, n);
        let info = info_of(&line);
        assert_eq!(info.nodes, Some(n));
        if n <= u32::MAX as u64 {
            assert_eq!(info.depth, Some(n as u32));
        } else {
            assert_eq!(info.depth, None);
        }
        if n > u64::MAX / 5 {
            break;
        }
        n = n * 5 + 3;
    }
}
