use stash_core::sort::lex_le_exec;
use stash_core::terminal::{
    encode_output_chunk, fallback_shell, git_location_of, reader_step, require_session, ReadOutcome,
    ReaderAction, READ_CHUNK,
};
use stash_core::text::{join_chars, lines_of, parse_i64_chars, to_chars, trim_chars, words_of};

fn chars(x: &str) -> Vec<char> {
    x.chars().collect()
}

fn texts(v: Vec<Vec<char>>) -> Vec<String> {
    v.into_iter().map(|c| c.into_iter().collect()).collect()
}

#[test]
fn output_chunks_are_sent_as_standard_base64() {
    assert_eq!(encode_output_chunk(b"hello"), "aGVsbG8=");
    assert_eq!(encode_output_chunk(b""), "");
    assert_eq!(encode_output_chunk(&[0xff, 0xfe]), "//4=");
    assert_eq!(encode_output_chunk(b"abc").len(), 4);
    assert!(READ_CHUNK >= 4096);
}

#[test]
fn reader_forwards_data_and_closes_on_end_or_error() {
    match reader_step(ReadOutcome::Data(b"ls\r\n".to_vec())) {
        ReaderAction::Emit(p) => assert_eq!(p, "bHMNCg=="),
        ReaderAction::Close => panic!("data must be forwarded"),
    }
    assert!(matches!(reader_step(ReadOutcome::Eof), ReaderAction::Close));
    assert!(matches!(reader_step(ReadOutcome::Failed), ReaderAction::Close));
    assert!(matches!(reader_step(ReadOutcome::Data(Vec::new())), ReaderAction::Close));
}

#[test]
fn git_location_is_the_first_trimmed_line() {
    assert_eq!(
        git_location_of("C:\\Program Files\\Git\\cmd\\git.exe\r\nC:\\other\\git.exe\r\n"),
        Some("C:\\Program Files\\Git\\cmd\\git.exe".to_string())
    );
    assert_eq!(git_location_of("  /usr/bin/git  \n"), Some("/usr/bin/git".to_string()));
    assert_eq!(git_location_of(""), None);
    assert_eq!(git_location_of("   \n/usr/bin/git\n"), None);
}

#[test]
fn fallback_shell_choice() {
    assert_eq!(fallback_shell(true, Some("/bin/zsh".to_string())), "powershell.exe");
    assert_eq!(fallback_shell(false, Some("/bin/zsh".to_string())), "/bin/zsh");
    assert_eq!(fallback_shell(false, None), "/bin/bash");
    assert_eq!(require_session(false), Err("No hay una terminal activa".to_string()));
    assert_eq!(require_session(true), Ok(()));
}

#[test]
fn text_helpers_follow_std() {
    assert_eq!(texts(lines_of(&chars("a\r\nb\n\nc"))), vec!["a", "b", "", "c"]);
    assert_eq!(texts(lines_of(&chars("a\n"))), vec!["a"]);
    assert!(lines_of(&chars("")).is_empty());
    assert_eq!(texts(words_of(&chars("  x\ty  z "))), vec!["x", "y", "z"]);
    let t: String = trim_chars(&chars("\u{a0} hi \n")).into_iter().collect();
    assert_eq!(t, "hi");
    let j: String = join_chars(&vec![chars("a"), chars("b")], &chars(", ")).into_iter().collect();
    assert_eq!(j, "a, b");
    assert_eq!(to_chars("héllo").len(), 5);
}

#[test]
fn integers_parse_like_std() {
    assert_eq!(parse_i64_chars(&chars("42")), Some(42));
    assert_eq!(parse_i64_chars(&chars("+7")), Some(7));
    assert_eq!(parse_i64_chars(&chars("-9223372036854775808")), Some(i64::MIN));
    assert_eq!(parse_i64_chars(&chars("9223372036854775808")), None);
    assert_eq!(parse_i64_chars(&chars("")), None);
    assert_eq!(parse_i64_chars(&chars("-")), None);
    assert_eq!(parse_i64_chars(&chars("1000+")), None);
    assert_eq!(parse_i64_chars(&chars(" 1")), None);
}

#[test]
fn names_order_by_code_points() {
    assert!(lex_le_exec(&chars("abc"), &chars("abd")));
    assert!(lex_le_exec(&chars("ab"), &chars("abc")));
    assert!(!lex_le_exec(&chars("b"), &chars("abc")));
    assert!(lex_le_exec(&chars("Z"), &chars("a")));
    assert!(lex_le_exec(&chars(""), &chars("")));
}

#[test]
fn decimal_text_of_numbers() {
    assert_eq!(stash_core::text::decimal_of(0), "0");
    assert_eq!(stash_core::text::decimal_of(10), "10");
    assert_eq!(stash_core::text::decimal_of(907), "907");
    assert_eq!(stash_core::text::decimal_of(u64::MAX), u64::MAX.to_string());
}
