use text_edit::font::MonoFont;
use text_edit::line::{BreakKind, LineInfo, Wrap, wrap_lines};

fn chars(s: &str) -> Vec<char> {
    s.chars().collect()
}

fn info(start: usize, end: usize, kind: BreakKind) -> LineInfo {
    LineInfo { start, end, kind }
}

#[test]
fn rewrap_is_idempotent() {
    let font = MonoFont { width: 1 };
    let text = chars("hello world\nfoo bar baz");
    let first = wrap_lines(&text, &font, 7, Wrap::Whitespace);
    let second = wrap_lines(&text, &font, 7, Wrap::Whitespace);
    assert_eq!(first, second);
    let third = wrap_lines(&text, &font, 7, Wrap::Character);
    let fourth = wrap_lines(&text, &font, 7, Wrap::Character);
    assert_eq!(third, fourth);
}

#[test]
fn coverage_tiles_the_text() {
    let font = MonoFont { width: 1 };
    for s in ["", "a", "hello world", "ab\n\ncd ef gh", "aaaaaaaaaaaa", "a b c d e f"] {
        for w in [0u32, 1, 2, 3, 5, 100] {
            for policy in [Wrap::Whitespace, Wrap::Character] {
                let text = chars(s);
                let infos = wrap_lines(&text, &font, w, policy);
                assert!(!infos.is_empty());
                assert_eq!(infos[0].start, 0);
                assert_eq!(infos[infos.len() - 1].end, text.len());
                for i in 0..infos.len() - 1 {
                    assert_eq!(infos[i].end, infos[i + 1].start);
                }
            }
        }
    }
}

#[test]
fn empty_text_yields_one_empty_descriptor() {
    let font = MonoFont { width: 1 };
    let infos = wrap_lines(&chars(""), &font, 10, Wrap::Whitespace);
    assert_eq!(infos, vec![info(0, 0, BreakKind::End)]);
}

#[test]
fn whitespace_break_consumes_trailing_space() {
    // Width fits exactly "hello": the break consumes the space into the
    // earlier line, giving ["hello ", "world"].
    let font = MonoFont { width: 1 };
    let infos = wrap_lines(&chars("hello world"), &font, 5, Wrap::Whitespace);
    assert_eq!(
        infos,
        vec![info(0, 6, BreakKind::WrapWhitespace), info(6, 11, BreakKind::End)]
    );
}

#[test]
fn character_wrap_breaks_before_exceeding_char() {
    let font = MonoFont { width: 1 };
    let infos = wrap_lines(&chars("abcd"), &font, 2, Wrap::Character);
    assert_eq!(
        infos,
        vec![info(0, 2, BreakKind::WrapCharacter), info(2, 4, BreakKind::End)]
    );
}

#[test]
fn whitespace_wrap_falls_back_on_unbroken_token() {
    let font = MonoFont { width: 1 };
    let infos = wrap_lines(&chars("aaaa"), &font, 2, Wrap::Whitespace);
    assert_eq!(
        infos,
        vec![info(0, 2, BreakKind::WrapCharacter), info(2, 4, BreakKind::End)]
    );
}

#[test]
fn literal_newline_always_ends_a_line() {
    let font = MonoFont { width: 1 };
    let infos = wrap_lines(&chars("a\nb"), &font, 100, Wrap::Whitespace);
    assert_eq!(
        infos,
        vec![info(0, 2, BreakKind::Newline), info(2, 3, BreakKind::End)]
    );
}

#[test]
fn trailing_newline_yields_final_empty_line() {
    let font = MonoFont { width: 1 };
    let infos = wrap_lines(&chars("a\n"), &font, 100, Wrap::Whitespace);
    assert_eq!(
        infos,
        vec![info(0, 2, BreakKind::Newline), info(2, 2, BreakKind::End)]
    );
}

#[test]
fn overwide_single_char_does_not_stall() {
    let font = MonoFont { width: 9 };
    let infos = wrap_lines(&chars("ab"), &font, 4, Wrap::Character);
    assert_eq!(
        infos,
        vec![info(0, 1, BreakKind::WrapCharacter), info(1, 2, BreakKind::End)]
    );
}
