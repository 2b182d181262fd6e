//! Tests of the tokenizer: comment stripping, trimming, line splitting and
//! token splitting.

use mycpu::assembler::tokenizer::{split_lines, strip_comments, tokenize, trim, Line};

#[test]
fn test_strip_comments_no_comment() {
    let s = "foobar";
    assert_eq!(&strip_comments(s.into()), s);
}

#[test]
fn test_strip_comments_comment() {
    let s = "foobar // test";
    assert_eq!(&strip_comments(s.into()), "foobar ");
}

#[test]
fn test_trim_no_change() {
    let s = "foobar";
    assert_eq!(&trim(s.into()), s);
}

#[test]
fn test_trim() {
    let s = "  foobar   \t";
    assert_eq!(&trim(s.into()), "foobar");
}

#[test]
fn test_split_lines_empty() {
    let res = split_lines("abc\n\nghi");

    assert_eq!(
        res,
        vec![
            Line {
                line_number: 1,
                text: "abc".into()
            },
            Line {
                line_number: 2,
                text: "".into()
            },
            Line {
                line_number: 3,
                text: "ghi".into()
            }
        ]
    );
}

#[test]
fn test_tokenize_commas_and_blanks() {
    let lines = tokenize("  ldi r0, 10 // load\n\n   \nhalt");
    assert_eq!(lines.len(), 2);
    assert_eq!(lines[0].line.line_number, 1);
    assert_eq!(lines[0].tokens.len(), 3);
    assert_eq!(lines[0].tokens[0].token, "ldi");
    assert_eq!(lines[0].tokens[1].token, "r0");
    assert_eq!(lines[0].tokens[2].token, "10");
    assert_eq!(lines[1].line.line_number, 4);
    assert_eq!(lines[1].tokens.len(), 1);
    assert_eq!(lines[1].tokens[0].token, "halt");
}

#[test]
fn test_tokenize_comment_only_line() {
    let lines = tokenize("// nothing here\nnop");
    assert_eq!(lines.len(), 1);
    assert_eq!(lines[0].line.line_number, 2);
    assert_eq!(lines[0].tokens[0].token, "nop");
}

#[test]
fn test_split_lines_strips_carriage_return() {
    let res = split_lines("abc\r\ndef");
    assert_eq!(res.len(), 2);
    assert_eq!(res[0].text, "abc");
    assert_eq!(res[1].text, "def");
}
