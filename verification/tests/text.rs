use coreutils::text::push_decimal;
use coreutils::text::push_fitted;
use coreutils::text::push_right_justified;
use coreutils::text::push_spaces;
use coreutils::text::same_text;

#[test]
fn same_texts() {
    let words = ["", "a", "ab", "abc", "abd", "b", "\u{e9}", "e\u{301}", "--help", "--hel", "--help "];
    for x in words {
        for y in words {
            assert_eq!(same_text(x, y), x == y, "for {:?} and {:?}", x, y);
        }
    }
}

#[test]
fn decimals() {
    let mut out = String::from("n=");
    push_decimal(&mut out, 0);
    out.push(',');
    push_decimal(&mut out, 7);
    out.push(',');
    push_decimal(&mut out, 10);
    out.push(',');
    push_decimal(&mut out, 1234567890);
    out.push(',');
    push_decimal(&mut out, u128::MAX);
    assert_eq!(out, "n=0,7,10,1234567890,340282366920938463463374607431768211455");
}

#[test]
fn columns() {
    let mut out = String::from("[");
    push_fitted(&mut out, "abc", 5);
    out.push('|');
    push_fitted(&mut out, "abcdefgh", 5);
    out.push('|');
    push_fitted(&mut out, "abcde", 5);
    out.push('|');
    push_fitted(&mut out, "abc", 0);
    out.push('|');
    push_right_justified(&mut out, "abc", 5);
    out.push('|');
    push_right_justified(&mut out, "abcdefgh", 5);
    out.push('|');
    push_right_justified(&mut out, "\u{e9}\u{e9}", 3);
    out.push('|');
    push_spaces(&mut out, 2);
    push_spaces(&mut out, 0);
    out.push(']');
    assert_eq!(out, "[abc  |abcde|abcde||  abc|abcdefgh| \u{e9}\u{e9}|  ]");
}
