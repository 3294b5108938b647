use capsule_corp::geometry::{AvailableSpace, Size};
use capsule_corp::keywords::WhiteSpace;
use capsule_corp::text::measure_text;

#[test]
fn no_wrap_simple() {
    let size = measure_text("hello", WhiteSpace::NoWrap, AvailableSpace::Definite(100));
    assert_eq!(size, Size::new(5, 1));
}

#[test]
fn no_wrap_empty() {
    let size = measure_text("", WhiteSpace::NoWrap, AvailableSpace::Definite(100));
    assert_eq!(size, Size::new(0, 0));
}

#[test]
fn no_wrap_wide_chars() {
    let size = measure_text("日本語", WhiteSpace::NoWrap, AvailableSpace::Definite(100));
    assert_eq!(size, Size::new(6, 1));
}

#[test]
fn wrap_fits() {
    let size = measure_text("hello world", WhiteSpace::Normal, AvailableSpace::Definite(20));
    assert_eq!(size, Size::new(11, 1));
}

#[test]
fn wrap_breaks() {
    let size = measure_text("hello world", WhiteSpace::Normal, AvailableSpace::Definite(8));
    assert_eq!(size, Size::new(6, 2));
}

#[test]
fn wrap_multiple_lines() {
    let size = measure_text("one two three four", WhiteSpace::Normal, AvailableSpace::Definite(9));
    assert_eq!(size.height, 3);
}

#[test]
fn min_content() {
    let size = measure_text("hello wonderful world", WhiteSpace::Normal, AvailableSpace::MinContent);
    assert_eq!(size.width, 9);
}

#[test]
fn max_content() {
    let size = measure_text("hello world", WhiteSpace::Normal, AvailableSpace::MaxContent);
    assert_eq!(size, Size::new(11, 1));
}

#[test]
fn cjk_words() {
    let size = measure_text("日本語テスト", WhiteSpace::Normal, AvailableSpace::MinContent);
    assert_eq!(size.width, 6);
}

#[test]
fn pre_keeps_one_line() {
    let size = measure_text("a b c", WhiteSpace::Pre, AvailableSpace::Definite(1));
    assert_eq!(size, Size::new(5, 1));
}

#[test]
fn wrap_empty_text() {
    let size = measure_text("", WhiteSpace::Normal, AvailableSpace::Definite(4));
    assert_eq!(size, Size::new(0, 0));
}
