use capsule_corp::unresolved::UnresolvedValue;
use capsule_corp::color::{BasicColor, Color};
use capsule_corp::value_parser::{ascii_ci_eq, parse_color, parse_value_with_vars, ColorError, VarError};
use cssparser::TokenSerializationType;

fn parse(s: &str) -> Option<UnresolvedValue> {
    parse_value_with_vars(s, TokenSerializationType::Nothing).ok().and_then(|v| v.unresolved)
}

#[test]
fn no_var_returns_none() {
    assert!(parse("red").is_none());
    assert!(parse("10 solid blue").is_none());
    assert!(parse("calc(100% - 10)").is_none());
}

#[test]
fn simple_var() {
    let result = parse("var(--primary)").expect("failed");
    assert_eq!(result.references.len(), 1);
    assert!(result.references[0].name == "primary");
    assert!(result.references[0].fallback.is_none());
}

#[test]
fn unresolved_var_with_fallback() {
    let result = parse("var(--primary, blue)").expect("failed");
    assert_eq!(result.references.len(), 1);
    assert!(result.references[0].name == "primary");
    assert!(result.references[0].fallback.is_some());
}

#[test]
fn nested_var_in_function() {
    let result = parse("calc(var(--size) + 10)").expect("failed");
    assert_eq!(result.references.len(), 1);
    assert!(result.references[0].name == "size");
}

#[test]
fn multiple_vars() {
    let result = parse("var(--a) var(--b)").expect("failed");
    assert_eq!(result.references.len(), 2);
    assert!(result.references[0].name == "a");
    assert!(result.references[1].name == "b");
}

#[test]
fn nested_var_in_fallback() {
    let result = parse("var(--a, var(--b))").expect("failed");
    assert_eq!(result.references.len(), 2);
    assert!(result.references[0].name == "b");
    assert!(result.references[1].name == "a");
}

#[test]
fn token_types_are_tracked() {
    let result = parse("1 + var(--x)").expect("failed");
    assert!(result.first_token_type != TokenSerializationType::Nothing);
    assert!(result.last_token_type != TokenSerializationType::Nothing);
}

#[test]
fn byte_offsets_correct() {
    let result = parse("var(--foo)").expect("failed");
    assert_eq!(result.references[0].start, 0);
    assert_eq!(result.references[0].end, 10);

    let result = parse("calc(var(--foo) + 1)").expect("failed");
    assert_eq!(result.references[0].start, 5);
    assert_eq!(result.references[0].end, 15);
}

#[test]
fn fallback_positions_and_types() {
    let result = parse("a var(--x,  b c) d").expect("failed");
    assert_eq!(result.css, "a var(--x,  b c) d");
    let r = &result.references[0];
    assert_eq!((r.start, r.end), (2, 16));
    let fallback = r.fallback.as_ref().expect("fallback");
    assert_eq!(fallback.start, 12);
    assert_eq!(fallback.first_token_type, TokenSerializationType::Ident);
    assert_eq!(fallback.last_token_type, TokenSerializationType::Ident);
    assert_eq!(r.prev_token_type, TokenSerializationType::WhiteSpace);
    assert_eq!(r.next_token_type, TokenSerializationType::WhiteSpace);
    assert!(result.is_well_formed());
}

#[test]
fn value_stops_before_important_and_semicolon() {
    let v = parse_value_with_vars("var(--a) !IMPORTANT", TokenSerializationType::Nothing).expect("ok");
    assert_eq!(v.unresolved.expect("var").css, "var(--a)");
    assert_eq!(v.stop, 9);

    let v = parse_value_with_vars("var(--a) b; c", TokenSerializationType::Nothing).expect("ok");
    assert_eq!(v.css, "var(--a) b");
    assert_eq!(v.stop, 10);

    let result = parse("var(--a) ! b").expect("var");
    assert_eq!(result.css, "var(--a) ! b");
}

#[test]
fn value_without_var_gives_its_text() {
    let v = parse_value_with_vars("  red /* x */ blue !important", TokenSerializationType::Nothing)
        .expect("ok");
    assert!(v.unresolved.is_none());
    assert_eq!(v.css, "red /* x */ blue");
    assert_eq!(v.stop, 19);
}

#[test]
fn var_errors() {
    let err = |s: &str| parse_value_with_vars(s, TokenSerializationType::Nothing).err();
    assert_eq!(err("var(primary)"), Some(VarError::InvalidVariable));
    assert_eq!(err("var()"), Some(VarError::EndOfInput));
    assert_eq!(err("var(--a b)"), Some(VarError::UnexpectedToken));
    assert_eq!(err("f(var(--a); b)"), Some(VarError::UnexpectedToken));
}

#[test]
fn var_name_in_any_case() {
    let result = parse("VAR(--a)").expect("var");
    assert!(result.references[0].name == "a");
    assert!(ascii_ci_eq("Important", "important"));
    assert!(!ascii_ci_eq("importan", "important"));
}

#[test]
fn unclosed_blocks_end_with_the_text() {
    let result = parse("calc(var(--a) + (1").expect("var");
    assert_eq!(result.references[0].start, 5);
    assert_eq!(result.references[0].end, 13);
    let result = parse("var(--a, x").expect("var");
    assert!(result.references[0].fallback.is_some());
}

fn color(s: &str) -> Result<Color, ColorError> {
    parse_color(s, TokenSerializationType::Nothing).map(|(c, _)| c)
}

#[test]
fn colors_from_tokens() {
    assert_eq!(color("  Bright-Red"), Ok(Color::Bright(BasicColor::Red)));
    assert_eq!(color("#ff0000"), Ok(Color::Rgb(255, 0, 0)));
    assert_eq!(color("#abc"), Ok(Color::Rgb(0xaa, 0xbb, 0xcc)));
    assert_eq!(color("RGB( 1 , 2,3 )"), Ok(Color::Rgb(1, 2, 3)));
    assert_eq!(color("ansi(200)"), Ok(Color::Ansi(200)));
    assert_eq!(color(""), Err(ColorError::EndOfInput));
    assert_eq!(color("pink"), Err(ColorError::UnknownColor("pink".to_string())));
    assert_eq!(color("#12345"), Err(ColorError::InvalidHexColor));
    assert_eq!(color("hsl(1, 2, 3)"), Err(ColorError::UnknownFunction("hsl".to_string())));
    assert_eq!(color("rgb(1, 2, 300)"), Err(ColorError::OutOfRange(300)));
    assert_eq!(color("rgb(1, 2.5, 3)"), Err(ColorError::IntegerRequired));
    assert_eq!(color("rgb(1, 2)"), Err(ColorError::EndOfInput));
    assert_eq!(color("rgb(1 2 3)"), Err(ColorError::UnexpectedToken));
    assert_eq!(color("ansi(1, 2)"), Err(ColorError::UnexpectedToken));
    assert_eq!(color("12"), Err(ColorError::InvalidColor));
}

#[test]
fn color_ends_after_its_token() {
    assert_eq!(parse_color(" red blue", TokenSerializationType::Nothing), Ok((Color::Basic(BasicColor::Red), 4)));
    assert_eq!(parse_color("rgb(1,2,3) x", TokenSerializationType::Nothing), Ok((Color::Rgb(1, 2, 3), 10)));
}
