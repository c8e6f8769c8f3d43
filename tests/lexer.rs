use script_lexer::{lexer, LexError, Token};

fn ident(s: &str) -> Token {
    Token::Identifier(s.to_string())
}

fn ws(s: &str) -> Token {
    Token::Whitespace(s.to_string())
}

fn op(s: &str) -> Token {
    Token::Operator(s.to_string())
}

fn comment(s: &str) -> Token {
    Token::LineComment(s.to_string())
}

fn number_value(t: &Token) -> f64 {
    match t {
        Token::Number(text) => {
            nom::number::complete::double::<&str, nom::error::Error<&str>>(text.as_str())
                .unwrap()
                .1
        }
        other => panic!("not a number: {:?}", other),
    }
}

/// The source text of a token, to check that the tokens cover the input.
fn source_of(t: &Token) -> String {
    match t {
        Token::BracketRoundClosing => ")".to_string(),
        Token::BracketRoundOpening => "(".to_string(),
        Token::Identifier(x) | Token::Number(x) | Token::Operator(x) | Token::Whitespace(x) => {
            x.clone()
        }
        Token::LineComment(x) => format!("//{}", x),
        Token::Slash => "/".to_string(),
        Token::String(x) => format!("\"{}\"", x),
    }
}

fn joined(ts: &[Token]) -> String {
    ts.iter().map(source_of).collect()
}

#[test]
fn brackets() {
    assert_eq!(
        lexer("(()(").unwrap(),
        vec![
            Token::BracketRoundOpening,
            Token::BracketRoundOpening,
            Token::BracketRoundClosing,
            Token::BracketRoundOpening,
        ]
    );
}

#[test]
fn line_comment() {
    assert_eq!(
        lexer("//hello\nword").unwrap(),
        vec![comment("hello"), ws("\n"), ident("word")]
    );
}

#[test]
fn line_comment_on_last_line() {
    assert_eq!(
        lexer("hello\n//world").unwrap(),
        vec![ident("hello"), ws("\n"), comment("world")]
    );
}

#[test]
fn single_identifier() {
    assert_eq!(lexer("identifier").unwrap(), vec![ident("identifier")]);
}

#[test]
fn single_identifier_with_underscore() {
    assert_eq!(
        lexer("single_identifier").unwrap(),
        vec![ident("single_identifier")]
    );
}

#[test]
fn single_identifier_with_unicode() {
    assert_eq!(lexer("single_wꙮrd").unwrap(), vec![ident("single_wꙮrd")]);
}

#[test]
fn identifier_after_number() {
    let tokens = lexer("0word").unwrap();
    assert_eq!(tokens, vec![Token::Number("0".to_string()), ident("word")]);
    assert_eq!(number_value(&tokens[0]), 0.0);
}

#[test]
fn two_identifiers_and_slash() {
    assert_eq!(
        lexer("two/identifiers").unwrap(),
        vec![ident("two"), Token::Slash, ident("identifiers")]
    );
}

#[test]
fn two_identifiers_and_four_spaces() {
    assert_eq!(
        lexer("two\n    identifiers").unwrap(),
        vec![ident("two"), ws("\n    "), ident("identifiers")]
    );
}

#[test]
fn three_identifiers_and_newline() {
    assert_eq!(
        lexer("three/identifiers\nw/newline").unwrap(),
        vec![
            ident("three"),
            Token::Slash,
            ident("identifiers"),
            ws("\n"),
            ident("w"),
            Token::Slash,
            ident("newline"),
        ]
    );
}

#[test]
fn four_identifiers_with_indentation() {
    assert_eq!(
        lexer("four/words\n\twith/indentation").unwrap(),
        vec![
            ident("four"),
            Token::Slash,
            ident("words"),
            ws("\n\t"),
            ident("with"),
            Token::Slash,
            ident("indentation"),
        ]
    );
}

#[test]
fn operator_plus() {
    assert_eq!(
        lexer("one+two").unwrap(),
        vec![ident("one"), op("+"), ident("two")]
    );
}

#[test]
fn operator_left_shift() {
    assert_eq!(
        lexer("one<<two").unwrap(),
        vec![ident("one"), op("<<"), ident("two")]
    );
}

#[test]
fn string() {
    assert_eq!(
        lexer("\"text\"").unwrap(),
        vec![Token::String("text".to_string())]
    );
}

#[test]
fn whitespace() {
    assert_eq!(
        lexer("one two").unwrap(),
        vec![ident("one"), ws(" "), ident("two")]
    );
}

#[test]
fn whitepaper_1() {
    let text = "\
animal
    cat
        tiger";

    assert_eq!(
        lexer(text).unwrap(),
        vec![
            ident("animal"),
            ws("\n    "),
            ident("cat"),
            ws("\n        "),
            ident("tiger"),
        ]
    );
}

#[test]
fn whitepaper_2() {
    let text = "\
animal
    var
        legs
    cat
        // set the default value for all objects of type /animal/cat
        legs = 4

        // define a proc for all cats
        proc
            meow()

        tiger
            // override the meow() proc
            meow()
                world << \"ROAR!\"";

    let tokens = lexer(text).unwrap();
    assert_eq!(joined(&tokens), text);
    assert_eq!(tokens.len(), 37);
    assert_eq!(tokens[8], comment(" set the default value for all objects of type /animal/cat"));
    assert_eq!(
        tokens[10..15].to_vec(),
        vec![ident("legs"), ws(" "), op("="), ws(" "), Token::Number("4".to_string())]
    );
    assert_eq!(
        tokens[32..].to_vec(),
        vec![ident("world"), ws(" "), op("<<"), ws(" "), Token::String("ROAR!".to_string())]
    );
}

#[test]
fn whitepaper_3() {
    let text = r#"
// define some stuff
var/x = 3
var/player = usr
var/mob/m = usr

// output some stuff
world << player.x  // "player" has no type so we get a compile-time error
world << m.x       // "m" is of type /mob, and mobs have an x variable"#;

    let tokens = lexer(text).unwrap();
    assert_eq!(joined(&tokens), text);
    assert_eq!(
        tokens[0..10].to_vec(),
        vec![
            ws("\n"),
            comment(" define some stuff"),
            ws("\n"),
            ident("var"),
            Token::Slash,
            ident("x"),
            ws(" "),
            op("="),
            ws(" "),
            Token::Number("3".to_string()),
        ]
    );
    assert_eq!(
        tokens.last().unwrap(),
        &comment(" \"m\" is of type /mob, and mobs have an x variable")
    );
    assert!(!tokens.contains(&Token::String("player".to_string())));
}

#[test]
fn round_trip_reproduces_input() {
    let text = "a1 = \"s\" + .5e-3 // note\n(b/c)<=d";
    let tokens = lexer(text).unwrap();
    assert_eq!(joined(&tokens), text);
    assert_eq!(tokens.len(), 19);
}

#[test]
fn same_input_same_tokens() {
    let text = "x << \"y\" // z\n\t(1.5)";
    assert_eq!(lexer(text), lexer(text));
    assert_eq!(lexer("a$"), lexer("a$"));
}

#[test]
fn unterminated_string_fails() {
    assert_eq!(
        lexer("\"abc"),
        Err(LexError::UnterminatedLiteral { offset: 0 })
    );
    assert_eq!(
        lexer("ok \"abc"),
        Err(LexError::UnterminatedLiteral { offset: 3 })
    );
}

#[test]
fn empty_input_fails() {
    assert_eq!(lexer(""), Err(LexError::EmptyInput));
}

#[test]
fn unmatched_character_fails() {
    assert_eq!(
        lexer("a$b"),
        Err(LexError::UnmatchedInput { offset: 1, rest: "$b".to_string() })
    );
    assert_eq!(
        lexer("ꙮ-"),
        Err(LexError::UnmatchedInput { offset: 1, rest: "-".to_string() })
    );
}

#[test]
fn malformed_exponent_fails() {
    assert_eq!(
        lexer("1e"),
        Err(LexError::UnmatchedInput { offset: 0, rest: "1e".to_string() })
    );
    assert_eq!(
        lexer("x 2E+y"),
        Err(LexError::UnmatchedInput { offset: 2, rest: "2E+y".to_string() })
    );
}

#[test]
fn double_slash_is_a_comment() {
    assert_eq!(lexer("//x").unwrap(), vec![comment("x")]);
    assert_eq!(lexer("//").unwrap(), vec![comment("")]);
    assert_eq!(lexer("a//").unwrap(), vec![ident("a"), comment("")]);
}

#[test]
fn operator_run_of_three() {
    assert_eq!(lexer("<<<").unwrap(), vec![op("<<"), op("<")]);
    assert_eq!(lexer("a==.b").unwrap(), vec![ident("a"), op("=="), op("."), ident("b")]);
}

#[test]
fn number_forms() {
    let tokens = lexer("12.5 1e3 +7 .25 3.").unwrap();
    let numbers: Vec<f64> = tokens
        .iter()
        .filter(|t| matches!(t, Token::Number(_)))
        .map(number_value)
        .collect();
    assert_eq!(numbers, vec![12.5, 1000.0, 7.0, 0.25, 3.0]);
    assert_eq!(tokens[0], Token::Number("12.5".to_string()));
    assert_eq!(tokens[4], Token::Number("+7".to_string()));
}

#[test]
fn sign_without_digits_is_operator() {
    assert_eq!(lexer("+a").unwrap(), vec![op("+"), ident("a")]);
    assert_eq!(lexer(".x").unwrap(), vec![op("."), ident("x")]);
}

#[test]
fn number_followed_by_word() {
    assert_eq!(
        lexer("2x").unwrap(),
        vec![Token::Number("2".to_string()), ident("x")]
    );
}

#[test]
fn unicode_whitespace_run() {
    assert_eq!(
        lexer("a\u{a0}\u{2003} \nb").unwrap(),
        vec![ident("a"), ws("\u{a0}\u{2003} \n"), ident("b")]
    );
}

#[test]
fn string_keeps_body_verbatim() {
    assert_eq!(
        lexer("\"a // b\\n\"").unwrap(),
        vec![Token::String("a // b\\n".to_string())]
    );
}

#[test]
fn identifier_with_digits_and_letters() {
    assert_eq!(lexer("x2_y").unwrap(), vec![ident("x2_y")]);
    assert_eq!(lexer("_x").unwrap_err(), LexError::UnmatchedInput { offset: 0, rest: "_x".to_string() });
}
