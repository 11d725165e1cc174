use lua_front::ast::LuaNumber;
use lua_front::lexer::{Lexer, Token};

fn num(negative: bool, mantissa: u64, exponent: i64) -> Token {
    Token::Number(LuaNumber { negative, mantissa, exponent })
}

/// The decimal value a numeric token stands for, as a double.
fn as_f64(t: &Token) -> f64 {
    match t {
        Token::Number(n) => {
            let s = format!(
                "{}{}e{}",
                if n.negative { "-" } else { "" },
                n.mantissa,
                n.exponent
            );
            s.parse::<f64>().unwrap()
        }
        _ => panic!("not a number token"),
    }
}

#[test]
fn operators() {
    let lexer =
        Lexer::new("+ - * / ~ % ^ # == ~= <= >= < > = () {} [] ; : , . .. ...".to_string());
    let tokens = lexer.tokenize().unwrap();

    assert_eq!(
        tokens,
        vec![
            Token::Plus,
            Token::Minus,
            Token::Multiply,
            Token::Divide,
            Token::Tilde,
            Token::Modulo,
            Token::Xor,
            Token::Length,
            Token::Equal,
            Token::NotEq,
            Token::LessThanOrEqual,
            Token::GreaterThanOrEqual,
            Token::LessThan,
            Token::GreaterThan,
            Token::Assignment,
            Token::LeftParen,
            Token::RightParen,
            Token::LeftBracket,
            Token::RightBracket,
            Token::LeftSquareBracket,
            Token::RightSquareBracket,
            Token::Semicolon,
            Token::Colon,
            Token::Comma,
            Token::Period,
            Token::DoublePeriod,
            Token::TriplePeriod
        ]
    );
}

#[test]
fn keywords() {
    let lexer = Lexer::new("and break do else elseif end false for function if in local nil not or repeat return then true until while".to_string());
    let tokens = lexer.tokenize().unwrap();

    assert_eq!(
        tokens,
        vec![
            Token::And,
            Token::Break,
            Token::Do,
            Token::Else,
            Token::Elseif,
            Token::End,
            Token::False,
            Token::For,
            Token::Function,
            Token::If,
            Token::In,
            Token::Local,
            Token::Nil,
            Token::Not,
            Token::Or,
            Token::Repeat,
            Token::Return,
            Token::Then,
            Token::True,
            Token::Until,
            Token::While,
        ]
    );
}

#[test]
fn strings() {
    let lexer = Lexer::new("local test = 'test'; local test2 = \"test2\";".to_string());
    let tokens = lexer.tokenize().unwrap();

    assert_eq!(
        tokens,
        vec![
            Token::Local,
            Token::Identifier("test".to_string()),
            Token::Assignment,
            Token::String("test".to_string()),
            Token::Semicolon,
            Token::Local,
            Token::Identifier("test2".to_string()),
            Token::Assignment,
            Token::String("test2".to_string()),
            Token::Semicolon
        ]
    );
}

#[test]
fn numbers() {
    let lexer = Lexer::new(
        r#"
        1
        111
        11e111
        11E1
        11e+111
        11e-11
        22E+2
        22E-22
        1e5

        -1
        -111
        -11e11
        -11E1
        -11e+1
        -11e-11
        -22E+2
        -22E-22

        1.0
        11.01
        11.01e1
        11.01E11
        11.01e+1
        11.01e-11
        11.01E+1
        11.01E-11

        0xf
        0xabcdef
        0x11
        -0xf
        -0xabcdef
        -0x11

        0b1
        0b101
        -0b1
        -0b101
        "#
        .to_string(),
    );
    let tokens = lexer.tokenize().unwrap();

    let expected: Vec<f64> = vec![
        1.0,
        111.0,
        1.1e112,
        110.0,
        1.1e112,
        1.1e-10,
        2200.0,
        2.2e-21,
        100000.0,
        -1.0,
        -111.0,
        -1100000000000.0,
        -110.0,
        -110.0,
        -1.1e-10,
        -2200.0,
        -2.2e-21,
        1.0,
        11.01,
        110.1,
        1101000000000.0,
        110.1,
        1.101e-10,
        110.1,
        1.101e-10,
        15.0,
        11259375.0,
        17.0,
        -15.0,
        -11259375.0,
        -17.0,
        1.0,
        5.0,
        -1.0,
        -5.0,
    ];
    assert_eq!(tokens.len(), expected.len());
    for (tok, want) in tokens.iter().zip(expected.iter()) {
        assert_eq!(as_f64(tok), *want);
    }
}

#[test]
fn real1() {
    let lexer = Lexer::new(
        r#"
            local t = {}
            local array = {1, 2, 3};
            local array_el = array[1]
            var_string = "string";
            local var_number = 222
            local var_number2 = 111
            local a = var_number - var_number2;

            -- comment 

            for k, v in pairs(t) do
                print(k, v)
            end

            local math = 1.0 * 2 + 0xff-0b100/1e5
            "#
        .to_string(),
    );

    let tokens = lexer.tokenize().unwrap();

    let expected = vec![
            Token::Local,
            Token::Identifier(String::from("t")),
            Token::Assignment,
            Token::LeftBracket,
            Token::RightBracket,
            Token::Local,
            Token::Identifier(String::from("array")),
            Token::Assignment,
            Token::LeftBracket,
            num(false, 1, 0),
            Token::Comma,
            num(false, 2, 0),
            Token::Comma,
            num(false, 3, 0),
            Token::RightBracket,
            Token::Semicolon,
            Token::Local,
            Token::Identifier(String::from("array_el")),
            Token::Assignment,
            Token::Identifier(String::from("array")),
            Token::LeftSquareBracket,
            num(false, 1, 0),
            Token::RightSquareBracket,
            Token::Identifier(String::from("var_string")),
            Token::Assignment,
            Token::String(String::from("string")),
            Token::Semicolon,
            Token::Local,
            Token::Identifier(String::from("var_number")),
            Token::Assignment,
            num(false, 222, 0),
            Token::Local,
            Token::Identifier(String::from("var_number2")),
            Token::Assignment,
            num(false, 111, 0),
            Token::Local,
            Token::Identifier(String::from("a")),
            Token::Assignment,
            Token::Identifier(String::from("var_number")),
            Token::Minus,
            Token::Identifier(String::from("var_number2")),
            Token::Semicolon,
            Token::Comment(String::from(" comment ")),
            Token::For,
            Token::Identifier(String::from("k")),
            Token::Comma,
            Token::Identifier(String::from("v")),
            Token::In,
            Token::Identifier(String::from("pairs")),
            Token::LeftParen,
            Token::Identifier(String::from("t")),
            Token::RightParen,
            Token::Do,
            Token::Identifier(String::from("print")),
            Token::LeftParen,
            Token::Identifier(String::from("k")),
            Token::Comma,
            Token::Identifier(String::from("v")),
            Token::RightParen,
            Token::End,
            Token::Local,
            Token::Identifier(String::from("math")),
            Token::Assignment,
            num(false, 10, -1),
            Token::Multiply,
            num(false, 2, 0),
            Token::Plus,
            num(false, 255, 0),
            num(true, 4, 0),
            Token::Divide,
            num(false, 1, 5),
        ];
    for (i, (a, b)) in tokens.iter().zip(expected.iter()).enumerate() {
        assert_eq!(a, b, "token {}", i);
    }
    assert_eq!(tokens.len(), expected.len());
    // the literals stand for exactly these doubles
    assert_eq!(as_f64(&num(false, 255, 0)), 255.0);
    assert_eq!(as_f64(&num(true, 4, 0)), -4.0);
    assert_eq!(as_f64(&num(false, 10, -1)), 1.0);
    assert_eq!(as_f64(&num(false, 1, 5)), 100000.0);
}

#[test]
fn radix_literals() {
    let toks = lua_front::lexer::tokenize("0xff").unwrap();
    assert_eq!(toks, vec![num(false, 255, 0)]);
    assert_eq!(as_f64(&toks[0]), 255.0);

    let toks = lua_front::lexer::tokenize("-0xff").unwrap();
    assert_eq!(toks, vec![num(true, 255, 0)]);
    assert_eq!(as_f64(&toks[0]), -255.0);

    let toks = lua_front::lexer::tokenize("0b101").unwrap();
    assert_eq!(toks, vec![num(false, 5, 0)]);
    assert_eq!(as_f64(&toks[0]), 5.0);
}

#[test]
fn lex_error_position() {
    let err = lua_front::lexer::tokenize("local a = $").unwrap_err();
    assert_eq!(err.position, 10);
    assert_eq!(err.character, Some('$'));
}

#[test]
fn unterminated_string() {
    let err = lua_front::lexer::tokenize("local a = \"abc").unwrap_err();
    assert_eq!(err.position, 10);
    assert_eq!(err.character, Some('"'));
}

#[test]
fn malformed_exponent() {
    // an exponent marker with no digits fails the literal's conversion
    let err = lua_front::lexer::tokenize("1e+").unwrap_err();
    assert_eq!(err.position, 0);
    assert_eq!(err.character, None);
}

#[test]
fn mantissa_out_of_range() {
    // a hexadecimal magnitude beyond the signed 64-bit range is refused
    let err = lua_front::lexer::tokenize("0xffffffffffffffff").unwrap_err();
    assert_eq!(err.position, 0);
    assert_eq!(err.character, None);
}
