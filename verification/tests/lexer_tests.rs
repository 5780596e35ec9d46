use interpreter::lexer::token::Token;
use interpreter::lexer::Lexer;

#[test]
fn test_next_token() {
    let input = r#"
        let five = 5;
        let ten = 10;

        let add = fn(x, y) {
            x + y;
        };

        let result = add(five, ten);
        !-/*5;
        5 < 10 > 5;

        if (5 < 10) {
            return true;
        } else {
            return false;
        }

        10 == 10
        10 != 9
"#;
    let test_table = vec![
        // let five = 5;
        Token::Let,
        Token::Ident(String::from("five")),
        Token::Assign,
        Token::Int(5),
        Token::Semicolon,
        // let ten = 10;
        Token::Let,
        Token::Ident(String::from("ten")),
        Token::Assign,
        Token::Int(10),
        Token::Semicolon,
        // let add = fn(x, y) {
        //     x + y;
        // };
        Token::Let,
        Token::Ident(String::from("add")),
        Token::Assign,
        Token::Func,
        Token::Lparen,
        Token::Ident(String::from("x")),
        Token::Comma,
        Token::Ident(String::from("y")),
        Token::Rparen,
        Token::Lbrace,
        Token::Ident(String::from("x")),
        Token::Plus,
        Token::Ident(String::from("y")),
        Token::Semicolon,
        Token::Rbrace,
        Token::Semicolon,
        // let result = add(five, ten);
        Token::Let,
        Token::Ident(String::from("result")),
        Token::Assign,
        Token::Ident(String::from("add")),
        Token::Lparen,
        Token::Ident(String::from("five")),
        Token::Comma,
        Token::Ident(String::from("ten")),
        Token::Rparen,
        Token::Semicolon,
        // !-/*5;
        Token::Bang,
        Token::Minus,
        Token::Slash,
        Token::Asterisk,
        Token::Int(5),
        Token::Semicolon,
        // 5 < 10 > 5;
        Token::Int(5),
        Token::LessThan,
        Token::Int(10),
        Token::GreaterThan,
        Token::Int(5),
        Token::Semicolon,
        // if (5 < 10) {
        //     return true;
        // } else {
        //     return false;
        // }
        Token::If,
        Token::Lparen,
        Token::Int(5),
        Token::LessThan,
        Token::Int(10),
        Token::Rparen,
        Token::Lbrace,
        Token::Return,
        Token::Bool(true),
        Token::Semicolon,
        Token::Rbrace,
        Token::Else,
        Token::Lbrace,
        Token::Return,
        Token::Bool(false),
        Token::Semicolon,
        Token::Rbrace,
        // 10 == 10
        Token::Int(10),
        Token::Equal,
        Token::Int(10),
        // 10 != 9
        Token::Int(10),
        Token::NotEqual,
        Token::Int(9),
        Token::Eof,
    ];

    let mut l = Lexer::new(input);

    for expect in test_table {
        let tok = l.next_token();
        assert_eq!(expect, tok);
    }
}

fn scan_all(input: &str) -> Vec<Token> {
    let mut l = Lexer::new(input);
    let mut tokens = Vec::new();
    loop {
        let tok = l.next_token();
        let done = tok == Token::Eof;
        tokens.push(tok);
        if done {
            return tokens;
        }
    }
}

#[test]
fn test_totality_eof_is_stable() {
    let mut l = Lexer::new("x + 1");
    let mut count: u32 = 0;
    loop {
        if l.next_token() == Token::Eof {
            break;
        }
        count += 1;
        assert!(count <= 5, "no end-of-input token within the expected bound");
    }
    for _ in 0..10 {
        assert_eq!(Token::Eof, l.next_token());
    }
}

#[test]
fn test_totality_empty_input() {
    let mut l = Lexer::new("");
    assert_eq!(Token::Eof, l.next_token());
    assert_eq!(Token::Eof, l.next_token());
}

#[test]
fn test_maximal_munch() {
    assert_eq!(
        vec![Token::Ident(String::from("lets")), Token::Eof],
        scan_all("lets")
    );
}

#[test]
fn test_two_char_disambiguation() {
    assert_eq!(vec![Token::Equal, Token::Eof], scan_all("=="));
    assert_eq!(
        vec![Token::Assign, Token::Ident(String::from("a")), Token::Eof],
        scan_all("=a")
    );
    assert_eq!(vec![Token::NotEqual, Token::Eof], scan_all("!="));
    assert_eq!(
        vec![Token::Bang, Token::Ident(String::from("a")), Token::Eof],
        scan_all("!a")
    );
}

#[test]
fn test_keyword_exactness() {
    assert_eq!(vec![Token::Func, Token::Eof], scan_all("fn"));
    assert_eq!(vec![Token::Let, Token::Eof], scan_all("let"));
    assert_eq!(vec![Token::Bool(true), Token::Eof], scan_all("true"));
    assert_eq!(vec![Token::Bool(false), Token::Eof], scan_all("false"));
    assert_eq!(vec![Token::If, Token::Eof], scan_all("if"));
    assert_eq!(vec![Token::Else, Token::Eof], scan_all("else"));
    assert_eq!(vec![Token::Return, Token::Eof], scan_all("return"));
    // Keyword recognition is case-sensitive and exact.
    assert_eq!(
        vec![Token::Ident(String::from("Fn")), Token::Eof],
        scan_all("Fn")
    );
    assert_eq!(
        vec![Token::Ident(String::from("letter")), Token::Eof],
        scan_all("letter")
    );
    // A digit ends an identifier run, so a trailing digit starts a new token.
    assert_eq!(
        vec![Token::Let, Token::Int(1), Token::Eof],
        scan_all("let1")
    );
}

#[test]
fn test_whitespace_transparency() {
    assert_eq!(
        vec![Token::Int(5), Token::Plus, Token::Int(3), Token::Eof],
        scan_all("  5\n\t+\r3  ")
    );
}

#[test]
fn test_round_trip_example() {
    assert_eq!(
        vec![
            Token::Let,
            Token::Ident(String::from("five")),
            Token::Assign,
            Token::Int(5),
            Token::Semicolon,
            Token::Eof,
        ],
        scan_all("let five = 5;")
    );
}

#[test]
fn test_illegal_on_overflow() {
    // Far more digits than a 64-bit integer can hold.
    assert_eq!(
        vec![Token::Illegal, Token::Eof],
        scan_all("99999999999999999999999999")
    );
    // The largest representable value still parses...
    assert_eq!(
        vec![Token::Int(i64::MAX), Token::Eof],
        scan_all("9223372036854775807")
    );
    // ...and one past it is flagged, not wrapped.
    assert_eq!(
        vec![Token::Illegal, Token::Eof],
        scan_all("9223372036854775808")
    );
}

#[test]
fn test_illegal_character_makes_progress() {
    assert_eq!(
        vec![Token::Illegal, Token::Ident(String::from("a")), Token::Eof],
        scan_all("#a")
    );
    assert_eq!(vec![Token::Illegal, Token::Eof], scan_all("@"));
}

#[test]
fn test_nul_byte_is_illegal_not_eof() {
    // A NUL character inside the buffer starts no token: it is illegal, and
    // end-of-input comes only at the end of the buffer.
    assert_eq!(
        vec![
            Token::Ident(String::from("a")),
            Token::Illegal,
            Token::Ident(String::from("b")),
            Token::Eof,
        ],
        scan_all("a\0b")
    );
}

#[test]
fn test_tokenize_whole_buffer() {
    assert_eq!(
        vec![
            Token::Let,
            Token::Ident(String::from("five")),
            Token::Assign,
            Token::Int(5),
            Token::Semicolon,
            Token::Eof,
        ],
        interpreter::lexer::tokenize("let five = 5;")
    );
}
