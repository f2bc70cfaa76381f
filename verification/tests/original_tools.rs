use agent_core::grep::{search, search_case_insensitive};
use agent_core::scanner::{Scanner, TokenType};
use agent_core::sed::{distribute_args, stream_editor, Sed};

#[test]
fn case_sensitive() {
    let (string, contents) = ("duct", "\
Rust:
safe, fast, productive.
Pick three.
Duct tape.");
    assert_eq!(
        vec!["safe, fast, productive.".to_string()],
        search(string, contents)
    );
}

#[test]
fn case_insensitive() {
    let (string, contents) = (
        "rUsT",
        "\
Rust:
safe, fast, productive.
Pick three.
Trust me.",
    );
    assert_eq!(
        vec!["Rust:".to_string(), "Trust me.".to_string()],
        search_case_insensitive(string, contents)
    );
}

#[test]
fn test_print_expression() {
    let source = String::from("print(1 + 2 / 86)");
    let mut scanner = Scanner::new(source);

    let print_token = scanner.scan_token();
    assert_eq!(print_token.token_type, TokenType::Print);

    let left_paren_token = scanner.scan_token();
    assert_eq!(left_paren_token.token_type, TokenType::LeftParen);

    let number_token = scanner.scan_token();
    assert_eq!(number_token.token_type, TokenType::Number);

    let plus_token = scanner.scan_token();
    assert_eq!(plus_token.token_type, TokenType::Plus);

    let number_token = scanner.scan_token();
    assert_eq!(number_token.token_type, TokenType::Number);

    let slash_token = scanner.scan_token();
    assert_eq!(slash_token.token_type, TokenType::Slash);

    let number_token = scanner.scan_token();
    assert_eq!(number_token.token_type, TokenType::Number);

    let right_paren_token = scanner.scan_token();
    assert_eq!(right_paren_token.token_type, TokenType::RightParen);
}

#[test]
fn test_for_loop() {
    let source = String::from("for (var i = 0; i < 10; i = i + 1) {\n\tprint(i)\n}");
    let mut scanner = Scanner::new(source);

    let for_token = scanner.scan_token();
    assert_eq!(for_token.token_type, TokenType::For);
    assert_eq!(for_token.lexeme, "for");

    let left_paren = scanner.scan_token();
    assert_eq!(left_paren.token_type, TokenType::LeftParen);

    let var_token = scanner.scan_token();
    assert_eq!(var_token.token_type, TokenType::Var);
    assert_eq!(var_token.lexeme, "var");

    let i_token = scanner.scan_token();
    assert_eq!(i_token.token_type, TokenType::Identifier);
    assert_eq!(i_token.lexeme, "i");

    let equal_token = scanner.scan_token();
    assert_eq!(equal_token.token_type, TokenType::Equal);

    let zero_token = scanner.scan_token();
    assert_eq!(zero_token.token_type, TokenType::Number);
    assert_eq!(zero_token.lexeme, "0");

    let semicolon_token = scanner.scan_token();
    assert_eq!(semicolon_token.token_type, TokenType::Semicolon);

    let i_token = scanner.scan_token();
    assert_eq!(i_token.token_type, TokenType::Identifier);
    assert_eq!(i_token.lexeme, "i");

    let less_token = scanner.scan_token();
    assert_eq!(less_token.token_type, TokenType::Less);

    let ten_token = scanner.scan_token();
    assert_eq!(ten_token.token_type, TokenType::Number);
    assert_eq!(ten_token.lexeme, "10");

    let semicolon_token = scanner.scan_token();
    assert_eq!(semicolon_token.token_type, TokenType::Semicolon);

    let i_token = scanner.scan_token();
    assert_eq!(i_token.token_type, TokenType::Identifier);
    assert_eq!(i_token.lexeme, "i");

    let equal_token = scanner.scan_token();
    assert_eq!(equal_token.token_type, TokenType::Equal);

    let i_token = scanner.scan_token();
    assert_eq!(i_token.token_type, TokenType::Identifier);
    assert_eq!(i_token.lexeme, "i");

    let plus_token = scanner.scan_token();
    assert_eq!(plus_token.token_type, TokenType::Plus);

    let one_token = scanner.scan_token();
    assert_eq!(one_token.token_type, TokenType::Number);
    assert_eq!(one_token.lexeme, "1");

    let right_paren = scanner.scan_token();
    assert_eq!(right_paren.token_type, TokenType::RightParen);

    let left_brace = scanner.scan_token();
    assert_eq!(left_brace.token_type, TokenType::LeftBrace);

    let print_token = scanner.scan_token();
    assert_eq!(print_token.token_type, TokenType::Print);

    let left_paren = scanner.scan_token();
    assert_eq!(left_paren.token_type, TokenType::LeftParen);

    let i_token = scanner.scan_token();
    assert_eq!(i_token.token_type, TokenType::Identifier);
    assert_eq!(i_token.lexeme, "i");

    let right_paren = scanner.scan_token();
    assert_eq!(right_paren.token_type, TokenType::RightParen);

    let right_brace = scanner.scan_token();
    assert_eq!(right_brace.token_type, TokenType::RightBrace);

    let eof_token = scanner.scan_token();
    assert_eq!(eof_token.token_type, TokenType::Eof);
}

#[test]
fn lib_test_distribute_args() {
    let args = vec![
        "program".to_string(),
        "pattern".to_string(),
        "file.txt".to_string(),
    ];
    assert!(distribute_args(args).is_ok());

    let args = vec!["program".to_string()];
    assert!(distribute_args(args).is_err());
}

#[test]
fn lib_test_stream_editor() {
    let test_sed = Sed {
        oldstring: "old".to_string(),
        newstring: "new".to_string(),
        flag: "g".to_string(),
        file: "test.txt".to_string(),
    };

    let content = "old text old".to_string();
    let result = stream_editor(&content, &test_sed);
    assert_eq!(result, "new text new");

    let test_sed_single = Sed {
        flag: "1".to_string(),
        ..test_sed
    };
    let result = stream_editor(&content, &test_sed_single);
    assert_eq!(result, "new text old");
}

#[test]
fn main_test_distribute_args() {
    let args = vec![
        "program".to_string(),
        "pattern".to_string(),
        "file.txt".to_string(),
    ];
    assert!(distribute_args(args).is_ok());

    let args = vec!["program".to_string()];
    assert!(distribute_args(args).is_err());
}

#[test]
fn main_test_stream_editor() {
    let test_sed = Sed {
        oldstring: "old".to_string(),
        newstring: "new".to_string(),
        flag: "g".to_string(),
        file: "test.txt".to_string(),
    };

    let content = "old text old".to_string();
    let result = stream_editor(&content, &test_sed);
    assert_eq!(result, "new text new");

    let test_sed_single = Sed {
        flag: "1".to_string(),
        ..test_sed
    };
    let result = stream_editor(&content, &test_sed_single);
    assert_eq!(result, "new text old");
}
