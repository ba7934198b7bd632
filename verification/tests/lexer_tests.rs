use grease::lexer::Lexer;
use grease::token::TokenType;

#[test]
fn test_tokenize_numbers() {
    let mut lexer = Lexer::new("42 3.14".to_string());
    let tokens = lexer.tokenize().unwrap();
    assert_eq!(tokens.len(), 3);
    assert_eq!(tokens[0].token_type, TokenType::Number);
    assert_eq!(tokens[0].lexeme, "42");
    assert_eq!(tokens[1].token_type, TokenType::Number);
    assert_eq!(tokens[1].lexeme, "3.14");
}

#[test]
fn test_tokenize_strings() {
    let mut lexer = Lexer::new("\"hello\" 'world'".to_string());
    let tokens = lexer.tokenize().unwrap();
    assert_eq!(tokens.len(), 3);
    assert_eq!(tokens[0].token_type, TokenType::String);
    assert_eq!(tokens[0].lexeme, "hello");
    assert_eq!(tokens[1].token_type, TokenType::String);
    assert_eq!(tokens[1].lexeme, "world");
}

#[test]
fn test_tokenize_identifiers() {
    let mut lexer = Lexer::new("def x y_z".to_string());
    let tokens = lexer.tokenize().unwrap();
    assert_eq!(tokens.len(), 4);
    assert_eq!(tokens[0].token_type, TokenType::Fn);
    assert_eq!(tokens[1].token_type, TokenType::Identifier);
    assert_eq!(tokens[1].lexeme, "x");
    assert_eq!(tokens[2].token_type, TokenType::Identifier);
    assert_eq!(tokens[2].lexeme, "y_z");
}

#[test]
fn test_tokenize_operators() {
    let mut lexer = Lexer::new("+ - * / == != < > <= >=".to_string());
    let tokens = lexer.tokenize().unwrap();
    assert_eq!(tokens.len(), 11);
    assert_eq!(tokens[0].token_type, TokenType::Plus);
    assert_eq!(tokens[1].token_type, TokenType::Minus);
    assert_eq!(tokens[2].token_type, TokenType::Multiply);
    assert_eq!(tokens[3].token_type, TokenType::Divide);
    assert_eq!(tokens[4].token_type, TokenType::Equal);
    assert_eq!(tokens[5].token_type, TokenType::NotEqual);
    assert_eq!(tokens[6].token_type, TokenType::Less);
    assert_eq!(tokens[7].token_type, TokenType::Greater);
    assert_eq!(tokens[8].token_type, TokenType::LessEqual);
    assert_eq!(tokens[9].token_type, TokenType::GreaterEqual);
    assert_eq!(tokens[10].token_type, TokenType::EOF);
}

#[test]
fn test_tokenize_keywords() {
    let mut lexer =
        Lexer::new("def if elif else while for in return use as true false null class new self super".to_string());
    let tokens = lexer.tokenize().unwrap();
    assert_eq!(tokens.len(), 18);
    assert_eq!(tokens[0].token_type, TokenType::Fn);
    assert_eq!(tokens[1].token_type, TokenType::If);
    assert_eq!(tokens[2].token_type, TokenType::Elif);
    assert_eq!(tokens[3].token_type, TokenType::Else);
    assert_eq!(tokens[4].token_type, TokenType::While);
    assert_eq!(tokens[5].token_type, TokenType::For);
    assert_eq!(tokens[6].token_type, TokenType::In);
    assert_eq!(tokens[7].token_type, TokenType::Return);
    assert_eq!(tokens[8].token_type, TokenType::Use);
    assert_eq!(tokens[9].token_type, TokenType::As);
    assert_eq!(tokens[10].token_type, TokenType::True);
    assert_eq!(tokens[11].token_type, TokenType::False);
    assert_eq!(tokens[12].token_type, TokenType::Null);
    assert_eq!(tokens[13].token_type, TokenType::Class);
    assert_eq!(tokens[14].token_type, TokenType::New);
    assert_eq!(tokens[15].token_type, TokenType::SelfKw);
    assert_eq!(tokens[16].token_type, TokenType::Super);
    assert_eq!(tokens[17].token_type, TokenType::EOF);
}

#[test]
fn test_unterminated_string() {
    let mut lexer = Lexer::new("\"hello".to_string());
    assert!(lexer.tokenize().is_err());
}

#[test]
fn indentation_is_balanced() {
    let mut lexer = Lexer::new("if x:\n    y = 1\n        z = 2\nw = 3".to_string());
    let tokens = lexer.tokenize().unwrap();
    let indents = tokens.iter().filter(|t| t.token_type == TokenType::Indent).count();
    let dedents = tokens.iter().filter(|t| t.token_type == TokenType::Dedent).count();
    assert_eq!(indents, dedents);
    assert_eq!(tokens.last().unwrap().token_type, TokenType::EOF);
    assert_eq!(tokens.iter().filter(|t| t.token_type == TokenType::EOF).count(), 1);
}

#[test]
fn token_positions_count_from_one() {
    let mut lexer = Lexer::new("a\nbb".to_string());
    let tokens = lexer.tokenize().unwrap();
    assert_eq!(tokens[0].lexeme, "a");
    assert_eq!(tokens[0].line, 1);
    let b = tokens.iter().find(|t| t.lexeme == "bb").unwrap();
    assert_eq!(b.line, 2);
}

#[test]
fn unicode_white_space_separates_tokens() {
    let mut lexer = Lexer::new("x\u{3000}=\u{00A0}1".to_string());
    let tokens = lexer.tokenize().unwrap();
    assert_eq!(tokens[0].token_type, TokenType::Identifier);
    assert_eq!(tokens[0].lexeme, "x");
    assert_eq!(tokens[1].token_type, TokenType::Assign);
    assert_eq!(tokens[2].token_type, TokenType::Number);
}

#[test]
fn white_space_test_agrees_with_std() {
    for n in 0u32..=0x10FFFF {
        if let Some(c) = char::from_u32(n) {
            assert_eq!(grease::text::char_is_whitespace(c), c.is_whitespace(), "U+{:04X}", n);
        }
    }
}
