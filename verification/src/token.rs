//! The tokens of the source language. Literal payloads keep the raw
//! character sequence exactly as lexed; numeric parsing is deferred.
//!
//! Block delimiters `{` and `}` are `LBRACKET`/`RBRACKET`, while `[` and
//! `]` are `LBRACE`/`RBRACE`: the names are inverted on purpose and every
//! consumer of the token stream relies on them as they stand.

use vstd::prelude::*;

verus! {

/// One lexeme of the source language.
#[derive(Debug, Clone, PartialEq)]
pub enum Token {
    // Keywords
    LET,
    TRUE,
    FALSE,
    IF,
    ELIF,
    ELSE,
    FOR,
    WHILE,
    DO,
    BREAK,
    CONTINUE,
    RETURN,
    FUNCTION,
    MATCH,
    STRUCT,
    ENUM,
    // Type names
    TINTEGER,
    TFLOAT,
    TBOOLEAN,
    TSTRING,
    TCHAR,
    TVOID,
    // Literals
    INT(Vec<char>),
    FLOAT(Vec<char>),
    IDENTIFIER(Vec<char>),
    STRING(Vec<char>),
    CHAR(char),
    // Operators and punctuation
    PLUS,
    MINUS,
    MULTIPLY,
    DIVIDE,
    MOD,
    EXPONENT,
    EQUAL,
    EQUALEQUAL,
    NOTEQUAL,
    LESSTHAN,
    GREATERTHAN,
    LESSTHANEQUAL,
    GREATERTHANEQUAL,
    LOGICALAND,
    LOGICALOR,
    LOGICALNOT,
    BITAND,
    BITOR,
    BITXOR,
    BITNOT,
    SHL,
    SHR,
    SEMICOLON,
    COMMA,
    COLON,
    COLONCOLON,
    DOT,
    LPAREN,
    RPAREN,
    LBRACKET,
    RBRACKET,
    LBRACE,
    RBRACE,
    EOF,
}

/// Mathematical model of a token: payloads become character sequences.
pub enum TokenV {
    LET,
    TRUE,
    FALSE,
    IF,
    ELIF,
    ELSE,
    FOR,
    WHILE,
    DO,
    BREAK,
    CONTINUE,
    RETURN,
    FUNCTION,
    MATCH,
    STRUCT,
    ENUM,
    TINTEGER,
    TFLOAT,
    TBOOLEAN,
    TSTRING,
    TCHAR,
    TVOID,
    INT(Seq<char>),
    FLOAT(Seq<char>),
    IDENTIFIER(Seq<char>),
    STRING(Seq<char>),
    CHAR(char),
    PLUS,
    MINUS,
    MULTIPLY,
    DIVIDE,
    MOD,
    EXPONENT,
    EQUAL,
    EQUALEQUAL,
    NOTEQUAL,
    LESSTHAN,
    GREATERTHAN,
    LESSTHANEQUAL,
    GREATERTHANEQUAL,
    LOGICALAND,
    LOGICALOR,
    LOGICALNOT,
    BITAND,
    BITOR,
    BITXOR,
    BITNOT,
    SHL,
    SHR,
    SEMICOLON,
    COMMA,
    COLON,
    COLONCOLON,
    DOT,
    LPAREN,
    RPAREN,
    LBRACKET,
    RBRACKET,
    LBRACE,
    RBRACE,
    EOF,
}

impl View for Token {
    type V = TokenV;

    open spec fn view(&self) -> TokenV {
        match self {
            Token::LET => TokenV::LET,
            Token::TRUE => TokenV::TRUE,
            Token::FALSE => TokenV::FALSE,
            Token::IF => TokenV::IF,
            Token::ELIF => TokenV::ELIF,
            Token::ELSE => TokenV::ELSE,
            Token::FOR => TokenV::FOR,
            Token::WHILE => TokenV::WHILE,
            Token::DO => TokenV::DO,
            Token::BREAK => TokenV::BREAK,
            Token::CONTINUE => TokenV::CONTINUE,
            Token::RETURN => TokenV::RETURN,
            Token::FUNCTION => TokenV::FUNCTION,
            Token::MATCH => TokenV::MATCH,
            Token::STRUCT => TokenV::STRUCT,
            Token::ENUM => TokenV::ENUM,
            Token::TINTEGER => TokenV::TINTEGER,
            Token::TFLOAT => TokenV::TFLOAT,
            Token::TBOOLEAN => TokenV::TBOOLEAN,
            Token::TSTRING => TokenV::TSTRING,
            Token::TCHAR => TokenV::TCHAR,
            Token::TVOID => TokenV::TVOID,
            Token::INT(d) => TokenV::INT(d@),
            Token::FLOAT(d) => TokenV::FLOAT(d@),
            Token::IDENTIFIER(c) => TokenV::IDENTIFIER(c@),
            Token::STRING(c) => TokenV::STRING(c@),
            Token::CHAR(c) => TokenV::CHAR(*c),
            Token::PLUS => TokenV::PLUS,
            Token::MINUS => TokenV::MINUS,
            Token::MULTIPLY => TokenV::MULTIPLY,
            Token::DIVIDE => TokenV::DIVIDE,
            Token::MOD => TokenV::MOD,
            Token::EXPONENT => TokenV::EXPONENT,
            Token::EQUAL => TokenV::EQUAL,
            Token::EQUALEQUAL => TokenV::EQUALEQUAL,
            Token::NOTEQUAL => TokenV::NOTEQUAL,
            Token::LESSTHAN => TokenV::LESSTHAN,
            Token::GREATERTHAN => TokenV::GREATERTHAN,
            Token::LESSTHANEQUAL => TokenV::LESSTHANEQUAL,
            Token::GREATERTHANEQUAL => TokenV::GREATERTHANEQUAL,
            Token::LOGICALAND => TokenV::LOGICALAND,
            Token::LOGICALOR => TokenV::LOGICALOR,
            Token::LOGICALNOT => TokenV::LOGICALNOT,
            Token::BITAND => TokenV::BITAND,
            Token::BITOR => TokenV::BITOR,
            Token::BITXOR => TokenV::BITXOR,
            Token::BITNOT => TokenV::BITNOT,
            Token::SHL => TokenV::SHL,
            Token::SHR => TokenV::SHR,
            Token::SEMICOLON => TokenV::SEMICOLON,
            Token::COMMA => TokenV::COMMA,
            Token::COLON => TokenV::COLON,
            Token::COLONCOLON => TokenV::COLONCOLON,
            Token::DOT => TokenV::DOT,
            Token::LPAREN => TokenV::LPAREN,
            Token::RPAREN => TokenV::RPAREN,
            Token::LBRACKET => TokenV::LBRACKET,
            Token::RBRACKET => TokenV::RBRACKET,
            Token::LBRACE => TokenV::LBRACE,
            Token::RBRACE => TokenV::RBRACE,
            Token::EOF => TokenV::EOF,
        }
    }
}

/// The view of a whole token stream.
pub open spec fn tokens_view(ts: Seq<Token>) -> Seq<TokenV> {
    ts.map_values(|t: Token| t@)
}

} // verus!
