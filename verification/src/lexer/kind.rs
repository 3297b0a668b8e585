//! The kinds of token.

use vstd::prelude::*;

verus! {

/// What a token is. The set is closed and a kind carries no data.
///
/// A kind is either *fixed*, with one spelling ([`TokenKind::spelling`]), or
/// it is one of five classes of text: `Space`, `Identifier`, `TypeName`,
/// `IntegerLiteral` and `StringLiteral`. Among the fixed kinds the words are
/// *keywords* ([`TokenKind::is_keyword`]), which are read without regard to
/// case; the others are the line feed and the symbols.
#[derive(Clone, Copy, Debug, PartialEq, Eq, PartialOrd, Ord, Structural)]
pub enum TokenKind {
    NewLine,
    Space,
    Class,
    Inherits,
    If,
    Then,
    Else,
    Fi,
    While,
    Loop,
    Pool,
    Let,
    In,
    Case,
    Of,
    Esac,
    New,
    Isvoid,
    Identifier,
    TypeName,
    Plus,
    Minus,
    Star,
    Slash,
    Not,
    Equal,
    LessThan,
    LessThanOrEqual,
    Assign,
    OpenParen,
    CloseParen,
    OpenBrace,
    CloseBrace,
    OpenSquare,
    CloseSquare,
    Semicolon,
    Colon,
    IntegerLiteral,
    StringLiteral,
    True,
    False,
}

impl TokenKind {
    /// Whether the kind is a reserved word.
    pub open spec fn spec_is_keyword(self) -> bool {
        match self {
            TokenKind::Class
            | TokenKind::Inherits
            | TokenKind::If
            | TokenKind::Then
            | TokenKind::Else
            | TokenKind::Fi
            | TokenKind::While
            | TokenKind::Loop
            | TokenKind::Pool
            | TokenKind::Let
            | TokenKind::In
            | TokenKind::Case
            | TokenKind::Of
            | TokenKind::Esac
            | TokenKind::New
            | TokenKind::Isvoid
            | TokenKind::Not
            | TokenKind::True
            | TokenKind::False => true,
            _ => false,
        }
    }

    /// Whether the kind is a reserved word.
    #[verifier::when_used_as_spec(spec_is_keyword)]
    pub fn is_keyword(self) -> (yes: bool)
        ensures
            yes == self.is_keyword(),
    {
        match self {
            TokenKind::Class
            | TokenKind::Inherits
            | TokenKind::If
            | TokenKind::Then
            | TokenKind::Else
            | TokenKind::Fi
            | TokenKind::While
            | TokenKind::Loop
            | TokenKind::Pool
            | TokenKind::Let
            | TokenKind::In
            | TokenKind::Case
            | TokenKind::Of
            | TokenKind::Esac
            | TokenKind::New
            | TokenKind::Isvoid
            | TokenKind::Not
            | TokenKind::True
            | TokenKind::False => true,
            _ => false,
        }
    }

    /// The spelling of a fixed kind, lower case for a keyword. It is empty for
    /// the five kinds that are classes of text.
    pub open spec fn spelling(self) -> Seq<char> {
        match self {
            TokenKind::NewLine => seq!['\n'],
            TokenKind::Class => seq!['c', 'l', 'a', 's', 's'],
            TokenKind::Inherits => seq!['i', 'n', 'h', 'e', 'r', 'i', 't', 's'],
            TokenKind::If => seq!['i', 'f'],
            TokenKind::Then => seq!['t', 'h', 'e', 'n'],
            TokenKind::Else => seq!['e', 'l', 's', 'e'],
            TokenKind::Fi => seq!['f', 'i'],
            TokenKind::While => seq!['w', 'h', 'i', 'l', 'e'],
            TokenKind::Loop => seq!['l', 'o', 'o', 'p'],
            TokenKind::Pool => seq!['p', 'o', 'o', 'l'],
            TokenKind::Let => seq!['l', 'e', 't'],
            TokenKind::In => seq!['i', 'n'],
            TokenKind::Case => seq!['c', 'a', 's', 'e'],
            TokenKind::Of => seq!['o', 'f'],
            TokenKind::Esac => seq!['e', 's', 'a', 'c'],
            TokenKind::New => seq!['n', 'e', 'w'],
            TokenKind::Isvoid => seq!['i', 's', 'v', 'o', 'i', 'd'],
            TokenKind::Plus => seq!['+'],
            TokenKind::Minus => seq!['-'],
            TokenKind::Star => seq!['*'],
            TokenKind::Slash => seq!['/'],
            TokenKind::Not => seq!['n', 'o', 't'],
            TokenKind::Equal => seq!['='],
            TokenKind::LessThan => seq!['<'],
            TokenKind::LessThanOrEqual => seq!['<', '='],
            TokenKind::Assign => seq!['<', '-'],
            TokenKind::OpenParen => seq!['('],
            TokenKind::CloseParen => seq![')'],
            TokenKind::OpenBrace => seq!['{'],
            TokenKind::CloseBrace => seq!['}'],
            TokenKind::OpenSquare => seq!['['],
            TokenKind::CloseSquare => seq![']'],
            TokenKind::Semicolon => seq![';'],
            TokenKind::Colon => seq![':'],
            TokenKind::True => seq!['t', 'r', 'u', 'e'],
            TokenKind::False => seq!['f', 'a', 'l', 's', 'e'],
            TokenKind::Space
            | TokenKind::Identifier
            | TokenKind::TypeName
            | TokenKind::IntegerLiteral
            | TokenKind::StringLiteral => Seq::empty(),
        }
    }

    /// The spelling of a fixed kind, lower case for a keyword, and the empty
    /// text for the five kinds that are classes of text.
    pub fn spelling_str(self) -> (text: &'static str)
        ensures
            text@ == self.spelling(),
    {
        proof {
            reveal_strlit("");
            reveal_strlit("\n");
            reveal_strlit("class");
            reveal_strlit("inherits");
            reveal_strlit("if");
            reveal_strlit("then");
            reveal_strlit("else");
            reveal_strlit("fi");
            reveal_strlit("while");
            reveal_strlit("loop");
            reveal_strlit("pool");
            reveal_strlit("let");
            reveal_strlit("in");
            reveal_strlit("case");
            reveal_strlit("of");
            reveal_strlit("esac");
            reveal_strlit("new");
            reveal_strlit("isvoid");
            reveal_strlit("+");
            reveal_strlit("-");
            reveal_strlit("*");
            reveal_strlit("/");
            reveal_strlit("not");
            reveal_strlit("=");
            reveal_strlit("<");
            reveal_strlit("<=");
            reveal_strlit("<-");
            reveal_strlit("(");
            reveal_strlit(")");
            reveal_strlit("{");
            reveal_strlit("}");
            reveal_strlit("[");
            reveal_strlit("]");
            reveal_strlit(";");
            reveal_strlit(":");
            reveal_strlit("true");
            reveal_strlit("false");
        }
        match self {
            TokenKind::NewLine => "\n",
            TokenKind::Class => "class",
            TokenKind::Inherits => "inherits",
            TokenKind::If => "if",
            TokenKind::Then => "then",
            TokenKind::Else => "else",
            TokenKind::Fi => "fi",
            TokenKind::While => "while",
            TokenKind::Loop => "loop",
            TokenKind::Pool => "pool",
            TokenKind::Let => "let",
            TokenKind::In => "in",
            TokenKind::Case => "case",
            TokenKind::Of => "of",
            TokenKind::Esac => "esac",
            TokenKind::New => "new",
            TokenKind::Isvoid => "isvoid",
            TokenKind::Plus => "+",
            TokenKind::Minus => "-",
            TokenKind::Star => "*",
            TokenKind::Slash => "/",
            TokenKind::Not => "not",
            TokenKind::Equal => "=",
            TokenKind::LessThan => "<",
            TokenKind::LessThanOrEqual => "<=",
            TokenKind::Assign => "<-",
            TokenKind::OpenParen => "(",
            TokenKind::CloseParen => ")",
            TokenKind::OpenBrace => "{",
            TokenKind::CloseBrace => "}",
            TokenKind::OpenSquare => "[",
            TokenKind::CloseSquare => "]",
            TokenKind::Semicolon => ";",
            TokenKind::Colon => ":",
            TokenKind::True => "true",
            TokenKind::False => "false",
            TokenKind::Space
            | TokenKind::Identifier
            | TokenKind::TypeName
            | TokenKind::IntegerLiteral
            | TokenKind::StringLiteral => "",
        }
    }

    /// The name of the kind, as it is printed.
    pub open spec fn label(self) -> Seq<char> {
        match self {
            TokenKind::NewLine => "NewLine"@,
            TokenKind::Space => "Space"@,
            TokenKind::Class => "Class"@,
            TokenKind::Inherits => "Inherits"@,
            TokenKind::If => "If"@,
            TokenKind::Then => "Then"@,
            TokenKind::Else => "Else"@,
            TokenKind::Fi => "Fi"@,
            TokenKind::While => "While"@,
            TokenKind::Loop => "Loop"@,
            TokenKind::Pool => "Pool"@,
            TokenKind::Let => "Let"@,
            TokenKind::In => "In"@,
            TokenKind::Case => "Case"@,
            TokenKind::Of => "Of"@,
            TokenKind::Esac => "Esac"@,
            TokenKind::New => "New"@,
            TokenKind::Isvoid => "Isvoid"@,
            TokenKind::Identifier => "Identifier"@,
            TokenKind::TypeName => "TypeName"@,
            TokenKind::Plus => "Plus"@,
            TokenKind::Minus => "Minus"@,
            TokenKind::Star => "Star"@,
            TokenKind::Slash => "Slash"@,
            TokenKind::Not => "Not"@,
            TokenKind::Equal => "Equal"@,
            TokenKind::LessThan => "LessThan"@,
            TokenKind::LessThanOrEqual => "LessThanOrEqual"@,
            TokenKind::Assign => "Assign"@,
            TokenKind::OpenParen => "OpenParen"@,
            TokenKind::CloseParen => "CloseParen"@,
            TokenKind::OpenBrace => "OpenBrace"@,
            TokenKind::CloseBrace => "CloseBrace"@,
            TokenKind::OpenSquare => "OpenSquare"@,
            TokenKind::CloseSquare => "CloseSquare"@,
            TokenKind::Semicolon => "Semicolon"@,
            TokenKind::Colon => "Colon"@,
            TokenKind::IntegerLiteral => "IntegerLiteral"@,
            TokenKind::StringLiteral => "StringLiteral"@,
            TokenKind::True => "True"@,
            TokenKind::False => "False"@,
        }
    }

    /// The name of the kind, as it is printed.
    pub fn name(self) -> (name: &'static str)
        ensures
            name@ == self.label(),
    {
        match self {
            TokenKind::NewLine => "NewLine",
            TokenKind::Space => "Space",
            TokenKind::Class => "Class",
            TokenKind::Inherits => "Inherits",
            TokenKind::If => "If",
            TokenKind::Then => "Then",
            TokenKind::Else => "Else",
            TokenKind::Fi => "Fi",
            TokenKind::While => "While",
            TokenKind::Loop => "Loop",
            TokenKind::Pool => "Pool",
            TokenKind::Let => "Let",
            TokenKind::In => "In",
            TokenKind::Case => "Case",
            TokenKind::Of => "Of",
            TokenKind::Esac => "Esac",
            TokenKind::New => "New",
            TokenKind::Isvoid => "Isvoid",
            TokenKind::Identifier => "Identifier",
            TokenKind::TypeName => "TypeName",
            TokenKind::Plus => "Plus",
            TokenKind::Minus => "Minus",
            TokenKind::Star => "Star",
            TokenKind::Slash => "Slash",
            TokenKind::Not => "Not",
            TokenKind::Equal => "Equal",
            TokenKind::LessThan => "LessThan",
            TokenKind::LessThanOrEqual => "LessThanOrEqual",
            TokenKind::Assign => "Assign",
            TokenKind::OpenParen => "OpenParen",
            TokenKind::CloseParen => "CloseParen",
            TokenKind::OpenBrace => "OpenBrace",
            TokenKind::CloseBrace => "CloseBrace",
            TokenKind::OpenSquare => "OpenSquare",
            TokenKind::CloseSquare => "CloseSquare",
            TokenKind::Semicolon => "Semicolon",
            TokenKind::Colon => "Colon",
            TokenKind::IntegerLiteral => "IntegerLiteral",
            TokenKind::StringLiteral => "StringLiteral",
            TokenKind::True => "True",
            TokenKind::False => "False",
        }
    }
}

} // verus!
