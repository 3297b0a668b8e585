use cool_lexer::common::CoolDoc;
use cool_lexer::lexer::{LexError, Token, TokenKind};

const KEYWORDS: [(&str, TokenKind); 19] = [
    ("class", TokenKind::Class),
    ("inherits", TokenKind::Inherits),
    ("if", TokenKind::If),
    ("then", TokenKind::Then),
    ("else", TokenKind::Else),
    ("fi", TokenKind::Fi),
    ("while", TokenKind::While),
    ("loop", TokenKind::Loop),
    ("pool", TokenKind::Pool),
    ("let", TokenKind::Let),
    ("in", TokenKind::In),
    ("case", TokenKind::Case),
    ("of", TokenKind::Of),
    ("esac", TokenKind::Esac),
    ("new", TokenKind::New),
    ("isvoid", TokenKind::Isvoid),
    ("not", TokenKind::Not),
    ("true", TokenKind::True),
    ("false", TokenKind::False),
];

const SYMBOLS: [(&str, TokenKind); 17] = [
    ("\n", TokenKind::NewLine),
    ("+", TokenKind::Plus),
    ("-", TokenKind::Minus),
    ("*", TokenKind::Star),
    ("/", TokenKind::Slash),
    ("=", TokenKind::Equal),
    ("<", TokenKind::LessThan),
    ("<=", TokenKind::LessThanOrEqual),
    ("<-", TokenKind::Assign),
    ("(", TokenKind::OpenParen),
    (")", TokenKind::CloseParen),
    ("{", TokenKind::OpenBrace),
    ("}", TokenKind::CloseBrace),
    ("[", TokenKind::OpenSquare),
    ("]", TokenKind::CloseSquare),
    (";", TokenKind::Semicolon),
    (":", TokenKind::Colon),
];

fn is_word(c: char) -> bool {
    c.is_ascii_alphanumeric() || c == '_'
}

fn run(rest: &str, keep: impl Fn(char) -> bool) -> usize {
    rest.chars().take_while(|&c| keep(c)).map(char::len_utf8).sum()
}

fn name(rest: &str, first: impl Fn(char) -> bool) -> usize {
    match rest.chars().next() {
        Some(c) if first(c) => 1 + run(&rest[1..], is_word),
        _ => 0,
    }
}

fn string(rest: &str) -> usize {
    if !rest.starts_with('"') {
        return 0;
    }
    match rest[1..].find(|c| c == '"' || c == '\n') {
        Some(close) if rest[1..].as_bytes()[close] == b'"' => close + 2,
        _ => 0,
    }
}

// The longest text at the start of `rest` that each rule accepts, with the
// keywords first so that they come before the names among equals.
fn candidates(rest: &str) -> Vec<(TokenKind, usize)> {
    let mut found = Vec::new();
    for (word, kind) in KEYWORDS {
        match rest.get(..word.len()) {
            Some(piece) if piece.eq_ignore_ascii_case(word) => found.push((kind, word.len())),
            _ => {}
        }
    }
    for (symbol, kind) in SYMBOLS {
        if rest.starts_with(symbol) {
            found.push((kind, symbol.len()));
        }
    }
    found.push((TokenKind::Space, run(rest, |c| c.is_whitespace() && c != '\n')));
    found.push((TokenKind::Identifier, name(rest, |c| c.is_ascii_lowercase())));
    found.push((TokenKind::TypeName, name(rest, |c| c.is_ascii_uppercase())));
    found.push((TokenKind::IntegerLiteral, run(rest, |c| c.is_ascii_digit())));
    found.push((TokenKind::StringLiteral, string(rest)));
    found
}

fn expected_at(text: &str, at: usize) -> Option<(TokenKind, usize)> {
    let mut best: Option<(TokenKind, usize)> = None;
    for (kind, len) in candidates(&text[at..]) {
        if len > 0 && best.map_or(true, |(_, longest)| len > longest) {
            best = Some((kind, len));
        }
    }
    best
}

fn locate(text: &str, offset: usize) -> (usize, usize) {
    let before = &text.as_bytes()[..offset];
    let line = 1 + before.iter().filter(|&&b| b == b'\n').count();
    let start = match before.iter().rposition(|&b| b == b'\n') {
        Some(feed) => feed + 1,
        None => 0,
    };
    (line, offset - start + 1)
}

// Walks `text` with a tokenizer that steps over what it does not recognize,
// and holds every answer against the rules as they are written above.
fn check_document(text: &str) {
    let doc = CoolDoc::new(text);
    let mut tokenizer = doc.tokenize();
    let mut at = 0;
    let mut clean = true;
    let mut tokens = Vec::new();
    while at < text.len() {
        assert_eq!(tokenizer.offset(), at, "in {text:?}");
        assert!(!tokenizer.exhausted());
        match expected_at(text, at) {
            Some((kind, len)) => {
                let (line, column) = locate(text, at);
                let token = Token { kind, line, column, slice: &text[at..at + len] };
                assert!(!tokenizer.skip_unrecognized());
                assert_eq!(tokenizer.next_token(), Some(Ok(token)), "at {at} of {text:?}");
                tokens.push(token);
                at += len;
            }
            None => {
                let error = LexError::Unrecognized { offset: at };
                assert_eq!(tokenizer.next_token(), Some(Err(error)), "at {at} of {text:?}");
                assert_eq!(tokenizer.offset(), at);
                if clean {
                    assert_eq!(doc.tokenize().collect(), Err(error), "in {text:?}");
                    clean = false;
                }
                assert!(tokenizer.skip_unrecognized());
                at += text[at..].chars().next().unwrap().len_utf8();
            }
        }
    }
    assert_eq!(tokenizer.offset(), text.len());
    assert!(tokenizer.exhausted());
    assert_eq!(tokenizer.next_token(), None);
    if clean {
        assert_eq!(doc.tokenize().collect(), Ok(tokens), "in {text:?}");
    }
}

#[test]
fn every_character_alone_is_scanned_by_the_rules() {
    for c in '\0'..=char::MAX {
        let text = c.to_string();
        let doc = CoolDoc::new(&text);
        let expected = match expected_at(&text, 0) {
            Some((kind, len)) => {
                Some(Ok(Token { kind, line: 1, column: 1, slice: &text[..len] }))
            }
            None => Some(Err(LexError::Unrecognized { offset: 0 })),
        };
        assert_eq!(doc.tokenize().next_token(), expected, "for {c:?}");
    }
}

#[test]
fn every_character_after_a_blank_is_scanned_by_the_rules() {
    for c in ('\0'..='\u{3100}').chain('\u{fe00}'..='\u{ffff}').chain('\u{1f600}'..='\u{1f610}') {
        check_document(&format!("\u{2003}{c}x"));
    }
}

#[test]
fn every_pair_of_ascii_characters_is_scanned_by_the_rules() {
    for first in '\0'..='\u{7f}' {
        for second in '\0'..='\u{7f}' {
            check_document(&format!("{first}{second}"));
        }
    }
}

#[test]
fn keywords_in_every_case_are_scanned_by_the_rules() {
    for (word, kind) in KEYWORDS {
        for mask in 0..(1u32 << word.len()) {
            let spelled: String = word
                .chars()
                .enumerate()
                .map(|(i, c)| if mask >> i & 1 == 1 { c.to_ascii_uppercase() } else { c })
                .collect();
            let doc = CoolDoc::new(&spelled);
            let token = Token { kind, line: 1, column: 1, slice: &spelled };
            assert_eq!(doc.tokenize().collect(), Ok(vec![token]));
            check_document(&format!("{spelled}_"));
        }
    }
}

#[test]
fn words_around_keywords_are_scanned_by_the_rules() {
    for (word, _) in KEYWORDS {
        for tail in ["", "s", "S", "_", "0", " ", "\n", "(", "\"", "é", "\u{a0}"] {
            check_document(&format!("{word}{tail}"));
            check_document(&format!("{}{tail}{word}", word.to_uppercase()));
            check_document(&format!("x{word}{tail}"));
            check_document(&format!("{}{tail}", &word[..word.len() - 1]));
        }
    }
}

#[test]
fn mixed_documents_are_scanned_by_the_rules() {
    let pieces = [
        "class", "Class", "inherits", "if", "fi", "in", "isvoid", "not", "true", "FALSE", "x",
        "Xy", "foo_1", "Main", "_", "0", "42", "007", "\"", "\"a b\"", "\"é\"", "\"", " ", "  ",
        "\t", "\r", "\u{b}", "\u{c}", "\n", "\n", "\u{85}", "\u{a0}", "\u{1680}", "\u{2000}",
        "\u{200a}", "\u{200b}", "\u{2028}", "\u{202f}", "\u{205f}", "\u{3000}", "\u{feff}", "+",
        "-", "*", "/", "=", "<", "<", "<=", "<-", "(", ")", "{", "}", "[", "]", ";", ":", "@",
        "#", ".", ",", "\\", "é", "→", "\u{1f600}",
    ];
    let mut state: u64 = 0x2545_f491_4f6c_dd1d;
    let mut next = move |bound: usize| {
        state ^= state << 13;
        state ^= state >> 7;
        state ^= state << 17;
        (state % bound as u64) as usize
    };
    for _ in 0..100_000 {
        let mut text = String::new();
        for _ in 0..next(32) {
            text.push_str(pieces[next(pieces.len())]);
        }
        check_document(&text);
    }
}
