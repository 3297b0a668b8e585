use cool_lexer::common::CoolDoc;
use cool_lexer::lexer::{LexError, Token, TokenKind, Tokenizer};

fn kinds(text: &str) -> Vec<TokenKind> {
    let doc = CoolDoc::new(text);
    let tokens = doc.tokenize().collect().unwrap();
    tokens.iter().map(|token| token.kind).collect()
}

fn single(text: &str) -> (TokenKind, usize) {
    let doc = CoolDoc::new(text);
    let mut tokenizer = doc.tokenize();
    let token = tokenizer.next_token().unwrap().unwrap();
    (token.kind, token.slice.len())
}

fn first_error(text: &str) -> usize {
    let doc = CoolDoc::new(text);
    match doc.tokenize().collect() {
        Err(LexError::Unrecognized { offset }) => offset,
        Ok(_) => panic!("every offset of the text is covered by a token"),
    }
}

// Line and column of a byte offset, counted from the text alone.
fn locate(text: &str, offset: usize) -> (usize, usize) {
    let before = &text.as_bytes()[..offset];
    let line = 1 + before.iter().filter(|&&b| b == b'\n').count();
    let start = match before.iter().rposition(|&b| b == b'\n') {
        Some(feed) => feed + 1,
        None => 0,
    };
    (line, offset - start + 1)
}

const PROGRAM: &str = "class Main inherits IO {\n    main(): Object {\n        if x <= 10 then out_string(\"small\\t\") else\n\t\t\ty <- not isvoid z fi\n    };\n};\n";

#[test]
fn empty_document_has_no_tokens() {
    let doc = CoolDoc::new("");
    let mut tokenizer = doc.tokenize();
    assert!(tokenizer.exhausted());
    assert_eq!(tokenizer.next_token(), None);
    assert_eq!(tokenizer.next_token(), None);
    assert_eq!(tokenizer.offset(), 0);
    assert_eq!(doc.tokenize().collect(), Ok(vec![]));
}

#[test]
fn exhausted_tokenizer_stays_exhausted() {
    let doc = CoolDoc::new("fi");
    let mut tokenizer = doc.tokenize();
    assert!(!tokenizer.exhausted());
    assert!(tokenizer.next_token().is_some());
    assert!(tokenizer.exhausted());
    assert_eq!(tokenizer.offset(), 2);
    assert_eq!(tokenizer.next_token(), None);
    assert_eq!(tokenizer.next_token(), None);
    assert_eq!(tokenizer.offset(), 2);
    assert!(!tokenizer.skip_unrecognized());
    assert_eq!(tokenizer.collect(), Ok(vec![]));
}

#[test]
fn three_line_feeds_are_three_tokens() {
    let doc = CoolDoc::new("\n\n\n");
    let tokens = doc.tokenize().collect().unwrap();
    assert_eq!(
        tokens,
        vec![
            Token { kind: TokenKind::NewLine, line: 1, column: 1, slice: "\n" },
            Token { kind: TokenKind::NewLine, line: 2, column: 1, slice: "\n" },
            Token { kind: TokenKind::NewLine, line: 3, column: 1, slice: "\n" },
        ]
    );
}

#[test]
fn line_feed_belongs_to_the_line_it_ends() {
    let doc = CoolDoc::new("ab\ncd");
    let tokens = doc.tokenize().collect().unwrap();
    assert_eq!(
        tokens,
        vec![
            Token { kind: TokenKind::Identifier, line: 1, column: 1, slice: "ab" },
            Token { kind: TokenKind::NewLine, line: 1, column: 3, slice: "\n" },
            Token { kind: TokenKind::Identifier, line: 2, column: 1, slice: "cd" },
        ]
    );
}

#[test]
fn class_header_is_scanned_token_by_token() {
    let doc = CoolDoc::new("class Foo inherits Bar {};");
    let tokens = doc.tokenize().collect().unwrap();
    assert_eq!(
        tokens,
        vec![
            Token { kind: TokenKind::Class, line: 1, column: 1, slice: "class" },
            Token { kind: TokenKind::Space, line: 1, column: 6, slice: " " },
            Token { kind: TokenKind::TypeName, line: 1, column: 7, slice: "Foo" },
            Token { kind: TokenKind::Space, line: 1, column: 10, slice: " " },
            Token { kind: TokenKind::Inherits, line: 1, column: 11, slice: "inherits" },
            Token { kind: TokenKind::Space, line: 1, column: 19, slice: " " },
            Token { kind: TokenKind::TypeName, line: 1, column: 20, slice: "Bar" },
            Token { kind: TokenKind::Space, line: 1, column: 23, slice: " " },
            Token { kind: TokenKind::OpenBrace, line: 1, column: 24, slice: "{" },
            Token { kind: TokenKind::CloseBrace, line: 1, column: 25, slice: "}" },
            Token { kind: TokenKind::Semicolon, line: 1, column: 26, slice: ";" },
        ]
    );
}

#[test]
fn next_token_walks_the_document() {
    let doc = CoolDoc::new("x<-1");
    let mut tokenizer = doc.tokenize();
    assert_eq!(tokenizer.offset(), 0);
    assert_eq!(
        tokenizer.next_token(),
        Some(Ok(Token { kind: TokenKind::Identifier, line: 1, column: 1, slice: "x" }))
    );
    assert_eq!(tokenizer.offset(), 1);
    assert_eq!(
        tokenizer.next_token(),
        Some(Ok(Token { kind: TokenKind::Assign, line: 1, column: 2, slice: "<-" }))
    );
    assert_eq!(tokenizer.offset(), 3);
    assert_eq!(
        tokenizer.next_token(),
        Some(Ok(Token { kind: TokenKind::IntegerLiteral, line: 1, column: 4, slice: "1" }))
    );
    assert_eq!(tokenizer.offset(), 4);
    assert_eq!(tokenizer.next_token(), None);
}

#[test]
fn tokenizer_is_made_from_a_document() {
    let doc = CoolDoc::new("new A");
    let from_doc = doc.tokenize().collect();
    let from_new = Tokenizer::new(&doc).collect();
    assert_eq!(from_doc, from_new);
    assert_eq!(from_doc.unwrap().len(), 3);
}

#[test]
fn two_tokenizers_of_one_document_do_not_disturb_each_other() {
    let doc = CoolDoc::new("a b");
    let mut first = doc.tokenize();
    let mut second = doc.tokenize();
    assert_eq!(first.next_token().unwrap().unwrap().slice, "a");
    assert_eq!(first.next_token().unwrap().unwrap().slice, " ");
    assert_eq!(second.next_token().unwrap().unwrap().slice, "a");
    assert_eq!(first.next_token().unwrap().unwrap().slice, "b");
    assert_eq!(second.offset(), 1);
}

#[test]
fn keywords_are_read_in_any_case() {
    assert_eq!(kinds("CLASS"), vec![TokenKind::Class]);
    assert_eq!(kinds("Class"), vec![TokenKind::Class]);
    assert_eq!(kinds("class"), vec![TokenKind::Class]);
    assert_eq!(kinds("cLaSs"), vec![TokenKind::Class]);
    assert_eq!(kinds("iNHERITs"), vec![TokenKind::Inherits]);
    assert_eq!(kinds("Fi"), vec![TokenKind::Fi]);
    assert_eq!(kinds("NOT"), vec![TokenKind::Not]);
    assert_eq!(kinds("True"), vec![TokenKind::True]);
    assert_eq!(kinds("fALSE"), vec![TokenKind::False]);
}

#[test]
fn every_keyword_has_its_kind() {
    let words = [
        ("class", TokenKind::Class),
        ("inherits", TokenKind::Inherits),
        ("if", TokenKind::If),
        ("then", TokenKind::Then),
        ("else", TokenKind::Else),
        ("fi", TokenKind::Fi),
        ("while", TokenKind::While),
        ("loop", TokenKind::Loop),
        ("pool", TokenKind::Pool),
        ("let", TokenKind::Let),
        ("in", TokenKind::In),
        ("case", TokenKind::Case),
        ("of", TokenKind::Of),
        ("esac", TokenKind::Esac),
        ("new", TokenKind::New),
        ("isvoid", TokenKind::Isvoid),
        ("not", TokenKind::Not),
        ("true", TokenKind::True),
        ("false", TokenKind::False),
    ];
    for (word, kind) in words {
        assert_eq!(single(word), (kind, word.len()));
        assert_eq!(single(&word.to_uppercase()), (kind, word.len()));
        assert_eq!(kind.spelling_str(), word);
    }
}

#[test]
fn keyword_inside_a_longer_word_is_a_name() {
    assert_eq!(kinds("classify"), vec![TokenKind::Identifier]);
    assert_eq!(kinds("Classify"), vec![TokenKind::TypeName]);
    assert_eq!(kinds("iffy"), vec![TokenKind::Identifier]);
    assert_eq!(kinds("in1"), vec![TokenKind::Identifier]);
    assert_eq!(kinds("of_"), vec![TokenKind::Identifier]);
    assert_eq!(kinds("NEWS"), vec![TokenKind::TypeName]);
    assert_eq!(kinds("cla"), vec![TokenKind::Identifier]);
    assert_eq!(single("classify"), (TokenKind::Identifier, 8));
}

#[test]
fn names_go_by_their_first_letter() {
    assert_eq!(single("x"), (TokenKind::Identifier, 1));
    assert_eq!(single("X"), (TokenKind::TypeName, 1));
    assert_eq!(single("fooBar_9z"), (TokenKind::Identifier, 9));
    assert_eq!(single("Foo_bar9"), (TokenKind::TypeName, 8));
    assert_eq!(single("self"), (TokenKind::Identifier, 4));
    assert_eq!(single("SELF_TYPE"), (TokenKind::TypeName, 9));
}

#[test]
fn name_ends_before_a_byte_that_is_no_word_byte() {
    assert_eq!(
        kinds("ab+cd"),
        vec![TokenKind::Identifier, TokenKind::Plus, TokenKind::Identifier]
    );
    assert_eq!(kinds("ab cd").len(), 3);
    assert_eq!(first_error("abé"), 2);
}

#[test]
fn digits_before_letters_are_a_number_and_a_name() {
    assert_eq!(kinds("12ab"), vec![TokenKind::IntegerLiteral, TokenKind::Identifier]);
    assert_eq!(kinds("0"), vec![TokenKind::IntegerLiteral]);
    assert_eq!(single("0012345678901234567890"), (TokenKind::IntegerLiteral, 22));
}

#[test]
fn less_or_equal_and_assign_are_single_tokens() {
    assert_eq!(kinds("<="), vec![TokenKind::LessThanOrEqual]);
    assert_eq!(kinds("<-"), vec![TokenKind::Assign]);
    assert_eq!(single("<="), (TokenKind::LessThanOrEqual, 2));
    assert_eq!(single("<-"), (TokenKind::Assign, 2));
    assert_eq!(kinds("<"), vec![TokenKind::LessThan]);
    assert_eq!(kinds("<<"), vec![TokenKind::LessThan, TokenKind::LessThan]);
    assert_eq!(kinds("<=="), vec![TokenKind::LessThanOrEqual, TokenKind::Equal]);
    assert_eq!(kinds("<--"), vec![TokenKind::Assign, TokenKind::Minus]);
    assert_eq!(kinds("< ="), vec![TokenKind::LessThan, TokenKind::Space, TokenKind::Equal]);
    assert_eq!(
        kinds("a<=b"),
        vec![TokenKind::Identifier, TokenKind::LessThanOrEqual, TokenKind::Identifier]
    );
}

#[test]
fn every_symbol_has_its_kind() {
    let symbols = [
        ("+", TokenKind::Plus),
        ("-", TokenKind::Minus),
        ("*", TokenKind::Star),
        ("/", TokenKind::Slash),
        ("=", TokenKind::Equal),
        ("<", TokenKind::LessThan),
        ("<=", TokenKind::LessThanOrEqual),
        ("<-", TokenKind::Assign),
        ("(", TokenKind::OpenParen),
        (")", TokenKind::CloseParen),
        ("{", TokenKind::OpenBrace),
        ("}", TokenKind::CloseBrace),
        ("[", TokenKind::OpenSquare),
        ("]", TokenKind::CloseSquare),
        (";", TokenKind::Semicolon),
        (":", TokenKind::Colon),
        ("\n", TokenKind::NewLine),
    ];
    for (symbol, kind) in symbols {
        assert_eq!(single(symbol), (kind, symbol.len()));
        assert_eq!(kind.spelling_str(), symbol);
    }
}

#[test]
fn classes_of_text_have_no_spelling() {
    assert_eq!(TokenKind::Space.spelling_str(), "");
    assert_eq!(TokenKind::Identifier.spelling_str(), "");
    assert_eq!(TokenKind::TypeName.spelling_str(), "");
    assert_eq!(TokenKind::IntegerLiteral.spelling_str(), "");
    assert_eq!(TokenKind::StringLiteral.spelling_str(), "");
}

#[test]
fn blanks_run_together_and_stop_at_a_line_feed() {
    assert_eq!(single(" \t\r\u{b}\u{c} x"), (TokenKind::Space, 6));
    assert_eq!(
        kinds(" \t\n \t"),
        vec![TokenKind::Space, TokenKind::NewLine, TokenKind::Space]
    );
    assert_eq!(kinds("\r\n"), vec![TokenKind::Space, TokenKind::NewLine]);
}

#[test]
fn blanks_beyond_ascii_are_space() {
    for blank in [
        "\u{85}", "\u{a0}", "\u{1680}", "\u{2000}", "\u{2005}", "\u{200a}", "\u{2028}",
        "\u{2029}", "\u{202f}", "\u{205f}", "\u{3000}",
    ] {
        assert_eq!(single(blank), (TokenKind::Space, blank.len()));
    }
    assert_eq!(single(" \u{a0}\u{2003}\t\u{3000}x"), (TokenKind::Space, 10));
}

#[test]
fn characters_next_to_blanks_are_not_blank() {
    for stray in [
        "\u{8}", "\u{e}", "\u{1f}", "\u{84}", "\u{86}", "\u{9f}", "\u{a1}", "\u{167f}",
        "\u{1681}", "\u{1fff}", "\u{200b}", "\u{2027}", "\u{202a}", "\u{202e}", "\u{2030}",
        "\u{205e}", "\u{2060}", "\u{2fff}", "\u{3001}", "\u{feff}", "\u{1f600}",
    ] {
        assert_eq!(first_error(stray), 0);
        let text = format!(" {stray}");
        let doc = CoolDoc::new(&text);
        let mut tokenizer = doc.tokenize();
        assert_eq!(tokenizer.next_token().unwrap().unwrap().slice, " ");
        assert_eq!(
            tokenizer.next_token(),
            Some(Err(LexError::Unrecognized { offset: 1 }))
        );
    }
}

#[test]
fn string_literal_runs_from_quote_to_quote() {
    assert_eq!(single("\"\""), (TokenKind::StringLiteral, 2));
    assert_eq!(single("\"abc\""), (TokenKind::StringLiteral, 5));
    assert_eq!(single("\"a b\tc\"x"), (TokenKind::StringLiteral, 7));
    assert_eq!(single("\"class <= @ \\ é→\""), (TokenKind::StringLiteral, 20));
    assert_eq!(
        kinds("\"a\"\"b\""),
        vec![TokenKind::StringLiteral, TokenKind::StringLiteral]
    );
    assert_eq!(kinds("\"a\\\"b"), vec![TokenKind::StringLiteral, TokenKind::Identifier]);
}

#[test]
fn unterminated_string_is_unrecognized_at_its_quote() {
    assert_eq!(first_error("\""), 0);
    assert_eq!(first_error("\"abc"), 0);
    assert_eq!(first_error("x <- \"abc"), 5);
    assert_eq!(first_error("\"abc\ndef\""), 0);
    assert_eq!(first_error("\"ok\" \"no\n\""), 5);
}

#[test]
fn stray_character_is_unrecognized_at_its_offset() {
    assert_eq!(first_error("@"), 0);
    assert_eq!(first_error("a @ b"), 2);
    assert_eq!(first_error("x\n  #"), 4);
    for stray in ["!", "#", "$", "%", "&", "'", ",", ".", "?", "@", "\\", "^", "_", "`", "|", "~", "\0", "\u{7f}", "é", "→"] {
        assert_eq!(first_error(stray), 0);
    }
}

#[test]
fn unrecognized_offset_counts_bytes() {
    assert_eq!(first_error("\"é\" @"), 5);
    assert_eq!(first_error("\u{3000}\u{a0}é"), 5);
}

#[test]
fn error_leaves_the_tokenizer_where_it_is() {
    let doc = CoolDoc::new("a @b");
    let mut tokenizer = doc.tokenize();
    assert_eq!(tokenizer.next_token().unwrap().unwrap().kind, TokenKind::Identifier);
    assert_eq!(tokenizer.next_token().unwrap().unwrap().kind, TokenKind::Space);
    assert_eq!(tokenizer.offset(), 2);
    assert_eq!(tokenizer.next_token(), Some(Err(LexError::Unrecognized { offset: 2 })));
    assert_eq!(tokenizer.offset(), 2);
    assert_eq!(tokenizer.next_token(), Some(Err(LexError::Unrecognized { offset: 2 })));
    assert_eq!(tokenizer.offset(), 2);
    assert!(!tokenizer.exhausted());
}

#[test]
fn skipping_resumes_after_the_stray_character() {
    let doc = CoolDoc::new("a @b");
    let mut tokenizer = doc.tokenize();
    assert_eq!(tokenizer.collect(), Err(LexError::Unrecognized { offset: 2 }));
    assert_eq!(tokenizer.offset(), 2);
    assert!(tokenizer.skip_unrecognized());
    assert_eq!(tokenizer.offset(), 3);
    assert_eq!(
        tokenizer.next_token(),
        Some(Ok(Token { kind: TokenKind::Identifier, line: 1, column: 4, slice: "b" }))
    );
    assert_eq!(tokenizer.next_token(), None);
}

#[test]
fn skipping_steps_over_a_whole_character() {
    for (stray, width) in [("@", 1), ("é", 2), ("→", 3), ("\u{1f600}", 4)] {
        let text = format!("{stray}\nx");
        let doc = CoolDoc::new(&text);
        let mut tokenizer = doc.tokenize();
        assert_eq!(tokenizer.next_token(), Some(Err(LexError::Unrecognized { offset: 0 })));
        assert!(tokenizer.skip_unrecognized());
        assert_eq!(tokenizer.offset(), width);
        assert_eq!(
            tokenizer.next_token(),
            Some(Ok(Token { kind: TokenKind::NewLine, line: 1, column: width + 1, slice: "\n" }))
        );
        assert_eq!(
            tokenizer.next_token(),
            Some(Ok(Token { kind: TokenKind::Identifier, line: 2, column: 1, slice: "x" }))
        );
    }
}

#[test]
fn skipping_does_nothing_where_a_token_starts() {
    let doc = CoolDoc::new("\"a\" b");
    let mut tokenizer = doc.tokenize();
    assert!(!tokenizer.skip_unrecognized());
    assert_eq!(tokenizer.offset(), 0);
    assert_eq!(tokenizer.next_token().unwrap().unwrap().slice, "\"a\"");
    assert!(!tokenizer.skip_unrecognized());
    assert_eq!(tokenizer.offset(), 3);
}

#[test]
fn skipping_an_unterminated_quote_reads_on_behind_it() {
    let doc = CoolDoc::new("\"abc");
    let mut tokenizer = doc.tokenize();
    assert_eq!(tokenizer.next_token(), Some(Err(LexError::Unrecognized { offset: 0 })));
    assert!(tokenizer.skip_unrecognized());
    assert_eq!(
        tokenizer.collect(),
        Ok(vec![Token { kind: TokenKind::Identifier, line: 1, column: 2, slice: "abc" }])
    );
}

#[test]
fn collect_starts_at_the_offset() {
    let doc = CoolDoc::new("a\nb c");
    let mut tokenizer = doc.tokenize();
    tokenizer.next_token();
    tokenizer.next_token();
    assert_eq!(
        tokenizer.collect(),
        Ok(vec![
            Token { kind: TokenKind::Identifier, line: 2, column: 1, slice: "b" },
            Token { kind: TokenKind::Space, line: 2, column: 2, slice: " " },
            Token { kind: TokenKind::Identifier, line: 2, column: 3, slice: "c" },
        ])
    );
    assert_eq!(tokenizer.offset(), 5);
}

#[test]
fn slices_put_together_are_the_document() {
    for text in [
        PROGRAM,
        "",
        "\n\n\n",
        "class Foo inherits Bar {};",
        "x<-y<=z<w--1",
        " \u{a0}\"é→\"\u{3000}\r\n\tTrue",
        "(a)[b]{c}:d;e+f-g*h/i=j",
    ] {
        let doc = CoolDoc::new(text);
        let tokens = doc.tokenize().collect().unwrap();
        let rebuilt: String = tokens.iter().map(|token| token.slice).collect();
        assert_eq!(rebuilt, text);
    }
}

#[test]
fn slices_before_an_error_are_the_text_before_it() {
    let text = "let x <- 1 @ 2";
    let doc = CoolDoc::new(text);
    let mut tokenizer = doc.tokenize();
    let mut rebuilt = String::new();
    while let Some(Ok(token)) = tokenizer.next_token() {
        rebuilt.push_str(token.slice);
    }
    assert_eq!(rebuilt, "let x <- 1 ");
    assert_eq!(tokenizer.offset(), 11);
}

#[test]
fn line_and_column_locate_the_slice() {
    for text in [
        PROGRAM,
        "\n\n\n",
        "a\n\nb\n",
        " \u{a0}\"é→\"\u{3000}\r\n\tTrue\n\u{2028}x",
        "x\n\u{2003}y\n\"é\"z",
    ] {
        let doc = CoolDoc::new(text);
        let tokens = doc.tokenize().collect().unwrap();
        let mut offset = 0;
        for token in tokens {
            assert_eq!((token.line, token.column), locate(text, offset));
            assert_eq!(&text[offset..offset + token.slice.len()], token.slice);
            offset += token.slice.len();
        }
        assert_eq!(offset, text.len());
    }
}

#[test]
fn tokens_outlive_their_tokenizer() {
    let doc = CoolDoc::new("while x");
    let first = {
        let mut tokenizer = doc.tokenize();
        tokenizer.next_token().unwrap().unwrap()
    };
    let shared = doc.clone();
    let rest = shared.tokenize().collect().unwrap();
    assert_eq!(first, Token { kind: TokenKind::While, line: 1, column: 1, slice: "while" });
    assert_eq!(rest[0], first);
    assert_eq!(rest[0].slice.as_ptr(), first.slice.as_ptr());
}

#[test]
fn token_slices_are_slices_of_the_document() {
    let doc = CoolDoc::new(" \u{a0}\"é→\"\u{3000}\r\n\tTrue\n\u{2028}x");
    let tokens = doc.tokenize().collect().unwrap();
    let mut offset = 0;
    for token in tokens {
        let end = offset + token.slice.len();
        assert_eq!(doc.slice(offset..end), token.slice);
        assert_eq!(doc.slice(offset..end).as_ptr(), token.slice.as_ptr());
        offset = end;
    }
    assert_eq!(offset, doc.text().len());
}

#[test]
fn column_counts_bytes() {
    let doc = CoolDoc::new("\"é→\" x\n\u{3000}y");
    let tokens = doc.tokenize().collect().unwrap();
    assert_eq!(
        tokens,
        vec![
            Token { kind: TokenKind::StringLiteral, line: 1, column: 1, slice: "\"é→\"" },
            Token { kind: TokenKind::Space, line: 1, column: 8, slice: " " },
            Token { kind: TokenKind::Identifier, line: 1, column: 9, slice: "x" },
            Token { kind: TokenKind::NewLine, line: 1, column: 10, slice: "\n" },
            Token { kind: TokenKind::Space, line: 2, column: 1, slice: "\u{3000}" },
            Token { kind: TokenKind::Identifier, line: 2, column: 4, slice: "y" },
        ]
    );
}

#[test]
fn program_is_scanned_in_full() {
    let doc = CoolDoc::new(PROGRAM);
    let tokens = doc.tokenize().collect().unwrap();
    let words: Vec<(TokenKind, &str)> = tokens
        .iter()
        .filter(|token| token.kind != TokenKind::Space && token.kind != TokenKind::NewLine)
        .map(|token| (token.kind, token.slice))
        .collect();
    assert_eq!(
        words,
        vec![
            (TokenKind::Class, "class"),
            (TokenKind::TypeName, "Main"),
            (TokenKind::Inherits, "inherits"),
            (TokenKind::TypeName, "IO"),
            (TokenKind::OpenBrace, "{"),
            (TokenKind::Identifier, "main"),
            (TokenKind::OpenParen, "("),
            (TokenKind::CloseParen, ")"),
            (TokenKind::Colon, ":"),
            (TokenKind::TypeName, "Object"),
            (TokenKind::OpenBrace, "{"),
            (TokenKind::If, "if"),
            (TokenKind::Identifier, "x"),
            (TokenKind::LessThanOrEqual, "<="),
            (TokenKind::IntegerLiteral, "10"),
            (TokenKind::Then, "then"),
            (TokenKind::Identifier, "out_string"),
            (TokenKind::OpenParen, "("),
            (TokenKind::StringLiteral, "\"small\\t\""),
            (TokenKind::CloseParen, ")"),
            (TokenKind::Else, "else"),
            (TokenKind::Identifier, "y"),
            (TokenKind::Assign, "<-"),
            (TokenKind::Not, "not"),
            (TokenKind::Isvoid, "isvoid"),
            (TokenKind::Identifier, "z"),
            (TokenKind::Fi, "fi"),
            (TokenKind::CloseBrace, "}"),
            (TokenKind::Semicolon, ";"),
            (TokenKind::CloseBrace, "}"),
            (TokenKind::Semicolon, ";"),
        ]
    );
    let last = tokens.last().unwrap();
    assert_eq!((last.kind, last.line, last.column), (TokenKind::NewLine, 6, 3));
}

#[test]
fn token_prints_line_column_kind_and_text() {
    let token = Token { kind: TokenKind::TypeName, line: 3, column: 14, slice: "Main" };
    assert_eq!(token.to_string(), "3:14:TypeName Main");
    let token = Token { kind: TokenKind::LessThanOrEqual, line: 1, column: 1, slice: "<=" };
    assert_eq!(token.to_string(), "1:1:LessThanOrEqual <=");
    let token = Token { kind: TokenKind::StringLiteral, line: 120, column: 7, slice: "\"é →\"" };
    assert_eq!(token.to_string(), "120:7:StringLiteral \"é →\"");
    let token = Token { kind: TokenKind::NewLine, line: 10, column: 100, slice: "\n" };
    assert_eq!(token.to_string(), "10:100:NewLine \n");
}

#[test]
fn token_prints_large_and_small_numbers() {
    let token = Token { kind: TokenKind::Plus, line: 0, column: 9, slice: "+" };
    assert_eq!(token.to_string(), "0:9:Plus +");
    let token = Token { kind: TokenKind::Plus, line: 1234567890, column: 4294967295, slice: "" };
    assert_eq!(token.to_string(), "1234567890:4294967295:Plus ");
    let token = Token { kind: TokenKind::Plus, line: usize::MAX, column: 1000, slice: "+" };
    assert_eq!(token.to_string(), format!("{}:1000:Plus +", usize::MAX));
}

#[test]
fn scanned_token_prints_as_it_was_found() {
    let doc = CoolDoc::new("a\n  inherits");
    let tokens = doc.tokenize().collect().unwrap();
    let printed: Vec<String> = tokens.iter().map(|token| token.to_string()).collect();
    assert_eq!(
        printed,
        vec!["1:1:Identifier a", "1:2:NewLine \n", "2:1:Space   ", "2:3:Inherits inherits"]
    );
}

#[test]
fn kind_names_are_the_names_of_the_kinds() {
    let kinds = [
        TokenKind::NewLine,
        TokenKind::Space,
        TokenKind::Class,
        TokenKind::Inherits,
        TokenKind::If,
        TokenKind::Then,
        TokenKind::Else,
        TokenKind::Fi,
        TokenKind::While,
        TokenKind::Loop,
        TokenKind::Pool,
        TokenKind::Let,
        TokenKind::In,
        TokenKind::Case,
        TokenKind::Of,
        TokenKind::Esac,
        TokenKind::New,
        TokenKind::Isvoid,
        TokenKind::Identifier,
        TokenKind::TypeName,
        TokenKind::Plus,
        TokenKind::Minus,
        TokenKind::Star,
        TokenKind::Slash,
        TokenKind::Not,
        TokenKind::Equal,
        TokenKind::LessThan,
        TokenKind::LessThanOrEqual,
        TokenKind::Assign,
        TokenKind::OpenParen,
        TokenKind::CloseParen,
        TokenKind::OpenBrace,
        TokenKind::CloseBrace,
        TokenKind::OpenSquare,
        TokenKind::CloseSquare,
        TokenKind::Semicolon,
        TokenKind::Colon,
        TokenKind::IntegerLiteral,
        TokenKind::StringLiteral,
        TokenKind::True,
        TokenKind::False,
    ];
    for kind in kinds {
        assert_eq!(kind.name(), format!("{kind:?}"));
    }
    assert_eq!(TokenKind::TypeName.name(), "TypeName");
    assert_eq!(TokenKind::LessThanOrEqual.name(), "LessThanOrEqual");
}
