use angle_relex::kind::Kind;
use angle_relex::lexer::Lexer;
use angle_relex::token::Token;

fn tok(kind: Kind, start: u32, end: u32) -> Token {
    Token { kind, start, end }
}

fn scan_all(lexer: &mut Lexer) -> Vec<Token> {
    let mut out = Vec::new();
    loop {
        let t = lexer.next_token();
        if t.kind == Kind::Eof {
            return out;
        }
        out.push(t);
    }
}

fn text<'a>(src: &'a str, t: &Token) -> &'a str {
    &src[t.start as usize..t.end as usize]
}

#[test]
fn greedy_scan_of_shift() {
    let mut lexer = Lexer::new(b"a<<b");
    let toks = scan_all(&mut lexer);
    assert_eq!(
        toks,
        vec![tok(Kind::Identifier, 0, 1), tok(Kind::LShift, 1, 3), tok(Kind::Identifier, 3, 4)]
    );
}

#[test]
fn narrow_shift_left_then_scan() {
    let src = "a<<b";
    let mut lexer = Lexer::new(src.as_bytes());
    let mut toks = vec![lexer.next_token()];
    let shift = lexer.next_token();
    assert_eq!(shift.kind, Kind::LShift);
    let width = shift.kind.angle_compound_width().unwrap();
    assert_eq!(width, 2);
    toks.push(lexer.re_lex_as_typescript_l_angle(width));
    toks.extend(scan_all(&mut lexer));
    assert_eq!(
        toks,
        vec![
            tok(Kind::Identifier, 0, 1),
            tok(Kind::LAngle, 1, 2),
            tok(Kind::LAngle, 2, 3),
            tok(Kind::Identifier, 3, 4),
        ]
    );
    let texts: Vec<&str> = toks.iter().map(|t| text(src, t)).collect();
    assert_eq!(texts, vec!["a", "<", "<", "b"]);
}

#[test]
fn nested_generics_close_with_two_r_angles() {
    let src = "Array<Array<number>>";
    let mut lexer = Lexer::new(src.as_bytes());
    let mut toks = Vec::new();
    loop {
        let t = lexer.next_token();
        if t.kind == Kind::Eof {
            break;
        }
        if t.kind == Kind::RShift {
            toks.push(lexer.re_lex_as_typescript_r_angle(2));
        } else {
            toks.push(t);
        }
    }
    assert_eq!(
        toks,
        vec![
            tok(Kind::Identifier, 0, 5),
            tok(Kind::LAngle, 5, 6),
            tok(Kind::Identifier, 6, 11),
            tok(Kind::LAngle, 11, 12),
            tok(Kind::Identifier, 12, 18),
            tok(Kind::RAngle, 18, 19),
            tok(Kind::RAngle, 19, 20),
        ]
    );
    assert!(toks[5..].iter().all(|t| t.len() == 1));
}

#[test]
fn narrow_less_equal_leaves_assign() {
    let mut lexer = Lexer::new(b"a<=b");
    lexer.next_token();
    let le = lexer.next_token();
    assert_eq!(le, tok(Kind::LtEq, 1, 3));
    let l = lexer.re_lex_as_typescript_l_angle(2);
    assert_eq!(l, tok(Kind::LAngle, 1, 2));
    assert_eq!(lexer.next_token(), tok(Kind::Assign, 2, 3));
    assert_eq!(lexer.next_token(), tok(Kind::Identifier, 3, 4));
}

#[test]
fn every_compound_narrows_to_one_byte() {
    let cases: Vec<(&str, Kind, u32, bool)> = vec![
        ("x<<y", Kind::LShift, 2, true),
        ("x<<=y", Kind::LShiftEq, 3, true),
        ("x<=y", Kind::LtEq, 2, true),
        ("x>>y", Kind::RShift, 2, false),
        ("x>>>y", Kind::RShift3, 3, false),
        ("x>>=y", Kind::RShiftEq, 3, false),
        ("x>>>=y", Kind::RShift3Eq, 4, false),
        ("x>=y", Kind::GtEq, 2, false),
    ];
    for (src, kind, width, left) in cases {
        let mut lexer = Lexer::new(src.as_bytes());
        lexer.next_token();
        let t = lexer.next_token();
        assert_eq!(t, tok(kind, 1, 1 + width));
        assert_eq!(kind.angle_compound_width(), Some(width));
        let n = if left {
            lexer.re_lex_as_typescript_l_angle(width)
        } else {
            lexer.re_lex_as_typescript_r_angle(width)
        };
        let single = if left { Kind::LAngle } else { Kind::RAngle };
        assert_eq!(n, tok(single, 1, 2));
        assert_eq!(lexer.offset(), 2);
        assert_eq!(lexer.token(), n);
    }
}

#[test]
fn rescan_matches_remainder_alone() {
    // `>>>=` narrowed: the rest `>>=` reads as it does on its own.
    let mut lexer = Lexer::new(b"a>>>=b");
    lexer.next_token();
    lexer.next_token();
    lexer.re_lex_as_typescript_r_angle(4);
    let rest = lexer.next_token();
    let mut alone = Lexer::new(b">>=");
    let first = alone.next_token();
    assert_eq!(rest, tok(first.kind, first.start + 2, first.end + 2));
    assert_eq!(rest, tok(Kind::RShiftEq, 2, 5));
}

#[test]
fn spans_rebuild_source_after_narrowing() {
    let src = "let m: Map<string, Array<number>>= x >>> 2;";
    let mut lexer = Lexer::new(src.as_bytes());
    let mut toks = Vec::new();
    loop {
        let t = lexer.next_token();
        match t.kind {
            Kind::Eof => break,
            Kind::RShiftEq => toks.push(lexer.re_lex_as_typescript_r_angle(3)),
            _ => toks.push(t),
        }
    }
    let joined: String = toks.iter().map(|t| text(src, t)).collect();
    assert_eq!(joined, src);
    assert!(toks.windows(2).all(|w| w[0].end == w[1].start));
}

#[test]
fn non_compound_has_no_width() {
    assert_eq!(Kind::LAngle.angle_compound_width(), None);
    assert_eq!(Kind::Assign.angle_compound_width(), None);
    assert_eq!(Kind::Identifier.angle_compound_width(), None);
}

#[test]
fn empty_source_gives_eof() {
    let mut lexer = Lexer::new(b"");
    assert_eq!(lexer.next_token(), tok(Kind::Eof, 0, 0));
    assert_eq!(lexer.offset(), 0);
}

#[test]
fn whitespace_numbers_and_other_bytes() {
    let mut lexer = Lexer::new(b"  42;");
    assert_eq!(lexer.next_token(), tok(Kind::Whitespace, 0, 2));
    assert_eq!(lexer.next_token(), tok(Kind::Number, 2, 4));
    assert_eq!(lexer.next_token(), tok(Kind::Undetermined, 4, 5));
    assert_eq!(lexer.next_token(), tok(Kind::Eof, 5, 5));
}
