//! The lexer: greedy scanning, and narrowing of the token it just produced.
use vstd::prelude::*;
use crate::kind::{Kind, LT, GT, EQ};
use crate::scan::{
    CharClass, in_class, run_end, scan, spelling, contiguous, concat_spellings,
    lemma_scan_progress, lemma_contiguous_spellings,
};
use crate::source::Source;
use crate::token::Token;

verus! {

/// A tokenizer over one source buffer. It owns the read cursor and the last
/// token it produced, and keeps (as ghost state) every token produced so
/// far, with a narrowed token in place of the one it replaced.
pub struct Lexer {
    source: Source,
    token: Token,
    produced: Ghost<Seq<Token>>,
}

/// The token's bytes are its kind's text, for the kinds with a fixed text.
pub open spec fn spelled(s: Seq<u8>, t: Token) -> bool {
    t.kind.text() is Some ==> spelling(s, t) == t.kind.text().unwrap()
}

fn byte_in_class(b: u8, c: CharClass) -> (r: bool)
    ensures
        r == in_class(b, c),
{
    let ident_start = (0x41 <= b && b <= 0x5a) || (0x61 <= b && b <= 0x7a) || b == 0x5f || b
        == 0x24;
    let digit = 0x30 <= b && b <= 0x39;
    match c {
        CharClass::Space => b == 0x20 || b == 0x09 || b == 0x0a || b == 0x0d,
        CharClass::IdentPart => ident_start || digit,
        CharClass::Digit => digit,
    }
}

/// Greedy scanning reads each punctuator exactly as its text.
pub proof fn lemma_scan_spelled(s: Seq<u8>, i: int)
    requires
        0 <= i < s.len() <= u32::MAX,
    ensures
        spelled(s, scan(s, i)),
{
    lemma_scan_progress(s, i);
    let t = scan(s, i);
    if t.kind.text() is Some {
        let txt = t.kind.text().unwrap();
        assert(spelling(s, t) =~= txt);
    }
}

impl Lexer {
    /// The source bytes.
    pub closed spec fn bytes(&self) -> Seq<u8> {
        self.source.bytes()
    }

    /// The cursor: the offset of the first byte not yet consumed.
    pub closed spec fn pos(&self) -> int {
        self.source.pos()
    }

    /// The last token produced.
    pub closed spec fn last_token(&self) -> Token {
        self.token
    }

    /// Every token produced so far, in order, narrowed ones in place of
    /// the tokens they replaced.
    pub closed spec fn produced(&self) -> Seq<Token> {
        self.produced@
    }

    pub closed spec fn wf(&self) -> bool {
        &&& self.source.wf()
        &&& self.token.start <= self.token.end
        &&& self.token.end == self.source.pos()
        &&& spelled(self.source.bytes(), self.token)
        &&& contiguous(self.produced@, self.source.pos())
        &&& self.produced@.len() > 0 ==> self.produced@.last() == self.token
        &&& self.produced@.len() == 0 ==> self.token.end == 0
    }

    /// A lexer at the start of `text`.
    pub fn new(text: &[u8]) -> (r: Lexer)
        requires
            text@.len() <= u32::MAX,
        ensures
            r.wf(),
            r.bytes() == text@,
            r.pos() == 0,
            r.produced() == Seq::<Token>::empty(),
    {
        let source = Source::new(text);
        Lexer { source, token: Token { kind: Kind::Eof, start: 0, end: 0 }, produced: Ghost(Seq::empty()) }
    }

    /// The cursor's absolute offset.
    pub fn offset(&self) -> (r: u32)
        requires
            self.wf(),
        ensures
            r == self.pos(),
    {
        self.source.offset()
    }

    /// The last token produced.
    pub fn token(&self) -> (r: Token)
        ensures
            r == self.last_token(),
    {
        self.token
    }

    /// Consumes the run of class `c` that starts at the cursor.
    fn eat_while(&mut self, c: CharClass)
        requires
            old(self).source.wf(),
        ensures
            final(self).source.wf(),
            final(self).source.bytes() == old(self).source.bytes(),
            final(self).source.pos() == run_end(
                old(self).source.bytes(),
                old(self).source.pos(),
                c,
            ),
            final(self).token == old(self).token,
            final(self).produced == old(self).produced,
    {
        let ghost start = self.source.pos();
        let len = self.source.len();
        let mut i = self.source.position();
        while i < len && byte_in_class(self.source.peek_at(i), c)
            invariant
                self.source == old(self).source,
                self.source.wf(),
                len == self.source.bytes().len(),
                start <= i <= len,
                run_end(self.source.bytes(), i as int, c) == run_end(
                    self.source.bytes(),
                    start,
                    c,
                ),
            decreases len - i,
        {
            i = i + 1;
        }
        self.source.advance_to(i);
    }

    /// Finishes a token of `kind` from the current token's start to the
    /// cursor, and records it.
    fn finish_next(&mut self, kind: Kind) -> (r: Token)
        requires
            old(self).source.wf(),
            old(self).token.start <= old(self).source.pos(),
        ensures
            r == (Token { kind, start: old(self).token.start, end: old(self).source.pos() as u32 }),
            final(self).token == r,
            final(self).source == old(self).source,
            final(self).produced@ == old(self).produced@.push(r),
    {
        self.token.kind = kind;
        self.token.end = self.source.offset();
        let t = self.token;
        self.produced = Ghost(self.produced@.push(t));
        t
    }

    /// Scans the next token greedily: the longest token that starts at the
    /// cursor, or an empty `Eof` token at the end of the source.
    pub fn next_token(&mut self) -> (r: Token)
        requires
            old(self).wf(),
        ensures
            final(self).wf(),
            r == scan(old(self).bytes(), old(self).pos()),
            final(self).bytes() == old(self).bytes(),
            final(self).pos() == r.end,
            final(self).last_token() == r,
            final(self).produced() == old(self).produced().push(r),
    {
        let ghost s = self.source.bytes();
        let i = self.source.position();
        let start = self.source.offset();
        self.token.start = start;
        if i >= self.source.len() {
            let t = self.finish_next(Kind::Eof);
            proof { self.lemma_push_keeps_contiguous(s, t); }
            return t;
        }
        proof { lemma_scan_progress(s, i as int); }
        let b = self.source.peek_at(i);
        let b1 = self.source.peek_at(i + 1);
        let kind;
        if b == LT {
            if b1 == LT {
                if self.source.peek_at(i + 2) == EQ {
                    kind = Kind::LShiftEq;
                    self.source.advance_to(i + 3);
                } else {
                    kind = Kind::LShift;
                    self.source.advance_to(i + 2);
                }
            } else if b1 == EQ {
                kind = Kind::LtEq;
                self.source.advance_to(i + 2);
            } else {
                kind = Kind::LAngle;
                self.source.advance_to(i + 1);
            }
        } else if b == GT {
            if b1 == GT {
                let b2 = self.source.peek_at(i + 2);
                if b2 == GT {
                    if self.source.peek_at(i + 3) == EQ {
                        kind = Kind::RShift3Eq;
                        self.source.advance_to(i + 4);
                    } else {
                        kind = Kind::RShift3;
                        self.source.advance_to(i + 3);
                    }
                } else if b2 == EQ {
                    kind = Kind::RShiftEq;
                    self.source.advance_to(i + 3);
                } else {
                    kind = Kind::RShift;
                    self.source.advance_to(i + 2);
                }
            } else if b1 == EQ {
                kind = Kind::GtEq;
                self.source.advance_to(i + 2);
            } else {
                kind = Kind::RAngle;
                self.source.advance_to(i + 1);
            }
        } else if b == EQ {
            kind = Kind::Assign;
            self.source.advance_to(i + 1);
        } else if byte_in_class(b, CharClass::Space) {
            kind = Kind::Whitespace;
            self.eat_while(CharClass::Space);
        } else if byte_in_class(b, CharClass::IdentPart) && !byte_in_class(b, CharClass::Digit) {
            kind = Kind::Identifier;
            self.source.advance_to(i + 1);
            self.eat_while(CharClass::IdentPart);
        } else if byte_in_class(b, CharClass::Digit) {
            kind = Kind::Number;
            self.source.advance_to(i + 1);
            self.eat_while(CharClass::Digit);
        } else {
            kind = Kind::Undetermined;
            self.source.advance_to(i + 1);
        }
        let t = self.finish_next(kind);
        proof {
            assert(t == scan(s, i as int));
            lemma_scan_spelled(s, i as int);
            self.lemma_push_keeps_contiguous(s, t);
        }
        t
    }

    /// Narrows the last token, a compound beginning with `single`'s byte,
    /// to one byte of kind `single`, and rewinds the cursor to just after it.
    fn re_lex_as_single(&mut self, offset: u32, single: Kind) -> (r: Token)
        requires
            old(self).wf(),
            old(self).token.kind.is_angle_compound(),
            offset as nat == old(self).token.kind.compound_width(),
            single == Kind::LAngle ==> old(self).token.kind.is_l_angle_compound(),
            single == Kind::RAngle ==> old(self).token.kind.is_r_angle_compound(),
            single == Kind::LAngle || single == Kind::RAngle,
        ensures
            final(self).wf(),
            r == (Token {
                kind: single,
                start: old(self).last_token().start,
                end: (old(self).last_token().start + 1) as u32,
            }),
            final(self).bytes() == old(self).bytes(),
            final(self).pos() == old(self).last_token().start + 1,
            final(self).last_token() == r,
            final(self).produced() == old(self).produced().drop_last().push(r),
    {
        let ghost s = self.source.bytes();
        let ghost old_token = self.token;
        proof {
            let txt = old_token.kind.text().unwrap();
            assert(spelling(s, old_token) == txt);
            assert(spelling(s, old_token)[0] == s[old_token.start as int]);
        }
        self.token.start = self.offset() - offset;
        self.source.back(offset as usize - 1);
        self.produced = Ghost(self.produced@.drop_last());
        let t = self.finish_next(single);
        proof {
            assert(spelling(s, t) =~= single.text().unwrap());
            self.lemma_push_keeps_contiguous(s, t);
        }
        t
    }

    /// Re-reads the last token, `<<`, `<<=` or `<=`, as a single `<`.
    /// `offset` is that token's byte width. The cursor moves back to just
    /// after the `<`, so the next scan reads the rest afresh.
    pub fn re_lex_as_typescript_l_angle(&mut self, offset: u32) -> (r: Token)
        requires
            old(self).wf(),
            old(self).last_token().kind.is_l_angle_compound(),
            offset as nat == old(self).last_token().kind.compound_width(),
        ensures
            final(self).wf(),
            r == (Token {
                kind: Kind::LAngle,
                start: old(self).last_token().start,
                end: (old(self).last_token().start + 1) as u32,
            }),
            final(self).bytes() == old(self).bytes(),
            final(self).pos() == old(self).last_token().start + 1,
            final(self).last_token() == r,
            final(self).produced() == old(self).produced().drop_last().push(r),
    {
        self.re_lex_as_single(offset, Kind::LAngle)
    }

    /// Re-reads the last token, `>>`, `>>>`, `>>=`, `>>>=` or `>=`, as a
    /// single `>`. `offset` is that token's byte width. The cursor moves back
    /// to just after the `>`, so the next scan reads the rest afresh.
    pub fn re_lex_as_typescript_r_angle(&mut self, offset: u32) -> (r: Token)
        requires
            old(self).wf(),
            old(self).last_token().kind.is_r_angle_compound(),
            offset as nat == old(self).last_token().kind.compound_width(),
        ensures
            final(self).wf(),
            r == (Token {
                kind: Kind::RAngle,
                start: old(self).last_token().start,
                end: (old(self).last_token().start + 1) as u32,
            }),
            final(self).bytes() == old(self).bytes(),
            final(self).pos() == old(self).last_token().start + 1,
            final(self).last_token() == r,
            final(self).produced() == old(self).produced().drop_last().push(r),
    {
        self.re_lex_as_single(offset, Kind::RAngle)
    }

    /// Whatever tokens were scanned and narrowed, their spellings, one after
    /// the other, are exactly the source up to the cursor: no byte is lost
    /// or read twice.
    pub proof fn lemma_produced_spell_source(&self)
        requires
            self.wf(),
        ensures
            concat_spellings(self.bytes(), self.produced()) == self.bytes().subrange(0, self.pos()),
    {
        lemma_contiguous_spellings(self.source.bytes(), self.produced@, self.source.pos());
    }

    proof fn lemma_push_keeps_contiguous(&self, s: Seq<u8>, t: Token)
        requires
            self.produced@.len() > 0,
            t == self.produced@.last(),
            t.start <= t.end,
            contiguous(self.produced@.drop_last(), t.start as int),
        ensures
            contiguous(self.produced@, t.end as int),
    {
        let p = self.produced@;
        assert(p.drop_last().push(t) == p);
        assert forall|k: int| 0 <= k < p.len() - 1 implies #[trigger] p[k].end == p[k + 1].start by {
            if k < p.len() - 2 {
                assert(p.drop_last()[k] == p[k]);
                assert(p.drop_last()[k + 1] == p[k + 1]);
            } else {
                assert(p.drop_last()[k] == p[k]);
            }
        }
        assert forall|k: int| 0 <= k < p.len() implies #[trigger] p[k].start <= p[k].end by {
            if k < p.len() - 1 {
                assert(p.drop_last()[k] == p[k]);
            }
        }
        if p.len() > 1 {
            assert(p.drop_last()[0] == p[0]);
        }
    }
}

} // verus!
