//! The greedy (longest match) scanner, stated as spec functions over the
//! source bytes, and what follows from it.
use vstd::prelude::*;
use crate::kind::{Kind, LT, GT, EQ};
use crate::token::Token;

verus! {

/// Character classes that the scanner reads in runs.
#[derive(Clone, Copy, Debug, PartialEq, Eq, Structural)]
pub enum CharClass {
    Space,
    IdentPart,
    Digit,
}

pub open spec fn is_space(b: u8) -> bool {
    b == 0x20 || b == 0x09 || b == 0x0a || b == 0x0d
}

pub open spec fn is_digit(b: u8) -> bool {
    0x30 <= b <= 0x39
}

pub open spec fn is_ident_start(b: u8) -> bool {
    (0x41 <= b <= 0x5a) || (0x61 <= b <= 0x7a) || b == 0x5f || b == 0x24
}

pub open spec fn in_class(b: u8, c: CharClass) -> bool {
    match c {
        CharClass::Space => is_space(b),
        CharClass::IdentPart => is_ident_start(b) || is_digit(b),
        CharClass::Digit => is_digit(b),
    }
}

/// The byte at `k`, or 0 past either end (0 starts no operator and
/// continues no run).
pub open spec fn peek(s: Seq<u8>, k: int) -> u8 {
    if 0 <= k < s.len() {
        s[k]
    } else {
        0
    }
}

/// The end of the run of class `c` that starts at `i`.
pub open spec fn run_end(s: Seq<u8>, i: int, c: CharClass) -> int
    decreases s.len() - i,
{
    if 0 <= i < s.len() && in_class(s[i], c) {
        run_end(s, i + 1, c)
    } else {
        i
    }
}

/// Kind and width of the longest token that starts at `i`.
pub open spec fn scan_kind_width(s: Seq<u8>, i: int) -> (Kind, int) {
    let b = peek(s, i);
    if i < 0 || i >= s.len() {
        (Kind::Eof, 0)
    } else if b == LT {
        if peek(s, i + 1) == LT {
            if peek(s, i + 2) == EQ {
                (Kind::LShiftEq, 3)
            } else {
                (Kind::LShift, 2)
            }
        } else if peek(s, i + 1) == EQ {
            (Kind::LtEq, 2)
        } else {
            (Kind::LAngle, 1)
        }
    } else if b == GT {
        if peek(s, i + 1) == GT {
            if peek(s, i + 2) == GT {
                if peek(s, i + 3) == EQ {
                    (Kind::RShift3Eq, 4)
                } else {
                    (Kind::RShift3, 3)
                }
            } else if peek(s, i + 2) == EQ {
                (Kind::RShiftEq, 3)
            } else {
                (Kind::RShift, 2)
            }
        } else if peek(s, i + 1) == EQ {
            (Kind::GtEq, 2)
        } else {
            (Kind::RAngle, 1)
        }
    } else if b == EQ {
        (Kind::Assign, 1)
    } else if is_space(b) {
        (Kind::Whitespace, run_end(s, i, CharClass::Space) - i)
    } else if is_ident_start(b) {
        (Kind::Identifier, run_end(s, i + 1, CharClass::IdentPart) - i)
    } else if is_digit(b) {
        (Kind::Number, run_end(s, i + 1, CharClass::Digit) - i)
    } else {
        (Kind::Undetermined, 1)
    }
}

/// The token that greedy scanning reads at `i`.
pub open spec fn scan(s: Seq<u8>, i: int) -> Token {
    let (k, w) = scan_kind_width(s, i);
    Token { kind: k, start: i as u32, end: (i + w) as u32 }
}

/// Where greedy scanning from `i` stops.
pub open spec fn scan_end(s: Seq<u8>, i: int) -> int {
    i + scan_kind_width(s, i).1
}

/// The tokens that greedy scanning reads from `from` until it reaches or
/// passes `to`.
pub open spec fn tokens_between(s: Seq<u8>, from: int, to: int) -> Seq<Token>
    decreases if from < to { to - from } else { 0 },
{
    if from < to && scan_end(s, from) > from {
        seq![scan(s, from)] + tokens_between(s, scan_end(s, from), to)
    } else {
        Seq::empty()
    }
}

/// Greedy scanning from `from` stops exactly at `to`: no token read on the
/// way crosses `to`.
pub open spec fn lands_on(s: Seq<u8>, from: int, to: int) -> bool
    decreases if from < to { to - from } else { 0 },
{
    if from < to && scan_end(s, from) > from {
        lands_on(s, scan_end(s, from), to)
    } else {
        from == to
    }
}

/// Each token moved right by `d` bytes.
pub open spec fn shifted(ts: Seq<Token>, d: int) -> Seq<Token> {
    ts.map_values(
        |t: Token| Token { kind: t.kind, start: (t.start + d) as u32, end: (t.end + d) as u32 },
    )
}

/// The bytes a token covers.
pub open spec fn spelling(s: Seq<u8>, t: Token) -> Seq<u8> {
    s.subrange(t.start as int, t.end as int)
}

/// The spellings of `ts`, one after the other.
pub open spec fn concat_spellings(s: Seq<u8>, ts: Seq<Token>) -> Seq<u8>
    decreases ts.len(),
{
    if ts.len() == 0 {
        Seq::empty()
    } else {
        concat_spellings(s, ts.drop_last()) + spelling(s, ts.last())
    }
}

/// `ts` covers `[0, end)` of the source without gap or overlap.
pub open spec fn contiguous(ts: Seq<Token>, end: int) -> bool {
    &&& ts.len() == 0 ==> end == 0
    &&& ts.len() > 0 ==> ts[0].start == 0 && ts.last().end == end
    &&& forall|k: int| 0 <= k < ts.len() ==> #[trigger] ts[k].start <= ts[k].end
    &&& forall|k: int| 0 <= k < ts.len() - 1 ==> #[trigger] ts[k].end == ts[k + 1].start
}

/// A run ending no later than `b` reads the same inside `s[a..b]`.
proof fn lemma_run_end_window(s: Seq<u8>, a: int, b: int, i: int, c: CharClass)
    requires
        0 <= a <= i,
        b <= s.len(),
        i <= b,
        run_end(s, i, c) <= b,
    ensures
        run_end(s.subrange(a, b), i - a, c) == run_end(s, i, c) - a,
    decreases b - i,
{
    lemma_run_end_ge(s, i + 1, c);
    if i < b && in_class(s[i], c) {
        lemma_run_end_window(s, a, b, i + 1, c);
    }
}

proof fn lemma_run_end_ge(s: Seq<u8>, i: int, c: CharClass)
    ensures
        run_end(s, i, c) >= i,
    decreases s.len() - i,
{
    if 0 <= i < s.len() && in_class(s[i], c) {
        lemma_run_end_ge(s, i + 1, c);
    }
}

/// Every token read inside the source has a positive width.
pub proof fn lemma_scan_progress(s: Seq<u8>, i: int)
    requires
        0 <= i < s.len(),
    ensures
        scan_end(s, i) > i,
        scan_end(s, i) <= s.len(),
{
    lemma_run_end_ge(s, i + 1, CharClass::Space);
    lemma_run_end_ge(s, i + 1, CharClass::IdentPart);
    lemma_run_end_ge(s, i + 1, CharClass::Digit);
    lemma_run_end_le(s, i, CharClass::Space);
    lemma_run_end_le(s, i + 1, CharClass::IdentPart);
    lemma_run_end_le(s, i + 1, CharClass::Digit);
}

proof fn lemma_run_end_le(s: Seq<u8>, i: int, c: CharClass)
    requires
        i <= s.len(),
    ensures
        run_end(s, i, c) <= s.len(),
    decreases s.len() - i,
{
    if 0 <= i < s.len() && in_class(s[i], c) {
        lemma_run_end_le(s, i + 1, c);
    }
}

/// A token that ends no later than `b` is read the same inside `s[a..b]`.
proof fn lemma_scan_window(s: Seq<u8>, a: int, b: int, i: int)
    requires
        0 <= a <= i < b <= s.len(),
        scan_end(s, i) <= b,
    ensures
        scan_kind_width(s.subrange(a, b), i - a) == scan_kind_width(s, i),
{
    let w = s.subrange(a, b);
    assert(forall|k: int| a <= k < b ==> peek(w, k - a) == peek(s, k));
    assert(peek(w, b - a) == 0);
    lemma_run_end_ge(s, i + 1, CharClass::IdentPart);
    lemma_run_end_ge(s, i + 1, CharClass::Digit);
    lemma_run_end_ge(s, i, CharClass::Space);
    if is_space(s[i]) {
        lemma_run_end_window(s, a, b, i, CharClass::Space);
    } else if is_ident_start(s[i]) {
        lemma_run_end_window(s, a, b, i + 1, CharClass::IdentPart);
    } else if is_digit(s[i]) {
        lemma_run_end_window(s, a, b, i + 1, CharClass::Digit);
    }
}

/// Scanning `s` from `from` up to `b`, where no token crosses `b`, reads the
/// same tokens as scanning the window `s[a..b]` alone, moved right by `a`.
pub proof fn lemma_tokens_in_window(s: Seq<u8>, a: int, b: int, from: int)
    requires
        0 <= a <= from <= b <= s.len() <= u32::MAX,
        lands_on(s, from, b),
    ensures
        tokens_between(s, from, b) == shifted(
            tokens_between(s.subrange(a, b), from - a, b - a),
            a,
        ),
    decreases b - from,
{
    let w = s.subrange(a, b);
    if from < b {
        lemma_scan_progress(s, from);
        let e = scan_end(s, from);
        assert(lands_on(s, e, b));
        if e > b {
            assert(!lands_on(s, e, b));
        }
        lemma_scan_window(s, a, b, from);
        assert(scan_end(w, from - a) == e - a);
        lemma_tokens_in_window(s, a, b, e);
        let rest = tokens_between(w, e - a, b - a);
        assert(tokens_between(w, from - a, b - a) == seq![scan(w, from - a)] + rest);
        assert(tokens_between(s, from, b) == seq![scan(s, from)] + shifted(rest, a));
        assert(shifted(seq![scan(w, from - a)] + rest, a) =~= seq![scan(s, from)] + shifted(
            rest,
            a,
        ));
    } else {
        assert(tokens_between(s, from, b) =~= Seq::empty());
        assert(tokens_between(w, from - a, b - a) =~= Seq::empty());
        assert(shifted(Seq::<Token>::empty(), a) =~= Seq::empty());
    }
}

/// Narrowing composes with ordinary scanning. Let a compound angle
/// operator of width `W` start at `i`; once narrowed, the cursor is at
/// `i + 1`. Scanning on from there reads the remaining `W - 1` bytes as the
/// tokens that scanning those bytes alone reads, provided that no token read
/// from there runs past the end of the original operator (as in `<<<`,
/// where the greedy scanner stops after `<<` and a rescan from the second
/// `<` reads `<<` again).
pub proof fn lemma_rescan_after_narrow(s: Seq<u8>, i: int)
    requires
        0 <= i < s.len() <= u32::MAX,
        scan(s, i).kind.is_angle_compound(),
        lands_on(s, i + 1, scan_end(s, i)),
    ensures
        scan_end(s, i) - (i + 1) == scan(s, i).kind.compound_width() - 1,
        tokens_between(s, i + 1, scan_end(s, i)) == shifted(
            tokens_between(s.subrange(i + 1, scan_end(s, i)), 0, scan_end(s, i) - (i + 1)),
            i + 1,
        ),
{
    lemma_scan_progress(s, i);
    lemma_tokens_in_window(s, i + 1, scan_end(s, i), i + 1);
}

/// Tokens that cover `[0, end)` without gap or overlap spell out exactly
/// the source up to `end`.
pub proof fn lemma_contiguous_spellings(s: Seq<u8>, ts: Seq<Token>, end: int)
    requires
        contiguous(ts, end),
        end <= s.len(),
    ensures
        concat_spellings(s, ts) == s.subrange(0, end),
    decreases ts.len(),
{
    if ts.len() == 0 {
        assert(s.subrange(0, 0) =~= Seq::empty());
    } else {
        let p = ts.drop_last();
        let l = ts.last();
        assert forall|k: int| 0 <= k < p.len() implies #[trigger] p[k].start <= p[k].end by {
            assert(ts[k] == p[k]);
        }
        assert forall|k: int| 0 <= k < p.len() - 1 implies #[trigger] p[k].end == p[k + 1].start by {
            assert(ts[k] == p[k]);
            assert(ts[k + 1] == p[k + 1]);
        }
        if p.len() > 0 {
            assert(ts[p.len() - 1] == p.last());
            assert(ts[p.len() - 1].end == ts[p.len() as int].start);
            assert(p[0] == ts[0]);
        }
        assert(contiguous(p, l.start as int));
        lemma_contiguous_spellings(s, p, l.start as int);
        assert(s.subrange(0, l.start as int) + s.subrange(l.start as int, end) =~= s.subrange(0, end));
    }
}

} // verus!
