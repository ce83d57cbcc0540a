//! The lexer: script text to a flat token stream.
//!
//! The language is deliberately forgiving: whitespace separates tokens, `#`
//! starts a line comment, `;`/`{`/`}` stand alone, and every other token is a
//! word optionally followed by a parenthesized argument list.  Malformed
//! input never fails the lexer; unknown words become `end` tokens and
//! unparsable integer arguments become 0.
//!
//! `lex` gives the meaning of a script as a sequence of token models;
//! `tokenize` computes it.

use vstd::prelude::*;

use crate::tokens::{Token, TokenModel, toks_model, lemma_toks_model_push};

verus! {

/// The whitespace the lexer recognizes: ASCII space and the control range
/// tab through carriage return.
pub open spec fn is_ws(c: char) -> bool {
    c == ' ' || (9 <= c as u32 && c as u32 <= 13)
}

/// Characters that terminate a word.
pub open spec fn is_word_term(c: char) -> bool {
    c == ';' || c == '{' || c == '}' || c == '(' || c == ')' || c == ',' || c == '#'
}

/// The first position at or after `i` that holds a non-whitespace character.
pub open spec fn skip_ws_from(s: Seq<char>, i: int) -> int
    decreases s.len() - i,
{
    if !(0 <= i < s.len()) {
        s.len() as int
    } else if is_ws(s[i]) {
        skip_ws_from(s, i + 1)
    } else {
        i
    }
}

/// The first position at or after `i` past all whitespace and `#` comments.
pub open spec fn trivia_end(s: Seq<char>, i: int, in_comment: bool) -> int
    decreases s.len() - i,
{
    if !(0 <= i < s.len()) {
        s.len() as int
    } else if in_comment {
        trivia_end(s, i + 1, s[i] != '\n')
    } else if is_ws(s[i]) {
        trivia_end(s, i + 1, false)
    } else if s[i] == '#' {
        trivia_end(s, i + 1, true)
    } else {
        i
    }
}

/// Where the word starting at `i` ends.
pub open spec fn word_end(s: Seq<char>, i: int) -> int
    decreases s.len() - i,
{
    if !(0 <= i < s.len()) {
        s.len() as int
    } else if is_ws(s[i]) || is_word_term(s[i]) {
        i
    } else {
        word_end(s, i + 1)
    }
}

/// The position after dropping trailing whitespace from `s[..j]`.
pub open spec fn trim_end_from(s: Seq<char>, j: int) -> int
    decreases j,
{
    if j <= 0 {
        0
    } else if 0 <= j - 1 < s.len() && is_ws(s[j - 1]) {
        trim_end_from(s, j - 1)
    } else {
        j
    }
}

/// `s` with surrounding whitespace removed.
pub open spec fn trim_seq(s: Seq<char>) -> Seq<char> {
    let a = skip_ws_from(s, 0);
    let b = trim_end_from(s, s.len() as int);
    if a <= b {
        s.subrange(a, b)
    } else {
        Seq::empty()
    }
}

/// `acc` extended by the trimmed argument, unless it trims to nothing.
pub open spec fn push_trimmed(acc: Seq<Seq<char>>, raw: Seq<char>) -> Seq<Seq<char>> {
    let t = trim_seq(raw);
    if t.len() > 0 {
        acc.push(t)
    } else {
        acc
    }
}

/// Argument scanning from position `i`, the current argument having started
/// at `start`, inside `depth` nested parentheses.  Returns the collected
/// arguments and the position after the closing `)`; an unterminated list
/// ends at the end of input with the dangling fragment dropped.
pub open spec fn args_from(
    s: Seq<char>,
    i: int,
    start: int,
    depth: int,
    acc: Seq<Seq<char>>,
) -> (Seq<Seq<char>>, int)
    decreases s.len() - i,
{
    if !(0 <= i < s.len()) {
        (acc, s.len() as int)
    } else {
        let c = s[i];
        if c == ')' && depth == 0 {
            (push_trimmed(acc, s.subrange(start, i)), i + 1)
        } else if c == ',' && depth == 0 {
            args_from(s, i + 1, i + 1, 0, push_trimmed(acc, s.subrange(start, i)))
        } else if c == '(' {
            args_from(s, i + 1, start, depth + 1, acc)
        } else if c == ')' {
            args_from(s, i + 1, start, depth - 1, acc)
        } else {
            args_from(s, i + 1, start, depth, acc)
        }
    }
}

/// Decimal digit test.
pub open spec fn is_digit(c: char) -> bool {
    48 <= c as u32 && c as u32 <= 57
}

pub open spec fn digit_val(c: char) -> int {
    c as u32 - 48
}

pub open spec fn all_digits(s: Seq<char>) -> bool {
    forall|k: int| 0 <= k < s.len() ==> is_digit(#[trigger] s[k])
}

/// The value of a digit string.
pub open spec fn digits_val(s: Seq<char>) -> int
    decreases s.len(),
{
    if s.len() == 0 {
        0
    } else {
        digits_val(s.drop_last()) * 10 + digit_val(s.last())
    }
}

/// The integer a string denotes: an optional sign followed by at least one
/// digit.  Any other shape denotes nothing.
pub open spec fn int_of(s: Seq<char>) -> Option<int> {
    if s.len() == 0 {
        Option::None
    } else if s[0] == '-' || s[0] == '+' {
        let body = s.subrange(1, s.len() as int);
        if body.len() > 0 && all_digits(body) {
            Option::Some(
                if s[0] == '-' {
                    -digits_val(body)
                } else {
                    digits_val(body)
                },
            )
        } else {
            Option::None
        }
    } else if all_digits(s) {
        Option::Some(digits_val(s))
    } else {
        Option::None
    }
}

/// An integer argument: strings that do not denote an `i32` fall back to 0.
pub open spec fn i32_of(s: Seq<char>) -> int {
    match int_of(s) {
        Option::Some(v) => if i32::MIN <= v <= i32::MAX {
            v
        } else {
            0
        },
        Option::None => 0,
    }
}

/// A repeat count: like every integer argument, a string that does not
/// denote a machine-word count falls back to 0.  A sign of `-` never
/// denotes a count, `-0` included.
pub open spec fn repeat_of(s: Seq<char>) -> nat {
    if s.len() > 0 && s[0] == '-' {
        0
    } else {
        match int_of(s) {
            Option::Some(v) => if 0 <= v <= usize::MAX {
                v as nat
            } else {
                0
            },
            Option::None => 0,
        }
    }
}

/// The first two arguments as an integer pair, defaulting to `(0, 0)`.
pub open spec fn xy_of(args: Seq<Seq<char>>) -> (int, int) {
    if args.len() >= 2 {
        (i32_of(args[0]), i32_of(args[1]))
    } else {
        (0, 0)
    }
}

/// The token a word and its arguments denote.  Unknown words and known words
/// missing a required name argument denote `end`.
pub open spec fn token_of(word: Seq<char>, args: Seq<Seq<char>>) -> TokenModel {
    let xy = xy_of(args);
    if word == "take-move"@ {
        TokenModel::TakeMove(xy.0, xy.1)
    } else if word == "move"@ {
        TokenModel::Move(xy.0, xy.1)
    } else if word == "take"@ {
        TokenModel::Take(xy.0, xy.1)
    } else if word == "catch"@ {
        TokenModel::Catch(xy.0, xy.1)
    } else if word == "shift"@ {
        TokenModel::Shift(xy.0, xy.1)
    } else if word == "jump"@ {
        TokenModel::Jump(xy.0, xy.1)
    } else if word == "anchor"@ {
        TokenModel::Anchor(xy.0, xy.1)
    } else if word == "observe"@ {
        TokenModel::Observe(xy.0, xy.1)
    } else if word == "peek"@ {
        TokenModel::Peek(xy.0, xy.1)
    } else if word == "enemy"@ {
        TokenModel::Enemy(xy.0, xy.1)
    } else if word == "friendly"@ {
        TokenModel::Friendly(xy.0, xy.1)
    } else if word == "piece-on"@ {
        if args.len() >= 3 {
            TokenModel::PieceOn(args[0], i32_of(args[1]), i32_of(args[2]))
        } else {
            TokenModel::End
        }
    } else if word == "danger"@ {
        TokenModel::Danger(xy.0, xy.1)
    } else if word == "check"@ {
        TokenModel::Check
    } else if word == "bound"@ {
        TokenModel::Bound(xy.0, xy.1)
    } else if word == "edge"@ {
        TokenModel::Edge(xy.0, xy.1)
    } else if word == "edge-top"@ {
        TokenModel::EdgeTop(xy.0, xy.1)
    } else if word == "edge-bottom"@ {
        TokenModel::EdgeBottom(xy.0, xy.1)
    } else if word == "edge-left"@ {
        TokenModel::EdgeLeft(xy.0, xy.1)
    } else if word == "edge-right"@ {
        TokenModel::EdgeRight(xy.0, xy.1)
    } else if word == "corner"@ {
        TokenModel::Corner(xy.0, xy.1)
    } else if word == "corner-top-left"@ {
        TokenModel::CornerTopLeft(xy.0, xy.1)
    } else if word == "corner-top-right"@ {
        TokenModel::CornerTopRight(xy.0, xy.1)
    } else if word == "corner-bottom-left"@ {
        TokenModel::CornerBottomLeft(xy.0, xy.1)
    } else if word == "corner-bottom-right"@ {
        TokenModel::CornerBottomRight(xy.0, xy.1)
    } else if word == "piece"@ {
        if args.len() >= 1 {
            TokenModel::Piece(args[0])
        } else {
            TokenModel::End
        }
    } else if word == "if-state"@ {
        if args.len() >= 2 {
            TokenModel::IfState(args[0], i32_of(args[1]))
        } else {
            TokenModel::End
        }
    } else if word == "set-state"@ {
        if args.len() >= 2 {
            TokenModel::SetState(args[0], i32_of(args[1]))
        } else {
            TokenModel::SetStateReset
        }
    } else if word == "transition"@ {
        if args.len() >= 1 {
            TokenModel::Transition(args[0])
        } else {
            TokenModel::End
        }
    } else if word == "repeat"@ {
        if args.len() >= 1 {
            TokenModel::Repeat(repeat_of(args[0]))
        } else {
            TokenModel::Repeat(1)
        }
    } else if word == "do"@ {
        TokenModel::Do
    } else if word == "while"@ {
        TokenModel::While
    } else if word == "jmp"@ {
        if args.len() >= 1 {
            TokenModel::Jmp(args[0])
        } else {
            TokenModel::End
        }
    } else if word == "jne"@ {
        if args.len() >= 1 {
            TokenModel::Jne(args[0])
        } else {
            TokenModel::End
        }
    } else if word == "label"@ {
        if args.len() >= 1 {
            TokenModel::Label(args[0])
        } else {
            TokenModel::End
        }
    } else if word == "not"@ {
        TokenModel::Not
    } else if word == "end"@ {
        TokenModel::End
    } else {
        TokenModel::End
    }
}

pub proof fn lemma_skip_ws_from_range(s: Seq<char>, i: int)
    requires
        0 <= i <= s.len(),
    ensures
        i <= skip_ws_from(s, i) <= s.len(),
    decreases s.len() - i,
{
    if i < s.len() && is_ws(s[i]) {
        lemma_skip_ws_from_range(s, i + 1);
    }
}

pub proof fn lemma_trivia_end_range(s: Seq<char>, i: int, in_comment: bool)
    requires
        0 <= i <= s.len(),
    ensures
        i <= trivia_end(s, i, in_comment) <= s.len(),
    decreases s.len() - i,
{
    if i < s.len() {
        if in_comment {
            lemma_trivia_end_range(s, i + 1, s[i] != '\n');
        } else if is_ws(s[i]) {
            lemma_trivia_end_range(s, i + 1, false);
        } else if s[i] == '#' {
            lemma_trivia_end_range(s, i + 1, true);
        }
    }
}

pub proof fn lemma_word_end_range(s: Seq<char>, i: int)
    requires
        0 <= i <= s.len(),
    ensures
        i <= word_end(s, i) <= s.len(),
    decreases s.len() - i,
{
    if i < s.len() && !(is_ws(s[i]) || is_word_term(s[i])) {
        lemma_word_end_range(s, i + 1);
    }
}

pub proof fn lemma_args_from_range(
    s: Seq<char>,
    i: int,
    start: int,
    depth: int,
    acc: Seq<Seq<char>>,
)
    requires
        0 <= i <= s.len(),
    ensures
        i <= args_from(s, i, start, depth, acc).1 <= s.len(),
    decreases s.len() - i,
{
    if i < s.len() {
        let c = s[i];
        if c == ')' && depth == 0 {
        } else if c == ',' && depth == 0 {
            lemma_args_from_range(s, i + 1, i + 1, 0, push_trimmed(acc, s.subrange(start, i)));
        } else if c == '(' {
            lemma_args_from_range(s, i + 1, start, depth + 1, acc);
        } else if c == ')' {
            lemma_args_from_range(s, i + 1, start, depth - 1, acc);
        } else {
            lemma_args_from_range(s, i + 1, start, depth, acc);
        }
    }
}

/// The token models of the script tail starting at position `i`.
pub open spec fn lex_from(s: Seq<char>, i: int) -> Seq<TokenModel>
    decreases s.len() - i,
    when 0 <= i <= s.len()
    via lex_from_decreases
{
    let j = trivia_end(s, i, false);
    if j >= s.len() {
        Seq::empty()
    } else if s[j] == ';' {
        seq![TokenModel::Semicolon] + lex_from(s, j + 1)
    } else if s[j] == '{' {
        seq![TokenModel::OpenBrace] + lex_from(s, j + 1)
    } else if s[j] == '}' {
        seq![TokenModel::CloseBrace] + lex_from(s, j + 1)
    } else {
        let we = word_end(s, j);
        if we == j {
            // A stray `(`, `)` or `,`: passed over without a token.
            lex_from(s, j + 1)
        } else {
            let word = s.subrange(j, we);
            let k = skip_ws_from(s, we);
            if k < s.len() && s[k] == '(' {
                let a = args_from(s, k + 1, k + 1, 0, Seq::empty());
                seq![token_of(word, a.0)] + lex_from(s, a.1)
            } else {
                seq![token_of(word, Seq::empty())] + lex_from(s, k)
            }
        }
    }
}

#[via_fn]
proof fn lex_from_decreases(s: Seq<char>, i: int) {
    lemma_trivia_end_range(s, i, false);
    let j = trivia_end(s, i, false);
    if j < s.len() {
        lemma_word_end_range(s, j);
        let we = word_end(s, j);
        if we > j {
            lemma_skip_ws_from_range(s, we);
            let k = skip_ws_from(s, we);
            if k < s.len() && s[k] == '(' {
                lemma_args_from_range(s, k + 1, k + 1, 0, Seq::empty());
            }
        }
    }
}

/// The token models of a whole script.
pub open spec fn lex(s: Seq<char>) -> Seq<TokenModel> {
    lex_from(s, 0)
}

/// The views of a sequence of strings.
pub open spec fn strs_model(s: Seq<String>) -> Seq<Seq<char>> {
    s.map_values(|x: String| x@)
}

pub broadcast proof fn lemma_strs_model_push(s: Seq<String>, x: String)
    ensures
        #[trigger] strs_model(s.push(x)) == strs_model(s).push(x@),
{
    assert(strs_model(s.push(x)) =~= strs_model(s).push(x@));
}

proof fn lemma_push_concat<A>(m: Seq<A>, x: A, r: Seq<A>)
    ensures
        m.push(x) + r == m + (seq![x] + r),
{
    assert(m.push(x) + r =~= m + (seq![x] + r));
}

/// Character-wise string equality, the meaning `==` has on views.
pub fn str_eq(a: &str, b: &str) -> (r: bool)
    ensures
        r == (a@ == b@),
{
    let na = a.unicode_len();
    let nb = b.unicode_len();
    if na != nb {
        return false;
    }
    let mut i: usize = 0;
    while i < na
        invariant
            0 <= i <= na,
            na == a@.len(),
            nb == b@.len(),
            na == nb,
            forall|k: int| 0 <= k < i ==> a@[k] == b@[k],
        decreases na - i,
    {
        if a.get_char(i) != b.get_char(i) {
            return false;
        }
        i = i + 1;
    }
    proof {
        assert(a@ =~= b@);
    }
    true
}

/// The position past the whitespace and comments starting at `i`.
fn trivia_exec(s: &str, n: usize, i: usize) -> (r: usize)
    requires
        i <= n,
        n == s@.len(),
    ensures
        r as int == trivia_end(s@, i as int, false),
        i <= r <= n,
{
    proof {
        lemma_trivia_end_range(s@, i as int, false);
    }
    let mut pos: usize = i;
    let mut in_c: bool = false;
    let mut done: bool = false;
    while !done && pos < n
        invariant
            i <= pos <= n,
            n == s@.len(),
            !done ==> trivia_end(s@, i as int, false) == trivia_end(s@, pos as int, in_c),
            done ==> trivia_end(s@, i as int, false) == pos as int,
        decreases n - pos, if done { 0int } else { 1int },
    {
        let c = s.get_char(pos);
        if in_c {
            in_c = c != '\n';
            pos = pos + 1;
        } else if is_ws_exec(c) {
            pos = pos + 1;
        } else if c == '#' {
            in_c = true;
            pos = pos + 1;
        } else {
            done = true;
        }
    }
    pos
}

/// Whether `c` is lexer whitespace.
fn is_ws_exec(c: char) -> (r: bool)
    ensures
        r == is_ws(c),
{
    c == ' ' || (9 <= c as u32 && c as u32 <= 13)
}

/// Whether `c` terminates a word.
fn is_word_term_exec(c: char) -> (r: bool)
    ensures
        r == is_word_term(c),
{
    c == ';' || c == '{' || c == '}' || c == '(' || c == ')' || c == ',' || c == '#'
}

/// The end of the word starting at `i`.
fn word_end_exec(s: &str, n: usize, i: usize) -> (r: usize)
    requires
        i <= n,
        n == s@.len(),
    ensures
        r as int == word_end(s@, i as int),
        i <= r <= n,
{
    proof {
        lemma_word_end_range(s@, i as int);
    }
    let mut pos: usize = i;
    let mut done: bool = false;
    while !done && pos < n
        invariant
            i <= pos <= n,
            n == s@.len(),
            !done ==> word_end(s@, i as int) == word_end(s@, pos as int),
            done ==> word_end(s@, i as int) == pos as int,
        decreases n - pos, if done { 0int } else { 1int },
    {
        let c = s.get_char(pos);
        if is_ws_exec(c) || is_word_term_exec(c) {
            done = true;
        } else {
            pos = pos + 1;
        }
    }
    pos
}

/// The position past the whitespace starting at `i`.
fn skip_ws_exec(s: &str, n: usize, i: usize) -> (r: usize)
    requires
        i <= n,
        n == s@.len(),
    ensures
        r as int == skip_ws_from(s@, i as int),
        i <= r <= n,
{
    proof {
        lemma_skip_ws_from_range(s@, i as int);
    }
    let mut pos: usize = i;
    while pos < n && is_ws_exec(s.get_char(pos))
        invariant
            i <= pos <= n,
            n == s@.len(),
            skip_ws_from(s@, i as int) == skip_ws_from(s@, pos as int),
        decreases n - pos,
    {
        pos = pos + 1;
    }
    pos
}

/// The bounds of `s[start..end]` with surrounding whitespace dropped.
fn trim_bounds(s: &str, start: usize, end: usize) -> (r: (usize, usize))
    requires
        start <= end,
        end <= s@.len(),
    ensures
        start <= r.0 <= r.1 <= end,
        s@.subrange(r.0 as int, r.1 as int) == trim_seq(s@.subrange(start as int, end as int)),
{
    let ghost sub = s@.subrange(start as int, end as int);
    let mut a: usize = start;
    while a < end && is_ws_exec(s.get_char(a))
        invariant
            start <= a <= end,
            end <= s@.len(),
            sub == s@.subrange(start as int, end as int),
            skip_ws_from(sub, 0) == skip_ws_from(sub, a - start),
        decreases end - a,
    {
        a = a + 1;
    }
    assert(skip_ws_from(sub, 0) == a - start);
    let mut b: usize = end;
    while b > start && is_ws_exec(s.get_char(b - 1))
        invariant
            start <= b <= end,
            end <= s@.len(),
            sub == s@.subrange(start as int, end as int),
            trim_end_from(sub, sub.len() as int) == trim_end_from(sub, b - start),
        decreases b,
    {
        b = b - 1;
    }
    assert(trim_end_from(sub, sub.len() as int) == b - start);
    if a <= b {
        proof {
            assert(s@.subrange(a as int, b as int) =~= sub.subrange(a - start, b - start));
        }
        (a, b)
    } else {
        proof {
            assert(s@.subrange(start as int, start as int) =~= Seq::<char>::empty());
        }
        (start, start)
    }
}

/// Appends the trimmed argument `s[start..end]` unless it trims to nothing.
fn push_arg(s: &str, start: usize, end: usize, args: &mut Vec<String>)
    requires
        start <= end,
        end <= s@.len(),
    ensures
        strs_model(final(args)@) == push_trimmed(
            strs_model(old(args)@),
            s@.subrange(start as int, end as int),
        ),
{
    broadcast use lemma_strs_model_push;

    let r = trim_bounds(s, start, end);
    if r.0 < r.1 {
        let piece = s.substring_char(r.0, r.1);
        args.push(piece.to_owned());
    }
}

/// Scans a parenthesized argument list whose opening `(` stands at `i - 1`.
/// Returns the arguments and the position after the closing `)`.
fn scan_args(s: &str, n: usize, i: usize) -> (r: (Vec<String>, usize))
    requires
        i <= n,
        n == s@.len(),
    ensures
        (strs_model(r.0@), r.1 as int) == args_from(s@, i as int, i as int, 0, Seq::empty()),
        i <= r.1 <= n,
{
    proof {
        lemma_args_from_range(s@, i as int, i as int, 0, Seq::empty());
    }
    let mut args: Vec<String> = Vec::new();
    let mut pos: usize = i;
    let mut arg_start: usize = i;
    let mut depth: usize = 0;
    assert(strs_model(args@) =~= Seq::<Seq<char>>::empty());
    while pos < n
        invariant
            i <= pos <= n,
            arg_start <= pos,
            depth <= pos,
            n == s@.len(),
            args_from(s@, i as int, i as int, 0, Seq::empty()) == args_from(
                s@,
                pos as int,
                arg_start as int,
                depth as int,
                strs_model(args@),
            ),
        decreases n - pos,
    {
        let c = s.get_char(pos);
        if c == ')' && depth == 0 {
            push_arg(s, arg_start, pos, &mut args);
            return (args, pos + 1);
        } else if c == ',' && depth == 0 {
            push_arg(s, arg_start, pos, &mut args);
            arg_start = pos + 1;
        } else if c == '(' {
            depth = depth + 1;
        } else if c == ')' {
            depth = depth - 1;
        }
        pos = pos + 1;
    }
    (args, pos)
}

/// The first two arguments as an integer pair, defaulting to `(0, 0)`.
fn xy_exec(args: &Vec<String>) -> (r: (i32, i32))
    ensures
        (r.0 as int, r.1 as int) == xy_of(strs_model(args@)),
{
    if args.len() >= 2 {
        (parse_i32_arg(args[0].as_str()), parse_i32_arg(args[1].as_str()))
    } else {
        (0, 0)
    }
}

/// `digits_val` grows, weakly, as digits are appended.
proof fn lemma_digits_val_grows(s: Seq<char>, k: int)
    requires
        0 <= k <= s.len(),
        all_digits(s),
    ensures
        0 <= digits_val(s.subrange(0, k)) <= digits_val(s),
    decreases s.len() - k,
{
    if k == s.len() {
        assert(s.subrange(0, k) =~= s);
        lemma_digits_val_nonneg(s);
    } else {
        lemma_digits_val_grows(s, k + 1);
        let p = s.subrange(0, k + 1);
        assert(p.drop_last() =~= s.subrange(0, k));
        lemma_digits_val_nonneg(s.subrange(0, k));
    }
}

proof fn lemma_digits_val_nonneg(s: Seq<char>)
    requires
        all_digits(s),
    ensures
        digits_val(s) >= 0,
    decreases s.len(),
{
    if s.len() > 0 {
        assert(all_digits(s.drop_last()));
        lemma_digits_val_nonneg(s.drop_last());
    }
}

/// The magnitude of the digit run `s[start..]`, saturating above
/// `i32::MAX + 1`, or `None` if a non-digit occurs.
fn digits_mag(s: &str, n: usize, start: usize) -> (r: Option<(u64, bool)>)
    requires
        start <= n,
        n == s@.len(),
    ensures
        match r {
            Option::Some(m) => all_digits(s@.subrange(start as int, n as int)) && (if m.1 {
                digits_val(s@.subrange(start as int, n as int)) > 2147483648
            } else {
                m.0 as int == digits_val(s@.subrange(start as int, n as int)) && m.0 <= 2147483648
            }),
            Option::None => !all_digits(s@.subrange(start as int, n as int)),
        },
{
    let ghost body = s@.subrange(start as int, n as int);
    let mut acc: u64 = 0;
    let mut over: bool = false;
    let mut i: usize = start;
    while i < n
        invariant
            start <= i <= n,
            n == s@.len(),
            body == s@.subrange(start as int, n as int),
            all_digits(body.subrange(0, i - start)),
            !over ==> acc as int == digits_val(body.subrange(0, i - start)) && acc <= 2147483648,
            over ==> digits_val(body.subrange(0, i - start)) > 2147483648,
        decreases n - i,
    {
        let c = s.get_char(i);
        if !(48 <= c as u32 && c as u32 <= 57) {
            assert(!is_digit(body[i - start]));
            return Option::None;
        }
        let d: u64 = (c as u32 - 48) as u64;
        proof {
            let p = body.subrange(0, i - start + 1);
            assert(p.drop_last() =~= body.subrange(0, i - start));
            assert(p.last() == body[i - start]);
            if !over {
                lemma_digits_val_nonneg(body.subrange(0, i - start));
            }
        }
        if over {
            proof {
                lemma_digits_val_nonneg(body.subrange(0, i - start));
                assert(digits_val(body.subrange(0, i - start + 1)) == digits_val(
                    body.subrange(0, i - start),
                ) * 10 + digit_val(body[i - start]));
            }
        } else {
            let next: u64 = acc * 10 + d;
            if next > 2147483648 {
                over = true;
            } else {
                acc = next;
            }
        }
        i = i + 1;
    }
    assert(body.subrange(0, i - start) =~= body);
    Option::Some((acc, over))
}

/// An integer argument, with the fallback to 0 the language promises.
fn parse_i32_arg(s: &str) -> (r: i32)
    ensures
        r as int == i32_of(s@),
{
    let n = s.unicode_len();
    if n == 0 {
        return 0;
    }
    let c0 = s.get_char(0);
    let neg = c0 == '-';
    let start: usize = if c0 == '-' || c0 == '+' {
        1
    } else {
        0
    };
    if n == start {
        // A bare sign: no digits to parse.
        assert(s@.subrange(1, n as int).len() == 0);
        return 0;
    }
    let mag = digits_mag(s, n, start);
    proof {
        if start == 1 {
            assert(s@.subrange(1, n as int) == s@.subrange(start as int, n as int));
        } else {
            assert(s@.subrange(0, n as int) =~= s@);
        }
    }
    match mag {
        Option::None => 0,
        Option::Some(m) => {
            if m.1 {
                // Magnitude above 2^31: outside i32 either way.
                0
            } else if neg {
                if m.0 <= 2147483648 {
                    (-(m.0 as i64)) as i32
                } else {
                    0
                }
            } else {
                if m.0 <= 2147483647 {
                    m.0 as i32
                } else {
                    0
                }
            }
        },
    }
}

/// A repeat count, with the fallback to 0 the language promises of every
/// integer argument.
fn parse_repeat_arg(s: &str) -> (r: usize)
    ensures
        r as nat == repeat_of(s@),
{
    let n = s.unicode_len();
    if n == 0 {
        return 0;
    }
    let c0 = s.get_char(0);
    if c0 == '-' {
        return 0;
    }
    let start: usize = if c0 == '+' {
        1
    } else {
        0
    };
    if n == start {
        assert(s@.subrange(1, n as int).len() == 0);
        return 0;
    }
    let mag = digits_mag_wide(s, n, start);
    proof {
        if start == 1 {
            assert(s@.subrange(1, n as int) == s@.subrange(start as int, n as int));
        } else {
            assert(s@.subrange(0, n as int) =~= s@);
        }
    }
    match mag {
        Option::None => 0,
        Option::Some(m) => {
            if m.1 {
                0
            } else {
                m.0
            }
        },
    }
}

/// The value of the digit run `s[start..]`, saturating above `usize::MAX`,
/// or `None` if a non-digit occurs.
fn digits_mag_wide(s: &str, n: usize, start: usize) -> (r: Option<(usize, bool)>)
    requires
        start <= n,
        n == s@.len(),
    ensures
        match r {
            Option::Some(m) => all_digits(s@.subrange(start as int, n as int)) && (if m.1 {
                digits_val(s@.subrange(start as int, n as int)) > usize::MAX
            } else {
                m.0 as int == digits_val(s@.subrange(start as int, n as int))
            }),
            Option::None => !all_digits(s@.subrange(start as int, n as int)),
        },
{
    let ghost body = s@.subrange(start as int, n as int);
    let mut acc: u128 = 0;
    let mut over: bool = false;
    let mut i: usize = start;
    while i < n
        invariant
            start <= i <= n,
            n == s@.len(),
            body == s@.subrange(start as int, n as int),
            all_digits(body.subrange(0, i - start)),
            !over ==> acc as int == digits_val(body.subrange(0, i - start)) && acc
                <= usize::MAX as u128,
            over ==> digits_val(body.subrange(0, i - start)) > usize::MAX,
        decreases n - i,
    {
        let c = s.get_char(i);
        if !(48 <= c as u32 && c as u32 <= 57) {
            assert(!is_digit(body[i - start]));
            return Option::None;
        }
        let d: u128 = (c as u32 - 48) as u128;
        proof {
            let p = body.subrange(0, i - start + 1);
            assert(p.drop_last() =~= body.subrange(0, i - start));
            assert(p.last() == body[i - start]);
            lemma_digits_val_nonneg(body.subrange(0, i - start));
            assert(digits_val(body.subrange(0, i - start + 1)) == digits_val(
                body.subrange(0, i - start),
            ) * 10 + digit_val(body[i - start]));
        }
        if !over {
            let next: u128 = acc * 10 + d;
            if next > usize::MAX as u128 {
                over = true;
            } else {
                acc = next;
            }
        }
        i = i + 1;
    }
    assert(body.subrange(0, i - start) =~= body);
    Option::Some((acc as usize, over))
}

/// The token a word and its arguments denote.
fn token_from(word: &str, args: &Vec<String>) -> (t: Token)
    ensures
        t@ == token_of(word@, strs_model(args@)),
{
    let xy = xy_exec(args);
    if str_eq(word, "take-move") {
        Token::TakeMove(xy.0, xy.1)
    } else if str_eq(word, "move") {
        Token::Move(xy.0, xy.1)
    } else if str_eq(word, "take") {
        Token::Take(xy.0, xy.1)
    } else if str_eq(word, "catch") {
        Token::Catch(xy.0, xy.1)
    } else if str_eq(word, "shift") {
        Token::Shift(xy.0, xy.1)
    } else if str_eq(word, "jump") {
        Token::Jump(xy.0, xy.1)
    } else if str_eq(word, "anchor") {
        Token::Anchor(xy.0, xy.1)
    } else if str_eq(word, "observe") {
        Token::Observe(xy.0, xy.1)
    } else if str_eq(word, "peek") {
        Token::Peek(xy.0, xy.1)
    } else if str_eq(word, "enemy") {
        Token::Enemy(xy.0, xy.1)
    } else if str_eq(word, "friendly") {
        Token::Friendly(xy.0, xy.1)
    } else if str_eq(word, "piece-on") {
        if args.len() >= 3 {
            Token::PieceOn(
                args[0].clone(),
                parse_i32_arg(args[1].as_str()),
                parse_i32_arg(args[2].as_str()),
            )
        } else {
            Token::End
        }
    } else if str_eq(word, "danger") {
        Token::Danger(xy.0, xy.1)
    } else if str_eq(word, "check") {
        Token::Check
    } else if str_eq(word, "bound") {
        Token::Bound(xy.0, xy.1)
    } else if str_eq(word, "edge") {
        Token::Edge(xy.0, xy.1)
    } else if str_eq(word, "edge-top") {
        Token::EdgeTop(xy.0, xy.1)
    } else if str_eq(word, "edge-bottom") {
        Token::EdgeBottom(xy.0, xy.1)
    } else if str_eq(word, "edge-left") {
        Token::EdgeLeft(xy.0, xy.1)
    } else if str_eq(word, "edge-right") {
        Token::EdgeRight(xy.0, xy.1)
    } else if str_eq(word, "corner") {
        Token::Corner(xy.0, xy.1)
    } else if str_eq(word, "corner-top-left") {
        Token::CornerTopLeft(xy.0, xy.1)
    } else if str_eq(word, "corner-top-right") {
        Token::CornerTopRight(xy.0, xy.1)
    } else if str_eq(word, "corner-bottom-left") {
        Token::CornerBottomLeft(xy.0, xy.1)
    } else if str_eq(word, "corner-bottom-right") {
        Token::CornerBottomRight(xy.0, xy.1)
    } else if str_eq(word, "piece") {
        if args.len() >= 1 {
            Token::Piece(args[0].clone())
        } else {
            Token::End
        }
    } else if str_eq(word, "if-state") {
        if args.len() >= 2 {
            Token::IfState(args[0].clone(), parse_i32_arg(args[1].as_str()))
        } else {
            Token::End
        }
    } else if str_eq(word, "set-state") {
        if args.len() >= 2 {
            Token::SetState(args[0].clone(), parse_i32_arg(args[1].as_str()))
        } else {
            Token::SetStateReset
        }
    } else if str_eq(word, "transition") {
        if args.len() >= 1 {
            Token::Transition(args[0].clone())
        } else {
            Token::End
        }
    } else if str_eq(word, "repeat") {
        if args.len() >= 1 {
            Token::Repeat(parse_repeat_arg(args[0].as_str()))
        } else {
            Token::Repeat(1)
        }
    } else if str_eq(word, "do") {
        Token::Do
    } else if str_eq(word, "while") {
        Token::While
    } else if str_eq(word, "jmp") {
        if args.len() >= 1 {
            Token::Jmp(args[0].clone())
        } else {
            Token::End
        }
    } else if str_eq(word, "jne") {
        if args.len() >= 1 {
            Token::Jne(args[0].clone())
        } else {
            Token::End
        }
    } else if str_eq(word, "label") {
        if args.len() >= 1 {
            Token::Label(args[0].clone())
        } else {
            Token::End
        }
    } else if str_eq(word, "not") {
        Token::Not
    } else if str_eq(word, "end") {
        Token::End
    } else {
        Token::End
    }
}

/// Lexes a whole script into its token stream.
pub fn tokenize(s: &str) -> (r: Vec<Token>)
    ensures
        toks_model(r@) == lex(s@),
{
    let n = s.unicode_len();
    let mut toks: Vec<Token> = Vec::new();
    let mut pos: usize = 0;
    assert(toks_model(toks@) =~= Seq::<TokenModel>::empty());
    assert(toks_model(toks@) + lex_from(s@, 0) =~= lex(s@));
    while pos < n
        invariant
            0 <= pos <= n,
            n == s@.len(),
            toks_model(toks@) + lex_from(s@, pos as int) == lex(s@),
        decreases n - pos,
    {
        broadcast use lemma_toks_model_push;

        let ghost pos0 = pos as int;
        let j = trivia_exec(s, n, pos);
        if j >= n {
            assert(lex_from(s@, pos0) =~= Seq::<TokenModel>::empty());
            assert(toks_model(toks@) =~= lex(s@));
            return toks;
        }
        let c = s.get_char(j);
        if c == ';' {
            proof {
                lemma_push_concat(toks_model(toks@), TokenModel::Semicolon, lex_from(s@, j + 1));
            }
            toks.push(Token::Semicolon);
            pos = j + 1;
        } else if c == '{' {
            proof {
                lemma_push_concat(toks_model(toks@), TokenModel::OpenBrace, lex_from(s@, j + 1));
            }
            toks.push(Token::OpenBrace);
            pos = j + 1;
        } else if c == '}' {
            proof {
                lemma_push_concat(toks_model(toks@), TokenModel::CloseBrace, lex_from(s@, j + 1));
            }
            toks.push(Token::CloseBrace);
            pos = j + 1;
        } else {
            let we = word_end_exec(s, n, j);
            if we == j {
                // A stray `(`, `)` or `,`: passed over without a token.
                pos = j + 1;
            } else {
                let word_str = s.substring_char(j, we);
                let k = skip_ws_exec(s, n, we);
                if k < n && s.get_char(k) == '(' {
                    let scanned = scan_args(s, n, k + 1);
                    let tok = token_from(word_str, &scanned.0);
                    proof {
                        lemma_push_concat(toks_model(toks@), tok@, lex_from(s@, scanned.1 as int));
                    }
                    toks.push(tok);
                    pos = scanned.1;
                } else {
                    let empty_args: Vec<String> = Vec::new();
                    assert(strs_model(empty_args@) =~= Seq::<Seq<char>>::empty());
                    let tok = token_from(word_str, &empty_args);
                    proof {
                        lemma_push_concat(toks_model(toks@), tok@, lex_from(s@, k as int));
                    }
                    toks.push(tok);
                    pos = k;
                }
            }
        }
    }
    assert(lex_from(s@, pos as int) =~= Seq::<TokenModel>::empty());
    assert(toks_model(toks@) =~= lex(s@));
    toks
}

} // verus!
