//! The textual action notation, an external compatibility contract:
//!
//! ```text
//! "<P> P <point>"        Place      e.g. "W P 0"
//! "<P> M <from> <to>"    Move       e.g. "B M 0 1"
//! "<P> R <point>"        Remove     e.g. "W R 5"
//! ```
//!
//! where `<P>` is `"W"` or `"B"`. Tokens are separated by ASCII whitespace;
//! a point is an optionally `+`-signed decimal number that fits in `usize`.
//! Parsing accepts trailing extra tokens after a place or removal, but a move
//! must consist of exactly four tokens. Formatting writes the canonical
//! single-space form back out.

use vstd::prelude::*;

use vstd::string::{StrSliceExecFns, StringExecFns};

use crate::types::{Action, ActionKind, Color};

verus! {

/// ASCII whitespace, the token separator.
pub open spec fn is_space(c: char) -> bool {
    c == ' ' || c == '\t' || c == '\n' || c == '\r'
}

/// The first index at or after `i` holding a non-space character (or the end).
pub open spec fn skip_ws(s: Seq<char>, i: int) -> int
    decreases s.len() - i,
{
    if i >= s.len() {
        s.len() as int
    } else if is_space(s[i]) {
        skip_ws(s, i + 1)
    } else {
        i
    }
}

/// The first index at or after `i` holding a space (or the end): the end of
/// the token starting at `i`.
pub open spec fn tok_end(s: Seq<char>, i: int) -> int
    decreases s.len() - i,
{
    if i >= s.len() {
        s.len() as int
    } else if is_space(s[i]) {
        i
    } else {
        tok_end(s, i + 1)
    }
}

/// Whether the token spanning `[a, b)` is the single letter `c`.
pub open spec fn token_is_letter(s: Seq<char>, a: int, b: int, c: char) -> bool {
    b == a + 1 && s[a] == c
}

/// Whether `c` is a decimal digit.
pub open spec fn is_digit(c: char) -> bool {
    c == '0' || c == '1' || c == '2' || c == '3' || c == '4' || c == '5' || c == '6' || c == '7'
        || c == '8' || c == '9'
}

/// The value of a decimal digit (0 for non-digits, which never arises where
/// it matters).
pub open spec fn digit_val(c: char) -> int {
    if c == '1' {
        1
    } else if c == '2' {
        2
    } else if c == '3' {
        3
    } else if c == '4' {
        4
    } else if c == '5' {
        5
    } else if c == '6' {
        6
    } else if c == '7' {
        7
    } else if c == '8' {
        8
    } else if c == '9' {
        9
    } else {
        0
    }
}

/// Where the digits of the number token starting at `a` begin: one later if
/// the token carries a leading `+` sign.
pub open spec fn digits_start(s: Seq<char>, a: int) -> int {
    if s[a] == '+' {
        a + 1
    } else {
        a
    }
}

/// Whether the token spanning `[a, b)` is a well-formed number: an optional
/// `+` followed by at least one digit.
pub open spec fn span_is_num(s: Seq<char>, a: int, b: int) -> bool {
    let d = digits_start(s, a);
    d < b && forall|j: int| d <= j < b ==> #[trigger] is_digit(s[j])
}

/// The value of the digit run spanning `[d, b)`, most significant first.
pub open spec fn span_val(s: Seq<char>, d: int, b: int) -> int
    decreases b - d,
{
    if b <= d {
        0
    } else {
        10 * span_val(s, d, b - 1) + digit_val(s[b - 1])
    }
}

/// The point number encoded by the token spanning `[a, b)`, if it is a
/// well-formed number whose value fits in `usize`.
pub open spec fn span_point(s: Seq<char>, a: int, b: int) -> Option<usize> {
    let d = digits_start(s, a);
    if span_is_num(s, a, b) && span_val(s, d, b) <= usize::MAX {
        Some(span_val(s, d, b) as usize)
    } else {
        None
    }
}

/// What a piece of text parses to: `Some(action)` exactly when it matches the
/// notation's grammar, `None` when it must be rejected.
pub open spec fn parse_spec(s: Seq<char>) -> Option<Action> {
    let a0 = skip_ws(s, 0);
    let b0 = tok_end(s, a0);
    let a1 = skip_ws(s, b0);
    let b1 = tok_end(s, a1);
    let a2 = skip_ws(s, b1);
    let b2 = tok_end(s, a2);
    if a2 >= s.len() {
        None
    } else if !(token_is_letter(s, a0, b0, 'W') || token_is_letter(s, a0, b0, 'B')) {
        None
    } else {
        let player = if token_is_letter(s, a0, b0, 'W') {
            Color::White
        } else {
            Color::Black
        };
        if token_is_letter(s, a1, b1, 'P') {
            match span_point(s, a2, b2) {
                Some(p) => Some(Action { player, action: ActionKind::Place(p) }),
                None => None,
            }
        } else if token_is_letter(s, a1, b1, 'M') {
            let a3 = skip_ws(s, b2);
            let b3 = tok_end(s, a3);
            if a3 >= s.len() || skip_ws(s, b3) < s.len() {
                None
            } else {
                match (span_point(s, a2, b2), span_point(s, a3, b3)) {
                    (Some(from), Some(to)) => Some(
                        Action { player, action: ActionKind::Move(from, to) },
                    ),
                    _ => None,
                }
            }
        } else if token_is_letter(s, a1, b1, 'R') {
            match span_point(s, a2, b2) {
                Some(p) => Some(Action { player, action: ActionKind::Remove(p) }),
                None => None,
            }
        } else {
            None
        }
    }
}

/// The error text rejected input parses to, following the order in which the
/// grammar is checked: token count, player, action kind, then the points.
pub open spec fn parse_error_text(s: Seq<char>) -> Seq<char>
    recommends
        parse_spec(s) is None,
{
    let a0 = skip_ws(s, 0);
    let b0 = tok_end(s, a0);
    let a1 = skip_ws(s, b0);
    let b1 = tok_end(s, a1);
    let a2 = skip_ws(s, b1);
    let b2 = tok_end(s, a2);
    if a2 >= s.len() {
        "Invalid action format"@
    } else if !(token_is_letter(s, a0, b0, 'W') || token_is_letter(s, a0, b0, 'B')) {
        "Invalid player"@
    } else if token_is_letter(s, a1, b1, 'P') || token_is_letter(s, a1, b1, 'R') {
        "Invalid point"@
    } else if token_is_letter(s, a1, b1, 'M') {
        let a3 = skip_ws(s, b2);
        let b3 = tok_end(s, a3);
        if a3 >= s.len() || skip_ws(s, b3) < s.len() {
            "Invalid move format"@
        } else if span_point(s, a2, b2) is None {
            "Invalid from point"@
        } else {
            "Invalid to point"@
        }
    } else {
        "Invalid action type"@
    }
}

/// The decimal digits of `n`, most significant first.
pub open spec fn dec_digits(n: int) -> Seq<char>
    decreases n,
{
    if n < 10 {
        seq![digit_char(n)]
    } else {
        dec_digits(n / 10).push(digit_char(n % 10))
    }
}

/// The character of a decimal digit.
pub open spec fn digit_char(d: int) -> char {
    if d == 1 {
        '1'
    } else if d == 2 {
        '2'
    } else if d == 3 {
        '3'
    } else if d == 4 {
        '4'
    } else if d == 5 {
        '5'
    } else if d == 6 {
        '6'
    } else if d == 7 {
        '7'
    } else if d == 8 {
        '8'
    } else if d == 9 {
        '9'
    } else {
        '0'
    }
}

/// The canonical text of an action, e.g. `"W P 0"` or `"B M 0 1"`.
pub open spec fn action_text(a: Action) -> Seq<char> {
    let player = match a.player {
        Color::White => seq!['W'],
        Color::Black => seq!['B'],
    };
    let rest = match a.action {
        ActionKind::Place(p) => seq!['P', ' '] + dec_digits(p as int),
        ActionKind::Move(from, to) => seq!['M', ' '] + dec_digits(from as int) + seq![' ']
            + dec_digits(to as int),
        ActionKind::Remove(p) => seq!['R', ' '] + dec_digits(p as int),
    };
    player + seq![' '] + rest
}

/// Whether `c` separates tokens.
fn is_space_char(c: char) -> (r: bool)
    ensures
        r == is_space(c),
{
    c == ' ' || c == '\t' || c == '\n' || c == '\r'
}

/// Finds the start of the next token at or after `start`.
fn find_token_start(s: &str, start: usize, n: usize) -> (r: usize)
    requires
        start as int <= s@.len(),
        n as int == s@.len(),
    ensures
        r as int == skip_ws(s@, start as int),
        start <= r && r <= n,
        r < n ==> !is_space(s@[r as int]),
    decreases n - start,
{
    let mut i = start;
    while i < n && is_space_char(s.get_char(i))
        invariant
            start <= i && i <= n,
            n as int == s@.len(),
            skip_ws(s@, start as int) == skip_ws(s@, i as int),
        decreases n - i,
    {
        i = i + 1;
    }
    i
}

/// Finds the end of the token starting at `start`.
fn find_token_end(s: &str, start: usize, n: usize) -> (r: usize)
    requires
        start as int <= s@.len(),
        n as int == s@.len(),
    ensures
        r as int == tok_end(s@, start as int),
        start <= r && r <= n,
        (start < n && !is_space(s@[start as int])) ==> r > start,
{
    let mut i = start;
    while i < n && !is_space_char(s.get_char(i))
        invariant
            start <= i && i <= n,
            n as int == s@.len(),
            tok_end(s@, start as int) == tok_end(s@, i as int),
        decreases n - i,
    {
        i = i + 1;
    }
    i
}

/// The value of a decimal digit character.
fn digit_value(c: char) -> (r: Option<u8>)
    ensures
        match r {
            Some(v) => is_digit(c) && v as int == digit_val(c),
            None => !is_digit(c),
        },
{
    match c {
        '0' => Some(0),
        '1' => Some(1),
        '2' => Some(2),
        '3' => Some(3),
        '4' => Some(4),
        '5' => Some(5),
        '6' => Some(6),
        '7' => Some(7),
        '8' => Some(8),
        '9' => Some(9),
        _ => None,
    }
}

/// A longer digit run can only name a larger number.
proof fn lemma_span_val_monotone(s: Seq<char>, d: int, k: int, b: int)
    requires
        d <= k <= b,
    ensures
        0 <= span_val(s, d, k) <= span_val(s, d, b),
    decreases b - k,
{
    if k == b {
        lemma_span_val_nonneg(s, d, k);
    } else {
        lemma_span_val_monotone(s, d, k, b - 1);
    }
}

/// A digit run names a non-negative number.
proof fn lemma_span_val_nonneg(s: Seq<char>, d: int, b: int)
    ensures
        0 <= span_val(s, d, b),
    decreases b - d,
{
    if b > d {
        lemma_span_val_nonneg(s, d, b - 1);
    }
}

/// Parses the number token spanning `[a, b)`, reporting `msg` on failure.
fn parse_point_span(s: &str, a: usize, b: usize, msg: &'static str) -> (r: Result<
    usize,
    &'static str,
>)
    requires
        a < b,
        b as int <= s@.len(),
    ensures
        match r {
            Ok(v) => span_point(s@, a as int, b as int) == Some(v),
            Err(e) => span_point(s@, a as int, b as int) is None && e == msg,
        },
{
    let mut j = a;
    if s.get_char(a) == '+' {
        j = a + 1;
    }
    if j >= b {
        return Err(msg);
    }
    let mut acc: usize = 0;
    let mut k = j;
    while k < b
        invariant
            j <= k && k <= b,
            b as int <= s@.len(),
            j as int == digits_start(s@, a as int),
            a < b,
            acc as int == span_val(s@, j as int, k as int),
            forall|t: int| j <= t < k ==> #[trigger] is_digit(s@[t]),
        decreases b - k,
    {
        let c = s.get_char(k);
        let dv = match digit_value(c) {
            Some(v) => v,
            None => {
                assert(!is_digit(s@[k as int]));
                return Err(msg);
            },
        };
        let next = match acc.checked_mul(10) {
            Some(x) => match x.checked_add(dv as usize) {
                Some(y) => y,
                None => {
                    proof {
                        lemma_span_val_monotone(s@, j as int, k as int + 1, b as int);
                    }
                    return Err(msg);
                },
            },
            None => {
                proof {
                    lemma_span_val_monotone(s@, j as int, k as int + 1, b as int);
                }
                return Err(msg);
            },
        };
        acc = next;
        k = k + 1;
    }
    Ok(acc)
}

impl Action {
    /// Parses the textual notation. Returns the parsed action exactly when
    /// the text matches the grammar, and the error the grammar check order
    /// prescribes otherwise.
    ///
    /// Example inputs:
    /// "W P 0" - White places at 0
    /// "B M 0 1" - Black moves from 0 to 1
    /// "W R 5" - White removes at 5
    pub fn parse(s: &str) -> (r: Result<Action, &'static str>)
        ensures
            match r {
                Ok(a) => parse_spec(s@) == Some(a),
                Err(e) => parse_spec(s@) is None && e@ == parse_error_text(s@),
            },
    {
        let n = s.unicode_len();
        let a0 = find_token_start(s, 0, n);
        let b0 = find_token_end(s, a0, n);
        let a1 = find_token_start(s, b0, n);
        let b1 = find_token_end(s, a1, n);
        let a2 = find_token_start(s, b1, n);
        let b2 = find_token_end(s, a2, n);
        if a2 >= n {
            return Err("Invalid action format");
        }
        let player = if b0 == a0 + 1 && s.get_char(a0) == 'W' {
            Color::White
        } else if b0 == a0 + 1 && s.get_char(a0) == 'B' {
            Color::Black
        } else {
            return Err("Invalid player");
        };
        let kind_is_letter = b1 == a1 + 1;
        if kind_is_letter && s.get_char(a1) == 'P' {
            match parse_point_span(s, a2, b2, "Invalid point") {
                Ok(p) => Ok(Action { player, action: ActionKind::Place(p) }),
                Err(e) => Err(e),
            }
        } else if kind_is_letter && s.get_char(a1) == 'M' {
            let a3 = find_token_start(s, b2, n);
            let b3 = find_token_end(s, a3, n);
            if a3 >= n {
                return Err("Invalid move format");
            }
            let a4 = find_token_start(s, b3, n);
            if a4 < n {
                return Err("Invalid move format");
            }
            let from = match parse_point_span(s, a2, b2, "Invalid from point") {
                Ok(p) => p,
                Err(e) => {
                    return Err(e);
                },
            };
            let to = match parse_point_span(s, a3, b3, "Invalid to point") {
                Ok(p) => p,
                Err(e) => {
                    return Err(e);
                },
            };
            Ok(Action { player, action: ActionKind::Move(from, to) })
        } else if kind_is_letter && s.get_char(a1) == 'R' {
            match parse_point_span(s, a2, b2, "Invalid point") {
                Ok(p) => Ok(Action { player, action: ActionKind::Remove(p) }),
                Err(e) => Err(e),
            }
        } else {
            Err("Invalid action type")
        }
    }

    /// Writes the action back out in the canonical textual notation.
    pub fn to_text(&self) -> (r: String)
        ensures
            r@ == action_text(*self),
    {
        let mut out = String::new();
        match self.player {
            Color::White => {
                proof {
                    reveal_strlit("W");
                }
                out.append("W");
                assert(out@ =~= seq!['W']);
            },
            Color::Black => {
                proof {
                    reveal_strlit("B");
                }
                out.append("B");
                assert(out@ =~= seq!['B']);
            },
        }
        proof {
            reveal_strlit(" ");
        }
        out.append(" ");
        match self.action {
            ActionKind::Place(p) => {
                proof {
                    reveal_strlit("P ");
                }
                out.append("P ");
                append_number(&mut out, p);
            },
            ActionKind::Move(from, to) => {
                proof {
                    reveal_strlit("M ");
                }
                out.append("M ");
                append_number(&mut out, from);
                out.append(" ");
                append_number(&mut out, to);
            },
            ActionKind::Remove(p) => {
                proof {
                    reveal_strlit("R ");
                }
                out.append("R ");
                append_number(&mut out, p);
            },
        }
        proof {
            assert(out@ =~= action_text(*self));
        }
        out
    }
}

impl core::str::FromStr for Action {
    type Err = &'static str;

    fn from_str(s: &str) -> Result<Action, &'static str> {
        Action::parse(s)
    }
}

/// The one-character text of a decimal digit.
fn digit_str(d: u8) -> (r: &'static str)
    requires
        d < 10,
    ensures
        r@ =~= seq![digit_char(d as int)],
{
    match d {
        0 => {
            proof {
                reveal_strlit("0");
            }
            "0"
        },
        1 => {
            proof {
                reveal_strlit("1");
            }
            "1"
        },
        2 => {
            proof {
                reveal_strlit("2");
            }
            "2"
        },
        3 => {
            proof {
                reveal_strlit("3");
            }
            "3"
        },
        4 => {
            proof {
                reveal_strlit("4");
            }
            "4"
        },
        5 => {
            proof {
                reveal_strlit("5");
            }
            "5"
        },
        6 => {
            proof {
                reveal_strlit("6");
            }
            "6"
        },
        7 => {
            proof {
                reveal_strlit("7");
            }
            "7"
        },
        8 => {
            proof {
                reveal_strlit("8");
            }
            "8"
        },
        _ => {
            proof {
                reveal_strlit("9");
            }
            "9"
        },
    }
}

/// The decimal digits of a number are at least one character, all digits.
proof fn lemma_dec_digits_are_digits(n: int)
    requires
        n >= 0,
    ensures
        dec_digits(n).len() >= 1,
        forall|i: int| 0 <= i < dec_digits(n).len() ==> #[trigger] is_digit(dec_digits(n)[i]),
    decreases n,
{
    if n >= 10 {
        lemma_dec_digits_are_digits(n / 10);
    }
}

/// A run of non-space characters ending at the end of the text or at a space
/// is exactly one token.
proof fn lemma_tok_end_run(s: Seq<char>, i: int, e: int)
    requires
        0 <= i <= e <= s.len(),
        forall|j: int| i <= j < e ==> !is_space(#[trigger] s[j]),
        e == s.len() || is_space(s[e]),
    ensures
        tok_end(s, i) == e,
    decreases e - i,
{
    if i < e {
        lemma_tok_end_run(s, i + 1, e);
    }
}

/// Reading back the decimal digits of `n` yields `n`.
proof fn lemma_span_val_digits(s: Seq<char>, a: int, n: int)
    requires
        n >= 0,
        0 <= a,
        a + dec_digits(n).len() <= s.len(),
        s.subrange(a, a + dec_digits(n).len()) == dec_digits(n),
    ensures
        span_val(s, a, a + dec_digits(n).len()) == n,
    decreases n,
{
    let d = dec_digits(n);
    let b = a + d.len();
    if n < 10 {
        assert(s[a] == d[0]);
        assert(span_val(s, a, b) == 10 * span_val(s, a, a) + digit_val(s[a]));
        assert(digit_val(digit_char(n)) == n);
    } else {
        let prefix = dec_digits(n / 10);
        assert(d == prefix.push(digit_char(n % 10)));
        assert(s[b - 1] == d[d.len() - 1]);
        assert(s.subrange(a, b - 1) =~= prefix) by {
            assert(forall|i: int|
                0 <= i < prefix.len() ==> s.subrange(a, b - 1)[i] == #[trigger] prefix[i]) by {
                assert(forall|i: int| 0 <= i < d.len() ==> s[a + i] == #[trigger] d[i]) by {
                    assert(forall|i: int|
                        0 <= i < d.len() ==> s.subrange(a, b)[i] == #[trigger] d[i]);
                }
            }
        }
        lemma_span_val_digits(s, a, n / 10);
        assert(span_val(s, a, b) == 10 * span_val(s, a, b - 1) + digit_val(s[b - 1]));
        assert(digit_val(digit_char(n % 10)) == n % 10);
    }
}

/// The round trip of the notation: the canonical text of any action parses
/// back to exactly that action. Parsing a hand-written text and formatting
/// the result therefore reproduces an equivalent textual form.
pub proof fn lemma_text_round_trip(a: Action)
    ensures
        parse_spec(action_text(a)) == Some(a),
{
    let s = action_text(a);
    let pc: char = match a.player {
        Color::White => 'W',
        Color::Black => 'B',
    };
    match a.action {
        ActionKind::Place(p) => {
            assert(s =~= seq![pc, ' ', 'P', ' '] + dec_digits(p as int));
            lemma_round_trip_one_point(a, pc, 'P', p);
        },
        ActionKind::Remove(p) => {
            assert(s =~= seq![pc, ' ', 'R', ' '] + dec_digits(p as int));
            lemma_round_trip_one_point(a, pc, 'R', p);
        },
        ActionKind::Move(from, to) => {
            let df = dec_digits(from as int);
            let dt = dec_digits(to as int);
            lemma_dec_digits_are_digits(from as int);
            lemma_dec_digits_are_digits(to as int);
            assert(s =~= seq![pc, ' ', 'M', ' '] + df + seq![' '] + dt);
            let e2 = 4 + df.len() as int;
            let e3 = e2 + 1 + dt.len() as int;
            assert(s.len() == e3);
            assert(forall|j: int| 4 <= j < e2 ==> s[j] == df[j - 4]);
            assert(forall|j: int| e2 + 1 <= j < e3 ==> s[j] == dt[j - (e2 + 1)]);
            assert forall|j: int| 4 <= j < e2 implies !is_space(#[trigger] s[j]) by {
                assert(is_digit(df[j - 4]));
            }
            assert forall|j: int| e2 + 1 <= j < e3 implies !is_space(#[trigger] s[j]) by {
                assert(is_digit(dt[j - (e2 + 1)]));
            }
            assert(skip_ws(s, 0) == 0);
            assert(tok_end(s, 0) == tok_end(s, 1));
            assert(tok_end(s, 1) == 1);
            assert(skip_ws(s, 1) == skip_ws(s, 2));
            assert(skip_ws(s, 2) == 2);
            assert(tok_end(s, 2) == tok_end(s, 3));
            assert(tok_end(s, 3) == 3);
            assert(skip_ws(s, 3) == skip_ws(s, 4));
            assert(skip_ws(s, 4) == 4);
            lemma_tok_end_run(s, 4, e2);
            assert(skip_ws(s, e2) == skip_ws(s, e2 + 1));
            assert(skip_ws(s, e2 + 1) == e2 + 1);
            lemma_tok_end_run(s, e2 + 1, e3);
            assert(skip_ws(s, e3) == s.len());
            assert(token_is_letter(s, 0, 1, pc));
            assert(token_is_letter(s, 2, 3, 'M'));
            lemma_point_span_reads_back(s, 4, from);
            lemma_point_span_reads_back(s, e2 + 1, to);
        },
    }
}

/// The shared shape of `Place` and `Remove` texts: `"<P> <K> <point>"`.
proof fn lemma_round_trip_one_point(a: Action, pc: char, kc: char, p: usize)
    requires
        action_text(a) == seq![pc, ' ', kc, ' '] + dec_digits(p as int),
        pc == 'W' || pc == 'B',
        (pc == 'W') == (a.player == Color::White),
        kc == 'P' || kc == 'R',
        (kc == 'P') ==> a.action == ActionKind::Place(p),
        (kc == 'R') ==> a.action == ActionKind::Remove(p),
    ensures
        parse_spec(action_text(a)) == Some(a),
{
    let s = action_text(a);
    let d = dec_digits(p as int);
    lemma_dec_digits_are_digits(p as int);
    let e = 4 + d.len() as int;
    assert(s.len() == e);
    assert(forall|j: int| 4 <= j < e ==> s[j] == d[j - 4]);
    assert forall|j: int| 4 <= j < e implies !is_space(#[trigger] s[j]) by {
        assert(is_digit(d[j - 4]));
    }
    assert(skip_ws(s, 0) == 0);
    assert(tok_end(s, 0) == tok_end(s, 1));
    assert(tok_end(s, 1) == 1);
    assert(skip_ws(s, 1) == skip_ws(s, 2));
    assert(skip_ws(s, 2) == 2);
    assert(tok_end(s, 2) == tok_end(s, 3));
    assert(tok_end(s, 3) == 3);
    assert(skip_ws(s, 3) == skip_ws(s, 4));
    assert(skip_ws(s, 4) == 4);
    lemma_tok_end_run(s, 4, e);
    assert(token_is_letter(s, 0, 1, pc));
    assert(token_is_letter(s, 2, 3, kc));
    lemma_point_span_reads_back(s, 4, p);
}

/// A number token written by the formatter parses back to the same point.
proof fn lemma_point_span_reads_back(s: Seq<char>, a: int, p: usize)
    requires
        0 <= a,
        a + dec_digits(p as int).len() <= s.len(),
        forall|j: int|
            a <= j < a + dec_digits(p as int).len() ==> s[j] == dec_digits(p as int)[j - a],
    ensures
        span_point(s, a, a + dec_digits(p as int).len()) == Some(p),
{
    let d = dec_digits(p as int);
    let b = a + d.len() as int;
    lemma_dec_digits_are_digits(p as int);
    assert(is_digit(s[a]));
    assert(s[a] != '+');
    assert(digits_start(s, a) == a);
    assert forall|j: int| a <= j < b implies #[trigger] is_digit(s[j]) by {
        assert(is_digit(d[j - a]));
    }
    assert(s.subrange(a, b) =~= d);
    lemma_span_val_digits(s, a, p as int);
}

/// Appends the decimal digits of `n` to `out`.
fn append_number(out: &mut String, n: usize)
    ensures
        final(out)@ == old(out)@ + dec_digits(n as int),
    decreases n,
{
    if n >= 10 {
        append_number(out, n / 10);
        out.append(digit_str((n % 10) as u8));
        proof {
            assert(out@ =~= old(out)@ + dec_digits(n as int));
        }
    } else {
        out.append(digit_str(n as u8));
        proof {
            assert(out@ =~= old(out)@ + dec_digits(n as int));
        }
    }
}

} // verus!
