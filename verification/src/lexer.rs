//! The assembler's lexer: one source line of ASCII bytes becomes a list of
//! tokens.
//!
//! Each executable function mirrors a recursive spec function and is proved
//! to return exactly its value, so the whole token grammar is pinned down:
//! identifiers, numeric literals with a radix prefix and an optional signed
//! suffix, string literals with backslash escapes, and single-character
//! control tokens.  Floating-point literals are recognized and refused: the
//! machine word for them cannot be computed here.

use vstd::prelude::*;

use crate::assembler::Error;
use crate::text::bytes_as_chars;
use crate::text::push_char;
use crate::text::string_of_bytes;
use vstd::string::StringExecFns;

verus! {

/// One token of the source language.  `UnsignedInteger` and
/// `SignedInteger` carry the radix they were written in.
pub enum Token {
    Ident(String),
    UnsignedInteger(u32, u32),
    SignedInteger(i32, u32),
    Ascii(String),
    Control(char),
}

/// The mathematical shadow of a [`Token`].
pub enum TokenV {
    Ident(Seq<char>),
    UnsignedInteger(u32, u32),
    SignedInteger(i32, u32),
    Ascii(Seq<char>),
    Control(char),
}

impl View for Token {
    type V = TokenV;

    open spec fn view(&self) -> TokenV {
        match self {
            Token::Ident(s) => TokenV::Ident(s@),
            Token::UnsignedInteger(v, r) => TokenV::UnsignedInteger(*v, *r),
            Token::SignedInteger(v, r) => TokenV::SignedInteger(*v, *r),
            Token::Ascii(s) => TokenV::Ascii(s@),
            Token::Control(c) => TokenV::Control(*c),
        }
    }
}

impl DeepView for Token {
    type V = TokenV;

    open spec fn deep_view(&self) -> TokenV {
        self.view()
    }
}

impl Token {
    /// Structural equality of tokens.
    pub fn token_eq(&self, other: &Token) -> (r: bool)
        ensures
            r == (self@ == other@),
    {
        match (self, other) {
            (Token::Ident(a), Token::Ident(b)) => a.eq(b),
            (Token::UnsignedInteger(a, ra), Token::UnsignedInteger(b, rb)) => a == b && ra == rb,
            (Token::SignedInteger(a, ra), Token::SignedInteger(b, rb)) => a == b && ra == rb,
            (Token::Ascii(a), Token::Ascii(b)) => a.eq(b),
            (Token::Control(a), Token::Control(b)) => a == b,
            _ => {
                proof {
                    assert(self@ != other@);
                }
                false
            },
        }
    }

    /// Clones a token.
    pub fn duplicate(&self) -> (r: Token)
        ensures
            r@ == self@,
    {
        match self {
            Token::Ident(s) => Token::Ident(s.clone()),
            Token::UnsignedInteger(v, r) => Token::UnsignedInteger(*v, *r),
            Token::SignedInteger(v, r) => Token::SignedInteger(*v, *r),
            Token::Ascii(s) => Token::Ascii(s.clone()),
            Token::Control(c) => Token::Control(*c),
        }
    }
}

/// ASCII whitespace.
pub open spec fn is_ws(c: u8) -> bool {
    c == 32 || c == 9 || c == 10 || c == 11 || c == 12 || c == 13
}

/// ASCII decimal digit.
pub open spec fn is_digit(c: u8) -> bool {
    48 <= c <= 57
}

/// ASCII letter.
pub open spec fn is_alpha(c: u8) -> bool {
    (65 <= c <= 90) || (97 <= c <= 122)
}

/// A character that may continue an identifier.
pub open spec fn is_ident_char(c: u8) -> bool {
    is_alpha(c) || is_digit(c) || c == 95
}

/// A character that may continue a numeric literal.
pub open spec fn is_num_char(c: u8) -> bool {
    is_ident_char(c) || c == 46
}

/// The two word shapes the lexer collects.
#[derive(Clone, Copy, PartialEq, Eq, Structural)]
pub enum WordClass {
    /// Identifier characters.
    Ident,
    /// Numeric-literal characters (identifier characters and the dot).
    Numeric,
}

/// Whether `c` belongs to the word class.
pub open spec fn in_class(class: WordClass, c: u8) -> bool {
    match class {
        WordClass::Ident => is_ident_char(c),
        WordClass::Numeric => is_num_char(c),
    }
}

/// The end of the word of class `class` starting at `i`: the first later
/// position whose byte falls outside the class.
pub open spec fn word_end(s: Seq<u8>, class: WordClass, i: int) -> int
    decreases s.len() - i,
{
    if i < 0 || i >= s.len() {
        i
    } else if in_class(class, s[i]) {
        word_end(s, class, i + 1)
    } else {
        i
    }
}

/// Collects a word: returns the end of the run of class characters
/// beginning at `start`.
pub fn collect_word(s: &Vec<u8>, start: usize, class: WordClass) -> (end: usize)
    requires
        start <= s@.len(),
    ensures
        end == word_end(s@, class, start as int),
        start <= end <= s@.len(),
    decreases s@.len() - start,
{
    if start == s.len() {
        return start;
    }
    let c = s[start];
    let inside = match class {
        WordClass::Ident => (65 <= c && c <= 90) || (97 <= c && c <= 122) || (48 <= c && c <= 57)
            || c == 95,
        WordClass::Numeric => (65 <= c && c <= 90) || (97 <= c && c <= 122) || (48 <= c && c
            <= 57) || c == 95 || c == 46,
    };
    if inside {
        collect_word(s, start + 1, class)
    } else {
        start
    }
}

/// The bytes of a word with the underscore separators removed.
pub open spec fn strip_separators(w: Seq<u8>) -> Seq<u8>
    decreases w.len(),
{
    if w.len() == 0 {
        Seq::empty()
    } else if w[0] == 95 {
        strip_separators(w.drop_first())
    } else {
        seq![w[0]] + strip_separators(w.drop_first())
    }
}

/// Whether a word contains a dot, marking a floating-point literal.
pub open spec fn has_dot(w: Seq<u8>) -> bool {
    exists|i: int| 0 <= i < w.len() && w[i] == 46
}

/// The value of one digit character, or 99 for a non-digit (no radix in
/// use goes that high).
pub open spec fn digit_value(c: u8) -> u32 {
    if 48 <= c <= 57 {
        (c - 48) as u32
    } else if 97 <= c <= 122 {
        (c - 87) as u32
    } else if 65 <= c <= 90 {
        (c - 55) as u32
    } else {
        99
    }
}

/// The value of a digit string in the given radix, bounded by `max`;
/// `None` for an empty string, a digit outside the radix, or a value past
/// the bound.
pub open spec fn digits_value(w: Seq<u8>, i: int, acc: int, radix: u32, max: u32) -> Option<int>
    decreases w.len() - i,
{
    if i < 0 || i >= w.len() {
        Some(acc)
    } else if digit_value(w[i]) >= radix {
        None
    } else if acc * radix + digit_value(w[i]) > max {
        None
    } else {
        digits_value(w, i + 1, acc * radix + digit_value(w[i]), radix, max)
    }
}

/// The radix named by a prefix character, if any.
pub open spec fn radix_of(c: u8) -> Option<u32> {
    if c == 98 {
        Some(2u32)  // 'b'
    } else if c == 113 {
        Some(4u32)  // 'q'
    } else if c == 111 {
        Some(8u32)  // 'o'
    } else if c == 122 {
        Some(12u32)  // 'z'
    } else if c == 120 {
        Some(16u32)  // 'x'
    } else if c == 100 {
        Some(10u32)  // 'd'
    } else {
        None
    }
}

/// The token denoted by a numeric word, after separator stripping: an
/// optional trailing `i` for signed, an optional radix prefix, then
/// digits.  `None` covers every malformed case, and floating-point
/// literals, which this assembler refuses.
pub open spec fn spec_num_lit(w0: Seq<u8>) -> Option<TokenV> {
    let w1 = strip_separators(w0);
    if w1.len() == 0 {
        None
    } else {
        let signed = w1.last() == 105;  // 'i'
        let w2 = if signed {
            w1.drop_last()
        } else {
            w1
        };
        if w2.len() == 0 {
            None
        } else {
            let prefixed = w2.len() > 2 && w2[0] == 48 && !is_digit(w2[1]) && w2[1] != 46;
            if prefixed && radix_of(w2[1]) is None {
                None
            } else {
                let radix = if prefixed {
                    radix_of(w2[1]).unwrap()
                } else {
                    10u32
                };
                let w3 = if prefixed {
                    w2.drop_first().drop_first()
                } else {
                    w2
                };
                if has_dot(w3) {
                    None
                } else if signed {
                    match digits_value(w3, 0, 0, radix, 0x7FFF_FFFF) {
                        Some(v) => {
                            if w3.len() == 0 {
                                None
                            } else {
                                Some(TokenV::SignedInteger(v as i32, radix))
                            }
                        },
                        None => None,
                    }
                } else {
                    match digits_value(w3, 0, 0, radix, 0xFFFF_FFFF) {
                        Some(v) => {
                            if w3.len() == 0 {
                                None
                            } else {
                                Some(TokenV::UnsignedInteger(v as u32, radix))
                            }
                        },
                        None => None,
                    }
                }
            }
        }
    }
}

/// Copies `s[from..to]` into a fresh vector.
pub fn slice_bytes(s: &Vec<u8>, from: usize, to: usize) -> (w: Vec<u8>)
    requires
        from <= to <= s@.len(),
    ensures
        w@ == s@.subrange(from as int, to as int),
{
    let mut w: Vec<u8> = Vec::new();
    let mut i: usize = from;
    while i < to
        invariant
            from <= i <= to <= s@.len(),
            w@ =~= s@.subrange(from as int, i as int),
        decreases to - i,
    {
        w.push(s[i]);
        i = i + 1;
        proof {
            assert(w@ =~= s@.subrange(from as int, i as int));
        }
    }
    w
}

/// Removes the underscore separators of a numeric word.
fn strip_separators_exec(w: &Vec<u8>, i: usize) -> (r: Vec<u8>)
    requires
        i <= w@.len(),
    ensures
        r@ == strip_separators(w@.subrange(i as int, w@.len() as int)),
    decreases w@.len() - i,
{
    if i == w.len() {
        proof {
            assert(w@.subrange(i as int, w@.len() as int) =~= Seq::<u8>::empty());
        }
        Vec::new()
    } else {
        let ghost tail = w@.subrange(i as int, w@.len() as int);
        proof {
            assert(tail.drop_first() =~= w@.subrange(i + 1, w@.len() as int));
        }
        if w[i] == 95 {
            strip_separators_exec(w, i + 1)
        } else {
            let mut rest = strip_separators_exec(w, i + 1);
            rest.insert(0, w[i]);
            proof {
                assert(rest@ =~= seq![tail[0]] + strip_separators(tail.drop_first()));
            }
            rest
        }
    }
}

/// Whether the word contains a dot.
fn has_dot_exec(w: &Vec<u8>) -> (r: bool)
    ensures
        r == has_dot(w@),
{
    let mut i: usize = 0;
    while i < w.len()
        invariant
            i <= w@.len(),
            forall|j: int| 0 <= j < i ==> w@[j] != 46,
        decreases w@.len() - i,
    {
        if w[i] == 46 {
            return true;
        }
        i = i + 1;
    }
    false
}

/// Evaluates the digits of `w` from `i` on in `radix`, bounded by `max`.
fn digits_value_exec(w: &Vec<u8>, i: usize, acc: u32, radix: u32, max: u32) -> (r: Option<u32>)
    requires
        i <= w@.len(),
        acc <= max,
        2 <= radix <= 16,
        max == 0x7FFF_FFFFu32 || max == 0xFFFF_FFFFu32,
    ensures
        match r {
            Some(v) => digits_value(w@, i as int, acc as int, radix, max) == Some(v as int) && v
                <= max,
            None => digits_value(w@, i as int, acc as int, radix, max) is None,
        },
    decreases w@.len() - i,
{
    if i == w.len() {
        return Some(acc);
    }
    let c = w[i];
    let d: u32 = if 48 <= c && c <= 57 {
        (c - 48) as u32
    } else if 97 <= c && c <= 122 {
        (c - 87) as u32
    } else if 65 <= c && c <= 90 {
        (c - 55) as u32
    } else {
        99
    };
    if d >= radix {
        return None;
    }
    proof {
        assert(acc * radix <= 0xFFFF_FFFFu32 * 16) by (nonlinear_arith)
            requires
                0 <= acc <= 0xFFFF_FFFFu32,
                0 <= radix <= 16,
        {
        }
    }
    let next: u64 = (acc as u64) * (radix as u64) + (d as u64);
    if next > max as u64 {
        return None;
    }
    digits_value_exec(w, i + 1, next as u32, radix, max)
}

/// Turns one numeric word into its token; see [`spec_num_lit`].
pub fn num_lit_token(word: &Vec<u8>, line: usize) -> (r: Result<Token, Error>)
    ensures
        match spec_num_lit(word@) {
            Some(t) => r matches Ok(tok) && tok@ == t,
            None => r is Err,
        },
{
    let ghost w0 = word@;
    proof {
        assert(word@.subrange(0, word@.len() as int) =~= word@);
    }
    let mut w = strip_separators_exec(word, 0);
    if w.len() == 0 {
        return Err(Error::at_line("invalid number literal", line));
    }
    let signed = w[w.len() - 1] == 105;
    if signed {
        let _ = w.pop();
        proof {
            assert(w@ =~= strip_separators(w0).drop_last());
        }
    }
    if w.len() == 0 {
        return Err(Error::at_line("invalid number literal", line));
    }
    let prefixed = w.len() > 2 && w[0] == 48 && !(48 <= w[1] && w[1] <= 57) && w[1] != 46;
    let radix: u32;
    if prefixed {
        let p = w[1];
        if p == 98 {
            radix = 2;
        } else if p == 113 {
            radix = 4;
        } else if p == 111 {
            radix = 8;
        } else if p == 122 {
            radix = 12;
        } else if p == 120 {
            radix = 16;
        } else if p == 100 {
            radix = 10;
        } else {
            return Err(Error::at_line("invalid radix for number literal", line));
        }
    } else {
        radix = 10;
    }
    let digits = if prefixed {
        let ghost before = w@;
        let d = slice_bytes(&w, 2, w.len());
        proof {
            assert(d@ =~= before.drop_first().drop_first());
        }
        d
    } else {
        w
    };
    if has_dot_exec(&digits) {
        return Err(Error::at_line("float literals are not supported here", line));
    }
    if digits.len() == 0 {
        return Err(Error::at_line("invalid number literal", line));
    }
    if signed {
        match digits_value_exec(&digits, 0, 0, radix, 0x7FFF_FFFF) {
            Some(v) => Ok(Token::SignedInteger(v as i32, radix)),
            None => Err(Error::at_line("invalid signed integer literal", line)),
        }
    } else {
        match digits_value_exec(&digits, 0, 0, radix, 0xFFFF_FFFF) {
            Some(v) => Ok(Token::UnsignedInteger(v, radix)),
            None => Err(Error::at_line("invalid unsigned integer literal", line)),
        }
    }
}

/// The characters denoted by the escaped body of a string literal; a
/// backslash introduces one of the seven accepted escapes.
pub open spec fn spec_unescape(w: Seq<u8>, i: int) -> Option<Seq<char>>
    decreases w.len() - i,
{
    if i < 0 || i >= w.len() {
        Some(Seq::empty())
    } else if w[i] == 92 {
        if i + 1 >= w.len() {
            Some(Seq::empty())
        } else {
            let e = escape_char(w[i + 1]);
            match e {
                Some(c) => match spec_unescape(w, i + 2) {
                    Some(rest) => Some(seq![c] + rest),
                    None => None,
                },
                None => None,
            }
        }
    } else {
        match spec_unescape(w, i + 1) {
            Some(rest) => Some(seq![w[i] as char] + rest),
            None => None,
        }
    }
}

/// The character an escape letter denotes.
pub open spec fn escape_char(c: u8) -> Option<char> {
    if c == 110 {
        Some('\n')
    } else if c == 114 {
        Some('\r')
    } else if c == 116 {
        Some('\t')
    } else if c == 34 {
        Some('"')
    } else if c == 39 {
        Some('\'')
    } else if c == 48 {
        Some('\0')
    } else if c == 92 {
        Some('\\')
    } else {
        None
    }
}

/// Resolves the backslash escapes of a string literal's raw bytes.
pub fn unescape_str(s: &Vec<u8>, i: usize, line: usize) -> (r: Result<String, Error>)
    requires
        i <= s@.len(),
    ensures
        match spec_unescape(s@, i as int) {
            Some(cs) => r matches Ok(out) && out@ == cs,
            None => r is Err,
        },
    decreases s@.len() - i,
{
    if i == s.len() {
        return Ok(String::new());
    }
    let c = s[i];
    if c == 92 {
        if i + 1 == s.len() {
            return Ok(String::new());
        }
        let e = s[i + 1];
        let ch: char;
        if e == 110 {
            ch = '\n';
        } else if e == 114 {
            ch = '\r';
        } else if e == 116 {
            ch = '\t';
        } else if e == 34 {
            ch = '"';
        } else if e == 39 {
            ch = '\'';
        } else if e == 48 {
            ch = '\0';
        } else if e == 92 {
            ch = '\\';
        } else {
            return Err(Error::at_line("invalid escape sequence", line));
        }
        let rest = unescape_str(s, i + 2, line)?;
        let mut out = String::new();
        push_char(&mut out, ch);
        out.append(rest.as_str());
        proof {
            assert(out@ =~= seq![ch] + rest@);
        }
        Ok(out)
    } else {
        let rest = unescape_str(s, i + 1, line)?;
        let mut out = String::new();
        push_char(&mut out, c as char);
        out.append(rest.as_str());
        proof {
            assert(out@ =~= seq![c as char] + rest@);
        }
        Ok(out)
    }
}

/// The position of the closing quote of a string literal whose body
/// starts at `i`; `None` when the line ends first or a non-ASCII byte
/// appears.
pub open spec fn string_end(s: Seq<u8>, i: int, escaped: bool) -> Option<int>
    decreases s.len() - i,
{
    if i < 0 || i >= s.len() {
        None
    } else if s[i] >= 128 {
        None
    } else if s[i] == 34 && !escaped {
        Some(i)
    } else {
        string_end(s, i + 1, if s[i] == 92 {
            !escaped
        } else {
            false
        })
    }
}

/// Finds the closing quote of a string literal.
fn string_end_exec(s: &Vec<u8>, i: usize, escaped: bool, line: usize) -> (r: Result<
    usize,
    Error,
>)
    requires
        i <= s@.len(),
    ensures
        match string_end(s@, i as int, escaped) {
            Some(j) => r matches Ok(v) && v == j && i <= j < s@.len(),
            None => r is Err,
        },
    decreases s@.len() - i,
{
    if i == s.len() {
        return Err(Error::at_line("unexpected end of line in string literal", line));
    }
    let c = s[i];
    if c >= 128 {
        return Err(Error::at_line("invalid character: only ASCII is allowed", line));
    }
    if c == 34 && !escaped {
        return Ok(i);
    }
    string_end_exec(
        s,
        i + 1,
        if c == 92 {
            !escaped
        } else {
            false
        },
        line,
    )
}

/// The token list of a line from position `i` on; `None` when the line is
/// malformed.
pub open spec fn spec_tokenize(s: Seq<u8>, i: int) -> Option<Seq<TokenV>>
    decreases s.len() - i,
    via spec_tokenize_decreases
{
    if i < 0 || i >= s.len() {
        Some(Seq::empty())
    } else {
        let c = s[i];
        if c >= 128 {
            None
        } else if is_ws(c) {
            spec_tokenize(s, i + 1)
        } else if is_digit(c) {
            let j = word_end(s, WordClass::Numeric, i);
            match spec_num_lit(s.subrange(i, j)) {
                Some(t) => match spec_tokenize(s, j) {
                    Some(rest) => Some(seq![t] + rest),
                    None => None,
                },
                None => None,
            }
        } else if is_alpha(c) || c == 95 {
            let j = word_end(s, WordClass::Ident, i);
            match spec_tokenize(s, j) {
                Some(rest) => Some(
                    seq![TokenV::Ident(bytes_as_chars(s.subrange(i, j)))] + rest,
                ),
                None => None,
            }
        } else if c == 34 {
            match string_end(s, i + 1, false) {
                Some(j) => match spec_unescape(s.subrange(i + 1, j), 0) {
                    Some(cs) => match spec_tokenize(s, j + 1) {
                        Some(rest) => Some(seq![TokenV::Ascii(cs)] + rest),
                        None => None,
                    },
                    None => None,
                },
                None => None,
            }
        } else {
            match spec_tokenize(s, i + 1) {
                Some(rest) => Some(seq![TokenV::Control(c as char)] + rest),
                None => None,
            }
        }
    }
}

/// Termination of [`spec_tokenize`]: every branch moves forward.
#[via_fn]
proof fn spec_tokenize_decreases(s: Seq<u8>, i: int) {
    if 0 <= i < s.len() {
        let c = s[i];
        if is_digit(c) {
            lemma_word_end_progress(s, WordClass::Numeric, i);
        } else if is_alpha(c) || c == 95 {
            lemma_word_end_progress(s, WordClass::Ident, i);
        } else if c == 34 {
            if string_end(s, i + 1, false) is Some {
                lemma_string_end_bounds(s, i + 1, false);
            }
        }
    }
}

/// A closing quote found by [`string_end`] lies between the search start
/// and the end of the line.
proof fn lemma_string_end_bounds(s: Seq<u8>, i: int, escaped: bool)
    requires
        string_end(s, i, escaped) is Some,
    ensures
        i <= string_end(s, i, escaped).unwrap() < s.len(),
    decreases s.len() - i,
{
    if 0 <= i < s.len() && !(s[i] >= 128) && !(s[i] == 34 && !escaped) {
        lemma_string_end_bounds(s, i + 1, if s[i] == 92 {
            !escaped
        } else {
            false
        });
    }
}

/// Tokenizes a line of source from position `i` on.
fn tokenize_from(s: &Vec<u8>, i: usize, line: usize) -> (r: Result<Vec<Token>, Error>)
    requires
        i <= s@.len(),
    ensures
        match spec_tokenize(s@, i as int) {
            Some(ts) => r matches Ok(v) && v.deep_view() == ts,
            None => r is Err,
        },
    decreases s@.len() - i,
{
    if i == s.len() {
        let empty: Vec<Token> = Vec::new();
        proof {
            assert(empty.deep_view() =~= Seq::<TokenV>::empty());
        }
        return Ok(empty);
    }
    let c = s[i];
    if c >= 128 {
        return Err(Error::at_line("invalid character: only ASCII is allowed", line));
    }
    if c == 32 || c == 9 || c == 10 || c == 11 || c == 12 || c == 13 {
        return tokenize_from(s, i + 1, line);
    }
    if 48 <= c && c <= 57 {
        let j = collect_word(s, i, WordClass::Numeric);
        proof {
            lemma_word_end_progress(s@, WordClass::Numeric, i as int);
        }
        let word = slice_bytes(s, i, j);
        let tok = num_lit_token(&word, line)?;
        let rest = tokenize_from(s, j, line)?;
        return Ok(cons_token(tok, rest));
    }
    if (65 <= c && c <= 90) || (97 <= c && c <= 122) || c == 95 {
        let j = collect_word(s, i, WordClass::Ident);
        proof {
            lemma_word_end_progress(s@, WordClass::Ident, i as int);
        }
        let name = string_of_bytes(s, i, j);
        let rest = tokenize_from(s, j, line)?;
        return Ok(cons_token(Token::Ident(name), rest));
    }
    if c == 34 {
        let j = string_end_exec(s, i + 1, false, line)?;
        let raw = slice_bytes(s, i + 1, j);
        let content = unescape_str(&raw, 0, line)?;
        let rest = tokenize_from(s, j + 1, line)?;
        proof {
            assert(spec_unescape(s@.subrange(i + 1, j as int), 0) == spec_unescape(raw@, 0));
        }
        return Ok(cons_token(Token::Ascii(content), rest));
    }
    let rest = tokenize_from(s, i + 1, line)?;
    Ok(cons_token(Token::Control(c as char), rest))
}

/// A word of its class has positive length when it starts inside one.
proof fn lemma_word_end_progress(s: Seq<u8>, class: WordClass, i: int)
    requires
        0 <= i < s.len(),
        in_class(class, s[i]),
    ensures
        i < word_end(s, class, i) <= s.len(),
{
    lemma_word_end_bounds(s, class, i + 1);
}

/// A word end never runs past the line.
proof fn lemma_word_end_bounds(s: Seq<u8>, class: WordClass, i: int)
    requires
        0 <= i <= s.len(),
    ensures
        i <= word_end(s, class, i) <= s.len(),
    decreases s.len() - i,
{
    if i < s.len() && in_class(class, s[i]) {
        lemma_word_end_bounds(s, class, i + 1);
    }
}

/// Pushes a token onto the front of a list.
fn cons_token(t: Token, rest: Vec<Token>) -> (r: Vec<Token>)
    ensures
        r.deep_view() == seq![t@] + rest.deep_view(),
{
    let ghost tv = t@;
    let ghost restv = rest.deep_view();
    let mut v = rest;
    v.insert(0, t);
    proof {
        assert(v.deep_view() =~= seq![tv] + restv);
    }
    v
}

/// Tokenizes one whole source line.
pub fn tokenize(s: &Vec<u8>, line: usize) -> (r: Result<Vec<Token>, Error>)
    ensures
        match spec_tokenize(s@, 0) {
            Some(ts) => r matches Ok(v) && v.deep_view() == ts,
            None => r is Err,
        },
{
    tokenize_from(s, 0, line)
}

} // verus!
