//! The runtime's shell front end: character and token streams, the token
//! kinds it knows, the parsed-token stream, and the nesting depths its parser
//! tracks while reading the lexer's output.
use vstd::prelude::*;
use crate::text::chars_of;

verus! {

/// The kind of a shell token.
#[derive(Debug, Clone, Copy, PartialEq, Eq, Structural)]
pub enum TokenType {
    /// `>`
    Redir,
    /// `>>`
    RedirAppend,
    /// `>|`
    ForceRedir,
    /// `|`
    Pipe,
    /// `case`
    Case,
    /// `coproc`
    Coproc,
    /// `do`
    Do,
    /// `done`
    Done,
    /// `elif`
    Elif,
    /// `else`
    Else,
    /// `esac`
    Esac,
    /// `fi`
    Fi,
    /// `for`
    For,
    /// `function`
    Function,
    /// `if`
    If,
    /// `in`
    In,
    /// `select`
    Select,
    /// `then`
    Then,
    /// `time`
    Time,
    /// `until`
    Until,
    /// `while`
    While,
    /// `{`
    LeftCurlyBrace,
    /// `}`
    RightCurlyBrace,
    /// `[`
    LeftSquareBracket,
    /// `]`
    RightSquareBracket,
    /// `(`
    LeftParen,
    /// `)`
    RightParen,
    /// `[[`
    LeftDoubleSquareBracket,
    /// `]]`
    RightDoubleSquareBracket,
    /// `((`
    LeftDoubleParen,
    /// `))`
    RightDoubleParen,
    /// Any other character pattern.
    Text,
    /// End of input.
    EOF,
}

/// A shell token.
#[derive(Debug, Clone, Copy, PartialEq, Eq, Structural)]
pub struct Token {
    ttype: TokenType,
}

impl Token {
    pub closed spec fn kind(&self) -> TokenType {
        self.ttype
    }

    /// A token of kind `ttype`.
    pub fn new(ttype: TokenType) -> (r: Self)
        ensures
            r.kind() == ttype,
    {
        Token { ttype }
    }

    /// The token's kind.
    pub fn get_type(&self) -> (r: &TokenType)
        ensures
            *r == self.kind(),
    {
        &self.ttype
    }
}

/// A stream of tokens with a read position.
#[derive(Debug)]
pub struct TokenStream {
    tokens: Vec<Token>,
    index: u32,
}

impl TokenStream {
    /// The tokens, in order.
    pub closed spec fn tokens(&self) -> Seq<Token> {
        self.tokens@
    }

    /// The read position.
    pub closed spec fn index(&self) -> nat {
        self.index as nat
    }

    pub open spec fn wf(&self) -> bool {
        &&& self.tokens().len() <= u32::MAX
        &&& self.index() <= self.tokens().len()
    }

    /// An empty stream.
    pub fn new() -> (r: Self)
        ensures
            r.wf(),
            r.tokens() == Seq::<Token>::empty(),
            r.index() == 0,
    {
        TokenStream { tokens: Vec::new(), index: 0 }
    }

    /// The read position.
    pub fn get_index(&self) -> (r: u32)
        ensures
            r as nat == self.index(),
    {
        self.index
    }

    /// Appends `token`.
    pub fn push(&mut self, token: Token)
        requires
            old(self).wf(),
            old(self).tokens().len() < u32::MAX,
        ensures
            final(self).wf(),
            final(self).tokens() == old(self).tokens().push(token),
            final(self).index() == old(self).index(),
    {
        self.tokens.push(token);
    }

    /// Reads the token at the read position and moves past it.
    pub fn next(&mut self) -> (r: Token)
        requires
            old(self).wf(),
            old(self).index() < old(self).tokens().len(),
        ensures
            final(self).wf(),
            r == old(self).tokens()[old(self).index() as int],
            final(self).index() == old(self).index() + 1,
            final(self).tokens() == old(self).tokens(),
    {
        let t = self.tokens[self.index as usize];
        self.index = self.index + 1;
        t
    }

    /// Whether a token is left to read.
    pub fn has_next(&self) -> (r: bool)
        requires
            self.wf(),
        ensures
            r == (self.index() < self.tokens().len()),
    {
        self.index < self.tokens.len() as u32
    }

    /// The token `index` places past the read position, without reading it.
    pub fn lookahead(&self, index: u32) -> (r: Token)
        requires
            self.wf(),
            self.index() + index < self.tokens().len(),
        ensures
            r == self.tokens()[self.index() + index],
    {
        self.tokens[(self.index + index) as usize]
    }
}

/// Relies on `String::push`: appends one character.
#[verifier::external_body]
fn push_char(s: &mut String, c: char)
    ensures
        final(s)@ == old(s)@.push(c),
{
    s.push(c)
}

/// A stream of characters with a read position.
#[derive(Debug)]
pub struct CharStream {
    chars: Vec<char>,
    index: u64,
}

impl CharStream {
    /// The characters, in order.
    pub closed spec fn chars(&self) -> Seq<char> {
        self.chars@
    }

    /// The read position.
    pub closed spec fn index(&self) -> nat {
        self.index as nat
    }

    pub open spec fn wf(&self) -> bool {
        &&& self.chars().len() < u64::MAX
        &&& self.index() <= self.chars().len()
    }

    /// An empty stream.
    pub fn new() -> (r: Self)
        ensures
            r.wf(),
            r.chars() == Seq::<char>::empty(),
            r.index() == 0,
    {
        CharStream { chars: Vec::new(), index: 0 }
    }

    /// A stream of the characters of `s`, read from the start.
    pub fn from_text(s: &str) -> (r: Self)
        requires
            s@.len() < u64::MAX,
        ensures
            r.wf(),
            r.chars() == s@,
            r.index() == 0,
    {
        CharStream { chars: chars_of(s), index: 0 }
    }

    /// The read position.
    pub fn get_index(&self) -> (r: u64)
        ensures
            r as nat == self.index(),
    {
        self.index
    }

    /// Appends `c`.
    pub fn push(&mut self, c: char)
        requires
            old(self).wf(),
            old(self).chars().len() + 1 < u64::MAX,
        ensures
            final(self).wf(),
            final(self).chars() == old(self).chars().push(c),
            final(self).index() == old(self).index(),
    {
        self.chars.push(c);
    }

    /// Reads the character at the read position and moves past it.
    pub fn next(&mut self) -> (r: char)
        requires
            old(self).wf(),
            old(self).index() < old(self).chars().len(),
        ensures
            final(self).wf(),
            r == old(self).chars()[old(self).index() as int],
            final(self).index() == old(self).index() + 1,
            final(self).chars() == old(self).chars(),
    {
        let n: usize = self.chars.len();
        let c = self.chars[self.index as usize];
        self.index = self.index + 1;
        c
    }

    /// Whether a character is left to read.
    pub fn has_next(&self) -> (r: bool)
        requires
            self.wf(),
        ensures
            r == (self.index() < self.chars().len()),
    {
        self.index < self.chars.len() as u64
    }

    /// The character `index` places past the read position, without reading it.
    pub fn lookahead(&self, index: u64) -> (r: char)
        requires
            self.wf(),
            self.index() + index < self.chars().len(),
        ensures
            r == self.chars()[self.index() + index],
    {
        let n: usize = self.chars.len();
        self.chars[(self.index + index) as usize]
    }

    /// The characters at positions `start` to `end`, both included; empty
    /// when `start > end`.
    pub fn lookahead_range(&self, start: u32, end: u32) -> (r: String)
        requires
            self.wf(),
            start <= end ==> (end as nat) < self.chars().len(),
        ensures
            start <= end ==> r@ == self.chars().subrange(start as int, end + 1),
            start > end ==> r@ == Seq::<char>::empty(),
    {
        let mut ret = String::new();
        if start > end {
            return ret;
        }
        let mut i: u32 = start;
        loop
            invariant
                start <= i <= end,
                (end as nat) < self.chars().len(),
                ret@ == self.chars().subrange(start as int, i as int),
            decreases end - i,
        {
            push_char(&mut ret, self.chars[i as usize]);
            assert(ret@ =~= self.chars().subrange(start as int, i + 1));
            if i == end {
                return ret;
            }
            i = i + 1;
        }
    }

    /// The characters from the read position to `count` places past it,
    /// both included, without reading them.
    pub fn lookahead_multi(&self, count: u64) -> (r: String)
        requires
            self.wf(),
            self.index() + count < self.chars().len(),
        ensures
            r@ == self.chars().subrange(self.index() as int, self.index() + count + 1),
    {
        let mut ret = String::new();
        let last = self.index + count;
        let mut i: u64 = self.index;
        let n: usize = self.chars.len();
        loop
            invariant
                n == self.chars@.len(),
                self.index() <= i <= last,
                last == self.index() + count,
                (last as nat) < self.chars().len(),
                ret@ == self.chars().subrange(self.index() as int, i as int),
            decreases last - i,
        {
            push_char(&mut ret, self.chars[i as usize]);
            assert(ret@ =~= self.chars().subrange(self.index() as int, i + 1));
            if i == last {
                return ret;
            }
            i = i + 1;
        }
    }

    /// Whether `count` more characters can be read.
    pub fn has_next_multi(&self, count: u64) -> (r: bool)
        requires
            self.wf(),
            self.index() + count <= u64::MAX,
        ensures
            r == (self.index() + count <= self.chars().len()),
    {
        self.index + count <= self.chars.len() as u64
    }
}

/// `c` may continue a word.
pub open spec fn is_word_char(c: char) -> bool {
    ('a' <= c && c <= 'z') || ('A' <= c && c <= 'Z') || c == '_' || ('0' <= c && c <= '9')
}

/// `c` may start a word.
pub open spec fn is_word_start(c: char) -> bool {
    ('a' <= c && c <= 'z') || ('A' <= c && c <= 'Z') || c == '_'
}

/// Reading a comment from position `i`: each character other than a line
/// break is read together with the one after it. The position after the
/// comment, or `None` where the second read would run past the end.
pub open spec fn skip_comment(s: Seq<char>, i: nat) -> Option<nat>
    decreases s.len() - i,
{
    if i >= s.len() {
        Some(i)
    } else if s[i as int] == '\n' {
        Some(i + 1)
    } else if i + 1 < s.len() {
        skip_comment(s, i + 2)
    } else {
        None
    }
}

/// Reading the rest of a word from position `i`: each word character is
/// read together with the one after it and yields one `Text` token; the
/// first other character is read and ends the word. The position after it
/// and the number of `Text` tokens, or `None` where a read runs past the end.
pub open spec fn word_tail(s: Seq<char>, i: nat) -> Option<(nat, nat)>
    decreases s.len() - i,
{
    if i >= s.len() {
        Some((i, 0))
    } else if is_word_char(s[i as int]) {
        if i + 1 < s.len() {
            match word_tail(s, i + 2) {
                Some(r) => Some((r.0, r.1 + 1)),
                None => None,
            }
        } else {
            None
        }
    } else {
        Some((i + 1, 0))
    }
}

/// With `c` just read and the read position at `i`: whether a character is
/// left, `c` is `x`, and the character one place past the read position is
/// `y`. `None` where that last look runs past the end.
pub open spec fn one_ahead(s: Seq<char>, i: nat, c: char, x: char, y: char) -> Option<bool> {
    if i < s.len() && c == x {
        if i + 1 < s.len() {
            Some(s[i + 1int] == y)
        } else {
            None
        }
    } else {
        Some(false)
    }
}

/// With `c` just read and the read position at `i`: whether `word.len()`
/// more characters are left, `c` is `x`, and the characters from the read
/// position to `word.len()` places past it, both included, spell `word`.
/// `None` where that look runs past the end.
pub open spec fn many_ahead(s: Seq<char>, i: nat, c: char, x: char, word: Seq<char>) -> Option<bool> {
    let k = word.len();
    if i + k <= s.len() && c == x {
        if i + k < s.len() {
            Some(s.subrange(i as int, (i + k + 1) as int) == word)
        } else {
            None
        }
    } else {
        Some(false)
    }
}

/// A keyword probe: `None` propagates a failed look, a hit gives the token
/// and the number of further characters read, a miss goes on with `rest`.
pub open spec fn or_else(
    probe: Option<bool>,
    hit: (TokenType, nat),
    rest: Option<Option<(TokenType, nat)>>,
) -> Option<Option<(TokenType, nat)>> {
    match probe {
        None => None,
        Some(true) => Some(Some(hit)),
        Some(false) => rest,
    }
}

/// The keyword probes, in order, after the word start `c` with the read
/// position at `i`: `Some(None)` when none hits.
pub open spec fn keyword(s: Seq<char>, i: nat, c: char) -> Option<Option<(TokenType, nat)>> {
    or_else(many_ahead(s, i, c, 'c', seq!['a', 's', 'e']), (TokenType::Case, 2),
    or_else(many_ahead(s, i, c, 'c', seq!['o', 'p', 'r', 'o', 'c']), (TokenType::Coproc, 5),
    or_else(one_ahead(s, i, c, 'd', 'o'), (TokenType::Do, 1),
    or_else(many_ahead(s, i, c, 'd', seq!['o', 'n', 'e']), (TokenType::Done, 3),
    or_else(many_ahead(s, i, c, 'e', seq!['l', 'i', 'f']), (TokenType::Elif, 3),
    or_else(many_ahead(s, i, c, 'e', seq!['l', 's', 'e']), (TokenType::Else, 3),
    or_else(many_ahead(s, i, c, 'e', seq!['s', 'a', 'c']), (TokenType::Esac, 3),
    or_else(one_ahead(s, i, c, 'f', 'i'), (TokenType::Fi, 1),
    or_else(many_ahead(s, i, c, 'f', seq!['o', 'r']), (TokenType::For, 2),
    or_else(many_ahead(s, i, c, 'f', seq!['u', 'n', 'c', 't', 'i', 'o', 'n']), (TokenType::Function, 7),
    or_else(one_ahead(s, i, c, 'i', 'f'), (TokenType::If, 1),
    or_else(one_ahead(s, i, c, 'i', 'n'), (TokenType::In, 1),
    or_else(many_ahead(s, i, c, 's', seq!['e', 'l', 'e', 'c', 't']), (TokenType::Select, 5),
    or_else(many_ahead(s, i, c, 't', seq!['h', 'e', 'n']), (TokenType::Then, 3),
    or_else(many_ahead(s, i, c, 't', seq!['i', 'm', 'e']), (TokenType::Time, 3),
    or_else(many_ahead(s, i, c, 'u', seq!['n', 't', 'i', 'l']), (TokenType::Until, 4),
    or_else(many_ahead(s, i, c, 'w', seq!['h', 'i', 'l', 'e']), (TokenType::While, 4),
    Some(None))))))))))))))))))
}

/// A bracket that may be doubled: the single or double kind, then `EOF`.
pub open spec fn bracket(s: Seq<char>, j: nat, c: char, single: TokenType, double: TokenType) -> Option<
    (nat, Seq<TokenType>),
> {
    match one_ahead(s, j, c, c, c) {
        None => None,
        Some(true) => Some((j + 1, seq![double, TokenType::EOF])),
        Some(false) => Some((j, seq![single, TokenType::EOF])),
    }
}

/// One round of the lexer on the character at `i`: the position after it
/// and the token kinds it emits, or `None` where the lexer cannot go on (a
/// character it does not know, or a read past the end).
pub open spec fn lex_step(s: Seq<char>, i: nat) -> Option<(nat, Seq<TokenType>)> {
    let c = s[i as int];
    let j = i + 1;
    if c == ' ' || c == '\t' || c == '\n' || c == '\r' {
        Some((j, Seq::empty()))
    } else if c == '#' {
        match skip_comment(s, j) {
            Some(k) => Some((k, Seq::empty())),
            None => None,
        }
    } else if c == '>' {
        if j < s.len() {
            if j + 1 < s.len() {
                if s[j + 1int] == '>' {
                    Some((j + 1, seq![TokenType::RedirAppend, TokenType::EOF]))
                } else if s[j + 1int] == '|' {
                    Some((j + 1, seq![TokenType::ForceRedir, TokenType::EOF]))
                } else {
                    Some((j, seq![TokenType::Redir, TokenType::EOF]))
                }
            } else {
                None
            }
        } else {
            Some((j, seq![TokenType::EOF]))
        }
    } else if c == '|' {
        Some((j, seq![TokenType::Pipe, TokenType::EOF]))
    } else if c == '{' {
        Some((j, seq![TokenType::LeftCurlyBrace, TokenType::EOF]))
    } else if c == '}' {
        Some((j, seq![TokenType::RightCurlyBrace, TokenType::EOF]))
    } else if c == '[' {
        bracket(s, j, c, TokenType::LeftSquareBracket, TokenType::LeftDoubleSquareBracket)
    } else if c == ']' {
        bracket(s, j, c, TokenType::RightSquareBracket, TokenType::RightDoubleSquareBracket)
    } else if c == '(' {
        bracket(s, j, c, TokenType::LeftParen, TokenType::LeftDoubleParen)
    } else if c == ')' {
        bracket(s, j, c, TokenType::RightParen, TokenType::RightDoubleParen)
    } else if is_word_start(c) {
        match keyword(s, j, c) {
            None => None,
            Some(Some(hit)) => Some((j + hit.1, seq![hit.0, TokenType::EOF])),
            Some(None) => match word_tail(s, j) {
                None => None,
                Some(w) => Some((w.0, Seq::new(w.1, |k: int| TokenType::Text).push(TokenType::EOF))),
            },
        }
    } else {
        None
    }
}

/// The token kinds the lexer emits from position `i` to the end, or `None`
/// where it cannot go on.
pub open spec fn lex_from(s: Seq<char>, i: nat) -> Option<Seq<TokenType>>
    decreases s.len() - i,
{
    if i >= s.len() {
        Some(Seq::empty())
    } else {
        match lex_step(s, i) {
            None => None,
            Some(st) => if i < st.0 && st.0 <= s.len() {
                match lex_from(s, st.0) {
                    Some(rest) => Some(st.1 + rest),
                    None => None,
                }
            } else {
                None
            },
        }
    }
}

/// The kinds of `toks`, in order.
pub open spec fn kinds(toks: Seq<Token>) -> Seq<TokenType> {
    toks.map_values(|t: Token| t.kind())
}

/// Character-wise equality of two strings.
fn text_eq(a: &str, b: &str) -> (r: bool)
    ensures
        r == (a@ == b@),
{
    let n = a.unicode_len();
    if n != b.unicode_len() {
        return false;
    }
    let mut i: usize = 0;
    while i < n
        invariant
            n == a@.len(),
            n == b@.len(),
            i <= n,
            forall|k: int| 0 <= k < i ==> a@[k] == b@[k],
        decreases n - i,
    {
        if a.get_char(i) != b.get_char(i) {
            return false;
        }
        i = i + 1;
    }
    assert(a@ =~= b@);
    true
}

/// Whether `c` may continue a word.
fn word_char(c: char) -> (r: bool)
    ensures
        r == is_word_char(c),
{
    ('a' <= c && c <= 'z') || ('A' <= c && c <= 'Z') || c == '_' || ('0' <= c && c <= '9')
}

/// Whether `c` may start a word.
fn word_start(c: char) -> (r: bool)
    ensures
        r == is_word_start(c),
{
    ('a' <= c && c <= 'z') || ('A' <= c && c <= 'Z') || c == '_'
}

/// The keywords' spellings, as the probes spell them.
proof fn lemma_keyword_words()
    ensures
        "ase"@ == seq!['a', 's', 'e'],
        "oproc"@ == seq!['o', 'p', 'r', 'o', 'c'],
        "one"@ == seq!['o', 'n', 'e'],
        "lif"@ == seq!['l', 'i', 'f'],
        "lse"@ == seq!['l', 's', 'e'],
        "sac"@ == seq!['s', 'a', 'c'],
        "or"@ == seq!['o', 'r'],
        "unction"@ == seq!['u', 'n', 'c', 't', 'i', 'o', 'n'],
        "elect"@ == seq!['e', 'l', 'e', 'c', 't'],
        "hen"@ == seq!['h', 'e', 'n'],
        "ime"@ == seq!['i', 'm', 'e'],
        "ntil"@ == seq!['n', 't', 'i', 'l'],
        "hile"@ == seq!['h', 'i', 'l', 'e'],
{
    reveal_strlit("ase");
    reveal_strlit("oproc");
    reveal_strlit("one");
    reveal_strlit("lif");
    reveal_strlit("lse");
    reveal_strlit("sac");
    reveal_strlit("or");
    reveal_strlit("unction");
    reveal_strlit("elect");
    reveal_strlit("hen");
    reveal_strlit("ime");
    reveal_strlit("ntil");
    reveal_strlit("hile");
    assert("ase"@ =~= seq!['a', 's', 'e']);
    assert("oproc"@ =~= seq!['o', 'p', 'r', 'o', 'c']);
    assert("one"@ =~= seq!['o', 'n', 'e']);
    assert("lif"@ =~= seq!['l', 'i', 'f']);
    assert("lse"@ =~= seq!['l', 's', 'e']);
    assert("sac"@ =~= seq!['s', 'a', 'c']);
    assert("or"@ =~= seq!['o', 'r']);
    assert("unction"@ =~= seq!['u', 'n', 'c', 't', 'i', 'o', 'n']);
    assert("elect"@ =~= seq!['e', 'l', 'e', 'c', 't']);
    assert("hen"@ =~= seq!['h', 'e', 'n']);
    assert("ime"@ =~= seq!['i', 'm', 'e']);
    assert("ntil"@ =~= seq!['n', 't', 'i', 'l']);
    assert("hile"@ =~= seq!['h', 'i', 'l', 'e']);
}

impl CharStream {
    /// `one_ahead` at the read position.
    fn probe_one(&self, c: char, x: char, y: char) -> (r: bool)
        requires
            self.wf(),
            one_ahead(self.chars(), self.index(), c, x, y) is Some,
        ensures
            r == one_ahead(self.chars(), self.index(), c, x, y).unwrap(),
    {
        self.has_next() && c == x && self.lookahead(1) == y
    }

    /// `many_ahead` at the read position.
    fn probe_many(&self, c: char, x: char, word: &str) -> (r: bool)
        requires
            self.wf(),
            self.chars().len() + 8 < u64::MAX,
            word@.len() <= 8,
            many_ahead(self.chars(), self.index(), c, x, word@) is Some,
        ensures
            r == many_ahead(self.chars(), self.index(), c, x, word@).unwrap(),
    {
        let k = word.unicode_len() as u64;
        if self.has_next_multi(k) && c == x {
            let got = self.lookahead_multi(k);
            text_eq(got.as_str(), word)
        } else {
            false
        }
    }

    /// Reads `m` characters.
    fn advance(&mut self, m: u64)
        requires
            old(self).wf(),
            old(self).index() + m <= old(self).chars().len(),
        ensures
            final(self).wf(),
            final(self).chars() == old(self).chars(),
            final(self).index() == old(self).index() + m,
    {
        let mut k: u64 = 0;
        while k < m
            invariant
                self.wf(),
                self.chars() == old(self).chars(),
                k <= m,
                self.index() == old(self).index() + k,
                old(self).index() + m <= old(self).chars().len(),
            decreases m - k,
        {
            self.next();
            k = k + 1;
        }
    }

    /// The keyword probes in order; `None` when none hits.
    fn keyword_probe(&self, c: char) -> (r: Option<(TokenType, u64)>)
        requires
            self.wf(),
            self.chars().len() + 8 < u64::MAX,
            keyword(self.chars(), self.index(), c) is Some,
        ensures
            r matches Some(h) ==> keyword(self.chars(), self.index(), c) == Some(
                Some((h.0, h.1 as nat)),
            ),
            r is None ==> keyword(self.chars(), self.index(), c) == Some(
                None::<(TokenType, nat)>,
            ),
    {
        proof {
            lemma_keyword_words();
        }
        if self.probe_many(c, 'c', "ase") {
            Some((TokenType::Case, 2))
        } else if self.probe_many(c, 'c', "oproc") {
            Some((TokenType::Coproc, 5))
        } else if self.probe_one(c, 'd', 'o') {
            Some((TokenType::Do, 1))
        } else if self.probe_many(c, 'd', "one") {
            Some((TokenType::Done, 3))
        } else if self.probe_many(c, 'e', "lif") {
            Some((TokenType::Elif, 3))
        } else if self.probe_many(c, 'e', "lse") {
            Some((TokenType::Else, 3))
        } else if self.probe_many(c, 'e', "sac") {
            Some((TokenType::Esac, 3))
        } else if self.probe_one(c, 'f', 'i') {
            Some((TokenType::Fi, 1))
        } else if self.probe_many(c, 'f', "or") {
            Some((TokenType::For, 2))
        } else if self.probe_many(c, 'f', "unction") {
            Some((TokenType::Function, 7))
        } else if self.probe_one(c, 'i', 'f') {
            Some((TokenType::If, 1))
        } else if self.probe_one(c, 'i', 'n') {
            Some((TokenType::In, 1))
        } else if self.probe_many(c, 's', "elect") {
            Some((TokenType::Select, 5))
        } else if self.probe_many(c, 't', "hen") {
            Some((TokenType::Then, 3))
        } else if self.probe_many(c, 't', "ime") {
            Some((TokenType::Time, 3))
        } else if self.probe_many(c, 'u', "ntil") {
            Some((TokenType::Until, 4))
        } else if self.probe_many(c, 'w', "hile") {
            Some((TokenType::While, 4))
        } else {
            None
        }
    }
}

/// The shell lexer: an input stream and the tokens produced from it.
pub struct Lexer {
    input: CharStream,
    pub output: TokenStream,
}

impl Lexer {
    /// The input stream.
    pub closed spec fn input(&self) -> CharStream {
        self.input
    }

    /// The produced tokens.
    pub closed spec fn tokens_out(&self) -> TokenStream {
        self.output
    }

    /// Appends a token of kind `t`.
    fn emit(&mut self, t: TokenType)
        requires
            old(self).tokens_out().wf(),
            old(self).tokens_out().tokens().len() < u32::MAX,
        ensures
            final(self).tokens_out().wf(),
            kinds(final(self).tokens_out().tokens()) == kinds(old(self).tokens_out().tokens()).push(t),
            final(self).tokens_out().tokens().len() == old(self).tokens_out().tokens().len() + 1,
            final(self).tokens_out().index() == old(self).tokens_out().index(),
            final(self).input() == old(self).input(),
    {
        let tok = Token::new(t);
        self.output.push(tok);
        assert(kinds(self.output.tokens()) =~= kinds(old(self).output.tokens()).push(t));
    }

    /// Reads a comment's characters, as `skip_comment` says.
    fn read_comment(&mut self)
        requires
            old(self).input().wf(),
            skip_comment(old(self).input().chars(), old(self).input().index()) is Some,
        ensures
            final(self).input().wf(),
            final(self).input().chars() == old(self).input().chars(),
            final(self).input().index() == skip_comment(
                old(self).input().chars(),
                old(self).input().index(),
            ).unwrap(),
            final(self).tokens_out() == old(self).tokens_out(),
    {
        let ghost s = self.input.chars();
        let ghost end = skip_comment(s, self.input.index()).unwrap();
        loop
            invariant_except_break
                skip_comment(s, self.input.index()) == Some(end),
            invariant
                self.input.wf(),
                self.input.chars() == s,
                self.output == old(self).output,
            ensures
                self.input.index() == end,
            decreases s.len() - self.input.index(),
        {
            if !self.input.has_next() {
                break;
            }
            let c2 = self.input.next();
            if c2 == '\n' {
                break;
            }
            self.input.next();
        }
    }

    /// Reads the rest of a word and emits its `Text` tokens, as `word_tail`
    /// says.
    fn lex_word_tail(&mut self)
        requires
            old(self).input().wf(),
            old(self).tokens_out().wf(),
            word_tail(old(self).input().chars(), old(self).input().index()) is Some,
            old(self).tokens_out().tokens().len() + word_tail(
                old(self).input().chars(),
                old(self).input().index(),
            ).unwrap().1 < u32::MAX,
        ensures
            final(self).input().wf(),
            final(self).tokens_out().wf(),
            final(self).input().chars() == old(self).input().chars(),
            final(self).tokens_out().index() == old(self).tokens_out().index(),
            final(self).input().index() == word_tail(
                old(self).input().chars(),
                old(self).input().index(),
            ).unwrap().0,
            final(self).tokens_out().tokens().len() == old(self).tokens_out().tokens().len()
                + word_tail(old(self).input().chars(), old(self).input().index()).unwrap().1,
            kinds(final(self).tokens_out().tokens()) == kinds(old(self).tokens_out().tokens())
                + Seq::new(
                word_tail(old(self).input().chars(), old(self).input().index()).unwrap().1,
                |k: int| TokenType::Text,
            ),
    {
        let ghost s = self.input.chars();
        let ghost w = word_tail(s, self.input.index()).unwrap();
        let ghost before = kinds(self.output.tokens());
        let ghost before_len = self.output.tokens().len();
        let mut texts: u64 = 0;
        loop
            invariant_except_break
                word_tail(s, self.input.index()) matches Some(r) && r.0 == w.0 && r.1 + texts == w.1,
            invariant
                self.input.wf(),
                self.output.wf(),
                self.input.chars() == s,
                self.output.index() == old(self).output.index(),
                kinds(self.output.tokens()) == before + Seq::new(texts as nat, |k: int| TokenType::Text),
                self.output.tokens().len() == before_len + texts,
                before_len + w.1 < u32::MAX,
            ensures
                self.input.index() == w.0,
                texts == w.1,
            decreases s.len() - self.input.index(),
        {
            if !self.input.has_next() {
                break;
            }
            let c2 = self.input.next();
            if !word_char(c2) {
                break;
            }
            self.input.next();
            self.emit(TokenType::Text);
            texts = texts + 1;
            assert(kinds(self.output.tokens()) =~= before + Seq::new(texts as nat, |k: int| TokenType::Text));
        }
    }

    /// One round: reads the character at the read position and what
    /// follows it, and emits what `lex_step` says.
    fn lex_round(&mut self)
        requires
            old(self).input().wf(),
            old(self).tokens_out().wf(),
            old(self).input().chars().len() + 8 < u64::MAX,
            old(self).input().index() < old(self).input().chars().len(),
            lex_step(old(self).input().chars(), old(self).input().index()) is Some,
            old(self).tokens_out().tokens().len() + lex_step(
                old(self).input().chars(),
                old(self).input().index(),
            ).unwrap().1.len() < u32::MAX,
        ensures
            final(self).input().wf(),
            final(self).tokens_out().wf(),
            final(self).input().chars() == old(self).input().chars(),
            final(self).tokens_out().index() == old(self).tokens_out().index(),
            final(self).input().index() == lex_step(
                old(self).input().chars(),
                old(self).input().index(),
            ).unwrap().0,
            kinds(final(self).tokens_out().tokens()) == kinds(old(self).tokens_out().tokens())
                + lex_step(old(self).input().chars(), old(self).input().index()).unwrap().1,
    {
        let ghost s = self.input.chars();
        let ghost i = self.input.index();
        let ghost st = lex_step(s, i).unwrap();
        let ghost prev = kinds(self.output.tokens());
        let c = self.input.next();
        if c == ' ' || c == '\t' || c == '\n' || c == '\r' {
            assert(prev + st.1 =~= prev);
        } else if c == '#' {
            self.read_comment();
            assert(prev + st.1 =~= prev);
        } else if c == '>' {
            if self.input.has_next() {
                let la = self.input.lookahead(1);
                if la == '>' {
                    self.input.next();
                    self.emit(TokenType::RedirAppend);
                } else if la == '|' {
                    self.input.next();
                    self.emit(TokenType::ForceRedir);
                } else {
                    self.emit(TokenType::Redir);
                }
            }
            self.emit(TokenType::EOF);
        } else if c == '|' {
            self.emit(TokenType::Pipe);
            self.emit(TokenType::EOF);
        } else if c == '{' {
            self.emit(TokenType::LeftCurlyBrace);
            self.emit(TokenType::EOF);
        } else if c == '}' {
            self.emit(TokenType::RightCurlyBrace);
            self.emit(TokenType::EOF);
        } else if c == '[' || c == ']' || c == '(' || c == ')' {
            let double = self.input.probe_one(c, c, c);
            if double {
                self.input.next();
            }
            let t = if c == '[' {
                if double {
                    TokenType::LeftDoubleSquareBracket
                } else {
                    TokenType::LeftSquareBracket
                }
            } else if c == ']' {
                if double {
                    TokenType::RightDoubleSquareBracket
                } else {
                    TokenType::RightSquareBracket
                }
            } else if c == '(' {
                if double {
                    TokenType::LeftDoubleParen
                } else {
                    TokenType::LeftParen
                }
            } else {
                if double {
                    TokenType::RightDoubleParen
                } else {
                    TokenType::RightParen
                }
            };
            self.emit(t);
            self.emit(TokenType::EOF);
        } else if word_start(c) {
            match self.input.keyword_probe(c) {
                Some(hit) => {
                    self.input.advance(hit.1);
                    self.emit(hit.0);
                },
                None => {
                    self.lex_word_tail();
                },
            }
            self.emit(TokenType::EOF);
        } else {
            proof {
                assert(false);
            }
        }
        assert(kinds(self.output.tokens()) =~= prev + st.1);
    }

    /// Lexes the rest of the input: each round reads one character and
    /// emits what `lex_step` says, until the input is used up. The input
    /// must be one the lexer can go through: every character outside a
    /// comment known to it, and no look or read past the end.
    pub fn lex(&mut self)
        requires
            old(self).input().wf(),
            old(self).tokens_out().wf(),
            old(self).input().chars().len() + 8 < u64::MAX,
            lex_from(old(self).input().chars(), old(self).input().index()) is Some,
            old(self).tokens_out().tokens().len() + lex_from(
                old(self).input().chars(),
                old(self).input().index(),
            ).unwrap().len() < u32::MAX,
        ensures
            final(self).input().wf(),
            final(self).tokens_out().wf(),
            final(self).input().chars() == old(self).input().chars(),
            final(self).input().index() == old(self).input().chars().len(),
            final(self).tokens_out().index() == old(self).tokens_out().index(),
            kinds(final(self).tokens_out().tokens()) == kinds(old(self).tokens_out().tokens())
                + lex_from(old(self).input().chars(), old(self).input().index()).unwrap(),
    {
        let ghost s = self.input.chars();
        let ghost total = lex_from(s, self.input.index()).unwrap();
        let ghost base = kinds(self.output.tokens());
        while self.input.has_next()
            invariant
                self.input.wf(),
                self.output.wf(),
                self.input.chars() == s,
                s.len() + 8 < u64::MAX,
                lex_from(s, self.input.index()) is Some,
                kinds(self.output.tokens()) + lex_from(s, self.input.index()).unwrap() == base + total,
                base.len() + total.len() < u32::MAX,
                self.output.tokens().len() == kinds(self.output.tokens()).len(),
                self.output.index() == old(self).output.index(),
            decreases s.len() - self.input.index(),
        {
            let ghost i = self.input.index();
            let ghost st = lex_step(s, i).unwrap();
            let ghost prev = kinds(self.output.tokens());
            proof {
                assert(lex_step(s, i) is Some);
                assert(i < st.0 && st.0 <= s.len());
                assert(lex_from(s, i).unwrap() == st.1 + lex_from(s, st.0).unwrap());
                assert((prev + lex_from(s, i).unwrap()).len() == (base + total).len());
            }
            self.lex_round();
            proof {
                assert(kinds(self.output.tokens()) + lex_from(s, st.0).unwrap() =~= prev + (st.1
                    + lex_from(s, st.0).unwrap()));
            }
        }
        assert(lex_from(s, self.input.index()).unwrap() =~= Seq::<TokenType>::empty());
        assert(kinds(self.output.tokens()) =~= base + total);
    }

    /// A lexer over `input`, with no token produced yet.
    pub fn new(input: &str) -> (r: Self)
        requires
            input@.len() < u64::MAX,
        ensures
            r.input().wf(),
            r.input().chars() == input@,
            r.input().index() == 0,
            r.tokens_out().wf(),
            r.tokens_out().tokens() == Seq::<Token>::empty(),
            r.tokens_out().index() == 0,
    {
        Lexer { input: CharStream::from_text(input), output: TokenStream::new() }
    }
}

/// A token in its syntactic context, with the operands of an operator.
#[derive(Debug)]
pub struct ParsedToken {
    pub base_token: Token,
    pub left_operand: Option<Box<ParsedToken>>,
    pub right_operand: Option<Box<ParsedToken>>,
}

impl ParsedToken {
    /// A token with no operands.
    pub fn new(base_token: Token) -> (r: Self)
        ensures
            r.base_token == base_token,
            r.left_operand is None,
            r.right_operand is None,
    {
        ParsedToken { base_token, left_operand: None, right_operand: None }
    }

    /// A deep copy.
    pub fn duplicate(&self) -> (r: Self)
        ensures
            r == *self,
        decreases self,
    {
        let left = match &self.left_operand {
            Some(b) => Some(Box::new(b.duplicate())),
            None => None,
        };
        let right = match &self.right_operand {
            Some(b) => Some(Box::new(b.duplicate())),
            None => None,
        };
        ParsedToken { base_token: self.base_token, left_operand: left, right_operand: right }
    }
}

/// A stream of parsed tokens with a read position.
#[derive(Debug)]
pub struct ParsedTokenStream {
    tokens: Vec<ParsedToken>,
    index: u64,
}

impl ParsedTokenStream {
    /// The tokens, in order.
    pub closed spec fn tokens(&self) -> Seq<ParsedToken> {
        self.tokens@
    }

    /// The read position.
    pub closed spec fn index(&self) -> nat {
        self.index as nat
    }

    pub open spec fn wf(&self) -> bool {
        self.index() <= self.tokens().len()
    }

    /// An empty stream.
    pub fn new() -> (r: Self)
        ensures
            r.wf(),
            r.tokens() == Seq::<ParsedToken>::empty(),
            r.index() == 0,
    {
        ParsedTokenStream { tokens: Vec::new(), index: 0 }
    }

    /// Appends `tk`.
    pub fn push(&mut self, tk: ParsedToken)
        requires
            old(self).wf(),
        ensures
            final(self).wf(),
            final(self).tokens() == old(self).tokens().push(tk),
            final(self).index() == old(self).index(),
    {
        self.tokens.push(tk);
    }

    /// Reads the token at the read position and moves past it.
    pub fn next(&mut self) -> (r: ParsedToken)
        requires
            old(self).wf(),
            old(self).index() < old(self).tokens().len(),
        ensures
            final(self).wf(),
            r == old(self).tokens()[old(self).index() as int],
            final(self).index() == old(self).index() + 1,
            final(self).tokens() == old(self).tokens(),
    {
        let n: usize = self.tokens.len();
        let c = self.tokens[self.index as usize].duplicate();
        self.index = self.index + 1;
        c
    }

    /// Whether a token is left to read.
    pub fn has_next(&self) -> (r: bool)
        requires
            self.wf(),
        ensures
            r == (self.index() < self.tokens().len()),
    {
        let n: usize = self.tokens.len();
        self.index < n as u64
    }

    /// The token `index` places past the read position, without reading it.
    pub fn lookahead(&self, index: u64) -> (r: ParsedToken)
        requires
            self.wf(),
            self.index() + index < self.tokens().len(),
        ensures
            r == self.tokens()[self.index() + index],
    {
        let n: usize = self.tokens.len();
        self.tokens[(self.index + index) as usize].duplicate()
    }

    /// Sets the left operand of the token at position `index`.
    pub fn change_left_operand(&mut self, index: usize, left_op_tk: ParsedToken)
        requires
            old(self).wf(),
            index < old(self).tokens().len(),
        ensures
            final(self).wf(),
            final(self).index() == old(self).index(),
            final(self).tokens() == old(self).tokens().update(
                index as int,
                ParsedToken {
                    left_operand: Some(Box::new(left_op_tk)),
                    ..old(self).tokens()[index as int]
                },
            ),
    {
        let mut t = self.tokens.remove(index);
        t.left_operand = Some(Box::new(left_op_tk));
        self.tokens.insert(index, t);
        proof {
            assert(self.tokens() =~= old(self).tokens().update(
                index as int,
                ParsedToken {
                    left_operand: Some(Box::new(left_op_tk)),
                    ..old(self).tokens()[index as int]
                },
            ));
        }
    }

    /// Sets the right operand of the token at position `index`.
    pub fn change_right_operand(&mut self, index: usize, right_op_tk: ParsedToken)
        requires
            old(self).wf(),
            index < old(self).tokens().len(),
        ensures
            final(self).wf(),
            final(self).index() == old(self).index(),
            final(self).tokens() == old(self).tokens().update(
                index as int,
                ParsedToken {
                    right_operand: Some(Box::new(right_op_tk)),
                    ..old(self).tokens()[index as int]
                },
            ),
    {
        let mut t = self.tokens.remove(index);
        t.right_operand = Some(Box::new(right_op_tk));
        self.tokens.insert(index, t);
        proof {
            assert(self.tokens() =~= old(self).tokens().update(
                index as int,
                ParsedToken {
                    right_operand: Some(Box::new(right_op_tk)),
                    ..old(self).tokens()[index as int]
                },
            ));
        }
    }
}

/// Change in nesting depth over `toks`: one up for each `open`, one down for
/// each `close`.
pub open spec fn net_depth(toks: Seq<Token>, open: TokenType, close: TokenType) -> int
    decreases toks.len(),
{
    if toks.len() == 0 {
        0
    } else {
        let rest = net_depth(toks.drop_last(), open, close);
        let k = toks.last().kind();
        if k == open {
            rest + 1
        } else if k == close {
            rest - 1
        } else {
            rest
        }
    }
}

/// A nesting depth, for one kind of bracket.
pub struct NestingStack {
    stack: Vec<Token>,
    layer: i64,
}

impl NestingStack {
    pub closed spec fn depth(&self) -> int {
        self.layer as int
    }

    /// Depth zero.
    pub fn new() -> (r: Self)
        ensures
            r.depth() == 0,
    {
        NestingStack { stack: Vec::new(), layer: 0 }
    }

    /// One level deeper.
    pub fn push(&mut self)
        requires
            old(self).depth() < i64::MAX,
        ensures
            final(self).depth() == old(self).depth() + 1,
    {
        self.layer = self.layer + 1;
    }

    /// One level shallower.
    pub fn pop(&mut self)
        requires
            old(self).depth() > i64::MIN,
        ensures
            final(self).depth() == old(self).depth() - 1,
    {
        self.layer = self.layer - 1;
    }

    /// The current depth.
    pub fn peek(&self) -> (r: i64)
        ensures
            r as int == self.depth(),
    {
        self.layer
    }
}

/// The shell parser: reads the lexer's tokens and tracks the nesting of
/// braces, brackets, parentheses, double brackets and double parentheses.
pub struct Parser {
    lexer: Lexer,
    output: ParsedTokenStream,
    brace_stack: NestingStack,
    bracket_stack: NestingStack,
    paren_stack: NestingStack,
    double_bracket_stack: NestingStack,
    double_paren_stack: NestingStack,
}

impl Parser {
    /// The tokens being read.
    pub closed spec fn input(&self) -> TokenStream {
        self.lexer.tokens_out()
    }

    /// Depth of `{` `}`.
    pub closed spec fn braces(&self) -> int {
        self.brace_stack.depth()
    }

    /// Depth of `[` `]`.
    pub closed spec fn brackets(&self) -> int {
        self.bracket_stack.depth()
    }

    /// Depth of `(` `)`.
    pub closed spec fn parens(&self) -> int {
        self.paren_stack.depth()
    }

    /// Depth of `[[` `]]`.
    pub closed spec fn double_brackets(&self) -> int {
        self.double_bracket_stack.depth()
    }

    /// Depth of `((` `))`.
    pub closed spec fn double_parens(&self) -> int {
        self.double_paren_stack.depth()
    }

    /// Each depth changes by one token at most, so none exceeds the number
    /// of tokens read.
    pub open spec fn wf(&self) -> bool {
        &&& self.input().wf()
        &&& -(self.input().index() as int) <= self.braces() <= self.input().index()
        &&& -(self.input().index() as int) <= self.brackets() <= self.input().index()
        &&& -(self.input().index() as int) <= self.parens() <= self.input().index()
        &&& -(self.input().index() as int) <= self.double_brackets() <= self.input().index()
        &&& -(self.input().index() as int) <= self.double_parens() <= self.input().index()
    }

    /// A parser over the tokens of `lexer`, with every depth zero.
    pub fn new(lexer: Lexer) -> (r: Self)
        requires
            lexer.tokens_out().wf(),
        ensures
            r.wf(),
            r.input() == lexer.tokens_out(),
            r.braces() == 0,
            r.brackets() == 0,
            r.parens() == 0,
            r.double_brackets() == 0,
            r.double_parens() == 0,
    {
        Parser {
            lexer,
            output: ParsedTokenStream::new(),
            brace_stack: NestingStack::new(),
            bracket_stack: NestingStack::new(),
            paren_stack: NestingStack::new(),
            double_bracket_stack: NestingStack::new(),
            double_paren_stack: NestingStack::new(),
        }
    }

    /// Reads every remaining token and moves each depth by the brackets
    /// of its kind that open and close among them.
    pub fn parse(&mut self)
        requires
            old(self).wf(),
        ensures
            final(self).wf(),
            final(self).input().tokens() == old(self).input().tokens(),
            final(self).input().index() == old(self).input().tokens().len(),
            final(self).braces() == old(self).braces() + net_depth(Self::unread(*old(self)),
                TokenType::LeftCurlyBrace, TokenType::RightCurlyBrace),
            final(self).brackets() == old(self).brackets() + net_depth(Self::unread(*old(self)),
                TokenType::LeftSquareBracket, TokenType::RightSquareBracket),
            final(self).parens() == old(self).parens() + net_depth(Self::unread(*old(self)),
                TokenType::LeftParen, TokenType::RightParen),
            final(self).double_brackets() == old(self).double_brackets() + net_depth(
                Self::unread(*old(self)),
                TokenType::LeftDoubleSquareBracket,
                TokenType::RightDoubleSquareBracket,
            ),
            final(self).double_parens() == old(self).double_parens() + net_depth(
                Self::unread(*old(self)),
                TokenType::LeftDoubleParen,
                TokenType::RightDoubleParen,
            ),
    {
        let ghost toks = self.input().tokens();
        let ghost start = self.input().index() as int;
        while self.lexer.output.has_next()
            invariant
                self.wf(),
                self.input().tokens() == toks,
                0 <= start <= self.input().index(),
                start == old(self).input().index(),
                self.braces() == old(self).braces() + net_depth(toks.subrange(start, self.input().index() as int),
                    TokenType::LeftCurlyBrace, TokenType::RightCurlyBrace),
                self.brackets() == old(self).brackets() + net_depth(toks.subrange(start, self.input().index() as int),
                    TokenType::LeftSquareBracket, TokenType::RightSquareBracket),
                self.parens() == old(self).parens() + net_depth(toks.subrange(start, self.input().index() as int),
                    TokenType::LeftParen, TokenType::RightParen),
                self.double_brackets() == old(self).double_brackets() + net_depth(
                    toks.subrange(start, self.input().index() as int),
                    TokenType::LeftDoubleSquareBracket,
                    TokenType::RightDoubleSquareBracket,
                ),
                self.double_parens() == old(self).double_parens() + net_depth(
                    toks.subrange(start, self.input().index() as int),
                    TokenType::LeftDoubleParen,
                    TokenType::RightDoubleParen,
                ),
            decreases toks.len() - self.input().index(),
        {
            let ghost i = self.input().index() as int;
            assert(i < toks.len());
            let in_token = self.lexer.output.next();
            proof {
                assert(self.input().index() == i + 1);
                assert(self.input().tokens() == toks);
                assert(in_token == toks[i]);
                assert(toks.subrange(start, i + 1).drop_last() =~= toks.subrange(start, i));
                assert(toks.subrange(start, i + 1).last() == in_token);
            }
            match in_token.get_type() {
                TokenType::LeftCurlyBrace => {
                    self.brace_stack.push();
                },
                TokenType::RightCurlyBrace => {
                    self.brace_stack.pop();
                },
                TokenType::LeftSquareBracket => {
                    self.bracket_stack.push();
                },
                TokenType::RightSquareBracket => {
                    self.bracket_stack.pop();
                },
                TokenType::LeftParen => {
                    self.paren_stack.push();
                },
                TokenType::RightParen => {
                    self.paren_stack.pop();
                },
                TokenType::LeftDoubleSquareBracket => {
                    self.double_bracket_stack.push();
                },
                TokenType::RightDoubleSquareBracket => {
                    self.double_bracket_stack.pop();
                },
                TokenType::LeftDoubleParen => {
                    self.double_paren_stack.push();
                },
                TokenType::RightDoubleParen => {
                    self.double_paren_stack.pop();
                },
                _ => {},
            }
        }
    }

    /// The tokens not yet read.
    pub open spec fn unread(p: Self) -> Seq<Token> {
        p.input().tokens().subrange(p.input().index() as int, p.input().tokens().len() as int)
    }

    /// Current depth of `{` `}`.
    pub fn brace_depth(&self) -> (r: i64)
        ensures
            r as int == self.braces(),
    {
        self.brace_stack.peek()
    }

    /// Current depth of `[` `]`.
    pub fn bracket_depth(&self) -> (r: i64)
        ensures
            r as int == self.brackets(),
    {
        self.bracket_stack.peek()
    }

    /// Current depth of `(` `)`.
    pub fn paren_depth(&self) -> (r: i64)
        ensures
            r as int == self.parens(),
    {
        self.paren_stack.peek()
    }

    /// Current depth of `[[` `]]`.
    pub fn double_bracket_depth(&self) -> (r: i64)
        ensures
            r as int == self.double_brackets(),
    {
        self.double_bracket_stack.peek()
    }

    /// Current depth of `((` `))`.
    pub fn double_paren_depth(&self) -> (r: i64)
        ensures
            r as int == self.double_parens(),
    {
        self.double_paren_stack.peek()
    }
}

} // verus!
