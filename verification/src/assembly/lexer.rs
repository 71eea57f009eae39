//! The lexer: cuts the lines of a source text into typed tokens.
//!
//! Lines are read one at a time. Each is cut into lexemes, and each lexeme
//! takes the type of the first lexical pattern that matches it. Comments are
//! recognised and dropped; a lexeme that no pattern matches is an error.

use crate::assembly::patterns::{
    pattern_find_all,
    pattern_matches,
    regex_find_all,
    regex_is_match,
    texts,
    ANY_PATTERN,
    LEXICAL_RULES,
    NUM_RULES,
};
use crate::assembly::token::{token_views, Token, TokenType, TokenView};
use vstd::prelude::*;

verus! {

/// The reasons for which lexing stops.
#[derive(Debug)]
pub enum LexErr {
    /// No pattern matches this lexeme, found on this line.
    UnrecognizedLexeme(String, usize),
    /// The matching engine does not accept this pattern.
    InvalidPattern(String),
}

/// The mathematical content of a [`LexErr`].
pub enum LexErrView {
    UnrecognizedLexeme(Seq<char>, usize),
    InvalidPattern(Seq<char>),
}

impl View for LexErr {
    type V = LexErrView;

    open spec fn view(&self) -> LexErrView {
        match self {
            LexErr::UnrecognizedLexeme(lexeme, line) => LexErrView::UnrecognizedLexeme(
                lexeme@,
                *line,
            ),
            LexErr::InvalidPattern(pattern) => LexErrView::InvalidPattern(pattern@),
        }
    }
}

/// What the matching engine says of a lexeme, rule by rule: whether the
/// pattern of each lexical rule matches it.
pub open spec fn rule_outcomes(lexeme: Seq<char>) -> Seq<Option<bool>> {
    Seq::new(NUM_RULES as nat, |i: int| regex_is_match(LEXICAL_RULES@[i].0@, lexeme))
}

/// The type that the outcomes of the rules from the `i`-th on give: that of
/// the first rule whose pattern has matched. `Ok(None)` if none has; an error
/// if the engine has refused a pattern before one has.
pub open spec fn type_from(outcomes: Seq<Option<bool>>, i: int) -> Result<
    Option<TokenType>,
    LexErrView,
>
    decreases outcomes.len() - i,
{
    if i < 0 || i >= outcomes.len() || i >= NUM_RULES {
        Ok(None)
    } else {
        match outcomes[i] {
            Some(true) => Ok(Some(LEXICAL_RULES@[i].1)),
            Some(false) => type_from(outcomes, i + 1),
            None => Err(LexErrView::InvalidPattern(LEXICAL_RULES@[i].0@)),
        }
    }
}

/// The type of a lexeme: that of the first lexical rule whose pattern
/// matches it.
pub open spec fn spec_lexeme_type(lexeme: Seq<char>) -> Result<Option<TokenType>, LexErrView> {
    type_from(rule_outcomes(lexeme), 0)
}

/// What becomes of a lexeme of a known type on a line: nothing if it is a
/// comment, a token if it has another type, an error if it has none.
pub open spec fn token_from(lexeme: Seq<char>, token_type: Option<TokenType>, line: usize)
    -> Result<Option<TokenView>, LexErrView> {
    match token_type {
        Some(TokenType::Comment) => Ok(None),
        Some(token_type) => Ok(Some(TokenView { token_type, lexeme, line })),
        None => Err(LexErrView::UnrecognizedLexeme(lexeme, line)),
    }
}

/// The outcomes up to the first that decides give the type that all
/// outcomes give.
proof fn lemma_decisive_prefix(outcomes: Seq<Option<bool>>, n: int, k: int)
    requires
        0 <= k <= n <= outcomes.len(),
        k < n || n == outcomes.len(),
        n == outcomes.len() || outcomes[n - 1] != Some(false),
    ensures
        type_from(outcomes.take(n), k) == type_from(outcomes, k),
    decreases n - k,
{
    if k < n && k < NUM_RULES {
        assert(outcomes.take(n)[k] == outcomes[k]);
        if outcomes[k] == Some(false) {
            lemma_decisive_prefix(outcomes, n, k + 1);
        }
    }
}

/// The lexemes of a line.
pub open spec fn line_lexemes(line: Seq<char>) -> Result<Seq<Seq<char>>, LexErrView> {
    match regex_find_all(ANY_PATTERN@, line) {
        Some(lexemes) => Ok(lexemes),
        None => Err(LexErrView::InvalidPattern(ANY_PATTERN@)),
    }
}

/// The mathematical content of a [`Lexer`].
pub struct LexerView {
    /// All lines of the source.
    pub lines: Seq<Seq<char>>,
    /// Number of lines read so far, which is the number of the current line.
    pub line_index: nat,
    /// The lexemes of the current line that have not been handed out.
    pub pending: Seq<Seq<char>>,
}

impl LexerView {
    /// Whether the lexer has read no more lines than there are.
    pub open spec fn wf(self) -> bool {
        self.line_index <= self.lines.len()
    }

    /// A lexer with one lexeme less.
    pub open spec fn without_first_lexeme(self) -> LexerView {
        LexerView { pending: self.pending.drop_first(), ..self }
    }

    /// A lexer with one more line read.
    pub open spec fn with_next_line(self, lexemes: Seq<Seq<char>>) -> LexerView {
        LexerView { line_index: self.line_index + 1, pending: lexemes, ..self }
    }

    /// What the lexer hands out next, and the lexer afterwards: the next
    /// token that is no comment, `None` at the end of the source, or the error
    /// of the next lexeme.
    pub open spec fn next(self) -> (Result<Option<TokenView>, LexErrView>, LexerView)
        decreases self.lines.len() - self.line_index, self.pending.len(),
    {
        if self.pending.len() > 0 {
            let lexeme = self.pending[0];
            let after = self.without_first_lexeme();
            match spec_lexeme_type(lexeme) {
                Ok(Some(TokenType::Comment)) => after.next(),
                Ok(Some(token_type)) => (
                    Ok(Some(TokenView { token_type, lexeme, line: self.line_index as usize })),
                    after,
                ),
                Ok(None) => (
                    Err(LexErrView::UnrecognizedLexeme(lexeme, self.line_index as usize)),
                    after,
                ),
                Err(e) => (Err(e), after),
            }
        } else if self.line_index < self.lines.len() {
            match line_lexemes(self.lines[self.line_index as int]) {
                Ok(lexemes) => self.with_next_line(lexemes).next(),
                Err(e) => (Err(e), self.with_next_line(self.pending)),
            }
        } else {
            (Ok(None), self)
        }
    }

    /// All tokens that the lexer has yet to hand out, or the first error on
    /// the way.
    pub open spec fn tokens(self) -> Result<Seq<TokenView>, LexErrView>
        decreases self.lines.len() - self.line_index, self.pending.len(),
    {
        if self.pending.len() > 0 {
            let lexeme = self.pending[0];
            match (spec_lexeme_type(lexeme), self.without_first_lexeme().tokens()) {
                (Ok(Some(TokenType::Comment)), rest) => rest,
                (Ok(Some(token_type)), Ok(rest)) => Ok(
                    seq![TokenView { token_type, lexeme, line: self.line_index as usize }] + rest,
                ),
                (Ok(Some(_)), Err(e)) => Err(e),
                (Ok(None), _) => Err(
                    LexErrView::UnrecognizedLexeme(lexeme, self.line_index as usize),
                ),
                (Err(e), _) => Err(e),
            }
        } else if self.line_index < self.lines.len() {
            match line_lexemes(self.lines[self.line_index as int]) {
                Ok(lexemes) => self.with_next_line(lexemes).tokens(),
                Err(e) => Err(e),
            }
        } else {
            Ok(Seq::empty())
        }
    }

    /// Comments are recognised and dropped: no token that the lexer hands
    /// out is a comment, and each carries the number of a line of the source
    /// that had not been left behind.
    pub proof fn lemma_comments_are_dropped(self)
        requires
            self.wf(),
            self.lines.len() <= usize::MAX,
        ensures
            self.tokens() matches Ok(tokens) ==> forall|i: int|
                0 <= i < tokens.len() ==> (#[trigger] tokens[i]).token_type != TokenType::Comment
                    && self.line_index <= tokens[i].line <= self.lines.len(),
        decreases self.lines.len() - self.line_index, self.pending.len(),
    {
        if self.pending.len() > 0 {
            let rest = self.without_first_lexeme();
            rest.lemma_comments_are_dropped();
            match (self.tokens(), rest.tokens()) {
                (Ok(tokens), Ok(others)) => {
                    assert forall|i: int| 0 <= i < tokens.len() implies (#[trigger] tokens[i]).token_type
                        != TokenType::Comment && self.line_index <= tokens[i].line
                        <= self.lines.len() by {
                        if tokens.len() > others.len() && i > 0 {
                            assert(tokens[i] == others[i - 1]);
                        }
                    }
                },
                _ => {},
            }
        } else if self.line_index < self.lines.len() {
            match line_lexemes(self.lines[self.line_index as int]) {
                Ok(lexemes) => {
                    self.with_next_line(lexemes).lemma_comments_are_dropped();
                },
                Err(_) => {},
            }
        }
    }

    /// Handing out a token uses up a lexeme or a line, and never gives one
    /// back.
    pub proof fn lemma_next_consumes(self)
        requires
            self.wf(),
        ensures
            self.next().1.wf(),
            self.next().1.lines == self.lines,
            self.next().1.line_index >= self.line_index,
            self.next().0 is Ok && self.next().0->Ok_0 is Some ==> self.next().1.line_index
                > self.line_index || self.next().1.pending.len() < self.pending.len(),
        decreases self.lines.len() - self.line_index, self.pending.len(),
    {
        if self.pending.len() > 0 {
            if spec_lexeme_type(self.pending[0]) == Ok::<Option<TokenType>, LexErrView>(
                Some(TokenType::Comment),
            ) {
                self.without_first_lexeme().lemma_next_consumes();
            }
        } else if self.line_index < self.lines.len() {
            match line_lexemes(self.lines[self.line_index as int]) {
                Ok(lexemes) => {
                    self.with_next_line(lexemes).lemma_next_consumes();
                },
                Err(_) => {},
            }
        }
    }

    /// Handing out tokens one by one gives the tokens of the whole: the next
    /// token is the first of them, the end of the source is their end, and
    /// the next error is their error.
    pub proof fn lemma_next_is_first_token(self)
        ensures
            match self.next() {
                (Ok(Some(token)), after) => self.tokens() == match after.tokens() {
                    Ok(rest) => Ok::<Seq<TokenView>, LexErrView>(seq![token] + rest),
                    Err(e) => Err(e),
                },
                (Ok(None), _) => self.tokens() == Ok::<Seq<TokenView>, LexErrView>(Seq::empty()),
                (Err(e), _) => self.tokens() == Err::<Seq<TokenView>, LexErrView>(e),
            },
        decreases self.lines.len() - self.line_index, self.pending.len(),
    {
        if self.pending.len() > 0 {
            if spec_lexeme_type(self.pending[0]) == Ok::<Option<TokenType>, LexErrView>(
                Some(TokenType::Comment),
            ) {
                self.without_first_lexeme().lemma_next_is_first_token();
            }
        } else if self.line_index < self.lines.len() {
            match line_lexemes(self.lines[self.line_index as int]) {
                Ok(lexemes) => {
                    self.with_next_line(lexemes).lemma_next_is_first_token();
                },
                Err(_) => {},
            }
        }
    }
}

/// The tokens of a source text given by its lines, numbered from 1, or the
/// first error on the way.
pub open spec fn lex(lines: Seq<Seq<char>>) -> Result<Seq<TokenView>, LexErrView> {
    LexerView { lines, line_index: 0, pending: Seq::empty() }.tokens()
}

/// A lexer over the lines of a source text.
pub struct Lexer {
    lines: Vec<String>,
    unprocessed_lexeme: Vec<String>,
    lexeme_index: usize,
    line_index: usize,
}

impl View for Lexer {
    type V = LexerView;

    closed spec fn view(&self) -> LexerView {
        LexerView {
            lines: texts(self.lines@),
            line_index: self.line_index as nat,
            pending: texts(self.unprocessed_lexeme@).subrange(
                self.lexeme_index as int,
                self.unprocessed_lexeme@.len() as int,
            ),
        }
    }
}

impl Lexer {
    #[verifier::type_invariant]
    spec fn positions_in_range(&self) -> bool {
        &&& self.line_index <= self.lines@.len()
        &&& self.lexeme_index <= self.unprocessed_lexeme@.len()
    }

    /// A lexer at the start of a source text.
    pub fn new(lines: Vec<String>) -> (lexer: Self)
        ensures
            lexer@ == (LexerView { lines: texts(lines@), line_index: 0, pending: Seq::empty() }),
    {
        let lexer = Self { lines, unprocessed_lexeme: Vec::new(), lexeme_index: 0, line_index: 0 };
        assert(lexer@.pending =~= Seq::empty());
        lexer
    }

    /// Cuts a line into lexemes, which take the place of the pending ones.
    pub fn split_line_into_lexeme(&mut self, line: &String) -> (cut: Result<(), LexErr>)
        ensures
            final(self)@.lines == old(self)@.lines,
            final(self)@.line_index == old(self)@.line_index,
            match line_lexemes(line@) {
                Ok(lexemes) => cut is Ok && final(self)@.pending == lexemes,
                Err(e) => cut matches Err(found) && found@ == e && final(self)@.pending
                    == old(self)@.pending,
            },
    {
        proof {
            use_type_invariant(&*self);
        }
        match pattern_find_all(ANY_PATTERN, line.as_str()) {
            Some(lexemes) => {
                self.lexeme_index = 0;
                self.unprocessed_lexeme = lexemes;
                assert(self@.pending =~= texts(lexemes@));
                Ok(())
            },
            None => Err(LexErr::InvalidPattern(ANY_PATTERN.to_owned())),
        }
    }

    /// The next line of the source, if there is one.
    pub fn next_line(&mut self) -> (line: Option<String>)
        ensures
            final(self)@.lines == old(self)@.lines,
            final(self)@.pending == old(self)@.pending,
            old(self)@.wf(),
            match line {
                Some(text) => old(self)@.line_index < old(self)@.lines.len() && text@
                    == old(self)@.lines[old(self)@.line_index as int] && final(self)@.line_index
                    == old(self)@.line_index + 1,
                None => old(self)@.line_index == old(self)@.lines.len() && final(self)@
                    == old(self)@,
            },
    {
        proof {
            use_type_invariant(&*self);
        }
        if self.line_index >= self.lines.len() {
            return None;
        }
        let s = self.lines[self.line_index].clone();
        self.line_index += 1;
        Some(s)
    }

    /// The next pending lexeme, if there is one.
    pub fn next_lexeme(&mut self) -> (lexeme: Option<String>)
        ensures
            final(self)@.lines == old(self)@.lines,
            final(self)@.line_index == old(self)@.line_index,
            match lexeme {
                Some(text) => old(self)@.pending.len() > 0 && text@ == old(self)@.pending[0]
                    && final(self)@ == old(self)@.without_first_lexeme(),
                None => old(self)@.pending.len() == 0 && final(self)@ == old(self)@,
            },
    {
        proof {
            use_type_invariant(&*self);
        }
        if self.lexeme_index >= self.unprocessed_lexeme.len() {
            return None;
        }
        let lexeme = self.unprocessed_lexeme[self.lexeme_index].clone();
        self.lexeme_index += 1;
        assert(self@.pending =~= old(self)@.pending.drop_first());
        Some(lexeme)
    }

    /// The type that the outcomes of the lexical rules give, one outcome per
    /// rule in the order of the rules: that of the first rule whose pattern
    /// has matched, `None` if none has.
    pub fn rule_type(outcomes: &[Option<bool>]) -> (token_type: Result<Option<TokenType>, LexErr>)
        ensures
            match type_from(outcomes@, 0) {
                Ok(expected) => token_type matches Ok(found) && found == expected,
                Err(e) => token_type matches Err(found) && found@ == e,
            },
    {
        let mut i: usize = 0;
        while i < outcomes.len() && i < NUM_RULES
            invariant
                i <= outcomes@.len(),
                i <= NUM_RULES,
                type_from(outcomes@, i as int) == type_from(outcomes@, 0),
            decreases outcomes@.len() - i,
        {
            match outcomes[i] {
                Some(true) => return Ok(Some(LEXICAL_RULES[i].1)),
                Some(false) => {},
                None => return Err(LexErr::InvalidPattern(LEXICAL_RULES[i].0.to_owned())),
            }
            i += 1;
        }
        Ok(None)
    }

    /// What becomes of a lexeme of a known type on a line: nothing if it is
    /// a comment, a token if it has another type, an error if it has none.
    pub fn token_of(lexeme: String, token_type: Option<TokenType>, line: usize) -> (token: Result<
        Option<Token>,
        LexErr,
    >)
        ensures
            match token_from(lexeme@, token_type, line) {
                Ok(Some(expected)) => token matches Ok(Some(found)) && found@ == expected,
                Ok(None) => token matches Ok(None),
                Err(e) => token matches Err(found) && found@ == e,
            },
    {
        match token_type {
            Some(TokenType::Comment) => Ok(None),
            Some(token_type) => Ok(Some(Token { lexeme, token_type, line })),
            None => Err(LexErr::UnrecognizedLexeme(lexeme, line)),
        }
    }

    /// The type of a lexeme: that of the first lexical rule whose pattern
    /// matches it, `None` if none does. The rules are tried in order, up to
    /// the first that decides.
    pub fn lexeme_type(lexeme: &String) -> (token_type: Result<Option<TokenType>, LexErr>)
        ensures
            match spec_lexeme_type(lexeme@) {
                Ok(expected) => token_type matches Ok(found) && found == expected,
                Err(e) => token_type matches Err(found) && found@ == e,
            },
    {
        let mut outcomes: Vec<Option<bool>> = Vec::new();
        let mut undecided = true;
        while undecided && outcomes.len() < NUM_RULES
            invariant
                outcomes@.len() <= NUM_RULES,
                outcomes@ == rule_outcomes(lexeme@).take(outcomes@.len() as int),
                !undecided ==> outcomes@.len() > 0 && outcomes@.last() != Some(false),
            decreases
                    NUM_RULES - outcomes@.len() + if undecided {
                        1int
                    } else {
                        0int
                    },
        {
            let rule = outcomes.len();
            let outcome = pattern_matches(LEXICAL_RULES[rule].0, lexeme.as_str());
            undecided = matches!(outcome, Some(false));
            outcomes.push(outcome);
            assert(outcomes@ =~= rule_outcomes(lexeme@).take(outcomes@.len() as int));
        }
        proof {
            lemma_decisive_prefix(rule_outcomes(lexeme@), outcomes@.len() as int, 0);
        }
        Self::rule_type(outcomes.as_slice())
    }

    /// Hands out the next token that is no comment; `None` at the end of the
    /// source.
    pub fn next(&mut self) -> (token: Result<Option<Token>, LexErr>)
        ensures
            final(self)@ == old(self)@.next().1,
            match old(self)@.next().0 {
                Ok(Some(expected)) => token matches Ok(Some(found)) && found@ == expected,
                Ok(None) => token matches Ok(None),
                Err(e) => token matches Err(found) && found@ == e,
            },
    {
        loop
            invariant
                self@.next() == old(self)@.next(),
            decreases self@.lines.len() - self@.line_index, self@.pending.len(),
        {
            match self.next_lexeme() {
                Some(l) => {
                    let token_type = match Self::lexeme_type(&l) {
                        Ok(token_type) => token_type,
                        Err(e) => return Err(e),
                    };
                    match Self::token_of(l, token_type, self.line_index) {
                        Ok(None) => continue,
                        Ok(Some(token)) => return Ok(Some(token)),
                        Err(e) => return Err(e),
                    }
                },
                None => {
                    let line = match self.next_line() {
                        Some(l) => l,
                        None => return Ok(None),
                    };
                    match self.split_line_into_lexeme(&line) {
                        Ok(_) => {},
                        Err(e) => return Err(e),
                    }
                },
            }
        }
    }

    /// Hands out all tokens that are left, up to the end of the source or
    /// the first error.
    pub fn tokenize(self) -> (tokens: Result<Vec<Token>, LexErr>)
        ensures
            match self@.tokens() {
                Ok(expected) => tokens matches Ok(found) && token_views(found@) == expected,
                Err(e) => tokens matches Err(found) && found@ == e,
            },
    {
        let mut lexer = self;
        let mut tokens: Vec<Token> = Vec::new();
        assert(token_views(tokens@) =~= Seq::empty());
        loop
            invariant
                match lexer@.tokens() {
                    Ok(rest) => self@.tokens() == Ok::<Seq<TokenView>, LexErrView>(
                        token_views(tokens@) + rest,
                    ),
                    Err(e) => self@.tokens() == Err::<Seq<TokenView>, LexErrView>(e),
                },
            decreases lexer@.lines.len() - lexer@.line_index, lexer@.pending.len(),
        {
            proof {
                use_type_invariant(&lexer);
                lexer@.lemma_next_is_first_token();
                lexer@.lemma_next_consumes();
            }
            let ghost before = token_views(tokens@);
            match lexer.next() {
                Ok(Some(token)) => {
                    tokens.push(token);
                    proof {
                        assert(token_views(tokens@) =~= before + seq![token@]);
                        match lexer@.tokens() {
                            Ok(rest) => {
                                assert(before + (seq![token@] + rest) =~= token_views(tokens@)
                                    + rest);
                            },
                            Err(_) => {},
                        }
                    }
                },
                Ok(None) => {
                    assert(token_views(tokens@) + Seq::<TokenView>::empty() =~= token_views(
                        tokens@,
                    ));
                    return Ok(tokens);
                },
                Err(e) => return Err(e),
            }
        }
    }
}

} // verus!
