//! Lexical scanning: source text to an ordered sequence of tokens.
use vstd::prelude::*;

verus! {

/// The closed set of token kinds.
#[derive(Clone, Copy, Debug, PartialEq, Eq, Structural)]
pub enum TokenType {
    // grouping
    LeftParen,
    RightParen,
    LeftBrace,
    RightBrace,
    // markers
    SemiColon,
    Colon,
    Equal,
    Dot,
    Comma,
    Star,
    // operators
    Less,
    Greater,
    Bang,
    BangEqual,
    EqualEqual,
    LessEqual,
    GreaterEqual,
    Minus,
    Div,
    // others
    Comment,
    StringLiteral,
    Number,
    Identifier,
    Keyword,
    // end of input
    EoF,
}

/// The name of a token kind, as shown in diagnostics.
pub open spec fn kind_name(t: TokenType) -> Seq<char> {
    match t {
        TokenType::LeftParen => "LEFT_PAREN"@,
        TokenType::RightParen => "RIGHT_PAREN"@,
        TokenType::LeftBrace => "LEFT_BRACE"@,
        TokenType::RightBrace => "RIGHT_BRACE"@,
        TokenType::SemiColon => "SEMICOLON"@,
        TokenType::Colon => "COLON"@,
        TokenType::Equal => "EQUAL"@,
        TokenType::Dot => "DOT"@,
        TokenType::Comma => "COMMA"@,
        TokenType::Star => "STAR"@,
        TokenType::Less => "LESS"@,
        TokenType::Greater => "GREATER"@,
        TokenType::Bang => "BANG"@,
        TokenType::BangEqual => "BANG_EQUAL"@,
        TokenType::EqualEqual => "EQUAL_EQUAL"@,
        TokenType::LessEqual => "LESS_EQUAL"@,
        TokenType::GreaterEqual => "GREATER_EQUAL"@,
        TokenType::Minus => "MINUS"@,
        TokenType::Div => "DIV"@,
        TokenType::Comment => "COMMENT"@,
        TokenType::StringLiteral => "STRING_LITERAL"@,
        TokenType::Number => "NUMBER"@,
        TokenType::Identifier => "IDENTIFIER"@,
        TokenType::Keyword => "KEYWORD"@,
        TokenType::EoF => "EOF"@,
    }
}

impl TokenType {
    /// The kind's name, as shown in diagnostics.
    pub fn name(&self) -> (r: &'static str)
        ensures
            r@ == kind_name(*self),
    {
        match self {
            TokenType::LeftParen => "LEFT_PAREN",
            TokenType::RightParen => "RIGHT_PAREN",
            TokenType::LeftBrace => "LEFT_BRACE",
            TokenType::RightBrace => "RIGHT_BRACE",
            TokenType::SemiColon => "SEMICOLON",
            TokenType::Colon => "COLON",
            TokenType::Equal => "EQUAL",
            TokenType::Dot => "DOT",
            TokenType::Comma => "COMMA",
            TokenType::Star => "STAR",
            TokenType::Less => "LESS",
            TokenType::Greater => "GREATER",
            TokenType::Bang => "BANG",
            TokenType::BangEqual => "BANG_EQUAL",
            TokenType::EqualEqual => "EQUAL_EQUAL",
            TokenType::LessEqual => "LESS_EQUAL",
            TokenType::GreaterEqual => "GREATER_EQUAL",
            TokenType::Minus => "MINUS",
            TokenType::Div => "DIV",
            TokenType::Comment => "COMMENT",
            TokenType::StringLiteral => "STRING_LITERAL",
            TokenType::Number => "NUMBER",
            TokenType::Identifier => "IDENTIFIER",
            TokenType::Keyword => "KEYWORD",
            TokenType::EoF => "EOF",
        }
    }

    /// The kind as shown beside a token: `tok: NAME`.
    pub fn show(&self) -> (r: String)
        ensures
            r@ == "tok: "@ + kind_name(*self),
    {
        let mut s = String::from_str("tok: ");
        s.append(self.name());
        s
    }
}

/// What a token is, as mathematical values.
pub struct TokenView {
    pub kind: TokenType,
    pub lexeme: Seq<char>,
    pub literal: Option<Seq<char>>,
    pub line: nat,
    pub column: nat,
}

/// The characters of an optional string.
pub open spec fn opt_view(o: Option<String>) -> Option<Seq<char>> {
    match o {
        Some(s) => Some(s@),
        None => None,
    }
}

/// A token: its kind, the exact source text, an optional literal value
/// (a string without its quotes, a number's digits, a word), and where it starts.
pub struct Token {
    pub token_type: TokenType,
    pub lexeme: String,
    pub literal: Option<String>,
    pub line_no: usize,
    pub column_no: usize,
}

impl View for Token {
    type V = TokenView;

    open spec fn view(&self) -> TokenView {
        TokenView {
            kind: self.token_type,
            lexeme: self.lexeme@,
            literal: opt_view(self.literal),
            line: self.line_no as nat,
            column: self.column_no as nat,
        }
    }
}

impl Token {
    pub fn new(
        token_type: TokenType,
        lexeme: String,
        literal: Option<String>,
        line_no: usize,
        column_no: usize,
    ) -> (r: Self)
        ensures
            r.token_type == token_type,
            r.lexeme == lexeme,
            r.literal == literal,
            r.line_no == line_no,
            r.column_no == column_no,
    {
        Token { token_type, lexeme, literal, line_no, column_no }
    }
}


/// The reserved words: the deployment keyword and the instance keyword (each
/// in two spellings, see the parser), and the attribute names. A word of the
/// source is a `Keyword` exactly when it is one of these.
pub open spec fn is_reserved(w: Seq<char>) -> bool {
    ||| w == "aws"@
    ||| w == "deployment"@
    ||| w == "ec2"@
    ||| w == "instance"@
    ||| w == "name"@
    ||| w == "description"@
    ||| w == "count"@
    ||| w == "app_version"@
    ||| w == "ami"@
    ||| w == "subnet_id"@
    ||| w == "instance_type"@
    ||| w == "sg_id"@
    ||| w == "key_name"@
    ||| w == "region"@
}

/// Whether `word` is exactly `kw`.
pub fn word_is(word: &String, kw: &str) -> (r: bool)
    ensures
        r == (word@ == kw@),
{
    *word == String::from_str(kw)
}

/// Exact lookup of a word in the reserved set.
pub fn is_keyword(word: &String) -> (r: bool)
    ensures
        r == is_reserved(word@),
{
    word_is(word, "aws") || word_is(word, "deployment") || word_is(word, "ec2") || word_is(
        word,
        "instance",
    ) || word_is(word, "name") || word_is(word, "description") || word_is(word, "count")
        || word_is(word, "app_version") || word_is(word, "ami") || word_is(word, "subnet_id") || word_is(word, "instance_type")
        || word_is(word, "sg_id") || word_is(word, "key_name") || word_is(word, "region")
}


/// A decimal digit: the first character of a number.
pub open spec fn is_digit(c: char) -> bool {
    '0' <= c && c <= '9'
}

/// A letter or an underscore: the first character of a word. Letters and
/// digits are those of ASCII: the reserved words are ASCII, and any other
/// character that begins no token is reported as unexpected.
pub open spec fn is_word_start(c: char) -> bool {
    ('a' <= c && c <= 'z') || ('A' <= c && c <= 'Z') || c == '_'
}

/// A character that may continue a word.
pub open spec fn is_word_char(c: char) -> bool {
    is_word_start(c) || is_digit(c)
}

/// The runs of characters that the scanner consumes as one piece.
#[derive(Clone, Copy, Debug, PartialEq, Eq, Structural)]
pub enum Run {
    /// the rest of a word
    Word,
    /// digits and decimal points
    Number,
    /// everything up to the newline (a carriage return is part of the line)
    LineRest,
    /// the inside of a string literal
    StringBody,
    /// decimal digits alone
    Digits,
}

/// Whether `c` continues a run of kind `run`.
pub open spec fn in_run(run: Run, c: char) -> bool {
    match run {
        Run::Word => is_word_char(c),
        Run::Number => is_digit(c) || c == '.',
        Run::LineRest => c != '\n',
        Run::StringBody => c != '"',
        Run::Digits => is_digit(c),
    }
}

/// Where the longest run of `run` characters that starts at `i` ends.
pub open spec fn run_end(s: Seq<char>, i: int, run: Run) -> int
    decreases s.len() - i,
{
    if 0 <= i < s.len() && in_run(run, s[i]) {
        run_end(s, i + 1, run)
    } else {
        i
    }
}

/// A run ends within the text, holds only its own characters, and stops at one that is not.
pub proof fn lemma_run_end(s: Seq<char>, i: int, run: Run)
    requires
        0 <= i <= s.len(),
    ensures
        i <= run_end(s, i, run) <= s.len(),
        forall|k: int| i <= k < run_end(s, i, run) ==> in_run(run, #[trigger] s[k]),
        run_end(s, i, run) < s.len() ==> !in_run(run, s[run_end(s, i, run)]),
    decreases s.len() - i,
{
    if i < s.len() && in_run(run, s[i]) {
        lemma_run_end(s, i + 1, run);
    }
}

/// The line (counted from 1) of position `p`: one more than the newlines before it.
pub open spec fn line_at(s: Seq<char>, p: int) -> nat
    decreases p,
{
    if p <= 0 {
        1
    } else if s[p - 1] == '\n' {
        line_at(s, p - 1) + 1
    } else {
        line_at(s, p - 1)
    }
}

/// The column (counted from 0) of position `p`: how many characters of its line precede it.
pub open spec fn column_at(s: Seq<char>, p: int) -> nat
    decreases p,
{
    if p <= 0 {
        0
    } else if s[p - 1] == '\n' {
        0
    } else {
        column_at(s, p - 1) + 1
    }
}

/// Lines and columns stay below the offset that they describe (plus one for the line).
pub proof fn lemma_position_bounds(s: Seq<char>, p: int)
    requires
        0 <= p,
    ensures
        line_at(s, p) <= p + 1,
        column_at(s, p) <= p,
    decreases p,
{
    if p > 0 {
        lemma_position_bounds(s, p - 1);
    }
}

/// Why a character could not be scanned.
#[derive(Clone, Copy, Debug, PartialEq, Eq, Structural)]
pub enum ScanErrorKind {
    /// a character that begins no token
    UnexpectedChar(char),
    /// a string literal with no closing quote
    UnterminatedString,
}

pub struct ScanErrorView {
    pub kind: ScanErrorKind,
    pub line: nat,
    pub column: nat,
}

/// A scan diagnostic: what went wrong and where the offending text starts.
#[derive(Clone, Copy, Debug)]
pub struct ScanError {
    pub kind: ScanErrorKind,
    pub line_no: usize,
    pub column_no: usize,
}

impl View for ScanError {
    type V = ScanErrorView;

    open spec fn view(&self) -> ScanErrorView {
        ScanErrorView { kind: self.kind, line: self.line_no as nat, column: self.column_no as nat }
    }
}

/// The kind of a one-character token.
pub open spec fn single_kind(c: char) -> Option<TokenType> {
    if c == '(' {
        Some(TokenType::LeftParen)
    } else if c == ')' {
        Some(TokenType::RightParen)
    } else if c == '{' {
        Some(TokenType::LeftBrace)
    } else if c == '}' {
        Some(TokenType::RightBrace)
    } else if c == ';' {
        Some(TokenType::SemiColon)
    } else if c == ':' {
        Some(TokenType::Colon)
    } else if c == '.' {
        Some(TokenType::Dot)
    } else if c == ',' {
        Some(TokenType::Comma)
    } else if c == '*' {
        Some(TokenType::Star)
    } else if c == '-' {
        Some(TokenType::Minus)
    } else {
        None
    }
}

/// For an operator that may be followed by `=`: its kind alone and its kind with `=`.
pub open spec fn pair_kinds(c: char) -> Option<(TokenType, TokenType)> {
    if c == '<' {
        Some((TokenType::Less, TokenType::LessEqual))
    } else if c == '>' {
        Some((TokenType::Greater, TokenType::GreaterEqual))
    } else if c == '!' {
        Some((TokenType::Bang, TokenType::BangEqual))
    } else if c == '=' {
        Some((TokenType::Equal, TokenType::EqualEqual))
    } else {
        None
    }
}

/// Text that separates tokens and is dropped.
pub open spec fn is_blank(c: char) -> bool {
    c == ' ' || c == '\t' || c == '\r' || c == '\n'
}

/// One step of the scanner from position `i`.
pub enum Step {
    /// a token of this kind and literal, which ends at the position given
    Emit(TokenType, Option<Seq<char>>, int),
    /// blank text, which ends at the position given
    Skip(int),
    /// a diagnostic; scanning resumes at the position given
    Fail(ScanErrorKind, int),
}

/// Where the text that a step consumes ends.
pub open spec fn step_end(st: Step) -> int {
    match st {
        Step::Emit(_, _, e) => e,
        Step::Skip(e) => e,
        Step::Fail(_, e) => e,
    }
}

/// A word is a keyword when it is reserved, else an identifier.
pub open spec fn word_kind(w: Seq<char>) -> TokenType {
    if is_reserved(w) {
        TokenType::Keyword
    } else {
        TokenType::Identifier
    }
}

/// What the scanner does with the text that starts at position `i` of `s`.
pub open spec fn step_at(s: Seq<char>, i: int) -> Step {
    let c = s[i];
    if single_kind(c) is Some {
        Step::Emit(single_kind(c)->0, None, i + 1)
    } else if pair_kinds(c) is Some {
        if i + 1 < s.len() && s[i + 1] == '=' {
            Step::Emit((pair_kinds(c)->0).1, None, i + 2)
        } else {
            Step::Emit((pair_kinds(c)->0).0, None, i + 1)
        }
    } else if c == '/' {
        if i + 1 < s.len() && s[i + 1] == '/' {
            Step::Emit(TokenType::Comment, None, run_end(s, i + 2, Run::LineRest))
        } else {
            Step::Emit(TokenType::Div, None, i + 1)
        }
    } else if c == '"' {
        let q = run_end(s, i + 1, Run::StringBody);
        if q < s.len() {
            Step::Emit(TokenType::StringLiteral, Some(s.subrange(i + 1, q)), q + 1)
        } else {
            Step::Fail(ScanErrorKind::UnterminatedString, s.len() as int)
        }
    } else if is_blank(c) {
        Step::Skip(i + 1)
    } else if is_digit(c) {
        let e = run_end(s, i + 1, Run::Number);
        Step::Emit(TokenType::Number, Some(s.subrange(i, e)), e)
    } else if is_word_start(c) {
        let e = run_end(s, i + 1, Run::Word);
        Step::Emit(word_kind(s.subrange(i, e)), Some(s.subrange(i, e)), e)
    } else {
        Step::Fail(ScanErrorKind::UnexpectedChar(c), i + 1)
    }
}

/// Every step consumes at least one character and stays within the text.
pub proof fn lemma_step_advances(s: Seq<char>, i: int)
    requires
        0 <= i < s.len(),
    ensures
        i < step_end(step_at(s, i)) <= s.len(),
{
    if i + 2 <= s.len() {
        lemma_run_end(s, i + 2, Run::LineRest);
    }
    lemma_run_end(s, i + 1, Run::StringBody);
    lemma_run_end(s, i + 1, Run::Number);
    lemma_run_end(s, i + 1, Run::Word);
}

/// The column recorded for a token from `i` to `e`: the column where it ends
/// less its length, or 0 when that would be negative. For a token on one line
/// this is the column where it starts.
pub open spec fn token_column(s: Seq<char>, i: int, e: int) -> nat {
    if column_at(s, e) >= e - i {
        (column_at(s, e) - (e - i)) as nat
    } else {
        0
    }
}

/// The token that a step emits, if any; its line is the line where it ends.
pub open spec fn step_tokens(s: Seq<char>, i: int, st: Step) -> Seq<TokenView> {
    match st {
        Step::Emit(kind, literal, e) => seq![
            TokenView {
                kind,
                lexeme: s.subrange(i, e),
                literal,
                line: line_at(s, e),
                column: token_column(s, i, e),
            },
        ],
        _ => seq![],
    }
}

/// The diagnostic that a step reports, if any.
pub open spec fn step_errors(s: Seq<char>, i: int, st: Step) -> Seq<ScanErrorView> {
    match st {
        Step::Fail(kind, _) => seq![
            ScanErrorView { kind, line: line_at(s, i), column: column_at(s, i) },
        ],
        _ => seq![],
    }
}

/// The end-of-input token of `s`.
pub open spec fn eof_view(s: Seq<char>) -> TokenView {
    TokenView {
        kind: TokenType::EoF,
        lexeme: Seq::empty(),
        literal: None,
        line: line_at(s, s.len() as int),
        column: column_at(s, s.len() as int),
    }
}

/// The tokens that scanning `s` from position `i` produces, ending with end-of-input.
pub open spec fn tokens_from(s: Seq<char>, i: int) -> Seq<TokenView>
    decreases s.len() - i,
{
    if 0 <= i < s.len() {
        let st = step_at(s, i);
        if i < step_end(st) <= s.len() {
            step_tokens(s, i, st) + tokens_from(s, step_end(st))
        } else {
            seq![]
        }
    } else {
        seq![eof_view(s)]
    }
}

/// The diagnostics that scanning `s` from position `i` reports.
pub open spec fn errors_from(s: Seq<char>, i: int) -> Seq<ScanErrorView>
    decreases s.len() - i,
{
    if 0 <= i < s.len() {
        let st = step_at(s, i);
        if i < step_end(st) <= s.len() {
            step_errors(s, i, st) + errors_from(s, step_end(st))
        } else {
            seq![]
        }
    } else {
        seq![]
    }
}

/// What each token is.
pub open spec fn tokens_view(v: Seq<Token>) -> Seq<TokenView> {
    v.map_values(|t: Token| t@)
}

/// What each diagnostic is.
pub open spec fn errors_view(v: Seq<ScanError>) -> Seq<ScanErrorView> {
    v.map_values(|e: ScanError| e@)
}


/// The characters of `s`, in order.
pub fn chars_of(s: &String) -> (r: Vec<char>)
    ensures
        r@ == s@,
{
    let mut v: Vec<char> = Vec::new();
    for c in it: s.as_str().chars()
        invariant
            v@ == it.seq().take(it.index() as int),
    {
        v.push(c);
    }
    v
}


/// Over text without newlines, the line stays and the column grows by the length.
pub proof fn lemma_same_line(s: Seq<char>, i: int, e: int)
    requires
        0 <= i <= e <= s.len(),
        forall|k: int| i <= k < e ==> #[trigger] s[k] != '\n',
    ensures
        line_at(s, e) == line_at(s, i),
        column_at(s, e) == column_at(s, i) + (e - i),
    decreases e - i,
{
    if i < e {
        lemma_same_line(s, i, e - 1);
    }
}

/// A scanner over one source text. `start` and `current` are offsets (in characters)
/// of the token being scanned and of the next character; `line` and `column_no`
/// count lines and columns as the scanner goes, and `start_line` and
/// `start_column` are the position of `start`, for diagnostics.
pub struct Scanner {
    pub source: String,
    pub contents: String,
    pub text: Vec<char>,
    pub tokens: Vec<Token>,
    pub errors: Vec<ScanError>,
    pub start: usize,
    pub current: usize,
    pub line: usize,
    pub column_no: usize,
    pub start_line: usize,
    pub start_column: usize,
}

impl Scanner {
    pub open spec fn wf(&self) -> bool {
        &&& self.text@ == self.contents@
        &&& self.text.len() < usize::MAX
        &&& self.start <= self.current <= self.text.len()
        &&& self.line <= self.current + 1
        &&& self.column_no <= self.current
        &&& self.start_line == line_at(self.text@, self.start as int)
        &&& self.start_column == column_at(self.text@, self.start as int)
    }

    /// `line` and `column_no` are the position of `current`.
    pub open spec fn at_position(&self) -> bool {
        &&& self.line == line_at(self.text@, self.current as int)
        &&& self.column_no == column_at(self.text@, self.current as int)
    }

    /// Only the cursor (`current`, `line`, `column_no`) differs between `self` and `other`.
    pub open spec fn same_but_cursor(&self, other: &Scanner) -> bool {
        &&& self.source@ == other.source@
        &&& self.contents@ == other.contents@
        &&& self.text@ == other.text@
        &&& self.tokens@ == other.tokens@
        &&& self.errors@ == other.errors@
        &&& self.start == other.start
        &&& self.start_line == other.start_line
        &&& self.start_column == other.start_column
    }

    /// Create a scanner for `contents`, read from the file `src_file`.
    pub fn new(src_file: String, contents: String) -> (r: Self)
        requires
            contents@.len() < usize::MAX,
        ensures
            r.wf(),
            r.at_position(),
            r.source@ == src_file@,
            r.text@ == contents@,
            r.current == 0,
            r.start == 0,
            r.tokens@.len() == 0,
            r.errors@.len() == 0,
    {
        let text = chars_of(&contents);
        Scanner {
            source: src_file,
            contents,
            text,
            tokens: Vec::new(),
            errors: Vec::new(),
            start: 0,
            current: 0,
            line: 1,
            column_no: 0,
            start_line: 1,
            start_column: 0,
        }
    }

    /// The next character, not consumed.
    pub fn peek(&self) -> (r: Option<char>)
        requires
            self.wf(),
        ensures
            r == (if self.current < self.text.len() {
                Some(self.text@[self.current as int])
            } else {
                None
            }),
    {
        if self.current < self.text.len() {
            Some(self.text[self.current])
        } else {
            None
        }
    }

    /// Consume the next character and return it. The column grows by one; the
    /// line is left to the caller, which counts newlines.
    pub fn advance(&mut self) -> (r: Option<char>)
        requires
            old(self).wf(),
            old(self).current < old(self).text.len(),
        ensures
            final(self).wf(),
            final(self).same_but_cursor(old(self)),
            final(self).current == old(self).current + 1,
            final(self).line == old(self).line,
            final(self).column_no == old(self).column_no + 1,
            r == Some(old(self).text@[old(self).current as int]),
            old(self).at_position() && old(self).text@[old(self).current as int] != '\n'
                ==> final(self).at_position(),
    {
        let c = self.text[self.current];
        self.current = self.current + 1;
        self.column_no = self.column_no + 1;
        Some(c)
    }

    /// Consume a newline that `advance` just consumed: one more line, column 0.
    fn count_newline(&mut self)
        requires
            old(self).wf(),
            old(self).current >= 1,
            old(self).text@[old(self).current - 1] == '\n',
            old(self).line == line_at(old(self).text@, old(self).current - 1),
        ensures
            final(self).wf(),
            final(self).same_but_cursor(old(self)),
            final(self).current == old(self).current,
            final(self).line == old(self).line + 1,
            final(self).column_no == 0,
            final(self).at_position(),
    {
        proof {
            lemma_position_bounds(self.text@, self.current as int);
        }
        self.line = self.line + 1;
        self.column_no = 0;
    }

    /// Consume characters while they belong to `run`, which holds no newline.
    fn consume_run(&mut self, run: Run)
        requires
            old(self).wf(),
            old(self).at_position(),
            !in_run(run, '\n'),
        ensures
            final(self).wf(),
            final(self).at_position(),
            final(self).same_but_cursor(old(self)),
            final(self).current == run_end(old(self).text@, old(self).current as int, run),
    {
        proof {
            lemma_run_end(self.text@, self.current as int, run);
        }
        while self.current < self.text.len() && in_run_exec(run, self.text[self.current])
            invariant
                self.wf(),
                self.at_position(),
                self.same_but_cursor(old(self)),
                !in_run(run, '\n'),
                old(self).current <= self.current,
                run_end(self.text@, self.current as int, run) == run_end(
                    old(self).text@,
                    old(self).current as int,
                    run,
                ),
            decreases self.text.len() - self.current,
        {
            self.advance();
        }
    }

    /// Consume the rest of a line and its newline, if there is one.
    pub fn read_until_eol(&mut self)
        requires
            old(self).wf(),
            old(self).at_position(),
        ensures
            final(self).wf(),
            final(self).at_position(),
            final(self).same_but_cursor(old(self)),
            ({
                let j = run_end(old(self).text@, old(self).current as int, Run::LineRest);
                if j < old(self).text.len() {
                    &&& final(self).current == j + 1
                    &&& final(self).line == old(self).line + 1
                    &&& final(self).column_no == 0
                } else {
                    &&& final(self).current == old(self).text.len()
                    &&& final(self).line == old(self).line
                }
            }),
    {
        let ghost i = self.current as int;
        proof {
            lemma_run_end(self.text@, i, Run::LineRest);
        }
        self.consume_run(Run::LineRest);
        proof {
            lemma_same_line(self.text@, i, self.current as int);
        }
        if self.current < self.text.len() {
            self.advance();
            self.count_newline();
        }
    }

    /// Consume a string literal's body and its closing quote, counting the
    /// lines it spans. Returns whether the closing quote was found.
    pub fn read_until_eo_quote(&mut self) -> (found: bool)
        requires
            old(self).wf(),
            old(self).at_position(),
        ensures
            final(self).wf(),
            final(self).at_position(),
            final(self).same_but_cursor(old(self)),
            ({
                let q = run_end(old(self).text@, old(self).current as int, Run::StringBody);
                &&& found == (q < old(self).text.len())
                &&& final(self).current == (if found { q + 1 } else { q })
            }),
    {
        proof {
            lemma_run_end(self.text@, self.current as int, Run::StringBody);
        }
        while self.current < self.text.len() && self.text[self.current] != '"'
            invariant
                self.wf(),
                self.at_position(),
                self.same_but_cursor(old(self)),
                old(self).current <= self.current,
                run_end(self.text@, self.current as int, Run::StringBody) == run_end(
                    old(self).text@,
                    old(self).current as int,
                    Run::StringBody,
                ),
            decreases self.text.len() - self.current,
        {
            let c = self.advance();
            if let Some('\n') = c {
                self.count_newline();
            }
        }
        if self.current < self.text.len() {
            self.advance();
            true
        } else {
            false
        }
    }

    /// Consume the rest of a number, digits and decimal points, and the
    /// character after it if there is one; the caller puts that one back.
    pub fn scan_number(&mut self)
        requires
            old(self).wf(),
            old(self).at_position(),
        ensures
            final(self).wf(),
            final(self).same_but_cursor(old(self)),
            ({
                let e = run_end(old(self).text@, old(self).current as int, Run::Number);
                final(self).current == (if e < old(self).text.len() { e + 1 } else { e })
            }),
            final(self).line == old(self).line,
            final(self).column_no == old(self).column_no + (final(self).current
                - old(self).current),
    {
        let ghost i = self.current as int;
        proof {
            lemma_run_end(self.text@, i, Run::Number);
        }
        self.consume_run(Run::Number);
        proof {
            lemma_same_line(self.text@, i, self.current as int);
        }
        if self.current < self.text.len() {
            self.advance();
        }
    }

    /// Consume the rest of a word, letters, digits and underscores, and the
    /// character after it if there is one; the caller puts that one back.
    pub fn scan_lexeme_with_underscore(&mut self)
        requires
            old(self).wf(),
            old(self).at_position(),
        ensures
            final(self).wf(),
            final(self).same_but_cursor(old(self)),
            ({
                let e = run_end(old(self).text@, old(self).current as int, Run::Word);
                final(self).current == (if e < old(self).text.len() { e + 1 } else { e })
            }),
            final(self).line == old(self).line,
            final(self).column_no == old(self).column_no + (final(self).current
                - old(self).current),
    {
        let ghost i = self.current as int;
        proof {
            lemma_run_end(self.text@, i, Run::Word);
        }
        self.consume_run(Run::Word);
        proof {
            lemma_same_line(self.text@, i, self.current as int);
        }
        if self.current < self.text.len() {
            self.advance();
        }
    }

    /// Put back the last character consumed, which is no newline.
    fn unread(&mut self)
        requires
            old(self).wf(),
            old(self).current > old(self).start,
            old(self).column_no >= 1,
            old(self).line <= old(self).current,
        ensures
            final(self).wf(),
            final(self).same_but_cursor(old(self)),
            final(self).current == old(self).current - 1,
            final(self).line == old(self).line,
            final(self).column_no == old(self).column_no - 1,
    {
        self.current = self.current - 1;
        self.column_no = self.column_no - 1;
    }
}

impl Scanner {
    /// `self` and `other` scan the same text from the same source.
    pub open spec fn same_text(&self, other: &Scanner) -> bool {
        &&& self.source@ == other.source@
        &&& self.contents@ == other.contents@
        &&& self.text@ == other.text@
    }

    /// The text between two offsets.
    fn text_between(&self, from: usize, to: usize) -> (r: String)
        requires
            self.wf(),
            from <= to <= self.text.len(),
        ensures
            r@ == self.text@.subrange(from as int, to as int),
    {
        String::from_str(self.contents.as_str().substring_char(from, to))
    }

    /// Store a token whose text runs from `start` to `current`, at the current
    /// line and at the current column less the token's length.
    pub fn add_token(&mut self, tok_type: TokenType, literal: Option<String>)
        requires
            old(self).wf(),
        ensures
            final(self).wf(),
            final(self).same_text(old(self)),
            final(self).start == old(self).start,
            final(self).current == old(self).current,
            final(self).line == old(self).line,
            final(self).column_no == old(self).column_no,
            final(self).start_line == old(self).start_line,
            final(self).start_column == old(self).start_column,
            final(self).errors@ == old(self).errors@,
            tokens_view(final(self).tokens@) == tokens_view(old(self).tokens@).push(
                TokenView {
                    kind: tok_type,
                    lexeme: old(self).text@.subrange(old(self).start as int, old(self).current as int),
                    literal: opt_view(literal),
                    line: old(self).line as nat,
                    column: if old(self).column_no >= old(self).current - old(self).start {
                        (old(self).column_no - (old(self).current - old(self).start)) as nat
                    } else {
                        0
                    },
                },
            ),
    {
        let lexeme = self.text_between(self.start, self.current);
        let len_tok = self.current - self.start;
        let mut start_col_no: usize = 0;
        if self.column_no >= len_tok {
            start_col_no = self.column_no - len_tok;
        }
        let tok = Token::new(tok_type, lexeme, literal, self.line, start_col_no);
        self.tokens.push(tok);
        assert(tokens_view(self.tokens@) =~= tokens_view(old(self).tokens@).push(tok@));
    }

    /// Record a diagnostic at `start`.
    fn add_error(&mut self, kind: ScanErrorKind)
        requires
            old(self).wf(),
        ensures
            final(self).wf(),
            final(self).same_text(old(self)),
            final(self).start == old(self).start,
            final(self).current == old(self).current,
            final(self).line == old(self).line,
            final(self).column_no == old(self).column_no,
            final(self).tokens@ == old(self).tokens@,
            errors_view(final(self).errors@) == errors_view(old(self).errors@).push(
                ScanErrorView {
                    kind,
                    line: line_at(old(self).text@, old(self).start as int),
                    column: column_at(old(self).text@, old(self).start as int),
                },
            ),
    {
        let e = ScanError { kind, line_no: self.start_line, column_no: self.start_column };
        self.errors.push(e);
        assert(errors_view(self.errors@) =~= errors_view(old(self).errors@).push(e@));
    }

    /// Store an operator that is `single` alone and `double` when `=` follows it.
    fn add_pair(&mut self, single: TokenType, double: TokenType)
        requires
            old(self).wf(),
            old(self).at_position(),
            old(self).current == old(self).start + 1,
        ensures
            final(self).wf(),
            final(self).at_position(),
            final(self).same_text(old(self)),
            final(self).errors@ == old(self).errors@,
            ({
                let s = old(self).text@;
                let i = old(self).start as int;
                let two = i + 1 < s.len() && s[i + 1] == '=';
                let e = if two { i + 2 } else { i + 1 };
                &&& final(self).current == e
                &&& tokens_view(final(self).tokens@) == tokens_view(old(self).tokens@).push(
                    TokenView {
                        kind: if two { double } else { single },
                        lexeme: s.subrange(i, e),
                        literal: None,
                        line: line_at(s, e),
                        column: token_column(s, i, e),
                    },
                )
            }),
    {
        match self.peek() {
            Some('=') => {
                self.advance();
                self.add_token(double, None);
            },
            _ => {
                self.add_token(single, None);
            },
        }
    }

    /// Scan the token that starts at `current`: one step of the scanner.
    pub fn scan_token(&mut self)
        requires
            old(self).wf(),
            old(self).at_position(),
            old(self).start == old(self).current,
            old(self).current < old(self).text.len(),
        ensures
            final(self).wf(),
            final(self).at_position(),
            final(self).same_text(old(self)),
            ({
                let s = old(self).text@;
                let i = old(self).current as int;
                let st = step_at(s, i);
                &&& final(self).current == step_end(st)
                &&& tokens_view(final(self).tokens@) == tokens_view(old(self).tokens@)
                    + step_tokens(s, i, st)
                &&& errors_view(final(self).errors@) == errors_view(old(self).errors@)
                    + step_errors(s, i, st)
            }),
    {
        let ghost s = self.text@;
        let ghost i = self.current as int;
        let ghost t0 = tokens_view(self.tokens@);
        let ghost e0 = errors_view(self.errors@);
        proof {
            lemma_step_advances(s, i);
            lemma_position_bounds(s, i);
        }
        let c = self.advance().unwrap();
        match c {
            '(' => self.add_token(TokenType::LeftParen, None),
            ')' => self.add_token(TokenType::RightParen, None),
            '{' => self.add_token(TokenType::LeftBrace, None),
            '}' => self.add_token(TokenType::RightBrace, None),
            ';' => self.add_token(TokenType::SemiColon, None),
            ':' => self.add_token(TokenType::Colon, None),
            '.' => self.add_token(TokenType::Dot, None),
            ',' => self.add_token(TokenType::Comma, None),
            '*' => self.add_token(TokenType::Star, None),
            '-' => self.add_token(TokenType::Minus, None),
            '<' => self.add_pair(TokenType::Less, TokenType::LessEqual),
            '>' => self.add_pair(TokenType::Greater, TokenType::GreaterEqual),
            '!' => self.add_pair(TokenType::Bang, TokenType::BangEqual),
            '=' => self.add_pair(TokenType::Equal, TokenType::EqualEqual),
            '/' => match self.peek() {
                Some('/') => {
                    self.advance();
                    let c0 = self.current;
                    let col0 = self.column_no;
                    proof {
                        lemma_run_end(s, c0 as int, Run::LineRest);
                        lemma_position_bounds(s, c0 as int);
                    }
                    self.read_until_eol();
                    if self.current > c0 && self.text[self.current - 1] == '\n' {
                        // the comment ends before its newline, which the next step reads
                        proof {
                            lemma_same_line(s, c0 as int, self.current - 1);
                        }
                        self.current = self.current - 1;
                        self.line = self.line - 1;
                        self.column_no = col0 + (self.current - c0);
                    }
                    self.add_token(TokenType::Comment, None);
                },
                _ => self.add_token(TokenType::Div, None),
            },
            '"' => {
                proof {
                    lemma_run_end(s, i + 1, Run::StringBody);
                }
                let found = self.read_until_eo_quote();
                if found {
                    let lit = self.text_between(self.start + 1, self.current - 1);
                    self.add_token(TokenType::StringLiteral, Some(lit));
                } else {
                    self.add_error(ScanErrorKind::UnterminatedString);
                }
            },
            '\n' => {
                self.count_newline();
            },
            ' ' | '\t' | '\r' => {},
            _ => {
                if '0' <= c && c <= '9' {
                    proof {
                        lemma_run_end(s, i + 1, Run::Number);
                    }
                    self.scan_number();
                    if !in_run_exec(Run::Number, self.text[self.current - 1]) {
                        self.unread();
                    }
                    proof {
                        lemma_same_line(s, i, self.current as int);
                    }
                    let n = self.text_between(self.start, self.current);
                    self.add_token(TokenType::Number, Some(n));
                } else if ('a' <= c && c <= 'z') || ('A' <= c && c <= 'Z') || c == '_' {
                    proof {
                        lemma_run_end(s, i + 1, Run::Word);
                    }
                    self.scan_lexeme_with_underscore();
                    if !in_run_exec(Run::Word, self.text[self.current - 1]) {
                        self.unread();
                    }
                    proof {
                        lemma_same_line(s, i, self.current as int);
                    }
                    let w = self.text_between(self.start, self.current);
                    let kind = if is_keyword(&w) {
                        TokenType::Keyword
                    } else {
                        TokenType::Identifier
                    };
                    self.add_token(kind, Some(w));
                } else {
                    self.add_error(ScanErrorKind::UnexpectedChar(c));
                }
            },
        }
        assert(tokens_view(self.tokens@) =~= t0 + step_tokens(s, i, step_at(s, i)));
        assert(errors_view(self.errors@) =~= e0 + step_errors(s, i, step_at(s, i)));
    }

    /// Scan the rest of the text, then append the end-of-input token.
    pub fn scan_tokens(&mut self)
        requires
            old(self).wf(),
            old(self).at_position(),
        ensures
            final(self).wf(),
            final(self).at_position(),
            final(self).same_text(old(self)),
            final(self).current == final(self).text.len(),
            tokens_view(final(self).tokens@) == tokens_view(old(self).tokens@) + tokens_from(
                old(self).text@,
                old(self).current as int,
            ),
            errors_view(final(self).errors@) == errors_view(old(self).errors@) + errors_from(
                old(self).text@,
                old(self).current as int,
            ),
    {
        let ghost s = self.text@;
        while self.current < self.text.len()
            invariant
                self.wf(),
                self.at_position(),
                self.same_text(old(self)),
                s == self.text@,
                tokens_view(self.tokens@) + tokens_from(s, self.current as int) == tokens_view(
                    old(self).tokens@,
                ) + tokens_from(s, old(self).current as int),
                errors_view(self.errors@) + errors_from(s, self.current as int) == errors_view(
                    old(self).errors@,
                ) + errors_from(s, old(self).current as int),
            decreases self.text.len() - self.current,
        {
            let ghost i = self.current as int;
            let ghost t0 = tokens_view(self.tokens@);
            let ghost e0 = errors_view(self.errors@);
            proof {
                lemma_step_advances(s, i);
            }
            self.start = self.current;
            self.start_line = self.line;
            self.start_column = self.column_no;
            self.scan_token();
            proof {
                let st = step_at(s, i);
                assert(tokens_from(s, i) == step_tokens(s, i, st) + tokens_from(s, step_end(st)));
                assert(errors_from(s, i) == step_errors(s, i, st) + errors_from(s, step_end(st)));
                assert(t0 + tokens_from(s, i) =~= (t0 + step_tokens(s, i, st)) + tokens_from(
                    s,
                    step_end(st),
                ));
                assert(e0 + errors_from(s, i) =~= (e0 + step_errors(s, i, st)) + errors_from(
                    s,
                    step_end(st),
                ));
            }
        }
        let ghost t1 = tokens_view(self.tokens@);
        let eof = Token::new(TokenType::EoF, String::new(), None, self.line, self.column_no);
        self.tokens.push(eof);
        assert(tokens_view(self.tokens@) =~= t1.push(eof@));
        assert(eof@ == eof_view(s)) by {
            assert(eof@.lexeme =~= Seq::<char>::empty());
        }
        assert(tokens_from(s, self.current as int) =~= seq![eof_view(s)]);
        assert(errors_from(s, self.current as int) =~= Seq::<ScanErrorView>::empty());
        assert(errors_view(self.errors@) =~= errors_view(self.errors@) + errors_from(
            s,
            self.current as int,
        ));
    }
}

/// Scan `contents` whole: its tokens, ending with end-of-input, and its diagnostics.
pub fn scan(contents: String) -> (r: (Vec<Token>, Vec<ScanError>))
    requires
        contents@.len() < usize::MAX,
    ensures
        tokens_view(r.0@) == tokens_from(contents@, 0),
        errors_view(r.1@) == errors_from(contents@, 0),
{
    let mut scanner = Scanner::new(String::new(), contents);
    scanner.scan_tokens();
    assert(tokens_view(scanner.tokens@) =~= tokens_from(contents@, 0));
    assert(errors_view(scanner.errors@) =~= errors_from(contents@, 0));
    (scanner.tokens, scanner.errors)
}

fn in_run_exec(run: Run, c: char) -> (r: bool)
    ensures
        r == in_run(run, c),
{
    match run {
        Run::Word => ('a' <= c && c <= 'z') || ('A' <= c && c <= 'Z') || c == '_' || ('0' <= c
            && c <= '9'),
        Run::Number => ('0' <= c && c <= '9') || c == '.',
        Run::LineRest => c != '\n',
        Run::StringBody => c != '"',
        Run::Digits => '0' <= c && c <= '9',
    }
}

} // verus!
