//! Recursive-descent parsing of the token sequence into a syntax tree.
//!
//! The grammar has two levels: a deployment keyword and a block of deployment
//! attributes and instance blocks; each instance block holds instance attributes
//! and comments. Every attribute is `name = value`, and which value kind an
//! attribute takes is looked up in one table, so that one routine parses them all.
//!
//! The first error ends parsing. A number that does not convert (a count that
//! is not a whole number up to 255, a version with more than one point or too
//! many digits) is a `TokenMismatch` at the number: it fails here rather than
//! turning into a default. What follows the deployment block's closing brace
//! is not read.
use vstd::prelude::*;

use crate::lex::{Token, TokenType, TokenView, tokens_view, word_is};
use crate::nodes::{AwsNode, AwsNodeView, Decimal, Ec2Node, Ec2NodeView, empty_aws, empty_ec2};
use crate::number::{count_of, decimal_of, parse_count, parse_decimal};

verus! {

/// The two kinds of parse failure.
#[derive(Clone, Copy, Debug, PartialEq, Eq, Structural)]
pub enum ParseErrorType {
    /// a token of one kind was required and another was found
    TokenMismatch,
    /// a token stands where the grammar allows no such token
    UnknownToken,
}

impl ParseErrorType {
    pub fn name(&self) -> (r: &'static str)
        ensures
            r@ == (match self {
                ParseErrorType::TokenMismatch => "Token mismatch"@,
                ParseErrorType::UnknownToken => "Unknown token"@,
            }),
    {
        match self {
            ParseErrorType::TokenMismatch => "Token mismatch",
            ParseErrorType::UnknownToken => "Unknown token",
        }
    }
}

pub struct ParseErrorView {
    pub kind: ParseErrorType,
    pub line: nat,
    pub column: nat,
}

/// A parse failure: its kind, a message for people, and the position of the
/// offending token.
pub struct ParseError {
    pub err_type: ParseErrorType,
    pub msg: String,
    pub line_no: usize,
    pub column_no: usize,
}

impl View for ParseError {
    type V = ParseErrorView;

    open spec fn view(&self) -> ParseErrorView {
        ParseErrorView { kind: self.err_type, line: self.line_no as nat, column: self.column_no as nat }
    }
}

impl ParseError {
    pub fn new(err_type: ParseErrorType, msg: String, line_no: usize, column_no: usize) -> (r:
        Self)
        ensures
            r.err_type == err_type,
            r.msg == msg,
            r.line_no == line_no,
            r.column_no == column_no,
    {
        ParseError { err_type, msg, line_no, column_no }
    }
}

/// Attributes of the deployment block; each takes a string.
#[derive(Clone, Copy, Debug, PartialEq, Eq, Structural)]
pub enum AwsAttr {
    Name,
    Description,
    Region,
}

/// Attributes of an instance block.
#[derive(Clone, Copy, Debug, PartialEq, Eq, Structural)]
pub enum Ec2Attr {
    Name,
    Description,
    InstanceType,
    Ami,
    SubnetId,
    SgId,
    KeyName,
    Count,
    AppVersion,
}

/// The words that open a deployment block.
///
/// The deployment keyword is `aws`, and `deployment` names it too; the instance
/// keyword is `ec2`, and `instance` names it too. Both spellings are accepted
/// because programs are written in both: the short provider names, and the
/// generic names that describe any deployment.
pub open spec fn is_deployment_word(w: Seq<char>) -> bool {
    w == "aws"@ || w == "deployment"@
}

/// The words that open an instance block.
pub open spec fn is_instance_word(w: Seq<char>) -> bool {
    w == "ec2"@ || w == "instance"@
}

/// The deployment attribute that a word names, if any.
pub open spec fn aws_attr_of(w: Seq<char>) -> Option<AwsAttr> {
    if w == "name"@ {
        Some(AwsAttr::Name)
    } else if w == "description"@ {
        Some(AwsAttr::Description)
    } else if w == "region"@ {
        Some(AwsAttr::Region)
    } else {
        None
    }
}

/// The instance attribute that a word names, if any.
pub open spec fn ec2_attr_of(w: Seq<char>) -> Option<Ec2Attr> {
    if w == "name"@ {
        Some(Ec2Attr::Name)
    } else if w == "description"@ {
        Some(Ec2Attr::Description)
    } else if w == "instance_type"@ {
        Some(Ec2Attr::InstanceType)
    } else if w == "ami"@ {
        Some(Ec2Attr::Ami)
    } else if w == "subnet_id"@ {
        Some(Ec2Attr::SubnetId)
    } else if w == "sg_id"@ {
        Some(Ec2Attr::SgId)
    } else if w == "key_name"@ {
        Some(Ec2Attr::KeyName)
    } else if w == "count"@ {
        Some(Ec2Attr::Count)
    } else if w == "app_version"@ {
        Some(Ec2Attr::AppVersion)
    } else {
        None
    }
}

/// The kind of token that an instance attribute's value must be.
pub open spec fn value_kind(a: Ec2Attr) -> TokenType {
    match a {
        Ec2Attr::Count => TokenType::Number,
        Ec2Attr::AppVersion => TokenType::Number,
        _ => TokenType::StringLiteral,
    }
}

/// The value of an instance attribute, once converted.
pub enum AttrValue {
    Text(Seq<char>),
    Count(u8),
    Version(Decimal),
}

/// The token that a diagnostic about index `k` points at: the token there, or
/// the last token when `k` is past the end.
pub open spec fn token_at(t: Seq<TokenView>, k: int) -> TokenView {
    if 0 <= k < t.len() {
        t[k]
    } else if t.len() > 0 {
        t.last()
    } else {
        TokenView { kind: TokenType::EoF, lexeme: seq![], literal: None, line: 0, column: 0 }
    }
}

/// A parse error of `kind` at the token that index `k` points at.
pub open spec fn err_at(kind: ParseErrorType, t: Seq<TokenView>, k: int) -> ParseErrorView {
    ParseErrorView { kind, line: token_at(t, k).line, column: token_at(t, k).column }
}

/// The text a string token stands for: its literal, which the scanner gives
/// without the quotes.
pub open spec fn text_value(tok: TokenView) -> Seq<char> {
    match tok.literal {
        Some(v) => v,
        None => tok.lexeme,
    }
}

/// The value of the deployment attribute whose name is at `k`: `=` at `k + 1`,
/// a string at `k + 2`.
pub open spec fn aws_value(t: Seq<TokenView>, k: int) -> Result<Seq<char>, ParseErrorView> {
    if !(k + 1 < t.len() && t[k + 1].kind == TokenType::Equal) {
        Err(err_at(ParseErrorType::TokenMismatch, t, k + 1))
    } else if !(k + 2 < t.len() && t[k + 2].kind == TokenType::StringLiteral) {
        Err(err_at(ParseErrorType::TokenMismatch, t, k + 2))
    } else {
        Ok(text_value(t[k + 2]))
    }
}

/// The value of the instance attribute `a` whose name is at `k`: `=` at `k + 1`,
/// then a token of the attribute's value kind that converts.
pub open spec fn ec2_value(t: Seq<TokenView>, k: int, a: Ec2Attr) -> Result<
    AttrValue,
    ParseErrorView,
> {
    if !(k + 1 < t.len() && t[k + 1].kind == TokenType::Equal) {
        Err(err_at(ParseErrorType::TokenMismatch, t, k + 1))
    } else if !(k + 2 < t.len() && t[k + 2].kind == value_kind(a)) {
        Err(err_at(ParseErrorType::TokenMismatch, t, k + 2))
    } else {
        match a {
            Ec2Attr::Count => match count_of(t[k + 2].lexeme) {
                Some(n) => Ok(AttrValue::Count(n)),
                None => Err(err_at(ParseErrorType::TokenMismatch, t, k + 2)),
            },
            Ec2Attr::AppVersion => match decimal_of(t[k + 2].lexeme) {
                Some(d) => Ok(AttrValue::Version(d)),
                None => Err(err_at(ParseErrorType::TokenMismatch, t, k + 2)),
            },
            _ => Ok(AttrValue::Text(text_value(t[k + 2]))),
        }
    }
}

/// A deployment node with attribute `a` set to `v`.
pub open spec fn set_aws(n: AwsNodeView, a: AwsAttr, v: Seq<char>) -> AwsNodeView {
    match a {
        AwsAttr::Name => AwsNodeView { name: Some(v), ..n },
        AwsAttr::Description => AwsNodeView { description: Some(v), ..n },
        AwsAttr::Region => AwsNodeView { region: Some(v), ..n },
    }
}

/// An instance node with attribute `a` set to `v`; the name sets the id too.
pub open spec fn set_ec2(n: Ec2NodeView, a: Ec2Attr, v: AttrValue) -> Ec2NodeView {
    match v {
        AttrValue::Text(s) => match a {
            Ec2Attr::Name => Ec2NodeView { id: Some(s), name: Some(s), ..n },
            Ec2Attr::Description => Ec2NodeView { description: Some(s), ..n },
            Ec2Attr::InstanceType => Ec2NodeView { instance_type: Some(s), ..n },
            Ec2Attr::Ami => Ec2NodeView { ami: Some(s), ..n },
            Ec2Attr::SubnetId => Ec2NodeView { subnet_id: Some(s), ..n },
            Ec2Attr::SgId => Ec2NodeView { sg_id: Some(s), ..n },
            Ec2Attr::KeyName => Ec2NodeView { key_name: Some(s), ..n },
            _ => n,
        },
        AttrValue::Count(c) => Ec2NodeView { count: c, ..n },
        AttrValue::Version(d) => Ec2NodeView { app_version: d, ..n },
    }
}

/// The outcome of parsing the deployment block's body from index `k`, with
/// `node` holding what was parsed before `k`.
pub open spec fn top_from(t: Seq<TokenView>, k: int, node: AwsNodeView) -> Result<
    AwsNodeView,
    ParseErrorView,
>
    decreases t.len() - k,
{
    if !(0 <= k < t.len()) {
        Err(err_at(ParseErrorType::UnknownToken, t, k))
    } else if t[k].kind == TokenType::RightBrace {
        Ok(node)
    } else if t[k].kind == TokenType::Keyword && aws_attr_of(t[k].lexeme) is Some {
        match aws_value(t, k) {
            Ok(v) => top_from(t, k + 3, set_aws(node, aws_attr_of(t[k].lexeme)->0, v)),
            Err(e) => Err(e),
        }
    } else if t[k].kind == TokenType::Keyword && is_instance_word(t[k].lexeme) {
        match inst_block(t, k + 1) {
            Ok((inst, e)) => if k < e <= t.len() {
                top_from(t, e, AwsNodeView { ec2_nodes: node.ec2_nodes.push(inst), ..node })
            } else {
                Err(err_at(ParseErrorType::UnknownToken, t, k))
            },
            Err(x) => Err(x),
        }
    } else {
        Err(err_at(ParseErrorType::UnknownToken, t, k))
    }
}

/// An instance block whose `{` is expected at `k`: the instance it describes
/// and the index after its `}`.
pub open spec fn inst_block(t: Seq<TokenView>, k: int) -> Result<(Ec2NodeView, int), ParseErrorView> {
    if 0 <= k < t.len() && t[k].kind == TokenType::LeftBrace {
        inst_from(t, k + 1, empty_ec2())
    } else {
        Err(err_at(ParseErrorType::TokenMismatch, t, k))
    }
}

/// The outcome of parsing an instance block's body from index `k`, with `inst`
/// holding what was parsed of it before `k`: the instance and the index after
/// the block's `}`.
pub open spec fn inst_from(t: Seq<TokenView>, k: int, inst: Ec2NodeView) -> Result<
    (Ec2NodeView, int),
    ParseErrorView,
>
    decreases t.len() - k,
{
    if !(0 <= k < t.len()) {
        Err(err_at(ParseErrorType::UnknownToken, t, k))
    } else if t[k].kind == TokenType::Comment {
        inst_from(t, k + 1, inst)
    } else if t[k].kind == TokenType::RightBrace {
        Ok((inst, k + 1))
    } else if t[k].kind == TokenType::Keyword && ec2_attr_of(t[k].lexeme) is Some {
        match ec2_value(t, k, ec2_attr_of(t[k].lexeme)->0) {
            Ok(v) => inst_from(t, k + 3, set_ec2(inst, ec2_attr_of(t[k].lexeme)->0, v)),
            Err(e) => Err(e),
        }
    } else {
        Err(err_at(ParseErrorType::UnknownToken, t, k))
    }
}

/// An instance block ends after where it starts, within the tokens.
pub proof fn lemma_inst_end(t: Seq<TokenView>, k: int, inst: Ec2NodeView)
    ensures
        inst_from(t, k, inst) is Ok ==> k < inst_from(t, k, inst)->Ok_0.1 <= t.len(),
    decreases t.len() - k,
{
    if 0 <= k < t.len() {
        if t[k].kind == TokenType::Comment {
            lemma_inst_end(t, k + 1, inst);
        } else if t[k].kind == TokenType::Keyword && ec2_attr_of(t[k].lexeme) is Some {
            let a = ec2_attr_of(t[k].lexeme)->0;
            if ec2_value(t, k, a) is Ok {
                lemma_inst_end(t, k + 3, set_ec2(inst, a, ec2_value(t, k, a)->Ok_0));
            }
        }
    }
}

/// The deployment block whose `{` is expected at `k`; `id` names the node.
pub open spec fn block_from(t: Seq<TokenView>, k: int, id: Seq<char>) -> Result<
    AwsNodeView,
    ParseErrorView,
> {
    if 0 <= k < t.len() && t[k].kind == TokenType::LeftBrace {
        top_from(t, k + 1, empty_aws(id))
    } else {
        Err(err_at(ParseErrorType::TokenMismatch, t, k))
    }
}

/// A whole program from index `k`: a deployment keyword, then its block. The
/// node's id is the keyword.
pub open spec fn program_at(t: Seq<TokenView>, k: int) -> Result<AwsNodeView, ParseErrorView> {
    if 0 <= k < t.len() && t[k].kind == TokenType::Keyword && is_deployment_word(t[k].lexeme) {
        block_from(t, k + 1, t[k].lexeme)
    } else {
        Err(err_at(ParseErrorType::TokenMismatch, t, k))
    }
}

/// The outcome of parsing a whole token sequence.
pub open spec fn parse_view(t: Seq<TokenView>) -> Result<AwsNodeView, ParseErrorView> {
    program_at(t, 0)
}

/// What a parse result is.
pub open spec fn result_view(r: Result<AwsNode, ParseError>) -> Result<AwsNodeView, ParseErrorView> {
    match r {
        Ok(n) => Ok(n@),
        Err(e) => Err(e@),
    }
}


fn deployment_word(w: &String) -> (r: bool)
    ensures
        r == is_deployment_word(w@),
{
    word_is(w, "aws") || word_is(w, "deployment")
}

fn instance_word(w: &String) -> (r: bool)
    ensures
        r == is_instance_word(w@),
{
    word_is(w, "ec2") || word_is(w, "instance")
}

/// The table of deployment attributes.
fn aws_attr(w: &String) -> (r: Option<AwsAttr>)
    ensures
        r == aws_attr_of(w@),
{
    if word_is(w, "name") {
        Some(AwsAttr::Name)
    } else if word_is(w, "description") {
        Some(AwsAttr::Description)
    } else if word_is(w, "region") {
        Some(AwsAttr::Region)
    } else {
        None
    }
}

/// The table of instance attributes.
fn ec2_attr(w: &String) -> (r: Option<Ec2Attr>)
    ensures
        r == ec2_attr_of(w@),
{
    if word_is(w, "name") {
        Some(Ec2Attr::Name)
    } else if word_is(w, "description") {
        Some(Ec2Attr::Description)
    } else if word_is(w, "instance_type") {
        Some(Ec2Attr::InstanceType)
    } else if word_is(w, "ami") {
        Some(Ec2Attr::Ami)
    } else if word_is(w, "subnet_id") {
        Some(Ec2Attr::SubnetId)
    } else if word_is(w, "sg_id") {
        Some(Ec2Attr::SgId)
    } else if word_is(w, "key_name") {
        Some(Ec2Attr::KeyName)
    } else if word_is(w, "count") {
        Some(Ec2Attr::Count)
    } else if word_is(w, "app_version") {
        Some(Ec2Attr::AppVersion)
    } else {
        None
    }
}

fn value_kind_exec(a: Ec2Attr) -> (r: TokenType)
    ensures
        r == value_kind(a),
{
    match a {
        Ec2Attr::Count => TokenType::Number,
        Ec2Attr::AppVersion => TokenType::Number,
        _ => TokenType::StringLiteral,
    }
}

fn text_of(tok: &Token) -> (r: String)
    ensures
        r@ == text_value(tok@),
{
    match &tok.literal {
        Some(v) => v.clone(),
        None => tok.lexeme.clone(),
    }
}

/// `prefix` followed by `rest`.
fn joined(prefix: &str, rest: &str) -> (r: String)
    ensures
        r@ == prefix@ + rest@,
{
    let mut m = String::from_str(prefix);
    m.append(rest);
    m
}

/// A parser over a token sequence; `current` is the index of the next token.
pub struct Parser<'a> {
    pub tokens: &'a Vec<Token>,
    pub current: usize,
}

impl<'a> Parser<'a> {
    pub open spec fn toks(&self) -> Seq<TokenView> {
        tokens_view(self.tokens@)
    }

    pub fn new(tokens: &'a Vec<Token>) -> (r: Self)
        ensures
            r.tokens == tokens,
            r.current == 0,
    {
        Parser { tokens, current: 0 }
    }

    /// The current token, not consumed.
    pub fn peek(&self) -> (r: Option<&'a Token>)
        ensures
            r == (if self.current < self.tokens.len() {
                Some(&self.tokens@[self.current as int])
            } else {
                None
            }),
    {
        if self.current < self.tokens.len() {
            Some(&self.tokens[self.current])
        } else {
            None
        }
    }

    /// The current token, consumed: the cursor moves on by one in any case.
    pub fn next(&mut self) -> (r: Option<&'a Token>)
        requires
            old(self).current < usize::MAX,
        ensures
            final(self).tokens == old(self).tokens,
            final(self).current == old(self).current + 1,
            r == (if old(self).current < old(self).tokens.len() {
                Some(&old(self).tokens@[old(self).current as int])
            } else {
                None
            }),
    {
        let next_tok = self.peek();
        self.current = self.current + 1;
        next_tok
    }

    /// A diagnostic about the token at index `k`.
    fn error_at(&self, kind: ParseErrorType, k: usize, msg: &str) -> (r: ParseError)
        ensures
            r@ == err_at(kind, self.toks(), k as int),
    {
        let n = self.tokens.len();
        if k < n {
            let tok = &self.tokens[k];
            ParseError::new(kind, joined(msg, tok.lexeme.as_str()), tok.line_no, tok.column_no)
        } else if n > 0 {
            let tok = &self.tokens[n - 1];
            ParseError::new(kind, joined(msg, "end of input"), tok.line_no, tok.column_no)
        } else {
            ParseError::new(kind, joined(msg, "end of input"), 0, 0)
        }
    }

    /// Consume the current token if it is of kind `tok_type`; else fail with
    /// `TokenMismatch` at it.
    pub fn check_token(&mut self, tok_type: TokenType) -> (r: Result<(), ParseError>)
        ensures
            final(self).tokens == old(self).tokens,
            ({
                let t = old(self).toks();
                let k = old(self).current as int;
                if k < t.len() && t[k].kind == tok_type {
                    r is Ok && final(self).current == k + 1
                } else {
                    r is Err && final(self).current == k && r->Err_0@ == err_at(
                        ParseErrorType::TokenMismatch,
                        t,
                        k,
                    )
                }
            }),
    {
        if let Some(n) = self.peek() {
            if n.token_type == tok_type {
                self.current = self.current + 1;
                return Ok(());
            }
        }
        let msg = joined("Expecting ", tok_type.name());
        let msg = joined(msg.as_str(), ", but found: ");
        Err(self.error_at(ParseErrorType::TokenMismatch, self.current, msg.as_str()))
    }

    /// Parse `= "text"` after the deployment attribute `attr`, whose name is the
    /// token before `current`, and set the attribute on `node`.
    fn aws_attribute(&mut self, attr: AwsAttr, node: &mut AwsNode) -> (r: Result<(), ParseError>)
        requires
            1 <= old(self).current <= old(self).tokens.len(),
        ensures
            final(self).tokens == old(self).tokens,
            ({
                let v = aws_value(old(self).toks(), old(self).current - 1);
                &&& (r is Ok <==> v is Ok)
                &&& r is Ok ==> final(self).current == old(self).current + 2 && final(node)@
                    == set_aws(old(node)@, attr, v->Ok_0)
                &&& r is Err ==> r->Err_0@ == v->Err_0 && final(node)@ == old(node)@
            }),
    {
        match self.check_token(TokenType::Equal) {
            Ok(()) => {},
            Err(e) => {
                return Err(e);
            },
        }
        let k = self.current;
        if k < self.tokens.len() {
            let tok = self.next().unwrap();
            if tok.token_type == TokenType::StringLiteral {
                let v = text_of(tok);
                match attr {
                    AwsAttr::Name => node.set_name(v),
                    AwsAttr::Description => node.set_description(v),
                    AwsAttr::Region => node.set_region(v),
                }
                return Ok(());
            }
        }
        Err(
            self.error_at(
                ParseErrorType::TokenMismatch,
                k,
                "Expecting a string literal, but found: ",
            ),
        )
    }

    /// Parse `= value` after the instance attribute `attr`, whose name is the
    /// token before `current`, convert the value and set the attribute on `ec2`.
    fn ec2_attribute(&mut self, attr: Ec2Attr, ec2: &mut Ec2Node) -> (r: Result<(), ParseError>)
        requires
            1 <= old(self).current <= old(self).tokens.len(),
        ensures
            final(self).tokens == old(self).tokens,
            ({
                let v = ec2_value(old(self).toks(), old(self).current - 1, attr);
                &&& (r is Ok <==> v is Ok)
                &&& r is Ok ==> final(self).current == old(self).current + 2 && final(ec2)@
                    == set_ec2(old(ec2)@, attr, v->Ok_0)
                &&& r is Err ==> r->Err_0@ == v->Err_0 && final(ec2)@ == old(ec2)@
            }),
    {
        match self.check_token(TokenType::Equal) {
            Ok(()) => {},
            Err(e) => {
                return Err(e);
            },
        }
        let k = self.current;
        let want = value_kind_exec(attr);
        if k < self.tokens.len() {
            let tok = self.next().unwrap();
            if tok.token_type == want {
                match attr {
                    Ec2Attr::Count => {
                        if let Some(n) = parse_count(&tok.lexeme) {
                            ec2.set_count(n);
                            return Ok(());
                        }
                    },
                    Ec2Attr::AppVersion => {
                        if let Some(d) = parse_decimal(&tok.lexeme) {
                            ec2.set_app_version(d);
                            return Ok(());
                        }
                    },
                    _ => {
                        let v = text_of(tok);
                        match attr {
                            Ec2Attr::Name => ec2.set_name(v),
                            Ec2Attr::Description => ec2.set_description(v),
                            Ec2Attr::InstanceType => ec2.set_instance_type(v),
                            Ec2Attr::Ami => ec2.set_ami(v),
                            Ec2Attr::SubnetId => ec2.set_subnet_id(v),
                            Ec2Attr::SgId => ec2.set_sg_id(v),
                            _ => ec2.set_key_name(v),
                        }
                        return Ok(());
                    },
                }
            }
        }
        let msg = joined("Expecting a ", want.name());
        let msg = joined(msg.as_str(), " that converts, but found: ");
        Err(self.error_at(ParseErrorType::TokenMismatch, k, msg.as_str()))
    }

    /// Parse an instance block whose `{` is the current token. On success the
    /// cursor is after its `}` and exactly that instance is appended to `node`;
    /// on failure `node` is unchanged.
    pub fn ec2(&mut self, node: &mut AwsNode) -> (r: Result<(), ParseError>)
        requires
            old(self).current <= old(self).tokens.len(),
        ensures
            final(self).tokens == old(self).tokens,
            match inst_block(old(self).toks(), old(self).current as int) {
                Ok((inst, e)) => {
                    &&& r is Ok
                    &&& final(self).current == e
                    &&& final(node)@ == (AwsNodeView {
                        ec2_nodes: old(node)@.ec2_nodes.push(inst),
                        ..old(node)@
                    })
                },
                Err(x) => {
                    &&& r is Err
                    &&& r->Err_0@ == x
                    &&& final(node)@ == old(node)@
                },
            },
    {
        let ghost res = inst_block(self.toks(), self.current as int);
        match self.check_token(TokenType::LeftBrace) {
            Ok(()) => {},
            Err(e) => {
                return Err(e);
            },
        }
        let mut ec2 = Ec2Node::new();
        loop
            invariant
                self.tokens == old(self).tokens,
                self.current <= self.tokens.len(),
                node@ == old(node)@,
                res == inst_block(old(self).toks(), old(self).current as int),
                inst_from(self.toks(), self.current as int, ec2@) == res,
            decreases self.tokens.len() - self.current,
        {
            let k = self.current;
            if k >= self.tokens.len() {
                return Err(self.error_at(ParseErrorType::UnknownToken, k, "Unexpected "));
            }
            let tok = self.next().unwrap();
            assert(tok@ == self.toks()[k as int]);
            if tok.token_type == TokenType::Comment {
            } else if tok.token_type == TokenType::RightBrace {
                node.add_ec2(ec2);
                return Ok(());
            } else if tok.token_type == TokenType::Keyword {
                match ec2_attr(&tok.lexeme) {
                    Some(a) => match self.ec2_attribute(a, &mut ec2) {
                        Ok(()) => {},
                        Err(e) => {
                            return Err(e);
                        },
                    },
                    None => {
                        return Err(self.error_at(ParseErrorType::UnknownToken, k, "Invalid token "));
                    },
                }
            } else {
                return Err(self.error_at(ParseErrorType::UnknownToken, k, "Invalid token "));
            }
        }
    }

    /// Parse a deployment block whose `{` is the current token; `id` names the node.
    pub fn aws(&mut self, id: String) -> (r: Result<AwsNode, ParseError>)
        requires
            old(self).current <= old(self).tokens.len(),
        ensures
            final(self).tokens == old(self).tokens,
            result_view(r) == block_from(old(self).toks(), old(self).current as int, id@),
    {
        let ghost res = block_from(self.toks(), self.current as int, id@);
        match self.check_token(TokenType::LeftBrace) {
            Ok(()) => {},
            Err(e) => {
                return Err(e);
            },
        }
        let mut node = AwsNode::new(id);
        loop
            invariant
                self.tokens == old(self).tokens,
                self.current <= self.tokens.len(),
                res == block_from(old(self).toks(), old(self).current as int, id@),
                top_from(self.toks(), self.current as int, node@) == res,
            decreases self.tokens.len() - self.current,
        {
            let k = self.current;
            if k >= self.tokens.len() {
                return Err(self.error_at(ParseErrorType::UnknownToken, k, "Unexpected "));
            }
            let tok = self.next().unwrap();
            assert(tok@ == self.toks()[k as int]);
            if tok.token_type == TokenType::RightBrace {
                return Ok(node);
            } else if tok.token_type == TokenType::Keyword {
                match aws_attr(&tok.lexeme) {
                    Some(a) => match self.aws_attribute(a, &mut node) {
                        Ok(()) => {},
                        Err(e) => {
                            return Err(e);
                        },
                    },
                    None => {
                        if instance_word(&tok.lexeme) {
                            proof {
                                if self.toks()[k + 1].kind == TokenType::LeftBrace {
                                    lemma_inst_end(self.toks(), k + 2, empty_ec2());
                                }
                            }
                            match self.ec2(&mut node) {
                                Ok(()) => {},
                                Err(e) => {
                                    return Err(e);
                                },
                            }
                        } else {
                            return Err(
                                self.error_at(ParseErrorType::UnknownToken, k, "Invalid token "),
                            );
                        }
                    },
                }
            } else {
                return Err(self.error_at(ParseErrorType::UnknownToken, k, "Invalid token "));
            }
        }
    }

    /// Parse a program from the current token: a deployment keyword and its block.
    pub fn parse(&mut self) -> (r: Result<AwsNode, ParseError>)
        ensures
            final(self).tokens == old(self).tokens,
            result_view(r) == program_at(old(self).toks(), old(self).current as int),
    {
        let k = self.current;
        if let Some(n) = self.peek() {
            if n.token_type == TokenType::Keyword && deployment_word(&n.lexeme) {
                self.current = self.current + 1;
                return self.aws(n.lexeme.clone());
            }
        }
        Err(
            self.error_at(
                ParseErrorType::TokenMismatch,
                k,
                "Expecting a deployment block, but found: ",
            ),
        )
    }
}


/// Parse a whole token sequence.
pub fn parse_tokens(tokens: &Vec<Token>) -> (r: Result<AwsNode, ParseError>)
    ensures
        result_view(r) == parse_view(tokens_view(tokens@)),
{
    let mut parser = Parser::new(tokens);
    parser.parse()
}

} // verus!
