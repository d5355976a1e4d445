//! Properties of the front end as a whole, stated over the mathematical
//! models that the scanner, the parser and the resolver are proved to compute.
use vstd::prelude::*;

use crate::lex::{
    Run, Step, TokenType, TokenView, column_at, in_run, is_digit, is_reserved, is_word_char,
    is_word_start, lemma_step_advances, line_at, run_end, step_at, step_end, step_tokens,
    token_column, tokens_from,
};
use crate::nodes::{AwsNodeView, Decimal, Ec2NodeView, empty_ec2};
use crate::number::{
    all_digits, count_of, decimal_chars, decimal_of, digit_char, digit_val, digits_value,
    lemma_digits_push,
};
use crate::parser::{
    AttrValue, Ec2Attr, ParseErrorType, ParseErrorView, aws_attr_of, ec2_attr_of, ec2_value,
    err_at, inst_block, inst_from, parse_view, set_ec2, top_from, value_kind,
};
use crate::symbols::{MissingField, resolve_all, resolve_ec2, resolve_view};

verus! {

/// How many newlines `x` holds.
pub open spec fn newlines(x: Seq<char>) -> nat
    decreases x.len(),
{
    if x.len() == 0 {
        0
    } else {
        newlines(x.drop_last()) + if x.last() == '\n' {
            1nat
        } else {
            0nat
        }
    }
}

/// A run that holds up to `e` and stops there ends at `e`.
pub proof fn lemma_run_end_at(s: Seq<char>, i: int, e: int, run: Run)
    requires
        0 <= i <= e <= s.len(),
        forall|k: int| i <= k < e ==> in_run(run, #[trigger] s[k]),
        e == s.len() || !in_run(run, s[e]),
    ensures
        run_end(s, i, run) == e,
    decreases e - i,
{
    if i < e {
        lemma_run_end_at(s, i + 1, e, run);
    }
}

/// The line of a position is the line of an earlier one plus the newlines between them.
pub proof fn lemma_line_advance(s: Seq<char>, i: int, j: int)
    requires
        0 <= i <= j <= s.len(),
    ensures
        line_at(s, j) == line_at(s, i) + newlines(s.subrange(i, j)),
    decreases j - i,
{
    if i < j {
        lemma_line_advance(s, i, j - 1);
        assert(s.subrange(i, j).drop_last() =~= s.subrange(i, j - 1));
    } else {
        assert(s.subrange(i, j).len() == 0);
    }
}

/// A string literal is scanned as one token whatever newlines it holds: its
/// value is exactly the text between the quotes, and the text after it lies on
/// the line of the opening quote plus the newlines inside the literal.
pub proof fn law_multiline_string(s: Seq<char>, i: int, q: int)
    requires
        0 <= i < q < s.len(),
        s[i] == '"',
        s[q] == '"',
        forall|k: int| i < k < q ==> #[trigger] s[k] != '"',
    ensures
        tokens_from(s, i) == seq![
            TokenView {
                kind: TokenType::StringLiteral,
                lexeme: s.subrange(i, q + 1),
                literal: Some(s.subrange(i + 1, q)),
                line: line_at(s, q + 1),
                column: token_column(s, i, q + 1),
            },
        ] + tokens_from(s, q + 1),
        line_at(s, q + 1) == line_at(s, i) + newlines(s.subrange(i + 1, q)),
{
    lemma_run_end_at(s, i + 1, q, Run::StringBody);
    assert(step_at(s, i) == Step::Emit(TokenType::StringLiteral, Some(s.subrange(i + 1, q)), q + 1));
    lemma_line_advance(s, i + 1, q);
}

/// A comment inside an instance block is skipped: parsing goes on from the
/// next token with the same instance so far.
pub proof fn law_comment_skipped(t: Seq<TokenView>, k: int, inst: Ec2NodeView)
    requires
        0 <= k < t.len(),
        t[k].kind == TokenType::Comment,
    ensures
        inst_from(t, k, inst) == inst_from(t, k + 1, inst),
{
}

/// A word that is not reserved scans as an identifier; an identifier where an
/// attribute is expected, in the deployment block or in an instance block, is
/// an unknown token reported at the identifier's own line and column.
pub proof fn law_unknown_attribute(
    s: Seq<char>,
    i: int,
    t: Seq<TokenView>,
    k: int,
    node: AwsNodeView,
    inst: Ec2NodeView,
)
    requires
        0 <= i < s.len(),
        is_word_start(s[i]),
        !is_reserved(s.subrange(i, run_end(s, i + 1, Run::Word))),
        0 <= k < t.len(),
        t[k].kind == TokenType::Identifier,
    ensures
        ({
            let e = run_end(s, i + 1, Run::Word);
            step_at(s, i) == Step::Emit(TokenType::Identifier, Some(s.subrange(i, e)), e)
        }),
        top_from(t, k, node) == Err::<AwsNodeView, ParseErrorView>(
            ParseErrorView { kind: ParseErrorType::UnknownToken, line: t[k].line, column: t[k].column },
        ),
        inst_from(t, k, inst) == Err::<(Ec2NodeView, int), ParseErrorView>(
            ParseErrorView { kind: ParseErrorType::UnknownToken, line: t[k].line, column: t[k].column },
        ),
{
}

/// A deployment without a region resolves to the missing-region error, and to
/// no symbol table, whatever else it holds.
pub proof fn law_region_required(n: AwsNodeView)
    requires
        n.region is None,
    ensures
        resolve_view(n) == Err::<crate::symbols::AwsSymView, MissingField>(MissingField::Region),
{
}

/// Instances resolve one by one, in their order: resolution succeeds exactly
/// when every instance resolves on its own, and then the table holds each
/// instance's symbol at the instance's index; otherwise it fails with the
/// failure of the first instance that does not resolve.
pub proof fn law_instances_in_order(s: Seq<Ec2NodeView>)
    ensures
        resolve_all(s) is Ok <==> forall|i: int| 0 <= i < s.len() ==> (#[trigger] resolve_ec2(s[i])) is Ok,
        resolve_all(s) is Ok ==> resolve_all(s)->Ok_0.len() == s.len() && forall|i: int|
            0 <= i < s.len() ==> resolve_all(s)->Ok_0[i] == (#[trigger] resolve_ec2(s[i]))->Ok_0,
        resolve_all(s) is Err ==> exists|j: int|
            0 <= j < s.len() && (#[trigger] resolve_ec2(s[j])) is Err && resolve_all(s)->Err_0
                == resolve_ec2(s[j])->Err_0 && forall|i: int| 0 <= i < j ==> (#[trigger] resolve_ec2(s[i])) is Ok,
    decreases s.len(),
{
    if s.len() > 0 {
        let rest = s.subrange(1, s.len() as int);
        law_instances_in_order(rest);
        assert forall|i: int| 1 <= i < s.len() implies s[i] == rest[i - 1] by {}
        if resolve_ec2(s[0]) is Ok {
            if resolve_all(rest) is Ok {
                let v = resolve_all(rest)->Ok_0;
                assert forall|i: int| 0 <= i < s.len() implies resolve_all(s)->Ok_0[i] == (#[trigger] resolve_ec2(s[i]))->Ok_0 by {
                    if i > 0 {
                        assert(resolve_ec2(rest[i - 1]) is Ok);
                    }
                }
            } else {
                let j = choose|j: int|
                    0 <= j < rest.len() && (#[trigger] resolve_ec2(rest[j])) is Err && resolve_all(rest)->Err_0
                        == resolve_ec2(rest[j])->Err_0 && forall|i: int| 0 <= i < j ==> (#[trigger] resolve_ec2(rest[i])) is Ok;
                assert(resolve_ec2(s[j + 1]) is Err);
                assert forall|i: int| 0 <= i < j + 1 implies (#[trigger] resolve_ec2(s[i])) is Ok by {
                    if i > 0 {
                        assert(resolve_ec2(rest[i - 1]) is Ok);
                    }
                }
            }
        } else {
            assert(resolve_ec2(s[0]) is Err);
        }
    }
}


/// Every character of `w` may continue a word.
pub open spec fn word_chars(w: Seq<char>) -> bool
    decreases w.len(),
{
    w.len() == 0 || (is_word_char(w[0]) && word_chars(w.subrange(1, w.len() as int)))
}

proof fn lemma_word_chars(w: Seq<char>)
    requires
        word_chars(w),
    ensures
        forall|k: int| 0 <= k < w.len() ==> is_word_char(#[trigger] w[k]),
    decreases w.len(),
{
    if w.len() > 0 {
        let rest = w.subrange(1, w.len() as int);
        lemma_word_chars(rest);
        assert forall|k: int| 0 <= k < w.len() implies is_word_char(#[trigger] w[k]) by {
            if k > 0 {
                assert(w[k] == rest[k - 1]);
            }
        }
    }
}

/// The name of an instance attribute is a reserved word of word characters.
proof fn lemma_attr_word(w: Seq<char>)
    requires
        ec2_attr_of(w) is Some,
    ensures
        w.len() > 0,
        is_word_start(w[0]),
        forall|k: int| 0 <= k < w.len() ==> is_word_char(#[trigger] w[k]),
        is_reserved(w),
{
    reveal_strlit("name");
    reveal_strlit("description");
    reveal_strlit("instance_type");
    reveal_strlit("ami");
    reveal_strlit("subnet_id");
    reveal_strlit("sg_id");
    reveal_strlit("key_name");
    reveal_strlit("count");
    reveal_strlit("app_version");
    reveal_with_fuel(word_chars, 14);
    assert(word_chars(w));
    lemma_word_chars(w);
}

proof fn lemma_unfold(s: Seq<char>, i: int)
    requires
        0 <= i < s.len(),
    ensures
        tokens_from(s, i) == step_tokens(s, i, step_at(s, i)) + tokens_from(
            s,
            step_end(step_at(s, i)),
        ),
{
    lemma_step_advances(s, i);
}

/// The text of a deployment holding one instance block with one attribute `w`
/// set to the string `v`.
pub open spec fn single_attr_text(w: Seq<char>, v: Seq<char>) -> Seq<char> {
    "aws{ec2{"@ + w + "=\""@ + v + "\"}}"@
}

/// A string attribute round-trips: scanning and parsing a deployment whose one
/// instance block sets one string attribute gives that instance with exactly
/// the text between the quotes in that attribute, and nothing else set.
pub proof fn law_string_attribute_round_trip(w: Seq<char>, v: Seq<char>)
    requires
        ec2_attr_of(w) is Some,
        value_kind(ec2_attr_of(w)->0) == TokenType::StringLiteral,
        forall|k: int| 0 <= k < v.len() ==> #[trigger] v[k] != '"',
    ensures
        parse_view(tokens_from(single_attr_text(w, v), 0)) == Ok::<AwsNodeView, ParseErrorView>(
            AwsNodeView {
                id: "aws"@,
                name: None,
                description: None,
                region: None,
                ec2_nodes: seq![set_ec2(empty_ec2(), ec2_attr_of(w)->0, AttrValue::Text(v))],
            },
        ),
{
    let s = single_attr_text(w, v);
    let l = w.len() as int;
    let n = v.len() as int;
    let m = 10 + l + n;
    reveal_strlit("aws{ec2{");
    reveal_strlit("=\"");
    reveal_strlit("\"}}");
    reveal_strlit("aws");
    reveal_strlit("ec2");
    reveal_strlit("name");
    reveal_strlit("description");
    reveal_strlit("region");
    lemma_attr_word(w);
    assert(s.len() == m + 3);
    assert(s[0] == 'a' && s[1] == 'w' && s[2] == 's' && s[3] == '{');
    assert(s[4] == 'e' && s[5] == 'c' && s[6] == '2' && s[7] == '{');
    assert forall|k: int| 0 <= k < l implies s[8 + k] == #[trigger] w[k] by {}
    assert(s[8 + l] == '=' && s[9 + l] == '"');
    assert forall|k: int| 0 <= k < n implies s[10 + l + k] == #[trigger] v[k] by {}
    assert(s[m] == '"' && s[m + 1] == '}' && s[m + 2] == '}');

    lemma_run_end_at(s, 1, 3, Run::Word);
    assert(s.subrange(0, 3) =~= "aws"@);
    lemma_run_end_at(s, 5, 7, Run::Word);
    assert(s.subrange(4, 7) =~= "ec2"@);
    assert forall|k: int| 9 <= k < 8 + l implies in_run(Run::Word, #[trigger] s[k]) by {
        assert(s[k] == w[k - 8]);
    }
    lemma_run_end_at(s, 9, 8 + l, Run::Word);
    assert(s.subrange(8, 8 + l) =~= w);
    assert forall|k: int| 10 + l <= k < m implies in_run(Run::StringBody, #[trigger] s[k]) by {
        assert(s[k] == v[k - 10 - l]);
    }
    lemma_run_end_at(s, 10 + l, m, Run::StringBody);
    assert(s.subrange(10 + l, m) =~= v);

    lemma_unfold(s, 0);
    lemma_unfold(s, 3);
    lemma_unfold(s, 4);
    lemma_unfold(s, 7);
    lemma_unfold(s, 8);
    lemma_unfold(s, 8 + l);
    lemma_unfold(s, 9 + l);
    lemma_unfold(s, m + 1);
    lemma_unfold(s, m + 2);
    let t = tokens_from(s, 0);
    assert(t.len() == 10);
    assert(t[0].kind == TokenType::Keyword && t[0].lexeme == "aws"@);
    assert(t[1].kind == TokenType::LeftBrace);
    assert(t[2].kind == TokenType::Keyword && t[2].lexeme == "ec2"@);
    assert(t[3].kind == TokenType::LeftBrace);
    assert(t[4].kind == TokenType::Keyword && t[4].lexeme == w);
    assert(t[5].kind == TokenType::Equal);
    assert(t[6].kind == TokenType::StringLiteral && t[6].literal == Some(v));
    assert(t[7].kind == TokenType::RightBrace);
    assert(t[8].kind == TokenType::RightBrace);

    let a = ec2_attr_of(w)->0;
    let inst = set_ec2(empty_ec2(), a, AttrValue::Text(v));
    let node0 = AwsNodeView {
        id: "aws"@,
        name: None,
        description: None,
        region: None,
        ec2_nodes: seq![],
    };
    let node1 = AwsNodeView { ec2_nodes: node0.ec2_nodes.push(inst), ..node0 };
    assert(node1.ec2_nodes =~= seq![inst]);
    assert(top_from(t, 8, node1) == Ok::<AwsNodeView, ParseErrorView>(node1));
    assert(inst_from(t, 7, inst) == Ok::<(Ec2NodeView, int), ParseErrorView>((inst, 8)));
    assert(inst_from(t, 4, empty_ec2()) == inst_from(t, 7, inst));
    assert(inst_block(t, 3) == inst_from(t, 4, empty_ec2()));
    assert(top_from(t, 2, node0) == top_from(t, 8, node1));
}


/// What a number literal `x` converts to as the value of the instance attribute `a`.
pub open spec fn number_value(a: Ec2Attr, x: Seq<char>) -> Option<AttrValue> {
    match a {
        Ec2Attr::Count => match count_of(x) {
            Some(c) => Some(AttrValue::Count(c)),
            None => None,
        },
        Ec2Attr::AppVersion => match decimal_of(x) {
            Some(d) => Some(AttrValue::Version(d)),
            None => None,
        },
        _ => None,
    }
}

/// The text of a deployment holding one instance block with one attribute `w`
/// set to the number literal `x`.
pub open spec fn single_number_text(w: Seq<char>, x: Seq<char>) -> Seq<char> {
    "aws{ec2{"@ + w + "="@ + x + "}}"@
}

/// A number attribute round-trips: scanning and parsing a deployment whose one
/// instance block sets `count` or `app_version` to a number literal that
/// converts gives that instance with exactly the converted value, and nothing
/// else set.
#[verifier::rlimit(60)]
pub proof fn law_number_attribute_round_trip(w: Seq<char>, x: Seq<char>)
    requires
        ec2_attr_of(w) is Some,
        x.len() > 0,
        is_digit(x[0]),
        forall|k: int| 0 <= k < x.len() ==> in_run(Run::Number, #[trigger] x[k]),
        number_value(ec2_attr_of(w)->0, x) is Some,
    ensures
        parse_view(tokens_from(single_number_text(w, x), 0)) == Ok::<AwsNodeView, ParseErrorView>(
            AwsNodeView {
                id: "aws"@,
                name: None,
                description: None,
                region: None,
                ec2_nodes: seq![
                    set_ec2(empty_ec2(), ec2_attr_of(w)->0, number_value(ec2_attr_of(w)->0, x)->0),
                ],
            },
        ),
{
    let s = single_number_text(w, x);
    let l = w.len() as int;
    let n = x.len() as int;
    let m = 9 + l + n;
    reveal_strlit("aws{ec2{");
    reveal_strlit("=");
    reveal_strlit("}}");
    reveal_strlit("aws");
    reveal_strlit("ec2");
    reveal_strlit("name");
    reveal_strlit("description");
    reveal_strlit("region");
    lemma_attr_word(w);
    assert(s.len() == m + 2);
    assert(s[0] == 'a' && s[1] == 'w' && s[2] == 's' && s[3] == '{');
    assert(s[4] == 'e' && s[5] == 'c' && s[6] == '2' && s[7] == '{');
    assert forall|k: int| 0 <= k < l implies s[8 + k] == #[trigger] w[k] by {}
    assert(s[8 + l] == '=');
    assert forall|k: int| 0 <= k < n implies s[9 + l + k] == #[trigger] x[k] by {}
    assert(s[m] == '}' && s[m + 1] == '}');

    lemma_run_end_at(s, 1, 3, Run::Word);
    assert(s.subrange(0, 3) =~= "aws"@);
    lemma_run_end_at(s, 5, 7, Run::Word);
    assert(s.subrange(4, 7) =~= "ec2"@);
    assert forall|k: int| 9 <= k < 8 + l implies in_run(Run::Word, #[trigger] s[k]) by {
        assert(s[k] == w[k - 8]);
    }
    lemma_run_end_at(s, 9, 8 + l, Run::Word);
    assert(s.subrange(8, 8 + l) =~= w);
    assert forall|k: int| 10 + l <= k < m implies in_run(Run::Number, #[trigger] s[k]) by {
        assert(s[k] == x[k - 9 - l]);
    }
    lemma_run_end_at(s, 10 + l, m, Run::Number);
    assert(s.subrange(9 + l, m) =~= x);

    lemma_unfold(s, 0);
    lemma_unfold(s, 3);
    lemma_unfold(s, 4);
    lemma_unfold(s, 7);
    lemma_unfold(s, 8);
    lemma_unfold(s, 8 + l);
    lemma_unfold(s, 9 + l);
    lemma_unfold(s, m);
    lemma_unfold(s, m + 1);
    let t = tokens_from(s, 0);
    assert(t.len() == 10);
    assert(t[0].kind == TokenType::Keyword && t[0].lexeme == "aws"@);
    assert(t[1].kind == TokenType::LeftBrace);
    assert(t[2].kind == TokenType::Keyword && t[2].lexeme == "ec2"@);
    assert(t[3].kind == TokenType::LeftBrace);
    assert(t[4].kind == TokenType::Keyword && t[4].lexeme == w);
    assert(t[5].kind == TokenType::Equal);
    assert(t[6].kind == TokenType::Number && t[6].lexeme == x);
    assert(t[7].kind == TokenType::RightBrace);
    assert(t[8].kind == TokenType::RightBrace);

    let a = ec2_attr_of(w)->0;
    let inst = set_ec2(empty_ec2(), a, number_value(a, x)->0);
    let node0 = AwsNodeView {
        id: "aws"@,
        name: None,
        description: None,
        region: None,
        ec2_nodes: seq![],
    };
    let node1 = AwsNodeView { ec2_nodes: node0.ec2_nodes.push(inst), ..node0 };
    assert(node1.ec2_nodes =~= seq![inst]);
    assert(top_from(t, 8, node1) == Ok::<AwsNodeView, ParseErrorView>(node1));
    assert(inst_from(t, 7, inst) == Ok::<(Ec2NodeView, int), ParseErrorView>((inst, 8)));
    assert(inst_from(t, 4, empty_ec2()) == inst_from(t, 7, inst));
    assert(inst_block(t, 3) == inst_from(t, 4, empty_ec2()));
    assert(top_from(t, 2, node0) == top_from(t, 8, node1));
}

proof fn lemma_digit_char(d: nat)
    requires
        d < 10,
    ensures
        is_digit(digit_char(d)),
        digit_val(digit_char(d)) == d,
{
}

/// The decimal writing of `n` is a numeral worth exactly `n`.
pub proof fn lemma_decimal_chars(n: nat)
    ensures
        decimal_chars(n).len() > 0,
        all_digits(decimal_chars(n)),
        digits_value(decimal_chars(n)) == n,
    decreases n,
{
    if n < 10 {
        lemma_digit_char(n);
        assert(seq![digit_char(n)].drop_last() =~= Seq::<char>::empty());
        assert(digits_value(Seq::<char>::empty()) == 0);
        assert(decimal_chars(n) == seq![digit_char(n)]);
        assert(digits_value(seq![digit_char(n)]) == n);
    } else {
        lemma_decimal_chars(n / 10);
        lemma_digit_char(n % 10);
        lemma_digits_push(decimal_chars(n / 10), digit_char(n % 10));
        vstd::arithmetic::div_mod::lemma_fundamental_div_mod(n as int, 10);
        let p = decimal_chars(n / 10);
        assert(decimal_chars(n) == p.push(digit_char(n % 10)));
        assert(digits_value(decimal_chars(n)) == digits_value(p) * 10 + digit_val(digit_char(n % 10)));
        assert forall|i: int| 0 <= i < decimal_chars(n).len() implies is_digit(#[trigger] decimal_chars(n)[i]) by {
            if i < p.len() {
                assert(decimal_chars(n)[i] == p[i]);
            }
        }
    }
}

/// Counts are exact: every `u8` written in decimal converts back to itself.
pub proof fn law_count_exact(n: u8)
    ensures
        count_of(decimal_chars(n as nat)) == Some(n),
{
    lemma_decimal_chars(n as nat);
}

/// Versions are exact: every `u64` written in decimal converts to itself with scale 0.
pub proof fn law_version_exact(d: u64)
    ensures
        decimal_of(decimal_chars(d as nat)) == Some(Decimal { digits: d, scale: 0 }),
{
    let x = decimal_chars(d as nat);
    lemma_decimal_chars(d as nat);
    lemma_run_end_at(x, 0, x.len() as int, Run::Digits);
}


/// Resolution keeps every value exactly: a resolved instance holds the node's
/// name (as its id and its name), description, type, image, subnet, security
/// group, version and count, unchanged.
pub proof fn law_resolution_keeps_values(e: Ec2NodeView)
    requires
        resolve_ec2(e) is Ok,
    ensures
        ({
            let sym = resolve_ec2(e)->Ok_0;
            &&& Some(sym.id) == e.id
            &&& Some(sym.name) == e.id
            &&& Some(sym.desc) == e.description
            &&& Some(sym.instance_type) == e.instance_type
            &&& Some(sym.ami_id) == e.ami
            &&& Some(sym.subnet_id) == e.subnet_id
            &&& Some(sym.sg_id) == e.sg_id
            &&& sym.app_version == e.app_version
            &&& sym.count == e.count
        }),
{
}


proof fn lemma_shift_err(t: Seq<TokenView>, k: int, j: int, kind: ParseErrorType)
    requires
        0 <= k < t.len() - 1,
        k < j,
    ensures
        err_at(kind, t, j) == err_at(kind, t.remove(k), j - 1),
{
}

/// Parsing an instance body from `j` after a removed token `k` gives the same
/// instance, ending one index earlier, or the same error.
proof fn lemma_shift_inst(t: Seq<TokenView>, k: int, j: int, inst: Ec2NodeView)
    requires
        0 <= k < t.len() - 1,
        k < j,
    ensures
        match inst_from(t, j, inst) {
            Ok((i, e)) => inst_from(t.remove(k), j - 1, inst) == Ok::<
                (Ec2NodeView, int),
                ParseErrorView,
            >((i, e - 1)),
            Err(x) => inst_from(t.remove(k), j - 1, inst) == Err::<
                (Ec2NodeView, int),
                ParseErrorView,
            >(x),
        },
    decreases t.len() - j,
{
    let u = t.remove(k);
    lemma_shift_err(t, k, j, ParseErrorType::UnknownToken);
    lemma_shift_err(t, k, j + 1, ParseErrorType::TokenMismatch);
    lemma_shift_err(t, k, j + 2, ParseErrorType::TokenMismatch);
    if 0 <= j < t.len() {
        assert(u[j - 1] == t[j]);
        if j + 1 < t.len() {
            assert(u[j] == t[j + 1]);
        }
        if j + 2 < t.len() {
            assert(u[j + 1] == t[j + 2]);
        }
        if t[j].kind == TokenType::Comment {
            lemma_shift_inst(t, k, j + 1, inst);
        } else if t[j].kind == TokenType::RightBrace {
        } else if t[j].kind == TokenType::Keyword && ec2_attr_of(t[j].lexeme) is Some {
            let a = ec2_attr_of(t[j].lexeme)->0;
            assert(ec2_value(t, j, a) == ec2_value(u, j - 1, a));
            if ec2_value(t, j, a) is Ok {
                lemma_shift_inst(t, k, j + 3, set_ec2(inst, a, ec2_value(t, j, a)->Ok_0));
            }
        }
    }
}

/// A comment inside an instance block changes nothing: parsing the block on
/// from it gives the same instance (its end one index earlier) or the same
/// error as parsing the same tokens with the comment taken out, so every later
/// attribute, and the resolution that follows, is as it would be without it.
/// (The comment is not the last token, as end-of-input follows every scanned
/// text.)
pub proof fn law_comment_removed(t: Seq<TokenView>, k: int, inst: Ec2NodeView)
    requires
        0 <= k < t.len() - 1,
        t[k].kind == TokenType::Comment,
    ensures
        match inst_from(t, k, inst) {
            Ok((i, e)) => inst_from(t.remove(k), k, inst) == Ok::<
                (Ec2NodeView, int),
                ParseErrorView,
            >((i, e - 1)),
            Err(x) => inst_from(t.remove(k), k, inst) == Err::<
                (Ec2NodeView, int),
                ParseErrorView,
            >(x),
        },
{
    lemma_shift_inst(t, k, k + 1, inst);
}

} // verus!
