use awsdsl::actions::{collect_failures, get_instance_type, tag_name, AwsDeployError, AwsErrorType, InstanceSize};
use awsdsl::lex::{scan, ScanErrorKind, TokenType};
use awsdsl::nodes::Decimal;
use awsdsl::number::{decimal_string, parse_count, parse_decimal};
use awsdsl::parser::{parse_tokens, ParseErrorType, Parser};
use awsdsl::pipeline::{compile, CompileError};
use awsdsl::report::{error, report};
use awsdsl::stack::{AwsStack, Ec2};
use awsdsl::symbols::{walk_ast, AwsSym, MissingField};

fn compiled(text: &str) -> Result<AwsSym, CompileError> {
    compile(text.to_string()).1
}

const FULL: &str = "deployment { region = \"eu-west-1\" instance { name=\"n\" description=\"d\" instance_type=\"t2.micro\" ami=\"ami-1\" subnet_id=\"subnet-1\" sg_id=\"sg-1\" count=2 app_version=1.0 } }";

#[test]
fn full_deployment_resolves() {
    let sym = compiled(FULL).ok().unwrap();
    assert_eq!(sym.region, "eu-west-1");
    assert_eq!(sym.id, "deployment");
    assert_eq!(sym.ec2s.len(), 1);
    let e = &sym.ec2s[0];
    assert_eq!(e.count, 2);
    assert_eq!(e.id, "n");
    assert_eq!(e.name, "n");
    assert_eq!(e.desc, "d");
    assert_eq!(e.instance_type, "t2.micro");
    assert_eq!(e.ami_id, "ami-1");
    assert_eq!(e.subnet_id, "subnet-1");
    assert_eq!(e.sg_id, "sg-1");
    assert_eq!(e.app_version, Decimal { digits: 10, scale: 1 });
}

#[test]
fn missing_region_is_a_resolution_error() {
    let text = "aws { instance { name=\"n\" description=\"d\" instance_type=\"t\" ami=\"a\" subnet_id=\"s\" sg_id=\"g\" } }";
    match compiled(text) {
        Err(CompileError::Resolve(e)) => {
            assert_eq!(e.missing, MissingField::Region);
            assert_eq!(e.msg, "No region provided!");
        }
        _ => panic!("expected a resolution error"),
    }
}

#[test]
fn each_missing_instance_field_is_named() {
    let cases = [
        ("description=\"d\" instance_type=\"t\" ami=\"a\" subnet_id=\"s\" sg_id=\"g\"", MissingField::Name),
        ("name=\"n\" instance_type=\"t\" ami=\"a\" subnet_id=\"s\" sg_id=\"g\"", MissingField::Description),
        ("name=\"n\" description=\"d\" ami=\"a\" subnet_id=\"s\" sg_id=\"g\"", MissingField::InstanceType),
        ("name=\"n\" description=\"d\" instance_type=\"t\" subnet_id=\"s\" sg_id=\"g\"", MissingField::Ami),
        ("name=\"n\" description=\"d\" instance_type=\"t\" ami=\"a\" sg_id=\"g\"", MissingField::SubnetId),
        ("name=\"n\" description=\"d\" instance_type=\"t\" ami=\"a\" subnet_id=\"s\"", MissingField::SgId),
    ];
    for (attrs, field) in cases {
        let text = format!("aws {{ region = \"r\" ec2 {{ {} }} }}", attrs);
        match compiled(&text) {
            Err(CompileError::Resolve(e)) => assert_eq!(e.missing, field),
            _ => panic!("expected a resolution error"),
        }
    }
}

#[test]
fn comment_inside_instance_is_skipped() {
    let text = "aws { region = \"r\" ec2 {\n name=\"n\"\n // the image below\n description=\"d\" instance_type=\"t\" ami=\"a\" subnet_id=\"s\" sg_id=\"g\" } }";
    let sym = compiled(text).ok().unwrap();
    assert_eq!(sym.ec2s.len(), 1);
    assert_eq!(sym.ec2s[0].desc, "d");
    assert_eq!(sym.ec2s[0].sg_id, "g");
}

#[test]
fn two_instances_keep_their_order() {
    let text = "aws { region = \"r\"\n ec2 { name=\"first\" description=\"d\" instance_type=\"t\" ami=\"a\" subnet_id=\"s\" sg_id=\"g\" count=1 }\n ec2 { name=\"second\" description=\"d\" instance_type=\"t\" ami=\"a\" subnet_id=\"s\" sg_id=\"g\" count=3 } }";
    let sym = compiled(text).ok().unwrap();
    assert_eq!(sym.ec2s.len(), 2);
    assert_eq!(sym.ec2s[0].name, "first");
    assert_eq!(sym.ec2s[1].name, "second");
    assert_eq!(sym.ec2s[1].count, 3);
}

#[test]
fn second_instance_is_validated_on_its_own() {
    let text = "aws { region = \"r\"\n ec2 { name=\"first\" description=\"d\" instance_type=\"t\" ami=\"a\" subnet_id=\"s\" sg_id=\"g\" }\n ec2 { name=\"second\" description=\"d\" instance_type=\"t\" subnet_id=\"s\" sg_id=\"g\" } }";
    match compiled(text) {
        Err(CompileError::Resolve(e)) => assert_eq!(e.missing, MissingField::Ami),
        _ => panic!("expected a resolution error"),
    }
}

#[test]
fn unknown_attribute_is_reported_where_it_stands() {
    let text = "aws {\n  ec2 {\n    colour = \"red\"\n  }\n}";
    match compiled(text) {
        Err(CompileError::Parse(e)) => {
            assert_eq!(e.err_type, ParseErrorType::UnknownToken);
            assert_eq!((e.line_no, e.column_no), (3, 4));
        }
        _ => panic!("expected a parse error"),
    }
}

#[test]
fn reserved_word_that_is_no_attribute_is_unknown() {
    let text = "aws { ec2 { image = \"x\" } }";
    match compiled(text) {
        Err(CompileError::Parse(e)) => {
            assert_eq!(e.err_type, ParseErrorType::UnknownToken);
            assert_eq!((e.line_no, e.column_no), (1, 12));
        }
        _ => panic!("expected a parse error"),
    }
}

#[test]
fn missing_equal_is_a_token_mismatch() {
    let text = "aws { region \"r\" }";
    match compiled(text) {
        Err(CompileError::Parse(e)) => {
            assert_eq!(e.err_type, ParseErrorType::TokenMismatch);
            assert_eq!((e.line_no, e.column_no), (1, 13));
        }
        _ => panic!("expected a parse error"),
    }
}

#[test]
fn wrong_value_kind_is_a_token_mismatch() {
    match compiled("aws { ec2 { count = \"two\" } }") {
        Err(CompileError::Parse(e)) => {
            assert_eq!(e.err_type, ParseErrorType::TokenMismatch);
            assert_eq!((e.line_no, e.column_no), (1, 20));
        }
        _ => panic!("expected a parse error"),
    }
    match compiled("aws { ec2 { count = 2.5 } }") {
        Err(CompileError::Parse(e)) => assert_eq!(e.err_type, ParseErrorType::TokenMismatch),
        _ => panic!("expected a parse error"),
    }
}

#[test]
fn program_must_start_with_deployment() {
    match compiled("ec2 { }") {
        Err(CompileError::Parse(e)) => {
            assert_eq!(e.err_type, ParseErrorType::TokenMismatch);
            assert_eq!((e.line_no, e.column_no), (1, 0));
        }
        _ => panic!("expected a parse error"),
    }
}

#[test]
fn unclosed_block_is_an_unknown_token() {
    match compiled("aws { region = \"r\"") {
        Err(CompileError::Parse(e)) => assert_eq!(e.err_type, ParseErrorType::UnknownToken),
        _ => panic!("expected a parse error"),
    }
}

#[test]
fn zero_instances_resolve() {
    let sym = compiled("aws { name = \"n\" description = \"d\" region = \"r\" }").ok().unwrap();
    assert_eq!(sym.ec2s.len(), 0);
    assert_eq!(sym.region, "r");
}

#[test]
fn later_duplicate_attribute_wins() {
    let (tokens, _) = scan("aws { region = \"a\" region = \"b\" ec2 { name = \"x\" name = \"y\" key_name = \"k\" } }".to_string());
    let node = parse_tokens(&tokens).ok().unwrap();
    assert_eq!(node.region.as_deref(), Some("b"));
    assert_eq!(node.ec2_nodes[0].name.as_deref(), Some("y"));
    assert_eq!(node.ec2_nodes[0].id.as_deref(), Some("y"));
    assert_eq!(node.ec2_nodes[0].key_name.as_deref(), Some("k"));
    assert_eq!(node.ec2_nodes[0].count, 0);
    assert!(walk_ast(&node).is_err());
}

#[test]
fn single_attribute_values_round_trip() {
    let (tokens, _) = scan("aws { ec2 { ami = \"ami-0a1b\" } }".to_string());
    let node = parse_tokens(&tokens).ok().unwrap();
    assert_eq!(node.ec2_nodes[0].ami.as_deref(), Some("ami-0a1b"));
    let (tokens, _) = scan("aws { ec2 { count = 255 } }".to_string());
    assert_eq!(parse_tokens(&tokens).ok().unwrap().ec2_nodes[0].count, 255);
    let (tokens, _) = scan("aws { ec2 { app_version = 3.25 } }".to_string());
    assert_eq!(
        parse_tokens(&tokens).ok().unwrap().ec2_nodes[0].app_version,
        Decimal { digits: 325, scale: 2 }
    );
}

#[test]
fn scan_errors_are_collected() {
    let (tokens, errors) = scan("name # \"open".to_string());
    assert_eq!(errors.len(), 2);
    assert_eq!(errors[0].kind, ScanErrorKind::UnexpectedChar('#'));
    assert_eq!((errors[0].line_no, errors[0].column_no), (1, 5));
    assert_eq!(errors[1].kind, ScanErrorKind::UnterminatedString);
    assert_eq!((errors[1].line_no, errors[1].column_no), (1, 7));
    assert_eq!(tokens.len(), 2);
    assert_eq!(tokens[1].token_type, TokenType::EoF);
}

#[test]
fn numbers_convert_exactly() {
    assert_eq!(parse_count(&"0".to_string()), Some(0));
    assert_eq!(parse_count(&"255".to_string()), Some(255));
    assert_eq!(parse_count(&"256".to_string()), None);
    assert_eq!(parse_count(&"1.0".to_string()), None);
    assert_eq!(parse_count(&"".to_string()), None);
    assert_eq!(parse_decimal(&"10".to_string()), Some(Decimal { digits: 10, scale: 0 }));
    assert_eq!(parse_decimal(&"10.0".to_string()), Some(Decimal { digits: 100, scale: 1 }));
    assert_eq!(parse_decimal(&"10.".to_string()), Some(Decimal { digits: 10, scale: 0 }));
    assert_eq!(parse_decimal(&"1.2.3".to_string()), None);
    assert_eq!(parse_decimal(&"99999999999999999999".to_string()), None);
    assert_eq!(decimal_string(0), "0");
    assert_eq!(decimal_string(40213), "40213");
}

#[test]
fn reports_carry_the_line() {
    assert_eq!(report(12, "col 3", "bad"), "[line [12] Error where: col 3: bad] ");
    assert_eq!(error(0, "Lexer had errors!"), "[line [0] Error where: : Lexer had errors!] ");
}

#[test]
fn executor_decisions() {
    assert_eq!(get_instance_type(&"t2.micro".to_string()), InstanceSize::T2Micro);
    assert_eq!(get_instance_type(&"t3.small".to_string()), InstanceSize::T3Small);
    assert_eq!(get_instance_type(&"m5.large".to_string()), InstanceSize::T2Nano);
    assert_eq!(tag_name(&"web".to_string()), "awsdsl - web");
    assert!(collect_failures(&vec![]).is_ok());
    let e = collect_failures(&vec!["a".to_string(), "b".to_string()]).err().unwrap();
    assert_eq!(e.err_type, AwsErrorType::EC2Deploy);
    assert_eq!(e.message, "\n-> a\n-> b");
    assert_eq!(e.show(), "[ec2 deploy] \n-> a\n-> b");
    let d = AwsDeployError::new(AwsErrorType::EC2Deploy, "x".to_string());
    assert_eq!(d.show(), "[ec2 deploy] x");
}

#[test]
fn stack_holds_its_hosts() {
    let mut stack = AwsStack::new("my_aws".to_string(), "my aws".to_string(), "eu-west-1".to_string());
    stack.add_ec2(Ec2::new("id".to_string(), "n".to_string(), "d".to_string(), "img".to_string()));
    assert_eq!(stack.ec2_hosts.len(), 1);
    assert_eq!(stack.ec2_hosts[0].image, "img");
    assert_eq!(stack.region, "eu-west-1");
}

#[test]
fn decimals_write_back() {
    assert_eq!(Decimal { digits: 10, scale: 1 }.to_text(), "1.0");
    assert_eq!(Decimal { digits: 325, scale: 2 }.to_text(), "3.25");
    assert_eq!(Decimal { digits: 5, scale: 3 }.to_text(), "0.005");
    assert_eq!(Decimal { digits: 7, scale: 0 }.to_text(), "7");
    assert_eq!(Decimal { digits: 0, scale: 2 }.to_text(), "0.00");
}

#[test]
fn syntax_tree_prints_every_field() {
    let (tokens, _) = scan("aws { region = \"r\" ec2 { name = \"n\" count = 3 app_version = 1.5 } }".to_string());
    let node = parse_tokens(&tokens).ok().unwrap();
    let expected = "[aws]\n  - [name]: \n  - [description]: \n  - [region]: r\n  - [ec2]\n    - [name]: n\n    - [description]: \n    - [instance_type]: \n    - [count]: 3\n    - [app_version]: 1.5\n    - [ami]: \n    - [subnet_id]: \n    - [sg_id]: ";
    assert_eq!(node.print_ast(2), expected);
}

#[test]
fn parser_cursor_steps() {
    let (tokens, _) = scan("aws {".to_string());
    let mut p = Parser::new(&tokens);
    assert!(p.check_token(TokenType::LeftBrace).is_err());
    assert_eq!(p.current, 0);
    assert_eq!(p.next().map(|t| t.lexeme.clone()), Some("aws".to_string()));
    assert!(p.check_token(TokenType::LeftBrace).is_ok());
    assert_eq!(p.current, 2);
    assert!(p.next().is_some());
    assert!(p.next().is_none());
    assert_eq!(p.current, 4);
}

#[test]
fn failed_instance_block_leaves_the_node() {
    let (tokens, _) = scan("{ name = \"n\" colour = \"x\" }".to_string());
    let mut p = Parser::new(&tokens);
    let mut node = awsdsl::nodes::AwsNode::new("aws".to_string());
    assert!(p.ec2(&mut node).is_err());
    assert_eq!(node.ec2_nodes.len(), 0);
    let (tokens, _) = scan("{ name = \"n\" } rest".to_string());
    let mut p = Parser::new(&tokens);
    assert!(p.ec2(&mut node).is_ok());
    assert_eq!(node.ec2_nodes.len(), 1);
    assert_eq!(p.current, 5);
}
