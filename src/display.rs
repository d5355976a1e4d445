//! The syntax tree written out for people: one line per field, indented.
use vstd::prelude::*;

use crate::nodes::{AwsNode, AwsNodeView, Ec2Node, Ec2NodeView, ec2_views};
use crate::number::{decimal_chars, decimal_string, decimal_text};

verus! {

/// `n` spaces.
pub open spec fn spaces(n: nat) -> Seq<char>
    decreases n,
{
    if n == 0 {
        seq![]
    } else {
        spaces((n - 1) as nat).push(' ')
    }
}

/// The text of an optional field; an absent field shows as nothing.
pub open spec fn opt_text(o: Option<Seq<char>>) -> Seq<char> {
    match o {
        Some(s) => s,
        None => seq![],
    }
}

/// One field on a line of its own: `- [label]: value`, after the indent.
pub open spec fn field_line(indent: Seq<char>, label: Seq<char>, value: Seq<char>) -> Seq<char> {
    "\n"@ + indent + "- ["@ + label + "]: "@ + value
}

/// An instance node: a heading indented by `n`, then its fields indented by `2 n`.
pub open spec fn ec2_ast_text(e: Ec2NodeView, n: nat) -> Seq<char> {
    let inner = spaces(2 * n);
    spaces(n) + "- [ec2]"@ + field_line(inner, "name"@, opt_text(e.name)) + field_line(
        inner,
        "description"@,
        opt_text(e.description),
    ) + field_line(inner, "instance_type"@, opt_text(e.instance_type)) + field_line(
        inner,
        "count"@,
        decimal_chars(e.count as nat),
    ) + field_line(inner, "app_version"@, decimal_text(e.app_version)) + field_line(
        inner,
        "ami"@,
        opt_text(e.ami),
    ) + field_line(inner, "subnet_id"@, opt_text(e.subnet_id)) + field_line(
        inner,
        "sg_id"@,
        opt_text(e.sg_id),
    )
}

/// The instance nodes, each on lines of its own, in order.
pub open spec fn ec2_lines(s: Seq<Ec2NodeView>, n: nat) -> Seq<char>
    decreases s.len(),
{
    if s.len() == 0 {
        seq![]
    } else {
        ec2_lines(s.drop_last(), n) + "\n"@ + ec2_ast_text(s.last(), n)
    }
}

/// A deployment node: its fields indented by `n`, then its instances in order.
pub open spec fn aws_ast_text(a: AwsNodeView, n: nat) -> Seq<char> {
    let indent = spaces(n);
    "[aws]"@ + field_line(indent, "name"@, opt_text(a.name)) + field_line(
        indent,
        "description"@,
        opt_text(a.description),
    ) + field_line(indent, "region"@, opt_text(a.region)) + ec2_lines(a.ec2_nodes, n)
}

fn spaces_string(n: usize) -> (r: String)
    ensures
        r@ == spaces(n as nat),
{
    let mut s = String::new();
    let mut i: usize = 0;
    while i < n
        invariant
            i <= n,
            s@ == spaces(i as nat),
        decreases n - i,
    {
        proof {
            reveal_strlit(" ");
        }
        s.append(" ");
        i = i + 1;
        assert(s@ =~= spaces(i as nat));
    }
    s
}

fn opt_str(o: &Option<String>) -> (r: &str)
    ensures
        r@ == opt_text(crate::lex::opt_view(*o)),
{
    match o {
        Some(s) => s.as_str(),
        None => {
            proof {
                reveal_strlit("");
            }
            ""
        },
    }
}

fn push_field(s: &mut String, indent: &str, label: &str, value: &str)
    ensures
        final(s)@ == old(s)@ + field_line(indent@, label@, value@),
{
    s.append("\n");
    s.append(indent);
    s.append("- [");
    s.append(label);
    s.append("]: ");
    s.append(value);
    assert(final(s)@ =~= old(s)@ + field_line(indent@, label@, value@));
}

impl Ec2Node {
    /// The node written out, its heading indented by `n_spaces`.
    pub fn print_ast(&self, n_spaces: u8) -> (r: String)
        ensures
            r@ == ec2_ast_text(self@, n_spaces as nat),
    {
        let inner = spaces_string(2 * n_spaces as usize);
        let mut s = spaces_string(n_spaces as usize);
        s.append("- [ec2]");
        push_field(&mut s, inner.as_str(), "name", opt_str(&self.name));
        push_field(&mut s, inner.as_str(), "description", opt_str(&self.description));
        push_field(&mut s, inner.as_str(), "instance_type", opt_str(&self.instance_type));
        push_field(&mut s, inner.as_str(), "count", decimal_string(self.count as u64).as_str());
        push_field(&mut s, inner.as_str(), "app_version", self.app_version.to_text().as_str());
        push_field(&mut s, inner.as_str(), "ami", opt_str(&self.ami));
        push_field(&mut s, inner.as_str(), "subnet_id", opt_str(&self.subnet_id));
        push_field(&mut s, inner.as_str(), "sg_id", opt_str(&self.sg_id));
        s
    }
}

impl AwsNode {
    /// The tree written out, its fields indented by `n_spaces`.
    pub fn print_ast(&self, n_spaces: u8) -> (r: String)
        ensures
            r@ == aws_ast_text(self@, n_spaces as nat),
    {
        let indent = spaces_string(n_spaces as usize);
        let mut s = String::from_str("[aws]");
        push_field(&mut s, indent.as_str(), "name", opt_str(&self.name));
        push_field(&mut s, indent.as_str(), "description", opt_str(&self.description));
        push_field(&mut s, indent.as_str(), "region", opt_str(&self.region));
        let ghost head = s@;
        let ghost nodes = ec2_views(self.ec2_nodes@);
        let mut i: usize = 0;
        while i < self.ec2_nodes.len()
            invariant
                i <= self.ec2_nodes.len(),
                nodes == ec2_views(self.ec2_nodes@),
                s@ == head + ec2_lines(nodes.take(i as int), n_spaces as nat),
            decreases self.ec2_nodes.len() - i,
        {
            proof {
                assert(nodes.take(i + 1).drop_last() =~= nodes.take(i as int));
            }
            s.append("\n");
            s.append(self.ec2_nodes[i].print_ast(n_spaces).as_str());
            i = i + 1;
            assert(s@ =~= head + ec2_lines(nodes.take(i as int), n_spaces as nat));
        }
        assert(nodes.take(i as int) =~= nodes);
        s
    }
}

} // verus!
