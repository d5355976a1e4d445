//! The symbol table, and the resolver that builds it from a syntax tree.
//!
//! Every field of a symbol is required: resolution fails on the first field
//! that the tree leaves unset, the deployment's region first, then the
//! instances in their order.
//!
//! A deployment with no instance blocks resolves to a table with no instances,
//! and a count of 0 resolves as given: neither is an error of the language,
//! and what to do with them is the executor's choice.
use vstd::prelude::*;

use crate::nodes::{AwsNode, AwsNodeView, Decimal, Ec2Node, Ec2NodeView, ec2_views};

verus! {

pub struct Ec2SymView {
    pub id: Seq<char>,
    pub name: Seq<char>,
    pub desc: Seq<char>,
    pub instance_type: Seq<char>,
    pub ami_id: Seq<char>,
    pub subnet_id: Seq<char>,
    pub sg_id: Seq<char>,
    pub app_version: Decimal,
    pub count: u8,
}

pub struct AwsSymView {
    pub id: Seq<char>,
    pub region: Seq<char>,
    pub ec2s: Seq<Ec2SymView>,
}

/// A validated instance.
pub struct Ec2Sym {
    pub id: String,
    pub name: String,
    pub desc: String,
    pub instance_type: String,
    pub ami_id: String,
    pub subnet_id: String,
    pub sg_id: String,
    pub app_version: Decimal,
    pub count: u8,
}

/// A validated deployment: the symbol table.
pub struct AwsSym {
    pub id: String,
    pub region: String,
    pub ec2s: Vec<Ec2Sym>,
}

impl View for Ec2Sym {
    type V = Ec2SymView;

    open spec fn view(&self) -> Ec2SymView {
        Ec2SymView {
            id: self.id@,
            name: self.name@,
            desc: self.desc@,
            instance_type: self.instance_type@,
            ami_id: self.ami_id@,
            subnet_id: self.subnet_id@,
            sg_id: self.sg_id@,
            app_version: self.app_version,
            count: self.count,
        }
    }
}

/// What each instance symbol is.
pub open spec fn sym_views(v: Seq<Ec2Sym>) -> Seq<Ec2SymView> {
    v.map_values(|e: Ec2Sym| e@)
}

impl View for AwsSym {
    type V = AwsSymView;

    open spec fn view(&self) -> AwsSymView {
        AwsSymView { id: self.id@, region: self.region@, ec2s: sym_views(self.ec2s@) }
    }
}

impl Ec2Sym {
    /// An instance symbol; its id is its name.
    pub fn new(
        name: String,
        desc: String,
        instance_type: String,
        ami_id: String,
        subnet_id: String,
        sg_id: String,
        app_version: Decimal,
        count: u8,
    ) -> (r: Self)
        ensures
            r@ == (Ec2SymView {
                id: name@,
                name: name@,
                desc: desc@,
                instance_type: instance_type@,
                ami_id: ami_id@,
                subnet_id: subnet_id@,
                sg_id: sg_id@,
                app_version,
                count,
            }),
    {
        Ec2Sym {
            id: name.clone(),
            name,
            desc,
            instance_type,
            ami_id,
            subnet_id,
            sg_id,
            app_version,
            count,
        }
    }
}

impl AwsSym {
    pub fn new(id: String, region: String) -> (r: Self)
        ensures
            r@ == (AwsSymView { id: id@, region: region@, ec2s: seq![] }),
    {
        let r = AwsSym { id, region, ec2s: Vec::new() };
        assert(sym_views(r.ec2s@) =~= Seq::<Ec2SymView>::empty());
        r
    }

    pub fn add_ec2(&mut self, ec2: Ec2Sym)
        ensures
            final(self)@ == (AwsSymView { ec2s: old(self)@.ec2s.push(ec2@), ..old(self)@ }),
    {
        self.ec2s.push(ec2);
        assert(sym_views(self.ec2s@) =~= sym_views(old(self).ec2s@).push(ec2@));
    }
}

/// The field whose absence stopped resolution.
#[derive(Clone, Copy, Debug, PartialEq, Eq, Structural)]
pub enum MissingField {
    Region,
    Name,
    Description,
    InstanceType,
    Ami,
    SubnetId,
    SgId,
}

/// A resolution failure: the missing field, and a message for people.
pub struct AstError {
    pub missing: MissingField,
    pub msg: String,
}

impl AstError {
    pub fn new(missing: MissingField, msg: &str) -> (r: Self)
        ensures
            r.missing == missing,
            r.msg@ == msg@,
    {
        AstError { missing, msg: String::from_str(msg) }
    }
}

/// Resolve one instance node: its fields in order name, description,
/// instance type, image, subnet, security group.
pub open spec fn resolve_ec2(e: Ec2NodeView) -> Result<Ec2SymView, MissingField> {
    if e.id is None {
        Err(MissingField::Name)
    } else if e.description is None {
        Err(MissingField::Description)
    } else if e.instance_type is None {
        Err(MissingField::InstanceType)
    } else if e.ami is None {
        Err(MissingField::Ami)
    } else if e.subnet_id is None {
        Err(MissingField::SubnetId)
    } else if e.sg_id is None {
        Err(MissingField::SgId)
    } else {
        Ok(
            Ec2SymView {
                id: e.id->0,
                name: e.id->0,
                desc: e.description->0,
                instance_type: e.instance_type->0,
                ami_id: e.ami->0,
                subnet_id: e.subnet_id->0,
                sg_id: e.sg_id->0,
                app_version: e.app_version,
                count: e.count,
            },
        )
    }
}

/// Resolve instance nodes in order, stopping at the first that fails.
pub open spec fn resolve_all(s: Seq<Ec2NodeView>) -> Result<Seq<Ec2SymView>, MissingField>
    decreases s.len(),
{
    if s.len() == 0 {
        Ok(seq![])
    } else {
        match resolve_ec2(s[0]) {
            Err(f) => Err(f),
            Ok(e) => match resolve_all(s.subrange(1, s.len() as int)) {
                Ok(rest) => Ok(seq![e] + rest),
                Err(f) => Err(f),
            },
        }
    }
}

/// Resolve a deployment node: the region first, then the instances.
pub open spec fn resolve_view(n: AwsNodeView) -> Result<AwsSymView, MissingField> {
    match n.region {
        None => Err(MissingField::Region),
        Some(r) => match resolve_all(n.ec2_nodes) {
            Ok(v) => Ok(AwsSymView { id: n.id, region: r, ec2s: v }),
            Err(f) => Err(f),
        },
    }
}

/// `rest` with the symbols `done` before it.
pub open spec fn after(done: Seq<Ec2SymView>, rest: Result<Seq<Ec2SymView>, MissingField>) -> Result<
    Seq<Ec2SymView>,
    MissingField,
> {
    match rest {
        Ok(v) => Ok(done + v),
        Err(f) => Err(f),
    }
}

/// What a resolution result is.
pub open spec fn sym_result_view(r: Result<AwsSym, AstError>) -> Result<AwsSymView, MissingField> {
    match r {
        Ok(s) => Ok(s@),
        Err(e) => Err(e.missing),
    }
}

fn required(o: &Option<String>, missing: MissingField, msg: &str) -> (r: Result<String, AstError>)
    ensures
        match o {
            Some(s) => r is Ok && r->Ok_0@ == s@,
            None => r is Err && r->Err_0.missing == missing,
        },
{
    match o {
        Some(s) => Ok(s.clone()),
        None => Err(AstError::new(missing, msg)),
    }
}

fn resolve_instance(e: &Ec2Node) -> (r: Result<Ec2Sym, AstError>)
    ensures
        match resolve_ec2(e@) {
            Ok(v) => r is Ok && r->Ok_0@ == v,
            Err(f) => r is Err && r->Err_0.missing == f,
        },
{
    let name = match required(&e.id, MissingField::Name, "No ec2 name provided!") {
        Ok(s) => s,
        Err(x) => {
            return Err(x);
        },
    };
    let desc = match required(&e.description, MissingField::Description, "No ec2 description provided!") {
        Ok(s) => s,
        Err(x) => {
            return Err(x);
        },
    };
    let instance_type = match required(&e.instance_type, MissingField::InstanceType, "No ec2 instance type provided!") {
        Ok(s) => s,
        Err(x) => {
            return Err(x);
        },
    };
    let ami = match required(&e.ami, MissingField::Ami, "No ec2 ami id provided!") {
        Ok(s) => s,
        Err(x) => {
            return Err(x);
        },
    };
    let subnet = match required(&e.subnet_id, MissingField::SubnetId, "No ec2 subnet_id provided!") {
        Ok(s) => s,
        Err(x) => {
            return Err(x);
        },
    };
    let sg = match required(&e.sg_id, MissingField::SgId, "No ec2 sg id provided!") {
        Ok(s) => s,
        Err(x) => {
            return Err(x);
        },
    };
    Ok(Ec2Sym::new(name, desc, instance_type, ami, subnet, sg, e.app_version, e.count))
}

/// Resolve a syntax tree into the symbol table.
pub fn walk_ast(aws_node: &AwsNode) -> (r: Result<AwsSym, AstError>)
    ensures
        sym_result_view(r) == resolve_view(aws_node@),
{
    let region = match required(&aws_node.region, MissingField::Region, "No region provided!") {
        Ok(s) => s,
        Err(x) => {
            return Err(x);
        },
    };
    let mut aws_sym = AwsSym::new(aws_node.id.clone(), region);
    let ghost s = aws_node@.ec2_nodes;
    let n = aws_node.ec2_nodes.len();
    let mut i: usize = 0;
    proof {
        assert(s.subrange(0, n as int) =~= s);
        if let Ok(v) = resolve_all(s) {
            assert(Seq::<Ec2SymView>::empty() + v =~= v);
        }
    }
    while i < n
        invariant
            i <= n == aws_node.ec2_nodes.len(),
            s == ec2_views(aws_node.ec2_nodes@),
            aws_sym@.id == aws_node@.id,
            aws_node@.region is Some,
            aws_sym@.region == aws_node@.region->0,
            resolve_all(s) == after(aws_sym@.ec2s, resolve_all(s.subrange(i as int, n as int))),
        decreases n - i,
    {
        let ghost rest = s.subrange(i as int, n as int);
        assert(rest[0] == aws_node.ec2_nodes[i as int]@);
        assert(rest.subrange(1, rest.len() as int) =~= s.subrange(i + 1, n as int));
        match resolve_instance(&aws_node.ec2_nodes[i]) {
            Ok(sym) => {
                let ghost before = aws_sym@.ec2s;
                aws_sym.add_ec2(sym);
                proof {
                    assert(before.push(sym@) =~= before + seq![sym@]);
                    match resolve_all(s.subrange(i + 1, n as int)) {
                        Ok(v) => {
                            assert(before + (seq![sym@] + v) =~= before.push(sym@) + v);
                        },
                        Err(f) => {},
                    }
                }
            },
            Err(x) => {
                assert(resolve_all(rest) == Err::<Seq<Ec2SymView>, MissingField>(x.missing));
                return Err(x);
            },
        }
        i = i + 1;
    }
    assert(s.subrange(n as int, n as int) =~= Seq::<Ec2NodeView>::empty());
    assert(aws_sym@.ec2s + Seq::<Ec2SymView>::empty() =~= aws_sym@.ec2s);
    Ok(aws_sym)
}

} // verus!
