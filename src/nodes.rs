//! The syntax tree: a deployment node holding instance nodes, whose fields are
//! optional until the resolver checks them.
use vstd::prelude::*;

use crate::lex::opt_view;

verus! {

/// An exact decimal number: `digits` divided by ten to the power `scale`
/// (`1.50` is 150 with scale 2).
#[derive(Clone, Copy, Debug, PartialEq, Eq, Structural)]
pub struct Decimal {
    pub digits: u64,
    pub scale: u32,
}

impl Decimal {
    pub fn zero() -> (r: Decimal)
        ensures
            r == (Decimal { digits: 0, scale: 0 }),
    {
        Decimal { digits: 0, scale: 0 }
    }
}

pub struct AwsNodeView {
    pub id: Seq<char>,
    pub name: Option<Seq<char>>,
    pub description: Option<Seq<char>>,
    pub region: Option<Seq<char>>,
    pub ec2_nodes: Seq<Ec2NodeView>,
}

pub struct Ec2NodeView {
    pub id: Option<Seq<char>>,
    pub name: Option<Seq<char>>,
    pub description: Option<Seq<char>>,
    pub instance_type: Option<Seq<char>>,
    pub ami: Option<Seq<char>>,
    pub subnet_id: Option<Seq<char>>,
    pub sg_id: Option<Seq<char>>,
    pub key_name: Option<Seq<char>>,
    pub count: u8,
    pub app_version: Decimal,
}

/// The deployment block as parsed.
pub struct AwsNode {
    pub id: String,
    pub name: Option<String>,
    pub description: Option<String>,
    pub region: Option<String>,
    pub ec2_nodes: Vec<Ec2Node>,
}

/// An instance block as parsed. `id` is set together with `name` and equals it.
pub struct Ec2Node {
    pub id: Option<String>,
    pub name: Option<String>,
    pub description: Option<String>,
    pub instance_type: Option<String>,
    pub ami: Option<String>,
    pub subnet_id: Option<String>,
    pub sg_id: Option<String>,
    pub key_name: Option<String>,
    pub count: u8,
    pub app_version: Decimal,
}

/// What each instance node holds.
pub open spec fn ec2_views(v: Seq<Ec2Node>) -> Seq<Ec2NodeView> {
    v.map_values(|e: Ec2Node| e@)
}

impl View for Ec2Node {
    type V = Ec2NodeView;

    open spec fn view(&self) -> Ec2NodeView {
        Ec2NodeView {
            id: opt_view(self.id),
            name: opt_view(self.name),
            description: opt_view(self.description),
            instance_type: opt_view(self.instance_type),
            ami: opt_view(self.ami),
            subnet_id: opt_view(self.subnet_id),
            sg_id: opt_view(self.sg_id),
            key_name: opt_view(self.key_name),
            count: self.count,
            app_version: self.app_version,
        }
    }
}

impl View for AwsNode {
    type V = AwsNodeView;

    open spec fn view(&self) -> AwsNodeView {
        AwsNodeView {
            id: self.id@,
            name: opt_view(self.name),
            description: opt_view(self.description),
            region: opt_view(self.region),
            ec2_nodes: ec2_views(self.ec2_nodes@),
        }
    }
}

/// A deployment node with the given id and nothing else set.
pub open spec fn empty_aws(id: Seq<char>) -> AwsNodeView {
    AwsNodeView { id, name: None, description: None, region: None, ec2_nodes: seq![] }
}

/// An instance node with nothing set: no optional field, count 0, version 0.
pub open spec fn empty_ec2() -> Ec2NodeView {
    Ec2NodeView {
        id: None,
        name: None,
        description: None,
        instance_type: None,
        ami: None,
        subnet_id: None,
        sg_id: None,
        key_name: None,
        count: 0,
        app_version: Decimal { digits: 0, scale: 0 },
    }
}

impl AwsNode {
    pub fn new(id: String) -> (r: Self)
        ensures
            r@ == empty_aws(id@),
    {
        let r = AwsNode { id, ec2_nodes: Vec::new(), region: None, name: None, description: None };
        assert(r@.ec2_nodes =~= Seq::<Ec2NodeView>::empty());
        r
    }

    pub fn set_name(&mut self, name: String)
        ensures
            final(self)@ == (AwsNodeView { name: Some(name@), ..old(self)@ }),
    {
        self.name = Some(name);
    }

    pub fn set_description(&mut self, description: String)
        ensures
            final(self)@ == (AwsNodeView { description: Some(description@), ..old(self)@ }),
    {
        self.description = Some(description);
    }

    pub fn set_region(&mut self, region: String)
        ensures
            final(self)@ == (AwsNodeView { region: Some(region@), ..old(self)@ }),
    {
        self.region = Some(region);
    }

    pub fn add_ec2(&mut self, ec2: Ec2Node)
        ensures
            final(self)@ == (AwsNodeView {
                ec2_nodes: old(self)@.ec2_nodes.push(ec2@),
                ..old(self)@
            }),
    {
        self.ec2_nodes.push(ec2);
        assert(ec2_views(self.ec2_nodes@) =~= ec2_views(old(self).ec2_nodes@).push(ec2@));
    }
}

impl Ec2Node {
    pub fn new() -> (r: Self)
        ensures
            r@ == empty_ec2(),
    {
        Ec2Node {
            id: None,
            name: None,
            description: None,
            instance_type: None,
            count: 0,
            ami: None,
            app_version: Decimal::zero(),
            subnet_id: None,
            sg_id: None,
            key_name: None,
        }
    }

    /// Set the name, and the id with it.
    pub fn set_name(&mut self, name: String)
        ensures
            final(self)@ == (Ec2NodeView { id: Some(name@), name: Some(name@), ..old(self)@ }),
    {
        self.id = Some(name.clone());
        self.name = Some(name);
    }

    pub fn set_description(&mut self, description: String)
        ensures
            final(self)@ == (Ec2NodeView { description: Some(description@), ..old(self)@ }),
    {
        self.description = Some(description);
    }

    pub fn set_instance_type(&mut self, instance_type: String)
        ensures
            final(self)@ == (Ec2NodeView { instance_type: Some(instance_type@), ..old(self)@ }),
    {
        self.instance_type = Some(instance_type);
    }

    pub fn set_ami(&mut self, ami: String)
        ensures
            final(self)@ == (Ec2NodeView { ami: Some(ami@), ..old(self)@ }),
    {
        self.ami = Some(ami);
    }

    pub fn set_subnet_id(&mut self, subnet_id: String)
        ensures
            final(self)@ == (Ec2NodeView { subnet_id: Some(subnet_id@), ..old(self)@ }),
    {
        self.subnet_id = Some(subnet_id);
    }

    pub fn set_sg_id(&mut self, sg_id: String)
        ensures
            final(self)@ == (Ec2NodeView { sg_id: Some(sg_id@), ..old(self)@ }),
    {
        self.sg_id = Some(sg_id);
    }

    pub fn set_key_name(&mut self, key_name: String)
        ensures
            final(self)@ == (Ec2NodeView { key_name: Some(key_name@), ..old(self)@ }),
    {
        self.key_name = Some(key_name);
    }

    pub fn set_count(&mut self, count: u8)
        ensures
            final(self)@ == (Ec2NodeView { count, ..old(self)@ }),
    {
        self.count = count;
    }

    pub fn set_app_version(&mut self, app_version: Decimal)
        ensures
            final(self)@ == (Ec2NodeView { app_version, ..old(self)@ }),
    {
        self.app_version = app_version;
    }
}

} // verus!
