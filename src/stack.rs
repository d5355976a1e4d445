//! A plain description of a deployment stack and its hosts, with every field given.
use vstd::prelude::*;

verus! {

/// A host of a stack.
pub struct Ec2 {
    pub id: String,
    pub name: String,
    pub description: String,
    pub image: String,
}

impl Ec2 {
    pub fn new(id: String, name: String, description: String, image: String) -> (r: Self)
        ensures
            r.id == id,
            r.name == name,
            r.description == description,
            r.image == image,
    {
        Ec2 { id, name, description, image }
    }
}

/// A stack: its name, description and region, and its hosts in order.
pub struct AwsStack {
    pub name: String,
    pub description: String,
    pub region: String,
    pub ec2_hosts: Vec<Ec2>,
}

impl AwsStack {
    pub fn new(name: String, description: String, region: String) -> (r: Self)
        ensures
            r.name == name,
            r.description == description,
            r.region == region,
            r.ec2_hosts@.len() == 0,
    {
        AwsStack { name, description, region, ec2_hosts: Vec::new() }
    }

    pub fn add_ec2(&mut self, ec2: Ec2)
        ensures
            final(self).name == old(self).name,
            final(self).description == old(self).description,
            final(self).region == old(self).region,
            final(self).ec2_hosts@ == old(self).ec2_hosts@.push(ec2),
    {
        self.ec2_hosts.push(ec2);
    }
}

} // verus!
