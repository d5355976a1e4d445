//! The decisions of the deployment executor that do not talk to the cloud:
//! which instance size a type names, how instances are tagged, and how the
//! failures of single instances are gathered into one error.
use vstd::prelude::*;

verus! {

#[derive(Clone, Copy, Debug, PartialEq, Eq, Structural)]
pub enum AwsErrorType {
    EC2Deploy,
}

impl AwsErrorType {
    pub fn name(&self) -> (r: &'static str)
        ensures
            r@ == "ec2 deploy"@,
    {
        match self {
            AwsErrorType::EC2Deploy => "ec2 deploy",
        }
    }
}

/// A deployment failure.
pub struct AwsDeployError {
    pub err_type: AwsErrorType,
    pub message: String,
}

impl AwsDeployError {
    pub fn new(err_type: AwsErrorType, msg: String) -> (r: Self)
        ensures
            r.err_type == err_type,
            r.message@ == msg@,
    {
        AwsDeployError { err_type, message: msg }
    }

    /// `[kind] message`.
    pub fn show(&self) -> (r: String)
        ensures
            r@ == "["@ + "ec2 deploy"@ + "] "@ + self.message@,
    {
        let mut s = String::from_str("[");
        s.append(self.err_type.name());
        s.append("] ");
        s.append(self.message.as_str());
        s
    }
}

/// The instance sizes that deployments use.
#[derive(Clone, Copy, Debug, PartialEq, Eq, Structural)]
pub enum InstanceSize {
    T2Micro,
    T3Small,
    T2Nano,
}

/// `t2.micro` and `t3.small` name their sizes; any other type is `t2.nano`.
pub open spec fn instance_size_of(s: Seq<char>) -> InstanceSize {
    if s == "t2.micro"@ {
        InstanceSize::T2Micro
    } else if s == "t3.small"@ {
        InstanceSize::T3Small
    } else {
        InstanceSize::T2Nano
    }
}

/// The instance size that an instance type names.
pub fn get_instance_type(inst_type: &String) -> (r: InstanceSize)
    ensures
        r == instance_size_of(inst_type@),
{
    if *inst_type == String::from_str("t2.micro") {
        InstanceSize::T2Micro
    } else if *inst_type == String::from_str("t3.small") {
        InstanceSize::T3Small
    } else {
        InstanceSize::T2Nano
    }
}

/// The `Name` tag that a created instance gets.
pub fn tag_name(name: &String) -> (r: String)
    ensures
        r@ == "awsdsl - "@ + name@,
{
    let mut s = String::from_str("awsdsl - ");
    s.append(name.as_str());
    s
}

/// The failures, one per line, each after an arrow.
pub open spec fn failure_report(fs: Seq<Seq<char>>) -> Seq<char>
    decreases fs.len(),
{
    if fs.len() == 0 {
        seq![]
    } else {
        failure_report(fs.drop_last()) + "\n-> "@ + fs.last()
    }
}

/// The characters of each string.
pub open spec fn string_views(v: Seq<String>) -> Seq<Seq<char>> {
    v.map_values(|s: String| s@)
}

/// Gather the failures of single instances, after every instance was tried,
/// into one error; no failure is success.
pub fn collect_failures(failures: &Vec<String>) -> (r: Result<(), AwsDeployError>)
    ensures
        r is Ok <==> failures.len() == 0,
        r is Err ==> r->Err_0.err_type == AwsErrorType::EC2Deploy && r->Err_0.message@
            == failure_report(string_views(failures@)),
{
    if failures.len() == 0 {
        return Ok(());
    }
    let mut s = String::new();
    let mut i: usize = 0;
    while i < failures.len()
        invariant
            i <= failures.len(),
            s@ == failure_report(string_views(failures@).take(i as int)),
        decreases failures.len() - i,
    {
        proof {
            let fs = string_views(failures@).take(i + 1);
            assert(fs.drop_last() =~= string_views(failures@).take(i as int));
        }
        s.append("\n-> ");
        s.append(failures[i].as_str());
        i = i + 1;
    }
    assert(string_views(failures@).take(i as int) =~= string_views(failures@));
    Err(AwsDeployError::new(AwsErrorType::EC2Deploy, s))
}

} // verus!
