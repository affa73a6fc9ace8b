//! The names under which a project's units run.
use vstd::prelude::*;
use crate::text::{decimal, u64_to_decimal};

verus! {

/// `<project>-<name>-service`: the service, and its host on the project's network.
pub open spec fn service_name_spec(project: Seq<char>, name: Seq<char>) -> Seq<char> {
    project + "-"@ + name + "-service"@
}

/// `<project>-<name>-image`: what the tags of an application's images begin with.
pub open spec fn image_name_spec(project: Seq<char>, name: Seq<char>) -> Seq<char> {
    project + "-"@ + name + "-image"@
}

/// `<project>-<name>-volume`: the volume that holds a database's data.
pub open spec fn volume_name_spec(project: Seq<char>, name: Seq<char>) -> Seq<char> {
    project + "-"@ + name + "-volume"@
}

/// `<service>:<port>`: how the other services reach a service.
pub open spec fn internal_link_spec(project: Seq<char>, name: Seq<char>, port: u16) -> Seq<char> {
    service_name_spec(project, name) + ":"@ + decimal(port as nat)
}

fn dashed(project: &String, name: &String, suffix: &str) -> (r: String)
    ensures
        r@ == project@ + "-"@ + name@ + suffix@,
{
    let mut s = project.clone();
    s.append("-");
    s.append(name.as_str());
    s.append(suffix);
    s
}

pub fn service_name(project: &String, name: &String) -> (r: String)
    ensures
        r@ == service_name_spec(project@, name@),
{
    dashed(project, name, "-service")
}

pub fn image_name(project: &String, name: &String) -> (r: String)
    ensures
        r@ == image_name_spec(project@, name@),
{
    dashed(project, name, "-image")
}

pub fn volume_name(project: &String, name: &String) -> (r: String)
    ensures
        r@ == volume_name_spec(project@, name@),
{
    dashed(project, name, "-volume")
}

pub fn internal_link(project: &String, name: &String, port: u16) -> (r: String)
    ensures
        r@ == internal_link_spec(project@, name@, port),
{
    let mut s = service_name(project, name);
    s.append(":");
    let p = u64_to_decimal(port as u64);
    s.append(p.as_str());
    s
}

} // verus!
