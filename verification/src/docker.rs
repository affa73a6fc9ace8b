//! What a container orchestrator is asked to run for a service.
use vstd::prelude::*;
use crate::strmap::StrMap;

verus! {

/// A filesystem attached to a container: a named volume or a host path,
/// each with the path it is mounted at inside the container.
#[derive(Debug)]
pub enum ServiceMount {
    Volume(String, String),
    Bind(String, String),
}

/// A mount as character sequences.
pub enum ServiceMountView {
    Volume(Seq<char>, Seq<char>),
    Bind(Seq<char>, Seq<char>),
}

impl View for ServiceMount {
    type V = ServiceMountView;

    open spec fn view(&self) -> ServiceMountView {
        match self {
            ServiceMount::Volume(a, b) => ServiceMountView::Volume(a@, b@),
            ServiceMount::Bind(a, b) => ServiceMountView::Bind(a@, b@),
        }
    }
}

/// The parameters of a service to create or update. The CPU share, a
/// fraction, is not held here: it is always one CPU, set where the request is sent.
#[derive(Debug)]
pub struct ServiceParam {
    pub name: String,
    pub image: String,
    pub network_name: String,
    pub labels: StrMap,
    pub exposed_ports: Vec<(u16, u16)>,
    pub envs: StrMap,
    pub mounts: Vec<ServiceMount>,
    pub args: Vec<String>,
    pub memory: u64,
    pub replicas: i64,
    pub constraints: Vec<String>,
}

} // verus!
