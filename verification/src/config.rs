//! The parts of a project's configuration that deployment reads.
use vstd::prelude::*;
use crate::strmap::StrMap;

verus! {

/// The characters of an optional string.
pub open spec fn opt_view(o: Option<String>) -> Option<Seq<char>> {
    match o {
        Some(s) => Some(s@),
        None => None,
    }
}

/// The characters of an optional string, or `default` where it is absent.
pub open spec fn str_or(o: Option<String>, default: Seq<char>) -> Seq<char> {
    match o {
        Some(s) => s@,
        None => default,
    }
}

/// The entries of an optional map, or no entries where it is absent.
pub open spec fn map_or_empty(o: Option<StrMap>) -> Map<Seq<char>, Seq<char>> {
    match o {
        Some(m) => m@,
        None => Map::empty(),
    }
}

/// The characters of each string, in order.
pub open spec fn strs_view(v: Seq<String>) -> Seq<Seq<char>> {
    v.map_values(|s: String| s@)
}

/// A named secret value of the project.
#[derive(Debug, Clone)]
pub struct SecretValue {
    pub key: String,
    pub value: String,
}

/// An application that the project builds from source.
#[derive(Debug)]
pub struct AppConfig {
    pub port: Option<u16>,
    pub domain: Option<String>,
    pub path_prefix: Option<String>,
    pub envs: Option<StrMap>,
    pub volumes: Option<StrMap>,
    pub mounts: Option<StrMap>,
    pub args: Option<Vec<String>>,
    pub dockerfile: Option<String>,
    pub context: Option<String>,
}

/// A service run from a ready-made image.
#[derive(Debug)]
pub struct ServiceConfig {
    pub image: String,
    pub port: Option<u16>,
    pub domain: Option<String>,
    pub path_prefix: Option<String>,
    pub envs: Option<StrMap>,
    pub volumes: Option<StrMap>,
    pub mounts: Option<StrMap>,
    pub args: Option<Vec<String>>,
}

/// A database, by the kind of its engine (`from`).
#[derive(Debug)]
pub struct DbConfig {
    pub from: String,
    pub envs: Option<StrMap>,
    pub mounts: Option<StrMap>,
    pub args: Option<Vec<String>>,
}

/// The project: its name and its applications, each under its name.
#[derive(Debug)]
pub struct MainConfig {
    pub project: String,
    pub app: Option<Vec<(String, AppConfig)>>,
}

} // verus!
