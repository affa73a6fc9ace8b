//! What other services of a project need to reach a service.
use vstd::prelude::*;
use crate::config::{AppConfig, DbConfig, ServiceConfig, map_or_empty};
use crate::error::DeployError;
use crate::strmap::StrMap;
use crate::text::str_eq;
use super::envs::{default_envs_spec, get_default_envs};
use super::naming::{internal_link, internal_link_spec, service_name, service_name_spec};

verus! {

/// How a service of the project can be reached by the others.
#[derive(Debug, Clone)]
pub struct Connectable {
    pub short_name: String,
    pub project_name: String,
    pub connection: Option<String>,
    pub internal_link: Option<String>,
}

/// A connectable as character sequences.
pub struct ConnectableView {
    pub short_name: Seq<char>,
    pub project_name: Seq<char>,
    pub connection: Option<Seq<char>>,
    pub internal_link: Option<Seq<char>>,
}

impl View for Connectable {
    type V = ConnectableView;

    open spec fn view(&self) -> ConnectableView {
        ConnectableView {
            short_name: self.short_name@,
            project_name: self.project_name@,
            connection: crate::config::opt_view(self.connection),
            internal_link: crate::config::opt_view(self.internal_link),
        }
    }
}


/// The link of a service reached by the port it is given, where it has both a
/// port and a domain.
pub open spec fn link_for(project: Seq<char>, name: Seq<char>, port: Option<u16>, domain_set: bool) -> Option<Seq<char>> {
    if domain_set && port is Some {
        Some(internal_link_spec(project, name, port.unwrap()))
    } else {
        None
    }
}

/// The value of `key` in the user's environment, or else in the engine's defaults.
pub open spec fn env_or_default(
    user: Map<Seq<char>, Seq<char>>,
    defaults: Map<Seq<char>, Seq<char>>,
    key: Seq<char>,
) -> Seq<char> {
    if user.contains_key(key) {
        user[key]
    } else {
        defaults[key]
    }
}

/// A database URL: `<scheme>://<user>:<password>@<host>:<port>/<db>`.
pub open spec fn db_url(
    scheme: Seq<char>,
    user: Seq<char>,
    password: Seq<char>,
    host: Seq<char>,
    port: Seq<char>,
    db: Seq<char>,
) -> Seq<char> {
    scheme + "://"@ + user + ":"@ + password + "@"@ + host + ":"@ + port + "/"@ + db
}

/// The connection string of a database of engine `from`, with the user's
/// environment `user`, for the known engines.
pub open spec fn db_connection_spec(
    from: Seq<char>,
    project: Seq<char>,
    name: Seq<char>,
    user: Map<Seq<char>, Seq<char>>,
) -> Option<Seq<char>> {
    let host = service_name_spec(project, name);
    if from == "postgres"@ {
        let d = default_envs_spec("postgres"@).unwrap();
        Some(db_url("postgres"@, env_or_default(user, d, "POSTGRES_USER"@),
            env_or_default(user, d, "POSTGRES_PASSWORD"@), host, "5432"@,
            env_or_default(user, d, "POSTGRES_DB"@)))
    } else if from == "mysql"@ {
        let d = default_envs_spec("mysql"@).unwrap();
        Some(db_url("mysql"@, env_or_default(user, d, "MYSQL_USER"@),
            env_or_default(user, d, "MYSQL_PASSWORD"@), host, "3306"@,
            env_or_default(user, d, "MYSQL_DATABASE"@)))
    } else {
        None
    }
}

fn lookup_or_default(user: &StrMap, defaults: &StrMap, key: &str) -> (r: String)
    requires
        defaults@.contains_key(key@),
    ensures
        r@ == env_or_default(user@, defaults@, key@),
{
    match user.get(key) {
        Some(v) => v.clone(),
        None => match defaults.get(key) {
            Some(v) => v.clone(),
            None => String::new(),
        },
    }
}

fn build_db_url(scheme: &str, user: String, password: String, host: String, port: &str, db: String) -> (r: String)
    ensures
        r@ == db_url(scheme@, user@, password@, host@, port@, db@),
{
    let mut s = scheme.to_owned();
    s.append("://");
    s.append(user.as_str());
    s.append(":");
    s.append(password.as_str());
    s.append("@");
    s.append(host.as_str());
    s.append(":");
    s.append(port);
    s.append("/");
    s.append(db.as_str());
    s
}

impl Connectable {
    /// How the other services reach a service: by its link, where it has a
    /// port and a domain.
    pub fn from_service_config(name: String, config: ServiceConfig, project_name: String) -> (r: Result<Self, DeployError>)
        ensures
            r is Ok,
            r.unwrap()@ == (ConnectableView {
                short_name: name@,
                project_name: project_name@,
                connection: None,
                internal_link: link_for(project_name@, name@, config.port, config.domain is Some),
            }),
    {
        let connection = None;
        let mut internal_link_value = None;
        if config.domain.is_some() && config.port.is_some() {
            internal_link_value = Some(internal_link(&project_name, &name, config.port.unwrap()));
        }
        Ok(Connectable {
            short_name: name.clone(),
            project_name: project_name.clone(),
            connection,
            internal_link: internal_link_value,
        })
    }

    /// How the other services reach an application: by its link, where it has
    /// a port and a domain.
    pub fn from_app_config(name: String, config: AppConfig, project_name: String) -> (r: Result<Self, DeployError>)
        ensures
            r is Ok,
            r.unwrap()@ == (ConnectableView {
                short_name: name@,
                project_name: project_name@,
                connection: None,
                internal_link: link_for(project_name@, name@, config.port, config.domain is Some),
            }),
    {
        let connection = None;
        let mut internal_link_value = None;
        if config.domain.is_some() && config.port.is_some() {
            internal_link_value = Some(internal_link(&project_name, &name, config.port.unwrap()));
        }
        Ok(Connectable {
            short_name: name.clone(),
            project_name: project_name.clone(),
            connection,
            internal_link: internal_link_value,
        })
    }

    /// How the other services reach a database: by its connection string, made
    /// from the user's environment and the engine's defaults. Fails where the
    /// engine is not one known here.
    pub fn from_db_config(name: String, config: DbConfig, project_name: String) -> (r: Result<Self, DeployError>)
        ensures
            match db_connection_spec(config.from@, project_name@, name@, map_or_empty(config.envs)) {
                Some(c) => r is Ok && r.unwrap()@ == (ConnectableView {
                    short_name: name@,
                    project_name: project_name@,
                    connection: Some(c),
                    internal_link: None,
                }),
                None => r == Err::<Self, DeployError>(DeployError::InvalidDatabaseType),
            },
    {
        let ghost user_view = map_or_empty(config.envs);
        let connection = if str_eq(config.from.as_str(), "postgres") {
            proof {
                reveal_strlit("postgres");
                reveal_strlit("mysql");
            }
            let default_envs = match get_default_envs("postgres") {
                Some(d) => d,
                None => return Err(DeployError::NoDefaultEnvs),
            };
            let user_envs = match config.envs {
                Some(e) => e,
                None => StrMap::new(),
            };
            assert(user_envs@ == user_view);
            let username = lookup_or_default(&user_envs, &default_envs, "POSTGRES_USER");
            let password = lookup_or_default(&user_envs, &default_envs, "POSTGRES_PASSWORD");
            let dbname = lookup_or_default(&user_envs, &default_envs, "POSTGRES_DB");
            Some(build_db_url("postgres", username, password, service_name(&project_name, &name), "5432", dbname))
        } else if str_eq(config.from.as_str(), "mysql") {
            let default_envs = match get_default_envs("mysql") {
                Some(d) => d,
                None => return Err(DeployError::NoDefaultEnvs),
            };
            let user_envs = match config.envs {
                Some(e) => e,
                None => StrMap::new(),
            };
            assert(user_envs@ == user_view);
            let username = lookup_or_default(&user_envs, &default_envs, "MYSQL_USER");
            let password = lookup_or_default(&user_envs, &default_envs, "MYSQL_PASSWORD");
            let dbname = lookup_or_default(&user_envs, &default_envs, "MYSQL_DATABASE");
            Some(build_db_url("mysql", username, password, service_name(&project_name, &name), "3306", dbname))
        } else {
            return Err(DeployError::InvalidDatabaseType);
        };
        Ok(Connectable {
            short_name: name.clone(),
            project_name: project_name.clone(),
            connection,
            internal_link: None,
        })
    }
}

} // verus!
