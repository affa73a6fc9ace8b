//! Default environments of databases, and the resolution of a configured
//! environment against the project's connectables and secrets.
use vstd::prelude::*;
use crate::config::{SecretValue, str_or};
use crate::envvalue::{EnvValues, EnvValueView, parse_env, parse_env_value};
use crate::strmap::{StrMap, pairs_map, distinct_keys, lemma_pairs_map};
use crate::text::str_eq;
use super::connectable::{Connectable, ConnectableView};

verus! {

/// The environment a database engine starts with, for the engines known here.
pub open spec fn default_envs_spec(service: Seq<char>) -> Option<Map<Seq<char>, Seq<char>>> {
    if service == "mysql"@ {
        Some(
            map![
                "MYSQL_DATABASE"@ => "mydb"@,
                "MYSQL_USER"@ => "myuser"@,
                "MYSQL_PASSWORD"@ => "mypassword"@,
                "MYSQL_ROOT_PASSWORD"@ => "myrootpassword"@,
            ],
        )
    } else if service == "postgres"@ {
        Some(
            map![
                "POSTGRES_DB"@ => "mydb"@,
                "POSTGRES_USER"@ => "mypguser"@,
                "POSTGRES_PASSWORD"@ => "mypassword"@,
            ],
        )
    } else {
        None
    }
}

/// The default environment of the database engine `service`, if it is one known here.
pub fn get_default_envs(service: &str) -> (r: Option<StrMap>)
    ensures
        match r {
            Some(m) => default_envs_spec(service@) == Some(m@),
            None => default_envs_spec(service@) is None,
        },
{
    if str_eq(service, "mysql") {
        let mut envs = StrMap::new();
        envs.insert("MYSQL_DATABASE".to_owned(), "mydb".to_owned());
        envs.insert("MYSQL_USER".to_owned(), "myuser".to_owned());
        envs.insert("MYSQL_PASSWORD".to_owned(), "mypassword".to_owned());
        envs.insert("MYSQL_ROOT_PASSWORD".to_owned(), "myrootpassword".to_owned());
        assert(envs@ =~= default_envs_spec(service@).unwrap());
        Some(envs)
    } else if str_eq(service, "postgres") {
        let mut envs = StrMap::new();
        envs.insert("POSTGRES_DB".to_owned(), "mydb".to_owned());
        envs.insert("POSTGRES_USER".to_owned(), "mypguser".to_owned());
        envs.insert("POSTGRES_PASSWORD".to_owned(), "mypassword".to_owned());
        assert(envs@ =~= default_envs_spec(service@).unwrap());
        Some(envs)
    } else {
        None
    }
}

pub open spec fn secrets_view(s: Seq<SecretValue>) -> Seq<(Seq<char>, Seq<char>)> {
    s.map_values(|x: SecretValue| (x.key@, x.value@))
}

pub open spec fn connectables_view(c: Seq<Connectable>) -> Seq<ConnectableView> {
    c.map_values(|x: Connectable| x@)
}

/// `i` is the first connectable named `name`.
pub open spec fn is_first_named(conns: Seq<ConnectableView>, name: Seq<char>, i: int) -> bool {
    &&& 0 <= i < conns.len()
    &&& conns[i].short_name == name
    &&& forall|j: int| 0 <= j < i ==> (#[trigger] conns[j]).short_name != name
}

/// The first connectable named `name`.
pub open spec fn first_named(conns: Seq<ConnectableView>, name: Seq<char>) -> Option<ConnectableView> {
    if exists|i: int| is_first_named(conns, name, i) {
        Some(conns[choose|i: int| is_first_named(conns, name, i)])
    } else {
        None
    }
}

/// `i` is the first secret with key `key`.
pub open spec fn is_first_secret(secrets: Seq<(Seq<char>, Seq<char>)>, key: Seq<char>, i: int) -> bool {
    &&& 0 <= i < secrets.len()
    &&& secrets[i].0 == key
    &&& forall|j: int| 0 <= j < i ==> (#[trigger] secrets[j]).0 != key
}

/// The value of the first secret with key `key`, or the empty string.
pub open spec fn secret_value(secrets: Seq<(Seq<char>, Seq<char>)>, key: Seq<char>) -> Seq<char> {
    if exists|i: int| is_first_secret(secrets, key, i) {
        secrets[choose|i: int| is_first_secret(secrets, key, i)].1
    } else {
        Seq::empty()
    }
}

pub open spec fn is_connection_method(m: Seq<char>) -> bool {
    m == "connection"@ || m == "conn"@
}

pub open spec fn is_link_method(m: Seq<char>) -> bool {
    m == "internal"@ || m == "link"@ || m == "url"@
}

/// The value an environment value stands for, given the project's
/// connectables and secrets; the empty string where it names nothing.
pub open spec fn resolve_env(
    v: EnvValueView,
    conns: Seq<ConnectableView>,
    secrets: Seq<(Seq<char>, Seq<char>)>,
) -> Seq<char> {
    match v {
        EnvValueView::This { service, method } => {
            if is_connection_method(method) {
                match first_named(conns, service) {
                    Some(c) => match c.connection {
                        Some(x) => x,
                        None => Seq::empty(),
                    },
                    None => Seq::empty(),
                }
            } else if is_link_method(method) {
                match first_named(conns, service) {
                    Some(c) => match c.internal_link {
                        Some(x) => x,
                        None => Seq::empty(),
                    },
                    None => Seq::empty(),
                }
            } else {
                Seq::empty()
            }
        },
        EnvValueView::Text(t) => t,
        EnvValueView::Secret(k) => secret_value(secrets, k),
    }
}

/// The environment a service is given: each configured variable whose value
/// parses, with that value resolved; variables whose value does not parse are left out.
pub open spec fn final_envs_spec(
    envs: Map<Seq<char>, Seq<char>>,
    conns: Seq<ConnectableView>,
    secrets: Seq<(Seq<char>, Seq<char>)>,
) -> Map<Seq<char>, Seq<char>> {
    Map::new(
        |k: Seq<char>| envs.contains_key(k) && parse_env_value(envs[k]) is Some,
        |k: Seq<char>| resolve_env(parse_env_value(envs[k]).unwrap(), conns, secrets),
    )
}

fn find_connectable(conns: &Vec<Connectable>, name: &String) -> (r: Option<usize>)
    ensures
        match r {
            Some(i) => is_first_named(connectables_view(conns@), name@, i as int),
            None => !exists|i: int| is_first_named(connectables_view(conns@), name@, i),
        },
{
    let ghost cv = connectables_view(conns@);
    let mut i: usize = 0;
    while i < conns.len()
        invariant
            cv == connectables_view(conns@),
            i <= conns.len(),
            forall|j: int| 0 <= j < i ==> (#[trigger] cv[j]).short_name != name@,
        decreases conns.len() - i,
    {
        if conns[i].short_name == *name {
            return Some(i);
        }
        i = i + 1;
    }
    proof {
        if exists|i: int| is_first_named(cv, name@, i) {
            let k = choose|i: int| is_first_named(cv, name@, i);
            assert(cv[k].short_name == name@);
        }
    }
    None
}

proof fn lemma_first_named(conns: Seq<ConnectableView>, name: Seq<char>, i: int)
    requires
        is_first_named(conns, name, i),
    ensures
        first_named(conns, name) == Some(conns[i]),
{
    let k = choose|k: int| is_first_named(conns, name, k);
    if k < i {
        assert(conns[k].short_name != name);
    } else if k > i {
        assert(conns[i].short_name != name);
    }
}

fn secret_lookup(secrets: &Vec<SecretValue>, key: &String) -> (r: String)
    ensures
        r@ == secret_value(secrets_view(secrets@), key@),
{
    let ghost sv = secrets_view(secrets@);
    let mut i: usize = 0;
    while i < secrets.len()
        invariant
            sv == secrets_view(secrets@),
            i <= secrets.len(),
            forall|j: int| 0 <= j < i ==> (#[trigger] sv[j]).0 != key@,
        decreases secrets.len() - i,
    {
        if secrets[i].key == *key {
            proof {
                assert(is_first_secret(sv, key@, i as int));
                let k = choose|k: int| is_first_secret(sv, key@, k);
                if k < i {
                    assert(sv[k].0 != key@);
                } else if k > i {
                    assert(sv[i as int].0 != key@);
                }
            }
            return secrets[i].value.clone();
        }
        i = i + 1;
    }
    proof {
        if exists|i: int| is_first_secret(sv, key@, i) {
            let k = choose|i: int| is_first_secret(sv, key@, i);
            assert(sv[k].0 == key@);
        }
    }
    String::new()
}

fn opt_string_or_empty(o: &Option<String>) -> (r: String)
    ensures
        r@ == str_or(*o, Seq::empty()),
{
    match o {
        Some(s) => s.clone(),
        None => String::new(),
    }
}

/// The value `v` stands for, given the project's connectables and secrets.
pub fn resolve_env_value(v: EnvValues, connectables: &Vec<Connectable>, secrets: &Vec<SecretValue>) -> (r: String)
    ensures
        r@ == resolve_env(v@, connectables_view(connectables@), secrets_view(secrets@)),
{
    let ghost cv = connectables_view(connectables@);
    match v {
        EnvValues::This { service, method } => {
            let found = find_connectable(connectables, &service);
            proof {
                if let Some(i) = found {
                    lemma_first_named(cv, service@, i as int);
                }
            }
            let m = method.as_str();
            if str_eq(m, "connection") || str_eq(m, "conn") {
                match found {
                    Some(i) => opt_string_or_empty(&connectables[i].connection),
                    None => String::new(),
                }
            } else if str_eq(m, "internal") || str_eq(m, "link") || str_eq(m, "url") {
                match found {
                    Some(i) => opt_string_or_empty(&connectables[i].internal_link),
                    None => String::new(),
                }
            } else {
                String::new()
            }
        },
        EnvValues::Text(text) => text,
        EnvValues::Secret(key) => secret_lookup(secrets, &key),
    }
}

/// The environment of a service: each variable of `envs` whose value parses,
/// with that value resolved against `connectables` and `secrets`.
pub fn final_envs(envs: Option<StrMap>, connectables: Vec<Connectable>, secrets: Vec<SecretValue>) -> (r: StrMap)
    requires
        envs is Some,
    ensures
        r@ == final_envs_spec(envs.unwrap()@, connectables_view(connectables@), secrets_view(secrets@)),
{
    let envs = match envs {
        Some(e) => e,
        None => StrMap::new(),
    };
    let ghost cv = connectables_view(connectables@);
    let ghost sv = secrets_view(secrets@);
    let ghost ps = envs.pairs();
    let n = envs.len();
    let mut result = StrMap::new();
    let mut i: usize = 0;
    while i < n
        invariant
            n == ps.len(),
            ps == envs.pairs(),
            distinct_keys(ps),
            envs@ == pairs_map(ps),
            cv == connectables_view(connectables@),
            sv == secrets_view(secrets@),
            i <= n,
            forall|k: Seq<char>| #[trigger] result@.contains_key(k) <==> exists|j: int|
                0 <= j < i && (#[trigger] ps[j]).0 == k && parse_env_value(ps[j].1) is Some,
            forall|j: int| 0 <= j < i && parse_env_value((#[trigger] ps[j]).1) is Some
                ==> result@[ps[j].0] == resolve_env(parse_env_value(ps[j].1).unwrap(), cv, sv),
        decreases n - i,
    {
        let (k, v) = envs.entry(i);
        let parsed = parse_env(v.as_str());
        match parsed {
            Some(value) => {
                let resolved = resolve_env_value(value, &connectables, &secrets);
                proof {
                    assert(!result@.contains_key(k@)) by {
                        if result@.contains_key(k@) {
                            let j = choose|j: int| 0 <= j < i && (#[trigger] ps[j]).0 == k@ && parse_env_value(ps[j].1) is Some;
                            assert(ps[j].0 != ps[i as int].0);
                        }
                    }
                }
                result.insert(k.clone(), resolved);
                proof {
                    assert forall|j: int| 0 <= j < i + 1 && parse_env_value((#[trigger] ps[j]).1) is Some
                        implies result@[ps[j].0] == resolve_env(parse_env_value(ps[j].1).unwrap(), cv, sv) by {
                        if j < i {
                            assert(ps[j].0 != ps[i as int].0);
                        }
                    }
                    assert forall|x: Seq<char>| #[trigger] result@.contains_key(x) implies exists|j: int|
                        0 <= j < i + 1 && (#[trigger] ps[j]).0 == x && parse_env_value(ps[j].1) is Some by {
                        if x == k@ {
                            assert(ps[i as int].0 == x);
                        }
                    }
                }
            },
            None => {},
        }
        i = i + 1;
    }
    proof {
        lemma_pairs_map(ps);
        let spec_map = final_envs_spec(envs@, cv, sv);
        assert forall|x: Seq<char>| #[trigger] result@.contains_key(x) == spec_map.contains_key(x) by {
            if result@.contains_key(x) {
                let j = choose|j: int| 0 <= j < n && (#[trigger] ps[j]).0 == x && parse_env_value(ps[j].1) is Some;
                assert(envs@[ps[j].0] == ps[j].1);
            }
            if spec_map.contains_key(x) {
                let j = choose|j: int| 0 <= j < ps.len() && (#[trigger] ps[j]).0 == x;
                assert(envs@[ps[j].0] == ps[j].1);
            }
        }
        assert forall|x: Seq<char>| #[trigger] result@.contains_key(x) implies result@[x] == spec_map[x] by {
            let j = choose|j: int| 0 <= j < n && (#[trigger] ps[j]).0 == x && parse_env_value(ps[j].1) is Some;
            assert(envs@[ps[j].0] == ps[j].1);
        }
        assert(result@ =~= spec_map);
    }
    result
}

} // verus!
