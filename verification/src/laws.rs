//! Properties that hold across the library's functions.
use vstd::prelude::*;
use crate::builds::build_tag_spec;
use crate::deployable::images::{first_colon_at, has_prefix, image_prefix, image_time, is_latest, latest_image, lemma_latest_unique, tagged_for};
use crate::deployable::naming::{image_name_spec, service_name_spec};
use crate::deployable::connectable::{ConnectableView, db_connection_spec, db_url, link_for};
use crate::deployable::envs::{default_envs_spec, final_envs_spec, resolve_env};
use crate::deployable::{ProxyView, labels_spec, mounts_spec, proxy_spec};
use crate::docker::ServiceMountView;
use crate::builds::build_task_spec;
use crate::config::AppConfig;
use crate::plan::{Deploy, DeployAction, DeployTask, names_with_action, plan_build_names, task_build_names};
use crate::envvalue::{EnvValueView, is_template, parse_env_value, parse_reference, secret_prefix, sole_inner_dot, this_prefix};
use crate::text::trim;
use crate::text::{all_digits, decimal, digit_char, digit_value, digits_value, is_digit, parse_u64};

verus! {

proof fn lemma_decimal(n: nat)
    ensures
        decimal(n).len() > 0,
        all_digits(decimal(n)),
        digits_value(decimal(n)) == n,
    decreases n,
{
    if n < 10 {
        let d = decimal(n);
        assert(d.drop_last() =~= Seq::<char>::empty());
        assert(digit_value(digit_char(n)) == n);
        assert(digits_value(d) == digits_value(d.drop_last()) * 10 + digit_value(d.last()));
    } else {
        lemma_decimal(n / 10);
        let d = decimal(n);
        assert(d.drop_last() =~= decimal(n / 10));
        assert(digit_value(digit_char(n % 10)) == n % 10);
        assert(is_digit(digit_char(n % 10)));
        assert(d.last() == digit_char(n % 10));
        assert(digits_value(d) == digits_value(d.drop_last()) * 10 + digit_value(d.last()));
        assert(n == (n / 10) * 10 + n % 10);
    }
}

/// Reading back the decimal text of a number gives the number: `str::parse`
/// undoes `to_string` on every `u64`.
pub proof fn law_decimal_round_trip(n: u64)
    ensures
        parse_u64(decimal(n as nat)) == Some(n),
{
    lemma_decimal(n as nat);
    assert(is_digit(decimal(n as nat)[0]));
}


/// The time carried by the tag of an image built at time `now` is `now`,
/// where neither the project's nor the application's name holds a `:`.
pub proof fn law_build_tag_time(project: Seq<char>, name: Seq<char>, now: u64)
    requires
        !project.contains(':'),
        !name.contains(':'),
    ensures
        image_time(build_tag_spec(project, name, now)) == now,
        has_prefix(build_tag_spec(project, name, now), image_prefix(project, name)),
{
    reveal_strlit("-");
    reveal_strlit("-image");
    reveal_strlit(":");
    let prefix = image_name_spec(project, name);
    let tag = build_tag_spec(project, name, now);
    let l = prefix.len() as int;
    assert(tag.take(l) =~= prefix);
    assert(tag[l] == ':');
    assert(!prefix.contains(':')) by {
        if prefix.contains(':') {
            let j = choose|j: int| 0 <= j < prefix.len() && prefix[j] == ':';
            if j < project.len() {
                assert(project[j] == ':');
            } else if j == project.len() {
            } else if j < project.len() + 1 + name.len() {
                assert(name[j - project.len() - 1] == ':');
            } else {
            }
        }
    }
    assert(first_colon_at(tag, l));
    let p = choose|p: int| first_colon_at(tag, p);
    if p < l {
        assert(prefix[p] == ':');
    } else if p > l {
        assert(tag.take(p)[l] == ':');
    }
    assert(tag.skip(l + 1) =~= decimal(now as nat));
    law_decimal_round_trip(now);
}

proof fn lemma_filter_from(s: Seq<Seq<char>>, prefix: Seq<char>, i: int)
    requires
        0 <= i < tagged_for(s, prefix).len(),
    ensures
        s.contains(tagged_for(s, prefix)[i]),
        has_prefix(tagged_for(s, prefix)[i], prefix),
    decreases s.len(),
{
    reveal(Seq::filter);
    let f = tagged_for(s, prefix);
    let g = tagged_for(s.drop_last(), prefix);
    if has_prefix(s.last(), prefix) {
        assert(f == g.push(s.last()));
        if i < g.len() {
            lemma_filter_from(s.drop_last(), prefix, i);
            let j = choose|j: int| 0 <= j < s.drop_last().len() && s.drop_last()[j] == g[i];
            assert(s[j] == f[i]);
        } else {
            assert(s[s.len() - 1] == f[i]);
        }
    } else {
        assert(f == g);
        lemma_filter_from(s.drop_last(), prefix, i);
        let j = choose|j: int| 0 <= j < s.drop_last().len() && s.drop_last()[j] == g[i];
        assert(s[j] == f[i]);
    }
}

/// The image built for an application at time `now` is the one its
/// deployable runs, where no other image of the application carries a time as
/// late, `now` is positive, and neither name holds a `:`.
pub proof fn law_built_image_is_deployed(project: Seq<char>, name: Seq<char>, now: u64, tags: Seq<Seq<char>>)
    requires
        !project.contains(':'),
        !name.contains(':'),
        now > 0,
        tags.contains(build_tag_spec(project, name, now)),
        forall|t: Seq<char>|
            tags.contains(t) && has_prefix(t, image_prefix(project, name)) && t != build_tag_spec(project, name, now)
                ==> image_time(t) < now,
    ensures
        latest_image(tagged_for(tags, image_prefix(project, name))) == Some(build_tag_spec(project, name, now)),
{
    let tag = build_tag_spec(project, name, now);
    let prefix = image_prefix(project, name);
    let f = tagged_for(tags, prefix);
    law_build_tag_time(project, name, now);
    let k = choose|k: int| 0 <= k < tags.len() && tags[k] == tag;
    tags.lemma_filter_contains(|t: Seq<char>| has_prefix(t, prefix), k);
    assert(f.contains(tag));
    let i0 = choose|i: int| 0 <= i < f.len() && f[i] == tag;
    lemma_first_occurrence(f, tag, i0);
    let i = choose|i: int| 0 <= i < f.len() && f[i] == tag && forall|j: int| 0 <= j < i ==> f[j] != tag;
    assert forall|j: int| 0 <= j < f.len() implies image_time(#[trigger] f[j]) <= image_time(f[i]) by {
        lemma_filter_from(tags, prefix, j);
    }
    assert forall|j: int| 0 <= j < i implies image_time(#[trigger] f[j]) < image_time(f[i]) by {
        lemma_filter_from(tags, prefix, j);
    }
    assert(is_latest(f, i));
    let c = choose|c: int| is_latest(f, c);
    lemma_latest_unique(f, i, c);
}

proof fn lemma_first_occurrence(s: Seq<Seq<char>>, x: Seq<char>, k: int)
    requires
        0 <= k < s.len(),
        s[k] == x,
    ensures
        exists|i: int| 0 <= i < s.len() && s[i] == x && forall|j: int| 0 <= j < i ==> s[j] != x,
    decreases k,
{
    if exists|j: int| 0 <= j < k && s[j] == x {
        let j = choose|j: int| 0 <= j < k && s[j] == x;
        lemma_first_occurrence(s, x, j);
    } else {
        assert(forall|j: int| 0 <= j < k ==> s[j] != x);
    }
}


/// The link by which the other services reach a service with a port and a
/// domain is its deployable's service name, a `:`, and the port its proxy routes to.
pub proof fn law_link_targets_service(project: Seq<char>, name: Seq<char>, port: u16, domain: Option<String>, path_prefix: Option<String>)
    requires
        domain is Some,
    ensures
        link_for(project, name, Some(port), true) == Some(
            service_name_spec(project, name) + ":"@ + decimal(proxy_spec(Some(port), domain, path_prefix)[0].port as nat),
        ),
{
}

/// Resolving a configured environment keeps only configured variables, and
/// keeps every variable whose value is plain text (no `${{ .. }}` reference) as it is.
pub proof fn law_final_envs_keep_text(
    envs: Map<Seq<char>, Seq<char>>,
    conns: Seq<ConnectableView>,
    secrets: Seq<(Seq<char>, Seq<char>)>,
)
    ensures
        forall|k: Seq<char>| #[trigger] final_envs_spec(envs, conns, secrets).contains_key(k) ==> envs.contains_key(k),
        forall|k: Seq<char>|
            envs.contains_key(k) && !is_template(envs[k]) ==> #[trigger] final_envs_spec(envs, conns, secrets).contains_key(k)
                && final_envs_spec(envs, conns, secrets)[k] == envs[k],
{
}

/// The user name, password and database of an engine's connection string.
pub open spec fn credential_keys(from: Seq<char>) -> Seq<Seq<char>> {
    if from == "postgres"@ {
        seq!["POSTGRES_USER"@, "POSTGRES_PASSWORD"@, "POSTGRES_DB"@]
    } else {
        seq!["MYSQL_USER"@, "MYSQL_PASSWORD"@, "MYSQL_DATABASE"@]
    }
}

/// The scheme and port of an engine's connection string.
pub open spec fn scheme_and_port(from: Seq<char>) -> (Seq<char>, Seq<char>) {
    if from == "postgres"@ {
        ("postgres"@, "5432"@)
    } else {
        ("mysql"@, "3306"@)
    }
}

/// The connection string that other services get for a database carries the
/// user, password and database that the database itself is started with,
/// where the configured values of those variables are plain text.
pub proof fn law_db_connection_matches_env(
    from: Seq<char>,
    project: Seq<char>,
    name: Seq<char>,
    user: Map<Seq<char>, Seq<char>>,
    conns: Seq<ConnectableView>,
    secrets: Seq<(Seq<char>, Seq<char>)>,
)
    requires
        from == "postgres"@ || from == "mysql"@,
        forall|i: int|
            0 <= i < 3 && user.contains_key(#[trigger] credential_keys(from)[i]) ==> !is_template(
                user[credential_keys(from)[i]],
            ),
    ensures
        ({
            let env = default_envs_spec(from).unwrap().union_prefer_right(final_envs_spec(user, conns, secrets));
            let keys = credential_keys(from);
            db_connection_spec(from, project, name, user) == Some(
                db_url(
                    scheme_and_port(from).0,
                    env[keys[0]],
                    env[keys[1]],
                    service_name_spec(project, name),
                    scheme_and_port(from).1,
                    env[keys[2]],
                ),
            )
        }),
{
    reveal_strlit("postgres");
    reveal_strlit("mysql");
    let keys = credential_keys(from);
    let d = default_envs_spec(from).unwrap();
    let fin = final_envs_spec(user, conns, secrets);
    let env = d.union_prefer_right(fin);
    assert forall|i: int| 0 <= i < 3 implies env[#[trigger] keys[i]] == (if user.contains_key(keys[i]) {
        user[keys[i]]
    } else {
        d[keys[i]]
    }) by {
        let k = keys[i];
        if user.contains_key(k) {
            assert(!is_template(user[k]));
            assert(parse_env_value(user[k]) == Some(EnvValueView::Text(user[k])));
            assert(fin.contains_key(k));
        } else {
            assert(!fin.contains_key(k));
        }
    }
}


proof fn lemma_latest_exists(imgs: Seq<Seq<char>>)
    requires
        exists|j: int| 0 <= j < imgs.len() && image_time(#[trigger] imgs[j]) > 0,
    ensures
        exists|i: int| is_latest(imgs, i),
    decreases imgs.len(),
{
    let q = imgs.drop_last();
    let n = imgs.len() - 1;
    if exists|j: int| 0 <= j < q.len() && image_time(#[trigger] q[j]) > 0 {
        lemma_latest_exists(q);
        let i = choose|i: int| is_latest(q, i);
        assert(imgs[i] == q[i]);
        if image_time(imgs[n]) > image_time(imgs[i]) {
            assert forall|j: int| 0 <= j < imgs.len() implies image_time(#[trigger] imgs[j]) <= image_time(imgs[n]) by {
                if j < n {
                    assert(imgs[j] == q[j]);
                }
            }
            assert forall|j: int| 0 <= j < n implies image_time(#[trigger] imgs[j]) < image_time(imgs[n]) by {
                assert(imgs[j] == q[j]);
            }
            assert(is_latest(imgs, n));
        } else {
            assert forall|j: int| 0 <= j < imgs.len() implies image_time(#[trigger] imgs[j]) <= image_time(imgs[i]) by {
                if j < n {
                    assert(imgs[j] == q[j]);
                }
            }
            assert forall|j: int| 0 <= j < i implies image_time(#[trigger] imgs[j]) < image_time(imgs[i]) by {
                assert(imgs[j] == q[j]);
            }
            assert(is_latest(imgs, i));
        }
    } else {
        let j0 = choose|j: int| 0 <= j < imgs.len() && image_time(#[trigger] imgs[j]) > 0;
        if j0 < n {
            assert(q[j0] == imgs[j0]);
        }
        assert forall|j: int| 0 <= j < n implies image_time(#[trigger] imgs[j]) == 0 by {
            assert(imgs[j] == q[j]);
        }
        assert(is_latest(imgs, n));
    }
}

/// The newest image is one of those given, carries a positive time, no
/// image carries a later one and none before it carries as late a one; where none is chosen, no image carries a positive time.
pub proof fn law_latest_is_newest(imgs: Seq<Seq<char>>)
    ensures
        match latest_image(imgs) {
            Some(t) => imgs.contains(t) && image_time(t) > 0 && (forall|i: int|
                0 <= i < imgs.len() ==> image_time(#[trigger] imgs[i]) <= image_time(t)) && exists|i: int|
                0 <= i < imgs.len() && imgs[i] == t && forall|j: int| 0 <= j < i ==> image_time(#[trigger] imgs[j]) < image_time(t),
            None => forall|i: int| 0 <= i < imgs.len() ==> image_time(#[trigger] imgs[i]) == 0,
        },
{
    if exists|j: int| 0 <= j < imgs.len() && image_time(#[trigger] imgs[j]) > 0 {
        lemma_latest_exists(imgs);
        let i = choose|i: int| is_latest(imgs, i);
        assert(imgs.contains(imgs[i]));
    }
}


/// A `${{ secret.K }}` reference stands for the value of the first secret
/// whose key is `K`, wherever it sits in the list.
pub proof fn law_secret_reference_first_match(
    conns: Seq<ConnectableView>,
    secrets: Seq<(Seq<char>, Seq<char>)>,
    key: Seq<char>,
    i: int,
)
    requires
        0 <= i < secrets.len(),
        secrets[i].0 == key,
        forall|j: int| 0 <= j < i ==> (#[trigger] secrets[j]).0 != key,
    ensures
        resolve_env(EnvValueView::Secret(key), conns, secrets) == secrets[i].1,
{
    let k = choose|k: int| crate::deployable::envs::is_first_secret(secrets, key, k);
    assert(crate::deployable::envs::is_first_secret(secrets, key, i));
    if k < i {
        assert(secrets[k].0 != key);
    } else if k > i {
        assert(secrets[i].0 != key);
    }
}

/// A `${{ secret.K }}` reference to a key that no secret has stands for the empty string.
pub proof fn law_secret_reference_unknown(
    conns: Seq<ConnectableView>,
    secrets: Seq<(Seq<char>, Seq<char>)>,
    key: Seq<char>,
)
    requires
        forall|j: int| 0 <= j < secrets.len() ==> (#[trigger] secrets[j]).0 != key,
    ensures
        resolve_env(EnvValueView::Secret(key), conns, secrets) == Seq::<char>::empty(),
{
}

/// A `${{ this.S.M }}` reference stands for what the first connectable named
/// `S` offers: its connection string for `connection`/`conn`, its link for
/// `internal`/`link`/`url` (the empty string where it has none), and the
/// empty string for any other method.
pub proof fn law_this_reference_first_match(
    conns: Seq<ConnectableView>,
    secrets: Seq<(Seq<char>, Seq<char>)>,
    service: Seq<char>,
    method: Seq<char>,
    i: int,
)
    requires
        0 <= i < conns.len(),
        conns[i].short_name == service,
        forall|j: int| 0 <= j < i ==> (#[trigger] conns[j]).short_name != service,
    ensures
        ({
            let r = resolve_env(EnvValueView::This { service, method }, conns, secrets);
            let c = conns[i];
            &&& (method == "connection"@ || method == "conn"@) ==> r == (match c.connection {
                Some(x) => x,
                None => Seq::<char>::empty(),
            })
            &&& (method == "internal"@ || method == "link"@ || method == "url"@) ==> r == (
            match c.internal_link {
                Some(x) => x,
                None => Seq::<char>::empty(),
            })
            &&& !(method == "connection"@ || method == "conn"@ || method == "internal"@ || method
                == "link"@ || method == "url"@) ==> r == Seq::<char>::empty()
        }),
{
    reveal_strlit("connection");
    reveal_strlit("conn");
    reveal_strlit("internal");
    reveal_strlit("link");
    reveal_strlit("url");
    assert(crate::deployable::envs::is_first_named(conns, service, i));
    let k = choose|k: int| crate::deployable::envs::is_first_named(conns, service, k);
    if k < i {
        assert(conns[k].short_name != service);
    } else if k > i {
        assert(conns[i].short_name != service);
    }
    assert(crate::deployable::envs::first_named(conns, service) == Some(conns[i]));
    if method == "internal"@ || method == "link"@ || method == "url"@ {
        assert(method.len() == 8 || method.len() == 4 || method.len() == 3);
        assert(!crate::deployable::envs::is_connection_method(method)) by {
            if method == "conn"@ {
                assert(method[0] == 'c');
            }
        }
    }
}

/// A `${{ this.S.M }}` reference to a service that no connectable names stands
/// for the empty string.
pub proof fn law_this_reference_unknown(
    conns: Seq<ConnectableView>,
    secrets: Seq<(Seq<char>, Seq<char>)>,
    service: Seq<char>,
    method: Seq<char>,
)
    requires
        forall|j: int| 0 <= j < conns.len() ==> (#[trigger] conns[j]).short_name != service,
    ensures
        resolve_env(EnvValueView::This { service, method }, conns, secrets) == Seq::<char>::empty(),
{
}

/// A variable of the configured environment: present in the resolved
/// environment exactly when its value parses, and then holding the value its
/// reference stands for; a malformed reference is left out.
pub proof fn law_final_envs_entry(
    envs: Map<Seq<char>, Seq<char>>,
    conns: Seq<ConnectableView>,
    secrets: Seq<(Seq<char>, Seq<char>)>,
    k: Seq<char>,
)
    ensures
        final_envs_spec(envs, conns, secrets).contains_key(k) <==> (envs.contains_key(k)
            && parse_env_value(envs[k]) is Some),
        envs.contains_key(k) && parse_env_value(envs[k]) is Some ==> final_envs_spec(envs, conns, secrets)[k]
            == resolve_env(parse_env_value(envs[k]).unwrap(), conns, secrets),
{
}

/// The mounts of a service request are its volumes, each as a volume mount,
/// followed by every one of its bind mounts, each as a bind mount, in order;
/// the bind mounts are all there whatever the number of volumes.
pub proof fn law_mounts_volumes_then_binds(
    volumes: Seq<(Seq<char>, Seq<char>)>,
    binds: Seq<(Seq<char>, Seq<char>)>,
)
    ensures
        mounts_spec(volumes, binds).len() == volumes.len() + binds.len(),
        forall|j: int|
            0 <= j < volumes.len() ==> #[trigger] mounts_spec(volumes, binds)[j] == ServiceMountView::Volume(
                volumes[j].0,
                volumes[j].1,
            ),
        forall|j: int|
            0 <= j < binds.len() ==> #[trigger] mounts_spec(volumes, binds)[volumes.len() + j]
                == ServiceMountView::Bind(binds[j].0, binds[j].1),
{
}

/// The routing labels of a service named `host`: routing is on, the rule
/// matches the proxy's domain and, where its path prefix is not `/`, that
/// prefix; requests go to the service itself on the proxy's port, over TLS,
/// through the `websecure` entry point. There are no other labels.
pub proof fn law_labels(host: Seq<char>, proxy: ProxyView)
    ensures
        ({
            let l = labels_spec(host, proxy);
            &&& l.len() == 6
            &&& l["traefik.enable"@] == "true"@
            &&& proxy.path_prefix != "/"@ ==> l["traefik.http.routers."@ + host + ".rule"@] == "Host(`"@
                + proxy.domain + "`)"@ + " && PathPrefix(`"@ + proxy.path_prefix + "`)"@
            &&& proxy.path_prefix == "/"@ ==> l["traefik.http.routers."@ + host + ".rule"@] == "Host(`"@
                + proxy.domain + "`)"@
            &&& l["traefik.http.routers."@ + host + ".service"@] == host
            &&& l["traefik.http.services."@ + host + ".loadbalancer.server.port"@] == decimal(
                proxy.port as nat,
            )
            &&& l["traefik.http.routers."@ + host + ".tls"@] == "true"@
            &&& l["traefik.http.routers."@ + host + ".entrypoints"@] == "websecure"@
        }),
{
    reveal_strlit("traefik.enable");
    reveal_strlit("traefik.http.routers.");
    reveal_strlit("traefik.http.services.");
    reveal_strlit(".rule");
    reveal_strlit(".service");
    reveal_strlit(".loadbalancer.server.port");
    reveal_strlit(".tls");
    reveal_strlit(".entrypoints");
    let k1 = "traefik.enable"@;
    let k2 = "traefik.http.routers."@ + host + ".rule"@;
    let k3 = "traefik.http.routers."@ + host + ".service"@;
    let k4 = "traefik.http.services."@ + host + ".loadbalancer.server.port"@;
    let k5 = "traefik.http.routers."@ + host + ".tls"@;
    let k6 = "traefik.http.routers."@ + host + ".entrypoints"@;
    assert(k1.len() == 14);
    assert(k2.len() == host.len() + 26);
    assert(k3.len() == host.len() + 29);
    assert(k4.len() == host.len() + 47);
    assert(k5.len() == host.len() + 25);
    assert(k6.len() == host.len() + 33);
    assert(k1 != k2 && k1 != k3 && k1 != k4 && k1 != k5 && k1 != k6);
    assert(k2 != k3 && k2 != k4 && k2 != k5 && k2 != k6);
    assert(k3 != k4 && k3 != k5 && k3 != k6);
    assert(k4 != k5 && k4 != k6);
    assert(k5 != k6);
    let l = labels_spec(host, proxy);
    assert(l.dom() =~= set![k1, k2, k3, k4, k5, k6]);
    assert(set![k1, k2, k3, k4, k5, k6].len() == 6) by {
        let s0 = Set::<Seq<char>>::empty();
        assert(set![k1, k2, k3, k4, k5, k6] =~= s0.insert(k1).insert(k2).insert(k3).insert(k4).insert(k5).insert(k6));
    }
    if proxy.path_prefix != "/"@ {
        assert(l[k2] =~= "Host(`"@ + proxy.domain + "`)"@ + " && PathPrefix(`"@ + proxy.path_prefix + "`)"@);
    } else {
        assert(l[k2] =~= "Host(`"@ + proxy.domain + "`)"@);
    }
}

/// The task that builds an application uses its configured Dockerfile and
/// build context where they are given (`Dockerfile` and `./` otherwise), the
/// platform asked for (`linux/amd64` otherwise), and is tagged with the
/// application's image name and the build time.
pub proof fn law_build_task(
    project: Seq<char>,
    name: Seq<char>,
    app: AppConfig,
    remote_platform: Option<String>,
    now: u64,
)
    ensures
        ({
            let t = build_task_spec(project, name, app, remote_platform, now);
            &&& t.app_name == name
            &&& app.dockerfile is Some ==> t.docker_file_name == app.dockerfile.unwrap()@
            &&& app.dockerfile is None ==> t.docker_file_name == "Dockerfile"@
            &&& app.context is Some ==> t.context == app.context.unwrap()@
            &&& app.context is None ==> t.context == "./"@
            &&& remote_platform is Some ==> t.platform == remote_platform.unwrap()@
            &&& remote_platform is None ==> t.platform == "linux/amd64"@
            &&& t.tag == project + "-"@ + name + "-image"@ + ":"@ + decimal(now as nat)
        }),
{
}

/// No step, no names.
pub proof fn law_plan_names_empty(a: DeployAction)
    ensures
        names_with_action(Seq::<Deploy>::empty(), a) == Seq::<Seq<char>>::empty(),
        plan_build_names(Seq::<Deploy>::empty()) == Seq::<Seq<char>>::empty(),
        task_build_names(Seq::<DeployTask>::empty()) == Seq::<Seq<char>>::empty(),
{
}

/// One more step of a plan adds its name to the list of its action, after
/// the names already there, and leaves the lists of the other actions as they are.
pub proof fn law_plan_names_step(ds: Seq<Deploy>, d: Deploy, a: DeployAction)
    ensures
        d.action == a ==> names_with_action(ds.push(d), a) == names_with_action(ds, a).push(
            d.deployable.short_name@,
        ),
        d.action != a ==> names_with_action(ds.push(d), a) == names_with_action(ds, a),
        names_with_action(ds.push(d), a).len() == names_with_action(ds, a).len() + (if d.action == a { 1int } else { 0int }),
{
    assert(ds.push(d).drop_last() =~= ds);
}

/// One more step of a plan adds the applications its tasks build after those
/// already listed.
pub proof fn law_plan_build_names_step(ds: Seq<Deploy>, d: Deploy)
    ensures
        plan_build_names(ds.push(d)) == plan_build_names(ds) + task_build_names(d.client_tasks@),
{
    assert(ds.push(d).drop_last() =~= ds);
}

/// One more task adds its application's name where it is a build, and nothing otherwise.
pub proof fn law_task_build_names_step(ts: Seq<DeployTask>, t: DeployTask)
    ensures
        task_build_names(ts.push(t)) == task_build_names(ts) + match t {
            DeployTask::Build(n) => seq![n@],
            DeployTask::Other => Seq::<Seq<char>>::empty(),
        },
{
    assert(ts.push(t).drop_last() =~= ts);
}


/// The time of a tag is what follows its first `:`, read as a `u64` (0 where
/// that does not parse).
pub proof fn law_image_time(pre: Seq<char>, rest: Seq<char>)
    requires
        !pre.contains(':'),
    ensures
        image_time(pre + seq![':'] + rest) == match parse_u64(rest) {
            Some(v) => v as nat,
            None => 0,
        },
{
    let tag = pre + seq![':'] + rest;
    let l = pre.len() as int;
    assert(tag.take(l) =~= pre);
    assert(first_colon_at(tag, l));
    let p = choose|p: int| first_colon_at(tag, p);
    if p < l {
        assert(pre[p] == ':');
    } else if p > l {
        assert(tag.take(p)[l] == ':');
    }
    assert(tag.skip(l + 1) =~= rest);
}

/// A tag without a `:` carries no time.
pub proof fn law_image_time_no_colon(tag: Seq<char>)
    requires
        !tag.contains(':'),
    ensures
        image_time(tag) == 0,
{
    if exists|p: int| first_colon_at(tag, p) {
        let p = choose|p: int| first_colon_at(tag, p);
        assert(tag[p] == ':');
    }
}

/// The tags of an application are exactly the given tags that begin with its prefix.
pub proof fn law_tagged_for_members(tags: Seq<Seq<char>>, prefix: Seq<char>)
    ensures
        forall|t: Seq<char>| #[trigger] tagged_for(tags, prefix).contains(t) <==> (tags.contains(t)
            && has_prefix(t, prefix)),
{
    assert forall|t: Seq<char>| #[trigger] tagged_for(tags, prefix).contains(t) <==> (tags.contains(t)
        && has_prefix(t, prefix)) by {
        if tagged_for(tags, prefix).contains(t) {
            let i = choose|i: int| 0 <= i < tagged_for(tags, prefix).len() && tagged_for(tags, prefix)[i] == t;
            lemma_filter_from(tags, prefix, i);
        }
        if tags.contains(t) && has_prefix(t, prefix) {
            let k = choose|k: int| 0 <= k < tags.len() && tags[k] == t;
            tags.lemma_filter_contains(|x: Seq<char>| has_prefix(x, prefix), k);
        }
    }
}

/// A value not written as `${{ .. }}` is literal text.
pub proof fn law_plain_text_value(raw: Seq<char>)
    requires
        !is_template(raw),
    ensures
        parse_env_value(raw) == Some(EnvValueView::Text(raw)),
{
}

/// A value written as `${{`, a body, `}}` is what its body, without the spaces
/// around it, names.
pub proof fn law_template_value(body: Seq<char>)
    ensures
        parse_env_value(seq!['$', '{', '{'] + body + seq!['}', '}']) == parse_reference(trim(body)),
{
    let raw = seq!['$', '{', '{'] + body + seq!['}', '}'];
    assert(raw.take(3) =~= seq!['$', '{', '{']);
    assert(raw.skip(raw.len() - 2) =~= seq!['}', '}']);
    assert(raw.subrange(3, raw.len() - 2) =~= body);
}

/// `this.S.M`, with `S` and `M` non-empty and free of dots, names what
/// service `S` offers under `M`.
pub proof fn law_this_reference_syntax(service: Seq<char>, method: Seq<char>)
    requires
        service.len() > 0,
        method.len() > 0,
        !service.contains('.'),
        !method.contains('.'),
    ensures
        parse_reference(this_prefix() + service + seq!['.'] + method) == Some(
            EnvValueView::This { service, method },
        ),
{
    let body = this_prefix() + service + seq!['.'] + method;
    assert(body.take(5) =~= this_prefix());
    let rest = body.skip(5);
    assert(rest =~= service + seq!['.'] + method);
    let l = service.len() as int;
    assert(rest.take(l) =~= service);
    assert(rest.skip(l + 1) =~= method);
    assert(sole_inner_dot(rest, l));
    let p = choose|p: int| sole_inner_dot(rest, p);
    if p < l {
        assert(service[p] == '.');
    } else if p > l {
        assert(rest.take(p)[l] == '.');
    }
}

/// `secret.K`, with `K` non-empty and free of dots, names the secret `K`.
pub proof fn law_secret_reference_syntax(key: Seq<char>)
    requires
        key.len() > 0,
        !key.contains('.'),
    ensures
        parse_reference(secret_prefix() + key) == Some(EnvValueView::Secret(key)),
{
    let body = secret_prefix() + key;
    assert(body.take(7) =~= secret_prefix());
    assert(body.skip(7) =~= key);
    assert(!(body.len() >= 5 && body.take(5) == this_prefix())) by {
        assert(body[0] == 's');
        if body.take(5) == this_prefix() {
            assert(body.take(5)[0] == 't');
        }
    }
}

/// Spaces before a body do not change what it names, nor does a body that
/// has none at either end change when trimmed.
pub proof fn law_trim(s: Seq<char>)
    ensures
        trim(seq![' '] + s) == trim(s),
        s.len() == 0 || (s[0] != ' ' && s.last() != ' ') ==> trim(s) == s,
{
    assert((seq![' '] + s).drop_first() =~= s);
}

/// A service with a port and a domain is reached at `<service name>:<port>`;
/// one that lacks either has no link.
pub proof fn law_link_for(project: Seq<char>, name: Seq<char>, port: Option<u16>, domain_set: bool)
    ensures
        domain_set && port is Some ==> link_for(project, name, port, domain_set) == Some(
            project + "-"@ + name + "-service"@ + ":"@ + decimal(port.unwrap() as nat),
        ),
        !(domain_set && port is Some) ==> link_for(project, name, port, domain_set) is None,
{
}

/// A unit with both a port and a domain is routed by one proxy on that port
/// and domain, under its path prefix or else `/`; a unit that lacks either is not routed.
pub proof fn law_proxy(port: Option<u16>, domain: Option<String>, path_prefix: Option<String>)
    ensures
        port is Some && domain is Some ==> proxy_spec(port, domain, path_prefix).len() == 1
            && proxy_spec(port, domain, path_prefix)[0].port == port.unwrap()
            && proxy_spec(port, domain, path_prefix)[0].domain == domain.unwrap()@
            && proxy_spec(port, domain, path_prefix)[0].path_prefix == (match path_prefix {
                Some(p) => p@,
                None => "/"@,
            }),
        !(port is Some && domain is Some) ==> proxy_spec(port, domain, path_prefix).len() == 0,
{
}


proof fn lemma_decimal_leading(n: nat)
    requires
        n > 0,
    ensures
        decimal(n)[0] != '0',
    decreases n,
{
    if n >= 10 {
        lemma_decimal_leading(n / 10);
        lemma_decimal(n / 10);
        assert(decimal(n)[0] == decimal(n / 10)[0]);
    }
}

/// The decimal text of a number is a non-empty string of digits whose value
/// is the number, with no leading zero (`0` itself is written `0`).
pub proof fn law_decimal(n: nat)
    ensures
        decimal(n).len() > 0,
        all_digits(decimal(n)),
        digits_value(decimal(n)) == n,
        n > 0 ==> decimal(n)[0] != '0',
        n == 0 ==> decimal(n) == seq!['0'],
{
    lemma_decimal(n);
    if n > 0 {
        lemma_decimal_leading(n);
    }
}

/// `str::parse::<u64>` accepts a run of digits that fits in 64 bits, with or
/// without a leading `+`, and gives its value; it refuses the empty string, a
/// run whose value does not fit, and a string that begins with anything but a
/// digit or `+`.
pub proof fn law_parse_u64(d: Seq<char>)
    ensures
        d.len() > 0 && all_digits(d) && digits_value(d) <= u64::MAX ==> parse_u64(d) == Some(
            digits_value(d) as u64,
        ) && parse_u64(seq!['+'] + d) == Some(digits_value(d) as u64),
        all_digits(d) && digits_value(d) > u64::MAX ==> parse_u64(d) is None && parse_u64(seq!['+'] + d) is None,
        d.len() == 0 ==> parse_u64(d) is None && parse_u64(seq!['+'] + d) is None,
        d.len() > 0 && !is_digit(d[0]) && d[0] != '+' ==> parse_u64(d) is None,
{
    assert((seq!['+'] + d).drop_first() =~= d);
    if d.len() > 0 {
        assert(is_digit(d[0]) ==> d[0] != '+');
    }
}

} // verus!
