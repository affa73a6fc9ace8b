//! Deployable units of a project and what they are made from.
pub mod connectable;
pub mod envs;
pub mod naming;
pub mod images;

pub use connectable::{Connectable, ConnectableView};
pub use images::latest_tag;
pub use envs::{final_envs, get_default_envs};

use vstd::prelude::*;
use crate::config::{AppConfig, DbConfig, SecretValue, ServiceConfig, map_or_empty, str_or, strs_view};
use crate::docker::{ServiceMount, ServiceMountView, ServiceParam};
use crate::error::DeployError;
use crate::strmap::StrMap;
use crate::text::{decimal, str_eq, u64_to_decimal};
use envs::{connectables_view, default_envs_spec, final_envs_spec, secrets_view};
use images::{latest_image, tagged_for, tags_with_prefix};
use naming::{image_name, service_name, service_name_spec, volume_name, volume_name_spec};

verus! {

/// Where the reverse proxy routes requests for a service.
#[derive(Debug, Clone)]
pub struct ProxyParams {
    pub port: u16,
    pub path_prefix: String,
    pub domain: String,
}

/// Proxy settings as character sequences.
pub struct ProxyView {
    pub port: u16,
    pub path_prefix: Seq<char>,
    pub domain: Seq<char>,
}

impl View for ProxyParams {
    type V = ProxyView;

    open spec fn view(&self) -> ProxyView {
        ProxyView { port: self.port, path_prefix: self.path_prefix@, domain: self.domain@ }
    }
}

/// A unit of the project that runs as one service.
#[derive(Debug, Clone)]
pub struct Deployable {
    /// The name of the unit, without the project's name.
    pub short_name: String,
    pub project_name: String,
    /// `app`, `service` or `db`.
    pub config_type: String,
    /// The service's name, and its host on the project's network.
    pub service_name: String,
    pub docker_image: String,
    pub proxies: Vec<ProxyParams>,
    pub envs: StrMap,
    pub volumes: StrMap,
    pub mounts: StrMap,
    pub args: Vec<String>,
    pub depends_on: Option<Vec<String>>,
    pub replicas: u32,
}

/// A deployable as character sequences and maps.
pub struct DeployableView {
    pub short_name: Seq<char>,
    pub project_name: Seq<char>,
    pub config_type: Seq<char>,
    pub service_name: Seq<char>,
    pub docker_image: Seq<char>,
    pub proxies: Seq<ProxyView>,
    pub envs: Map<Seq<char>, Seq<char>>,
    pub volumes: Map<Seq<char>, Seq<char>>,
    pub mounts: Map<Seq<char>, Seq<char>>,
    pub args: Seq<Seq<char>>,
    pub depends_on: Option<Seq<Seq<char>>>,
    pub replicas: u32,
}

pub open spec fn proxies_view(p: Seq<ProxyParams>) -> Seq<ProxyView> {
    p.map_values(|x: ProxyParams| x@)
}

pub open spec fn opt_strs_view(o: Option<Vec<String>>) -> Option<Seq<Seq<char>>> {
    match o {
        Some(v) => Some(strs_view(v@)),
        None => None,
    }
}

/// The strings of an optional list, or none where it is absent.
pub open spec fn strs_or_empty(o: Option<Vec<String>>) -> Seq<Seq<char>> {
    match o {
        Some(v) => strs_view(v@),
        None => Seq::empty(),
    }
}

impl View for Deployable {
    type V = DeployableView;

    open spec fn view(&self) -> DeployableView {
        DeployableView {
            short_name: self.short_name@,
            project_name: self.project_name@,
            config_type: self.config_type@,
            service_name: self.service_name@,
            docker_image: self.docker_image@,
            proxies: proxies_view(self.proxies@),
            envs: self.envs@,
            volumes: self.volumes@,
            mounts: self.mounts@,
            args: strs_view(self.args@),
            depends_on: opt_strs_view(self.depends_on),
            replicas: self.replicas,
        }
    }
}

/// The routing of a service that has both a port and a domain: one proxy, on
/// the path prefix given or `/`.
pub open spec fn proxy_spec(port: Option<u16>, domain: Option<String>, path_prefix: Option<String>) -> Seq<ProxyView> {
    if port is Some && domain is Some {
        seq![ProxyView { port: port.unwrap(), path_prefix: str_or(path_prefix, "/"@), domain: domain.unwrap()@ }]
    } else {
        Seq::empty()
    }
}

/// Where a database engine keeps its data.
pub open spec fn db_data_dir(from: Seq<char>) -> Seq<char> {
    if from == "postgres"@ {
        "/var/lib/postgresql/data"@
    } else {
        "/var/lib/mysql"@
    }
}

/// The labels that route a service through the reverse proxy.
pub open spec fn labels_spec(host: Seq<char>, proxy: ProxyView) -> Map<Seq<char>, Seq<char>> {
    let rule = "Host(`"@ + proxy.domain + "`)"@ + if proxy.path_prefix != "/"@ {
        " && PathPrefix(`"@ + proxy.path_prefix + "`)"@
    } else {
        Seq::empty()
    };
    Map::empty().insert("traefik.enable"@, "true"@).insert(
        "traefik.http.routers."@ + host + ".rule"@,
        rule,
    ).insert("traefik.http.routers."@ + host + ".service"@, host).insert(
        "traefik.http.services."@ + host + ".loadbalancer.server.port"@,
        decimal(proxy.port as nat),
    ).insert("traefik.http.routers."@ + host + ".tls"@, "true"@).insert(
        "traefik.http.routers."@ + host + ".entrypoints"@,
        "websecure"@,
    )
}

/// The mounts of a service: its volumes, then its bind mounts, each in order.
pub open spec fn mounts_spec(
    volumes: Seq<(Seq<char>, Seq<char>)>,
    binds: Seq<(Seq<char>, Seq<char>)>,
) -> Seq<ServiceMountView> {
    volumes.map_values(|p: (Seq<char>, Seq<char>)| ServiceMountView::Volume(p.0, p.1)) + binds.map_values(
        |p: (Seq<char>, Seq<char>)| ServiceMountView::Bind(p.0, p.1),
    )
}

pub open spec fn mounts_view(m: Seq<ServiceMount>) -> Seq<ServiceMountView> {
    m.map_values(|x: ServiceMount| x@)
}

/// Whether a deployment replaces a running service or creates a new one.
#[derive(Debug, Clone, Copy, PartialEq, Eq, Structural)]
pub enum DeployMode {
    Update,
    Create,
}

fn proxy_of(port: Option<u16>, domain: Option<String>, path_prefix: Option<String>) -> (r: Vec<ProxyParams>)
    ensures
        proxies_view(r@) == proxy_spec(port, domain, path_prefix),
{
    let mut proxies: Vec<ProxyParams> = Vec::new();
    if port.is_some() && domain.is_some() {
        let prefix = match path_prefix {
            Some(p) => p,
            None => "/".to_owned(),
        };
        proxies.push(ProxyParams { port: port.unwrap(), path_prefix: prefix, domain: domain.unwrap() });
    }
    assert(proxies_view(proxies@) =~= proxy_spec(port, domain, path_prefix));
    proxies
}

fn map_or_new(m: Option<StrMap>) -> (r: StrMap)
    ensures
        r@ == map_or_empty(m),
{
    match m {
        Some(m) => m,
        None => StrMap::new(),
    }
}

fn strings_or_new(v: Option<Vec<String>>) -> (r: Vec<String>)
    ensures
        strs_view(r@) == strs_or_empty(v),
{
    match v {
        Some(v) => v,
        None => {
            let r: Vec<String> = Vec::new();
            assert(strs_view(r@) =~= Seq::<Seq<char>>::empty());
            r
        },
    }
}

fn copy_strings(v: &Vec<String>) -> (r: Vec<String>)
    ensures
        strs_view(r@) == strs_view(v@),
{
    let mut r: Vec<String> = Vec::new();
    let mut i: usize = 0;
    while i < v.len()
        invariant
            i <= v.len(),
            r.len() == i,
            strs_view(r@) == strs_view(v@).take(i as int),
        decreases v.len() - i,
    {
        let ghost before = r@;
        r.push(v[i].clone());
        assert(strs_view(r@) =~= strs_view(before).push(v@[i as int]@));
        i = i + 1;
        assert(strs_view(r@) =~= strs_view(v@).take(i as int));
    }
    assert(strs_view(v@).take(v.len() as int) =~= strs_view(v@));
    r
}

impl Deployable {
    /// The unit of an application built by the project: it runs the newest
    /// image built for it, in two replicas. Fails where no image was built for it.
    pub fn from_app_config(
        name: String,
        config: AppConfig,
        project_name: String,
        image_tags: Vec<String>,
        secrets: Vec<SecretValue>,
        connectables: Vec<Connectable>,
    ) -> (r: Result<Self, DeployError>)
        requires
            latest_image(tagged_for(strs_view(image_tags@), images::image_prefix(project_name@, name@))) is Some
                ==> config.envs is Some,
        ensures
            match latest_image(tagged_for(strs_view(image_tags@), images::image_prefix(project_name@, name@))) {
                Some(image) => r is Ok && r.unwrap()@ == (DeployableView {
                    short_name: name@,
                    project_name: project_name@,
                    config_type: "app"@,
                    service_name: service_name_spec(project_name@, name@),
                    docker_image: image,
                    proxies: proxy_spec(config.port, config.domain, config.path_prefix),
                    envs: final_envs_spec(config.envs.unwrap()@, connectables_view(connectables@), secrets_view(secrets@)),
                    volumes: map_or_empty(config.volumes),
                    mounts: map_or_empty(config.mounts),
                    args: strs_or_empty(config.args),
                    depends_on: None,
                    replicas: 2,
                }),
                None => r == Err::<Self, DeployError>(DeployError::NoImages),
            },
    {
        let prefix = image_name(&project_name, &name);
        let this_image_tags = tags_with_prefix(image_tags, &prefix);
        let proxies = proxy_of(config.port, config.domain, config.path_prefix);
        let docker_image = match latest_tag(this_image_tags) {
            Some(t) => t,
            None => return Err(DeployError::NoImages),
        };
        let envs = final_envs(config.envs, connectables, secrets);
        Ok(Deployable {
            short_name: name.clone(),
            project_name: project_name.clone(),
            config_type: "app".to_owned(),
            service_name: service_name(&project_name, &name),
            docker_image,
            proxies,
            envs,
            volumes: map_or_new(config.volumes),
            mounts: map_or_new(config.mounts),
            args: strings_or_new(config.args),
            depends_on: None,
            replicas: 2,
        })
    }

    /// The unit of a service run from a ready-made image, in one replica.
    pub fn from_service_config(
        name: String,
        config: ServiceConfig,
        project_name: String,
        secrets: Vec<SecretValue>,
        connectables: Vec<Connectable>,
    ) -> (r: Result<Self, DeployError>)
        requires
            config.envs is Some,
        ensures
            r is Ok,
            r.unwrap()@ == (DeployableView {
                short_name: name@,
                project_name: project_name@,
                config_type: "service"@,
                service_name: service_name_spec(project_name@, name@),
                docker_image: config.image@,
                proxies: proxy_spec(config.port, config.domain, config.path_prefix),
                envs: final_envs_spec(config.envs.unwrap()@, connectables_view(connectables@), secrets_view(secrets@)),
                volumes: map_or_empty(config.volumes),
                mounts: map_or_empty(config.mounts),
                args: strs_or_empty(config.args),
                depends_on: None,
                replicas: 1,
            }),
    {
        let proxies = proxy_of(config.port, config.domain, config.path_prefix);
        let envs = final_envs(config.envs, connectables, secrets);
        Ok(Deployable {
            short_name: name.clone(),
            project_name: project_name.clone(),
            config_type: "service".to_owned(),
            service_name: service_name(&project_name, &name),
            docker_image: config.image,
            proxies,
            envs,
            volumes: map_or_new(config.volumes),
            mounts: map_or_new(config.mounts),
            args: strings_or_new(config.args),
            depends_on: None,
            replicas: 1,
        })
    }

    /// The unit of a database: the engine's image, its default environment
    /// overridden by the configured one, and a volume for its data. Fails
    /// where the engine is not one known here.
    pub fn from_db_config(
        name: String,
        config: DbConfig,
        project_name: String,
        secrets: Vec<SecretValue>,
        connectables: Vec<Connectable>,
    ) -> (r: Result<Self, DeployError>)
        requires
            config.from@ == "postgres"@ || config.from@ == "mysql"@ ==> config.envs is Some,
        ensures
            if config.from@ == "postgres"@ || config.from@ == "mysql"@ {
                r is Ok && r.unwrap()@ == (DeployableView {
                    short_name: name@,
                    project_name: project_name@,
                    config_type: "db"@,
                    service_name: service_name_spec(project_name@, name@),
                    docker_image: config.from@,
                    proxies: Seq::empty(),
                    envs: default_envs_spec(config.from@).unwrap().union_prefer_right(
                        final_envs_spec(config.envs.unwrap()@, connectables_view(connectables@), secrets_view(secrets@)),
                    ),
                    volumes: map![volume_name_spec(project_name@, name@) => db_data_dir(config.from@)],
                    mounts: map_or_empty(config.mounts),
                    args: strs_or_empty(config.args),
                    depends_on: None,
                    replicas: 1,
                })
            } else {
                r == Err::<Self, DeployError>(DeployError::InvalidDatabaseType)
            },
    {
        let mut volumes = StrMap::new();
        let (mut envs, image_name) = if str_eq(config.from.as_str(), "postgres") {
            proof {
                reveal_strlit("postgres");
                reveal_strlit("mysql");
            }
            let envs = match get_default_envs("postgres") {
                Some(e) => e,
                None => return Err(DeployError::NoDefaultEnvs),
            };
            volumes.insert(volume_name(&project_name, &name), "/var/lib/postgresql/data".to_owned());
            (envs, "postgres".to_owned())
        } else if str_eq(config.from.as_str(), "mysql") {
            let envs = match get_default_envs("mysql") {
                Some(e) => e,
                None => return Err(DeployError::NoDefaultEnvs),
            };
            proof {
                reveal_strlit("postgres");
                reveal_strlit("mysql");
            }
            volumes.insert(volume_name(&project_name, &name), "/var/lib/mysql".to_owned());
            (envs, "mysql".to_owned())
        } else {
            return Err(DeployError::InvalidDatabaseType);
        };
        let user_envs = final_envs(config.envs, connectables, secrets);
        envs.extend(&user_envs);
        let proxies: Vec<ProxyParams> = Vec::new();
        assert(proxies_view(proxies@) =~= Seq::<ProxyView>::empty());
        Ok(Deployable {
            short_name: name.clone(),
            project_name: project_name.clone(),
            config_type: "db".to_owned(),
            service_name: service_name(&project_name, &name),
            docker_image: image_name,
            proxies,
            envs,
            volumes,
            mounts: map_or_new(config.mounts),
            args: strings_or_new(config.args),
            depends_on: None,
            replicas: 1,
        })
    }

    /// Whether deploying replaces the running service of that name or creates it.
    pub fn deploy_mode(&self, service_names: &Vec<String>) -> (r: DeployMode)
        ensures
            (r == DeployMode::Update) == strs_view(service_names@).contains(self.service_name@),
    {
        let mut i: usize = 0;
        while i < service_names.len()
            invariant
                i <= service_names.len(),
                forall|j: int| 0 <= j < i ==> strs_view(service_names@)[j] != self.service_name@,
            decreases service_names.len() - i,
        {
            if service_names[i] == self.service_name {
                assert(strs_view(service_names@)[i as int] == self.service_name@);
                return DeployMode::Update;
            }
            i = i + 1;
        }
        DeployMode::Create
    }

    /// The labels that route requests for this service through the reverse
    /// proxy, by its first proxy setting.
    pub fn get_labels(&self) -> (r: StrMap)
        requires
            self.proxies.len() > 0,
        ensures
            r@ == labels_spec(self.service_name@, self.proxies@[0]@),
    {
        let mut labels = StrMap::new();
        labels.insert("traefik.enable".to_owned(), "true".to_owned());
        let first_proxy = &self.proxies[0];
        let host = &self.service_name;
        let mut host_params = "Host(`".to_owned();
        host_params.append(first_proxy.domain.as_str());
        host_params.append("`)");
        if !str_eq(first_proxy.path_prefix.as_str(), "/") {
            host_params.append(" && PathPrefix(`");
            host_params.append(first_proxy.path_prefix.as_str());
            host_params.append("`)");
        }
        let ghost p0 = self.proxies@[0]@;
        assert(p0 == first_proxy@);
        assert(host_params@ == "Host(`"@ + p0.domain + "`)"@ + if p0.path_prefix != "/"@ {
            " && PathPrefix(`"@ + p0.path_prefix + "`)"@
        } else {
            Seq::<char>::empty()
        });
        let mut k = "traefik.http.routers.".to_owned();
        k.append(host.as_str());
        k.append(".rule");
        labels.insert(k, host_params);
        let mut k = "traefik.http.routers.".to_owned();
        k.append(host.as_str());
        k.append(".service");
        labels.insert(k, host.clone());
        let mut k = "traefik.http.services.".to_owned();
        k.append(host.as_str());
        k.append(".loadbalancer.server.port");
        labels.insert(k, u64_to_decimal(first_proxy.port as u64));
        let mut k = "traefik.http.routers.".to_owned();
        k.append(host.as_str());
        k.append(".tls");
        labels.insert(k, "true".to_owned());
        let mut k = "traefik.http.routers.".to_owned();
        k.append(host.as_str());
        k.append(".entrypoints");
        labels.insert(k, "websecure".to_owned());
        assert(labels@ =~= labels_spec(self.service_name@, self.proxies@[0]@)) by {
            assert(self.proxies@[0]@ == first_proxy@);
        }
        labels
    }

    /// The request that runs this unit as a service on `network_name`.
    pub fn to_docker_params(&self, network_name: String) -> (r: Result<ServiceParam, DeployError>)
        requires
            self.proxies.len() > 0,
        ensures
            r is Ok,
            r.unwrap().name@ == self.service_name@,
            r.unwrap().image@ == self.docker_image@,
            r.unwrap().network_name@ == network_name@,
            r.unwrap().labels@ == labels_spec(self.service_name@, self.proxies@[0]@),
            r.unwrap().exposed_ports@.len() == 0,
            r.unwrap().envs@ == self.envs@,
            mounts_view(r.unwrap().mounts@) == mounts_spec(self.volumes.pairs(), self.mounts.pairs()),
            r.unwrap().mounts@.len() == self.volumes@.len() + self.mounts@.len(),
            forall|k: Seq<char>| #[trigger] self.volumes@.contains_key(k) ==> exists|j: int|
                0 <= j < r.unwrap().mounts@.len() && mounts_view(r.unwrap().mounts@)[j]
                    == ServiceMountView::Volume(k, self.volumes@[k]),
            forall|k: Seq<char>| #[trigger] self.mounts@.contains_key(k) ==> exists|j: int|
                0 <= j < r.unwrap().mounts@.len() && mounts_view(r.unwrap().mounts@)[j]
                    == ServiceMountView::Bind(k, self.mounts@[k]),
            strs_view(r.unwrap().args@) == strs_view(self.args@),
            r.unwrap().memory == 1024,
            r.unwrap().replicas == self.replicas as i64,
            r.unwrap().constraints@.len() == 0,
    {
        let mut service_mounts: Vec<ServiceMount> = Vec::new();
        let ghost vp = self.volumes.pairs();
        let ghost bp = self.mounts.pairs();
        let nv = self.volumes.len();
        let mut i: usize = 0;
        while i < nv
            invariant
                nv == vp.len(),
                vp == self.volumes.pairs(),
                i <= nv,
                mounts_view(service_mounts@) == mounts_spec(vp.take(i as int), Seq::empty()),
            decreases nv - i,
        {
            let (k, v) = self.volumes.entry(i);
            let ghost before = service_mounts@;
            service_mounts.push(ServiceMount::Volume(k.clone(), v.clone()));
            assert(mounts_view(service_mounts@) =~= mounts_view(before).push(ServiceMountView::Volume(vp[i as int].0, vp[i as int].1)));
            assert(vp.take(i + 1) =~= vp.take(i as int).push(vp[i as int]));
            i = i + 1;
            assert(mounts_view(service_mounts@) =~= mounts_spec(vp.take(i as int), Seq::empty()));
        }
        assert(vp.take(nv as int) =~= vp);
        let nb = self.mounts.len();
        let mut i: usize = 0;
        while i < nb
            invariant
                nb == bp.len(),
                bp == self.mounts.pairs(),
                i <= nb,
                mounts_view(service_mounts@) == mounts_spec(vp, bp.take(i as int)),
            decreases nb - i,
        {
            let (k, v) = self.mounts.entry(i);
            let ghost before = service_mounts@;
            service_mounts.push(ServiceMount::Bind(k.clone(), v.clone()));
            assert(mounts_view(service_mounts@) =~= mounts_view(before).push(ServiceMountView::Bind(bp[i as int].0, bp[i as int].1)));
            assert(bp.take(i + 1) =~= bp.take(i as int).push(bp[i as int]));
            i = i + 1;
            assert(mounts_view(service_mounts@) =~= mounts_spec(vp, bp.take(i as int)));
        }
        assert(bp.take(nb as int) =~= bp);
        proof {
            crate::strmap::lemma_pairs_map(vp);
            crate::strmap::lemma_pairs_map(bp);
            crate::laws::law_mounts_volumes_then_binds(vp, bp);
            let mv = mounts_view(service_mounts@);
            assert(mv.len() == service_mounts@.len());
            assert forall|k: Seq<char>| #[trigger] self.volumes@.contains_key(k) implies exists|j: int|
                0 <= j < service_mounts@.len() && mv[j] == ServiceMountView::Volume(k, self.volumes@[k]) by {
                let j = choose|j: int| 0 <= j < vp.len() && (#[trigger] vp[j]).0 == k;
                assert(mv[j] == ServiceMountView::Volume(vp[j].0, vp[j].1));
            }
            assert forall|k: Seq<char>| #[trigger] self.mounts@.contains_key(k) implies exists|j: int|
                0 <= j < service_mounts@.len() && mv[j] == ServiceMountView::Bind(k, self.mounts@[k]) by {
                let j = choose|j: int| 0 <= j < bp.len() && (#[trigger] bp[j]).0 == k;
                assert(mv[vp.len() + j] == ServiceMountView::Bind(bp[j].0, bp[j].1));
            }
        }
        Ok(ServiceParam {
            name: self.service_name.clone(),
            image: self.docker_image.clone(),
            network_name,
            labels: self.get_labels(),
            exposed_ports: Vec::new(),
            envs: self.envs.copy(),
            mounts: service_mounts,
            args: copy_strings(&self.args),
            memory: 1024,
            replicas: self.replicas as i64,
            constraints: Vec::new(),
        })
    }
}

} // verus!
