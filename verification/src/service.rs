//! The service definition model: one service's desired configuration,
//! built up by fluent methods that keep the definition consistent at
//! every step (an image and a build context are never both set).

use vstd::prelude::*;
use vstd::string::StrSliceExecFns;
use vstd::string::StringExecFns;
use crate::kv::StrMap;
use crate::kv::kv_strings;
use crate::kv::kv_insert;
use crate::kv::kv_get;
use crate::strutil::all_digits;
use crate::strutil::dec_val;
use crate::strutil::find_char;
use crate::strutil::find_char_from;
use crate::strutil::parse_u16;
use crate::strutil::spec_join;
use crate::strutil::join;

verus! {

/// The mathematical value of a build configuration.
pub ghost struct BuildConfigView {
    pub context: Seq<char>,
    pub dockerfile: Option<Seq<char>>,
    pub args: Seq<(Seq<char>, Seq<char>)>,
    pub target: Option<Seq<char>>,
    pub cache_from: Seq<Seq<char>>,
    pub network: Option<Seq<char>>,
    pub ssh: Option<Seq<char>>,
}

/// How to build a service's image from a build context.
#[derive(Debug)]
pub struct BuildConfig {
    pub context: String,
    pub dockerfile: Option<String>,
    pub args: StrMap,
    pub target: Option<String>,
    pub cache_from: Vec<String>,
    pub network: Option<String>,
    pub ssh: Option<String>,
}

impl View for BuildConfig {
    type V = BuildConfigView;

    open spec fn view(&self) -> BuildConfigView {
        BuildConfigView {
            context: self.context@,
            dockerfile: self.dockerfile.deep_view(),
            args: self.args@,
            target: self.target.deep_view(),
            cache_from: self.cache_from.deep_view(),
            network: self.network.deep_view(),
            ssh: self.ssh.deep_view(),
        }
    }
}

/// A build configuration with every optional part absent.
pub open spec fn spec_build_config_new(context: Seq<char>) -> BuildConfigView {
    BuildConfigView {
        context,
        dockerfile: None,
        args: Seq::empty(),
        target: None,
        cache_from: Seq::empty(),
        network: None,
        ssh: None,
    }
}

impl BuildConfig {
    /// A build configuration for the given context directory.
    pub fn new(context: String) -> (r: BuildConfig)
        ensures
            r@ == spec_build_config_new(context@),
    {
        let r = BuildConfig {
            context,
            dockerfile: None,
            args: StrMap::new(),
            target: None,
            cache_from: Vec::new(),
            network: None,
            ssh: None,
        };
        proof {
            assert(r@.args =~= Seq::<(Seq<char>, Seq<char>)>::empty());
            assert(r@.cache_from =~= Seq::<Seq<char>>::empty());
        }
        r
    }

    /// Copies the configuration.
    pub fn duplicate(&self) -> (r: BuildConfig)
        ensures
            r@ == self@,
    {
        BuildConfig {
            context: self.context.clone(),
            dockerfile: clone_opt_string(&self.dockerfile),
            args: self.args.duplicate(),
            target: clone_opt_string(&self.target),
            cache_from: clone_string_vec(&self.cache_from),
            network: clone_opt_string(&self.network),
            ssh: clone_opt_string(&self.ssh),
        }
    }
}

/// Copies an optional string.
pub fn clone_opt_string(s: &Option<String>) -> (r: Option<String>)
    ensures
        r.deep_view() == s.deep_view(),
{
    match s {
        Some(v) => Some(v.clone()),
        None => None,
    }
}

/// Copies a vector of strings.
pub fn clone_string_vec(v: &Vec<String>) -> (r: Vec<String>)
    ensures
        r.deep_view() == v.deep_view(),
{
    let mut r: Vec<String> = Vec::new();
    let mut i: usize = 0;
    while i < v.len()
        invariant
            0 <= i <= v.len(),
            r.deep_view() =~= v.deep_view().take(i as int),
        decreases v.len() - i,
    {
        let ghost pre = r;
        let item = v[i].clone();
        let ghost gx = item;
        r.push(item);
        proof {
            crate::strutil::lemma_push_deep_view(pre, r, gx);
            assert(v.deep_view().take(i + 1) =~= v.deep_view().take(i as int).push(
                v.deep_view()[i as int],
            ));
        }
        i = i + 1;
    }
    proof {
        assert(v.deep_view().take(v.len() as int) =~= v.deep_view());
    }
    r
}

/// The mathematical value of a resource-limits record.
pub ghost struct ResourceLimitsView {
    pub memory: Option<Seq<char>>,
    pub memory_reservation: Option<Seq<char>>,
    pub cpus: Option<Seq<char>>,
    pub cpu_shares: Option<u64>,
    pub cpu_quota: Option<u64>,
    pub cpu_period: Option<u64>,
}

/// Optional memory and processor limits for a service's containers.
#[derive(Debug)]
pub struct ResourceLimits {
    pub memory: Option<String>,
    pub memory_reservation: Option<String>,
    pub cpus: Option<String>,
    pub cpu_shares: Option<u64>,
    pub cpu_quota: Option<u64>,
    pub cpu_period: Option<u64>,
}

impl View for ResourceLimits {
    type V = ResourceLimitsView;

    open spec fn view(&self) -> ResourceLimitsView {
        ResourceLimitsView {
            memory: self.memory.deep_view(),
            memory_reservation: self.memory_reservation.deep_view(),
            cpus: self.cpus.deep_view(),
            cpu_shares: self.cpu_shares,
            cpu_quota: self.cpu_quota,
            cpu_period: self.cpu_period,
        }
    }
}

/// A resource-limits record with no limit set.
pub open spec fn spec_no_limits() -> ResourceLimitsView {
    ResourceLimitsView {
        memory: None,
        memory_reservation: None,
        cpus: None,
        cpu_shares: None,
        cpu_quota: None,
        cpu_period: None,
    }
}

impl Default for ResourceLimits {
    /// No limit of any kind.
    fn default() -> (r: ResourceLimits)
        ensures
            r@ == spec_no_limits(),
    {
        ResourceLimits {
            memory: None,
            memory_reservation: None,
            cpus: None,
            cpu_shares: None,
            cpu_quota: None,
            cpu_period: None,
        }
    }
}

impl ResourceLimits {
    /// Copies the record.
    pub fn duplicate(&self) -> (r: ResourceLimits)
        ensures
            r@ == self@,
    {
        ResourceLimits {
            memory: clone_opt_string(&self.memory),
            memory_reservation: clone_opt_string(&self.memory_reservation),
            cpus: clone_opt_string(&self.cpus),
            cpu_shares: self.cpu_shares,
            cpu_quota: self.cpu_quota,
            cpu_period: self.cpu_period,
        }
    }
}

/// The mathematical value of a port mapping.
pub ghost struct PortConfigView {
    pub target: u16,
    pub published: Option<u16>,
    pub protocol: Seq<char>,
    pub mode: Option<Seq<char>>,
}

/// One published-to-target port mapping.
#[derive(Debug)]
pub struct PortConfig {
    pub target: u16,
    pub published: Option<u16>,
    pub protocol: String,
    pub mode: Option<String>,
}

impl View for PortConfig {
    type V = PortConfigView;

    open spec fn view(&self) -> PortConfigView {
        PortConfigView {
            target: self.target,
            published: self.published,
            protocol: self.protocol@,
            mode: self.mode.deep_view(),
        }
    }
}

/// The published and target ports denoted by a `published:target` string,
/// when both sides are in-range decimal numbers.
pub open spec fn spec_port_mapping(s: Seq<char>) -> Option<(u16, u16)> {
    match find_char_from(s, ':', 0) {
        None => None,
        Some(i) => {
            let published = s.take(i);
            let target = s.skip(i + 1);
            if published.len() > 0 && all_digits(published) && dec_val(published) <= u16::MAX
                && target.len() > 0 && all_digits(target) && dec_val(target) <= u16::MAX {
                Some(((dec_val(published) as u16), (dec_val(target) as u16)))
            } else {
                None
            }
        },
    }
}

impl PortConfig {
    /// A mapping of the given target port, published nowhere, over "tcp".
    pub fn new(target: u16) -> (r: PortConfig)
        ensures
            r@.target == target,
            r@.published is None,
            r@.protocol == "tcp"@,
            r@.mode is None,
    {
        PortConfig { target, published: None, protocol: String::from_str("tcp"), mode: None }
    }

    /// Reads a `published:target` mapping; the protocol defaults to "tcp".
    pub fn simple_mapping(mapping: &str) -> (r: Option<PortConfig>)
        ensures
            match r {
                Some(pc) => spec_port_mapping(mapping@) == Some((pc.published->0, pc.target))
                    && pc.published is Some && pc@.protocol == "tcp"@ && pc@.mode is None,
                None => spec_port_mapping(mapping@) is None,
            },
    {
        let n = mapping.unicode_len();
        match find_char(mapping, ':') {
            None => None,
            Some(i) => {
                let published = mapping.substring_char(0, i);
                let target = mapping.substring_char(i + 1, n);
                proof {
                    assert(published@ =~= mapping@.take(i as int));
                    assert(target@ =~= mapping@.skip(i + 1));
                }
                match (parse_u16(published), parse_u16(target)) {
                    (Some(p), Some(t)) => Some(
                        PortConfig {
                            target: t,
                            published: Some(p),
                            protocol: String::from_str("tcp"),
                            mode: None,
                        },
                    ),
                    _ => None,
                }
            },
        }
    }

    /// Copies the mapping.
    pub fn duplicate(&self) -> (r: PortConfig)
        ensures
            r@ == self@,
    {
        PortConfig {
            target: self.target,
            published: self.published,
            protocol: self.protocol.clone(),
            mode: clone_opt_string(&self.mode),
        }
    }
}

/// The mathematical value of a volume mount.
pub ghost struct VolumeConfigView {
    pub source: Seq<char>,
    pub target: Seq<char>,
    pub volume_type: Seq<char>,
    pub read_only: bool,
    pub bind_options: Option<Seq<(Seq<char>, Seq<char>)>>,
}

/// One volume mount of a container.
#[derive(Debug)]
pub struct VolumeConfig {
    pub source: String,
    pub target: String,
    pub volume_type: String,
    pub read_only: bool,
    pub bind_options: Option<StrMap>,
}

impl View for VolumeConfig {
    type V = VolumeConfigView;

    open spec fn view(&self) -> VolumeConfigView {
        VolumeConfigView {
            source: self.source@,
            target: self.target@,
            volume_type: self.volume_type@,
            read_only: self.read_only,
            bind_options: match self.bind_options {
                Some(ref m) => Some(m@),
                None => None,
            },
        }
    }
}

/// Whether a mount source names a path on the host rather than a volume.
pub open spec fn spec_is_bind_source(s: Seq<char>) -> bool {
    s.len() > 0 && (s[0] == '/' || s[0] == '.')
}

impl VolumeConfig {
    /// Reads a `source:target` mount; a source that looks like a path is a
    /// bind mount, any other source names a volume.
    pub fn simple_mapping(mapping: &str) -> (r: Option<VolumeConfig>)
        ensures
            match r {
                Some(vc) => find_char_from(mapping@, ':', 0) matches Some(i) && vc@.source
                    == mapping@.take(i) && vc@.target == mapping@.skip(i + 1) && vc@.volume_type
                    == (if spec_is_bind_source(mapping@.take(i)) { "bind"@ } else { "volume"@ })
                    && vc@.read_only == false && vc@.bind_options is None,
                None => find_char_from(mapping@, ':', 0) is None,
            },
    {
        let n = mapping.unicode_len();
        match find_char(mapping, ':') {
            None => None,
            Some(i) => {
                let source = mapping.substring_char(0, i);
                let target = mapping.substring_char(i + 1, n);
                proof {
                    assert(source@ =~= mapping@.take(i as int));
                    assert(target@ =~= mapping@.skip(i + 1));
                }
                let bind = source.unicode_len() > 0 && {
                    let c = source.get_char(0);
                    c == '/' || c == '.'
                };
                let volume_type = if bind {
                    String::from_str("bind")
                } else {
                    String::from_str("volume")
                };
                Some(
                    VolumeConfig {
                        source: String::from_str(source),
                        target: String::from_str(target),
                        volume_type,
                        read_only: false,
                        bind_options: None,
                    },
                )
            },
        }
    }

    /// Copies the mount.
    pub fn duplicate(&self) -> (r: VolumeConfig)
        ensures
            r@ == self@,
    {
        VolumeConfig {
            source: self.source.clone(),
            target: self.target.clone(),
            volume_type: self.volume_type.clone(),
            read_only: self.read_only,
            bind_options: match &self.bind_options {
                Some(m) => Some(m.duplicate()),
                None => None,
            },
        }
    }
}

/// The mathematical value of a health check.
pub ghost struct HealthCheckView {
    pub test: Seq<char>,
    pub interval: Option<Seq<char>>,
    pub timeout: Option<Seq<char>>,
    pub retries: Option<u32>,
    pub start_period: Option<Seq<char>>,
}

/// A container health probe: a test command and its schedule.
#[derive(Debug)]
pub struct HealthCheck {
    pub test: String,
    pub interval: Option<String>,
    pub timeout: Option<String>,
    pub retries: Option<u32>,
    pub start_period: Option<String>,
}

impl View for HealthCheck {
    type V = HealthCheckView;

    open spec fn view(&self) -> HealthCheckView {
        HealthCheckView {
            test: self.test@,
            interval: self.interval.deep_view(),
            timeout: self.timeout.deep_view(),
            retries: self.retries,
            start_period: self.start_period.deep_view(),
        }
    }
}

impl HealthCheck {
    /// Copies the health check.
    pub fn duplicate(&self) -> (r: HealthCheck)
        ensures
            r@ == self@,
    {
        HealthCheck {
            test: self.test.clone(),
            interval: clone_opt_string(&self.interval),
            timeout: clone_opt_string(&self.timeout),
            retries: self.retries,
            start_period: clone_opt_string(&self.start_period),
        }
    }
}

impl DeepView for PortConfig {
    type V = PortConfigView;

    open spec fn deep_view(&self) -> PortConfigView {
        self@
    }
}

impl DeepView for VolumeConfig {
    type V = VolumeConfigView;

    open spec fn deep_view(&self) -> VolumeConfigView {
        self@
    }
}

/// Copies a vector of port mappings.
fn clone_port_vec(v: &Vec<PortConfig>) -> (r: Vec<PortConfig>)
    ensures
        r.deep_view() == v.deep_view(),
{
    let mut r: Vec<PortConfig> = Vec::new();
    let mut i: usize = 0;
    while i < v.len()
        invariant
            0 <= i <= v.len(),
            r.deep_view() =~= v.deep_view().take(i as int),
        decreases v.len() - i,
    {
        let ghost pre = r;
        let item = v[i].duplicate();
        let ghost gx = item;
        r.push(item);
        proof {
            crate::strutil::lemma_push_deep_view(pre, r, gx);
            assert(v.deep_view().take(i + 1) =~= v.deep_view().take(i as int).push(
                v.deep_view()[i as int],
            ));
        }
        i = i + 1;
    }
    proof {
        assert(v.deep_view().take(v.len() as int) =~= v.deep_view());
    }
    r
}

/// Copies a vector of volume mounts.
fn clone_volume_vec(v: &Vec<VolumeConfig>) -> (r: Vec<VolumeConfig>)
    ensures
        r.deep_view() == v.deep_view(),
{
    let mut r: Vec<VolumeConfig> = Vec::new();
    let mut i: usize = 0;
    while i < v.len()
        invariant
            0 <= i <= v.len(),
            r.deep_view() =~= v.deep_view().take(i as int),
        decreases v.len() - i,
    {
        let ghost pre = r;
        let item = v[i].duplicate();
        let ghost gx = item;
        r.push(item);
        proof {
            crate::strutil::lemma_push_deep_view(pre, r, gx);
            assert(v.deep_view().take(i + 1) =~= v.deep_view().take(i as int).push(
                v.deep_view()[i as int],
            ));
        }
        i = i + 1;
    }
    proof {
        assert(v.deep_view().take(v.len() as int) =~= v.deep_view());
    }
    r
}

/// The mathematical value of a service definition.
pub ghost struct ServiceView {
    pub name: Seq<char>,
    pub image: Option<Seq<char>>,
    pub build: Option<BuildConfigView>,
    pub ports: Seq<Seq<char>>,
    pub advanced_ports: Seq<PortConfigView>,
    pub environment: Seq<(Seq<char>, Seq<char>)>,
    pub env_files: Seq<Seq<char>>,
    pub volumes: Seq<Seq<char>>,
    pub advanced_volumes: Seq<VolumeConfigView>,
    pub command: Option<Seq<Seq<char>>>,
    pub working_dir: Option<Seq<char>>,
    pub networks: Seq<Seq<char>>,
    pub depends_on: Seq<Seq<char>>,
    pub restart_policy: Option<Seq<char>>,
    pub hostname: Option<Seq<char>>,
    pub labels: Seq<(Seq<char>, Seq<char>)>,
    pub replicas: u32,
    pub resources: ResourceLimitsView,
    pub secrets: Seq<Seq<char>>,
    pub healthcheck: Option<HealthCheckView>,
}

/// One service's desired configuration within a stack.
#[derive(Debug)]
pub struct Service {
    pub name: String,
    pub image: Option<String>,
    pub build: Option<BuildConfig>,
    pub ports: Vec<String>,
    pub advanced_ports: Vec<PortConfig>,
    pub environment: StrMap,
    pub env_files: Vec<String>,
    pub volumes: Vec<String>,
    pub advanced_volumes: Vec<VolumeConfig>,
    pub command: Option<Vec<String>>,
    pub working_dir: Option<String>,
    pub networks: Vec<String>,
    pub depends_on: Vec<String>,
    pub restart_policy: Option<String>,
    pub hostname: Option<String>,
    pub labels: StrMap,
    pub replicas: u32,
    pub resources: ResourceLimits,
    pub secrets: Vec<String>,
    pub healthcheck: Option<HealthCheck>,
}

impl View for Service {
    type V = ServiceView;

    open spec fn view(&self) -> ServiceView {
        ServiceView {
            name: self.name@,
            image: self.image.deep_view(),
            build: match self.build {
                Some(ref b) => Some(b@),
                None => None,
            },
            ports: self.ports.deep_view(),
            advanced_ports: self.advanced_ports.deep_view(),
            environment: self.environment@,
            env_files: self.env_files.deep_view(),
            volumes: self.volumes.deep_view(),
            advanced_volumes: self.advanced_volumes.deep_view(),
            command: self.command.deep_view(),
            working_dir: self.working_dir.deep_view(),
            networks: self.networks.deep_view(),
            depends_on: self.depends_on.deep_view(),
            restart_policy: self.restart_policy.deep_view(),
            hostname: self.hostname.deep_view(),
            labels: self.labels@,
            replicas: self.replicas,
            resources: self.resources@,
            secrets: self.secrets.deep_view(),
            healthcheck: match self.healthcheck {
                Some(ref h) => Some(h@),
                None => None,
            },
        }
    }
}

impl DeepView for Service {
    type V = ServiceView;

    open spec fn deep_view(&self) -> ServiceView {
        self@
    }
}

/// A fresh service: just a name, one replica, and everything else empty.
pub open spec fn spec_service_new(name: Seq<char>) -> ServiceView {
    ServiceView {
        name,
        image: None,
        build: None,
        ports: Seq::empty(),
        advanced_ports: Seq::empty(),
        environment: Seq::empty(),
        env_files: Seq::empty(),
        volumes: Seq::empty(),
        advanced_volumes: Seq::empty(),
        command: None,
        working_dir: None,
        networks: Seq::empty(),
        depends_on: Seq::empty(),
        restart_policy: None,
        hostname: None,
        labels: Seq::empty(),
        replicas: 1,
        resources: spec_no_limits(),
        secrets: Seq::empty(),
        healthcheck: None,
    }
}

/// Setting an image clears any build configuration.
pub open spec fn spec_set_image(s: ServiceView, image: Seq<char>) -> ServiceView {
    ServiceView { image: Some(image), build: None, ..s }
}

/// Setting a build configuration clears any image.
pub open spec fn spec_set_build(s: ServiceView, b: BuildConfigView) -> ServiceView {
    ServiceView { image: None, build: Some(b), ..s }
}

/// A service definition never holds both an image and a build
/// configuration: each of the two setters clears the other field,
/// whichever was set first.
pub proof fn lemma_image_build_exclusive(s: ServiceView, ctx: Seq<char>, image: Seq<char>)
    ensures
        spec_set_image(spec_set_build(s, spec_build_config_new(ctx)), image).build is None,
        spec_set_image(spec_set_build(s, spec_build_config_new(ctx)), image).image == Some(image),
        spec_set_build(spec_set_image(s, image), spec_build_config_new(ctx)).image is None,
        spec_set_build(spec_set_image(s, image), spec_build_config_new(ctx)).build == Some(
            spec_build_config_new(ctx),
        ),
{
}

impl Service {
    /// A new service with the given name.
    pub fn new(name: String) -> (r: Service)
        ensures
            r@ == spec_service_new(name@),
    {
        let r = Service {
            name,
            image: None,
            build: None,
            ports: Vec::new(),
            advanced_ports: Vec::new(),
            environment: StrMap::new(),
            env_files: Vec::new(),
            volumes: Vec::new(),
            advanced_volumes: Vec::new(),
            command: None,
            working_dir: None,
            networks: Vec::new(),
            depends_on: Vec::new(),
            restart_policy: None,
            hostname: None,
            labels: StrMap::new(),
            replicas: 1,
            resources: ResourceLimits::default(),
            secrets: Vec::new(),
            healthcheck: None,
        };
        proof {
            assert(r@.ports =~= Seq::<Seq<char>>::empty());
            assert(r@.advanced_ports =~= Seq::<PortConfigView>::empty());
            assert(r@.env_files =~= Seq::<Seq<char>>::empty());
            assert(r@.volumes =~= Seq::<Seq<char>>::empty());
            assert(r@.advanced_volumes =~= Seq::<VolumeConfigView>::empty());
            assert(r@.networks =~= Seq::<Seq<char>>::empty());
            assert(r@.depends_on =~= Seq::<Seq<char>>::empty());
            assert(r@.secrets =~= Seq::<Seq<char>>::empty());
        }
        r
    }

    /// The service's name.
    pub fn name(&self) -> (r: &str)
        ensures
            r@ == self@.name,
    {
        self.name.as_str()
    }

    /// Sets the image to run; any build configuration is cleared.
    pub fn image(self, image: String) -> (r: Service)
        ensures
            r@ == spec_set_image(self@, image@),
    {
        Service { image: Some(image), build: None, ..self }
    }

    /// Replaces the port mappings.
    pub fn ports(self, ports: Vec<String>) -> (r: Service)
        ensures
            r@ == (ServiceView { ports: ports.deep_view(), ..self@ }),
    {
        Service { ports, ..self }
    }

    /// Binds one environment variable; a later write to the same key wins.
    pub fn env(self, key: String, value: String) -> (r: Service)
        ensures
            r@ == (ServiceView {
                environment: kv_insert(self@.environment, (key@, value@)),
                ..self@
            }),
            kv_get(r@.environment, key@) == Some(value@),
    {
        let mut environment = self.environment;
        environment.insert(key, value);
        Service { environment, ..self }
    }

    /// Binds every entry of `env`, front first.
    pub fn environment(self, env: &StrMap) -> (r: Service)
        ensures
            r@ == (ServiceView {
                environment: crate::kv::kv_extend(self@.environment, env@),
                ..self@
            }),
    {
        let mut environment = self.environment;
        environment.extend_from(env);
        Service { environment, ..self }
    }

    /// Appends one volume mount.
    pub fn volume(self, volume: String) -> (r: Service)
        ensures
            r@ == (ServiceView { volumes: self@.volumes.push(volume@), ..self@ }),
    {
        let ghost pre = self.volumes;
        let ghost gx = volume;
        let mut volumes = self.volumes;
        volumes.push(volume);
        proof {
            crate::strutil::lemma_push_deep_view(pre, volumes, gx);
        }
        Service { volumes, ..self }
    }

    /// Appends several volume mounts.
    pub fn volumes(self, volumes: Vec<String>) -> (r: Service)
        ensures
            r@ == (ServiceView { volumes: self@.volumes + volumes.deep_view(), ..self@ }),
    {
        let ghost pre = self.volumes;
        let ghost gother = volumes;
        let mut vs = self.volumes;
        let mut other = volumes;
        vs.append(&mut other);
        proof {
            crate::strutil::lemma_concat_deep_view(pre, gother, vs);
        }
        Service { volumes: vs, ..self }
    }

    /// Sets the command run in the service's containers.
    pub fn command(self, cmd: Vec<String>) -> (r: Service)
        ensures
            r@ == (ServiceView { command: Some(cmd.deep_view()), ..self@ }),
    {
        Service { command: Some(cmd), ..self }
    }

    /// Sets the working directory.
    pub fn working_dir(self, dir: String) -> (r: Service)
        ensures
            r@ == (ServiceView { working_dir: Some(dir@), ..self@ }),
    {
        Service { working_dir: Some(dir), ..self }
    }

    /// Attaches the service to one more network.
    pub fn network(self, network: String) -> (r: Service)
        ensures
            r@ == (ServiceView { networks: self@.networks.push(network@), ..self@ }),
    {
        let ghost pre = self.networks;
        let ghost gx = network;
        let mut networks = self.networks;
        networks.push(network);
        proof {
            crate::strutil::lemma_push_deep_view(pre, networks, gx);
        }
        Service { networks, ..self }
    }

    /// Attaches the service to several more networks.
    pub fn networks(self, networks: Vec<String>) -> (r: Service)
        ensures
            r@ == (ServiceView { networks: self@.networks + networks.deep_view(), ..self@ }),
    {
        let ghost pre = self.networks;
        let ghost gother = networks;
        let mut ns = self.networks;
        let mut other = networks;
        ns.append(&mut other);
        proof {
            crate::strutil::lemma_concat_deep_view(pre, gother, ns);
        }
        Service { networks: ns, ..self }
    }

    /// Declares one more service this one depends on.
    pub fn depends_on_service(self, service: String) -> (r: Service)
        ensures
            r@ == (ServiceView { depends_on: self@.depends_on.push(service@), ..self@ }),
    {
        let ghost pre = self.depends_on;
        let ghost gx = service;
        let mut depends_on = self.depends_on;
        depends_on.push(service);
        proof {
            crate::strutil::lemma_push_deep_view(pre, depends_on, gx);
        }
        Service { depends_on, ..self }
    }

    /// Declares several more services this one depends on.
    pub fn depends_on(self, services: Vec<String>) -> (r: Service)
        ensures
            r@ == (ServiceView { depends_on: self@.depends_on + services.deep_view(), ..self@ }),
    {
        let ghost pre = self.depends_on;
        let ghost gother = services;
        let mut ds = self.depends_on;
        let mut other = services;
        ds.append(&mut other);
        proof {
            crate::strutil::lemma_concat_deep_view(pre, gother, ds);
        }
        Service { depends_on: ds, ..self }
    }

    /// Sets the restart policy.
    pub fn restart_policy(self, policy: String) -> (r: Service)
        ensures
            r@ == (ServiceView { restart_policy: Some(policy@), ..self@ }),
    {
        Service { restart_policy: Some(policy), ..self }
    }

    /// Sets the container hostname.
    pub fn hostname(self, hostname: String) -> (r: Service)
        ensures
            r@ == (ServiceView { hostname: Some(hostname@), ..self@ }),
    {
        Service { hostname: Some(hostname), ..self }
    }

    /// Binds one label; a later write to the same key wins.
    pub fn label(self, key: String, value: String) -> (r: Service)
        ensures
            r@ == (ServiceView { labels: kv_insert(self@.labels, (key@, value@)), ..self@ }),
            kv_get(r@.labels, key@) == Some(value@),
    {
        let mut labels = self.labels;
        labels.insert(key, value);
        Service { labels, ..self }
    }

    /// Binds every label of `labels`, front first.
    pub fn labels(self, labels: &StrMap) -> (r: Service)
        ensures
            r@ == (ServiceView { labels: crate::kv::kv_extend(self@.labels, labels@), ..self@ }),
    {
        let mut ls = self.labels;
        ls.extend_from(labels);
        Service { labels: ls, ..self }
    }

    /// Sets the desired replica count.
    pub fn replicas(self, count: u32) -> (r: Service)
        ensures
            r@ == (ServiceView { replicas: count, ..self@ }),
    {
        Service { replicas: count, ..self }
    }

    /// Sets the memory limit.
    pub fn memory(self, limit: String) -> (r: Service)
        ensures
            r@ == (ServiceView {
                resources: (ResourceLimitsView { memory: Some(limit@), ..self@.resources }),
                ..self@
            }),
    {
        let mut resources = self.resources;
        resources.memory = Some(limit);
        Service { resources, ..self }
    }

    /// Sets a build context; any image is cleared.
    pub fn build_context(self, context: String) -> (r: Service)
        ensures
            r@ == spec_set_build(self@, spec_build_config_new(context@)),
    {
        Service { build: Some(BuildConfig::new(context)), image: None, ..self }
    }

    /// Sets a build context with an explicit dockerfile; any image is
    /// cleared.
    pub fn build_with_dockerfile(self, context: String, dockerfile: String) -> (r: Service)
        ensures
            r@ == spec_set_build(
                self@,
                (BuildConfigView {
                    dockerfile: Some(dockerfile@),
                    ..spec_build_config_new(context@)
                }),
            ),
    {
        let mut build = BuildConfig::new(context);
        build.dockerfile = Some(dockerfile);
        Service { build: Some(build), image: None, ..self }
    }

    /// Adds one build argument, starting a build configuration for the
    /// current directory when none is set; any image is cleared.
    pub fn build_arg(self, key: String, value: String) -> (r: Service)
        ensures
            r@ == spec_set_build(
                self@,
                match self@.build {
                    Some(b) => (BuildConfigView { args: kv_insert(b.args, (key@, value@)), ..b }),
                    None => (BuildConfigView {
                        args: kv_insert(Seq::empty(), (key@, value@)),
                        ..spec_build_config_new("."@)
                    }),
                },
            ),
    {
        let mut build = match self.build {
            Some(b) => b,
            None => BuildConfig::new(String::from_str(".")),
        };
        build.args.insert(key, value);
        Service { build: Some(build), image: None, ..self }
    }

    /// Sets the build target stage, starting a build configuration for the
    /// current directory when none is set; any image is cleared.
    pub fn build_target(self, target: String) -> (r: Service)
        ensures
            r@ == spec_set_build(
                self@,
                match self@.build {
                    Some(b) => (BuildConfigView { target: Some(target@), ..b }),
                    None => (BuildConfigView {
                        target: Some(target@),
                        ..spec_build_config_new("."@)
                    }),
                },
            ),
    {
        let mut build = match self.build {
            Some(b) => b,
            None => BuildConfig::new(String::from_str(".")),
        };
        build.target = Some(target);
        Service { build: Some(build), image: None, ..self }
    }

    /// Adds an image the build may use as a cache source, starting a build
    /// configuration for the current directory when none is set; any image
    /// is cleared.
    pub fn build_cache_from(self, image: String) -> (r: Service)
        ensures
            r@ == spec_set_build(
                self@,
                match self@.build {
                    Some(b) => (BuildConfigView { cache_from: b.cache_from.push(image@), ..b }),
                    None => (BuildConfigView {
                        cache_from: seq![image@],
                        ..spec_build_config_new("."@)
                    }),
                },
            ),
    {
        let mut build = match self.build {
            Some(b) => b,
            None => BuildConfig::new(String::from_str(".")),
        };
        let ghost pre = build.cache_from;
        let ghost gx = image;
        build.cache_from.push(image);
        proof {
            crate::strutil::lemma_push_deep_view(pre, build.cache_from, gx);
            if self@.build is None {
                assert(build.cache_from.deep_view() =~= seq![gx@]);
            }
        }
        Service { build: Some(build), image: None, ..self }
    }

    /// Sets the memory reservation.
    pub fn memory_reservation(self, limit: String) -> (r: Service)
        ensures
            r@ == (ServiceView {
                resources: (ResourceLimitsView {
                    memory_reservation: Some(limit@),
                    ..self@.resources
                }),
                ..self@
            }),
    {
        let mut resources = self.resources;
        resources.memory_reservation = Some(limit);
        Service { resources, ..self }
    }

    /// Sets the processor limit.
    pub fn cpus(self, cpus: String) -> (r: Service)
        ensures
            r@ == (ServiceView {
                resources: (ResourceLimitsView { cpus: Some(cpus@), ..self@.resources }),
                ..self@
            }),
    {
        let mut resources = self.resources;
        resources.cpus = Some(cpus);
        Service { resources, ..self }
    }

    /// Sets the processor share weight.
    pub fn cpu_shares(self, shares: u64) -> (r: Service)
        ensures
            r@ == (ServiceView {
                resources: (ResourceLimitsView { cpu_shares: Some(shares), ..self@.resources }),
                ..self@
            }),
    {
        let mut resources = self.resources;
        resources.cpu_shares = Some(shares);
        Service { resources, ..self }
    }

    /// Sets the processor quota, and its period when given.
    pub fn cpu_quota(self, quota: u64, period: Option<u64>) -> (r: Service)
        ensures
            r@ == (ServiceView {
                resources: (ResourceLimitsView {
                    cpu_quota: Some(quota),
                    cpu_period: if period is Some {
                        period
                    } else {
                        self@.resources.cpu_period
                    },
                    ..self@.resources
                }),
                ..self@
            }),
    {
        let mut resources = self.resources;
        resources.cpu_quota = Some(quota);
        if let Some(p) = period {
            resources.cpu_period = Some(p);
        }
        Service { resources, ..self }
    }

    /// Appends a port mapping given field by field.
    pub fn port_advanced(
        self,
        target: u16,
        published: Option<u16>,
        protocol: Option<String>,
        mode: Option<String>,
    ) -> (r: Service)
        ensures
            r@ == (ServiceView {
                advanced_ports: self@.advanced_ports.push(
                    (PortConfigView {
                        target,
                        published,
                        protocol: match protocol {
                            Some(p) => p@,
                            None => "tcp"@,
                        },
                        mode: mode.deep_view(),
                    }),
                ),
                ..self@
            }),
    {
        let protocol_str = match protocol {
            Some(p) => p,
            None => String::from_str("tcp"),
        };
        let pc = PortConfig { target, published, protocol: protocol_str, mode };
        let ghost pre = self.advanced_ports;
        let ghost gx = pc;
        let mut advanced_ports = self.advanced_ports;
        advanced_ports.push(pc);
        proof {
            crate::strutil::lemma_push_deep_view(pre, advanced_ports, gx);
        }
        Service { advanced_ports, ..self }
    }

    /// Appends a volume mount given field by field; the mount type
    /// defaults to a bind mount.
    pub fn volume_advanced(
        self,
        source: String,
        target: String,
        volume_type: Option<String>,
        read_only: bool,
    ) -> (r: Service)
        ensures
            r@ == (ServiceView {
                advanced_volumes: self@.advanced_volumes.push(
                    (VolumeConfigView {
                        source: source@,
                        target: target@,
                        volume_type: match volume_type {
                            Some(t) => t@,
                            None => "bind"@,
                        },
                        read_only,
                        bind_options: None,
                    }),
                ),
                ..self@
            }),
    {
        let vt = match volume_type {
            Some(t) => t,
            None => String::from_str("bind"),
        };
        let vc = VolumeConfig { source, target, volume_type: vt, read_only, bind_options: None };
        let ghost pre = self.advanced_volumes;
        let ghost gx = vc;
        let mut advanced_volumes = self.advanced_volumes;
        advanced_volumes.push(vc);
        proof {
            crate::strutil::lemma_push_deep_view(pre, advanced_volumes, gx);
        }
        Service { advanced_volumes, ..self }
    }

    /// Appends an environment file.
    pub fn env_file(self, file: String) -> (r: Service)
        ensures
            r@ == (ServiceView { env_files: self@.env_files.push(file@), ..self@ }),
    {
        let ghost pre = self.env_files;
        let ghost gx = file;
        let mut env_files = self.env_files;
        env_files.push(file);
        proof {
            crate::strutil::lemma_push_deep_view(pre, env_files, gx);
        }
        Service { env_files, ..self }
    }

    /// Appends a secret reference.
    pub fn secret(self, secret: String) -> (r: Service)
        ensures
            r@ == (ServiceView { secrets: self@.secrets.push(secret@), ..self@ }),
    {
        let ghost pre = self.secrets;
        let ghost gx = secret;
        let mut secrets = self.secrets;
        secrets.push(secret);
        proof {
            crate::strutil::lemma_push_deep_view(pre, secrets, gx);
        }
        Service { secrets, ..self }
    }

    /// Sets the health check; the test command's words are joined with
    /// single spaces.
    pub fn healthcheck(
        self,
        test: Vec<String>,
        interval: Option<String>,
        timeout: Option<String>,
        retries: Option<u32>,
        start_period: Option<String>,
    ) -> (r: Service)
        ensures
            r@ == (ServiceView {
                healthcheck: Some(
                    (HealthCheckView {
                        test: spec_join(test.deep_view(), " "@),
                        interval: interval.deep_view(),
                        timeout: timeout.deep_view(),
                        retries,
                        start_period: start_period.deep_view(),
                    }),
                ),
                ..self@
            }),
    {
        let joined = join(&test, " ");
        let hc = HealthCheck { test: joined, interval, timeout, retries, start_period };
        Service { healthcheck: Some(hc), ..self }
    }

    /// Copies the definition.
    pub fn duplicate(&self) -> (r: Service)
        ensures
            r@ == self@,
    {
        Service {
            name: self.name.clone(),
            image: clone_opt_string(&self.image),
            build: match &self.build {
                Some(b) => Some(b.duplicate()),
                None => None,
            },
            ports: clone_string_vec(&self.ports),
            advanced_ports: clone_port_vec(&self.advanced_ports),
            environment: self.environment.duplicate(),
            env_files: clone_string_vec(&self.env_files),
            volumes: clone_string_vec(&self.volumes),
            advanced_volumes: clone_volume_vec(&self.advanced_volumes),
            command: match &self.command {
                Some(c) => Some(clone_string_vec(c)),
                None => None,
            },
            working_dir: clone_opt_string(&self.working_dir),
            networks: clone_string_vec(&self.networks),
            depends_on: clone_string_vec(&self.depends_on),
            restart_policy: clone_opt_string(&self.restart_policy),
            hostname: clone_opt_string(&self.hostname),
            labels: self.labels.duplicate(),
            replicas: self.replicas,
            resources: self.resources.duplicate(),
            secrets: clone_string_vec(&self.secrets),
            healthcheck: match &self.healthcheck {
                Some(h) => Some(h.duplicate()),
                None => None,
            },
        }
    }

    /// Copies the definition under a new name.
    pub fn clone_with_name(&self, new_name: String) -> (r: Service)
        ensures
            r@ == (ServiceView { name: new_name@, ..self@ }),
    {
        let mut copy = self.duplicate();
        copy.name = new_name;
        Service { ..copy }
    }

    /// The command, if one is set.
    pub fn get_raw_command(&self) -> (r: Option<Vec<String>>)
        ensures
            r.deep_view() == self@.command,
    {
        match &self.command {
            Some(c) => Some(clone_string_vec(c)),
            None => None,
        }
    }

    /// The image, if one is set.
    pub fn get_image(&self) -> (r: Option<&String>)
        ensures
            r.deep_view() == self@.image,
    {
        match &self.image {
            Some(i) => Some(i),
            None => None,
        }
    }

    /// The build configuration, if one is set.
    pub fn get_build(&self) -> (r: Option<&BuildConfig>)
        ensures
            match r {
                Some(b) => self@.build == Some(b@),
                None => self@.build is None,
            },
    {
        match &self.build {
            Some(b) => Some(b),
            None => None,
        }
    }

    /// The plain port mappings.
    pub fn get_ports(&self) -> (r: &Vec<String>)
        ensures
            r.deep_view() == self@.ports,
    {
        &self.ports
    }

    /// The environment variables.
    pub fn get_environment(&self) -> (r: &StrMap)
        ensures
            r@ == self@.environment,
    {
        &self.environment
    }

    /// The declared dependencies.
    pub fn get_depends_on(&self) -> (r: &Vec<String>)
        ensures
            r.deep_view() == self@.depends_on,
    {
        &self.depends_on
    }

    /// The desired replica count.
    pub fn get_replicas(&self) -> (r: u32)
        ensures
            r == self@.replicas,
    {
        self.replicas
    }

    /// Renders the definition as a flat map of configuration strings,
    /// list-valued fields joined with commas, for inspection.
    pub fn to_config_map(&self) -> (r: StrMap)
        ensures
            r@ == spec_config_map(self@),
    {
        let mut entries: Vec<(String, String)> = Vec::new();
        proof {
            assert(entries.deep_view() =~= Seq::<(Seq<char>, Seq<char>)>::empty());
        }
        self.cfg_basics(&mut entries);
        self.cfg_placement(&mut entries);
        self.cfg_resources(&mut entries);
        self.cfg_build(&mut entries);
        self.cfg_extras(&mut entries);
        StrMap::from_entries(entries)
    }

    /// Writes the identity, image and main list entries.
    fn cfg_basics(&self, entries: &mut Vec<(String, String)>)
        requires
            old(entries)@.len() == 0,
        ensures
            final(entries).deep_view() == scm_basics(self@),
    {
        proof {
            assert(entries.deep_view() =~= Seq::<(Seq<char>, Seq<char>)>::empty());
        }
        push_entry(entries, "name", self.name.clone());
        if let Some(image) = &self.image {
            push_entry(entries, "image", image.clone());
        }
        if self.ports.len() > 0 {
            push_entry(entries, "ports", join(&self.ports, ","));
        }
        if self.environment.len() > 0 {
            push_entry(entries, "environment", join(&kv_strings(&self.environment), ","));
        }
        if self.volumes.len() > 0 {
            push_entry(entries, "volumes", join(&self.volumes, ","));
        }
        if let Some(cmd) = &self.command {
            push_entry(entries, "command", join(cmd, " "));
        }
        proof {
            assert(entries.deep_view() =~= scm_basics(self@));
        }
    }

    /// Writes the placement and labelling entries.
    fn cfg_placement(&self, entries: &mut Vec<(String, String)>)
        ensures
            final(entries).deep_view() == scm_placement(old(entries).deep_view(), self@),
    {
        let ghost m0 = entries.deep_view();
        if let Some(wd) = &self.working_dir {
            push_entry(entries, "working_dir", wd.clone());
        }
        if self.networks.len() > 0 {
            push_entry(entries, "networks", join(&self.networks, ","));
        }
        if self.depends_on.len() > 0 {
            push_entry(entries, "depends_on", join(&self.depends_on, ","));
        }
        if let Some(rp) = &self.restart_policy {
            push_entry(entries, "restart", rp.clone());
        }
        if let Some(h) = &self.hostname {
            push_entry(entries, "hostname", h.clone());
        }
        if self.labels.len() > 0 {
            push_entry(entries, "labels", join(&kv_strings(&self.labels), ","));
        }
        proof {
            assert(entries.deep_view() =~= scm_placement(m0, self@));
        }
    }

    /// Writes the replica-count and resource-limit entries.
    fn cfg_resources(&self, entries: &mut Vec<(String, String)>)
        ensures
            final(entries).deep_view() == scm_resources(old(entries).deep_view(), self@),
    {
        let ghost m0 = entries.deep_view();
        push_entry(entries, "replicas", crate::strutil::u32_to_string(self.replicas));
        if let Some(v) = &self.resources.memory {
            push_entry(entries, "memory", v.clone());
        }
        if let Some(v) = &self.resources.memory_reservation {
            push_entry(entries, "memory_reservation", v.clone());
        }
        if let Some(v) = &self.resources.cpus {
            push_entry(entries, "cpus", v.clone());
        }
        if let Some(v) = self.resources.cpu_shares {
            push_entry(entries, "cpu_shares", crate::strutil::u64_to_string(v));
        }
        proof {
            assert(entries.deep_view() =~= scm_resources(m0, self@));
        }
    }

    /// Writes the build, environment-file and secret entries.
    fn cfg_build(&self, entries: &mut Vec<(String, String)>)
        ensures
            final(entries).deep_view() == scm_build(old(entries).deep_view(), self@),
    {
        let ghost m0 = entries.deep_view();
        if let Some(b) = &self.build {
            push_entry(entries, "build_context", b.context.clone());
            if let Some(d) = &b.dockerfile {
                push_entry(entries, "dockerfile", d.clone());
            }
            if let Some(t) = &b.target {
                push_entry(entries, "build_target", t.clone());
            }
            if b.args.len() > 0 {
                push_entry(entries, "build_args", join(&kv_strings(&b.args), ","));
            }
        }
        if self.env_files.len() > 0 {
            push_entry(entries, "env_files", join(&self.env_files, ","));
        }
        if self.secrets.len() > 0 {
            push_entry(entries, "secrets", join(&self.secrets, ","));
        }
        proof {
            assert(entries.deep_view() =~= scm_build(m0, self@));
        }
    }

    /// Writes the advanced port, advanced volume and health-check
    /// entries.
    fn cfg_extras(&self, entries: &mut Vec<(String, String)>)
        ensures
            final(entries).deep_view() == scm_extras(old(entries).deep_view(), self@),
    {
        let ghost m0 = entries.deep_view();
        if self.advanced_ports.len() > 0 {
            push_entry(entries, "advanced_ports", join(&adv_port_strings(&self.advanced_ports), ","));
        }
        if self.advanced_volumes.len() > 0 {
            push_entry(
                entries,
                "advanced_volumes",
                join(&adv_volume_strings(&self.advanced_volumes), ","),
            );
        }
        if let Some(hc) = &self.healthcheck {
            push_entry(entries, "healthcheck_test", hc.test.clone());
        }
        proof {
            assert(entries.deep_view() =~= scm_extras(m0, self@));
        }
    }

    /// A web service: restarted unless stopped, labelled as a web
    /// service.
    pub fn web_service(name: String) -> (r: Service)
        ensures
            r@ == (ServiceView {
                restart_policy: Some("unless-stopped"@),
                labels: kv_insert(Seq::empty(), ("service.type"@, "web"@)),
                ..spec_service_new(name@)
            }),
    {
        Service::new(name).restart_policy(String::from_str("unless-stopped")).label(
            String::from_str("service.type"),
            String::from_str("web"),
        )
    }

    /// A database service: restarted unless stopped, labelled as a
    /// database.
    pub fn database_service(name: String) -> (r: Service)
        ensures
            r@ == (ServiceView {
                restart_policy: Some("unless-stopped"@),
                labels: kv_insert(Seq::empty(), ("service.type"@, "database"@)),
                ..spec_service_new(name@)
            }),
    {
        Service::new(name).restart_policy(String::from_str("unless-stopped")).label(
            String::from_str("service.type"),
            String::from_str("database"),
        )
    }

    /// A cache service with the stock image and port, restarted unless
    /// stopped.
    pub fn redis_service(name: String) -> (r: Service)
        ensures
            r@ == (ServiceView {
                image: Some("redis:7-alpine"@),
                ports: seq!["6379:6379"@],
                restart_policy: Some("unless-stopped"@),
                labels: kv_insert(Seq::empty(), ("service.type"@, "cache"@)),
                ..spec_service_new(name@)
            }),
    {
        let mut ports: Vec<String> = Vec::new();
        ports.push(String::from_str("6379:6379"));
        proof {
            assert(ports.deep_view() =~= seq!["6379:6379"@]);
        }
        Service::new(name).image(String::from_str("redis:7-alpine")).ports(ports).restart_policy(
            String::from_str("unless-stopped"),
        ).label(String::from_str("service.type"), String::from_str("cache"))
    }
}

/// Appends one configuration entry.
fn push_entry(entries: &mut Vec<(String, String)>, key: &str, value: String)
    ensures
        final(entries).deep_view() == old(entries).deep_view().push((key@, value@)),
{
    let ghost pre = *entries;
    let item = (String::from_str(key), value);
    let ghost gx = item;
    entries.push(item);
    proof {
        crate::strutil::lemma_push_deep_view(pre, *entries, gx);
    }
}

/// The text of one port mapping in a configuration map.
pub open spec fn spec_adv_port(p: PortConfigView) -> Seq<char> {
    match p.published {
        Some(pub_port) => crate::strutil::spec_dec(pub_port as nat) + ":"@ + crate::strutil::spec_dec(
            p.target as nat,
        ) + ":"@ + p.protocol,
        None => crate::strutil::spec_dec(p.target as nat) + ":"@ + p.protocol,
    }
}

/// The text of one volume mount in a configuration map.
pub open spec fn spec_adv_volume(v: VolumeConfigView) -> Seq<char> {
    v.source + ":"@ + v.target + ":"@ + v.volume_type + ":"@ + (if v.read_only {
        "ro"@
    } else {
        "rw"@
    })
}

/// Renders each port mapping.
fn adv_port_strings(ports: &Vec<PortConfig>) -> (r: Vec<String>)
    ensures
        r.deep_view() == Seq::new(ports.deep_view().len(), |i: int| spec_adv_port(ports.deep_view()[i])),
{
    let ghost pv = ports.deep_view();
    let mut r: Vec<String> = Vec::new();
    let mut i: usize = 0;
    while i < ports.len()
        invariant
            pv == ports.deep_view(),
            pv.len() == ports.len(),
            forall|j: int| 0 <= j < ports.len() ==> #[trigger] pv[j] == ports[j]@,
            0 <= i <= ports.len(),
            r.deep_view().len() == i,
            forall|j: int| 0 <= j < i ==> #[trigger] r.deep_view()[j] == spec_adv_port(pv[j]),
        decreases ports.len() - i,
    {
        let p = &ports[i];
        let mut s = match p.published {
            Some(pub_port) => {
                let mut s = crate::strutil::u64_to_string(pub_port as u64);
                s.append(":");
                let t = crate::strutil::u64_to_string(p.target as u64);
                s.append(t.as_str());
                s
            },
            None => crate::strutil::u64_to_string(p.target as u64),
        };
        s.append(":");
        s.append(p.protocol.as_str());
        let ghost pre = r;
        let ghost gx = s;
        r.push(s);
        proof {
            crate::strutil::lemma_push_deep_view(pre, r, gx);
        }
        i = i + 1;
    }
    proof {
        assert(r.deep_view() =~= Seq::new(pv.len(), |i: int| spec_adv_port(pv[i])));
    }
    r
}

/// Renders each volume mount.
fn adv_volume_strings(vols: &Vec<VolumeConfig>) -> (r: Vec<String>)
    ensures
        r.deep_view() == Seq::new(
            vols.deep_view().len(),
            |i: int| spec_adv_volume(vols.deep_view()[i]),
        ),
{
    let ghost vv = vols.deep_view();
    let mut r: Vec<String> = Vec::new();
    let mut i: usize = 0;
    while i < vols.len()
        invariant
            vv == vols.deep_view(),
            vv.len() == vols.len(),
            forall|j: int| 0 <= j < vols.len() ==> #[trigger] vv[j] == vols[j]@,
            0 <= i <= vols.len(),
            r.deep_view().len() == i,
            forall|j: int| 0 <= j < i ==> #[trigger] r.deep_view()[j] == spec_adv_volume(vv[j]),
        decreases vols.len() - i,
    {
        let v = &vols[i];
        let mut s = v.source.clone();
        s.append(":");
        s.append(v.target.as_str());
        s.append(":");
        s.append(v.volume_type.as_str());
        s.append(":");
        if v.read_only {
            s.append("ro");
        } else {
            s.append("rw");
        }
        let ghost pre = r;
        let ghost gx = s;
        r.push(s);
        proof {
            crate::strutil::lemma_push_deep_view(pre, r, gx);
        }
        i = i + 1;
    }
    proof {
        assert(r.deep_view() =~= Seq::new(vv.len(), |i: int| spec_adv_volume(vv[i])));
    }
    r
}

/// The first configuration entries: identity, image and the main lists.
pub open spec fn scm_basics(s: ServiceView) -> Seq<(Seq<char>, Seq<char>)> {
    let m = seq![("name"@, s.name)];
    let m = if s.image is Some {
        m.push(("image"@, s.image->0))
    } else {
        m
    };
    let m = if s.ports.len() > 0 {
        m.push(("ports"@, spec_join(s.ports, ","@)))
    } else {
        m
    };
    let m = if s.environment.len() > 0 {
        m.push(("environment"@, spec_join(crate::kv::spec_kv_strings(s.environment), ","@)))
    } else {
        m
    };
    let m = if s.volumes.len() > 0 {
        m.push(("volumes"@, spec_join(s.volumes, ","@)))
    } else {
        m
    };
    match s.command {
        Some(c) => m.push(("command"@, spec_join(c, " "@))),
        None => m,
    }
}

/// The placement and labelling entries.
pub open spec fn scm_placement(
    m: Seq<(Seq<char>, Seq<char>)>,
    s: ServiceView,
) -> Seq<(Seq<char>, Seq<char>)> {
    let m = match s.working_dir {
        Some(w) => m.push(("working_dir"@, w)),
        None => m,
    };
    let m = if s.networks.len() > 0 {
        m.push(("networks"@, spec_join(s.networks, ","@)))
    } else {
        m
    };
    let m = if s.depends_on.len() > 0 {
        m.push(("depends_on"@, spec_join(s.depends_on, ","@)))
    } else {
        m
    };
    let m = match s.restart_policy {
        Some(r) => m.push(("restart"@, r)),
        None => m,
    };
    let m = match s.hostname {
        Some(h) => m.push(("hostname"@, h)),
        None => m,
    };
    if s.labels.len() > 0 {
        m.push(("labels"@, spec_join(crate::kv::spec_kv_strings(s.labels), ","@)))
    } else {
        m
    }
}

/// The replica count and resource-limit entries.
pub open spec fn scm_resources(
    m: Seq<(Seq<char>, Seq<char>)>,
    s: ServiceView,
) -> Seq<(Seq<char>, Seq<char>)> {
    let m = m.push(("replicas"@, crate::strutil::spec_dec(s.replicas as nat)));
    let m = match s.resources.memory {
        Some(v) => m.push(("memory"@, v)),
        None => m,
    };
    let m = match s.resources.memory_reservation {
        Some(v) => m.push(("memory_reservation"@, v)),
        None => m,
    };
    let m = match s.resources.cpus {
        Some(v) => m.push(("cpus"@, v)),
        None => m,
    };
    match s.resources.cpu_shares {
        Some(v) => m.push(("cpu_shares"@, crate::strutil::spec_dec(v as nat))),
        None => m,
    }
}

/// The build, environment-file and secret entries.
pub open spec fn scm_build(
    m: Seq<(Seq<char>, Seq<char>)>,
    s: ServiceView,
) -> Seq<(Seq<char>, Seq<char>)> {
    let m = match s.build {
        Some(b) => {
            let m = m.push(("build_context"@, b.context));
            let m = match b.dockerfile {
                Some(d) => m.push(("dockerfile"@, d)),
                None => m,
            };
            let m = match b.target {
                Some(t) => m.push(("build_target"@, t)),
                None => m,
            };
            if b.args.len() > 0 {
                m.push(("build_args"@, spec_join(crate::kv::spec_kv_strings(b.args), ","@)))
            } else {
                m
            }
        },
        None => m,
    };
    let m = if s.env_files.len() > 0 {
        m.push(("env_files"@, spec_join(s.env_files, ","@)))
    } else {
        m
    };
    if s.secrets.len() > 0 {
        m.push(("secrets"@, spec_join(s.secrets, ","@)))
    } else {
        m
    }
}

/// The advanced port and volume entries and the health-check entry.
pub open spec fn scm_extras(
    m: Seq<(Seq<char>, Seq<char>)>,
    s: ServiceView,
) -> Seq<(Seq<char>, Seq<char>)> {
    let m = if s.advanced_ports.len() > 0 {
        m.push(
            (
                "advanced_ports"@,
                spec_join(
                    Seq::new(s.advanced_ports.len(), |i: int| spec_adv_port(s.advanced_ports[i])),
                    ","@,
                ),
            ),
        )
    } else {
        m
    };
    let m = if s.advanced_volumes.len() > 0 {
        m.push(
            (
                "advanced_volumes"@,
                spec_join(
                    Seq::new(
                        s.advanced_volumes.len(),
                        |i: int| spec_adv_volume(s.advanced_volumes[i]),
                    ),
                    ","@,
                ),
            ),
        )
    } else {
        m
    };
    match s.healthcheck {
        Some(h) => m.push(("healthcheck_test"@, h.test)),
        None => m,
    }
}

/// The flat configuration map of a service definition: one entry per
/// set field, list-valued fields joined with commas, in a fixed order.
pub open spec fn spec_config_map(s: ServiceView) -> Seq<(Seq<char>, Seq<char>)> {
    scm_extras(scm_build(scm_resources(scm_placement(scm_basics(s), s), s), s), s)
}

} // verus!
