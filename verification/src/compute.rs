//! The connection settings of a compute node: what a client's startup
//! message sets in them, and the order in which the proxy tries the hosts.
use vstd::prelude::*;

use crate::config_laws::law_ports_fit_counts;
use crate::config_laws::law_replication_values;
use crate::config_laws::law_startup_params_application_name;
use crate::config_laws::law_startup_params_dbname;
use crate::config_laws::law_startup_params_options;
use crate::config_laws::law_startup_params_replication;
use crate::config_laws::law_startup_params_user;
use crate::option_laws::law_forwarded_drops_only_project;
use crate::startup::raw_options;
use crate::startup::texts;
use crate::startup::StartupMessageParams;
use crate::text::has_prefix;
use crate::text::join_with;
use crate::text::str_equal;
use crate::text::str_has_prefix;

verus! {

/// An option that the proxy keeps: one that does not name a project.
pub open spec fn keeps_option(option: Seq<char>) -> bool {
    !has_prefix(option, "project="@)
}

/// The options that remain once those naming a project are dropped, in order.
pub open spec fn kept_options(options: Seq<Seq<char>>) -> Seq<Seq<char>> {
    options.filter(|option: Seq<char>| keeps_option(option))
}

/// What `options` forwards of the parameters `params`: their options,
/// without those that name a project, separated by single spaces; `None`
/// when there is no `options` parameter or nothing remains.
pub open spec fn forwarded_options(params: Map<Seq<char>, Seq<char>>) -> Option<Seq<char>> {
    if params.contains_key("options"@) {
        let joined = join_with(kept_options(raw_options(params["options"@])), " "@);
        if joined.len() == 0 {
            None
        } else {
            Some(joined)
        }
    } else {
        None
    }
}

/// One step of [`kept_options`]: the options of a list extended by one.
proof fn lemma_kept_options_push(options: Seq<Seq<char>>, option: Seq<char>)
    ensures
        kept_options(options.push(option)) == if keeps_option(option) {
            kept_options(options).push(option)
        } else {
            kept_options(options)
        },
{
    reveal_with_fuel(Seq::<_>::filter, 1);
    assert(options.push(option).drop_last() =~= options);
}

/// The options of a startup message, without those that only name a
/// project, separated by single spaces; `None` when there are none.
pub fn filtered_options(params: &StartupMessageParams) -> (r: Option<String>)
    ensures
        r matches Some(s) ==> forwarded_options(params@) == Some(s@),
        r is None ==> forwarded_options(params@) is None,
        r is None <==> (!params@.contains_key("options"@) || forall|i: int|
            0 <= i < raw_options(params@["options"@]).len() ==> has_prefix(
                #[trigger] raw_options(params@["options"@])[i],
                "project="@,
            )),
        r matches Some(s) ==> raw_options(s@) == raw_options(params@["options"@]).filter(
            |t: Seq<char>| !has_prefix(t, "project="@),
        ),
{
    proof {
        law_forwarded_drops_only_project(params@);
    }
    let options = match params.options_raw() {
        Some(options) => options,
        None => return None,
    };
    let ghost all = texts(options@);
    let mut joined = String::new();
    let mut any = false;
    let mut i: usize = 0;
    while i < options.len()
        invariant
            i <= options.len(),
            all == texts(options@),
            joined@ == join_with(kept_options(all.take(i as int)), " "@),
            any == (kept_options(all.take(i as int)).len() > 0),
        decreases options.len() - i,
    {
        let option = &options[i];
        let ghost before = kept_options(all.take(i as int));
        proof {
            assert(all.take(i + 1) =~= all.take(i as int).push(option@));
            lemma_kept_options_push(all.take(i as int), option@);
        }
        if !str_has_prefix(option.as_str(), "project=") {
            let ghost after = before.push(option@);
            if any {
                joined.append(" ");
                assert(after.drop_last() =~= before);
            }
            joined.append(option.as_str());
            any = true;
        }
        i = i + 1;
    }
    proof {
        assert(all.take(options.len() as int) =~= all);
    }
    if joined.as_str().is_empty() {
        None
    } else {
        Some(joined)
    }
}

/// How a connection replicates: `Physical` streams the whole cluster,
/// `Logical` one database.
#[derive(Clone, Copy, Debug, PartialEq, Eq, Structural)]
pub enum ReplicationMode {
    Physical,
    Logical,
}

/// The keys of a SCRAM-SHA-256 exchange that stand in for a password.
#[derive(Clone, Copy, Debug)]
pub struct ScramKeys {
    pub client_key: [u8; 32],
    pub server_key: [u8; 32],
}

/// A host to connect to: a name or address reached over TCP, or the
/// directory of a Unix socket.
#[derive(Clone, Debug)]
pub enum Host {
    Tcp(String),
    Unix(String),
}

/// The text of a [`Host`].
pub enum HostView {
    Tcp(Seq<char>),
    Unix(Seq<char>),
}

impl View for Host {
    type V = HostView;

    open spec fn view(&self) -> HostView {
        match self {
            Host::Tcp(name) => HostView::Tcp(name@),
            Host::Unix(path) => HostView::Unix(path@),
        }
    }
}

/// The settings that a [`ConnCfg`] holds.
pub struct ConnCfgView {
    pub user: Option<Seq<char>>,
    pub password: Option<Seq<u8>>,
    pub auth_keys: Option<ScramKeys>,
    pub dbname: Option<Seq<char>>,
    pub options: Option<Seq<char>>,
    pub application_name: Option<Seq<char>>,
    pub replication_mode: Option<ReplicationMode>,
    pub hosts: Seq<HostView>,
    pub ports: Seq<u16>,
}

/// The text of an optional string.
pub open spec fn opt_text(s: Option<String>) -> Option<Seq<char>> {
    match s {
        Some(t) => Some(t@),
        None => None,
    }
}

/// The replication mode that the value of the `replication` parameter asks
/// for, if it names one.
pub open spec fn replication_mode_named(value: Seq<char>) -> Option<ReplicationMode> {
    if value == "true"@ || value == "on"@ || value == "yes"@ || value == "1"@ {
        Some(ReplicationMode::Physical)
    } else if value == "database"@ {
        Some(ReplicationMode::Logical)
    } else {
        None
    }
}

/// What applying the parameters `params` of a startup message makes of the
/// settings `cfg`: the user and the database only where none is set yet,
/// the forwarded options, the application name, and the replication mode
/// where the parameter names one; nothing else changes.
pub open spec fn with_startup_params(cfg: ConnCfgView, params: Map<Seq<char>, Seq<char>>) -> ConnCfgView {
    ConnCfgView {
        user: if cfg.user is None && params.contains_key("user"@) {
            Some(params["user"@])
        } else {
            cfg.user
        },
        dbname: if cfg.dbname is None && params.contains_key("database"@) {
            Some(params["database"@])
        } else {
            cfg.dbname
        },
        options: match forwarded_options(params) {
            Some(options) => Some(options),
            None => cfg.options,
        },
        application_name: if params.contains_key("application_name"@) {
            Some(params["application_name"@])
        } else {
            cfg.application_name
        },
        replication_mode: if params.contains_key("replication"@) && replication_mode_named(
            params["replication"@],
        ) is Some {
            replication_mode_named(params["replication"@])
        } else {
            cfg.replication_mode
        },
        ..cfg
    }
}

/// The replication mode that the value of the `replication` parameter of a
/// startup message asks for: "true", "on", "yes" and "1" ask for physical
/// replication, "database" for logical; any other value for none.
pub fn replication_mode_from_param(value: &str) -> (r: Option<ReplicationMode>)
    ensures
        r == replication_mode_named(value@),
        r == Some(ReplicationMode::Physical) <==> (value@ == "true"@ || value@ == "on"@ || value@
            == "yes"@ || value@ == "1"@),
        r == Some(ReplicationMode::Logical) <==> value@ == "database"@,
        r is None <==> !(value@ == "true"@ || value@ == "on"@ || value@ == "yes"@ || value@
            == "1"@ || value@ == "database"@),
{
    proof {
        law_replication_values(value@);
    }
    if str_equal(value, "true") || str_equal(value, "on") || str_equal(value, "yes") || str_equal(
        value,
        "1",
    ) {
        Some(ReplicationMode::Physical)
    } else if str_equal(value, "database") {
        Some(ReplicationMode::Logical)
    } else {
        None
    }
}

/// A config for establishing a connection to a compute node.
#[derive(Clone)]
pub struct ConnCfg {
    user: Option<String>,
    password: Option<Vec<u8>>,
    auth_keys: Option<ScramKeys>,
    dbname: Option<String>,
    options: Option<String>,
    application_name: Option<String>,
    replication_mode: Option<ReplicationMode>,
    hosts: Vec<Host>,
    ports: Vec<u16>,
}

impl View for ConnCfg {
    type V = ConnCfgView;

    closed spec fn view(&self) -> ConnCfgView {
        ConnCfgView {
            user: opt_text(self.user),
            password: match self.password {
                Some(p) => Some(p@),
                None => None,
            },
            auth_keys: self.auth_keys,
            dbname: opt_text(self.dbname),
            options: opt_text(self.options),
            application_name: opt_text(self.application_name),
            replication_mode: self.replication_mode,
            hosts: self.hosts@.map_values(|h: Host| h@),
            ports: self.ports@,
        }
    }
}

impl ConnCfg {
    /// A config with nothing set.
    pub fn new() -> (r: Self)
        ensures
            r@ == (ConnCfgView {
                user: None,
                password: None,
                auth_keys: None,
                dbname: None,
                options: None,
                application_name: None,
                replication_mode: None,
                hosts: Seq::empty(),
                ports: Seq::empty(),
            }),
    {
        let r = ConnCfg {
            user: None,
            password: None,
            auth_keys: None,
            dbname: None,
            options: None,
            application_name: None,
            replication_mode: None,
            hosts: Vec::new(),
            ports: Vec::new(),
        };
        assert(r@.hosts =~= Seq::empty());
        r
    }

    /// Sets the user to authenticate as.
    pub fn user(&mut self, user: &str)
        ensures
            final(self)@ == (ConnCfgView { user: Some(user@), ..old(self)@ }),
    {
        self.user = Some(user.to_owned());
    }

    /// Sets the name of the database to connect to.
    pub fn dbname(&mut self, dbname: &str)
        ensures
            final(self)@ == (ConnCfgView { dbname: Some(dbname@), ..old(self)@ }),
    {
        self.dbname = Some(dbname.to_owned());
    }

    /// Sets the command-line options passed to the server.
    pub fn options(&mut self, options: &str)
        ensures
            final(self)@ == (ConnCfgView { options: Some(options@), ..old(self)@ }),
    {
        self.options = Some(options.to_owned());
    }

    /// Sets the application name reported to the server.
    pub fn application_name(&mut self, application_name: &str)
        ensures
            final(self)@ == (ConnCfgView { application_name: Some(application_name@), ..old(self)@ }),
    {
        self.application_name = Some(application_name.to_owned());
    }

    /// Sets the replication mode of the connection.
    pub fn replication_mode(&mut self, mode: ReplicationMode)
        ensures
            final(self)@ == (ConnCfgView { replication_mode: Some(mode), ..old(self)@ }),
    {
        self.replication_mode = Some(mode);
    }

    /// Sets the password to authenticate with.
    pub fn password(&mut self, password: &[u8])
        ensures
            final(self)@ == (ConnCfgView { password: Some(password@), ..old(self)@ }),
    {
        self.password = Some(vstd::slice::slice_to_vec(password));
    }

    /// Sets the SCRAM keys to authenticate with in place of a password.
    pub fn auth_keys(&mut self, keys: ScramKeys)
        ensures
            final(self)@ == (ConnCfgView { auth_keys: Some(keys), ..old(self)@ }),
    {
        self.auth_keys = Some(keys);
    }

    /// The user to authenticate as, if set.
    pub fn get_user(&self) -> (r: Option<&str>)
        ensures
            r is Some <==> self@.user is Some,
            r matches Some(u) ==> self@.user == Some(u@),
    {
        match &self.user {
            Some(u) => Some(u.as_str()),
            None => None,
        }
    }

    /// The name of the database to connect to, if set.
    pub fn get_dbname(&self) -> (r: Option<&str>)
        ensures
            r is Some <==> self@.dbname is Some,
            r matches Some(d) ==> self@.dbname == Some(d@),
    {
        match &self.dbname {
            Some(d) => Some(d.as_str()),
            None => None,
        }
    }

    /// The password to authenticate with, if set.
    pub fn get_password(&self) -> (r: Option<&[u8]>)
        ensures
            r is Some <==> self@.password is Some,
            r matches Some(p) ==> self@.password == Some(p@),
    {
        match &self.password {
            Some(p) => Some(p.as_slice()),
            None => None,
        }
    }

    /// The SCRAM keys to authenticate with, if set.
    pub fn get_auth_keys(&self) -> (r: Option<ScramKeys>)
        ensures
            r == self@.auth_keys,
    {
        self.auth_keys
    }

    /// The command-line options passed to the server, if set.
    pub fn get_options(&self) -> (r: Option<&str>)
        ensures
            r is Some <==> self@.options is Some,
            r matches Some(o) ==> self@.options == Some(o@),
    {
        match &self.options {
            Some(o) => Some(o.as_str()),
            None => None,
        }
    }

    /// The application name reported to the server, if set.
    pub fn get_application_name(&self) -> (r: Option<&str>)
        ensures
            r is Some <==> self@.application_name is Some,
            r matches Some(a) ==> self@.application_name == Some(a@),
    {
        match &self.application_name {
            Some(a) => Some(a.as_str()),
            None => None,
        }
    }

    /// The replication mode of the connection, if set.
    pub fn get_replication_mode(&self) -> (r: Option<ReplicationMode>)
        ensures
            r == self@.replication_mode,
    {
        self.replication_mode
    }

    /// Reuses the password and the SCRAM keys of `other`, each where `other`
    /// has one; nothing else changes.
    pub fn reuse_password(&mut self, other: &Self)
        ensures
            final(self)@ == (ConnCfgView {
                password: if other@.password is Some {
                    other@.password
                } else {
                    old(self)@.password
                },
                auth_keys: if other@.auth_keys is Some {
                    other@.auth_keys
                } else {
                    old(self)@.auth_keys
                },
                ..old(self)@
            }),
    {
        if let Some(password) = other.get_password() {
            self.password(password);
        }
        if let Some(keys) = other.get_auth_keys() {
            self.auth_keys(keys);
        }
    }

    /// Applies the parameters of a startup message: the user and the
    /// database where the config has none yet, the options that do not only
    /// name a project, the application name, and the replication mode.
    pub fn set_startup_params(&mut self, params: &StartupMessageParams)
        ensures
            final(self)@ == with_startup_params(old(self)@, params@),
            old(self)@.user is None && params@.contains_key("user"@) ==> final(self)@.user == Some(
                params@["user"@],
            ),
            old(self)@.user is Some || !params@.contains_key("user"@) ==> final(self)@.user == old(
                self,
            )@.user,
            old(self)@.dbname is None && params@.contains_key("database"@) ==> final(self)@.dbname
                == Some(params@["database"@]),
            old(self)@.dbname is Some || !params@.contains_key("database"@) ==> final(self)@.dbname
                == old(self)@.dbname,
            params@.contains_key("application_name"@) ==> final(self)@.application_name == Some(
                params@["application_name"@],
            ),
            !params@.contains_key("application_name"@) ==> final(self)@.application_name == old(
                self,
            )@.application_name,
            params@.contains_key("replication"@) && (params@["replication"@] == "true"@
                || params@["replication"@] == "on"@ || params@["replication"@] == "yes"@
                || params@["replication"@] == "1"@) ==> final(self)@.replication_mode == Some(
                ReplicationMode::Physical,
            ),
            params@.contains_key("replication"@) && params@["replication"@] == "database"@
                ==> final(self)@.replication_mode == Some(ReplicationMode::Logical),
            !(params@.contains_key("replication"@) && (params@["replication"@] == "true"@
                || params@["replication"@] == "on"@ || params@["replication"@] == "yes"@
                || params@["replication"@] == "1"@ || params@["replication"@] == "database"@))
                ==> final(self)@.replication_mode == old(self)@.replication_mode,
            forwarded_options(params@) is Some ==> final(self)@.options == forwarded_options(
                params@,
            ),
            forwarded_options(params@) is None ==> final(self)@.options == old(self)@.options,
            final(self)@.password == old(self)@.password,
            final(self)@.auth_keys == old(self)@.auth_keys,
            final(self)@.hosts == old(self)@.hosts,
            final(self)@.ports == old(self)@.ports,
    {
        proof {
            law_startup_params_user(old(self)@, params@);
            law_startup_params_dbname(old(self)@, params@);
            law_startup_params_application_name(old(self)@, params@);
            law_startup_params_replication(old(self)@, params@);
            law_startup_params_options(old(self)@, params@);
        }
        if self.get_user().is_none() {
            if let Some(user) = params.get("user") {
                self.user(user);
            }
        }
        if self.get_dbname().is_none() {
            if let Some(dbname) = params.get("database") {
                self.dbname(dbname);
            }
        }
        if let Some(options) = filtered_options(params) {
            self.options(options.as_str());
        }
        if let Some(app_name) = params.get("application_name") {
            self.application_name(app_name);
        }
        if let Some(replication) = params.get("replication") {
            if let Some(mode) = replication_mode_from_param(replication) {
                self.replication_mode(mode);
            }
        }
    }
}

/// The port that is used when the config names none.
pub const DEFAULT_PORT: u16 = 5432;

/// A TCP host and port that the proxy tries to connect to.
pub struct ConnectTarget {
    pub host: String,
    pub port: u16,
}

/// Why the hosts of a config cannot be tried.
#[derive(Clone, Copy, Debug, PartialEq, Eq, Structural)]
pub enum ConnectPlanError {
    /// There is more than one port, and not one for each host.
    PortCountMismatch { ports: usize, hosts: usize },
}

/// The port for the host at index `i`: its own port, else the only port,
/// else the default one.
pub open spec fn port_for(ports: Seq<u16>, i: int) -> u16 {
    if 0 <= i < ports.len() {
        ports[i]
    } else if ports.len() > 0 {
        ports[0]
    } else {
        DEFAULT_PORT
    }
}

/// The targets for the first `n` hosts: each TCP host with its port, in
/// order; Unix sockets are left out.
pub open spec fn targets_for(hosts: Seq<HostView>, ports: Seq<u16>, n: int) -> Seq<(Seq<char>, u16)>
    decreases n,
{
    if n <= 0 {
        Seq::empty()
    } else {
        let earlier = targets_for(hosts, ports, n - 1);
        match hosts[n - 1] {
            HostView::Tcp(name) => earlier.push((name, port_for(ports, n - 1))),
            HostView::Unix(_) => earlier,
        }
    }
}

/// The host and port of each target.
pub open spec fn target_views(targets: Seq<ConnectTarget>) -> Seq<(Seq<char>, u16)> {
    targets.map_values(|t: ConnectTarget| (t.host@, t.port))
}

/// Whether the ports of a config fit its hosts: none, one for all, or one
/// for each.
pub open spec fn ports_fit(cfg: ConnCfgView) -> bool {
    cfg.ports.len() <= 1 || cfg.ports.len() == cfg.hosts.len()
}

impl ConnCfg {
    /// Adds a host: one starting with `/` is the directory of a Unix socket,
    /// any other is reached over TCP. This is the rule that tokio-postgres
    /// follows on Unix systems, where the proxy runs; this library has no
    /// other rule for other systems.
    pub fn host(&mut self, host: &str)
        ensures
            final(self)@ == (ConnCfgView {
                hosts: old(self)@.hosts.push(
                    if has_prefix(host@, "/"@) {
                        HostView::Unix(host@)
                    } else {
                        HostView::Tcp(host@)
                    },
                ),
                ..old(self)@
            }),
    {
        if str_has_prefix(host, "/") {
            self.host_path(host);
        } else {
            self.hosts.push(Host::Tcp(host.to_owned()));
            assert(self@.hosts =~= old(self)@.hosts.push(HostView::Tcp(host@)));
        }
    }

    /// Adds the directory of a Unix socket as a host.
    pub fn host_path(&mut self, path: &str)
        ensures
            final(self)@ == (ConnCfgView {
                hosts: old(self)@.hosts.push(HostView::Unix(path@)),
                ..old(self)@
            }),
    {
        self.hosts.push(Host::Unix(path.to_owned()));
        assert(self@.hosts =~= old(self)@.hosts.push(HostView::Unix(path@)));
    }

    /// Adds a port.
    pub fn port(&mut self, port: u16)
        ensures
            final(self)@ == (ConnCfgView { ports: old(self)@.ports.push(port), ..old(self)@ }),
    {
        self.ports.push(port);
    }

    /// The hosts, in the order in which they were added.
    pub fn get_hosts(&self) -> (r: &[Host])
        ensures
            r@.map_values(|h: Host| h@) == self@.hosts,
    {
        self.hosts.as_slice()
    }

    /// The ports, in the order in which they were added.
    pub fn get_ports(&self) -> (r: &[u16])
        ensures
            r@ == self@.ports,
    {
        self.ports.as_slice()
    }

    /// The TCP hosts to try, in order, each with its port: the port at the
    /// host's own index, else the first port, else the default one. The
    /// ports must be none, one, or one for each host.
    pub fn connect_targets(&self) -> (r: Result<Vec<ConnectTarget>, ConnectPlanError>)
        ensures
            r is Ok <==> ports_fit(self@),
            r is Ok <==> (self@.ports.len() == 0 || self@.ports.len() == 1 || self@.ports.len()
                == self@.hosts.len()),
            r matches Ok(targets) ==> target_views(targets@) == targets_for(
                self@.hosts,
                self@.ports,
                self@.hosts.len() as int,
            ),
            r matches Err(e) ==> e == (ConnectPlanError::PortCountMismatch {
                ports: self@.ports.len() as usize,
                hosts: self@.hosts.len() as usize,
            }),
    {
        proof {
            law_ports_fit_counts(self@);
        }
        let ports = self.get_ports();
        let hosts = self.get_hosts();
        if ports.len() > 1 && ports.len() != hosts.len() {
            return Err(ConnectPlanError::PortCountMismatch { ports: ports.len(), hosts: hosts.len() });
        }
        let ghost hv = self@.hosts;
        let mut targets: Vec<ConnectTarget> = Vec::new();
        let mut i: usize = 0;
        while i < hosts.len()
            invariant
                i <= hosts.len(),
                hv == hosts@.map_values(|h: Host| h@),
                ports@ == self@.ports,
                target_views(targets@) == targets_for(hv, ports@, i as int),
            decreases hosts.len() - i,
        {
            let port = if i < ports.len() {
                ports[i]
            } else if ports.len() > 0 {
                ports[0]
            } else {
                DEFAULT_PORT
            };
            let ghost before = target_views(targets@);
            match &hosts[i] {
                Host::Tcp(name) => {
                    targets.push(ConnectTarget { host: name.clone(), port });
                    assert(target_views(targets@) =~= before.push((name@, port)));
                },
                Host::Unix(_) => {},
            }
            assert(hv[i as int] == hosts@[i as int]@);
            i = i + 1;
        }
        Ok(targets)
    }
}

/// The message a client gets when the proxy cannot reach the compute node.
pub const COULD_NOT_CONNECT: &'static str = "Could not connect to compute node";

/// Why a connection to a compute node failed, as the texts that the
/// failure carries.
pub enum ConnectionError {
    /// The PostgreSQL handshake failed. `server_message` is the message that
    /// the server sent, where the server reported the error; `description`
    /// describes the error. Neither reveals secrets: the kinds of handshake
    /// errors hold no addresses.
    Postgres { server_message: Option<String>, description: String },
    /// No TCP connection could be made; `description` says why.
    CouldNotConnect { description: String },
}

impl ConnectionError {
    /// The message for the client: the server's own message where the
    /// server reported the error, else the error's description; for a
    /// failed TCP connection only that the node could not be reached.
    pub fn to_string_client(&self) -> (r: String)
        ensures
            match self {
                ConnectionError::Postgres { server_message: Some(m), .. } => r@ == m@,
                ConnectionError::Postgres { server_message: None, description } => r@
                    == description@,
                ConnectionError::CouldNotConnect { .. } => r@ == COULD_NOT_CONNECT@,
            },
    {
        match self {
            ConnectionError::Postgres { server_message: Some(m), .. } => m.clone(),
            ConnectionError::Postgres { server_message: None, description } => description.clone(),
            ConnectionError::CouldNotConnect { .. } => COULD_NOT_CONNECT.to_owned(),
        }
    }
}

/// What to do next while trying the targets of a config in turn.
#[derive(Clone, Copy, Debug, PartialEq, Eq, Structural)]
pub enum ConnectAction {
    /// Try the target at this index.
    Try(usize),
    /// The last attempt connected: use that connection.
    UseConnection,
    /// Every target was tried and failed: return the error of the last one.
    ReturnLastError,
    /// There was no TCP host to try: the config is unusable.
    ReturnBadConfig,
}

/// The outcome of an attempt to connect to a target.
#[derive(Clone, Copy, Debug, PartialEq, Eq, Structural)]
pub enum AttemptOutcome {
    Connected,
    Failed,
}

/// The next step of trying `n_targets` targets in order, after `tried` of
/// them, the last with outcome `last`: the first connection wins; after a
/// failure the next target is tried; when none is left, the last error is
/// returned, or, when none was tried at all, the config is reported bad.
pub fn next_connect_action(n_targets: usize, tried: usize, last: Option<AttemptOutcome>) -> (r:
    ConnectAction)
    ensures
        last == Some(AttemptOutcome::Connected) ==> r == ConnectAction::UseConnection,
        last != Some(AttemptOutcome::Connected) && tried < n_targets ==> r == ConnectAction::Try(
            tried,
        ),
        last != Some(AttemptOutcome::Connected) && tried >= n_targets && tried > 0 ==> r
            == ConnectAction::ReturnLastError,
        last != Some(AttemptOutcome::Connected) && n_targets == 0 && tried == 0 ==> r
            == ConnectAction::ReturnBadConfig,
{
    match last {
        Some(AttemptOutcome::Connected) => ConnectAction::UseConnection,
        _ => {
            if tried < n_targets {
                ConnectAction::Try(tried)
            } else if tried > 0 {
                ConnectAction::ReturnLastError
            } else {
                ConnectAction::ReturnBadConfig
            }
        },
    }
}

} // verus!
