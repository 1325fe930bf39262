//! What holds of the settings that a startup message leaves in a config,
//! and of the order in which the hosts of a config are tried.
use vstd::prelude::*;

use crate::compute::forwarded_options;
use crate::compute::port_for;
use crate::compute::ports_fit;
use crate::compute::replication_mode_named;
use crate::compute::ReplicationMode;
use crate::compute::targets_for;
use crate::compute::with_startup_params;
use crate::compute::ConnCfgView;
use crate::compute::HostView;
use crate::compute::DEFAULT_PORT;

verus! {

/// Applying the same startup message twice leaves the config as applying
/// it once does.
pub proof fn law_startup_params_idempotent(cfg: ConnCfgView, params: Map<Seq<char>, Seq<char>>)
    ensures
        with_startup_params(with_startup_params(cfg, params), params) == with_startup_params(
            cfg,
            params,
        ),
{
}

/// A user or database already in the config is never replaced by the
/// startup message.
pub proof fn law_startup_params_keep_user_and_dbname(
    cfg: ConnCfgView,
    params: Map<Seq<char>, Seq<char>>,
)
    ensures
        cfg.user is Some ==> with_startup_params(cfg, params).user == cfg.user,
        cfg.dbname is Some ==> with_startup_params(cfg, params).dbname == cfg.dbname,
{
}

/// The number of TCP hosts among the first `n`.
pub open spec fn tcp_count(hosts: Seq<HostView>, n: int) -> nat
    decreases n,
{
    if n <= 0 {
        0
    } else {
        tcp_count(hosts, n - 1) + if hosts[n - 1] is Tcp {
            1nat
        } else {
            0nat
        }
    }
}

/// Each TCP host is tried once, in order, and no Unix socket is: the
/// targets for the first `n` hosts are as many as their TCP hosts, each
/// with the port for the host it comes from.
pub proof fn law_targets_follow_hosts(hosts: Seq<HostView>, ports: Seq<u16>, n: int)
    requires
        0 <= n <= hosts.len(),
    ensures
        targets_for(hosts, ports, n).len() == tcp_count(hosts, n),
        forall|k: int|
            0 <= k < n && hosts[k] is Tcp ==> targets_for(hosts, ports, n)[tcp_count(hosts, k) as int]
                == (hosts[k]->Tcp_0, port_for(ports, k)),
    decreases n,
{
    if n > 0 {
        law_targets_follow_hosts(hosts, ports, n - 1);
        assert forall|k: int|
            0 <= k < n && hosts[k] is Tcp implies targets_for(hosts, ports, n)[tcp_count(
                hosts,
                k,
            ) as int] == (hosts[k]->Tcp_0, port_for(ports, k)) by {
            if k < n - 1 {
                lemma_tcp_count_monotone(hosts, k + 1, n - 1);
            }
        }
    }
}

/// Counting TCP hosts over more hosts counts no fewer.
proof fn lemma_tcp_count_monotone(hosts: Seq<HostView>, m: int, n: int)
    requires
        0 <= m <= n,
    ensures
        tcp_count(hosts, m) <= tcp_count(hosts, n),
    decreases n,
{
    if m < n {
        lemma_tcp_count_monotone(hosts, m, n - 1);
    }
}

/// With one port for each host, each host is tried on its own port; with a
/// single port, every host on that port; with none, on the default port.
pub proof fn law_port_choice(ports: Seq<u16>, hosts: Seq<HostView>, k: int)
    requires
        0 <= k < hosts.len(),
        ports.len() <= 1 || ports.len() == hosts.len(),
    ensures
        ports.len() == hosts.len() ==> port_for(ports, k) == ports[k],
        ports.len() == 1 ==> port_for(ports, k) == ports[0],
        ports.len() == 0 ==> port_for(ports, k) == DEFAULT_PORT,
{
}

/// A startup message fills the database of a config that has none with its
/// `database` parameter, whatever user the config has; a database already set
/// stays, and without the parameter the database stays unset.
pub proof fn law_startup_params_dbname(cfg: ConnCfgView, params: Map<Seq<char>, Seq<char>>)
    ensures
        cfg.dbname is None && params.contains_key("database"@) ==> with_startup_params(
            cfg,
            params,
        ).dbname == Some(params["database"@]),
        cfg.dbname is None && !params.contains_key("database"@) ==> with_startup_params(
            cfg,
            params,
        ).dbname is None,
        cfg.dbname is Some ==> with_startup_params(cfg, params).dbname == cfg.dbname,
{
}

/// A startup message fills the user of a config that has none with its
/// `user` parameter, whatever database the config has; a user already set
/// stays, and without the parameter the user stays unset.
pub proof fn law_startup_params_user(cfg: ConnCfgView, params: Map<Seq<char>, Seq<char>>)
    ensures
        cfg.user is None && params.contains_key("user"@) ==> with_startup_params(cfg, params).user
            == Some(params["user"@]),
        cfg.user is None && !params.contains_key("user"@) ==> with_startup_params(
            cfg,
            params,
        ).user is None,
        cfg.user is Some ==> with_startup_params(cfg, params).user == cfg.user,
{
}

/// The `application_name` parameter of a startup message always becomes
/// the application name of the config, replacing any it had; without the
/// parameter the config keeps its own.
pub proof fn law_startup_params_application_name(
    cfg: ConnCfgView,
    params: Map<Seq<char>, Seq<char>>,
)
    ensures
        params.contains_key("application_name"@) ==> with_startup_params(
            cfg,
            params,
        ).application_name == Some(params["application_name"@]),
        !params.contains_key("application_name"@) ==> with_startup_params(
            cfg,
            params,
        ).application_name == cfg.application_name,
{
}

/// The `replication` parameter asks for physical replication exactly when
/// it is "true", "on", "yes" or "1", for logical replication exactly when it
/// is "database", and for none otherwise, so that "false", "off", "no" and
/// "0" ask for none.
pub proof fn law_replication_values(value: Seq<char>)
    ensures
        replication_mode_named(value) == Some(ReplicationMode::Physical) <==> (value == "true"@
            || value == "on"@ || value == "yes"@ || value == "1"@),
        replication_mode_named(value) == Some(ReplicationMode::Logical) <==> value
            == "database"@,
        replication_mode_named(value) is None <==> !(value == "true"@ || value == "on"@ || value
            == "yes"@ || value == "1"@ || value == "database"@),
        replication_mode_named("false"@) is None,
        replication_mode_named("off"@) is None,
        replication_mode_named("no"@) is None,
        replication_mode_named("0"@) is None,
{
    reveal_strlit("true");
    reveal_strlit("on");
    reveal_strlit("yes");
    reveal_strlit("1");
    reveal_strlit("database");
    reveal_strlit("false");
    reveal_strlit("off");
    reveal_strlit("no");
    reveal_strlit("0");
    assert("false"@[0] != "true"@[0]);
    assert("false"@[0] != "on"@[0]);
    assert("false"@[0] != "yes"@[0]);
    assert("false"@[0] != "1"@[0]);
    assert("false"@[0] != "database"@[0]);
    assert("no"@[0] != "true"@[0]);
    assert("no"@[0] != "on"@[0]);
    assert("no"@[0] != "yes"@[0]);
    assert("no"@[0] != "1"@[0]);
    assert("no"@[0] != "database"@[0]);
    assert("0"@[0] != "true"@[0]);
    assert("0"@[0] != "on"@[0]);
    assert("0"@[0] != "yes"@[0]);
    assert("0"@[0] != "1"@[0]);
    assert("0"@[0] != "database"@[0]);
    assert("off"@[0] != "true"@[0]);
    assert("off"@[0] != "yes"@[0]);
    assert("off"@[0] != "1"@[0]);
    assert("off"@[0] != "database"@[0]);
    assert("off"@.len() != "on"@.len());
}

/// A startup message sets the replication mode that its `replication`
/// parameter names, and leaves the config's own where the parameter names
/// none or is missing.
pub proof fn law_startup_params_replication(cfg: ConnCfgView, params: Map<Seq<char>, Seq<char>>)
    ensures
        params.contains_key("replication"@) && (params["replication"@] == "true"@
            || params["replication"@] == "on"@ || params["replication"@] == "yes"@
            || params["replication"@] == "1"@) ==> with_startup_params(
            cfg,
            params,
        ).replication_mode == Some(ReplicationMode::Physical),
        params.contains_key("replication"@) && params["replication"@] == "database"@
            ==> with_startup_params(cfg, params).replication_mode == Some(
            ReplicationMode::Logical,
        ),
        !(params.contains_key("replication"@) && (params["replication"@] == "true"@
            || params["replication"@] == "on"@ || params["replication"@] == "yes"@
            || params["replication"@] == "1"@ || params["replication"@] == "database"@))
            ==> with_startup_params(cfg, params).replication_mode == cfg.replication_mode,
{
    if params.contains_key("replication"@) {
        law_replication_values(params["replication"@]);
    }
}

/// The hosts of a config can be tried exactly when it has no port, one
/// port, or as many ports as hosts.
pub proof fn law_ports_fit_counts(cfg: ConnCfgView)
    ensures
        ports_fit(cfg) <==> (cfg.ports.len() == 0 || cfg.ports.len() == 1 || cfg.ports.len()
            == cfg.hosts.len()),
{
}

/// The options that a startup message forwards replace those of the
/// config, whatever it had; when it forwards none, the config keeps its own.
pub proof fn law_startup_params_options(cfg: ConnCfgView, params: Map<Seq<char>, Seq<char>>)
    ensures
        forwarded_options(params) is Some ==> with_startup_params(cfg, params).options
            == forwarded_options(params),
        forwarded_options(params) is None ==> with_startup_params(cfg, params).options
            == cfg.options,
{
}

} // verus!
