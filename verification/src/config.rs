//! Host configuration: the saved hosts, their authentication methods and
//! the location of the configuration file.

use std::collections::HashMap;
use vstd::prelude::*;
use crate::text::{path_join, lemma_filter_take_step};

verus! {

/// How to authenticate to a host.
#[derive(Debug)]
pub enum AuthMethod {
    Password,
    Key { key_path: String },
    Agent,
}

impl Clone for AuthMethod {
    fn clone(&self) -> (r: Self)
        ensures
            r == *self,
    {
        match self {
            AuthMethod::Password => AuthMethod::Password,
            AuthMethod::Key { key_path } => AuthMethod::Key { key_path: key_path.clone() },
            AuthMethod::Agent => AuthMethod::Agent,
        }
    }
}

impl Default for AuthMethod {
    fn default() -> (r: Self)
        ensures
            r == AuthMethod::Password,
    {
        AuthMethod::Password
    }
}

/// The abstract value of a [`HostConfig`]: its fields, strings taken as
/// character sequences.
pub struct HostView {
    pub name: Seq<char>,
    pub host: Seq<char>,
    pub port: u16,
    pub user: Seq<char>,
    pub auth: AuthMethod,
    pub group: Seq<char>,
    pub tags: Seq<Seq<char>>,
    pub jump_host: Option<Seq<char>>,
    pub notes: Seq<char>,
}

/// A saved host.
#[derive(Debug)]
pub struct HostConfig {
    pub name: String,
    pub host: String,
    pub port: u16,
    pub user: String,
    pub auth: AuthMethod,
    pub group: String,
    pub tags: Vec<String>,
    pub jump_host: Option<String>,
    pub notes: String,
}

impl View for HostConfig {
    type V = HostView;

    open spec fn view(&self) -> HostView {
        HostView {
            name: self.name@,
            host: self.host@,
            port: self.port,
            user: self.user@,
            auth: self.auth,
            group: self.group@,
            tags: self.tags@.map_values(|t: String| t@),
            jump_host: match self.jump_host {
                Some(j) => Some(j@),
                None => None,
            },
            notes: self.notes@,
        }
    }
}

impl Clone for HostConfig {
    fn clone(&self) -> (r: Self)
        ensures
            r@ == self@,
    {
        let tags = clone_strings(&self.tags);
        let jump_host = match &self.jump_host {
            Some(j) => Some(j.clone()),
            None => None,
        };
        HostConfig {
            name: self.name.clone(),
            host: self.host.clone(),
            port: self.port,
            user: self.user.clone(),
            auth: self.auth.clone(),
            group: self.group.clone(),
            tags,
            jump_host,
            notes: self.notes.clone(),
        }
    }
}

/// An element-by-element copy of a list of strings.
fn clone_strings(v: &Vec<String>) -> (r: Vec<String>)
    ensures
        r@ == v@,
{
    let mut r: Vec<String> = Vec::new();
    let mut i: usize = 0;
    while i < v.len()
        invariant
            i <= v.len(),
            r@ =~= v@.subrange(0, i as int),
        decreases v.len() - i,
    {
        r.push(v[i].clone());
        i = i + 1;
        assert(r@ =~= v@.subrange(0, i as int));
    }
    assert(v@.subrange(0, v.len() as int) =~= v@);
    r
}

/// Why the configuration file cannot be located.
#[derive(Debug, Clone, Copy, PartialEq, Eq)]
pub enum ConfigError {
    /// The platform reports no per-user configuration directory.
    NoConfigDir,
}

/// The application configuration: saved hosts, host groups and key bindings.
#[derive(Debug)]
pub struct AppConfig {
    pub hosts: Vec<HostConfig>,
    pub groups: Vec<String>,
    pub key_map: HashMap<String, String>,
}

/// The name under which the application keeps its files.
pub open spec fn app_dir_name() -> Seq<char> {
    seq!['s', 's', 'h', '-', 't']
}

/// The name of the configuration file.
pub open spec fn config_file_name() -> Seq<char> {
    seq!['c', 'o', 'n', 'f', 'i', 'g', '.', 't', 'o', 'm', 'l']
}

/// Whether a host carries the name `name`.
pub open spec fn has_name(h: HostConfig, name: Seq<char>) -> bool {
    h.name@ == name
}

/// The hosts not named `name`.
pub open spec fn not_named(name: Seq<char>) -> spec_fn(HostConfig) -> bool {
    |h: HostConfig| !has_name(h, name)
}

/// The hosts in the group `group`.
pub open spec fn grouped(group: Seq<char>) -> spec_fn(HostConfig) -> bool {
    |h: HostConfig| in_group(h, group)
}

/// Whether a host is in the group `group`.
pub open spec fn in_group(h: HostConfig, group: Seq<char>) -> bool {
    h.group@ == group
}

impl AppConfig {
    /// The application's configuration directory inside the system's
    /// per-user configuration directory, which the caller looks up.
    pub fn config_dir(system_config_dir: Option<&str>) -> (r: Result<String, ConfigError>)
        ensures
            system_config_dir is None ==> r == Err::<String, ConfigError>(ConfigError::NoConfigDir),
            system_config_dir matches Some(d) ==> r matches Ok(p) && p@ == crate::text::joined_path(d@, app_dir_name()),
    {
        match system_config_dir {
            None => Err(ConfigError::NoConfigDir),
            Some(d) => {
                let r = path_join(d, "ssh-t");
                proof {
                    reveal_strlit("ssh-t");
                    assert("ssh-t"@ =~= app_dir_name());
                }
                Ok(r)
            },
        }
    }

    /// The path of the configuration file.
    pub fn config_path(system_config_dir: Option<&str>) -> (r: Result<String, ConfigError>)
        ensures
            system_config_dir is None ==> r == Err::<String, ConfigError>(ConfigError::NoConfigDir),
            system_config_dir matches Some(d) ==> r matches Ok(p) && p@ == crate::text::joined_path(
                crate::text::joined_path(d@, app_dir_name()),
                config_file_name(),
            ),
    {
        let dir = Self::config_dir(system_config_dir)?;
        let r = path_join(dir.as_str(), "config.toml");
        proof {
            reveal_strlit("config.toml");
            assert("config.toml"@ =~= config_file_name());
        }
        Ok(r)
    }

    /// Appends a host.
    pub fn add_host(&mut self, host: HostConfig)
        ensures
            final(self).hosts@ == old(self).hosts@.push(host),
            final(self).groups == old(self).groups,
            final(self).key_map == old(self).key_map,
    {
        self.hosts.push(host);
    }

    /// Removes every host named `name`, keeping the others in order.
    pub fn remove_host(&mut self, name: &str)
        ensures
            final(self).hosts@ == old(self).hosts@.filter(not_named(name@)),
            final(self).groups == old(self).groups,
            final(self).key_map == old(self).key_map,
    {
        let key = String::from_str(name);
        let ghost old_hosts = self.hosts@;
        let ghost keep = not_named(name@);
        let mut hosts: Vec<HostConfig> = Vec::new();
        std::mem::swap(&mut hosts, &mut self.hosts);
        let mut kept: Vec<HostConfig> = Vec::new();
        let mut rest = hosts;
        let ghost mut i: int = 0;
        while rest.len() > 0
            invariant
                0 <= i <= old_hosts.len(),
                rest@ == old_hosts.subrange(i, old_hosts.len() as int),
                kept@ == old_hosts.take(i).filter(keep),
                keep == not_named(name@),
                key@ == name@,
            decreases rest.len(),
        {
            let h = rest.remove(0);
            proof {
                lemma_filter_take_step(old_hosts, i, keep);
            }
            if !(h.name == key) {
                kept.push(h);
            }
            proof {
                i = i + 1;
            }
            assert(rest@ =~= old_hosts.subrange(i, old_hosts.len() as int));
        }
        assert(old_hosts.take(i) =~= old_hosts);
        self.hosts = kept;
    }

    /// The first host named `name`.
    pub fn get_host(&self, name: &str) -> (r: Option<&HostConfig>)
        ensures
            r is None ==> forall|i: int| 0 <= i < self.hosts@.len() ==> !has_name(#[trigger] self.hosts@[i], name@),
            r matches Some(h) ==> exists|i: int|
                0 <= i < self.hosts@.len() && *h == self.hosts@[i] && has_name(self.hosts@[i], name@)
                    && forall|j: int| 0 <= j < i ==> !has_name(#[trigger] self.hosts@[j], name@),
    {
        let key = String::from_str(name);
        let mut i: usize = 0;
        while i < self.hosts.len()
            invariant
                i <= self.hosts@.len(),
                key@ == name@,
                forall|j: int| 0 <= j < i ==> !has_name(#[trigger] self.hosts@[j], name@),
            decreases self.hosts.len() - i,
        {
            if self.hosts[i].name == key {
                return Some(&self.hosts[i]);
            }
            i = i + 1;
        }
        None
    }

    /// The hosts in the group `group`, in order.
    pub fn hosts_by_group(&self, group: &str) -> (r: Vec<&HostConfig>)
        ensures
            r@.map_values(|h: &HostConfig| *h) == self.hosts@.filter(grouped(group@)),
    {
        let key = String::from_str(group);
        let ghost pred = grouped(group@);
        let mut r: Vec<&HostConfig> = Vec::new();
        let mut i: usize = 0;
        while i < self.hosts.len()
            invariant
                i <= self.hosts@.len(),
                key@ == group@,
                r@.map_values(|h: &HostConfig| *h) == self.hosts@.take(i as int).filter(pred),
                pred == grouped(group@),
            decreases self.hosts.len() - i,
        {
            proof {
                lemma_filter_take_step(self.hosts@, i as int, pred);
            }
            if self.hosts[i].group == key {
                let ghost before = r@;
                r.push(&self.hosts[i]);
                assert(r@.map_values(|h: &HostConfig| *h) =~= before.map_values(|h: &HostConfig| *h).push(self.hosts@[i as int]));
                assert(r@.map_values(|h: &HostConfig| *h) =~= self.hosts@.take(i + 1).filter(pred));
            } else {
                assert(r@.map_values(|h: &HostConfig| *h) =~= self.hosts@.take(i + 1).filter(pred));
            }
            i = i + 1;
        }
        assert(self.hosts@.take(self.hosts@.len() as int) =~= self.hosts@);
        r
    }
}

/// After removing the hosts named `name`, no host of that name is left,
/// every host of another name is still there, and the order is kept.
pub proof fn remove_host_law(before: Seq<HostConfig>, after: Seq<HostConfig>, name: Seq<char>)
    requires
        after == before.filter(not_named(name)),
    ensures
        forall|i: int| 0 <= i < after.len() ==> !has_name(#[trigger] after[i], name),
        forall|i: int| 0 <= i < before.len() && !has_name(before[i], name) ==> #[trigger] after.contains(before[i]),
        after.len() <= before.len(),
{
    assert forall|i: int| 0 <= i < after.len() implies !has_name(#[trigger] after[i], name) by {
        before.lemma_filter_pred(not_named(name), i);
    }
    assert forall|i: int| 0 <= i < before.len() && !has_name(before[i], name) implies #[trigger] after.contains(before[i]) by {
        before.lemma_filter_contains(not_named(name), i);
    }
    before.lemma_filter_len(not_named(name));
}

/// Adding a host and then removing its name leaves the same hosts as
/// removing the name alone.
pub proof fn add_then_remove(hosts: Seq<HostConfig>, host: HostConfig)
    ensures
        hosts.push(host).filter(not_named(host.name@)) == hosts.filter(not_named(host.name@)),
{
    let p = not_named(host.name@);
    reveal(Seq::filter);
    assert(hosts.push(host).drop_last() =~= hosts);
    assert(!p(host));
}

} // verus!
