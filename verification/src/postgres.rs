use std::marker::PhantomData;

use vstd::prelude::*;

use crate::config::{Config, ConfigReady};
use crate::text::{concat2, owned};

verus! {

/// Errors of the PostgreSQL pools.
#[derive(Debug)]
pub enum PostgresError {
    Custom(String),
    /// An error of the database driver, by its message.
    Sqlx(String),
}

/// The states of the pools: configured, then connected.
pub trait PostgresStates {}

#[derive(Debug, Clone)]
pub struct Loaded;

#[derive(Debug, Clone)]
pub struct Connected;

impl PostgresStates for Loaded {}

impl PostgresStates for Connected {}

pub const MASTER_CONFIG_PATH: &'static str = "/postgres/master";

pub const SLAVE_CONFIG_PATH: &'static str = "/postgres/slave";

/// `path` followed by `/url`.
pub open spec fn url_path(path: Seq<char>) -> Seq<char> {
    path + seq!['/', 'u', 'r', 'l']
}

/// `path` followed by `/` and `name`.
pub open spec fn sub_path(path: Seq<char>, name: Seq<char>) -> Seq<char> {
    path + seq!['/'] + name
}

/// The URL configured for the pool at `path`: none where the section is absent.
pub open spec fn pool_url(cfg: Config<ConfigReady>, path: Seq<char>) -> Option<Seq<char>> {
    if cfg.value_at(path) is Some {
        cfg.str_at(url_path(path))
    } else {
        None
    }
}

/// A section that is present holds a string URL.
pub open spec fn pool_section_ok(cfg: Config<ConfigReady>, path: Seq<char>) -> bool {
    cfg.value_at(path) is Some ==> cfg.str_at(url_path(path)) is Some
}

/// The master and slave pools of the service's database (the URLs; the pools themselves
/// are opened by the caller).
#[derive(Debug)]
pub struct PostgresPools<S: PostgresStates> {
    master_url: Option<String>,
    slave_url: Option<String>,
    _state: PhantomData<S>,
}

pub open spec fn opt_view(s: Option<String>) -> Option<Seq<char>> {
    match s {
        Some(x) => Some(x@),
        None => None,
    }
}

impl<S: PostgresStates> PostgresPools<S> {
    pub closed spec fn master_url_of(&self) -> Option<Seq<char>> {
        opt_view(self.master_url)
    }

    pub closed spec fn slave_url_of(&self) -> Option<Seq<char>> {
        opt_view(self.slave_url)
    }

    /// The URL of the master pool, if one is configured.
    pub fn master_url(&self) -> (r: Option<&str>)
        ensures
            match r {
                Some(u) => self.master_url_of() == Some(u@),
                None => self.master_url_of() is None,
            },
    {
        match &self.master_url {
            Some(u) => Some(u.as_str()),
            None => None,
        }
    }

    /// The URL of the slave pool, if one is configured.
    pub fn slave_url(&self) -> (r: Option<&str>)
        ensures
            match r {
                Some(u) => self.slave_url_of() == Some(u@),
                None => self.slave_url_of() is None,
            },
    {
        match &self.slave_url {
            Some(u) => Some(u.as_str()),
            None => None,
        }
    }

    /// The pools that the configuration describes: a master where `/postgres/master` is
    /// present, a slave where `/postgres/slave` is, each with the `url` of its section.
    pub fn new(cfg: &Config<ConfigReady>) -> (r: PostgresPools<Loaded>)
        requires
            pool_section_ok(*cfg, MASTER_CONFIG_PATH@),
            pool_section_ok(*cfg, SLAVE_CONFIG_PATH@),
        ensures
            r.master_url_of() == pool_url(*cfg, MASTER_CONFIG_PATH@),
            r.slave_url_of() == pool_url(*cfg, SLAVE_CONFIG_PATH@),
    {
        proof {
            reveal_strlit("/url");
        }
        let mut master_url: Option<String> = None;
        let mut slave_url: Option<String> = None;
        if cfg.get(MASTER_CONFIG_PATH).is_some() {
            let p = concat2(MASTER_CONFIG_PATH, "/url");
            assert(p@ =~= url_path(MASTER_CONFIG_PATH@));
            master_url = Some(cfg.expect_string(p.as_str()));
        }
        if cfg.get(SLAVE_CONFIG_PATH).is_some() {
            let p = concat2(SLAVE_CONFIG_PATH, "/url");
            assert(p@ =~= url_path(SLAVE_CONFIG_PATH@));
            slave_url = Some(cfg.expect_string(p.as_str()));
        }
        PostgresPools::<Loaded> { master_url, slave_url, _state: PhantomData }
    }
}

impl PostgresPools<Loaded> {
    /// The pools once connected: the same URLs.
    pub fn connected(&self) -> (r: PostgresPools<Connected>)
        ensures
            r.master_url_of() == self.master_url_of(),
            r.slave_url_of() == self.slave_url_of(),
    {
        let master_url = match &self.master_url {
            Some(u) => Some(owned(u.as_str())),
            None => None,
        };
        let slave_url = match &self.slave_url {
            Some(u) => Some(owned(u.as_str())),
            None => None,
        };
        PostgresPools::<Connected> { master_url, slave_url, _state: PhantomData }
    }
}

/// What a new connection of a pool does once open, as its configuration section asks.
#[derive(Debug, Clone, Copy, PartialEq, Eq)]
pub struct SchemaSettings {
    /// Create the service's schema (and point the search path at it).
    pub create_schema: bool,
    /// Point the search path at the service's schema.
    pub set_search_path: bool,
}

/// The section of a pool holds both switches where it is present.
pub open spec fn schema_section_ok(cfg: Config<ConfigReady>, path: Seq<char>) -> bool {
    cfg.value_at(path) is Some ==> {
        &&& cfg.bool_at(sub_path(path, create_schema_key())) is Some
        &&& cfg.bool_at(sub_path(path, search_path_key())) is Some
    }
}

pub open spec fn create_schema_key() -> Seq<char> {
    seq!['c', 'r', 'e', 'a', 't', 'e', 'S', 'e', 'r', 'v', 'i', 'c', 'e', 'S', 'c', 'h', 'e', 'm', 'a']
}

pub open spec fn search_path_key() -> Seq<char> {
    seq![
        's',
        'e',
        't',
        'S',
        'e',
        'a',
        'r',
        'c',
        'h',
        'P',
        'a',
        't',
        'h',
        'B',
        'y',
        'S',
        'e',
        'r',
        'v',
        'i',
        'c',
        'e',
    ]
}

/// The connection settings of the pool whose section is at `cfg_path`: none where the
/// section is absent, else its `createServiceSchema` and `setSearchPathByService`.
/// Every pool tests a connection before handing it out.
pub fn schema_settings(cfg: &Config<ConfigReady>, cfg_path: &str) -> (r: Option<SchemaSettings>)
    requires
        schema_section_ok(*cfg, cfg_path@),
    ensures
        match r {
            Some(s) => {
                &&& cfg.value_at(cfg_path@) is Some
                &&& cfg.bool_at(sub_path(cfg_path@, create_schema_key())) == Some(s.create_schema)
                &&& cfg.bool_at(sub_path(cfg_path@, search_path_key())) == Some(s.set_search_path)
            },
            None => cfg.value_at(cfg_path@) is None,
        },
{
    if cfg.get(cfg_path).is_none() {
        return None;
    }
    proof {
        reveal_strlit("/createServiceSchema");
        reveal_strlit("/setSearchPathByService");
    }
    let p1 = concat2(cfg_path, "/createServiceSchema");
    assert(p1@ =~= sub_path(cfg_path@, create_schema_key()));
    let p2 = concat2(cfg_path, "/setSearchPathByService");
    assert(p2@ =~= sub_path(cfg_path@, search_path_key()));
    let create_schema = cfg.expect_bool(p1.as_str());
    let set_search_path = cfg.expect_bool(p2.as_str());
    Some(SchemaSettings { create_schema, set_search_path })
}

pub open spec fn create_schema_sql(service: Seq<char>) -> Seq<char> {
    "CREATE SCHEMA IF NOT EXISTS \""@ + service + "\"; SET search_path = '"@ + service + "';"@
}

pub open spec fn set_search_path_sql(service: Seq<char>) -> Seq<char> {
    "SET search_path = '"@ + service + "'"@
}

impl SchemaSettings {
    /// The statement a new connection runs: create the schema (and set the search path)
    /// where asked, else set the search path where asked, else none.
    pub fn after_connect_statement(&self, service_name: &str) -> (r: Option<String>)
        ensures
            match r {
                Some(s) => if self.create_schema {
                    s@ == create_schema_sql(service_name@)
                } else {
                    self.set_search_path && s@ == set_search_path_sql(service_name@)
                },
                None => !self.create_schema && !self.set_search_path,
            },
    {
        if self.create_schema {
            let a = concat2("CREATE SCHEMA IF NOT EXISTS \"", service_name);
            let b = concat2(a.as_str(), "\"; SET search_path = '");
            let c = concat2(b.as_str(), service_name);
            let d = concat2(c.as_str(), "';");
            assert(d@ =~= create_schema_sql(service_name@));
            return Some(d);
        }
        if self.set_search_path {
            let a = concat2("SET search_path = '", service_name);
            let b = concat2(a.as_str(), "'");
            assert(b@ =~= set_search_path_sql(service_name@));
            return Some(b);
        }
        None
    }
}

impl<S: PostgresStates> Clone for PostgresPools<S> {
    /// A copy: the same URLs.
    fn clone(&self) -> (r: Self)
        ensures
            r.master_url_of() == self.master_url_of(),
            r.slave_url_of() == self.slave_url_of(),
    {
        PostgresPools {
            master_url: match &self.master_url {
                Some(u) => Some(u.clone()),
                None => None,
            },
            slave_url: match &self.slave_url {
                Some(u) => Some(u.clone()),
                None => None,
            },
            _state: PhantomData,
        }
    }
}

} // verus!
