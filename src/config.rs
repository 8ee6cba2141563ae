//! Node configuration with its defaults.
use vstd::prelude::*;
use vstd::string::StringExecFns;

verus! {

pub const DEFAULT_PORT: i32 = 8796;

pub const DEFAULT_ADDRESS: &'static str = "/ip4/0.0.0.0/tcp/0";

pub const DEFAULT_STORAGE: &'static str = ".xchg/storage";

pub const DEFAULT_LEVEL: &'static str = "info";

pub const DEFAULT_LOGS_PATH: &'static str = ".xchg/logs";

/// `<home>/<relative>`.
pub open spec fn under_home(home: Seq<char>, relative: Seq<char>) -> Seq<char> {
    home + "/"@ + relative
}

/// Joins a path below the home directory.
pub fn home_path(home: &str, relative: &str) -> (r: String)
    ensures
        r@ == under_home(home@, relative@),
{
    String::from_str(home).concat("/").concat(relative)
}

#[derive(Debug)]
pub struct Logs {
    pub level: Option<String>,
    pub dir: Option<String>,
}

impl Clone for Logs {
    fn clone(&self) -> (r: Logs)
        ensures
            r == *self,
    {
        Logs { level: self.level.clone(), dir: self.dir.clone() }
    }
}

impl Logs {
    /// Level `info`, files under `<home>/.xchg/logs`.
    pub fn default_under(home: &str) -> (r: Logs)
        ensures
            r.level matches Some(l) && l@ == DEFAULT_LEVEL@,
            r.dir matches Some(d) && d@ == under_home(home@, DEFAULT_LOGS_PATH@),
    {
        Logs {
            level: Some(String::from_str(DEFAULT_LEVEL)),
            dir: Some(home_path(home, DEFAULT_LOGS_PATH)),
        }
    }

    /// The level; unset reads as `info`.
    pub fn level(&self) -> (r: String)
        ensures
            self.level matches Some(l) ==> r == l,
            self.level is None ==> r@ == DEFAULT_LEVEL@,
    {
        match &self.level {
            Some(l) => l.clone(),
            None => String::from_str(DEFAULT_LEVEL),
        }
    }

    /// The directory; unset reads as the empty path.
    pub fn dir(&self) -> (r: String)
        ensures
            self.dir matches Some(d) ==> r == d,
            self.dir is None ==> r@ == Seq::<char>::empty(),
    {
        match &self.dir {
            Some(d) => d.clone(),
            None => String::new(),
        }
    }
}

#[derive(Debug)]
pub struct Config {
    pub http_port: Option<i32>,
    pub address: Option<String>,
    pub logs: Option<Logs>,
    pub secret: String,
    pub storage_path: Option<String>,
    pub nodes: Option<Vec<String>>,
}

impl Config {
    pub fn http_port(&self) -> (r: i32)
        ensures
            r == match self.http_port {
                Some(p) => p,
                None => DEFAULT_PORT,
            },
    {
        match self.http_port {
            Some(p) => p,
            None => DEFAULT_PORT,
        }
    }

    pub fn address(&self) -> (r: String)
        ensures
            self.address matches Some(a) ==> r == a,
            self.address is None ==> r@ == DEFAULT_ADDRESS@,
    {
        match &self.address {
            Some(a) => a.clone(),
            None => String::from_str(DEFAULT_ADDRESS),
        }
    }

    /// The peers to dial, none when unset.
    pub fn nodes(&self) -> (r: Vec<String>)
        ensures
            self.nodes matches Some(n) ==> r@ == n@,
            self.nodes is None ==> r@.len() == 0,
    {
        match &self.nodes {
            Some(n) => {
                let mut out: Vec<String> = Vec::new();
                let mut i: usize = 0;
                while i < n.len()
                    invariant
                        i <= n@.len(),
                        out@ == n@.subrange(0, i as int),
                    decreases n@.len() - i,
                {
                    out.push(n[i].clone());
                    i = i + 1;
                    assert(out@ =~= n@.subrange(0, i as int));
                }
                assert(n@.subrange(0, n@.len() as int) =~= n@);
                out
            },
            None => Vec::new(),
        }
    }

    pub fn secret(&self) -> (r: String)
        ensures
            r == self.secret,
    {
        self.secret.clone()
    }

    /// The storage directory; unset reads as `<home>/.xchg/storage`.
    pub fn storage_path(&self, home: &str) -> (r: String)
        ensures
            self.storage_path matches Some(p) ==> r == p,
            self.storage_path is None ==> r@ == under_home(home@, DEFAULT_STORAGE@),
    {
        match &self.storage_path {
            Some(p) => p.clone(),
            None => home_path(home, DEFAULT_STORAGE),
        }
    }

    /// The log settings; unset reads as the defaults under `home`.
    pub fn logs(&self, home: &str) -> (r: Logs)
        ensures
            self.logs matches Some(l) ==> r == l,
            self.logs is None ==> (r.level matches Some(l) && l@ == DEFAULT_LEVEL@) && (
            r.dir matches Some(d) && d@ == under_home(home@, DEFAULT_LOGS_PATH@)),
    {
        match &self.logs {
            Some(l) => l.clone(),
            None => Logs::default_under(home),
        }
    }
}

} // verus!
