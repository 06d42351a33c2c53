//! The settings of the service and the addresses of its deployments.

use vstd::prelude::*;
use vstd::string::*;

use crate::cli::Environment;
use crate::client::{method_name, Method};

verus! {

/// How the service is reached: the paths of its two endpoints and the
/// methods they are called with.
#[derive(Clone, Debug)]
pub struct ApiSettings {
    pub api_uri: String,
    pub auth_uri: String,
    pub use_auth: bool,
    pub auth_method: String,
    pub api_method: String,
}

/// The method that `name` stands for: POST, PATCH, PUT or GET under these
/// very names, and POST under any other.
pub open spec fn method_named(name: Seq<char>) -> Method {
    if name == "POST"@ {
        Method::Post
    } else if name == "PATCH"@ {
        Method::Patch
    } else if name == "PUT"@ {
        Method::Put
    } else if name == "GET"@ {
        Method::Get
    } else {
        Method::Post
    }
}

/// Every method is found again under the name it is written with.
pub proof fn law_method_is_found_by_its_name(method: Method)
    ensures
        method_named(method_name(method)) == method,
{
    reveal_strlit("POST");
    reveal_strlit("PATCH");
    reveal_strlit("PUT");
    reveal_strlit("GET");
    assert("POST"@.len() == 4 && "PATCH"@.len() == 5 && "PUT"@.len() == 3 && "GET"@.len() == 3);
    assert("PUT"@[0] == 'P' && "GET"@[0] == 'G');
}

impl ApiSettings {
    /// The method of the authentication call.
    pub fn auth_method(&self) -> (method: Option<Method>)
        ensures
            method == Some(method_named(self.auth_method@)),
    {
        Some(self.map_method(&self.auth_method))
    }

    /// The method of the call that updates a record.
    pub fn api_method(&self) -> (method: Option<Method>)
        ensures
            method == Some(method_named(self.api_method@)),
    {
        Some(self.map_method(&self.api_method))
    }

    /// The method that `method` names.
    pub fn map_method(&self, method: &String) -> (mapped: Method)
        ensures
            mapped == method_named(method@),
    {
        if *method == String::from_str("POST") {
            Method::Post
        } else if *method == String::from_str("PATCH") {
            Method::Patch
        } else if *method == String::from_str("PUT") {
            Method::Put
        } else if *method == String::from_str("GET") {
            Method::Get
        } else {
            Method::Post
        }
    }
}

/// The account the run authenticates as.
#[derive(Clone, Debug)]
pub struct AuthCredentials {
    pub auth_user: String,
    pub auth_password: String,
}

/// The address of a host in each environment that has one.
#[derive(Clone, Debug)]
pub struct UrlTable {
    prod: Option<String>,
    stage: Option<String>,
    sandbox: Option<String>,
    dev: Option<String>,
}

impl UrlTable {
    spec fn entry(&self, env: Environment) -> Option<String> {
        match env {
            Environment::PROD => self.prod,
            Environment::STAGE => self.stage,
            Environment::SANDBOX => self.sandbox,
            Environment::DEV => self.dev,
        }
    }
}

impl View for UrlTable {
    type V = Map<Environment, Seq<char>>;

    closed spec fn view(&self) -> Map<Environment, Seq<char>> {
        Map::new(|env: Environment| self.entry(env) is Some, |env: Environment| self.entry(env)->0@)
    }
}

impl UrlTable {
    /// The table without any address.
    pub fn new() -> (table: UrlTable)
        ensures
            table@ == Map::<Environment, Seq<char>>::empty(),
    {
        let table = UrlTable { prod: None, stage: None, sandbox: None, dev: None };
        table
    }

    /// Sets the address of `env` to `url` and returns the address it had.
    pub fn insert(&mut self, env: Environment, url: String) -> (previous: Option<String>)
        ensures
            final(self)@ == old(self)@.insert(env, url@),
            match previous {
                Some(address) => old(self)@.contains_key(env) && old(self)@[env] == address@,
                None => !old(self)@.contains_key(env),
            },
    {
        let mut slot = Some(url);
        match env {
            Environment::PROD => std::mem::swap(&mut self.prod, &mut slot),
            Environment::STAGE => std::mem::swap(&mut self.stage, &mut slot),
            Environment::SANDBOX => std::mem::swap(&mut self.sandbox, &mut slot),
            Environment::DEV => std::mem::swap(&mut self.dev, &mut slot),
        }
        slot
    }

    /// Whether `env` has an address.
    pub fn contains_key(&self, env: Environment) -> (present: bool)
        ensures
            present == self@.contains_key(env),
    {
        self.get(env).is_some()
    }

    /// The address of `env`, if it has one.
    pub fn get(&self, env: Environment) -> (address: Option<&String>)
        ensures
            match address {
                Some(url) => self@.contains_key(env) && self@[env] == url@,
                None => !self@.contains_key(env),
            },
    {
        match env {
            Environment::PROD => self.prod.as_ref(),
            Environment::STAGE => self.stage.as_ref(),
            Environment::SANDBOX => self.sandbox.as_ref(),
            Environment::DEV => self.dev.as_ref(),
        }
    }
}

/// Everything a run is configured with.
#[derive(Clone, Debug)]
pub struct Configuration {
    pub api_settings: ApiSettings,
    pub auth_credentials: AuthCredentials,
    pub api_url: UrlTable,
    pub auth_url: UrlTable,
}

/// The address of an endpoint: the host, a slash, the path.
pub open spec fn endpoint(host: Seq<char>, path: Seq<char>) -> Seq<char> {
    host + "/"@ + path
}

fn join_endpoint(host: &String, path: &String) -> (url: String)
    ensures
        url@ == endpoint(host@, path@),
{
    let mut url = host.clone();
    url.append("/");
    url.append(path.as_str());
    url
}

impl Configuration {
    /// The address that updates a record in `env`.
    pub fn api_endpoint(&self, env: Environment) -> (url: String)
        requires
            self.api_url@.contains_key(env),
        ensures
            url@ == endpoint(self.api_url@[env], self.api_settings.api_uri@),
    {
        match self.api_url.get(env) {
            Some(host) => join_endpoint(host, &self.api_settings.api_uri),
            None => String::new(),
        }
    }

    /// The address that grants a credential in `env`.
    pub fn auth_endpoint(&self, env: Environment) -> (url: String)
        requires
            self.auth_url@.contains_key(env),
        ensures
            url@ == endpoint(self.auth_url@[env], self.api_settings.auth_uri@),
    {
        match self.auth_url.get(env) {
            Some(host) => join_endpoint(host, &self.api_settings.auth_uri),
            None => String::new(),
        }
    }
}

} // verus!
