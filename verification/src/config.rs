use vstd::prelude::*;
use vstd::string::StringExecFns;

verus! {

/// The port that the service listens on where none is named.
pub const DEFAULT_PORT: &'static str = "8080";

/// How the service is set up.
#[derive(Debug, Clone)]
pub struct AppConfig {
    /// The directory of the script files of the user interface.
    pub ui: String,
    /// The directory of the pages and static files.
    pub pages: String,
    /// The directory of the database and the resource files.
    pub data: String,
    /// Whether each request is held back for a while, for development.
    pub slow: bool,
    /// The port that the service listens on.
    pub port: String,
}

impl AppConfig {
    /// The configuration from what was given on the command line; the port is the default
    /// where none was given.
    pub fn new(ui: String, pages: String, data: String, port: Option<String>, slow: bool) -> (config:
        Self)
        ensures
            config.ui == ui,
            config.pages == pages,
            config.data == data,
            config.slow == slow,
            config.port@ == (match port {
                Some(p) => p@,
                None => DEFAULT_PORT@,
            }),
    {
        let port = match port {
            Some(p) => p,
            None => DEFAULT_PORT.to_owned(),
        };
        AppConfig { ui, pages, data, slow, port }
    }

    /// The address that the service listens on: the local host at the configured port.
    pub fn address(&self) -> (addr: String)
        ensures
            addr@ == "127.0.0.1:"@ + self.port@,
    {
        let mut addr = "127.0.0.1:".to_owned();
        addr.append(self.port.as_str());
        addr
    }
}

} // verus!
