use vstd::prelude::*;

verus! {

/// Settings the server starts with.
pub struct AppConfig {
    pub server: Server,
    pub database: Database,
}

/// Where the server listens.
pub struct Server {
    pub addr: String,
    pub port: u16,
}

/// Where the database is.
pub struct Database {
    pub url: String,
}

} // verus!
