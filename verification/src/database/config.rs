//! Database settings and the computations around the database utilities:
//! the connection pragmas, the size of the file, the integrity verdict and
//! the row-count query of a table.

use vstd::prelude::*;
use crate::text::{owned, push_str, str_eq};

verus! {

/// Connection and pool settings; the timeouts are whole seconds.
#[derive(Debug, Clone)]
pub struct DatabaseConfig {
    pub database_url: String,
    pub max_connections: u32,
    pub min_connections: u32,
    pub connect_timeout: u64,
    pub idle_timeout: u64,
    pub max_lifetime: u64,
}

impl DatabaseConfig {
    /// The default settings apart from the URL.
    pub open spec fn defaults_with(&self, url: Seq<char>) -> bool {
        &&& self.database_url@ == url
        &&& self.max_connections == 10
        &&& self.min_connections == 1
        &&& self.connect_timeout == 30
        &&& self.idle_timeout == 600
        &&& self.max_lifetime == 1800
    }

    /// The default settings for `database_url`.
    pub fn new(database_url: String) -> (r: Self)
        ensures
            r.defaults_with(database_url@),
    {
        DatabaseConfig {
            database_url,
            max_connections: 10,
            min_connections: 1,
            connect_timeout: 30,
            idle_timeout: 600,
            max_lifetime: 1800,
        }
    }

    /// The same settings with another pool size.
    pub fn with_connection_pool(self, max_connections: u32) -> (r: Self)
        ensures
            r == (DatabaseConfig { max_connections, ..self }),
    {
        DatabaseConfig { max_connections, ..self }
    }
}

impl Default for DatabaseConfig {
    fn default() -> (r: Self)
        ensures
            r.defaults_with("sqlite:./lottery.db"@),
    {
        DatabaseConfig::new(owned("sqlite:./lottery.db"))
    }
}

/// Helpers around the database file.
pub struct DatabaseUtils;

impl DatabaseUtils {
    /// The statements run on each new connection: write-ahead logging,
    /// foreign keys, normal synchronisation, a larger cache and temporary
    /// tables in memory.
    pub fn connection_pragmas() -> (r: Vec<&'static str>)
        ensures
            r@.len() == 5,
            r@[0]@ == "PRAGMA journal_mode=WAL"@,
            r@[1]@ == "PRAGMA foreign_keys=ON"@,
            r@[2]@ == "PRAGMA synchronous=NORMAL"@,
            r@[3]@ == "PRAGMA cache_size=10000"@,
            r@[4]@ == "PRAGMA temp_store=MEMORY"@,
    {
        let mut v: Vec<&'static str> = Vec::new();
        v.push("PRAGMA journal_mode=WAL");
        v.push("PRAGMA foreign_keys=ON");
        v.push("PRAGMA synchronous=NORMAL");
        v.push("PRAGMA cache_size=10000");
        v.push("PRAGMA temp_store=MEMORY");
        v
    }

    /// The size of the database in bytes: the page size times the page count.
    pub fn database_size_bytes(page_size: i64, page_count: i64) -> (r: i64)
        requires
            i64::MIN <= page_size * page_count <= i64::MAX,
        ensures
            r == page_size * page_count,
    {
        page_size * page_count
    }

    /// The integrity check passes when it reports exactly `ok`.
    pub fn integrity_verdict(result: &str) -> (r: bool)
        ensures
            r == (result@ == "ok"@),
    {
        str_eq(result, "ok")
    }

    /// The query counting the rows of a table.
    pub fn table_count_query(table_name: &str) -> (r: String)
        ensures
            r@ == "SELECT COUNT(*) FROM "@ + table_name@,
    {
        let mut q = owned("SELECT COUNT(*) FROM ");
        push_str(&mut q, table_name);
        q
    }
}

} // verus!
