//! Download counts of registry packages as metrics.
//!
//! The version page of a package lists its versions with their download counts. This
//! library reads the list of packages to poll ([`config`]), names the request that fetches a
//! page ([`request`]), extracts the records of a page ([`markup`], [`extract`], [`count`]),
//! maps them to the data points of a gauge ([`publish`], [`pipeline`]) and says in which
//! order a metrics session ([`publish`]) and a whole run ([`run`]) proceed. Fetching and
//! exporting themselves are left to the program that uses the library.

pub mod chars;
pub mod config;
pub mod count;
pub mod extract;
pub mod markup;
pub mod pipeline;
pub mod publish;
pub mod record;
pub mod request;
pub mod run;
