//! Making a blog's database ready: what is done in which order, what may
//! fail without harm, and what stops the server from starting.

use vstd::prelude::*;
use vstd::string::StrSliceExecFns;
use crate::site::{DbPlan, DbPlanView};
use crate::text::{joined, opt_view};

verus! {

/// The address from whose parts every database address is made.
pub const PG_BASE: &'static str = "postgresql://localhost/postgres";

/// The database that every server has.
pub const PG_DEFAULT_DATABASE: &'static str = "postgres";

/// The most characters of an address that a part is set in. An address of
/// so many characters has at most 2^30 bytes.
pub const MAX_ADDRESS_CHARS: usize = 0x1000_0000;

/// The most characters of a part that is set in an address. A part grows
/// where it is set: a character of a user name, a password or a path to at
/// most 12 bytes, one of a host to some hundred at most. So a part of so
/// many characters, set in an address of the most characters, gives an
/// address of less than 2^32 bytes.
pub const MAX_PART_CHARS: usize = 0x10_0000;

/// Whether an address is short enough for a part to be set in it.
pub open spec fn fits_address(url: Seq<char>) -> bool {
    url.len() <= MAX_ADDRESS_CHARS
}

/// Whether a part is short enough to be set in an address.
pub open spec fn fits_part(part: Seq<char>) -> bool {
    part.len() <= MAX_PART_CHARS
}

/// The address `url` with its host set; nothing where the address or the host is refused.
pub uninterp spec fn url_host_set(url: Seq<char>, host: Seq<char>) -> Option<Seq<char>>;

/// The address `url` with its port set, or taken away.
pub uninterp spec fn url_port_set(url: Seq<char>, port: Option<u16>) -> Option<Seq<char>>;

/// The address `url` with its path set.
pub uninterp spec fn url_path_set(url: Seq<char>, path: Seq<char>) -> Option<Seq<char>>;

/// The address `url` with its user name set.
pub uninterp spec fn url_username_set(url: Seq<char>, username: Seq<char>) -> Option<Seq<char>>;

/// The address `url` with its password set.
pub uninterp spec fn url_password_set(url: Seq<char>, password: Seq<char>) -> Option<Seq<char>>;

/// Calls `url::Url::parse` and `Url::set_host`, and gives the address as
/// text. Trusted: the result depends on the two texts alone. The lengths
/// are bounded because the setter stops where the address grows past what
/// 32 bits count.
#[verifier::external_body]
fn set_host(url: &str, host: &str) -> (r: Option<String>)
    requires
        fits_address(url@),
        fits_part(host@),
    ensures
        opt_view(r) == url_host_set(url@, host@),
{
    let mut u = url::Url::parse(url).ok()?;
    u.set_host(Some(host)).ok()?;
    Some(u.as_str().to_owned())
}

/// Calls `url::Url::parse` and `Url::set_port`, and gives the address as
/// text. Trusted: the result depends on the text and the port alone. The
/// length is bounded because the setter stops where the address grows past
/// what 32 bits count.
#[verifier::external_body]
fn set_port(url: &str, port: Option<u16>) -> (r: Option<String>)
    requires
        fits_address(url@),
    ensures
        opt_view(r) == url_port_set(url@, port),
{
    let mut u = url::Url::parse(url).ok()?;
    u.set_port(port).ok()?;
    Some(u.as_str().to_owned())
}

/// Calls `url::Url::parse` and `Url::set_path`, and gives the address as
/// text. Trusted: the result depends on the two texts alone. The lengths
/// are bounded because the setter stops where the address grows past what
/// 32 bits count.
#[verifier::external_body]
fn set_path(url: &str, path: &str) -> (r: Option<String>)
    requires
        fits_address(url@),
        fits_part(path@),
    ensures
        opt_view(r) == url_path_set(url@, path@),
{
    let mut u = url::Url::parse(url).ok()?;
    u.set_path(path);
    Some(u.as_str().to_owned())
}

/// Calls `url::Url::parse` and `Url::set_username`, and gives the address
/// as text. Trusted: the result depends on the two texts alone. The lengths
/// are bounded because the setter stops where the address grows past what
/// 32 bits count.
#[verifier::external_body]
fn set_username(url: &str, username: &str) -> (r: Option<String>)
    requires
        fits_address(url@),
        fits_part(username@),
    ensures
        opt_view(r) == url_username_set(url@, username@),
{
    let mut u = url::Url::parse(url).ok()?;
    u.set_username(username).ok()?;
    Some(u.as_str().to_owned())
}

/// Calls `url::Url::parse` and `Url::set_password`, and gives the address
/// as text. Trusted: the result depends on the two texts alone. The lengths
/// are bounded because the setter stops where the address grows past what
/// 32 bits count.
#[verifier::external_body]
fn set_password(url: &str, password: &str) -> (r: Option<String>)
    requires
        fits_address(url@),
        fits_part(password@),
    ensures
        opt_view(r) == url_password_set(url@, password@),
{
    let mut u = url::Url::parse(url).ok()?;
    u.set_password(Some(password)).ok()?;
    Some(u.as_str().to_owned())
}

/// The address `url` with a part set by `set`, where both are short enough; else nothing.
pub open spec fn part_set(
    url: Option<Seq<char>>,
    part: Seq<char>,
    set: spec_fn(Seq<char>, Seq<char>) -> Option<Seq<char>>,
) -> Option<Seq<char>> {
    match url {
        Some(u) => if fits_address(u) && fits_part(part) {
            set(u, part)
        } else {
            None
        },
        None => None,
    }
}

/// The address `url` with its port set, where the address is short enough; else nothing.
pub open spec fn port_set(url: Option<Seq<char>>, port: Option<u16>) -> Option<Seq<char>> {
    match url {
        Some(u) => if fits_address(u) {
            url_port_set(u, port)
        } else {
            None
        },
        None => None,
    }
}

/// The address of `database` on the server of a plan: the base address
/// with, one after the other, the plan's host and port, the database as
/// the path, and the plan's user name and password set. Nothing where one
/// of them is refused, or is too long to be set.
pub open spec fn connection_string_of(plan: DbPlanView, database: Seq<char>) -> Option<Seq<char>> {
    let a = part_set(Some(PG_BASE@), plan.host, |u, p| url_host_set(u, p));
    let b = port_set(a, plan.port);
    let c = part_set(b, "/"@ + database, |u, p| url_path_set(u, p));
    let d = part_set(c, plan.username, |u, p| url_username_set(u, p));
    part_set(d, plan.password, |u, p| url_password_set(u, p))
}

/// Whether an address and a part are short enough for the part to be set.
fn both_fit(url: &str, part: &str) -> (r: bool)
    ensures
        r == (fits_address(url@) && fits_part(part@)),
{
    url.unicode_len() <= MAX_ADDRESS_CHARS && part.unicode_len() <= MAX_PART_CHARS
}

/// The address of `database` on the server of a plan.
pub fn pg_connection_string(plan: &DbPlan, database: &str) -> (r: Option<String>)
    ensures
        opt_view(r) == connection_string_of(plan@, database@),
{
    let path = joined("/", database);
    if !both_fit(PG_BASE, plan.host.as_str()) {
        return None;
    }
    let a = match set_host(PG_BASE, plan.host.as_str()) {
        Some(a) => a,
        None => {
            return None;
        },
    };
    if a.as_str().unicode_len() > MAX_ADDRESS_CHARS {
        return None;
    }
    let b = match set_port(a.as_str(), plan.port) {
        Some(b) => b,
        None => {
            return None;
        },
    };
    if !both_fit(b.as_str(), path.as_str()) {
        return None;
    }
    let c = match set_path(b.as_str(), path.as_str()) {
        Some(c) => c,
        None => {
            return None;
        },
    };
    if !both_fit(c.as_str(), plan.username.as_str()) {
        return None;
    }
    let d = match set_username(c.as_str(), plan.username.as_str()) {
        Some(d) => d,
        None => {
            return None;
        },
    };
    if !both_fit(d.as_str(), plan.password.as_str()) {
        return None;
    }
    set_password(d.as_str(), plan.password.as_str())
}

/// Where the making ready of a database stands.
#[derive(Clone, Debug, PartialEq, Eq)]
pub enum DbStep {
    /// The server is to be reached, by the database that every server has.
    ConnectServer,
    /// Whether the database exists is to be asked.
    CheckDatabase,
    /// The database is to be made.
    CreateDatabase,
    /// The database is to be reached.
    ConnectDatabase,
    /// The schema is to be brought up to date.
    Migrate,
    /// The pool of connections is to be opened.
    OpenPool,
    /// The database is ready.
    Ready,
    /// The server must not start; with the reason.
    Fatal(String),
}

pub enum DbStepView {
    ConnectServer,
    CheckDatabase,
    CreateDatabase,
    ConnectDatabase,
    Migrate,
    OpenPool,
    Ready,
    Fatal(Seq<char>),
}

impl View for DbStep {
    type V = DbStepView;

    open spec fn view(&self) -> DbStepView {
        match self {
            DbStep::ConnectServer => DbStepView::ConnectServer,
            DbStep::CheckDatabase => DbStepView::CheckDatabase,
            DbStep::CreateDatabase => DbStepView::CreateDatabase,
            DbStep::ConnectDatabase => DbStepView::ConnectDatabase,
            DbStep::Migrate => DbStepView::Migrate,
            DbStep::OpenPool => DbStepView::OpenPool,
            DbStep::Ready => DbStepView::Ready,
            DbStep::Fatal(m) => DbStepView::Fatal(m@),
        }
    }
}

/// The reason that goes with a failure: what was tried, and in brackets what came back.
pub open spec fn fatal_of(what: Seq<char>, message: Seq<char>) -> DbStepView {
    DbStepView::Fatal(what + " ("@ + message + ")"@)
}

/// The step that follows `step` once its work ended with `outcome`: the
/// number of rows that came back, or what was said of the failure.
///
/// The database is made only where the check found none. A check that
/// fails is passed over: the database may be there and only hidden. Every
/// other failure is fatal, a failed migration above all.
pub open spec fn next_step(step: DbStepView, outcome: Result<usize, Seq<char>>) -> DbStepView {
    match step {
        DbStepView::ConnectServer => match outcome {
            Ok(_) => DbStepView::CheckDatabase,
            Err(m) => fatal_of("Cannot connect to database server"@, m),
        },
        DbStepView::CheckDatabase => match outcome {
            Ok(rows) => if rows == 0 {
                DbStepView::CreateDatabase
            } else {
                DbStepView::ConnectDatabase
            },
            Err(_) => DbStepView::ConnectDatabase,
        },
        DbStepView::CreateDatabase => match outcome {
            Ok(_) => DbStepView::ConnectDatabase,
            Err(m) => fatal_of("Cannot create database"@, m),
        },
        DbStepView::ConnectDatabase => match outcome {
            Ok(_) => DbStepView::Migrate,
            Err(m) => fatal_of("Cannot connect to database"@, m),
        },
        DbStepView::Migrate => match outcome {
            Ok(_) => DbStepView::OpenPool,
            Err(m) => fatal_of("Cannot update database structure"@, m),
        },
        DbStepView::OpenPool => match outcome {
            Ok(_) => DbStepView::Ready,
            Err(m) => fatal_of("Cannot open database connections"@, m),
        },
        DbStepView::Ready => DbStepView::Ready,
        DbStepView::Fatal(m) => DbStepView::Fatal(m),
    }
}

/// What is to be done at a step.
#[derive(Clone, Debug, PartialEq, Eq)]
pub enum DbAction {
    /// Connect to the database of this name.
    Connect(String),
    /// Run this statement.
    Query(String),
    /// Apply the migrations that are pending.
    RunMigrations,
    /// Open the pool on the database of this name.
    OpenPool(String),
    /// Nothing is left to do.
    Rest,
}

pub enum DbActionView {
    Connect(Seq<char>),
    Query(Seq<char>),
    RunMigrations,
    OpenPool(Seq<char>),
    Rest,
}

impl View for DbAction {
    type V = DbActionView;

    open spec fn view(&self) -> DbActionView {
        match self {
            DbAction::Connect(d) => DbActionView::Connect(d@),
            DbAction::Query(q) => DbActionView::Query(q@),
            DbAction::RunMigrations => DbActionView::RunMigrations,
            DbAction::OpenPool(d) => DbActionView::OpenPool(d@),
            DbAction::Rest => DbActionView::Rest,
        }
    }
}

/// What is to be done at a step, for the database called `database`.
pub open spec fn action_of(step: DbStepView, database: Seq<char>) -> DbActionView {
    match step {
        DbStepView::ConnectServer => DbActionView::Connect(PG_DEFAULT_DATABASE@),
        DbStepView::CheckDatabase => DbActionView::Query(
            "SELECT datname FROM pg_database WHERE datname = '"@ + database + "'"@,
        ),
        DbStepView::CreateDatabase => DbActionView::Query("CREATE DATABASE "@ + database),
        DbStepView::ConnectDatabase => DbActionView::Connect(database),
        DbStepView::Migrate => DbActionView::RunMigrations,
        DbStepView::OpenPool => DbActionView::OpenPool(database),
        DbStepView::Ready => DbActionView::Rest,
        DbStepView::Fatal(_) => DbActionView::Rest,
    }
}

fn fatal(what: &str, message: &str) -> (r: DbStep)
    ensures
        r@ == fatal_of(what@, message@),
{
    let a = joined(what, " (");
    let b = joined(a.as_str(), message);
    DbStep::Fatal(joined(b.as_str(), ")"))
}

impl DbStep {
    /// The first step.
    pub fn new() -> (r: DbStep)
        ensures
            r@ == DbStepView::ConnectServer,
    {
        DbStep::ConnectServer
    }

    /// What is to be done at this step.
    pub fn action(&self, plan: &DbPlan) -> (r: DbAction)
        ensures
            r@ == action_of(self@, plan@.database),
    {
        match self {
            DbStep::ConnectServer => DbAction::Connect(PG_DEFAULT_DATABASE.to_owned()),
            DbStep::CheckDatabase => {
                let a = joined(
                    "SELECT datname FROM pg_database WHERE datname = '",
                    plan.database.as_str(),
                );
                DbAction::Query(joined(a.as_str(), "'"))
            },
            DbStep::CreateDatabase => DbAction::Query(
                joined("CREATE DATABASE ", plan.database.as_str()),
            ),
            DbStep::ConnectDatabase => DbAction::Connect(plan.database.clone()),
            DbStep::Migrate => DbAction::RunMigrations,
            DbStep::OpenPool => DbAction::OpenPool(plan.database.clone()),
            DbStep::Ready => DbAction::Rest,
            DbStep::Fatal(_) => DbAction::Rest,
        }
    }

    /// The step that follows once the work of this one ended with `outcome`.
    pub fn next(self, outcome: Result<usize, String>) -> (r: DbStep)
        ensures
            r@ == next_step(
                self@,
                match outcome {
                    Ok(rows) => Ok(rows),
                    Err(m) => Err(m@),
                },
            ),
    {
        match self {
            DbStep::ConnectServer => match outcome {
                Ok(_) => DbStep::CheckDatabase,
                Err(m) => fatal("Cannot connect to database server", m.as_str()),
            },
            DbStep::CheckDatabase => match outcome {
                Ok(rows) => if rows == 0 {
                    DbStep::CreateDatabase
                } else {
                    DbStep::ConnectDatabase
                },
                Err(_) => DbStep::ConnectDatabase,
            },
            DbStep::CreateDatabase => match outcome {
                Ok(_) => DbStep::ConnectDatabase,
                Err(m) => fatal("Cannot create database", m.as_str()),
            },
            DbStep::ConnectDatabase => match outcome {
                Ok(_) => DbStep::Migrate,
                Err(m) => fatal("Cannot connect to database", m.as_str()),
            },
            DbStep::Migrate => match outcome {
                Ok(_) => DbStep::OpenPool,
                Err(m) => fatal("Cannot update database structure", m.as_str()),
            },
            DbStep::OpenPool => match outcome {
                Ok(_) => DbStep::Ready,
                Err(m) => fatal("Cannot open database connections", m.as_str()),
            },
            DbStep::Ready => DbStep::Ready,
            DbStep::Fatal(m) => DbStep::Fatal(m),
        }
    }
}

} // verus!
