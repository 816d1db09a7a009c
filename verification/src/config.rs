//! The configuration of the service, read from pairs of names and values as
//! the environment holds them.

use crate::text::{parse_number, parsed_number, same_text};
use vstd::prelude::*;

verus! {

/// A port number.
#[derive(Clone, Copy, Debug, PartialEq, Eq, Structural)]
pub struct Port(pub u16);

/// Where the database is and who asks.
#[derive(Debug)]
pub struct DatabaseAuthorizationInfo {
    pub host: String,
    pub port: Port,
    pub user: String,
    pub password: String,
}

/// Where the service listens.
#[derive(Debug)]
pub struct HttpConfig {
    pub host: String,
    pub port: Port,
}

/// The whole configuration.
#[derive(Debug)]
pub struct Config {
    pub database_authorization: DatabaseAuthorizationInfo,
    pub http_config: HttpConfig,
}

/// A field of the configuration.
#[derive(Clone, Copy, Debug, PartialEq, Eq, Structural)]
pub enum ConfigField {
    Host,
    Port,
    User,
    Password,
}

/// Why no configuration could be read.
#[derive(Clone, Copy, Debug, PartialEq, Eq, Structural)]
pub enum ConfigError {
    /// No variable gives this field.
    MissingValue(ConfigField),
    /// More than one variable gives this field.
    DuplicateField(ConfigField),
    /// The variable of the port holds no number from 0 to 65535.
    InvalidPort,
    /// A variable could not be read at all.
    Unreadable,
}

/// The error type of `envy`.
#[verifier::external_type_specification]
#[verifier::external_body]
pub struct ExEnvyError(envy::Error);

/// Names and values as plain text.
pub open spec fn pairs_view(pairs: Seq<(String, String)>) -> Seq<(Seq<char>, Seq<char>)> {
    Seq::new(pairs.len(), |i: int| (pairs[i].0@, pairs[i].1@))
}

/// What `envy` makes of one variable under a prefix: nothing if it fails;
/// else either that it passes the variable over, or the field that the
/// variable gives, with its value.
pub uninterp spec fn prefixed_field(prefix: Seq<char>, name: Seq<char>, value: Seq<char>) -> Option<
    Option<(Seq<char>, Seq<char>)>,
>;

/// A pair or none, as plain text.
pub open spec fn pair_view(pair: Option<(String, String)>) -> Option<(Seq<char>, Seq<char>)> {
    match pair {
        Some(found) => Some((found.0@, found.1@)),
        None => None,
    }
}

/// Calls `envy::prefixed(prefix).from_iter(..)` on one variable, for a map
/// from text to text, and hands out the map's entry if it has one. `envy`
/// passes a variable over unless its name begins with the prefix; else it
/// takes the prefix off the name and puts the rest in lower case. The
/// contract only names the outcome: it is the same for the same prefix,
/// name and value.
#[verifier::external_body]
fn field_of_variable(prefix: &str, name: &str, value: &str) -> (field: Result<
    Option<(String, String)>,
    envy::Error,
>)
    ensures
        match field {
            Ok(found) => prefixed_field(prefix@, name@, value@) == Some(pair_view(found)),
            Err(_) => prefixed_field(prefix@, name@, value@).is_none(),
        },
{
    let found: std::collections::BTreeMap<String, String> = envy::prefixed(prefix).from_iter(
        std::iter::once((name.to_owned(), value.to_owned())),
    )?;
    Ok(found.into_iter().next())
}

/// The fields that the first `count` variables give under a prefix, in the
/// order of the variables; nothing if one of them cannot be read.
pub open spec fn prefixed_fields(
    prefix: Seq<char>,
    pairs: Seq<(Seq<char>, Seq<char>)>,
    count: int,
) -> Option<Seq<(Seq<char>, Seq<char>)>>
    decreases count,
{
    if count <= 0 {
        Some(Seq::empty())
    } else {
        match (
            prefixed_fields(prefix, pairs, count - 1),
            prefixed_field(prefix, pairs[count - 1].0, pairs[count - 1].1),
        ) {
            (Some(before), Some(Some(field))) => Some(before.push(field)),
            (Some(before), Some(None)) => Some(before),
            _ => None,
        }
    }
}

/// Reads the fields that the variables give under a prefix.
fn fields_with_prefix(prefix: &str, pairs: &Vec<(String, String)>) -> (fields: Option<
    Vec<(String, String)>,
>)
    ensures
        pair_views(fields) == prefixed_fields(prefix@, pairs_view(pairs@), pairs@.len() as int),
{
    let n = pairs.len();
    let mut fields: Vec<(String, String)> = Vec::new();
    let mut i: usize = 0;
    while i < n
        invariant
            i <= n,
            n == pairs@.len(),
            prefixed_fields(prefix@, pairs_view(pairs@), i as int) == Some(pairs_view(fields@)),
        decreases n - i,
    {
        let ghost before = pairs_view(fields@);
        match field_of_variable(prefix, pairs[i].0.as_str(), pairs[i].1.as_str()) {
            Ok(Some(field)) => {
                fields.push(field);
                proof {
                    assert(pairs_view(fields@) =~= before.push((field.0@, field.1@)));
                }
            },
            Ok(None) => {},
            Err(_) => {
                proof {
                    lemma_unreadable_stays(prefix@, pairs_view(pairs@), i + 1, n as int);
                }
                return None;
            },
        }
        i = i + 1;
    }
    Some(fields)
}

/// Pairs or none, as plain text.
pub open spec fn pair_views(pairs: Option<Vec<(String, String)>>) -> Option<
    Seq<(Seq<char>, Seq<char>)>,
> {
    match pairs {
        Some(found) => Some(pairs_view(found@)),
        None => None,
    }
}

/// Once a variable cannot be read, no more variables make up for it.
proof fn lemma_unreadable_stays(
    prefix: Seq<char>,
    pairs: Seq<(Seq<char>, Seq<char>)>,
    count: int,
    later: int,
)
    requires
        0 <= count <= later,
        prefixed_fields(prefix, pairs, count).is_none(),
    ensures
        prefixed_fields(prefix, pairs, later).is_none(),
    decreases later - count,
{
    if count < later {
        lemma_unreadable_stays(prefix, pairs, count, later - 1);
    }
}

/// The field of the configuration that a name stands for. The database's
/// part knows `host`, `port`, `user` and `password`; the service's part
/// knows `host` and `port` only.
pub open spec fn known_field(name: Seq<char>, with_credentials: bool) -> Option<ConfigField> {
    if name == "host"@ {
        Some(ConfigField::Host)
    } else if name == "port"@ {
        Some(ConfigField::Port)
    } else if with_credentials && name == "user"@ {
        Some(ConfigField::User)
    } else if with_credentials && name == "password"@ {
        Some(ConfigField::Password)
    } else {
        None
    }
}

/// Whether one of the first `count` pairs stands for the field `field`.
pub open spec fn seen(
    fields: Seq<(Seq<char>, Seq<char>)>,
    with_credentials: bool,
    field: ConfigField,
    count: int,
) -> bool
    decreases count,
{
    count > 0 && (known_field(fields[count - 1].0, with_credentials) == Some(field) || seen(
        fields,
        with_credentials,
        field,
        count - 1,
    ))
}

/// The value of the first among the first `count` pairs that stands for the
/// field `field`; the empty text if there is none.
pub open spec fn first_value(
    fields: Seq<(Seq<char>, Seq<char>)>,
    with_credentials: bool,
    field: ConfigField,
    count: int,
) -> Seq<char>
    decreases count,
{
    if count <= 0 {
        Seq::empty()
    } else if seen(fields, with_credentials, field, count - 1) {
        first_value(fields, with_credentials, field, count - 1)
    } else if known_field(fields[count - 1].0, with_credentials) == Some(field) {
        fields[count - 1].1
    } else {
        Seq::empty()
    }
}

/// What is wrong with the pair at `position`, if anything: it stands for a
/// field that an earlier pair stands for too, or it stands for the port and
/// holds no port.
pub open spec fn problem_at(
    fields: Seq<(Seq<char>, Seq<char>)>,
    with_credentials: bool,
    position: int,
) -> Option<ConfigError> {
    match known_field(fields[position].0, with_credentials) {
        Some(field) => if seen(fields, with_credentials, field, position) {
            Some(ConfigError::DuplicateField(field))
        } else if field == ConfigField::Port && parsed_number(fields[position].1, 65535).is_none() {
            Some(ConfigError::InvalidPort)
        } else {
            None
        },
        None => None,
    }
}

/// What is wrong with the first of the first `count` pairs with which
/// something is wrong.
pub open spec fn first_problem(
    fields: Seq<(Seq<char>, Seq<char>)>,
    with_credentials: bool,
    count: int,
) -> Option<ConfigError>
    decreases count,
{
    if count <= 0 {
        None
    } else {
        match first_problem(fields, with_credentials, count - 1) {
            Some(problem) => Some(problem),
            None => problem_at(fields, with_credentials, count - 1),
        }
    }
}

/// Why the pairs do not make up a part of the configuration, if they do
/// not: what is wrong with a pair comes before any missing field, and of the
/// missing fields the first of host, port, user, password is named.
pub open spec fn fields_error(fields: Seq<(Seq<char>, Seq<char>)>, with_credentials: bool) -> Option<
    ConfigError,
> {
    let n = fields.len() as int;
    if first_problem(fields, with_credentials, n).is_some() {
        first_problem(fields, with_credentials, n)
    } else if !seen(fields, with_credentials, ConfigField::Host, n) {
        Some(ConfigError::MissingValue(ConfigField::Host))
    } else if !seen(fields, with_credentials, ConfigField::Port, n) {
        Some(ConfigError::MissingValue(ConfigField::Port))
    } else if with_credentials && !seen(fields, with_credentials, ConfigField::User, n) {
        Some(ConfigError::MissingValue(ConfigField::User))
    } else if with_credentials && !seen(fields, with_credentials, ConfigField::Password, n) {
        Some(ConfigError::MissingValue(ConfigField::Password))
    } else {
        None
    }
}

/// The port that the pairs give: the number that the value of the field
/// `port` spells.
pub open spec fn port_of(fields: Seq<(Seq<char>, Seq<char>)>, with_credentials: bool) -> Option<
    u64,
> {
    parsed_number(
        first_value(fields, with_credentials, ConfigField::Port, fields.len() as int),
        65535,
    )
}

/// The field that a name stands for.
fn field_named(name: &str, with_credentials: bool) -> (field: Option<ConfigField>)
    ensures
        field == known_field(name@, with_credentials),
{
    if same_text(name, "host") {
        Some(ConfigField::Host)
    } else if same_text(name, "port") {
        Some(ConfigField::Port)
    } else if with_credentials && same_text(name, "user") {
        Some(ConfigField::User)
    } else if with_credentials && same_text(name, "password") {
        Some(ConfigField::Password)
    } else {
        None
    }
}

/// The values that pairs give for the fields of the configuration.
struct Collected {
    host: Option<String>,
    port: Option<u16>,
    user: Option<String>,
    password: Option<String>,
}

/// Whether `value` holds what the first `count` pairs give for `field`.
spec fn holds_text(
    value: Option<String>,
    fields: Seq<(Seq<char>, Seq<char>)>,
    with_credentials: bool,
    field: ConfigField,
    count: int,
) -> bool {
    &&& value.is_some() == seen(fields, with_credentials, field, count)
    &&& value.is_some() ==> value.unwrap()@ == first_value(fields, with_credentials, field, count)
}

/// Whether `port` holds the port that the first `count` pairs give.
spec fn holds_port(
    port: Option<u16>,
    fields: Seq<(Seq<char>, Seq<char>)>,
    with_credentials: bool,
    count: int,
) -> bool {
    &&& port.is_some() == seen(fields, with_credentials, ConfigField::Port, count)
    &&& port.is_some() ==> parsed_number(
        first_value(fields, with_credentials, ConfigField::Port, count),
        65535,
    ) == Some(port.unwrap() as u64)
}

/// Goes through the pairs in their order and keeps the value of each known
/// field, until something is wrong with a pair.
fn collect(fields: &Vec<(String, String)>, with_credentials: bool) -> (r: Result<
    Collected,
    ConfigError,
>)
    ensures
        match r {
            Ok(found) => {
                let plain = pairs_view(fields@);
                let n = fields@.len() as int;
                &&& first_problem(plain, with_credentials, n).is_none()
                &&& holds_text(found.host, plain, with_credentials, ConfigField::Host, n)
                &&& holds_port(found.port, plain, with_credentials, n)
                &&& holds_text(found.user, plain, with_credentials, ConfigField::User, n)
                &&& holds_text(found.password, plain, with_credentials, ConfigField::Password, n)
            },
            Err(e) => first_problem(pairs_view(fields@), with_credentials, fields@.len() as int)
                == Some(e),
        },
{
    let n = fields.len();
    let ghost plain = pairs_view(fields@);
    let mut found = Collected { host: None, port: None, user: None, password: None };
    let mut i: usize = 0;
    while i < n
        invariant
            i <= n,
            n == fields@.len(),
            plain == pairs_view(fields@),
            first_problem(plain, with_credentials, i as int).is_none(),
            holds_text(found.host, plain, with_credentials, ConfigField::Host, i as int),
            holds_port(found.port, plain, with_credentials, i as int),
            holds_text(found.user, plain, with_credentials, ConfigField::User, i as int),
            holds_text(found.password, plain, with_credentials, ConfigField::Password, i as int),
        decreases n - i,
    {
        let field = field_named(fields[i].0.as_str(), with_credentials);
        let mut problem: Option<ConfigError> = None;
        match field {
            Some(ConfigField::Host) => {
                if found.host.is_some() {
                    problem = Some(ConfigError::DuplicateField(ConfigField::Host));
                } else {
                    found.host = Some(fields[i].1.clone());
                }
            },
            Some(ConfigField::Port) => {
                if found.port.is_some() {
                    problem = Some(ConfigError::DuplicateField(ConfigField::Port));
                } else {
                    match parse_number(fields[i].1.as_str(), 65535) {
                        Some(number) => {
                            found.port = Some(number as u16);
                        },
                        None => {
                            problem = Some(ConfigError::InvalidPort);
                        },
                    }
                }
            },
            Some(ConfigField::User) => {
                if found.user.is_some() {
                    problem = Some(ConfigError::DuplicateField(ConfigField::User));
                } else {
                    found.user = Some(fields[i].1.clone());
                }
            },
            Some(ConfigField::Password) => {
                if found.password.is_some() {
                    problem = Some(ConfigError::DuplicateField(ConfigField::Password));
                } else {
                    found.password = Some(fields[i].1.clone());
                }
            },
            None => {},
        }
        proof {
            assert(plain[i as int] == (fields@[i as int].0@, fields@[i as int].1@));
            assert(problem == problem_at(plain, with_credentials, i as int));
        }
        match problem {
            Some(e) => {
                proof {
                    lemma_problem_stays(plain, with_credentials, i + 1, n as int);
                }
                return Err(e);
            },
            None => {},
        }
        i = i + 1;
    }
    Ok(found)
}

/// The first problem stays the first problem as more pairs are looked at.
proof fn lemma_problem_stays(
    fields: Seq<(Seq<char>, Seq<char>)>,
    with_credentials: bool,
    count: int,
    later: int,
)
    requires
        0 <= count <= later,
        first_problem(fields, with_credentials, count).is_some(),
    ensures
        first_problem(fields, with_credentials, later) == first_problem(
            fields,
            with_credentials,
            count,
        ),
    decreases later - count,
{
    if count < later {
        lemma_problem_stays(fields, with_credentials, count, later - 1);
    }
}

/// Whether `info` is the database's part that the pairs make up.
pub open spec fn is_database_info(
    info: DatabaseAuthorizationInfo,
    fields: Seq<(Seq<char>, Seq<char>)>,
) -> bool {
    let n = fields.len() as int;
    &&& fields_error(fields, true).is_none()
    &&& info.host@ == first_value(fields, true, ConfigField::Host, n)
    &&& port_of(fields, true) == Some(info.port.0 as u64)
    &&& info.user@ == first_value(fields, true, ConfigField::User, n)
    &&& info.password@ == first_value(fields, true, ConfigField::Password, n)
}

/// Whether `http` is the service's part that the pairs make up.
pub open spec fn is_http_config(http: HttpConfig, fields: Seq<(Seq<char>, Seq<char>)>) -> bool {
    let n = fields.len() as int;
    &&& fields_error(fields, false).is_none()
    &&& http.host@ == first_value(fields, false, ConfigField::Host, n)
    &&& port_of(fields, false) == Some(http.port.0 as u64)
}

impl DatabaseAuthorizationInfo {
    /// Makes the database's part of the configuration from its fields
    /// `host`, `port`, `user` and `password`, each given once. Pairs of
    /// other names are passed over.
    pub fn from_fields(fields: &Vec<(String, String)>) -> (r: Result<Self, ConfigError>)
        ensures
            match r {
                Ok(info) => is_database_info(info, pairs_view(fields@)),
                Err(e) => fields_error(pairs_view(fields@), true) == Some(e),
            },
    {
        let found = match collect(fields, true) {
            Ok(found) => found,
            Err(e) => {
                return Err(e);
            },
        };
        let host = match found.host {
            Some(text) => text,
            None => {
                return Err(ConfigError::MissingValue(ConfigField::Host));
            },
        };
        let port = match found.port {
            Some(number) => Port(number),
            None => {
                return Err(ConfigError::MissingValue(ConfigField::Port));
            },
        };
        let user = match found.user {
            Some(text) => text,
            None => {
                return Err(ConfigError::MissingValue(ConfigField::User));
            },
        };
        let password = match found.password {
            Some(text) => text,
            None => {
                return Err(ConfigError::MissingValue(ConfigField::Password));
            },
        };
        Ok(DatabaseAuthorizationInfo { host, port, user, password })
    }

    /// Reads the database's part of the configuration from the variables
    /// whose name begins with `DB_`.
    pub fn from_iter(pairs: &Vec<(String, String)>) -> (r: Result<Self, ConfigError>)
        ensures
            match prefixed_fields("DB_"@, pairs_view(pairs@), pairs@.len() as int) {
                Some(fields) => match r {
                    Ok(info) => is_database_info(info, fields),
                    Err(e) => fields_error(fields, true) == Some(e),
                },
                None => r.is_err() && r.unwrap_err() == ConfigError::Unreadable,
            },
    {
        match fields_with_prefix("DB_", pairs) {
            Some(fields) => Self::from_fields(&fields),
            None => Err(ConfigError::Unreadable),
        }
    }
}

impl HttpConfig {
    /// Makes the service's part of the configuration from its fields `host`
    /// and `port`, each given once. Pairs of other names are passed over.
    pub fn from_fields(fields: &Vec<(String, String)>) -> (r: Result<Self, ConfigError>)
        ensures
            match r {
                Ok(http) => is_http_config(http, pairs_view(fields@)),
                Err(e) => fields_error(pairs_view(fields@), false) == Some(e),
            },
    {
        let found = match collect(fields, false) {
            Ok(found) => found,
            Err(e) => {
                return Err(e);
            },
        };
        let host = match found.host {
            Some(text) => text,
            None => {
                return Err(ConfigError::MissingValue(ConfigField::Host));
            },
        };
        let port = match found.port {
            Some(number) => Port(number),
            None => {
                return Err(ConfigError::MissingValue(ConfigField::Port));
            },
        };
        Ok(HttpConfig { host, port })
    }

    /// Reads the service's part of the configuration from the variables
    /// whose name begins with `HTTP_`.
    pub fn from_iter(pairs: &Vec<(String, String)>) -> (r: Result<Self, ConfigError>)
        ensures
            match prefixed_fields("HTTP_"@, pairs_view(pairs@), pairs@.len() as int) {
                Some(fields) => match r {
                    Ok(http) => is_http_config(http, fields),
                    Err(e) => fields_error(fields, false) == Some(e),
                },
                None => r.is_err() && r.unwrap_err() == ConfigError::Unreadable,
            },
    {
        match fields_with_prefix("HTTP_", pairs) {
            Some(fields) => Self::from_fields(&fields),
            None => Err(ConfigError::Unreadable),
        }
    }
}

/// Why variables give no configuration, if they give none: what is wrong
/// with the database's part, or else with the service's part.
pub open spec fn config_error(pairs: Seq<(Seq<char>, Seq<char>)>) -> Option<ConfigError> {
    match prefixed_fields("DB_"@, pairs, pairs.len() as int) {
        None => Some(ConfigError::Unreadable),
        Some(database) => if fields_error(database, true).is_some() {
            fields_error(database, true)
        } else {
            match prefixed_fields("HTTP_"@, pairs, pairs.len() as int) {
                None => Some(ConfigError::Unreadable),
                Some(http) => fields_error(http, false),
            }
        },
    }
}

impl Config {
    /// Reads the configuration from variables: the database's part from the
    /// names that begin with `DB_`, the service's part from those that begin
    /// with `HTTP_`.
    pub fn from_iter(pairs: Vec<(String, String)>) -> (r: Result<Self, ConfigError>)
        ensures
            match r {
                Ok(config) => {
                    let n = pairs@.len() as int;
                    &&& config_error(pairs_view(pairs@)).is_none()
                    &&& is_database_info(
                        config.database_authorization,
                        prefixed_fields("DB_"@, pairs_view(pairs@), n).unwrap(),
                    )
                    &&& is_http_config(
                        config.http_config,
                        prefixed_fields("HTTP_"@, pairs_view(pairs@), n).unwrap(),
                    )
                },
                Err(e) => config_error(pairs_view(pairs@)) == Some(e),
            },
    {
        let database_authorization = match DatabaseAuthorizationInfo::from_iter(&pairs) {
            Ok(info) => info,
            Err(e) => {
                return Err(e);
            },
        };
        let http_config = match HttpConfig::from_iter(&pairs) {
            Ok(http) => http,
            Err(e) => {
                return Err(e);
            },
        };
        Ok(Config { database_authorization, http_config })
    }
}

} // verus!
