use vstd::prelude::*;
use crate::decimal::{
    decimal, decimal_value, is_digit, lemma_decimal_injective, lemma_decimal_notation, push_decimal,
};
use crate::secret::{secret_text, Secret};

verus! {

/// Where the database lives and how to log into it.
pub struct DbSettings {
    pub username: String,
    pub password: Secret,
    pub db_name: String,
    pub host: String,
    pub port: u16,
    pub pool_size: u16,
}

/// The connection URL `postgres://{username}:{password}@{host}:{port}/{db_name}`.
pub open spec fn postgres_url(
    username: Seq<char>,
    password: Seq<char>,
    host: Seq<char>,
    port: nat,
    db_name: Seq<char>,
) -> Seq<char> {
    "postgres://"@ + username + ":"@ + password + "@"@ + host + ":"@ + decimal(port) + "/"@
        + db_name
}

/// The connection URL is, for every input, the scheme `postgres://`, the
/// user, `:`, the password, `@`, the host, `:`, the port in standard base-10
/// notation (ASCII digits only, no leading zero, reading back as the port),
/// then `/` and the database name, which ends the URL.
pub proof fn lemma_postgres_url_layout(
    username: Seq<char>,
    password: Seq<char>,
    host: Seq<char>,
    port: nat,
    db_name: Seq<char>,
)
    ensures
        ({
            let url = postgres_url(username, password, host, port, db_name);
            let head = "postgres://"@ + username + ":"@ + password + "@"@ + host + ":"@;
            let slash = url.len() - db_name.len() - 1;
            &&& url.len() >= head.len() + 2 + db_name.len()
            &&& url.subrange(0, head.len() as int) == head
            &&& forall|i: int| head.len() <= i < slash ==> is_digit(#[trigger] url[i])
            &&& decimal_value(url.subrange(head.len() as int, slash)) == port
            &&& slash > head.len() + 1 ==> url[head.len() as int] != '0'
            &&& url[slash] == '/'
            &&& url.subrange(slash + 1, url.len() as int) == db_name
        }),
{
    reveal_strlit("/");
    lemma_decimal_notation(port);
    let url = postgres_url(username, password, host, port, db_name);
    let head = "postgres://"@ + username + ":"@ + password + "@"@ + host + ":"@;
    let d = decimal(port);
    assert(url == head + d + "/"@ + db_name);
    let slash = url.len() - db_name.len() - 1;
    assert(slash == head.len() + d.len());
    assert(url.subrange(0, head.len() as int) =~= head);
    assert(url.subrange(head.len() as int, slash) =~= d);
    assert forall|i: int| head.len() <= i < slash implies is_digit(#[trigger] url[i]) by {
        assert(url[i] == d[i - head.len()]);
    }
    assert(url[slash] == '/');
    assert(url.subrange(slash + 1, url.len() as int) =~= db_name);
    assert(slash > head.len() + 1 ==> url[head.len() as int] == d[0]);
}

impl DbSettings {
    /// The connection URL of these settings.
    pub open spec fn url(&self) -> Seq<char> {
        postgres_url(
            self.username@,
            secret_text(self.password),
            self.host@,
            self.port as nat,
            self.db_name@,
        )
    }

    /// The connection URL, itself kept secret since it holds the password.
    pub fn to_url(&self) -> (url: Secret)
        ensures
            secret_text(url) == self.url(),
            secret_text(url).len() > self.db_name@.len(),
            secret_text(url)[secret_text(url).len() - self.db_name@.len() - 1] == '/',
            secret_text(url).subrange(
                secret_text(url).len() - self.db_name@.len(),
                secret_text(url).len() as int,
            ) == self.db_name@,
    {
        proof {
            lemma_postgres_url_layout(
                self.username@,
                secret_text(self.password),
                self.host@,
                self.port as nat,
                self.db_name@,
            );
        }
        let mut s = String::from_str("postgres://");
        s.append(self.username.as_str());
        s.append(":");
        s.append(self.password.expose_secret());
        s.append("@");
        s.append(self.host.as_str());
        s.append(":");
        push_decimal(&mut s, self.port);
        s.append("/");
        s.append(self.db_name.as_str());
        Secret::new(s)
    }
}

/// Where the service listens.
pub struct AppSettings {
    pub host: String,
    pub port: u16,
}

impl AppSettings {
    /// The address `{host}:{port}` that the service binds to.
    pub fn bind_address(&self) -> (address: String)
        ensures
            address@ == self.host@ + ":"@ + decimal(self.port as nat),
            address@.len() > self.host@.len() + 1,
            address@.subrange(0, self.host@.len() as int) == self.host@,
            address@[self.host@.len() as int] == ':',
            forall|i: int|
                self.host@.len() + 1 <= i < address@.len() ==> is_digit(#[trigger] address@[i]),
            decimal_value(address@.subrange(self.host@.len() + 1int, address@.len() as int))
                == self.port,
            address@.len() > self.host@.len() + 2 ==> address@[self.host@.len() + 1int] != '0',
    {
        proof {
            lemma_bind_address_layout(self.host@, self.port as nat);
        }
        let mut s = String::from_str(self.host.as_str());
        s.append(":");
        push_decimal(&mut s, self.port);
        s
    }
}

/// The bind address is the host, a colon, and the port in standard base-10
/// notation: ASCII digits only, no leading zero, reading back as the port.
pub proof fn lemma_bind_address_layout(host: Seq<char>, port: nat)
    ensures
        ({
            let a = host + ":"@ + decimal(port);
            &&& a.len() > host.len() + 1
            &&& a.subrange(0, host.len() as int) == host
            &&& a[host.len() as int] == ':'
            &&& forall|i: int| host.len() + 1 <= i < a.len() ==> is_digit(#[trigger] a[i])
            &&& decimal_value(a.subrange(host.len() + 1int, a.len() as int)) == port
            &&& a.len() > host.len() + 2 ==> a[host.len() + 1int] != '0'
        }),
{
    reveal_strlit(":");
    lemma_decimal_notation(port);
    let d = decimal(port);
    let a = host + ":"@ + d;
    let k: int = host.len() + 1int;
    assert(a.subrange(0, host.len() as int) =~= host);
    assert(a[host.len() as int] == ':');
    assert(a.subrange(k, a.len() as int) =~= d);
    assert forall|i: int| k <= i < a.len() implies is_digit(#[trigger] a[i]) by {
        assert(a[i] == d[i - k]);
    }
    assert(a.len() > k + 1 ==> a[k] == d[0]);
}

/// On one host, distinct ports give distinct bind addresses: the address
/// keeps the port it was made from.
pub proof fn lemma_bind_address_keeps_port(host: Seq<char>, a: u16, b: u16)
    requires
        a != b,
    ensures
        host + ":"@ + decimal(a as nat) != host + ":"@ + decimal(b as nat),
{
    lemma_decimal_injective(a as nat, b as nat);
    let prefix = host + ":"@;
    if prefix + decimal(a as nat) == prefix + decimal(b as nat) {
        assert((prefix + decimal(a as nat)).subrange(prefix.len() as int, (prefix + decimal(a as nat)).len() as int) =~= decimal(a as nat));
        assert((prefix + decimal(b as nat)).subrange(prefix.len() as int, (prefix + decimal(b as nat)).len() as int) =~= decimal(b as nat));
    }
}

/// All the settings of the service.
pub struct Settings {
    pub database: DbSettings,
    pub app: AppSettings,
}

/// The deployment the service runs in; it picks the configuration file.
#[derive(Debug, Clone, Copy, PartialEq, Eq, Structural)]
pub enum Environment {
    Local,
    Production,
}

/// The name of each environment, as configuration files are named.
pub open spec fn environment_name(env: Environment) -> Seq<char> {
    match env {
        Environment::Local => "local"@,
        Environment::Production => "prod"@,
    }
}

/// The environment that a lower-case name selects: `local`, or `prod` (also
/// written `production`).
pub open spec fn environment_named(name: Seq<char>) -> Option<Environment> {
    if name == "local"@ {
        Some(Environment::Local)
    } else if name == "prod"@ || name == "production"@ {
        Some(Environment::Production)
    } else {
        None
    }
}

/// The message that refuses the environment name `name`.
pub open spec fn unsupported_environment(name: Seq<char>) -> Seq<char> {
    name + " is not a supported environment. Use either `local` or `production`."@
}

/// What `std`'s `str::to_lowercase` returns for `s`: the Unicode lower-case
/// mapping of each character.
pub uninterp spec fn unicode_lowercase(s: Seq<char>) -> Seq<char>;

/// Wraps `str::to_lowercase`, which maps every character to its Unicode
/// lower case; the mapping depends on the string alone and is not restated.
#[verifier::external_body]
fn to_lowercase(s: &str) -> (r: String)
    ensures
        r@ == unicode_lowercase(s@),
{
    s.to_lowercase()
}

impl Environment {
    /// The name of the environment.
    pub fn as_str(&self) -> (name: &'static str)
        ensures
            name@ == environment_name(*self),
    {
        match self {
            Environment::Local => "local",
            Environment::Production => "prod",
        }
    }

    /// The configuration file of the environment, `{name}.yaml`.
    pub fn config_file_name(&self) -> (file: String)
        ensures
            file@ == environment_name(*self) + ".yaml"@,
    {
        String::from_str(self.as_str()).concat(".yaml")
    }

    /// Reads an environment name that is already in lower case.
    pub fn from_lowercase(name: &str) -> (res: Result<Environment, String>)
        ensures
            match environment_named(name@) {
                Some(env) => res == Ok::<Environment, String>(env),
                None => res is Err && res->Err_0@ == unsupported_environment(name@),
            },
            res matches Ok(env) ==> name@ == environment_name(env) || (env
                == Environment::Production && name@ == "production"@),
            res is Err ==> name@ != environment_name(Environment::Local) && name@ != environment_name(
                Environment::Production,
            ) && name@ != "production"@,
    {
        proof {
            lemma_environment_selection(name@);
            reveal_strlit("local");
            reveal_strlit("prod");
            reveal_strlit("production");
        }
        let owned = name.to_owned();
        if owned == String::from_str("local") {
            Ok(Environment::Local)
        } else if owned == String::from_str("prod") || owned == String::from_str("production") {
            Ok(Environment::Production)
        } else {
            Err(owned.concat(" is not a supported environment. Use either `local` or `production`."))
        }
    }
}

impl Environment {
    /// The environment that the value of the `APP_ENV` variable selects:
    /// `local` where the variable is not set, else the name it holds, read as
    /// `try_from` reads it.
    pub fn from_app_env(var: Option<String>) -> (res: Result<Environment, String>)
        ensures
            var is None ==> res == Ok::<Environment, String>(Environment::Local),
            var matches Some(s) ==> match environment_named(unicode_lowercase(s@)) {
                Some(env) => res == Ok::<Environment, String>(env),
                None => res is Err && res->Err_0@ == unsupported_environment(
                    unicode_lowercase(s@),
                ),
            },
    {
        match var {
            None => Ok(Environment::Local),
            Some(s) => Environment::try_from(s),
        }
    }
}

/// Every environment is read back from its own name: the name that picks its
/// configuration file selects it again.
pub proof fn lemma_environment_name_round_trip(env: Environment)
    ensures
        environment_named(environment_name(env)) == Some(env),
{
    reveal_strlit("local");
    reveal_strlit("prod");
    assert("prod"@.len() != "local"@.len());
}

/// A name selects an environment exactly when it is that environment's own
/// name, or `production` for the production environment; every other name
/// is refused.
pub proof fn lemma_environment_selection(name: Seq<char>)
    ensures
        environment_named(name) == Some(Environment::Local) <==> name == environment_name(
            Environment::Local,
        ),
        environment_named(name) == Some(Environment::Production) <==> (name == environment_name(
            Environment::Production,
        ) || name == "production"@),
        environment_named(name) is None <==> (name != environment_name(Environment::Local)
            && name != environment_name(Environment::Production) && name != "production"@),
{
    reveal_strlit("local");
    reveal_strlit("prod");
    reveal_strlit("production");
    assert("prod"@.len() != "local"@.len());
    assert("production"@.len() != "local"@.len());
}

/// The refusal of a name starts with that name, and what follows it is the
/// same for every refused name.
pub proof fn lemma_refusal_names_the_name(a: Seq<char>, b: Seq<char>)
    ensures
        unsupported_environment(a).len() > a.len(),
        unsupported_environment(a).subrange(0, a.len() as int) == a,
        unsupported_environment(a).subrange(a.len() as int, unsupported_environment(a).len() as int)
            == unsupported_environment(b).subrange(
            b.len() as int,
            unsupported_environment(b).len() as int,
        ),
{
    reveal_strlit(" is not a supported environment. Use either `local` or `production`.");
    let m = unsupported_environment(a);
    let n = unsupported_environment(b);
    assert(m.subrange(0, a.len() as int) =~= a);
    assert(m.subrange(a.len() as int, m.len() as int) =~= n.subrange(b.len() as int, n.len() as int));
}

/// Distinct environments have distinct names, so their configuration files
/// differ.
pub proof fn lemma_environment_names_distinct(a: Environment, b: Environment)
    requires
        a != b,
    ensures
        environment_name(a) != environment_name(b),
        environment_name(a) + ".yaml"@ != environment_name(b) + ".yaml"@,
{
    lemma_environment_name_round_trip(a);
    lemma_environment_name_round_trip(b);
    assert((environment_name(a) + ".yaml"@).len() != (environment_name(b) + ".yaml"@).len()) by {
        reveal_strlit("local");
        reveal_strlit("prod");
    }
}

impl TryFrom<String> for Environment {
    type Error = String;

    /// Reads an environment name in any case: `local`, or `prod` (also
    /// `production`); any other name is refused with a message that names it.
    fn try_from(s: String) -> (res: Result<Environment, String>)
        ensures
            match environment_named(unicode_lowercase(s@)) {
                Some(env) => res == Ok::<Environment, String>(env),
                None => res is Err && res->Err_0@ == unsupported_environment(
                    unicode_lowercase(s@),
                ),
            },
    {
        let lower = to_lowercase(s.as_str());
        Environment::from_lowercase(lower.as_str())
    }
}

/// `try_from`'s contract is the one on the method above; the refusal's
/// message is a `String`, which no spec value can name, so the general form
/// that vstd offers for `TryFrom` is switched off here.
impl vstd::std_specs::convert::TryFromSpecImpl<String> for Environment {
    open spec fn obeys_try_from_spec() -> bool {
        false
    }

    open spec fn try_from_spec(v: String) -> Result<Environment, String> {
        match environment_named(unicode_lowercase(v@)) {
            Some(env) => Ok(env),
            None => Err(vstd::pervasive::arbitrary()),
        }
    }
}

} // verus!
