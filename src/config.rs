use vstd::prelude::*;
use vstd::string::StringExecFns;

verus! {

/// The settings that locate the destination store, each as given, or absent.
#[derive(Clone, Debug)]
pub struct DbSettings {
    /// A complete connection string; when present it is used as it is.
    pub database_url: Option<String>,
    pub user: Option<String>,
    pub password: Option<String>,
    pub ip: Option<String>,
    pub port: Option<String>,
    pub database: Option<String>,
}

/// The value of `setting`, or `fallback` when it is absent.
pub open spec fn or_default(setting: Option<String>, fallback: Seq<char>) -> Seq<char> {
    match setting {
        Some(s) => s@,
        None => fallback,
    }
}

/// The connection string that `s` describes.
pub open spec fn db_url_of(s: DbSettings) -> Seq<char> {
    match s.database_url {
        Some(url) => url@,
        None => "postgres://"@ + or_default(s.user, "mpkhate"@) + ":"@ + or_default(
            s.password,
            "password"@,
        ) + "@"@ + or_default(s.ip, "localhost"@) + ":"@ + or_default(s.port, "5432"@) + "/"@
            + or_default(s.database, "mpkhate"@),
    }
}

fn append_or(r: &mut String, setting: &Option<String>, fallback: &str)
    ensures
        final(r)@ == old(r)@ + or_default(*setting, fallback@),
{
    match setting {
        Some(s) => r.append(s.as_str()),
        None => r.append(fallback),
    }
}

/// The connection string of the destination store: the complete one when it
/// is given, else one assembled from the parts, each with its default.
pub fn generate_db_url(s: &DbSettings) -> (r: String)
    ensures
        r@ == db_url_of(*s),
{
    match &s.database_url {
        Some(url) => url.clone(),
        None => {
            let mut r = String::from_str("postgres://");
            append_or(&mut r, &s.user, "mpkhate");
            r.append(":");
            append_or(&mut r, &s.password, "password");
            r.append("@");
            append_or(&mut r, &s.ip, "localhost");
            r.append(":");
            append_or(&mut r, &s.port, "5432");
            r.append("/");
            append_or(&mut r, &s.database, "mpkhate");
            r
        },
    }
}

} // verus!
