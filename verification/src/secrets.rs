//! Environment variables whose values stand for secrets.

use crate::error::{Error, ParseError, SourceError};
use crate::manifest::{Manifest, ManifestView};
use crate::strmap::{texts_of, StrMap};
use crate::text::{chars_of, has_prefix, starts_with, str_eq};
use vstd::prelude::*;

verus! {

/// What `str::to_lowercase` gives for a string.
pub uninterp spec fn lowercase(s: Seq<char>) -> Seq<char>;

/// Calls `str::to_lowercase`. The contract only names the outcome; that the
/// same string always gives the same outcome is taken on trust.
#[verifier::external_body]
fn to_lowercase(s: &str) -> (r: String)
    ensures
        r@ == lowercase(s@),
{
    s.to_lowercase()
}

/// `s` with a hyphen in the place of each underscore.
pub open spec fn dashed(s: Seq<char>) -> Seq<char> {
    Seq::new(
        s.len(),
        |i: int|
            if s[i] == '_' {
                '-'
            } else {
                s[i]
            },
    )
}

/// The name of the cluster secret for a key, given the key in lower case.
pub open spec fn kube_secret(lowered: Seq<char>) -> Seq<char> {
    "kube-secret-"@ + dashed(lowered)
}

/// The index of the first colon of `v` from `from` on, or the length of `v`
/// where there is none.
pub open spec fn colon_index(v: Seq<char>, from: int) -> int
    decreases v.len() - from,
{
    if 0 <= from < v.len() && v[from] != ':' {
        colon_index(v, from + 1)
    } else {
        from
    }
}

/// What stands between the first colon of `v` and the next one, or the end;
/// `None` where `v` has no colon or nothing stands there.
pub open spec fn key_path(v: Seq<char>) -> Option<Seq<char>> {
    let first = colon_index(v, 0);
    let second = colon_index(v, first + 1);
    if first >= v.len() || second == first + 1 {
        None
    } else {
        Some(v.subrange(first + 1, second))
    }
}

/// The key that a reference to a cluster secret names: the variable's own
/// name for the bare marker, else what follows the colon.
pub open spec fn secret_key(k: Seq<char>, v: Seq<char>) -> Option<Seq<char>> {
    if v == "IN_KUBE_SECRETS"@ {
        Some(k)
    } else {
        key_path(v)
    }
}

/// What the environment variable `k` with the value `v` holds once secrets
/// are filled in: the secret handed in for it where the value asks for one
/// from the store, the name of a cluster secret where it refers to one, and
/// the value itself otherwise.
pub open spec fn secret_value(
    k: Seq<char>,
    v: Seq<char>,
    fetched: Map<Seq<char>, String>,
) -> Result<Seq<char>, Error> {
    if v == "IN_VAULT"@ {
        if fetched.contains_key(k) {
            Ok(fetched[k]@)
        } else {
            Err(Error::Source(SourceError::MissingSecret))
        }
    } else if has_prefix(v, "IN_KUBE_SECRETS"@) {
        match secret_key(k, v) {
            Some(key) => Ok(kube_secret(lowercase(key))),
            None => Err(Error::Parse(ParseError::SecretKeyPath)),
        }
    } else {
        Ok(v)
    }
}

/// The first `n` environment variables with their secrets filled in; the
/// error of the first that cannot be filled in.
pub open spec fn secrets_upto(
    es: Seq<(String, String)>,
    fetched: Map<Seq<char>, String>,
    n: int,
) -> Result<Map<Seq<char>, Seq<char>>, Error>
    decreases n,
{
    if n <= 0 {
        Ok(Map::empty())
    } else {
        match secrets_upto(es, fetched, n - 1) {
            Err(e) => Err(e),
            Ok(m) => match secret_value(es[n - 1].0@, es[n - 1].1@, fetched) {
                Err(e) => Err(e),
                Ok(v) => Ok(m.insert(es[n - 1].0@, v)),
            },
        }
    }
}

/// The path under which the store keeps the secret for the variable `k` of
/// the service `svc`.
pub open spec fn vault_path(env: Seq<char>, loc: Seq<char>, svc: Seq<char>, k: Seq<char>) -> Seq<
    char,
> {
    env + "-"@ + loc + "/"@ + svc + "/"@ + k
}

/// The name under which the store keeps the secrets of the manifest: that
/// of its secret store settings, or its own.
pub open spec fn vault_name(m: Manifest) -> Seq<char> {
    match m.vault {
        Some(v) => v.name@,
        None => m.name@,
    }
}

/// The variables among the first `n` that ask for a secret from the store,
/// each with the path of its secret.
pub open spec fn vault_requests(
    es: Seq<(String, String)>,
    env: Seq<char>,
    loc: Seq<char>,
    svc: Seq<char>,
    n: int,
) -> Seq<(Seq<char>, Seq<char>)>
    decreases n,
{
    if n <= 0 {
        Seq::empty()
    } else if es[n - 1].1@ == "IN_VAULT"@ {
        vault_requests(es, env, loc, svc, n - 1).push(
            (es[n - 1].0@, vault_path(env, loc, svc, es[n - 1].0@)),
        )
    } else {
        vault_requests(es, env, loc, svc, n - 1)
    }
}

/// Pairs of strings as plain values.
pub open spec fn views_of_pairs(ps: Seq<(String, String)>) -> Seq<(Seq<char>, Seq<char>)> {
    Seq::new(ps.len(), |i: int| (ps[i].0@, ps[i].1@))
}

proof fn lemma_secrets_error_stays(
    es: Seq<(String, String)>,
    fetched: Map<Seq<char>, String>,
    n: int,
    m: int,
)
    requires
        n <= m,
        secrets_upto(es, fetched, n) is Err,
    ensures
        secrets_upto(es, fetched, m) == secrets_upto(es, fetched, n),
    decreases m - n,
{
    if n < m {
        lemma_secrets_error_stays(es, fetched, n, m - 1);
    }
}

/// The name of the cluster secret for a key, given the key in lower case.
pub fn kube_secret_name(lowered: &str) -> (r: String)
    ensures
        r@ == kube_secret(lowered@),
{
    let v = chars_of(lowered);
    let mut out = String::from_str("kube-secret-");
    let mut i: usize = 0;
    let ghost head = "kube-secret-"@;
    assert(dashed(v@).take(0) =~= Seq::<char>::empty());
    assert(out@ =~= head + dashed(v@).take(0));
    while i < v.len()
        invariant
            i <= v.len(),
            v@ == lowered@,
            head == "kube-secret-"@,
            out@ == head + dashed(v@).take(i as int),
        decreases v.len() - i,
    {
        if v[i] == '_' {
            out.append("-");
            proof {
                reveal_strlit("-");
                assert("-"@ =~= seq!['-']);
            }
        } else {
            push_char(&mut out, v[i]);
        }
        assert(out@ =~= head + dashed(v@).take(i + 1));
        i += 1;
    }
    assert(dashed(v@).take(v@.len() as int) =~= dashed(v@));
    out
}

/// Calls `String::push`, which puts one character at the end of a string.
#[verifier::external_body]
fn push_char(s: &mut String, c: char)
    ensures
        final(s)@ == old(s)@.push(c),
{
    s.push(c);
}

/// The characters `v[from..to)` as a string.
fn string_of(v: &Vec<char>, from: usize, to: usize) -> (r: String)
    requires
        from <= to <= v.len(),
    ensures
        r@ == v@.subrange(from as int, to as int),
{
    let mut out = String::new();
    let mut i: usize = from;
    while i < to
        invariant
            from <= i <= to <= v.len(),
            out@ == v@.subrange(from as int, i as int),
        decreases to - i,
    {
        push_char(&mut out, v[i]);
        assert(out@ =~= v@.subrange(from as int, i + 1));
        i += 1;
    }
    out
}

/// What stands between the first colon of `value` and the next one.
pub fn read_key_path(value: &str) -> (r: Option<String>)
    ensures
        match r {
            Some(p) => key_path(value@) == Some(p@),
            None => key_path(value@) is None,
        },
{
    let v = chars_of(value);
    let mut first: usize = 0;
    while first < v.len() && v[first] != ':'
        invariant
            first <= v.len(),
            colon_index(v@, 0) == colon_index(v@, first as int),
        decreases v.len() - first,
    {
        first += 1;
    }
    if first >= v.len() {
        return None;
    }
    let mut second: usize = first + 1;
    while second < v.len() && v[second] != ':'
        invariant
            first < second <= v.len(),
            colon_index(v@, first + 1) == colon_index(v@, second as int),
        decreases v.len() - second,
    {
        second += 1;
    }
    if second == first + 1 {
        return None;
    }
    Some(string_of(&v, first + 1, second))
}

/// What the environment variable `key` with the value `value` holds once
/// secrets are filled in.
pub fn fill_secret(key: &str, value: &str, fetched: &StrMap<String>) -> (r: Result<String, Error>)
    ensures
        match r {
            Ok(v) => secret_value(key@, value@, fetched@) == Ok::<Seq<char>, Error>(v@),
            Err(e) => secret_value(key@, value@, fetched@) == Err::<Seq<char>, Error>(e),
        },
{
    if str_eq(value, "IN_VAULT") {
        match fetched.get(key) {
            Some(secret) => Ok(secret.clone()),
            None => Err(Error::Source(SourceError::MissingSecret)),
        }
    } else if starts_with(value, "IN_KUBE_SECRETS") {
        let named = if str_eq(value, "IN_KUBE_SECRETS") {
            Some(String::from_str(key))
        } else {
            read_key_path(value)
        };
        match named {
            Some(name) => {
                let lowered = to_lowercase(name.as_str());
                Ok(kube_secret_name(lowered.as_str()))
            },
            None => Err(Error::Parse(ParseError::SecretKeyPath)),
        }
    } else {
        Ok(String::from_str(value))
    }
}

impl Manifest {
    /// The environment variables that ask for a secret from the store, each
    /// with the path under which the store of the environment `env` at the
    /// location `loc` keeps it.
    pub fn secret_requests(&self, env: &str, loc: &str) -> (r: Vec<(String, String)>)
        ensures
            views_of_pairs(r@) == vault_requests(
                self.env.entries(),
                env@,
                loc@,
                vault_name(*self),
                self.env.entries().len() as int,
            ),
    {
        let svc: &str = match &self.vault {
            Some(v) => v.name.as_str(),
            None => self.name.as_str(),
        };
        let mut out: Vec<(String, String)> = Vec::new();
        let mut i: usize = 0;
        assert(views_of_pairs(out@) =~= vault_requests(
            self.env.entries(),
            env@,
            loc@,
            svc@,
            0,
        ));
        while i < self.env.len()
            invariant
                i <= self.env.entries().len(),
                svc@ == vault_name(*self),
                views_of_pairs(out@) == vault_requests(
                    self.env.entries(),
                    env@,
                    loc@,
                    svc@,
                    i as int,
                ),
            decreases self.env.entries().len() - i,
        {
            if str_eq(self.env.value(i).as_str(), "IN_VAULT") {
                let mut path = String::from_str(env);
                path.append("-");
                path.append(loc);
                path.append("/");
                path.append(svc);
                path.append("/");
                path.append(self.env.key(i).as_str());
                let ghost before = out@;
                out.push((self.env.key(i).clone(), path));
                assert(views_of_pairs(out@) =~= views_of_pairs(before).push(
                    (
                        self.env.entries()[i as int].0@,
                        vault_path(env@, loc@, svc@, self.env.entries()[i as int].0@),
                    ),
                ));
            }
            i += 1;
        }
        out
    }

    /// Fills in the secrets of the environment variables: `fetched` holds,
    /// by the name of the variable, the secrets that were read from the
    /// store. A variable that cannot be filled in is an error, and leaves
    /// the manifest as it was.
    pub fn secrets(&mut self, fetched: &StrMap<String>) -> (r: Result<(), Error>)
        ensures
            match r {
                Ok(_) => secrets_upto(
                    old(self).env.entries(),
                    fetched@,
                    old(self).env.entries().len() as int,
                ) == Ok::<Map<Seq<char>, Seq<char>>, Error>(texts_of(final(self).env@))
                    && final(self)@ == (ManifestView { env: final(self).env@, ..old(self)@ }),
                Err(e) => secrets_upto(
                    old(self).env.entries(),
                    fetched@,
                    old(self).env.entries().len() as int,
                ) == Err::<Map<Seq<char>, Seq<char>>, Error>(e) && *final(self) == *old(self),
            },
    {
        let mut filled: StrMap<String> = StrMap::new();
        let mut i: usize = 0;
        assert(texts_of(filled@) =~= Map::<Seq<char>, Seq<char>>::empty());
        while i < self.env.len()
            invariant
                *self == *old(self),
                i <= self.env.entries().len(),
                secrets_upto(self.env.entries(), fetched@, i as int) == Ok::<
                    Map<Seq<char>, Seq<char>>,
                    Error,
                >(texts_of(filled@)),
            decreases self.env.entries().len() - i,
        {
            match fill_secret(self.env.key(i).as_str(), self.env.value(i).as_str(), fetched) {
                Ok(v) => {
                    let ghost before = filled@;
                    filled.insert(self.env.key(i).clone(), v);
                    assert(texts_of(filled@) =~= texts_of(before).insert(
                        self.env.entries()[i as int].0@,
                        v@,
                    ));
                },
                Err(e) => {
                    proof {
                        lemma_secrets_error_stays(
                            self.env.entries(),
                            fetched@,
                            i + 1,
                            self.env.entries().len() as int,
                        );
                    }
                    return Err(e);
                },
            }
            i += 1;
        }
        self.env = filled;
        Ok(())
    }
}

} // verus!
