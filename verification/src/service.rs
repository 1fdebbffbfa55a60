//! The redirect service: authorized creation of mappings, with bounded
//! regeneration on collisions, and exact-match resolution.

use vstd::prelude::*;

use crate::errors::{CreateError, ResolveError};
use crate::store::RedirectStore;
use crate::token::{generate_token, is_generated_token, lower_of, lowercase};

verus! {

/// The configured shared secret that authorizes creation requests.
pub struct TokenData(pub String);

/// A creation request: `token` is the supplied shared secret, `url` the
/// destination, and `path` an optional caller-chosen short path.
pub struct CreateOpts {
    pub token: String,
    pub url: String,
    pub path: Option<String>,
}

/// The token candidate a request asks for: the lowercased caller-supplied
/// path when one is present and non-empty, and `None` when the service is
/// to generate one.
pub open spec fn requested(path: Option<String>) -> Option<Seq<char>> {
    match path {
        Some(p) => if p@.len() > 0 {
            Some(lower_of(p@))
        } else {
            None
        },
        None => None,
    }
}

/// Attempts of token generation before creation gives up.
pub const RETRY_LIMIT: usize = 8;

/// Orchestrates creation and resolution of redirects over the store.
pub struct RedirectService {
    secret: TokenData,
    store: RedirectStore,
}

impl View for RedirectService {
    type V = Map<Seq<char>, Seq<char>>;

    closed spec fn view(&self) -> Map<Seq<char>, Seq<char>> {
        self.store@
    }
}

impl RedirectService {
    /// Well-formedness: the underlying store is well-formed.
    pub closed spec fn wf(&self) -> bool {
        self.store.wf()
    }

    /// The configured shared secret.
    pub closed spec fn secret_spec(&self) -> Seq<char> {
        self.secret.0@
    }

    /// A service over the given secret and (already migrated) store.
    pub fn new(secret: TokenData, store: RedirectStore) -> (s: RedirectService)
        requires
            store.wf(),
        ensures
            s.wf(),
            s@ == store@,
            s.secret_spec() == secret.0@,
    {
        RedirectService { secret, store }
    }

    /// Insert under freshly generated tokens, retrying on collision up to
    /// `RETRY_LIMIT` attempts. Exhaustion can only come from collisions: as
    /// long as some token of the generated shape is still free, a collision
    /// on every draw is possible, but if none is taken at all, the first
    /// draw succeeds, whatever it is.
    fn create_generated(&mut self, url: String) -> (r: Result<String, CreateError>)
        requires
            old(self).wf(),
        ensures
            final(self).wf(),
            final(self).secret_spec() == old(self).secret_spec(),
            r matches Ok(tok) ==> is_generated_token(tok@) && !old(self)@.contains_key(tok@)
                && final(self)@ == old(self)@.insert(tok@, url@),
            r is Err ==> *final(self) == *old(self) && r == Err::<String, CreateError>(
                CreateError::TokenSpaceExhausted,
            ),
            (forall|t: Seq<char>| is_generated_token(t) ==> !old(self)@.contains_key(t)) ==> r
                is Ok,
    {
        let mut attempt: usize = 0;
        while attempt < RETRY_LIMIT
            invariant
                attempt <= RETRY_LIMIT,
                *self == *old(self),
                old(self).wf(),
                (forall|t: Seq<char>| is_generated_token(t) ==> !old(self)@.contains_key(t))
                    ==> attempt == 0,
            decreases RETRY_LIMIT - attempt,
        {
            let t = generate_token();
            match self.store.insert(t.clone(), url.clone()) {
                Ok(()) => {
                    return Ok(t);
                },
                Err(_) => {
                    proof {
                        assert(old(self)@.contains_key(t@));
                    }
                },
            }
            attempt = attempt + 1;
        }
        Err(CreateError::TokenSpaceExhausted)
    }

    /// Create a redirect to `url`. The supplied secret must match the
    /// configured one; a non-empty caller-supplied path is lowercased and
    /// used as the token, otherwise a fresh token is generated with bounded
    /// retries. The final token used is returned.
    pub fn create(&mut self, opts: CreateOpts) -> (r: Result<String, CreateError>)
        requires
            old(self).wf(),
        ensures
            final(self).wf(),
            final(self).secret_spec() == old(self).secret_spec(),
            (opts.token@ != old(self).secret_spec()) <==> r == Err::<String, CreateError>(
                CreateError::Unauthorized,
            ),
            r is Err ==> *final(self) == *old(self),
            r matches Ok(tok) ==> {
                &&& opts.token@ == old(self).secret_spec()
                &&& !old(self)@.contains_key(tok@)
                &&& final(self)@ == old(self)@.insert(tok@, opts.url@)
                &&& match requested(opts.path) {
                    Some(cand) => tok@ == cand,
                    None => is_generated_token(tok@),
                }
            },
            (opts.token@ == old(self).secret_spec() && requested(opts.path) is Some) ==> (r is Ok
                <==> !old(self)@.contains_key(requested(opts.path)->Some_0)),
            r == Err::<String, CreateError>(CreateError::PathTaken) ==> requested(opts.path)
                is Some && old(self)@.contains_key(requested(opts.path)->Some_0),
            r == Err::<String, CreateError>(CreateError::TokenSpaceExhausted) ==> requested(
                opts.path,
            ) is None,
            (opts.token@ == old(self).secret_spec() && requested(opts.path) is None) ==> (r is Ok
                || r == Err::<String, CreateError>(CreateError::TokenSpaceExhausted)),
            (opts.token@ == old(self).secret_spec() && requested(opts.path) is None && (
            forall|t: Seq<char>| is_generated_token(t) ==> !old(self)@.contains_key(t))) ==> r
                is Ok,
    {
        if !(opts.token == self.secret.0) {
            return Err(CreateError::Unauthorized);
        }
        match opts.path {
            Some(p) => {
                if p.as_str().is_empty() {
                    self.create_generated(opts.url)
                } else {
                    let cand = lowercase(p.as_str());
                    match self.store.insert(cand.clone(), opts.url) {
                        Ok(()) => Ok(cand),
                        Err(_) => Err(CreateError::PathTaken),
                    }
                }
            },
            None => self.create_generated(opts.url),
        }
    }

    /// Resolve a token to its destination URL; `NotFound` exactly when no
    /// mapping exists.
    pub fn resolve(&self, token: &String) -> (r: Result<String, ResolveError>)
        requires
            self.wf(),
        ensures
            r is Ok <==> self@.contains_key(token@),
            r matches Ok(url) ==> self@[token@] == url@,
            r is Err ==> r == Err::<String, ResolveError>(ResolveError::NotFound),
    {
        self.store.lookup(token)
    }
}

/// Law: a successful creation is immediately visible to resolution. When a
/// create returns `Ok(tok)` for `url`, the service's map has gained exactly
/// the mapping `tok -> url`, so `resolve(tok)` is owed `Ok(url)`.
pub proof fn lemma_create_then_resolve(
    pre: RedirectService,
    post: RedirectService,
    tok: Seq<char>,
    url: Seq<char>,
)
    requires
        post@ == pre@.insert(tok, url),
    ensures
        post@.contains_key(tok),
        post@[tok] == url,
{
}

/// The number of creation attempts that succeed when attempts racing for
/// the one caller-supplied path `p` are serialized against map `m`: each
/// attempt inserts `p` exactly when `p` is still free, as `create`'s
/// contract states, and leaves the map unchanged otherwise.
pub open spec fn same_path_successes(
    m: Map<Seq<char>, Seq<char>>,
    p: Seq<char>,
    urls: Seq<Seq<char>>,
) -> nat
    decreases urls.len(),
{
    if urls.len() == 0 {
        0
    } else if m.contains_key(p) {
        same_path_successes(m, p, urls.skip(1))
    } else {
        1 + same_path_successes(m.insert(p, urls[0]), p, urls.skip(1))
    }
}

/// Once the path is taken, every further attempt observes the conflict.
proof fn lemma_taken_path_all_fail(
    m: Map<Seq<char>, Seq<char>>,
    p: Seq<char>,
    urls: Seq<Seq<char>>,
)
    requires
        m.contains_key(p),
    ensures
        same_path_successes(m, p, urls) == 0,
    decreases urls.len(),
{
    if urls.len() > 0 {
        lemma_taken_path_all_fail(m, p, urls.skip(1));
    }
}

/// Law: of any number of creation attempts racing for the same free
/// caller-supplied path, exactly one succeeds; the rest observe the
/// conflict, whatever order the store serializes them in.
pub proof fn lemma_same_path_race(m: Map<Seq<char>, Seq<char>>, p: Seq<char>, urls: Seq<Seq<char>>)
    requires
        !m.contains_key(p),
        urls.len() >= 1,
    ensures
        same_path_successes(m, p, urls) == 1,
{
    lemma_taken_path_all_fail(m.insert(p, urls[0]), p, urls.skip(1));
}

} // verus!
