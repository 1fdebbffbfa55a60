//! In-memory model of the redirect table: insert-only rows under a unique
//! token column, with exact-match lookup.

use vstd::prelude::*;

use crate::errors::{ResolveError, StoreError};

verus! {

/// A persisted redirect record: a short token mapped to a destination URL.
pub struct Redirect {
    pub token: String,
    pub url: String,
}

/// The abstract contents of a sequence of redirect rows, as a map from
/// token to URL. A later row wins, though a well-formed store never holds
/// two rows with the same token.
pub open spec fn map_of(rows: Seq<Redirect>) -> Map<Seq<char>, Seq<char>>
    decreases rows.len(),
{
    if rows.len() == 0 {
        Map::empty()
    } else {
        map_of(rows.drop_last()).insert(rows.last().token@, rows.last().url@)
    }
}

/// No two rows share a token.
pub open spec fn unique_tokens(rows: Seq<Redirect>) -> bool {
    forall|i: int, j: int| 0 <= i < j < rows.len() ==> rows[i].token@ != rows[j].token@
}

/// A key is in the abstract map exactly when some row holds it as token.
proof fn lemma_map_of_contains(rows: Seq<Redirect>, t: Seq<char>)
    ensures
        map_of(rows).contains_key(t) <==> (exists|i: int|
            0 <= i < rows.len() && rows[i].token@ == t),
    decreases rows.len(),
{
    if rows.len() > 0 {
        lemma_map_of_contains(rows.drop_last(), t);
        if rows.last().token@ == t {
            assert(rows[rows.len() - 1].token@ == t);
        } else {
            if exists|i: int| 0 <= i < rows.len() && rows[i].token@ == t {
                let i = choose|i: int| 0 <= i < rows.len() && rows[i].token@ == t;
                assert(rows.drop_last()[i].token@ == t);
            }
            if map_of(rows).contains_key(t) {
                let i = choose|i: int|
                    0 <= i < rows.drop_last().len() && rows.drop_last()[i].token@ == t;
                assert(rows[i].token@ == t);
            }
        }
    }
}

/// Under unique tokens, the abstract map sends each row's token to that
/// row's URL.
proof fn lemma_map_of_index(rows: Seq<Redirect>, i: int)
    requires
        unique_tokens(rows),
        0 <= i < rows.len(),
    ensures
        map_of(rows).contains_key(rows[i].token@),
        map_of(rows)[rows[i].token@] == rows[i].url@,
    decreases rows.len(),
{
    if i < rows.len() - 1 {
        assert(unique_tokens(rows.drop_last())) by {
            assert(forall|a: int, b: int|
                0 <= a < b < rows.drop_last().len() ==> rows.drop_last()[a].token@
                    != rows.drop_last()[b].token@) by {
                assert(forall|a: int|
                    0 <= a < rows.drop_last().len() ==> rows.drop_last()[a] == rows[a]);
            }
        }
        lemma_map_of_index(rows.drop_last(), i);
        assert(rows.drop_last()[i] == rows[i]);
        assert(rows.last().token@ != rows[i].token@);
    }
}

/// In-memory model of the redirect table. The persistent store owns the
/// rows; this type is the verified shape of its contents and of the two
/// operations the service performs on it.
pub struct RedirectStore {
    rows: Vec<Redirect>,
}

impl View for RedirectStore {
    type V = Map<Seq<char>, Seq<char>>;

    closed spec fn view(&self) -> Map<Seq<char>, Seq<char>> {
        map_of(self.rows@)
    }
}

impl RedirectStore {
    /// Well-formedness: the token column is unique.
    pub closed spec fn wf(&self) -> bool {
        unique_tokens(self.rows@)
    }

    /// An empty store.
    pub fn new() -> (s: RedirectStore)
        ensures
            s.wf(),
            s@ == Map::<Seq<char>, Seq<char>>::empty(),
    {
        RedirectStore { rows: Vec::new() }
    }

    /// Index of the row holding `token`, if any.
    fn find(&self, token: &String) -> (r: Option<usize>)
        ensures
            match r {
                Some(i) => i < self.rows@.len() && self.rows@[i as int].token@ == token@,
                None => forall|j: int|
                    0 <= j < self.rows@.len() ==> self.rows@[j].token@ != token@,
            },
    {
        let mut i: usize = 0;
        while i < self.rows.len()
            invariant
                i <= self.rows@.len(),
                forall|j: int| 0 <= j < i ==> self.rows@[j].token@ != token@,
            decreases self.rows@.len() - i,
        {
            if self.rows[i].token == *token {
                return Some(i);
            }
            i = i + 1;
        }
        None
    }

    /// Write a new mapping. The existing mapping for a taken token is never
    /// overwritten: the insert succeeds exactly when the token is free, and
    /// on conflict the store is left untouched.
    pub fn insert(&mut self, token: String, url: String) -> (r: Result<(), StoreError>)
        requires
            old(self).wf(),
        ensures
            final(self).wf(),
            r is Ok <==> !old(self)@.contains_key(token@),
            r is Ok ==> final(self)@ == old(self)@.insert(token@, url@),
            r is Err ==> *final(self) == *old(self) && r == Err::<(), StoreError>(
                StoreError::Conflict,
            ),
    {
        proof {
            lemma_map_of_contains(self.rows@, token@);
        }
        match self.find(&token) {
            Some(_) => Err(StoreError::Conflict),
            None => {
                let ghost old_rows = self.rows@;
                self.rows.push(Redirect { token, url });
                proof {
                    assert(self.rows@.drop_last() =~= old_rows);
                    assert(forall|a: int, b: int|
                        0 <= a < b < self.rows@.len() ==> self.rows@[a].token@
                            != self.rows@[b].token@) by {
                        assert(forall|a: int| 0 <= a < old_rows.len() ==> self.rows@[a] == old_rows[a]);
                    }
                }
                Ok(())
            },
        }
    }

    /// Exact-match lookup: the stored URL for `token`, or `NotFound` when
    /// no row matches. Succeeds exactly when the token is mapped.
    pub fn lookup(&self, token: &String) -> (r: Result<String, ResolveError>)
        requires
            self.wf(),
        ensures
            r is Ok <==> self@.contains_key(token@),
            r matches Ok(url) ==> self@[token@] == url@,
            r is Err ==> r == Err::<String, ResolveError>(ResolveError::NotFound),
    {
        match self.find(token) {
            Some(i) => {
                proof {
                    lemma_map_of_index(self.rows@, i as int);
                }
                Ok(self.rows[i].url.clone())
            },
            None => {
                proof {
                    lemma_map_of_contains(self.rows@, token@);
                }
                Err(ResolveError::NotFound)
            },
        }
    }
}

} // verus!
