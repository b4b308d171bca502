//! The session tokens under which a user is logged in.

use vstd::prelude::*;

verus! {

/// No token occurs twice in `tokens`.
pub open spec fn distinct_tokens(tokens: Seq<String>) -> bool {
    forall|i: int, j: int| 0 <= i < j < tokens.len() ==> tokens[i]@ != tokens[j]@
}

/// The tokens that occur in `tokens`.
pub open spec fn token_set(tokens: Seq<String>) -> Set<Seq<char>> {
    Set::new(
        |token: Seq<char>| exists|i: int| 0 <= i < tokens.len() && #[trigger] tokens[i]@ == token,
    )
}

/// A set of session tokens.
#[derive(Debug)]
pub struct SessionSet {
    tokens: Vec<String>,
}

impl View for SessionSet {
    type V = Set<Seq<char>>;

    closed spec fn view(&self) -> Set<Seq<char>> {
        token_set(self.tokens@)
    }
}

impl SessionSet {
    /// No token occurs twice. Every constructor establishes this and every
    /// method keeps it.
    pub closed spec fn wf(self) -> bool {
        distinct_tokens(self.tokens@)
    }

    /// The set without any token.
    pub fn new() -> (set: SessionSet)
        ensures
            set.wf(),
            set@ == Set::<Seq<char>>::empty(),
    {
        let set = SessionSet { tokens: Vec::new() };
        assert(set@ =~= Set::<Seq<char>>::empty());
        set
    }

    fn find(&self, token: &String) -> (found: Option<usize>)
        ensures
            found is Some <==> self@.contains(token@),
            found matches Some(i) ==> i < self.tokens.len() && self.tokens[i as int]@ == token@,
    {
        let mut i: usize = 0;
        while i < self.tokens.len()
            invariant
                i <= self.tokens.len(),
                forall|k: int| 0 <= k < i ==> self.tokens[k]@ != token@,
            decreases self.tokens.len() - i,
        {
            if self.tokens[i] == *token {
                return Some(i);
            }
            i += 1;
        }
        None
    }

    /// Whether `token` is in the set.
    pub fn contains(&self, token: &String) -> (b: bool)
        ensures
            b == self@.contains(token@),
    {
        self.find(token).is_some()
    }

    /// Puts `token` into the set; returns whether it was new.
    pub fn insert(&mut self, token: String) -> (added: bool)
        requires
            old(self).wf(),
        ensures
            final(self).wf(),
            final(self)@ == old(self)@.insert(token@),
            added == !old(self)@.contains(token@),
    {
        match self.find(&token) {
            Some(_) => {
                assert(self@.insert(token@) =~= self@);
                false
            },
            None => {
                let ghost before = self.tokens@;
                self.tokens.push(token);
                proof {
                    let after = self.tokens@;
                    assert forall|i: int, j: int| 0 <= i < j < after.len() implies after[i]@
                        != after[j]@ by {
                        assert(after[i] == before[i]);
                        if j < before.len() {
                            assert(after[j] == before[j]);
                        }
                    }
                    assert forall|t: Seq<char>| #[trigger]
                        token_set(after).contains(t) <==> token_set(before).insert(
                            token@,
                        ).contains(t) by {
                        if token_set(after).contains(t) {
                            let i = choose|i: int|
                                0 <= i < after.len() && #[trigger] after[i]@ == t;
                            if i < before.len() {
                                assert(before[i]@ == t);
                            }
                        }
                        if token_set(before).contains(t) {
                            let i = choose|i: int|
                                0 <= i < before.len() && #[trigger] before[i]@ == t;
                            assert(after[i]@ == t);
                        }
                        if t == token@ {
                            assert(after[before.len() as int]@ == t);
                        }
                    }
                    assert(token_set(after) =~= token_set(before).insert(token@));
                }
                true
            },
        }
    }

    /// Takes `token` out of the set; returns whether it was there.
    pub fn remove(&mut self, token: &String) -> (removed: bool)
        requires
            old(self).wf(),
        ensures
            final(self).wf(),
            final(self)@ == old(self)@.remove(token@),
            removed == old(self)@.contains(token@),
    {
        match self.find(token) {
            Some(at) => {
                let ghost before = self.tokens@;
                let ghost i = at as int;
                let _ = self.tokens.remove(at);
                proof {
                    let after = self.tokens@;
                    assert forall|a: int| 0 <= a < after.len() implies #[trigger] after[a]
                        == before[if a < i { a } else { a + 1 }] by {}
                    assert forall|a: int, b: int| 0 <= a < b < after.len() implies after[a]@
                        != after[b]@ by {
                        assert(after[a] == before[if a < i { a } else { a + 1 }]);
                        assert(after[b] == before[if b < i { b } else { b + 1 }]);
                    }
                    assert forall|t: Seq<char>| #[trigger]
                        token_set(after).contains(t) <==> token_set(before).remove(
                            token@,
                        ).contains(t) by {
                        if token_set(after).contains(t) {
                            let k = choose|k: int|
                                0 <= k < after.len() && #[trigger] after[k]@ == t;
                            let k0 = if k < i { k } else { k + 1 };
                            assert(after[k] == before[k0]);
                            assert(before[k0]@ == t);
                            if k0 < i {
                                assert(before[k0]@ != before[i]@);
                            } else {
                                assert(before[i]@ != before[k0]@);
                            }
                        }
                        if token_set(before).remove(token@).contains(t) {
                            let k0 = choose|k: int|
                                0 <= k < before.len() && #[trigger] before[k]@ == t;
                            let k = if k0 < i { k0 } else { k0 - 1 };
                            assert(after[k] == before[k0]);
                            assert(after[k]@ == t);
                        }
                    }
                    assert(token_set(after) =~= token_set(before).remove(token@));
                }
                true
            },
            None => {
                assert(self@.remove(token@) =~= self@);
                false
            },
        }
    }
}

} // verus!
