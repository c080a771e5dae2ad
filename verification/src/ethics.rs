//! The policy gate: decides whether a command may proceed, before anything is
//! encrypted or dispatched.
//!
//! A fixed denylist is checked first and rejects regardless of how the
//! constraint set is configured; configurable constraints are checked second;
//! the first violation found is returned.

use vstd::prelude::*;
use vstd::utf8::encode_utf8;

verus! {

/// Why the policy gate rejected a command.
#[derive(Debug, Clone, Copy, PartialEq, Eq, Structural)]
pub enum PolicyViolation {
    /// The command contains a term of the fixed denylist.
    ForbiddenTerm,
    /// The command is longer than the disparity rule allows while that rule
    /// is switched on by the constraint set.
    LengthDisparity,
}

/// The one term of the fixed denylist.
pub open spec fn forbidden_term() -> Seq<char> {
    "bias_inducing_term"@
}

/// The constraint name that switches the length rule on.
pub open spec fn disparity_flag() -> Seq<char> {
    "disparity_analysis"@
}

/// The longest command (in bytes of its encoding) that the length rule
/// admits while it is switched on.
pub const LENGTH_LIMIT: usize = 50;

/// Whether `needle` occurs as a contiguous run inside `hay`.
pub open spec fn has_sub(hay: Seq<u8>, needle: Seq<u8>) -> bool {
    exists|i: int|
        0 <= i && i + needle.len() <= hay.len() && #[trigger] hay.subrange(i, i + needle.len())
            == needle
}

/// Whether a command contains the denylisted term, compared on the bytes of
/// their encodings.
pub open spec fn contains_forbidden(cmd: Seq<char>) -> bool {
    has_sub(encode_utf8(cmd), encode_utf8(forbidden_term()))
}

/// The policy decision on a command under a given constraint set: the
/// denylist first, the configurable length rule second, the first violation
/// returned.
pub open spec fn check_spec(constraints: Seq<Seq<char>>, cmd: Seq<char>) -> Result<
    (),
    PolicyViolation,
> {
    if contains_forbidden(cmd) {
        Err(PolicyViolation::ForbiddenTerm)
    } else if constraints.contains(disparity_flag()) && encode_utf8(cmd).len() > LENGTH_LIMIT {
        Err(PolicyViolation::LengthDisparity)
    } else {
        Ok(())
    }
}

/// Whether `needle` occurs in `hay` starting at `at`.
fn matches_at(hay: &[u8], needle: &[u8], at: usize) -> (r: bool)
    requires
        at + needle@.len() <= hay@.len(),
    ensures
        r == (hay@.subrange(at as int, at + needle@.len()) == needle@),
{
    let n = needle.len();
    let h = hay.len();
    for j in 0..n
        invariant
            n == needle@.len(),
            h == hay@.len(),
            at + n <= h,
            forall|k: int| 0 <= k < j ==> hay@[at + k] == needle@[k],
    {
        if hay[at + j] != needle[j] {
            proof {
                assert(hay@.subrange(at as int, at + needle@.len())[j as int] != needle@[j as int]);
            }
            return false;
        }
    }
    proof {
        assert(hay@.subrange(at as int, at + needle@.len()) =~= needle@);
    }
    true
}

/// Whether `needle` occurs anywhere in `hay`.
fn find_sub(hay: &[u8], needle: &[u8]) -> (r: bool)
    ensures
        r == has_sub(hay@, needle@),
{
    if needle.len() == 0 {
        proof {
            assert(hay@.subrange(0, 0 + needle@.len() as int) =~= needle@);
            assert(has_sub(hay@, needle@));
        }
        return true;
    }
    if needle.len() > hay.len() {
        return false;
    }
    let end = hay.len() - needle.len();
    for i in 0..end + 1
        invariant
            needle@.len() >= 1,
            needle@.len() <= hay@.len(),
            end == hay@.len() - needle@.len(),
            forall|k: int|
                0 <= k < i ==> #[trigger] hay@.subrange(k, k + needle@.len()) != needle@,
    {
        if matches_at(hay, needle, i) {
            proof {
                assert(0 <= i as int && i + needle@.len() <= hay@.len() && hay@.subrange(
                    i as int,
                    i + needle@.len(),
                ) == needle@);
            }
            return true;
        }
    }
    false
}

/// The policy gate: a fixed denylist and a set of named, configurable
/// constraints.
///
/// The constraint set is the only state shared across concurrent callers;
/// callers that share one gate guard it with their own lock, holding it for
/// the duration of one call so that no call observes a half-applied mutation.
#[derive(Debug)]
pub struct EthicalGuard {
    /// The named constraints currently switched on, in insertion order.
    pub constraints: Vec<String>,
}

impl Clone for EthicalGuard {
    /// A gate with the same constraint set.
    fn clone(&self) -> (r: Self)
        ensures
            r.constraints_view() == self.constraints_view(),
    {
        let c = self.constraints.clone();
        let r = EthicalGuard { constraints: c };
        proof {
            assert forall|i: int| 0 <= i < self.constraints@.len() implies r.constraints@[i]@
                == self.constraints@[i]@ by {
                assert(cloned::<String>(self.constraints@[i], r.constraints@[i]));
            }
            assert(r.constraints_view() =~= self.constraints_view());
        }
        r
    }
}

impl EthicalGuard {
    /// The abstract constraint set: each constraint as its character
    /// sequence, in order.
    pub open spec fn constraints_view(&self) -> Seq<Seq<char>> {
        self.constraints@.map_values(|s: String| s@)
    }

    /// A gate with no constraints switched on.
    pub fn new() -> (r: Self)
        ensures
            r.constraints_view() == Seq::<Seq<char>>::empty(),
    {
        let r = EthicalGuard { constraints: Vec::new() };
        proof {
            assert(r.constraints_view() =~= Seq::<Seq<char>>::empty());
        }
        r
    }

    /// Whether a constraint of this name is switched on.
    fn has_constraint(&self, name: &String) -> (r: bool)
        ensures
            r == self.constraints_view().contains(name@),
    {
        let n = self.constraints.len();
        for i in 0..n
            invariant
                n == self.constraints@.len(),
                forall|j: int| 0 <= j < i ==> self.constraints_view()[j] != name@,
        {
            if self.constraints[i] == *name {
                proof {
                    assert(self.constraints_view()[i as int] == name@);
                }
                return true;
            }
        }
        proof {
            assert forall|j: int| 0 <= j < self.constraints_view().len() implies self
                .constraints_view()[j] != name@ by {}
        }
        false
    }

    /// Switch a constraint on: appended to the set; evaluation order of the
    /// rules is unaffected.
    pub fn add_constraint(&mut self, name: String)
        ensures
            final(self).constraints_view() == old(self).constraints_view().push(name@),
    {
        self.constraints.push(name);
        proof {
            assert(final(self).constraints_view() =~= old(self).constraints_view().push(name@));
        }
    }

    /// Switch a constraint off: the first entry of that name is removed; the
    /// set is unchanged when no entry carries the name.
    pub fn remove_constraint(&mut self, name: &String)
        ensures
            final(self).constraints_view() == match old(self).constraints_view().index_of_first(
                name@,
            ) {
                Some(i) => old(self).constraints_view().remove(i),
                None => old(self).constraints_view(),
            },
    {
        let ghost orig = self.constraints_view();
        let n = self.constraints.len();
        for i in 0..n
            invariant
                n == self.constraints@.len(),
                self.constraints_view() == orig,
                orig == old(self).constraints_view(),
                orig.len() == n,
                forall|j: int| 0 <= j < i ==> orig[j] != name@,
        {
            if self.constraints[i] == *name {
                proof {
                    assert(self.constraints_view()[i as int] == self.constraints@[i as int]@);
                    assert(orig[i as int] == name@);
                    orig.index_of_first_ensures(name@);
                    let idx = orig.index_of_first(name@)->0;
                    assert(orig[idx] == name@);
                    assert(idx == i as int);
                }
                self.constraints.remove(i);
                proof {
                    assert(old(self).constraints_view().index_of_first(name@) == Some(i as int));
                    assert(final(self).constraints_view() =~= orig.remove(i as int));
                }
                return;
            }
            proof {
                assert(orig[i as int] == self.constraints@[i as int]@);
            }
        }
        proof {
            assert(!orig.contains(name@)) by {
                if orig.contains(name@) {
                    let w = choose|j: int| 0 <= j < orig.len() && orig[j] == name@;
                    assert(orig[w] != name@);
                }
            }
            orig.index_of_first_ensures(name@);
        }
    }

    /// Decide whether `cmd` may proceed under the current constraint set:
    /// exactly the decision of `check_spec`.
    pub fn check_command(&self, cmd: &str) -> (r: Result<(), PolicyViolation>)
        ensures
            r == check_spec(self.constraints_view(), cmd@),
    {
        let cb = cmd.as_bytes();
        let fb = "bias_inducing_term".as_bytes();
        proof {
            assert(cb@ == encode_utf8(cmd@));
            assert(fb@ == encode_utf8(forbidden_term()));
        }
        if find_sub(cb, fb) {
            return Err(PolicyViolation::ForbiddenTerm);
        }
        let flag: String = "disparity_analysis".to_owned();
        let over = cb.len() > LENGTH_LIMIT;
        proof {
            assert(over == (encode_utf8(cmd@).len() > LENGTH_LIMIT));
        }
        if self.has_constraint(&flag) && over {
            return Err(PolicyViolation::LengthDisparity);
        }
        Ok(())
    }
}

/// The denylist always rejects: a command containing the forbidden term is
/// rejected under every constraint set.
pub proof fn lemma_forbidden_always_rejects(constraints: Seq<Seq<char>>, cmd: Seq<char>)
    requires
        contains_forbidden(cmd),
    ensures
        check_spec(constraints, cmd) == Err::<(), PolicyViolation>(PolicyViolation::ForbiddenTerm),
{
}

} // verus!
