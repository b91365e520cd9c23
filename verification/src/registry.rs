use vstd::prelude::*;

use crate::status::JobStatus;
use crate::status::admissible_step;

verus! {

/// One recorded job: its identity and its current status.
pub struct JobEntry {
    pub id: String,
    pub status: JobStatus,
}

/// No identity occurs twice among a sequence of entries.
pub open spec fn distinct_ids(s: Seq<JobEntry>) -> bool {
    forall|i: int, j: int| 0 <= i < j < s.len() ==> s[i].id@ != s[j].id@
}

/// The finite map that a sequence of entries denotes; a later entry for
/// the same identity would win, but a well-formed registry holds each
/// identity at most once.
pub open spec fn map_of(s: Seq<JobEntry>) -> Map<Seq<char>, JobStatus>
    decreases s.len(),
{
    if s.len() == 0 {
        Map::empty()
    } else {
        map_of(s.drop_last()).insert(s.last().id@, s.last().status)
    }
}

/// The status an identity holds in a registry view, if any.
pub open spec fn status_of(m: Map<Seq<char>, JobStatus>, k: Seq<char>) -> Option<JobStatus> {
    if m.contains_key(k) {
        Some(m[k])
    } else {
        None
    }
}

/// An identity is in the denoted map exactly when some entry carries it.
proof fn lemma_map_of_domain(s: Seq<JobEntry>)
    ensures
        forall|k: Seq<char>|
            #[trigger] map_of(s).contains_key(k) <==> exists|i: int|
                0 <= i < s.len() && #[trigger] s[i].id@ == k,
    decreases s.len(),
{
    if s.len() == 0 {
    } else {
        let t = s.drop_last();
        lemma_map_of_domain(t);
        assert forall|k: Seq<char>| #[trigger] map_of(s).contains_key(k) implies exists|i: int|
            0 <= i < s.len() && #[trigger] s[i].id@ == k by {
            if k == s.last().id@ {
                assert(s[s.len() - 1].id@ == k);
            } else {
                assert(map_of(t).contains_key(k));
                let i = choose|i: int| 0 <= i < t.len() && #[trigger] t[i].id@ == k;
                assert(t[i] == s[i]);
                assert(s[i].id@ == k);
            }
        }
        assert forall|k: Seq<char>|
            (exists|i: int| 0 <= i < s.len() && #[trigger] s[i].id@ == k) implies #[trigger]
        map_of(s).contains_key(k) by {
            let i = choose|i: int| 0 <= i < s.len() && #[trigger] s[i].id@ == k;
            if i < s.len() - 1 {
                assert(t[i].id@ == k);
                assert(map_of(t).contains_key(k));
            } else {
                assert(s.last().id@ == k);
            }
        }
    }
}

/// In a well-formed sequence, the denoted map sends each entry's
/// identity to that entry's status.
proof fn lemma_map_of_value(s: Seq<JobEntry>, i: int)
    requires
        distinct_ids(s),
        0 <= i < s.len(),
    ensures
        map_of(s).contains_key(s[i].id@),
        map_of(s)[s[i].id@] == s[i].status,
    decreases s.len(),
{
    if i == s.len() - 1 {
    } else {
        let t = s.drop_last();
        assert(t[i] == s[i]);
        lemma_map_of_value(t, i);
        assert(s[i].id@ != s.last().id@);
    }
}

/// The Job Registry: a concurrent mapping from job identity to status,
/// abstracted as a finite map from the identity's characters to a
/// `JobStatus`. Callers hold it under their own exclusion discipline;
/// every operation here is a short, non-blocking map access.
pub struct JobRegistry {
    entries: Vec<JobEntry>,
}

impl View for JobRegistry {
    type V = Map<Seq<char>, JobStatus>;

    closed spec fn view(&self) -> Map<Seq<char>, JobStatus> {
        map_of(self.entries@)
    }
}

impl JobRegistry {
    #[verifier::type_invariant]
    spec fn wf(self) -> bool {
        distinct_ids(self.entries@)
    }

    /// An empty registry: no identity has been issued yet.
    pub fn new() -> (r: JobRegistry)
        ensures
            r@ == Map::<Seq<char>, JobStatus>::empty(),
    {
        JobRegistry { entries: Vec::new() }
    }

    /// Status Server lookup: the status most recently recorded for `id`,
    /// or `None` when the identity was never issued. Read-only: the
    /// registry is not changed and no in-flight job is waited on.
    pub fn get(&self, id: &str) -> (r: Option<JobStatus>)
        ensures
            r == status_of(self@, id@),
    {
        proof {
            use_type_invariant(self);
        }
        let key: String = id.to_owned();
        let n = self.entries.len();
        let mut i: usize = 0;
        while i < n
            invariant
                n == self.entries@.len(),
                i <= n,
                key@ == id@,
                forall|j: int| 0 <= j < i ==> self.entries@[j].id@ != id@,
                distinct_ids(self.entries@),
            decreases n - i,
        {
            let e = &self.entries[i];
            if e.id == key {
                proof {
                    lemma_map_of_value(self.entries@, i as int);
                }
                return Some(e.status);
            }
            i += 1;
        }
        proof {
            lemma_map_of_domain(self.entries@);
        }
        None
    }

    /// Records the initial `Processing` entry for a newly issued
    /// identity, before any upload bytes are read. Returns `false` and
    /// changes nothing when the identity is already present: an existing
    /// job's entry is never overwritten by a new submission.
    pub fn record_processing(&mut self, id: String) -> (fresh: bool)
        ensures
            fresh == !old(self)@.contains_key(id@),
            final(self)@ == if fresh {
                old(self)@.insert(id@, JobStatus::Processing)
            } else {
                old(self)@
            },
            forall|k: Seq<char>|
                admissible_step(status_of(old(self)@, k), #[trigger] status_of(final(self)@, k)),
    {
        proof {
            use_type_invariant(&*self);
        }
        if self.get(id.as_str()).is_some() {
            return false;
        }
        let ghost pre = self.entries@;
        proof {
            lemma_map_of_domain(pre);
        }
        let mut local: Vec<JobEntry> = Vec::new();
        std::mem::swap(&mut local, &mut self.entries);
        local.push(JobEntry { id, status: JobStatus::Processing });
        proof {
            assert(local@.drop_last() =~= pre);
            assert forall|a: int, b: int| 0 <= a < b < local@.len() implies local@[a].id@
                != local@[b].id@ by {
                if b < local@.len() - 1 {
                    assert(local@[a] == pre[a]);
                    assert(local@[b] == pre[b]);
                } else {
                    assert(local@[a] == pre[a]);
                }
            }
        }
        self.entries = local;
        true
    }

    /// Settles an identity: moves it from `Processing` to the given
    /// terminal status. Returns `false` and changes nothing when the
    /// identity is absent or already terminal, so a terminal entry is
    /// absorbing and is never overwritten.
    pub fn record_terminal(&mut self, id: &str, status: JobStatus) -> (applied: bool)
        requires
            status.is_terminal(),
        ensures
            applied == (status_of(old(self)@, id@) == Some(JobStatus::Processing)),
            final(self)@ == if applied {
                old(self)@.insert(id@, status)
            } else {
                old(self)@
            },
            forall|k: Seq<char>|
                admissible_step(status_of(old(self)@, k), #[trigger] status_of(final(self)@, k)),
    {
        proof {
            use_type_invariant(&*self);
        }
        let ghost pre = self.entries@;
        let key: String = id.to_owned();
        let n = self.entries.len();
        let mut i: usize = 0;
        while i < n
            invariant
                n == self.entries@.len(),
                i <= n,
                key@ == id@,
                forall|j: int| 0 <= j < i ==> self.entries@[j].id@ != id@,
                distinct_ids(self.entries@),
                self.entries@ == pre,
                pre == old(self).entries@,
            decreases n - i,
        {
            let found = self.entries[i].id == key;
            if found {
                proof {
                    lemma_map_of_value(pre, i as int);
                }
                let is_processing = match self.entries[i].status {
                    JobStatus::Processing => true,
                    _ => false,
                };
                if !is_processing {
                    return false;
                }
                proof {
                    lemma_remove_distinct(pre, i as int);
                    lemma_settle_view(pre, i as int, status);
                }
                let mut local: Vec<JobEntry> = Vec::new();
                std::mem::swap(&mut local, &mut self.entries);
                let e = local.remove(i);
                let replaced = JobEntry { id: e.id, status };
                proof {
                    assert(replaced == (JobEntry { id: pre[i as int].id, status }));
                }
                local.push(replaced);
                proof {
                    assert(local@ == pre.remove(i as int).push(
                        JobEntry { id: pre[i as int].id, status },
                    ));
                }
                self.entries = local;
                return true;
            }
            i += 1;
        }
        proof {
            lemma_map_of_domain(pre);
        }
        false
    }
}

/// Removing one entry keeps the remaining entries well formed.
proof fn lemma_remove_distinct(s: Seq<JobEntry>, i: int)
    requires
        distinct_ids(s),
        0 <= i < s.len(),
    ensures
        distinct_ids(s.remove(i)),
{
    let r = s.remove(i);
    assert forall|a: int, b: int| 0 <= a < b < r.len() implies r[a].id@ != r[b].id@ by {
        if a < i {
            assert(r[a] == s[a]);
        } else {
            assert(r[a] == s[a + 1]);
        }
        if b < i {
            assert(r[b] == s[b]);
        } else {
            assert(r[b] == s[b + 1]);
        }
    }
}

/// Replacing the status of entry `i` — by removing it and pushing the
/// replacement at the end — keeps the entries well formed and updates
/// the denoted map at exactly that entry's identity.
proof fn lemma_settle_view(s: Seq<JobEntry>, i: int, status: JobStatus)
    requires
        distinct_ids(s),
        0 <= i < s.len(),
    ensures
        distinct_ids(s.remove(i).push(JobEntry { id: s[i].id, status })),
        map_of(s.remove(i).push(JobEntry { id: s[i].id, status })) == map_of(s).insert(
            s[i].id@,
            status,
        ),
{
    let e2 = JobEntry { id: s[i].id, status };
    let r = s.remove(i);
    let u = r.push(e2);
    assert forall|a: int, b: int| 0 <= a < b < u.len() implies u[a].id@ != u[b].id@ by {
        if b == u.len() - 1 {
            if a < i {
                assert(u[a] == s[a]);
            } else {
                assert(u[a] == s[a + 1]);
            }
        } else {
            if a < i {
                assert(u[a] == s[a]);
            } else {
                assert(u[a] == s[a + 1]);
            }
            if b < i {
                assert(u[b] == s[b]);
            } else {
                assert(u[b] == s[b + 1]);
            }
        }
    }
    lemma_map_of_domain(s);
    lemma_map_of_domain(u);
    let m1 = map_of(u);
    let m2 = map_of(s).insert(s[i].id@, status);
    assert forall|k: Seq<char>| m1.contains_key(k) implies m2.contains_key(k) by {
        let a = choose|a: int| 0 <= a < u.len() && #[trigger] u[a].id@ == k;
        if a == u.len() - 1 {
            assert(u[a] == e2);
        } else if a < i {
            assert(u[a] == s[a]);
        } else {
            assert(u[a] == s[a + 1]);
        }
    }
    assert forall|k: Seq<char>| m2.contains_key(k) implies m1.contains_key(k) by {
        if k == s[i].id@ {
            assert(u[u.len() - 1].id@ == k);
        } else {
            let a = choose|a: int| 0 <= a < s.len() && #[trigger] s[a].id@ == k;
            if a < i {
                assert(u[a].id@ == k);
            } else {
                assert(a != i);
                assert(u[a - 1] == s[a]);
            }
        }
    }
    assert forall|k: Seq<char>| m1.contains_key(k) implies m1[k] == m2[k] by {
        if k == s[i].id@ {
            lemma_map_of_value(u, u.len() - 1);
        } else {
            let a = choose|a: int| 0 <= a < u.len() && #[trigger] u[a].id@ == k;
            lemma_map_of_value(u, a);
            if a == u.len() - 1 {
                assert(u[a] == e2);
                assert(false);
            } else if a < i {
                assert(u[a] == s[a]);
                lemma_map_of_value(s, a);
            } else {
                assert(u[a] == s[a + 1]);
                lemma_map_of_value(s, a + 1);
            }
        }
    }
    assert(m1 =~= m2);
}

} // verus!
