//! The Pareto frontier: candidates of which none is at least as good as another
//! in everything and better in something.
use vstd::prelude::*;

use crate::order::keep;
use crate::order::lemma_take_step;
use crate::order::strictly_sorted;
use crate::score::Score;
use crate::table::Table;

verus! {

/// Scores by objective.
pub type Scores = Table<Score>;

/// A candidate spec, with its scores.
pub struct Candidate {
    /// Its name.
    pub id: String,
    /// The spec.
    pub spec_source: String,
    /// The skill that it is for.
    pub skill_name: String,
    /// The entity type that it describes.
    pub entity_type: String,
    /// The generation it belongs to.
    pub generation: u32,
    /// When it was made.
    pub created_at: String,
    /// Its scores.
    pub scores: Scores,
}

impl Candidate {
    /// A candidate without scores.
    pub fn new(
        id: String,
        spec_source: String,
        skill_name: String,
        entity_type: String,
        generation: u32,
        created_at: String,
    ) -> (r: Candidate)
        ensures
            r.id == id,
            r.spec_source == spec_source,
            r.skill_name == skill_name,
            r.entity_type == entity_type,
            r.generation == generation,
            r.created_at == created_at,
            r.scores.wf(),
            r.scores@ == Map::<Seq<char>, Score>::empty(),
    {
        Candidate {
            id,
            spec_source,
            skill_name,
            entity_type,
            generation,
            created_at,
            scores: Table::new(),
        }
    }

    /// Sets a score.
    pub fn set_score(&mut self, objective: String, score: Score)
        requires
            old(self).scores.wf(),
        ensures
            final(self).scores.wf(),
            final(self).scores@ == old(self).scores@.insert(objective@, score),
            final(self).id == old(self).id,
            final(self).spec_source == old(self).spec_source,
            final(self).skill_name == old(self).skill_name,
            final(self).entity_type == old(self).entity_type,
            final(self).generation == old(self).generation,
            final(self).created_at == old(self).created_at,
    {
        self.scores.insert(objective, score);
    }
}

/// The score on an objective; zero where there is none.
pub open spec fn score_on(s: Map<Seq<char>, Score>, objective: Seq<char>) -> Score {
    if s.contains_key(objective) {
        s[objective]
    } else {
        Score { bits: 0 }
    }
}

/// One of the two has a score on the objective.
pub open spec fn scored(
    a: Map<Seq<char>, Score>,
    b: Map<Seq<char>, Score>,
    objective: Seq<char>,
) -> bool {
    a.contains_key(objective) || b.contains_key(objective)
}

/// There is some score.
pub open spec fn has_scores(s: Map<Seq<char>, Score>) -> bool {
    exists|k: Seq<char>| #[trigger] s.contains_key(k)
}

/// `a` is nowhere worse than `b`, and somewhere better.
pub open spec fn better(a: Map<Seq<char>, Score>, b: Map<Seq<char>, Score>) -> bool {
    &&& forall|k: Seq<char>| #[trigger] scored(a, b, k) ==> !score_on(a, k).lt(score_on(b, k))
    &&& exists|k: Seq<char>| #[trigger] scored(a, b, k) && score_on(b, k).lt(score_on(a, k))
}

/// `a` dominates `b`: both have scores, `a` is nowhere worse, and somewhere
/// better.
pub open spec fn dominated_by(b: Map<Seq<char>, Score>, a: Map<Seq<char>, Score>) -> bool {
    has_scores(a) && has_scores(b) && better(a, b)
}

/// Whether `a` is nowhere worse than `b`, and somewhere better.
pub fn is_better(a: &Scores, b: &Scores) -> (r: bool)
    requires
        a.wf(),
        b.wf(),
    ensures
        r == better(a@, b@),
{
    let mut found = false;
    proof {
        a.lemma_table();
        b.lemma_table();
    }
    let ghost ak = a.keys();
    let ghost bk = b.keys();
    let mut i: usize = 0;
    while i < a.len()
        invariant
            i <= ak.len(),
            a.wf(),
            b.wf(),
            ak == a.keys(),
            forall|j: int| 0 <= j < i ==> !score_on(a@, #[trigger] ak[j]).lt(score_on(b@, ak[j])),
            found == exists|j: int|
                0 <= j < i && score_on(b@, #[trigger] ak[j]).lt(score_on(a@, ak[j])),
        decreases ak.len() - i,
    {
        let ghost was = found;
        let (x, y) = both(a, b, a.key_at(i).as_str());
        if x.is_less(y) {
            proof {
                a.lemma_table();
                assert(ak.contains(ak[i as int]));
                assert(scored(a@, b@, ak[i as int]));
            }
            return false;
        }
        if y.is_less(x) {
            found = true;
            assert(score_on(b@, ak[i as int]).lt(score_on(a@, ak[i as int])));
        }
        proof {
            assert(found == exists|j: int|
                0 <= j < i + 1 && score_on(b@, #[trigger] ak[j]).lt(score_on(a@, ak[j]))) by {
                if was {
                    let j = choose|j: int|
                        0 <= j < i && score_on(b@, #[trigger] ak[j]).lt(score_on(a@, ak[j]));
                    assert(0 <= j < i + 1 && score_on(b@, ak[j]).lt(score_on(a@, ak[j])));
                }
            }
        }
        i = i + 1;
    }
    let ghost found_a = found;
    let mut i: usize = 0;
    while i < b.len()
        invariant
            i <= bk.len(),
            a.wf(),
            b.wf(),
            bk == b.keys(),
            forall|j: int| 0 <= j < i ==> !score_on(a@, #[trigger] bk[j]).lt(score_on(b@, bk[j])),
            found == (found_a || exists|j: int|
                0 <= j < i && score_on(b@, #[trigger] bk[j]).lt(score_on(a@, bk[j]))),
        decreases bk.len() - i,
    {
        let ghost was = found;
        let (x, y) = both(a, b, b.key_at(i).as_str());
        if x.is_less(y) {
            proof {
                b.lemma_table();
                assert(bk.contains(bk[i as int]));
                assert(scored(a@, b@, bk[i as int]));
            }
            return false;
        }
        if y.is_less(x) {
            found = true;
            assert(score_on(b@, bk[i as int]).lt(score_on(a@, bk[i as int])));
        }
        proof {
            assert(found == (found_a || exists|j: int|
                0 <= j < i + 1 && score_on(b@, #[trigger] bk[j]).lt(score_on(a@, bk[j])))) by {
                if was && !found_a {
                    let j = choose|j: int|
                        0 <= j < i && score_on(b@, #[trigger] bk[j]).lt(score_on(a@, bk[j]));
                    assert(0 <= j < i + 1 && score_on(b@, bk[j]).lt(score_on(a@, bk[j])));
                }
            }
        }
        i = i + 1;
    }
    proof {
        a.lemma_table();
        b.lemma_table();
        assert forall|k: Seq<char>| #[trigger] scored(a@, b@, k) implies !score_on(a@, k).lt(
            score_on(b@, k),
        ) by {
            if a@.contains_key(k) {
                assert(ak.contains(k));
                let j = choose|j: int| 0 <= j < ak.len() && ak[j] == k;
                assert(!score_on(a@, ak[j]).lt(score_on(b@, ak[j])));
            } else {
                assert(bk.contains(k));
                let j = choose|j: int| 0 <= j < bk.len() && bk[j] == k;
                assert(!score_on(a@, bk[j]).lt(score_on(b@, bk[j])));
            }
        }
        if found {
            if found_a {
                let j = choose|j: int|
                    0 <= j < ak.len() && score_on(b@, #[trigger] ak[j]).lt(score_on(a@, ak[j]));
                assert(ak.contains(ak[j]));
                assert(scored(a@, b@, ak[j]));
            } else {
                let j = choose|j: int|
                    0 <= j < bk.len() && score_on(b@, #[trigger] bk[j]).lt(score_on(a@, bk[j]));
                assert(bk.contains(bk[j]));
                assert(scored(a@, b@, bk[j]));
            }
        } else {
            assert forall|k: Seq<char>| #[trigger] scored(a@, b@, k) implies !score_on(b@, k).lt(
                score_on(a@, k),
            ) by {
                if a@.contains_key(k) {
                    assert(ak.contains(k));
                    let j = choose|j: int| 0 <= j < ak.len() && ak[j] == k;
                    assert(!score_on(b@, ak[j]).lt(score_on(a@, ak[j])));
                } else {
                    assert(bk.contains(k));
                    let j = choose|j: int| 0 <= j < bk.len() && bk[j] == k;
                    assert(!score_on(b@, bk[j]).lt(score_on(a@, bk[j])));
                }
            }
        }
    }
    found
}

fn both(a: &Scores, b: &Scores, objective: &str) -> (r: (Score, Score))
    requires
        a.wf(),
        b.wf(),
    ensures
        r.0 == score_on(a@, objective@),
        r.1 == score_on(b@, objective@),
{
    let x = match a.get(objective) {
        Some(s) => *s,
        None => Score { bits: 0 },
    };
    let y = match b.get(objective) {
        Some(s) => *s,
        None => Score { bits: 0 },
    };
    (x, y)
}

fn any_scores(s: &Scores) -> (r: bool)
    requires
        s.wf(),
    ensures
        r == has_scores(s@),
{
    proof {
        s.lemma_table();
    }
    if s.len() > 0 {
        proof {
            assert(s.keys().contains(s.keys()[0]));
            assert(s@.contains_key(s.keys()[0]));
        }
        true
    } else {
        proof {
            assert forall|k: Seq<char>| !(#[trigger] s@.contains_key(k)) by {
                assert(!s.keys().contains(k));
            }
        }
        false
    }
}

/// The candidates that no other dominates, by name.
pub struct ParetoFrontier {
    /// The members.
    pub members: Table<Candidate>,
}

/// A member is named by its own name, and its scores are well formed.
pub open spec fn member_wf(k: Seq<char>, c: Candidate) -> bool {
    c.id@ == k && c.scores.wf()
}

/// The members that a candidate with these scores does not dominate.
pub open spec fn undominated(
    m: Map<Seq<char>, Candidate>,
    scores: Map<Seq<char>, Score>,
) -> Map<Seq<char>, Candidate> {
    Map::new(
        |k: Seq<char>| m.contains_key(k) && !dominated_by(m[k].scores@, scores),
        |k: Seq<char>| m[k],
    )
}

/// Some member dominates a candidate with these scores.
pub open spec fn is_covered(m: Map<Seq<char>, Candidate>, scores: Map<Seq<char>, Score>) -> bool {
    exists|k: Seq<char>| #[trigger] m.contains_key(k) && dominated_by(scores, m[k].scores@)
}

/// The members after a candidate came: where a member dominates it they stay as
/// they are, else those that it dominates leave and it is one of them.
pub open spec fn added(m: Map<Seq<char>, Candidate>, c: Candidate) -> Map<Seq<char>, Candidate> {
    if is_covered(m, c.scores@) {
        m
    } else {
        undominated(m, c.scores@).insert(c.id@, c)
    }
}

/// The members after candidates came one after the other, of none at first.
pub open spec fn added_all(cs: Seq<Candidate>) -> Map<Seq<char>, Candidate>
    decreases cs.len(),
{
    if cs.len() == 0 {
        Map::empty()
    } else {
        added(added_all(cs.drop_last()), cs.last())
    }
}

/// No member dominates a member.
pub open spec fn is_antichain(m: Map<Seq<char>, Candidate>) -> bool {
    forall|a: Seq<char>, b: Seq<char>| #[trigger]
        m.contains_key(a) && #[trigger] m.contains_key(b) ==> !dominated_by(
            m[a].scores@,
            m[b].scores@,
        )
}

/// The first of the candidates with the lowest score on an objective.
pub open spec fn weakest(s: Seq<Candidate>, objective: Seq<char>) -> Candidate
    decreases s.len(),
{
    if s.len() <= 1 {
        s[0]
    } else {
        let w = weakest(s.drop_last(), objective);
        if s.last().scores@[objective].lt(w.scores@[objective]) {
            s.last()
        } else {
            w
        }
    }
}

/// The test for candidates that have a score on an objective.
pub open spec fn scored_on(objective: Seq<char>) -> spec_fn(Candidate) -> bool {
    |c: Candidate| c.scores@.contains_key(objective)
}

impl ParetoFrontier {
    /// The table is well formed, and so is each member.
    pub open spec fn wf(&self) -> bool {
        &&& self.members.wf()
        &&& forall|k: Seq<char>| #[trigger] self.members@.contains_key(k) ==> member_wf(
            k,
            self.members@[k],
        )
    }

    /// A frontier without members.
    pub fn new() -> (r: ParetoFrontier)
        ensures
            r.wf(),
            r.members@ == Map::<Seq<char>, Candidate>::empty(),
            is_antichain(r.members@),
    {
        ParetoFrontier { members: Table::new() }
    }

    /// Whether a candidate with scores `a_scores` dominates one with scores
    /// `b_scores`.
    pub fn dominates(a_scores: &Scores, b_scores: &Scores) -> (r: bool)
        requires
            a_scores.wf(),
            b_scores.wf(),
        ensures
            r == dominated_by(b_scores@, a_scores@),
    {
        if !any_scores(a_scores) || !any_scores(b_scores) {
            return false;
        }
        is_better(a_scores, b_scores)
    }

    /// Adds a candidate, unless a member dominates it; says whether it did. The
    /// members that it dominates leave. No member dominates another after it
    /// where none did before.
    pub fn try_add(&mut self, candidate: Candidate) -> (r: bool)
        requires
            old(self).wf(),
            candidate.scores.wf(),
        ensures
            final(self).wf(),
            r == !is_covered(old(self).members@, candidate.scores@),
            !r ==> final(self).members == old(self).members,
            final(self).members@ == added(old(self).members@, candidate),
            is_antichain(old(self).members@) ==> is_antichain(final(self).members@),
    {
        let ghost m = self.members@;
        let ghost cs = candidate.scores@;
        let ghost ks = self.members.keys();
        proof {
            self.members.lemma_table();
        }
        let mut gone: Vec<String> = Vec::new();
        let mut i: usize = 0;
        while i < self.members.len()
            invariant
                i <= ks.len(),
                self.wf(),
                candidate.scores.wf(),
                m == self.members@,
                ks == self.members.keys(),
                cs == candidate.scores@,
                strictly_sorted(ks),
                forall|k: Seq<char>| #[trigger] m.contains_key(k) <==> ks.contains(k),
                forall|j: int| 0 <= j < i ==> !dominated_by(cs, m[#[trigger] ks[j]].scores@),
                forall|j: int|
                    0 <= j < i && dominated_by(m[#[trigger] ks[j]].scores@, cs)
                        ==> crate::order::views(gone@).contains(ks[j]),
                forall|j: int|
                    0 <= j < gone@.len() ==> m.contains_key((#[trigger] gone@[j])@)
                        && dominated_by(m[gone@[j]@].scores@, cs),
            decreases ks.len() - i,
        {
            let existing = self.members.value_at(i);
            proof {
                assert(ks.contains(ks[i as int]));
                assert(m.contains_key(ks[i as int]));
                assert(member_wf(ks[i as int], m[ks[i as int]]));
            }
            if ParetoFrontier::dominates(&existing.scores, &candidate.scores) {
                assert(m.contains_key(ks[i as int]) && dominated_by(cs, m[ks[i as int]].scores@));
                return false;
            }
            if ParetoFrontier::dominates(&candidate.scores, &existing.scores) {
                let ghost was = gone@;
                let name = self.members.key_at(i).clone();
                gone.push(name);
                proof {
                    assert(gone@[was.len() as int]@ == ks[i as int]);
                    assert forall|j: int|
                        0 <= j < i + 1 && dominated_by(
                            m[#[trigger] ks[j]].scores@,
                            cs,
                        ) implies crate::order::views(gone@).contains(ks[j]) by {
                        if j < i {
                            let n = choose|n: int|
                                0 <= n < crate::order::views(was).len() && crate::order::views(
                                    was,
                                )[n] == ks[j];
                            assert(crate::order::views(gone@)[n] == ks[j]);
                        } else {
                            assert(crate::order::views(gone@)[was.len() as int] == ks[j]);
                        }
                    }
                }
            }
            i = i + 1;
        }
        proof {
            assert forall|k: Seq<char>| #[trigger] m.contains_key(k) implies !dominated_by(
                cs,
                m[k].scores@,
            ) by {
                let j = choose|j: int| 0 <= j < ks.len() && ks[j] == k;
                assert(!dominated_by(cs, m[ks[j]].scores@));
            }
            assert(!is_covered(m, cs));
            assert forall|k: Seq<char>|
                m.contains_key(k) && dominated_by(m[k].scores@, cs) implies #[trigger] crate::order::views(
                gone@,
            ).contains(k) by {
                assert(ks.contains(k));
                let j = choose|j: int| 0 <= j < ks.len() && ks[j] == k;
                assert(dominated_by(m[ks[j]].scores@, cs));
            }
        }
        let ghost names = crate::order::views(gone@);
        let mut n: usize = 0;
        while n < gone.len()
            invariant
                n <= gone@.len(),
                names == crate::order::views(gone@),
                self.members.wf(),
                forall|k: Seq<char>| #[trigger]
                    self.members@.contains_key(k) <==> m.contains_key(k) && !names.take(
                        n as int,
                    ).contains(k),
                forall|k: Seq<char>| #[trigger]
                    self.members@.contains_key(k) ==> self.members@[k] == m[k],
            decreases gone@.len() - n,
        {
            let ghost before = self.members@;
            let was_there = self.members.remove(gone[n].as_str());
            proof {
                lemma_take_step(names, n as int);
                assert forall|k: Seq<char>| #[trigger]
                    self.members@.contains_key(k) <==> m.contains_key(k) && !names.take(
                        n + 1,
                    ).contains(k) by {
                    lemma_push_contains(names.take(n as int), names[n as int], k);
                    assert(before.contains_key(k) <==> m.contains_key(k) && !names.take(
                        n as int,
                    ).contains(k));
                }
                assert forall|k: Seq<char>| #[trigger]
                    self.members@.contains_key(k) implies self.members@[k] == m[k] by {
                    assert(before.contains_key(k));
                }
            }
            n = n + 1;
        }
        proof {
            assert(names.take(n as int) =~= names);
            assert forall|k: Seq<char>| #[trigger]
                self.members@.contains_key(k) <==> undominated(m, cs).contains_key(k) by {
                if names.contains(k) {
                    let j = choose|j: int| 0 <= j < names.len() && names[j] == k;
                    assert(gone@[j]@ == k);
                }
            }
            assert(self.members@ =~= undominated(m, cs));
            lemma_stays_antichain(m, candidate);
        }
        let name = candidate.id.clone();
        self.members.insert(name, candidate);
        proof {
            let now = self.members@;
            assert forall|k: Seq<char>| #[trigger] now.contains_key(k) implies member_wf(
                k,
                now[k],
            ) by {
                if k != candidate.id@ {
                    assert(m.contains_key(k));
                    assert(member_wf(k, m[k]));
                }
            }
        }
        true
    }

    /// The number of members.
    pub fn len(&self) -> (r: usize)
        ensures
            r == self.members.keys().len(),
    {
        self.members.len()
    }

    /// Whether there are no members.
    pub fn is_empty(&self) -> (r: bool)
        ensures
            r == (self.members.keys().len() == 0),
    {
        self.members.len() == 0
    }

    /// The first member, by name, with the lowest score on an objective; none
    /// where no member has a score on it.
    pub fn weakest_on(&self, objective: &str) -> (r: Option<&Candidate>)
        requires
            self.wf(),
        ensures
            ({
                let s = keep(self.members.values(), scored_on(objective@));
                match r {
                    Some(c) => s.len() > 0 && *c == weakest(s, objective@),
                    None => s.len() == 0,
                }
            }),
    {
        let ghost all = self.members.values();
        let mut best: Option<&Candidate> = None;
        let mut i: usize = 0;
        assert(all.take(0) =~= Seq::<Candidate>::empty());
        while i < self.members.len()
            invariant
                i <= all.len(),
                self.wf(),
                all == self.members.values(),
                match best {
                    Some(c) => {
                        let s = keep(all.take(i as int), scored_on(objective@));
                        s.len() > 0 && *c == weakest(s, objective@) && c.scores.wf()
                            && c.scores@.contains_key(objective@)
                    },
                    None => keep(all.take(i as int), scored_on(objective@)).len() == 0,
                },
            decreases all.len() - i,
        {
            proof {
                lemma_take_step(all, i as int);
                self.members.lemma_table();
                let k = self.members.keys()[i as int];
                assert(self.members.keys().contains(k));
                assert(self.members@.contains_key(k));
                assert(member_wf(k, self.members@[k]));
            }
            let c = self.members.value_at(i);
            let ghost s = keep(all.take(i as int), scored_on(objective@));
            if let Some(score) = c.scores.get(objective) {
                proof {
                    assert(s.push(*c).drop_last() =~= s);
                    assert(keep(all.take(i + 1), scored_on(objective@)) == s.push(*c));
                }
                match best {
                    Some(b) => {
                        if let Some(low) = b.scores.get(objective) {
                            if score.is_less(*low) {
                                best = Some(c);
                            }
                        }
                    },
                    None => {
                        best = Some(c);
                    },
                }
            }
            i = i + 1;
        }
        assert(all.take(i as int) =~= all);
        best
    }

    /// The members, by name.
    pub fn members_sorted(&self) -> (r: Vec<&Candidate>)
        requires
            self.wf(),
        ensures
            r@.len() == self.members.values().len(),
            forall|i: int| 0 <= i < r@.len() ==> *(#[trigger] r@[i]) == self.members.values()[i],
            strictly_sorted(self.members.keys()),
            forall|i: int|
                0 <= i < r@.len() ==> (#[trigger] r@[i]).id@ == self.members.keys()[i],
    {
        proof {
            self.members.lemma_table();
        }
        let mut r: Vec<&Candidate> = Vec::new();
        let mut i: usize = 0;
        while i < self.members.len()
            invariant
                i <= self.members.keys().len(),
                self.wf(),
                strictly_sorted(self.members.keys()),
                r@.len() == i,
                forall|j: int|
                    0 <= j < i ==> *(#[trigger] r@[j]) == self.members.values()[j] && r@[j].id@
                        == self.members.keys()[j],
            decreases self.members.keys().len() - i,
        {
            let c = self.members.value_at(i);
            proof {
                self.members.lemma_table();
                let k = self.members.keys()[i as int];
                assert(self.members.keys().contains(k));
                assert(self.members@.contains_key(k));
                assert(member_wf(k, self.members@[k]));
            }
            r.push(c);
            i = i + 1;
        }
        r
    }
}

impl Default for ParetoFrontier {
    fn default() -> (r: ParetoFrontier)
        ensures
            r.wf(),
            r.members@ == Map::<Seq<char>, Candidate>::empty(),
    {
        ParetoFrontier::new()
    }
}

proof fn lemma_push_contains(s: Seq<Seq<char>>, x: Seq<char>, k: Seq<char>)
    ensures
        s.push(x).contains(k) <==> s.contains(k) || k == x,
{
    if s.contains(k) {
        let i = choose|i: int| 0 <= i < s.len() && s[i] == k;
        assert(s.push(x)[i] == k);
    }
    if k == x {
        assert(s.push(x)[s.len() as int] == k);
    }
    if s.push(x).contains(k) && k != x {
        let i = choose|i: int| 0 <= i < s.push(x).len() && s.push(x)[i] == k;
        assert(s[i] == k);
    }
}

/// Nothing dominates itself.
pub proof fn lemma_dominance_irreflexive(a: Map<Seq<char>, Score>)
    ensures
        !dominated_by(a, a),
{
}

/// Of two, at most one dominates the other.
pub proof fn lemma_dominance_asymmetric(a: Map<Seq<char>, Score>, b: Map<Seq<char>, Score>)
    ensures
        !(dominated_by(a, b) && dominated_by(b, a)),
{
    if better(b, a) && better(a, b) {
        let k = choose|k: Seq<char>| #[trigger]
            scored(a, b, k) && score_on(b, k).lt(score_on(a, k));
        assert(scored(b, a, k));
    }
}

/// All scores are numbers.
pub open spec fn all_numbers(s: Map<Seq<char>, Score>) -> bool {
    forall|k: Seq<char>| #[trigger] s.contains_key(k) ==> s[k].place() is Some
}

/// What dominates a candidate dominates all that the candidate dominates, where
/// all scores are numbers.
pub proof fn lemma_dominance_transitive(
    a: Map<Seq<char>, Score>,
    b: Map<Seq<char>, Score>,
    c: Map<Seq<char>, Score>,
)
    requires
        all_numbers(a),
        all_numbers(b),
        all_numbers(c),
        dominated_by(b, a),
        dominated_by(c, b),
    ensures
        dominated_by(c, a),
{
    assert forall|k: Seq<char>| true implies score_on(a, k).place() is Some && score_on(
        b,
        k,
    ).place() is Some && score_on(c, k).place() is Some && #[trigger] score_on(a, k).place()->0
        >= score_on(b, k).place()->0 && score_on(b, k).place()->0 >= score_on(c, k).place()->0 by {
        let zero = Score { bits: 0 };
        assert(zero.place() == Some(0int));
        if scored(a, b, k) {
            assert(!score_on(a, k).lt(score_on(b, k)));
        }
        if scored(b, c, k) {
            assert(!score_on(b, k).lt(score_on(c, k)));
        }
    }
    let k = choose|k: Seq<char>| #[trigger]
        scored(a, b, k) && score_on(b, k).lt(score_on(a, k));
    assert(score_on(a, k).place()->0 >= score_on(b, k).place()->0);
    assert(score_on(c, k).lt(score_on(a, k)));
    if !scored(a, c, k) {
        assert(score_on(a, k) == score_on(c, k));
    }
    assert(scored(a, c, k));
    assert forall|x: Seq<char>| #[trigger] scored(a, c, x) implies !score_on(a, x).lt(
        score_on(c, x),
    ) by {
        assert(score_on(a, x).place()->0 >= score_on(b, x).place()->0);
    }
}

proof fn lemma_stays_antichain(m: Map<Seq<char>, Candidate>, c: Candidate)
    requires
        !is_covered(m, c.scores@),
    ensures
        is_antichain(m) ==> is_antichain(undominated(m, c.scores@).insert(c.id@, c)),
{
    if is_antichain(m) {
        let now = undominated(m, c.scores@).insert(c.id@, c);
        assert forall|a: Seq<char>, b: Seq<char>| #[trigger]
            now.contains_key(a) && #[trigger] now.contains_key(b) implies !dominated_by(
            now[a].scores@,
            now[b].scores@,
        ) by {
            lemma_dominance_irreflexive(c.scores@);
            if a != c.id@ {
                assert(m.contains_key(a));
            }
            if b != c.id@ {
                assert(m.contains_key(b));
            }
        }
    }
}

/// Whatever some member dominated before a candidate with a new name was added,
/// some member dominates after, where all scores are numbers.
pub proof fn lemma_stays_covered(
    m: Map<Seq<char>, Candidate>,
    c: Candidate,
    scores: Map<Seq<char>, Score>,
)
    requires
        !m.contains_key(c.id@),
        all_numbers(c.scores@),
        all_numbers(scores),
        forall|k: Seq<char>| #[trigger] m.contains_key(k) ==> all_numbers(m[k].scores@),
        is_covered(m, scores),
    ensures
        is_covered(undominated(m, c.scores@).insert(c.id@, c), scores),
{
    let now = undominated(m, c.scores@).insert(c.id@, c);
    let k = choose|k: Seq<char>| #[trigger]
        m.contains_key(k) && dominated_by(scores, m[k].scores@);
    if dominated_by(m[k].scores@, c.scores@) {
        lemma_dominance_transitive(c.scores@, m[k].scores@, scores);
        assert(now.contains_key(c.id@));
    } else {
        assert(now.contains_key(k));
    }
}

/// Every member that leaves when a candidate is added is dominated by a member
/// that is there after.
pub proof fn lemma_leavers_covered(m: Map<Seq<char>, Candidate>, c: Candidate, k: Seq<char>)
    requires
        m.contains_key(k),
        k != c.id@,
        !undominated(m, c.scores@).insert(c.id@, c).contains_key(k),
    ensures
        is_covered(undominated(m, c.scores@).insert(c.id@, c), m[k].scores@),
{
    let now = undominated(m, c.scores@).insert(c.id@, c);
    assert(now.contains_key(c.id@));
}

/// No candidate dominates the one at `i`.
pub open spec fn stands(cs: Seq<Candidate>, i: int) -> bool {
    forall|j: int| 0 <= j < cs.len() ==> !dominated_by(cs[i].scores@, (#[trigger] cs[j]).scores@)
}

/// The candidates have names of their own, and all their scores are numbers.
pub open spec fn all_distinct(cs: Seq<Candidate>) -> bool {
    &&& forall|i: int| 0 <= i < cs.len() ==> all_numbers((#[trigger] cs[i]).scores@)
    &&& forall|i: int, j: int|
        #![trigger cs[i], cs[j]]
        0 <= i < j < cs.len() ==> cs[i].id@ != cs[j].id@
}

/// The members are exactly the candidates that no candidate dominates, each
/// under its own name.
pub open spec fn holds_best(m: Map<Seq<char>, Candidate>, cs: Seq<Candidate>) -> bool {
    &&& forall|i: int|
        0 <= i < cs.len() && #[trigger] stands(cs, i) ==> m.contains_key(cs[i].id@)
            && m[cs[i].id@] == cs[i]
    &&& forall|k: Seq<char>| #[trigger]
        m.contains_key(k) ==> exists|i: int|
            0 <= i < cs.len() && #[trigger] stands(cs, i) && cs[i].id@ == k && m[k] == cs[i]
}

/// After candidates came one after the other, in whatever order, the members are
/// exactly those that no candidate dominates, each under its own name, where the
/// candidates have names of their own and their scores are numbers; every other
/// is dominated by a member.
pub proof fn lemma_members_are_best(cs: Seq<Candidate>)
    requires
        all_distinct(cs),
    ensures
        holds_best(added_all(cs), cs),
        forall|i: int|
            0 <= i < cs.len() && !(#[trigger] stands(cs, i)) ==> is_covered(
                added_all(cs),
                cs[i].scores@,
            ),
    decreases cs.len(),
{
    if cs.len() > 0 {
        let front = cs.drop_last();
        let c = cs.last();
        let n = front.len() as int;
        let m = added_all(front);
        let now = added_all(cs);
        assert(cs[n] == c);
        assert forall|i: int| 0 <= i < n implies #[trigger] front[i] == cs[i] by {}
        lemma_members_are_best(front);
        assert forall|k: Seq<char>| #[trigger] m.contains_key(k) implies all_numbers(m[k].scores@)
            && k != c.id@ by {
            let i = choose|i: int|
                0 <= i < front.len() && #[trigger] stands(front, i) && front[i].id@ == k && m[k]
                    == front[i];
            assert(front[i] == cs[i]);
        }
        let covered = is_covered(m, c.scores@);
        if covered {
            let k = choose|k: Seq<char>| #[trigger]
                m.contains_key(k) && dominated_by(c.scores@, m[k].scores@);
            let d = choose|d: int|
                0 <= d < front.len() && #[trigger] stands(front, d) && front[d].id@ == k && m[k]
                    == front[d];
            assert(cs[d] == front[d]);
            assert(!stands(cs, n));
            assert forall|i: int| 0 <= i < n implies stands(cs, i) == #[trigger] stands(
                front,
                i,
            ) by {
                assert(front[i] == cs[i]);
                if stands(front, i) {
                    if dominated_by(cs[i].scores@, c.scores@) {
                        lemma_dominance_transitive(cs[d].scores@, c.scores@, cs[i].scores@);
                        assert(dominated_by(front[i].scores@, front[d].scores@));
                    }
                    lemma_stands_longer(cs, i);
                }
                if stands(cs, i) {
                    lemma_stands_shorter(cs, i);
                }
            }
        } else {
            assert forall|j: int| 0 <= j < n implies !dominated_by(
                c.scores@,
                (#[trigger] front[j]).scores@,
            ) by {
                assert(front[j] == cs[j]);
                if dominated_by(c.scores@, front[j].scores@) {
                    if stands(front, j) {
                        assert(m.contains_key(front[j].id@));
                    } else {
                        let k = choose|k: Seq<char>| #[trigger]
                            m.contains_key(k) && dominated_by(front[j].scores@, m[k].scores@);
                        lemma_dominance_transitive(m[k].scores@, front[j].scores@, c.scores@);
                        assert(is_covered(m, c.scores@));
                    }
                }
            }
            assert(stands(cs, n)) by {
                assert forall|j: int| 0 <= j < cs.len() implies !dominated_by(
                    cs[n].scores@,
                    (#[trigger] cs[j]).scores@,
                ) by {
                    if j < n {
                        assert(front[j] == cs[j]);
                    } else {
                        lemma_dominance_irreflexive(c.scores@);
                    }
                }
            }
            assert forall|i: int| 0 <= i < n implies stands(cs, i) == (#[trigger] stands(front, i)
                && !dominated_by(cs[i].scores@, c.scores@)) by {
                assert(front[i] == cs[i]);
                if stands(front, i) && !dominated_by(cs[i].scores@, c.scores@) {
                    lemma_stands_longer(cs, i);
                }
                if stands(cs, i) {
                    lemma_stands_shorter(cs, i);
                    assert(!dominated_by(cs[i].scores@, cs[n].scores@));
                }
            }
            assert forall|i: int| 0 <= i < n && !stands(front, i) implies is_covered(
                now,
                (#[trigger] cs[i]).scores@,
            ) by {
                assert(front[i] == cs[i]);
                assert(is_covered(m, front[i].scores@));
                lemma_stays_covered(m, c, cs[i].scores@);
            }
        }
        assert forall|i: int| 0 <= i < cs.len() && #[trigger] stands(
            cs,
            i,
        ) implies now.contains_key(cs[i].id@) && now[cs[i].id@] == cs[i] by {
            if i < n {
                assert(front[i] == cs[i]);
                assert(stands(front, i));
                assert(m.contains_key(front[i].id@));
                assert(cs[i].id@ != cs[n].id@);
            }
        }
        assert forall|k: Seq<char>| #[trigger] now.contains_key(k) implies exists|i: int|
            0 <= i < cs.len() && #[trigger] stands(cs, i) && cs[i].id@ == k && now[k] == cs[i] by {
            if !covered && k == c.id@ {
                assert(stands(cs, n));
            } else {
                assert(m.contains_key(k));
                let i = choose|i: int|
                    0 <= i < front.len() && #[trigger] stands(front, i) && front[i].id@ == k
                        && m[k] == front[i];
                assert(front[i] == cs[i]);
                assert(stands(cs, i));
            }
        }
        assert forall|i: int| 0 <= i < cs.len() && !(#[trigger] stands(cs, i)) implies is_covered(
            now,
            cs[i].scores@,
        ) by {
            if i < n {
                assert(front[i] == cs[i]);
                if stands(front, i) {
                    assert(!covered);
                    assert(dominated_by(cs[i].scores@, c.scores@));
                    assert(now.contains_key(c.id@));
                }
            }
        }
    }
}

proof fn lemma_stands_longer(cs: Seq<Candidate>, i: int)
    requires
        0 <= i < cs.len() - 1,
        stands(cs.drop_last(), i),
        !dominated_by(cs[i].scores@, cs.last().scores@),
    ensures
        stands(cs, i),
{
    let front = cs.drop_last();
    assert forall|j: int| 0 <= j < cs.len() implies !dominated_by(
        cs[i].scores@,
        (#[trigger] cs[j]).scores@,
    ) by {
        if j < front.len() {
            assert(!dominated_by(front[i].scores@, front[j].scores@));
        }
    }
}

proof fn lemma_stands_shorter(cs: Seq<Candidate>, i: int)
    requires
        0 <= i < cs.len() - 1,
        stands(cs, i),
    ensures
        stands(cs.drop_last(), i),
{
    let front = cs.drop_last();
    assert forall|j: int| 0 <= j < front.len() implies !dominated_by(
        front[i].scores@,
        (#[trigger] front[j]).scores@,
    ) by {
        assert(front[j] == cs[j]);
    }
}

/// The order in which candidates come does not matter: the same candidates leave
/// the same members, where they have names of their own and their scores are
/// numbers.
pub proof fn lemma_order_does_not_matter(cs: Seq<Candidate>, ds: Seq<Candidate>)
    requires
        all_distinct(cs),
        all_distinct(ds),
        forall|c: Candidate| cs.contains(c) <==> ds.contains(c),
    ensures
        added_all(cs) == added_all(ds),
{
    lemma_members_are_best(cs);
    lemma_members_are_best(ds);
    lemma_best_among(cs, ds);
    lemma_best_among(ds, cs);
    assert(added_all(cs) =~= added_all(ds));
}

proof fn lemma_best_among(cs: Seq<Candidate>, ds: Seq<Candidate>)
    requires
        holds_best(added_all(cs), cs),
        holds_best(added_all(ds), ds),
        forall|c: Candidate| cs.contains(c) <==> ds.contains(c),
    ensures
        forall|k: Seq<char>| #[trigger]
            added_all(cs).contains_key(k) ==> added_all(ds).contains_key(k) && added_all(ds)[k]
                == added_all(cs)[k],
{
    let a = added_all(cs);
    let b = added_all(ds);
    assert forall|k: Seq<char>| #[trigger] a.contains_key(k) implies b.contains_key(k) && b[k]
        == a[k] by {
        let i = choose|i: int|
            0 <= i < cs.len() && #[trigger] stands(cs, i) && cs[i].id@ == k && a[k] == cs[i];
        assert(cs.contains(cs[i]));
        assert(ds.contains(cs[i]));
        let j = choose|j: int| 0 <= j < ds.len() && ds[j] == cs[i];
        assert(stands(ds, j)) by {
            assert forall|l: int| 0 <= l < ds.len() implies !dominated_by(
                ds[j].scores@,
                (#[trigger] ds[l]).scores@,
            ) by {
                assert(ds.contains(ds[l]));
                assert(cs.contains(ds[l]));
                let p = choose|p: int| 0 <= p < cs.len() && cs[p] == ds[l];
                assert(!dominated_by(cs[i].scores@, cs[p].scores@));
            }
        }
    }
}

/// The weakest on an objective is one of the candidates, and none of them is
/// weaker, where their scores on it are numbers.
pub proof fn lemma_weakest(s: Seq<Candidate>, objective: Seq<char>)
    requires
        s.len() > 0,
        forall|i: int| 0 <= i < s.len() ==> (#[trigger] s[i]).scores@[objective].place() is Some,
    ensures
        s.contains(weakest(s, objective)),
        forall|i: int|
            0 <= i < s.len() ==> !(#[trigger] s[i]).scores@[objective].lt(
                weakest(s, objective).scores@[objective],
            ),
    decreases s.len(),
{
    if s.len() > 1 {
        let front = s.drop_last();
        assert forall|i: int| 0 <= i < front.len() implies (
        #[trigger] front[i]).scores@[objective].place() is Some by {
            assert(front[i] == s[i]);
        }
        lemma_weakest(front, objective);
        let w = weakest(front, objective);
        let at = choose|at: int| 0 <= at < front.len() && front[at] == w;
        assert(s[at] == w);
        assert(s[s.len() - 1] == s.last());
        assert forall|i: int| 0 <= i < s.len() implies !(#[trigger] s[i]).scores@[objective].lt(
            weakest(s, objective).scores@[objective],
        ) by {
            if i < front.len() {
                assert(front[i] == s[i]);
            }
        }
    } else {
        assert(s[0] == weakest(s, objective));
    }
}

} // verus!
