//! The packages that own a component's files, each with its build time, and
//! what they say of the component's content.
use crate::model::{time_le, ContentMetadata, Timestamp};
use crate::path::{chars_of, string_of};
use crate::text::{
    chars_lt, lemma_chars_lt_irreflexive, lemma_chars_lt_total, lemma_chars_lt_transitive,
    less_than, same_chars, views,
};
use vstd::prelude::*;

verus! {

/// Each name comes strictly before every later one.
pub open spec fn strictly_sorted(s: Seq<Seq<char>>) -> bool {
    forall|i: int, j: int| 0 <= i < j < s.len() ==> #[trigger] chars_lt(s[i], s[j])
}

/// `s` lists the names of `names`, each once, in order.
pub open spec fn is_listing(s: Seq<Seq<char>>, names: Set<Seq<char>>) -> bool {
    &&& strictly_sorted(s)
    &&& forall|x: Seq<char>| s.contains(x) <==> names.contains(x)
}

/// The names of `names`, each once, in order.
pub open spec fn sorted_listing(names: Set<Seq<char>>) -> Seq<Seq<char>> {
    choose|s: Seq<Seq<char>>| is_listing(s, names)
}

/// The names appended one after the other, with a `,` before each name that
/// follows a non-empty text.
pub open spec fn comma_list(names: Seq<Seq<char>>) -> Seq<char>
    decreases names.len(),
{
    if names.len() == 0 {
        Seq::empty()
    } else {
        let s = comma_list(names.drop_last());
        if s.len() > 0 {
            s + seq![','] + names.last()
        } else {
            names.last()
        }
    }
}

/// The version text of a set of packages: their names, in order, separated by `,`.
pub open spec fn package_version(m: Map<Seq<char>, Timestamp>) -> Seq<char> {
    comma_list(sorted_listing(m.dom()))
}

/// `t` is the build time of a package of `m`, and no package of `m` is later.
pub open spec fn is_latest(m: Map<Seq<char>, Timestamp>, t: Timestamp) -> bool {
    &&& exists|n: Seq<char>| #[trigger] m.dom().contains(n) && m[n] == t
    &&& forall|n: Seq<char>| #[trigger] m.dom().contains(n) ==> time_le(m[n], t)
}

/// The latest build time of the packages of `m`.
pub open spec fn latest_time(m: Map<Seq<char>, Timestamp>) -> Timestamp {
    choose|t: Timestamp| is_latest(m, t)
}

/// The metadata that a non-empty set of packages gives: the latest build time,
/// and the names as the version.
pub open spec fn metadata_matches(meta: ContentMetadata, m: Map<Seq<char>, Timestamp>) -> bool {
    &&& meta.timestamp == latest_time(m)
    &&& meta.version matches Some(v) && v@ == package_version(m)
}

/// Two sorted listings of the same names are equal.
pub proof fn lemma_sorted_listing_unique(s1: Seq<Seq<char>>, s2: Seq<Seq<char>>)
    requires
        strictly_sorted(s1),
        strictly_sorted(s2),
        forall|x: Seq<char>| s1.contains(x) <==> s2.contains(x),
    ensures
        s1 == s2,
    decreases s1.len(),
{
    if s1.len() == 0 {
        if s2.len() > 0 {
            assert(s2.contains(s2[0]));
        }
        assert(s1 =~= s2);
    } else {
        assert(s1.contains(s1[0]));
        let a = s1[0];
        let b = s2[0];
        let j = choose|j: int| 0 <= j < s2.len() && s2[j] == a;
        assert(s2.contains(b));
        let i = choose|i: int| 0 <= i < s1.len() && s1[i] == b;
        if a != b {
            assert(j > 0 && i > 0);
            assert(chars_lt(s2[0], s2[j]));
            assert(chars_lt(s1[0], s1[i]));
            lemma_chars_lt_transitive(a, b, a);
            lemma_chars_lt_irreflexive(a);
        }
        let t1 = s1.drop_first();
        let t2 = s2.drop_first();
        assert forall|x: Seq<char>| t1.contains(x) implies t2.contains(x) by {
            let k = choose|k: int| 0 <= k < t1.len() && t1[k] == x;
            assert(chars_lt(s1[0], s1[k + 1]));
            lemma_chars_lt_irreflexive(a);
            assert(s2.contains(x));
            let m = choose|m: int| 0 <= m < s2.len() && s2[m] == x;
            assert(m != 0);
            assert(t2[m - 1] == x);
        }
        assert forall|x: Seq<char>| t2.contains(x) implies t1.contains(x) by {
            let k = choose|k: int| 0 <= k < t2.len() && t2[k] == x;
            assert(chars_lt(s2[0], s2[k + 1]));
            lemma_chars_lt_irreflexive(b);
            assert(s1.contains(x));
            let m = choose|m: int| 0 <= m < s1.len() && s1[m] == x;
            assert(m != 0);
            assert(t1[m - 1] == x);
        }
        assert(strictly_sorted(t1)) by {
            assert forall|p: int, q: int| 0 <= p < q < t1.len() implies chars_lt(t1[p], t1[q]) by {
                assert(chars_lt(s1[p + 1], s1[q + 1]));
            }
        }
        assert(strictly_sorted(t2)) by {
            assert forall|p: int, q: int| 0 <= p < q < t2.len() implies chars_lt(t2[p], t2[q]) by {
                assert(chars_lt(s2[p + 1], s2[q + 1]));
            }
        }
        lemma_sorted_listing_unique(t1, t2);
        assert(s1 =~= seq![a] + t1);
        assert(s2 =~= seq![b] + t2);
    }
}

/// A sorted listing of a set of names is the one that `sorted_listing` names.
pub proof fn lemma_sorted_listing_is(s: Seq<Seq<char>>, names: Set<Seq<char>>)
    requires
        is_listing(s, names),
    ensures
        sorted_listing(names) == s,
{
    let c = sorted_listing(names);
    assert(is_listing(c, names));
    lemma_sorted_listing_unique(c, s);
}

/// A set of packages, each named once, with its build time.
pub struct PackageSet {
    names: Vec<Vec<char>>,
    times: Vec<Timestamp>,
    contents: Ghost<Map<Seq<char>, Timestamp>>,
}

impl View for PackageSet {
    type V = Map<Seq<char>, Timestamp>;

    closed spec fn view(&self) -> Map<Seq<char>, Timestamp> {
        self.contents@
    }
}

impl PackageSet {
    /// The names are sorted, each once, and name exactly the packages of the
    /// set, each beside its build time.
    pub closed spec fn wf(&self) -> bool {
        &&& self.names.len() == self.times.len()
        &&& strictly_sorted(views(self.names@))
        &&& forall|i: int|
            0 <= i < self.names.len() ==> #[trigger] self.contents@.dom().contains(
                self.names@[i]@,
            ) && self.contents@[self.names@[i]@] == self.times@[i]
        &&& forall|n: Seq<char>| #[trigger]
            self.contents@.dom().contains(n) ==> views(self.names@).contains(n)
    }

    /// An empty set.
    pub fn new() -> (s: PackageSet)
        ensures
            s.wf(),
            s@ == Map::<Seq<char>, Timestamp>::empty(),
    {
        PackageSet { names: Vec::new(), times: Vec::new(), contents: Ghost(Map::empty()) }
    }

    /// The number of packages.
    pub fn len(&self) -> (r: usize)
        requires
            self.wf(),
        ensures
            r == self@.dom().len(),
    {
        proof {
            self.lemma_listing();
            let s = views(self.names@);
            assert(s.no_duplicates()) by {
                assert forall|i: int, j: int| 0 <= i < s.len() && 0 <= j < s.len() && i != j
                    implies s[i] != s[j] by {
                    if i < j {
                        assert(chars_lt(s[i], s[j]));
                    } else {
                        assert(chars_lt(s[j], s[i]));
                    }
                    lemma_chars_lt_irreflexive(s[i]);
                }
            }
            s.unique_seq_to_set();
            assert(s.to_set() =~= self@.dom());
        }
        self.names.len()
    }

    /// The names of the set are a sorted listing of its packages.
    proof fn lemma_listing(&self)
        requires
            self.wf(),
        ensures
            is_listing(views(self.names@), self@.dom()),
            self@.dom().finite(),
    {
        let s = views(self.names@);
        assert forall|x: Seq<char>| s.contains(x) implies self@.dom().contains(x) by {
            let k = choose|k: int| 0 <= k < s.len() && s[k] == x;
            assert(self.contents@.dom().contains(self.names@[k]@));
        }
        assert(self@.dom() =~= s.to_set());
    }

    /// Records the build time of a package: a package of the same name is replaced.
    pub fn insert(&mut self, name: &str, time: Timestamp)
        requires
            old(self).wf(),
        ensures
            final(self).wf(),
            final(self)@ == old(self)@.insert(name@, time),
    {
        let key = chars_of(name);
        let ghost old_names = views(self.names@);
        let mut p: usize = 0;
        while p < self.names.len() && less_than(&self.names[p], &key)
            invariant
                p <= self.names.len(),
                self.names.len() == self.times.len(),
                views(self.names@) == old_names,
                forall|j: int| 0 <= j < p ==> #[trigger] chars_lt(old_names[j], key@),
            decreases self.names.len() - p,
        {
            p = p + 1;
        }
        if p < self.names.len() && same_chars(&self.names[p], &key) {
            self.times.set(p, time);
            self.contents = Ghost(self.contents@.insert(name@, time));
            proof {
                let s = views(self.names@);
                assert forall|i: int| 0 <= i < self.names.len() implies #[trigger]
                    self.contents@.dom().contains(self.names@[i]@)
                        && self.contents@[self.names@[i]@] == self.times@[i] by {
                    if i != p {
                        if i < p {
                            assert(chars_lt(s[i], s[p as int]));
                        } else {
                            assert(chars_lt(s[p as int], s[i]));
                        }
                        lemma_chars_lt_irreflexive(s[i]);
                        assert(s[i] == self.names@[i]@);
                    }
                }
                assert forall|n: Seq<char>| #[trigger]
                    self.contents@.dom().contains(n) implies views(self.names@).contains(n) by {
                    if n == name@ {
                        assert(s[p as int] == n);
                    }
                }
            }
        } else {
            let ghost old_self = *self;
            self.names.insert(p, key);
            self.times.insert(p, time);
            self.contents = Ghost(self.contents@.insert(name@, time));
            proof {
                let s = views(self.names@);
                assert(s =~= old_names.insert(p as int, name@));
                if p < old_names.len() {
                    assert(!chars_lt(old_names[p as int], name@));
                    assert(old_names[p as int] != name@);
                    lemma_chars_lt_total(old_names[p as int], name@);
                    assert(chars_lt(name@, old_names[p as int]));
                }
                assert forall|i: int, j: int| 0 <= i < j < s.len() implies #[trigger] chars_lt(
                    s[i],
                    s[j],
                ) by {
                    if j < p {
                        assert(chars_lt(old_names[i], old_names[j]));
                    } else if j == p {
                        assert(chars_lt(old_names[i], key@));
                    } else if i > p {
                        assert(chars_lt(old_names[i - 1], old_names[j - 1]));
                    } else if i == p {
                        if j - 1 > p {
                            assert(chars_lt(old_names[p as int], old_names[j - 1]));
                            lemma_chars_lt_transitive(name@, old_names[p as int], old_names[j - 1]);
                        }
                    } else {
                        assert(chars_lt(old_names[i], old_names[j - 1]));
                    }
                }
                // the new name differs from every old one
                assert forall|k: int| 0 <= k < old_names.len() implies old_names[k] != name@ by {
                    if k < p {
                        assert(chars_lt(old_names[k], key@));
                        lemma_chars_lt_irreflexive(key@);
                    } else {
                        if k > p {
                            assert(chars_lt(old_names[p as int], old_names[k]));
                            lemma_chars_lt_transitive(
                                name@,
                                old_names[p as int],
                                old_names[k],
                            );
                        }
                        lemma_chars_lt_irreflexive(key@);
                    }
                }
                assert forall|i: int| 0 <= i < self.names.len() implies #[trigger]
                    self.contents@.dom().contains(self.names@[i]@)
                        && self.contents@[self.names@[i]@] == self.times@[i] by {
                    assert(s[i] == self.names@[i]@);
                    if i < p {
                        assert(old_self.contents@.dom().contains(old_self.names@[i]@));
                        assert(old_names[i] == old_self.names@[i]@);
                    } else if i > p {
                        assert(old_self.contents@.dom().contains(old_self.names@[i - 1]@));
                        assert(old_names[i - 1] == old_self.names@[i - 1]@);
                    }
                }
                assert forall|n: Seq<char>| #[trigger]
                    self.contents@.dom().contains(n) implies views(self.names@).contains(n) by {
                    if n == name@ {
                        assert(s[p as int] == n);
                    } else {
                        assert(old_self.contents@.dom().contains(n));
                        assert(old_names.contains(n));
                        let k = choose|k: int| 0 <= k < old_names.len() && old_names[k] == n;
                        if k < p {
                            assert(s[k] == n);
                        } else {
                            assert(s[k + 1] == n);
                        }
                    }
                }
            }
        }
    }

    /// The metadata that the packages give: their latest build time, and their
    /// names in order, separated by `,`, as the version; `None` when the set is
    /// empty.
    pub fn content_metadata(&self) -> (r: Option<ContentMetadata>)
        requires
            self.wf(),
        ensures
            self@.dom().finite(),
            r is None <==> self@.dom().len() == 0,
            r is None <==> self@.dom() == Set::<Seq<char>>::empty(),
            r matches Some(meta) ==> metadata_matches(meta, self@),
    {
        proof {
            self.lemma_listing();
        }
        if self.names.len() == 0 {
            proof {
                assert(self@.dom() =~= Set::empty());
            }
            return None;
        }
        proof {
            assert(self@.dom().contains(self.names@[0]@));
            assert(self@.dom().len() > 0) by {
                if self@.dom().len() == 0 {
                    self@.dom().lemma_len0_is_empty();
                }
            }
        }
        // the latest build time
        let mut best = self.times[0];
        let mut i: usize = 1;
        while i < self.times.len()
            invariant
                1 <= i <= self.times.len(),
                self.times.len() == self.names.len(),
                exists|k: int| 0 <= k < i && self.times@[k] == best,
                forall|k: int| 0 <= k < i ==> time_le(#[trigger] self.times@[k], best),
            decreases self.times.len() - i,
        {
            let t = self.times[i];
            if best.is_le(&t) {
                best = t;
            }
            i = i + 1;
        }
        proof {
            let m = self@;
            let k = choose|k: int| 0 <= k < self.times.len() && self.times@[k] == best;
            assert(m.dom().contains(self.names@[k]@));
            assert forall|n: Seq<char>| #[trigger] m.dom().contains(n) implies time_le(
                m[n],
                best,
            ) by {
                assert(views(self.names@).contains(n));
                let j = choose|j: int|
                    0 <= j < views(self.names@).len() && views(self.names@)[j] == n;
                assert(self.contents@.dom().contains(self.names@[j]@));
                assert(time_le(self.times@[j], best));
            }
            assert(is_latest(m, best));
            let c = latest_time(m);
            assert(is_latest(m, c));
            let n1 = choose|n: Seq<char>| #[trigger] m.dom().contains(n) && m[n] == c;
            assert(time_le(m[n1], best));
            assert(time_le(m[self.names@[k]@], c));
        }
        // the names, in order, separated by `,`
        let mut text: Vec<char> = Vec::new();
        let mut j: usize = 0;
        while j < self.names.len()
            invariant
                j <= self.names.len(),
                text@ == comma_list(views(self.names@).take(j as int)),
            decreases self.names.len() - j,
        {
            proof {
                assert(views(self.names@).take(j + 1).drop_last() =~= views(self.names@).take(
                    j as int,
                ));
            }
            let ghost before = text@;
            if text.len() > 0 {
                text.push(',');
            }
            let mut part = self.names[j].clone();
            text.append(&mut part);
            proof {
                if before.len() > 0 {
                    assert(text@ =~= before + seq![','] + self.names@[j as int]@);
                } else {
                    assert(text@ =~= self.names@[j as int]@);
                }
            }
            j = j + 1;
        }
        proof {
            assert(views(self.names@).take(self.names.len() as int) =~= views(self.names@));
            lemma_sorted_listing_is(views(self.names@), self@.dom());
        }
        Some(ContentMetadata { timestamp: best, version: Some(string_of(&text)) })
    }
}

} // verus!
