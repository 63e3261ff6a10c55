//! The session cookie mapping, and the parser that builds it from a jar's
//! combined cookie header.
//!
//! A combined header such as `"a=1; b=2; malformed; c=3"` is split on `;`;
//! each segment is trimmed and cut at its first `=`; a segment with no `=`
//! is dropped, not an error. Later pairs of the same name override earlier
//! ones, as a mapping must.

use vstd::prelude::*;
use vstd::string::StrSliceExecFns;
use vstd::string::StringExecFns;
use crate::pairs::lemma_mapping_at;
use crate::pairs::lemma_mapping_contains;
use crate::pairs::lemma_mapping_push;
use crate::pairs::lemma_mapping_update;
use crate::pairs::mapping_of_pairs;
use crate::pairs::unique_names;
use crate::text::find_char;
use crate::text::find_char_in;
use crate::text::lemma_find_char;
use crate::text::split_on;
use crate::text::split_str;
use crate::text::str_eq_chars;
use crate::text::trim_spec;
use crate::text::trim_str;

verus! {

/// The name/value pair one `;`-separated segment yields: the segment is
/// trimmed and cut at its first `=`; with no `=` it yields nothing.
pub open spec fn cookie_pair_of(seg: Seq<char>) -> Option<(Seq<char>, Seq<char>)> {
    let t = trim_spec(seg);
    match find_char(t, '=') {
        None => None,
        Some(i) => Some((t.take(i), t.skip(i + 1))),
    }
}

/// The pairs of a sequence of segments, in order, malformed segments
/// dropped.
pub open spec fn cookie_pairs_of(segs: Seq<Seq<char>>) -> Seq<(Seq<char>, Seq<char>)>
    decreases segs.len(),
{
    if segs.len() == 0 {
        Seq::empty()
    } else {
        match cookie_pair_of(segs[0]) {
            None => cookie_pairs_of(segs.drop_first()),
            Some(p) => seq![p] + cookie_pairs_of(segs.drop_first()),
        }
    }
}

/// Every pair a combined cookie header holds, in order.
pub open spec fn parsed_cookie_pairs(s: Seq<char>) -> Seq<(Seq<char>, Seq<char>)> {
    cookie_pairs_of(split_on(s, ';'))
}

/// The mapping a combined cookie header denotes.
pub open spec fn cookie_mapping_of(s: Seq<char>) -> Map<Seq<char>, Seq<char>> {
    mapping_of_pairs(parsed_cookie_pairs(s))
}

/// An in-memory mapping from cookie name to cookie value: the session
/// state one login call returns.
#[derive(Debug)]
pub struct CookieMap {
    entries: Vec<(String, String)>,
}

impl CookieMap {
    /// The name/value pairs, in insertion order, as character sequences.
    pub closed spec fn pair_seq(self) -> Seq<(Seq<char>, Seq<char>)> {
        self.entries@.map_values(|p: (String, String)| (p.0@, p.1@))
    }

    /// Each cookie name occurs at most once.
    pub open spec fn wf(self) -> bool {
        unique_names(self.pair_seq())
    }

    /// The mapping the pairs denote.
    pub open spec fn as_mapping(self) -> Map<Seq<char>, Seq<char>> {
        mapping_of_pairs(self.pair_seq())
    }

    /// An empty mapping.
    pub fn new() -> (r: CookieMap)
        ensures
            r.wf(),
            r.pair_seq() == Seq::<(Seq<char>, Seq<char>)>::empty(),
            r.as_mapping() == Map::<Seq<char>, Seq<char>>::empty(),
    {
        let r = CookieMap { entries: Vec::new() };
        proof {
            assert(r.pair_seq() =~= Seq::<(Seq<char>, Seq<char>)>::empty());
        }
        r
    }

    /// The index of the entry carrying `name`, if one exists.
    fn position_of(&self, name: &str) -> (r: Option<usize>)
        ensures
            match r {
                Some(i) => 0 <= i < self.pair_seq().len() && self.pair_seq()[i as int].0 == name@
                    && forall|j: int| 0 <= j < i ==> self.pair_seq()[j].0 != name@,
                None => forall|j: int|
                    0 <= j < self.pair_seq().len() ==> self.pair_seq()[j].0 != name@,
            },
    {
        let n: usize = self.entries.len();
        let mut i: usize = 0;
        while i < n
            invariant
                n == self.entries.len(),
                0 <= i <= n,
                forall|j: int| 0 <= j < i ==> self.pair_seq()[j].0 != name@,
            decreases n - i,
        {
            if str_eq_chars(self.entries[i].0.as_str(), name) {
                return Some(i);
            }
            i = i + 1;
        }
        None
    }

    /// Insert `name = value`: an existing entry of that name is replaced in
    /// place, otherwise the pair is appended.
    pub fn insert(&mut self, name: String, value: String)
        requires
            old(self).wf(),
        ensures
            final(self).wf(),
            final(self).as_mapping() == old(self).as_mapping().insert(name@, value@),
            final(self).pair_seq().len() <= old(self).pair_seq().len() + 1,
    {
        let ghost nv = name@;
        let ghost vv = value@;
        let ghost ps0 = self.pair_seq();
        match self.position_of(name.as_str()) {
            Some(i) => {
                self.entries.remove(i);
                self.entries.insert(i, (name, value));
                proof {
                    assert(self.pair_seq() =~= ps0.update(i as int, (nv, vv)));
                    lemma_mapping_update(ps0, i as int, vv);
                    assert forall|a: int, b: int|
                        0 <= a < b < self.pair_seq().len() implies self.pair_seq()[a].0
                        != self.pair_seq()[b].0 by {
                        assert(self.pair_seq()[a].0 == ps0[a].0);
                        assert(self.pair_seq()[b].0 == ps0[b].0);
                    }
                }
            },
            None => {
                self.entries.push((name, value));
                proof {
                    assert(self.pair_seq() =~= ps0.push((nv, vv)));
                    lemma_mapping_push(ps0, (nv, vv));
                    assert forall|a: int, b: int|
                        0 <= a < b < self.pair_seq().len() implies self.pair_seq()[a].0
                        != self.pair_seq()[b].0 by {
                        if b < ps0.len() {
                            assert(self.pair_seq()[a].0 == ps0[a].0);
                            assert(self.pair_seq()[b].0 == ps0[b].0);
                        } else {
                            assert(self.pair_seq()[a].0 == ps0[a].0);
                            assert(self.pair_seq()[b] == (nv, vv));
                        }
                    }
                }
            },
        }
    }

    /// The value stored under `name`, if any.
    pub fn get<'a>(&'a self, name: &str) -> (r: Option<&'a String>)
        requires
            self.wf(),
        ensures
            match r {
                Some(v) => self.as_mapping().dom().contains(name@) && v@ == self.as_mapping()[name@],
                None => !self.as_mapping().dom().contains(name@),
            },
    {
        match self.position_of(name) {
            Some(i) => {
                proof {
                    lemma_mapping_at(self.pair_seq(), i as int);
                }
                Some(&self.entries[i].1)
            },
            None => {
                proof {
                    lemma_mapping_contains(self.pair_seq(), name@);
                }
                None
            },
        }
    }

    /// How many cookies the mapping holds.
    pub fn len(&self) -> (n: usize)
        ensures
            n == self.pair_seq().len(),
    {
        self.entries.len()
    }

    /// The pairs in insertion order, for callers that hand the mapping on.
    pub fn pairs(&self) -> (r: &Vec<(String, String)>)
        ensures
            r@.len() == self.pair_seq().len(),
            forall|i: int|
                0 <= i < r@.len() ==> ((#[trigger] r@[i]).0@, r@[i].1@) == self.pair_seq()[i],
    {
        &self.entries
    }
}

/// Concatenating segment lists concatenates their pairs.
proof fn lemma_pairs_concat(a: Seq<Seq<char>>, b: Seq<Seq<char>>)
    ensures
        cookie_pairs_of(a + b) == cookie_pairs_of(a) + cookie_pairs_of(b),
    decreases a.len(),
{
    if a.len() == 0 {
        assert(a + b =~= b);
        assert(cookie_pairs_of(a) + cookie_pairs_of(b) =~= cookie_pairs_of(b));
    } else {
        assert((a + b).len() > 0);
        assert((a + b)[0] == a[0]);
        assert((a + b).drop_first() =~= a.drop_first() + b);
        lemma_pairs_concat(a.drop_first(), b);
        match cookie_pair_of(a[0]) {
            None => {},
            Some(p) => {
                assert(seq![p] + (cookie_pairs_of(a.drop_first()) + cookie_pairs_of(b)) =~= (
                seq![p] + cookie_pairs_of(a.drop_first())) + cookie_pairs_of(b));
            },
        }
    }
}

/// Taking one more segment appends that segment's pair, if it has one.
proof fn lemma_pairs_take_step(segs: Seq<Seq<char>>, i: int)
    requires
        0 <= i < segs.len(),
    ensures
        cookie_pairs_of(segs.take(i + 1)) == match cookie_pair_of(segs[i]) {
            None => cookie_pairs_of(segs.take(i)),
            Some(p) => cookie_pairs_of(segs.take(i)).push(p),
        },
{
    let one = seq![segs[i]];
    assert(segs.take(i + 1) =~= segs.take(i) + one);
    lemma_pairs_concat(segs.take(i), one);
    assert(one.drop_first() =~= Seq::<Seq<char>>::empty());
    assert(one[0] == segs[i]);
    assert(cookie_pairs_of(Seq::<Seq<char>>::empty()) =~= Seq::<(Seq<char>, Seq<char>)>::empty());
    match cookie_pair_of(segs[i]) {
        None => {
            assert(cookie_pairs_of(one) =~= Seq::<(Seq<char>, Seq<char>)>::empty());
            assert(cookie_pairs_of(segs.take(i)) + cookie_pairs_of(one) =~= cookie_pairs_of(
                segs.take(i),
            ));
        },
        Some(p) => {
            assert(cookie_pairs_of(one) =~= seq![p]);
            assert(cookie_pairs_of(segs.take(i)) + seq![p] =~= cookie_pairs_of(
                segs.take(i),
            ).push(p));
        },
    }
}

/// Parse a jar's combined cookie header into a cookie mapping: split on
/// `;`, trim each segment, cut at the first `=`, drop segments with no
/// `=`.
pub fn parse_cookie_header(s: &str) -> (r: CookieMap)
    ensures
        r.wf(),
        r.as_mapping() == cookie_mapping_of(s@),
{
    let ghost segviews = split_on(s@, ';');
    let segs = split_str(s, ';');
    let mut m = CookieMap::new();
    let n: usize = segs.len();
    let mut idx: usize = 0;
    while idx < n
        invariant
            n == segs@.len(),
            0 <= idx <= n,
            segs@.len() == segviews.len(),
            forall|i: int| 0 <= i < segviews.len() ==> (#[trigger] segs@[i])@ == segviews[i],
            m.wf(),
            m.as_mapping() == mapping_of_pairs(cookie_pairs_of(segviews.take(idx as int))),
        decreases n - idx,
    {
        let t = trim_str(segs[idx].as_str());
        let ghost tview = t@;
        let ghost pairs_before = cookie_pairs_of(segviews.take(idx as int));
        proof {
            assert(tview == trim_spec(segviews[idx as int]));
            lemma_pairs_take_step(segviews, idx as int);
        }
        match find_char_in(t, '=') {
            Some(e) => {
                proof {
                    lemma_find_char(tview, '=');
                }
                let tn: usize = t.unicode_len();
                let nm = t.substring_char(0, e);
                let vl = t.substring_char(e + 1, tn);
                proof {
                    assert(nm@ =~= tview.take(e as int));
                    assert(vl@ =~= tview.skip(e + 1));
                }
                m.insert(String::from_str(nm), String::from_str(vl));
                proof {
                    lemma_mapping_push(pairs_before, (nm@, vl@));
                }
            },
            None => {},
        }
        idx = idx + 1;
    }
    proof {
        assert(segviews.take(n as int) =~= segviews);
    }
    m
}

} // verus!
