//! An in-memory provider that records what each token would have received.
//! It is not synchronised: give each test its own instance.
use vstd::prelude::*;
use crate::payload::{same_payload, MessagePayload};

verus! {

/// What a `NoopProvider` holds: for each token that was sent to, the
/// payloads in the order they came.
pub struct NoopProvider {
    notifications: Vec<(String, Vec<MessagePayload>)>,
}

pub open spec fn keys_unique(s: Seq<(String, Vec<MessagePayload>)>) -> bool {
    forall|i: int, j: int|
        0 <= i < s.len() && 0 <= j < s.len() && i != j ==> #[trigger] s[i].0@ != #[trigger] s[j].0@
}

pub open spec fn has_key(s: Seq<(String, Vec<MessagePayload>)>, k: Seq<char>) -> bool {
    exists|i: int| 0 <= i < s.len() && #[trigger] s[i].0@ == k
}

pub open spec fn key_index(s: Seq<(String, Vec<MessagePayload>)>, k: Seq<char>) -> int {
    choose|i: int| 0 <= i < s.len() && #[trigger] s[i].0@ == k
}

pub open spec fn entries_map(s: Seq<(String, Vec<MessagePayload>)>) -> Map<Seq<char>, Seq<MessagePayload>> {
    Map::new(|k: Seq<char>| has_key(s, k), |k: Seq<char>| s[key_index(s, k)].1@)
}

/// The payloads that `token` received, after one more arrives.
pub open spec fn appended(m: Map<Seq<char>, Seq<MessagePayload>>, token: Seq<char>, p: MessagePayload) -> Seq<MessagePayload> {
    if m.contains_key(token) {
        m[token].push(p)
    } else {
        seq![p]
    }
}

proof fn lemma_entry_at(s: Seq<(String, Vec<MessagePayload>)>, i: int)
    requires
        keys_unique(s),
        0 <= i < s.len(),
    ensures
        entries_map(s).contains_key(s[i].0@),
        entries_map(s)[s[i].0@] == s[i].1@,
{
    let k = s[i].0@;
    assert(has_key(s, k));
    let j = key_index(s, k);
    assert(s[j].0@ == k);
}

proof fn lemma_map_after_update(
    s: Seq<(String, Vec<MessagePayload>)>,
    i: int,
    e: (String, Vec<MessagePayload>),
)
    requires
        keys_unique(s),
        0 <= i < s.len(),
        e.0@ == s[i].0@,
    ensures
        keys_unique(s.update(i, e)),
        entries_map(s.update(i, e)) =~= entries_map(s).insert(e.0@, e.1@),
{
    let t = s.update(i, e);
    assert(keys_unique(t)) by {
        assert forall|a: int, b: int|
            0 <= a < t.len() && 0 <= b < t.len() && a != b implies #[trigger] t[a].0@ != #[trigger] t[b].0@ by {
            assert(s[a].0@ != s[b].0@);
        }
    }
    lemma_entry_at(t, i);
    assert forall|k: Seq<char>| #[trigger] has_key(t, k) == (has_key(s, k) || k == e.0@) by {
        if has_key(s, k) {
            let j = key_index(s, k);
            assert(t[j].0@ == k);
        }
        if has_key(t, k) {
            let j = key_index(t, k);
            assert(s[j].0@ == k || j == i);
        }
    }
    assert forall|k: Seq<char>| has_key(t, k) && k != e.0@ implies entries_map(t)[k] == entries_map(s)[k] by {
        let j = key_index(s, k);
        assert(j != i);
        assert(t[j] == s[j]);
        lemma_entry_at(t, j);
        lemma_entry_at(s, j);
    }
}

proof fn lemma_map_after_push(s: Seq<(String, Vec<MessagePayload>)>, e: (String, Vec<MessagePayload>))
    requires
        keys_unique(s),
        !has_key(s, e.0@),
    ensures
        keys_unique(s.push(e)),
        entries_map(s.push(e)) =~= entries_map(s).insert(e.0@, e.1@),
{
    let t = s.push(e);
    assert(keys_unique(t)) by {
        assert forall|a: int, b: int|
            0 <= a < t.len() && 0 <= b < t.len() && a != b implies #[trigger] t[a].0@ != #[trigger] t[b].0@ by {
            if a < s.len() && b < s.len() {
                assert(s[a].0@ != s[b].0@);
            } else if a < s.len() {
                assert(s[a].0@ != e.0@);
            } else if b < s.len() {
                assert(s[b].0@ != e.0@);
            }
        }
    }
    lemma_entry_at(t, s.len() as int);
    assert forall|k: Seq<char>| #[trigger] has_key(t, k) == (has_key(s, k) || k == e.0@) by {
        if has_key(s, k) {
            let j = key_index(s, k);
            assert(t[j].0@ == k);
        }
        if has_key(t, k) && k != e.0@ {
            let j = key_index(t, k);
            assert(s[j].0@ == k);
        }
    }
    assert forall|k: Seq<char>| has_key(t, k) && k != e.0@ implies entries_map(t)[k] == entries_map(s)[k] by {
        let j = key_index(s, k);
        assert(t[j] == s[j]);
        lemma_entry_at(t, j);
        lemma_entry_at(s, j);
    }
}

impl View for NoopProvider {
    type V = Map<Seq<char>, Seq<MessagePayload>>;

    closed spec fn view(&self) -> Map<Seq<char>, Seq<MessagePayload>> {
        entries_map(self.notifications@)
    }
}

impl NoopProvider {
    /// Each token is recorded once.
    pub closed spec fn wf(&self) -> bool {
        keys_unique(self.notifications@)
    }

    /// A provider that has recorded nothing.
    pub fn new() -> (r: Self)
        ensures
            r.wf(),
            r@ == Map::<Seq<char>, Seq<MessagePayload>>::empty(),
    {
        let r = NoopProvider { notifications: Vec::new() };
        assert(r@ =~= Map::<Seq<char>, Seq<MessagePayload>>::empty());
        r
    }

    fn position(&self, token: &String) -> (r: Option<usize>)
        ensures
            match r {
                Some(i) => i < self.notifications@.len() && self.notifications@[i as int].0@
                    == token@,
                None => !has_key(self.notifications@, token@),
            },
    {
        let mut i: usize = 0;
        while i < self.notifications.len()
            invariant
                i <= self.notifications@.len(),
                forall|j: int| 0 <= j < i ==> #[trigger] self.notifications@[j].0@ != token@,
            decreases self.notifications@.len() - i,
        {
            if self.notifications[i].0 == *token {
                return Some(i);
            }
            i = i + 1;
        }
        None
    }

    /// Gives `token` an empty record if it has none.
    pub fn bootstrap(&mut self, token: String)
        requires
            old(self).wf(),
        ensures
            final(self).wf(),
            final(self)@ == (if old(self)@.contains_key(token@) {
                old(self)@
            } else {
                old(self)@.insert(token@, Seq::empty())
            }),
    {
        match self.position(&token) {
            Some(_) => {},
            None => {
                let ghost s = self.notifications@;
                let e = (token, Vec::new());
                proof {
                    lemma_map_after_push(s, e);
                }
                self.notifications.push(e);
                assert(e.1@ =~= Seq::<MessagePayload>::empty());
            },
        }
    }

    /// Records `payload` as the latest one sent to `token`; always succeeds.
    pub fn send_notification(&mut self, token: String, payload: MessagePayload)
        requires
            old(self).wf(),
        ensures
            final(self).wf(),
            final(self)@ == old(self)@.insert(token@, appended(old(self)@, token@, payload)),
    {
        let ghost before = self@;
        let probe = token.clone();
        self.bootstrap(token);
        let i = match self.position(&probe) {
            Some(i) => i,
            None => {
                assert(self@.contains_key(probe@));
                assert(entries_map(self.notifications@).dom().contains(probe@));
                assert(has_key(self.notifications@, probe@));
                return;
            },
        };
        let ghost s = self.notifications@;
        proof {
            lemma_entry_at(s, i as int);
        }
        let (k, mut list) = self.notifications.remove(i);
        list.push(payload);
        let e = (k, list);
        proof {
            lemma_map_after_update(s, i as int, e);
            assert(s.remove(i as int).insert(i as int, e) =~= s.update(i as int, e));
        }
        self.notifications.insert(i, e);
    }

    /// The payloads recorded for `token`, if any.
    pub fn notifications_for(&self, token: &String) -> (r: Option<&Vec<MessagePayload>>)
        requires
            self.wf(),
        ensures
            r.is_some() == self@.contains_key(token@),
            r.is_some() ==> r.unwrap()@ == self@[token@],
    {
        match self.position(token) {
            Some(i) => {
                proof {
                    lemma_entry_at(self.notifications@, i as int);
                }
                Some(&self.notifications[i].1)
            },
            None => None,
        }
    }
}

proof fn lemma_same_entries(s: Seq<(String, Vec<MessagePayload>)>, t: Seq<(String, Vec<MessagePayload>)>)
    requires
        keys_unique(s),
        s.len() == t.len(),
        forall|j: int| 0 <= j < s.len() ==> #[trigger] t[j].0@ == s[j].0@ && t[j].1@ == s[j].1@,
    ensures
        keys_unique(t),
        entries_map(t) =~= entries_map(s),
{
    assert(keys_unique(t)) by {
        assert forall|a: int, b: int|
            0 <= a < t.len() && 0 <= b < t.len() && a != b implies #[trigger] t[a].0@ != #[trigger] t[b].0@ by {
            assert(s[a].0@ != s[b].0@);
        }
    }
    assert forall|k: Seq<char>| #[trigger] has_key(t, k) == has_key(s, k) by {
        if has_key(s, k) {
            let j = key_index(s, k);
            assert(t[j].0@ == k);
        }
        if has_key(t, k) {
            let j = key_index(t, k);
            assert(s[j].0@ == k);
        }
    }
    assert forall|k: Seq<char>| has_key(s, k) implies entries_map(t)[k] == entries_map(s)[k] by {
        let j = key_index(s, k);
        lemma_entry_at(s, j);
        lemma_entry_at(t, j);
    }
}

impl Clone for NoopProvider {
    /// A copy of everything recorded.
    fn clone(&self) -> (r: Self)
        ensures
            self.wf() ==> r.wf() && r@ == self@,
    {
        let mut out: Vec<(String, Vec<MessagePayload>)> = Vec::new();
        let mut i: usize = 0;
        while i < self.notifications.len()
            invariant
                i <= self.notifications@.len(),
                out@.len() == i,
                forall|j: int|
                    0 <= j < i ==> #[trigger] out@[j].0@ == self.notifications@[j].0@
                        && out@[j].1@ == self.notifications@[j].1@,
            decreases self.notifications@.len() - i,
        {
            let mut list: Vec<MessagePayload> = Vec::new();
            let src = &self.notifications[i].1;
            let mut k: usize = 0;
            while k < src.len()
                invariant
                    k <= src@.len(),
                    list@ == src@.subrange(0, k as int),
                decreases src@.len() - k,
            {
                list.push(src[k].clone());
                k = k + 1;
                assert(list@ =~= src@.subrange(0, k as int));
            }
            assert(list@ =~= src@);
            out.push((self.notifications[i].0.clone(), list));
            i = i + 1;
        }
        let r = NoopProvider { notifications: out };
        proof {
            if self.wf() {
                lemma_same_entries(self.notifications@, out@);
            }
        }
        r
    }
}

/// Two payload sequences that agree payload by payload.
pub open spec fn same_payloads(a: Seq<MessagePayload>, b: Seq<MessagePayload>) -> bool {
    a.len() == b.len() && forall|i: int| 0 <= i < a.len() ==> same_payload(#[trigger] a[i], b[i])
}

/// Two records with the same tokens, each with the same payloads in order.
pub open spec fn same_records(
    a: Map<Seq<char>, Seq<MessagePayload>>,
    b: Map<Seq<char>, Seq<MessagePayload>>,
) -> bool {
    &&& a.dom() == b.dom()
    &&& forall|k: Seq<char>| #[trigger] a.contains_key(k) ==> same_payloads(a[k], b[k])
}

fn same_list(a: &Vec<MessagePayload>, b: &Vec<MessagePayload>) -> (r: bool)
    ensures
        r == same_payloads(a@, b@),
{
    if a.len() != b.len() {
        return false;
    }
    let mut i: usize = 0;
    while i < a.len()
        invariant
            a@.len() == b@.len(),
            i <= a@.len(),
            forall|j: int| 0 <= j < i ==> same_payload(#[trigger] a@[j], b@[j]),
        decreases a@.len() - i,
    {
        if !(a[i] == b[i]) {
            return false;
        }
        i = i + 1;
    }
    true
}

impl PartialEq for NoopProvider {
    /// Whether both recorded the same payloads for the same tokens, whatever
    /// the order in which the tokens were first used.
    fn eq(&self, other: &Self) -> (r: bool)
        ensures
            self.wf() && other.wf() ==> r == same_records(self@, other@),
    {
        let ghost s = self.notifications@;
        let ghost o = other.notifications@;
        let mut i: usize = 0;
        while i < self.notifications.len()
            invariant
                s == self.notifications@,
                o == other.notifications@,
                i <= s.len(),
                forall|j: int|
                    0 <= j < i ==> has_key(o, #[trigger] s[j].0@) && (keys_unique(o)
                        ==> same_payloads(s[j].1@, entries_map(o)[s[j].0@])),
            decreases s.len() - i,
        {
            match other.position(&self.notifications[i].0) {
                None => {
                    proof {
                        if keys_unique(s) && keys_unique(o) {
                            lemma_entry_at(s, i as int);
                            assert(!entries_map(o).contains_key(s[i as int].0@));
                        }
                    }
                    return false;
                },
                Some(j) => {
                    proof {
                        if keys_unique(o) {
                            lemma_entry_at(o, j as int);
                        }
                    }
                    if !same_list(&self.notifications[i].1, &other.notifications[j].1) {
                        proof {
                            if keys_unique(s) && keys_unique(o) {
                                lemma_entry_at(s, i as int);
                                let k = s[i as int].0@;
                                assert(entries_map(s).contains_key(k));
                                assert(!same_payloads(entries_map(s)[k], entries_map(o)[k]));
                            }
                        }
                        return false;
                    }
                    assert(o[j as int].0@ == s[i as int].0@);
                    assert(has_key(o, s[i as int].0@));
                },
            }
            i = i + 1;
        }
        let mut i: usize = 0;
        while i < other.notifications.len()
            invariant
                s == self.notifications@,
                o == other.notifications@,
                i <= o.len(),
                forall|j: int| 0 <= j < i ==> has_key(s, #[trigger] o[j].0@),
            decreases o.len() - i,
        {
            match self.position(&other.notifications[i].0) {
                None => {
                    proof {
                        if keys_unique(s) && keys_unique(o) {
                            lemma_entry_at(o, i as int);
                            assert(!entries_map(s).contains_key(o[i as int].0@));
                        }
                    }
                    return false;
                },
                Some(j) => {
                    assert(has_key(s, o[i as int].0@));
                },
            }
            i = i + 1;
        }
        proof {
            if keys_unique(s) && keys_unique(o) {
                assert forall|k: Seq<char>| #[trigger] entries_map(s).contains_key(k) implies entries_map(o).contains_key(k) && same_payloads(entries_map(s)[k], entries_map(o)[k]) by {
                    let j = key_index(s, k);
                    lemma_entry_at(s, j);
                }
                assert forall|k: Seq<char>| #[trigger] entries_map(o).contains_key(k) implies entries_map(s).contains_key(k) by {
                    let j = key_index(o, k);
                    assert(o[j].0@ == k);
                }
                assert(entries_map(s).dom() =~= entries_map(o).dom());
            }
        }
        true
    }
}

impl vstd::std_specs::cmp::PartialEqSpecImpl for NoopProvider {
    /// `==` is exact only on well-formed values, which are all that the
    /// public methods make.
    open spec fn obeys_eq_spec() -> bool {
        false
    }

    open spec fn eq_spec(&self, other: &NoopProvider) -> bool {
        same_records(self@, other@)
    }
}

impl Default for NoopProvider {
    fn default() -> (r: Self)
        ensures
            r.wf(),
            r@ == Map::<Seq<char>, Seq<MessagePayload>>::empty(),
    {
        NoopProvider::new()
    }
}

/// Starting from nothing, two sends to one token record exactly the two
/// payloads in the order sent, and a token never sent to has no record at
/// all (not an empty one).
pub proof fn lemma_sends_recorded_in_order(
    fresh: NoopProvider,
    once: NoopProvider,
    twice: NoopProvider,
    token: Seq<char>,
    untouched: Seq<char>,
    first: MessagePayload,
    second: MessagePayload,
)
    requires
        fresh@ == Map::<Seq<char>, Seq<MessagePayload>>::empty(),
        once@ == fresh@.insert(token, appended(fresh@, token, first)),
        twice@ == once@.insert(token, appended(once@, token, second)),
        untouched != token,
    ensures
        twice@[token] == seq![first, second],
        !twice@.contains_key(untouched),
{
    assert(seq![first].push(second) =~= seq![first, second]);
}

} // verus!
