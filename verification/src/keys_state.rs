//! Ordered tracking of the currently held keys.
//!
//! A key is an integer semitone offset. The tracker keeps the held keys in
//! press order, most recently pressed last, with no duplicates. Pressing a
//! key that is already held moves it to the most-recently-pressed position;
//! releasing a key that is not held is a silent no-op. After every event the
//! tracker hands out the full ordered snapshot, which is the only way
//! downstream consumers observe key state.

use vstd::prelude::*;

verus! {

/// An inbound key event: a key went down or came up.
#[derive(Clone, Copy, Debug, PartialEq, Eq, Structural)]
pub enum KeyAction {
    Press(i32),
    Release(i32),
}

/// The sequence holds no key twice.
pub open spec fn no_dup(s: Seq<i32>) -> bool {
    forall|i: int, j: int| 0 <= i < j < s.len() ==> s[i] != s[j]
}

/// The first occurrence of `k` taken out of `s`; `s` unchanged if `k` is
/// absent. The relative order of the remaining keys is kept.
pub open spec fn remove_key_spec(s: Seq<i32>, k: i32) -> Seq<i32>
    decreases s.len(),
{
    if s.len() == 0 {
        Seq::empty()
    } else if s[0] == k {
        s.subrange(1, s.len() as int)
    } else {
        seq![s[0]] + remove_key_spec(s.subrange(1, s.len() as int), k)
    }
}

/// Effect of a press: any existing occurrence of `k` is taken out, then `k`
/// goes to the end as the most recently pressed key.
pub open spec fn press_spec(s: Seq<i32>, k: i32) -> Seq<i32> {
    remove_key_spec(s, k).push(k)
}

/// Effect of a release: the occurrence of `k` is taken out if present.
pub open spec fn release_spec(s: Seq<i32>, k: i32) -> Seq<i32> {
    remove_key_spec(s, k)
}

/// Effect of one key event on the held-key sequence.
pub open spec fn key_down_spec(s: Seq<i32>, a: KeyAction) -> Seq<i32> {
    match a {
        KeyAction::Press(k) => press_spec(s, k),
        KeyAction::Release(k) => release_spec(s, k),
    }
}

/// The ordered set of currently held keys.
pub struct KeysState {
    state: Vec<i32>,
}

impl View for KeysState {
    type V = Seq<i32>;

    closed spec fn view(&self) -> Seq<i32> {
        self.state@
    }
}

impl KeysState {
    /// The tracker is well formed when no key is held twice.
    pub open spec fn wf(&self) -> bool {
        no_dup(self@)
    }

    /// A fresh tracker holds no keys.
    pub fn new() -> (ks: KeysState)
        ensures
            ks.wf(),
            ks@ == Seq::<i32>::empty(),
    {
        KeysState { state: Vec::new() }
    }

    /// Applies one key event and returns the full ordered snapshot of the
    /// keys held afterwards.
    pub fn key_down(&mut self, key_action: KeyAction) -> (snapshot: Vec<i32>)
        requires
            old(self).wf(),
        ensures
            final(self).wf(),
            final(self)@ == key_down_spec(old(self)@, key_action),
            snapshot@ == final(self)@,
    {
        match key_action {
            KeyAction::Press(value) => {
                proof {
                    lemma_remove_props(self@, value);
                }
                self.remove_key(value);
                proof {
                    lemma_no_dup_push(self@, value);
                }
                self.state.push(value);
                self.snapshot()
            },
            KeyAction::Release(value) => {
                proof {
                    lemma_remove_props(self@, value);
                }
                self.remove_key(value);
                self.snapshot()
            },
        }
    }

    /// Takes the first occurrence of `key` out of the held sequence, if any.
    fn remove_key(&mut self, key: i32)
        ensures
            final(self)@ == remove_key_spec(old(self)@, key),
    {
        let ghost s0 = self.state@;
        let mut i: usize = 0;
        while i < self.state.len()
            invariant
                i <= self.state@.len(),
                s0 == old(self)@,
                self.state@ == s0,
                forall|j: int| 0 <= j < i ==> s0[j] != key,
            decreases self.state@.len() - i,
        {
            if self.state[i] == key {
                proof {
                    lemma_remove_at_first_index(s0, key, i as int);
                }
                self.state.remove(i);
                return ;
            }
            i = i + 1;
        }
        proof {
            assert(!s0.contains(key));
            lemma_remove_absent(s0, key);
        }
    }

    /// A copy of the held sequence, handed out as the snapshot.
    fn snapshot(&self) -> (r: Vec<i32>)
        ensures
            r@ == self@,
    {
        let mut r: Vec<i32> = Vec::new();
        let mut i: usize = 0;
        while i < self.state.len()
            invariant
                i <= self.state@.len(),
                r@ == self.state@.subrange(0, i as int),
            decreases self.state@.len() - i,
        {
            r.push(self.state[i]);
            proof {
                assert(r@ =~= self.state@.subrange(0, i + 1));
            }
            i = i + 1;
        }
        proof {
            assert(r@ =~= self.state@);
        }
        r
    }
}

/// Pressing a key twice in a row is idempotent: the second press of the
/// same key leaves the held sequence exactly as the first press left it.
pub proof fn lemma_press_idempotent(s: Seq<i32>, k: i32)
    requires
        no_dup(s),
    ensures
        press_spec(press_spec(s, k), k) == press_spec(s, k),
{
    lemma_remove_props(s, k);
    lemma_remove_after_push(remove_key_spec(s, k), k);
}

/// After a press the pressed key stands exactly once in the held sequence,
/// at the most-recently-pressed position.
pub proof fn lemma_press_most_recent(s: Seq<i32>, k: i32)
    requires
        no_dup(s),
    ensures
        press_spec(s, k).len() > 0,
        press_spec(s, k).last() == k,
        forall|i: int| 0 <= i < press_spec(s, k).len() - 1 ==> press_spec(s, k)[i] != k,
{
    lemma_remove_props(s, k);
    let t = remove_key_spec(s, k);
    assert forall|i: int| 0 <= i < press_spec(s, k).len() - 1 implies press_spec(s, k)[i] != k by {
        assert(press_spec(s, k)[i] == t[i]);
        if t[i] == k {
            assert(t.contains(k));
        }
    }
}

/// Releasing a key that is not held leaves the held sequence unchanged.
pub proof fn lemma_release_absent(s: Seq<i32>, k: i32)
    requires
        !s.contains(k),
    ensures
        release_spec(s, k) == s,
{
    lemma_remove_absent(s, k);
}

/// A press adds exactly its own key to the held set: afterwards the key is
/// held, and every other key is held exactly as before.
pub proof fn lemma_press_membership(s: Seq<i32>, k: i32, x: i32)
    requires
        no_dup(s),
    ensures
        press_spec(s, k).contains(k),
        x != k ==> (press_spec(s, k).contains(x) <==> s.contains(x)),
{
    lemma_remove_props(s, k);
    let t = remove_key_spec(s, k);
    let p = press_spec(s, k);
    assert(p[p.len() - 1] == k);
    assert(p.contains(k));
    if x != k {
        if p.contains(x) {
            let j = choose|j: int| 0 <= j < p.len() && p[j] == x;
            assert(j < t.len());
            assert(t[j] == x);
            assert(t.contains(x));
        }
        if s.contains(x) {
            assert(t.contains(x));
            let j = choose|j: int| 0 <= j < t.len() && t[j] == x;
            assert(p[j] == x);
            assert(p.contains(x));
        }
    }
}

/// A release removes exactly its own key from the held set: afterwards the
/// key is no longer held, and every other key is held exactly as before.
pub proof fn lemma_release_membership(s: Seq<i32>, k: i32, x: i32)
    requires
        no_dup(s),
    ensures
        !release_spec(s, k).contains(k),
        x != k ==> (release_spec(s, k).contains(x) <==> s.contains(x)),
{
    lemma_remove_props(s, k);
}

/// Removing a key that was just appended to a sequence not holding it
/// gives back the original sequence.
proof fn lemma_remove_after_push(s: Seq<i32>, k: i32)
    requires
        !s.contains(k),
    ensures
        remove_key_spec(s.push(k), k) == s,
    decreases s.len(),
{
    let p = s.push(k);
    if s.len() == 0 {
        assert(p[0] == k);
        assert(p.subrange(1, 1) =~= s);
    } else {
        assert(p[0] == s[0]);
        assert(s[0] != k) by {
            if s[0] == k {
                assert(s.contains(k));
            }
        }
        let stail = s.subrange(1, s.len() as int);
        assert(!stail.contains(k)) by {
            if stail.contains(k) {
                let j = choose|j: int| 0 <= j < stail.len() && stail[j] == k;
                assert(s[j + 1] == k);
                assert(s.contains(k));
            }
        }
        assert(p.subrange(1, p.len() as int) =~= stail.push(k));
        lemma_remove_after_push(stail, k);
        assert(remove_key_spec(p, k) == seq![p[0]] + stail);
        assert(seq![s[0]] + stail =~= s);
    }
}

/// Removing a key that is not held changes nothing.
proof fn lemma_remove_absent(s: Seq<i32>, k: i32)
    requires
        !s.contains(k),
    ensures
        remove_key_spec(s, k) == s,
    decreases s.len(),
{
    if s.len() == 0 {
        assert(remove_key_spec(s, k) =~= s);
    } else {
        assert(s[0] != k);
        let tail = s.subrange(1, s.len() as int);
        assert(!tail.contains(k)) by {
            if tail.contains(k) {
                let j = choose|j: int| 0 <= j < tail.len() && tail[j] == k;
                assert(s[j + 1] == k);
            }
        }
        lemma_remove_absent(tail, k);
        assert(seq![s[0]] + tail =~= s);
    }
}

/// When `k` stands at index `i` and nowhere earlier, removing it yields the
/// sequence with index `i` taken out.
proof fn lemma_remove_at_first_index(s: Seq<i32>, k: i32, i: int)
    requires
        0 <= i < s.len(),
        s[i] == k,
        forall|j: int| 0 <= j < i ==> s[j] != k,
    ensures
        remove_key_spec(s, k) == s.remove(i),
    decreases i,
{
    if i == 0 {
        assert(s.subrange(1, s.len() as int) =~= s.remove(0));
    } else {
        assert(s[0] != k);
        let tail = s.subrange(1, s.len() as int);
        lemma_remove_at_first_index(tail, k, i - 1);
        assert(seq![s[0]] + tail.remove(i - 1) =~= s.remove(i));
    }
}

/// Removing a key from a duplicate-free sequence keeps it duplicate-free,
/// takes that key out entirely, and leaves every other key's membership
/// unchanged.
proof fn lemma_remove_props(s: Seq<i32>, k: i32)
    requires
        no_dup(s),
    ensures
        no_dup(remove_key_spec(s, k)),
        !remove_key_spec(s, k).contains(k),
        forall|x: i32| x != k ==> (remove_key_spec(s, k).contains(x) <==> s.contains(x)),
    decreases s.len(),
{
    let r = remove_key_spec(s, k);
    if s.len() == 0 {
        assert forall|x: i32| x != k implies (r.contains(x) <==> s.contains(x)) by {
            assert(!r.contains(x));
            assert(!s.contains(x));
        }
    } else if s[0] == k {
        let tail = s.subrange(1, s.len() as int);
        assert(r == tail);
        assert(!tail.contains(k)) by {
            if tail.contains(k) {
                let j = choose|j: int| 0 <= j < tail.len() && tail[j] == k;
                assert(s[j + 1] == k);
                assert(s[0] == s[j + 1]);
            }
        }
        assert forall|x: i32| x != k implies (r.contains(x) <==> s.contains(x)) by {
            if r.contains(x) {
                let j = choose|j: int| 0 <= j < tail.len() && tail[j] == x;
                assert(s[j + 1] == x);
            }
            if s.contains(x) {
                let j = choose|j: int| 0 <= j < s.len() && s[j] == x;
                assert(j != 0);
                assert(tail[j - 1] == x);
            }
        }
    } else {
        let tail = s.subrange(1, s.len() as int);
        lemma_remove_props(tail, k);
        let rt = remove_key_spec(tail, k);
        assert(r == seq![s[0]] + rt);
        assert(!tail.contains(s[0])) by {
            if tail.contains(s[0]) {
                let j = choose|j: int| 0 <= j < tail.len() && tail[j] == s[0];
                assert(s[j + 1] == s[0]);
            }
        }
        assert(!rt.contains(s[0]));
        assert(no_dup(r)) by {
            assert forall|i: int, j: int| 0 <= i < j < r.len() implies r[i] != r[j] by {
                if i == 0 {
                    assert(r[j] == rt[j - 1]);
                    assert(rt.contains(rt[j - 1]));
                } else {
                    assert(r[i] == rt[i - 1]);
                    assert(r[j] == rt[j - 1]);
                }
            }
        }
        assert(!r.contains(k)) by {
            if r.contains(k) {
                let j = choose|j: int| 0 <= j < r.len() && r[j] == k;
                assert(j != 0);
                assert(rt[j - 1] == k);
                assert(rt.contains(k));
            }
        }
        assert forall|x: i32| x != k implies (r.contains(x) <==> s.contains(x)) by {
            if r.contains(x) {
                let j = choose|j: int| 0 <= j < r.len() && r[j] == x;
                if j == 0 {
                    assert(s[0] == x);
                    assert(s.contains(x));
                } else {
                    assert(rt[j - 1] == x);
                    assert(rt.contains(x));
                    assert(tail.contains(x));
                    let m = choose|m: int| 0 <= m < tail.len() && tail[m] == x;
                    assert(s[m + 1] == x);
                    assert(s.contains(x));
                }
            }
            if s.contains(x) {
                let j = choose|j: int| 0 <= j < s.len() && s[j] == x;
                if j == 0 {
                    assert(r[0] == x);
                    assert(r.contains(x));
                } else {
                    assert(tail[j - 1] == x);
                    assert(tail.contains(x));
                    assert(rt.contains(x));
                    let m = choose|m: int| 0 <= m < rt.len() && rt[m] == x;
                    assert(r[m + 1] == x);
                    assert(r.contains(x));
                }
            }
        }
    }
}

/// Appending a key that is absent keeps the sequence duplicate-free.
proof fn lemma_no_dup_push(s: Seq<i32>, k: i32)
    requires
        no_dup(s),
        !s.contains(k),
    ensures
        no_dup(s.push(k)),
{
    let p = s.push(k);
    assert forall|i: int, j: int| 0 <= i < j < p.len() implies p[i] != p[j] by {
        if j == s.len() {
            assert(p[i] == s[i]);
            if s[i] == k {
                assert(s.contains(k));
            }
        }
    }
}

} // verus!
