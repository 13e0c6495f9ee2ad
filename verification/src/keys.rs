//! Key names: the normal form the engine compares keys in, the left/right
//! modifier families, and the sets of keys the engine keeps.
use vstd::prelude::*;
use crate::text::{
    char_ascii_lower, is_blank, lemma_seq_lt_order, lemma_trim_bounds, lower, seq_lt, str_eq, str_lt,
    trim, trim_bounds,
};

verus! {

/// Drops every space and hyphen (`str::replace([' ', '-'], "")`).
pub open spec fn strip_sep(s: Seq<char>) -> Seq<char>
    decreases s.len(),
{
    if s.len() == 0 {
        Seq::empty()
    } else {
        let rest = strip_sep(s.drop_last());
        if s.last() == ' ' || s.last() == '-' {
            rest
        } else {
            rest.push(s.last())
        }
    }
}

/// A key name trimmed, ASCII-lower-cased and without spaces or hyphens.
pub open spec fn compact_key(s: Seq<char>) -> Seq<char> {
    strip_sep(lower(trim(s)))
}

/// The normal form of a key name: compacted, with the aliases `ctrl` and
/// `esc` spelled out.
pub open spec fn normalize_key(s: Seq<char>) -> Seq<char> {
    let c = compact_key(s);
    if c == "ctrl"@ {
        "control"@
    } else if c == "esc"@ {
        "escape"@
    } else {
        c
    }
}

pub fn compact_key_exec(key: &str) -> (r: String)
    ensures
        r@ == compact_key(key@),
{
    let (a, b) = trim_bounds(key);
    proof {
        lemma_trim_bounds(key@);
    }
    let mut out = String::new();
    let mut i = a;
    while i < b
        invariant
            a <= i <= b <= key@.len(),
            out@ == strip_sep(lower(key@.subrange(a as int, i as int))),
        decreases b - i,
    {
        let c = char_ascii_lower(key.get_char(i));
        let ghost before = lower(key@.subrange(a as int, i as int));
        assert(lower(key@.subrange(a as int, i + 1)) =~= before.push(c));
        assert(before.push(c).drop_last() =~= before);
        if c != ' ' && c != '-' {
            out.push(c);
        }
        i = i + 1;
    }
    out
}

/// `normalize_key`.
pub fn normalize_key_exec(key: &str) -> (r: String)
    ensures
        r@ == normalize_key(key@),
{
    let c = compact_key_exec(key);
    if str_eq(c.as_str(), "ctrl") {
        "control".to_owned()
    } else if str_eq(c.as_str(), "esc") {
        "escape".to_owned()
    } else {
        c
    }
}

/// The left and right keys that a generic modifier name stands for.
pub open spec fn side_variants(required: Seq<char>) -> Option<(Seq<char>, Seq<char>)> {
    if required == "control"@ {
        Some(("controlleft"@, "controlright"@))
    } else if required == "alt"@ {
        Some(("altleft"@, "altright"@))
    } else if required == "shift"@ {
        Some(("shiftleft"@, "shiftright"@))
    } else if required == "meta"@ {
        Some(("metaleft"@, "metaright"@))
    } else {
        None
    }
}

pub fn side_variants_exec(required: &str) -> (r: Option<(&'static str, &'static str)>)
    ensures
        match r {
            Some((l, rt)) => side_variants(required@) == Some((l@, rt@)),
            None => side_variants(required@) is None,
        },
{
    if str_eq(required, "control") {
        Some(("controlleft", "controlright"))
    } else if str_eq(required, "alt") {
        Some(("altleft", "altright"))
    } else if str_eq(required, "shift") {
        Some(("shiftleft", "shiftright"))
    } else if str_eq(required, "meta") {
        Some(("metaleft", "metaright"))
    } else {
        None
    }
}

/// A pressed key `actual` satisfies a required key: the same key, or one
/// side of a generic modifier.
pub open spec fn key_matches(actual: Seq<char>, required: Seq<char>) -> bool {
    ||| actual == required
    ||| match side_variants(required) {
        Some((l, r)) => actual == l || actual == r,
        None => false,
    }
}

pub fn key_matches_exec(actual: &str, required: &str) -> (r: bool)
    ensures
        r == key_matches(actual@, required@),
{
    if str_eq(actual, required) {
        return true;
    }
    match side_variants_exec(required) {
        Some((l, rt)) => str_eq(actual, l) || str_eq(actual, rt),
        None => false,
    }
}

/// Either key satisfies the other.
pub open spec fn keys_overlap(a: Seq<char>, b: Seq<char>) -> bool {
    key_matches(a, b) || key_matches(b, a)
}

pub fn keys_overlap_exec(a: &str, b: &str) -> (r: bool)
    ensures
        r == keys_overlap(a@, b@),
{
    key_matches_exec(a, b) || key_matches_exec(b, a)
}

/// The set of pressed keys satisfies a required key.
pub open spec fn pressed_contains(pressed: Set<Seq<char>>, required: Seq<char>) -> bool {
    ||| pressed.contains(required)
    ||| match side_variants(required) {
        Some((l, r)) => pressed.contains(l) || pressed.contains(r),
        None => false,
    }
}

/// The twelve generic and side-specific modifier key names.
pub open spec fn is_modifier_key(k: Seq<char>) -> bool {
    ||| k == "control"@
    ||| k == "controlleft"@
    ||| k == "controlright"@
    ||| k == "alt"@
    ||| k == "altleft"@
    ||| k == "altright"@
    ||| k == "shift"@
    ||| k == "shiftleft"@
    ||| k == "shiftright"@
    ||| k == "meta"@
    ||| k == "metaleft"@
    ||| k == "metaright"@
}

pub fn is_modifier_key_exec(k: &str) -> (r: bool)
    ensures
        r == is_modifier_key(k@),
{
    str_eq(k, "control") || str_eq(k, "controlleft") || str_eq(k, "controlright") || str_eq(
        k,
        "alt",
    ) || str_eq(k, "altleft") || str_eq(k, "altright") || str_eq(k, "shift") || str_eq(
        k,
        "shiftleft",
    ) || str_eq(k, "shiftright") || str_eq(k, "meta") || str_eq(k, "metaleft") || str_eq(
        k,
        "metaright",
    )
}

/// The text of each string in a vector.
pub open spec fn texts(v: Seq<String>) -> Seq<Seq<char>> {
    v.map_values(|s: String| s@)
}

/// Strictly increasing in the text order: sorted and free of duplicates.
pub open spec fn sorted_strict(q: Seq<Seq<char>>) -> bool {
    forall|i: int, j: int| 0 <= i < j < q.len() ==> seq_lt(#[trigger] q[i], #[trigger] q[j])
}

/// The sorted, duplicate-free sequence of a finite set of texts.
pub open spec fn sorted_of(s: Set<Seq<char>>) -> Seq<Seq<char>> {
    choose|q: Seq<Seq<char>>| sorted_strict(q) && q.to_set() == s
}

/// Two strictly sorted sequences with the same elements are equal.
pub proof fn lemma_sorted_unique(a: Seq<Seq<char>>, b: Seq<Seq<char>>)
    requires
        sorted_strict(a),
        sorted_strict(b),
        a.to_set() == b.to_set(),
    ensures
        a == b,
    decreases a.len(),
{
    lemma_seq_lt_order();
    if a.len() == 0 {
        if b.len() > 0 {
            assert(b.to_set().contains(b[0]));
            assert(!a.contains(b[0]));
        }
        assert(a =~= b);
    } else {
        assert(a.to_set().contains(a[0]));
        assert(b.contains(a[0]));
        if b.len() == 0 {
            assert(false);
        }
        assert(b.to_set().contains(b[0]));
        assert(a.contains(b[0]));
        let i = choose|i: int| 0 <= i < a.len() && a[i] == b[0];
        let j = choose|j: int| 0 <= j < b.len() && b[j] == a[0];
        if j > 0 {
            assert(seq_lt(b[0], b[j]));
            if i > 0 {
                assert(seq_lt(a[0], a[i]));
            }
            assert(false);
        }
        let a1 = a.drop_first();
        let b1 = b.drop_first();
        assert(sorted_strict(a1)) by {
            assert forall|x: int, y: int| 0 <= x < y < a1.len() implies seq_lt(
                #[trigger] a1[x],
                #[trigger] a1[y],
            ) by {
                assert(a1[x] == a[x + 1] && a1[y] == a[y + 1]);
            }
        }
        assert(sorted_strict(b1)) by {
            assert forall|x: int, y: int| 0 <= x < y < b1.len() implies seq_lt(
                #[trigger] b1[x],
                #[trigger] b1[y],
            ) by {
                assert(b1[x] == b[x + 1] && b1[y] == b[y + 1]);
            }
        }
        assert(a1.to_set() =~= b1.to_set()) by {
            assert forall|x: Seq<char>| a1.contains(x) implies b1.contains(x) by {
                let k = choose|k: int| 0 <= k < a1.len() && a1[k] == x;
                assert(seq_lt(a[0], a[k + 1]));
                assert(a.contains(x));
                assert(b.to_set().contains(x));
                let m = choose|m: int| 0 <= m < b.len() && b[m] == x;
                if m == 0 {
                    assert(false);
                }
                assert(b1[m - 1] == x);
            }
            assert forall|x: Seq<char>| b1.contains(x) implies a1.contains(x) by {
                let k = choose|k: int| 0 <= k < b1.len() && b1[k] == x;
                assert(seq_lt(b[0], b[k + 1]));
                assert(b.contains(x));
                assert(a.to_set().contains(x));
                let m = choose|m: int| 0 <= m < a.len() && a[m] == x;
                if m == 0 {
                    assert(false);
                }
                assert(a1[m - 1] == x);
            }
        }
        lemma_sorted_unique(a1, b1);
        assert(a =~= b) by {
            assert forall|k: int| 0 <= k < a.len() implies a[k] == b[k] by {
                if k > 0 {
                    assert(a[k] == a1[k - 1]);
                    assert(b[k] == b1[k - 1]);
                }
            }
        }
    }
}

/// A strictly sorted sequence is the sorted sequence of its own elements.
pub proof fn lemma_sorted_of(q: Seq<Seq<char>>)
    requires
        sorted_strict(q),
    ensures
        sorted_of(q.to_set()) == q,
{
    let s = q.to_set();
    assert(sorted_strict(q) && q.to_set() == s);
    let c = sorted_of(s);
    lemma_sorted_unique(c, q);
}

/// Where `x` goes in a sorted sequence: past every element before it.
spec fn sorted_position(r: Seq<Seq<char>>, x: Seq<char>, i: int) -> int
    decreases r.len() - i,
{
    if 0 <= i < r.len() && seq_lt(r[i], x) {
        sorted_position(r, x, i + 1)
    } else {
        i
    }
}

proof fn lemma_sorted_position(r: Seq<Seq<char>>, x: Seq<char>, i: int)
    requires
        0 <= i <= r.len(),
        forall|j: int| 0 <= j < i ==> seq_lt(#[trigger] r[j], x),
    ensures
        i <= sorted_position(r, x, i) <= r.len(),
        forall|j: int| 0 <= j < sorted_position(r, x, i) ==> seq_lt(#[trigger] r[j], x),
        sorted_position(r, x, i) < r.len() ==> !seq_lt(r[sorted_position(r, x, i)], x),
    decreases r.len() - i,
{
    if i < r.len() && seq_lt(r[i], x) {
        lemma_sorted_position(r, x, i + 1);
    }
}

/// Every finite set of texts listed by a sequence has its sorted,
/// duplicate-free sequence.
pub proof fn lemma_sorted_of_set(q: Seq<Seq<char>>)
    ensures
        sorted_strict(sorted_of(q.to_set())),
        sorted_of(q.to_set()).to_set() == q.to_set(),
    decreases q.len(),
{
    lemma_seq_lt_order();
    if q.len() == 0 {
        let e = Seq::<Seq<char>>::empty();
        assert(q =~= e);
        lemma_sorted_of(e);
    } else {
        let front = q.drop_last();
        let x = q.last();
        lemma_sorted_of_set(front);
        let r = sorted_of(front.to_set());
        assert(front.push(x) =~= q);
        front.lemma_push_to_set_commute(x);
        if r.contains(x) {
            assert(r.to_set().insert(x) =~= r.to_set());
            lemma_sorted_of(r);
        } else {
            lemma_sorted_position(r, x, 0);
            let p = sorted_position(r, x, 0);
            let r2 = r.insert(p, x);
            if p < r.len() {
                assert(r[p] != x);
                assert(seq_lt(x, r[p]));
            }
            assert forall|i: int, j: int| 0 <= i < j < r2.len() implies seq_lt(
                #[trigger] r2[i],
                #[trigger] r2[j],
            ) by {
                if j < p {
                    assert(r2[i] == r[i] && r2[j] == r[j]);
                } else if j == p {
                    assert(r2[i] == r[i]);
                } else if i < p {
                    assert(r2[i] == r[i] && r2[j] == r[j - 1]);
                    assert(seq_lt(r[i], x));
                    assert(seq_lt(x, r[p]));
                    if j - 1 > p {
                        assert(seq_lt(r[p], r[j - 1]));
                    }
                } else if i == p {
                    assert(r2[j] == r[j - 1]);
                    if j - 1 > p {
                        assert(seq_lt(r[p], r[j - 1]));
                    }
                } else {
                    assert(r2[i] == r[i - 1] && r2[j] == r[j - 1]);
                }
            }
            assert(r2.to_set() =~= r.to_set().insert(x)) by {
                assert forall|y: Seq<char>| r2.contains(y) implies r.to_set().insert(x).contains(y) by {
                    let m = choose|m: int| 0 <= m < r2.len() && r2[m] == y;
                    if m < p {
                        assert(r[m] == y);
                    } else if m > p {
                        assert(r[m - 1] == y);
                    }
                }
                assert forall|y: Seq<char>| r.to_set().insert(x).contains(y) implies r2.contains(y) by {
                    if y == x {
                        assert(r2[p] == x);
                    } else {
                        let m = choose|m: int| 0 <= m < r.len() && r[m] == y;
                        if m < p {
                            assert(r2[m] == y);
                        } else {
                            assert(r2[m + 1] == y);
                        }
                    }
                }
            }
            lemma_sorted_of(r2);
        }
    }
}

/// Inserts `k` into a strictly sorted vector of strings, leaving it unchanged
/// when `k` is already there.
pub fn insert_sorted(v: &mut Vec<String>, k: String)
    requires
        sorted_strict(texts(old(v)@)),
    ensures
        sorted_strict(texts(final(v)@)),
        texts(final(v)@).to_set() == texts(old(v)@).to_set().insert(k@),
        final(v)@.len() <= old(v)@.len() + 1,
{
    proof {
        lemma_seq_lt_order();
    }
    let ghost q = texts(v@);
    let n = v.len();
    let mut p: usize = 0;
    while p < n && str_lt(v[p].as_str(), k.as_str())
        invariant
            n == v@.len(),
            p <= n,
            q == texts(v@),
            forall|i: int| 0 <= i < p ==> seq_lt(#[trigger] q[i], k@),
        decreases n - p,
    {
        p = p + 1;
    }
    if p < n && str_eq(v[p].as_str(), k.as_str()) {
        assert(q.to_set() =~= q.to_set().insert(k@)) by {
            assert(q[p as int] == k@);
        }
        return;
    }
    let ghost kk = k@;
    v.insert(p, k);
    proof {
        let q2 = texts(v@);
        assert(q2 =~= q.insert(p as int, kk));
        if p < n {
            assert(seq_lt(kk, q[p as int]));
        }
        assert forall|i: int, j: int| 0 <= i < j < q2.len() implies seq_lt(
            #[trigger] q2[i],
            #[trigger] q2[j],
        ) by {
            if j < p {
            } else if j == p {
                assert(seq_lt(q[i], kk));
            } else if i < p {
                assert(q2[j] == q[j - 1]);
                assert(seq_lt(q[i], kk));
                if p < n {
                    assert(seq_lt(kk, q[p as int]));
                    if j - 1 > p {
                        assert(seq_lt(q[p as int], q[j - 1]));
                    }
                }
            } else if i == p {
                assert(q2[j] == q[j - 1]);
                if j - 1 > p {
                    assert(seq_lt(q[p as int], q[j - 1]));
                }
            } else {
                assert(q2[i] == q[i - 1] && q2[j] == q[j - 1]);
            }
        }
        assert(q2.to_set() =~= q.to_set().insert(kk)) by {
            assert forall|x: Seq<char>| q2.contains(x) implies q.to_set().insert(kk).contains(x) by {
                let m = choose|m: int| 0 <= m < q2.len() && q2[m] == x;
                if m < p {
                    assert(q[m] == x);
                } else if m > p {
                    assert(q[m - 1] == x);
                }
            }
            assert forall|x: Seq<char>| q.to_set().insert(kk).contains(x) implies q2.contains(x) by {
                if x == kk {
                    assert(q2[p as int] == kk);
                } else {
                    let m = choose|m: int| 0 <= m < q.len() && q[m] == x;
                    if m < p {
                        assert(q2[m] == x);
                    } else {
                        assert(q2[m + 1] == x);
                    }
                }
            }
        }
    }
}

/// A set of key names held without duplicates.
pub struct KeySet {
    keys: Vec<String>,
}

impl View for KeySet {
    type V = Set<Seq<char>>;

    closed spec fn view(&self) -> Set<Seq<char>> {
        texts(self.keys@).to_set()
    }
}

impl KeySet {
    pub closed spec fn wf(&self) -> bool {
        texts(self.keys@).no_duplicates()
    }

    pub fn new() -> (r: KeySet)
        ensures
            r.wf(),
            r@ == Set::<Seq<char>>::empty(),
    {
        let r = KeySet { keys: Vec::new() };
        assert(texts(r.keys@).to_set() =~= Set::<Seq<char>>::empty());
        r
    }

    fn position(&self, key: &str) -> (r: Option<usize>)
        ensures
            match r {
                Some(i) => i < self.keys@.len() && self.keys@[i as int]@ == key@,
                None => !self@.contains(key@),
            },
    {
        let n = self.keys.len();
        let mut i: usize = 0;
        while i < n
            invariant
                n == self.keys@.len(),
                i <= n,
                forall|j: int| 0 <= j < i ==> self.keys@[j]@ != key@,
            decreases n - i,
        {
            if str_eq(self.keys[i].as_str(), key) {
                return Some(i);
            }
            i = i + 1;
        }
        proof {
            if texts(self.keys@).contains(key@) {
                let j = choose|j: int|
                    0 <= j < texts(self.keys@).len() && texts(self.keys@)[j] == key@;
                assert(self.keys@[j]@ == key@);
            }
        }
        None
    }

    pub fn contains(&self, key: &str) -> (r: bool)
        ensures
            r == self@.contains(key@),
    {
        match self.position(key) {
            Some(i) => {
                assert(texts(self.keys@)[i as int] == key@);
                true
            },
            None => false,
        }
    }

    /// `pressed_contains` over this set.
    pub fn satisfies(&self, required: &str) -> (r: bool)
        ensures
            r == pressed_contains(self@, required@),
    {
        if self.contains(required) {
            return true;
        }
        match side_variants_exec(required) {
            Some((l, rt)) => self.contains(l) || self.contains(rt),
            None => false,
        }
    }

    pub fn insert(&mut self, key: String)
        requires
            old(self).wf(),
        ensures
            final(self).wf(),
            final(self)@ == old(self)@.insert(key@),
    {
        if self.contains(key.as_str()) {
            assert(self@ =~= self@.insert(key@));
            return;
        }
        let ghost q = texts(self.keys@);
        let ghost kk = key@;
        self.keys.push(key);
        proof {
            let q2 = texts(self.keys@);
            assert(q2 =~= q.push(kk));
            assert(!q.contains(kk));
            assert(q2.to_set() =~= q.to_set().insert(kk)) by {
                assert forall|x: Seq<char>| q2.contains(x) implies q.to_set().insert(kk).contains(
                    x,
                ) by {
                    let m = choose|m: int| 0 <= m < q2.len() && q2[m] == x;
                    if m < q.len() {
                        assert(q[m] == x);
                    }
                }
                assert forall|x: Seq<char>| q.to_set().insert(kk).contains(x) implies q2.contains(
                    x,
                ) by {
                    if x == kk {
                        assert(q2[q.len() as int] == kk);
                    } else {
                        let m = choose|m: int| 0 <= m < q.len() && q[m] == x;
                        assert(q2[m] == x);
                    }
                }
            }
            assert(q2.no_duplicates()) by {
                assert forall|x: int, y: int|
                    0 <= x < q2.len() && 0 <= y < q2.len() && x != y implies q2[x] != q2[y] by {
                    if x == q.len() {
                        assert(q.contains(q2[y]) ==> q2[y] != kk);
                        assert(q[y] == q2[y]);
                    } else if y == q.len() {
                        assert(q[x] == q2[x]);
                    }
                }
            }
        }
    }

    pub fn remove(&mut self, key: &str)
        requires
            old(self).wf(),
        ensures
            final(self).wf(),
            final(self)@ == old(self)@.remove(key@),
    {
        match self.position(key) {
            None => {
                assert(self@ =~= self@.remove(key@));
            },
            Some(i) => {
                let ghost q = texts(self.keys@);
                self.keys.remove(i);
                proof {
                    let q2 = texts(self.keys@);
                    assert(q2 =~= q.remove(i as int));
                    assert(q2.no_duplicates()) by {
                        assert forall|x: int, y: int|
                            0 <= x < q2.len() && 0 <= y < q2.len() && x != y implies q2[x]
                            != q2[y] by {
                            let xx = if x < i { x } else { x + 1 };
                            let yy = if y < i { y } else { y + 1 };
                            assert(q2[x] == q[xx] && q2[y] == q[yy]);
                        }
                    }
                    assert(q2.to_set() =~= q.to_set().remove(key@)) by {
                        assert forall|x: Seq<char>| q2.contains(x) implies q.to_set().remove(
                            key@,
                        ).contains(x) by {
                            let m = choose|m: int| 0 <= m < q2.len() && q2[m] == x;
                            let mm = if m < i { m } else { m + 1 };
                            assert(q[mm] == x);
                            assert(mm != i);
                            assert(q[i as int] == key@);
                        }
                        assert forall|x: Seq<char>| q.to_set().remove(key@).contains(
                            x,
                        ) implies q2.contains(x) by {
                            let m = choose|m: int| 0 <= m < q.len() && q[m] == x;
                            assert(m != i);
                            if m < i {
                                assert(q2[m] == x);
                            } else {
                                assert(q2[m - 1] == x);
                            }
                        }
                    }
                }
            },
        }
    }

    pub fn clear(&mut self)
        ensures
            final(self).wf(),
            final(self)@ == Set::<Seq<char>>::empty(),
    {
        self.keys.clear();
        assert(texts(self.keys@).to_set() =~= Set::<Seq<char>>::empty());
    }

    /// The keys, in the order they are held.
    pub fn keys(&self) -> (r: &Vec<String>)
        ensures
            texts(r@).to_set() == self@,
    {
        &self.keys
    }
}

} // verus!
