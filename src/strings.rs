//! Interning of the strings met while loading a capture: each distinct
//! string gets a 64-bit identifier that stays fixed for the whole process.

use std::collections::HashMap;
use vstd::prelude::*;
use vstd::set_lib::{lemma_len_subset, lemma_int_range, lemma_map_size, set_int_range};
use crate::capture::{string_hash, hash_bytes};
use crate::codec::get_bytes;

verus! {

broadcast use vstd::std_specs::hash::group_hash_axioms;

/// The number of distinct 64-bit identifiers.
pub open spec fn id_space() -> int {
    0x1_0000_0000_0000_0000
}

/// The `d`-th identifier probed from `h`, counting upward and wrapping.
pub open spec fn probe(h: u64, d: int) -> u64 {
    if h + d < id_space() {
        (h + d) as u64
    } else {
        (h + d - id_space()) as u64
    }
}

/// How many steps upward, wrapping, lead from `a` to `b`.
pub open spec fn dist(a: u64, b: u64) -> int {
    if a <= b {
        b - a
    } else {
        b + id_space() - a
    }
}

/// Whether probing for `s` may stop at `id`: it is unbound, or bound to `s`.
pub open spec fn free_for(m: Map<u64, Seq<u8>>, s: Seq<u8>, id: u64) -> bool {
    !m.contains_key(id) || m[id] == s
}

/// The identifier reached by probing for `s` from the `d`-th step on.
pub open spec fn probe_from(m: Map<u64, Seq<u8>>, s: Seq<u8>, d: int) -> u64
    decreases id_space() - d,
{
    let p = probe(string_hash(s), d);
    if d < 0 || d + 1 >= id_space() || free_for(m, s, p) {
        p
    } else {
        probe_from(m, s, d + 1)
    }
}

/// The identifier that interning `s` into table `m` binds: the first one,
/// probing upward from the string's hash, that is unbound or already bound to
/// `s`.
pub open spec fn intern_id(m: Map<u64, Seq<u8>>, s: Seq<u8>) -> u64 {
    probe_from(m, s, 0)
}

/// The table after interning `s` into `m`.
pub open spec fn intern_map(m: Map<u64, Seq<u8>>, s: Seq<u8>) -> Map<u64, Seq<u8>> {
    m.insert(intern_id(m, s), s)
}

/// The table after interning each string of `ss`, in order.
pub open spec fn intern_all(m: Map<u64, Seq<u8>>, ss: Seq<Seq<u8>>) -> Map<u64, Seq<u8>>
    decreases ss.len(),
{
    if ss.len() == 0 {
        m
    } else {
        intern_map(intern_all(m, ss.drop_last()), ss.last())
    }
}

/// A well-formed table: finite, the empty string at identifier 0, and every
/// binding reachable by probing: each identifier passed on the way from a
/// string's hash to its binding is bound to some other string.
pub open spec fn table_wf(m: Map<u64, Seq<u8>>) -> bool {
    &&& m.dom().finite()
    &&& m.contains_key(0)
    &&& m[0] == Seq::<u8>::empty()
    &&& forall|k: u64, j: int|
        #![trigger m[k], probe(string_hash(m[k]), j)]
        m.contains_key(k) && 0 <= j < dist(string_hash(m[k]), k) ==> {
            let p = probe(string_hash(m[k]), j);
            m.contains_key(p) && m[p] != m[k]
        }
}

proof fn lemma_probe_dist(h: u64, d: int)
    requires
        0 <= d < id_space(),
    ensures
        dist(h, probe(h, d)) == d,
{
}

proof fn lemma_dist_probe(h: u64, k: u64)
    ensures
        0 <= dist(h, k) < id_space(),
        probe(h, dist(h, k)) == k,
{
}

/// Probing stops at the first free identifier.
proof fn lemma_probe_from_stops(m: Map<u64, Seq<u8>>, s: Seq<u8>, d: int, e: int)
    requires
        0 <= d <= e < id_space(),
        free_for(m, s, probe(string_hash(s), e)),
        forall|j: int| d <= j < e ==> !free_for(m, s, #[trigger] probe(string_hash(s), j)),
    ensures
        probe_from(m, s, d) == probe(string_hash(s), e),
    decreases e - d,
{
    if d < e {
        lemma_probe_from_stops(m, s, d + 1, e);
    }
}

/// A finite table with fewer than 2^64 bindings leaves some identifier free
/// on every probe path; the first one is found within as many steps as the
/// table has bindings.
proof fn lemma_free_exists(m: Map<u64, Seq<u8>>, s: Seq<u8>) -> (e: int)
    requires
        m.dom().finite(),
        m.dom().len() < id_space(),
    ensures
        0 <= e <= m.dom().len(),
        free_for(m, s, probe(string_hash(s), e)),
        forall|j: int| 0 <= j < e ==> !free_for(m, s, #[trigger] probe(string_hash(s), j)),
{
    lemma_walk(m, s, 0, Set::empty())
}

proof fn lemma_walk(m: Map<u64, Seq<u8>>, s: Seq<u8>, d: int, seen: Set<u64>) -> (e: int)
    requires
        m.dom().finite(),
        m.dom().len() < id_space(),
        0 <= d,
        seen.finite(),
        seen.len() == d,
        seen.subset_of(m.dom()),
        forall|x: u64| seen.contains(x) ==> dist(string_hash(s), x) < d,
        forall|j: int| 0 <= j < d ==> !free_for(m, s, #[trigger] probe(string_hash(s), j)),
    ensures
        d <= e <= m.dom().len(),
        free_for(m, s, probe(string_hash(s), e)),
        forall|j: int| 0 <= j < e ==> !free_for(m, s, #[trigger] probe(string_hash(s), j)),
    decreases m.dom().len() - d,
{
    lemma_len_subset(seen, m.dom());
    let h = string_hash(s);
    let p = probe(h, d);
    if free_for(m, s, p) {
        d
    } else {
        lemma_probe_dist(h, d);
        assert(!seen.contains(p));
        let seen2 = seen.insert(p);
        lemma_len_subset(seen2, m.dom());
        lemma_walk(m, s, d + 1, seen2)
    }
}

/// What interning returns: a free identifier, reached after passing only
/// identifiers bound to other strings.
proof fn lemma_intern_id(m: Map<u64, Seq<u8>>, s: Seq<u8>)
    requires
        m.dom().finite(),
        m.dom().len() < id_space(),
    ensures
        free_for(m, s, intern_id(m, s)),
        forall|j: int|
            0 <= j < dist(string_hash(s), intern_id(m, s)) ==> !free_for(
                m,
                s,
                #[trigger] probe(string_hash(s), j),
            ),
{
    let e = lemma_free_exists(m, s);
    lemma_probe_from_stops(m, s, 0, e);
    lemma_probe_dist(string_hash(s), e);
}

/// A string already bound in a well-formed table is found at its binding.
proof fn lemma_intern_bound(m: Map<u64, Seq<u8>>, k: u64)
    requires
        table_wf(m),
        m.contains_key(k),
    ensures
        intern_id(m, m[k]) == k,
{
    let s = m[k];
    let h = string_hash(s);
    lemma_dist_probe(h, k);
    assert forall|j: int| 0 <= j < dist(h, k) implies !free_for(m, s, #[trigger] probe(h, j)) by {
        let p = probe(h, j);
        assert(m.contains_key(p) && m[p] != m[k]);
    }
    lemma_probe_from_stops(m, s, 0, dist(h, k));
}

/// Interning keeps a table well-formed, changes no existing binding and adds
/// at most one.
proof fn lemma_intern_map(m: Map<u64, Seq<u8>>, s: Seq<u8>)
    requires
        table_wf(m),
        m.dom().len() < id_space(),
    ensures
        table_wf(intern_map(m, s)),
        intern_map(m, s).dom().len() <= m.dom().len() + 1,
        forall|k: u64| #[trigger] m.contains_key(k) ==> intern_map(m, s).contains_key(k)
            && intern_map(m, s)[k] == m[k],
{
    let r = intern_id(m, s);
    let m1 = intern_map(m, s);
    lemma_intern_id(m, s);
    if m.contains_key(r) {
        assert(m1 =~= m);
    } else {
        assert(m1.dom() =~= m.dom().insert(r));
        assert forall|k: u64, j: int|
            #![trigger m1[k], probe(string_hash(m1[k]), j)]
            m1.contains_key(k) && 0 <= j < dist(string_hash(m1[k]), k) implies {
                let p = probe(string_hash(m1[k]), j);
                m1.contains_key(p) && m1[p] != m1[k]
            } by {
            if k == r {
                let p = probe(string_hash(s), j);
                assert(!free_for(m, s, p));
            } else {
                let p = probe(string_hash(m[k]), j);
                assert(m.contains_key(p) && m[p] != m[k]);
                lemma_probe_dist(string_hash(m[k]), j);
            }
        }
    }
}

/// Interning a sequence of strings keeps a table well-formed, changes no
/// existing binding and adds at most one binding per string.
proof fn lemma_intern_all(m: Map<u64, Seq<u8>>, ss: Seq<Seq<u8>>)
    requires
        table_wf(m),
        m.dom().len() + ss.len() < id_space(),
    ensures
        table_wf(intern_all(m, ss)),
        intern_all(m, ss).dom().len() <= m.dom().len() + ss.len(),
        forall|k: u64| #[trigger] m.contains_key(k) ==> intern_all(m, ss).contains_key(k)
            && intern_all(m, ss)[k] == m[k],
    decreases ss.len(),
{
    if ss.len() > 0 {
        let prev = intern_all(m, ss.drop_last());
        lemma_intern_all(m, ss.drop_last());
        lemma_intern_map(prev, ss.last());
        assert forall|k: u64| #[trigger] m.contains_key(k) implies intern_all(m, ss).contains_key(k)
            && intern_all(m, ss)[k] == m[k] by {
            assert(prev.contains_key(k));
        }
    }
}

/// The identifier that the `i`-th string of `ss` gets while `ss` is
/// interned into `m`.
pub open spec fn id_in_load(m: Map<u64, Seq<u8>>, ss: Seq<Seq<u8>>, i: int) -> u64 {
    intern_id(intern_all(m, ss.take(i)), ss[i])
}

proof fn lemma_load_binding(m: Map<u64, Seq<u8>>, ss: Seq<Seq<u8>>, i: int, j: int)
    requires
        table_wf(m),
        m.dom().len() + ss.len() < id_space(),
        0 <= i < j <= ss.len(),
    ensures
        table_wf(intern_all(m, ss.take(j))),
        intern_all(m, ss.take(j)).contains_key(id_in_load(m, ss, i)),
        intern_all(m, ss.take(j))[id_in_load(m, ss, i)] == ss[i],
{
    let before = intern_all(m, ss.take(i));
    let after = intern_all(m, ss.take(i + 1));
    lemma_intern_all(m, ss.take(i));
    assert(ss.take(i + 1).drop_last() =~= ss.take(i));
    assert(ss.take(i + 1).last() == ss[i]);
    assert(after == intern_map(before, ss[i]));
    lemma_intern_map(before, ss[i]);
    let rest = ss.subrange(i + 1, j);
    lemma_intern_all_split(m, ss.take(i + 1), rest);
    assert(ss.take(i + 1) + rest =~= ss.take(j));
    let id = id_in_load(m, ss, i);
    assert(after.contains_key(id) && after[id] == ss[i]);
    lemma_intern_all(after, rest);
    assert(intern_all(after, rest).contains_key(id));
}

proof fn lemma_intern_all_split(m: Map<u64, Seq<u8>>, a: Seq<Seq<u8>>, b: Seq<Seq<u8>>)
    ensures
        intern_all(m, a + b) == intern_all(intern_all(m, a), b),
    decreases b.len(),
{
    if b.len() == 0 {
        assert(a + b =~= a);
    } else {
        assert((a + b).drop_last() =~= a + b.drop_last());
        lemma_intern_all_split(m, a, b.drop_last());
    }
}

/// Interning into a well-formed table binds the empty string to 0.
pub proof fn lemma_empty_string_id(m: Map<u64, Seq<u8>>)
    requires
        table_wf(m),
    ensures
        intern_id(m, Seq::<u8>::empty()) == 0,
{
    lemma_intern_bound(m, 0);
}

/// Within one load, two different strings get different identifiers.
pub proof fn lemma_load_ids_distinct(m: Map<u64, Seq<u8>>, ss: Seq<Seq<u8>>, i: int, j: int)
    requires
        table_wf(m),
        m.dom().len() + ss.len() < id_space(),
        0 <= i < j < ss.len(),
        ss[i] != ss[j],
    ensures
        id_in_load(m, ss, i) != id_in_load(m, ss, j),
{
    lemma_load_binding(m, ss, i, j);
    let mj = intern_all(m, ss.take(j));
    lemma_intern_all(m, ss.take(j));
    lemma_intern_id(mj, ss[j]);
}

/// Within one load, interning the same string twice gives the same identifier.
pub proof fn lemma_load_ids_stable(m: Map<u64, Seq<u8>>, ss: Seq<Seq<u8>>, i: int, j: int)
    requires
        table_wf(m),
        m.dom().len() + ss.len() < id_space(),
        0 <= i < j < ss.len(),
        ss[i] == ss[j],
    ensures
        id_in_load(m, ss, i) == id_in_load(m, ss, j),
{
    lemma_load_binding(m, ss, i, j);
    let mj = intern_all(m, ss.take(j));
    lemma_intern_bound(mj, id_in_load(m, ss, i));
}

/// No two identifiers of a well-formed table hold the same string.
pub proof fn lemma_table_injective(m: Map<u64, Seq<u8>>, a: u64, b: u64)
    requires
        table_wf(m),
        m.contains_key(a),
        m.contains_key(b),
        m[a] == m[b],
    ensures
        a == b,
{
    lemma_intern_bound(m, a);
    lemma_intern_bound(m, b);
}

/// Whether two byte strings are equal.
pub fn bytes_equal(a: &[u8], b: &[u8]) -> (r: bool)
    ensures
        r == (a@ == b@),
{
    if a.len() != b.len() {
        return false;
    }
    let mut i: usize = 0;
    while i < a.len()
        invariant
            a@.len() == b@.len(),
            i <= a@.len(),
            forall|j: int| 0 <= j < i ==> a@[j] == b@[j],
        decreases a@.len() - i,
    {
        if a[i] != b[i] {
            return false;
        }
        i += 1;
    }
    assert(a@ =~= b@);
    true
}

/// The strings of a loaded capture, each bound to its identifier.
pub struct StringTable {
    strings: HashMap<u64, Vec<u8>>,
}

impl View for StringTable {
    type V = Map<u64, Seq<u8>>;

    closed spec fn view(&self) -> Map<u64, Seq<u8>> {
        Map::new(|k: u64| self.strings@.contains_key(k), |k: u64| self.strings@[k]@)
    }
}

impl StringTable {
    /// A table that holds only the empty string, at identifier 0.
    pub fn new() -> (r: StringTable)
        ensures
            r@ == map![0u64 => Seq::<u8>::empty()],
            table_wf(r@),
    {
        let mut strings: HashMap<u64, Vec<u8>> = HashMap::new();
        strings.insert(0, Vec::new());
        let r = StringTable { strings };
        assert(r@ =~= map![0u64 => Seq::<u8>::empty()]);
        assert(r@.dom() =~= set![0u64]);
        r
    }

    /// Interns `s`: probes upward from its hash for an identifier that is
    /// unbound or already bound to `s`, binds it to `s` and returns it.
    pub fn intern(&mut self, s: &Vec<u8>) -> (r: u64)
        requires
            table_wf(old(self)@),
        ensures
            r == intern_id(old(self)@, s@),
            final(self)@ == intern_map(old(self)@, s@),
            table_wf(final(self)@),
    {
        let ghost m = self@;
        let n = self.strings.len();
        assert(m.dom() =~= self.strings@.dom());
        proof {
            lemma_intern_id(m, s@);
            lemma_dist_probe(string_hash(s@), intern_id(m, s@));
        }
        let h = hash_bytes(s.as_slice());
        let ghost t = dist(h, intern_id(m, s@));
        let mut id: u64 = h;
        let ghost mut steps: int = 0;
        loop
            invariant_except_break
                free_for(m, s@, probe(h, t)),
                forall|j: int| 0 <= j < t ==> !free_for(m, s@, #[trigger] probe(h, j)),
            invariant
                self@ == m,
                0 <= steps <= t,
                t < id_space(),
                id == probe(h, steps),
            ensures
                free_for(m, s@, id),
            decreases t - steps,
        {
            let stop = match self.strings.get(&id) {
                None => true,
                Some(v) => bytes_equal(v.as_slice(), s.as_slice()),
            };
            if stop {
                assert(free_for(m, s@, id));
                break;
            }
            assert(steps < t);
            id = id.wrapping_add(1);
            proof { steps = steps + 1; }
        }
        assert(steps == t);
        let copy = get_bytes(s.as_slice(), 0, s.len());
        assert(copy@ =~= s@);
        self.strings.insert(id, copy);
        proof {
            lemma_intern_map(m, s@);
        }
        assert(self@ =~= intern_map(m, s@));
        id
    }

    /// The string bound to `id`, if any.
    pub fn lookup(&self, id: u64) -> (r: Option<&Vec<u8>>)
        ensures
            match r {
                Some(v) => self@.contains_key(id) && v@ == self@[id],
                None => !self@.contains_key(id),
            },
    {
        self.strings.get(&id)
    }

    /// The number of bound identifiers.
    pub fn len(&self) -> (r: usize)
        ensures
            r == self@.dom().len(),
    {
        assert(self@.dom() =~= self.strings@.dom());
        self.strings.len()
    }
}

} // verus!
