//! The site directory: a receiver-local registry of the sites whose
//! registrations have been seen, keyed by site name.
//!
//! Records are held sorted by name (lexicographically, by the name's UTF-8
//! bytes), so a listing is stably ordered no matter in which order
//! registrations arrived. Registering a name that is already present
//! refreshes its last-seen stamp and never duplicates the entry; nothing
//! ever removes an entry.

use vstd::prelude::*;
use vstd::utf8::{encode_utf8, encode_utf8_decode_utf8};

verus! {

/// One known site: its name and a logical stamp of when it last registered.
pub struct SiteRecord {
    pub site_name: String,
    pub last_seen: u64,
}

/// The mathematical model of a record.
pub struct SiteRecordView {
    pub site_name: Seq<char>,
    pub last_seen: u64,
}

impl View for SiteRecord {
    type V = SiteRecordView;

    open spec fn view(&self) -> SiteRecordView {
        SiteRecordView { site_name: self.site_name@, last_seen: self.last_seen }
    }
}

/// Strict lexicographic order on byte strings.
pub open spec fn lex_lt(a: Seq<u8>, b: Seq<u8>) -> bool
    decreases a.len(),
{
    if b.len() == 0 {
        false
    } else if a.len() == 0 {
        true
    } else if a[0] < b[0] {
        true
    } else if a[0] > b[0] {
        false
    } else {
        lex_lt(a.drop_first(), b.drop_first())
    }
}

/// The directory's order on site names: lexicographic on their UTF-8 bytes.
pub open spec fn name_lt(a: Seq<char>, b: Seq<char>) -> bool {
    lex_lt(encode_utf8(a), encode_utf8(b))
}

/// `lex_lt` never relates a byte string to itself.
proof fn lemma_lex_lt_irrefl(a: Seq<u8>)
    ensures
        !lex_lt(a, a),
    decreases a.len(),
{
    if a.len() > 0 {
        lemma_lex_lt_irrefl(a.drop_first());
    }
}

/// Byte strings that `lex_lt` relates in neither direction are equal.
proof fn lemma_lex_lt_connected(a: Seq<u8>, b: Seq<u8>)
    requires
        !lex_lt(a, b),
        !lex_lt(b, a),
    ensures
        a == b,
    decreases a.len(),
{
    if b.len() == 0 {
        if a.len() != 0 {
            assert(lex_lt(b, a));
        }
        assert(a =~= b);
    } else {
        assert(a.len() != 0);
        assert(a[0] == b[0]);
        lemma_lex_lt_connected(a.drop_first(), b.drop_first());
        assert(a.len() == b.len());
        assert forall|i: int| 0 <= i < a.len() implies a[i] == b[i] by {
            if i > 0 {
                assert(a[i] == a.drop_first()[i - 1]);
                assert(b[i] == b.drop_first()[i - 1]);
            }
        }
        assert(a =~= b);
    }
}

/// `lex_lt` is transitive.
proof fn lemma_lex_lt_trans(a: Seq<u8>, b: Seq<u8>, c: Seq<u8>)
    requires
        lex_lt(a, b),
        lex_lt(b, c),
    ensures
        lex_lt(a, c),
    decreases a.len(),
{
    if a.len() != 0 && b.len() != 0 && c.len() != 0 && a[0] == b[0] && b[0] == c[0] {
        lemma_lex_lt_trans(a.drop_first(), b.drop_first(), c.drop_first());
    }
}

/// Site names that `name_lt` relates in neither direction are equal: the
/// UTF-8 encoding of a name determines the name.
pub proof fn lemma_name_connected(a: Seq<char>, b: Seq<char>)
    requires
        !name_lt(a, b),
        !name_lt(b, a),
    ensures
        a == b,
{
    lemma_lex_lt_connected(encode_utf8(a), encode_utf8(b));
    encode_utf8_decode_utf8(a);
    encode_utf8_decode_utf8(b);
}

/// `name_lt` is transitive.
pub proof fn lemma_name_trans(a: Seq<char>, b: Seq<char>, c: Seq<char>)
    requires
        name_lt(a, b),
        name_lt(b, c),
    ensures
        name_lt(a, c),
{
    lemma_lex_lt_trans(encode_utf8(a), encode_utf8(b), encode_utf8(c));
}

/// `name_lt` never relates a name to itself.
pub proof fn lemma_name_irrefl(a: Seq<char>)
    ensures
        !name_lt(a, a),
{
    lemma_lex_lt_irrefl(encode_utf8(a));
}

/// Skipping a common prefix does not change how `lex_lt` relates two byte
/// strings.
proof fn lemma_lex_lt_skip(a: Seq<u8>, b: Seq<u8>, i: int)
    requires
        0 <= i <= a.len(),
        i <= b.len(),
        forall|j: int| 0 <= j < i ==> a[j] == b[j],
    ensures
        lex_lt(a, b) == lex_lt(a.skip(i), b.skip(i)),
    decreases i,
{
    if i > 0 {
        lemma_lex_lt_skip(a.drop_first(), b.drop_first(), i - 1);
        assert(a.drop_first().skip(i - 1) =~= a.skip(i));
        assert(b.drop_first().skip(i - 1) =~= b.skip(i));
        assert(a.skip(0) =~= a);
        assert(b.skip(0) =~= b);
    } else {
        assert(a.skip(0) =~= a);
        assert(b.skip(0) =~= b);
    }
}

/// Compares two byte slices lexicographically.
fn bytes_lt(a: &[u8], b: &[u8]) -> (r: bool)
    ensures
        r == lex_lt(a@, b@),
{
    let a_len = a.len();
    let b_len = b.len();
    let n = if a_len < b_len {
        a_len
    } else {
        b_len
    };
    let mut i: usize = 0;
    while i < n
        invariant
            i <= n,
            n == if a_len < b_len {
                a_len
            } else {
                b_len
            },
            a_len == a@.len(),
            b_len == b@.len(),
            forall|j: int| 0 <= j < i ==> a@[j] == b@[j],
        decreases n - i,
    {
        let x = a[i];
        let y = b[i];
        if x < y {
            proof {
                lemma_lex_lt_skip(a@, b@, i as int);
            }
            return true;
        }
        if x > y {
            proof {
                lemma_lex_lt_skip(a@, b@, i as int);
            }
            return false;
        }
        i = i + 1;
    }
    proof {
        lemma_lex_lt_skip(a@, b@, n as int);
    }
    a_len < b_len
}

/// Compares two strings in the directory's order.
fn str_lt(a: &str, b: &str) -> (r: bool)
    ensures
        r == name_lt(a@, b@),
{
    bytes_lt(a.as_bytes(), b.as_bytes())
}

/// Registering a name is idempotent on the directory's mapping: a second
/// registration of the same name replaces only that name's stamp, and a
/// name's record exists exactly once however often it registers.
pub proof fn lemma_register_idempotent(
    m: Map<Seq<char>, u64>,
    name: Seq<char>,
    t1: u64,
    t2: u64,
)
    ensures
        m.insert(name, t1).insert(name, t2) == m.insert(name, t2),
        m.insert(name, t1).dom() == m.dom().insert(name),
{
    assert(m.insert(name, t1).insert(name, t2) =~= m.insert(name, t2));
    assert(m.insert(name, t1).dom() =~= m.dom().insert(name));
}

/// The mapping that a run of registrations leaves behind, starting from
/// `m`: each entry registers one name with one stamp, in order.
pub open spec fn spec_after_registrations(
    m: Map<Seq<char>, u64>,
    entries: Seq<(Seq<char>, u64)>,
) -> Map<Seq<char>, u64>
    decreases entries.len(),
{
    if entries.len() == 0 {
        m
    } else {
        spec_after_registrations(m.insert(entries[0].0, entries[0].1), entries.drop_first())
    }
}

/// However a run of registrations repeats and interleaves names, the names
/// known afterwards are the names known before plus every name registered.
/// With `lemma_len_counts_distinct_names`, a directory built from scratch
/// lists exactly as many records as distinct names were ever registered,
/// whatever the stamps.
pub proof fn lemma_after_registrations_dom(m: Map<Seq<char>, u64>, entries: Seq<(Seq<char>, u64)>)
    ensures
        spec_after_registrations(m, entries).dom() == m.dom() + entries.map_values(
            |e: (Seq<char>, u64)| e.0,
        ).to_set(),
    decreases entries.len(),
{
    let names = entries.map_values(|e: (Seq<char>, u64)| e.0);
    if entries.len() == 0 {
        assert(names.to_set() =~= Set::<Seq<char>>::empty());
        assert(spec_after_registrations(m, entries).dom() =~= m.dom() + names.to_set());
    } else {
        let first = entries[0].0;
        let m1 = m.insert(first, entries[0].1);
        lemma_after_registrations_dom(m1, entries.drop_first());
        let rest_names = entries.drop_first().map_values(|e: (Seq<char>, u64)| e.0);
        assert(m1.dom() =~= m.dom().insert(first));
        assert(names.to_set() =~= rest_names.to_set().insert(first)) by {
            assert forall|nm: Seq<char>| names.to_set().contains(nm) implies rest_names.to_set()
                .insert(first).contains(nm) by {
                let k = choose|k: int| 0 <= k < names.len() && names[k] == nm;
                if k > 0 {
                    assert(rest_names[k - 1] == nm);
                }
            }
            assert forall|nm: Seq<char>| rest_names.to_set().insert(first).contains(nm)
                implies names.to_set().contains(nm) by {
                if nm == first {
                    assert(names[0] == nm);
                } else {
                    let k = choose|k: int| 0 <= k < rest_names.len() && rest_names[k] == nm;
                    assert(names[k + 1] == nm);
                }
            }
        };
        assert(spec_after_registrations(m, entries).dom() =~= m.dom() + names.to_set());
    }
}

/// A record sequence that is strictly sorted by name in the directory's
/// order; in particular all names are distinct.
pub open spec fn spec_sorted(rs: Seq<SiteRecordView>) -> bool {
    forall|i: int, j: int|
        0 <= i < j < rs.len() ==> name_lt(#[trigger] rs[i].site_name, #[trigger] rs[j].site_name)
}

/// The directory of known sites. The single consumer of inbound messages
/// owns it; nothing else mutates it.
pub struct Sites {
    records: Vec<SiteRecord>,
    clock: u64,
}

/// What one registration of `name` does to a directory: the mapping gains
/// or refreshes the record for `name` stamped with the clock, the record
/// count grows exactly when the name is new, and the clock advances
/// (saturating). Everything `register` promises, so that the dispatcher's
/// contracts can promise the same.
pub open spec fn spec_registered(pre: Sites, post: Sites, name: Seq<char>) -> bool {
    &&& post.as_map() == pre.as_map().insert(name, pre.spec_clock())
    &&& post.contains_name(name)
    &&& (pre.contains_name(name) ==> post.spec_records().len() == pre.spec_records().len())
    &&& (!pre.contains_name(name) ==> post.spec_records().len() == pre.spec_records().len() + 1)
    &&& post.spec_clock() == if pre.spec_clock() < u64::MAX {
        pre.spec_clock() + 1
    } else {
        u64::MAX as int
    }
}

impl Sites {
    /// The records, in their held (sorted) order.
    pub closed spec fn spec_records(&self) -> Seq<SiteRecordView> {
        self.records@.map_values(|r: SiteRecord| r@)
    }

    /// The logical clock that stamps the next registration.
    pub closed spec fn spec_clock(&self) -> u64 {
        self.clock
    }

    /// Whether a site of this name is known.
    pub open spec fn contains_name(&self, name: Seq<char>) -> bool {
        exists|i: int|
            0 <= i < self.spec_records().len() && (#[trigger] self.spec_records()[i]).site_name
                == name
    }

    /// The index of the record of this name.
    pub closed spec fn spec_index_of(&self, name: Seq<char>) -> int {
        choose|i: int|
            0 <= i < self.spec_records().len() && (#[trigger] self.spec_records()[i]).site_name
                == name
    }

    /// The last-seen stamp of the record of this name.
    pub open spec fn stamp_of(&self, name: Seq<char>) -> u64 {
        self.spec_records()[self.spec_index_of(name)].last_seen
    }

    /// The directory as a mapping from site name to last-seen stamp.
    pub open spec fn as_map(&self) -> Map<Seq<char>, u64> {
        Map::new(|name: Seq<char>| self.contains_name(name), |name: Seq<char>| self.stamp_of(name))
    }

    /// Internal invariant: the records are strictly sorted by name.
    pub open spec fn wf(&self) -> bool {
        spec_sorted(self.spec_records())
    }

    /// A well-formed directory holds exactly one record per known site
    /// name: its listing's length is the number of distinct names ever
    /// registered.
    pub proof fn lemma_names_distinct(&self)
        requires
            self.wf(),
        ensures
            forall|i: int, j: int|
                0 <= i < j < self.spec_records().len() ==> (#[trigger] self.spec_records()[i]).site_name
                    != (#[trigger] self.spec_records()[j]).site_name,
    {
        assert forall|i: int, j: int| 0 <= i < j < self.spec_records().len() implies (
        #[trigger] self.spec_records()[i]).site_name != (
        #[trigger] self.spec_records()[j]).site_name by {
            lemma_name_irrefl(self.spec_records()[i].site_name);
        }
    }

    /// The listing length is the cardinality of the directory's name set:
    /// one record per distinct known name.
    pub proof fn lemma_len_counts_distinct_names(&self)
        requires
            self.wf(),
        ensures
            self.as_map().dom().finite(),
            self.as_map().dom().len() == self.spec_records().len(),
    {
        broadcast use vstd::seq_lib::seq_to_set_is_finite;

        let rs = self.spec_records();
        let names = rs.map_values(|r: SiteRecordView| r.site_name);
        self.lemma_names_distinct();
        assert(names.no_duplicates()) by {
            assert forall|i: int, j: int|
                0 <= i < names.len() && 0 <= j < names.len() && i != j implies names[i]
                != names[j] by {
                assert(names[i] == rs[i].site_name);
                assert(names[j] == rs[j].site_name);
            }
        };
        names.unique_seq_to_set();
        assert(self.as_map().dom() =~= names.to_set()) by {
            assert forall|nm: Seq<char>| self.as_map().dom().contains(nm) implies names.to_set()
                .contains(nm) by {
                let k = choose|k: int| 0 <= k < rs.len() && (#[trigger] rs[k]).site_name == nm;
                assert(names[k] == nm);
            }
            assert forall|nm: Seq<char>| names.to_set().contains(nm) implies self.as_map()
                .dom().contains(nm) by {
                let k = choose|k: int| 0 <= k < names.len() && names[k] == nm;
                assert(rs[k].site_name == nm);
            }
        };
    }

    /// In a well-formed directory the record of a known name is unique, so
    /// any index holding the name is the index of the name.
    proof fn lemma_index_unique(&self, name: Seq<char>, j: int)
        requires
            self.wf(),
            0 <= j < self.spec_records().len(),
            self.spec_records()[j].site_name == name,
        ensures
            self.spec_index_of(name) == j,
    {
        let i = self.spec_index_of(name);
        assert(0 <= i < self.spec_records().len() && self.spec_records()[i].site_name == name);
        if i < j {
            lemma_name_irrefl(name);
        } else if j < i {
            lemma_name_irrefl(name);
        }
    }

    /// An empty directory.
    pub fn build() -> (r: Sites)
        ensures
            r.wf(),
            r.spec_records().len() == 0,
            r.spec_clock() == 0,
            r.as_map() == Map::<Seq<char>, u64>::empty(),
    {
        let r = Sites { records: Vec::new(), clock: 0 };
        proof {
            assert(r.as_map() =~= Map::<Seq<char>, u64>::empty());
        }
        r
    }

    /// Inserts or refreshes the record for `site_name`: afterwards the
    /// directory maps `site_name` to the current clock stamp and is
    /// otherwise unchanged. A name gains a record only on its first
    /// registration; registering it again touches only its stamp.
    pub fn register(&mut self, site_name: String)
        requires
            old(self).wf(),
        ensures
            final(self).wf(),
            spec_registered(*old(self), *final(self), site_name@),
    {
        let ghost orig = *self;
        let n = self.records.len();
        let mut i: usize = 0;
        while i < n
            invariant
                *self == orig,
                n == self.records@.len(),
                i <= n,
                forall|j: int|
                    0 <= j < i ==> name_lt(
                        (#[trigger] self.spec_records()[j]).site_name,
                        site_name@,
                    ),
            ensures
                *self == orig,
                i <= n,
                forall|j: int|
                    0 <= j < i ==> name_lt(
                        (#[trigger] self.spec_records()[j]).site_name,
                        site_name@,
                    ),
                i < n ==> !name_lt(self.spec_records()[i as int].site_name, site_name@),
            decreases n - i,
        {
            if !str_lt(self.records[i].site_name.as_str(), site_name.as_str()) {
                proof {
                    assert(self.spec_records()[i as int].site_name == self.records@[
                        i as int
                    ].site_name@);
                }
                break;
            }
            proof {
                assert(self.spec_records()[i as int].site_name == self.records@[
                    i as int
                ].site_name@);
            }
            i = i + 1;
        }
        let stamp = self.clock;
        if i < n && self.records[i].site_name == site_name {
            let existing = self.records.remove(i);
            self.records.insert(i, SiteRecord { site_name: existing.site_name, last_seen: stamp });
            proof {
                self.lemma_register_update(orig, site_name@, stamp, i as int);
                assert(self.spec_records()[i as int].site_name == site_name@);
            }
        } else {
            proof {
                if i < n {
                    assert(!name_lt(self.spec_records()[i as int].site_name, site_name@));
                    if !name_lt(site_name@, self.spec_records()[i as int].site_name) {
                        lemma_name_connected(self.spec_records()[i as int].site_name, site_name@);
                    }
                }
            }
            self.records.insert(i, SiteRecord { site_name, last_seen: stamp });
            proof {
                self.lemma_register_insert(orig, i as int);
                assert(self.spec_records()[i as int].site_name == site_name@);
            }
        }
        let ghost pre = *self;
        if self.clock < u64::MAX {
            self.clock = self.clock + 1;
        }
        proof {
            assert(self.spec_records() == pre.spec_records());
            assert(self.spec_records()[i as int].site_name == site_name@);
            assert forall|nm: Seq<char>| self.contains_name(nm) == pre.contains_name(nm) by {}
            assert forall|nm: Seq<char>| pre.contains_name(nm) implies self.stamp_of(nm)
                == pre.stamp_of(nm) by {}
            assert(self.as_map() =~= pre.as_map());
        }
    }

    /// After refreshing the record at index `i` in place, the directory is
    /// the old one with the name's stamp replaced.
    proof fn lemma_register_update(&self, orig: Sites, name: Seq<char>, stamp: u64, i: int)
        requires
            orig.wf(),
            0 <= i < orig.spec_records().len(),
            orig.spec_records()[i].site_name == name,
            self.spec_records() =~= orig.spec_records().update(
                i,
                SiteRecordView { site_name: name, last_seen: stamp },
            ),
        ensures
            self.wf(),
            self.as_map() == orig.as_map().insert(name, stamp),
            self.spec_records().len() == orig.spec_records().len(),
    {
        let rs = self.spec_records();
        let os = orig.spec_records();
        assert forall|p: int, q: int| 0 <= p < q < rs.len() implies name_lt(
            (#[trigger] rs[p]).site_name,
            (#[trigger] rs[q]).site_name,
        ) by {
            assert(rs[p].site_name == os[p].site_name);
            assert(rs[q].site_name == os[q].site_name);
        }
        assert forall|nm: Seq<char>| self.contains_name(nm) == (orig.contains_name(nm) || nm
            == name) by {
            if self.contains_name(nm) {
                let k = choose|k: int|
                    0 <= k < rs.len() && (#[trigger] rs[k]).site_name == nm;
                assert(os[k].site_name == nm);
            }
            if orig.contains_name(nm) {
                let k = choose|k: int|
                    0 <= k < os.len() && (#[trigger] os[k]).site_name == nm;
                assert(rs[k].site_name == nm);
            }
            if nm == name {
                assert(rs[i].site_name == nm);
            }
        }
        assert forall|nm: Seq<char>| self.contains_name(nm) implies self.stamp_of(nm) == (if nm
            == name {
            stamp
        } else {
            orig.stamp_of(nm)
        }) by {
            let k = choose|k: int| 0 <= k < rs.len() && (#[trigger] rs[k]).site_name == nm;
            self.lemma_index_unique(nm, k);
            if nm == name {
                self.lemma_index_unique(nm, i);
            } else {
                assert(os[k].site_name == nm);
                orig.lemma_index_unique(nm, k);
            }
        }
        assert(self.as_map() =~= orig.as_map().insert(name, stamp));
    }

    /// After inserting a fresh record at the position `i` that the scan
    /// found, the directory is the old one extended by the new name.
    proof fn lemma_register_insert(&self, orig: Sites, i: int)
        requires
            orig.wf(),
            0 <= i <= orig.spec_records().len(),
            i < self.spec_records().len(),
            self.spec_records() =~= orig.spec_records().insert(i, self.spec_records()[i]),
            forall|j: int|
                0 <= j < i ==> name_lt(
                    (#[trigger] orig.spec_records()[j]).site_name,
                    self.spec_records()[i].site_name,
                ),
            i < orig.spec_records().len() ==> name_lt(
                self.spec_records()[i].site_name,
                orig.spec_records()[i].site_name,
            ),
        ensures
            self.wf(),
            self.as_map() == orig.as_map().insert(
                self.spec_records()[i].site_name,
                self.spec_records()[i].last_seen,
            ),
            !orig.contains_name(self.spec_records()[i].site_name),
            self.spec_records().len() == orig.spec_records().len() + 1,
    {
        let rs = self.spec_records();
        let os = orig.spec_records();
        let name = rs[i].site_name;
        let stamp = rs[i].last_seen;
        // relate indices across the insertion
        assert forall|j: int| 0 <= j < rs.len() implies rs[j] == (if j < i {
            os[j]
        } else if j == i {
            rs[i]
        } else {
            os[j - 1]
        }) by {}
        assert forall|p: int, q: int| 0 <= p < q < rs.len() implies name_lt(
            (#[trigger] rs[p]).site_name,
            (#[trigger] rs[q]).site_name,
        ) by {
            if p < i && q == i {
            } else if p == i && q > i {
                if i < os.len() {
                    if q - 1 > i {
                        lemma_name_trans(name, os[i].site_name, os[q - 1].site_name);
                    }
                }
            } else if p < i && q > i {
                assert(name_lt(os[p].site_name, os[q - 1].site_name));
            } else if p > i && q > i {
                assert(name_lt(os[p - 1].site_name, os[q - 1].site_name));
            }
        }
        if orig.contains_name(name) {
            let k = choose|k: int| 0 <= k < os.len() && (#[trigger] os[k]).site_name == name;
            lemma_name_irrefl(name);
            if k < i {
                assert(name_lt(os[k].site_name, name));
            } else if k == i {
                assert(name_lt(name, os[i].site_name));
            } else {
                assert(name_lt(os[i].site_name, os[k].site_name));
                lemma_name_trans(name, os[i].site_name, os[k].site_name);
            }
            assert(false);
        }
        assert forall|nm: Seq<char>| self.contains_name(nm) == (orig.contains_name(nm) || nm
            == name) by {
            if self.contains_name(nm) {
                let k = choose|k: int| 0 <= k < rs.len() && (#[trigger] rs[k]).site_name == nm;
                if k != i {
                    if k < i {
                        assert(os[k].site_name == nm);
                    } else {
                        assert(os[k - 1].site_name == nm);
                    }
                }
            }
            if orig.contains_name(nm) {
                let k = choose|k: int| 0 <= k < os.len() && (#[trigger] os[k]).site_name == nm;
                if k < i {
                    assert(rs[k].site_name == nm);
                } else {
                    assert(rs[k + 1].site_name == nm);
                }
            }
            if nm == name {
                assert(rs[i].site_name == nm);
            }
        }
        assert forall|nm: Seq<char>| self.contains_name(nm) implies self.stamp_of(nm) == (if nm
            == name {
            stamp
        } else {
            orig.stamp_of(nm)
        }) by {
            let k = choose|k: int| 0 <= k < rs.len() && (#[trigger] rs[k]).site_name == nm;
            self.lemma_index_unique(nm, k);
            if nm == name {
                self.lemma_index_unique(nm, i);
            } else {
                if k < i {
                    assert(os[k].site_name == nm);
                    orig.lemma_index_unique(nm, k);
                } else {
                    assert(os[k - 1].site_name == nm);
                    orig.lemma_index_unique(nm, k - 1);
                }
            }
        }
        assert(self.as_map() =~= orig.as_map().insert(name, stamp));
    }

    /// A snapshot of the records, sorted by name, for display.
    pub fn list(&self) -> (r: Vec<SiteRecord>)
        requires
            self.wf(),
        ensures
            r@.len() == self.spec_records().len(),
            forall|i: int| 0 <= i < r@.len() ==> (#[trigger] r@[i])@ == self.spec_records()[i],
            spec_sorted(r@.map_values(|rec: SiteRecord| rec@)),
    {
        let mut out: Vec<SiteRecord> = Vec::new();
        let n = self.records.len();
        let mut i: usize = 0;
        while i < n
            invariant
                i <= n,
                n == self.records@.len(),
                out@.len() == i,
                forall|j: int| 0 <= j < i ==> (#[trigger] out@[j])@ == self.spec_records()[j],
            decreases n - i,
        {
            let rec = &self.records[i];
            out.push(SiteRecord { site_name: rec.site_name.clone(), last_seen: rec.last_seen });
            i = i + 1;
        }
        proof {
            let mapped = out@.map_values(|rec: SiteRecord| rec@);
            assert forall|p: int, q: int| 0 <= p < q < mapped.len() implies name_lt(
                (#[trigger] mapped[p]).site_name,
                (#[trigger] mapped[q]).site_name,
            ) by {
                assert(mapped[p] == out@[p]@);
                assert(mapped[q] == out@[q]@);
                assert(out@[p]@ == self.spec_records()[p]);
                assert(out@[q]@ == self.spec_records()[q]);
            }
        }
        out
    }
}

} // verus!
