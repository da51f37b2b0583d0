//! The in-memory glyph store: a key-value map from identifier to glyph
//! record, held for the lifetime of the process.  `put` inserts or
//! unconditionally overwrites; `get` returns a copy of the stored record or
//! signals absence.  A colliding identifier silently overwrites the
//! previous record.
//!
//! The store itself is a plain owned object; reader/writer locking around
//! it belongs to the service layer that shares it between request handlers.

use vstd::prelude::*;
use vstd::map::*;
use crate::idgen::{id_seq, marker_seq, make_id, make_marker, now_nanos};

verus! {

/// Record metadata is carried as a `serde_json::Value`; the store never
/// reads inside it.  Declared here so that the type can stand in fields and
/// signatures.
#[verifier::external_type_specification]
#[verifier::external_body]
pub struct ExValue(serde_json::Value);

/// Relies on the `Clone` impl of `serde_json::Value`: cloning yields a
/// value equal to the original.
pub assume_specification[ <serde_json::Value as Clone>::clone ](
    v: &serde_json::Value,
) -> (r: serde_json::Value)
    ensures
        r == *v,
;

/// A glyph as the node daemon stores it.
pub struct GlyphRecord {
    pub id: String,
    pub content: String,
    pub metadata: serde_json::Value,
    pub commit_id: Option<String>,
}

/// The mathematical value of a stored glyph record.
#[verifier::ext_equal]
pub ghost struct RecordModel {
    pub id: Seq<char>,
    pub content: Seq<char>,
    pub metadata: serde_json::Value,
    pub commit_id: Option<Seq<char>>,
}

impl View for GlyphRecord {
    type V = RecordModel;

    open spec fn view(&self) -> RecordModel {
        RecordModel {
            id: self.id@,
            content: self.content@,
            metadata: self.metadata,
            commit_id: match self.commit_id {
                Option::Some(c) => Option::Some(c@),
                Option::None => Option::None,
            },
        }
    }
}

impl Clone for GlyphRecord {
    fn clone(&self) -> (r: Self)
        ensures
            r == *self,
    {
        GlyphRecord {
            id: self.id.clone(),
            content: self.content.clone(),
            metadata: self.metadata.clone(),
            commit_id: match &self.commit_id {
                Option::Some(c) => Option::Some(c.clone()),
                Option::None => Option::None,
            },
        }
    }
}

/// The map that a sequence of records denotes: later entries win.
pub open spec fn map_of(s: Seq<GlyphRecord>) -> Map<Seq<char>, RecordModel>
    decreases s.len(),
{
    if s.len() == 0 {
        Map::empty()
    } else {
        map_of(s.drop_last()).insert(s.last().id@, s.last()@)
    }
}

/// Whether some entry of `s` carries identifier `k`.
pub open spec fn has_id(s: Seq<GlyphRecord>, k: Seq<char>) -> bool {
    exists|i: int| 0 <= i < s.len() && s[i].id@ == k
}

/// Entries carry pairwise distinct identifiers.
pub open spec fn distinct_ids(s: Seq<GlyphRecord>) -> bool {
    forall|i: int, j: int|
        #![trigger s[i].id@, s[j].id@]
        0 <= i < j < s.len() ==> s[i].id@ != s[j].id@
}

/// The map view has a key exactly when some entry carries it.
proof fn lemma_map_of_contains(s: Seq<GlyphRecord>, k: Seq<char>)
    ensures
        map_of(s).contains_key(k) <==> has_id(s, k),
    decreases s.len(),
{
    if s.len() == 0 {
    } else {
        lemma_map_of_contains(s.drop_last(), k);
        if s.last().id@ == k {
            assert(s[s.len() - 1].id@ == k);
        } else {
            if has_id(s, k) {
                let i = choose|i: int| 0 <= i < s.len() && s[i].id@ == k;
                assert(s.drop_last()[i].id@ == k);
            }
            if has_id(s.drop_last(), k) {
                let i = choose|i: int| 0 <= i < s.drop_last().len() && s.drop_last()[i].id@
                    == k;
                assert(s[i].id@ == k);
            }
        }
    }
}

/// Dropping the last entry keeps identifiers distinct.
proof fn lemma_distinct_drop_last(s: Seq<GlyphRecord>)
    requires
        distinct_ids(s),
        s.len() > 0,
    ensures
        distinct_ids(s.drop_last()),
{
    assert forall|i: int, j: int|
        0 <= i < j < s.drop_last().len() implies s.drop_last()[i].id@ != s.drop_last()[j].id@ by {
        assert(s.drop_last()[i] == s[i]);
        assert(s.drop_last()[j] == s[j]);
    }
}

/// With distinct identifiers, the entry at any index is the map's value at
/// its identifier.
proof fn lemma_map_of_index(s: Seq<GlyphRecord>, i: int)
    requires
        distinct_ids(s),
        0 <= i < s.len(),
    ensures
        map_of(s).contains_key(s[i].id@),
        map_of(s)[s[i].id@] == s[i]@,
    decreases s.len(),
{
    if i == s.len() - 1 {
    } else {
        lemma_distinct_drop_last(s);
        lemma_map_of_index(s.drop_last(), i);
        assert(s.drop_last()[i] == s[i]);
        assert(s[i].id@ != s[s.len() - 1].id@);
    }
}

/// Pushing a record adds exactly its entry to the view.
proof fn lemma_map_of_push(s: Seq<GlyphRecord>, g: GlyphRecord)
    ensures
        map_of(s.push(g)) == map_of(s).insert(g.id@, g@),
{
    assert(s.push(g).drop_last() =~= s);
    assert(s.push(g).last() == g);
}

/// Removing the one entry that carries an identifier removes exactly that
/// identifier from the view, and the remaining entries stay distinct and no
/// longer carry it.
proof fn lemma_map_of_remove(s: Seq<GlyphRecord>, i: int)
    requires
        distinct_ids(s),
        0 <= i < s.len(),
    ensures
        map_of(s.remove(i)) == map_of(s).remove(s[i].id@),
        distinct_ids(s.remove(i)),
        !has_id(s.remove(i), s[i].id@),
    decreases s.len(),
{
    let k = s[i].id@;
    let r = s.remove(i);
    assert forall|a: int, b: int|
        0 <= a < b < r.len() implies r[a].id@ != r[b].id@ by {
        assert(r[a] == if a < i { s[a] } else { s[a + 1] });
        assert(r[b] == if b < i { s[b] } else { s[b + 1] });
    }
    assert(!has_id(r, k)) by {
        if has_id(r, k) {
            let j = choose|j: int| 0 <= j < r.len() && r[j].id@ == k;
            assert(r[j] == if j < i { s[j] } else { s[j + 1] });
        }
    }
    if i == s.len() - 1 {
        assert(r =~= s.drop_last());
        lemma_map_of_contains(s.drop_last(), k);
        assert_maps_equal!(map_of(s.remove(i)), map_of(s).remove(k));
    } else {
        let dl = s.drop_last();
        lemma_distinct_drop_last(s);
        lemma_map_of_remove(dl, i);
        assert(dl[i] == s[i]);
        assert(r.drop_last() =~= dl.remove(i));
        assert(r.last() == s.last());
        assert(map_of(r) == map_of(dl.remove(i)).insert(s.last().id@, s.last()@));
        assert(s.last().id@ != k);
        assert_maps_equal!(map_of(dl).remove(k).insert(s.last().id@, s.last()@),
            map_of(dl).insert(s.last().id@, s.last()@).remove(k));
    }
}

/// Pushing a record with a fresh identifier keeps identifiers distinct.
proof fn lemma_distinct_push_fresh(s: Seq<GlyphRecord>, g: GlyphRecord)
    requires
        distinct_ids(s),
        !has_id(s, g.id@),
    ensures
        distinct_ids(s.push(g)),
{
    let p = s.push(g);
    assert forall|a: int, b: int|
        0 <= a < b < p.len() implies p[a].id@ != p[b].id@ by {
        if b < p.len() - 1 {
            assert(p[a] == s[a]);
            assert(p[b] == s[b]);
        } else {
            assert(p[a] == s[a]);
            assert(p[b] == g);
            assert(s[a].id@ == p[a].id@);
        }
    }
}

/// The concurrent in-memory key-value store of glyph records.
pub struct GlyphStore {
    entries: Vec<GlyphRecord>,
}

impl View for GlyphStore {
    type V = Map<Seq<char>, RecordModel>;

    closed spec fn view(&self) -> Map<Seq<char>, RecordModel> {
        map_of(self.entries@)
    }
}

impl GlyphStore {
    /// The store's internal invariant: one entry per identifier.
    pub closed spec fn wf(&self) -> bool {
        distinct_ids(self.entries@)
    }

    /// An empty store: no identifier maps to anything.
    pub fn new() -> (s: Self)
        ensures
            s.wf(),
            s@ == Map::<Seq<char>, RecordModel>::empty(),
    {
        GlyphStore { entries: Vec::new() }
    }

    /// The index of the entry carrying `id`, if any.
    fn find(&self, id: &String) -> (r: Option<usize>)
        ensures
            match r {
                Option::Some(i) => i < self.entries@.len() && self.entries@[i as int].id@
                    == id@,
                Option::None => !has_id(self.entries@, id@),
            },
    {
        let n = self.entries.len();
        let mut i: usize = 0;
        while i < n
            invariant
                n == self.entries@.len(),
                i <= n,
                forall|j: int| 0 <= j < i ==> self.entries@[j].id@ != id@,
            decreases n - i,
        {
            if self.entries[i].id == *id {
                return Option::Some(i);
            }
            i = i + 1;
        }
        Option::None
    }

    /// Inserts or unconditionally overwrites the entry at `g.id`: the view
    /// afterwards is the old view with `g` at its identifier, other keys
    /// untouched.
    pub fn put(&mut self, g: GlyphRecord)
        requires
            old(self).wf(),
        ensures
            final(self).wf(),
            final(self)@ == old(self)@.insert(g.id@, g@),
    {
        let ghost s0 = self.entries@;
        match self.find(&g.id) {
            Option::Some(i) => {
                proof {
                    lemma_map_of_remove(s0, i as int);
                }
                self.entries.remove(i);
                proof {
                    lemma_map_of_push(s0.remove(i as int), g);
                    lemma_distinct_push_fresh(s0.remove(i as int), g);
                    assert_maps_equal!(map_of(s0).remove(g.id@).insert(g.id@, g@),
                        map_of(s0).insert(g.id@, g@));
                }
                self.entries.push(g);
            },
            Option::None => {
                proof {
                    lemma_map_of_push(s0, g);
                    lemma_distinct_push_fresh(s0, g);
                }
                self.entries.push(g);
            },
        }
    }

    /// Returns a copy of the record stored at `id`, or `None` exactly when
    /// no record was ever stored there.
    pub fn get(&self, id: &String) -> (r: Option<GlyphRecord>)
        requires
            self.wf(),
        ensures
            match r {
                Option::Some(g) => self@.contains_key(id@) && g@ == self@[id@],
                Option::None => !self@.contains_key(id@),
            },
    {
        match self.find(id) {
            Option::Some(i) => {
                proof {
                    lemma_map_of_index(self.entries@, i as int);
                }
                Option::Some(self.entries[i].clone())
            },
            Option::None => {
                proof {
                    lemma_map_of_contains(self.entries@, id@);
                }
                Option::None
            },
        }
    }

    /// Creates a glyph record from timestamp `t`: mints the identifier and
    /// version marker, stores the record under the identifier, and returns
    /// both.
    pub fn create_at(&mut self, content: String, metadata: serde_json::Value, t: u128) -> (r: (
        String,
        String,
    ))
        requires
            old(self).wf(),
        ensures
            final(self).wf(),
            r.0@ == id_seq(t),
            r.1@ == marker_seq(t),
            final(self)@ == old(self)@.insert(
                id_seq(t),
                (RecordModel {
                    id: id_seq(t),
                    content: content@,
                    metadata: metadata,
                    commit_id: Option::Some(marker_seq(t)),
                }),
            ),
    {
        let id = make_id(t);
        let marker = make_marker(t);
        let record = GlyphRecord {
            id: id.clone(),
            content,
            metadata,
            commit_id: Option::Some(marker.clone()),
        };
        self.put(record);
        (id, marker)
    }

    /// Creates a glyph record from the current clock: for some timestamp
    /// the returned identifier and version marker are its encodings, and
    /// the record stored under the identifier carries exactly the given
    /// content and metadata.
    pub fn create(&mut self, content: String, metadata: serde_json::Value) -> (r: (
        String,
        String,
    ))
        requires
            old(self).wf(),
        ensures
            final(self).wf(),
            exists|t: u128| r.0@ == id_seq(t) && r.1@ == marker_seq(t),
            final(self)@ == old(self)@.insert(
                r.0@,
                (RecordModel {
                    id: r.0@,
                    content: content@,
                    metadata: metadata,
                    commit_id: Option::Some(r.1@),
                }),
            ),
    {
        let t = now_nanos();
        let r = self.create_at(content, metadata, t);
        proof {
            assert(r.0@ == id_seq(t) && r.1@ == marker_seq(t));
        }
        r
    }

    /// Round trip: after a record is stored, a query of its identifier
    /// finds exactly that record, content and metadata included.  Stated
    /// over the view that `create`, `put` and `get` speak of.
    pub proof fn lemma_create_then_query(
        m: Map<Seq<char>, RecordModel>,
        k: Seq<char>,
        rec: RecordModel,
    )
        ensures
            m.insert(k, rec).contains_key(k),
            m.insert(k, rec)[k] == rec,
    {
    }

    /// An identifier never stored stays absent under stores to other
    /// identifiers: a query for it still signals Not-Found.
    pub proof fn lemma_absent_key_stays_absent(
        m: Map<Seq<char>, RecordModel>,
        k: Seq<char>,
        k2: Seq<char>,
        rec: RecordModel,
    )
        requires
            !m.contains_key(k),
            k2 != k,
        ensures
            !m.insert(k2, rec).contains_key(k),
    {
    }

    /// Puts on distinct identifiers are independent: whatever order the two
    /// puts take effect in, both records are retrievable afterwards and
    /// neither update is lost.
    pub proof fn lemma_disjoint_puts_preserved(
        m: Map<Seq<char>, RecordModel>,
        ka: Seq<char>,
        a: RecordModel,
        kb: Seq<char>,
        b: RecordModel,
    )
        requires
            ka != kb,
        ensures
            m.insert(ka, a).insert(kb, b).contains_key(ka),
            m.insert(ka, a).insert(kb, b).contains_key(kb),
            m.insert(ka, a).insert(kb, b)[ka] == a,
            m.insert(ka, a).insert(kb, b)[kb] == b,
            m.insert(kb, b).insert(ka, a)[ka] == a,
            m.insert(kb, b).insert(ka, a)[kb] == b,
    {
    }
}

} // verus!
