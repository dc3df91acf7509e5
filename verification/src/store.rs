//! The bottle record store: the authoritative state of every provisioned
//! environment, keyed by its unique identifier. The store here is the
//! in-memory model of the on-disk layout (one directory per record); the
//! shell around the library mirrors every change to disk and hydrates the
//! model at startup. Its mathematical view is a map from identifier to
//! record.

use vstd::prelude::*;

use crate::runtime::{opt_view, WineRuntime, WineRuntimeView};
use crate::text;
use crate::text::SortKey;
use crate::AlloyError;

verus! {

/// One bottle's persisted state.
#[derive(Debug)]
pub struct BottleRecord {
    pub id: String,
    pub name: String,
    pub created_at: u64,
    pub wine_runtime: WineRuntime,
    pub environment: Vec<(String, String)>,
}

/// The mathematical shape of a `BottleRecord`.
pub struct BottleRecordView {
    pub id: Seq<char>,
    pub name: Seq<char>,
    pub created_at: u64,
    pub wine_runtime: WineRuntimeView,
    pub environment: Seq<(Seq<char>, Seq<char>)>,
}

/// The view of an ordered list of environment overrides.
pub open spec fn env_view(e: Seq<(String, String)>) -> Seq<(Seq<char>, Seq<char>)> {
    e.map_values(|p: (String, String)| (p.0@, p.1@))
}

impl View for BottleRecord {
    type V = BottleRecordView;

    open spec fn view(&self) -> BottleRecordView {
        BottleRecordView {
            id: self.id@,
            name: self.name@,
            created_at: self.created_at,
            wine_runtime: self.wine_runtime@,
            environment: env_view(self.environment@),
        }
    }
}

/// A copy of an environment list with the same contents.
pub fn clone_env(e: &Vec<(String, String)>) -> (r: Vec<(String, String)>)
    ensures
        env_view(r@) == env_view(e@),
{
    let mut out: Vec<(String, String)> = Vec::new();
    let mut i: usize = 0;
    while i < e.len()
        invariant
            i <= e@.len(),
            out@.len() == i,
            env_view(out@) == env_view(e@.take(i as int)),
        decreases e@.len() - i,
    {
        let ghost pre = out@;
        out.push((e[i].0.clone(), e[i].1.clone()));
        proof {
            assert forall|j: int| 0 <= j < i + 1 implies env_view(out@)[j] == env_view(
                e@.take(i + 1),
            )[j] by {
                if j < i {
                    assert(env_view(pre)[j] == env_view(e@.take(i as int))[j]);
                    assert(out@[j] == pre[j]);
                    assert(e@.take(i + 1)[j] == e@.take(i as int)[j]);
                } else {
                    assert(out@[j].0@ == e@[j].0@ && out@[j].1@ == e@[j].1@);
                }
            }
            assert(env_view(out@) =~= env_view(e@.take(i + 1)));
        }
        i = i + 1;
    }
    proof {
        assert(e@.take(e@.len() as int) =~= e@);
    }
    out
}

impl BottleRecord {
    /// A copy with the same contents.
    pub fn duplicate(&self) -> (r: Self)
        ensures
            r@ == self@,
    {
        BottleRecord {
            id: self.id.clone(),
            name: self.name.clone(),
            created_at: self.created_at,
            wine_runtime: self.wine_runtime.duplicate(),
            environment: clone_env(&self.environment),
        }
    }
}

impl SortKey for BottleRecord {
    open spec fn key(&self) -> Seq<char> {
        self.name@
    }

    fn key_le(&self, other: &Self) -> (r: bool)
        ensures
            r == text::lex_le(self.key(), other.key()),
    {
        text::str_le(self.name.as_str(), other.name.as_str())
    }
}

/// A list of records, the payload of a listing reply.
#[derive(Debug)]
pub struct BottleList {
    pub bottles: Vec<BottleRecord>,
}

/// The records under their identifiers, later entries shadowing earlier
/// ones for the same identifier.
pub open spec fn records_map(s: Seq<(String, BottleRecord)>) -> Map<Seq<char>, BottleRecordView>
    decreases s.len(),
{
    if s.len() == 0 {
        Map::empty()
    } else {
        records_map(s.drop_last()).insert(s.last().0@, s.last().1@)
    }
}

/// No two entries carry the same identifier.
pub open spec fn unique_keys(s: Seq<(String, BottleRecord)>) -> bool {
    forall|i: int, j: int| 0 <= i < j < s.len() ==> (#[trigger] s[i].0@) != (#[trigger] s[j].0@)
}

/// Each entry of a uniquely-keyed table is what its key maps to.
proof fn lemma_records_map_index(s: Seq<(String, BottleRecord)>, i: int)
    requires
        unique_keys(s),
        0 <= i < s.len(),
    ensures
        records_map(s).contains_key(s[i].0@),
        records_map(s)[s[i].0@] == s[i].1@,
    decreases s.len(),
{
    if i == s.len() - 1 {
    } else {
        assert(s.drop_last()[i] == s[i]);
        lemma_records_map_index(s.drop_last(), i);
        assert(s[i].0@ != s[s.len() - 1].0@);
    }
}

/// The keys of the table are exactly the map's domain.
proof fn lemma_records_map_domain(s: Seq<(String, BottleRecord)>)
    ensures
        forall|k: Seq<char>|
            #[trigger] records_map(s).contains_key(k) <==> (exists|i: int|
                0 <= i < s.len() && (#[trigger] s[i].0@) == k),
    decreases s.len(),
{
    if s.len() == 0 {
    } else {
        lemma_records_map_domain(s.drop_last());
        assert forall|k: Seq<char>| #[trigger]
            records_map(s).contains_key(k) implies (exists|i: int|
            0 <= i < s.len() && (#[trigger] s[i].0@) == k) by {
            if k == s.last().0@ {
                assert(s[s.len() - 1].0@ == k);
            } else {
                assert(records_map(s.drop_last()).contains_key(k));
                let i = choose|i: int| 0 <= i < s.drop_last().len() && (#[trigger] s.drop_last()[i].0@) == k;
                assert(s[i].0@ == k);
            }
        }
        assert forall|k: Seq<char>|
            (exists|i: int|
                0 <= i < s.len() && (#[trigger] s[i].0@) == k) implies #[trigger] records_map(
            s,
        ).contains_key(k) by {
            let i = choose|i: int| 0 <= i < s.len() && (#[trigger] s[i].0@) == k;
            if i == s.len() - 1 {
            } else {
                assert(s.drop_last()[i].0@ == k);
                assert(records_map(s.drop_last()).contains_key(k));
            }
        }
    }
}

/// Removing one entry of a uniquely-keyed table removes its key from the
/// map and nothing else.
proof fn lemma_records_map_remove(s: Seq<(String, BottleRecord)>, i: int)
    requires
        unique_keys(s),
        0 <= i < s.len(),
    ensures
        records_map(s.remove(i)) == records_map(s).remove(s[i].0@),
    decreases s.len(),
{
    let k = s[i].0@;
    if i == s.len() - 1 {
        assert(s.remove(i) =~= s.drop_last());
        lemma_records_map_domain(s.drop_last());
        assert(!records_map(s.drop_last()).contains_key(k)) by {
            if records_map(s.drop_last()).contains_key(k) {
                let j = choose|j: int|
                    0 <= j < s.drop_last().len() && (#[trigger] s.drop_last()[j].0@) == k;
                assert(s[j].0@ == s[i].0@);
            }
        }
        assert(records_map(s.drop_last()) =~= records_map(s).remove(k));
    } else {
        let dl = s.drop_last();
        assert(s.remove(i).drop_last() =~= dl.remove(i));
        assert(s.remove(i).last() == s.last());
        assert(s.remove(i).len() > 0);
        lemma_records_map_remove(dl, i);
        assert(dl[i] == s[i]);
        assert(s.last().0@ != k);
        assert(records_map(s.remove(i)) == records_map(dl.remove(i)).insert(
            s.last().0@,
            s.last().1@,
        ));
        assert(records_map(dl).remove(k).insert(s.last().0@, s.last().1@) =~= records_map(
            dl,
        ).insert(s.last().0@, s.last().1@).remove(k));
    }
}

/// A uniquely-keyed table is as large as its map's domain.
proof fn lemma_records_map_len(s: Seq<(String, BottleRecord)>)
    requires
        unique_keys(s),
    ensures
        records_map(s).dom().finite(),
        records_map(s).dom().len() == s.len(),
    decreases s.len(),
{
    broadcast use vstd::set::group_set_axioms;

    if s.len() == 0 {
        assert(records_map(s).dom() =~= Set::<Seq<char>>::empty());
    } else {
        let dl = s.drop_last();
        let k = s.last().0@;
        lemma_records_map_len(dl);
        lemma_records_map_domain(dl);
        assert(!records_map(dl).contains_key(k)) by {
            if records_map(dl).contains_key(k) {
                let j = choose|j: int| 0 <= j < dl.len() && (#[trigger] dl[j].0@) == k;
                assert(s[j].0@ == s[s.len() - 1].0@);
            }
        }
        assert(records_map(s).dom() =~= records_map(dl).dom().insert(k));
    }
}

/// The bottle record store; its view is the map from identifier to
/// record that the backing directory tree holds.
pub struct BottleStore {
    root: String,
    records: Vec<(String, BottleRecord)>,
}

impl View for BottleStore {
    type V = Map<Seq<char>, BottleRecordView>;

    closed spec fn view(&self) -> Map<Seq<char>, BottleRecordView> {
        records_map(self.records@)
    }
}

impl BottleStore {
    /// The store keeps one entry per identifier.
    pub closed spec fn wf(&self) -> bool {
        unique_keys(self.records@)
    }

    /// The records as stored, in no particular order.
    pub closed spec fn stored(&self) -> Seq<BottleRecordView> {
        self.records@.map_values(|p: (String, BottleRecord)| p.1@)
    }

    /// The listing's source and the store's map describe the same
    /// records: the stored views are as many as the identifiers the map
    /// holds, every mapped record stands among them, and every stored
    /// view is some identifier's record. Together with `list`'s own
    /// clauses this pins the listing's contents to the map: one entry per
    /// identifier.
    pub proof fn lemma_stored_matches_view(&self)
        requires
            self.wf(),
        ensures
            self.stored().len() == self@.dom().len(),
            forall|k: Seq<char>|
                #[trigger] self@.contains_key(k) ==> self.stored().contains(self@[k]),
            forall|i: int|
                0 <= i < self.stored().len() ==> self@.contains_value(#[trigger] self.stored()[i]),
    {
        let s = self.records@;
        lemma_records_map_len(s);
        lemma_records_map_domain(s);
        assert forall|k: Seq<char>| #[trigger] self@.contains_key(k) implies self.stored().contains(
            self@[k],
        ) by {
            let i = choose|i: int| 0 <= i < s.len() && (#[trigger] s[i].0@) == k;
            lemma_records_map_index(s, i);
            assert(self.stored()[i] == s[i].1@);
        }
        assert forall|i: int|
            0 <= i < self.stored().len() implies self@.contains_value(
            #[trigger] self.stored()[i],
        ) by {
            lemma_records_map_index(s, i);
            assert(self.stored()[i] == s[i].1@);
            let k0 = s[i].0@;
            assert(self@.dom().contains(k0) && self@[k0] == self.stored()[i]);
        }
    }

    /// An empty store over the given root directory.
    pub fn with_root(root: String) -> (r: Self)
        ensures
            r.wf(),
            r@ == Map::<Seq<char>, BottleRecordView>::empty(),
            r.spec_root()@ == root@,
    {
        BottleStore { root, records: Vec::new() }
    }

    /// The root directory that backs the store.
    pub fn root(&self) -> (r: &String)
        ensures
            r == self.spec_root(),
    {
        &self.root
    }

    /// The root directory as a spec value.
    pub closed spec fn spec_root(&self) -> String {
        self.root
    }

    /// Where the entry for `id` sits in the table, if anywhere.
    fn find(&self, id: &str) -> (r: Option<usize>)
        ensures
            match r {
                Some(i) => i < self.records@.len() && self.records@[i as int].0@ == id@,
                None => forall|i: int|
                    0 <= i < self.records@.len() ==> (#[trigger] self.records@[i].0@) != id@,
            },
    {
        let mut i: usize = 0;
        while i < self.records.len()
            invariant
                i <= self.records@.len(),
                forall|j: int| 0 <= j < i ==> (#[trigger] self.records@[j].0@) != id@,
            decreases self.records@.len() - i,
        {
            if text::str_eq(self.records[i].0.as_str(), id) {
                return Some(i);
            }
            i = i + 1;
        }
        None
    }

    /// Files `record` under `id`, replacing any record already there.
    pub fn put(&mut self, id: String, record: BottleRecord)
        requires
            old(self).wf(),
        ensures
            final(self).wf(),
            final(self)@ == old(self)@.insert(id@, record@),
            final(self).spec_root() == old(self).spec_root(),
    {
        proof {
            lemma_records_map_domain(self.records@);
        }
        match self.find(id.as_str()) {
            Some(i) => {
                proof {
                    lemma_records_map_remove(self.records@, i as int);
                }
                let ghost pre = self.records@;
                let _ = self.records.remove(i);
                proof {
                    assert(unique_keys(self.records@)) by {
                        assert forall|a: int, b: int|
                            0 <= a < b < self.records@.len() implies (
                        #[trigger] self.records@[a].0@) != (#[trigger] self.records@[b].0@) by {
                            if b < i {
                            } else if a < i {
                                assert(self.records@[a] == pre[a] && self.records@[b] == pre[b
                                    + 1]);
                            } else {
                                assert(self.records@[a] == pre[a + 1] && self.records@[b] == pre[b
                                    + 1]);
                            }
                        }
                    }
                    lemma_records_map_domain(self.records@);
                    assert(!self@.contains_key(id@)) by {
                        if self@.contains_key(id@) {
                            let j = choose|j: int|
                                0 <= j < self.records@.len() && (#[trigger] self.records@[j].0@)
                                    == id@;
                            if j < i {
                                assert(pre[j].0@ == pre[i as int].0@);
                            } else {
                                assert(pre[j + 1].0@ == pre[i as int].0@);
                            }
                        }
                    }
                }
                let ghost mid = self.records@;
                self.records.push((id, record));
                proof {
                    assert(self.records@.drop_last() =~= mid);
                    assert(records_map(pre).remove(pre[i as int].0@).insert(id@, record@)
                        =~= records_map(pre).insert(id@, record@));
                }
            },
            None => {
                let ghost pre = self.records@;
                self.records.push((id, record));
                proof {
                    assert(self.records@.drop_last() =~= pre);
                }
            },
        }
    }

    /// The record stored for `id`; fails with `NotFound` exactly when the
    /// store holds none.
    pub fn record(&self, id: &str) -> (r: Result<BottleRecord, AlloyError>)
        requires
            self.wf(),
        ensures
            match r {
                Ok(rec) => self@.contains_key(id@) && rec@ == self@[id@],
                Err(e) => !self@.contains_key(id@) && e is NotFound,
            },
    {
        proof {
            lemma_records_map_domain(self.records@);
        }
        match self.find(id) {
            Some(i) => {
                proof {
                    lemma_records_map_index(self.records@, i as int);
                }
                Ok(self.records[i].1.duplicate())
            },
            None => Err(AlloyError::NotFound(text::concat3("bottle ", id, " not found"))),
        }
    }

    /// Overwrites the record stored for `id`; fails with `NotFound`
    /// exactly when the store holds none — it never creates one.
    pub fn update_record(&mut self, id: &str, record: &BottleRecord) -> (r: Result<
        (),
        AlloyError,
    >)
        requires
            old(self).wf(),
        ensures
            final(self).wf(),
            final(self).spec_root() == old(self).spec_root(),
            match r {
                Ok(()) => old(self)@.contains_key(id@) && final(self)@ == old(self)@.insert(
                    id@,
                    record@,
                ),
                Err(e) => !old(self)@.contains_key(id@) && e is NotFound && final(self)@ == old(
                    self,
                )@,
            },
    {
        proof {
            lemma_records_map_domain(self.records@);
        }
        match self.find(id) {
            Some(_) => {
                let owned: String = id.to_owned();
                self.put(owned, record.duplicate());
                Ok(())
            },
            None => Err(AlloyError::NotFound(text::concat3("bottle ", id, " not found"))),
        }
    }

    /// Deletes the record stored for `id` and everything under its
    /// directory; fails with `NotFound` exactly when the store holds
    /// none.
    pub fn remove(&mut self, id: &str) -> (r: Result<(), AlloyError>)
        requires
            old(self).wf(),
        ensures
            final(self).wf(),
            final(self).spec_root() == old(self).spec_root(),
            match r {
                Ok(()) => old(self)@.contains_key(id@) && final(self)@ == old(self)@.remove(id@),
                Err(e) => !old(self)@.contains_key(id@) && e is NotFound && final(self)@ == old(
                    self,
                )@,
            },
    {
        proof {
            lemma_records_map_domain(self.records@);
        }
        match self.find(id) {
            Some(i) => {
                proof {
                    lemma_records_map_remove(self.records@, i as int);
                }
                let ghost pre = self.records@;
                let _ = self.records.remove(i);
                proof {
                    assert(unique_keys(self.records@)) by {
                        assert forall|a: int, b: int|
                            0 <= a < b < self.records@.len() implies (
                        #[trigger] self.records@[a].0@) != (#[trigger] self.records@[b].0@) by {
                            if b < i {
                            } else if a < i {
                                assert(self.records@[a] == pre[a] && self.records@[b] == pre[b
                                    + 1]);
                            } else {
                                assert(self.records@[a] == pre[a + 1] && self.records@[b] == pre[b
                                    + 1]);
                            }
                        }
                    }
                }
                Ok(())
            },
            None => Err(AlloyError::NotFound(text::concat3("bottle ", id, " not found"))),
        }
    }

    /// Every stored record, ordered by display name; tolerant listing is
    /// the shell's concern — it skips what it cannot parse before the
    /// records reach the store.
    pub fn list(&self) -> (r: Vec<BottleRecord>)
        requires
            self.wf(),
        ensures
            r@.len() == self@.dom().len(),
            r@.map_values(|b: BottleRecord| b@).to_multiset() == self.stored().to_multiset(),
            forall|i: int, j: int|
                0 <= i < j < r@.len() ==> text::lex_le(
                    #[trigger] r@[i].name@,
                    #[trigger] r@[j].name@,
                ),
    {
        proof {
            self.lemma_stored_matches_view();
        }
        let mut copies: Vec<BottleRecord> = Vec::new();
        let mut i: usize = 0;
        while i < self.records.len()
            invariant
                i <= self.records@.len(),
                copies@.len() == i,
                copies@.map_values(|b: BottleRecord| b@) == self.records@.take(i as int).map_values(
                    |p: (String, BottleRecord)| p.1@,
                ),
            decreases self.records@.len() - i,
        {
            let ghost pre = copies@;
            copies.push(self.records[i].1.duplicate());
            proof {
                let f = |b: BottleRecord| b@;
                let g = |p: (String, BottleRecord)| p.1@;
                assert forall|j: int| 0 <= j < i + 1 implies copies@.map_values(f)[j]
                    == self.records@.take(i + 1).map_values(g)[j] by {
                    if j < i {
                        assert(pre.map_values(f)[j] == self.records@.take(i as int).map_values(
                            g,
                        )[j]);
                        assert(copies@[j] == pre[j]);
                        assert(self.records@.take(i + 1)[j] == self.records@.take(i as int)[j]);
                    } else {
                        assert(copies@[j]@ == self.records@[j].1@);
                    }
                }
                assert(copies@.map_values(f) =~= self.records@.take(i + 1).map_values(g));
            }
            i = i + 1;
        }
        proof {
            assert(self.records@.take(self.records@.len() as int) =~= self.records@);
        }
        let sorted = text::sort_by_key(copies);
        proof {
            text::lemma_map_values_multiset_eq(sorted@, copies@, |b: BottleRecord| b@);
            assert forall|i: int, j: int| 0 <= i < j < sorted@.len() implies text::lex_le(
                #[trigger] sorted@[i].name@,
                #[trigger] sorted@[j].name@,
            ) by {
                assert(text::lex_le(sorted@[i].key(), sorted@[j].key()));
            }
            vstd::seq_lib::to_multiset_len(sorted@.map_values(|b: BottleRecord| b@));
            vstd::seq_lib::to_multiset_len(self.stored());
        }
        sorted
    }

    /// The directory that holds the isolated environment of bottle `id`:
    /// a pure path computation, with no claim that the path exists.
    pub fn bottle_prefix(&self, id: &str) -> (r: String)
        ensures
            r@ == self.spec_root()@ + "/"@ + id@ + "/prefix"@,
    {
        let dir = text::path_join(self.root.as_str(), id);
        text::concat2(dir.as_str(), "/prefix")
    }
}

/// Creating a record and then asking for it yields exactly what was
/// created: after the store takes the new record under its identifier,
/// the identifier is present and maps to that record, whatever the store
/// held before.
pub proof fn lemma_create_then_record(
    m: Map<Seq<char>, BottleRecordView>,
    id: Seq<char>,
    rec: BottleRecordView,
)
    ensures
        m.insert(id, rec).contains_key(id),
        m.insert(id, rec)[id] == rec,
{
}

/// Removing a record and then asking for it always fails: after the store
/// drops an identifier, the identifier is absent, whatever the store held
/// before; and a removal can only succeed on an identifier that was
/// present — `remove` on a missing one reports `NotFound`, never silent
/// success.
pub proof fn lemma_remove_then_record(m: Map<Seq<char>, BottleRecordView>, id: Seq<char>)
    ensures
        !m.remove(id).contains_key(id),
{
}

/// Relies on `uuid::Uuid::new_v4` and its `Display` form: a freshly drawn
/// random identifier; nothing is promised of its value.
#[verifier::external_body]
fn fresh_bottle_id() -> (r: String) {
    uuid::Uuid::new_v4().to_string()
}

/// Relies on `std::time::SystemTime::now` and `duration_since`: the
/// current time in whole seconds since the epoch, zero if the clock
/// reads before it; nothing is promised of the value.
#[verifier::external_body]
pub(crate) fn unix_timestamp() -> (r: u64) {
    std::time::SystemTime::now().duration_since(std::time::UNIX_EPOCH).map(
        |d| d.as_secs(),
    ).unwrap_or_default()
}

impl BottleStore {
    /// A new record under a fresh identifier: the display name reduced to
    /// its slug, the clock's stamp, the chosen runtime and an empty
    /// environment, filed in the store; a name with no usable characters
    /// is malformed input and leaves the store untouched. The shell
    /// creates the record directory and its prefix before the record is
    /// handed out.
    pub fn create(&mut self, name: &str, runtime: WineRuntime) -> (r: Result<
        BottleRecord,
        AlloyError,
    >)
        requires
            old(self).wf(),
        ensures
            final(self).wf(),
            final(self).spec_root() == old(self).spec_root(),
            match r {
                Ok(record) => {
                    &&& crate::name::slug_of(name@).len() > 0
                    &&& record@.name == crate::name::slug_of(name@)
                    &&& record@.wine_runtime == runtime@
                    &&& record@.environment.len() == 0
                    &&& final(self)@ == old(self)@.insert(record@.id, record@)
                },
                Err(e) => {
                    &&& crate::name::slug_of(name@).len() == 0
                    &&& e is InvalidInput
                    &&& final(self)@ == old(self)@
                },
            },
    {
        let slug = match crate::name::BottleName::sanitize(name) {
            Some(s) => s,
            None => {
                return Err(
                    AlloyError::InvalidInput(
                        "please pick a bottle name that uses letters, numbers, dashes, or underscores".to_owned(),
                    ),
                );
            },
        };
        let id = fresh_bottle_id();
        let record = BottleRecord {
            id: id.clone(),
            name: slug,
            created_at: unix_timestamp(),
            wine_runtime: runtime,
            environment: Vec::new(),
        };
        let copy = record.duplicate();
        proof {
            assert(env_view(Seq::<(String, String)>::empty()) =~= Seq::<
                (Seq<char>, Seq<char>),
            >::empty());
        }
        self.put(id, record);
        Ok(copy)
    }
}

} // verus!
