use vstd::prelude::*;

verus! {

/// Seconds a stored file stays available after its upload.
pub const RETENTION_SECS: u64 = 3600;

/// Seconds between two sweeps of the index.
pub const SWEEP_PERIOD_SECS: u64 = 60;

/// Name of the multipart field that carries the uploaded file.
pub const FILE_FIELD: &'static str = "file";

/// Name given to an upload whose part carries no file name.
pub const DEFAULT_FILENAME: &'static str = "unnamed";

/// Reply text of an upload that carried no file.
pub const NO_FILE_MESSAGE: &'static str = "No file uploaded";

/// The metadata of one stored file; its bytes are kept under `id` elsewhere.
#[derive(Debug)]
pub struct FileRecord {
    pub id: String,
    pub filename: String,
    pub size: u64,
    /// Unix seconds.
    pub uploaded_at: u64,
}

pub struct RecordView {
    pub id: Seq<char>,
    pub filename: Seq<char>,
    pub size: u64,
    pub uploaded_at: u64,
}

impl View for FileRecord {
    type V = RecordView;

    open spec fn view(&self) -> RecordView {
        RecordView { id: self.id@, filename: self.filename@, size: self.size, uploaded_at: self.uploaded_at }
    }
}

impl FileRecord {
    /// A field-for-field copy.
    pub fn duplicate(&self) -> (r: FileRecord)
        ensures
            r@ == self@,
    {
        FileRecord {
            id: self.id.clone(),
            filename: self.filename.clone(),
            size: self.size,
            uploaded_at: self.uploaded_at,
        }
    }
}

/// A record uploaded at `uploaded_at` is expired at `now` once more than the
/// retention period has passed. A record stamped after `now` is not expired.
pub open spec fn is_expired(uploaded_at: u64, now: u64) -> bool {
    now - uploaded_at > RETENTION_SECS
}

/// Whether a record uploaded at `uploaded_at` is expired at `now`.
pub fn expired(uploaded_at: u64, now: u64) -> (r: bool)
    ensures
        r == is_expired(uploaded_at, now),
{
    now > uploaded_at && now - uploaded_at > RETENTION_SECS
}

pub open spec fn views(s: Seq<FileRecord>) -> Seq<RecordView> {
    s.map_values(|r: FileRecord| r@)
}

pub open spec fn has_id(s: Seq<RecordView>, k: Seq<char>) -> bool {
    exists|i: int| 0 <= i < s.len() && s[i].id == k
}

/// No two records of `s` share an id.
pub open spec fn unique_ids(s: Seq<RecordView>) -> bool {
    forall|i: int, j: int| 0 <= i < s.len() && 0 <= j < s.len() && s[i].id == s[j].id ==> i == j
}

/// The records of `s` keyed by id.
pub open spec fn map_of(s: Seq<RecordView>) -> Map<Seq<char>, RecordView> {
    Map::new(|k: Seq<char>| has_id(s, k), |k: Seq<char>| s[choose|i: int| 0 <= i < s.len() && s[i].id == k])
}

/// The records of `m` that are not expired at `now`.
pub open spec fn unexpired(m: Map<Seq<char>, RecordView>, now: u64) -> Map<Seq<char>, RecordView> {
    Map::new(|k: Seq<char>| m.contains_key(k) && !is_expired(m[k].uploaded_at, now), |k: Seq<char>| m[k])
}

proof fn lemma_map_at(s: Seq<RecordView>, i: int)
    requires
        unique_ids(s),
        0 <= i < s.len(),
    ensures
        map_of(s).contains_key(s[i].id),
        map_of(s)[s[i].id] == s[i],
{
    assert(has_id(s, s[i].id));
}

proof fn lemma_push(s: Seq<RecordView>, r: RecordView)
    requires
        unique_ids(s),
        !has_id(s, r.id),
    ensures
        unique_ids(s.push(r)),
        map_of(s.push(r)) == map_of(s).insert(r.id, r),
{
    let t = s.push(r);
    assert forall|i: int, j: int| 0 <= i < t.len() && 0 <= j < t.len() && t[i].id == t[j].id implies i == j by {
        if i < s.len() && j == s.len() {
            assert(s[i].id == r.id);
        }
        if j < s.len() && i == s.len() {
            assert(s[j].id == r.id);
        }
    }
    assert forall|k: Seq<char>| #[trigger] has_id(t, k) == map_of(s).insert(r.id, r).contains_key(k) by {
        if has_id(s, k) {
            let i = choose|i: int| 0 <= i < s.len() && s[i].id == k;
            assert(t[i] == s[i]);
        }
        if k == r.id {
            assert(t[s.len() as int] == r);
        }
        if has_id(t, k) {
            let i = choose|i: int| 0 <= i < t.len() && t[i].id == k;
            if i < s.len() {
                assert(t[i] == s[i]);
            }
        }
    }
    assert forall|k: Seq<char>| #[trigger] map_of(t).contains_key(k) implies map_of(t)[k] == map_of(s).insert(
        r.id,
        r,
    )[k] by {
        let i = choose|i: int| 0 <= i < t.len() && t[i].id == k;
        lemma_map_at(t, i);
        if i < s.len() {
            assert(t[i] == s[i]);
            lemma_map_at(s, i);
        }
    }
    assert(map_of(t) =~= map_of(s).insert(r.id, r));
}

proof fn lemma_update(s: Seq<RecordView>, i: int, r: RecordView)
    requires
        unique_ids(s),
        0 <= i < s.len(),
        s[i].id == r.id,
    ensures
        unique_ids(s.update(i, r)),
        map_of(s.update(i, r)) == map_of(s).insert(r.id, r),
{
    let t = s.update(i, r);
    assert forall|a: int, b: int| 0 <= a < t.len() && 0 <= b < t.len() && t[a].id == t[b].id implies a == b by {
        assert(t[a].id == s[a].id);
        assert(t[b].id == s[b].id);
    }
    assert forall|k: Seq<char>| #[trigger] has_id(t, k) == map_of(s).insert(r.id, r).contains_key(k) by {
        if has_id(s, k) {
            let j = choose|j: int| 0 <= j < s.len() && s[j].id == k;
            assert(t[j].id == s[j].id);
        }
        if k == r.id {
            assert(t[i] == r);
        }
        if has_id(t, k) {
            let j = choose|j: int| 0 <= j < t.len() && t[j].id == k;
            assert(t[j].id == s[j].id);
        }
    }
    assert forall|k: Seq<char>| #[trigger] map_of(t).contains_key(k) implies map_of(t)[k] == map_of(s).insert(
        r.id,
        r,
    )[k] by {
        let j = choose|j: int| 0 <= j < t.len() && t[j].id == k;
        lemma_map_at(t, j);
        if j != i {
            lemma_map_at(s, j);
        }
    }
    assert(map_of(t) =~= map_of(s).insert(r.id, r));
}

/// Record `m` of `part` is record `idx[m]` of `s`, one of its first `i`, and its
/// expiry at `now` is `gone`.
spec fn drawn_from(part: Seq<RecordView>, s: Seq<RecordView>, idx: Seq<int>, i: int, gone: bool, now: u64) -> bool {
    &&& idx.len() == part.len()
    &&& forall|m: int|
        #![trigger idx[m]]
        0 <= m < part.len() ==> 0 <= idx[m] < i && part[m] == s[idx[m]] && is_expired(s[idx[m]].uploaded_at, now)
            == gone
}

/// Each of the first `i` records of `s` whose expiry at `now` is `gone` stands
/// in `part` at `pos[j]`.
spec fn covers(part: Seq<RecordView>, s: Seq<RecordView>, pos: Seq<int>, i: int, gone: bool, now: u64) -> bool {
    &&& pos.len() == i
    &&& forall|j: int|
        #![trigger pos[j]]
        0 <= j < i && is_expired(s[j].uploaded_at, now) == gone ==> 0 <= pos[j] < part.len() && part[pos[j]] == s[j]
}

proof fn lemma_split_step(
    part: Seq<RecordView>,
    s: Seq<RecordView>,
    idx: Seq<int>,
    pos: Seq<int>,
    i: int,
    gone: bool,
    now: u64,
)
    requires
        0 <= i < s.len(),
        drawn_from(part, s, idx, i, gone, now),
        covers(part, s, pos, i, gone, now),
    ensures
        is_expired(s[i].uploaded_at, now) == gone ==> drawn_from(part.push(s[i]), s, idx.push(i), i + 1, gone, now)
            && covers(part.push(s[i]), s, pos.push(part.len() as int), i + 1, gone, now),
        is_expired(s[i].uploaded_at, now) != gone ==> drawn_from(part, s, idx, i + 1, gone, now) && covers(
            part,
            s,
            pos.push(0),
            i + 1,
            gone,
            now,
        ),
{
    if is_expired(s[i].uploaded_at, now) == gone {
        let p = part.push(s[i]);
        let idx2 = idx.push(i);
        let pos2 = pos.push(part.len() as int);
        assert forall|m: int| #![trigger idx2[m]] 0 <= m < p.len() implies 0 <= idx2[m] < i + 1 && p[m] == s[idx2[m]]
            && is_expired(s[idx2[m]].uploaded_at, now) == gone by {
            if m < part.len() {
                assert(idx2[m] == idx[m]);
            }
        }
        assert forall|j: int| #![trigger pos2[j]] 0 <= j < i + 1 && is_expired(s[j].uploaded_at, now) == gone implies 0
            <= pos2[j] < p.len() && p[pos2[j]] == s[j] by {
            if j < i {
                assert(pos2[j] == pos[j]);
            }
        }
    } else {
        let pos2 = pos.push(0);
        assert forall|j: int| #![trigger pos2[j]] 0 <= j < i + 1 && is_expired(s[j].uploaded_at, now) == gone implies 0
            <= pos2[j] < part.len() && part[pos2[j]] == s[j] by {
            assert(pos2[j] == pos[j]);
        }
    }
}

/// Records drawn from a list of unique ids keep their ids unique when one more
/// record of that list, not yet drawn, is added.
proof fn lemma_kept_unique(part: Seq<RecordView>, s: Seq<RecordView>, idx: Seq<int>, i: int, now: u64)
    requires
        0 <= i < s.len(),
        unique_ids(s),
        unique_ids(part),
        drawn_from(part, s, idx, i, false, now),
    ensures
        unique_ids(part.push(s[i])),
{
    let p = part.push(s[i]);
    assert forall|a: int, b: int| 0 <= a < p.len() && 0 <= b < p.len() && p[a].id == p[b].id implies a == b by {
        if a < part.len() && b == part.len() {
            assert(p[a] == part[a]);
            assert(part[a] == s[idx[a]]);
        }
        if b < part.len() && a == part.len() {
            assert(p[b] == part[b]);
            assert(part[b] == s[idx[b]]);
        }
        if a < part.len() && b < part.len() {
            assert(p[a] == part[a] && p[b] == part[b]);
        }
    }
}

/// Once every record has been split, the kept ones are exactly the unexpired
/// part of the index, and the removed ones exactly its expired part.
proof fn lemma_split_done(
    kept: Seq<RecordView>,
    gone: Seq<RecordView>,
    s: Seq<RecordView>,
    kidx: Seq<int>,
    kpos: Seq<int>,
    gidx: Seq<int>,
    gpos: Seq<int>,
    now: u64,
)
    requires
        unique_ids(s),
        unique_ids(kept),
        drawn_from(kept, s, kidx, s.len() as int, false, now),
        covers(kept, s, kpos, s.len() as int, false, now),
        drawn_from(gone, s, gidx, s.len() as int, true, now),
        covers(gone, s, gpos, s.len() as int, true, now),
    ensures
        map_of(kept) == unexpired(map_of(s), now),
        forall|m: int| 0 <= m < gone.len() ==> map_of(s).contains_key(#[trigger] gone[m].id) && is_expired(
            map_of(s)[gone[m].id].uploaded_at,
            now,
        ),
        forall|k: Seq<char>| #[trigger] map_of(s).contains_key(k) && is_expired(map_of(s)[k].uploaded_at, now)
            ==> exists|m: int| 0 <= m < gone.len() && gone[m].id == k,
{
    let target = unexpired(map_of(s), now);
    assert forall|key: Seq<char>| #[trigger] has_id(kept, key) == target.contains_key(key) by {
        if has_id(kept, key) {
            let m = choose|m: int| 0 <= m < kept.len() && kept[m].id == key;
            assert(kept[m] == s[kidx[m]]);
            lemma_map_at(s, kidx[m]);
        }
        if target.contains_key(key) {
            let j = choose|j: int| 0 <= j < s.len() && s[j].id == key;
            lemma_map_at(s, j);
            assert(kept[kpos[j]] == s[j]);
        }
    }
    assert forall|key: Seq<char>| #[trigger] map_of(kept).contains_key(key) implies map_of(kept)[key]
        == target[key] by {
        let m = choose|m: int| 0 <= m < kept.len() && kept[m].id == key;
        lemma_map_at(kept, m);
        assert(kept[m] == s[kidx[m]]);
        lemma_map_at(s, kidx[m]);
    }
    assert(map_of(kept) =~= target);
    assert forall|m: int| 0 <= m < gone.len() implies map_of(s).contains_key(#[trigger] gone[m].id) && is_expired(
        map_of(s)[gone[m].id].uploaded_at,
        now,
    ) by {
        assert(gone[m] == s[gidx[m]]);
        lemma_map_at(s, gidx[m]);
    }
    assert forall|k: Seq<char>| #[trigger] map_of(s).contains_key(k) && is_expired(map_of(s)[k].uploaded_at, now)
        implies exists|m: int| 0 <= m < gone.len() && gone[m].id == k by {
        let j = choose|j: int| 0 <= j < s.len() && s[j].id == k;
        lemma_map_at(s, j);
        assert(gone[gpos[j]] == s[j]);
    }
}

/// The index of stored files, keyed by id.
pub struct FileIndex {
    records: Vec<FileRecord>,
}

impl View for FileIndex {
    type V = Map<Seq<char>, RecordView>;

    closed spec fn view(&self) -> Map<Seq<char>, RecordView> {
        map_of(views(self.records@))
    }
}

impl FileIndex {
    /// Each id names one record.
    pub closed spec fn wf(&self) -> bool {
        unique_ids(views(self.records@))
    }

    pub fn new() -> (r: FileIndex)
        ensures
            r.wf(),
            r@ == Map::<Seq<char>, RecordView>::empty(),
    {
        let r = FileIndex { records: Vec::new() };
        assert(views(r.records@) =~= Seq::<RecordView>::empty());
        assert(r@ =~= Map::<Seq<char>, RecordView>::empty());
        r
    }

    fn position(&self, id: &String) -> (r: Option<usize>)
        requires
            self.wf(),
        ensures
            match r {
                Some(i) => i < self.records@.len() && self.records@[i as int].id@ == id@,
                None => !has_id(views(self.records@), id@),
            },
    {
        let mut i: usize = 0;
        while i < self.records.len()
            invariant
                i <= self.records@.len(),
                forall|j: int| 0 <= j < i ==> self.records@[j].id@ != id@,
            decreases self.records@.len() - i,
        {
            if self.records[i].id.eq(id) {
                return Some(i);
            }
            i = i + 1;
        }
        assert forall|j: int| 0 <= j < views(self.records@).len() implies views(self.records@)[j].id != id@ by {
            assert(views(self.records@)[j] == self.records@[j]@);
        }
        None
    }

    /// The record stored under `id`, if any.
    pub fn get(&self, id: &String) -> (r: Option<FileRecord>)
        requires
            self.wf(),
        ensures
            match r {
                Some(rec) => self@.contains_key(id@) && self@[id@] == rec@,
                None => !self@.contains_key(id@),
            },
    {
        match self.position(id) {
            Some(i) => {
                proof {
                    assert(views(self.records@)[i as int] == self.records@[i as int]@);
                    lemma_map_at(views(self.records@), i as int);
                }
                Some(self.records[i].duplicate())
            },
            None => None,
        }
    }

    /// Stores `rec`, replacing any record with the same id.
    pub fn insert(&mut self, rec: FileRecord)
        requires
            old(self).wf(),
        ensures
            final(self).wf(),
            final(self)@ == old(self)@.insert(rec.id@, rec@),
    {
        let ghost before = views(self.records@);
        match self.position(&rec.id) {
            Some(i) => {
                proof {
                    assert(before[i as int] == self.records@[i as int]@);
                    lemma_update(before, i as int, rec@);
                }
                self.records.set(i, rec);
                assert(views(self.records@) =~= before.update(i as int, rec@));
            },
            None => {
                proof {
                    lemma_push(before, rec@);
                }
                self.records.push(rec);
                assert(views(self.records@) =~= before.push(rec@));
            },
        }
    }

    /// A snapshot of every stored record, each id once, in no promised order.
    pub fn list(&self) -> (r: Vec<FileRecord>)
        requires
            self.wf(),
        ensures
            unique_ids(views(r@)),
            map_of(views(r@)) == self@,
    {
        let mut r: Vec<FileRecord> = Vec::new();
        let mut i: usize = 0;
        while i < self.records.len()
            invariant
                i <= self.records@.len(),
                r@.len() == i,
                forall|j: int| 0 <= j < i ==> #[trigger] r@[j]@ == self.records@[j]@,
            decreases self.records@.len() - i,
        {
            r.push(self.records[i].duplicate());
            i = i + 1;
        }
        assert(views(r@) =~= views(self.records@));
        r
    }

    /// Removes every record expired at `now` and returns the ids it removed, so
    /// that their stored bytes can be deleted.
    pub fn sweep(&mut self, now: u64) -> (removed: Vec<String>)
        requires
            old(self).wf(),
        ensures
            final(self).wf(),
            final(self)@ == unexpired(old(self)@, now),
            forall|m: int| 0 <= m < removed@.len() ==> old(self)@.contains_key(#[trigger] removed@[m]@) && is_expired(
                old(self)@[removed@[m]@].uploaded_at,
                now,
            ),
            forall|k: Seq<char>| #[trigger] old(self)@.contains_key(k) && is_expired(old(self)@[k].uploaded_at, now)
                ==> exists|m: int| 0 <= m < removed@.len() && removed@[m]@ == k,
    {
        let ghost s = views(self.records@);
        let ghost gone: Seq<RecordView> = Seq::empty();
        let ghost kidx: Seq<int> = Seq::empty();
        let ghost kpos: Seq<int> = Seq::empty();
        let ghost gidx: Seq<int> = Seq::empty();
        let ghost gpos: Seq<int> = Seq::empty();
        let mut kept: Vec<FileRecord> = Vec::new();
        let mut removed: Vec<String> = Vec::new();
        let mut i: usize = 0;
        assert(views(kept@) =~= Seq::<RecordView>::empty());
        while i < self.records.len()
            invariant
                s == views(self.records@),
                unique_ids(s),
                i <= s.len(),
                unique_ids(views(kept@)),
                drawn_from(views(kept@), s, kidx, i as int, false, now),
                covers(views(kept@), s, kpos, i as int, false, now),
                drawn_from(gone, s, gidx, i as int, true, now),
                covers(gone, s, gpos, i as int, true, now),
                removed@.len() == gone.len(),
                forall|m: int| 0 <= m < gone.len() ==> #[trigger] removed@[m]@ == gone[m].id,
            decreases s.len() - i,
        {
            let rec = &self.records[i];
            assert(s[i as int] == rec@);
            proof {
                lemma_split_step(views(kept@), s, kidx, kpos, i as int, false, now);
                lemma_split_step(gone, s, gidx, gpos, i as int, true, now);
            }
            if expired(rec.uploaded_at, now) {
                removed.push(rec.id.clone());
                proof {
                    kpos = kpos.push(0);
                    gidx = gidx.push(i as int);
                    gpos = gpos.push(gone.len() as int);
                    gone = gone.push(s[i as int]);
                }
            } else {
                proof {
                    lemma_kept_unique(views(kept@), s, kidx, i as int, now);
                    kidx = kidx.push(i as int);
                    kpos = kpos.push(kept@.len() as int);
                    gpos = gpos.push(0);
                }
                let ghost k0 = views(kept@);
                kept.push(rec.duplicate());
                assert(views(kept@) =~= k0.push(s[i as int]));
            }
            i = i + 1;
        }
        proof {
            lemma_split_done(views(kept@), gone, s, kidx, kpos, gidx, gpos, now);
            assert forall|m: int| 0 <= m < removed@.len() implies map_of(s).contains_key(#[trigger] removed@[m]@) by {
                assert(removed@[m]@ == gone[m].id);
            }
            assert forall|k: Seq<char>| #[trigger] map_of(s).contains_key(k) && is_expired(map_of(s)[k].uploaded_at, now)
                implies exists|m: int| 0 <= m < removed@.len() && removed@[m]@ == k by {
                let m = choose|m: int| 0 <= m < gone.len() && gone[m].id == k;
                assert(removed@[m]@ == gone[m].id);
            }
        }
        self.records = kept;
        removed
    }
}

/// Relies on `uuid::Uuid::new_v4` and uuid's `Display`: a random version-4 id,
/// written in the hyphenated form of 36 characters.
#[verifier::external_body]
fn fresh_id() -> (r: String)
    ensures
        r@.len() == 36,
{
    uuid::Uuid::new_v4().to_string()
}

/// The record of a file of `size` bytes received at `now`, under a fresh random
/// id. A part without a file name is named "unnamed".
pub fn new_record(filename: Option<String>, size: u64, now: u64) -> (r: FileRecord)
    ensures
        r.id@.len() == 36,
        r.filename@ == match filename {
            Some(f) => f@,
            None => DEFAULT_FILENAME@,
        },
        r.size == size,
        r.uploaded_at == now,
{
    let name = match filename {
        Some(f) => f,
        None => String::from_str(DEFAULT_FILENAME),
    };
    FileRecord { id: fresh_id(), filename: name, size, uploaded_at: now }
}

/// The position of the first multipart field named "file", if there is one.
pub fn file_field_index(names: &Vec<String>) -> (r: Option<usize>)
    ensures
        match r {
            Some(i) => i < names@.len() && names@[i as int]@ == FILE_FIELD@ && forall|j: int|
                0 <= j < i ==> (#[trigger] names@[j])@ != FILE_FIELD@,
            None => forall|j: int| 0 <= j < names@.len() ==> (#[trigger] names@[j])@ != FILE_FIELD@,
        },
{
    let mut i: usize = 0;
    while i < names.len()
        invariant
            i <= names@.len(),
            forall|j: int| 0 <= j < i ==> (#[trigger] names@[j])@ != FILE_FIELD@,
        decreases names@.len() - i,
    {
        if crate::translate::is_word(&names[i], FILE_FIELD) {
            return Some(i);
        }
        i = i + 1;
    }
    None
}

/// What an upload request is answered with.
#[derive(Debug)]
pub enum UploadReply {
    /// The file was stored under `id`.
    Stored { id: String, filename: String },
    /// The request carried no field named "file".
    NoFile,
}

impl FileIndex {
    /// Files the record of an upload. `received` is `None` when the request
    /// carried no file: the index is then left as it was.
    pub fn record_upload(&mut self, received: Option<FileRecord>) -> (r: UploadReply)
        requires
            old(self).wf(),
        ensures
            final(self).wf(),
            match received {
                Some(rec) => final(self)@ == old(self)@.insert(rec.id@, rec@) && match r {
                    UploadReply::Stored { id, filename } => id@ == rec.id@ && filename@ == rec.filename@,
                    UploadReply::NoFile => false,
                },
                None => final(self)@ == old(self)@ && r is NoFile,
            },
    {
        match received {
            Some(rec) => {
                let id = rec.id.clone();
                let filename = rec.filename.clone();
                self.insert(rec);
                UploadReply::Stored { id, filename }
            },
            None => UploadReply::NoFile,
        }
    }
}

/// A record just stored is found under its id with the metadata it was stored
/// with. Once it has expired, a sweep takes it out of the index, and no listing
/// of the swept index shows it; before that, the sweep keeps it as it was.
pub proof fn lemma_store_then_sweep(
    m: Map<Seq<char>, RecordView>,
    rec: RecordView,
    now: u64,
    listed: Seq<RecordView>,
)
    requires
        map_of(listed) == unexpired(m.insert(rec.id, rec), now),
    ensures
        m.insert(rec.id, rec).contains_key(rec.id),
        m.insert(rec.id, rec)[rec.id] == rec,
        is_expired(rec.uploaded_at, now) ==> !unexpired(m.insert(rec.id, rec), now).contains_key(rec.id),
        is_expired(rec.uploaded_at, now) ==> !has_id(listed, rec.id),
        !is_expired(rec.uploaded_at, now) ==> unexpired(m.insert(rec.id, rec), now).contains_key(rec.id)
            && unexpired(m.insert(rec.id, rec), now)[rec.id] == rec,
        rec.uploaded_at + RETENTION_SECS < now ==> is_expired(rec.uploaded_at, now),
{
    assert(map_of(listed).contains_key(rec.id) == has_id(listed, rec.id));
}

} // verus!
