//! The diff engine: three policies over the crawler's batches. `WriteToDB`
//! populates a fresh store, `UpdateDB` merges batches and reports what became
//! new or changed, `CheckDB` compares batches read-only against the store and
//! reports divergences; paths the walk never produced are reported removed.
use vstd::prelude::*;
use crate::codec::decode_record_spec;
use crate::error::IntegrityWatcherError;
use crate::store::{FilesDb, files_view, record_batch_view, batch_view, path_set};
use crate::types::{FileMetadataExt, RecordV};

verus! {

/// A set of paths, deduplicated; the paths seen during one walk.
pub struct PathSet {
    pub items: Vec<String>,
}

impl View for PathSet {
    type V = Set<Seq<char>>;

    open spec fn view(&self) -> Set<Seq<char>> {
        path_set(self.items@)
    }
}

impl PathSet {
    /// No two held paths read the same.
    pub open spec fn wf(&self) -> bool {
        forall|i: int, j: int|
            0 <= i < j < self.items@.len() ==> self.items@[i]@ != self.items@[j]@
    }

    pub fn new() -> (r: PathSet)
        ensures
            r@ =~= Set::<Seq<char>>::empty(),
            r.wf(),
    {
        PathSet { items: Vec::new() }
    }

    pub fn contains(&self, path: &String) -> (r: bool)
        ensures
            r == self@.contains(path@),
    {
        let mut i: usize = 0;
        while i < self.items.len()
            invariant
                i <= self.items@.len(),
                forall|j: int| 0 <= j < i ==> self.items@[j]@ != path@,
            decreases self.items@.len() - i,
        {
            if self.items[i] == *path {
                return true;
            }
            i += 1;
        }
        false
    }

    pub fn insert(&mut self, path: &String)
        requires
            old(self).wf(),
        ensures
            final(self).wf(),
            final(self)@ =~= old(self)@.insert(path@),
    {
        if !self.contains(path) {
            self.items.push(path.clone());
        }
        proof {
            assert forall|k: Seq<char>| final(self)@.contains(k) implies old(self)@.insert(
                path@,
            ).contains(k) by {
                let i = choose|i: int|
                    0 <= i < self.items@.len() && self.items@[i]@ == k;
                if i < old(self).items@.len() {
                    assert(old(self)@.contains(k));
                }
            }
            assert forall|k: Seq<char>|
                old(self)@.insert(path@).contains(k) implies final(self)@.contains(k) by {
                if old(self)@.contains(k) {
                    let i = choose|i: int|
                        0 <= i < old(self).items@.len() && old(self).items@[i]@ == k;
                    assert(self.items@[i]@ == k);
                } else {
                    assert(self.items@[self.items@.len() - 1]@ == k);
                }
            }
        }
    }

    /// The given paths as a set; the exclusion list arrives this way.
    pub fn from_paths(paths: &Vec<String>) -> (r: PathSet)
        ensures
            r@ =~= path_set(paths@),
            r.wf(),
    {
        let mut r = PathSet::new();
        let mut i: usize = 0;
        while i < paths.len()
            invariant
                i <= paths@.len(),
                r.wf(),
                r@ =~= path_set(paths@.take(i as int)),
            decreases paths@.len() - i,
        {
            r.insert(&paths[i]);
            proof {
                assert(paths@.take(i + 1) =~= paths@.take(i as int).push(paths@[i as int]));
                lemma_path_set_push(paths@.take(i as int), paths@[i as int]);
            }
            i += 1;
        }
        proof {
            assert(paths@.take(paths@.len() as int) =~= paths@);
        }
        r
    }

    /// How many distinct paths were seen.
    pub fn len(&self) -> (r: usize)
        requires
            self.wf(),
        ensures
            r == self@.len(),
    {
        proof {
            lemma_path_set_card(self.items@);
        }
        self.items.len()
    }
}

/// Which fields differ between two records of the same variant.
#[derive(Debug, Clone, Copy, PartialEq, Eq, Structural)]
pub struct FieldChanges {
    pub hash: bool,
    pub target: bool,
    pub permissions: bool,
    pub modified: bool,
    pub size: bool,
}

/// Whether two records carry the same variant tag.
pub open spec fn same_variant(a: RecordV, b: RecordV) -> bool {
    match (a, b) {
        (RecordV::Symlink(_), RecordV::Symlink(_)) => true,
        (RecordV::File(_), RecordV::File(_)) => true,
        (RecordV::Dir(_), RecordV::Dir(_)) => true,
        _ => false,
    }
}

/// The per-field comparison of two same-variant records.
pub open spec fn field_changes_spec(a: RecordV, b: RecordV) -> FieldChanges
    recommends
        same_variant(a, b),
{
    match (a, b) {
        (RecordV::Symlink(x), RecordV::Symlink(y)) => FieldChanges {
            hash: false,
            target: x.data != y.data,
            permissions: x.permissions != y.permissions,
            modified: x.modified != y.modified,
            size: x.size != y.size,
        },
        (RecordV::File(x), RecordV::File(y)) => FieldChanges {
            hash: x.hash != y.hash,
            target: false,
            permissions: x.permissions != y.permissions,
            modified: x.modified != y.modified,
            size: x.size != y.size,
        },
        (RecordV::Dir(x), RecordV::Dir(y)) => FieldChanges {
            hash: false,
            target: false,
            permissions: x.permissions != y.permissions,
            modified: x.modified != y.modified,
            size: x.size != y.size,
        },
        _ => FieldChanges {
            hash: false,
            target: false,
            permissions: false,
            modified: false,
            size: false,
        },
    }
}

/// A delta beyond the modification time alone.
pub open spec fn non_time_change(f: FieldChanges) -> bool {
    f.hash || f.target || f.permissions || f.size
}

/// Whether a same-variant difference is reported: always when a field other
/// than the modification time differs, and otherwise only when the caller
/// asked for modification times to be compared.
pub open spec fn same_variant_reported(f: FieldChanges, compare_time: bool) -> bool {
    non_time_change(f) || compare_time
}

/// The per-field comparison, executed.
pub fn field_changes_of(a: &FileMetadataExt, b: &FileMetadataExt) -> (r: FieldChanges)
    requires
        same_variant(a@, b@),
    ensures
        r == field_changes_spec(a@, b@),
{
    match (a, b) {
        (FileMetadataExt::Symlink(x), FileMetadataExt::Symlink(y)) => FieldChanges {
            hash: false,
            target: x.data != y.data,
            permissions: x.permissions != y.permissions,
            modified: x.modified != y.modified,
            size: x.size != y.size,
        },
        (FileMetadataExt::File(x), FileMetadataExt::File(y)) => FieldChanges {
            hash: x.hash != y.hash,
            target: false,
            permissions: x.permissions != y.permissions,
            modified: x.modified != y.modified,
            size: x.size != y.size,
        },
        (FileMetadataExt::Dir(x), FileMetadataExt::Dir(y)) => FieldChanges {
            hash: false,
            target: false,
            permissions: x.permissions != y.permissions,
            modified: x.modified != y.modified,
            size: x.size != y.size,
        },
        _ => FieldChanges {
            hash: false,
            target: false,
            permissions: false,
            modified: false,
            size: false,
        },
    }
}

/// One observation `check` makes, at the specification level.
pub ghost enum CheckEventV {
    /// The walked path has no stored record: the store is stale here.
    New { path: Seq<char> },
    /// The stored and walked records carry different variants; reported
    /// whatever the time flag says.
    VariantChanged { path: Seq<char>, before: RecordV, after: RecordV },
    /// Same variant, some fields differ, and the difference is reported.
    Changed { path: Seq<char>, before: RecordV, after: RecordV, fields: FieldChanges },
}

/// One observation `check` makes.
#[derive(Debug)]
pub enum CheckEvent {
    New { path: String },
    VariantChanged { path: String, before: FileMetadataExt, after: FileMetadataExt },
    Changed { path: String, before: FileMetadataExt, after: FileMetadataExt, fields: FieldChanges },
}

impl View for CheckEvent {
    type V = CheckEventV;

    open spec fn view(&self) -> CheckEventV {
        match self {
            CheckEvent::New { path } => CheckEventV::New { path: path@ },
            CheckEvent::VariantChanged { path, before, after } => CheckEventV::VariantChanged {
                path: path@,
                before: before@,
                after: after@,
            },
            CheckEvent::Changed { path, before, after, fields } => CheckEventV::Changed {
                path: path@,
                before: before@,
                after: after@,
                fields: *fields,
            },
        }
    }
}

/// The views of a list of check observations.
pub open spec fn check_events_view(s: Seq<CheckEvent>) -> Seq<CheckEventV> {
    s.map_values(|e: CheckEvent| e@)
}

/// What `check` observes for one walked pair against the store: nothing when
/// the stored record equals the walked one, a structural report on a variant
/// change, a field report when the difference is reported under the time
/// flag, and nothing when only the time changed and times are not compared.
pub open spec fn check_pair_events(
    m: Map<Seq<char>, Seq<u8>>,
    path: Seq<char>,
    rec: RecordV,
    compare_time: bool,
) -> Seq<CheckEventV> {
    if !m.contains_key(path) {
        seq![CheckEventV::New { path }]
    } else {
        match decode_record_spec(m[path]) {
            None => seq![],
            Some(old) => if old == rec {
                seq![]
            } else if !same_variant(old, rec) {
                seq![CheckEventV::VariantChanged { path, before: old, after: rec }]
            } else if same_variant_reported(field_changes_spec(old, rec), compare_time) {
                seq![
                    CheckEventV::Changed {
                        path,
                        before: old,
                        after: rec,
                        fields: field_changes_spec(old, rec),
                    },
                ]
            } else {
                seq![]
            },
        }
    }
}

/// What `check` observes for one whole batch, in batch order.
pub open spec fn check_events_spec(
    m: Map<Seq<char>, Seq<u8>>,
    batch: Seq<(String, FileMetadataExt)>,
    compare_time: bool,
) -> Seq<CheckEventV>
    decreases batch.len(),
{
    if batch.len() == 0 {
        Seq::empty()
    } else {
        check_events_spec(m, batch.drop_last(), compare_time) + check_pair_events(
            m,
            batch.last().0@,
            batch.last().1@,
            compare_time,
        )
    }
}

/// The read-only comparison policy: batches are compared against the store
/// and divergences collected as events.
pub struct CheckDB {
    /// Every path a batch carried, for removal detection after the walk.
    pub files: PathSet,
    /// The divergences observed so far, in walk order.
    pub events: Vec<CheckEvent>,
    /// Whether a difference in modification time alone is reported.
    pub compare_time: bool,
}

impl CheckDB {
    pub fn new(compare_time: bool) -> (r: CheckDB)
        ensures
            r.files@ =~= Set::<Seq<char>>::empty(),
            r.files.wf(),
            r.events@ =~= Seq::<CheckEvent>::empty(),
            r.compare_time == compare_time,
    {
        CheckDB { files: PathSet::new(), events: Vec::new(), compare_time }
    }

    /// Compares one batch against the store. On success the batch's paths are
    /// added to the seen set and exactly the specified events are appended;
    /// on any failure nothing is changed. An `Encoding` error names a path
    /// whose stored bytes are corrupt.
    pub fn add_file_info(&mut self, db: &FilesDb, files: &Vec<(String, FileMetadataExt)>) -> (r:
        Result<(), IntegrityWatcherError>)
        requires
            old(self).files.wf(),
        ensures
            final(self).files.wf(),
            final(self).compare_time == old(self).compare_time,
            r is Ok ==> check_events_view(final(self).events@) =~= check_events_view(
                old(self).events@,
            ) + check_events_spec(files_view(*db), files@, old(self).compare_time),
            r is Ok ==> final(self).files@ =~= old(self).files@ + path_set(
                files@.map_values(|p: (String, FileMetadataExt)| p.0),
            ),
            r is Err ==> *final(self) == *old(self),
    {
        let mut evs: Vec<CheckEvent> = Vec::new();
        let mut i: usize = 0;
        while i < files.len()
            invariant
                i <= files@.len(),
                *self == *old(self),
                old(self).files.wf(),
                check_events_view(evs@) =~= check_events_spec(
                    files_view(*db),
                    files@.take(i as int),
                    self.compare_time,
                ),
            decreases files@.len() - i,
        {
            let (path, rec) = &files[i];
            match db.get_record(path)? {
                None => {
                    evs.push(CheckEvent::New { path: path.clone() });
                },
                Some(old_rec) => {
                    if !(old_rec == *rec) {
                        if !same_variant_exec(&old_rec, rec) {
                            evs.push(
                                CheckEvent::VariantChanged {
                                    path: path.clone(),
                                    before: old_rec,
                                    after: rec.duplicate(),
                                },
                            );
                        } else {
                            let fields = field_changes_of(&old_rec, rec);
                            if non_time_change_exec(&fields) || self.compare_time {
                                evs.push(
                                    CheckEvent::Changed {
                                        path: path.clone(),
                                        before: old_rec,
                                        after: rec.duplicate(),
                                        fields,
                                    },
                                );
                            }
                        }
                    }
                },
            }
            proof {
                assert(files@.take(i + 1).drop_last() =~= files@.take(i as int));
                assert(files@.take(i + 1).last() == files@[i as int]);
            }
            i += 1;
        }
        proof {
            assert(files@.take(files@.len() as int) =~= files@);
        }
        let mut j: usize = 0;
        while j < files.len()
            invariant
                j <= files@.len(),
                self.files.wf(),
                self.events == old(self).events,
                self.compare_time == old(self).compare_time,
                self.files@ =~= old(self).files@ + path_set(
                    files@.take(j as int).map_values(|p: (String, FileMetadataExt)| p.0),
                ),
            decreases files@.len() - j,
        {
            let (path, _) = &files[j];
            self.files.insert(path);
            proof {
                let taken = files@.take(j + 1).map_values(|p: (String, FileMetadataExt)| p.0);
                let prev = files@.take(j as int).map_values(|p: (String, FileMetadataExt)| p.0);
                assert(taken =~= prev.push(files@[j as int].0));
                lemma_path_set_push(prev, files@[j as int].0);
            }
            j += 1;
        }
        proof {
            assert(files@.take(files@.len() as int) =~= files@);
        }
        self.events.append(&mut evs);
        proof {
            assert(check_events_view(self.events@) =~= check_events_view(old(self).events@)
                + check_events_spec(files_view(*db), files@, self.compare_time));
        }
        Ok(())
    }
}

/// The populate policy: every batch is written into the store unchanged.
pub struct WriteToDB {
    /// How many pairs were written.
    pub counter: u64,
}

impl WriteToDB {
    pub fn new() -> (r: WriteToDB)
        ensures
            r.counter == 0,
    {
        WriteToDB { counter: 0 }
    }

    pub fn get_counter(&self) -> (r: u64)
        ensures
            r == self.counter,
    {
        self.counter
    }

    /// Writes one batch atomically and counts what was written; on failure
    /// neither the store nor the counter changes.
    pub fn add_file_info(&mut self, db: &mut FilesDb, data: &Vec<(String, FileMetadataExt)>) -> (r:
        Result<(), IntegrityWatcherError>)
        requires
            old(self).counter + data@.len() <= u64::MAX,
        ensures
            r is Ok ==> files_view(*final(db)) == files_view(*old(db)).union_prefer_right(
                record_batch_view(data@),
            ) && final(self).counter == old(self).counter + data@.len(),
            r is Err ==> files_view(*final(db)) == files_view(*old(db)) && *final(self) == *old(
                self,
            ),
    {
        db.upsert_records(data)?;
        self.counter = self.counter + data.len() as u64;
        Ok(())
    }
}

/// One observation `update` makes, at the specification level.
pub ghost enum UpdateEventV {
    /// The path had no stored record before this batch.
    New { path: Seq<char> },
    /// The path's stored record differed from the walked one and was
    /// overwritten.
    Updated { path: Seq<char>, before: RecordV, after: RecordV },
}

/// One observation `update` makes.
#[derive(Debug)]
pub enum UpdateEvent {
    New { path: String },
    Updated { path: String, before: FileMetadataExt, after: FileMetadataExt },
}

impl View for UpdateEvent {
    type V = UpdateEventV;

    open spec fn view(&self) -> UpdateEventV {
        match self {
            UpdateEvent::New { path } => UpdateEventV::New { path: path@ },
            UpdateEvent::Updated { path, before, after } => UpdateEventV::Updated {
                path: path@,
                before: before@,
                after: after@,
            },
        }
    }
}

/// The views of a list of update observations.
pub open spec fn update_events_view(s: Seq<UpdateEvent>) -> Seq<UpdateEventV> {
    s.map_values(|e: UpdateEvent| e@)
}

/// What `update` observes for one walked pair against the store before the
/// batch: new when absent, updated when present and different.
pub open spec fn update_pair_events(
    m: Map<Seq<char>, Seq<u8>>,
    path: Seq<char>,
    rec: RecordV,
) -> Seq<UpdateEventV> {
    if !m.contains_key(path) {
        seq![UpdateEventV::New { path }]
    } else {
        match decode_record_spec(m[path]) {
            None => seq![],
            Some(old) => if old == rec {
                seq![]
            } else {
                seq![UpdateEventV::Updated { path, before: old, after: rec }]
            },
        }
    }
}

/// What `update` observes for one whole batch, in batch order.
pub open spec fn update_events_spec(
    m: Map<Seq<char>, Seq<u8>>,
    batch: Seq<(String, FileMetadataExt)>,
) -> Seq<UpdateEventV>
    decreases batch.len(),
{
    if batch.len() == 0 {
        Seq::empty()
    } else {
        update_events_spec(m, batch.drop_last()) + update_pair_events(
            m,
            batch.last().0@,
            batch.last().1@,
        )
    }
}

/// A batch carries no path twice; the walk never revisits a path.
pub open spec fn distinct_paths(batch: Seq<(String, FileMetadataExt)>) -> bool {
    forall|i: int, j: int| 0 <= i < j < batch.len() ==> batch[i].0@ != batch[j].0@
}

/// The merge policy: batches are written into the store, and what became new
/// or changed is collected as events; the paths seen are kept so that stale
/// store rows can be pruned after the walk.
pub struct UpdateDB {
    /// Every path a batch carried.
    pub files: PathSet,
    /// How many pairs were written.
    pub counter: u64,
    /// The observations so far, in walk order.
    pub events: Vec<UpdateEvent>,
}

impl UpdateDB {
    pub fn new() -> (r: UpdateDB)
        ensures
            r.files@ =~= Set::<Seq<char>>::empty(),
            r.files.wf(),
            r.counter == 0,
            r.events@ =~= Seq::<UpdateEvent>::empty(),
    {
        UpdateDB { files: PathSet::new(), counter: 0, events: Vec::new() }
    }

    pub fn get_counter(&self) -> (r: u64)
        ensures
            r == self.counter,
    {
        self.counter
    }

    /// Writes one batch atomically, records for each pair whether it was new
    /// or changed against the store as it was before the batch, and adds the
    /// batch's paths to the seen set; on failure nothing is changed. An
    /// `Encoding` error names a path whose stored bytes are corrupt.
    pub fn add_file_info(&mut self, db: &mut FilesDb, files: &Vec<(String, FileMetadataExt)>) -> (r:
        Result<(), IntegrityWatcherError>)
        requires
            old(self).files.wf(),
            distinct_paths(files@),
            old(self).counter + files@.len() <= u64::MAX,
        ensures
            final(self).files.wf(),
            r is Ok ==> files_view(*final(db)) == files_view(*old(db)).union_prefer_right(
                record_batch_view(files@),
            ),
            r is Ok ==> update_events_view(final(self).events@) =~= update_events_view(
                old(self).events@,
            ) + update_events_spec(files_view(*old(db)), files@),
            r is Ok ==> final(self).files@ =~= old(self).files@ + path_set(
                files@.map_values(|p: (String, FileMetadataExt)| p.0),
            ),
            r is Ok ==> final(self).counter == old(self).counter + files@.len(),
            r is Err ==> *final(self) == *old(self) && files_view(*final(db)) == files_view(
                *old(db),
            ),
    {
        let mut evs: Vec<UpdateEvent> = Vec::new();
        let mut i: usize = 0;
        while i < files.len()
            invariant
                i <= files@.len(),
                *self == *old(self),
                *db == *old(db),
                old(self).files.wf(),
                update_events_view(evs@) =~= update_events_spec(
                    files_view(*db),
                    files@.take(i as int),
                ),
            decreases files@.len() - i,
        {
            let (path, rec) = &files[i];
            match db.get_record(path)? {
                None => {
                    evs.push(UpdateEvent::New { path: path.clone() });
                },
                Some(old_rec) => {
                    if !(old_rec == *rec) {
                        evs.push(
                            UpdateEvent::Updated {
                                path: path.clone(),
                                before: old_rec,
                                after: rec.duplicate(),
                            },
                        );
                    }
                },
            }
            proof {
                assert(files@.take(i + 1).drop_last() =~= files@.take(i as int));
                assert(files@.take(i + 1).last() == files@[i as int]);
            }
            i += 1;
        }
        proof {
            assert(files@.take(files@.len() as int) =~= files@);
        }
        db.upsert_records(files)?;
        let mut j: usize = 0;
        while j < files.len()
            invariant
                j <= files@.len(),
                self.files.wf(),
                self.events == old(self).events,
                self.counter == old(self).counter,
                self.files@ =~= old(self).files@ + path_set(
                    files@.take(j as int).map_values(|p: (String, FileMetadataExt)| p.0),
                ),
            decreases files@.len() - j,
        {
            let (path, _) = &files[j];
            self.files.insert(path);
            proof {
                let taken = files@.take(j + 1).map_values(|p: (String, FileMetadataExt)| p.0);
                let prev = files@.take(j as int).map_values(|p: (String, FileMetadataExt)| p.0);
                assert(taken =~= prev.push(files@[j as int].0));
                lemma_path_set_push(prev, files@[j as int].0);
            }
            j += 1;
        }
        proof {
            assert(files@.take(files@.len() as int) =~= files@);
        }
        self.events.append(&mut evs);
        self.counter = self.counter + files.len() as u64;
        Ok(())
    }
}

/// Appending one path to a list grows its path set by that path.
pub proof fn lemma_path_set_push(s: Seq<String>, x: String)
    ensures
        path_set(s.push(x)) =~= path_set(s).insert(x@),
{
    assert forall|k: Seq<char>| path_set(s.push(x)).contains(k) implies path_set(s).insert(
        x@,
    ).contains(k) by {
        let i = choose|i: int| 0 <= i < s.push(x).len() && s.push(x)[i]@ == k;
        if i < s.len() {
            assert(path_set(s).contains(k));
        }
    }
    assert forall|k: Seq<char>| path_set(s).insert(x@).contains(k) implies path_set(
        s.push(x),
    ).contains(k) by {
        if path_set(s).contains(k) {
            let i = choose|i: int| 0 <= i < s.len() && s[i]@ == k;
            assert(s.push(x)[i]@ == k);
        } else {
            assert(s.push(x)[s.len() as int]@ == k);
        }
    }
}

/// A list without repeats names as many paths as it holds.
proof fn lemma_path_set_card(s: Seq<String>)
    requires
        forall|i: int, j: int| 0 <= i < j < s.len() ==> s[i]@ != s[j]@,
    ensures
        path_set(s).finite(),
        path_set(s).len() == s.len(),
    decreases s.len(),
{
    if s.len() == 0 {
        assert(path_set(s) =~= Set::<Seq<char>>::empty());
    } else {
        lemma_path_set_card(s.drop_last());
        lemma_path_set_push(s.drop_last(), s.last());
        assert(s.drop_last().push(s.last()) =~= s);
        assert(path_set(s) =~= path_set(s.drop_last()).insert(s.last()@));
        assert(!path_set(s.drop_last()).contains(s.last()@)) by {
            if path_set(s.drop_last()).contains(s.last()@) {
                let i = choose|i: int|
                    0 <= i < s.drop_last().len() && s.drop_last()[i]@ == s.last()@;
                assert(s[i]@ == s[s.len() - 1]@);
                assert(false);
            }
        }
    }
}

/// A scan's mapping holds exactly the scanned keys.
proof fn lemma_batch_view_dom(rows: Seq<(String, Vec<u8>)>)
    ensures
        forall|k: Seq<char>|
            #[trigger] batch_view(rows).contains_key(k) <==> (exists|i: int|
                0 <= i < rows.len() && rows[i].0@ == k),
    decreases rows.len(),
{
    if rows.len() > 0 {
        lemma_batch_view_dom(rows.drop_last());
        assert forall|k: Seq<char>| #[trigger] batch_view(rows).contains_key(k) implies (
        exists|i: int| 0 <= i < rows.len() && rows[i].0@ == k) by {
            if k == rows.last().0@ {
                assert(rows[rows.len() - 1].0@ == k);
            } else {
                assert(batch_view(rows.drop_last()).contains_key(k));
                let i = choose|i: int| 0 <= i < rows.len() - 1 && rows.drop_last()[i].0@ == k;
                assert(rows.drop_last()[i] == rows[i]);
                assert(rows[i].0@ == k);
            }
        }
        assert forall|k: Seq<char>| (exists|i: int|
            0 <= i < rows.len() && rows[i].0@ == k) implies #[trigger] batch_view(
            rows,
        ).contains_key(k) by {
            let i = choose|i: int| 0 <= i < rows.len() && rows[i].0@ == k;
            if i < rows.len() - 1 {
                assert(rows.drop_last()[i].0@ == k);
                assert(batch_view(rows.drop_last()).contains_key(k));
            } else {
                assert(k == rows.last().0@);
            }
        }
    }
}

/// The paths the store holds that the walk never produced: the removed files.
pub fn removed_paths(db: &FilesDb, seen: &PathSet) -> (r: Result<
    Vec<String>,
    IntegrityWatcherError,
>)
    ensures
        r matches Ok(rem) ==> path_set(rem@) =~= files_view(*db).dom().difference(seen@) && (
        forall|a: int, b: int| 0 <= a < b < rem@.len() ==> rem@[a]@ != rem@[b]@),
{
    let rows = db.scan_raw()?;
    proof {
        lemma_batch_view_dom(rows@);
    }
    let mut out: Vec<String> = Vec::new();
    let mut i: usize = 0;
    while i < rows.len()
        invariant
            i <= rows@.len(),
            batch_view(rows@) == files_view(*db),
            forall|a: int, b: int| 0 <= a < b < rows@.len() ==> rows@[a].0@ != rows@[b].0@,
            forall|k: Seq<char>|
                #[trigger] batch_view(rows@).contains_key(k) <==> (exists|j: int|
                    0 <= j < rows@.len() && rows@[j].0@ == k),
            forall|a: int|
                0 <= a < out@.len() ==> exists|j: int|
                    0 <= j < i && rows@[j].0@ == #[trigger] out@[a]@,
            forall|a: int, b: int| 0 <= a < b < out@.len() ==> out@[a]@ != out@[b]@,
            forall|j: int|
                0 <= j < i && !seen@.contains(#[trigger] rows@[j].0@) ==> path_set(
                    out@,
                ).contains(rows@[j].0@),
            forall|k: Seq<char>|
                #[trigger] path_set(out@).contains(k) ==> !seen@.contains(k) && (exists|j: int|
                    0 <= j < i && rows@[j].0@ == k),
        decreases rows@.len() - i,
    {
        let (path, _) = &rows[i];
        if !seen.contains(path) {
            proof {
                lemma_path_set_push(out@, rows@[i as int].0);
                let ghost newkey = rows@[i as int].0@;
                assert forall|a: int| 0 <= a < out@.len() implies out@[a]@ != newkey by {
                    let j = choose|j: int| 0 <= j < i && rows@[j].0@ == out@[a]@;
                }
            }
            out.push(path.clone());
        }
        i += 1;
    }
    proof {
        assert forall|k: Seq<char>| path_set(out@).contains(k) implies files_view(
            *db,
        ).dom().difference(seen@).contains(k) by {
            assert(batch_view(rows@).contains_key(k));
        }
        assert forall|k: Seq<char>| files_view(*db).dom().difference(seen@).contains(
            k,
        ) implies path_set(out@).contains(k) by {
            assert(batch_view(rows@).contains_key(k));
        }
    }
    Ok(out)
}

/// Removes from the store every path the walk never produced, atomically, and
/// returns those paths.
pub fn prune_missing(db: &mut FilesDb, seen: &PathSet) -> (r: Result<
    Vec<String>,
    IntegrityWatcherError,
>)
    ensures
        r matches Ok(rem) ==> path_set(rem@) =~= files_view(*old(db)).dom().difference(seen@)
            && files_view(*final(db)) == files_view(*old(db)).remove_keys(path_set(rem@)) && (
        forall|a: int, b: int| 0 <= a < b < rem@.len() ==> rem@[a]@ != rem@[b]@),
        r is Err ==> files_view(*final(db)) == files_view(*old(db)),
{
    let rem = removed_paths(db, seen)?;
    db.remove_paths(&rem)?;
    Ok(rem)
}

/// The path views a batch carries, as a set.
pub open spec fn batch_keys(batch: Seq<(String, FileMetadataExt)>) -> Set<Seq<char>> {
    path_set(batch.map_values(|p: (String, FileMetadataExt)| p.0))
}

/// A batch's mapping holds exactly the batch's keys.
proof fn lemma_record_batch_view_dom(batch: Seq<(String, FileMetadataExt)>)
    ensures
        forall|k: Seq<char>|
            #[trigger] record_batch_view(batch).contains_key(k) <==> (exists|i: int|
                0 <= i < batch.len() && batch[i].0@ == k),
    decreases batch.len(),
{
    if batch.len() > 0 {
        lemma_record_batch_view_dom(batch.drop_last());
        assert forall|k: Seq<char>| #[trigger] record_batch_view(batch).contains_key(k) implies (
        exists|i: int| 0 <= i < batch.len() && batch[i].0@ == k) by {
            if k == batch.last().0@ {
                assert(batch[batch.len() - 1].0@ == k);
            } else {
                assert(record_batch_view(batch.drop_last()).contains_key(k));
                let i = choose|i: int| 0 <= i < batch.len() - 1 && batch.drop_last()[i].0@ == k;
                assert(batch.drop_last()[i] == batch[i]);
                assert(batch[i].0@ == k);
            }
        }
        assert forall|k: Seq<char>| (exists|i: int|
            0 <= i < batch.len() && batch[i].0@ == k) implies #[trigger] record_batch_view(
            batch,
        ).contains_key(k) by {
            let i = choose|i: int| 0 <= i < batch.len() && batch[i].0@ == k;
            if i < batch.len() - 1 {
                assert(batch.drop_last()[i].0@ == k);
                assert(record_batch_view(batch.drop_last()).contains_key(k));
            } else {
                assert(k == batch.last().0@);
            }
        }
    }
}

/// What a batch's mapping holds for one of its keys, when no key repeats.
proof fn lemma_record_batch_view_at(batch: Seq<(String, FileMetadataExt)>, i: int)
    requires
        distinct_paths(batch),
        0 <= i < batch.len(),
    ensures
        record_batch_view(batch).contains_key(batch[i].0@),
        record_batch_view(batch)[batch[i].0@] == crate::codec::encode_record_spec(batch[i].1@),
    decreases batch.len(),
{
    if i == batch.len() - 1 {
    } else {
        lemma_record_batch_view_at(batch.drop_last(), i);
        assert(batch.drop_last()[i] == batch[i]);
    }
}

/// A batch every pair of which already stands in the store, unchanged,
/// produces no update observations.
proof fn lemma_update_events_empty(
    m: Map<Seq<char>, Seq<u8>>,
    batch: Seq<(String, FileMetadataExt)>,
)
    requires
        forall|i: int|
            0 <= i < batch.len() ==> m.contains_key(#[trigger] batch[i].0@)
                && decode_record_spec(m[batch[i].0@]) == Some(batch[i].1@),
    ensures
        update_events_spec(m, batch) =~= Seq::<UpdateEventV>::empty(),
    decreases batch.len(),
{
    if batch.len() > 0 {
        assert forall|i: int| 0 <= i < batch.len() - 1 implies m.contains_key(
            #[trigger] batch.drop_last()[i].0@,
        ) && decode_record_spec(m[batch.drop_last()[i].0@]) == Some(batch.drop_last()[i].1@) by {
            assert(batch.drop_last()[i] == batch[i]);
        }
        lemma_update_events_empty(m, batch.drop_last());
        assert(batch[batch.len() - 1] == batch.last());
        assert(update_pair_events(m, batch.last().0@, batch.last().1@) =~= Seq::<
            UpdateEventV,
        >::empty());
    }
}

/// Running `update` twice in a row over the same walk output changes nothing
/// the second time: the store after the first run's merge and prune makes the
/// second run observe zero new and zero changed pairs, and its prune finds
/// zero paths to remove. The walk output carries each path once.
pub proof fn lemma_update_idempotent(
    m0: Map<Seq<char>, Seq<u8>>,
    batch: Seq<(String, FileMetadataExt)>,
)
    requires
        distinct_paths(batch),
        forall|i: int|
            0 <= i < batch.len() ==> crate::codec::wf_record(#[trigger] batch[i].1@),
    ensures
        ({
            let merged = m0.union_prefer_right(record_batch_view(batch));
            let m1 = merged.remove_keys(merged.dom().difference(batch_keys(batch)));
            update_events_spec(m1, batch) =~= Seq::<UpdateEventV>::empty()
                && m1.dom().difference(batch_keys(batch)) =~= Set::<Seq<char>>::empty()
        }),
{
    let merged = m0.union_prefer_right(record_batch_view(batch));
    let m1 = merged.remove_keys(merged.dom().difference(batch_keys(batch)));
    lemma_record_batch_view_dom(batch);
    assert forall|i: int| 0 <= i < batch.len() implies m1.contains_key(#[trigger] batch[i].0@)
        && decode_record_spec(m1[batch[i].0@]) == Some(batch[i].1@) by {
        let k = batch[i].0@;
        assert(batch.map_values(|p: (String, FileMetadataExt)| p.0)[i]@ == k);
        assert(batch_keys(batch).contains(k));
        assert(record_batch_view(batch).contains_key(k));
        assert(merged.contains_key(k));
        assert(m1.contains_key(k));
        lemma_record_batch_view_at(batch, i);
        assert(m1[k] == crate::codec::encode_record_spec(batch[i].1@));
        crate::codec::lemma_record_round_trip(batch[i].1@);
    }
    lemma_update_events_empty(m1, batch);
}

/// A transition between two different record variants is always reported by
/// `check`, whatever the time flag says: the single observation for such a
/// pair is the variant change.
pub proof fn lemma_variant_change_reported(
    m: Map<Seq<char>, Seq<u8>>,
    path: Seq<char>,
    before: RecordV,
    rec: RecordV,
    compare_time: bool,
)
    requires
        m.contains_key(path),
        decode_record_spec(m[path]) == Some(before),
        !same_variant(before, rec),
    ensures
        check_pair_events(m, path, rec, compare_time) =~= seq![
            CheckEventV::VariantChanged { path, before, after: rec },
        ],
{
    assert(before != rec);
}

/// Two file records that differ in their modification time alone are
/// suppressed by `check` without the time flag, and reported as exactly the
/// one time delta with it.
pub proof fn lemma_time_only_suppressed(
    m: Map<Seq<char>, Seq<u8>>,
    path: Seq<char>,
    before: crate::types::FileMetadataV,
    rec: crate::types::FileMetadataV,
)
    requires
        m.contains_key(path),
        decode_record_spec(m[path]) == Some(RecordV::File(before)),
        before.hash == rec.hash,
        before.permissions == rec.permissions,
        before.size == rec.size,
        before.modified != rec.modified,
    ensures
        check_pair_events(m, path, RecordV::File(rec), false) =~= Seq::<CheckEventV>::empty(),
        check_pair_events(m, path, RecordV::File(rec), true) =~= seq![
            CheckEventV::Changed {
                path,
                before: RecordV::File(before),
                after: RecordV::File(rec),
                fields: FieldChanges {
                    hash: false,
                    target: false,
                    permissions: false,
                    modified: true,
                    size: false,
                },
            },
        ],
{
    assert(RecordV::File(before) != RecordV::File(rec));
}

/// Whether two records carry the same variant tag, executed.
pub fn same_variant_exec(a: &FileMetadataExt, b: &FileMetadataExt) -> (r: bool)
    ensures
        r == same_variant(a@, b@),
{
    match (a, b) {
        (FileMetadataExt::Symlink(_), FileMetadataExt::Symlink(_)) => true,
        (FileMetadataExt::File(_), FileMetadataExt::File(_)) => true,
        (FileMetadataExt::Dir(_), FileMetadataExt::Dir(_)) => true,
        _ => false,
    }
}

/// A delta beyond the modification time alone, executed.
pub fn non_time_change_exec(f: &FieldChanges) -> (r: bool)
    ensures
        r == non_time_change(*f),
{
    f.hash || f.target || f.permissions || f.size
}

} // verus!
