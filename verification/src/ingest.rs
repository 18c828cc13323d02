//! The ingestion pipeline: external URLs become stored audio blobs with
//! metadata rows, under a strict concurrency bound and with per-user
//! completion notifications.
//!
//! [`IngestPool`] models the download semaphore (never more than its
//! capacity in flight), [`StoreModel`] models the blob store and the
//! metadata store together (a record exists only for a blob that was
//! uploaded), and [`process_audio`] is the pipeline's decision sequence:
//! it consumes the outcomes of the outside steps and says exactly which
//! actions happen, which error surfaces first, and how the stores change.

use vstd::prelude::*;
use crate::dec::{dec_body, dec_value, is_dec_numeral, parse_u64_dec};
use crate::errors::Error;

verus! {

/// A configuration value: the text if it is a decimal numeral, the
/// default otherwise (also when the variable is absent).
pub fn config_value(text: Option<&String>, default: u64) -> (r: u64)
    ensures
        text is None ==> r == default,
        text matches Some(t) ==> {
            &&& is_dec_numeral(t@) && dec_value(dec_body(t@)) <= u64::MAX ==> r == dec_value(
                dec_body(t@),
            )
            &&& !(is_dec_numeral(t@) && dec_value(dec_body(t@)) <= u64::MAX) ==> r == default
        },
{
    match text {
        Some(t) => {
            match parse_u64_dec(t.as_str()) {
                Some(v) => v,
                None => default,
            }
        },
        None => default,
    }
}

/// Abstract value of an [`IngestPool`].
pub struct PoolView {
    pub in_flight: int,
    pub capacity: int,
}

/// The download semaphore: at most `capacity` ingestion tasks hold a
/// permit at any instant.
pub struct IngestPool {
    in_flight: usize,
    capacity: usize,
}

impl View for IngestPool {
    type V = PoolView;

    closed spec fn view(&self) -> PoolView {
        PoolView { in_flight: self.in_flight as int, capacity: self.capacity as int }
    }
}

impl PoolView {
    /// The concurrency bound: never more tasks in flight than the
    /// configured capacity.
    pub open spec fn wf(self) -> bool {
        0 <= self.in_flight <= self.capacity
    }
}

impl IngestPool {
    pub fn new(capacity: usize) -> (p: Self)
        ensures
            p@.in_flight == 0,
            p@.capacity == capacity as int,
            p@.wf(),
    {
        Self { in_flight: 0, capacity }
    }

    /// Takes a permit when one is free; a `false` return asks the caller
    /// to wait and retry.
    pub fn try_acquire(&mut self) -> (granted: bool)
        requires
            old(self)@.wf(),
        ensures
            final(self)@.wf(),
            final(self)@.capacity == old(self)@.capacity,
            granted == (old(self)@.in_flight < old(self)@.capacity),
            granted ==> final(self)@.in_flight == old(self)@.in_flight + 1,
            !granted ==> final(self)@.in_flight == old(self)@.in_flight,
    {
        if self.in_flight < self.capacity {
            self.in_flight = self.in_flight + 1;
            true
        } else {
            false
        }
    }

    /// Returns a permit; every exit path of an ingestion task does this.
    pub fn release(&mut self)
        requires
            old(self)@.wf(),
        ensures
            final(self)@.wf(),
            final(self)@.capacity == old(self)@.capacity,
            old(self)@.in_flight > 0 ==> final(self)@.in_flight == old(self)@.in_flight - 1,
            old(self)@.in_flight == 0 ==> final(self)@.in_flight == 0,
    {
        if self.in_flight > 0 {
            self.in_flight = self.in_flight - 1;
        }
    }
}

/// Law: the number of in-flight ingestion tasks never exceeds the
/// configured capacity — the bound is the pool's well-formedness, which
/// every pool operation preserves.
pub proof fn lemma_pool_bound(v: PoolView)
    requires
        v.wf(),
    ensures
        v.in_flight <= v.capacity,
{
}

/// A fresh blob key for one ingestion: the blob is uploaded and the
/// record inserted under the same key.
pub fn fresh_blob_key() -> (r: String)
    ensures
        r@.len() == 36,
{
    crate::ids::fresh_uuid()
}

/// One stored track: the blob key, its owner, the source URL, the
/// display title and the insertion time.
pub struct FileRecord {
    pub key: String,
    pub owner_user_id: String,
    pub url: String,
    pub title: String,
    pub created_at: u64,
}

/// Abstract value of a [`FileRecord`].
pub struct FileRecordView {
    pub key: Seq<char>,
    pub owner_user_id: Seq<char>,
    pub url: Seq<char>,
    pub title: Seq<char>,
    pub created_at: int,
}

impl View for FileRecord {
    type V = FileRecordView;

    open spec fn view(&self) -> FileRecordView {
        FileRecordView {
            key: self.key@,
            owner_user_id: self.owner_user_id@,
            url: self.url@,
            title: self.title@,
            created_at: self.created_at as int,
        }
    }
}

/// Abstract value of a [`StoreModel`].
pub struct StoreView {
    pub uploaded: Seq<Seq<char>>,
    pub records: Seq<FileRecordView>,
}

/// Whether a record for `(owner, url)` exists.
pub open spec fn has_record_for(rs: Seq<FileRecordView>, owner: Seq<char>, url: Seq<char>) -> bool {
    exists|i: int| 0 <= i < rs.len() && (#[trigger] rs[i]).owner_user_id == owner && rs[i].url
        == url
}

/// Whether the blob `key` was uploaded at some point.
pub open spec fn was_uploaded(up: Seq<Seq<char>>, key: Seq<char>) -> bool {
    exists|i: int| 0 <= i < up.len() && up[i] == key
}

impl StoreView {
    /// A metadata record exists only for a blob whose upload succeeded.
    pub open spec fn wf(self) -> bool {
        forall|i: int|
            0 <= i < self.records.len() ==> was_uploaded(
                self.uploaded,
                (#[trigger] self.records[i]).key,
            )
    }
}

/// The core's view of the blob store and the metadata store together:
/// the history of successful uploads and the metadata records.
pub struct StoreModel {
    uploaded: Vec<String>,
    records: Vec<FileRecord>,
}

impl View for StoreModel {
    type V = StoreView;

    closed spec fn view(&self) -> StoreView {
        StoreView {
            uploaded: self.uploaded@.map_values(|k: String| k@),
            records: self.records@.map_values(|r: FileRecord| r@),
        }
    }
}

impl StoreModel {
    pub fn new() -> (s: Self)
        ensures
            s@.uploaded.len() == 0,
            s@.records.len() == 0,
            s@.wf(),
    {
        let s = Self { uploaded: Vec::new(), records: Vec::new() };
        proof {
            assert(s@.uploaded =~= Seq::<Seq<char>>::empty());
            assert(s@.records =~= Seq::<FileRecordView>::empty());
        }
        s
    }

    /// The duplicate check: whether `owner` already ingested `url`.
    pub fn has_record(&self, owner: &String, url: &String) -> (r: bool)
        ensures
            r == has_record_for(self@.records, owner@, url@),
    {
        let mut i: usize = 0;
        while i < self.records.len()
            invariant
                i <= self.records.len(),
                self.records@.len() == self@.records.len(),
                forall|j: int|
                    0 <= j < i ==> !((#[trigger] self@.records[j]).owner_user_id == owner@
                        && self@.records[j].url == url@),
            decreases self.records.len() - i,
        {
            if self.records[i].owner_user_id.eq(owner) && self.records[i].url.eq(url) {
                proof {
                    assert(self@.records[i as int].owner_user_id == owner@
                        && self@.records[i as int].url == url@);
                }
                return true;
            }
            i += 1;
        }
        false
    }

    /// Records that the blob `key` was uploaded successfully.
    pub fn mark_uploaded(&mut self, key: String)
        requires
            old(self)@.wf(),
        ensures
            final(self)@.wf(),
            final(self)@.uploaded == old(self)@.uploaded.push(key@),
            final(self)@.records == old(self)@.records,
    {
        let ghost oldv = self@;
        self.uploaded.push(key);
        proof {
            assert(self@.uploaded =~= oldv.uploaded.push(key@));
            assert forall|i: int|
                0 <= i < self@.records.len() implies was_uploaded(
                self@.uploaded,
                (#[trigger] self@.records[i]).key,
            ) by {
                let w = choose|w: int|
                    0 <= w < oldv.uploaded.len() && oldv.uploaded[w] == oldv.records[i].key;
                assert(self@.uploaded[w] == self@.records[i].key);
            }
        }
    }

    /// Inserts a metadata record; its blob must have been uploaded, which
    /// is how the pipeline orders its steps.
    pub fn add_record(&mut self, rec: FileRecord)
        requires
            old(self)@.wf(),
            was_uploaded(old(self)@.uploaded, rec@.key),
        ensures
            final(self)@.wf(),
            final(self)@.uploaded == old(self)@.uploaded,
            final(self)@.records == old(self)@.records.push(rec@),
    {
        let ghost oldv = self@;
        self.records.push(rec);
        proof {
            assert(self@.records =~= oldv.records.push(rec@));
            assert forall|i: int|
                0 <= i < self@.records.len() implies was_uploaded(
                self@.uploaded,
                (#[trigger] self@.records[i]).key,
            ) by {
                if i < oldv.records.len() {
                    assert(was_uploaded(oldv.uploaded, oldv.records[i].key));
                }
            }
        }
    }

    /// The records, for listings.
    pub fn records(&self) -> (r: &Vec<FileRecord>)
        ensures
            r@.map_values(|x: FileRecord| x@) == self@.records,
    {
        &self.records
    }
}

/// One outside step a running ingestion asks its runtime to perform, in
/// order of appearance.
pub enum IngestAction {
    /// Publish the request's title on the requesting user's bus (the
    /// duplicate signal).
    PublishTitle,
    /// Take one permit of the download semaphore (await until granted).
    AcquirePermit,
    /// Ask the external tool for the source's size.
    ProbeSize,
    /// Download and transcode the source into the local scratch file.
    Download,
    /// Upload the transcoded file to the blob store.
    Upload,
    /// Delete the local transcoded file.
    DeleteLocal,
    /// Insert the metadata record.
    InsertRecord,
    /// Publish `"check"` on the requesting user's bus.
    PublishCheck,
    /// Return the permit.
    ReleasePermit,
}

/// What the outside steps of one ingestion reported back.
pub struct IngestOutcomes {
    /// The size probe ran successfully (a failed probe is not fatal).
    pub size_probe_success: bool,
    /// What the size probe printed (a decimal byte count when known).
    pub size_text: String,
    /// The download and transcode step succeeded.
    pub download_ok: bool,
    /// The upload to the blob store succeeded.
    pub upload_ok: bool,
    /// The metadata insert succeeded.
    pub insert_ok: bool,
}

/// Whether the probe reported a size above the limit.
pub open spec fn size_exceeds(o: IngestOutcomes, limit: int) -> bool {
    &&& o.size_probe_success
    &&& is_dec_numeral(o.size_text@)
    &&& dec_value(dec_body(o.size_text@)) <= u64::MAX
    &&& dec_value(dec_body(o.size_text@)) > limit
}

/// The full pipeline decision for one URL: duplicate check first (a
/// duplicate acquires no permit and touches nothing), then under a
/// permit: size probe, download, upload, record, notification — failing
/// with the first error that trips, releasing the permit on every exit,
/// and touching the stores exactly as the outcomes allow.
pub fn process_audio(
    store: &mut StoreModel,
    user_id: String,
    url: String,
    title: String,
    key: String,
    created_at: u64,
    limit: u64,
    outcomes: IngestOutcomes,
) -> (r: (Result<(), Error>, Vec<IngestAction>))
    requires
        old(store)@.wf(),
    ensures
        final(store)@.wf(),
        has_record_for(old(store)@.records, user_id@, url@) ==> {
            &&& final(store)@ == old(store)@
            &&& (r.0 matches Err(Error::DuplicateContent { msg }) && msg@ == url@)
            &&& r.1@.len() == 1
            &&& r.1@[0] is PublishTitle
        },
        !has_record_for(old(store)@.records, user_id@, url@) && size_exceeds(
            outcomes,
            limit as int,
        ) ==> {
            &&& final(store)@ == old(store)@
            &&& (r.0 matches Err(Error::FileTooLarge { size, limit: l }) && size
                == dec_value(dec_body(outcomes.size_text@)) && l == limit)
            &&& r.1@ =~= seq![
                IngestAction::AcquirePermit,
                IngestAction::ProbeSize,
                IngestAction::ReleasePermit,
            ]
        },
        !has_record_for(old(store)@.records, user_id@, url@) && !size_exceeds(
            outcomes,
            limit as int,
        ) && !outcomes.download_ok ==> {
            &&& final(store)@ == old(store)@
            &&& (r.0 matches Err(Error::DownloadFailed { url: u }) && u@ == url@)
            &&& r.1@ =~= seq![
                IngestAction::AcquirePermit,
                IngestAction::ProbeSize,
                IngestAction::Download,
                IngestAction::ReleasePermit,
            ]
        },
        !has_record_for(old(store)@.records, user_id@, url@) && !size_exceeds(
            outcomes,
            limit as int,
        ) && outcomes.download_ok && !outcomes.upload_ok ==> {
            &&& final(store)@ == old(store)@
            &&& (r.0 matches Err(Error::UploadFailed { .. }))
            &&& r.1@ =~= seq![
                IngestAction::AcquirePermit,
                IngestAction::ProbeSize,
                IngestAction::Download,
                IngestAction::Upload,
                IngestAction::DeleteLocal,
                IngestAction::ReleasePermit,
            ]
        },
        !has_record_for(old(store)@.records, user_id@, url@) && !size_exceeds(
            outcomes,
            limit as int,
        ) && outcomes.download_ok && outcomes.upload_ok ==> {
            &&& final(store)@.uploaded == old(store)@.uploaded.push(key@)
            &&& !outcomes.insert_ok ==> {
                &&& final(store)@.records == old(store)@.records
                &&& (r.0 matches Err(Error::DatabaseWriteError { .. }))
                &&& r.1@ =~= seq![
                    IngestAction::AcquirePermit,
                    IngestAction::ProbeSize,
                    IngestAction::Download,
                    IngestAction::Upload,
                    IngestAction::DeleteLocal,
                    IngestAction::InsertRecord,
                    IngestAction::ReleasePermit,
                ]
            }
            &&& outcomes.insert_ok ==> {
                &&& final(store)@.records == old(store)@.records.push(
                    (FileRecordView {
                        key: key@,
                        owner_user_id: user_id@,
                        url: url@,
                        title: title@,
                        created_at: created_at as int,
                    }),
                )
                &&& r.0 is Ok
                &&& r.1@ =~= seq![
                    IngestAction::AcquirePermit,
                    IngestAction::ProbeSize,
                    IngestAction::Download,
                    IngestAction::Upload,
                    IngestAction::DeleteLocal,
                    IngestAction::InsertRecord,
                    IngestAction::PublishCheck,
                    IngestAction::ReleasePermit,
                ]
            }
        },
{
    let mut actions: Vec<IngestAction> = Vec::new();

    if store.has_record(&user_id, &url) {
        actions.push(IngestAction::PublishTitle);
        return (Err(Error::DuplicateContent { msg: url }), actions);
    }
    actions.push(IngestAction::AcquirePermit);
    actions.push(IngestAction::ProbeSize);

    if outcomes.size_probe_success {
        match crate::dec::parse_u64_dec(outcomes.size_text.as_str()) {
            Some(size) => {
                if size > limit {
                    actions.push(IngestAction::ReleasePermit);
                    return (Err(Error::FileTooLarge { size, limit }), actions);
                }
            },
            None => {},
        }
    }
    actions.push(IngestAction::Download);
    if !outcomes.download_ok {
        actions.push(IngestAction::ReleasePermit);
        return (Err(Error::DownloadFailed { url }), actions);
    }

    actions.push(IngestAction::Upload);
    actions.push(IngestAction::DeleteLocal);
    if !outcomes.upload_ok {
        actions.push(IngestAction::ReleasePermit);
        return (
            Err(Error::UploadFailed { msg: String::from_str("blob upload failed") }),
            actions,
        );
    }
    store.mark_uploaded(key.clone());
    proof {
        assert(store@.uploaded.last() == key@);
        assert(was_uploaded(store@.uploaded, key@));
    }
    actions.push(IngestAction::InsertRecord);
    if !outcomes.insert_ok {
        actions.push(IngestAction::ReleasePermit);
        return (
            Err(Error::DatabaseWriteError { msg: String::from_str("metadata insert failed") }),
            actions,
        );
    }
    store.add_record(
        FileRecord { key, owner_user_id: user_id, url, title, created_at },
    );
    actions.push(IngestAction::PublishCheck);
    actions.push(IngestAction::ReleasePermit);
    (Ok(()), actions)
}

/// The title probe's decision: a successful probe yields the one
/// `(title, url)` pair, a failed one surfaces the tool's message.
pub fn title_probe(
    success: bool,
    title: String,
    stderr: String,
    url: String,
) -> (r: Result<Vec<(String, String)>, Error>)
    ensures
        success ==> (r matches Ok(v) && v@.len() == 1 && v@[0].0@ == title@ && v@[0].1@ == url@),
        !success ==> (r matches Err(Error::ContentNotFound { msg }) && msg@ == stderr@),
{
    if success {
        let mut v: Vec<(String, String)> = Vec::new();
        v.push((title, url));
        Ok(v)
    } else {
        Err(Error::ContentNotFound { msg: stderr })
    }
}

/// The playlist probe's decision: entries pass through untouched; a
/// playlist without entries, or a failed probe, is a parse error.
pub fn playlist_probe(
    success: bool,
    entries: Option<Vec<(String, String)>>,
    stderr: String,
) -> (r: Result<Vec<(String, String)>, Error>)
    ensures
        success && entries is Some ==> (r matches Ok(v) && (entries matches Some(e) && v == e)),
        success && entries is None ==> (r matches Err(Error::PlayListParseErr { .. })),
        !success ==> (r matches Err(Error::PlayListParseErr { msg }) && msg@ == stderr@),
{
    if !success {
        return Err(Error::PlayListParseErr { msg: stderr });
    }
    match entries {
        Some(e) => Ok(e),
        None => Err(
            Error::PlayListParseErr {
                msg: String::from_str("no entries found in the playlist"),
            },
        ),
    }
}

/// The live probe's decision: a failed probe is an invalid URL; a
/// successful one reports whether the tool printed `True`.
pub fn live_probe(success: bool, stdout: String, url: String) -> (r: Result<bool, Error>)
    ensures
        !success ==> (r matches Err(Error::InvalidURL { url: u }) && u@ == url@),
        success ==> (r matches Ok(b) && b == (stdout@ == "True"@)),
{
    if !success {
        return Err(Error::InvalidURL { url });
    }
    let yes = String::from_str("True");
    Ok(stdout.eq(&yes))
}

/// The size probe's stand-alone decision, as the pipeline applies it: an
/// unreadable probe passes, a readable size above the limit is rejected.
pub fn size_check(success: bool, size_text: &String, limit: u64) -> (r: Result<(), Error>)
    ensures
        !success ==> r is Ok,
        success && is_dec_numeral(size_text@) && dec_value(dec_body(size_text@)) <= u64::MAX
            && dec_value(dec_body(size_text@)) > limit ==> (r matches Err(
            Error::FileTooLarge { size, limit: l },
        ) && size == dec_value(dec_body(size_text@)) && l == limit),
        success && !(is_dec_numeral(size_text@) && dec_value(dec_body(size_text@)) <= u64::MAX
            && dec_value(dec_body(size_text@)) > limit) ==> r is Ok,
{
    if !success {
        return Ok(());
    }
    match parse_u64_dec(size_text.as_str()) {
        Some(size) => {
            if size > limit {
                Err(Error::FileTooLarge { size, limit })
            } else {
                Ok(())
            }
        },
        None => Ok(()),
    }
}

/// The per-user notification endpoints, keyed by user id.
pub struct SenderRegistry<T> {
    entries: Vec<(String, T)>,
}

/// Whether the registry holds an endpoint for `id`.
pub open spec fn has_sender<T>(es: Seq<(Seq<char>, T)>, id: Seq<char>) -> bool {
    exists|i: int| 0 <= i < es.len() && (#[trigger] es[i]).0 == id
}

impl<T> View for SenderRegistry<T> {
    type V = Seq<(Seq<char>, T)>;

    closed spec fn view(&self) -> Seq<(Seq<char>, T)> {
        self.entries@.map_values(|p: (String, T)| (p.0@, p.1))
    }
}

impl<T> SenderRegistry<T> {
    pub fn new() -> (r: Self)
        ensures
            r@.len() == 0,
    {
        let r = Self { entries: Vec::new() };
        proof {
            assert(r@ =~= Seq::<(Seq<char>, T)>::empty());
        }
        r
    }

    /// Installs (or replaces) the endpoint for `id`; consumers do this
    /// before initiating any download.
    pub fn add_sender_with_id(&mut self, id: String, sender: T)
        requires
            forall|a: int, b: int|
                0 <= a < b < old(self)@.len() ==> (#[trigger] old(self)@[a]).0 != (#[trigger] old(
                    self,
                )@[b]).0,
        ensures
            forall|a: int, b: int|
                0 <= a < b < final(self)@.len() ==> (#[trigger] final(self)@[a]).0 != (
                #[trigger] final(self)@[b]).0,
            !has_sender(old(self)@, id@) ==> final(self)@ == old(self)@.push((id@, sender)),
            forall|j: int|
                0 <= j < old(self)@.len() && (#[trigger] old(self)@[j]).0 == id@ ==> final(self)@
                    == old(self)@.remove(j).push((id@, sender)),
            has_sender(final(self)@, id@),
    {
        let ghost oldv = self@;
        let mut i: usize = 0;
        let mut found: Option<usize> = None;
        while i < self.entries.len()
            invariant
                i <= self.entries.len(),
                self.entries@.len() == oldv.len(),
                self@ == oldv,
                found is None ==> forall|j: int| 0 <= j < i ==> (#[trigger] oldv[j]).0 != id@,
                found matches Some(f) ==> f < oldv.len() && oldv[f as int].0 == id@,
            decreases self.entries.len() - i,
        {
            if found.is_none() && self.entries[i].0.eq(&id) {
                proof {
                    assert(oldv[i as int].0 == id@);
                }
                found = Some(i);
            }
            i += 1;
        }
        match found {
            Some(f) => {
                proof {
                    assert forall|j: int|
                        0 <= j < oldv.len() && (#[trigger] oldv[j]).0 == id@ implies j
                        == f as int by {
                        if j < f as int {
                            assert(oldv[j].0 != oldv[f as int].0);
                        }
                        if j > f as int {
                            assert(oldv[f as int].0 != oldv[j].0);
                        }
                    }
                    oldv.remove_ensures(f as int);
                }
                self.entries.remove(f);
                proof {
                    assert(self@ =~= oldv.remove(f as int));
                    assert forall|a: int, b: int|
                        0 <= a < b < self@.len() implies (#[trigger] self@[a]).0 != (
                    #[trigger] self@[b]).0 by {
                        let a0 = if a < f as int { a } else { a + 1 };
                        let b0 = if b < f as int { b } else { b + 1 };
                        assert(self@[a] == oldv[a0]);
                        assert(self@[b] == oldv[b0]);
                        assert(oldv[a0].0 != oldv[b0].0);
                    }
                    assert forall|x: int| 0 <= x < self@.len() implies (#[trigger] self@[x]).0
                        != id@ by {
                        let x0 = if x < f as int { x } else { x + 1 };
                        assert(self@[x] == oldv[x0]);
                        if x0 != f as int {
                            if x0 < f as int {
                                assert(oldv[x0].0 != oldv[f as int].0);
                            } else {
                                assert(oldv[f as int].0 != oldv[x0].0);
                            }
                        }
                    }
                }
            },
            None => {},
        }
        let ghost midv = self@;
        self.entries.push((id, sender));
        proof {
            assert(self@ =~= midv.push((id@, sender)));
            assert(self@[self@.len() - 1].0 == id@);
            assert forall|a: int, b: int|
                0 <= a < b < self@.len() implies (#[trigger] self@[a]).0 != (
            #[trigger] self@[b]).0 by {
                if b == self@.len() - 1 {
                    assert(midv[a].0 != id@);
                } else {
                    assert(midv[a].0 != midv[b].0);
                }
            }
        }
    }

    /// The endpoint for `id`; a missing endpoint is the consumer's
    /// programming error and surfaces as a database-level fault.
    pub fn get_sender_with_id(&self, id: &String) -> (r: Result<&T, Error>)
        ensures
            r is Ok <==> has_sender(self@, id@),
            r is Err ==> (r matches Err(Error::DBError { .. })),
            r matches Ok(s) ==> exists|j: int|
                0 <= j < self@.len() && (#[trigger] self@[j]).0 == id@ && self@[j].1 == *s,
    {
        let mut i: usize = 0;
        while i < self.entries.len()
            invariant
                i <= self.entries.len(),
                self.entries@.len() == self@.len(),
                forall|j: int| 0 <= j < i ==> (#[trigger] self@[j]).0 != id@,
            decreases self.entries.len() - i,
        {
            if self.entries[i].0.eq(id) {
                let s = &self.entries[i].1;
                proof {
                    assert(self@[i as int].0 == id@ && self@[i as int].1 == *s);
                }
                return Ok(s);
            }
            i += 1;
        }
        Err(Error::DBError { source: String::from_str("no notification endpoint installed") })
    }
}

} // verus!
