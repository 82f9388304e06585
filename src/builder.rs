use vstd::prelude::*;

use crate::request::FileRequest;
use crate::zip_io::{
    archive_entries, entries_within_bound, file_mode, finish_archive, new_archive, start_entry,
    write_entry_data, zip_bytes, ArchiveWriter, EntryModel, DEFLATE_METHOD, MAX_ENTRY_LEN,
};

verus! {

/// Unix permissions that every entry is given, whatever the source file's own.
pub const ENTRY_MODE: u32 = 0o755;

/// Why a batch produced no archive.
pub enum BuildError {
    /// The file at `path` could not be opened or read.
    SourceUnreadable { path: String },
    /// Encoding into the archive failed.
    WriteFailure,
}

/// The entries of the archive built from `requests` whose files hold
/// `contents`: one per file, in batch order, under its `arcname`, compressed
/// with Deflate and with the fixed mode `ENTRY_MODE`.
pub open spec fn expected_entries(requests: Seq<FileRequest>, contents: Seq<Seq<u8>>) -> Seq<
    EntryModel,
> {
    Seq::new(
        contents.len(),
        |i: int| (requests[i].arcname@, DEFLATE_METHOD, file_mode(ENTRY_MODE), contents[i]),
    )
}

/// The archive built from `requests` whose files hold `contents`.
pub open spec fn expected_archive(requests: Seq<FileRequest>, contents: Seq<Seq<u8>>) -> Seq<u8> {
    zip_bytes(expected_entries(requests, contents))
}

/// Some file is longer than `MAX_ENTRY_LEN` bytes.
pub open spec fn has_oversized(contents: Seq<Seq<u8>>) -> bool {
    exists|i: int| 0 <= i < contents.len() && (#[trigger] contents[i]).len() > MAX_ENTRY_LEN
}

/// The contents that `reads` gives, one per request; meaningful where every
/// read succeeded.
pub open spec fn contents_of(reads: Seq<Option<Vec<u8>>>) -> Seq<Seq<u8>> {
    Seq::new(reads.len(), |i: int| reads[i]->Some_0@)
}

/// Every file before request `k` could be read.
pub open spec fn readable_before(reads: Seq<Option<Vec<u8>>>, k: int) -> bool {
    forall|j: int| 0 <= j < k ==> (#[trigger] reads[j]) is Some
}

/// Request `k` is the first whose file could not be read.
pub open spec fn first_unreadable(reads: Seq<Option<Vec<u8>>>, k: int) -> bool {
    &&& 0 <= k < reads.len()
    &&& reads[k] is None
    &&& readable_before(reads, k)
}

/// Every file of the batch could be read.
pub open spec fn all_readable(reads: Seq<Option<Vec<u8>>>) -> bool {
    readable_before(reads, reads.len() as int)
}

/// Request `k`'s file was read, as were all before it, and is longer than
/// `MAX_ENTRY_LEN` bytes.
pub open spec fn oversized_read(reads: Seq<Option<Vec<u8>>>, k: int) -> bool {
    &&& 0 <= k < reads.len()
    &&& readable_before(reads, k)
    &&& reads[k] is Some
    &&& reads[k]->Some_0@.len() > MAX_ENTRY_LEN
}

/// `r` is the result of building the batch `requests` whose files read as
/// `reads`: the archive of all the files, only when all of them could be
/// read; the path of the first unreadable one; or a failure to write, only
/// where a file read before that is longer than `MAX_ENTRY_LEN` bytes.
pub open spec fn build_outcome(
    r: Result<Vec<u8>, BuildError>,
    requests: Seq<FileRequest>,
    reads: Seq<Option<Vec<u8>>>,
) -> bool {
    match r {
        Ok(bytes) => all_readable(reads) && bytes@ == expected_archive(
            requests,
            contents_of(reads),
        ),
        Err(BuildError::SourceUnreadable { path }) => exists|k: int|
            first_unreadable(reads, k) && path@ == #[trigger] requests[k].path@,
        Err(BuildError::WriteFailure) => exists|k: int| oversized_read(reads, k),
    }
}

/// `r` ends a batch whose files were all read, as `contents`: with their
/// archive, or with a write failure where one of them is too long.
pub open spec fn ends_complete(
    r: Result<Vec<u8>, BuildError>,
    requests: Seq<FileRequest>,
    contents: Seq<Seq<u8>>,
) -> bool {
    match r {
        Ok(bytes) => bytes@ == expected_archive(requests, contents),
        Err(e) => e is WriteFailure && has_oversized(contents),
    }
}

/// A batch being built: the requests, how many of them are in the archive,
/// and the archive so far.
pub struct ArchiveBuild {
    batch: Vec<FileRequest>,
    next: usize,
    writer: ArchiveWriter,
    written: Ghost<Seq<Seq<u8>>>,
}

/// Where a build stands after a step.
pub enum Step {
    /// The request that `pending` returns is to be read next.
    Pending(ArchiveBuild),
    /// The build is over, with the archive or the reason there is none.
    Finished(Result<Vec<u8>, BuildError>),
}

proof fn lemma_within_bound(requests: Seq<FileRequest>, contents: Seq<Seq<u8>>)
    requires
        requests.len() >= contents.len(),
        !has_oversized(contents),
    ensures
        entries_within_bound(expected_entries(requests, contents)),
{
    let es = expected_entries(requests, contents);
    assert forall|i: int| 0 <= i < es.len() implies (#[trigger] es[i]).3.len() <= MAX_ENTRY_LEN by {
        assert(es[i].3 == contents[i]);
    }
}

/// Finishes a writer that holds every file of the batch.
fn complete(
    writer: ArchiveWriter,
    Ghost(requests): Ghost<Seq<FileRequest>>,
    Ghost(contents): Ghost<Seq<Seq<u8>>>,
) -> (r: Result<Vec<u8>, BuildError>)
    requires
        requests.len() >= contents.len(),
        archive_entries(writer) == expected_entries(requests, contents),
    ensures
        ends_complete(r, requests, contents),
{
    proof {
        if !has_oversized(contents) {
            lemma_within_bound(requests, contents);
        }
    }
    match finish_archive(writer) {
        Ok(bytes) => Ok(bytes),
        Err(_) => Err(BuildError::WriteFailure),
    }
}

impl ArchiveBuild {
    /// The batch being built.
    pub closed spec fn requests(&self) -> Seq<FileRequest> {
        self.batch@
    }

    /// The contents of the files already in the archive, in batch order.
    pub closed spec fn contents(&self) -> Seq<Seq<u8>> {
        self.written@
    }

    /// The build waits for the contents of request `contents().len()`, and
    /// the archive so far holds exactly the files before it.
    pub closed spec fn is_pending(&self) -> bool {
        &&& self.next < self.batch@.len()
        &&& self.written@.len() == self.next
        &&& archive_entries(self.writer) == expected_entries(self.batch@, self.written@)
    }

    /// Starts building `batch`. An empty batch is finished at once, with an
    /// archive of no entry.
    pub fn start(batch: Vec<FileRequest>) -> (r: Step)
        ensures
            batch@.len() == 0 ==> (r matches Step::Finished(Ok(bytes)) && bytes@ == zip_bytes(
                Seq::empty(),
            )),
            batch@.len() > 0 ==> r is Pending && r->Pending_0.is_pending()
                && r->Pending_0.requests() == batch@ && r->Pending_0.contents() == Seq::<
                Seq<u8>,
            >::empty(),
    {
        let writer = new_archive();
        if batch.len() == 0 {
            assert(expected_entries(batch@, Seq::empty()) =~= Seq::empty());
            assert(!has_oversized(Seq::<Seq<u8>>::empty()));
            Step::Finished(complete(writer, Ghost(batch@), Ghost(Seq::empty())))
        } else {
            let b = ArchiveBuild { batch, next: 0, writer, written: Ghost(Seq::empty()) };
            assert(expected_entries(b.batch@, Seq::empty()) =~= Seq::empty());
            Step::Pending(b)
        }
    }

    /// The request whose file is to be read next.
    pub fn pending(&self) -> (r: &FileRequest)
        requires
            self.is_pending(),
        ensures
            *r == self.requests()[self.contents().len() as int],
    {
        &self.batch[self.next]
    }

    /// Takes what reading the pending request's file gave: its contents, or
    /// `None` where it could not be opened or read. An unreadable file ends
    /// the build with its path; a readable one becomes the next entry, under
    /// the request's `arcname`, and the build is finished after the last one.
    /// Only a file longer than `MAX_ENTRY_LEN` bytes can make it fail to write.
    pub fn supply(self, read: Option<Vec<u8>>) -> (r: Step)
        requires
            self.is_pending(),
        ensures
            read is None ==> (r matches Step::Finished(Err(BuildError::SourceUnreadable { path }))
                && path@ == self.requests()[self.contents().len() as int].path@),
            read is Some ==> match r {
                Step::Pending(b) => self.contents().len() + 1 < self.requests().len()
                    && b.is_pending() && b.requests() == self.requests() && b.contents()
                    == self.contents().push(read->Some_0@),
                Step::Finished(res) => self.contents().len() + 1 == self.requests().len()
                    && ends_complete(res, self.requests(), self.contents().push(read->Some_0@))
                    || (res matches Err(BuildError::WriteFailure) && has_oversized(
                    self.contents().push(read->Some_0@),
                )),
            },
    {
        let mut this = self;
        let i = this.next;
        let n = this.batch.len();
        match read {
            None => {
                let path = this.batch[i].path.clone();
                Step::Finished(Err(BuildError::SourceUnreadable { path }))
            },
            Some(data) => {
                let ghost contents = this.written@.push(data@);
                proof {
                    if !has_oversized(contents) {
                        assert forall|j: int| 0 <= j < this.written@.len() implies (
                        #[trigger] this.written@[j]).len() <= MAX_ENTRY_LEN by {
                            assert(contents[j] == this.written@[j]);
                        }
                        assert(!has_oversized(this.written@));
                        lemma_within_bound(this.batch@, this.written@);
                        assert(contents[contents.len() - 1] == data@);
                    }
                }
                let started = start_entry(&mut this.writer, this.batch[i].arcname.as_str(), ENTRY_MODE);
                if started.is_err() {
                    return Step::Finished(Err(BuildError::WriteFailure));
                }
                proof {
                    if !has_oversized(contents) {
                        let es = archive_entries(this.writer);
                        assert forall|j: int| 0 <= j < es.len() implies (#[trigger] es[j]).3.len()
                            <= MAX_ENTRY_LEN by {
                            if j < i {
                                assert(es[j].3 == contents[j]);
                            }
                        }
                    }
                }
                let wrote = write_entry_data(&mut this.writer, data.as_slice());
                if wrote.is_err() {
                    return Step::Finished(Err(BuildError::WriteFailure));
                }
                assert(archive_entries(this.writer) =~= expected_entries(this.batch@, contents));
                this.next = i + 1;
                this.written = Ghost(contents);
                if this.next < n {
                    Step::Pending(this)
                } else {
                    Step::Finished(complete(this.writer, Ghost(this.batch@), Ghost(contents)))
                }
            },
        }
    }
}

/// A file that is too long among the first `i + 1`, all read, is an
/// oversized read of the batch.
proof fn lemma_oversized_found(reads: Seq<Option<Vec<u8>>>, i: int)
    requires
        0 <= i < reads.len(),
        readable_before(reads, i + 1),
        has_oversized(contents_of(reads.take(i + 1))),
    ensures
        exists|k: int| oversized_read(reads, k),
{
    let c = contents_of(reads.take(i + 1));
    let m = choose|m: int| 0 <= m < c.len() && (#[trigger] c[m]).len() > MAX_ENTRY_LEN;
    assert(reads[m] is Some);
    assert(c[m] == reads[m]->Some_0@);
    assert(oversized_read(reads, m));
}

/// Builds the archive of `batch`, where `reads[i]` is what reading the file
/// of `batch[i]` gave. The files go in in batch order; the first unreadable
/// one ends the build, and no archive is returned but a complete one.
pub fn build_archive(batch: Vec<FileRequest>, reads: Vec<Option<Vec<u8>>>) -> (r: Result<
    Vec<u8>,
    BuildError,
>)
    requires
        reads@.len() == batch@.len(),
    ensures
        build_outcome(r, batch@, reads@),
{
    let ghost requests = batch@;
    let ghost given = reads@;
    let n = reads.len();
    let mut left = reads;
    let mut step = ArchiveBuild::start(batch);
    let mut i: usize = 0;
    if n == 0 {
        assert(expected_entries(requests, contents_of(given)) =~= Seq::empty());
    }
    loop
        invariant
            n == given.len(),
            given == reads@,
            requests == batch@,
            n == requests.len(),
            left@.len() == n,
            i <= n,
            forall|j: int| i <= j < n ==> left@[j] == given[j],
            step is Finished ==> build_outcome(step->Finished_0, requests, given),
            step is Pending ==> i < n && readable_before(given, i as int)
                && step->Pending_0.is_pending() && step->Pending_0.requests() == requests
                && step->Pending_0.contents() == contents_of(given.take(i as int)),
        decreases n - i,
    {
        match step {
            Step::Finished(r) => {
                return r;
            },
            Step::Pending(b) => {
                let mut item: Option<Vec<u8>> = None;
                left.set_and_swap(i, &mut item);
                let ghost before = b.contents();
                step = b.supply(item);
                proof {
                    if item is Some {
                        assert(contents_of(given.take(i + 1)) =~= before.push(item->Some_0@));
                        assert(readable_before(given, i + 1));
                        if step is Finished {
                            if step->Finished_0 is Err {
                                lemma_oversized_found(given, i as int);
                            } else {
                                assert(given.take(i + 1) =~= given);
                            }
                        }
                    } else {
                        assert(first_unreadable(given, i as int));
                    }
                }
                i = i + 1;
            },
        }
    }
}

/// Every file could be read and none is longer than `MAX_ENTRY_LEN` bytes.
pub open spec fn readable_within_bound(reads: Seq<Option<Vec<u8>>>) -> bool {
    all_readable(reads) && !has_oversized(contents_of(reads))
}

/// A batch whose files all read, each within `MAX_ENTRY_LEN` bytes, is built.
proof fn lemma_readable_batch_builds(
    batch: Seq<FileRequest>,
    reads: Seq<Option<Vec<u8>>>,
    r: Result<Vec<u8>, BuildError>,
)
    requires
        readable_within_bound(reads),
        build_outcome(r, batch, reads),
    ensures
        r is Ok,
        r->Ok_0@ == expected_archive(batch, contents_of(reads)),
{
    if let Err(BuildError::SourceUnreadable { path }) = r {
        let k = choose|k: int| first_unreadable(reads, k) && path@ == #[trigger] batch[k].path@;
        assert(reads[k] is Some);
    }
    if let Err(BuildError::WriteFailure) = r {
        let k = choose|k: int| oversized_read(reads, k);
        assert(contents_of(reads)[k] == reads[k]->Some_0@);
    }
}

/// When every file of a batch can be read, each within `MAX_ENTRY_LEN`
/// bytes, the build returns an archive, and it holds exactly one entry per
/// request, named by the request's `arcname`, in batch order.
pub proof fn lemma_entries_follow_batch(
    batch: Seq<FileRequest>,
    reads: Seq<Option<Vec<u8>>>,
    r: Result<Vec<u8>, BuildError>,
)
    requires
        reads.len() == batch.len(),
        readable_within_bound(reads),
        build_outcome(r, batch, reads),
    ensures
        r is Ok,
        r->Ok_0@ == zip_bytes(expected_entries(batch, contents_of(reads))),
        expected_entries(batch, contents_of(reads)).len() == batch.len(),
        forall|i: int|
            0 <= i < batch.len() ==> (#[trigger] expected_entries(batch, contents_of(reads))[i]).0
                == batch[i].arcname@,
{
    lemma_readable_batch_builds(batch, reads, r);
}

/// When every file of a batch can be read, each within `MAX_ENTRY_LEN`
/// bytes, each entry of the archive holds exactly the bytes of its request's
/// file, compressed with Deflate and with the fixed mode `ENTRY_MODE`.
pub proof fn lemma_entries_hold_file_contents(
    batch: Seq<FileRequest>,
    reads: Seq<Option<Vec<u8>>>,
    r: Result<Vec<u8>, BuildError>,
)
    requires
        reads.len() == batch.len(),
        readable_within_bound(reads),
        build_outcome(r, batch, reads),
    ensures
        r is Ok,
        r->Ok_0@ == zip_bytes(expected_entries(batch, contents_of(reads))),
        forall|i: int|
            0 <= i < reads.len() ==> {
                let e = #[trigger] expected_entries(batch, contents_of(reads))[i];
                &&& e.3 == reads[i]->Some_0@
                &&& e.1 == DEFLATE_METHOD
                &&& e.2 == file_mode(ENTRY_MODE)
            },
{
    lemma_readable_batch_builds(batch, reads, r);
}

/// When any file of a batch cannot be read, the build returns no archive at
/// all; when the files before the first unreadable one are each within
/// `MAX_ENTRY_LEN` bytes, it names that file's path.
pub proof fn lemma_unreadable_file_gives_no_archive(
    batch: Seq<FileRequest>,
    reads: Seq<Option<Vec<u8>>>,
    r: Result<Vec<u8>, BuildError>,
    k: int,
)
    requires
        reads.len() == batch.len(),
        0 <= k < reads.len(),
        reads[k] is None,
        build_outcome(r, batch, reads),
    ensures
        r is Err,
        first_unreadable(reads, k) && (forall|j: int|
            0 <= j < k ==> (#[trigger] reads[j])->Some_0@.len() <= MAX_ENTRY_LEN) ==> (r matches Err(
            BuildError::SourceUnreadable { path },
        ) && path@ == batch[k].path@),
{
    if let Err(BuildError::SourceUnreadable { path }) = r {
        let j = choose|j: int| first_unreadable(reads, j) && path@ == #[trigger] batch[j].path@;
        if first_unreadable(reads, k) {
            assert(j == k);
        }
    }
    if let Err(BuildError::WriteFailure) = r {
        let j = choose|j: int| oversized_read(reads, j);
        assert(j < k);
    }
}

/// Two builds of one batch whose files read alike give the same archive;
/// when every file reads within `MAX_ENTRY_LEN` bytes, both give it.
pub proof fn lemma_identical_builds_agree(
    batch: Seq<FileRequest>,
    reads: Seq<Option<Vec<u8>>>,
    r1: Result<Vec<u8>, BuildError>,
    r2: Result<Vec<u8>, BuildError>,
)
    requires
        reads.len() == batch.len(),
        build_outcome(r1, batch, reads),
        build_outcome(r2, batch, reads),
    ensures
        r1 is Ok && r2 is Ok ==> r1->Ok_0@ == r2->Ok_0@,
        readable_within_bound(reads) ==> r1 is Ok && r2 is Ok && r1->Ok_0@ == expected_archive(
            batch,
            contents_of(reads),
        ) && r2->Ok_0@ == r1->Ok_0@,
{
    if readable_within_bound(reads) {
        lemma_readable_batch_builds(batch, reads, r1);
        lemma_readable_batch_builds(batch, reads, r2);
    }
}

} // verus!
