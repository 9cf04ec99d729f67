//! The version-erased entry into a dump: the raw directory model a
//! caller hands over, the version dispatcher, and the facade over the
//! concrete reader the dispatcher picked.

use vstd::multiset::Multiset;
use vstd::prelude::*;

use crate::error::{Error, Version};
use crate::index::{task_time_of_line, V1IndexReader};
use crate::json::{parse_u64_field, u64_field_of};
use crate::task::UpdateStatus;
use crate::v1::{
    line_pair, rem_pairs, sorted_tasks, task_in_logs, tasks_from_logs, total_pairs, yielded_pairs,
    KeyMaterial, V1Reader,
};

verus! {

/// One index subdirectory of the dump root, as plain text: `name` is
/// `None` where the directory name was not valid text, the two
/// newline-delimited file bodies are split into their records, and the
/// settings document is kept whole.
pub struct RawIndex {
    pub name: Option<String>,
    pub documents: Vec<String>,
    pub settings: String,
    pub updates: Vec<String>,
}

/// A dump root as plain text: the metadata document (`None` where it
/// was missing or unreadable) and one entry per index subdirectory, in
/// the order the root listed them.
pub struct RawDump {
    pub metadata: Option<String>,
    pub indexes: Vec<RawIndex>,
}

/// An index subdirectory that `open` accepts: a text-decodable name,
/// and a first task record that parses (the cursor buffers it eagerly).
pub open spec fn raw_index_ok(r: RawIndex) -> bool {
    &&& r.name is Some
    &&& (r.updates@.len() > 0 ==> task_time_of_line(r.updates@[0]@) is Some)
}

/// The failure an unacceptable index subdirectory produces.
pub open spec fn raw_index_err(r: RawIndex) -> Error {
    if r.name is None {
        Error::BadIndexName
    } else {
        Error::ParseError { index: r.name->Some_0, line: 0 }
    }
}

/// Every task record of this index parses.
pub open spec fn raw_log_ok(r: RawIndex) -> bool {
    forall|j: int|
        0 <= j < r.updates@.len() ==> #[trigger] task_time_of_line(r.updates@[j]@) is Some
}

/// Every task record of every index parses.
pub open spec fn raw_logs_ok(raws: Seq<RawIndex>) -> bool {
    forall|i: int| 0 <= i < raws.len() ==> raw_log_ok(#[trigger] raws[i])
}

/// This index's task log is ascending by enqueue time wherever it
/// parses.
pub open spec fn raw_log_sorted(r: RawIndex) -> bool {
    forall|i: int, j: int|
        0 <= i <= j < r.updates@.len() && #[trigger] task_time_of_line(r.updates@[i]@) is Some
            && #[trigger] task_time_of_line(r.updates@[j]@) is Some ==> task_time_of_line(
            r.updates@[i]@,
        )->Some_0 <= task_time_of_line(r.updates@[j]@)->Some_0
}

/// Every index's task log is individually ascending.
pub open spec fn raw_logs_sorted(raws: Seq<RawIndex>) -> bool {
    forall|i: int| 0 <= i < raws.len() ==> raw_log_sorted(#[trigger] raws[i])
}

/// `t` is a record of one of the raw logs, at its own enqueue time.
pub open spec fn task_in_raw_logs(t: UpdateStatus, raws: Seq<RawIndex>) -> bool {
    exists|i: int, p: int|
        0 <= i < raws.len() && 0 <= p < raws[i].updates@.len() && t.raw@
            == #[trigger] raws[i].updates@[p]@ && task_time_of_line(raws[i].updates@[p]@)
            == Some(t.enqueued_at)
}

/// Every task of `v` is a record of one of the raw logs, at its own
/// enqueue time: nothing is yielded that was not on disk.
pub open spec fn tasks_from_raw_logs(v: Seq<UpdateStatus>, raws: Seq<RawIndex>) -> bool {
    forall|j: int| 0 <= j < v.len() ==> task_in_raw_logs(#[trigger] v[j], raws)
}

/// The records of one raw log, as yieldable pairs in log order: each
/// record's enqueue time beside its exact line.
pub open spec fn raw_pairs(r: RawIndex) -> Seq<(u64, Seq<char>)> {
    Seq::new(r.updates@.len(), |p: int| line_pair(r.updates@, p))
}

/// All records of all raw logs, as one multiset.
pub open spec fn raw_total_pairs(raws: Seq<RawIndex>) -> Multiset<(u64, Seq<char>)>
    decreases raws.len(),
{
    if raws.len() == 0 {
        Multiset::empty()
    } else {
        raw_pairs(raws[0]).to_multiset().add(raw_total_pairs(raws.drop_first()))
    }
}

/// Task records over all indexes.
pub open spec fn raw_total(raws: Seq<RawIndex>) -> int
    decreases raws.len(),
{
    if raws.len() == 0 {
        0
    } else {
        raws[0].updates@.len() + raw_total(raws.drop_first())
    }
}

/// The reader `v` is the faithful opening of the raw subdirectories
/// `raws`: same indexes in the same order, every source kept whole, and
/// each task cursor eagerly holding its log's first record.
pub open spec fn opened_from(v: V1Reader, raws: Seq<RawIndex>) -> bool {
    &&& v.indexes@.len() == raws.len()
    &&& forall|i: int|
        0 <= i < raws.len() ==> {
            &&& (#[trigger] v.indexes@[i]).wf()
            &&& !v.indexes@[i].failed
            &&& v.indexes@[i].doc_pos == 0
            &&& v.indexes@[i].name == raws[i].name->Some_0
            &&& v.indexes@[i].documents == raws[i].documents
            &&& v.indexes@[i].settings == raws[i].settings
            &&& v.indexes@[i].updates == raws[i].updates
            &&& (v.indexes@[i].current_update is Some <==> raws[i].updates@.len() > 0)
            &&& v.indexes@[i].pos == (if raws[i].updates@.len() > 0 {
                1int
            } else {
                0int
            })
        }
}

/// The format revision named by the metadata document, if the document
/// exists and is a well-formed metadata object at all.
pub open spec fn metadata_version(m: Option<String>) -> Option<u64> {
    match m {
        Some(s) => u64_field_of(s@, "format_version"@),
        None => None,
    }
}

impl V1Reader {
    /// Builds the reader over the given index subdirectories, walking
    /// them in discovery order; aborts on the first unacceptable one —
    /// a non-text-decodable name or a malformed first task record — so
    /// that no partially usable reader escapes.
    pub fn open(raws: Vec<RawIndex>) -> (r: Result<V1Reader, Error>)
        ensures
            r is Ok <==> (forall|i: int|
                0 <= i < raws@.len() ==> raw_index_ok(#[trigger] raws@[i])),
            r matches Ok(v) ==> v.wf() && opened_from(v, raws@),
            r matches Err(e) ==> exists|k: int|
                {
                    &&& 0 <= k < raws@.len()
                    &&& !raw_index_ok(#[trigger] raws@[k])
                    &&& forall|j: int| 0 <= j < k ==> raw_index_ok(#[trigger] raws@[j])
                    &&& e == raw_index_err(raws@[k])
                },
    {
        let ghost orig = raws@;
        let mut rest = raws;
        let mut indexes: Vec<V1IndexReader> = Vec::new();
        while rest.len() > 0
            invariant
                raws@ == orig,
                indexes@.len() + rest@.len() == orig.len(),
                rest@ =~= orig.subrange(indexes@.len() as int, orig.len() as int),
                forall|j: int| 0 <= j < indexes@.len() ==> raw_index_ok(#[trigger] orig[j]),
                forall|i: int|
                    0 <= i < indexes@.len() ==> {
                        &&& (#[trigger] indexes@[i]).wf()
                        &&& !indexes@[i].failed
                        &&& indexes@[i].doc_pos == 0
                        &&& indexes@[i].name == orig[i].name->Some_0
                        &&& indexes@[i].documents == orig[i].documents
                        &&& indexes@[i].settings == orig[i].settings
                        &&& indexes@[i].updates == orig[i].updates
                        &&& (indexes@[i].current_update is Some <==> orig[i].updates@.len() > 0)
                        &&& indexes@[i].pos == (if orig[i].updates@.len() > 0 {
                            1int
                        } else {
                            0int
                        })
                    },
            decreases rest@.len(),
        {
            let ghost n = indexes@.len() as int;
            let raw = rest.remove(0);
            proof {
                assert(raw == orig[n]);
                assert(rest@ =~= orig.subrange(n + 1, orig.len() as int));
            }
            match raw.name {
                None => {
                    proof {
                        assert(!raw_index_ok(raws@[n]));
                        assert(raw_index_err(raws@[n]) == Error::BadIndexName);
                    }
                    return Err(Error::BadIndexName);
                },
                Some(nm) => {
                    match V1IndexReader::new(nm, raw.documents, raw.settings, raw.updates) {
                        Ok(idx) => {
                            indexes.push(idx);
                        },
                        Err(e) => {
                            proof {
                                assert(!raw_index_ok(raws@[n]));
                                assert(raw_index_err(raws@[n]) == e);
                            }
                            return Err(e);
                        },
                    }
                },
            }
        }
        Ok(V1Reader { indexes })
    }
}

/// The version dispatcher: reads the metadata document's format
/// discriminant and constructs the matching concrete reader. A missing
/// or malformed metadata document is `CorruptMetadata`; a discriminant
/// this crate does not know is `UnsupportedVersion`.
pub fn open_dump(raw: RawDump) -> (r: Result<DumpReader, Error>)
    ensures
        metadata_version(raw.metadata) is None ==> r == Err::<DumpReader, Error>(
            Error::CorruptMetadata,
        ),
        (metadata_version(raw.metadata) matches Some(v) && v != 1) ==> r == Err::<
            DumpReader,
            Error,
        >(Error::UnsupportedVersion),
        metadata_version(raw.metadata) == Some(1u64) ==> match r {
            Ok(d) => {
                &&& d matches DumpReader::V1(v1)
                &&& v1.wf()
                &&& opened_from(v1, raw.indexes@)
                &&& forall|i: int|
                    0 <= i < raw.indexes@.len() ==> raw_index_ok(#[trigger] raw.indexes@[i])
            },
            Err(e) => exists|k: int|
                {
                    &&& 0 <= k < raw.indexes@.len()
                    &&& !raw_index_ok(#[trigger] raw.indexes@[k])
                    &&& forall|j: int| 0 <= j < k ==> raw_index_ok(#[trigger] raw.indexes@[j])
                    &&& e == raw_index_err(raw.indexes@[k])
                },
        },
{
    match raw.metadata {
        None => Err(Error::CorruptMetadata),
        Some(m) => {
            match parse_u64_field(m.as_str(), "format_version") {
                None => Err(Error::CorruptMetadata),
                Some(v) => {
                    if v == 1 {
                        match V1Reader::open(raw.indexes) {
                            Ok(v1) => Ok(DumpReader::V1(v1)),
                            Err(e) => Err(e),
                        }
                    } else {
                        Err(Error::UnsupportedVersion)
                    }
                },
            }
        },
    }
}

/// A freshly opened reader has exactly the on-disk record counts
/// outstanding.
proof fn lemma_opened_total(v_idx: Seq<V1IndexReader>, raws: Seq<RawIndex>)
    requires
        v_idx.len() == raws.len(),
        forall|i: int|
            0 <= i < raws.len() ==> (#[trigger] v_idx[i]).rem() == raws[i].updates@.len(),
    ensures
        V1Reader::total_rem(v_idx) == raw_total(raws),
    decreases raws.len(),
{
    if raws.len() > 0 {
        lemma_opened_total(v_idx.drop_first(), raws.drop_first());
    }
}

/// A freshly opened reader's outstanding records are exactly the raw
/// logs' records.
proof fn lemma_opened_pairs(v_idx: Seq<V1IndexReader>, raws: Seq<RawIndex>)
    requires
        v_idx.len() == raws.len(),
        forall|i: int| 0 <= i < raws.len() ==> rem_pairs(#[trigger] v_idx[i]) == raw_pairs(raws[i]),
    ensures
        total_pairs(v_idx) == raw_total_pairs(raws),
    decreases raws.len(),
{
    if raws.len() > 0 {
        lemma_opened_pairs(v_idx.drop_first(), raws.drop_first());
    }
}

/// With every task log empty the merged stream is empty — while, by
/// `opened_from`, the opened reader still keeps one index reader per
/// subdirectory.
pub proof fn lemma_empty_logs_empty_stream(raws: Seq<RawIndex>)
    requires
        forall|i: int| 0 <= i < raws.len() ==> (#[trigger] raws[i]).updates@.len() == 0,
    ensures
        raw_total(raws) == 0,
    decreases raws.len(),
{
    if raws.len() > 0 {
        lemma_empty_logs_empty_stream(raws.drop_first());
    }
}

/// Opens a dump and drains its merged task stream in one call: exactly
/// the records the logs hold, each yielded once, ascending by enqueue
/// time wherever the on-disk logs were themselves ascending — or the
/// first failure the dump presents: corrupt or unsupported metadata, an
/// unacceptable index subdirectory, or a malformed task record.
pub fn read_tasks(raw: RawDump) -> (r: Result<Vec<UpdateStatus>, Error>)
    ensures
        metadata_version(raw.metadata) is None ==> r == Err::<Vec<UpdateStatus>, Error>(
            Error::CorruptMetadata,
        ),
        (metadata_version(raw.metadata) matches Some(v) && v != 1) ==> r == Err::<
            Vec<UpdateStatus>,
            Error,
        >(Error::UnsupportedVersion),
        (metadata_version(raw.metadata) == Some(1u64) && (forall|i: int|
            0 <= i < raw.indexes@.len() ==> raw_index_ok(#[trigger] raw.indexes@[i]))) ==> {
            &&& (r is Ok <==> raw_logs_ok(raw.indexes@))
            &&& (r matches Ok(v) ==> v@.len() == raw_total(raw.indexes@) && tasks_from_raw_logs(
                v@,
                raw.indexes@,
            ) && yielded_pairs(v@).to_multiset() == raw_total_pairs(raw.indexes@) && (
            raw_logs_sorted(raw.indexes@) ==> sorted_tasks(v@)))
            &&& (r matches Err(e) ==> e is ParseError)
        },
        (metadata_version(raw.metadata) == Some(1u64) && !(forall|i: int|
            0 <= i < raw.indexes@.len() ==> raw_index_ok(#[trigger] raw.indexes@[i]))) ==> (r
            matches Err(e) && exists|k: int|
            {
                &&& 0 <= k < raw.indexes@.len()
                &&& !raw_index_ok(#[trigger] raw.indexes@[k])
                &&& forall|j: int| 0 <= j < k ==> raw_index_ok(#[trigger] raw.indexes@[j])
                &&& e == raw_index_err(raw.indexes@[k])
            }),
{
    let ghost raws = raw.indexes@;
    match open_dump(raw) {
        Err(e) => Err(e),
        Ok(mut d) => {
            proof {
                let v = d.v1();
                assert(opened_from(v, raws));
                assert forall|i: int| 0 <= i < raws.len() implies (
                #[trigger] v.indexes@[i]).rem() == raws[i].updates@.len() by {
                    assert(v.indexes@[i].wf());
                }
                lemma_opened_total(v.indexes@, raws);
                assert forall|i: int| 0 <= i < raws.len() implies rem_pairs(
                    #[trigger] v.indexes@[i],
                ) == raw_pairs(raws[i]) by {
                    let idx = v.indexes@[i];
                    assert(idx.wf());
                    if idx.current_update is Some {
                        assert(idx.buffered_matches(idx.current_update->Some_0));
                    }
                    assert forall|p: int| 0 <= p < rem_pairs(idx).len() implies rem_pairs(idx)[p]
                        == raw_pairs(raws[i])[p] by {}
                    assert(rem_pairs(idx) =~= raw_pairs(raws[i]));
                }
                lemma_opened_pairs(v.indexes@, raws);
                if raw_logs_ok(raws) {
                    assert forall|i: int| 0 <= i < v.indexes@.len() implies (
                    #[trigger] v.indexes@[i]).log_all_ok() by {
                        assert(raw_log_ok(raws[i]));
                        assert(v.indexes@[i].updates == raws[i].updates);
                    }
                }
                if v.all_logs_ok() {
                    assert forall|i: int| 0 <= i < raws.len() implies raw_log_ok(
                        #[trigger] raws[i],
                    ) by {
                        assert(v.indexes@[i].log_all_ok());
                        assert(v.indexes@[i].updates == raws[i].updates);
                    }
                }
                if raw_logs_sorted(raws) {
                    assert forall|i: int| 0 <= i < v.indexes@.len() implies (
                    #[trigger] v.indexes@[i]).log_sorted() by {
                        assert(raw_log_sorted(raws[i]));
                        assert(v.indexes@[i].updates == raws[i].updates);
                    }
                }
            }
            let ghost opened = d.v1();
            let r = d.tasks();
            proof {
                if r is Ok {
                    let v = r->Ok_0;
                    assert forall|j: int| 0 <= j < v@.len() implies task_in_raw_logs(
                        #[trigger] v@[j],
                        raws,
                    ) by {
                        assert(task_in_logs(v@[j], opened.indexes@));
                        let (i, p) = choose|i: int, p: int|
                            0 <= i < opened.indexes@.len() && 0 <= p
                                < opened.indexes@[i].updates@.len() && v@[j].raw@
                                == opened.indexes@[i].updates@[p]@ && task_time_of_line(
                                opened.indexes@[i].updates@[p]@,
                            ) == Some(v@[j].enqueued_at);
                        assert(opened.indexes@[i].updates == raws[i].updates);
                        assert(v@[j].raw@ == raws[i].updates@[p]@ && task_time_of_line(
                            raws[i].updates@[p]@,
                        ) == Some(v@[j].enqueued_at));
                    }
                }
            }
            r
        },
    }
}

/// The version-erased reader the dispatcher hands out: one variant per
/// format revision this crate knows.
pub enum DumpReader {
    V1(V1Reader),
}

impl DumpReader {
    /// The concrete reader behind the facade.
    pub open spec fn v1(self) -> V1Reader {
        match self {
            DumpReader::V1(v) => v,
        }
    }

    /// The facade is well formed when its concrete reader is.
    pub open spec fn wf(self) -> bool {
        self.v1().wf()
    }

    /// The format discriminant of the reader actually constructed.
    pub fn version(&self) -> (r: Version)
        ensures
            r == Version::V1,
    {
        match self {
            DumpReader::V1(v) => v.version(),
        }
    }

    /// The dump's creation timestamp, where the format records one; the
    /// first revision never does.
    pub fn date(&self) -> (r: Option<i64>)
        ensures
            r is None,
    {
        match self {
            DumpReader::V1(v) => v.date(),
        }
    }

    /// The per-index readers, in discovery order.
    pub fn indexes(&self) -> (r: &Vec<V1IndexReader>)
        ensures
            r == &self.v1().indexes,
    {
        match self {
            DumpReader::V1(v) => v.indexes(),
        }
    }

    /// Drains the merged task stream; see `V1Reader::tasks`.
    pub fn tasks(&mut self) -> (r: Result<Vec<UpdateStatus>, Error>)
        requires
            old(self).wf(),
        ensures
            final(self).wf(),
            final(self).v1().indexes@.len() == old(self).v1().indexes@.len(),
            forall|i: int|
                0 <= i < old(self).v1().indexes@.len()
                    ==> (#[trigger] final(self).v1().indexes@[i]).same_data(
                    old(self).v1().indexes@[i],
                ),
            r is Ok <==> old(self).v1().all_logs_ok(),
            r matches Ok(v) ==> {
                &&& v@.len() == V1Reader::total_rem(old(self).v1().indexes@)
                &&& final(self).v1().all_exhausted()
                &&& tasks_from_logs(v@, old(self).v1().indexes@)
                &&& yielded_pairs(v@).to_multiset() == total_pairs(old(self).v1().indexes@)
                &&& (old(self).v1().logs_sorted() ==> sorted_tasks(v@))
            },
            r matches Err(e) ==> e is ParseError,
    {
        match self {
            DumpReader::V1(v) => v.tasks(),
        }
    }

    /// Key material; empty for every revision that predates key export.
    pub fn keys(&self) -> (r: Vec<KeyMaterial>)
        ensures
            r@.len() == 0,
    {
        match self {
            DumpReader::V1(v) => v.keys(),
        }
    }
}

} // verus!
