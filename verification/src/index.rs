//! One index of a dump: its name, its document and settings sources, and
//! a single-buffered cursor over its task log.
//!
//! The cursor is a two-state machine — has-current (one task buffered,
//! read eagerly) or exhausted — so that the merge across indexes can
//! compare candidates without rewinding. A malformed task line moves it
//! into a failed state from which every further advance returns the same
//! `ParseError`.

use vstd::prelude::*;

use crate::error::Error;
use crate::json::{json_of, parse_json, parse_u64_field, u64_field_of};
use crate::task::UpdateStatus;

verus! {

/// The enqueue time a task record line carries, if the line is a
/// well-formed record at all.
pub open spec fn task_time_of_line(l: Seq<char>) -> Option<u64> {
    u64_field_of(l, "enqueued_at"@)
}

/// Reader for one index. `documents` and `updates` hold the lines of the
/// respective newline-delimited logs; `settings` the settings document.
pub struct V1IndexReader {
    pub name: String,
    pub documents: Vec<String>,
    pub settings: String,
    pub updates: Vec<String>,
    /// Task-log lines already read, the buffered one included.
    pub pos: usize,
    /// The buffered task: the state is has-current or exhausted.
    pub current_update: Option<UpdateStatus>,
    /// Set once a malformed task line was met; the cursor then refuses
    /// to advance past it.
    pub failed: bool,
    /// Document lines already yielded by the single-pass document stream.
    pub doc_pos: usize,
}

impl V1IndexReader {
    /// The first `n` task-log lines all parse as task records.
    pub open spec fn prefix_ok(self, n: int) -> bool {
        forall|i: int| 0 <= i < n ==> #[trigger] task_time_of_line(self.updates@[i]@) is Some
    }

    /// The buffered task is exactly the record on line `pos - 1`.
    pub open spec fn buffered_matches(self, t: UpdateStatus) -> bool {
        &&& self.pos >= 1
        &&& task_time_of_line(self.updates@[self.pos - 1]@) == Some(t.enqueued_at)
        &&& t.raw@ == self.updates@[self.pos - 1]@
    }

    /// Task-cursor well-formedness: every read line parsed, and the
    /// buffered task mirrors the last line read.
    pub open spec fn wf(self) -> bool {
        &&& self.pos <= self.updates@.len()
        &&& self.prefix_ok(self.pos as int)
        &&& match self.current_update {
            Some(t) => self.buffered_matches(t),
            None => !self.failed && self.pos == self.updates@.len(),
        }
        &&& self.failed ==> self.pos < self.updates@.len()
            && task_time_of_line(self.updates@[self.pos as int]@) is None
            && self.current_update is Some
    }

    /// Tasks not yet returned by `next_update`, the buffered one included.
    pub open spec fn rem(self) -> int {
        (if self.current_update is Some {
            1int
        } else {
            0int
        }) + self.updates@.len() - self.pos
    }

    /// The enqueue time of the buffered task.
    pub open spec fn cur_time(self) -> Option<u64> {
        match self.current_update {
            Some(t) => Some(t.enqueued_at),
            None => None,
        }
    }

    /// The task log is ascending by enqueue time wherever it parses —
    /// the on-disk invariant the dump writer guarantees.
    pub open spec fn log_sorted(self) -> bool {
        forall|i: int, j: int|
            0 <= i <= j < self.updates@.len()
                && #[trigger] task_time_of_line(self.updates@[i]@) is Some
                && #[trigger] task_time_of_line(self.updates@[j]@) is Some
                ==> task_time_of_line(self.updates@[i]@)->Some_0
                    <= task_time_of_line(self.updates@[j]@)->Some_0
    }

    /// Every line of the task log parses as a task record.
    pub open spec fn log_all_ok(self) -> bool {
        self.prefix_ok(self.updates@.len() as int)
    }

    /// Everything but the task cursor is the same in both readers.
    pub open spec fn same_data(self, other: Self) -> bool {
        &&& self.name == other.name
        &&& self.documents == other.documents
        &&& self.settings == other.settings
        &&& self.updates == other.updates
        &&& self.doc_pos == other.doc_pos
    }

    /// Document lines in `[from, to)` all parse as JSON values.
    pub open spec fn docs_ok_range(self, from: int, to: int) -> bool {
        forall|i: int| from <= i < to ==> #[trigger] json_of(self.documents@[i]@) is Some
    }

    /// Builds the reader and eagerly buffers the first task record, as
    /// the merge step requires. Fails only on a malformed first record.
    pub fn new(name: String, documents: Vec<String>, settings: String, updates: Vec<String>) -> (r:
        Result<Self, Error>)
        ensures
            r is Ok <==> (updates@.len() == 0 || task_time_of_line(updates@[0]@) is Some),
            r matches Ok(idx) ==> {
                &&& idx.wf()
                &&& !idx.failed
                &&& idx.doc_pos == 0
                &&& idx.name == name
                &&& idx.documents == documents
                &&& idx.settings == settings
                &&& idx.updates == updates
                &&& (idx.current_update is Some <==> updates@.len() > 0)
                &&& idx.pos == (if updates@.len() > 0 {
                    1int
                } else {
                    0int
                })
            },
            r matches Err(e) ==> {
                &&& updates@.len() > 0
                &&& task_time_of_line(updates@[0]@) is None
                &&& e == (Error::ParseError { index: name, line: 0 })
            },
    {
        if updates.len() == 0 {
            Ok(
                V1IndexReader {
                    name,
                    documents,
                    settings,
                    updates,
                    pos: 0,
                    current_update: None,
                    failed: false,
                    doc_pos: 0,
                },
            )
        } else {
            match parse_u64_field(updates[0].as_str(), "enqueued_at") {
                Some(time) => {
                    let raw = updates[0].clone();
                    Ok(
                        V1IndexReader {
                            name,
                            documents,
                            settings,
                            updates,
                            pos: 1,
                            current_update: Some(UpdateStatus { enqueued_at: time, raw }),
                            failed: false,
                            doc_pos: 0,
                        },
                    )
                },
                None => Err(Error::ParseError { index: name, line: 0 }),
            }
        }
    }

    /// The index identifier.
    pub fn name(&self) -> (r: &String)
        ensures
            r == &self.name,
    {
        &self.name
    }

    /// The buffered task, without advancing the cursor.
    pub fn peek(&self) -> (r: &Option<UpdateStatus>)
        ensures
            r == &self.current_update,
    {
        &self.current_update
    }

    /// Returns the buffered task and eagerly reads the next record of
    /// the log in its place; `Ok(None)` once the log is exhausted. A
    /// malformed next line leaves the cursor where it stands and yields
    /// a `ParseError` naming this index and the 0-based line.
    pub fn next_update(&mut self) -> (r: Result<Option<UpdateStatus>, Error>)
        requires
            old(self).wf(),
        ensures
            final(self).wf(),
            final(self).same_data(*old(self)),
            r is Err <==> (old(self).current_update is Some && old(self).pos
                < old(self).updates@.len() && task_time_of_line(
                old(self).updates@[old(self).pos as int]@,
            ) is None),
            r matches Ok(opt) ==> opt == old(self).current_update,
            old(self).current_update is None ==> *final(self) == *old(self),
            (r is Ok && old(self).current_update is Some) ==> {
                &&& !final(self).failed
                &&& if old(self).pos < old(self).updates@.len() {
                    &&& final(self).pos == old(self).pos + 1
                    &&& final(self).current_update is Some
                    &&& final(self).cur_time() == task_time_of_line(
                        old(self).updates@[old(self).pos as int]@,
                    )
                } else {
                    &&& final(self).pos == old(self).pos
                    &&& final(self).current_update is None
                }
            },
            r matches Err(e) ==> {
                &&& final(self).pos == old(self).pos
                &&& final(self).current_update == old(self).current_update
                &&& final(self).failed
                &&& e == (Error::ParseError {
                    index: old(self).name,
                    line: old(self).pos as u64,
                })
            },
            r matches Ok(opt) && opt is Some ==> final(self).rem() == old(self).rem() - 1,
    {
        if self.current_update.is_some() {
            if self.pos < self.updates.len() {
                match parse_u64_field(self.updates[self.pos].as_str(), "enqueued_at") {
                    Some(time) => {
                        let raw = self.updates[self.pos].clone();
                        self.pos = self.pos + 1;
                        let prev = self.current_update.take();
                        self.current_update = Some(UpdateStatus { enqueued_at: time, raw });
                        Ok(prev)
                    },
                    None => {
                        self.failed = true;
                        Err(
                            Error::ParseError {
                                index: self.name.clone(),
                                line: self.pos as u64,
                            },
                        )
                    },
                }
            } else {
                let prev = self.current_update.take();
                Ok(prev)
            }
        } else {
            Ok(None)
        }
    }

    /// The index settings, parsed whole; a function of the stored text,
    /// so repeated calls return the identical result.
    pub fn settings(&self) -> (r: Result<serde_json::Value, Error>)
        ensures
            r is Ok <==> json_of(self.settings@) is Some,
            r matches Ok(v) ==> Some(v) == json_of(self.settings@),
            r matches Err(e) ==> e == (Error::ParseError { index: self.name, line: 0 }),
    {
        match parse_json(self.settings.as_str()) {
            Some(v) => Ok(v),
            None => Err(Error::ParseError { index: self.name.clone(), line: 0 }),
        }
    }

    /// One pull of the single-pass document stream: parses and yields
    /// the next unread document line, `Ok(None)` once all are yielded.
    pub fn next_document(&mut self) -> (r: Result<Option<serde_json::Value>, Error>)
        requires
            old(self).doc_pos <= old(self).documents@.len(),
        ensures
            final(self).doc_pos <= final(self).documents@.len(),
            final(self).name == old(self).name,
            final(self).documents == old(self).documents,
            final(self).settings == old(self).settings,
            final(self).updates == old(self).updates,
            final(self).pos == old(self).pos,
            final(self).current_update == old(self).current_update,
            final(self).failed == old(self).failed,
            old(self).doc_pos == old(self).documents@.len() ==> (r matches Ok(o) && o is None
                && *final(self) == *old(self)),
            old(self).doc_pos < old(self).documents@.len() ==> match r {
                Ok(opt) => {
                    &&& opt is Some
                    &&& Some(opt->Some_0) == json_of(
                        old(self).documents@[old(self).doc_pos as int]@,
                    )
                    &&& final(self).doc_pos == old(self).doc_pos + 1
                },
                Err(e) => {
                    &&& json_of(old(self).documents@[old(self).doc_pos as int]@) is None
                    &&& final(self).doc_pos == old(self).doc_pos
                    &&& e == (Error::ParseError {
                        index: old(self).name,
                        line: old(self).doc_pos as u64,
                    })
                },
            },
    {
        if self.doc_pos < self.documents.len() {
            match parse_json(self.documents[self.doc_pos].as_str()) {
                Some(v) => {
                    self.doc_pos = self.doc_pos + 1;
                    Ok(Some(v))
                },
                None => Err(
                    Error::ParseError { index: self.name.clone(), line: self.doc_pos as u64 },
                ),
            }
        } else {
            Ok(None)
        }
    }

    /// Drains the rest of the single-pass document stream: every still
    /// unread line parsed in file order, or the first failure, which
    /// names this index and the offending 0-based line.
    pub fn documents(&mut self) -> (r: Result<Vec<serde_json::Value>, Error>)
        requires
            old(self).doc_pos <= old(self).documents@.len(),
        ensures
            final(self).doc_pos <= final(self).documents@.len(),
            final(self).name == old(self).name,
            final(self).documents == old(self).documents,
            final(self).settings == old(self).settings,
            final(self).updates == old(self).updates,
            final(self).pos == old(self).pos,
            final(self).current_update == old(self).current_update,
            final(self).failed == old(self).failed,
            r is Ok <==> old(self).docs_ok_range(
                old(self).doc_pos as int,
                old(self).documents@.len() as int,
            ),
            r matches Ok(v) ==> {
                &&& final(self).doc_pos == final(self).documents@.len()
                &&& v@.len() == old(self).documents@.len() - old(self).doc_pos
                &&& forall|j: int|
                    0 <= j < v@.len() ==> Some(#[trigger] v@[j]) == json_of(
                        final(self).documents@[old(self).doc_pos + j]@,
                    )
            },
            r matches Err(e) ==> {
                &&& old(self).doc_pos <= final(self).doc_pos < final(self).documents@.len()
                &&& json_of(final(self).documents@[final(self).doc_pos as int]@) is None
                &&& old(self).docs_ok_range(old(self).doc_pos as int, final(self).doc_pos as int)
                &&& e == (Error::ParseError {
                    index: final(self).name,
                    line: final(self).doc_pos as u64,
                })
            },
    {
        let mut out: Vec<serde_json::Value> = Vec::new();
        while self.doc_pos < self.documents.len()
            invariant
                old(self).doc_pos <= self.doc_pos <= self.documents@.len(),
                self.name == old(self).name,
                self.documents == old(self).documents,
                self.settings == old(self).settings,
                self.updates == old(self).updates,
                self.pos == old(self).pos,
                self.current_update == old(self).current_update,
                self.failed == old(self).failed,
                out@.len() == self.doc_pos - old(self).doc_pos,
                old(self).docs_ok_range(old(self).doc_pos as int, self.doc_pos as int),
                forall|j: int|
                    0 <= j < out@.len() ==> Some(#[trigger] out@[j]) == json_of(
                        self.documents@[old(self).doc_pos + j]@,
                    ),
            decreases self.documents@.len() - self.doc_pos,
        {
            match parse_json(self.documents[self.doc_pos].as_str()) {
                Some(v) => {
                    out.push(v);
                    self.doc_pos = self.doc_pos + 1;
                },
                None => {
                    return Err(
                        Error::ParseError { index: self.name.clone(), line: self.doc_pos as u64 },
                    );
                },
            }
        }
        Ok(out)
    }
}

} // verus!
