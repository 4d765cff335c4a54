//! The per-file processing decisions.
//!
//! A file is first routed: already-processed files are skipped, videos go
//! through audio extraction, plain audio is transcribed directly, anything
//! else is unsupported.  Short audio takes a single pass; long audio is
//! divided into parts, and a multi-part session walks the pending parts in
//! ascending order, checkpointing each into the processing record, so that a
//! resumed run re-dispatches only what is still pending.

use vstd::prelude::*;
use vstd::string::StringExecFns;
use crate::file_utils::eq_ignore_ascii_case;
use crate::file_utils::get_file_extension;
use crate::file_utils::spec_ascii_lower;
use crate::file_utils::spec_extension;
use crate::records::has_record;
use crate::records::has_record_key;
use crate::records::has_stat;
use crate::records::strictly_increasing;
use crate::records::PartStat;
use crate::records::ProcessingRecord;
use crate::records::RecordTable;

verus! {

/// Where the processing of one file goes.
#[derive(Clone, Copy, Debug, PartialEq, Eq, Structural)]
pub enum FileRoute {
    /// The file's audio is already in the ledger; skip it.
    AlreadyProcessed,
    /// A video: extract its audio first.
    Video,
    /// An audio file: transcribe it directly.
    Audio,
    /// Not a media file this run handles.
    Unsupported,
}

/// Decides, per file, whether to skip, extract, transcribe or reject, and
/// owns the resume ledger meanwhile.
pub struct FileProcessor {
    pub media_folder: String,
    pub output_folder: String,
    pub temp_segments_dir: String,
    pub process_video: bool,
    pub extract_audio_only: bool,
    pub format_text: bool,
    pub include_timestamps: bool,
    /// Longest part of a multi-part file, in minutes.
    pub max_part_time: u32,
    pub max_retries: u32,
    /// The resume ledger, keyed by canonical audio path.
    pub records: RecordTable,
    pub interrupt_flag: bool,
    /// Video extensions this run takes on; empty unless videos are enabled.
    pub video_extensions: Vec<String>,
}

impl FileProcessor {
    pub open spec fn well_formed(&self) -> bool {
        self.records.well_formed()
    }

    pub fn new(
        media_folder: String,
        output_folder: String,
        temp_segments_dir: String,
        process_video: bool,
        extract_audio_only: bool,
        format_text: bool,
        include_timestamps: bool,
        max_part_time: u32,
        max_retries: u32,
        records: RecordTable,
    ) -> (r: FileProcessor)
        requires
            records.well_formed(),
        ensures
            r.well_formed(),
            r.media_folder == media_folder,
            r.output_folder == output_folder,
            r.temp_segments_dir == temp_segments_dir,
            r.process_video == process_video,
            r.extract_audio_only == extract_audio_only,
            r.format_text == format_text,
            r.include_timestamps == include_timestamps,
            r.max_part_time == max_part_time,
            r.max_retries == max_retries,
            r.records == records,
            !r.interrupt_flag,
            process_video ==> r.video_extensions@.len() == 3 && r.video_extensions@[0]@ == "mp4"@
                && r.video_extensions@[1]@ == "mov"@ && r.video_extensions@[2]@ == "avi"@,
            !process_video ==> r.video_extensions@.len() == 0,
    {
        let mut video_extensions: Vec<String> = Vec::new();
        if process_video {
            video_extensions.push("mp4".to_owned());
            video_extensions.push("mov".to_owned());
            video_extensions.push("avi".to_owned());
        }
        FileProcessor {
            media_folder,
            output_folder,
            temp_segments_dir,
            process_video,
            extract_audio_only,
            format_text,
            include_timestamps,
            max_part_time,
            max_retries,
            records,
            interrupt_flag: false,
            video_extensions,
        }
    }

    /// Raises or clears the run-wide interrupt flag.
    pub fn set_interrupt_flag(&mut self, value: bool)
        ensures
            *final(self) == (FileProcessor { interrupt_flag: value, ..*old(self) }),
    {
        self.interrupt_flag = value;
    }

    /// Whether the canonical audio path is already in the resume ledger.
    pub fn is_recognized_file(&self, canonical_audio_path: &String) -> (r: bool)
        ensures
            r == has_record_key(self.records@, canonical_audio_path@),
    {
        self.records.contains_path(canonical_audio_path)
    }

    /// The extension names a video this run takes on.
    pub open spec fn spec_is_video_extension(&self, ext: Seq<char>) -> bool {
        exists|i: int|
            0 <= i < self.video_extensions@.len() && spec_ascii_lower(ext) == spec_ascii_lower(
                self.video_extensions@[i]@,
            )
    }

    /// The route of one file: skipped when its audio is already in the
    /// ledger, else by its extension.
    pub open spec fn spec_route_file(&self, canonical: Seq<char>, filename: Seq<char>) -> FileRoute {
        if has_record_key(self.records@, canonical) {
            FileRoute::AlreadyProcessed
        } else {
            match spec_extension(filename) {
                None => FileRoute::Unsupported,
                Some(ext) => if self.spec_is_video_extension(ext) {
                    FileRoute::Video
                } else if spec_ascii_lower(ext) == spec_ascii_lower("mp3"@) {
                    FileRoute::Audio
                } else {
                    FileRoute::Unsupported
                },
            }
        }
    }

    /// Routes one file by ledger membership and extension.
    #[verifier::loop_isolation(false)]
    pub fn route_file(&self, canonical_audio_path: &String, filename: &String) -> (r: FileRoute)
        ensures
            r == self.spec_route_file(canonical_audio_path@, filename@),
    {
        if self.is_recognized_file(canonical_audio_path) {
            return FileRoute::AlreadyProcessed;
        }
        match get_file_extension(filename.as_str()) {
            None => FileRoute::Unsupported,
            Some(ext) => {
                let mut i: usize = 0;
                while i < self.video_extensions.len()
                    invariant
                        i <= self.video_extensions@.len(),
                        forall|k: int|
                            0 <= k < i ==> spec_ascii_lower(spec_extension(filename@)->Some_0)
                                != spec_ascii_lower(self.video_extensions@[k]@),
                        spec_extension(filename@) == Some(ext@),
                    decreases self.video_extensions@.len() - i,
                {
                    if eq_ignore_ascii_case(ext, self.video_extensions[i].as_str()) {
                        return FileRoute::Video;
                    }
                    i = i + 1;
                }
                if eq_ignore_ascii_case(ext, "mp3") {
                    FileRoute::Audio
                } else {
                    FileRoute::Unsupported
                }
            },
        }
    }

    /// The file name names media this run takes on — an audio file, or a
    /// video when video processing is enabled — regardless of what the
    /// ledger holds.  The directory scan uses this; `route_file` then
    /// decides what to do with each candidate.
    pub open spec fn spec_is_candidate_media(&self, filename: Seq<char>) -> bool {
        match spec_extension(filename) {
            None => false,
            Some(ext) => self.spec_is_video_extension(ext) || spec_ascii_lower(ext)
                == spec_ascii_lower("mp3"@),
        }
    }

    /// Whether the file name carries an extension this run processes.
    #[verifier::loop_isolation(false)]
    pub fn is_candidate_media(&self, filename: &String) -> (r: bool)
        ensures
            r == self.spec_is_candidate_media(filename@),
    {
        match get_file_extension(filename.as_str()) {
            None => false,
            Some(ext) => {
                let mut i: usize = 0;
                while i < self.video_extensions.len()
                    invariant
                        i <= self.video_extensions@.len(),
                        forall|k: int|
                            0 <= k < i ==> spec_ascii_lower(spec_extension(filename@)->Some_0)
                                != spec_ascii_lower(self.video_extensions@[k]@),
                        spec_extension(filename@) == Some(ext@),
                    decreases self.video_extensions@.len() - i,
                {
                    if eq_ignore_ascii_case(ext, self.video_extensions[i].as_str()) {
                        return true;
                    }
                    i = i + 1;
                }
                eq_ignore_ascii_case(ext, "mp3")
            },
        }
    }

    /// Whether a track is long enough for the multi-part path: strictly
    /// longer than the per-part limit.
    pub fn needs_multipart(&self, duration_secs: u64) -> (r: bool)
        ensures
            r == (duration_secs > self.max_part_time as int * 60),
    {
        duration_secs > (self.max_part_time as u64) * 60
    }

    /// Books a single-pass file into the ledger: its record keeps any prior
    /// parts and gets the fresh timestamp; a file not seen before gets a
    /// fresh record.
    pub fn record_file_processed(&mut self, canonical_audio_path: &String, now: String)
        requires
            old(self).well_formed(),
        ensures
            final(self).well_formed(),
            (FileProcessor { records: old(self).records, ..*final(self) }) == *old(self),
            forall|p: Seq<char>, rec: ProcessingRecord|
                p != canonical_audio_path@ ==> (has_record(final(self).records@, p, rec)
                    <==> has_record(old(self).records@, p, rec)),
            forall|rec0: ProcessingRecord|
                has_record(old(self).records@, canonical_audio_path@, rec0) ==> has_record(
                    final(self).records@,
                    canonical_audio_path@,
                    (ProcessingRecord { last_processed_time: now, ..rec0 }),
                ),
            !has_record_key(old(self).records@, canonical_audio_path@) ==> (exists|
                rec: ProcessingRecord,
            |
                has_record(final(self).records@, canonical_audio_path@, rec)
                    && rec.last_processed_time == now && rec.total_parts == 0 && !rec.completed
                    && rec.processed_parts@.len() == 0),
    {
        let ghost old_table = self.records@;
        let prior = self.records.take(canonical_audio_path);
        let ghost taken = prior;
        let record = match prior {
            Some(mut rec) => {
                rec.last_processed_time = now;
                rec
            },
            None => ProcessingRecord::new(now),
        };
        let ghost stored = record;
        self.records.put(canonical_audio_path.clone(), record);
        proof {
            assert(has_record(self.records@, canonical_audio_path@, stored));
            if taken is Some {
                let orig_rec = taken->Some_0;
                assert forall|rec0: ProcessingRecord|
                    has_record(old_table, canonical_audio_path@, rec0) implies has_record(
                    self.records@,
                    canonical_audio_path@,
                    (ProcessingRecord { last_processed_time: now, ..rec0 }),
                ) by {
                    let i = choose|i: int|
                        0 <= i < old_table.len() && old_table[i].0@ == canonical_audio_path@
                            && old_table[i].1 == rec0;
                    let j = choose|j: int|
                        0 <= j < old_table.len() && old_table[j].0@ == canonical_audio_path@
                            && old_table[j].1 == orig_rec;
                    assert(i == j);
                    assert(stored == (ProcessingRecord { last_processed_time: now, ..rec0 }));
                }
            }
        }
    }

    /// Stores the final record of a multi-part file back into the ledger.
    pub fn store_record(&mut self, canonical_audio_path: &String, record: ProcessingRecord)
        requires
            old(self).well_formed(),
            record.well_formed(),
        ensures
            final(self).well_formed(),
            (FileProcessor { records: old(self).records, ..*final(self) }) == *old(self),
            has_record(final(self).records@, canonical_audio_path@, record),
            forall|p: Seq<char>, rec: ProcessingRecord|
                p != canonical_audio_path@ ==> (has_record(final(self).records@, p, rec)
                    <==> has_record(old(self).records@, p, rec)),
    {
        self.records.put(canonical_audio_path.clone(), record);
    }
}

/// Walks the pending parts of one long file in ascending order,
/// checkpointing each completed part into the record.  Interruption stops
/// the walk before the next part; checkpointed parts are never lost.
pub struct MultiPartSession {
    /// The file's resume record, checkpointed after every part.
    pub record: ProcessingRecord,
    /// The parts that were pending when the session began, ascending.
    pub pending: Vec<usize>,
    /// How many of the pending parts were handed out so far.
    pub cursor: usize,
}

impl MultiPartSession {
    pub open spec fn well_formed(&self) -> bool {
        &&& self.record.well_formed()
        &&& self.cursor <= self.pending@.len()
        &&& strictly_increasing(self.pending@)
        &&& forall|k: int| 0 <= k < self.pending@.len() ==> self.pending@[k]
            < self.record.total_parts
    }

    /// Opens a session for a track that divides into `total_parts` parts.  A
    /// prior record with the same part count resumes — only its pending
    /// parts will be dispatched; any other (or none) starts a fresh record.
    pub fn begin(prior: Option<ProcessingRecord>, total_parts: usize, now: String) -> (r:
        MultiPartSession)
        requires
            total_parts >= 1,
            prior matches Some(p) ==> p.well_formed(),
        ensures
            r.well_formed(),
            r.cursor == 0,
            r.record.total_parts == total_parts,
            (prior matches Some(p) && p.total_parts == total_parts) ==> r.record == prior->Some_0,
            !(prior matches Some(p) && p.total_parts == total_parts) ==> (
            r.record.processed_parts@.len() == 0 && r.record.last_processed_time == now
                && !r.record.completed),
            forall|v: usize|
                r.pending@.contains(v) <==> (v < total_parts && !r.record.spec_has_part(v)),
            r.record.completed ==> r.pending@.len() == 0,
    {
        let record = match prior {
            Some(p) => {
                if p.total_parts == total_parts {
                    p
                } else {
                    ProcessingRecord::with_parts(now, total_parts)
                }
            },
            None => ProcessingRecord::with_parts(now, total_parts),
        };
        let pending = record.pending_parts();
        proof {
            assert forall|k: int| 0 <= k < pending@.len() implies pending@[k]
                < record.total_parts by {
                assert(pending@.contains(pending@[k]));
            }
        }
        MultiPartSession { record, pending, cursor: 0 }
    }

    /// The next pending part to transcribe, in ascending order — or none,
    /// once the walk is done or the run is interrupted.  Interruption leaves
    /// the remaining parts pending for the next run.
    pub fn next_part(&mut self, interrupted: bool) -> (r: Option<usize>)
        requires
            old(self).well_formed(),
        ensures
            final(self).well_formed(),
            final(self).record == old(self).record,
            final(self).pending == old(self).pending,
            interrupted ==> r is None && final(self).cursor == old(self).cursor,
            !interrupted && old(self).cursor < old(self).pending@.len() ==> r == Some(
                old(self).pending@[old(self).cursor as int],
            ) && final(self).cursor == old(self).cursor + 1,
            !interrupted && old(self).cursor >= old(self).pending@.len() ==> r is None && final(self).cursor == old(self).cursor,
    {
        if interrupted {
            return None;
        }
        if self.cursor < self.pending.len() {
            let part = self.pending[self.cursor];
            self.cursor = self.cursor + 1;
            Some(part)
        } else {
            None
        }
    }

    /// Checkpoint: the part's text is saved, so the part is recorded
    /// complete with its statistics, and the record is ready to be
    /// persisted.  The record becomes completed exactly when this was the
    /// last missing part.
    pub fn complete_part(&mut self, part_idx: usize, stat: PartStat, now: String)
        requires
            old(self).well_formed(),
            part_idx < old(self).record.total_parts,
        ensures
            final(self).well_formed(),
            final(self).pending == old(self).pending,
            final(self).cursor == old(self).cursor,
            final(self).record.total_parts == old(self).record.total_parts,
            final(self).record.last_processed_time == now,
            forall|v: usize|
                final(self).record.spec_has_part(v) <==> (old(self).record.spec_has_part(v) || v
                    == part_idx),
            has_stat(final(self).record.part_stats@, part_idx, stat),
            final(self).record.completed == (final(self).record.processed_parts@.len() == final(self).record.total_parts),
    {
        self.record.mark_part_complete(part_idx, stat, now);
    }

    /// Whether every part of the file is now recorded complete.
    pub fn is_finished(&self) -> (r: bool)
        ensures
            r == self.record.completed,
    {
        self.record.completed
    }

    /// Hands the record back for storage in the ledger.
    pub fn into_record(self) -> (r: ProcessingRecord)
        ensures
            r == self.record,
    {
        self.record
    }
}

} // verus!
