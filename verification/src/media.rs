//! Planning of the external media tool's work.
//!
//! The media tool itself — extracting audio from video, probing a duration,
//! splitting a track into segment files — is an external collaborator run by
//! the surrounding program.  This module does the verified planning around
//! it: it validates extraction requests and lays out the segment files a
//! split must produce, so the rest of the pipeline can rely on their names
//! and spans.

use vstd::prelude::*;
use vstd::string::StringExecFns;
use crate::errors::AudioToolsError;
use crate::file_utils::spec_dec;
use crate::file_utils::spec_extension;
use crate::file_utils::get_file_extension;
use crate::file_utils::u64_to_string;
use crate::parts::spec_part_count;
use crate::parts::spec_part_start;
use crate::parts::spec_part_end;
use crate::parts::PartManager;
use crate::segments::Segment;

verus! {

/// The file that holds segment `i` of a split, under the segments folder.
pub open spec fn spec_segment_path(dir: Seq<char>, i: nat) -> Seq<char> {
    dir + "/segment_"@ + spec_dec(i) + ".mp3"@
}

/// Plans the media tool's work for one file: where its segments go and how
/// they span the track.
pub struct AudioExtractor {
    /// Folder the temporary segment files are written under.
    pub segments_dir: String,
}

impl AudioExtractor {
    pub fn new(segments_dir: String) -> (r: AudioExtractor)
        ensures
            r.segments_dir == segments_dir,
    {
        AudioExtractor { segments_dir }
    }

    /// Validates a request to extract the audio track of a media file: the
    /// source must have a file extension and the destination must be named.
    /// The extraction itself is the media tool's work.
    pub fn extract_audio(&self, media_file: &String, output_file: &String) -> (r: Result<
        (),
        AudioToolsError,
    >)
        ensures
            r is Ok <==> (spec_extension(media_file@) is Some && output_file@.len() > 0),
            !(spec_extension(media_file@) is Some) ==> (r matches Err(
                AudioToolsError::FileProcessingError(m),
            ) && m@ == media_file@),
            spec_extension(media_file@) is Some && output_file@.len() == 0 ==> (r matches Err(
                AudioToolsError::FileProcessingError(m),
            ) && m@ == output_file@),
    {
        if get_file_extension(media_file.as_str()).is_none() {
            return Err(AudioToolsError::FileProcessingError(media_file.clone()));
        }
        if output_file.as_str().unicode_len() == 0 {
            return Err(AudioToolsError::FileProcessingError(output_file.clone()));
        }
        Ok(())
    }

    /// Plans the split of a track into bounded segments: one segment per
    /// `segment_secs` slice, each with its file path under the segments
    /// folder, its start offset and its length.  A zero-length track or a
    /// zero segment length is rejected.
    #[verifier::loop_isolation(false)]
    pub fn segment_audio(&self, duration_secs: u64, segment_secs: u64) -> (r: Result<
        Vec<Segment>,
        AudioToolsError,
    >)
        requires
            duration_secs <= 0xffff_ffff,
        ensures
            r is Ok <==> (duration_secs >= 1 && segment_secs >= 1),
            duration_secs >= 1 && segment_secs >= 1 ==> ({
                let v = r->Ok_0;
                &&& v@.len() == spec_part_count(duration_secs as nat, segment_secs as nat)
                &&& forall|i: int|
                    0 <= i < v@.len() ==> {
                        let s = #[trigger] v@[i];
                        &&& s.index == i
                        &&& s.path@ == spec_segment_path(self.segments_dir@, i as nat)
                        &&& s.start_secs == spec_part_start(i as nat, segment_secs as nat)
                        &&& s.start_secs + s.duration_secs == spec_part_end(
                            i as nat,
                            duration_secs as nat,
                            segment_secs as nat,
                        )
                    }
            }),
    {
        if duration_secs == 0 || segment_secs == 0 {
            return Err(
                AudioToolsError::FileProcessingError("track of zero length cannot be split".to_owned()),
            );
        }
        let planner = PartManager::new(self.segments_dir.clone(), segment_secs, segment_secs);
        let count = planner.part_count(duration_secs);
        proof {
            crate::parts::lemma_part_count_le_duration(duration_secs as nat, segment_secs as nat);
        }
        let mut v: Vec<Segment> = Vec::new();
        let mut i: u64 = 0;
        while i < count
            invariant
                i <= count,
                count == spec_part_count(duration_secs as nat, segment_secs as nat),
                planner.well_formed(),
                planner.part_secs == segment_secs,
                planner.output_folder@ == self.segments_dir@,
                v@.len() == i,
                forall|k: int|
                    0 <= k < i ==> {
                        let s = #[trigger] v@[k];
                        &&& s.index == k
                        &&& s.path@ == spec_segment_path(self.segments_dir@, k as nat)
                        &&& s.start_secs == spec_part_start(k as nat, segment_secs as nat)
                        &&& s.start_secs + s.duration_secs == spec_part_end(
                            k as nat,
                            duration_secs as nat,
                            segment_secs as nat,
                        )
                    },
            decreases count - i,
        {
            let (start, end) = planner.part_time_range(i, duration_secs);
            let mut path = self.segments_dir.clone();
            path.append("/segment_");
            let d = u64_to_string(i);
            path.append(d.as_str());
            path.append(".mp3");
            v.push(
                Segment {
                    index: i as usize,
                    path,
                    start_secs: start,
                    duration_secs: end - start,
                },
            );
            i = i + 1;
        }
        Ok(v)
    }
}

} // verus!
