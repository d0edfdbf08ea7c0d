//! The file aggregate: posting metadata, the ordered segment collection,
//! and the properties derived from them.
//!
//! A `File` is immutable after construction. Its derived properties
//! (size, name, stem, extension, classification) are pure functions of the
//! stored fields, recomputed per call, so every call returns the same
//! value. Equality is structural over the stored fields alone.

use vstd::prelude::*;
use crate::classify::{
    is_obfuscated_stem, is_par2_name, is_rar_name, obfuscated_name, par2_name, rar_name,
};
use crate::name::{decompose, ext_seq, stem_seq};
use crate::subject::{extract_name, extract_name_seq};
use vstd::std_specs::cmp::PartialEqSpec;

verus! {

/// An instant in civil time, held as seconds since the Unix epoch plus a
/// sub-second offset in nanoseconds. The poster's zone is already resolved
/// into the epoch offset; no validation is performed beyond the types.
#[derive(Clone, Copy, PartialEq, Eq, Structural, Hash, Debug)]
pub struct Timestamp {
    pub secs: i64,
    pub nanos: u32,
}

/// One article of a posted file: an immutable record of its size in bytes,
/// its 1-based sequence number, and its opaque message identifier.
#[derive(Eq, Hash, Debug, Clone)]
pub struct Segment {
    pub size: u64,
    pub number: u32,
    pub message_id: String,
}

/// The mathematical value of a `Segment`: the same record with the
/// identifier as a character sequence.
pub struct SegmentView {
    pub size: u64,
    pub number: u32,
    pub message_id: Seq<char>,
}

impl View for Segment {
    type V = SegmentView;

    open spec fn view(&self) -> SegmentView {
        SegmentView { size: self.size, number: self.number, message_id: self.message_id@ }
    }
}

impl DeepView for Segment {
    type V = SegmentView;

    open spec fn deep_view(&self) -> SegmentView {
        self@
    }
}

impl Segment {
    /// Builds a segment from its raw fields; nothing is validated.
    pub fn new(size: u64, number: u32, message_id: String) -> (r: Segment)
        ensures
            r@ == (SegmentView { size, number, message_id: message_id@ }),
    {
        Segment { size, number, message_id }
    }
}

impl PartialEq for Segment {
    fn eq(&self, other: &Segment) -> (r: bool) {
        self.size == other.size && self.number == other.number && self.message_id
            == other.message_id
    }
}

impl vstd::std_specs::cmp::PartialEqSpecImpl for Segment {
    open spec fn obeys_eq_spec() -> bool {
        true
    }

    open spec fn eq_spec(&self, other: &Segment) -> bool {
        self@ == other@
    }
}

/// Sum of the sizes of a sequence of segments; the empty sequence sums
/// to zero.
pub open spec fn sum_sizes(ss: Seq<SegmentView>) -> int
    decreases ss.len(),
{
    if ss.len() == 0 {
        0
    } else {
        sum_sizes(ss.drop_last()) + ss.last().size
    }
}

/// Total size of an ordered segment collection: the sum of all segment
/// sizes, zero for an empty collection. Returns nothing when the
/// mathematical sum would not fit the result type.
pub fn total_size(segments: &Vec<Segment>) -> (r: Option<u64>)
    ensures
        match r {
            Some(v) => v == sum_sizes(segments.deep_view()),
            None => sum_sizes(segments.deep_view()) > u64::MAX,
        },
{
    let ghost segs = segments.deep_view();
    let mut total: u64 = 0;
    let mut i: usize = 0;
    while i < segments.len()
        invariant
            segs == segments.deep_view(),
            i <= segments.len(),
            segs.len() == segments.len(),
            total == sum_sizes(segs.take(i as int)),
        decreases segments.len() - i,
    {
        let sz = segments[i].size;
        proof {
            assert(segs.take(i + 1).drop_last() =~= segs.take(i as int));
            assert(segs.take(i + 1).last() == segs[i as int]);
            assert(segs[i as int] == segments@[i as int]@);
        }
        total = match total.checked_add(sz) {
            Some(t) => t,
            None => {
                proof {
                    lemma_sum_sizes_grows(segs, i + 1);
                }
                return None;
            },
        };
        i += 1;
    }
    proof {
        assert(segs.take(segs.len() as int) =~= segs);
    }
    Some(total)
}

/// One downloadable file entry of an NZB collection: its poster, posting
/// time, raw subject line, newsgroups, and segments.
#[derive(Eq, Hash, Debug, Clone)]
pub struct File {
    poster: String,
    datetime: Timestamp,
    subject: String,
    groups: Vec<String>,
    segments: Vec<Segment>,
}

/// The mathematical value of a `File`: its stored fields as sequences.
pub struct FileView {
    pub poster: Seq<char>,
    pub datetime: Timestamp,
    pub subject: Seq<char>,
    pub groups: Seq<Seq<char>>,
    pub segments: Seq<SegmentView>,
}

impl View for File {
    type V = FileView;

    closed spec fn view(&self) -> FileView {
        FileView {
            poster: self.poster@,
            datetime: self.datetime,
            subject: self.subject@,
            groups: self.groups.deep_view(),
            segments: self.segments.deep_view(),
        }
    }
}

impl FileView {
    /// The name embedded in the subject, if any.
    pub open spec fn name(self) -> Option<Seq<char>> {
        extract_name_seq(self.subject)
    }

    /// The stem of the embedded name, if a name exists.
    pub open spec fn stem(self) -> Option<Seq<char>> {
        match self.name() {
            Some(n) => Some(stem_seq(n)),
            None => None,
        }
    }

    /// The extension of the embedded name, if the name has one.
    pub open spec fn extension(self) -> Option<Seq<char>> {
        match self.name() {
            Some(n) => ext_seq(n),
            None => None,
        }
    }

    /// Whether the entry is a PAR2 recovery artifact; an absent name is
    /// not one.
    pub open spec fn is_par2(self) -> bool {
        match self.name() {
            Some(n) => par2_name(n),
            None => false,
        }
    }

    /// Whether the entry is a RAR archive or volume; an absent name is
    /// not one.
    pub open spec fn is_rar(self) -> bool {
        match self.name() {
            Some(n) => rar_name(n),
            None => false,
        }
    }

    /// Whether the entry's name looks deliberately obfuscated; an absent
    /// name counts as obfuscated.
    pub open spec fn is_obfuscated(self) -> bool {
        obfuscated_name(self.name())
    }

    /// Total size in bytes: the sum of the segment sizes.
    pub open spec fn size(self) -> int {
        sum_sizes(self.segments)
    }
}

impl File {
    /// Builds a file entry from its raw fields; nothing is validated
    /// beyond the types.
    pub fn new(
        poster: String,
        datetime: Timestamp,
        subject: String,
        groups: Vec<String>,
        segments: Vec<Segment>,
    ) -> (r: File)
        ensures
            r@ == (FileView {
                poster: poster@,
                datetime,
                subject: subject@,
                groups: groups.deep_view(),
                segments: segments.deep_view(),
            }),
    {
        File { poster, datetime, subject, groups, segments }
    }

    /// The poster of the file.
    pub fn poster(&self) -> (r: &String)
        ensures
            r@ == self@.poster,
    {
        &self.poster
    }

    /// When the file was posted.
    pub fn datetime(&self) -> (r: Timestamp)
        ensures
            r == self@.datetime,
    {
        self.datetime
    }

    /// The raw subject line of the posting.
    pub fn subject(&self) -> (r: &String)
        ensures
            r@ == self@.subject,
    {
        &self.subject
    }

    /// The newsgroups that carry the file, in their stored order.
    pub fn groups(&self) -> (r: &Vec<String>)
        ensures
            r.deep_view() == self@.groups,
    {
        &self.groups
    }

    /// The segments that make up the file, in their stored order.
    pub fn segments(&self) -> (r: &Vec<Segment>)
        ensures
            r.deep_view() == self@.segments,
    {
        &self.segments
    }

    /// Total size in bytes, summed over all segments; zero for a file with
    /// no segments. Returns nothing when the mathematical sum would not
    /// fit the result type.
    pub fn checked_size(&self) -> (r: Option<u64>)
        ensures
            match r {
                Some(v) => v == self@.size(),
                None => self@.size() > u64::MAX,
            },
    {
        total_size(&self.segments)
    }

    /// Total size in bytes, for the collections whose mathematical sum
    /// fits the result type (anything up to petabyte scale does).
    pub fn size(&self) -> (r: u64)
        requires
            self@.size() <= u64::MAX,
        ensures
            r == self@.size(),
    {
        let r = self.checked_size();
        match r {
            Some(v) => v,
            None => 0,
        }
    }

    /// The complete file name with its extension, extracted from the
    /// subject; `None` when the subject embeds no quoted name.
    pub fn name(&self) -> (r: Option<String>)
        ensures
            r.deep_view() == self@.name(),
    {
        extract_name(self.subject.as_str())
    }

    /// The base name of the file without its extension; `None` exactly
    /// when the name itself is absent.
    pub fn stem(&self) -> (r: Option<String>)
        ensures
            r.deep_view() == self@.stem(),
    {
        match self.name() {
            None => None,
            Some(n) => {
                let (stem, _) = decompose(n.as_str());
                Some(stem)
            },
        }
    }

    /// The extension of the file name; `None` when the name is absent or
    /// has no extension.
    pub fn extension(&self) -> (r: Option<String>)
        ensures
            r.deep_view() == self@.extension(),
    {
        match self.name() {
            None => None,
            Some(n) => {
                let (_, ext) = decompose(n.as_str());
                ext
            },
        }
    }

    /// Whether the file is a PAR2 recovery artifact.
    pub fn is_par2(&self) -> (r: bool)
        ensures
            r == self@.is_par2(),
    {
        match self.name() {
            None => false,
            Some(n) => is_par2_name(n.as_str()),
        }
    }

    /// Whether the file is a RAR archive or volume.
    pub fn is_rar(&self) -> (r: bool)
        ensures
            r == self@.is_rar(),
    {
        match self.name() {
            None => false,
            Some(n) => is_rar_name(n.as_str()),
        }
    }

    /// Whether the file's name looks deliberately obfuscated; a file whose
    /// subject embeds no name at all counts as obfuscated.
    pub fn is_obfuscated(&self) -> (r: bool)
        ensures
            r == self@.is_obfuscated(),
    {
        match self.name() {
            None => true,
            Some(n) => {
                let (stem, _) = decompose(n.as_str());
                is_obfuscated_stem(stem.as_str())
            },
        }
    }
}

/// A partial sum of segment sizes never exceeds the total.
proof fn lemma_sum_sizes_grows(ss: Seq<SegmentView>, i: int)
    requires
        0 <= i <= ss.len(),
    ensures
        sum_sizes(ss.take(i)) <= sum_sizes(ss),
    decreases ss.len() - i,
{
    if i < ss.len() {
        lemma_sum_sizes_grows(ss, i + 1);
        assert(ss.take(i + 1).drop_last() =~= ss.take(i));
    } else {
        assert(ss.take(i) =~= ss);
    }
}

impl PartialEq for File {
    fn eq(&self, other: &File) -> (r: bool) {
        self.poster == other.poster && self.datetime == other.datetime && self.subject
            == other.subject && vec_string_eq(&self.groups, &other.groups) && vec_segment_eq(
            &self.segments,
            &other.segments,
        )
    }
}

impl vstd::std_specs::cmp::PartialEqSpecImpl for File {
    open spec fn obeys_eq_spec() -> bool {
        true
    }

    open spec fn eq_spec(&self, other: &File) -> bool {
        self@ == other@
    }
}

/// Element-wise comparison of two string vectors.
fn vec_string_eq(a: &Vec<String>, b: &Vec<String>) -> (r: bool)
    ensures
        r == (a.deep_view() == b.deep_view()),
{
    if a.len() != b.len() {
        proof {
            assert(a.deep_view().len() != b.deep_view().len());
        }
        return false;
    }
    let mut i: usize = 0;
    while i < a.len()
        invariant
            a.len() == b.len(),
            i <= a.len(),
            forall|j: int| 0 <= j < i ==> a.deep_view()[j] == b.deep_view()[j],
        decreases a.len() - i,
    {
        if !(a[i] == b[i]) {
            proof {
                assert(a.deep_view()[i as int] != b.deep_view()[i as int]);
            }
            return false;
        }
        i += 1;
    }
    proof {
        assert(a.deep_view() =~= b.deep_view());
    }
    true
}

/// Element-wise comparison of two segment vectors.
fn vec_segment_eq(a: &Vec<Segment>, b: &Vec<Segment>) -> (r: bool)
    ensures
        r == (a.deep_view() == b.deep_view()),
{
    if a.len() != b.len() {
        proof {
            assert(a.deep_view().len() != b.deep_view().len());
        }
        return false;
    }
    let mut i: usize = 0;
    while i < a.len()
        invariant
            a.len() == b.len(),
            i <= a.len(),
            forall|j: int| 0 <= j < i ==> a.deep_view()[j] == b.deep_view()[j],
        decreases a.len() - i,
    {
        if !(a[i] == b[i]) {
            proof {
                assert(a.deep_view()[i as int] != b.deep_view()[i as int]);
            }
            return false;
        }
        i += 1;
    }
    proof {
        assert(a.deep_view() =~= b.deep_view());
    }
    true
}

/// Equality of files is structural over the stored fields alone, and two
/// equal files agree on every derived property: the derived properties are
/// functions of the stored fields and play no part in equality.
pub proof fn lemma_file_equality(a: &File, b: &File)
    ensures
        a.eq_spec(b) <==> a@ == b@,
        a@ == b@ ==> a@.name() == b@.name() && a@.stem() == b@.stem() && a@.extension()
            == b@.extension() && a@.is_par2() == b@.is_par2() && a@.is_rar() == b@.is_rar()
            && a@.is_obfuscated() == b@.is_obfuscated() && a@.size() == b@.size(),
{
}

} // verus!
