//! Run lists: the compact encoding of the cluster extents that back the data
//! of a non-resident attribute.
//!
//! A run list is a sequence of entries closed by a zero byte. Each entry
//! starts with a header byte. The low nibble of the header is the width in
//! bytes of the run's length, the high nibble is the width of the run's
//! offset. The length is unsigned; the offset is a two's-complement number
//! of exactly the declared width, relative to the start of the previous run
//! that has clusters. An offset of width zero marks a sparse run, a hole
//! without clusters.
use crate::format_error::FormatError;
use crate::little_endian::{
    fits_signed, le_bytes, le_field, le_signed, least_signed_width, least_width,
    lemma_le_bytes_round_trip, lemma_radix_values, lemma_twos_complement_round_trip, radix,
    read_unsigned, sign_extend, signed_width, unsigned_of, unsigned_width, write_signed,
    write_unsigned,
};
use vstd::prelude::*;

verus! {

/// The widest length or offset field that a run header may declare.
pub const MAX_FIELD_WIDTH: u8 = 8;

/// One extent of a non-resident attribute.
#[derive(Debug, Clone, Copy, PartialEq, Eq)]
pub struct DataRun {
    /// The number of clusters in the run.
    pub length_in_clusters: u64,
    /// Where the run starts, in clusters, relative to the start of the
    /// previous run that has clusters; `None` for a sparse run.
    pub cluster_offset: Option<i64>,
    /// Whether the run is a hole without clusters.
    pub is_sparse: bool,
}

impl DataRun {
    /// A run is sparse exactly when it has no offset.
    pub open spec fn wf(self) -> bool {
        self.is_sparse == (self.cluster_offset is None)
    }

    /// By how many clusters the run moves the running cluster number: its
    /// offset, or nothing for a sparse run.
    pub open spec fn displacement(self) -> int {
        match self.cluster_offset {
            Some(offset) => offset as int,
            None => 0,
        }
    }
}

/// The width of the length field that a run header declares.
pub open spec fn length_width(header: u8) -> int {
    header as int % 16
}

/// The width of the offset field that a run header declares.
pub open spec fn offset_width(header: u8) -> int {
    header as int / 16
}

/// The run that the entry at `pos` spells, for a header with valid widths
/// whose fields lie within `bytes`.
pub open spec fn run_at(bytes: Seq<u8>, pos: int) -> DataRun {
    let lw = length_width(bytes[pos]);
    let ow = offset_width(bytes[pos]);
    DataRun {
        length_in_clusters: le_field(bytes, pos + 1, lw) as u64,
        cluster_offset: if ow == 0 {
            None
        } else {
            Some(le_signed(bytes.subrange(pos + 1 + lw, pos + 1 + lw + ow)) as i64)
        },
        is_sparse: ow == 0,
    }
}

/// The runs spelled by the entries of `bytes` from `pos` on.
///
/// A zero header ends the list. A header with a nibble above 8 is
/// `InvalidRunHeader`. `Truncated` is an entry whose fields reach past the
/// end of `bytes`, and also a list that ends without its closing zero.
pub open spec fn runs_from(bytes: Seq<u8>, pos: int) -> Result<Seq<DataRun>, FormatError>
    decreases bytes.len() - pos,
{
    if pos < 0 || pos >= bytes.len() {
        Err(FormatError::Truncated)
    } else if bytes[pos] == 0 {
        Ok(Seq::empty())
    } else {
        let lw = length_width(bytes[pos]);
        let ow = offset_width(bytes[pos]);
        if lw > MAX_FIELD_WIDTH || ow > MAX_FIELD_WIDTH {
            Err(FormatError::InvalidRunHeader)
        } else if pos + 1 + lw + ow > bytes.len() {
            Err(FormatError::Truncated)
        } else {
            match runs_from(bytes, pos + 1 + lw + ow) {
                Ok(rest) => Ok(seq![run_at(bytes, pos)] + rest),
                Err(e) => Err(e),
            }
        }
    }
}

/// The runs that a whole run list spells.
pub open spec fn run_list_of(bytes: Seq<u8>) -> Result<Seq<DataRun>, FormatError> {
    runs_from(bytes, 0)
}

/// The runs already decoded, followed by what the rest of the list gives.
pub open spec fn continued(done: Seq<DataRun>, rest: Result<Seq<DataRun>, FormatError>) -> Result<
    Seq<DataRun>,
    FormatError,
> {
    match rest {
        Ok(runs) => Ok(done + runs),
        Err(e) => Err(e),
    }
}

/// Every run that decoding yields is well formed.
pub proof fn lemma_decoded_runs_wf(bytes: Seq<u8>, pos: int)
    ensures
        runs_from(bytes, pos) matches Ok(runs) ==> forall|i: int|
            0 <= i < runs.len() ==> (#[trigger] runs[i]).wf(),
    decreases bytes.len() - pos,
{
    if 0 <= pos < bytes.len() && bytes[pos] != 0 {
        let lw = length_width(bytes[pos]);
        let ow = offset_width(bytes[pos]);
        if lw <= MAX_FIELD_WIDTH && ow <= MAX_FIELD_WIDTH && pos + 1 + lw + ow <= bytes.len() {
            lemma_decoded_runs_wf(bytes, pos + 1 + lw + ow);
        }
    }
}

/// Decodes a run list into its runs, in order.
///
/// The result is exactly [`run_list_of`]: the runs on success, and otherwise
/// the error of the first entry that cannot be decoded.
pub fn decode_run_list(bytes: &[u8]) -> (result: Result<Vec<DataRun>, FormatError>)
    ensures
        match result {
            Ok(runs) => run_list_of(bytes@) == Ok::<Seq<DataRun>, FormatError>(runs@)
                && forall|i: int| 0 <= i < runs@.len() ==> (#[trigger] runs@[i]).wf(),
            Err(e) => run_list_of(bytes@) == Err::<Seq<DataRun>, FormatError>(e),
        },
{
    let mut runs: Vec<DataRun> = Vec::new();
    let mut pos: usize = 0;
    proof {
        assert(Seq::<DataRun>::empty() + runs_from(bytes@, 0)->Ok_0 =~= runs_from(bytes@, 0)->Ok_0);
    }
    while pos < bytes.len()
        invariant
            pos <= bytes@.len(),
            run_list_of(bytes@) == continued(runs@, runs_from(bytes@, pos as int)),
        decreases bytes@.len() - pos,
    {
        let header = bytes[pos];
        if header == 0 {
            proof {
                assert(runs_from(bytes@, pos as int) == Ok::<Seq<DataRun>, FormatError>(
                    Seq::empty(),
                ));
                assert(runs@ + Seq::<DataRun>::empty() =~= runs@);
                assert(run_list_of(bytes@) == Ok::<Seq<DataRun>, FormatError>(runs@));
                lemma_decoded_runs_wf(bytes@, 0);
                assert(runs_from(bytes@, 0)->Ok_0 == runs@);
                assert(forall|i: int| 0 <= i < runs@.len() ==> (#[trigger] runs@[i]).wf());
            }
            return Ok(runs);
        }
        let lw: usize = (header % 16) as usize;
        let ow: usize = (header / 16) as usize;
        if lw > MAX_FIELD_WIDTH as usize || ow > MAX_FIELD_WIDTH as usize {
            return Err(FormatError::InvalidRunHeader);
        }
        if lw + ow > bytes.len() - pos - 1 {
            return Err(FormatError::Truncated);
        }
        let length = read_unsigned(bytes, pos + 1, lw);
        let cluster_offset = if ow == 0 {
            None
        } else {
            let raw = read_unsigned(bytes, pos + 1 + lw, ow);
            Some(sign_extend(raw, ow))
        };
        let run = DataRun { length_in_clusters: length, cluster_offset, is_sparse: ow == 0 };
        proof {
            let next = pos + 1 + lw + ow;
            assert(run == run_at(bytes@, pos as int));
            match runs_from(bytes@, next) {
                Ok(rest) => {
                    assert(runs@ + (seq![run] + rest) =~= runs@.push(run) + rest);
                },
                Err(_) => {},
            }
        }
        runs.push(run);
        pos = pos + 1 + lw + ow;
    }
    Err(FormatError::Truncated)
}

/// The running cluster number after the first `count` runs: the sum of
/// their offsets, to which sparse runs add nothing.
pub open spec fn lcn_after(runs: Seq<DataRun>, count: int) -> int
    decreases count,
{
    if count <= 0 {
        0
    } else {
        lcn_after(runs, count - 1) + runs[count - 1].displacement()
    }
}

/// The absolute cluster number at which run `i` starts, or `None` for a
/// sparse run. The first run with clusters starts at its own offset; each
/// later one starts at its offset from the previous run with clusters.
pub open spec fn absolute_lcn(runs: Seq<DataRun>, i: int) -> Option<int> {
    if runs[i].cluster_offset is Some {
        Some(lcn_after(runs, i + 1))
    } else {
        None
    }
}

/// The running cluster number stays within `count` times the range of one
/// offset.
pub proof fn lemma_lcn_bound(runs: Seq<DataRun>, count: int)
    requires
        0 <= count <= runs.len(),
    ensures
        -count * 0x8000_0000_0000_0000 <= lcn_after(runs, count) <= count * 0x8000_0000_0000_0000,
    decreases count,
{
    if count > 0 {
        lemma_lcn_bound(runs, count - 1);
    }
}

/// The absolute cluster number of every run, in order; `None` for a sparse
/// run.
pub fn absolute_lcns(runs: &Vec<DataRun>) -> (lcns: Vec<Option<i128>>)
    ensures
        lcns@.len() == runs@.len(),
        forall|i: int|
            0 <= i < runs@.len() ==> match #[trigger] lcns@[i] {
                Some(lcn) => absolute_lcn(runs@, i) == Some(lcn as int),
                None => absolute_lcn(runs@, i) is None,
            },
{
    let mut lcns: Vec<Option<i128>> = Vec::new();
    let mut lcn: i128 = 0;
    let mut i: usize = 0;
    while i < runs.len()
        invariant
            i <= runs@.len(),
            lcns@.len() == i,
            lcn == lcn_after(runs@, i as int),
            forall|j: int|
                0 <= j < i ==> match #[trigger] lcns@[j] {
                    Some(lcn) => absolute_lcn(runs@, j) == Some(lcn as int),
                    None => absolute_lcn(runs@, j) is None,
                },
        decreases runs@.len() - i,
    {
        proof {
            lemma_lcn_bound(runs@, i as int);
            lemma_lcn_bound(runs@, i + 1);
        }
        match runs[i].cluster_offset {
            Some(offset) => {
                lcn = lcn + offset as i128;
                lcns.push(Some(lcn));
            },
            None => {
                lcns.push(None);
            },
        }
        i = i + 1;
    }
    lcns
}

/// Runs before a position see the same running cluster number whatever is
/// inserted at that position.
pub proof fn lemma_insert_keeps_earlier_lcn(
    runs: Seq<DataRun>,
    at: int,
    inserted: DataRun,
    count: int,
)
    requires
        0 <= count <= at <= runs.len(),
    ensures
        lcn_after(runs.insert(at, inserted), count) == lcn_after(runs, count),
    decreases count,
{
    if count > 0 {
        lemma_insert_keeps_earlier_lcn(runs, at, inserted, count - 1);
    }
}

/// A sparse run does not disturb the runs after it: with a sparse run
/// inserted at `at`, the running cluster number after any later run is what
/// it was without the insertion.
pub proof fn lemma_sparse_run_keeps_lcn(runs: Seq<DataRun>, at: int, hole: DataRun, count: int)
    requires
        0 <= at <= count <= runs.len(),
        hole.cluster_offset is None,
    ensures
        lcn_after(runs.insert(at, hole), count + 1) == lcn_after(runs, count),
    decreases count - at,
{
    let with_hole = runs.insert(at, hole);
    if count == at {
        lemma_insert_keeps_earlier_lcn(runs, at, hole, at);
        assert(with_hole[at] == hole);
    } else {
        lemma_sparse_run_keeps_lcn(runs, at, hole, count - 1);
        assert(with_hole[count] == runs[count - 1]);
    }
}

/// With a sparse run inserted at `at`, every run that had clusters keeps its
/// absolute cluster number: run `i` of the old list is run `i + 1` of the new
/// one when it stood at or after `at`.
pub proof fn lemma_sparse_run_keeps_absolute_lcns(
    runs: Seq<DataRun>,
    at: int,
    hole: DataRun,
    i: int,
)
    requires
        0 <= at <= runs.len(),
        0 <= i < runs.len(),
        hole.cluster_offset is None,
    ensures
        i < at ==> absolute_lcn(runs.insert(at, hole), i) == absolute_lcn(runs, i),
        i >= at ==> absolute_lcn(runs.insert(at, hole), i + 1) == absolute_lcn(runs, i),
{
    if i < at {
        lemma_insert_keeps_earlier_lcn(runs, at, hole, i + 1);
    } else {
        lemma_sparse_run_keeps_lcn(runs, at, hole, i + 1);
    }
}

/// A run together with the field widths in which it is written.
pub struct EncodedRun {
    pub run: DataRun,
    pub length_width: nat,
    pub offset_width: nat,
}

impl EncodedRun {
    /// The widths can hold the run: each is at most 8, the length is below
    /// the radix of its width, a sparse run has an offset of width zero and
    /// any other run an offset that fits its width in two's complement. The
    /// two widths are not both zero, since a zero header closes the list.
    pub open spec fn valid(self) -> bool {
        &&& self.run.wf()
        &&& self.length_width <= MAX_FIELD_WIDTH
        &&& self.offset_width <= MAX_FIELD_WIDTH
        &&& self.length_width + self.offset_width > 0
        &&& self.run.length_in_clusters < radix(self.length_width)
        &&& match self.run.cluster_offset {
            None => self.offset_width == 0,
            Some(offset) => self.offset_width > 0 && fits_signed(offset as int, self.offset_width),
        }
    }

    /// The header byte: the width of the length in the low nibble, that of
    /// the offset in the high one.
    pub open spec fn header(self) -> u8 {
        (self.length_width + 16 * self.offset_width) as u8
    }

    /// The bytes of the entry: header, length, offset.
    pub open spec fn bytes(self) -> Seq<u8> {
        seq![self.header()] + le_bytes(self.run.length_in_clusters as nat, self.length_width)
            + le_bytes(unsigned_of(self.run.displacement(), self.offset_width), self.offset_width)
    }
}

/// The run list that writes the given entries in order and closes them with
/// a zero byte.
pub open spec fn encoded(entries: Seq<EncodedRun>) -> Seq<u8>
    decreases entries.len(),
{
    if entries.len() == 0 {
        seq![0u8]
    } else {
        entries[0].bytes() + encoded(entries.drop_first())
    }
}

/// The runs of the given entries, without their widths.
pub open spec fn runs_of(entries: Seq<EncodedRun>) -> Seq<DataRun> {
    Seq::new(entries.len(), |i: int| entries[i].run)
}

/// Decoding does not depend on what stands before the position it starts
/// at.
pub proof fn lemma_runs_from_suffix(front: Seq<u8>, back: Seq<u8>, pos: int)
    requires
        0 <= pos,
    ensures
        runs_from(front + back, front.len() + pos) == runs_from(back, pos),
    decreases back.len() - pos,
{
    let all = front + back;
    let shifted = front.len() + pos;
    if pos < back.len() {
        assert(all[shifted] == back[pos]);
        if back[pos] != 0 {
            let lw = length_width(back[pos]);
            let ow = offset_width(back[pos]);
            if lw <= MAX_FIELD_WIDTH && ow <= MAX_FIELD_WIDTH && pos + 1 + lw + ow <= back.len() {
                assert(all.subrange(shifted + 1, shifted + 1 + lw) =~= back.subrange(
                    pos + 1,
                    pos + 1 + lw,
                ));
                assert(all.subrange(shifted + 1 + lw, shifted + 1 + lw + ow) =~= back.subrange(
                    pos + 1 + lw,
                    pos + 1 + lw + ow,
                ));
                assert(run_at(all, shifted) == run_at(back, pos));
                lemma_runs_from_suffix(front, back, pos + 1 + lw + ow);
            }
        }
    }
}

/// Reading back the entry that stands at the front of a list gives its run.
pub proof fn lemma_entry_round_trip(entry: EncodedRun, rest: Seq<u8>)
    requires
        entry.valid(),
    ensures
        entry.bytes().len() == 1 + entry.length_width + entry.offset_width,
        entry.header() != 0,
        length_width(entry.header()) == entry.length_width,
        offset_width(entry.header()) == entry.offset_width,
        run_at(entry.bytes() + rest, 0) == entry.run,
{
    let lw = entry.length_width as int;
    let ow = entry.offset_width as int;
    let length = entry.run.length_in_clusters as nat;
    let raw_offset = unsigned_of(entry.run.displacement(), ow as nat);
    let all = entry.bytes() + rest;
    lemma_radix_values();
    lemma_le_bytes_round_trip(length, lw as nat);
    if ow > 0 {
        lemma_twos_complement_round_trip(entry.run.displacement(), ow as nat);
    }
    lemma_le_bytes_round_trip(raw_offset, ow as nat);
    assert(all[0] == entry.header());
    assert(all.subrange(1, 1 + lw) =~= le_bytes(length, lw as nat));
    assert(all.subrange(1 + lw, 1 + lw + ow) =~= le_bytes(raw_offset, ow as nat));
}

/// Round trip: a run list written from valid entries, whatever widths they
/// use, decodes to exactly the runs that were written, in order. So every
/// run comes back with the absolute cluster number that it had.
pub proof fn lemma_round_trip(entries: Seq<EncodedRun>)
    requires
        forall|i: int| 0 <= i < entries.len() ==> (#[trigger] entries[i]).valid(),
    ensures
        run_list_of(encoded(entries)) == Ok::<Seq<DataRun>, FormatError>(runs_of(entries)),
        forall|i: int|
            0 <= i < entries.len() ==> absolute_lcn(run_list_of(encoded(entries))->Ok_0, i)
                == #[trigger] absolute_lcn(runs_of(entries), i),
    decreases entries.len(),
{
    if entries.len() == 0 {
        assert(runs_of(entries) =~= Seq::<DataRun>::empty());
    } else {
        let first = entries[0];
        let tail = entries.drop_first();
        let rest = encoded(tail);
        let all = encoded(entries);
        assert(first.valid());
        assert forall|i: int| 0 <= i < tail.len() implies (#[trigger] tail[i]).valid() by {
            assert(tail[i] == entries[i + 1]);
        }
        lemma_round_trip(tail);
        lemma_entry_round_trip(first, rest);
        lemma_runs_from_suffix(first.bytes(), rest, 0);
        assert(all[0] == first.header());
        assert(runs_of(entries) =~= seq![first.run] + runs_of(tail));
    }
}

/// Writing one more entry puts its bytes between those of the entries
/// before it and the closing zero.
pub proof fn lemma_encoded_push(entries: Seq<EncodedRun>, entry: EncodedRun)
    ensures
        encoded(entries).len() > 0,
        encoded(entries).last() == 0,
        encoded(entries.push(entry)) == encoded(entries).drop_last() + entry.bytes() + seq![0u8],
    decreases entries.len(),
{
    let longer = entries.push(entry);
    if entries.len() == 0 {
        assert(longer.drop_first() =~= entries);
        assert(longer[0] == entry);
        assert(encoded(longer) == entry.bytes() + encoded(entries));
        assert(encoded(longer) =~= seq![0u8].drop_last() + entry.bytes() + seq![0u8]);
    } else {
        let tail = entries.drop_first();
        lemma_encoded_push(tail, entry);
        assert(longer.drop_first() =~= tail.push(entry));
        assert(longer[0] == entries[0]);
        assert(encoded(longer) =~= encoded(entries).drop_last() + entry.bytes() + seq![0u8]);
    }
}

/// The run written in the fewest bytes: the length in its least width, but
/// in one byte where it is zero, so that the header is never the closing
/// zero; the offset of a run with clusters in its least signed width.
pub open spec fn shortest_entry(run: DataRun) -> EncodedRun {
    EncodedRun {
        run,
        length_width: if run.length_in_clusters == 0 {
            1
        } else {
            least_width(run.length_in_clusters as nat)
        },
        offset_width: match run.cluster_offset {
            Some(offset) => least_signed_width(offset as int),
            None => 0,
        },
    }
}

/// The runs, each written in the fewest bytes.
pub open spec fn shortest_entries(runs: Seq<DataRun>) -> Seq<EncodedRun> {
    Seq::new(runs.len(), |i: int| shortest_entry(runs[i]))
}

/// Writes runs as a run list, each field in the least number of bytes that
/// holds it, and closes the list with a zero byte.
///
/// The bytes are exactly the shortest encoding of the runs, and decoding
/// them gives the runs back.
pub fn encode_run_list(runs: &Vec<DataRun>) -> (bytes: Vec<u8>)
    requires
        forall|i: int| 0 <= i < runs@.len() ==> (#[trigger] runs@[i]).wf(),
    ensures
        bytes@ == encoded(shortest_entries(runs@)),
        run_list_of(bytes@) == Ok::<Seq<DataRun>, FormatError>(runs@),
{
    let mut bytes: Vec<u8> = Vec::new();
    let ghost mut entries: Seq<EncodedRun> = Seq::empty();
    let mut i: usize = 0;
    while i < runs.len()
        invariant
            i <= runs@.len(),
            forall|j: int| 0 <= j < runs@.len() ==> (#[trigger] runs@[j]).wf(),
            entries.len() == i,
            forall|j: int| 0 <= j < i ==> (#[trigger] entries[j]).valid(),
            forall|j: int| 0 <= j < i ==> (#[trigger] entries[j]) == shortest_entry(runs@[j]),
            bytes@ + seq![0u8] == encoded(entries),
        decreases runs@.len() - i,
    {
        let run = runs[i];
        let shortest = unsigned_width(run.length_in_clusters);
        let lw: usize = if shortest == 0 {
            1
        } else {
            shortest
        };
        let ow: usize = match run.cluster_offset {
            Some(offset) => signed_width(offset),
            None => 0,
        };
        let ghost entry = shortest_entry(run);
        let ghost before = bytes@;
        proof {
            lemma_radix_values();
            assert(run.wf());
            assert(entry.length_width == lw && entry.offset_width == ow);
            assert(entry.valid());
        }
        bytes.push((lw + 16 * ow) as u8);
        write_unsigned(&mut bytes, run.length_in_clusters, lw);
        match run.cluster_offset {
            Some(offset) => {
                write_signed(&mut bytes, offset, ow);
            },
            None => {
                proof {
                    assert(bytes@ + le_bytes(unsigned_of(0, 0), 0) =~= bytes@);
                }
            },
        }
        proof {
            lemma_encoded_push(entries, entry);
            assert(bytes@ =~= before + entry.bytes());
            assert(encoded(entries).drop_last() =~= before);
            entries = entries.push(entry);
        }
        i = i + 1;
    }
    let ghost body = bytes@;
    bytes.push(0);
    proof {
        lemma_round_trip(entries);
        assert(entries =~= shortest_entries(runs@));
        assert(runs_of(entries) =~= runs@);
        assert(bytes@ =~= body + seq![0u8]);
    }
    bytes
}

} // verus!
