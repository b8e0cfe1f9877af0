//! Listing the immediate entries of a directory.
//!
//! The order in which a directory yields its entries is not fixed, so what is
//! said of a listing is said of its entries as a collection. An entry whose
//! metadata cannot be had is reported and left out; the listing goes on.

use vstd::prelude::*;
use vstd::seq_lib::group_to_multiset_ensures;
use vstd::seq_lib::lemma_multiset_commutative;
use vstd::string::StringExecFns;

use crate::failure::ErrorKind;
use crate::failure::Failure;
use crate::failure::FailureView;
use crate::report::lemma_texts_on_push;
use crate::report::stderr_line;
use crate::report::stdout_line;
use crate::report::texts_on;
use crate::report::views;
use crate::report::Line;
use crate::report::LineView;
use crate::report::Stream;
use crate::text::join;
use crate::text::decimal;
use crate::text::lemma_decimal_of_u64;
use crate::text::lemma_pad_right_len;
use crate::text::pad_right;
use crate::text::pad_to;
use crate::text::to_decimal;

verus! {

/// The width of the column that holds the kind of an entry.
pub const KIND_WIDTH: usize = 10;

/// The width of the column that holds the size of an entry.
pub const SIZE_WIDTH: usize = 20;

/// What an entry is.
#[derive(Clone, Copy, Debug, PartialEq, Eq, Structural)]
pub enum EntryKind {
    /// A regular file.
    File,
    /// A directory.
    Directory,
    /// Anything else: a symbolic link, a device, a socket.
    Other,
}

/// What the file system says of one entry of a directory. A symbolic link is
/// described as itself, not as what it points to.
#[derive(Clone, Debug, PartialEq, Eq)]
pub struct RawEntry {
    pub name: String,
    pub is_dir: bool,
    pub is_file: bool,
    pub size: u64,
}

/// The mathematical value of a [`RawEntry`].
pub ghost struct RawEntryView {
    pub name: Seq<char>,
    pub is_dir: bool,
    pub is_file: bool,
    pub size: nat,
}

impl View for RawEntry {
    type V = RawEntryView;

    open spec fn view(&self) -> RawEntryView {
        RawEntryView {
            name: self.name@,
            is_dir: self.is_dir,
            is_file: self.is_file,
            size: self.size as nat,
        }
    }
}

/// The record of one entry: its name, its kind and its size in bytes.
#[derive(Clone, Debug, PartialEq, Eq)]
pub struct DirEntryInfo {
    pub name: String,
    pub kind: EntryKind,
    pub size_bytes: u64,
}

/// The mathematical value of a [`DirEntryInfo`].
pub ghost struct DirEntryInfoView {
    pub name: Seq<char>,
    pub kind: EntryKind,
    pub size_bytes: nat,
}

impl View for DirEntryInfo {
    type V = DirEntryInfoView;

    open spec fn view(&self) -> DirEntryInfoView {
        DirEntryInfoView { name: self.name@, kind: self.kind, size_bytes: self.size_bytes as nat }
    }
}

/// What a directory yields at one position of its listing.
#[derive(Clone, Debug, PartialEq, Eq)]
pub enum EntryRead {
    /// An entry and its metadata.
    Entry(RawEntry),
    /// The entry or its metadata could not be had.
    Failed(Failure),
}

/// The mathematical value of an [`EntryRead`].
pub ghost enum EntryReadView {
    Entry(RawEntryView),
    Failed(FailureView),
}

impl View for EntryRead {
    type V = EntryReadView;

    open spec fn view(&self) -> EntryReadView {
        match *self {
            EntryRead::Entry(raw) => EntryReadView::Entry(raw@),
            EntryRead::Failed(failure) => EntryReadView::Failed(failure@),
        }
    }
}

/// What came of opening a directory and listing it to its end.
#[derive(Clone, Debug, PartialEq, Eq)]
pub enum DirRead {
    /// The directory was opened; this is what it yielded, in its own order.
    Opened(Vec<EntryRead>),
    /// The directory is not there or could not be read.
    Failed(Failure),
}

/// The mathematical value of a [`DirRead`].
pub ghost enum DirReadView {
    Opened(Seq<EntryReadView>),
    Failed(FailureView),
}

impl View for DirRead {
    type V = DirReadView;

    open spec fn view(&self) -> DirReadView {
        match *self {
            DirRead::Opened(reads) => DirReadView::Opened(views(reads@)),
            DirRead::Failed(failure) => DirReadView::Failed(failure@),
        }
    }
}

/// The kind of an entry: a directory if it is one, else a file if it is a
/// regular file, else something other.
pub open spec fn kind_of(is_dir: bool, is_file: bool) -> EntryKind {
    if is_dir {
        EntryKind::Directory
    } else if is_file {
        EntryKind::File
    } else {
        EntryKind::Other
    }
}

/// The word a listing prints for a kind.
pub open spec fn kind_name(kind: EntryKind) -> Seq<char> {
    match kind {
        EntryKind::File => "File"@,
        EntryKind::Directory => "Directory"@,
        EntryKind::Other => "Other"@,
    }
}

/// The record of an entry.
pub open spec fn info_of(raw: RawEntryView) -> DirEntryInfoView {
    DirEntryInfoView {
        name: raw.name,
        kind: kind_of(raw.is_dir, raw.is_file),
        size_bytes: raw.size,
    }
}

/// The records of a listing: one for each entry that could be had, in the
/// order of the listing.
pub open spec fn records_of(reads: Seq<EntryReadView>) -> Seq<DirEntryInfoView>
    decreases reads.len(),
{
    if reads.len() == 0 {
        Seq::empty()
    } else {
        match reads.last() {
            EntryReadView::Entry(raw) => records_of(reads.drop_last()).push(info_of(raw)),
            EntryReadView::Failed(_) => records_of(reads.drop_last()),
        }
    }
}

/// The printed form of a record: the kind and the size, each left-aligned in
/// its column, and the name, with one space between them.
pub open spec fn entry_text(info: DirEntryInfoView) -> Seq<char> {
    pad_right(kind_name(info.kind), KIND_WIDTH as nat) + " "@ + pad_right(
        decimal(info.size_bytes),
        SIZE_WIDTH as nat,
    ) + " "@ + info.name
}

/// The complaint about an entry that could not be had: about its metadata,
/// with the entry's path, or else about the entry itself.
pub open spec fn entry_complaint(failure: FailureView) -> LineView {
    if failure.kind == ErrorKind::MetadataUnavailable {
        stderr_line(
            "Error: Unable to get metadata for '"@ + failure.path + "': "@ + failure.detail,
        )
    } else {
        stderr_line("Error reading entry: "@ + failure.detail)
    }
}

/// What a listing prints for one position.
pub open spec fn listed_line(read: EntryReadView) -> LineView {
    match read {
        EntryReadView::Entry(raw) => stdout_line(entry_text(info_of(raw))),
        EntryReadView::Failed(failure) => entry_complaint(failure),
    }
}

/// What a listing prints for its positions, in order.
pub open spec fn listed_lines(reads: Seq<EntryReadView>) -> Seq<LineView> {
    Seq::new(reads.len(), |i: int| listed_line(reads[i]))
}

/// The complaint about a directory that could not be listed.
pub open spec fn unlisted_complaint(path: Seq<char>, failure: FailureView) -> LineView {
    stderr_line("Error: Unable to read directory '"@ + path + "': "@ + failure.detail)
}

/// Everything that listing `path` prints.
pub open spec fn listed_dir(path: Seq<char>, read: DirReadView) -> Seq<LineView> {
    match read {
        DirReadView::Opened(reads) => listed_lines(reads),
        DirReadView::Failed(failure) => seq![unlisted_complaint(path, failure)],
    }
}

/// The kind of an entry.
pub fn classify(is_dir: bool, is_file: bool) -> (kind: EntryKind)
    ensures
        kind == kind_of(is_dir, is_file),
{
    if is_dir {
        EntryKind::Directory
    } else if is_file {
        EntryKind::File
    } else {
        EntryKind::Other
    }
}

/// The word a listing prints for a kind.
pub fn kind_word(kind: EntryKind) -> (word: &'static str)
    ensures
        word@ == kind_name(kind),
{
    match kind {
        EntryKind::File => "File",
        EntryKind::Directory => "Directory",
        EntryKind::Other => "Other",
    }
}

/// The record of an entry.
pub fn describe(raw: &RawEntry) -> (info: DirEntryInfo)
    ensures
        info@ == info_of(raw@),
{
    DirEntryInfo {
        name: raw.name.clone(),
        kind: classify(raw.is_dir, raw.is_file),
        size_bytes: raw.size,
    }
}

/// The records of a listing: one for each entry that could be had.
pub fn records(reads: &Vec<EntryRead>) -> (infos: Vec<DirEntryInfo>)
    ensures
        views(infos@) == records_of(views(reads@)),
{
    let mut infos: Vec<DirEntryInfo> = Vec::new();
    let mut i: usize = 0;
    assert(views(reads@).take(0) =~= Seq::<EntryReadView>::empty());
    assert(views(infos@) =~= Seq::<DirEntryInfoView>::empty());
    while i < reads.len()
        invariant
            i <= reads@.len(),
            views(infos@) == records_of(views(reads@).take(i as int)),
        decreases reads@.len() - i,
    {
        let ghost before = views(infos@);
        let ghost all = views(reads@);
        assert(all.take(i + 1).drop_last() =~= all.take(i as int));
        assert(all.take(i + 1).last() == reads@[i as int]@);
        match &reads[i] {
            EntryRead::Entry(raw) => {
                let info = describe(raw);
                infos.push(info);
                assert(views(infos@) =~= before.push(info@));
            },
            EntryRead::Failed(_) => {},
        }
        i += 1;
    }
    assert(views(reads@).take(i as int) =~= views(reads@));
    infos
}

/// The printed form of a record.
pub fn format_entry(info: &DirEntryInfo) -> (text: String)
    ensures
        text@ == entry_text(info@),
{
    let mut text = pad_to(kind_word(info.kind), KIND_WIDTH);
    text.append(" ");
    let size = to_decimal(info.size_bytes);
    let column = pad_to(size.as_str(), SIZE_WIDTH);
    text.append(column.as_str());
    text.append(" ");
    text.append(info.name.as_str());
    text
}

/// The complaint about an entry that could not be had.
pub fn complain_of_entry(failure: &Failure) -> (line: Line)
    ensures
        line@ == entry_complaint(failure@),
{
    match failure.kind {
        ErrorKind::MetadataUnavailable => {
            let mut text = join("Error: Unable to get metadata for '", failure.path.as_str());
            text.append("': ");
            text.append(failure.detail.as_str());
            Line::stderr(text)
        },
        _ => Line::stderr(join("Error reading entry: ", failure.detail.as_str())),
    }
}

/// What to print for one position of a listing.
pub fn list_line(read: &EntryRead) -> (line: Line)
    ensures
        line@ == listed_line(read@),
{
    match read {
        EntryRead::Entry(raw) => {
            let info = describe(raw);
            Line::stdout(format_entry(&info))
        },
        EntryRead::Failed(failure) => complain_of_entry(failure),
    }
}

/// The complaint about a directory that could not be listed.
pub fn complain_of_dir(path: &str, failure: &Failure) -> (line: Line)
    ensures
        line@ == unlisted_complaint(path@, failure@),
{
    let mut text = join("Error: Unable to read directory '", path);
    text.append("': ");
    text.append(failure.detail.as_str());
    Line::stderr(text)
}

/// Lists a directory: one line on standard output for each entry, a complaint
/// on standard error for each entry that could not be had, or a single
/// complaint if the directory could not be read at all.
pub fn list_dir(path: &str, read: &DirRead) -> (lines: Vec<Line>)
    ensures
        views(lines@) == listed_dir(path@, read@),
{
    let mut lines: Vec<Line> = Vec::new();
    match read {
        DirRead::Failed(failure) => {
            lines.push(complain_of_dir(path, failure));
            assert(views(lines@) =~= listed_dir(path@, read@));
        },
        DirRead::Opened(reads) => {
            let mut i: usize = 0;
            while i < reads.len()
                invariant
                    i <= reads@.len(),
                    views(lines@) == listed_lines(views(reads@)).take(i as int),
                decreases reads@.len() - i,
            {
                let ghost before = views(lines@);
                lines.push(list_line(&reads[i]));
                assert(views(lines@) =~= before.push(listed_line(reads@[i as int]@)));
                i += 1;
                assert(views(lines@) =~= listed_lines(views(reads@)).take(i as int));
            }
            assert(views(lines@) =~= listed_lines(views(reads@)));
        },
    }
    lines
}

/// A listing in which every entry could be had has one record for each
/// position, and each record is that of the entry at its position.
pub proof fn lemma_every_entry_is_recorded(reads: Seq<EntryReadView>)
    requires
        forall|i: int| 0 <= i < reads.len() ==> #[trigger] reads[i] is Entry,
    ensures
        records_of(reads).len() == reads.len(),
        forall|i: int|
            0 <= i < reads.len() ==> #[trigger] records_of(reads)[i] == info_of(reads[i]->Entry_0),
    decreases reads.len(),
{
    if reads.len() > 0 {
        let front = reads.drop_last();
        assert forall|i: int| 0 <= i < front.len() implies #[trigger] front[i] is Entry by {
            assert(front[i] == reads[i]);
        }
        lemma_every_entry_is_recorded(front);
        assert(reads.last() is Entry);
        assert forall|i: int| 0 <= i < reads.len() implies #[trigger] records_of(reads)[i]
            == info_of(reads[i]->Entry_0) by {
            if i < front.len() {
                assert(records_of(reads)[i] == records_of(front)[i]);
                assert(front[i] == reads[i]);
            }
        }
    }
}

/// A listing never has more records than positions.
pub proof fn lemma_records_are_bounded(reads: Seq<EntryReadView>)
    ensures
        records_of(reads).len() <= reads.len(),
    decreases reads.len(),
{
    if reads.len() > 0 {
        lemma_records_are_bounded(reads.drop_last());
    }
}

/// The records of two listings laid end to end are the records of the first
/// followed by those of the second.
pub proof fn lemma_records_of_concat(first: Seq<EntryReadView>, second: Seq<EntryReadView>)
    ensures
        records_of(first + second) == records_of(first) + records_of(second),
    decreases second.len(),
{
    if second.len() == 0 {
        assert(first + second =~= first);
        assert(records_of(first) + records_of(second) =~= records_of(first));
    } else {
        let whole = first + second;
        assert(whole.drop_last() =~= first + second.drop_last());
        assert(whole.last() == second.last());
        lemma_records_of_concat(first, second.drop_last());
        assert(records_of(whole) =~= records_of(first) + records_of(second));
    }
}

/// Taking one position out of a listing takes out of its records, as a
/// collection, exactly what that position contributed.
proof fn lemma_records_without(reads: Seq<EntryReadView>, at: int)
    requires
        0 <= at < reads.len(),
    ensures
        records_of(reads).to_multiset() == records_of(reads.remove(at)).to_multiset().add(
            records_of(seq![reads[at]]).to_multiset(),
        ),
{
    let head = reads.take(at);
    let one = seq![reads[at]];
    let tail = reads.skip(at + 1);
    assert(reads =~= (head + one) + tail);
    assert(reads.remove(at) =~= head + tail);
    lemma_records_of_concat(head, one);
    lemma_records_of_concat(head + one, tail);
    lemma_records_of_concat(head, tail);
    let rh = records_of(head);
    let ro = records_of(one);
    let rt = records_of(tail);
    lemma_multiset_commutative(rh + ro, rt);
    lemma_multiset_commutative(rh, ro);
    lemma_multiset_commutative(rh, rt);
    assert(((rh + ro) + rt).to_multiset() =~= (rh + rt).to_multiset().add(ro.to_multiset()));
}

/// The records of a listing, as a collection, do not depend on the order in
/// which the directory yielded its entries: two listings of the same entries
/// give the same records, each as often.
pub proof fn lemma_records_ignore_order(first: Seq<EntryReadView>, second: Seq<EntryReadView>)
    requires
        first.to_multiset() == second.to_multiset(),
    ensures
        records_of(first).to_multiset() == records_of(second).to_multiset(),
    decreases first.len(),
{
    broadcast use group_to_multiset_ensures;

    if first.len() == 0 {
        assert(first.len() == first.to_multiset().len());
        assert(second.len() == second.to_multiset().len());
        assert(first =~= second);
    } else {
        let last = first.len() - 1;
        let x = first[last];
        assert(first.contains(x));
        assert(second.to_multiset().count(x) > 0);
        assert(second.contains(x));
        let at = choose|at: int| 0 <= at < second.len() && second[at] == x;
        assert(first.remove(last).to_multiset() == second.remove(at).to_multiset());
        lemma_records_ignore_order(first.remove(last), second.remove(at));
        lemma_records_without(first, last);
        lemma_records_without(second, at);
    }
}

/// What a listing prints on standard output is its records, in order, each in
/// its printed form.
pub proof fn lemma_listing_prints_the_records(reads: Seq<EntryReadView>)
    ensures
        texts_on(listed_lines(reads), Stream::Stdout) == Seq::new(
            records_of(reads).len(),
            |i: int| entry_text(records_of(reads)[i]),
        ),
    decreases reads.len(),
{
    let infos = records_of(reads);
    let printed = texts_on(listed_lines(reads), Stream::Stdout);
    let wanted = Seq::new(infos.len(), |i: int| entry_text(infos[i]));
    if reads.len() == 0 {
        assert(printed =~= wanted);
    } else {
        let front = reads.drop_last();
        lemma_listing_prints_the_records(front);
        assert(listed_lines(reads) =~= listed_lines(front).push(listed_line(reads.last())));
        lemma_texts_on_push(listed_lines(front), listed_line(reads.last()), Stream::Stdout);
        assert(printed =~= wanted);
    }
}

/// The printed form of a record is laid out in columns: the kind from the
/// first column, the size from the twelfth and the name from the
/// thirty-third, with a space before the size and before the name. Neither
/// the kind nor the size of an entry ever overruns its column.
pub proof fn lemma_entry_columns(info: DirEntryInfoView)
    requires
        info.size_bytes <= u64::MAX,
    ensures
        entry_text(info).len() == KIND_WIDTH + 1 + SIZE_WIDTH + 1 + info.name.len(),
        entry_text(info).subrange(0, KIND_WIDTH as int) == pad_right(
            kind_name(info.kind),
            KIND_WIDTH as nat,
        ),
        entry_text(info)[KIND_WIDTH as int] == ' ',
        entry_text(info).subrange(KIND_WIDTH + 1, KIND_WIDTH + 1 + SIZE_WIDTH) == pad_right(
            decimal(info.size_bytes),
            SIZE_WIDTH as nat,
        ),
        entry_text(info)[KIND_WIDTH + 1 + SIZE_WIDTH] == ' ',
        entry_text(info).subrange(
            KIND_WIDTH + 1 + SIZE_WIDTH + 1,
            entry_text(info).len() as int,
        ) == info.name,
{
    reveal_strlit("File");
    reveal_strlit("Directory");
    reveal_strlit("Other");
    reveal_strlit(" ");
    let kind = pad_right(kind_name(info.kind), KIND_WIDTH as nat);
    let size = pad_right(decimal(info.size_bytes), SIZE_WIDTH as nat);
    lemma_pad_right_len(kind_name(info.kind), KIND_WIDTH as nat);
    lemma_decimal_of_u64(info.size_bytes);
    lemma_pad_right_len(decimal(info.size_bytes), SIZE_WIDTH as nat);
    assert(kind.len() == KIND_WIDTH);
    assert(size.len() == SIZE_WIDTH);
    let text = entry_text(info);
    assert(text =~= kind + seq![' '] + size + seq![' '] + info.name);
    assert(text.subrange(0, KIND_WIDTH as int) =~= kind);
    assert(text.subrange(KIND_WIDTH + 1, KIND_WIDTH + 1 + SIZE_WIDTH) =~= size);
    assert(text.subrange(KIND_WIDTH + 1 + SIZE_WIDTH + 1, text.len() as int) =~= info.name);
}

} // verus!
