//! The catalog of finished downloads: one line of text per artifact.
//!
//! A record is `<bvid>|<title>|<output path>` and a line feed. Nothing is
//! escaped, so a title with a `|` makes a line of more than three fields,
//! which the duplicate check still reads and the listing passes over. The
//! catalog only grows: the crate reads it whole and writes single lines to
//! put at its end.

use vstd::prelude::*;
use crate::text::{
    append_decimal, count_of, decimal, has_char, lemma_count_concat, lemma_count_none,
    lemma_split_join, lemma_split_len, lemma_split_plain, range_equals, ranges_are, split,
    split_ranges, to_chars,
};

verus! {

/// One record of the catalog.
#[derive(Debug, Clone, PartialEq, Eq)]
pub struct CatalogEntry {
    pub bvid: String,
    pub title: String,
    pub output_path: String,
}

/// A `CatalogEntry` with its strings as character sequences.
pub struct EntryModel {
    pub bvid: Seq<char>,
    pub title: Seq<char>,
    pub output_path: Seq<char>,
}

impl View for CatalogEntry {
    type V = EntryModel;

    open spec fn view(&self) -> EntryModel {
        EntryModel { bvid: self.bvid@, title: self.title@, output_path: self.output_path@ }
    }
}

/// A line without the carriage return that may end it.
pub open spec fn strip_cr(line: Seq<char>) -> Seq<char> {
    if line.len() > 0 && line.last() == '\r' {
        line.drop_last()
    } else {
        line
    }
}

/// The lines of a text, as `str::lines` gives them: each line ends at a line
/// feed, with the carriage return before it dropped too; what follows the
/// last line feed is a line of its own unless it is empty.
pub open spec fn lines(text: Seq<char>) -> Seq<Seq<char>> {
    let pieces = split(text, '\n');
    let count = if pieces.last().len() == 0 {
        pieces.len() - 1
    } else {
        pieces.len() as int
    };
    Seq::new(
        count as nat,
        |i: int|
            if i < pieces.len() - 1 {
                strip_cr(pieces[i])
            } else {
                pieces[i]
            },
    )
}

/// The fields of a line.
pub open spec fn fields(line: Seq<char>) -> Seq<Seq<char>> {
    split(line, '|')
}

/// The record that a line of exactly three fields holds.
pub open spec fn entry_of(line: Seq<char>) -> Option<EntryModel> {
    let f = fields(line);
    if f.len() == 3 {
        Some(EntryModel { bvid: f[0], title: f[1], output_path: f[2] })
    } else {
        None
    }
}

/// The records of the lines that hold one, in the order of the lines.
pub open spec fn entries_in(lines: Seq<Seq<char>>) -> Seq<EntryModel>
    decreases lines.len(),
{
    if lines.len() == 0 {
        Seq::empty()
    } else {
        let before = entries_in(lines.drop_last());
        match entry_of(lines.last()) {
            Some(entry) => before.push(entry),
            None => before,
        }
    }
}

/// The records of a catalog: its lines of exactly three fields, in order.
pub open spec fn catalog_entries(text: Seq<char>) -> Seq<EntryModel> {
    entries_in(lines(text))
}

/// Whether a line says that `bvid` was downloaded: it has at least three
/// fields and the first is `bvid`, character for character. A line that was
/// cut short has fewer fields and says nothing.
pub open spec fn line_records(line: Seq<char>, bvid: Seq<char>) -> bool {
    fields(line).len() >= 3 && fields(line)[0] == bvid
}

/// Whether some line of the catalog says that `bvid` was downloaded.
pub open spec fn is_cataloged(text: Seq<char>, bvid: Seq<char>) -> bool {
    exists|i: int| 0 <= i < lines(text).len() && line_records(#[trigger] lines(text)[i], bvid)
}

/// The line that records an artifact.
pub open spec fn catalog_line(bvid: Seq<char>, title: Seq<char>, output_path: Seq<char>) -> Seq<
    char,
> {
    bvid + seq!['|'] + title + seq!['|'] + output_path + seq!['\n']
}

/// The line of the listing for the record at `index`, counted from 0: its
/// number, counted from 1, a full stop, a space and the title.
pub open spec fn listing_line(index: int, entry: EntryModel) -> Seq<char> {
    decimal((index + 1) as nat) + seq!['.', ' '] + entry.title
}

/// The models of a run of entries.
pub open spec fn entry_models(entries: Seq<CatalogEntry>) -> Seq<EntryModel> {
    Seq::new(entries.len(), |i: int| entries[i]@)
}

/// Where the lines of a text begin and end in it.
fn line_ranges(chars: &Vec<char>) -> (bounds: Vec<(usize, usize)>)
    ensures
        ranges_are(chars@, bounds@, lines(chars@)),
{
    let pieces = split_ranges(chars, 0, chars.len(), '\n');
    assert(chars@.subrange(0, chars.len() as int) =~= chars@);
    let ghost all = split(chars@, '\n');
    let mut bounds: Vec<(usize, usize)> = Vec::new();
    let mut i: usize = 0;
    while i + 1 < pieces.len()
        invariant
            pieces.len() >= 1,
            i + 1 <= pieces.len(),
            all == split(chars@, '\n'),
            ranges_are(chars@, pieces@, all),
            bounds.len() == i,
            forall|j: int|
                0 <= j < i ==> {
                    &&& (#[trigger] bounds[j]).0 <= bounds[j].1 <= chars.len()
                    &&& chars@.subrange(bounds[j].0 as int, bounds[j].1 as int) == strip_cr(
                        all[j],
                    )
                },
        decreases pieces.len() - i,
    {
        let (a, b) = pieces[i];
        assert(chars@.subrange(a as int, b as int) == all[i as int]);
        if b > a && chars[b - 1] == '\r' {
            assert(chars@.subrange(a as int, b - 1) =~= all[i as int].drop_last());
            bounds.push((a, b - 1));
        } else {
            bounds.push((a, b));
        }
        i += 1;
    }
    let (a, b) = pieces[i];
    assert(chars@.subrange(a as int, b as int) == all[i as int]);
    if b > a {
        bounds.push((a, b));
    }
    assert(bounds@.len() == lines(chars@).len());
    assert forall|j: int| 0 <= j < bounds.len() implies {
        &&& (#[trigger] bounds[j]).0 <= bounds[j].1 <= chars@.len()
        &&& chars@.subrange(bounds[j].0 as int, bounds[j].1 as int) == lines(chars@)[j]
    } by {}
    bounds
}

/// Reads the records of a catalog.
pub fn parse_catalog(text: &str) -> (entries: Vec<CatalogEntry>)
    ensures
        entry_models(entries@) == catalog_entries(text@),
{
    let chars = to_chars(text);
    let bounds = line_ranges(&chars);
    let ghost all = lines(text@);
    let mut entries: Vec<CatalogEntry> = Vec::new();
    let mut i: usize = 0;
    assert(all.take(0) =~= Seq::<Seq<char>>::empty());
    assert(entry_models(entries@) =~= entries_in(all.take(0)));
    while i < bounds.len()
        invariant
            chars@ == text@,
            all == lines(text@),
            ranges_are(chars@, bounds@, all),
            i <= bounds.len(),
            entry_models(entries@) == entries_in(all.take(i as int)),
        decreases bounds.len() - i,
    {
        let (a, b) = bounds[i];
        let parts = split_ranges(&chars, a, b, '|');
        let ghost before = entries@;
        proof {
            assert(all.take(i + 1).drop_last() =~= all.take(i as int));
            assert(all.take(i + 1).last() == all[i as int]);
            assert(chars@.subrange(a as int, b as int) == all[i as int]);
        }
        if parts.len() == 3 {
            let entry = CatalogEntry {
                bvid: String::from_str(text.substring_char(parts[0].0, parts[0].1)),
                title: String::from_str(text.substring_char(parts[1].0, parts[1].1)),
                output_path: String::from_str(text.substring_char(parts[2].0, parts[2].1)),
            };
            assert(Some(entry@) == entry_of(all[i as int]));
            entries.push(entry);
            assert(entry_models(entries@) =~= entry_models(before).push(entry@));
        }
        i += 1;
    }
    assert(all.take(bounds.len() as int) =~= all);
    entries
}

/// The listing of a catalog: one line for each record, numbered from 1 in
/// the order of the catalog. Lines that hold no record get no number.
pub fn list_downloaded_audios(text: &str) -> (listing: Vec<String>)
    ensures
        listing.len() == catalog_entries(text@).len(),
        forall|i: int|
            0 <= i < listing.len() ==> (#[trigger] listing[i])@ == listing_line(
                i,
                catalog_entries(text@)[i],
            ),
{
    let entries = parse_catalog(text);
    let mut listing: Vec<String> = Vec::new();
    let mut i: usize = 0;
    while i < entries.len()
        invariant
            i <= entries.len(),
            entry_models(entries@) == catalog_entries(text@),
            listing.len() == i,
            forall|j: int|
                0 <= j < i ==> (#[trigger] listing[j])@ == listing_line(
                    j,
                    catalog_entries(text@)[j],
                ),
        decreases entries.len() - i,
    {
        let mut line = String::new();
        append_decimal(&mut line, (i + 1) as u64);
        proof {
            reveal_strlit(". ");
            assert(". "@ =~= seq!['.', ' ']);
            assert(entry_models(entries@)[i as int] == entries@[i as int]@);
        }
        line.append(". ");
        line.append(entries[i].title.as_str());
        assert(line@ =~= listing_line(i as int, catalog_entries(text@)[i as int]));
        listing.push(line);
        i += 1;
    }
    listing
}

/// The artifact behind a number of the listing: the output path of the
/// record that `list_downloaded_audios` numbers `index`. There is none for 0
/// or for a number beyond the last record.
pub fn play_audio_by_index(text: &str, index: usize) -> (path: Option<String>)
    ensures
        1 <= index <= catalog_entries(text@).len() ==> (path matches Some(p) && p@
            == catalog_entries(text@)[index - 1].output_path),
        !(1 <= index <= catalog_entries(text@).len()) ==> path is None,
{
    let entries = parse_catalog(text);
    if index == 0 || index > entries.len() {
        return None;
    }
    assert(entry_models(entries@)[index - 1] == entries@[index - 1]@);
    Some(entries[index - 1].output_path.clone())
}

/// The duplicate check: whether the catalog already records `bvid`.
pub fn is_already_downloaded(text: &str, bvid: &str) -> (found: bool)
    ensures
        found == is_cataloged(text@, bvid@),
{
    let chars = to_chars(text);
    let wanted = to_chars(bvid);
    let bounds = line_ranges(&chars);
    let ghost all = lines(text@);
    let mut i: usize = 0;
    while i < bounds.len()
        invariant
            chars@ == text@,
            wanted@ == bvid@,
            all == lines(text@),
            ranges_are(chars@, bounds@, all),
            i <= bounds.len(),
            forall|j: int| 0 <= j < i ==> !line_records(#[trigger] all[j], bvid@),
        decreases bounds.len() - i,
    {
        let (a, b) = bounds[i];
        let parts = split_ranges(&chars, a, b, '|');
        assert(chars@.subrange(a as int, b as int) == all[i as int]);
        if parts.len() >= 3 && range_equals(&chars, parts[0].0, parts[0].1, &wanted) {
            assert(line_records(all[i as int], bvid@));
            return true;
        }
        i += 1;
    }
    false
}

/// The line to put at the end of the catalog for a new artifact.
pub fn save_audio_info(output_path: &str, title: &str, bvid: &str) -> (line: String)
    ensures
        line@ == catalog_line(bvid@, title@, output_path@),
{
    proof {
        reveal_strlit("|");
        reveal_strlit("\n");
        assert("|"@ =~= seq!['|']);
        assert("\n"@ =~= seq!['\n']);
    }
    let mut line = String::from_str(bvid);
    line.append("|");
    line.append(title);
    line.append("|");
    line.append(output_path);
    line.append("\n");
    line
}

/// Whether a catalog can take a new line at its end without running into
/// its last one: it is empty or ends in a line feed.
pub open spec fn ends_lines(text: Seq<char>) -> bool {
    text.len() == 0 || text.last() == '\n'
}

proof fn lemma_entries_concat(x: Seq<Seq<char>>, y: Seq<Seq<char>>)
    ensures
        entries_in(x + y) == entries_in(x) + entries_in(y),
    decreases y.len(),
{
    if y.len() == 0 {
        assert(x + y =~= x);
        assert(entries_in(x) + entries_in(y) =~= entries_in(x));
    } else {
        assert((x + y).drop_last() =~= x + y.drop_last());
        assert((x + y).last() == y.last());
        lemma_entries_concat(x, y.drop_last());
        assert(entries_in(x + y) =~= entries_in(x) + entries_in(y));
    }
}

/// The lines of a text that follows complete lines are the lines of the
/// two, one after the other.
pub proof fn lemma_lines_append(text: Seq<char>, more: Seq<char>)
    requires
        ends_lines(text),
    ensures
        lines(text + more) == lines(text) + lines(more),
{
    lemma_split_len(more, '\n');
    if text.len() == 0 {
        assert(text + more =~= more);
        assert(lines(text) =~= Seq::<Seq<char>>::empty());
        assert(lines(text + more) =~= lines(text) + lines(more));
    } else {
        let head = text.drop_last();
        let none = Seq::<char>::empty();
        lemma_split_len(head, '\n');
        lemma_split_join(head, none, '\n');
        lemma_split_join(head, more, '\n');
        assert(head + seq!['\n'] + none =~= text);
        assert(head + seq!['\n'] + more =~= text + more);
        assert(split(none, '\n') =~= seq![none]);
        let ph = split(head, '\n');
        let pm = split(more, '\n');
        assert(split(text, '\n') == ph + seq![none]);
        assert(split(text + more, '\n') == ph + pm);
        assert(lines(text).len() == ph.len());
        assert((ph + pm).last() == pm.last());
        assert(lines(text + more).len() == ph.len() + lines(more).len());
        assert forall|i: int| 0 <= i < lines(text + more).len() implies lines(text + more)[i] == (
        lines(text) + lines(more))[i] by {
            if i < ph.len() {
                assert((ph + pm)[i] == ph[i]);
                assert((ph + seq![none])[i] == ph[i]);
            } else {
                assert((ph + pm)[i] == pm[i - ph.len()]);
            }
        }
        assert(lines(text + more) =~= lines(text) + lines(more));
    }
}

/// Appending to a catalog of complete lines keeps every record where it
/// was: the records of the longer text are the old ones, and then those of
/// what was appended. What the duplicate check found before, it still finds.
pub proof fn lemma_append_keeps_records(text: Seq<char>, more: Seq<char>)
    requires
        ends_lines(text),
    ensures
        (text + more).subrange(0, text.len() as int) == text,
        catalog_entries(text + more) == catalog_entries(text) + catalog_entries(more),
        forall|bvid: Seq<char>| is_cataloged(text, bvid) ==> is_cataloged(text + more, bvid),
{
    lemma_lines_append(text, more);
    lemma_entries_concat(lines(text), lines(more));
    assert((text + more).subrange(0, text.len() as int) =~= text);
    assert forall|bvid: Seq<char>| is_cataloged(text, bvid) implies is_cataloged(
        text + more,
        bvid,
    ) by {
        let i = choose|i: int| 0 <= i < lines(text).len() && line_records(lines(text)[i], bvid);
        assert(lines(text + more)[i] == lines(text)[i]);
    }
}

/// The text of a record without the line feed.
pub open spec fn record_text(bvid: Seq<char>, title: Seq<char>, output_path: Seq<char>) -> Seq<
    char,
> {
    bvid + seq!['|'] + title + seq!['|'] + output_path
}

proof fn lemma_record_lines(bvid: Seq<char>, title: Seq<char>, output_path: Seq<char>)
    requires
        !has_char(bvid, '\n'),
        !has_char(title, '\n'),
        !has_char(output_path, '\n'),
    ensures
        lines(catalog_line(bvid, title, output_path)) == seq![
            record_text(bvid, title, strip_cr(output_path)),
        ],
{
    let rec = record_text(bvid, title, output_path);
    let none = Seq::<char>::empty();
    assert(!has_char(rec, '\n')) by {
        if has_char(rec, '\n') {
            let i = choose|i: int| 0 <= i < rec.len() && rec[i] == '\n';
            if i < bvid.len() {
                assert(bvid[i] == '\n');
            } else if i == bvid.len() {
            } else if i < bvid.len() + 1 + title.len() {
                assert(title[i - bvid.len() - 1] == '\n');
            } else if i == bvid.len() + 1 + title.len() {
            } else {
                assert(output_path[i - bvid.len() - title.len() - 2] == '\n');
            }
        }
    }
    lemma_split_plain(rec, '\n');
    lemma_split_join(rec, none, '\n');
    assert(rec + seq!['\n'] + none =~= catalog_line(bvid, title, output_path));
    assert(split(none, '\n') =~= seq![none]);
    assert(split(catalog_line(bvid, title, output_path), '\n') =~= seq![rec, none]);
    assert(strip_cr(rec) =~= record_text(bvid, title, strip_cr(output_path)));
    assert(lines(catalog_line(bvid, title, output_path)) =~= seq![strip_cr(rec)]);
}

proof fn lemma_record_fields(bvid: Seq<char>, title: Seq<char>, output_path: Seq<char>)
    requires
        !has_char(bvid, '|'),
    ensures
        fields(record_text(bvid, title, output_path)).len() >= 3,
        fields(record_text(bvid, title, output_path))[0] == bvid,
        !has_char(title, '|') && !has_char(output_path, '|') ==> fields(
            record_text(bvid, title, output_path),
        ) == seq![bvid, title, output_path],
{
    let tail = title + seq!['|'] + output_path;
    lemma_split_join(bvid, tail, '|');
    lemma_split_join(title, output_path, '|');
    lemma_split_plain(bvid, '|');
    lemma_split_len(title, '|');
    lemma_split_len(output_path, '|');
    assert(bvid + seq!['|'] + tail =~= record_text(bvid, title, output_path));
    if !has_char(title, '|') && !has_char(output_path, '|') {
        lemma_split_plain(title, '|');
        lemma_split_plain(output_path, '|');
        assert(fields(record_text(bvid, title, output_path)) =~= seq![bvid, title, output_path]);
    }
}

/// Once the line for a download stands at the end of the catalog, the
/// duplicate check finds its BVID. This holds for a BVID without `|` and
/// line feed and a title and path without line feed, put after complete
/// lines; a title with a line feed would break the record in two.
pub proof fn lemma_saved_is_found(
    text: Seq<char>,
    bvid: Seq<char>,
    title: Seq<char>,
    output_path: Seq<char>,
)
    requires
        ends_lines(text),
        !has_char(bvid, '|'),
        !has_char(bvid, '\n'),
        !has_char(title, '\n'),
        !has_char(output_path, '\n'),
    ensures
        is_cataloged(text + catalog_line(bvid, title, output_path), bvid),
{
    let line = catalog_line(bvid, title, output_path);
    lemma_lines_append(text, line);
    lemma_record_lines(bvid, title, output_path);
    lemma_record_fields(bvid, title, strip_cr(output_path));
    let at = lines(text).len() as int;
    assert(lines(text + line)[at] == record_text(bvid, title, strip_cr(output_path)));
    assert(line_records(lines(text + line)[at], bvid));
}

/// The line for a download adds exactly one record to the listing, after
/// all earlier ones, where none of its fields holds a `|` or a line feed.
/// The record's path is the path without a closing carriage return.
pub proof fn lemma_saved_is_listed(
    text: Seq<char>,
    bvid: Seq<char>,
    title: Seq<char>,
    output_path: Seq<char>,
)
    requires
        ends_lines(text),
        !has_char(bvid, '|') && !has_char(title, '|') && !has_char(output_path, '|'),
        !has_char(bvid, '\n') && !has_char(title, '\n') && !has_char(output_path, '\n'),
    ensures
        catalog_entries(text + catalog_line(bvid, title, output_path)) == catalog_entries(
            text,
        ).push(EntryModel { bvid, title, output_path: strip_cr(output_path) }),
{
    let line = catalog_line(bvid, title, output_path);
    let path = strip_cr(output_path);
    lemma_append_keeps_records(text, line);
    lemma_record_lines(bvid, title, output_path);
    assert(!has_char(path, '|')) by {
        if has_char(path, '|') {
            let i = choose|i: int| 0 <= i < path.len() && path[i] == '|';
            assert(output_path[i] == '|');
        }
    }
    lemma_record_fields(bvid, title, path);
    let rec = record_text(bvid, title, path);
    assert(seq![rec].drop_last() =~= Seq::<Seq<char>>::empty());
    assert(seq![rec].last() == rec);
    assert(entry_of(rec) == Some(EntryModel { bvid, title, output_path: path }));
    reveal_with_fuel(entries_in, 3);
    assert(entries_in(seq![rec]) =~= seq![EntryModel { bvid, title, output_path: path }]);
    assert(catalog_entries(text + line) =~= catalog_entries(text).push(
        EntryModel { bvid, title, output_path: path },
    ));
}

/// The shape of a written line: it ends in a line feed, and holds two `|`
/// more than its fields do, so exactly two where they hold none; it holds
/// one line feed where the fields hold none.
pub proof fn lemma_line_shape(bvid: Seq<char>, title: Seq<char>, output_path: Seq<char>)
    ensures
        catalog_line(bvid, title, output_path).last() == '\n',
        count_of(catalog_line(bvid, title, output_path), '|') == 2 + count_of(bvid, '|')
            + count_of(title, '|') + count_of(output_path, '|'),
        !has_char(bvid, '|') && !has_char(title, '|') && !has_char(output_path, '|')
            ==> count_of(catalog_line(bvid, title, output_path), '|') == 2,
        count_of(catalog_line(bvid, title, output_path), '\n') == 1 + count_of(bvid, '\n')
            + count_of(title, '\n') + count_of(output_path, '\n'),
{
    let bar = seq!['|'];
    let feed = seq!['\n'];
    assert(bar.drop_last() =~= Seq::<char>::empty());
    assert(feed.drop_last() =~= Seq::<char>::empty());
    reveal_with_fuel(count_of, 3);
    assert(count_of(bar, '|') == 1 && count_of(bar, '\n') == 0);
    assert(count_of(feed, '|') == 0 && count_of(feed, '\n') == 1);
    lemma_count_concat(bvid, bar, '|');
    lemma_count_concat(bvid + bar, title, '|');
    lemma_count_concat(bvid + bar + title, bar, '|');
    lemma_count_concat(bvid + bar + title + bar, output_path, '|');
    lemma_count_concat(bvid + bar + title + bar + output_path, feed, '|');
    lemma_count_concat(bvid, bar, '\n');
    lemma_count_concat(bvid + bar, title, '\n');
    lemma_count_concat(bvid + bar + title, bar, '\n');
    lemma_count_concat(bvid + bar + title + bar, output_path, '\n');
    lemma_count_concat(bvid + bar + title + bar + output_path, feed, '\n');
    lemma_count_none(bvid, '|');
    lemma_count_none(title, '|');
    lemma_count_none(output_path, '|');
}

} // verus!
