//! Container for a random map script and the definition files that come with it.

use crate::diagnostic::{ByteIndex, FileId};
use crate::state::Compatibility;
use crate::text::{bytes_eq, str_eq};
use vstd::prelude::*;
use vstd::string::*;

verus! {

broadcast use vstd::seq::group_seq_axioms;

/// One file: its name and its source text.
#[derive(Debug, Clone)]
pub struct FileData {
    name: String,
    source: String,
}

impl FileData {
    /// A file with a name and a source text.
    pub fn new(name: String, source: String) -> (r: Self)
        ensures
            r.spec_name() == name@,
            r.spec_source() == source@,
    {
        FileData { name, source }
    }

    pub closed spec fn spec_name(&self) -> Seq<char> {
        self.name@
    }

    pub closed spec fn spec_source(&self) -> Seq<char> {
        self.source@
    }

    /// The bytes of the source text.
    pub closed spec fn spec_bytes(&self) -> Seq<u8> {
        vstd::utf8::encode_utf8(self.source@)
    }

    /// The bytes of the name.
    pub closed spec fn spec_name_bytes(&self) -> Seq<u8> {
        vstd::utf8::encode_utf8(self.name@)
    }

    fn name(&self) -> (r: &str)
        ensures
            r@ == self.spec_name(),
            r.spec_bytes() == self.spec_name_bytes(),
    {
        self.name.as_str()
    }

    fn source(&self) -> (r: &str)
        ensures
            r@ == self.spec_source(),
            r.spec_bytes() == self.spec_bytes(),
    {
        self.source.as_str()
    }
}

/// The definition files that the game reads before a map script: one for The Conquerors and
/// the UserPatch, one for HD Edition and one for WololoKingdoms.
pub struct Definitions {
    pub aoc: String,
    pub hd: String,
    pub wk: String,
}

/// Container for a random map script, generalising various formats.
///
/// The map's own files come first, the main script at index 0; the three definition files
/// follow them.
#[derive(Debug)]
pub struct RMSFile {
    files: Vec<FileData>,
    /// File ID of the AoC random_map.def file.
    def_aoc: FileId,
    /// File ID of the HD Edition random_map.def file.
    def_hd: FileId,
    /// File ID of the WololoKingdoms random_map.def file.
    def_wk: FileId,
}

/// The name under which the definition files are listed.
pub open spec fn definitions_name() -> Seq<char> {
    "random_map.def"@
}

impl RMSFile {
    /// The files, the map's own first and the three definition files last.
    pub closed spec fn files(&self) -> Seq<FileData> {
        self.files@
    }

    /// The files are the map's own, if any, followed by the three definition files.
    pub closed spec fn wf(&self) -> bool {
        &&& self.files@.len() >= 3
        &&& self.files@.len() <= u32::MAX
        &&& self.def_aoc.0 == self.files@.len() - 3
        &&& self.def_hd.0 == self.files@.len() - 2
        &&& self.def_wk.0 == self.files@.len() - 1
    }

    /// The file id of the definitions for a compatibility level.
    pub open spec fn spec_definitions_id(&self, compatibility: Compatibility) -> FileId {
        match compatibility {
            Compatibility::WololoKingdoms => FileId((self.files().len() - 1) as u32),
            Compatibility::HDEdition => FileId((self.files().len() - 2) as u32),
            _ => FileId((self.files().len() - 3) as u32),
        }
    }

    /// Build a map from its own files and the definition files. `None` when there are too many
    /// files to number. With no file of its own, the map's first file is the first definition
    /// file.
    pub fn new(files: Vec<FileData>, definitions: Definitions) -> (r: Option<Self>)
        ensures
            r matches Some(m) ==> m.wf() && m.files().take(files@.len() as int) == files@
                && m.files().len() == files@.len() + 3
                && m.files()[files@.len() as int].spec_source() == definitions.aoc@
                && m.files()[files@.len() + 1int].spec_source() == definitions.hd@
                && m.files()[files@.len() + 2int].spec_source() == definitions.wk@
                && m.files()[files@.len() as int].spec_name() == definitions_name()
                && m.files()[files@.len() + 1int].spec_name() == definitions_name()
                && m.files()[files@.len() + 2int].spec_name() == definitions_name(),
            r is None <==> files@.len() + 3 > u32::MAX,
    {
        let Definitions { aoc, hd, wk } = definitions;
        if files.len() > 0xffff_fffc {
            return None;
        }
        let mut files = files;
        let ghost own = files@;
        let n = files.len();
        let def_aoc = FileId(n as u32);
        files.push(FileData::new(String::from_str("random_map.def"), aoc));
        let def_hd = FileId((n + 1) as u32);
        files.push(FileData::new(String::from_str("random_map.def"), hd));
        let def_wk = FileId((n + 2) as u32);
        files.push(FileData::new(String::from_str("random_map.def"), wk));
        let r = RMSFile { files, def_aoc, def_hd, def_wk };
        assert(r.files@.take(n as int) =~= own);
        Some(r)
    }

    /// A map made of one script, with empty definition files.
    pub fn from_string(name: &str, source: &str) -> (r: Self)
        ensures
            r.wf(),
            r.files().len() == 4,
            r.files()[0].spec_name() == name@,
            r.files()[0].spec_source() == source@,
            r.files()[1].spec_source().len() == 0,
            r.files()[2].spec_source().len() == 0,
            r.files()[3].spec_source().len() == 0,
    {
        Self::from_string_with_definitions(
            name,
            source,
            Definitions { aoc: String::new(), hd: String::new(), wk: String::new() },
        )
    }

    /// A map made of one script, with the given definition files.
    pub fn from_string_with_definitions(name: &str, source: &str, definitions: Definitions) -> (r:
        Self)
        ensures
            r.wf(),
            r.files().len() == 4,
            r.files()[0].spec_name() == name@,
            r.files()[0].spec_source() == source@,
            r.files()[1].spec_source() == definitions.aoc@,
            r.files()[2].spec_source() == definitions.hd@,
            r.files()[3].spec_source() == definitions.wk@,
    {
        let mut files = Vec::new();
        files.push(FileData::new(String::from_str(name), String::from_str(source)));
        let r = Self::new(files, definitions).unwrap();
        assert(r.files()[0] == r.files().take(1)[0]);
        r
    }

    /// Get the definitions file for this map.
    pub fn definitions(&self, compatibility: Compatibility) -> (r: (FileId, &str))
        requires
            self.wf(),
        ensures
            r.0 == self.spec_definitions_id(compatibility),
            r.1@ == self.files()[r.0.0 as int].spec_source(),
            r.1.spec_bytes() == self.files()[r.0.0 as int].spec_bytes(),
    {
        let id = match compatibility {
            Compatibility::WololoKingdoms => self.def_wk,
            Compatibility::HDEdition => self.def_hd,
            _ => self.def_aoc,
        };
        (id, self.source(id))
    }

    /// The source of a file.
    pub fn source(&self, file: FileId) -> (r: &str)
        requires
            file.0 < self.files().len(),
        ensures
            r@ == self.files()[file.0 as int].spec_source(),
            r.spec_bytes() == self.files()[file.0 as int].spec_bytes(),
    {
        self.files[file.0 as usize].source()
    }

    /// The name of a file.
    pub fn name(&self, file: FileId) -> (r: &str)
        requires
            file.0 < self.files().len(),
        ensures
            r@ == self.files()[file.0 as int].spec_name(),
    {
        self.files[file.0 as usize].name()
    }

    /// Get the [`FileId`] of the main script in this map.
    pub fn file_id(&self) -> (r: FileId)
        ensures
            r.0 == 0,
    {
        FileId(0)
    }

    /// The number of files: the map's own, then the three definition files.
    pub fn file_count(&self) -> (r: usize)
        ensures
            r == self.files().len(),
    {
        self.files.len()
    }

    /// Get the source code of the main script in this map.
    pub fn main_source(&self) -> (r: &str)
        requires
            self.wf(),
        ensures
            r@ == self.files()[0].spec_source(),
            r.spec_bytes() == self.files()[0].spec_bytes(),
    {
        self.files[0].source()
    }

    /// Get the FileId for a file with the given name in this map (mostly for ZR@ maps): the
    /// first file with that name.
    pub fn find_file_id(&self, name: &str) -> (r: Option<FileId>)
        requires
            self.wf(),
        ensures
            match r {
                Some(id) => id.0 < self.files().len() && self.files()[id.0 as int].spec_name()
                    == name@ && forall|j: int|
                    0 <= j < id.0 ==> #[trigger] self.files()[j].spec_name() != name@,
                None => forall|j: int|
                    0 <= j < self.files().len() ==> #[trigger] self.files()[j].spec_name() != name@,
            },
    {
        let mut i: usize = 0;
        while i < self.files.len()
            invariant
                i <= self.files@.len(),
                self.files@.len() <= u32::MAX,
                forall|j: int| 0 <= j < i ==> #[trigger] self.files@[j].spec_name() != name@,
            decreases self.files@.len() - i,
        {
            if str_eq(self.files[i].name(), name) {
                return Some(FileId(i as u32));
            }
            i = i + 1;
        }
        None
    }

    /// The source of the first file with the given name.
    pub fn find_file_source(&self, name: &str) -> (r: Option<&str>)
        requires
            self.wf(),
        ensures
            match r {
                Some(s) => exists|i: int|
                    0 <= i < self.files().len() && self.files()[i].spec_name() == name@ && (forall|
                        j: int,
                    | 0 <= j < i ==> #[trigger] self.files()[j].spec_name() != name@) && s@
                        == #[trigger] self.files()[i].spec_source(),
                None => forall|j: int|
                    0 <= j < self.files().len() ==> #[trigger] self.files()[j].spec_name() != name@,
            },
    {
        match self.find_file_id(name) {
            Some(id) => Some(self.source(id)),
            None => None,
        }
    }

    /// Is this a ZR@ map, whose main file's name starts with `ZR@`?
    pub fn is_zip_rms(&self) -> (r: bool)
        requires
            self.wf(),
        ensures
            r == is_zip_rms_name(self.files()[0].spec_name_bytes()),
    {
        let name = self.files[0].name().as_bytes();
        name.len() >= 3 && name[0] == 0x5a && name[1] == 0x52 && name[2] == 0x40
    }
}

/// Does a file name start with `ZR@`?
pub open spec fn is_zip_rms_name(name: Seq<u8>) -> bool {
    name.len() >= 3 && name[0] == 0x5a && name[1] == 0x52 && name[2] == 0x40
}

/// The number of line feeds among the first `i` bytes.
pub open spec fn newlines_before(b: Seq<u8>, i: int) -> int
    decreases i,
{
    if i <= 0 {
        0
    } else {
        newlines_before(b, i - 1) + if b[i - 1] == 0x0a {
            1int
        } else {
            0int
        }
    }
}

/// The start of the line that the byte offset `i` is on: just after the last line feed before
/// it, or 0.
pub open spec fn line_start(b: Seq<u8>, i: int) -> int
    decreases i,
{
    if i <= 0 {
        0
    } else if b[i - 1] == 0x0a {
        i
    } else {
        line_start(b, i - 1)
    }
}

impl RMSFile {
    /// The line and column of a byte offset in a file, both counted from 0; the column counts
    /// bytes. `None` when there is no such file or the offset lies past its end.
    pub fn get_location(&self, file: FileId, index: ByteIndex) -> (r: Option<(usize, usize)>)
        ensures
            match r {
                Some((line, column)) => file.0 < self.files().len() && index.0 <= self.files()[file.0 as int].spec_bytes().len()
                    && line == newlines_before(self.files()[file.0 as int].spec_bytes(), index.0 as int)
                    && column == index.0 - line_start(self.files()[file.0 as int].spec_bytes(), index.0 as int),
                None => file.0 >= self.files().len() || index.0 > self.files()[file.0 as int].spec_bytes().len(),
            },
    {
        if file.0 as usize >= self.files.len() {
            return None;
        }
        let b = self.files[file.0 as usize].source().as_bytes();
        let ghost bs = self.files()[file.0 as int].spec_bytes();
        let n = index.0;
        if n > b.len() {
            return None;
        }
        let mut line: usize = 0;
        let mut start: usize = 0;
        let mut i: usize = 0;
        while i < n
            invariant
                b@ == bs,
                n <= b@.len(),
                i <= n,
                line == newlines_before(bs, i as int),
                start == line_start(bs, i as int),
                line <= i,
                start <= i,
            decreases n - i,
        {
            if b[i] == 0x0a {
                line = line + 1;
                start = i + 1;
            }
            i = i + 1;
        }
        Some((line, n - start))
    }
}

/// Does the byte offset `i` of the bytes lie at this line and column, both counted from 0?
pub open spec fn at_location(b: Seq<u8>, i: int, line: int, column: int) -> bool {
    0 <= i <= b.len() && newlines_before(b, i) == line && i - line_start(b, i) == column
}

/// Counting line feeds never goes down.
pub proof fn lemma_newlines_monotone(b: Seq<u8>, i: int, j: int)
    requires
        0 <= i <= j <= b.len(),
    ensures
        newlines_before(b, i) <= newlines_before(b, j),
    decreases j - i,
{
    if i < j {
        lemma_newlines_monotone(b, i, j - 1);
    }
}

/// Between two offsets with the same count of line feeds, the line starts at the same place.
proof fn lemma_same_line(b: Seq<u8>, i: int, j: int)
    requires
        0 <= i <= j <= b.len(),
        newlines_before(b, i) == newlines_before(b, j),
    ensures
        line_start(b, i) == line_start(b, j),
    decreases j - i,
{
    if i < j {
        lemma_newlines_monotone(b, i, j - 1);
        lemma_same_line(b, i, j - 1);
    }
}

/// A line starts at or before any offset on it, and not before the text.
pub proof fn lemma_line_start_bounds(b: Seq<u8>, i: int)
    requires
        0 <= i,
    ensures
        0 <= line_start(b, i) <= i,
    decreases i,
{
    if i > 0 && b[i - 1] != 0x0a {
        lemma_line_start_bounds(b, i - 1);
    }
}

/// At most one offset lies at a given line and column.
pub proof fn lemma_location_unique(b: Seq<u8>, i: int, j: int, line: int, column: int)
    requires
        at_location(b, i, line, column),
        at_location(b, j, line, column),
    ensures
        i == j,
{
    if i < j {
        lemma_same_line(b, i, j);
    } else if j < i {
        lemma_same_line(b, j, i);
    }
}

impl RMSFile {
    /// The byte offset at a line and column of a file, both counted from 0; the column counts
    /// bytes. `None` when there is no such file, or no offset of the file lies at that line and
    /// column.
    pub fn get_byte_index(&self, file: FileId, line: u32, column: u32) -> (r: Option<ByteIndex>)
        ensures
            match r {
                Some(ix) => file.0 < self.files().len() && at_location(
                    self.files()[file.0 as int].spec_bytes(),
                    ix.0 as int,
                    line as int,
                    column as int,
                ),
                None => file.0 >= self.files().len() || forall|i: int|
                    !at_location(
                        self.files()[file.0 as int].spec_bytes(),
                        i,
                        line as int,
                        column as int,
                    ),
            },
    {
        if file.0 as usize >= self.files.len() {
            return None;
        }
        let b = self.files[file.0 as usize].source().as_bytes();
        let ghost bs = self.files()[file.0 as int].spec_bytes();
        let mut nl: u32 = 0;
        let mut start: usize = 0;
        let mut i: usize = 0;
        while i < b.len() && nl < line
            invariant
                b@ == bs,
                i <= b@.len(),
                nl <= line,
                nl == newlines_before(bs, i as int),
                start == line_start(bs, i as int),
                start <= i,
                start > 0 ==> bs[start - 1] == 0x0a,
                newlines_before(bs, start as int) == nl,
                nl == line ==> start == i,
            decreases b@.len() - i,
        {
            if b[i] == 0x0a {
                nl = nl + 1;
                start = i + 1;
            }
            i = i + 1;
        }
        if nl < line {
            proof {
                assert forall|k: int| !at_location(bs, k, line as int, column as int) by {
                    if 0 <= k <= bs.len() {
                        lemma_newlines_monotone(bs, k, bs.len() as int);
                    }
                }
            }
            return None;
        }
        // Offsets before `start` lie on earlier lines.
        proof {
            assert forall|k: int| 0 <= k < start implies newlines_before(bs, k) < line by {
                assert(newlines_before(bs, start as int) == newlines_before(bs, start - 1) + 1);
                lemma_newlines_monotone(bs, k, start - 1);
            }
        }
        if column as usize > b.len() - start {
            proof {
                assert forall|k: int| !at_location(bs, k, line as int, column as int) by {
                    if 0 <= k <= bs.len() && newlines_before(bs, k) == line {
                        lemma_same_line(bs, start as int, k);
                    }
                }
            }
            return None;
        }
        let end = start + column as usize;
        let mut j: usize = start;
        while j < end
            invariant
                b@ == bs,
                start <= j <= end <= b@.len(),
                end == start + column,
                file.0 < self.files().len(),
                bs == self.files()[file.0 as int].spec_bytes(),
                newlines_before(bs, start as int) == line,
                line_start(bs, start as int) == start,
                newlines_before(bs, j as int) == line,
                line_start(bs, j as int) == start,
                forall|k: int| 0 <= k < start ==> newlines_before(bs, k) < line,
            decreases end - j,
        {
            if b[j] == 0x0a {
                proof {
                    assert forall|k: int| !at_location(bs, k, line as int, column as int) by {
                        if 0 <= k <= bs.len() && newlines_before(bs, k) == line {
                            if k > j {
                                assert(newlines_before(bs, j + 1) == newlines_before(bs, j as int) + 1);
                                lemma_newlines_monotone(bs, j + 1, k);
                            }
                            if k >= start {
                                lemma_same_line(bs, start as int, k);
                            }
                        }
                    }
                }
                return None;
            }
            j = j + 1;
        }
        Some(ByteIndex(end))
    }
}

} // verus!
