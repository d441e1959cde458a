//! Reading a map from the bytes of a file: a plain script, a ZR@ archive, or the files of an
//! unpacked ZR@ archive.

use crate::decoding::{file_text, to_chardet_string};
use crate::text::str_eq;
use crate::rms_file::{is_zip_rms_name, Definitions, FileData, RMSFile};
use vstd::prelude::*;
use vstd::string::*;
use vstd::utf8::encode_utf8;

verus! {

broadcast use vstd::seq::group_seq_axioms;

#[verifier::external_type_specification]
#[verifier::external_body]
#[verifier::reject_recursive_types(R)]
pub struct ExZipArchive<R>(zip::ZipArchive<R>);

#[verifier::external_type_specification]
#[verifier::external_body]
#[verifier::reject_recursive_types(T)]
pub struct ExCursor<T>(std::io::Cursor<T>);

#[verifier::external_type_specification]
#[verifier::external_body]
pub struct ExZipError(zip::result::ZipError);

/// What `zip::ZipArchive::new` makes of some bytes: nothing when the crate cannot read them as
/// an archive; else, for each entry in the order of the central directory, its name and its
/// decompressed bytes, or nothing where that entry cannot be read.
pub uninterp spec fn zip_contents(bytes: Seq<u8>) -> Option<Seq<Option<(Seq<char>, Seq<u8>)>>>;

/// The entries of an open archive, each as [`zip_contents`] describes it.
pub uninterp spec fn archive_entries(archive: zip::ZipArchive<std::io::Cursor<Vec<u8>>>) -> Seq<
    Option<(Seq<char>, Seq<u8>)>,
>;

/// `zip::ZipArchive::new` over the bytes. The crate reads the central directory from the bytes
/// alone, so whether it succeeds, and what the archive then holds, depend on them alone: both
/// are named by [`zip_contents`].
#[verifier::external_body]
fn open_archive(bytes: &[u8]) -> (r: Result<
    zip::ZipArchive<std::io::Cursor<Vec<u8>>>,
    zip::result::ZipError,
>)
    ensures
        r is Ok <==> zip_contents(bytes@) is Some,
        r matches Ok(a) ==> zip_contents(bytes@) == Some(archive_entries(a)),
{
    zip::ZipArchive::new(std::io::Cursor::new(bytes.to_vec()))
}

/// `zip::ZipArchive::len`: the number of entries.
#[verifier::external_body]
fn archive_len(archive: &zip::ZipArchive<std::io::Cursor<Vec<u8>>>) -> (r: usize)
    ensures
        r == archive_entries(*archive).len(),
{
    archive.len()
}

/// `zip::ZipArchive::by_index`, then the entry's bytes read to the end with `std::io::copy`
/// and its name from `ZipFile::name`. Reading an entry seeks to it first, so the result does
/// not depend on what was read before, and the entries stay as they were.
#[verifier::external_body]
fn read_entry(archive: &mut zip::ZipArchive<std::io::Cursor<Vec<u8>>>, index: usize) -> (r:
    Result<(String, Vec<u8>), zip::result::ZipError>)
    requires
        index < archive_entries(*old(archive)).len(),
    ensures
        archive_entries(*final(archive)) == archive_entries(*old(archive)),
        r is Ok <==> archive_entries(*old(archive))[index as int] is Some,
        r matches Ok((name, data)) ==> archive_entries(*old(archive))[index as int] == Some(
            (name@, data@),
        ),
{
    let mut file = archive.by_index(index)?;
    let mut data = Vec::new();
    std::io::copy(&mut file, &mut data)?;
    Ok((file.name().to_owned(), data))
}

/// Why a map could not be read from a ZR@ archive.
#[derive(Debug, Clone, Copy, PartialEq, Eq, Structural)]
pub enum ZipRmsError {
    /// The bytes are not an archive that can be read.
    NotAnArchive,
    /// The entry with this index could not be read.
    UnreadableEntry(usize),
    /// The archive holds more files than can be numbered.
    TooManyFiles,
}

/// Do the bytes end with the suffix?
pub open spec fn ends_with_bytes(s: Seq<u8>, suffix: Seq<u8>) -> bool {
    suffix.len() <= s.len() && s.subrange(s.len() - suffix.len(), s.len() as int) == suffix
}

/// Is this the name of a script, ending in `.rms`?
pub open spec fn is_script_name(name: Seq<char>) -> bool {
    ends_with_bytes(encode_utf8(name), encode_utf8(".rms"@))
}

/// Is this the name of an include file, ending in `.inc`?
pub open spec fn is_include_name(name: Seq<char>) -> bool {
    ends_with_bytes(encode_utf8(name), encode_utf8(".inc"@))
}

/// The files, as names and texts, that the first `n` entries give: a script goes to the front,
/// and an include file, or where `keep_all` holds any other file, to the back.
pub open spec fn gathered(entries: Seq<(Seq<char>, Seq<u8>)>, n: int, keep_all: bool) -> Seq<
    (Seq<char>, Seq<char>),
>
    decreases n,
{
    if n <= 0 {
        seq![]
    } else {
        let prev = gathered(entries, n - 1, keep_all);
        let e = entries[n - 1];
        let f = (e.0, file_text(e.1));
        if is_script_name(e.0) {
            seq![f] + prev
        } else if keep_all || is_include_name(e.0) {
            prev.push(f)
        } else {
            prev
        }
    }
}

/// The entries of an archive whose entries can all be read.
pub open spec fn readable(entries: Seq<Option<(Seq<char>, Seq<u8>)>>) -> Seq<(Seq<char>, Seq<u8>)> {
    Seq::new(entries.len(), |i: int| entries[i]->0)
}

/// The files hold these names and texts, in order.
pub open spec fn files_match(files: Seq<FileData>, g: Seq<(Seq<char>, Seq<char>)>) -> bool {
    &&& files.len() == g.len()
    &&& forall|j: int|
        0 <= j < g.len() ==> (#[trigger] files[j]).spec_name() == g[j].0 && files[j].spec_source()
            == g[j].1
}

/// The map holds these files, then three empty definition files.
pub open spec fn map_holds(m: RMSFile, g: Seq<(Seq<char>, Seq<char>)>) -> bool {
    &&& m.wf()
    &&& m.files().len() == g.len() + 3
    &&& files_match(m.files().take(g.len() as int), g)
    &&& m.files()[g.len() as int].spec_source().len() == 0
    &&& m.files()[g.len() + 1int].spec_source().len() == 0
    &&& m.files()[g.len() + 2int].spec_source().len() == 0
}

/// What reading a ZR@ archive from these bytes gives.
pub open spec fn read_from_zip(bytes: Seq<u8>, r: Result<RMSFile, ZipRmsError>) -> bool {
    match zip_contents(bytes) {
        None => r == Err::<RMSFile, ZipRmsError>(ZipRmsError::NotAnArchive),
        Some(es) => if exists|i: int| 0 <= i < es.len() && es[i] is None {
            r matches Err(ZipRmsError::UnreadableEntry(i)) && 0 <= i < es.len() && es[i as int] is None
                && forall|j: int| 0 <= j < i ==> es[j] is Some
        } else {
            let g = gathered(readable(es), es.len() as int, false);
            if g.len() + 3 > u32::MAX {
                r == Err::<RMSFile, ZipRmsError>(ZipRmsError::TooManyFiles)
            } else {
                r matches Ok(m) && map_holds(m, g)
            }
        },
    }
}

/// Does the text end with the suffix? Compared byte by byte.
fn ends_with(s: &str, suffix: &str) -> (r: bool)
    ensures
        r == ends_with_bytes(s.spec_bytes(), suffix.spec_bytes()),
{
    let a = s.as_bytes();
    let b = suffix.as_bytes();
    if b.len() > a.len() {
        return false;
    }
    let off = a.len() - b.len();
    let mut i: usize = 0;
    while i < b.len()
        invariant
            a@ == s.spec_bytes(),
            b@ == suffix.spec_bytes(),
            off == a@.len() - b@.len(),
            off + b@.len() == a.len(),
            i <= b@.len(),
            forall|j: int| 0 <= j < i ==> a@[off + j] == b@[j],
        decreases b@.len() - i,
    {
        if a[off + i] != b[i] {
            assert(a@.subrange(off as int, a@.len() as int)[i as int] != b@[i as int]);
            return false;
        }
        i = i + 1;
    }
    assert(a@.subrange(off as int, a@.len() as int) =~= b@);
    true
}

/// Add one file after the first `i`, as [`gathered`] does.
fn gather_one(files: &mut Vec<FileData>, name: String, data: &[u8], keep_all: bool, Ghost(
    entries,
): Ghost<Seq<(Seq<char>, Seq<u8>)>>, Ghost(i): Ghost<int>)
    requires
        0 <= i < entries.len(),
        entries[i] == (name@, data@),
        files_match(old(files)@, gathered(entries, i, keep_all)),
    ensures
        files_match(final(files)@, gathered(entries, i + 1, keep_all)),
{
    let ghost prev = gathered(entries, i, keep_all);
    let ghost f = (name@, file_text(data@));
    if ends_with(name.as_str(), ".rms") {
        let text = to_chardet_string(data);
        files.insert(0, FileData::new(name, text));
        assert(gathered(entries, i + 1, keep_all) =~= seq![f] + prev);
        assert forall|j: int| 0 <= j < prev.len() + 1 implies (#[trigger] files@[j]).spec_name() == (
        seq![f] + prev)[j].0 && files@[j].spec_source() == (seq![f] + prev)[j].1 by {
            if j > 0 {
                assert(files@[j] == old(files)@[j - 1]);
            }
        }
    } else if keep_all || ends_with(name.as_str(), ".inc") {
        let text = to_chardet_string(data);
        files.push(FileData::new(name, text));
        assert(gathered(entries, i + 1, keep_all) =~= prev.push(f));
        assert forall|j: int| 0 <= j < prev.len() + 1 implies (#[trigger] files@[j]).spec_name() == prev.push(
        f)[j].0 && files@[j].spec_source() == prev.push(f)[j].1 by {
            if j < prev.len() {
                assert(files@[j] == old(files)@[j]);
            }
        }
    }
}

/// Build the map from its gathered files, with empty definition files.
fn finish(files: Vec<FileData>, Ghost(g): Ghost<Seq<(Seq<char>, Seq<char>)>>) -> (r: Option<
    RMSFile,
>)
    requires
        files_match(files@, g),
    ensures
        r is None <==> g.len() + 3 > u32::MAX,
        r matches Some(m) ==> map_holds(m, g),
{
    let ghost own = files@;
    let r = RMSFile::new(
        files,
        Definitions { aoc: String::new(), hd: String::new(), wk: String::new() },
    );
    proof {
        if r is Some {
            let m = r->0;
            assert(m.files().take(g.len() as int) == own);
        }
    }
    r
}

impl RMSFile {
    /// Create an RMSFile from a string of bytes containing a ZR@ map: the `.rms` and `.inc`
    /// files of the archive, each decoded as [`to_chardet_string`] does, a script moved to the
    /// front as it is read, so that the last script comes first. Reading stops at the first
    /// entry that cannot be read.
    pub fn from_zip_rms(_name: &str, source: &[u8]) -> (r: Result<RMSFile, ZipRmsError>)
        ensures
            read_from_zip(source@, r),
    {
        let mut archive = match open_archive(source) {
            Ok(a) => a,
            Err(_) => return Err(ZipRmsError::NotAnArchive),
        };
        let ghost es = archive_entries(archive);
        let n = archive_len(&archive);
        let mut files: Vec<FileData> = Vec::new();
        let mut i: usize = 0;
        while i < n
            invariant
                zip_contents(source@) == Some(es),
                archive_entries(archive) == es,
                n == es.len(),
                i <= n,
                forall|j: int| 0 <= j < i ==> (#[trigger] es[j]) is Some,
                files_match(files@, gathered(readable(es), i as int, false)),
            decreases n - i,
        {
            let (entry_name, data) = match read_entry(&mut archive, i) {
                Ok(e) => e,
                Err(_) => {
                    return Err(ZipRmsError::UnreadableEntry(i));
                },
            };
            gather_one(&mut files, entry_name, data.as_slice(), false, Ghost(readable(es)), Ghost(i as int));
            i = i + 1;
        }
        proof {
            assert(!exists|j: int| 0 <= j < es.len() && es[j] is None);
        }
        let ghost g = gathered(readable(es), n as int, false);
        match finish(files, Ghost(g)) {
            Some(m) => Ok(m),
            None => Err(ZipRmsError::TooManyFiles),
        }
    }

    /// Create an RMSFile from the bytes of a file, as reading the file at `path` gives them:
    /// a ZR@ archive when the file's name starts with `ZR@`, else a single script whose text
    /// is decoded as [`to_chardet_string`] does.
    pub fn from_bytes(path: &str, file_name: &str, bytes: &[u8]) -> (r: Result<RMSFile, ZipRmsError>)
        ensures
            is_zip_rms_name(file_name.spec_bytes()) ==> read_from_zip(bytes@, r),
            !is_zip_rms_name(file_name.spec_bytes()) ==> (r matches Ok(m) && map_holds(
                m,
                seq![(path@, file_text(bytes@))],
            )),
    {
        let name = file_name.as_bytes();
        if name.len() >= 3 && name[0] == 0x5a && name[1] == 0x52 && name[2] == 0x40 {
            Self::from_zip_rms(path, bytes)
        } else {
            let text = to_chardet_string(bytes);
            let m = RMSFile::from_string(path, text.as_str());
            proof {
                let g = seq![(path@, file_text(bytes@))];
                assert(m.files().take(1)[0] == m.files()[0]);
                assert(files_match(m.files().take(1), g));
            }
            Ok(m)
        }
    }

    /// Create an RMSFile from the files of an unpacked ZR@ archive, as names and bytes in the
    /// order the folder lists them: every file is kept, decoded as [`to_chardet_string`] does,
    /// and a script is moved to the front as it comes. `None` when there are more files than can
    /// be numbered.
    pub fn from_unpacked_files(entries: Vec<(String, Vec<u8>)>) -> (r: Option<RMSFile>)
        ensures
            ({
                let es = Seq::new(entries@.len(), |i: int| (entries@[i].0@, entries@[i].1@));
                let g = gathered(es, es.len() as int, true);
                &&& r is None <==> g.len() + 3 > u32::MAX
                &&& r matches Some(m) ==> map_holds(m, g)
            }),
    {
        let ghost es = Seq::new(entries@.len(), |i: int| (entries@[i].0@, entries@[i].1@));
        let mut files: Vec<FileData> = Vec::new();
        let mut i: usize = 0;
        while i < entries.len()
            invariant
                es == Seq::new(entries@.len(), |i: int| (entries@[i].0@, entries@[i].1@)),
                i <= entries@.len(),
                files_match(files@, gathered(es, i as int, true)),
            decreases entries@.len() - i,
        {
            let name = entries[i].0.clone();
            gather_one(&mut files, name, entries[i].1.as_slice(), true, Ghost(es), Ghost(i as int));
            i = i + 1;
        }
        finish(files, Ghost(gathered(es, es.len() as int, true)))
    }
}

/// Why a folder cannot be packed into a ZR@ map.
#[derive(Debug, Clone, Copy, PartialEq, Eq, Structural)]
pub enum PackError {
    /// More than one `.rms` file: a ZR@ map holds one script.
    MultipleScripts,
}

/// The extensions of the files that a ZR@ map holds: include files, the script, scenarios and
/// graphics.
pub open spec fn packable_extension(ext: Seq<char>) -> bool {
    ext == "inc"@ || ext == "rms"@ || ext == "scx"@ || ext == "slp"@
}

/// The folder's entries as extensions (empty where there is none) and whether each is a file.
pub open spec fn pack_view(entries: Seq<(String, bool)>) -> Seq<(Seq<char>, bool)> {
    Seq::new(entries.len(), |i: int| (entries[i].0@, entries[i].1))
}

/// The indices, in order, of the entries among the first `n` that go into the archive: files
/// with a packable extension.
pub open spec fn packed_indices(entries: Seq<(Seq<char>, bool)>, n: int) -> Seq<usize>
    decreases n,
{
    if n <= 0 {
        seq![]
    } else {
        let prev = packed_indices(entries, n - 1);
        if packable_extension(entries[n - 1].0) && entries[n - 1].1 {
            prev.push((n - 1) as usize)
        } else {
            prev
        }
    }
}

/// The number of entries among the first `n` with the extension `rms`.
pub open spec fn script_count(entries: Seq<(Seq<char>, bool)>, n: int) -> int
    decreases n,
{
    if n <= 0 {
        0
    } else {
        script_count(entries, n - 1) + if entries[n - 1].0 == "rms"@ {
            1int
        } else {
            0int
        }
    }
}

/// Choose the entries of a folder that go into a ZR@ map: the files whose extension is `inc`,
/// `rms`, `scx` or `slp`, in the order given. An error when more than one entry has the
/// extension `rms`.
pub fn select_pack_files(entries: &[(String, bool)]) -> (r: Result<Vec<usize>, PackError>)
    ensures
        r is Err <==> script_count(pack_view(entries@), entries@.len() as int) > 1,
        r matches Ok(v) ==> v@ == packed_indices(pack_view(entries@), entries@.len() as int),
{
    let ghost es = pack_view(entries@);
    let mut picked: Vec<usize> = Vec::new();
    let mut saw_rms = false;
    let mut i: usize = 0;
    while i < entries.len()
        invariant
            es == pack_view(entries@),
            i <= entries@.len(),
            picked@ == packed_indices(es, i as int),
            saw_rms == (script_count(es, i as int) == 1),
            0 <= script_count(es, i as int) <= 1,
        decreases entries@.len() - i,
    {
        let ext = entries[i].0.as_str();
        let is_rms = str_eq(ext, "rms");
        let keep = is_rms || str_eq(ext, "inc") || str_eq(ext, "scx") || str_eq(ext, "slp");
        assert(es[i as int].0 == ext@);
        assert(script_count(es, i as int + 1) == script_count(es, i as int) + if is_rms {
            1int
        } else {
            0int
        });
        if is_rms {
            if saw_rms {
                proof {
                    lemma_script_count_grows(es, i as int + 1, entries@.len() as int);
                }
                return Err(PackError::MultipleScripts);
            }
            saw_rms = true;
        }
        if keep && entries[i].1 {
            picked.push(i);
        }
        i = i + 1;
    }
    Ok(picked)
}

/// The number of scripts never shrinks as more entries are counted.
proof fn lemma_script_count_grows(es: Seq<(Seq<char>, bool)>, a: int, b: int)
    requires
        a <= b,
    ensures
        script_count(es, a) <= script_count(es, b),
    decreases b - a,
{
    if a < b {
        lemma_script_count_grows(es, a, b - 1);
    }
}

} // verus!
