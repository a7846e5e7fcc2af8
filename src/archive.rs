//! Reading a downloaded archive, and the plan that extracts it: which entry
//! becomes which directory or file under the extraction root.
use vstd::prelude::*;
use vstd::string::*;
use crate::types::SyncError;
use crate::text::split_where;

verus! {

#[verifier::external_type_specification]
#[verifier::external_body]
#[verifier::reject_recursive_types(T)]
pub struct ExCursor<T>(std::io::Cursor<T>);

#[verifier::external_type_specification]
#[verifier::external_body]
#[verifier::reject_recursive_types(R)]
pub struct ExZipArchive<R>(zip::ZipArchive<R>);

#[verifier::external_type_specification]
#[verifier::external_body]
pub struct ExZipError(zip::result::ZipError);

/// An archive read from memory.
pub type MemArchive = zip::ZipArchive<std::io::Cursor<Vec<u8>>>;

/// The names of the entries of an opened archive, in its central directory's order.
pub uninterp spec fn archive_names(a: MemArchive) -> Seq<Seq<char>>;

/// What reading each entry of an opened archive gives: its content, or `None`
/// when it cannot be read.
pub uninterp spec fn archive_contents(a: MemArchive) -> Seq<Option<Seq<u8>>>;

/// The names of the entries of the archive held in `data`, in order.
pub uninterp spec fn zip_entry_names(data: Seq<u8>) -> Seq<Seq<char>>;

/// Whether the central directory of the archive held in `data` can be read.
pub uninterp spec fn zip_opens(data: Seq<u8>) -> bool;

/// What reading each entry of the archive held in `data` gives.
pub uninterp spec fn zip_entry_contents(data: Seq<u8>) -> Seq<Option<Seq<u8>>>;

/// The archive held in `data` opens, and each of its entries reads.
pub open spec fn zip_readable(data: Seq<u8>) -> bool {
    &&& zip_opens(data)
    &&& forall|i: int| 0 <= i < zip_entry_contents(data).len() ==> (#[trigger] zip_entry_contents(data)[i]) is Some
}

/// One entry of an archive, read out.
#[derive(Debug, Clone)]
pub struct ArchiveEntry {
    /// The entry's name as stored; a directory's ends in `/`.
    pub name: String,
    /// The name, when the archive library judges that it stays inside the
    /// extraction root; `None` for a name that would leave it.
    pub enclosed: Option<String>,
    /// The entry's uncompressed content.
    pub data: Vec<u8>,
}

/// Relies on `zip::ZipArchive::new`: reads the central directory of the
/// archive held in `bytes`.
#[verifier::external_body]
fn open_archive(bytes: Vec<u8>) -> (r: Result<MemArchive, zip::result::ZipError>)
    ensures
        r is Ok <==> zip_opens(bytes@),
        r is Ok ==> archive_names(r->Ok_0) == zip_entry_names(bytes@),
        r is Ok ==> archive_contents(r->Ok_0) == zip_entry_contents(bytes@),
        r is Ok ==> archive_contents(r->Ok_0).len() == archive_names(r->Ok_0).len(),
{
    zip::ZipArchive::new(std::io::Cursor::new(bytes))
}

/// Relies on `zip::ZipArchive::len`: the number of entries.
#[verifier::external_body]
fn archive_len(a: &MemArchive) -> (r: usize)
    ensures
        r == archive_names(*a).len(),
{
    a.len()
}

/// Relies on `zip::ZipArchive::by_index`, with `ZipFile::name`,
/// `ZipFile::enclosed_name` and the entry's reader: entry `i`, read out. The
/// enclosed name is the name itself. It is absent for a name with a NUL, a
/// root or prefix, or a depth that goes below zero under the platform's path
/// reading; so a present one is never absolute and never climbs, and a name
/// that is safe under every reading always has one.
#[verifier::external_body]
fn read_entry(a: &mut MemArchive, i: usize) -> (r: Result<ArchiveEntry, zip::result::ZipError>)
    requires
        i < archive_names(*old(a)).len(),
    ensures
        archive_names(*final(a)) == archive_names(*old(a)),
        archive_contents(*final(a)) == archive_contents(*old(a)),
        r is Ok <==> archive_contents(*old(a))[i as int] is Some,
        r is Ok ==> r->Ok_0.name@ == archive_names(*old(a))[i as int],
        r is Ok ==> r->Ok_0.data@ == archive_contents(*old(a))[i as int]->Some_0,
        r is Ok && safe_everywhere(r->Ok_0.name@) ==> r->Ok_0.enclosed is Some,
        r is Ok && r->Ok_0.enclosed is Some ==> r->Ok_0.enclosed->Some_0@ == r->Ok_0.name@,
        r is Ok && r->Ok_0.enclosed is Some ==> enclosed_shape(r->Ok_0.name@),
{
    let mut file = a.by_index(i)?;
    let name = file.name().to_string();
    let enclosed = file.enclosed_name().map(|p| p.to_string_lossy().into_owned());
    let mut data: Vec<u8> = Vec::new();
    std::io::Read::read_to_end(&mut file, &mut data)?;
    Ok(ArchiveEntry { name, enclosed, data })
}

/// The separator of a path read the portable way.
pub open spec fn slash() -> spec_fn(char) -> bool {
    |c: char| c == '/'
}

/// The separators of a path read the Windows way.
pub open spec fn slash_or_backslash() -> spec_fn(char) -> bool {
    |c: char| c == '/' || c == '\\'
}

/// Walking the components `cs` from depth `d`, the depth never goes below
/// zero: `..` goes up, an empty component or `.` stays, any other goes down.
pub open spec fn depth_ok(cs: Seq<Seq<char>>, d: int) -> bool
    decreases cs.len(),
{
    if cs.len() == 0 {
        true
    } else if cs[0] == seq!['.', '.'] {
        d >= 1 && depth_ok(cs.drop_first(), d - 1)
    } else if cs[0].len() == 0 || cs[0] == seq!['.'] {
        depth_ok(cs.drop_first(), d)
    } else {
        depth_ok(cs.drop_first(), d + 1)
    }
}

/// What a present enclosed name guarantees of the name: no NUL, no leading
/// `/`, and no climb above the root.
pub open spec fn enclosed_shape(name: Seq<char>) -> bool {
    &&& !name.contains('\0')
    &&& !(name.len() > 0 && name[0] == '/')
    &&& never_climbs(name)
}

/// The name `name`, split at `/` alone, or at `/` and `\` both, never
/// climbs above the root: the guarantee of an enclosed name, whichever of the
/// two the platform's path reading is.
pub open spec fn never_climbs(name: Seq<char>) -> bool {
    depth_ok(split_where(name, slash()), 0) || depth_ok(split_where(name, slash_or_backslash()), 0)
}

/// A name that stays inside the root on every platform: no NUL, neither root
/// nor drive prefix, and no climb above the root under either reading.
pub open spec fn safe_everywhere(name: Seq<char>) -> bool {
    &&& !name.contains('\0')
    &&& !(name.len() > 0 && (name[0] == '/' || name[0] == '\\'))
    &&& !(name.len() >= 2 && name[1] == ':')
    &&& depth_ok(split_where(name, slash()), 0)
    &&& depth_ok(split_where(name, slash_or_backslash()), 0)
}

pub open spec fn entry_names(v: Seq<ArchiveEntry>) -> Seq<Seq<char>> {
    v.map_values(|e: ArchiveEntry| e.name@)
}

/// Reads every entry of the archive held in `bytes`, in order. It succeeds
/// exactly when the archive opens and each entry reads; otherwise it is an
/// `ArtifactLayoutError`.
pub fn read_archive(bytes: Vec<u8>) -> (r: Result<Vec<ArchiveEntry>, SyncError>)
    ensures
        r is Ok <==> zip_readable(bytes@),
        r is Ok ==> entry_names(r->Ok_0@) == zip_entry_names(bytes@),
        r is Ok ==> forall|j: int| 0 <= j < r->Ok_0@.len()
            ==> Some((#[trigger] r->Ok_0@[j]).data@) == zip_entry_contents(bytes@)[j],
        r is Ok ==> entries_guarded(r->Ok_0@),
        r is Err ==> r->Err_0 is ArtifactLayoutError,
{
    let ghost data = bytes@;
    let mut a = match open_archive(bytes) {
        Ok(a) => a,
        Err(_) => {
            return Err(SyncError::ArtifactLayoutError(String::from_str("Failed to open ZIP archive")));
        },
    };
    let n = archive_len(&a);
    let mut out: Vec<ArchiveEntry> = Vec::new();
    let mut i: usize = 0;
    while i < n
        invariant
            n == archive_names(a).len(),
            archive_names(a) == zip_entry_names(data),
            archive_contents(a) == zip_entry_contents(data),
            archive_contents(a).len() == n,
            zip_opens(data),
            data == bytes@,
            i <= n,
            out@.len() == i,
            forall|j: int| 0 <= j < i ==> out@[j].name@ == archive_names(a)[j],
            forall|j: int| 0 <= j < i ==> Some((#[trigger] out@[j]).data@) == zip_entry_contents(data)[j],
            forall|j: int| 0 <= j < i ==> (#[trigger] zip_entry_contents(data)[j]) is Some,
            entries_guarded(out@),
        decreases n - i,
    {
        match read_entry(&mut a, i) {
            Ok(e) => out.push(e),
            Err(_) => {
                assert(zip_entry_contents(data)[i as int] is None);
                return Err(SyncError::ArtifactLayoutError(String::from_str("Failed to read ZIP entry")));
            },
        }
        i = i + 1;
    }
    assert(entry_names(out@) =~= zip_entry_names(data));
    Ok(out)
}

/// Every entry that carries an enclosed name carries its own name there, and
/// that name has the shape of an enclosed name; every entry whose name is safe
/// on every platform carries one.
pub open spec fn entries_guarded(v: Seq<ArchiveEntry>) -> bool {
    &&& forall|j: int| #![auto] 0 <= j < v.len() && v[j].enclosed is Some ==> {
        &&& v[j].enclosed->Some_0@ == v[j].name@
        &&& enclosed_shape(v[j].name@)
    }
    &&& forall|j: int| #![auto] 0 <= j < v.len() && safe_everywhere(v[j].name@) ==> v[j].enclosed is Some
}

/// One write of the extraction: entry `entry` becomes the directory or the
/// file at `path`, relative to the extraction root.
#[derive(Debug, Clone)]
pub struct ExtractStep {
    pub entry: usize,
    pub path: String,
    pub is_dir: bool,
}

pub struct StepView {
    pub entry: int,
    pub path: Seq<char>,
    pub is_dir: bool,
}

impl View for ExtractStep {
    type V = StepView;

    open spec fn view(&self) -> StepView {
        StepView { entry: self.entry as int, path: self.path@, is_dir: self.is_dir }
    }
}

/// An entry whose name ends in `/` is a directory.
pub open spec fn names_dir(name: Seq<char>) -> bool {
    name.len() > 0 && name.last() == '/'
}

/// Whether the entry `e` is written by the extraction: the archive library
/// gives it an enclosed name.
pub open spec fn extracted(e: ArchiveEntry) -> bool {
    e.enclosed is Some
}

/// The writes that extract the first `n` entries of `es`, in order: one per
/// extracted entry, none for the others.
pub open spec fn extraction_steps(es: Seq<ArchiveEntry>, n: int) -> Seq<StepView>
    decreases n,
{
    if n <= 0 {
        Seq::empty()
    } else {
        let rest = extraction_steps(es, n - 1);
        if extracted(es[n - 1]) {
            rest.push(
                StepView { entry: n - 1, path: es[n - 1].enclosed->Some_0@, is_dir: names_dir(es[n - 1].name@) },
            )
        } else {
            rest
        }
    }
}

pub open spec fn steps_view(v: Seq<ExtractStep>) -> Seq<StepView> {
    v.map_values(|s: ExtractStep| s@)
}

/// The writes that extract `entries`.
pub fn plan_extraction(entries: &Vec<ArchiveEntry>) -> (r: Vec<ExtractStep>)
    ensures
        steps_view(r@) == extraction_steps(entries@, entries@.len() as int),
{
    let mut out: Vec<ExtractStep> = Vec::new();
    let mut i: usize = 0;
    while i < entries.len()
        invariant
            i <= entries@.len(),
            steps_view(out@) == extraction_steps(entries@, i as int),
        decreases entries@.len() - i,
    {
        let e = &entries[i];
        match &e.enclosed {
            Some(p) => {
                let ghost before = out@;
                let n = e.name.as_str().unicode_len();
                let is_dir = n > 0 && e.name.as_str().get_char(n - 1) == '/';
                out.push(ExtractStep { entry: i, path: p.clone(), is_dir });
                assert(steps_view(out@) =~= steps_view(before).push(out@.last()@));
            },
            None => {},
        }
        i = i + 1;
    }
    out
}

/// The extraction writes exactly the entries with an enclosed name: every
/// write goes to such an entry's own name, which holds no NUL, is not
/// absolute and never climbs above the root, so an entry that would escape is
/// skipped; and every entry whose name is safe on every platform is written.
pub proof fn lemma_extraction_guarded(es: Seq<ArchiveEntry>, n: int)
    requires
        0 <= n <= es.len(),
        entries_guarded(es),
    ensures
        forall|k: int| 0 <= k < extraction_steps(es, n).len() ==> {
            let st = #[trigger] extraction_steps(es, n)[k];
            &&& 0 <= st.entry < n
            &&& es[st.entry].enclosed is Some
            &&& st.path == es[st.entry].name@
            &&& enclosed_shape(st.path)
        },
        forall|j: int| 0 <= j < n && safe_everywhere(#[trigger] es[j].name@) ==> exists|k: int|
            0 <= k < extraction_steps(es, n).len() && (#[trigger] extraction_steps(es, n)[k]).entry == j,
    decreases n,
{
    if n > 0 {
        lemma_extraction_guarded(es, n - 1);
        let rest = extraction_steps(es, n - 1);
        let all = extraction_steps(es, n);
        assert forall|k: int| 0 <= k < rest.len() implies all[k] == rest[k] by {}
        assert forall|k: int| 0 <= k < all.len() implies {
            let st = #[trigger] all[k];
            &&& 0 <= st.entry < n
            &&& es[st.entry].enclosed is Some
            &&& st.path == es[st.entry].name@
            &&& enclosed_shape(st.path)
        } by {
            if k < rest.len() {
                assert(all[k] == rest[k]);
            }
        }
        assert forall|j: int| 0 <= j < n && safe_everywhere(#[trigger] es[j].name@) implies exists|k: int|
            0 <= k < all.len() && (#[trigger] all[k]).entry == j by {
            if j < n - 1 {
                let k = choose|k: int| 0 <= k < rest.len() && (#[trigger] rest[k]).entry == j;
                assert(all[k] == rest[k]);
            } else {
                assert(all[rest.len() as int].entry == j);
            }
        }
    }
}

} // verus!
