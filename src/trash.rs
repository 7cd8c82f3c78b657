use itertools::Itertools;
use vstd::prelude::*;

use crate::chars::{chars_of, copy_range, string_of};
use crate::codec::{info_text, lemma_info_round_trip, parse_info_text, TrashInfo};
use crate::datetime::{elapsed_days, fields_valid, seconds_of, LocalDateTime};
use crate::error::{TrashError, TrashErrorKind};
use crate::path::{
    absolute_path, clean, cleaned, file_name, file_name_of, is_absolute, join, join_path,
    lemma_starts_with_self, path_starts_with, resolved, starts_with,
};

verus! {

/// Where trashed contents are kept below the trash root.
pub open spec fn files_dir_of(root: Seq<char>) -> Seq<char> {
    join_path(root, "files"@)
}

/// Where sidecar records are kept below the trash root.
pub open spec fn info_dir_of(root: Seq<char>) -> Seq<char> {
    join_path(root, "info"@)
}

/// The sidecar record of a trashed path: `info/<file name>.trashinfo`.
pub open spec fn info_path_of(root: Seq<char>, trashed: Seq<char>) -> Option<Seq<char>> {
    match file_name_of(trashed) {
        Some(n) => Some(join_path(info_dir_of(root), n + ".trashinfo"@)),
        None => None,
    }
}

/// A file name without its last extension; a name whose only dot leads it is
/// kept whole.
pub open spec fn stem_of(name: Seq<char>) -> Seq<char> {
    let k = last_dot(name);
    if k <= 0 {
        name
    } else {
        name.subrange(0, k)
    }
}

/// The position of the last `.` in `s`, -1 if there is none.
pub open spec fn last_dot(s: Seq<char>) -> int
    decreases s.len(),
{
    if s.len() == 0 {
        -1
    } else if s.last() == '.' {
        s.len() - 1
    } else {
        last_dot(s.drop_last())
    }
}

/// Where restoring the trashed path `file` sends it, given the text of its
/// sidecar record: the original path that the record holds. None if `file`
/// has no file name or the record is malformed.
pub open spec fn restore_destination(root: Seq<char>, file: Seq<char>, text: Seq<char>) -> Option<
    Seq<char>,
> {
    if info_path_of(root, file) is Some && parse_info_text(text) is Some {
        Some(parse_info_text(text)->Some_0.0)
    } else {
        None
    }
}

/// Restoring a trashed path, with the sidecar record that trashing wrote for
/// it, sends the contents back to the path they were trashed from. (Writing
/// and reading the record both go through `info_path_of(root, trashed)`.)
pub proof fn lemma_trash_restore_inverse(
    root: Seq<char>,
    original: Seq<char>,
    trashed: Seq<char>,
    date: (int, int, int, int, int, int),
)
    requires
        fields_valid(date),
        forall|i: int| 0 <= i < original.len() ==> original[i] != '\n',
        info_path_of(root, trashed) is Some,
    ensures
        restore_destination(root, trashed, info_text(original, date) + seq!['\n']) == Some(
            original,
        ),
{
    lemma_info_round_trip(original, date);
}

/// What listing makes of one sidecar entry `f` of `info/`: an entry whose
/// contents are `files/<stem of its name>` when its text is a record, else
/// the failure, carrying the sidecar's path (`Io` if it could not be read,
/// `ParseTrashInfoError` if it is malformed).
pub open spec fn listed_as(
    root: Seq<char>,
    f: SidecarFile,
    e: Result<TrashEntry, TrashError>,
) -> bool {
    let sidecar = join_path(info_dir_of(root), f.name@);
    match f.text {
        None => e is Err && e->Err_0.kind is Io && e->Err_0.kind->Io_0@ == sidecar,
        Some(t) => match parse_info_text(t@) {
            None => e is Err && e->Err_0.kind is ParseTrashInfoError
                && e->Err_0.kind->ParseTrashInfoError_0@ == sidecar,
            Some(info) => e is Ok && e->Ok_0.trashed_path@ == join_path(
                files_dir_of(root),
                stem_of(f.name@),
            ) && e->Ok_0.trash_info.original_path@ == info.0
                && e->Ok_0.trash_info.deletion_date@ == info.1,
        },
    }
}

/// Whether `a` may stand before `b` in a listing ordered by deletion date:
/// entries oldest first, and failures after every entry.
pub open spec fn in_date_order(
    a: Result<TrashEntry, TrashError>,
    b: Result<TrashEntry, TrashError>,
) -> bool {
    match (a, b) {
        (Ok(x), Ok(y)) => seconds_of(x.trash_info.deletion_date@) <= seconds_of(
            y.trash_info.deletion_date@,
        ),
        (Ok(_), Err(_)) => true,
        (Err(_), Ok(_)) => false,
        (Err(_), Err(_)) => true,
    }
}

/// A trashed file: where its contents are kept and its metadata.
#[derive(Clone, Debug, PartialEq, Eq)]
pub struct TrashEntry {
    pub trashed_path: String,
    pub trash_info: TrashInfo,
}

/// A move to perform: the contents at `from` go to `to`, through the
/// conflict-safe mover.
#[derive(Clone, Debug, PartialEq, Eq)]
pub struct MoveRequest {
    pub from: String,
    pub to: String,
}

/// A sidecar record to write: its path and its whole text.
#[derive(Clone, Debug, PartialEq, Eq)]
pub struct SidecarRecord {
    pub path: String,
    pub text: String,
}

/// What erasing deletes: the sidecar record first, if any, then the target.
#[derive(Clone, Debug, PartialEq, Eq)]
pub struct ErasePlan {
    pub target: String,
    pub sidecar: Option<String>,
}

/// One entry of the `info/` directory: its file name and its text, `None`
/// where it could not be read.
#[derive(Clone, Debug, PartialEq, Eq)]
pub struct SidecarFile {
    pub name: String,
    pub text: Option<String>,
}

/// A trash can: its root directory, holding `files/` and `info/`, and the
/// working directory against which relative paths are resolved.
pub struct Trash {
    home_trash: String,
    cwd: String,
}

fn last_dot_exec(s: &Vec<char>) -> (r: usize)
    ensures
        r == last_dot(s@) + 1,
{
    let mut j: usize = s.len();
    assert(s@.subrange(0, j as int) =~= s@);
    while j > 0
        invariant
            j <= s.len(),
            last_dot(s@.subrange(0, j as int)) == last_dot(s@),
        decreases j,
    {
        let ghost q = s@.subrange(0, j as int);
        assert(q.drop_last() =~= s@.subrange(0, j - 1));
        if s[j - 1] == '.' {
            assert(q.last() == '.');
            return j;
        }
        j = j - 1;
    }
    0
}

proof fn lemma_last_dot_bounds(s: Seq<char>)
    ensures
        -1 <= last_dot(s) < s.len(),
    decreases s.len(),
{
    if s.len() > 0 && s.last() != '.' {
        lemma_last_dot_bounds(s.drop_last());
    }
}

/// A file name without its last extension.
pub fn file_stem(name: &str) -> (r: String)
    ensures
        r@ == stem_of(name@),
{
    let v = chars_of(name);
    let k = last_dot_exec(&v);
    proof {
        lemma_last_dot_bounds(v@);
    }
    if k <= 1 {
        name.to_owned()
    } else {
        string_of(&copy_range(&v, 0, k - 1))
    }
}

/// Whether the entry was trashed from `path` or from below it.
pub fn filter_trash_entry_by_dir(trash_entry: &TrashEntry, path: &str) -> (r: bool)
    ensures
        r == path_starts_with(trash_entry.trash_info.original_path@, path@),
{
    starts_with(trash_entry.trash_info.original_path.as_str(), path)
}

/// Whether the entry was trashed at least `days` whole days before `now`;
/// every entry passes when no bound is given.
pub fn filter_trash_entry_by_age(
    trash_entry: &TrashEntry,
    now: &LocalDateTime,
    days: Option<i64>,
) -> (r: bool)
    ensures
        r == match days {
            None => true,
            Some(d) => elapsed_days(trash_entry.trash_info.deletion_date@, now@) >= d,
        },
{
    match days {
        None => true,
        Some(d) => trash_entry.trash_info.deletion_date.days_until(now) >= d,
    }
}

/// The order of two listing results: by deletion date, failures last.
fn compare_entries(
    a: &Result<TrashEntry, TrashError>,
    b: &Result<TrashEntry, TrashError>,
) -> (r: std::cmp::Ordering)
    ensures
        (r != std::cmp::Ordering::Greater) == in_date_order(*a, *b),
        (r != std::cmp::Ordering::Less) == in_date_order(*b, *a),
{
    match (a, b) {
        (Ok(x), Ok(y)) => {
            let sx = x.trash_info.deletion_date.seconds();
            let sy = y.trash_info.deletion_date.seconds();
            if sx < sy {
                std::cmp::Ordering::Less
            } else if sx == sy {
                std::cmp::Ordering::Equal
            } else {
                std::cmp::Ordering::Greater
            }
        },
        (Ok(_), Err(_)) => std::cmp::Ordering::Less,
        (Err(_), Ok(_)) => std::cmp::Ordering::Greater,
        (Err(_), Err(_)) => std::cmp::Ordering::Equal,
    }
}

/// Relies on `itertools::Itertools::sorted_by`, which sorts with
/// `slice::sort_by`: the same items, each standing before the later ones by
/// the comparator (a total order here).
#[verifier::external_body]
fn sorted_by_date(entries: Vec<Result<TrashEntry, TrashError>>) -> (r: Vec<
    Result<TrashEntry, TrashError>,
>)
    ensures
        r@.to_multiset() == entries@.to_multiset(),
        forall|i: int, j: int| 0 <= i < j < r.len() ==> in_date_order(r@[i], r@[j]),
{
    entries.into_iter().sorted_by(|a, b| compare_entries(a, b)).collect()
}

impl Trash {
    #[verifier::type_invariant]
    spec fn inv(self) -> bool {
        cleaned(self.home_trash@) == self.home_trash@ && cleaned(self.cwd@) == self.cwd@
    }

    /// The trash root.
    pub closed spec fn root(&self) -> Seq<char> {
        self.home_trash@
    }

    /// The working directory, normalized.
    pub closed spec fn cwd(&self) -> Seq<char> {
        self.cwd@
    }

    /// The trash rooted at `root`, resolved against the working directory `cwd`.
    pub fn with_root(root: &str, cwd: &str) -> (r: Trash)
        ensures
            r.root() == resolved(cwd@, root@),
            r.cwd() == cleaned(cwd@),
    {
        Trash { home_trash: absolute_path(cwd, root), cwd: clean(cwd) }
    }

    /// The trash of a user whose data directory is `data_home`:
    /// `<data_home>/Trash`.
    pub fn new(data_home: &str, cwd: &str) -> (r: Trash)
        ensures
            r.root() == resolved(cwd@, join_path(data_home@, "Trash"@)),
            r.cwd() == cleaned(cwd@),
    {
        let root = join(data_home, "Trash");
        Trash::with_root(root.as_str(), cwd)
    }

    pub fn home_trash(&self) -> (r: &str)
        ensures
            r@ == self.root(),
    {
        self.home_trash.as_str()
    }

    pub fn current_dir(&self) -> (r: &str)
        ensures
            r@ == self.cwd(),
    {
        self.cwd.as_str()
    }

    /// The directory of trashed contents, `<root>/files`.
    pub fn files_dir(&self) -> (r: String)
        ensures
            r@ == files_dir_of(self.root()),
    {
        join(self.home_trash.as_str(), "files")
    }

    /// The directory of sidecar records, `<root>/info`.
    pub fn info_dir(&self) -> (r: String)
        ensures
            r@ == info_dir_of(self.root()),
    {
        join(self.home_trash.as_str(), "info")
    }

    /// `path` made absolute against the working directory and normalized.
    pub fn absolute_path(&self, path: &str) -> (r: String)
        ensures
            r@ == resolved(self.cwd(), path@),
    {
        absolute_path(self.cwd.as_str(), path)
    }

    /// Whether the resolved `file` lies within `files/`.
    pub fn is_file_trashed(&self, file: &str) -> (r: bool)
        ensures
            r == path_starts_with(resolved(self.cwd(), file@), files_dir_of(self.root())),
    {
        let f = self.absolute_path(file);
        let files = self.files_dir();
        starts_with(f.as_str(), files.as_str())
    }

    /// The sidecar record that belongs to the trashed path `file`.
    pub fn trash_info_path(&self, file: &str) -> (r: Result<String, TrashError>)
        ensures
            r is Ok <==> info_path_of(self.root(), file@) is Some,
            r is Ok ==> info_path_of(self.root(), file@) == Some(r->Ok_0@),
            r is Err ==> r->Err_0.kind is Path && r->Err_0.kind->Path_0@ == file@,
    {
        match file_name(file) {
            Some(name) => {
                let info = self.info_dir();
                let sidecar = name.concat(".trashinfo");
                Ok(join(info.as_str(), sidecar.as_str()))
            },
            None => Err(TrashError::new(TrashErrorKind::Path(file.to_owned()))),
        }
    }

    /// Decides a trash of `file`, whose resolved path exists when `exists`
    /// holds. Fails with `NotFound` if it does not exist, `TrashingTrashCan` if
    /// it is the trash root or one of its ancestors, `TrashingCwd` if it
    /// contains the working directory, and `Path` if it has no file name;
    /// otherwise the contents move from the resolved path to
    /// `files/<file name>`.
    pub fn trash_file(&self, file: &str, exists: bool) -> (r: Result<MoveRequest, TrashError>)
        ensures
            r is Ok <==> exists && !path_starts_with(self.root(), resolved(self.cwd(), file@))
                && !path_starts_with(self.cwd(), resolved(self.cwd(), file@)) && file_name_of(
                resolved(self.cwd(), file@),
            ) is Some,
            r is Ok ==> r->Ok_0.from@ == resolved(self.cwd(), file@) && r->Ok_0.to@ == join_path(
                files_dir_of(self.root()),
                file_name_of(resolved(self.cwd(), file@))->Some_0,
            ),
            !exists ==> r is Err && r->Err_0.kind is NotFound && r->Err_0.kind->NotFound_0@
                == resolved(self.cwd(), file@),
            exists && path_starts_with(self.root(), resolved(self.cwd(), file@)) ==> r is Err
                && r->Err_0.kind is TrashingTrashCan && r->Err_0.kind->TrashingTrashCan_0@
                == resolved(self.cwd(), file@),
            exists && is_absolute(self.root()) && file@ == self.root() ==> r is Err
                && r->Err_0.kind is TrashingTrashCan,
            exists && !path_starts_with(self.root(), resolved(self.cwd(), file@))
                && path_starts_with(self.cwd(), resolved(self.cwd(), file@)) ==> r is Err
                && r->Err_0.kind is TrashingCwd && r->Err_0.kind->TrashingCwd_0@ == resolved(
                self.cwd(),
                file@,
            ),
            exists && !path_starts_with(self.root(), resolved(self.cwd(), file@))
                && !path_starts_with(self.cwd(), resolved(self.cwd(), file@)) && file_name_of(
                resolved(self.cwd(), file@),
            ) is None ==> r is Err && r->Err_0.kind is Path && r->Err_0.kind->Path_0@ == resolved(
                self.cwd(),
                file@,
            ),
    {
        proof {
            use_type_invariant(self);
            lemma_starts_with_self(self.root());
        }
        let a = self.absolute_path(file);
        if !exists {
            return Err(TrashError::new(TrashErrorKind::NotFound(a)));
        }
        if starts_with(self.home_trash.as_str(), a.as_str()) {
            return Err(TrashError::new(TrashErrorKind::TrashingTrashCan(a)));
        }
        if starts_with(self.cwd.as_str(), a.as_str()) {
            return Err(TrashError::new(TrashErrorKind::TrashingCwd(a)));
        }
        match file_name(a.as_str()) {
            Some(name) => {
                let files = self.files_dir();
                let to = join(files.as_str(), name.as_str());
                Ok(MoveRequest { from: a, to })
            },
            None => Err(TrashError::new(TrashErrorKind::Path(a))),
        }
    }

    /// The sidecar record to write once `original` has been moved to
    /// `trashed` on `date`: `info/<file name of trashed>.trashinfo`, holding
    /// the record of `original` and `date` with its final line feed.
    pub fn trash_info_record(
        &self,
        trashed: &str,
        original: &str,
        date: &LocalDateTime,
    ) -> (r: Result<SidecarRecord, TrashError>)
        ensures
            r is Ok <==> info_path_of(self.root(), trashed@) is Some,
            r is Ok ==> info_path_of(self.root(), trashed@) == Some(r->Ok_0.path@)
                && r->Ok_0.text@ == info_text(original@, date@) + seq!['\n'],
            r is Err ==> r->Err_0.kind is Path && r->Err_0.kind->Path_0@ == trashed@,
    {
        let path = self.trash_info_path(trashed)?;
        let info = TrashInfo { original_path: original.to_owned(), deletion_date: *date };
        let text = info.to_string().concat("\n");
        proof {
            reveal_strlit("\n");
        }
        assert("\n"@ =~= seq!['\n']);
        Ok(SidecarRecord { path, text })
    }

    /// Decides a restore of the trashed path `file`, given the text of its
    /// sidecar record: the contents go back to the original path the record
    /// holds. Fails with `Path` if `file` has no file name and with
    /// `ParseTrashInfoError`, carrying the sidecar's path, if the record is
    /// malformed.
    pub fn restore_trashed_file(&self, file: &str, sidecar_text: &str) -> (r: Result<
        MoveRequest,
        TrashError,
    >)
        ensures
            r is Ok <==> restore_destination(self.root(), file@, sidecar_text@) is Some,
            r is Ok ==> r->Ok_0.from@ == file@ && restore_destination(
                self.root(),
                file@,
                sidecar_text@,
            ) == Some(r->Ok_0.to@),
            info_path_of(self.root(), file@) is None ==> r is Err && r->Err_0.kind is Path
                && r->Err_0.kind->Path_0@ == file@,
            info_path_of(self.root(), file@) is Some && parse_info_text(sidecar_text@) is None
                ==> r is Err && r->Err_0.kind is ParseTrashInfoError
                && r->Err_0.kind->ParseTrashInfoError_0@ == info_path_of(self.root(), file@)->Some_0,
    {
        let sidecar = self.trash_info_path(file)?;
        match TrashInfo::parse(sidecar_text) {
            Some(info) => Ok(MoveRequest { from: file.to_owned(), to: info.original_path }),
            None => Err(TrashError::new(TrashErrorKind::ParseTrashInfoError(sidecar))),
        }
    }

    /// Decides an erase of `file`, whose resolved path exists when `exists`
    /// holds. Fails with `NotFound` if it does not exist and with
    /// `TrashingCwd` if it contains the working directory. Otherwise the
    /// resolved path is deleted, and first its sidecar record if it lies in
    /// `files/`.
    pub fn erase_file(&self, file: &str, exists: bool) -> (r: Result<ErasePlan, TrashError>)
        ensures
            r is Ok <==> exists && !path_starts_with(self.cwd(), resolved(self.cwd(), file@)) && (
            path_starts_with(resolved(self.cwd(), file@), files_dir_of(self.root()))
                ==> info_path_of(self.root(), resolved(self.cwd(), file@)) is Some),
            r is Ok ==> r->Ok_0.target@ == resolved(self.cwd(), file@),
            r is Ok ==> (r->Ok_0.sidecar is Some <==> path_starts_with(
                resolved(self.cwd(), file@),
                files_dir_of(self.root()),
            )),
            r is Ok && r->Ok_0.sidecar is Some ==> info_path_of(
                self.root(),
                resolved(self.cwd(), file@),
            ) == Some(r->Ok_0.sidecar->Some_0@),
            !exists ==> r is Err && r->Err_0.kind is NotFound && r->Err_0.kind->NotFound_0@
                == resolved(self.cwd(), file@),
            exists && path_starts_with(self.cwd(), resolved(self.cwd(), file@)) ==> r is Err
                && r->Err_0.kind is TrashingCwd && r->Err_0.kind->TrashingCwd_0@ == resolved(
                self.cwd(),
                file@,
            ),
            r is Err && exists && !path_starts_with(self.cwd(), resolved(self.cwd(), file@))
                ==> r->Err_0.kind is Path,
    {
        let a = self.absolute_path(file);
        if !exists {
            return Err(TrashError::new(TrashErrorKind::NotFound(a)));
        }
        if starts_with(self.cwd.as_str(), a.as_str()) {
            return Err(TrashError::new(TrashErrorKind::TrashingCwd(a)));
        }
        let files = self.files_dir();
        if starts_with(a.as_str(), files.as_str()) {
            let sidecar = self.trash_info_path(a.as_str())?;
            Ok(ErasePlan { target: a, sidecar: Some(sidecar) })
        } else {
            Ok(ErasePlan { target: a, sidecar: None })
        }
    }

    /// The entry that one sidecar of `info/` stands for.
    fn list_one(&self, f: &SidecarFile) -> (r: Result<TrashEntry, TrashError>)
        ensures
            listed_as(self.root(), *f, r),
    {
        let info = self.info_dir();
        let sidecar = join(info.as_str(), f.name.as_str());
        match &f.text {
            None => Err(TrashError::new(TrashErrorKind::Io(sidecar))),
            Some(t) => match TrashInfo::parse(t.as_str()) {
                None => Err(TrashError::new(TrashErrorKind::ParseTrashInfoError(sidecar))),
                Some(trash_info) => {
                    let files = self.files_dir();
                    let stem = file_stem(f.name.as_str());
                    let trashed_path = join(files.as_str(), stem.as_str());
                    Ok(TrashEntry { trashed_path, trash_info })
                },
            },
        }
    }

    /// The trashed entries that the sidecars of `info/` stand for, one result
    /// per sidecar, ordered by deletion date, oldest first, with the failures
    /// after every entry. A sidecar that cannot be read or parsed gives an
    /// error of its own and does not stop the others.
    pub fn get_trashed_files(&self, sidecars: &Vec<SidecarFile>) -> (r: Vec<
        Result<TrashEntry, TrashError>,
    >)
        ensures
            r.len() == sidecars.len(),
            exists|listed: Seq<Result<TrashEntry, TrashError>>|
                listed.len() == sidecars.len() && (forall|i: int|
                    0 <= i < listed.len() ==> listed_as(self.root(), sidecars@[i], #[trigger] listed[i]))
                    && r@.to_multiset() == listed.to_multiset(),
            forall|i: int, j: int| 0 <= i < j < r.len() ==> in_date_order(r@[i], r@[j]),
    {
        let mut listed: Vec<Result<TrashEntry, TrashError>> = Vec::new();
        let mut i: usize = 0;
        while i < sidecars.len()
            invariant
                i <= sidecars.len(),
                listed.len() == i,
                forall|j: int|
                    0 <= j < i ==> listed_as(self.root(), sidecars@[j], #[trigger] listed@[j]),
            decreases sidecars.len() - i,
        {
            let e = self.list_one(&sidecars[i]);
            listed.push(e);
            i = i + 1;
        }
        let ghost before = listed@;
        let r = sorted_by_date(listed);
        proof {
            r@.to_multiset_ensures();
            before.to_multiset_ensures();
        }
        r
    }
}

} // verus!
