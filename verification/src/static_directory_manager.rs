//! Resolving a requested path against the approved root directories: the
//! containment boundary, and the ordered, first-match search.

use vstd::prelude::*;

use crate::file_store::{store_lookup, FileStore};
use crate::filelike::{same_content, FileLike};
use crate::text::{split_spec, split_str, starts_with, str_eq, views_of};

verus! {

/// A candidate path could not be served: it was not contained in an
/// approved directory, or nothing is stored under it.
#[derive(Clone, Debug)]
pub struct UnknownFileError {
    pub path: String,
}

/// The approved root directories, in search order, and the backup file
/// served when no root yields a match.
#[derive(Clone, Debug)]
pub struct StaticDirectoryManager {
    pub directories: Vec<String>,
    pub backup_file: String,
}

/// No `/`-separated segment of `rest` is `..`: the path below a root never
/// climbs back out of it.
pub open spec fn no_traversal(rest: Seq<char>) -> bool {
    forall|i: int|
        0 <= i < split_spec(rest, "/"@).len() ==> split_spec(rest, "/"@)[i] != ".."@
}

/// `value` is `dir` itself or a descendant of it: it extends `dir` at a
/// segment boundary — so a sibling whose name merely begins with `dir`'s is
/// out — and what follows never climbs back out through a `..` segment.
pub open spec fn contained_in(dir: Seq<char>, value: Seq<char>) -> bool {
    &&& dir.is_prefix_of(value)
    &&& (value.len() == dir.len() || value[dir.len() as int] == '/')
    &&& no_traversal(value.subrange(dir.len() as int, value.len() as int))
}

/// `value` lies inside one of the approved directories.
pub open spec fn approved(dirs: Seq<Seq<char>>, value: Seq<char>) -> bool {
    exists|i: int| 0 <= i < dirs.len() && contained_in(#[trigger] dirs[i], value)
}

/// Does `value` lie inside `dir`?
fn contained(dir: &str, value: &str) -> (r: bool)
    ensures
        r == contained_in(dir@, value@),
{
    if !starts_with(value, dir) {
        return false;
    }
    let dir_len = dir.unicode_len();
    let value_len = value.unicode_len();
    if value_len > dir_len && value.get_char(dir_len) != '/' {
        return false;
    }
    let rest = value.substring_char(dir_len, value_len);
    let segs = split_str(rest, "/");
    let ghost spec_segs = split_spec(rest@, "/"@);
    let n = segs.len();
    let mut i: usize = 0;
    while i < n
        invariant
            n == spec_segs.len(),
            views_of(segs@) == spec_segs,
            i <= n,
            dir@.len() <= value@.len(),
            dir@.is_prefix_of(value@),
            rest@ == value@.subrange(dir@.len() as int, value@.len() as int),
            spec_segs == split_spec(rest@, "/"@),
            forall|j: int| 0 <= j < i ==> spec_segs[j] != ".."@,
        decreases n - i,
    {
        let is_up = str_eq(segs[i].as_str(), "..");
        if is_up {
            proof {
                assert(spec_segs[i as int] == ".."@);
                assert(!no_traversal(value@.subrange(dir@.len() as int, value@.len() as int)));
            }
            return false;
        }
        i += 1;
    }
    proof {
        assert(rest@ == value@.subrange(dir@.len() as int, value@.len() as int));
        assert(no_traversal(value@.subrange(dir@.len() as int, value@.len() as int)));
    }
    true
}

/// The first file found along the approved directories still to try:
/// `rest` is the tail of the search order, while containment is always
/// checked against all of `all`.
pub open spec fn resolve_from(
    all: Seq<Seq<char>>,
    rest: Seq<Seq<char>>,
    path: Seq<char>,
    store: Seq<(Seq<char>, FileLike)>,
) -> Option<FileLike>
    decreases rest.len(),
{
    if rest.len() == 0 {
        None
    } else {
        let candidate = rest[0] + path;
        if approved(all, candidate) && store_lookup(store, candidate) is Some {
            store_lookup(store, candidate)
        } else {
            resolve_from(all, rest.subrange(1, rest.len() as int), path, store)
        }
    }
}

/// The file served for `path`: the first approved directory, in order,
/// under which the concatenated candidate path is contained and stored.
pub open spec fn resolve_spec(
    dirs: Seq<Seq<char>>,
    path: Seq<char>,
    store: Seq<(Seq<char>, FileLike)>,
) -> Option<FileLike> {
    resolve_from(dirs, dirs, path, store)
}

/// Resolution short-circuits: a path stored under the first approved
/// directory is served from there, whatever the later directories hold.
pub proof fn lemma_resolve_first_directory(
    dirs: Seq<Seq<char>>,
    path: Seq<char>,
    store: Seq<(Seq<char>, FileLike)>,
)
    requires
        dirs.len() > 0,
        approved(dirs, dirs[0] + path),
        store_lookup(store, dirs[0] + path) is Some,
    ensures
        resolve_spec(dirs, path, store) == store_lookup(store, dirs[0] + path),
{
}

impl StaticDirectoryManager {
    /// Does `value` lie inside one of the approved directories? This is the
    /// containment boundary: a served path must be an approved root or a
    /// descendant of one — extending it at a segment boundary — and never
    /// climb back out of it through a `..` segment.
    pub fn has(&self, value: &str) -> (r: bool)
        ensures
            r == approved(views_of(self.directories@), value@),
    {
        let ghost dirs = views_of(self.directories@);
        let n = self.directories.len();
        let mut has_ancestor_dir = false;
        let mut i: usize = 0;
        while i < n
            invariant
                n == dirs.len(),
                dirs == views_of(self.directories@),
                i <= n,
                has_ancestor_dir ==> approved(dirs, value@),
                !has_ancestor_dir ==> forall|j: int|
                    0 <= j < i ==> !contained_in(#[trigger] dirs[j], value@),
            decreases n - i,
        {
            let dir_matches = contained(self.directories[i].as_str(), value);
            proof {
                assert(dirs[i as int] == self.directories@[i as int]@);
            }
            if dir_matches {
                has_ancestor_dir = true;
                proof {
                    assert(contained_in(dirs[i as int], value@));
                }
            } else {
                proof {
                    assert(!contained_in(dirs[i as int], value@));
                }
            }
            i += 1;
        }
        if !has_ancestor_dir {
            assert(!approved(dirs, value@));
        }
        has_ancestor_dir
    }

    /// The file stored under `absolute_path`, provided the path lies inside
    /// an approved directory; everything else is an `UnknownFileError`
    /// naming the path.
    pub fn get_file(&self, absolute_path: &str, store: &FileStore) -> (r: Result<
        FileLike,
        UnknownFileError,
    >)
        ensures
            approved(views_of(self.directories@), absolute_path@) && store_lookup(
                store@,
                absolute_path@,
            ) is Some ==> r is Ok && same_content(
                r.unwrap(),
                store_lookup(store@, absolute_path@).unwrap(),
            ),
            !(approved(views_of(self.directories@), absolute_path@) && store_lookup(
                store@,
                absolute_path@,
            ) is Some) ==> r is Err && r.unwrap_err().path@ == absolute_path@,
    {
        if self.has(absolute_path) {
            match store.get(absolute_path) {
                Some(file) => Ok(file.duplicate()),
                None => Err(
                    UnknownFileError { path: String::from_str(absolute_path) },
                ),
            }
        } else {
            Err(UnknownFileError { path: String::from_str(absolute_path) })
        }
    }

    /// Tries `path` under each approved directory in order and serves the
    /// first contained, stored candidate; with none, the search fails.
    pub fn search_for_file_path_in_approved_directories(&self, path: &str, store: &FileStore) -> (r:
        Result<FileLike, ()>)
        ensures
            ({
                let resolved = resolve_spec(views_of(self.directories@), path@, store@);
                match r {
                    Ok(file) => resolved is Some && same_content(file, resolved.unwrap()),
                    Err(_) => resolved is None,
                }
            }),
    {
        let ghost dirs = views_of(self.directories@);
        let ghost resolved = resolve_spec(dirs, path@, store@);
        proof {
            assert(dirs.subrange(0, dirs.len() as int) =~= dirs);
        }
        let n = self.directories.len();
        let mut i: usize = 0;
        while i < n
            invariant
                n == dirs.len(),
                dirs == views_of(self.directories@),
                resolved == resolve_spec(dirs, path@, store@),
                i <= n,
                resolved == resolve_from(
                    dirs,
                    dirs.subrange(i as int, dirs.len() as int),
                    path@,
                    store@,
                ),
            decreases n - i,
        {
            let ghost mid = dirs.subrange(i as int, dirs.len() as int);
            let mut directory_string = self.directories[i].clone();
            directory_string.append(path);
            proof {
                assert(directory_string@ == dirs[i as int] + path@);
                assert(mid[0] == dirs[i as int]);
                assert(mid.subrange(1, mid.len() as int) =~= dirs.subrange(
                    i + 1,
                    dirs.len() as int,
                ));
            }
            let file_op_result = self.get_file(directory_string.as_str(), store);
            match file_op_result {
                Ok(file) => {
                    return Ok(file);
                },
                Err(_) => {},
            }
            i += 1;
        }
        proof {
            assert(dirs.subrange(i as int, dirs.len() as int) =~= Seq::<Seq<char>>::empty());
        }
        Err(())
    }
}

} // verus!
