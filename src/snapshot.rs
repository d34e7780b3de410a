use vstd::prelude::*;

verus! {

/// A source file found in a directory: where it lives and its base name.
#[derive(Clone, Debug)]
pub struct File {
    pub path: String,
    pub name: String,
}

/// A directory as read from disk: its name, its source files and its
/// subdirectories, both in listing order.
#[derive(Debug)]
pub struct Dir {
    pub name: String,
    pub files: Vec<File>,
    pub subdirs: Vec<Dir>,
}

/// The extension of the files that hold modules.
pub open spec fn source_ext() -> Seq<char> {
    seq!['k', 'r']
}

/// The entry of a directory listing for a plain file with the given path,
/// extension and base name, kept only when the extension marks a source file.
pub fn source_file(path: String, extension: Option<String>, stem: String) -> (r: Option<File>)
    ensures
        r is Some <==> (extension is Some && extension->0@ == source_ext()),
        match r {
            Some(f) => f.path@ == path@ && f.name@ == stem@,
            None => true,
        },
{
    match extension {
        Some(ext) => {
            let kr = "kr".to_owned();
            proof {
                reveal_strlit("kr");
                assert(kr@ =~= source_ext());
            }
            if ext == kr {
                Some(File { path, name: stem })
            } else {
                None
            }
        },
        None => None,
    }
}

/// Index of the first directory in `subs` whose name is `name`, or -1.
pub open spec fn first_named(subs: Seq<Dir>, name: Seq<char>) -> int
    decreases subs.len(),
{
    if subs.len() == 0 {
        -1
    } else if subs[0].name@ == name {
        0
    } else {
        let j = first_named(subs.drop_first(), name);
        if j < 0 {
            -1
        } else {
            j + 1
        }
    }
}

/// Index of the subdirectory of `d` that holds the submodules of a file
/// named `name`, or -1 when there is none.
pub open spec fn sub_index(d: Dir, name: Seq<char>) -> int {
    first_named(d.subdirs@, name)
}

/// Paths of the files that become modules when the first `k` files of `d`
/// are converted, in the order their ids are allocated (pre-order).
pub open spec fn preorder(d: Dir, k: int) -> Seq<Seq<char>>
    decreases d, k,
{
    if k <= 0 || k > d.files.len() {
        seq![]
    } else {
        let f = d.files@[k - 1];
        let j = sub_index(d, f.name@);
        let below = if 0 <= j < d.subdirs.len() {
            preorder(d.subdirs@[j], d.subdirs@[j].files.len() as int)
        } else {
            seq![]
        };
        preorder(d, k - 1).push(f.path@) + below
    }
}

/// Paths of all files that become modules under `d`, in allocation order.
pub open spec fn all_modules(d: Dir) -> Seq<Seq<char>> {
    preorder(d, d.files.len() as int)
}

/// Number of modules that a file named `name` in `d` has below it.
pub open spec fn sub_count(d: Dir, name: Seq<char>) -> nat {
    let j = sub_index(d, name);
    if 0 <= j < d.subdirs.len() {
        all_modules(d.subdirs@[j]).len()
    } else {
        0
    }
}

/// The strings of a sequence, as character sequences.
pub open spec fn strs_view(p: Seq<String>) -> Seq<Seq<char>> {
    p.map_values(|s: String| s@)
}

/// What `first_named` means: the lowest index with that name, or -1 when no
/// directory has it.
pub proof fn lemma_first_named(subs: Seq<Dir>, name: Seq<char>)
    ensures
        -1 <= first_named(subs, name) < subs.len(),
        first_named(subs, name) == -1 <==> forall|i: int|
            0 <= i < subs.len() ==> subs[i].name@ != name,
        first_named(subs, name) >= 0 ==> subs[first_named(subs, name)].name@ == name,
        forall|i: int| 0 <= i < first_named(subs, name) ==> subs[i].name@ != name,
    decreases subs.len(),
{
    if subs.len() > 0 {
        lemma_first_named(subs.drop_first(), name);
        if subs[0].name@ != name {
            assert forall|i: int| 1 <= i < subs.len() implies subs[i] == subs.drop_first()[i
                - 1] by {}
        }
    }
}

/// The first subdirectory of `parent_dir` named `filename`: the directory
/// that holds the submodules of the file of that name.
pub fn get_submod_dirs<'a>(parent_dir: &'a Dir, filename: &String) -> (r: Option<&'a Dir>)
    ensures
        match r {
            Some(s) => {
                &&& 0 <= sub_index(*parent_dir, filename@) < parent_dir.subdirs.len()
                &&& *s == parent_dir.subdirs@[sub_index(*parent_dir, filename@)]
            },
            None => sub_index(*parent_dir, filename@) == -1,
        },
{
    proof {
        lemma_first_named(parent_dir.subdirs@, filename@);
    }
    let mut i: usize = 0;
    while i < parent_dir.subdirs.len()
        invariant
            i <= parent_dir.subdirs.len(),
            forall|t: int| 0 <= t < i ==> parent_dir.subdirs@[t].name@ != filename@,
            -1 <= sub_index(*parent_dir, filename@) < parent_dir.subdirs.len(),
            sub_index(*parent_dir, filename@) == -1 <==> forall|t: int|
                0 <= t < parent_dir.subdirs.len() ==> parent_dir.subdirs@[t].name@ != filename@,
            sub_index(*parent_dir, filename@) >= 0 ==> parent_dir.subdirs@[sub_index(
                *parent_dir,
                filename@,
            )].name@ == filename@,
            forall|t: int|
                0 <= t < sub_index(*parent_dir, filename@) ==> parent_dir.subdirs@[t].name@
                    != filename@,
        decreases parent_dir.subdirs.len() - i,
    {
        let subdir = &parent_dir.subdirs[i];
        if subdir.name == *filename {
            return Some(subdir);
        }
        i = i + 1;
    }
    None
}

/// Paths of the files that become modules under `dir`, in the order their
/// ids are allocated; the contents of the file at index `i` become the
/// source of the module with local id `i`.
pub fn module_files(dir: &Dir) -> (r: Vec<String>)
    ensures
        strs_view(r@) == all_modules(*dir),
    decreases dir,
{
    let mut out: Vec<String> = Vec::new();
    let mut i: usize = 0;
    while i < dir.files.len()
        invariant
            i <= dir.files.len(),
            strs_view(out@) == preorder(*dir, i as int),
        decreases dir.files.len() - i,
    {
        let f = &dir.files[i];
        let ghost before = out@;
        out.push(f.path.clone());
        assert(strs_view(out@) =~= strs_view(before).push(f.path@));
        let ghost mid = out@;
        match get_submod_dirs(dir, &f.name) {
            Some(sub) => {
                let mut below = module_files(sub);
                out.append(&mut below);
                assert(strs_view(out@) =~= strs_view(mid) + all_modules(*sub));
            },
            None => {},
        }
        i = i + 1;
    }
    out
}

} // verus!
