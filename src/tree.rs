use vstd::prelude::*;
use crate::snapshot::{
    all_modules, get_submod_dirs, preorder, strs_view, sub_count, sub_index, Dir, File,
};

verus! {

/// Identifier of a package, unique within one compilation.
#[derive(Clone, Copy, Debug, PartialEq, Eq, Structural)]
pub struct HakoId {
    pub id: usize,
}

impl HakoId {
    pub fn new(id: usize) -> (r: HakoId)
        ensures
            r.id == id,
    {
        HakoId { id }
    }
}

/// Identifier of a module: its package and a local number, unique within
/// that package.
#[derive(Clone, Copy, Debug, PartialEq, Eq, Structural)]
pub struct ModId {
    pub hako_id: usize,
    pub mod_id: usize,
}

impl ModId {
    pub fn new(hako_id: usize, mod_id: usize) -> (r: ModId)
        ensures
            r.hako_id == hako_id,
            r.mod_id == mod_id,
    {
        ModId { hako_id, mod_id }
    }
}

/// One source file as a module: its id, its qualified path, its text and the
/// modules nested under it.
#[derive(Debug)]
pub struct InputMod {
    pub id: ModId,
    pub path: Vec<String>,
    pub source: String,
    pub submods: Vec<InputMod>,
}

/// One package: its id, its name and its top-level modules.
#[derive(Debug)]
pub struct InputHako {
    pub id: HakoId,
    pub name: String,
    pub mods: Vec<InputMod>,
}

/// Every package of one compilation, and the name of the main one.
#[derive(Debug)]
pub struct InputTree {
    pub hakos: Vec<InputHako>,
    pub main_hako_name: String,
}

/// `m` is the module built from file `f` of directory `d`, in package `hako`,
/// with local id `id`, under the path `prefix`, its text taken from `srcs`.
pub open spec fn mod_built(
    m: InputMod,
    hako: nat,
    id: nat,
    prefix: Seq<Seq<char>>,
    d: Dir,
    f: File,
    srcs: Seq<String>,
) -> bool
    decreases d, 0nat,
{
    let path = prefix.push(f.name@);
    let j = sub_index(d, f.name@);
    &&& m.id.hako_id == hako
    &&& m.id.mod_id == id
    &&& strs_view(m.path@) == path
    &&& id < srcs.len()
    &&& m.source@ == srcs[id as int]@
    &&& if 0 <= j < d.subdirs.len() {
        mods_built(m.submods@, hako, id + 1, path, d.subdirs@[j], srcs)
    } else {
        m.submods@.len() == 0
    }
}

/// `ms` are the modules built from the files of `d`, in listing order, the
/// first of them numbered `base`.
pub open spec fn mods_built(
    ms: Seq<InputMod>,
    hako: nat,
    base: nat,
    prefix: Seq<Seq<char>>,
    d: Dir,
    srcs: Seq<String>,
) -> bool
    decreases d, 1nat,
{
    &&& ms.len() == d.files.len()
    &&& forall|k: int|
        0 <= k < ms.len() ==> mod_built(
            #[trigger] ms[k],
            hako,
            base + preorder(d, k).len(),
            prefix,
            d,
            d.files@[k],
            srcs,
        )
}

/// Converts one file of `parent_dir` into a module, taking the next id from
/// `mod_id_counter` and then ids for its submodules.
pub fn conv_file_to_mod(
    hako_id: usize,
    mod_id_counter: &mut usize,
    parent_mod_path: &Vec<String>,
    parent_dir: &Dir,
    mod_file: &File,
    sources: &Vec<String>,
) -> (r: InputMod)
    requires
        *old(mod_id_counter) + 1 + sub_count(*parent_dir, mod_file.name@) <= sources.len(),
    ensures
        *final(mod_id_counter) == *old(mod_id_counter) + 1 + sub_count(
            *parent_dir,
            mod_file.name@,
        ),
        mod_built(
            r,
            hako_id as nat,
            *old(mod_id_counter) as nat,
            strs_view(parent_mod_path@),
            *parent_dir,
            *mod_file,
            sources@,
        ),
    decreases parent_dir, 0nat,
{
    let mod_id = *mod_id_counter;
    *mod_id_counter = *mod_id_counter + 1;
    let mut mod_path: Vec<String> = Vec::new();
    let mut i: usize = 0;
    while i < parent_mod_path.len()
        invariant
            i <= parent_mod_path.len(),
            mod_path@ == parent_mod_path@.subrange(0, i as int),
        decreases parent_mod_path.len() - i,
    {
        mod_path.push(parent_mod_path[i].clone());
        assert(mod_path@ =~= parent_mod_path@.subrange(0, i + 1));
        i = i + 1;
    }
    assert(mod_path@ =~= parent_mod_path@);
    mod_path.push(mod_file.name.clone());
    assert(strs_view(mod_path@) =~= strs_view(parent_mod_path@).push(mod_file.name@));
    let source = sources[mod_id].clone();
    let submods = match get_submod_dirs(parent_dir, &mod_file.name) {
        Some(submod_dir) => conv_dir_to_mods(
            hako_id,
            mod_id_counter,
            &mod_path,
            submod_dir,
            sources,
        ),
        None => Vec::new(),
    };
    InputMod { id: ModId::new(hako_id, mod_id), path: mod_path, source, submods }
}

/// Converts the files of `mod_dir` into modules, with their submodules,
/// numbering them in pre-order from the value of `mod_id_counter`.
pub fn conv_dir_to_mods(
    hako_id: usize,
    mod_id_counter: &mut usize,
    parent_mod_path: &Vec<String>,
    mod_dir: &Dir,
    sources: &Vec<String>,
) -> (r: Vec<InputMod>)
    requires
        *old(mod_id_counter) + all_modules(*mod_dir).len() <= sources.len(),
    ensures
        *final(mod_id_counter) == *old(mod_id_counter) + all_modules(*mod_dir).len(),
        mods_built(
            r@,
            hako_id as nat,
            *old(mod_id_counter) as nat,
            strs_view(parent_mod_path@),
            *mod_dir,
            sources@,
        ),
    decreases mod_dir, 1nat,
{
    let ghost base = *mod_id_counter as nat;
    let mut mods: Vec<InputMod> = Vec::new();
    let mut i: usize = 0;
    while i < mod_dir.files.len()
        invariant
            i <= mod_dir.files.len(),
            base + all_modules(*mod_dir).len() <= sources.len(),
            *mod_id_counter == base + preorder(*mod_dir, i as int).len(),
            mods@.len() == i,
            forall|k: int|
                0 <= k < i ==> mod_built(
                    #[trigger] mods@[k],
                    hako_id as nat,
                    base + preorder(*mod_dir, k).len(),
                    strs_view(parent_mod_path@),
                    *mod_dir,
                    mod_dir.files@[k],
                    sources@,
                ),
        decreases mod_dir.files.len() - i,
    {
        proof {
            lemma_preorder_grows(*mod_dir, i as int + 1, mod_dir.files.len() as int);
        }
        let new_mod = conv_file_to_mod(
            hako_id,
            mod_id_counter,
            parent_mod_path,
            mod_dir,
            &mod_dir.files[i],
            sources,
        );
        mods.push(new_mod);
        i = i + 1;
    }
    mods
}

/// Why a build request cannot be served.
#[derive(Debug, PartialEq, Eq)]
pub enum BuildError {
    /// No package root was given; a main package is mandatory.
    NoRootsSupplied,
    /// A root path does not exist or is not a directory.
    InvalidRoot(String),
    /// A directory could not be listed, a path resolved, or a file read.
    FilesystemAccess(String),
    /// A source file is not valid text.
    Encoding(String),
}

/// `h` is the package `name` with id `id` built from the root directory
/// `d`, the text of its module with local id `i` being `srcs[i]`.
pub open spec fn hako_built(
    h: InputHako,
    id: nat,
    name: Seq<char>,
    d: Dir,
    srcs: Seq<String>,
) -> bool {
    &&& h.id.id == id
    &&& h.name@ == name
    &&& mods_built(h.mods@, id, 0, seq![name], d, srcs)
}

/// `t` holds package `i` built from `roots[i]` with id `i` and the module
/// texts `sources[i]`, and names the first package as the main one.
pub open spec fn tree_built(t: InputTree, roots: Seq<Dir>, sources: Seq<Vec<String>>) -> bool {
    &&& roots.len() > 0
    &&& t.main_hako_name@ == roots[0].name@
    &&& t.hakos.len() == roots.len()
    &&& forall|i: int|
        0 <= i < roots.len() ==> hako_built(
            #[trigger] t.hakos@[i],
            i as nat,
            roots[i].name@,
            roots[i],
            sources[i]@,
        )
}

/// Converts the root directory of a package into the package, numbering
/// its modules from 0.
pub fn conv_dir_to_hako(
    id: HakoId,
    name: String,
    hako_dir: &Dir,
    sources: &Vec<String>,
) -> (r: InputHako)
    requires
        all_modules(*hako_dir).len() <= sources.len(),
    ensures
        hako_built(r, id.id as nat, name@, *hako_dir, sources@),
{
    let mut mod_id_counter: usize = 0;
    let mut parent_mod_path: Vec<String> = Vec::new();
    parent_mod_path.push(name.clone());
    assert(strs_view(parent_mod_path@) =~= seq![name@]);
    let mods = conv_dir_to_mods(id.id, &mut mod_id_counter, &parent_mod_path, hako_dir, sources);
    InputHako { id, name, mods }
}

/// Builds the input tree from package roots given in order: package `i` is
/// built from `roots[i]` with id `i`, its module texts from `sources[i]`, and
/// the first package is the main one.
pub fn build_input_tree(roots: Vec<Dir>, sources: Vec<Vec<String>>) -> (r: Result<InputTree, BuildError>)
    requires
        sources.len() == roots.len(),
        forall|i: int|
            0 <= i < roots.len() ==> all_modules(#[trigger] roots@[i]).len() <= sources@[i].len(),
    ensures
        r is Err <==> roots.len() == 0,
        match r {
            Ok(t) => tree_built(t, roots@, sources@),
            Err(e) => e == BuildError::NoRootsSupplied,
        },
{
    if roots.len() == 0 {
        return Err(BuildError::NoRootsSupplied);
    }
    let mut hakos: Vec<InputHako> = Vec::new();
    let mut i: usize = 0;
    while i < roots.len()
        invariant
            i <= roots.len(),
            sources.len() == roots.len(),
            forall|t: int|
                0 <= t < roots.len() ==> all_modules(#[trigger] roots@[t]).len()
                    <= sources@[t].len(),
            hakos.len() == i,
            forall|t: int|
                0 <= t < i ==> hako_built(
                    #[trigger] hakos@[t],
                    t as nat,
                    roots@[t].name@,
                    roots@[t],
                    sources@[t]@,
                ),
        decreases roots.len() - i,
    {
        let dir = &roots[i];
        let name = dir.name.clone();
        let new_hako = conv_dir_to_hako(HakoId::new(i), name, dir, &sources[i]);
        hakos.push(new_hako);
        i = i + 1;
    }
    let main_hako_name = roots[0].name.clone();
    Ok(InputTree { hakos, main_hako_name })
}

/// Converting more files never allocates fewer ids.
pub proof fn lemma_preorder_grows(d: Dir, k1: int, k2: int)
    requires
        0 <= k1 <= k2 <= d.files.len(),
    ensures
        preorder(d, k1).len() <= preorder(d, k2).len(),
    decreases k2 - k1,
{
    if k1 < k2 {
        lemma_preorder_grows(d, k1, k2 - 1);
    }
}

} // verus!
