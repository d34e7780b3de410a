use karin_build::snapshot::{get_submod_dirs, module_files, source_file, Dir, File};
use karin_build::tree::{
    build_input_tree, conv_dir_to_hako, conv_dir_to_mods, conv_file_to_mod, BuildError, HakoId,
    InputMod, ModId,
};

fn file(path: &str, name: &str) -> File {
    File { path: path.to_string(), name: name.to_string() }
}

fn dir(name: &str, files: Vec<File>, subdirs: Vec<Dir>) -> Dir {
    Dir { name: name.to_string(), files, subdirs }
}

// Stands in for the file system: the text of each file, looked up by path.
fn read_all(d: &Dir, disk: &[(&str, &str)]) -> Vec<String> {
    module_files(d)
        .iter()
        .map(|p| disk.iter().find(|(q, _)| *q == p.as_str()).unwrap().1.to_string())
        .collect()
}

fn path(m: &InputMod) -> Vec<&str> {
    m.path.iter().map(|s| s.as_str()).collect()
}

fn preorder_ids(ms: &[InputMod], out: &mut Vec<ModId>) {
    for m in ms {
        out.push(m.id);
        preorder_ids(&m.submods, out);
    }
}

fn proj_with_submodule() -> Dir {
    dir(
        "proj",
        vec![file("proj/a.kr", "a")],
        vec![dir("a", vec![file("proj/a/b.kr", "b")], vec![])],
    )
}

const PROJ_DISK: &[(&str, &str)] = &[("proj/a.kr", "X"), ("proj/a/b.kr", "Y")];

#[test]
fn file_with_matching_directory_gets_submodule() {
    let root = proj_with_submodule();
    let srcs = read_all(&root, PROJ_DISK);
    let tree = build_input_tree(vec![root], vec![srcs]).unwrap();
    assert_eq!(tree.main_hako_name, "proj");
    assert_eq!(tree.hakos.len(), 1);
    let hako = &tree.hakos[0];
    assert_eq!(hako.name, "proj");
    assert_eq!(hako.mods.len(), 1);
    let a = &hako.mods[0];
    assert_eq!(path(a), vec!["proj", "a"]);
    assert_eq!(a.source, "X");
    assert_eq!(a.id, ModId::new(0, 0));
    assert_eq!(a.submods.len(), 1);
    let b = &a.submods[0];
    assert_eq!(path(b), vec!["proj", "a", "b"]);
    assert_eq!(b.source, "Y");
    assert_eq!(b.id, ModId::new(0, 1));
    assert!(b.submods.is_empty());
}

#[test]
fn unrelated_empty_directory_contributes_nothing() {
    let root = dir("proj", vec![file("proj/a.kr", "a")], vec![dir("c", vec![], vec![])]);
    let srcs = read_all(&root, &[("proj/a.kr", "A")]);
    assert_eq!(srcs, vec!["A".to_string()]);
    let tree = build_input_tree(vec![root], vec![srcs]).unwrap();
    let mods = &tree.hakos[0].mods;
    assert_eq!(mods.len(), 1);
    assert_eq!(path(&mods[0]), vec!["proj", "a"]);
    assert!(mods[0].submods.is_empty());
}

#[test]
fn first_root_is_main_and_package_ids_follow_order() {
    let lib1 = dir("lib1", vec![file("lib1/x.kr", "x")], vec![]);
    let lib2 = dir("lib2", vec![file("lib2/y.kr", "y"), file("lib2/z.kr", "z")], vec![]);
    let disk = [("lib1/x.kr", "1"), ("lib2/y.kr", "2"), ("lib2/z.kr", "3")];
    let s1 = read_all(&lib1, &disk);
    let s2 = read_all(&lib2, &disk);
    let tree = build_input_tree(vec![lib1, lib2], vec![s1, s2]).unwrap();
    assert_eq!(tree.main_hako_name, "lib1");
    assert_eq!(tree.hakos.len(), 2);
    assert_eq!(tree.hakos[0].id, HakoId::new(0));
    assert_eq!(tree.hakos[1].id, HakoId::new(1));
    assert_eq!(tree.hakos[0].name, "lib1");
    assert_eq!(tree.hakos[1].name, "lib2");
    assert_eq!(tree.hakos[1].mods[0].id, ModId::new(1, 0));
    assert_eq!(tree.hakos[1].mods[1].id, ModId::new(1, 1));
    assert_eq!(tree.hakos[1].mods[1].source, "3");
    assert_eq!(path(&tree.hakos[1].mods[1]), vec!["lib2", "z"]);
}

#[test]
fn no_roots_is_an_error() {
    let r = build_input_tree(vec![], vec![]);
    assert_eq!(r.err(), Some(BuildError::NoRootsSupplied));
}

#[test]
fn only_kr_files_are_sources() {
    assert!(source_file("d/readme.txt".to_string(), Some("txt".to_string()), "readme".to_string())
        .is_none());
    assert!(source_file("d/Makefile".to_string(), None, "Makefile".to_string()).is_none());
    assert!(source_file("d/a.KR".to_string(), Some("KR".to_string()), "a".to_string()).is_none());
    let f = source_file("d/a.kr".to_string(), Some("kr".to_string()), "a".to_string()).unwrap();
    assert_eq!(f.path, "d/a.kr");
    assert_eq!(f.name, "a");
}

#[test]
fn readme_beside_source_is_not_a_module() {
    let mut files = Vec::new();
    for (p, ext, stem) in [("proj/readme.txt", "txt", "readme"), ("proj/a.kr", "kr", "a")] {
        if let Some(f) = source_file(p.to_string(), Some(ext.to_string()), stem.to_string()) {
            files.push(f);
        }
    }
    let root = dir("proj", files, vec![]);
    let srcs = read_all(&root, &[("proj/a.kr", "A")]);
    let tree = build_input_tree(vec![root], vec![srcs]).unwrap();
    let mods = &tree.hakos[0].mods;
    assert_eq!(mods.len(), 1);
    assert_eq!(path(&mods[0]), vec!["proj", "a"]);
}

fn deep_tree() -> Dir {
    // r/{a.kr, b.kr, a/{c.kr, d.kr, c/{e.kr}}, b/{}, x/{f.kr}}
    dir(
        "r",
        vec![file("r/a.kr", "a"), file("r/b.kr", "b")],
        vec![
            dir(
                "a",
                vec![file("r/a/c.kr", "c"), file("r/a/d.kr", "d")],
                vec![dir("c", vec![file("r/a/c/e.kr", "e")], vec![])],
            ),
            dir("b", vec![], vec![]),
            dir("x", vec![file("r/x/f.kr", "f")], vec![]),
        ],
    )
}

const DEEP_DISK: &[(&str, &str)] = &[
    ("r/a.kr", "ta"),
    ("r/b.kr", "tb"),
    ("r/a/c.kr", "tc"),
    ("r/a/d.kr", "td"),
    ("r/a/c/e.kr", "te"),
    ("r/x/f.kr", "tf"),
];

#[test]
fn module_files_lists_in_preorder() {
    let files = module_files(&deep_tree());
    assert_eq!(files, vec!["r/a.kr", "r/a/c.kr", "r/a/c/e.kr", "r/a/d.kr", "r/b.kr"]);
}

#[test]
fn local_ids_are_dense_in_preorder() {
    let root = deep_tree();
    let srcs = read_all(&root, DEEP_DISK);
    let hako = conv_dir_to_hako(HakoId::new(3), "r".to_string(), &root, &srcs);
    let mut ids = Vec::new();
    preorder_ids(&hako.mods, &mut ids);
    let expected: Vec<ModId> = (0..5).map(|i| ModId::new(3, i)).collect();
    assert_eq!(ids, expected);
    let e = &hako.mods[0].submods[0].submods[0];
    assert_eq!(path(e), vec!["r", "a", "c", "e"]);
    assert_eq!(e.source, "te");
    let d = &hako.mods[0].submods[1];
    assert_eq!(path(d), vec!["r", "a", "d"]);
    assert_eq!(d.source, "td");
    assert_eq!(d.id.mod_id, 3);
    assert!(hako.mods[1].submods.is_empty());
}

#[test]
fn ids_unique_across_packages() {
    let r1 = deep_tree();
    let r2 = proj_with_submodule();
    let s1 = read_all(&r1, DEEP_DISK);
    let s2 = read_all(&r2, PROJ_DISK);
    let tree = build_input_tree(vec![r1, r2], vec![s1, s2]).unwrap();
    let mut ids = Vec::new();
    for h in &tree.hakos {
        preorder_ids(&h.mods, &mut ids);
    }
    assert_eq!(ids.len(), 7);
    for i in 0..ids.len() {
        for j in 0..ids.len() {
            assert_eq!(i == j, ids[i] == ids[j]);
        }
    }
}

#[test]
fn paths_extend_parent_path() {
    let root = deep_tree();
    let srcs = read_all(&root, DEEP_DISK);
    let hako = conv_dir_to_hako(HakoId::new(0), "pkg".to_string(), &root, &srcs);
    fn check(parent: &[String], ms: &[InputMod]) {
        for m in ms {
            assert_eq!(&m.path[..m.path.len() - 1], parent);
            check(&m.path, &m.submods);
        }
    }
    check(&["pkg".to_string()], &hako.mods);
    assert_eq!(path(&hako.mods[0]), vec!["pkg", "a"]);
}

fn same_shape(a: &[InputMod], b: &[InputMod]) -> bool {
    a.len() == b.len()
        && a.iter().zip(b).all(|(x, y)| {
            x.id == y.id && x.path == y.path && x.source == y.source
                && same_shape(&x.submods, &y.submods)
        })
}

#[test]
fn rebuilding_gives_the_same_tree() {
    let t1 = {
        let r = deep_tree();
        let s = read_all(&r, DEEP_DISK);
        build_input_tree(vec![r], vec![s]).unwrap()
    };
    let t2 = {
        let r = deep_tree();
        let s = read_all(&r, DEEP_DISK);
        build_input_tree(vec![r], vec![s]).unwrap()
    };
    assert_eq!(t1.main_hako_name, t2.main_hako_name);
    assert!(same_shape(&t1.hakos[0].mods, &t2.hakos[0].mods));
}

#[test]
fn first_matching_directory_wins() {
    let root = dir(
        "p",
        vec![file("p/a.kr", "a")],
        vec![
            dir("b", vec![], vec![]),
            dir("a", vec![file("p/a/one.kr", "one")], vec![]),
            dir("a", vec![file("p/a/two.kr", "two")], vec![]),
        ],
    );
    let found = get_submod_dirs(&root, &"a".to_string()).unwrap();
    assert_eq!(found.files[0].name, "one");
    assert!(get_submod_dirs(&root, &"z".to_string()).is_none());
    assert!(get_submod_dirs(&dir("e", vec![], vec![]), &"a".to_string()).is_none());
}

#[test]
fn matching_directory_without_sources_gives_no_submodules() {
    let root = dir("p", vec![file("p/a.kr", "a")], vec![dir("a", vec![], vec![])]);
    let srcs = vec!["A".to_string()];
    let mut counter: usize = 0;
    let m = conv_file_to_mod(0, &mut counter, &vec!["p".to_string()], &root, &root.files[0], &srcs);
    assert_eq!(counter, 1);
    assert!(m.submods.is_empty());
    assert_eq!(m.source, "A");
}

#[test]
fn conv_dir_to_mods_starts_at_counter() {
    let root = proj_with_submodule();
    let srcs = vec!["s0".to_string(), "s1".to_string(), "s2".to_string(), "s3".to_string()];
    let mut counter: usize = 2;
    let mods = conv_dir_to_mods(7, &mut counter, &vec!["q".to_string()], &root, &srcs);
    assert_eq!(counter, 4);
    assert_eq!(mods[0].id, ModId::new(7, 2));
    assert_eq!(mods[0].source, "s2");
    assert_eq!(mods[0].submods[0].id, ModId::new(7, 3));
    assert_eq!(mods[0].submods[0].source, "s3");
    assert_eq!(path(&mods[0].submods[0]), vec!["q", "a", "b"]);
}

#[test]
fn empty_package_has_no_modules() {
    let root = dir("empty", vec![], vec![dir("sub", vec![file("empty/sub/s.kr", "s")], vec![])]);
    assert!(module_files(&root).is_empty());
    let tree = build_input_tree(vec![root], vec![vec![]]).unwrap();
    assert_eq!(tree.main_hako_name, "empty");
    assert!(tree.hakos[0].mods.is_empty());
}
