use vstd::prelude::*;
use crate::snapshot::{all_modules, lemma_first_named, preorder, strs_view, sub_index, Dir, File};
use crate::tree::{hako_built, mod_built, mods_built, tree_built, InputHako, InputMod, InputTree};

verus! {

/// The modules of `ms` and all their submodules, each before its own
/// submodules and after the earlier siblings' subtrees (pre-order).
pub open spec fn flatten(ms: Seq<InputMod>) -> Seq<InputMod>
    decreases ms,
{
    if ms.len() == 0 {
        seq![]
    } else {
        flatten(ms.drop_last()) + seq![ms.last()] + flatten(ms.last().submods@)
    }
}

proof fn lemma_flatten_ids(
    ms: Seq<InputMod>,
    hako: nat,
    base: nat,
    prefix: Seq<Seq<char>>,
    d: Dir,
    srcs: Seq<String>,
    k: int,
)
    requires
        mods_built(ms, hako, base, prefix, d, srcs),
        0 <= k <= ms.len(),
    ensures
        flatten(ms.subrange(0, k)).len() == preorder(d, k).len(),
        forall|i: int|
            0 <= i < flatten(ms.subrange(0, k)).len() ==> {
                &&& (#[trigger] flatten(ms.subrange(0, k))[i]).id.mod_id == base + i
                &&& flatten(ms.subrange(0, k))[i].id.hako_id == hako
                &&& flatten(ms.subrange(0, k))[i].source@ == srcs[base + i]@
            },
    decreases d, k,
{
    if k > 0 {
        lemma_flatten_ids(ms, hako, base, prefix, d, srcs, k - 1);
        let part = ms.subrange(0, k);
        assert(part.drop_last() =~= ms.subrange(0, k - 1));
        assert(part.last() == ms[k - 1]);
        let m = ms[k - 1];
        let f = d.files@[k - 1];
        let id = base + preorder(d, k - 1).len();
        assert(mod_built(m, hako, id, prefix, d, f, srcs));
        let j = sub_index(d, f.name@);
        if 0 <= j < d.subdirs.len() {
            let sub = d.subdirs@[j];
            lemma_flatten_ids(
                m.submods@,
                hako,
                id + 1,
                prefix.push(f.name@),
                sub,
                srcs,
                sub.files.len() as int,
            );
            assert(m.submods@.subrange(0, sub.files.len() as int) =~= m.submods@);
        } else {
            assert(flatten(m.submods@) =~= seq![]);
        }
    }
}

/// The modules of a package, taken in allocation order, carry the local ids
/// 0, 1, 2, ... with no gap or repeat, all with the package's id; the module
/// with local id `i` holds the text `srcs[i]`.
pub proof fn lemma_local_ids_dense(
    h: InputHako,
    id: nat,
    name: Seq<char>,
    d: Dir,
    srcs: Seq<String>,
)
    requires
        hako_built(h, id, name, d, srcs),
    ensures
        flatten(h.mods@).len() == all_modules(d).len(),
        forall|i: int|
            0 <= i < flatten(h.mods@).len() ==> {
                &&& (#[trigger] flatten(h.mods@)[i]).id.mod_id == i
                &&& flatten(h.mods@)[i].id.hako_id == id
                &&& flatten(h.mods@)[i].source@ == srcs[i]@
            },
{
    lemma_flatten_ids(h.mods@, id, 0, seq![name], d, srcs, d.files.len() as int);
    assert(h.mods@.subrange(0, d.files.len() as int) =~= h.mods@);
}

/// The modules of `ms` in pre-order carry the local ids 0, 1, 2, ... and
/// the package id `hako`.
pub open spec fn ids_dense(ms: Seq<InputMod>, hako: nat) -> bool {
    forall|i: int|
        0 <= i < flatten(ms).len() ==> {
            &&& (#[trigger] flatten(ms)[i]).id.mod_id == i
            &&& flatten(ms)[i].id.hako_id == hako
        }
}

/// Within one input tree no two modules share a module id, and no two
/// packages share a package id.
pub proof fn lemma_ids_unique(t: InputTree, roots: Seq<Dir>, sources: Seq<Vec<String>>)
    requires
        tree_built(t, roots, sources),
    ensures
        forall|p1: int, p2: int|
            0 <= p1 < t.hakos.len() && 0 <= p2 < t.hakos.len() && #[trigger] t.hakos@[p1].id
                == #[trigger] t.hakos@[p2].id ==> p1 == p2,
        forall|p1: int, i1: int, p2: int, i2: int|
            0 <= p1 < t.hakos.len() && 0 <= p2 < t.hakos.len() && 0 <= i1 < flatten(
                t.hakos@[p1].mods@,
            ).len() && 0 <= i2 < flatten(t.hakos@[p2].mods@).len() && (#[trigger] flatten(
                t.hakos@[p1].mods@,
            )[i1]).id == (#[trigger] flatten(t.hakos@[p2].mods@)[i2]).id ==> p1 == p2 && i1
                == i2,
{
    assert forall|p: int| 0 <= p < t.hakos.len() implies ids_dense(
        #[trigger] t.hakos@[p].mods@,
        p as nat,
    ) by {
        lemma_local_ids_dense(t.hakos@[p], p as nat, roots[p].name@, roots[p], sources[p]@);
    }
}

/// A module has submodules exactly when its directory holds a subdirectory
/// named like the module's file, provided the first such subdirectory holds
/// a source file (an empty one gives no submodules).
pub proof fn lemma_submods_iff_dir(
    m: InputMod,
    hako: nat,
    id: nat,
    prefix: Seq<Seq<char>>,
    d: Dir,
    f: File,
    srcs: Seq<String>,
)
    requires
        mod_built(m, hako, id, prefix, d, f, srcs),
        sub_index(d, f.name@) >= 0 ==> d.subdirs@[sub_index(d, f.name@)].files.len() > 0,
    ensures
        m.submods.len() > 0 <==> exists|j: int|
            0 <= j < d.subdirs.len() && (#[trigger] d.subdirs@[j]).name@ == f.name@,
{
    lemma_first_named(d.subdirs@, f.name@);
    let j = sub_index(d, f.name@);
    if j >= 0 {
        assert(d.subdirs@[j].name@ == f.name@);
    }
}

/// A module's path is its parent's path with the module's file name
/// appended; the first segment of every path is the package name, so a
/// top-level module's path is the package name and its own name.
pub proof fn lemma_paths(
    m: InputMod,
    hako: nat,
    id: nat,
    prefix: Seq<Seq<char>>,
    d: Dir,
    f: File,
    srcs: Seq<String>,
)
    requires
        mod_built(m, hako, id, prefix, d, f, srcs),
    ensures
        strs_view(m.path@) == prefix.push(f.name@),
        forall|t: int|
            0 <= t < m.submods.len() ==> strs_view((#[trigger] m.submods@[t]).path@) == strs_view(
                m.path@,
            ).push(d.subdirs@[sub_index(d, f.name@)].files@[t].name@),
{
    let j = sub_index(d, f.name@);
    if 0 <= j < d.subdirs.len() {
        assert forall|t: int| 0 <= t < m.submods.len() implies strs_view(
            (#[trigger] m.submods@[t]).path@,
        ) == strs_view(m.path@).push(d.subdirs@[j].files@[t].name@) by {
            let sub = d.subdirs@[j];
            assert(mod_built(
                m.submods@[t],
                hako,
                id + 1 + preorder(sub, t).len(),
                prefix.push(f.name@),
                sub,
                sub.files@[t],
                srcs,
            ));
        }
    }
}

/// The top-level modules of a package have the path made of the package
/// name and their own name.
pub proof fn lemma_top_level_paths(
    h: InputHako,
    id: nat,
    name: Seq<char>,
    d: Dir,
    srcs: Seq<String>,
)
    requires
        hako_built(h, id, name, d, srcs),
    ensures
        forall|k: int|
            0 <= k < h.mods.len() ==> strs_view((#[trigger] h.mods@[k]).path@) == seq![
                name,
                d.files@[k].name@,
            ],
{
    assert forall|k: int| 0 <= k < h.mods.len() implies strs_view(
        (#[trigger] h.mods@[k]).path@,
    ) == seq![name, d.files@[k].name@] by {
        assert(mod_built(h.mods@[k], id, preorder(d, k).len(), seq![name], d, d.files@[k], srcs));
        assert(seq![name].push(d.files@[k].name@) =~= seq![name, d.files@[k].name@]);
    }
}

/// `a` and `b` have the same shape, with equal ids, paths and texts at each
/// position.
pub open spec fn same_tree(a: Seq<InputMod>, b: Seq<InputMod>) -> bool
    decreases a,
{
    &&& a.len() == b.len()
    &&& forall|k: int|
        0 <= k < a.len() ==> {
            &&& (#[trigger] a[k]).id == b[k].id
            &&& strs_view(a[k].path@) == strs_view(b[k].path@)
            &&& a[k].source@ == b[k].source@
            &&& same_tree(a[k].submods@, b[k].submods@)
        }
}

/// Building twice from the same directory and texts gives module trees of
/// the same shape, ids, paths and texts.
pub proof fn lemma_mods_deterministic(
    a: Seq<InputMod>,
    b: Seq<InputMod>,
    hako: nat,
    base: nat,
    prefix: Seq<Seq<char>>,
    d: Dir,
    srcs: Seq<String>,
)
    requires
        mods_built(a, hako, base, prefix, d, srcs),
        mods_built(b, hako, base, prefix, d, srcs),
    ensures
        same_tree(a, b),
    decreases d,
{
    assert forall|k: int| 0 <= k < a.len() implies {
        &&& (#[trigger] a[k]).id == b[k].id
        &&& strs_view(a[k].path@) == strs_view(b[k].path@)
        &&& a[k].source@ == b[k].source@
        &&& same_tree(a[k].submods@, b[k].submods@)
    } by {
        let f = d.files@[k];
        let id = base + preorder(d, k).len();
        assert(mod_built(a[k], hako, id, prefix, d, f, srcs));
        assert(mod_built(b[k], hako, id, prefix, d, f, srcs));
        let j = sub_index(d, f.name@);
        if 0 <= j < d.subdirs.len() {
            lemma_mods_deterministic(
                a[k].submods@,
                b[k].submods@,
                hako,
                id + 1,
                prefix.push(f.name@),
                d.subdirs@[j],
                srcs,
            );
        } else {
            assert(same_tree(a[k].submods@, b[k].submods@));
        }
    }
}

/// Building the input tree twice from the same snapshots and texts gives
/// the same packages, names and module trees.
pub proof fn lemma_build_deterministic(
    t1: InputTree,
    t2: InputTree,
    roots: Seq<Dir>,
    sources: Seq<Vec<String>>,
)
    requires
        tree_built(t1, roots, sources),
        tree_built(t2, roots, sources),
    ensures
        t1.main_hako_name@ == t2.main_hako_name@,
        t1.hakos.len() == t2.hakos.len(),
        forall|p: int|
            0 <= p < t1.hakos.len() ==> {
                &&& (#[trigger] t1.hakos@[p]).id == t2.hakos@[p].id
                &&& t1.hakos@[p].name@ == t2.hakos@[p].name@
                &&& same_tree(t1.hakos@[p].mods@, t2.hakos@[p].mods@)
            },
{
    assert forall|p: int| 0 <= p < t1.hakos.len() implies {
        &&& (#[trigger] t1.hakos@[p]).id == t2.hakos@[p].id
        &&& t1.hakos@[p].name@ == t2.hakos@[p].name@
        &&& same_tree(t1.hakos@[p].mods@, t2.hakos@[p].mods@)
    } by {
        assert(hako_built(t1.hakos@[p], p as nat, roots[p].name@, roots[p], sources[p]@));
        assert(hako_built(t2.hakos@[p], p as nat, roots[p].name@, roots[p], sources[p]@));
        lemma_mods_deterministic(
            t1.hakos@[p].mods@,
            t2.hakos@[p].mods@,
            p as nat,
            0,
            seq![roots[p].name@],
            roots[p],
            sources[p]@,
        );
    }
}

} // verus!
