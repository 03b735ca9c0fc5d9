//! What a search finds in a directory tree, stated over the tree as a
//! mathematical value.

use crate::commands::discovery::{
    after_visit, matching_files, search_started, selected, subdirectories, DirEntryView,
    FileSearchView,
};
use vstd::multiset::Multiset;
use vstd::prelude::*;
use vstd::seq_lib::lemma_multiset_commutative;

verus! {

/// A directory tree: a file, or a directory with its entries in the order in
/// which it lists them.
pub ghost enum Tree {
    File { path: Seq<char> },
    Dir { path: Seq<char>, entries: Seq<Tree> },
}

/// The path of the root of `tree`.
pub open spec fn path_of(tree: Tree) -> Seq<char> {
    match tree {
        Tree::File { path } => path,
        Tree::Dir { path, .. } => path,
    }
}

/// The entries of a directory; a file has none.
pub open spec fn entries_of(tree: Tree) -> Seq<Tree> {
    match tree {
        Tree::File { .. } => Seq::empty(),
        Tree::Dir { entries, .. } => entries,
    }
}

/// The root of `tree` as an entry of the listing of its parent.
pub open spec fn entry_of(tree: Tree) -> DirEntryView {
    DirEntryView { path: path_of(tree), is_dir: tree is Dir }
}

/// The listing of a directory with the entries `trees`.
pub open spec fn listing_of(trees: Seq<Tree>) -> Seq<DirEntryView> {
    Seq::new(trees.len(), |i: int| entry_of(trees[i]))
}

/// The paths of the roots of `trees`.
pub open spec fn paths_of(trees: Seq<Tree>) -> Seq<Seq<char>> {
    Seq::new(trees.len(), |i: int| path_of(trees[i]))
}

/// The directories among `trees`, in their order.
pub open spec fn directories(trees: Seq<Tree>) -> Seq<Tree>
    decreases trees.len(),
{
    if trees.len() == 0 {
        Seq::empty()
    } else {
        let before = directories(trees.drop_last());
        if trees.last() is Dir {
            before.push(trees.last())
        } else {
            before
        }
    }
}

/// The files with the extension `extension` in `tree`, at any depth, each as
/// often as it occurs.
pub open spec fn tree_files(tree: Tree, extension: Seq<char>) -> Multiset<Seq<char>>
    decreases tree,
{
    match tree {
        Tree::File { path } => if selected(entry_of(tree), extension) {
            Multiset::singleton(path)
        } else {
            Multiset::empty()
        },
        Tree::Dir { entries, .. } => forest_files(entries, extension),
    }
}

/// The files with the extension `extension` in `trees`, at any depth.
pub open spec fn forest_files(trees: Seq<Tree>, extension: Seq<char>) -> Multiset<Seq<char>>
    decreases trees,
{
    if trees.len() == 0 {
        Multiset::empty()
    } else {
        forest_files(trees.drop_last(), extension).add(tree_files(trees.last(), extension))
    }
}

/// The search stands at `trees`: those are the directories it has still to
/// list, and what it has found together with what they hold is `total`.
pub open spec fn covers(state: FileSearchView, trees: Seq<Tree>, total: Multiset<Seq<char>>) -> bool {
    &&& state.pending == paths_of(trees)
    &&& forall|i: int| 0 <= i < trees.len() ==> #[trigger] trees[i] is Dir
    &&& state.found.to_multiset().add(forest_files(trees, state.extension)) == total
}

/// The search after it has taken the directory to list next.
pub open spec fn after_next(state: FileSearchView) -> FileSearchView {
    FileSearchView { pending: state.pending.drop_last(), ..state }
}

/// The files of two rows of trees are those of the one and those of the
/// other.
pub proof fn lemma_forest_files_add(a: Seq<Tree>, b: Seq<Tree>, extension: Seq<char>)
    ensures
        forest_files(a + b, extension) == forest_files(a, extension).add(
            forest_files(b, extension),
        ),
    decreases b.len(),
{
    if b.len() == 0 {
        assert(a + b =~= a);
        assert(forest_files(a, extension).add(Multiset::empty()) =~= forest_files(a, extension));
    } else {
        lemma_forest_files_add(a, b.drop_last(), extension);
        assert((a + b).drop_last() =~= a + b.drop_last());
        assert((a + b).last() == b.last());
        assert(forest_files(a + b, extension) =~= forest_files(a, extension).add(
            forest_files(b, extension),
        ));
    }
}

/// The files of a directory are the selected files of its listing and the
/// files of its directories; and its listing names those directories.
pub proof fn lemma_listing(trees: Seq<Tree>, extension: Seq<char>)
    ensures
        matching_files(listing_of(trees), extension).to_multiset().add(
            forest_files(directories(trees), extension),
        ) == forest_files(trees, extension),
        subdirectories(listing_of(trees)) == paths_of(directories(trees)),
        forall|i: int| 0 <= i < directories(trees).len() ==> #[trigger] directories(trees)[i] is Dir,
    decreases trees.len(),
{
    broadcast use vstd::seq_lib::group_to_multiset_ensures;

    if trees.len() == 0 {
        assert(matching_files(listing_of(trees), extension).to_multiset() =~= Multiset::empty());
        assert(Multiset::<Seq<char>>::empty().add(Multiset::empty()) =~= Multiset::<
            Seq<char>,
        >::empty());
        assert(subdirectories(listing_of(trees)) =~= paths_of(directories(trees)));
    } else {
        let before = trees.drop_last();
        let last = trees.last();
        lemma_listing(before, extension);
        assert(listing_of(trees).drop_last() =~= listing_of(before));
        assert(listing_of(trees).last() == entry_of(last));
        let kept = matching_files(listing_of(before), extension);
        let dirs = directories(before);
        if last is Dir {
            assert(!selected(entry_of(last), extension));
            assert(paths_of(dirs.push(last)) =~= paths_of(dirs).push(path_of(last)));
            assert(dirs.push(last).drop_last() =~= dirs);
            assert(kept.to_multiset().add(
                forest_files(dirs, extension).add(tree_files(last, extension)),
            ) =~= kept.to_multiset().add(forest_files(dirs, extension)).add(
                tree_files(last, extension),
            ));
        } else if selected(entry_of(last), extension) {
            assert(kept.push(path_of(last)).to_multiset() =~= kept.to_multiset().insert(
                path_of(last),
            ));
            assert(kept.to_multiset().insert(path_of(last)).add(forest_files(dirs, extension))
                =~= kept.to_multiset().add(forest_files(dirs, extension)).add(
                Multiset::singleton(path_of(last)),
            ));
        } else {
            assert(kept.to_multiset().add(forest_files(dirs, extension)).add(Multiset::empty())
                =~= kept.to_multiset().add(forest_files(dirs, extension)));
        }
    }
}

/// A search that starts at a directory stands at that directory, and the
/// files of the directory are all still to find.
pub proof fn lemma_search_starts(root: Tree, extension: Seq<char>)
    requires
        root is Dir,
    ensures
        covers(search_started(path_of(root), extension), seq![root], tree_files(root, extension)),
{
    broadcast use vstd::seq_lib::group_to_multiset_ensures;

    let state = search_started(path_of(root), extension);
    assert(state.pending =~= paths_of(seq![root]));
    assert(seq![root].drop_last() =~= Seq::<Tree>::empty());
    assert(forest_files(seq![root].drop_last(), extension) =~= Multiset::empty());
    assert(forest_files(seq![root], extension) =~= tree_files(root, extension));
    assert(state.found.to_multiset() =~= Multiset::empty());
    assert(state.found.to_multiset().add(forest_files(seq![root], extension)) =~= tree_files(
        root,
        extension,
    ));
}

/// One round of a search keeps what it stands for: after the search has
/// taken the last of its directories and has been handed that directory's
/// listing, it stands at the other directories and those of the listing,
/// and what it has found together with what is still to find is as before.
pub proof fn lemma_search_round(state: FileSearchView, trees: Seq<Tree>, total: Multiset<Seq<char>>)
    requires
        covers(state, trees, total),
        trees.len() > 0,
    ensures
        covers(
            after_visit(after_next(state), listing_of(entries_of(trees.last()))),
            trees.drop_last() + directories(entries_of(trees.last())),
            total,
        ),
        after_next(state).pending.push(path_of(trees.last())) == state.pending,
{
    let extension = state.extension;
    let top = trees.last();
    let rest = trees.drop_last();
    let entries = entries_of(top);
    let listing = listing_of(entries);
    let next = after_visit(after_next(state), listing);
    let more = directories(entries);
    assert(trees[trees.len() - 1] is Dir);
    lemma_listing(entries, extension);
    lemma_forest_files_add(rest, more, extension);
    lemma_multiset_commutative(state.found, matching_files(listing, extension));
    assert(next.pending =~= paths_of(rest + more));
    assert(after_next(state).pending.push(path_of(top)) =~= state.pending);
    assert forall|i: int| 0 <= i < (rest + more).len() implies #[trigger] (rest + more)[i] is Dir by {
        if i < rest.len() {
            assert((rest + more)[i] == trees[i]);
        } else {
            assert((rest + more)[i] == more[i - rest.len()]);
        }
    }
    let found = state.found.to_multiset();
    let kept = matching_files(listing, extension).to_multiset();
    assert(next.extension == extension);
    assert(next.found == state.found + matching_files(listing, extension));
    assert(next.found.to_multiset() == found.add(kept));
    assert(tree_files(top, extension) == forest_files(entries, extension));
    assert(forest_files(trees, extension) == forest_files(rest, extension).add(
        tree_files(top, extension),
    ));
    assert(found.add(kept).add(forest_files(rest, extension).add(forest_files(more, extension)))
        =~= found.add(forest_files(rest, extension).add(kept.add(forest_files(more, extension)))));
    assert(next.found.to_multiset().add(forest_files(rest + more, extension)) == total);
}

/// A search that has no directory left to list has found exactly the files
/// that were to find.
pub proof fn lemma_search_ends(state: FileSearchView, trees: Seq<Tree>, total: Multiset<Seq<char>>)
    requires
        covers(state, trees, total),
        state.pending.len() == 0,
    ensures
        state.found.to_multiset() == total,
{
    assert(trees.len() == 0);
    assert(state.found.to_multiset().add(Multiset::empty()) =~= state.found.to_multiset());
}

} // verus!
