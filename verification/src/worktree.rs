use vstd::prelude::*;

use crate::git::Repo;
use crate::path::{below, join_path};
use crate::text::{
    find, first_at, holds, is_char, lemma_first_at, lemma_pieces_concat, lemma_pieces_nonempty,
    lemma_pieces_whole, occurs_at, pieces, split, views,
};

verus! {

/// Where a repo keeps its worktrees.
pub const TREES_DIR: &'static str = ".vitro/trees";

/// What stands between a repo root and the name of a branch.
pub const TREES_MARK: &'static str = "/.vitro/trees/";

/// The entry that makes git ignore the worktrees.
pub const TREES_IGNORE: &'static str = ".vitro/trees/";

pub fn trees_dir(repo_root: &str) -> (r: String)
    ensures
        r@ == below(repo_root@, TREES_DIR@),
{
    join_path(repo_root, TREES_DIR)
}

pub open spec fn tree_at(repo_root: Seq<char>, branch: Seq<char>) -> Seq<char> {
    below(below(repo_root, TREES_DIR@), branch)
}

pub fn tree_path(repo_root: &str, branch: &str) -> (r: String)
    ensures
        r@ == tree_at(repo_root@, branch@),
{
    join_path(trees_dir(repo_root).as_str(), branch)
}

/// The repo root and the branch of the worktree that `cwd` lies in.
pub open spec fn context_of(cwd: Seq<char>) -> Option<(Seq<char>, Seq<char>)> {
    match first_at(cwd, TREES_MARK@) {
        Some(i) => {
            let branch = pieces(cwd.skip(i + TREES_MARK@.len()), is_char('/'))[0];
            if branch.len() == 0 {
                None
            } else {
                Some((cwd.take(i), branch))
            }
        },
        None => None,
    }
}

/// Whether the working directory `cwd` lies in a worktree, and in which: the
/// repo root and the branch.
pub fn detect_context(cwd: &str) -> (r: Option<(String, String)>)
    ensures
        match context_of(cwd@) {
            Some((root, branch)) => r matches Some(p) && p.0@ == root && p.1@ == branch,
            None => r is None,
        },
{
    match find(cwd, TREES_MARK) {
        Some(i) => {
            proof {
                reveal_strlit("/.vitro/trees/");
            }
            let n = cwd.unicode_len();
            let root = cwd.substring_char(0, i);
            let after = cwd.substring_char(i + 14, n);
            proof {
                assert(root@ =~= cwd@.take(i as int));
                assert(after@ =~= cwd@.skip(i + TREES_MARK@.len()));
                lemma_pieces_nonempty(after@, is_char('/'));
            }
            let parts = split(after, '/');
            proof {
                assert(views(parts@)[0] == parts@[0]@);
            }
            if parts[0].as_str().is_empty() {
                None
            } else {
                Some((root.to_string(), parts[0].clone()))
            }
        },
        None => None,
    }
}

/// In the worktree of a branch, and anywhere below it, the context is that repo
/// and that branch. The repo does not lie in a worktree itself, nor where the
/// worktrees of another one are.
pub proof fn law_context_of_tree(root: Seq<char>, branch: Seq<char>, rest: Seq<char>)
    requires
        root.len() > 0,
        root.last() != '/',
        !holds(root + "/"@, TREES_MARK@),
        branch.len() > 0,
        !branch.contains('/'),
        rest.len() == 0 || rest[0] == '/',
    ensures
        context_of(tree_at(root, branch) + rest) == Some((root, branch)),
{
    reveal_strlit("/.vitro/trees/");
    reveal_strlit(".vitro/trees");
    reveal_strlit("/");
    let mark = TREES_MARK@;
    let cwd = tree_at(root, branch) + rest;
    assert(branch[0] != '/') by {
        assert(branch.contains(branch[0]));
    }
    assert(cwd =~= root + mark + branch + rest);
    assert(cwd.subrange(root.len() as int, (root.len() + mark.len()) as int) =~= mark);
    assert forall|j: int| 0 <= j < root.len() implies !#[trigger] occurs_at(cwd, mark, j) by {
        if occurs_at(cwd, mark, j) {
            let sub = cwd.subrange(j, j + mark.len());
            let d = root.len() - j;
            if d < 13 {
                assert(sub[d] == cwd[root.len() as int]);
                assert(sub[d + 1] == cwd[root.len() as int + 1]);
                assert(cwd[root.len() as int] == '/' && cwd[root.len() as int + 1] == '.');
                assert(mark[d] == '/' && mark[d + 1] == '.');
                assert(d == 1 || d == 2 || d == 3 || d == 4 || d == 5 || d == 6 || d == 7 || d == 8
                    || d == 9 || d == 10 || d == 11 || d == 12);
            } else {
                let t = root + "/"@;
                assert(t.subrange(j, j + 14) =~= sub);
                assert(occurs_at(t, mark, j));
            }
        }
    }
    assert(occurs_at(cwd, mark, root.len() as int));
    lemma_first_at(cwd, mark, root.len() as int);
    let after = cwd.skip((root.len() + mark.len()) as int);
    assert(cwd.take(root.len() as int) =~= root);
    assert(after =~= branch + rest);
    assert forall|i: int| 0 <= i < branch.len() implies !is_char('/')(#[trigger] branch[i]) by {
        assert(branch.contains(branch[i]));
    }
    lemma_pieces_whole(branch, is_char('/'));
    if rest.len() == 0 {
        assert(after =~= branch);
    } else {
        assert(after =~= branch + seq!['/'] + rest.skip(1));
        lemma_pieces_concat(branch, '/', rest.skip(1), is_char('/'));
    }
    assert(pieces(after, is_char('/'))[0] == branch);
}

/// Which repo and cell a command is about. Without a repo, it is the one that
/// the working directory belongs to.
pub struct CellChoice {
    pub repo: Option<Repo>,
    pub cell: String,
}

/// Neither a name was given nor does the working directory lie in a worktree.
#[derive(Debug)]
pub struct NotInWorktree;

impl NotInWorktree {
    pub fn message(&self) -> (r: String)
        ensures
            r@
                == "not in a vitro worktree — specify a branch name or cd into .vitro/trees/<branch>"@,
    {
        "not in a vitro worktree — specify a branch name or cd into .vitro/trees/<branch>".to_string()
    }
}

/// Resolve the cell name: the explicit name before the worktree's, else an
/// error. The repo is the worktree's where there is one.
pub fn resolve_cell(explicit: Option<&str>, cwd: &str) -> (r: Result<CellChoice, NotInWorktree>)
    ensures
        match r {
            Ok(c) => {
                &&& match context_of(cwd@) {
                    Some((root, _)) => c.repo matches Some(p) && p@ == root,
                    None => c.repo is None,
                }
                &&& match explicit {
                    Some(name) => c.cell@ == name@,
                    None => context_of(cwd@) matches Some((_, branch)) && c.cell@ == branch,
                }
            },
            Err(_) => explicit is None && context_of(cwd@) is None,
        },
{
    match (explicit, detect_context(cwd)) {
        (Some(name), Some((root, _))) => Ok(
            CellChoice { repo: Some(Repo::from_root(root)), cell: name.to_string() },
        ),
        (Some(name), None) => Ok(CellChoice { repo: None, cell: name.to_string() }),
        (None, Some((root, branch))) => Ok(
            CellChoice { repo: Some(Repo::from_root(root)), cell: branch },
        ),
        (None, None) => Err(NotInWorktree),
    }
}

/// Why a worktree cannot be added or removed.
#[derive(Debug)]
pub enum TreeError {
    Exists { path: String },
    Missing { branch: String },
}

impl TreeError {
    pub fn message(&self) -> (r: String)
        ensures
            r@ == match self {
                TreeError::Exists { path } => "worktree already exists at "@ + path@,
                TreeError::Missing { branch } => "no worktree for branch '"@ + branch@ + "'"@,
            },
    {
        match self {
            TreeError::Exists { path } => {
                let mut s = "worktree already exists at ".to_string();
                s.append(path.as_str());
                s
            },
            TreeError::Missing { branch } => {
                let mut s = "no worktree for branch '".to_string();
                s.append(branch.as_str());
                s.append("'");
                s
            },
        }
    }
}

/// What adding a worktree takes: an entry that git is to ignore, a directory to
/// create, and the path of the worktree.
pub struct NewTree {
    pub ignore: String,
    pub trees: String,
    pub path: String,
}

/// Add a worktree for `branch`, unless one is there.
pub fn add(repo: &Repo, branch: &str, exists: bool) -> (r: Result<NewTree, TreeError>)
    ensures
        match r {
            Ok(t) => !exists && t.ignore@ == TREES_IGNORE@ && t.trees@ == below(
                repo@,
                TREES_DIR@,
            ) && t.path@ == tree_at(repo@, branch@),
            Err(e) => exists && (e matches TreeError::Exists { path } && path@ == tree_at(
                repo@,
                branch@,
            )),
        },
{
    let path = tree_path(repo.root(), branch);
    if exists {
        Err(TreeError::Exists { path })
    } else {
        Ok(NewTree { ignore: TREES_IGNORE.to_string(), trees: trees_dir(repo.root()), path })
    }
}

/// Remove the worktree of `branch`, where there is one: its path.
pub fn remove(repo: &Repo, branch: &str, exists: bool) -> (r: Result<String, TreeError>)
    ensures
        match r {
            Ok(path) => exists && path@ == tree_at(repo@, branch@),
            Err(e) => !exists && (e matches TreeError::Missing { branch: b } && b@ == branch@),
        },
{
    if exists {
        Ok(tree_path(repo.root(), branch))
    } else {
        Err(TreeError::Missing { branch: branch.to_string() })
    }
}

} // verus!
