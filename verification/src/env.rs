use vstd::prelude::*;

use crate::cell::{dir_names, list_cells, DirItem};
use crate::order::ascending;
use crate::path::{below, join_path};
use crate::text::views;

pub use crate::cell::{allocate_ip, release_ip, runtime_dir};

verus! {

/// Where the envs live.
pub const ENVS_PATH: &'static str = "/var/lib/vitro/envs";

pub open spec fn env_at(name: Seq<char>) -> Seq<char> {
    below(ENVS_PATH@, name)
}

pub fn env_dir(name: &str) -> (r: String)
    ensures
        r@ == env_at(name@),
{
    join_path(ENVS_PATH, name)
}

pub fn env_repo_dir(name: &str) -> (r: String)
    ensures
        r@ == below(env_at(name@), "repo"@),
{
    join_path(env_dir(name).as_str(), "repo")
}

pub fn env_flake_dir(name: &str) -> (r: String)
    ensures
        r@ == below(env_at(name@), "flake"@),
{
    join_path(env_dir(name).as_str(), "flake")
}

/// The names of the env directories among `items`, in ascending order.
pub fn list_envs(items: &Vec<DirItem>) -> (r: Vec<String>)
    ensures
        ascending(views(r@)),
        views(r@).to_multiset() == dir_names(items@).to_multiset(),
{
    list_cells(items)
}

} // verus!
