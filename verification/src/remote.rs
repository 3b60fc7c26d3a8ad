use vstd::prelude::*;

use crate::text::{
    behind, cut_once, lemma_cut_once, opt_text, same, split_once, strip_prefix, trim, trimmed,
    views,
};

verus! {

/// Where a remote lies.
pub enum Target {
    Local,
    /// `user@host`
    Remote(String),
}

/// Where a remote lies.
pub enum TargetView {
    Local,
    Remote(Seq<char>),
}

impl View for Target {
    type V = TargetView;

    open spec fn view(&self) -> TargetView {
        match self {
            Target::Local => TargetView::Local,
            Target::Remote(h) => TargetView::Remote(h@),
        }
    }
}

/// The URL scheme of the remotes.
pub const SCHEME: &'static str = "vitro://";

/// The target and the cell that a URL names. Without the scheme it is read all
/// the same; `localhost`, `local` and nothing stand for this machine.
pub open spec fn url_parts(url: Seq<char>) -> (TargetView, Option<Seq<char>>) {
    let rest = match behind(url, SCHEME@) {
        Some(r) => r,
        None => url,
    };
    if rest == "localhost"@ || rest == "local"@ || rest.len() == 0 {
        (TargetView::Local, None)
    } else {
        match cut_once(rest, '/') {
            Some((host, cell)) => (TargetView::Remote(host), Some(cell)),
            None => (TargetView::Remote(rest), None),
        }
    }
}

/// The target and the cell that a URL names.
pub fn parse_url(url: &str) -> (r: (Target, Option<String>))
    ensures
        (r.0@, opt_text(r.1)) == url_parts(url@),
{
    let rest = match strip_prefix(url, SCHEME) {
        Some(r) => r,
        None => url,
    };
    if same(rest, "localhost") || same(rest, "local") || rest.is_empty() {
        return (Target::Local, None);
    }
    match split_once(rest, '/') {
        Some((host, cell)) => (Target::Remote(host.to_string()), Some(cell.to_string())),
        None => (Target::Remote(rest.to_string()), None),
    }
}

/// The URL of a cell on a server.
pub open spec fn url_of(user_host: Seq<char>, cell: Seq<char>) -> Seq<char> {
    SCHEME@ + user_host + "/"@ + cell
}

/// The URL of a cell on a server.
pub fn remote_url(user_host: &str, cell: &str) -> (r: String)
    ensures
        r@ == url_of(user_host@, cell@),
{
    let mut s = SCHEME.to_string();
    s.append(user_host);
    s.append("/");
    s.append(cell);
    s
}

/// The server and the cell are read back from the URL that they make.
pub proof fn law_url_is_read_back(user_host: Seq<char>, cell: Seq<char>)
    requires
        !user_host.contains('/'),
    ensures
        url_parts(url_of(user_host, cell)) == (TargetView::Remote(user_host), Some(cell)),
{
    reveal_strlit("vitro://");
    reveal_strlit("/");
    reveal_strlit("localhost");
    reveal_strlit("local");
    let url = url_of(user_host, cell);
    let rest = user_host + seq!['/'] + cell;
    assert(url.take(8) =~= SCHEME@);
    assert(url.skip(8) =~= rest);
    lemma_cut_once(user_host, '/', cell);
    let n = user_host.len() as int;
    assert(rest[n] == '/');
    if rest == "localhost"@ {
        assert("localhost"@[n] == '/');
        assert(n == 0 || n == 1 || n == 2 || n == 3 || n == 4 || n == 5 || n == 6 || n == 7 || n
            == 8);
    }
    if rest == "local"@ {
        assert("local"@[n] == '/');
        assert(n == 0 || n == 1 || n == 2 || n == 3 || n == 4);
    }
}

/// The URL among the arguments of the remote helper, of which it is the second.
pub fn url_argument(args: &Vec<String>) -> (r: &str)
    ensures
        r@ == if args@.len() > 2 {
            args@[2]@
        } else {
            "vitro://localhost"@
        },
{
    if args.len() > 2 {
        args[2].as_str()
    } else {
        "vitro://localhost"
    }
}

/// Where the path of a cell's repo comes from.
pub enum CellPath {
    /// From the repo on this machine.
    Local,
    /// It is known.
    Known(String),
    /// The server is asked, by an `ssh` call with these arguments.
    Ask(Vec<String>),
}

/// The arguments of the `ssh` call that asks a server for a cell's path.
pub open spec fn ask_args(user_host: Seq<char>, repo_name: Seq<char>) -> Seq<Seq<char>> {
    seq![user_host, "vitro"@, "util"@, "resolve-env"@] + (if repo_name.len() > 0 {
        seq!["--repo"@, repo_name]
    } else {
        Seq::empty()
    })
}

/// Where the path of a cell's repo comes from. A cell in the URL lies in its
/// place on the server; else the server finds the one of the repo.
pub fn cell_path(target: &Target, cell: &Option<String>, repo_name: &str) -> (r: CellPath)
    ensures
        match (target, cell) {
            (Target::Local, _) => r is Local,
            (Target::Remote(_), Some(name)) => r matches CellPath::Known(p) && p@
                == "/var/lib/vitro/cells/"@ + name@ + "/repo"@,
            (Target::Remote(h), None) => r matches CellPath::Ask(args) && views(args@) == ask_args(
                h@,
                repo_name@,
            ),
        },
{
    match target {
        Target::Local => CellPath::Local,
        Target::Remote(user_host) => match cell {
            Some(name) => {
                let mut s = "/var/lib/vitro/cells/".to_string();
                s.append(name.as_str());
                s.append("/repo");
                CellPath::Known(s)
            },
            None => {
                let mut args: Vec<String> = Vec::new();
                args.push(user_host.clone());
                args.push("vitro".to_string());
                args.push("util".to_string());
                args.push("resolve-env".to_string());
                if !repo_name.is_empty() {
                    args.push("--repo".to_string());
                    args.push(repo_name.to_string());
                }
                proof {
                    assert(views(args@) =~= ask_args(user_host@, repo_name@));
                }
                CellPath::Ask(args)
            },
        },
    }
}

/// Why the remote helper stops.
#[derive(Debug)]
pub enum RemoteError {
    Resolution { stderr: String },
    Unexpected { line: String },
    Exec { service: String, error: String },
}

impl RemoteError {
    pub fn message(&self) -> (r: String)
        ensures
            r@ == match self {
                RemoteError::Resolution { stderr } => "remote cell resolution failed: "@ + stderr@,
                RemoteError::Unexpected { line } => "unexpected command: "@ + line@,
                RemoteError::Exec { service, error } => "failed to exec "@ + service@ + ": "@
                    + error@,
            },
    {
        match self {
            RemoteError::Resolution { stderr } => {
                let mut s = "remote cell resolution failed: ".to_string();
                s.append(stderr.as_str());
                s
            },
            RemoteError::Unexpected { line } => {
                let mut s = "unexpected command: ".to_string();
                s.append(line.as_str());
                s
            },
            RemoteError::Exec { service, error } => {
                let mut s = "failed to exec ".to_string();
                s.append(service.as_str());
                s.append(": ");
                s.append(error.as_str());
                s
            },
        }
    }
}

/// The path that a server answered.
pub fn resolved_path(success: bool, stdout: &str, stderr: &str) -> (r: Result<String, RemoteError>)
    ensures
        match r {
            Ok(p) => success && p@ == trimmed(stdout@),
            Err(e) => !success && (e matches RemoteError::Resolution { stderr: t } && t@
                == stderr@),
        },
{
    if success {
        Ok(trim(stdout).to_string())
    } else {
        Err(RemoteError::Resolution { stderr: stderr.to_string() })
    }
}

/// What a line from git asks for.
pub enum Helper {
    /// Nothing.
    Skip,
    /// This text, which says what the helper can do.
    Say(String),
    /// This text, and then the service takes over.
    Connect { say: String, service: String },
    Unexpected(RemoteError),
}

/// What a line from git asks for. The helper can connect git to a service, and
/// nothing else.
pub fn helper(line: &str) -> (r: Helper)
    ensures
        ({
            let l = trimmed(line@);
            if l.len() == 0 {
                r is Skip
            } else if l == "capabilities"@ {
                r matches Helper::Say(t) && t@ == "connect\n\n"@
            } else {
                match behind(l, "connect "@) {
                    Some(service) => r matches Helper::Connect { say, service: s } && say@ == "\n"@
                        && s@ == service,
                    None => r matches Helper::Unexpected(RemoteError::Unexpected { line: x }) && x@
                        == l,
                }
            }
        }),
{
    let l = trim(line);
    if l.is_empty() {
        return Helper::Skip;
    }
    if same(l, "capabilities") {
        return Helper::Say("connect\n\n".to_string());
    }
    match strip_prefix(l, "connect ") {
        Some(service) => Helper::Connect { say: "\n".to_string(), service: service.to_string() },
        None => Helper::Unexpected(RemoteError::Unexpected { line: l.to_string() }),
    }
}

/// The command line of a service on a cell's repo: here, or over `ssh`.
pub fn service_command(target: &Target, service: &str, cell_path: &str) -> (r: Vec<String>)
    ensures
        views(r@) == match target@ {
            TargetView::Local => seq![service@, cell_path@],
            TargetView::Remote(h) => seq!["ssh"@, h, service@, cell_path@],
        },
{
    match target {
        Target::Local => vec![service.to_string(), cell_path.to_string()],
        Target::Remote(user_host) => vec![
            "ssh".to_string(),
            user_host.clone(),
            service.to_string(),
            cell_path.to_string(),
        ],
    }
}

} // verus!
