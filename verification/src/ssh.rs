use vstd::prelude::*;

use crate::text::{cut_once, lemma_cut_once, split_once, views};

verus! {

/// The port that an SSH server listens on.
pub const SSH_PORT: u16 = 22;

/// A target that is not `user@host`.
#[derive(Debug)]
pub struct BadTarget {
    pub target: String,
}

impl BadTarget {
    pub fn message(&self) -> (r: String)
        ensures
            r@ == "invalid SSH target: expected user@host, got '"@ + self.target@ + "'"@,
    {
        let mut s = "invalid SSH target: expected user@host, got '".to_string();
        s.append(self.target.as_str());
        s.append("'");
        s
    }
}

/// The user and the host of an SSH target: what stands before its first `@`, and
/// what stands behind it.
pub fn parse_user_host(user_host: &str) -> (r: Result<(String, String), BadTarget>)
    ensures
        match cut_once(user_host@, '@') {
            Some((user, host)) => r matches Ok(p) && p.0@ == user && p.1@ == host,
            None => r matches Err(e) && e.target@ == user_host@,
        },
{
    match split_once(user_host, '@') {
        Some((user, host)) => Ok((user.to_string(), host.to_string())),
        None => Err(BadTarget { target: user_host.to_string() }),
    }
}

/// A user and a host are read back from the target that they make.
pub proof fn law_target_is_read_back(user: Seq<char>, host: Seq<char>)
    requires
        !user.contains('@'),
    ensures
        cut_once(user + "@"@ + host, '@') == Some((user, host)),
{
    reveal_strlit("@");
    assert("@"@ =~= seq!['@']);
    lemma_cut_once(user, '@', host);
}

/// The keys to try, in order: those of the user, then the one of a server, whose
/// services may have no home.
pub fn key_paths(home: Option<&str>) -> (r: Vec<String>)
    ensures
        ({
            let h = match home {
                Some(h) => h@,
                None => "/root"@,
            };
            views(r@) == seq![
                h + "/.ssh/id_ed25519"@,
                h + "/.ssh/id_rsa"@,
                "/var/lib/vitro/ssh/id_ed25519"@,
            ]
        }),
{
    let h = match home {
        Some(h) => h,
        None => "/root",
    };
    let mut ed = h.to_string();
    ed.append("/.ssh/id_ed25519");
    let mut rsa = h.to_string();
    rsa.append("/.ssh/id_rsa");
    vec![ed, rsa, "/var/lib/vitro/ssh/id_ed25519".to_string()]
}

/// No key was accepted.
pub fn auth_failed(user_host: &str) -> (r: String)
    ensures
        r@ == "SSH authentication failed for "@ + user_host@,
{
    let mut s = "SSH authentication failed for ".to_string();
    s.append(user_host);
    s
}

/// What comes out of a channel.
pub enum ChannelEvent {
    Data(Vec<u8>),
    Exit(u32),
    Other,
}

/// What a command printed so far, and the exit code that it gave.
pub struct ExecOutput {
    pub stdout: Vec<u8>,
    pub exit_code: u32,
}

/// What a command printed and how it ended, from all that came out of its
/// channel: its output in order, and the last exit code, 0 without one.
pub open spec fn exec_output(events: Seq<ChannelEvent>) -> (Seq<u8>, u32)
    decreases events.len(),
{
    if events.len() == 0 {
        (Seq::empty(), 0)
    } else {
        let (out, code) = exec_output(events.drop_last());
        match events.last() {
            ChannelEvent::Data(d) => (out + d@, code),
            ChannelEvent::Exit(c) => (out, c),
            ChannelEvent::Other => (out, code),
        }
    }
}

impl ExecOutput {
    pub fn new() -> (r: ExecOutput)
        ensures
            (r.stdout@, r.exit_code) == exec_output(Seq::empty()),
            r.stdout@.len() == 0,
            r.exit_code == 0,
    {
        ExecOutput { stdout: Vec::new(), exit_code: 0 }
    }

    /// Take in what came out of the channel.
    pub fn on(&mut self, event: ChannelEvent)
        ensures
            forall|events: Seq<ChannelEvent>|
                #![trigger exec_output(events)]
                (old(self).stdout@, old(self).exit_code) == exec_output(events) ==> (
                final(self).stdout@,
                final(self).exit_code,
                ) == exec_output(events.push(event)),
            final(self).stdout@ == match event {
                ChannelEvent::Data(d) => old(self).stdout@ + d@,
                _ => old(self).stdout@,
            },
            final(self).exit_code == match event {
                ChannelEvent::Exit(c) => c,
                _ => old(self).exit_code,
            },
    {
        let ghost e0 = event;
        proof {
            assert forall|events: Seq<ChannelEvent>| #[trigger]
                exec_output(events) == exec_output(events) implies events.push(e0).drop_last()
                =~= events by {}
        }
        match event {
            ChannelEvent::Data(d) => {
                let mut d = d;
                self.stdout.append(&mut d);
            },
            ChannelEvent::Exit(c) => {
                self.exit_code = c;
            },
            ChannelEvent::Other => {},
        }
        proof {
            assert forall|events: Seq<ChannelEvent>| (old(self).stdout@, old(self).exit_code)
                == #[trigger] exec_output(events) implies (self.stdout@, self.exit_code)
                == exec_output(events.push(e0)) by {
                assert(events.push(e0).drop_last() =~= events);
            }
        }
    }
}

/// What comes while a response is read.
pub enum ResponseEvent {
    Data(Vec<u8>),
    /// The channel ended.
    End,
    /// Nothing came for too long.
    TimedOut,
    Other,
}

/// What follows.
#[derive(Clone, Copy, PartialEq, Eq, Structural)]
pub enum ReadNext {
    More,
    Done,
    TimedOut,
}

/// Take in what came while a response is read.
pub fn read_response(response: &mut Vec<u8>, event: ResponseEvent) -> (r: ReadNext)
    ensures
        match event {
            ResponseEvent::Data(d) => r == ReadNext::More && final(response)@ == old(response)@
                + d@,
            ResponseEvent::End => r == ReadNext::Done && final(response)@ == old(response)@,
            ResponseEvent::TimedOut => r == ReadNext::TimedOut && final(response)@
                == old(response)@,
            ResponseEvent::Other => r == ReadNext::More && final(response)@ == old(response)@,
        },
{
    match event {
        ResponseEvent::Data(d) => {
            let mut d = d;
            response.append(&mut d);
            ReadNext::More
        },
        ResponseEvent::End => ReadNext::Done,
        ResponseEvent::TimedOut => ReadNext::TimedOut,
        ResponseEvent::Other => ReadNext::More,
    }
}

} // verus!
