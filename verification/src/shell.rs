use vstd::prelude::*;

use crate::text::{opt_view, replace_char, replaced};

verus! {

// ---------------------------------------------------------------------
// How a POSIX shell reads the words of a simple command
// ---------------------------------------------------------------------

/// A character that the shell takes as it stands, outside quotes.
pub open spec fn is_plain(c: char) -> bool {
    ||| 'a' <= c <= 'z'
    ||| 'A' <= c <= 'Z'
    ||| '0' <= c <= '9'
    ||| c == '-'
    ||| c == '_'
    ||| c == '.'
    ||| c == '/'
    ||| c == ':'
    ||| c == ','
    ||| c == '@'
    ||| c == '%'
    ||| c == '+'
}

/// A word that the shell takes as it stands.
pub open spec fn plain_word(w: Seq<char>) -> bool {
    w.len() > 0 && forall|i: int| 0 <= i < w.len() ==> is_plain(#[trigger] w[i])
}

pub enum Quoting {
    /// Outside quotes.
    Bare,
    /// Between single quotes, where every other character is taken as it stands.
    Single,
    /// Behind a backslash outside quotes.
    Escape,
    /// Behind a character whose meaning this reading does not cover.
    Other,
}

/// How far the shell has read: the words that are complete, the word that is
/// being read, and the quoting it stands in.
pub struct Reading {
    pub done: Seq<Seq<char>>,
    pub word: Option<Seq<char>>,
    pub quoting: Quoting,
}

pub open spec fn word_so_far(r: Reading) -> Seq<char> {
    match r.word {
        Some(w) => w,
        None => Seq::empty(),
    }
}

/// The shell reads one more character.
pub open spec fn read_char(r: Reading, c: char) -> Reading {
    match r.quoting {
        Quoting::Single => if c == '\'' {
            Reading { quoting: Quoting::Bare, ..r }
        } else {
            Reading { word: Some(word_so_far(r).push(c)), ..r }
        },
        Quoting::Escape => Reading {
            word: Some(word_so_far(r).push(c)),
            quoting: Quoting::Bare,
            ..r
        },
        Quoting::Bare => if c == ' ' {
            match r.word {
                Some(w) => Reading { done: r.done.push(w), word: None, quoting: Quoting::Bare },
                None => r,
            }
        } else if c == '\'' {
            Reading { word: Some(word_so_far(r)), quoting: Quoting::Single, ..r }
        } else if c == '\\' {
            Reading { word: Some(word_so_far(r)), quoting: Quoting::Escape, ..r }
        } else if is_plain(c) {
            Reading { word: Some(word_so_far(r).push(c)), ..r }
        } else {
            Reading { quoting: Quoting::Other, ..r }
        },
        Quoting::Other => r,
    }
}

/// The shell reads a text.
pub open spec fn read_text(r: Reading, s: Seq<char>) -> Reading
    decreases s.len(),
{
    if s.len() == 0 {
        r
    } else {
        read_char(read_text(r, s.drop_last()), s.last())
    }
}

pub open spec fn start_reading() -> Reading {
    Reading { done: Seq::empty(), word: None, quoting: Quoting::Bare }
}

/// The words of a command line, where quotes are closed and nothing outside
/// them has another meaning to the shell.
pub open spec fn shell_words(line: Seq<char>) -> Option<Seq<Seq<char>>> {
    let r = read_text(start_reading(), line);
    match r.quoting {
        Quoting::Bare => Some(
            match r.word {
                Some(w) => r.done.push(w),
                None => r.done,
            },
        ),
        _ => None,
    }
}

proof fn lemma_read_append(r: Reading, a: Seq<char>, b: Seq<char>)
    ensures
        read_text(r, a + b) == read_text(read_text(r, a), b),
    decreases b.len(),
{
    if b.len() == 0 {
        assert(a + b =~= a);
    } else {
        assert((a + b).drop_last() =~= a + b.drop_last());
        lemma_read_append(r, a, b.drop_last());
    }
}

/// Read outside quotes, a plain word is added to the word being read.
proof fn lemma_read_plain(r: Reading, w: Seq<char>)
    requires
        plain_word(w),
        r.quoting is Bare,
    ensures
        read_text(r, w) == (Reading { word: Some(word_so_far(r) + w), ..r }),
    decreases w.len(),
{
    let front = w.drop_last();
    assert(is_plain(w.last()));
    if front.len() == 0 {
        assert(word_so_far(r).push(w.last()) =~= word_so_far(r) + w);
        assert(read_text(r, front) == r);
    } else {
        assert forall|i: int| 0 <= i < front.len() implies is_plain(#[trigger] front[i]) by {
            assert(front[i] == w[i]);
        }
        lemma_read_plain(r, front);
        assert((word_so_far(r) + front).push(w.last()) =~= word_so_far(r) + w);
    }
}

/// The inside of an escaped text, read between single quotes.
proof fn lemma_read_inside(r: Reading, s: Seq<char>)
    requires
        r.quoting is Single,
        r.word is Some,
    ensures
        read_text(r, replaced(s, '\'', "'\\''"@)) == (Reading {
            word: Some(word_so_far(r) + s),
            ..r
        }),
    decreases s.len(),
{
    reveal_strlit("'\\''");
    if s.len() == 0 {
        assert(word_so_far(r) + s =~= word_so_far(r));
    } else {
        let front = s.drop_last();
        lemma_read_inside(r, front);
        let a = replaced(front, '\'', "'\\''"@);
        let m = Reading { word: Some(word_so_far(r) + front), ..r };
        assert(read_text(r, a) == m);
        assert((word_so_far(r) + front).push(s.last()) =~= word_so_far(r) + s);
        if s.last() == '\'' {
            let q = "'\\''"@;
            assert(q =~= seq!['\'', '\\', '\'', '\'']);
            lemma_read_append(r, a, q);
            reveal_with_fuel(read_text, 5);
            assert(q.drop_last() =~= seq!['\'', '\\', '\'']);
            assert(q.drop_last().drop_last() =~= seq!['\'', '\\']);
            assert(q.drop_last().drop_last().drop_last() =~= seq!['\'']);
            assert(q.drop_last().drop_last().drop_last().drop_last() =~= Seq::<char>::empty());
            let m1 = read_char(m, '\'');
            let m2 = read_char(m1, '\\');
            let m3 = read_char(m2, '\'');
            let m4 = read_char(m3, '\'');
            assert(read_text(m, q) == m4);
        } else {
            let q = seq![s.last()];
            lemma_read_append(r, a, q);
            assert(q.drop_last() =~= Seq::<char>::empty());
            reveal_with_fuel(read_text, 2);
            assert(read_text(m, q) == read_char(m, s.last()));
        }
    }
}

/// `s` between single quotes, each single quote in it closed, escaped and
/// opened again.
pub open spec fn escaped(s: Seq<char>) -> Seq<char> {
    "'"@ + replaced(s, '\'', "'\\''"@) + "'"@
}

/// Read outside quotes, an escaped text adds exactly that text to the word.
proof fn lemma_read_escaped(r: Reading, s: Seq<char>)
    requires
        r.quoting is Bare,
    ensures
        read_text(r, escaped(s)) == (Reading { word: Some(word_so_far(r) + s), ..r }),
{
    reveal_strlit("'");
    let q = "'"@;
    assert(q =~= seq!['\'']);
    let inner = replaced(s, '\'', "'\\''"@);
    lemma_read_append(r, q + inner, q);
    lemma_read_append(r, q, inner);
    reveal_with_fuel(read_text, 2);
    assert(q.drop_last() =~= Seq::<char>::empty());
    let m = read_char(r, '\'');
    assert(read_text(r, q) == m);
    lemma_read_inside(m, s);
}

/// A blank behind a word completes it.
proof fn lemma_read_blank(r: Reading)
    requires
        r.quoting is Bare,
        r.word is Some,
    ensures
        read_text(r, " "@) == (Reading {
            done: r.done.push(word_so_far(r)),
            word: None,
            quoting: Quoting::Bare,
        }),
{
    reveal_strlit(" ");
    let b = " "@;
    assert(b =~= seq![' ']);
    assert(b.drop_last() =~= Seq::<char>::empty());
    reveal_with_fuel(read_text, 2);
}

/// How `w` may be written as one word of a command line.
pub open spec fn writes(w: Seq<char>, written: Seq<char>) -> bool {
    written == escaped(w) || (written == w && plain_word(w))
}

/// The words of `ws`, written one by one as in `written`, with blanks between.
pub open spec fn line_of(written: Seq<Seq<char>>) -> Seq<char>
    decreases written.len(),
{
    if written.len() == 0 {
        Seq::empty()
    } else if written.len() == 1 {
        written[0]
    } else {
        line_of(written.drop_last()) + " "@ + written.last()
    }
}

proof fn lemma_read_line(ws: Seq<Seq<char>>, written: Seq<Seq<char>>)
    requires
        ws.len() == written.len(),
        ws.len() > 0,
        forall|i: int| 0 <= i < ws.len() ==> writes(#[trigger] ws[i], written[i]),
    ensures
        read_text(start_reading(), line_of(written)) == (Reading {
            done: ws.drop_last(),
            word: Some(ws.last()),
            quoting: Quoting::Bare,
        }),
    decreases ws.len(),
{
    let n = ws.len() - 1;
    assert(writes(ws[n], written[n]));
    if n == 0 {
        let r = start_reading();
        assert(word_so_far(r) + ws[0] =~= ws[0]);
        assert(ws.drop_last() =~= Seq::<Seq<char>>::empty());
        if written[0] == escaped(ws[0]) {
            lemma_read_escaped(r, ws[0]);
        } else {
            lemma_read_plain(r, ws[0]);
        }
    } else {
        let fw = ws.drop_last();
        let fr = written.drop_last();
        assert forall|i: int| 0 <= i < fw.len() implies writes(#[trigger] fw[i], fr[i]) by {
            assert(writes(ws[i], written[i]));
        }
        lemma_read_line(fw, fr);
        let r1 = Reading { done: fw.drop_last(), word: Some(fw.last()), quoting: Quoting::Bare };
        lemma_read_append(start_reading(), line_of(fr) + " "@, written.last());
        lemma_read_append(start_reading(), line_of(fr), " "@);
        lemma_read_blank(r1);
        assert(fw.drop_last().push(fw.last()) =~= fw);
        let r2 = Reading { done: fw, word: None, quoting: Quoting::Bare };
        assert(word_so_far(r2) + ws.last() =~= ws.last());
        if written.last() == escaped(ws.last()) {
            lemma_read_escaped(r2, ws.last());
        } else {
            lemma_read_plain(r2, ws.last());
        }
    }
}

/// A command line of words, each written plain or escaped, with blanks between
/// them, is read by the shell as exactly those words.
pub proof fn law_line_words(ws: Seq<Seq<char>>, written: Seq<Seq<char>>)
    requires
        ws.len() == written.len(),
        forall|i: int| 0 <= i < ws.len() ==> writes(#[trigger] ws[i], written[i]),
    ensures
        shell_words(line_of(written)) == Some(ws),
{
    if ws.len() == 0 {
        assert(ws =~= Seq::<Seq<char>>::empty());
    } else {
        lemma_read_line(ws, written);
        assert(ws.drop_last().push(ws.last()) =~= ws);
    }
}

/// An escaped text is one word to the shell, and that word is the text.
pub proof fn law_escaped_is_one_word(s: Seq<char>)
    ensures
        shell_words(escaped(s)) == Some(seq![s]),
{
    let ws = seq![s];
    let written = seq![escaped(s)];
    assert(writes(ws[0], written[0]));
    law_line_words(ws, written);
}

/// Escape a text for a POSIX shell command: the result is always wrapped in
/// single quotes.
pub fn shell_escape(s: &str) -> (r: String)
    ensures
        r@ == escaped(s@),
{
    let mut r = "'".to_string();
    r.append(replace_char(s, '\'', "'\\''").as_str());
    r.append("'");
    r
}

/// `vitro shell --server <env>`, with the session where one is given.
pub open spec fn hop_head(env: Seq<char>, session: Option<Seq<char>>) -> Seq<char> {
    let s = "vitro shell --server "@ + env;
    match session {
        Some(name) => s + " --session "@ + escaped(name),
        None => s,
    }
}

/// The command with which the server side runs `cmd` in `env`.
pub open spec fn hop(env: Seq<char>, cmd: Seq<char>, session: Option<Seq<char>>) -> Seq<char> {
    hop_head(env, session) + " -c "@ + escaped(cmd)
}

/// `vitro shell --server <env>`, with `--session <name>` where one is given.
pub fn vitro_hop_head(env: &str, session: Option<&str>) -> (r: String)
    ensures
        r@ == hop_head(env@, opt_view(session)),
{
    let mut s = "vitro shell --server ".to_string();
    s.append(env);
    if let Some(name) = session {
        s.append(" --session ");
        s.append(shell_escape(name).as_str());
    }
    s
}

/// Wrap a command for the hop from the client to the server:
/// `vitro shell --server <env> [--session <name>] -c <escaped command>`.
pub fn vitro_hop(env: &str, cmd: &str, session: Option<&str>) -> (r: String)
    ensures
        r@ == hop(env@, cmd@, opt_view(session)),
{
    let mut s = vitro_hop_head(env, session);
    s.append(" -c ");
    s.append(shell_escape(cmd).as_str());
    s
}

/// The server's shell splits a hop for a plain env name into the words of the
/// inner `vitro` call, whatever the command and the session name hold.
pub proof fn law_hop_words(env: Seq<char>, cmd: Seq<char>, session: Option<Seq<char>>)
    requires
        plain_word(env),
    ensures
        shell_words(hop(env, cmd, session)) == Some(
            seq!["vitro"@, "shell"@, "--server"@, env] + (match session {
                Some(name) => seq!["--session"@, name],
                None => Seq::empty(),
            }) + seq!["-c"@, cmd],
        ),
{
    reveal_strlit("vitro shell --server ");
    reveal_strlit(" --session ");
    reveal_strlit(" -c ");
    reveal_strlit("vitro");
    reveal_strlit("shell");
    reveal_strlit("--server");
    reveal_strlit("--session");
    reveal_strlit("-c");
    reveal_strlit(" ");
    let head = seq!["vitro"@, "shell"@, "--server"@, env];
    assert(plain_word("vitro"@));
    assert(plain_word("shell"@));
    assert(plain_word("--server"@));
    assert(plain_word("--session"@));
    assert(plain_word("-c"@));
    assert("vitro shell --server "@ =~= "vitro"@ + " "@ + "shell"@ + " "@ + "--server"@ + " "@);
    assert(" --session "@ =~= " "@ + "--session"@ + " "@);
    assert(" -c "@ =~= " "@ + "-c"@ + " "@);
    match session {
        Some(name) => {
            let ws = seq!["vitro"@, "shell"@, "--server"@, env, "--session"@, name, "-c"@, cmd];
            let wr = seq![
                "vitro"@,
                "shell"@,
                "--server"@,
                env,
                "--session"@,
                escaped(name),
                "-c"@,
                escaped(cmd),
            ];
            lemma_line_of_8(wr);
            assert(hop(env, cmd, session) =~= line_of(wr));
            law_line_words(ws, wr);
            assert(ws =~= head + seq!["--session"@, name] + seq!["-c"@, cmd]);
        },
        None => {
            let ws = seq!["vitro"@, "shell"@, "--server"@, env, "-c"@, cmd];
            let wr = seq!["vitro"@, "shell"@, "--server"@, env, "-c"@, escaped(cmd)];
            lemma_line_of_6(wr);
            assert(hop(env, cmd, session) =~= line_of(wr));
            law_line_words(ws, wr);
            assert(ws =~= head + Seq::<Seq<char>>::empty() + seq!["-c"@, cmd]);
        },
    }
}

proof fn lemma_line_of_6(w: Seq<Seq<char>>)
    requires
        w.len() == 6,
    ensures
        line_of(w) == w[0] + " "@ + w[1] + " "@ + w[2] + " "@ + w[3] + " "@ + w[4] + " "@ + w[5],
{
    reveal_with_fuel(line_of, 6);
}

proof fn lemma_line_of_8(w: Seq<Seq<char>>)
    requires
        w.len() == 8,
    ensures
        line_of(w) == w[0] + " "@ + w[1] + " "@ + w[2] + " "@ + w[3] + " "@ + w[4] + " "@ + w[5]
            + " "@ + w[6] + " "@ + w[7],
{
    let f = w.drop_last().drop_last();
    lemma_line_of_6(f);
    reveal_with_fuel(line_of, 3);
}

} // verus!
