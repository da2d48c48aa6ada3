//! The command grammar of the client: a line entered in command mode
//! splits into space-separated words, and the first word selects the
//! operation.  The shell only performs what is parsed here.

use vstd::prelude::*;
use vstd::string::StrSliceExecFns;

verus! {

/// The tokens of a line: its maximal runs of non-space characters,
/// in order.
pub open spec fn tokens_of(s: Seq<char>) -> Seq<Seq<char>>
    decreases s.len(),
{
    if s.len() == 0 {
        Seq::empty()
    } else if s.last() == ' ' {
        tokens_of(s.drop_last())
    } else if s.len() == 1 || s[s.len() - 2] == ' ' {
        tokens_of(s.drop_last()).push(seq![s.last()])
    } else {
        let t = tokens_of(s.drop_last());
        t.update(t.len() - 1, t.last().push(s.last()))
    }
}

/// A line ending in a non-space character has at least one token.
pub proof fn lemma_tokens_nonempty(s: Seq<char>)
    requires
        s.len() > 0,
        s.last() != ' ',
    ensures
        tokens_of(s).len() > 0,
    decreases s.len(),
{
    if s.len() == 1 || s[s.len() - 2] == ' ' {
    } else {
        lemma_tokens_nonempty(s.drop_last());
    }
}

/// Words joined by single spaces.
pub open spec fn joined(ws: Seq<Seq<char>>) -> Seq<char>
    decreases ws.len(),
{
    if ws.len() == 0 {
        Seq::empty()
    } else if ws.len() == 1 {
        ws[0]
    } else {
        joined(ws.drop_last()) + seq![' '] + ws.last()
    }
}

/// The character sequences of a list of words.
pub open spec fn word_views(ws: Seq<Vec<char>>) -> Seq<Seq<char>> {
    ws.map_values(|w: Vec<char>| w@)
}

/// A parsed command line.
pub enum Command {
    /// Create a group under the given identifier.
    Create(Vec<char>),
    /// `create` without an identifier.
    CreateUsage,
    /// Join the group with the given identifier.
    Join(Vec<char>),
    /// `join` without an identifier.
    JoinUsage,
    /// Send the given text (the words after `send`, single-spaced).
    Send(Vec<char>),
    /// Leave the application.
    Quit,
    /// Show the help screen.
    Help,
    /// Open the settings screen.
    Settings,
    /// List the registered groups.
    Groups,
    /// Report connectivity.
    Status,
    /// Anything else, the empty line included.
    Unknown,
}

/// Split a line into its words.
pub fn tokenize(line: &Vec<char>) -> (r: Vec<Vec<char>>)
    ensures
        word_views(r@) == tokens_of(line@),
{
    let mut out: Vec<Vec<char>> = Vec::new();
    let mut i: usize = 0;
    while i < line.len()
        invariant
            i <= line@.len(),
            word_views(out@) == tokens_of(line@.take(i as int)),
        decreases line@.len() - i,
    {
        let ghost prev = out@;
        let c = line[i];
        proof {
            assert(line@.take(i + 1).drop_last() =~= line@.take(i as int));
            assert(line@.take(i + 1).last() == line@[i as int]);
        }
        if c == ' ' {
            // A separator extends no word.
        } else if i == 0 || line[i - 1] == ' ' {
            let mut w: Vec<char> = Vec::new();
            w.push(c);
            out.push(w);
            proof {
                assert(word_views(out@) =~= word_views(prev).push(seq![c]));
            }
        } else {
            proof {
                assert(line@.take(i as int).last() == line@[i - 1]);
                lemma_tokens_nonempty(line@.take(i as int));
            }
            let n = out.len();
            let w = &mut out[n - 1];
            w.push(c);
            proof {
                assert(word_views(out@) =~= word_views(prev).update(
                    prev.len() - 1,
                    prev.last()@.push(c),
                ));
            }
        }
        i = i + 1;
    }
    proof {
        assert(line@.take(line@.len() as int) =~= line@);
    }
    out
}

/// Whether the characters of `v` read exactly the text `s`.
pub fn chars_eq_lit(v: &Vec<char>, s: &str) -> (r: bool)
    ensures
        r == (v@ == s@),
{
    let n = s.unicode_len();
    if v.len() != n {
        proof {
            if v@ == s@ {
                assert(v@.len() == s@.len());
            }
        }
        return false;
    }
    let mut i: usize = 0;
    while i < n
        invariant
            i <= n,
            n == s@.len(),
            v@.len() == n,
            forall|j: int| 0 <= j < i ==> v@[j] == s@[j],
        decreases n - i,
    {
        if v[i] != s.get_char(i) {
            return false;
        }
        i = i + 1;
    }
    assert(v@ =~= s@);
    true
}

/// An elementwise copy of a word.
fn copy_chars(v: &Vec<char>) -> (r: Vec<char>)
    ensures
        r@ == v@,
{
    let mut r: Vec<char> = Vec::new();
    let mut i: usize = 0;
    while i < v.len()
        invariant
            i <= v.len(),
            r@ == v@.take(i as int),
        decreases v.len() - i,
    {
        r.push(v[i]);
        i = i + 1;
        assert(r@ =~= v@.take(i as int));
    }
    assert(v@.take(v@.len() as int) =~= v@);
    r
}

/// Join the words from `start` on with single spaces.
fn join_words(ws: &Vec<Vec<char>>, start: usize) -> (r: Vec<char>)
    requires
        start <= ws@.len(),
    ensures
        r@ == joined(word_views(ws@).skip(start as int)),
{
    let mut out: Vec<char> = Vec::new();
    let mut k: usize = start;
    while k < ws.len()
        invariant
            start <= k <= ws@.len(),
            out@ == joined(word_views(ws@).subrange(start as int, k as int)),
        decreases ws@.len() - k,
    {
        let ghost sub = word_views(ws@).subrange(start as int, k as int);
        if k > start {
            out.push(' ');
        }
        let w = &ws[k];
        let mut j: usize = 0;
        let ghost base = out@;
        while j < w.len()
            invariant
                j <= w@.len(),
                out@ == base + w@.take(j as int),
            decreases w@.len() - j,
        {
            out.push(w[j]);
            j = j + 1;
            assert(out@ =~= base + w@.take(j as int));
        }
        k = k + 1;
        proof {
            assert(w@.take(w@.len() as int) =~= w@);
            let sub2 = word_views(ws@).subrange(start as int, k as int);
            assert(sub2.drop_last() =~= sub);
            assert(sub2.last() == ws@[k - 1]@);
            if k - 1 == start {
                assert(out@ =~= joined(sub2));
            } else {
                assert(out@ =~= joined(sub2.drop_last()) + seq![' '] + sub2.last());
            }
        }
    }
    proof {
        assert(word_views(ws@).subrange(start as int, ws@.len() as int) =~= word_views(
            ws@,
        ).skip(start as int));
    }
    out
}

/// What `parse_command` must return for a line: the first word
/// selects the operation, `create` and `join` take the following word
/// as the identifier, and `send` takes everything after the first
/// word, single-spaced.
pub open spec fn command_matches(s: Seq<char>, r: Command) -> bool {
    let ts = tokens_of(s);
    if ts.len() == 0 {
        r is Unknown
    } else if ts[0] == "create"@ && ts.len() >= 2 {
        r matches Command::Create(a) && a@ == ts[1]
    } else if ts[0] == "create"@ {
        r is CreateUsage
    } else if ts[0] == "join"@ && ts.len() >= 2 {
        r matches Command::Join(a) && a@ == ts[1]
    } else if ts[0] == "join"@ {
        r is JoinUsage
    } else if ts[0] == "send"@ {
        r matches Command::Send(m) && m@ == joined(ts.drop_first())
    } else if ts[0] == "quit"@ {
        r is Quit
    } else if ts[0] == "help"@ {
        r is Help
    } else if ts[0] == "settings"@ {
        r is Settings
    } else if ts[0] == "groups"@ {
        r is Groups
    } else if ts[0] == "status"@ {
        r is Status
    } else {
        r is Unknown
    }
}

/// Parse one command line.
pub fn parse_command(line: &Vec<char>) -> (r: Command)
    ensures
        command_matches(line@, r),
{
    let ts = tokenize(line);
    if ts.len() == 0 {
        return Command::Unknown;
    }
    proof {
        assert(word_views(ts@)[0] == ts@[0]@);
    }
    if chars_eq_lit(&ts[0], "create") {
        if ts.len() >= 2 {
            proof {
                assert(word_views(ts@)[1] == ts@[1]@);
            }
            Command::Create(copy_chars(&ts[1]))
        } else {
            Command::CreateUsage
        }
    } else if chars_eq_lit(&ts[0], "join") {
        if ts.len() >= 2 {
            proof {
                assert(word_views(ts@)[1] == ts@[1]@);
            }
            Command::Join(copy_chars(&ts[1]))
        } else {
            Command::JoinUsage
        }
    } else if chars_eq_lit(&ts[0], "send") {
        let m = join_words(&ts, 1);
        proof {
            assert(word_views(ts@).skip(1) =~= word_views(ts@).drop_first());
        }
        Command::Send(m)
    } else if chars_eq_lit(&ts[0], "quit") {
        Command::Quit
    } else if chars_eq_lit(&ts[0], "help") {
        Command::Help
    } else if chars_eq_lit(&ts[0], "settings") {
        Command::Settings
    } else if chars_eq_lit(&ts[0], "groups") {
        Command::Groups
    } else if chars_eq_lit(&ts[0], "status") {
        Command::Status
    } else {
        Command::Unknown
    }
}

} // verus!
