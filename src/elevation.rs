//! Asking for elevated rights: quoting the command line of the relaunched
//! process and deciding whether a relaunch is needed.

use vstd::prelude::*;
use vstd::string::*;
use crate::text::push_char;

verus! {

/// An argument needs quotes when it is empty or holds a space, a tab or a
/// double quote.
pub open spec fn needs_quotes(s: Seq<char>) -> bool {
    s.len() == 0 || exists|i: int| 0 <= i < s.len() && (s[i] == ' ' || s[i] == '\t' || s[i] == '"')
}

/// `n` backslashes.
pub open spec fn backslashes(n: nat) -> Seq<char> {
    Seq::new(n, |_i: int| '\\')
}

/// The inside of the quoted form of `s`, with `pending` backslashes seen and
/// not yet written: a run of backslashes is doubled before a double quote,
/// which is then escaped, and before the closing quote; elsewhere it is
/// written as it is.
pub open spec fn escaped_from(s: Seq<char>, pending: nat) -> Seq<char>
    decreases s.len(),
{
    if s.len() == 0 {
        backslashes(2 * pending)
    } else if s[0] == '\\' {
        escaped_from(s.drop_first(), pending + 1)
    } else if s[0] == '"' {
        backslashes(2 * pending + 1).push('"') + escaped_from(s.drop_first(), 0)
    } else {
        backslashes(pending).push(s[0]) + escaped_from(s.drop_first(), 0)
    }
}

/// `s` as one command-line argument: unchanged when it needs no quotes,
/// otherwise escaped and enclosed in double quotes.
pub open spec fn quoted(s: Seq<char>) -> Seq<char> {
    if needs_quotes(s) {
        seq!['"'] + escaped_from(s, 0) + seq!['"']
    } else {
        s
    }
}

/// The quoted arguments, separated by single spaces.
pub open spec fn joined_params(args: Seq<Seq<char>>) -> Seq<char>
    decreases args.len(),
{
    if args.len() == 0 {
        seq![]
    } else if args.len() == 1 {
        quoted(args[0])
    } else {
        joined_params(args.drop_last()).push(' ') + quoted(args.last())
    }
}

fn push_backslashes(out: &mut String, count: usize)
    ensures
        final(out)@ == old(out)@ + backslashes(count as nat),
{
    let mut k: usize = 0;
    while k < count
        invariant
            k <= count,
            out@ == old(out)@ + backslashes(k as nat),
        decreases count - k,
    {
        push_char(out, '\\');
        assert(out@ =~= old(out)@ + backslashes((k + 1) as nat));
        k = k + 1;
    }
}

fn has_quote_trigger(arg: &str) -> (r: bool)
    ensures
        r == needs_quotes(arg@),
{
    let n = arg.unicode_len();
    if n == 0 {
        return true;
    }
    let mut i: usize = 0;
    while i < n
        invariant
            i <= n,
            n == arg@.len(),
            forall|k: int| 0 <= k < i ==> !(arg@[k] == ' ' || arg@[k] == '\t' || arg@[k] == '"'),
        decreases n - i,
    {
        let c = arg.get_char(i);
        if c == ' ' || c == '\t' || c == '"' {
            return true;
        }
        i = i + 1;
    }
    false
}

/// Quotes one argument for a Windows command line.
pub fn quote_argument(arg: &str) -> (r: String)
    ensures
        r@ == quoted(arg@),
{
    if !has_quote_trigger(arg) {
        return String::from_str(arg);
    }
    let ghost s = arg@;
    let n = arg.unicode_len();
    let mut escaped = String::new();
    push_char(&mut escaped, '"');
    let mut pending: usize = 0;
    let mut i: usize = 0;
    assert(s.subrange(0, n as int) =~= s);
    while i < n
        invariant
            i <= n,
            n == s.len(),
            s == arg@,
            pending <= i,
            seq!['"'] + escaped_from(s, 0) == escaped@ + escaped_from(
                s.subrange(i as int, n as int),
                pending as nat,
            ),
        decreases n - i,
    {
        let ghost rest = s.subrange(i as int, n as int);
        assert(rest.drop_first() =~= s.subrange(i + 1, n as int));
        let ghost before = escaped@;
        let ch = arg.get_char(i);
        assert(rest[0] == ch);
        let ghost p = pending as nat;
        if ch == '\\' {
            pending = pending + 1;
        } else if ch == '"' {
            push_backslashes(&mut escaped, pending);
            push_backslashes(&mut escaped, pending);
            push_char(&mut escaped, '\\');
            push_char(&mut escaped, '"');
            pending = 0;
            let ghost x = backslashes(2 * p + 1).push('"');
            assert(escaped@ =~= before + x);
            let ghost y = escaped_from(rest.drop_first(), 0);
            assert(before + (x + y) =~= (before + x) + y);
        } else {
            push_backslashes(&mut escaped, pending);
            push_char(&mut escaped, ch);
            pending = 0;
            let ghost x = backslashes(p).push(ch);
            assert(escaped@ =~= before + x);
            let ghost y = escaped_from(rest.drop_first(), 0);
            assert(before + (x + y) =~= (before + x) + y);
        }
        i = i + 1;
    }
    let ghost before = escaped@;
    push_backslashes(&mut escaped, pending);
    push_backslashes(&mut escaped, pending);
    push_char(&mut escaped, '"');
    assert(s.subrange(n as int, n as int) =~= Seq::<char>::empty());
    assert(escaped@ =~= before + backslashes(2 * (pending as nat)) + seq!['"']);
    assert(escaped@ =~= seq!['"'] + escaped_from(s, 0) + seq!['"']);
    escaped
}

} // verus!

verus! {

/// The parameter string of an elevated relaunch: every argument quoted,
/// separated by single spaces.
pub fn relaunch_parameters(args: &Vec<String>) -> (r: String)
    ensures
        r@ == joined_params(args.deep_view()),
{
    let mut out = String::new();
    let mut i: usize = 0;
    while i < args.len()
        invariant
            i <= args@.len(),
            out@ == joined_params(args.deep_view().take(i as int)),
        decreases args@.len() - i,
    {
        let ghost before = args.deep_view().take(i as int);
        let ghost after = args.deep_view().take(i + 1);
        assert(after.drop_last() =~= before);
        assert(after.last() == args@[i as int]@);
        let q = quote_argument(args[i].as_str());
        if i > 0 {
            push_char(&mut out, ' ');
        } else {
            assert(out@ =~= Seq::<char>::empty());
        }
        out.append(q.as_str());
        if i == 0 {
            assert(out@ =~= quoted(after[0]));
        }
        i = i + 1;
    }
    assert(args.deep_view().take(args@.len() as int) =~= args.deep_view());
    out
}

/// What start-up does about elevated rights.
pub enum AdminStep {
    /// The process runs elevated already: go on.
    AlreadyElevated,
    /// Relaunch elevated with these parameters (none when there are no
    /// arguments), then exit.
    Relaunch(Option<String>),
}

/// Goes on when the process is elevated; otherwise asks for a relaunch with
/// the same arguments.
pub fn ensure_admin(elevated: bool, args: &Vec<String>) -> (r: AdminStep)
    ensures
        elevated ==> r matches AdminStep::AlreadyElevated,
        !elevated && args@.len() == 0 ==> r matches AdminStep::Relaunch(None),
        !elevated && args@.len() > 0 ==> (r matches AdminStep::Relaunch(Some(p)) && p@
            == joined_params(args.deep_view())),
{
    if elevated {
        return AdminStep::AlreadyElevated;
    }
    if args.len() == 0 {
        return AdminStep::Relaunch(None);
    }
    AdminStep::Relaunch(Some(relaunch_parameters(args)))
}

/// The outcome of asking the shell for an elevated relaunch: codes up to 32
/// are failures.
pub fn elevation_request_result(code: isize) -> (r: Result<(), isize>)
    ensures
        code <= 32 ==> r == Err::<(), isize>(code),
        code > 32 ==> r is Ok,
{
    if code <= 32 {
        Err(code)
    } else {
        Ok(())
    }
}

} // verus!
