//! Commands as a program and its arguments, never a shell string.
use vstd::prelude::*;
use vstd::string::*;

use crate::text::{
    all_digits, chars_of, concat3, contains, is_ascii_alnum, is_suffix, join, join_strings, occurs_at, split,
    split_str, strs, strs_ref,
};

verus! {

/// A program and its arguments.
#[derive(Clone, Debug, PartialEq, Eq)]
pub struct CommandSpec {
    pub program: String,
    pub args: Vec<String>,
}

/// The program and the arguments of a command, as text.
pub type CommandView = (Seq<char>, Seq<Seq<char>>);

impl View for CommandSpec {
    type V = CommandView;

    open spec fn view(&self) -> CommandView {
        (self.program@, strs(self.args@))
    }
}

/// The view of a sequence of commands.
pub open spec fn cmds(v: Seq<CommandSpec>) -> Seq<CommandView> {
    v.map_values(|c: CommandSpec| c@)
}

/// `program args...`
pub open spec fn cmd(program: Seq<char>, args: Seq<Seq<char>>) -> CommandView {
    (program, args)
}

/// `sudo program args...`
pub open spec fn sudo(program: Seq<char>, args: Seq<Seq<char>>) -> CommandView {
    (seq!['s', 'u', 'd', 'o'], seq![program] + args)
}

/// Characters that need no quoting when a command is shown.
pub open spec fn is_safe_char(c: char) -> bool {
    is_ascii_alnum(c) || c == '-' || c == '_' || c == '=' || c == '+' || c == '.' || c == '/'
        || c == ':'
}

pub open spec fn all_safe(v: Seq<char>) -> bool {
    forall|i: int| 0 <= i < v.len() ==> is_safe_char(#[trigger] v[i])
}

/// A value quoted for a POSIX shell, unless it needs no quoting.
pub open spec fn quote_spec(v: Seq<char>) -> Seq<char> {
    if all_safe(v) {
        v
    } else {
        seq!['\''] + join(split(v, seq!['\'']), seq!['\'', '\\', '\'', '\'']) + seq!['\'']
    }
}

/// The command as it is shown to the user.
pub open spec fn display_spec(c: CommandView) -> Seq<char> {
    join((seq![c.0] + c.1).map_values(|a: Seq<char>| quote_spec(a)), seq![' '])
}

/// A command's last argument, when it needs no quoting, is shown as itself at
/// the end of the command's display.
pub proof fn lemma_last_argument_shown(c: CommandView)
    requires
        c.1.len() > 0,
        all_safe(c.1.last()),
    ensures
        is_suffix(c.1.last(), display_spec(c)),
        contains(display_spec(c), c.1.last()),
{
    let all = seq![c.0] + c.1;
    let pieces = all.map_values(|a: Seq<char>| quote_spec(a));
    let p = c.1.last();
    assert(all.last() == p);
    assert(pieces.last() == quote_spec(p));
    assert(quote_spec(p) == p);
    let d = display_spec(c);
    assert(d == join(pieces.drop_last(), seq![' ']) + seq![' '] + pieces.last());
    assert(d.subrange(d.len() - p.len(), d.len() as int) =~= p);
    assert(occurs_at(d, p, d.len() - p.len()));
}

/// Copies of the given string slices.
pub fn to_strings(args: &[&str]) -> (v: Vec<String>)
    ensures
        strs(v@) == strs_ref(args@),
{
    let mut v: Vec<String> = Vec::new();
    let mut i: usize = 0;
    while i < args.len()
        invariant
            i <= args.len(),
            v@.len() == i,
            strs(v@) == strs_ref(args@.take(i as int)),
        decreases args.len() - i,
    {
        let ghost old_v = v@;
        let x = String::from_str(args[i]);
        v.push(x);
        assert forall|j: int| 0 <= j < i + 1 implies #[trigger] strs(v@)[j] == strs_ref(args@.take(i + 1))[j] by {
            if j < i {
                assert(strs(old_v)[j] == strs_ref(args@.take(i as int))[j]);
            }
        }
        assert(strs(v@) =~= strs_ref(args@.take(i + 1)));
        i = i + 1;
    }
    assert(args@.take(args.len() as int) =~= args@);
    v
}

impl CommandSpec {
    /// `program args...`
    pub fn new(program: &str, args: &[&str]) -> (c: CommandSpec)
        ensures
            c@ == cmd(program@, strs_ref(args@)),
    {
        CommandSpec { program: String::from_str(program), args: to_strings(args) }
    }

    /// `sudo program args...`
    pub fn sudo(program: &str, args: &[&str]) -> (c: CommandSpec)
        ensures
            c@ == sudo(program@, strs_ref(args@)),
    {
        let mut all: Vec<String> = Vec::new();
        all.push(String::from_str(program));
        let rest = to_strings(args);
        let mut i: usize = 0;
        while i < rest.len()
            invariant
                i <= rest.len(),
                all@.len() == i + 1,
                rest@.len() == strs(rest@).len(),
                strs(all@) == seq![program@] + strs(rest@).take(i as int),
            decreases rest.len() - i,
        {
            let ghost old_all = all@;
            all.push(rest[i].clone());
            assert forall|j: int| 0 <= j < i + 2 implies #[trigger] strs(all@)[j] == (seq![program@] + strs(rest@).take(i + 1))[j] by {
                if j < i + 1 {
                    assert(strs(old_all)[j] == (seq![program@] + strs(rest@).take(i as int))[j]);
                }
            }
            assert(strs(all@) =~= seq![program@] + strs(rest@).take(i + 1));
            i = i + 1;
        }
        assert(strs(rest@).take(rest.len() as int) =~= strs(rest@));
        proof {
            reveal_strlit("sudo");
        }
        let p = String::from_str("sudo");
        assert(p@ =~= seq!['s', 'u', 'd', 'o']);
        CommandSpec { program: p, args: all }
    }

    /// This command with `extra` appended to its arguments.
    pub fn with_args(self, extra: &[String]) -> (c: CommandSpec)
        ensures
            c@ == (self@.0, self@.1 + strs(extra@)),
    {
        let mut c = self;
        let mut i: usize = 0;
        while i < extra.len()
            invariant
                i <= extra.len(),
                c@ == (self@.0, self@.1 + strs(extra@.take(i as int))),
            decreases extra.len() - i,
        {
            let ghost before = c.args@;
            c.args.push(String::from_str(extra[i].as_str()));
            assert(strs(c.args@) =~= strs(before).push(extra@[i as int]@));
            assert(strs(extra@.take(i + 1)) =~= strs(extra@.take(i as int)).push(extra@[i as int]@));
            assert(c@.1 =~= self@.1 + strs(extra@.take(i + 1)));
            i = i + 1;
        }
        assert(extra@.take(extra.len() as int) =~= extra@);
        c
    }

    /// A copy of this command.
    pub fn copy(&self) -> (c: CommandSpec)
        ensures
            c@ == self@,
    {
        CommandSpec { program: self.program.clone(), args: self.args.clone() }
    }

    /// The command as it would be typed in a shell, with unsafe arguments quoted.
    pub fn display(&self) -> (s: String)
        ensures
            s@ == display_spec(self@),
    {
        let mut quoted: Vec<String> = Vec::new();
        quoted.push(quote(self.program.as_str()));
        let mut i: usize = 0;
        while i < self.args.len()
            invariant
                i <= self.args.len(),
                quoted@.len() == i + 1,
                strs(quoted@) == (seq![self.program@] + strs(self.args@).take(i as int)).map_values(
                    |a: Seq<char>| quote_spec(a),
                ),
            decreases self.args.len() - i,
        {
            let q = quote(self.args[i].as_str());
            let ghost old_q = quoted@;
            quoted.push(q);
            assert forall|j: int| 0 <= j < i + 2 implies #[trigger] strs(quoted@)[j] == (seq![self.program@] + strs(self.args@).take(i + 1)).map_values(
                |a: Seq<char>| quote_spec(a))[j] by {
                if j < i + 1 {
                    assert(strs(old_q)[j] == (seq![self.program@] + strs(self.args@).take(i as int)).map_values(
                        |a: Seq<char>| quote_spec(a))[j]);
                }
            }
            assert(strs(quoted@) =~= (seq![self.program@] + strs(self.args@).take(i + 1)).map_values(
                |a: Seq<char>| quote_spec(a),
            ));
            i = i + 1;
        }
        assert(strs(self.args@).take(self.args.len() as int) =~= strs(self.args@));
        proof {
            reveal_strlit(" ");
        }
        let s = join_strings(&quoted, " ");
        assert(" "@ =~= seq![' ']);
        s
    }
}

/// Whether `value` needs no quoting.
fn is_safe(value: &str) -> (b: bool)
    ensures
        b == all_safe(value@),
{
    let c = chars_of(value);
    let mut i: usize = 0;
    while i < c.len()
        invariant
            i <= c.len(),
            c@ == value@,
            forall|j: int| 0 <= j < i ==> is_safe_char(#[trigger] c@[j]),
        decreases c.len() - i,
    {
        let x = c[i];
        let ok = ('0' <= x && x <= '9') || ('a' <= x && x <= 'z') || ('A' <= x && x <= 'Z') || x
            == '-' || x == '_' || x == '=' || x == '+' || x == '.' || x == '/' || x == ':';
        if !ok {
            return false;
        }
        i = i + 1;
    }
    true
}

/// Quotes `value` for a POSIX shell unless it consists of safe characters only.
pub fn quote(value: &str) -> (q: String)
    ensures
        q@ == quote_spec(value@),
{
    if is_safe(value) {
        String::from_str(value)
    } else {
        let pieces = split_str(value, &['\'']);
        proof {
            reveal_strlit("'\\''");
            reveal_strlit("'");
        }
        let escaped = join_strings(&pieces, "'\\''");
        let q = concat3("'", escaped.as_str(), "'");
        assert(['\'']@ =~= seq!['\'']);
        assert("'\\''"@ =~= seq!['\'', '\\', '\'', '\'']);
        assert("'"@ =~= seq!['\'']);
        q
    }
}

} // verus!
