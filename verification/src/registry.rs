//! Command registry: declarative specifications for every command.
//!
//! The registry is the single source of truth the parser consults: each
//! command name maps to an argument pattern and an auto-execute rule.
//! Lookups find the first entry with a matching name, and `register`
//! replaces an existing entry in place, so the table behaves like a map
//! keyed by name.

use crate::text::str_eq;
use vstd::prelude::*;
use vstd::string::*;

verus! {

broadcast use vstd::seq_lib::lemma_seq_contains_after_push;

/// Specification for how a command should be parsed and executed.
#[derive(Debug)]
pub struct CommandSpec {
    pub name: String,
    pub arg_pattern: ArgumentPattern,
    pub auto_execute: AutoExecuteRule,
    pub description: Option<String>,
}

/// Defines what kind of arguments a command expects.
#[derive(Clone, Copy, Debug)]
pub enum ArgumentPattern {
    /// Command takes no arguments (e.g., SIN, COS, ENTER).
    NoArg,
    /// Single digit 0-9 (e.g., FIX 4, SCI 2).
    SingleDigit,
    /// Register number 00-99 (e.g., STO 15, RCL 07).
    Register,
    /// Label: single letter or digit (e.g., LBL A, GTO 5).
    Label,
    /// Alpha string for program names (e.g., XEQ "MYPROG").
    Alpha,
    /// Reserved for commands with their own validation; no built-in
    /// command uses it, and it accepts no argument.
    Custom,
}

/// When should the command execute.
#[derive(Clone, Copy, Debug)]
pub enum AutoExecuteRule {
    /// Execute immediately when the command is complete (e.g., SIN, +).
    Immediate,
    /// Execute when the arguments are complete (e.g., FIX 4, STO 15).
    OnComplete,
    /// Only execute on an explicit confirm token.
    Manual,
}

impl Clone for CommandSpec {
    /// An exact copy of the specification.
    fn clone(&self) -> (r: Self)
        ensures
            r == *self,
    {
        CommandSpec {
            name: self.name.clone(),
            arg_pattern: self.arg_pattern,
            auto_execute: self.auto_execute,
            description: match &self.description {
                Some(d) => Some(d.clone()),
                None => None,
            },
        }
    }
}

/// The first entry of `s` whose name reads `name`, if any.
pub open spec fn spec_lookup(s: Seq<CommandSpec>, name: Seq<char>) -> Option<CommandSpec>
    decreases s.len(),
{
    if s.len() == 0 {
        None
    } else if s[0].name@ == name {
        Some(s[0])
    } else {
        spec_lookup(s.drop_first(), name)
    }
}

/// Whether `name` is registered in `s` with exactly this pattern and rule.
pub open spec fn cmd_is(
    s: Seq<CommandSpec>,
    name: Seq<char>,
    pat: ArgumentPattern,
    auto: AutoExecuteRule,
) -> bool {
    match spec_lookup(s, name) {
        Some(sp) => sp.name@ == name && sp.arg_pattern == pat && sp.auto_execute == auto,
        None => false,
    }
}

/// Whether some registered name in `s` has `p` as a strict prefix.
pub open spec fn spec_some_name_extends(s: Seq<CommandSpec>, p: Seq<char>) -> bool {
    exists|i: int| 0 <= i < s.len() && p.is_prefix_of(#[trigger] s[i].name@)
}

/// A successful lookup returns an entry of the table, under its own name.
pub proof fn lemma_lookup_some_contains(s: Seq<CommandSpec>, name: Seq<char>)
    requires
        spec_lookup(s, name) is Some,
    ensures
        spec_lookup(s, name).unwrap().name@ == name,
        exists|i: int| 0 <= i < s.len() && (#[trigger] s[i].name@) == name,
    decreases s.len(),
{
    if s.len() > 0 {
        if s[0].name@ == name {
            assert(s[0].name@ == name);
        } else {
            lemma_lookup_some_contains(s.drop_first(), name);
            let i = choose|i: int|
                0 <= i < s.drop_first().len() && (#[trigger] s.drop_first()[i].name@) == name;
            assert(s[i + 1].name@ == name);
        }
    }
}

proof fn lemma_lookup_at(s: Seq<CommandSpec>, name: Seq<char>, i: int)
    requires
        0 <= i < s.len(),
        s[i].name@ == name,
        forall|j: int| 0 <= j < i ==> s[j].name@ != name,
    ensures
        spec_lookup(s, name) == Some(s[i]),
    decreases i,
{
    if i > 0 {
        lemma_lookup_at(s.drop_first(), name, i - 1);
    }
}

proof fn lemma_lookup_none(s: Seq<CommandSpec>, name: Seq<char>)
    requires
        forall|j: int| 0 <= j < s.len() ==> s[j].name@ != name,
    ensures
        spec_lookup(s, name) is None,
    decreases s.len(),
{
    if s.len() > 0 {
        lemma_lookup_none(s.drop_first(), name);
    }
}

proof fn lemma_lookup_push(s: Seq<CommandSpec>, sp: CommandSpec, name: Seq<char>)
    ensures
        spec_lookup(s, name) is Some ==> spec_lookup(s.push(sp), name) == spec_lookup(s, name),
        spec_lookup(s, name) is None && sp.name@ == name ==> spec_lookup(s.push(sp), name)
            == Some(sp),
        spec_lookup(s, name) is None && sp.name@ != name ==> spec_lookup(s.push(sp), name)
            is None,
    decreases s.len(),
{
    if s.len() == 0 {
        assert(s.push(sp).drop_first() =~= s);
    } else {
        assert(s.push(sp).drop_first() =~= s.drop_first().push(sp));
        lemma_lookup_push(s.drop_first(), sp, name);
    }
}

proof fn lemma_lookup_update(s: Seq<CommandSpec>, i: int, sp: CommandSpec, name: Seq<char>)
    requires
        0 <= i < s.len(),
        s[i].name@ == sp.name@,
        forall|j: int| 0 <= j < i ==> s[j].name@ != sp.name@,
    ensures
        spec_lookup(s.update(i, sp), sp.name@) == Some(sp),
        name != sp.name@ ==> spec_lookup(s.update(i, sp), name) == spec_lookup(s, name),
    decreases s.len(),
{
    if i == 0 {
        assert(s.update(0, sp).drop_first() =~= s.drop_first());
    } else {
        assert(s.update(i, sp).drop_first() =~= s.drop_first().update(i - 1, sp));
        lemma_lookup_update(s.drop_first(), i - 1, sp, name);
    }
}

/// How many commands the built-in table holds.
pub const COMMAND_COUNT: usize = 37;

/// The built-in command table: the name, argument pattern and auto-execute
/// rule of entry `i`, in registration order.
pub open spec fn table_entry(i: int) -> (Seq<char>, ArgumentPattern, AutoExecuteRule) {
    if i == 0 {
        ("sin"@, ArgumentPattern::NoArg, AutoExecuteRule::Immediate)
    } else if i == 1 {
        ("cos"@, ArgumentPattern::NoArg, AutoExecuteRule::Immediate)
    } else if i == 2 {
        ("tan"@, ArgumentPattern::NoArg, AutoExecuteRule::Immediate)
    } else if i == 3 {
        ("asin"@, ArgumentPattern::NoArg, AutoExecuteRule::Immediate)
    } else if i == 4 {
        ("acos"@, ArgumentPattern::NoArg, AutoExecuteRule::Immediate)
    } else if i == 5 {
        ("atan"@, ArgumentPattern::NoArg, AutoExecuteRule::Immediate)
    } else if i == 6 {
        ("log"@, ArgumentPattern::NoArg, AutoExecuteRule::Immediate)
    } else if i == 7 {
        ("ln"@, ArgumentPattern::NoArg, AutoExecuteRule::Immediate)
    } else if i == 8 {
        ("exp"@, ArgumentPattern::NoArg, AutoExecuteRule::Immediate)
    } else if i == 9 {
        ("sqrt"@, ArgumentPattern::NoArg, AutoExecuteRule::Immediate)
    } else if i == 10 {
        ("inv"@, ArgumentPattern::NoArg, AutoExecuteRule::Immediate)
    } else if i == 11 {
        ("chs"@, ArgumentPattern::NoArg, AutoExecuteRule::Immediate)
    } else if i == 12 {
        ("enter"@, ArgumentPattern::NoArg, AutoExecuteRule::Immediate)
    } else if i == 13 {
        ("swap"@, ArgumentPattern::NoArg, AutoExecuteRule::Immediate)
    } else if i == 14 {
        ("clx"@, ArgumentPattern::NoArg, AutoExecuteRule::Immediate)
    } else if i == 15 {
        ("clr"@, ArgumentPattern::NoArg, AutoExecuteRule::Immediate)
    } else if i == 16 {
        ("+"@, ArgumentPattern::NoArg, AutoExecuteRule::Immediate)
    } else if i == 17 {
        ("-"@, ArgumentPattern::NoArg, AutoExecuteRule::Immediate)
    } else if i == 18 {
        ("*"@, ArgumentPattern::NoArg, AutoExecuteRule::Immediate)
    } else if i == 19 {
        ("/"@, ArgumentPattern::NoArg, AutoExecuteRule::Immediate)
    } else if i == 20 {
        ("^"@, ArgumentPattern::NoArg, AutoExecuteRule::Immediate)
    } else if i == 21 {
        ("!"@, ArgumentPattern::NoArg, AutoExecuteRule::Immediate)
    } else if i == 22 {
        ("fix"@, ArgumentPattern::SingleDigit, AutoExecuteRule::OnComplete)
    } else if i == 23 {
        ("sci"@, ArgumentPattern::SingleDigit, AutoExecuteRule::OnComplete)
    } else if i == 24 {
        ("eng"@, ArgumentPattern::SingleDigit, AutoExecuteRule::OnComplete)
    } else if i == 25 {
        ("sto"@, ArgumentPattern::Register, AutoExecuteRule::OnComplete)
    } else if i == 26 {
        ("rcl"@, ArgumentPattern::Register, AutoExecuteRule::OnComplete)
    } else if i == 27 {
        ("lbl"@, ArgumentPattern::Label, AutoExecuteRule::OnComplete)
    } else if i == 28 {
        ("gto"@, ArgumentPattern::Label, AutoExecuteRule::OnComplete)
    } else if i == 29 {
        ("xeq"@, ArgumentPattern::Alpha, AutoExecuteRule::OnComplete)
    } else if i == 30 {
        ("rtn"@, ArgumentPattern::NoArg, AutoExecuteRule::Immediate)
    } else if i == 31 {
        ("sst"@, ArgumentPattern::NoArg, AutoExecuteRule::Immediate)
    } else if i == 32 {
        ("bst"@, ArgumentPattern::NoArg, AutoExecuteRule::Immediate)
    } else if i == 33 {
        ("prgm"@, ArgumentPattern::NoArg, AutoExecuteRule::Immediate)
    } else if i == 34 {
        ("pi"@, ArgumentPattern::NoArg, AutoExecuteRule::Immediate)
    } else if i == 35 {
        ("eex"@, ArgumentPattern::NoArg, AutoExecuteRule::Immediate)
    } else {
        ("arc"@, ArgumentPattern::NoArg, AutoExecuteRule::Immediate)
    }
}

/// Whether `s` holds exactly the first `k` entries of the built-in table.
pub open spec fn table_prefix(s: Seq<CommandSpec>, k: int) -> bool {
    &&& s.len() == k
    &&& forall|i: int|
        0 <= i < k ==> (#[trigger] s[i]).name@ == table_entry(i).0 && s[i].arg_pattern
            == table_entry(i).1 && s[i].auto_execute == table_entry(i).2
}

/// Whether `s` is exactly the built-in command table.
pub open spec fn is_command_table(s: Seq<CommandSpec>) -> bool {
    table_prefix(s, COMMAND_COUNT as int)
}

/// Whether `n` names a built-in command.
pub open spec fn is_builtin_name(n: Seq<char>) -> bool {
    n == "sin"@ || n == "cos"@ || n == "tan"@ || n == "asin"@ || n == "acos"@ || n == "atan"@ || n == "log"@ || n == "ln"@ || n == "exp"@ || n == "sqrt"@ || n == "inv"@ || n == "chs"@ || n == "enter"@ || n == "swap"@ || n == "clx"@ || n == "clr"@ || n == "+"@ || n == "-"@ || n == "*"@ || n == "/"@ || n == "^"@ || n == "!"@ || n == "fix"@ || n == "sci"@ || n == "eng"@ || n == "sto"@ || n == "rcl"@ || n == "lbl"@ || n == "gto"@ || n == "xeq"@ || n == "rtn"@ || n == "sst"@ || n == "bst"@ || n == "prgm"@ || n == "pi"@ || n == "eex"@ || n == "arc"@
}

/// Everything the built-in table guarantees: each command is registered
/// under its pattern and rule, and nothing outside the table is.
#[verifier::rlimit(100)]
pub proof fn lemma_table_facts(s: Seq<CommandSpec>)
    requires
        is_command_table(s),
    ensures
        cmd_is(s, "sin"@, ArgumentPattern::NoArg, AutoExecuteRule::Immediate),
        cmd_is(s, "cos"@, ArgumentPattern::NoArg, AutoExecuteRule::Immediate),
        cmd_is(s, "tan"@, ArgumentPattern::NoArg, AutoExecuteRule::Immediate),
        cmd_is(s, "asin"@, ArgumentPattern::NoArg, AutoExecuteRule::Immediate),
        cmd_is(s, "acos"@, ArgumentPattern::NoArg, AutoExecuteRule::Immediate),
        cmd_is(s, "atan"@, ArgumentPattern::NoArg, AutoExecuteRule::Immediate),
        cmd_is(s, "log"@, ArgumentPattern::NoArg, AutoExecuteRule::Immediate),
        cmd_is(s, "ln"@, ArgumentPattern::NoArg, AutoExecuteRule::Immediate),
        cmd_is(s, "exp"@, ArgumentPattern::NoArg, AutoExecuteRule::Immediate),
        cmd_is(s, "sqrt"@, ArgumentPattern::NoArg, AutoExecuteRule::Immediate),
        cmd_is(s, "inv"@, ArgumentPattern::NoArg, AutoExecuteRule::Immediate),
        cmd_is(s, "chs"@, ArgumentPattern::NoArg, AutoExecuteRule::Immediate),
        cmd_is(s, "enter"@, ArgumentPattern::NoArg, AutoExecuteRule::Immediate),
        cmd_is(s, "swap"@, ArgumentPattern::NoArg, AutoExecuteRule::Immediate),
        cmd_is(s, "clx"@, ArgumentPattern::NoArg, AutoExecuteRule::Immediate),
        cmd_is(s, "clr"@, ArgumentPattern::NoArg, AutoExecuteRule::Immediate),
        cmd_is(s, "+"@, ArgumentPattern::NoArg, AutoExecuteRule::Immediate),
        cmd_is(s, "-"@, ArgumentPattern::NoArg, AutoExecuteRule::Immediate),
        cmd_is(s, "*"@, ArgumentPattern::NoArg, AutoExecuteRule::Immediate),
        cmd_is(s, "/"@, ArgumentPattern::NoArg, AutoExecuteRule::Immediate),
        cmd_is(s, "^"@, ArgumentPattern::NoArg, AutoExecuteRule::Immediate),
        cmd_is(s, "!"@, ArgumentPattern::NoArg, AutoExecuteRule::Immediate),
        cmd_is(s, "fix"@, ArgumentPattern::SingleDigit, AutoExecuteRule::OnComplete),
        cmd_is(s, "sci"@, ArgumentPattern::SingleDigit, AutoExecuteRule::OnComplete),
        cmd_is(s, "eng"@, ArgumentPattern::SingleDigit, AutoExecuteRule::OnComplete),
        cmd_is(s, "sto"@, ArgumentPattern::Register, AutoExecuteRule::OnComplete),
        cmd_is(s, "rcl"@, ArgumentPattern::Register, AutoExecuteRule::OnComplete),
        cmd_is(s, "lbl"@, ArgumentPattern::Label, AutoExecuteRule::OnComplete),
        cmd_is(s, "gto"@, ArgumentPattern::Label, AutoExecuteRule::OnComplete),
        cmd_is(s, "xeq"@, ArgumentPattern::Alpha, AutoExecuteRule::OnComplete),
        cmd_is(s, "rtn"@, ArgumentPattern::NoArg, AutoExecuteRule::Immediate),
        cmd_is(s, "sst"@, ArgumentPattern::NoArg, AutoExecuteRule::Immediate),
        cmd_is(s, "bst"@, ArgumentPattern::NoArg, AutoExecuteRule::Immediate),
        cmd_is(s, "prgm"@, ArgumentPattern::NoArg, AutoExecuteRule::Immediate),
        cmd_is(s, "pi"@, ArgumentPattern::NoArg, AutoExecuteRule::Immediate),
        cmd_is(s, "eex"@, ArgumentPattern::NoArg, AutoExecuteRule::Immediate),
        cmd_is(s, "arc"@, ArgumentPattern::NoArg, AutoExecuteRule::Immediate),
        forall|n: Seq<char>| spec_lookup(s, n) is Some ==> is_builtin_name(n),
        forall|n: Seq<char>| is_builtin_name(n) ==> spec_lookup(s, n) is Some,
{
    reveal_strlit("sin");
    reveal_strlit("cos");
    reveal_strlit("tan");
    reveal_strlit("asin");
    reveal_strlit("acos");
    reveal_strlit("atan");
    reveal_strlit("log");
    reveal_strlit("ln");
    reveal_strlit("exp");
    reveal_strlit("sqrt");
    reveal_strlit("inv");
    reveal_strlit("chs");
    reveal_strlit("enter");
    reveal_strlit("swap");
    reveal_strlit("clx");
    reveal_strlit("clr");
    reveal_strlit("+");
    reveal_strlit("-");
    reveal_strlit("*");
    reveal_strlit("/");
    reveal_strlit("^");
    reveal_strlit("!");
    reveal_strlit("fix");
    reveal_strlit("sci");
    reveal_strlit("eng");
    reveal_strlit("sto");
    reveal_strlit("rcl");
    reveal_strlit("lbl");
    reveal_strlit("gto");
    reveal_strlit("xeq");
    reveal_strlit("rtn");
    reveal_strlit("sst");
    reveal_strlit("bst");
    reveal_strlit("prgm");
    reveal_strlit("pi");
    reveal_strlit("eex");
    reveal_strlit("arc");
    // Pin each literal's characters so distinct names are provably distinct.
    assert(("sin"@).len() == 3 && ("sin"@)[0] == 's' && ("sin"@)[1] == 'i' && ("sin"@)[2] == 'n');
    assert(("cos"@).len() == 3 && ("cos"@)[0] == 'c' && ("cos"@)[1] == 'o' && ("cos"@)[2] == 's');
    assert(("tan"@).len() == 3 && ("tan"@)[0] == 't' && ("tan"@)[1] == 'a' && ("tan"@)[2] == 'n');
    assert(("asin"@).len() == 4 && ("asin"@)[0] == 'a' && ("asin"@)[1] == 's' && ("asin"@)[2] == 'i' && ("asin"@)[3] == 'n');
    assert(("acos"@).len() == 4 && ("acos"@)[0] == 'a' && ("acos"@)[1] == 'c' && ("acos"@)[2] == 'o' && ("acos"@)[3] == 's');
    assert(("atan"@).len() == 4 && ("atan"@)[0] == 'a' && ("atan"@)[1] == 't' && ("atan"@)[2] == 'a' && ("atan"@)[3] == 'n');
    assert(("log"@).len() == 3 && ("log"@)[0] == 'l' && ("log"@)[1] == 'o' && ("log"@)[2] == 'g');
    assert(("ln"@).len() == 2 && ("ln"@)[0] == 'l' && ("ln"@)[1] == 'n');
    assert(("exp"@).len() == 3 && ("exp"@)[0] == 'e' && ("exp"@)[1] == 'x' && ("exp"@)[2] == 'p');
    assert(("sqrt"@).len() == 4 && ("sqrt"@)[0] == 's' && ("sqrt"@)[1] == 'q' && ("sqrt"@)[2] == 'r' && ("sqrt"@)[3] == 't');
    assert(("inv"@).len() == 3 && ("inv"@)[0] == 'i' && ("inv"@)[1] == 'n' && ("inv"@)[2] == 'v');
    assert(("chs"@).len() == 3 && ("chs"@)[0] == 'c' && ("chs"@)[1] == 'h' && ("chs"@)[2] == 's');
    assert(("enter"@).len() == 5 && ("enter"@)[0] == 'e' && ("enter"@)[1] == 'n' && ("enter"@)[2] == 't' && ("enter"@)[3] == 'e' && ("enter"@)[4] == 'r');
    assert(("swap"@).len() == 4 && ("swap"@)[0] == 's' && ("swap"@)[1] == 'w' && ("swap"@)[2] == 'a' && ("swap"@)[3] == 'p');
    assert(("clx"@).len() == 3 && ("clx"@)[0] == 'c' && ("clx"@)[1] == 'l' && ("clx"@)[2] == 'x');
    assert(("clr"@).len() == 3 && ("clr"@)[0] == 'c' && ("clr"@)[1] == 'l' && ("clr"@)[2] == 'r');
    assert(("+"@).len() == 1 && ("+"@)[0] == '+');
    assert(("-"@).len() == 1 && ("-"@)[0] == '-');
    assert(("*"@).len() == 1 && ("*"@)[0] == '*');
    assert(("/"@).len() == 1 && ("/"@)[0] == '/');
    assert(("^"@).len() == 1 && ("^"@)[0] == '^');
    assert(("!"@).len() == 1 && ("!"@)[0] == '!');
    assert(("fix"@).len() == 3 && ("fix"@)[0] == 'f' && ("fix"@)[1] == 'i' && ("fix"@)[2] == 'x');
    assert(("sci"@).len() == 3 && ("sci"@)[0] == 's' && ("sci"@)[1] == 'c' && ("sci"@)[2] == 'i');
    assert(("eng"@).len() == 3 && ("eng"@)[0] == 'e' && ("eng"@)[1] == 'n' && ("eng"@)[2] == 'g');
    assert(("sto"@).len() == 3 && ("sto"@)[0] == 's' && ("sto"@)[1] == 't' && ("sto"@)[2] == 'o');
    assert(("rcl"@).len() == 3 && ("rcl"@)[0] == 'r' && ("rcl"@)[1] == 'c' && ("rcl"@)[2] == 'l');
    assert(("lbl"@).len() == 3 && ("lbl"@)[0] == 'l' && ("lbl"@)[1] == 'b' && ("lbl"@)[2] == 'l');
    assert(("gto"@).len() == 3 && ("gto"@)[0] == 'g' && ("gto"@)[1] == 't' && ("gto"@)[2] == 'o');
    assert(("xeq"@).len() == 3 && ("xeq"@)[0] == 'x' && ("xeq"@)[1] == 'e' && ("xeq"@)[2] == 'q');
    assert(("rtn"@).len() == 3 && ("rtn"@)[0] == 'r' && ("rtn"@)[1] == 't' && ("rtn"@)[2] == 'n');
    assert(("sst"@).len() == 3 && ("sst"@)[0] == 's' && ("sst"@)[1] == 's' && ("sst"@)[2] == 't');
    assert(("bst"@).len() == 3 && ("bst"@)[0] == 'b' && ("bst"@)[1] == 's' && ("bst"@)[2] == 't');
    assert(("prgm"@).len() == 4 && ("prgm"@)[0] == 'p' && ("prgm"@)[1] == 'r' && ("prgm"@)[2] == 'g' && ("prgm"@)[3] == 'm');
    assert(("pi"@).len() == 2 && ("pi"@)[0] == 'p' && ("pi"@)[1] == 'i');
    assert(("eex"@).len() == 3 && ("eex"@)[0] == 'e' && ("eex"@)[1] == 'e' && ("eex"@)[2] == 'x');
    assert(("arc"@).len() == 3 && ("arc"@)[0] == 'a' && ("arc"@)[1] == 'r' && ("arc"@)[2] == 'c');
    assert(forall|j: int| 0 <= j < 1 ==> (#[trigger] table_entry(j)).0 != "cos"@);
    assert(forall|j: int| 0 <= j < 2 ==> (#[trigger] table_entry(j)).0 != "tan"@);
    assert(forall|j: int| 0 <= j < 3 ==> (#[trigger] table_entry(j)).0 != "asin"@);
    assert(forall|j: int| 0 <= j < 4 ==> (#[trigger] table_entry(j)).0 != "acos"@);
    assert(forall|j: int| 0 <= j < 5 ==> (#[trigger] table_entry(j)).0 != "atan"@);
    assert(forall|j: int| 0 <= j < 6 ==> (#[trigger] table_entry(j)).0 != "log"@);
    assert(forall|j: int| 0 <= j < 7 ==> (#[trigger] table_entry(j)).0 != "ln"@);
    assert(forall|j: int| 0 <= j < 8 ==> (#[trigger] table_entry(j)).0 != "exp"@);
    assert(forall|j: int| 0 <= j < 9 ==> (#[trigger] table_entry(j)).0 != "sqrt"@);
    assert(forall|j: int| 0 <= j < 10 ==> (#[trigger] table_entry(j)).0 != "inv"@);
    assert(forall|j: int| 0 <= j < 11 ==> (#[trigger] table_entry(j)).0 != "chs"@);
    assert(forall|j: int| 0 <= j < 12 ==> (#[trigger] table_entry(j)).0 != "enter"@);
    assert(forall|j: int| 0 <= j < 13 ==> (#[trigger] table_entry(j)).0 != "swap"@);
    assert(forall|j: int| 0 <= j < 14 ==> (#[trigger] table_entry(j)).0 != "clx"@);
    assert(forall|j: int| 0 <= j < 15 ==> (#[trigger] table_entry(j)).0 != "clr"@);
    assert(forall|j: int| 0 <= j < 16 ==> (#[trigger] table_entry(j)).0 != "+"@);
    assert(forall|j: int| 0 <= j < 17 ==> (#[trigger] table_entry(j)).0 != "-"@);
    assert(forall|j: int| 0 <= j < 18 ==> (#[trigger] table_entry(j)).0 != "*"@);
    assert(forall|j: int| 0 <= j < 19 ==> (#[trigger] table_entry(j)).0 != "/"@);
    assert(forall|j: int| 0 <= j < 20 ==> (#[trigger] table_entry(j)).0 != "^"@);
    assert(forall|j: int| 0 <= j < 21 ==> (#[trigger] table_entry(j)).0 != "!"@);
    assert(forall|j: int| 0 <= j < 22 ==> (#[trigger] table_entry(j)).0 != "fix"@);
    assert(forall|j: int| 0 <= j < 23 ==> (#[trigger] table_entry(j)).0 != "sci"@);
    assert(forall|j: int| 0 <= j < 24 ==> (#[trigger] table_entry(j)).0 != "eng"@);
    assert(forall|j: int| 0 <= j < 25 ==> (#[trigger] table_entry(j)).0 != "sto"@);
    assert(forall|j: int| 0 <= j < 26 ==> (#[trigger] table_entry(j)).0 != "rcl"@);
    assert(forall|j: int| 0 <= j < 27 ==> (#[trigger] table_entry(j)).0 != "lbl"@);
    assert(forall|j: int| 0 <= j < 28 ==> (#[trigger] table_entry(j)).0 != "gto"@);
    assert(forall|j: int| 0 <= j < 29 ==> (#[trigger] table_entry(j)).0 != "xeq"@);
    assert(forall|j: int| 0 <= j < 30 ==> (#[trigger] table_entry(j)).0 != "rtn"@);
    assert(forall|j: int| 0 <= j < 31 ==> (#[trigger] table_entry(j)).0 != "sst"@);
    assert(forall|j: int| 0 <= j < 32 ==> (#[trigger] table_entry(j)).0 != "bst"@);
    assert(forall|j: int| 0 <= j < 33 ==> (#[trigger] table_entry(j)).0 != "prgm"@);
    assert(forall|j: int| 0 <= j < 34 ==> (#[trigger] table_entry(j)).0 != "pi"@);
    assert(forall|j: int| 0 <= j < 35 ==> (#[trigger] table_entry(j)).0 != "eex"@);
    assert(forall|j: int| 0 <= j < 36 ==> (#[trigger] table_entry(j)).0 != "arc"@);
    lemma_lookup_at(s, "sin"@, 0);
    assert(cmd_is(s, "sin"@, ArgumentPattern::NoArg, AutoExecuteRule::Immediate));
    lemma_lookup_at(s, "cos"@, 1);
    assert(cmd_is(s, "cos"@, ArgumentPattern::NoArg, AutoExecuteRule::Immediate));
    lemma_lookup_at(s, "tan"@, 2);
    assert(cmd_is(s, "tan"@, ArgumentPattern::NoArg, AutoExecuteRule::Immediate));
    lemma_lookup_at(s, "asin"@, 3);
    assert(cmd_is(s, "asin"@, ArgumentPattern::NoArg, AutoExecuteRule::Immediate));
    lemma_lookup_at(s, "acos"@, 4);
    assert(cmd_is(s, "acos"@, ArgumentPattern::NoArg, AutoExecuteRule::Immediate));
    lemma_lookup_at(s, "atan"@, 5);
    assert(cmd_is(s, "atan"@, ArgumentPattern::NoArg, AutoExecuteRule::Immediate));
    lemma_lookup_at(s, "log"@, 6);
    assert(cmd_is(s, "log"@, ArgumentPattern::NoArg, AutoExecuteRule::Immediate));
    lemma_lookup_at(s, "ln"@, 7);
    assert(cmd_is(s, "ln"@, ArgumentPattern::NoArg, AutoExecuteRule::Immediate));
    lemma_lookup_at(s, "exp"@, 8);
    assert(cmd_is(s, "exp"@, ArgumentPattern::NoArg, AutoExecuteRule::Immediate));
    lemma_lookup_at(s, "sqrt"@, 9);
    assert(cmd_is(s, "sqrt"@, ArgumentPattern::NoArg, AutoExecuteRule::Immediate));
    lemma_lookup_at(s, "inv"@, 10);
    assert(cmd_is(s, "inv"@, ArgumentPattern::NoArg, AutoExecuteRule::Immediate));
    lemma_lookup_at(s, "chs"@, 11);
    assert(cmd_is(s, "chs"@, ArgumentPattern::NoArg, AutoExecuteRule::Immediate));
    lemma_lookup_at(s, "enter"@, 12);
    assert(cmd_is(s, "enter"@, ArgumentPattern::NoArg, AutoExecuteRule::Immediate));
    lemma_lookup_at(s, "swap"@, 13);
    assert(cmd_is(s, "swap"@, ArgumentPattern::NoArg, AutoExecuteRule::Immediate));
    lemma_lookup_at(s, "clx"@, 14);
    assert(cmd_is(s, "clx"@, ArgumentPattern::NoArg, AutoExecuteRule::Immediate));
    lemma_lookup_at(s, "clr"@, 15);
    assert(cmd_is(s, "clr"@, ArgumentPattern::NoArg, AutoExecuteRule::Immediate));
    lemma_lookup_at(s, "+"@, 16);
    assert(cmd_is(s, "+"@, ArgumentPattern::NoArg, AutoExecuteRule::Immediate));
    lemma_lookup_at(s, "-"@, 17);
    assert(cmd_is(s, "-"@, ArgumentPattern::NoArg, AutoExecuteRule::Immediate));
    lemma_lookup_at(s, "*"@, 18);
    assert(cmd_is(s, "*"@, ArgumentPattern::NoArg, AutoExecuteRule::Immediate));
    lemma_lookup_at(s, "/"@, 19);
    assert(cmd_is(s, "/"@, ArgumentPattern::NoArg, AutoExecuteRule::Immediate));
    lemma_lookup_at(s, "^"@, 20);
    assert(cmd_is(s, "^"@, ArgumentPattern::NoArg, AutoExecuteRule::Immediate));
    lemma_lookup_at(s, "!"@, 21);
    assert(cmd_is(s, "!"@, ArgumentPattern::NoArg, AutoExecuteRule::Immediate));
    lemma_lookup_at(s, "fix"@, 22);
    assert(cmd_is(s, "fix"@, ArgumentPattern::SingleDigit, AutoExecuteRule::OnComplete));
    lemma_lookup_at(s, "sci"@, 23);
    assert(cmd_is(s, "sci"@, ArgumentPattern::SingleDigit, AutoExecuteRule::OnComplete));
    lemma_lookup_at(s, "eng"@, 24);
    assert(cmd_is(s, "eng"@, ArgumentPattern::SingleDigit, AutoExecuteRule::OnComplete));
    lemma_lookup_at(s, "sto"@, 25);
    assert(cmd_is(s, "sto"@, ArgumentPattern::Register, AutoExecuteRule::OnComplete));
    lemma_lookup_at(s, "rcl"@, 26);
    assert(cmd_is(s, "rcl"@, ArgumentPattern::Register, AutoExecuteRule::OnComplete));
    lemma_lookup_at(s, "lbl"@, 27);
    assert(cmd_is(s, "lbl"@, ArgumentPattern::Label, AutoExecuteRule::OnComplete));
    lemma_lookup_at(s, "gto"@, 28);
    assert(cmd_is(s, "gto"@, ArgumentPattern::Label, AutoExecuteRule::OnComplete));
    lemma_lookup_at(s, "xeq"@, 29);
    assert(cmd_is(s, "xeq"@, ArgumentPattern::Alpha, AutoExecuteRule::OnComplete));
    lemma_lookup_at(s, "rtn"@, 30);
    assert(cmd_is(s, "rtn"@, ArgumentPattern::NoArg, AutoExecuteRule::Immediate));
    lemma_lookup_at(s, "sst"@, 31);
    assert(cmd_is(s, "sst"@, ArgumentPattern::NoArg, AutoExecuteRule::Immediate));
    lemma_lookup_at(s, "bst"@, 32);
    assert(cmd_is(s, "bst"@, ArgumentPattern::NoArg, AutoExecuteRule::Immediate));
    lemma_lookup_at(s, "prgm"@, 33);
    assert(cmd_is(s, "prgm"@, ArgumentPattern::NoArg, AutoExecuteRule::Immediate));
    lemma_lookup_at(s, "pi"@, 34);
    assert(cmd_is(s, "pi"@, ArgumentPattern::NoArg, AutoExecuteRule::Immediate));
    lemma_lookup_at(s, "eex"@, 35);
    assert(cmd_is(s, "eex"@, ArgumentPattern::NoArg, AutoExecuteRule::Immediate));
    lemma_lookup_at(s, "arc"@, 36);
    assert(cmd_is(s, "arc"@, ArgumentPattern::NoArg, AutoExecuteRule::Immediate));
    assert forall|n: Seq<char>| spec_lookup(s, n) is Some implies is_builtin_name(n) by {
        lemma_lookup_some_contains(s, n);
        let i = choose|i: int| 0 <= i < s.len() && (#[trigger] s[i].name@) == n;
        assert(s[i].name@ == table_entry(i).0);
    }
}

/// Registry of all known commands with their specifications.
#[derive(Debug)]
pub struct CommandRegistry {
    specs: Vec<CommandSpec>,
}

impl CommandRegistry {
    /// The registered entries, in registration order.
    pub closed spec fn view(&self) -> Seq<CommandSpec> {
        self.specs@
    }

    /// A new registry holding exactly the built-in command table: math
    /// functions and stack operations execute immediately with no
    /// argument; display modes take a single digit; storage commands take
    /// a two-digit register; label commands take a label; program
    /// execution takes an alpha name. Nothing else is registered.
    pub fn new() -> (r: CommandRegistry)
        ensures
            is_command_table(r@),
            r@.len() == COMMAND_COUNT,
            cmd_is(r@, "sin"@, ArgumentPattern::NoArg, AutoExecuteRule::Immediate),
            cmd_is(r@, "cos"@, ArgumentPattern::NoArg, AutoExecuteRule::Immediate),
            cmd_is(r@, "tan"@, ArgumentPattern::NoArg, AutoExecuteRule::Immediate),
            cmd_is(r@, "asin"@, ArgumentPattern::NoArg, AutoExecuteRule::Immediate),
            cmd_is(r@, "acos"@, ArgumentPattern::NoArg, AutoExecuteRule::Immediate),
            cmd_is(r@, "atan"@, ArgumentPattern::NoArg, AutoExecuteRule::Immediate),
            cmd_is(r@, "log"@, ArgumentPattern::NoArg, AutoExecuteRule::Immediate),
            cmd_is(r@, "ln"@, ArgumentPattern::NoArg, AutoExecuteRule::Immediate),
            cmd_is(r@, "exp"@, ArgumentPattern::NoArg, AutoExecuteRule::Immediate),
            cmd_is(r@, "sqrt"@, ArgumentPattern::NoArg, AutoExecuteRule::Immediate),
            cmd_is(r@, "inv"@, ArgumentPattern::NoArg, AutoExecuteRule::Immediate),
            cmd_is(r@, "chs"@, ArgumentPattern::NoArg, AutoExecuteRule::Immediate),
            cmd_is(r@, "enter"@, ArgumentPattern::NoArg, AutoExecuteRule::Immediate),
            cmd_is(r@, "swap"@, ArgumentPattern::NoArg, AutoExecuteRule::Immediate),
            cmd_is(r@, "clx"@, ArgumentPattern::NoArg, AutoExecuteRule::Immediate),
            cmd_is(r@, "clr"@, ArgumentPattern::NoArg, AutoExecuteRule::Immediate),
            cmd_is(r@, "+"@, ArgumentPattern::NoArg, AutoExecuteRule::Immediate),
            cmd_is(r@, "-"@, ArgumentPattern::NoArg, AutoExecuteRule::Immediate),
            cmd_is(r@, "*"@, ArgumentPattern::NoArg, AutoExecuteRule::Immediate),
            cmd_is(r@, "/"@, ArgumentPattern::NoArg, AutoExecuteRule::Immediate),
            cmd_is(r@, "^"@, ArgumentPattern::NoArg, AutoExecuteRule::Immediate),
            cmd_is(r@, "!"@, ArgumentPattern::NoArg, AutoExecuteRule::Immediate),
            cmd_is(r@, "fix"@, ArgumentPattern::SingleDigit, AutoExecuteRule::OnComplete),
            cmd_is(r@, "sci"@, ArgumentPattern::SingleDigit, AutoExecuteRule::OnComplete),
            cmd_is(r@, "eng"@, ArgumentPattern::SingleDigit, AutoExecuteRule::OnComplete),
            cmd_is(r@, "sto"@, ArgumentPattern::Register, AutoExecuteRule::OnComplete),
            cmd_is(r@, "rcl"@, ArgumentPattern::Register, AutoExecuteRule::OnComplete),
            cmd_is(r@, "lbl"@, ArgumentPattern::Label, AutoExecuteRule::OnComplete),
            cmd_is(r@, "gto"@, ArgumentPattern::Label, AutoExecuteRule::OnComplete),
            cmd_is(r@, "xeq"@, ArgumentPattern::Alpha, AutoExecuteRule::OnComplete),
            cmd_is(r@, "rtn"@, ArgumentPattern::NoArg, AutoExecuteRule::Immediate),
            cmd_is(r@, "sst"@, ArgumentPattern::NoArg, AutoExecuteRule::Immediate),
            cmd_is(r@, "bst"@, ArgumentPattern::NoArg, AutoExecuteRule::Immediate),
            cmd_is(r@, "prgm"@, ArgumentPattern::NoArg, AutoExecuteRule::Immediate),
            cmd_is(r@, "pi"@, ArgumentPattern::NoArg, AutoExecuteRule::Immediate),
            cmd_is(r@, "eex"@, ArgumentPattern::NoArg, AutoExecuteRule::Immediate),
            cmd_is(r@, "arc"@, ArgumentPattern::NoArg, AutoExecuteRule::Immediate),
            forall|n: Seq<char>| spec_lookup(r@, n) is Some ==> is_builtin_name(n),
            forall|n: Seq<char>| is_builtin_name(n) ==> spec_lookup(r@, n) is Some,
    {
        let mut r = CommandRegistry { specs: Vec::new() };
        r.register_all_commands();
        proof {
            lemma_table_facts(r@);
        }
        r
    }

    /// Lay the built-in command table out, in registration order.
    #[verifier::rlimit(100)]
    fn register_all_commands(&mut self)
        requires
            old(self)@.len() == 0,
        ensures
            is_command_table(final(self)@),
    {
        // Math functions - no arguments, execute immediately
        self.specs.push(
            CommandSpec {
                name: String::from_str("sin"),
                arg_pattern: ArgumentPattern::NoArg,
                auto_execute: AutoExecuteRule::Immediate,
                description: Some(crate::text::str_upper("sin").concat(" function")),
            },
        );
        proof {
            assert(table_prefix(self.specs@, 1));
        }
        self.specs.push(
            CommandSpec {
                name: String::from_str("cos"),
                arg_pattern: ArgumentPattern::NoArg,
                auto_execute: AutoExecuteRule::Immediate,
                description: Some(crate::text::str_upper("cos").concat(" function")),
            },
        );
        proof {
            assert(table_prefix(self.specs@, 2));
        }
        self.specs.push(
            CommandSpec {
                name: String::from_str("tan"),
                arg_pattern: ArgumentPattern::NoArg,
                auto_execute: AutoExecuteRule::Immediate,
                description: Some(crate::text::str_upper("tan").concat(" function")),
            },
        );
        proof {
            assert(table_prefix(self.specs@, 3));
        }
        self.specs.push(
            CommandSpec {
                name: String::from_str("asin"),
                arg_pattern: ArgumentPattern::NoArg,
                auto_execute: AutoExecuteRule::Immediate,
                description: Some(crate::text::str_upper("asin").concat(" function")),
            },
        );
        proof {
            assert(table_prefix(self.specs@, 4));
        }
        self.specs.push(
            CommandSpec {
                name: String::from_str("acos"),
                arg_pattern: ArgumentPattern::NoArg,
                auto_execute: AutoExecuteRule::Immediate,
                description: Some(crate::text::str_upper("acos").concat(" function")),
            },
        );
        proof {
            assert(table_prefix(self.specs@, 5));
        }
        self.specs.push(
            CommandSpec {
                name: String::from_str("atan"),
                arg_pattern: ArgumentPattern::NoArg,
                auto_execute: AutoExecuteRule::Immediate,
                description: Some(crate::text::str_upper("atan").concat(" function")),
            },
        );
        proof {
            assert(table_prefix(self.specs@, 6));
        }
        self.specs.push(
            CommandSpec {
                name: String::from_str("log"),
                arg_pattern: ArgumentPattern::NoArg,
                auto_execute: AutoExecuteRule::Immediate,
                description: Some(crate::text::str_upper("log").concat(" function")),
            },
        );
        proof {
            assert(table_prefix(self.specs@, 7));
        }
        self.specs.push(
            CommandSpec {
                name: String::from_str("ln"),
                arg_pattern: ArgumentPattern::NoArg,
                auto_execute: AutoExecuteRule::Immediate,
                description: Some(crate::text::str_upper("ln").concat(" function")),
            },
        );
        proof {
            assert(table_prefix(self.specs@, 8));
        }
        self.specs.push(
            CommandSpec {
                name: String::from_str("exp"),
                arg_pattern: ArgumentPattern::NoArg,
                auto_execute: AutoExecuteRule::Immediate,
                description: Some(crate::text::str_upper("exp").concat(" function")),
            },
        );
        proof {
            assert(table_prefix(self.specs@, 9));
        }
        self.specs.push(
            CommandSpec {
                name: String::from_str("sqrt"),
                arg_pattern: ArgumentPattern::NoArg,
                auto_execute: AutoExecuteRule::Immediate,
                description: Some(crate::text::str_upper("sqrt").concat(" function")),
            },
        );
        proof {
            assert(table_prefix(self.specs@, 10));
        }
        self.specs.push(
            CommandSpec {
                name: String::from_str("inv"),
                arg_pattern: ArgumentPattern::NoArg,
                auto_execute: AutoExecuteRule::Immediate,
                description: Some(crate::text::str_upper("inv").concat(" function")),
            },
        );
        proof {
            assert(table_prefix(self.specs@, 11));
        }
        self.specs.push(
            CommandSpec {
                name: String::from_str("chs"),
                arg_pattern: ArgumentPattern::NoArg,
                auto_execute: AutoExecuteRule::Immediate,
                description: Some(crate::text::str_upper("chs").concat(" function")),
            },
        );
        proof {
            assert(table_prefix(self.specs@, 12));
        }
        // Stack operations - no arguments, execute immediately
        self.specs.push(
            CommandSpec {
                name: String::from_str("enter"),
                arg_pattern: ArgumentPattern::NoArg,
                auto_execute: AutoExecuteRule::Immediate,
                description: Some(crate::text::str_upper("enter").concat(" operation")),
            },
        );
        proof {
            assert(table_prefix(self.specs@, 13));
        }
        self.specs.push(
            CommandSpec {
                name: String::from_str("swap"),
                arg_pattern: ArgumentPattern::NoArg,
                auto_execute: AutoExecuteRule::Immediate,
                description: Some(crate::text::str_upper("swap").concat(" operation")),
            },
        );
        proof {
            assert(table_prefix(self.specs@, 14));
        }
        self.specs.push(
            CommandSpec {
                name: String::from_str("clx"),
                arg_pattern: ArgumentPattern::NoArg,
                auto_execute: AutoExecuteRule::Immediate,
                description: Some(crate::text::str_upper("clx").concat(" operation")),
            },
        );
        proof {
            assert(table_prefix(self.specs@, 15));
        }
        self.specs.push(
            CommandSpec {
                name: String::from_str("clr"),
                arg_pattern: ArgumentPattern::NoArg,
                auto_execute: AutoExecuteRule::Immediate,
                description: Some(crate::text::str_upper("clr").concat(" operation")),
            },
        );
        proof {
            assert(table_prefix(self.specs@, 16));
        }
        // Arithmetic operators - no arguments, execute immediately
        self.specs.push(
            CommandSpec {
                name: String::from_str("+"),
                arg_pattern: ArgumentPattern::NoArg,
                auto_execute: AutoExecuteRule::Immediate,
                description: Some(String::from_str("Arithmetic operation")),
            },
        );
        proof {
            assert(table_prefix(self.specs@, 17));
        }
        self.specs.push(
            CommandSpec {
                name: String::from_str("-"),
                arg_pattern: ArgumentPattern::NoArg,
                auto_execute: AutoExecuteRule::Immediate,
                description: Some(String::from_str("Arithmetic operation")),
            },
        );
        proof {
            assert(table_prefix(self.specs@, 18));
        }
        self.specs.push(
            CommandSpec {
                name: String::from_str("*"),
                arg_pattern: ArgumentPattern::NoArg,
                auto_execute: AutoExecuteRule::Immediate,
                description: Some(String::from_str("Arithmetic operation")),
            },
        );
        proof {
            assert(table_prefix(self.specs@, 19));
        }
        self.specs.push(
            CommandSpec {
                name: String::from_str("/"),
                arg_pattern: ArgumentPattern::NoArg,
                auto_execute: AutoExecuteRule::Immediate,
                description: Some(String::from_str("Arithmetic operation")),
            },
        );
        proof {
            assert(table_prefix(self.specs@, 20));
        }
        self.specs.push(
            CommandSpec {
                name: String::from_str("^"),
                arg_pattern: ArgumentPattern::NoArg,
                auto_execute: AutoExecuteRule::Immediate,
                description: Some(String::from_str("Arithmetic operation")),
            },
        );
        proof {
            assert(table_prefix(self.specs@, 21));
        }
        self.specs.push(
            CommandSpec {
                name: String::from_str("!"),
                arg_pattern: ArgumentPattern::NoArg,
                auto_execute: AutoExecuteRule::Immediate,
                description: Some(String::from_str("Arithmetic operation")),
            },
        );
        proof {
            assert(table_prefix(self.specs@, 22));
        }
        // Display modes - single digit argument, auto-execute on complete
        self.specs.push(
            CommandSpec {
                name: String::from_str("fix"),
                arg_pattern: ArgumentPattern::SingleDigit,
                auto_execute: AutoExecuteRule::OnComplete,
                description: Some(crate::text::str_upper("fix").concat(" display mode")),
            },
        );
        proof {
            assert(table_prefix(self.specs@, 23));
        }
        self.specs.push(
            CommandSpec {
                name: String::from_str("sci"),
                arg_pattern: ArgumentPattern::SingleDigit,
                auto_execute: AutoExecuteRule::OnComplete,
                description: Some(crate::text::str_upper("sci").concat(" display mode")),
            },
        );
        proof {
            assert(table_prefix(self.specs@, 24));
        }
        self.specs.push(
            CommandSpec {
                name: String::from_str("eng"),
                arg_pattern: ArgumentPattern::SingleDigit,
                auto_execute: AutoExecuteRule::OnComplete,
                description: Some(crate::text::str_upper("eng").concat(" display mode")),
            },
        );
        proof {
            assert(table_prefix(self.specs@, 25));
        }
        // Storage operations - register argument, auto-execute on complete
        self.specs.push(
            CommandSpec {
                name: String::from_str("sto"),
                arg_pattern: ArgumentPattern::Register,
                auto_execute: AutoExecuteRule::OnComplete,
                description: Some(crate::text::str_upper("sto").concat(" operation")),
            },
        );
        proof {
            assert(table_prefix(self.specs@, 26));
        }
        self.specs.push(
            CommandSpec {
                name: String::from_str("rcl"),
                arg_pattern: ArgumentPattern::Register,
                auto_execute: AutoExecuteRule::OnComplete,
                description: Some(crate::text::str_upper("rcl").concat(" operation")),
            },
        );
        proof {
            assert(table_prefix(self.specs@, 27));
        }
        // Programming commands with labels
        self.specs.push(
            CommandSpec {
                name: String::from_str("lbl"),
                arg_pattern: ArgumentPattern::Label,
                auto_execute: AutoExecuteRule::OnComplete,
                description: Some(crate::text::str_upper("lbl").concat(" programming command")),
            },
        );
        proof {
            assert(table_prefix(self.specs@, 28));
        }
        self.specs.push(
            CommandSpec {
                name: String::from_str("gto"),
                arg_pattern: ArgumentPattern::Label,
                auto_execute: AutoExecuteRule::OnComplete,
                description: Some(crate::text::str_upper("gto").concat(" programming command")),
            },
        );
        proof {
            assert(table_prefix(self.specs@, 29));
        }
        // Program execution
        self.specs.push(
            CommandSpec {
                name: String::from_str("xeq"),
                arg_pattern: ArgumentPattern::Alpha,
                auto_execute: AutoExecuteRule::OnComplete,
                description: Some(String::from_str("Execute program")),
            },
        );
        proof {
            assert(table_prefix(self.specs@, 30));
        }
        // Programming control - no args, immediate
        self.specs.push(
            CommandSpec {
                name: String::from_str("rtn"),
                arg_pattern: ArgumentPattern::NoArg,
                auto_execute: AutoExecuteRule::Immediate,
                description: Some(crate::text::str_upper("rtn").concat(" programming command")),
            },
        );
        proof {
            assert(table_prefix(self.specs@, 31));
        }
        self.specs.push(
            CommandSpec {
                name: String::from_str("sst"),
                arg_pattern: ArgumentPattern::NoArg,
                auto_execute: AutoExecuteRule::Immediate,
                description: Some(crate::text::str_upper("sst").concat(" programming command")),
            },
        );
        proof {
            assert(table_prefix(self.specs@, 32));
        }
        self.specs.push(
            CommandSpec {
                name: String::from_str("bst"),
                arg_pattern: ArgumentPattern::NoArg,
                auto_execute: AutoExecuteRule::Immediate,
                description: Some(crate::text::str_upper("bst").concat(" programming command")),
            },
        );
        proof {
            assert(table_prefix(self.specs@, 33));
        }
        self.specs.push(
            CommandSpec {
                name: String::from_str("prgm"),
                arg_pattern: ArgumentPattern::NoArg,
                auto_execute: AutoExecuteRule::Immediate,
                description: Some(crate::text::str_upper("prgm").concat(" programming command")),
            },
        );
        proof {
            assert(table_prefix(self.specs@, 34));
        }
        // Constants - no arguments, execute immediately
        self.specs.push(
            CommandSpec {
                name: String::from_str("pi"),
                arg_pattern: ArgumentPattern::NoArg,
                auto_execute: AutoExecuteRule::Immediate,
                description: Some(String::from_str("Mathematical constant")),
            },
        );
        proof {
            assert(table_prefix(self.specs@, 35));
        }
        // Special commands
        self.specs.push(
            CommandSpec {
                name: String::from_str("eex"),
                arg_pattern: ArgumentPattern::NoArg,
                auto_execute: AutoExecuteRule::Immediate,
                description: Some(String::from_str("Enter exponent")),
            },
        );
        proof {
            assert(table_prefix(self.specs@, 36));
        }
        self.specs.push(
            CommandSpec {
                name: String::from_str("arc"),
                arg_pattern: ArgumentPattern::NoArg,
                auto_execute: AutoExecuteRule::Immediate,
                description: Some(String::from_str("Arc mode prefix")),
            },
        );
        proof {
            assert(table_prefix(self.specs@, 37));
        }
    }

    /// Register a single command specification, replacing any entry of the
    /// same name.
    pub fn register(&mut self, spec: CommandSpec)
        ensures
            spec_lookup(final(self)@, spec.name@) == Some(spec),
            forall|n: Seq<char>|
                n != spec.name@ ==> #[trigger] spec_lookup(final(self)@, n) == spec_lookup(
                    old(self)@,
                    n,
                ),
    {
        let mut i: usize = 0;
        let n = self.specs.len();
        while i < n
            invariant
                i <= n == self.specs.len(),
                self@ == old(self)@,
                forall|j: int| 0 <= j < i ==> self.specs@[j].name@ != spec.name@,
            decreases n - i,
        {
            if str_eq(self.specs[i].name.as_str(), spec.name.as_str()) {
                proof {
                    lemma_lookup_update(self.specs@, i as int, spec, spec.name@);
                    assert forall|m: Seq<char>| m != spec.name@ implies #[trigger] spec_lookup(
                        self.specs@.update(i as int, spec),
                        m,
                    ) == spec_lookup(self.specs@, m) by {
                        lemma_lookup_update(self.specs@, i as int, spec, m);
                    }
                }
                self.specs.set(i, spec);
                return ;
            }
            i = i + 1;
        }
        proof {
            lemma_lookup_none(self.specs@, spec.name@);
            assert forall|m: Seq<char>| m != spec.name@ implies #[trigger] spec_lookup(
                self.specs@.push(spec),
                m,
            ) == spec_lookup(self.specs@, m) by {
                lemma_lookup_push(self.specs@, spec, m);
            }
            lemma_lookup_push(self.specs@, spec, spec.name@);
        }
        self.specs.push(spec);
    }

    /// Get the specification for a command name.
    pub fn get_spec(&self, command: &str) -> (r: Option<&CommandSpec>)
        ensures
            match r {
                Some(sp) => spec_lookup(self@, command@) == Some(*sp),
                None => spec_lookup(self@, command@) is None,
            },
    {
        let mut i: usize = 0;
        let n = self.specs.len();
        while i < n
            invariant
                i <= n == self.specs.len(),
                forall|j: int| 0 <= j < i ==> self.specs@[j].name@ != command@,
            decreases n - i,
        {
            if str_eq(self.specs[i].name.as_str(), command) {
                proof {
                    lemma_lookup_at(self.specs@, command@, i as int);
                }
                return Some(&self.specs[i]);
            }
            i = i + 1;
        }
        proof {
            lemma_lookup_none(self.specs@, command@);
        }
        None
    }

    /// Whether a command with this name is registered.
    pub fn has_command(&self, command: &str) -> (r: bool)
        ensures
            r == (spec_lookup(self@, command@) is Some),
    {
        self.get_spec(command).is_some()
    }

    /// All registered command names, in registration order.
    pub fn get_command_names(&self) -> (r: Vec<String>)
        ensures
            r@.len() == self@.len(),
            forall|i: int| 0 <= i < r@.len() ==> #[trigger] r@[i]@ == self@[i].name@,
    {
        let mut r: Vec<String> = Vec::new();
        let mut i: usize = 0;
        let n = self.specs.len();
        while i < n
            invariant
                i <= n == self.specs.len(),
                r@.len() == i,
                forall|j: int| 0 <= j < i ==> #[trigger] r@[j]@ == self.specs@[j].name@,
            decreases n - i,
        {
            r.push(self.specs[i].name.clone());
            i = i + 1;
        }
        r
    }

    /// All command specifications, in registration order.
    pub fn get_all_specs(&self) -> (r: &Vec<CommandSpec>)
        ensures
            r@ == self@,
    {
        &self.specs
    }

    /// Whether some registered name has `p` as a prefix (including `p`
    /// itself).
    pub fn some_name_extends(&self, p: &str) -> (r: bool)
        ensures
            r == spec_some_name_extends(self@, p@),
    {
        let mut i: usize = 0;
        let n = self.specs.len();
        while i < n
            invariant
                i <= n == self.specs.len(),
                forall|j: int| 0 <= j < i ==> !p@.is_prefix_of(#[trigger] self.specs@[j].name@),
            decreases n - i,
        {
            if crate::text::str_starts_with(self.specs[i].name.as_str(), p) {
                return true;
            }
            i = i + 1;
        }
        false
    }

    /// The specifications whose argument pattern matches the given one
    /// (by variant, ignoring any payload).
    pub fn get_commands_by_pattern(&self, pattern: &ArgumentPattern) -> (r: Vec<CommandSpec>)
        ensures
            forall|i: int|
                0 <= i < r@.len() ==> self@.contains(#[trigger] r@[i]) && pattern_same(
                    r@[i].arg_pattern,
                    *pattern,
                ),
            forall|j: int|
                0 <= j < self@.len() && pattern_same(
                    (#[trigger] self@[j]).arg_pattern,
                    *pattern,
                ) ==> r@.contains(self@[j]),
    {
        let mut r: Vec<CommandSpec> = Vec::new();
        let mut i: usize = 0;
        let n = self.specs.len();
        while i < n
            invariant
                i <= n == self.specs.len(),
                forall|k: int|
                    0 <= k < r@.len() ==> self.specs@.contains(#[trigger] r@[k]) && pattern_same(
                        r@[k].arg_pattern,
                        *pattern,
                    ),
                forall|j: int|
                    0 <= j < i && pattern_same(
                        (#[trigger] self.specs@[j]).arg_pattern,
                        *pattern,
                    ) ==> r@.contains(self.specs@[j]),
            decreases n - i,
        {
            if pattern_matches(&self.specs[i].arg_pattern, pattern) {
                proof {
                    assert(self.specs@.contains(self.specs@[i as int]));
                }
                r.push(self.specs[i].clone());
                proof {
                    assert(r@.last() == self.specs@[i as int]);
                    assert(forall|j: int|
                        0 <= j < i && pattern_same(
                            (#[trigger] self.specs@[j]).arg_pattern,
                            *pattern,
                        ) ==> r@.contains(self.specs@[j]));
                }
            }
            i = i + 1;
        }
        r
    }
}

impl Default for CommandRegistry {
    /// The registry of all built-in commands.
    fn default() -> (r: CommandRegistry)
        ensures
            cmd_is(r@, "sin"@, ArgumentPattern::NoArg, AutoExecuteRule::Immediate),
            cmd_is(r@, "sto"@, ArgumentPattern::Register, AutoExecuteRule::OnComplete),
            cmd_is(r@, "fix"@, ArgumentPattern::SingleDigit, AutoExecuteRule::OnComplete),
    {
        CommandRegistry::new()
    }
}

/// Whether two argument patterns are the same variant.
pub open spec fn pattern_same(a: ArgumentPattern, b: ArgumentPattern) -> bool {
    match (a, b) {
        (ArgumentPattern::NoArg, ArgumentPattern::NoArg) => true,
        (ArgumentPattern::SingleDigit, ArgumentPattern::SingleDigit) => true,
        (ArgumentPattern::Register, ArgumentPattern::Register) => true,
        (ArgumentPattern::Label, ArgumentPattern::Label) => true,
        (ArgumentPattern::Alpha, ArgumentPattern::Alpha) => true,
        (ArgumentPattern::Custom, ArgumentPattern::Custom) => true,
        _ => false,
    }
}

/// Whether two argument patterns are the same variant.
pub fn pattern_matches(a: &ArgumentPattern, b: &ArgumentPattern) -> (r: bool)
    ensures
        r == pattern_same(*a, *b),
{
    match (a, b) {
        (ArgumentPattern::NoArg, ArgumentPattern::NoArg) => true,
        (ArgumentPattern::SingleDigit, ArgumentPattern::SingleDigit) => true,
        (ArgumentPattern::Register, ArgumentPattern::Register) => true,
        (ArgumentPattern::Label, ArgumentPattern::Label) => true,
        (ArgumentPattern::Alpha, ArgumentPattern::Alpha) => true,
        (ArgumentPattern::Custom, ArgumentPattern::Custom) => true,
        _ => false,
    }
}

} // verus!
