//! The command line: `|`-joined option groups, flags, the JIT threshold, and
//! what the program is asked to do.
use vstd::prelude::*;
use vstd::string::StrSliceExecFns;
use crate::text::{trim, trimmed, str_eq, starts_with, contains_char};

verus! {

/// The options that the flags set.
#[derive(Clone, Copy, Debug, PartialEq, Eq, Structural)]
pub struct CliOptions {
    /// `--no-jit`: run without the JIT compiler.
    pub disable_jit: bool,
    /// `--no-inline`: skip the inline optimiser pass.
    pub disable_inline: bool,
    /// `--check`: check syntax and types only.
    pub check_only: bool,
    /// `--bytecode`: print the bytecode and stop.
    pub dump_bytecode_only: bool,
    /// `--threshold=N` or `--th=N`: calls before a function is compiled (50 by default).
    pub jit_threshold: u32,
}

/// A tool that ships with the language.
#[derive(Clone, Copy, Debug, PartialEq, Eq, Structural)]
pub enum ToolKind {
    /// `pax`: the package manager.
    Pax,
    /// `doc`: the documentation tool.
    Doc,
}

/// What the command line asks for.
#[derive(Debug, PartialEq, Eq)]
pub enum CliCommand {
    /// Print the help text.
    Help,
    /// Print the version.
    Version,
    /// Start the interactive mode.
    Repl(CliOptions),
    /// Run a bundled tool.
    Tool(ToolKind, CliOptions),
    /// Run the program in the named file.
    Run(String, CliOptions),
}

/// A command line that cannot be followed.
#[derive(Clone, Copy, Debug, PartialEq, Eq, Structural)]
pub enum CliError {
    /// `--threshold=` with a value that is not an unsigned 32-bit integer.
    BadThreshold,
    /// `--th=` with a value that is not an unsigned 32-bit integer.
    BadTh,
}

/// A decimal digit.
pub open spec fn is_dec_digit(c: char) -> bool {
    '0' <= c <= '9'
}

/// The value of a string of decimal digits.
pub open spec fn dec_value(d: Seq<char>) -> nat
    decreases d.len(),
{
    if d.len() == 0 {
        0
    } else {
        dec_value(d.drop_last()) * 10 + ((d.last() as u32) - 48) as nat
    }
}

/// The unsigned 32-bit integer that `s` writes, as `str::parse::<u32>` reads
/// it: an optional `+`, then one or more decimal digits, of value at most `u32::MAX`.
pub open spec fn parse_u32(s: Seq<char>) -> Option<u32> {
    let d = unsigned_digits(s);
    if d.len() == 0 || !all_digits(d) {
        None
    } else if dec_value(d) > u32::MAX {
        None
    } else {
        Some(dec_value(d) as u32)
    }
}

/// `s` without one leading `+`.
pub open spec fn unsigned_digits(s: Seq<char>) -> Seq<char> {
    if s.len() > 0 && s[0] == '+' {
        s.drop_first()
    } else {
        s
    }
}

/// Every character of `d` is a decimal digit.
pub open spec fn all_digits(d: Seq<char>) -> bool {
    forall|i: int| 0 <= i < d.len() ==> is_dec_digit(#[trigger] d[i])
}

proof fn lemma_dec_value_grows(d: Seq<char>, k: int)
    requires
        0 <= k <= d.len(),
        forall|i: int| 0 <= i < d.len() ==> is_dec_digit(#[trigger] d[i]),
    ensures
        dec_value(d.take(k)) <= dec_value(d),
    decreases d.len() - k,
{
    if k < d.len() {
        lemma_dec_value_grows(d, k + 1);
        assert(d.take(k + 1).drop_last() =~= d.take(k));
    } else {
        assert(d.take(k) =~= d);
    }
}

/// Reads an unsigned 32-bit integer as `str::parse::<u32>` does.
pub fn parse_u32_str(s: &str) -> (v: Option<u32>)
    ensures
        v == parse_u32(s@),
{
    let n = s.unicode_len();
    let mut i: usize = 0;
    if n > 0 && s.get_char(0) == '+' {
        i = 1;
    }
    let ghost d = unsigned_digits(s@);
    let ghost off = i as int;
    assert(d =~= s@.skip(off));
    if i >= n {
        return None;
    }
    let mut value: u64 = 0;
    while i < n
        invariant
            n == s@.len(),
            0 <= off <= i <= n,
            d =~= s@.skip(off),
            d == unsigned_digits(s@),
            d.len() == n - off,
            d.len() > 0,
            forall|j: int| 0 <= j < i - off ==> is_dec_digit(#[trigger] d[j]),
            value == dec_value(d.take(i - off)),
            value <= u32::MAX,
        decreases n - i,
    {
        let c = s.get_char(i);
        assert(s@.skip(off)[i - off] == s@[i as int]);
        assert(d[i - off] == c);
        if !('0' <= c && c <= '9') {
            assert(!is_dec_digit(d[i - off]));
            return None;
        }
        assert(d.take(i - off + 1).drop_last() =~= d.take(i - off));
        let next: u64 = value * 10 + ((c as u32) - 48) as u64;
        if next > 4294967295 {
            proof {
                if all_digits(d) {
                    lemma_dec_value_grows(d, i - off + 1);
                }
            }
            return None;
        }
        value = next;
        i = i + 1;
    }
    assert(d.take(i - off) =~= d);
    Some(value as u32)
}

/// The trimmed part, when it is not empty.
pub open spec fn keep_part(seg: Seq<char>) -> Seq<Seq<char>> {
    if trimmed(seg).len() > 0 {
        seq![trimmed(seg)]
    } else {
        Seq::empty()
    }
}

/// The non-empty trimmed parts of `a` between `|` separators, from position `i`
/// on, where the current part began at `start`.
pub open spec fn bar_parts(a: Seq<char>, start: int, i: int) -> Seq<Seq<char>>
    decreases a.len() - i,
{
    if i >= a.len() {
        keep_part(a.subrange(start, a.len() as int))
    } else if a[i] == '|' {
        keep_part(a.subrange(start, i)) + bar_parts(a, i + 1, i + 1)
    } else {
        bar_parts(a, start, i + 1)
    }
}

/// One raw argument as the program reads it: split at `|` into trimmed,
/// non-empty parts when it holds a `|`, else as it is.
pub open spec fn expand_arg(a: Seq<char>) -> Seq<Seq<char>> {
    if a.contains('|') {
        bar_parts(a, 0, 0)
    } else {
        seq![a]
    }
}

/// All raw arguments, expanded in order.
pub open spec fn expand_args(raw: Seq<Seq<char>>) -> Seq<Seq<char>>
    decreases raw.len(),
{
    if raw.len() == 0 {
        Seq::empty()
    } else {
        expand_args(raw.drop_last()) + expand_arg(raw.last())
    }
}

/// The character views of a list of strings.
pub open spec fn views(v: Seq<String>) -> Seq<Seq<char>> {
    v.map_values(|s: String| s@)
}

fn push_part(out: &mut Vec<String>, a: &str, start: usize, end: usize)
    requires
        start <= end <= a@.len(),
    ensures
        views(final(out)@) == views(old(out)@) + keep_part(a@.subrange(start as int, end as int)),
{
    let seg = a.substring_char(start, end);
    let t = trim(seg);
    if t.unicode_len() > 0 {
        out.push(t.to_owned());
        assert(views(out@) =~= views(old(out)@) + keep_part(a@.subrange(start as int, end as int)));
    } else {
        assert(views(out@) =~= views(old(out)@) + keep_part(a@.subrange(start as int, end as int)));
    }
}

/// Appends the expansion of one raw argument.
fn expand_into(out: &mut Vec<String>, a: &String)
    ensures
        views(final(out)@) == views(old(out)@) + expand_arg(a@),
{
    let s = a.as_str();
    if !contains_char(s, '|') {
        out.push(a.clone());
        assert(views(out@) =~= views(old(out)@) + expand_arg(a@));
        return;
    }
    let n = s.unicode_len();
    let mut start: usize = 0;
    let mut i: usize = 0;
    while i < n
        invariant
            n == a@.len(),
            s@ == a@,
            start <= i <= n,
            views(out@) + bar_parts(a@, start as int, i as int) == views(old(out)@) + bar_parts(a@, 0, 0),
        decreases n - i,
    {
        if s.get_char(i) == '|' {
            let ghost before = views(out@);
            push_part(out, s, start, i);
            assert(views(out@) + bar_parts(a@, i + 1, i + 1) =~= before + bar_parts(a@, start as int, i as int));
            start = i + 1;
        }
        i = i + 1;
    }
    let ghost before = views(out@);
    push_part(out, s, start, n);
    assert(views(out@) =~= before + bar_parts(a@, start as int, n as int));
}

/// Some argument spells `w`.
pub open spec fn has_arg(args: Seq<Seq<char>>, w: Seq<char>) -> bool {
    exists|i: int| 0 <= i < args.len() && #[trigger] args[i] == w
}

/// Whether some argument spells `w`.
fn any_arg(args: &Vec<String>, w: &str) -> (b: bool)
    ensures
        b == has_arg(views(args@), w@),
{
    let mut i: usize = 0;
    while i < args.len()
        invariant
            i <= args@.len(),
            forall|j: int| 0 <= j < i ==> views(args@)[j] != w@,
        decreases args@.len() - i,
    {
        if str_eq(args[i].as_str(), w) {
            assert(views(args@)[i as int] == w@);
            return true;
        }
        i = i + 1;
    }
    false
}

/// `args` without its first argument that spells `w`, and whether there was one.
pub open spec fn remove_first(args: Seq<Seq<char>>, w: Seq<char>) -> (bool, Seq<Seq<char>>)
    decreases args.len(),
{
    if args.len() == 0 {
        (false, args)
    } else if args[0] == w {
        (true, args.drop_first())
    } else {
        let (found, rest) = remove_first(args.drop_first(), w);
        (found, seq![args[0]] + rest)
    }
}

proof fn lemma_remove_first_at(args: Seq<Seq<char>>, w: Seq<char>, k: int)
    requires
        0 <= k <= args.len(),
        forall|j: int| 0 <= j < k ==> args[j] != w,
    ensures
        remove_first(args, w) == ({
            let (found, rest) = remove_first(args.skip(k), w);
            (found, args.take(k) + rest)
        }),
    decreases k,
{
    if k == 0 {
        assert(args.skip(0) =~= args);
        assert(args.take(0) + remove_first(args, w).1 =~= remove_first(args, w).1);
    } else {
        lemma_remove_first_at(args.drop_first(), w, k - 1);
        assert(args.drop_first().skip(k - 1) =~= args.skip(k));
        let (found, rest) = remove_first(args.skip(k), w);
        assert(seq![args[0]] + (args.drop_first().take(k - 1) + rest) =~= args.take(k) + rest);
    }
}

/// Removes the first argument that spells `w`; says whether there was one.
fn take_flag(args: &mut Vec<String>, w: &str) -> (found: bool)
    ensures
        (found, views(final(args)@)) == remove_first(views(old(args)@), w@),
{
    let mut i: usize = 0;
    while i < args.len()
        invariant
            i <= args@.len(),
            args@ == old(args)@,
            forall|j: int| 0 <= j < i ==> views(args@)[j] != w@,
        decreases args@.len() - i,
    {
        if str_eq(args[i].as_str(), w) {
            let ghost before = views(args@);
            proof {
                lemma_remove_first_at(before, w@, i as int);
                assert(before.skip(i as int)[0] == w@);
                assert(before.skip(i as int).drop_first() =~= before.skip(i as int + 1));
            }
            args.remove(i);
            assert(views(args@) =~= before.take(i as int) + before.skip(i as int + 1));
            return true;
        }
        i = i + 1;
    }
    proof {
        lemma_remove_first_at(views(args@), w@, i as int);
        assert(views(args@).skip(i as int) =~= Seq::<Seq<char>>::empty());
        assert(views(args@).take(i as int) + Seq::<Seq<char>>::empty() =~= views(args@));
    }
    false
}

/// The threshold after the arguments from the front of `args` on, starting at
/// `cur`, and the arguments that are not threshold options; an error at the
/// first threshold option whose value does not parse.
pub open spec fn scan_threshold(args: Seq<Seq<char>>, cur: u32) -> Result<(u32, Seq<Seq<char>>), CliError>
    decreases args.len(),
{
    if args.len() == 0 {
        Ok((cur, args))
    } else {
        let a = args[0];
        let long = "--threshold="@;
        let short = "--th="@;
        if long.len() <= a.len() && a.subrange(0, long.len() as int) == long {
            match parse_u32(a.skip(long.len() as int)) {
                Some(v) => scan_threshold(args.drop_first(), v),
                None => Err(CliError::BadThreshold),
            }
        } else if short.len() <= a.len() && a.subrange(0, short.len() as int) == short {
            match parse_u32(a.skip(short.len() as int)) {
                Some(v) => scan_threshold(args.drop_first(), v),
                None => Err(CliError::BadTh),
            }
        } else {
            match scan_threshold(args.drop_first(), cur) {
                Ok((t, rest)) => Ok((t, seq![a] + rest)),
                Err(e) => Err(e),
            }
        }
    }
}

} // verus!

verus! {

/// Reads the threshold options out of `args`, from the front; the rest stay in order.
fn take_thresholds(args: &mut Vec<String>) -> (r: Result<u32, CliError>)
    ensures
        match scan_threshold(views(old(args)@), 50) {
            Ok((t, rest)) => r == Ok::<u32, CliError>(t) && views(final(args)@) == rest,
            Err(e) => r == Err::<u32, CliError>(e),
        },
{
    let mut threshold: u32 = 50;
    let mut i: usize = 0;
    let ghost orig = views(args@);
    assert(views(args@).skip(0) =~= views(args@));
    proof {
        match scan_threshold(views(args@), 50) {
            Ok((t, rest)) => {
                assert(views(args@).take(0) + rest =~= rest);
            },
            Err(e) => {},
        }
    }
    while i < args.len()
        invariant
            i <= args@.len(),
            orig == views(old(args)@),
            scan_threshold(orig, 50) == match scan_threshold(views(args@).skip(i as int), threshold) {
                Ok((t, rest)) => Ok((t, views(args@).take(i as int) + rest)),
                Err(e) => Err(e),
            },
        decreases args@.len() - i,
    {
        let a = args[i].as_str();
        let ghost sk = views(args@).skip(i as int);
        assert(sk[0] == a@);
        assert(sk.drop_first() =~= views(args@).skip(i as int + 1));
        let long = "--threshold=";
        let short = "--th=";
        if starts_with(a, long) {
            let n = a.unicode_len();
            let m = long.unicode_len();
            let rest = a.substring_char(m, n);
            assert(rest@ =~= a@.skip(long@.len() as int));
            match parse_u32_str(rest) {
                Some(v) => {
                    let ghost before = views(args@);
                    args.remove(i);
                    threshold = v;
                    assert(views(args@) =~= before.take(i as int) + before.skip(i as int + 1));
                    assert(views(args@).skip(i as int) =~= before.skip(i as int + 1));
                    assert(views(args@).take(i as int) =~= before.take(i as int));
                },
                None => {
                    assert(sk.len() > 0);
                    assert(scan_threshold(sk, threshold) == Err::<(u32, Seq<Seq<char>>), CliError>(CliError::BadThreshold));
                    return Err(CliError::BadThreshold);
                },
            }
        } else if starts_with(a, short) {
            let n = a.unicode_len();
            let m = short.unicode_len();
            let rest = a.substring_char(m, n);
            assert(rest@ =~= a@.skip(short@.len() as int));
            match parse_u32_str(rest) {
                Some(v) => {
                    let ghost before = views(args@);
                    args.remove(i);
                    threshold = v;
                    assert(views(args@) =~= before.take(i as int) + before.skip(i as int + 1));
                    assert(views(args@).skip(i as int) =~= before.skip(i as int + 1));
                    assert(views(args@).take(i as int) =~= before.take(i as int));
                },
                None => {
                    assert(sk.len() > 0);
                    assert(scan_threshold(sk, threshold) == Err::<(u32, Seq<Seq<char>>), CliError>(CliError::BadTh));
                    return Err(CliError::BadTh);
                },
            }
        } else {
            proof {
                let v = views(args@);
                assert(v.take(i as int + 1) =~= v.take(i as int) + seq![a@]);
                match scan_threshold(v.skip(i as int + 1), threshold) {
                    Ok((t, rest)) => {
                        assert(v.take(i as int) + (seq![a@] + rest) =~= v.take(i as int + 1) + rest);
                    },
                    Err(e) => {},
                }
            }
            i = i + 1;
        }
    }
    proof {
        assert(views(args@).skip(i as int) =~= Seq::<Seq<char>>::empty());
        assert(views(args@).take(i as int) + Seq::<Seq<char>>::empty() =~= views(args@));
    }
    Ok(threshold)
}

/// What the command line asks for, as values.
pub enum CliPlan {
    Help,
    Version,
    Repl(CliOptions),
    Tool(ToolKind, CliOptions),
    Run(Seq<char>, CliOptions),
}

/// What the raw arguments (the program name first) ask for: after `|`-joined
/// groups are split, `--help`, `-h` or `help` anywhere asks for help, then
/// `--version`, `-v` or `version` for the version; the first `--no-jit`,
/// `--no-inline`, `--check` and `--bytecode` set their options; every
/// `--threshold=N` or `--th=N` sets the threshold (the last one counts); with
/// no argument left after the program name the REPL starts, `pax` and `doc`
/// run those tools, and anything else names the file to run.
pub open spec fn cli_plan(raw: Seq<Seq<char>>) -> Result<CliPlan, CliError> {
    let args = expand_args(raw);
    if has_arg(args, "--help"@) || has_arg(args, "-h"@) || has_arg(args, "help"@) {
        Ok(CliPlan::Help)
    } else if has_arg(args, "--version"@) || has_arg(args, "-v"@) || has_arg(args, "version"@) {
        Ok(CliPlan::Version)
    } else {
        let (no_jit, a1) = remove_first(args, "--no-jit"@);
        let (no_inline, a2) = remove_first(a1, "--no-inline"@);
        let (check, a3) = remove_first(a2, "--check"@);
        let (bytecode, a4) = remove_first(a3, "--bytecode"@);
        match scan_threshold(a4, 50) {
            Err(e) => Err(e),
            Ok((t, rest)) => {
                let opts = CliOptions {
                    disable_jit: no_jit,
                    disable_inline: no_inline,
                    check_only: check,
                    dump_bytecode_only: bytecode,
                    jit_threshold: t,
                };
                if rest.len() < 2 {
                    Ok(CliPlan::Repl(opts))
                } else if rest[1] == "pax"@ {
                    Ok(CliPlan::Tool(ToolKind::Pax, opts))
                } else if rest[1] == "doc"@ {
                    Ok(CliPlan::Tool(ToolKind::Doc, opts))
                } else {
                    Ok(CliPlan::Run(rest[1], opts))
                }
            },
        }
    }
}

/// The command stands for the plan.
pub open spec fn command_is(c: CliCommand, p: CliPlan) -> bool {
    match (c, p) {
        (CliCommand::Help, CliPlan::Help) => true,
        (CliCommand::Version, CliPlan::Version) => true,
        (CliCommand::Repl(o), CliPlan::Repl(q)) => o == q,
        (CliCommand::Tool(k, o), CliPlan::Tool(l, q)) => k == l && o == q,
        (CliCommand::Run(f, o), CliPlan::Run(g, q)) => f@ == g && o == q,
        _ => false,
    }
}

/// Reads the command line (the program name first); see `cli_plan`.
pub fn parse_command_line(raw_args: &Vec<String>) -> (r: Result<CliCommand, CliError>)
    ensures
        match (r, cli_plan(views(raw_args@))) {
            (Ok(c), Ok(p)) => command_is(c, p),
            (Err(e), Err(f)) => e == f,
            _ => false,
        },
{
    let mut args: Vec<String> = Vec::new();
    let mut k: usize = 0;
    while k < raw_args.len()
        invariant
            k <= raw_args@.len(),
            views(args@) == expand_args(views(raw_args@).take(k as int)),
        decreases raw_args@.len() - k,
    {
        proof {
            assert(views(raw_args@).take(k as int + 1).drop_last() =~= views(raw_args@).take(k as int));
        }
        expand_into(&mut args, &raw_args[k]);
        k = k + 1;
    }
    assert(views(raw_args@).take(k as int) =~= views(raw_args@));
    if any_arg(&args, "--help") || any_arg(&args, "-h") || any_arg(&args, "help") {
        return Ok(CliCommand::Help);
    }
    if any_arg(&args, "--version") || any_arg(&args, "-v") || any_arg(&args, "version") {
        return Ok(CliCommand::Version);
    }
    let disable_jit = take_flag(&mut args, "--no-jit");
    let disable_inline = take_flag(&mut args, "--no-inline");
    let check_only = take_flag(&mut args, "--check");
    let dump_bytecode_only = take_flag(&mut args, "--bytecode");
    let jit_threshold = match take_thresholds(&mut args) {
        Ok(t) => t,
        Err(e) => {
            return Err(e);
        },
    };
    let opts = CliOptions { disable_jit, disable_inline, check_only, dump_bytecode_only, jit_threshold };
    if args.len() < 2 {
        return Ok(CliCommand::Repl(opts));
    }
    let first = args[1].as_str();
    assert(views(args@)[1] == first@);
    if str_eq(first, "pax") {
        Ok(CliCommand::Tool(ToolKind::Pax, opts))
    } else if str_eq(first, "doc") {
        Ok(CliCommand::Tool(ToolKind::Doc, opts))
    } else {
        Ok(CliCommand::Run(args[1].clone(), opts))
    }
}

proof fn lemma_bar_parts_skip(a: Seq<char>, start: int, i: int, j: int)
    requires
        0 <= i <= j <= a.len(),
        forall|k: int| i <= k < j ==> a[k] != '|',
    ensures
        bar_parts(a, start, i) == bar_parts(a, start, j),
    decreases j - i,
{
    if i < j {
        lemma_bar_parts_skip(a, start, i + 1, j);
    }
}

/// Options joined by `|` in one argument are read as if they were passed one
/// by one, each without its surrounding white space.
pub proof fn law_bar_joined_args(raw: Seq<Seq<char>>, a: Seq<char>, b: Seq<char>)
    requires
        !a.contains('|'),
        !b.contains('|'),
        trimmed(a).len() > 0,
        trimmed(b).len() > 0,
    ensures
        expand_args(raw.push(a + seq!['|'] + b)) == expand_args(raw.push(trimmed(a)).push(trimmed(b))),
        cli_plan(raw.push(a + seq!['|'] + b)) == cli_plan(raw.push(trimmed(a)).push(trimmed(b))),
{
    let c = a + seq!['|'] + b;
    let n = a.len() as int;
    assert(c[n] == '|');
    assert(c.contains('|'));
    assert forall|k: int| 0 <= k < n implies c[k] != '|' by {
        assert(c[k] == a[k]);
        if a[k] == '|' {
            assert(a.contains('|'));
        }
    }
    lemma_bar_parts_skip(c, 0, 0, n);
    assert forall|k: int| n + 1 <= k < c.len() implies c[k] != '|' by {
        assert(c[k] == b[k - n - 1]);
        if b[k - n - 1] == '|' {
            assert(b.contains('|'));
        }
    }
    lemma_bar_parts_skip(c, n + 1, n + 1, c.len() as int);
    assert(c.subrange(0, n) =~= a);
    assert(c.subrange(n + 1, c.len() as int) =~= b);
    assert(bar_parts(c, 0, 0) =~= seq![trimmed(a), trimmed(b)]);
    lemma_trimmed_no_bar(a);
    lemma_trimmed_no_bar(b);
    let r1 = raw.push(c);
    let r2 = raw.push(trimmed(a)).push(trimmed(b));
    assert(r1.drop_last() =~= raw);
    assert(r2.drop_last().drop_last() =~= raw);
    assert(r2.drop_last() =~= raw.push(trimmed(a)));
    assert(expand_arg(c) == seq![trimmed(a), trimmed(b)]);
    assert(expand_arg(trimmed(a)) == seq![trimmed(a)]);
    assert(expand_arg(trimmed(b)) == seq![trimmed(b)]);
    assert(expand_args(r1) == expand_args(raw) + seq![trimmed(a), trimmed(b)]);
    assert(expand_args(raw.push(trimmed(a))) == expand_args(raw) + seq![trimmed(a)]);
    assert(expand_args(r2) == expand_args(raw.push(trimmed(a))) + seq![trimmed(b)]);
    assert(expand_args(r1) =~= expand_args(r2));
}

proof fn lemma_trimmed_no_bar(a: Seq<char>)
    requires
        !a.contains('|'),
        trimmed(a).len() > 0,
    ensures
        !trimmed(a).contains('|'),
{
    crate::text::lemma_trimmed_is_part(a);
    if trimmed(a).contains('|') {
        let k = choose|k: int| 0 <= k < trimmed(a).len() && trimmed(a)[k] == '|';
        let off = crate::text::lead_end(a, 0);
        assert(a[off + k] == '|');
        assert(a.contains('|'));
    }
}

} // verus!
