//! Helpers: checks on what stands at a path, sizes for display, and the
//! argument list of an external command.

use vstd::prelude::*;
use crate::paths::{decimal, push_char, push_decimal};

verus! {

/// What stands at a path, as the file system reported it.
#[derive(Clone, Copy, Debug, PartialEq, Eq, Structural)]
pub enum PathKind {
    Missing,
    File,
    Directory,
    Other,
}

/// Checks that `path`, of the given kind, is an existing file.
pub fn check_is_existing_file(path: &str, kind: PathKind) -> (r: Result<(), String>)
    ensures
        kind == PathKind::File <==> r is Ok,
        kind == PathKind::Missing ==> (r matches Err(m) && m@ == "File "@ + path@
            + " does not exist"@),
        kind == PathKind::Directory || kind == PathKind::Other ==> (r matches Err(m) && m@
            == path@ + " is not a file"@),
{
    match kind {
        PathKind::File => Ok(()),
        PathKind::Missing => {
            let mut m = "File ".to_owned();
            m.append(path);
            m.append(" does not exist");
            Err(m)
        },
        _ => {
            let mut m = path.to_owned();
            m.append(" is not a file");
            Err(m)
        },
    }
}

/// Checks that `path`, of the given kind, is an existing directory.
pub fn check_is_existing_directory(path: &str, kind: PathKind) -> (r: Result<(), String>)
    ensures
        kind == PathKind::Directory <==> r is Ok,
        kind == PathKind::Missing ==> (r matches Err(m) && m@ == "Directory "@ + path@
            + " does not exist"@),
        kind == PathKind::File || kind == PathKind::Other ==> (r matches Err(m) && m@ == path@
            + " is not a directory"@),
{
    match kind {
        PathKind::Directory => Ok(()),
        PathKind::Missing => {
            let mut m = "Directory ".to_owned();
            m.append(path);
            m.append(" does not exist");
            Err(m)
        },
        _ => {
            let mut m = path.to_owned();
            m.append(" is not a directory");
            Err(m)
        },
    }
}

pub open spec fn ceil_div(dividend: nat, divisor: nat) -> nat
    recommends
        divisor > 0,
{
    ((dividend + divisor - 1) as nat) / divisor
}

fn rounded_div(dividend: u128, divisor: u128) -> (r: u128)
    requires
        divisor > 0,
        dividend + divisor <= u128::MAX,
    ensures
        r == ceil_div(dividend as nat, divisor as nat),
{
    (dividend + divisor - 1) / divisor
}

pub open spec fn one_k() -> nat {
    1024
}

pub open spec fn one_m() -> nat {
    1024 * 1024
}

pub open spec fn one_g() -> nat {
    1024 * 1024 * 1024
}

/// The size to show, in tenths of the unit, and the unit.
pub open spec fn scaled_size(b: nat) -> (nat, Seq<char>) {
    if b > one_g() {
        (ceil_div(b * 10, one_g()), seq!['G'])
    } else if b > one_m() {
        (ceil_div(b * 10, one_m()), seq!['M'])
    } else if b > one_k() {
        (ceil_div(b * 10, one_k()), seq!['K'])
    } else {
        (b, seq![])
    }
}

/// A size in bytes as `ls -h` writes it, rounded up to a tenth of the unit:
/// one decimal below ten units, none from ten units on.
pub open spec fn human_readable_spec(b: nat) -> Seq<char> {
    let (size, unit) = scaled_size(b);
    let whole = size / 10;
    let tenth = size % 10;
    if whole >= 10 {
        decimal(whole) + unit
    } else {
        decimal(whole) + seq!['.'] + decimal(tenth) + unit
    }
}

/// Takes a size in bytes and writes it with a unit, in the manner of `ls -h`.
pub fn human_readable_size(byte_size: u64) -> (r: String)
    ensures
        r@ == human_readable_spec(byte_size as nat),
{
    let b = byte_size as u128;
    let one_k: u128 = 1024;
    let one_m: u128 = 1024 * 1024;
    let one_g: u128 = 1024 * 1024 * 1024;
    let (size, unit) = if b > one_g {
        (rounded_div(b * 10, one_g), 'G')
    } else if b > one_m {
        (rounded_div(b * 10, one_m), 'M')
    } else if b > one_k {
        (rounded_div(b * 10, one_k), 'K')
    } else {
        (b, ' ')
    };
    assert(size <= b * 10 + 1) by (nonlinear_arith)
        requires
            size == b || size == ceil_div((b * 10) as nat, one_g as nat) || size == ceil_div(
                (b * 10) as nat,
                one_m as nat,
            ) || size == ceil_div((b * 10) as nat, one_k as nat),
            one_g > 0,
            one_m > 0,
            one_k > 0,
    ;
    let whole = size / 10;
    let tenth = size % 10;
    assert(whole <= u64::MAX);
    let mut r = String::new();
    push_decimal(&mut r, whole as u64);
    if whole < 10 {
        push_char(&mut r, '.');
        push_decimal(&mut r, tenth as u64);
    }
    if b > one_k {
        push_char(&mut r, unit);
    }
    assert(r@ =~= human_readable_spec(byte_size as nat));
    r
}

/// The text of `cmd` cut at each space; two spaces in a row give an empty
/// piece, and there is always at least one piece.
pub open spec fn split_spaces(s: Seq<char>) -> Seq<Seq<char>>
    decreases s.len(),
{
    if s.len() == 0 {
        seq![seq![]]
    } else {
        let rest = split_spaces(s.drop_last());
        if s.last() == ' ' {
            rest.push(seq![])
        } else {
            rest.update(rest.len() - 1, rest.last().push(s.last()))
        }
    }
}

pub proof fn lemma_split_spaces_nonempty(s: Seq<char>)
    ensures
        split_spaces(s).len() >= 1,
    decreases s.len(),
{
    if s.len() > 0 {
        lemma_split_spaces_nonempty(s.drop_last());
    }
}

/// One argument of a command template: `%i` stands for the input file and
/// `%o` for the output file; anything else is passed as it is.
pub open spec fn substitute(token: Seq<char>, input: Seq<char>, output: Seq<char>) -> Seq<char> {
    if token == seq!['%', 'i'] {
        input
    } else if token == seq!['%', 'o'] {
        output
    } else {
        token
    }
}

/// The program and arguments that a command template stands for: the first
/// piece is the program, and each later piece is an argument, substituted.
pub open spec fn command_spec(cmd: Seq<char>, input: Seq<char>, output: Seq<char>) -> Seq<
    Seq<char>,
> {
    let pieces = split_spaces(cmd);
    seq![pieces[0]] + pieces.drop_first().map_values(|t: Seq<char>| substitute(t, input, output))
}

pub open spec fn views(v: Seq<String>) -> Seq<Seq<char>> {
    v.map_values(|s: String| s@)
}

fn is_token(s: &String, c: char) -> (r: bool)
    ensures
        r == (s@ == seq!['%', c]),
{
    let t = s.as_str();
    if t.unicode_len() == 2 && t.get_char(0) == '%' && t.get_char(1) == c {
        assert(s@ =~= seq!['%', c]);
        true
    } else {
        false
    }
}

/// Cuts a command template at each space.
fn split_command(cmd: &str) -> (r: Vec<String>)
    ensures
        views(r@) == split_spaces(cmd@),
{
    let n = cmd.unicode_len();
    let mut done: Vec<String> = Vec::new();
    let mut current = String::new();
    let mut i: usize = 0;
    while i < n
        invariant
            i <= n,
            n == cmd@.len(),
            views(done@).push(current@) == split_spaces(cmd@.take(i as int)),
        decreases n - i,
    {
        let c = cmd.get_char(i);
        let ghost prefix = cmd@.take(i + 1);
        assert(prefix.drop_last() =~= cmd@.take(i as int));
        if c == ' ' {
            done.push(current);
            current = String::new();
            assert(views(done@).push(current@) =~= split_spaces(prefix));
        } else {
            push_char(&mut current, c);
            assert(views(done@).push(current@) =~= split_spaces(prefix));
        }
        i = i + 1;
    }
    assert(cmd@.take(n as int) =~= cmd@);
    done.push(current);
    done
}

/// The program and arguments that the command template `cmd` stands for,
/// with `%i` replaced by `input` and `%o` by `output`. The template is cut at
/// each space, with no quoting.
pub fn command_arguments(cmd: &str, input: &str, output: &str) -> (r: Vec<String>)
    ensures
        views(r@) == command_spec(cmd@, input@, output@),
{
    let pieces = split_command(cmd);
    proof {
        lemma_split_spaces_nonempty(cmd@);
    }
    let mut r: Vec<String> = Vec::new();
    r.push(pieces[0].clone());
    let n = pieces.len();
    let mut k: usize = 1;
    while k < n
        invariant
            1 <= k <= n,
            n == pieces@.len(),
            views(pieces@) == split_spaces(cmd@),
            views(r@) == seq![split_spaces(cmd@)[0]] + split_spaces(cmd@).subrange(1, k as int).map_values(
                |t: Seq<char>| substitute(t, input@, output@),
            ),
        decreases n - k,
    {
        let piece = &pieces[k];
        assert(piece@ == views(pieces@)[k as int]);
        let ghost before = views(r@);
        if is_token(piece, 'i') {
            r.push(input.to_owned());
        } else if is_token(piece, 'o') {
            r.push(output.to_owned());
        } else {
            r.push(piece.clone());
        }
        assert(views(r@) =~= before.push(substitute(piece@, input@, output@)));
        assert(views(r@) =~= seq![split_spaces(cmd@)[0]] + split_spaces(cmd@).subrange(
            1,
            k + 1,
        ).map_values(|t: Seq<char>| substitute(t, input@, output@)));
        k = k + 1;
    }
    assert(split_spaces(cmd@).subrange(1, n as int) =~= split_spaces(cmd@).drop_first());
    r
}

} // verus!
