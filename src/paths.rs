//! Paths held as plain strings, and the rules that name files from them.

use vstd::prelude::*;

verus! {

/// Relies on `String::push`: the character is appended at the end.
#[verifier::external_body]
pub(crate) fn push_char(s: &mut String, c: char)
    ensures
        final(s)@ == old(s)@.push(c),
{
    s.push(c);
}

/// `name` placed inside the directory `dir`: a separator is put between the
/// two unless `dir` is empty or already ends with one.
pub open spec fn join_spec(dir: Seq<char>, name: Seq<char>) -> Seq<char> {
    if dir.len() == 0 || dir.last() == '/' {
        dir + name
    } else {
        dir + seq!['/'] + name
    }
}

/// Places the relative file name `name` inside the directory `dir`.
pub fn join_path(dir: &str, name: &str) -> (r: String)
    ensures
        r@ == join_spec(dir@, name@),
{
    let mut r = dir.to_owned();
    let n = dir.unicode_len();
    if n > 0 && dir.get_char(n - 1) != '/' {
        push_char(&mut r, '/');
    }
    r.append(name);
    r
}

/// The view of an optional string.
pub open spec fn opt_view(o: Option<String>) -> Option<Seq<char>> {
    match o {
        Some(s) => Some(s@),
        None => None,
    }
}

/// What `Path::file_stem` gives for a path: the final component without its
/// extension, if the path has a final component.
pub uninterp spec fn file_stem_of(path: Seq<char>) -> Option<Seq<char>>;

/// What `Path::extension` gives for a path: the part of the final component
/// after its last interior dot, if there is one.
pub uninterp spec fn extension_of(path: Seq<char>) -> Option<Seq<char>>;

/// Relies on `Path::file_stem`: the stem depends on the path's text alone.
#[verifier::external_body]
pub(crate) fn file_stem(path: &str) -> (r: Option<String>)
    ensures
        opt_view(r) == file_stem_of(path@),
{
    std::path::Path::new(path).file_stem().map(|s| s.to_string_lossy().into_owned())
}

/// Relies on `Path::extension`: the extension depends on the path's text alone.
#[verifier::external_body]
pub(crate) fn extension(path: &str) -> (r: Option<String>)
    ensures
        opt_view(r) == extension_of(path@),
{
    std::path::Path::new(path).extension().map(|s| s.to_string_lossy().into_owned())
}

/// The decimal digit for `d`.
pub open spec fn digit_char(d: nat) -> char {
    if d == 0 {
        '0'
    } else if d == 1 {
        '1'
    } else if d == 2 {
        '2'
    } else if d == 3 {
        '3'
    } else if d == 4 {
        '4'
    } else if d == 5 {
        '5'
    } else if d == 6 {
        '6'
    } else if d == 7 {
        '7'
    } else if d == 8 {
        '8'
    } else {
        '9'
    }
}

/// The decimal notation of `n`, without leading zeros.
pub open spec fn decimal(n: nat) -> Seq<char>
    decreases n,
{
    if n < 10 {
        seq![digit_char(n)]
    } else {
        decimal(n / 10).push(digit_char(n % 10))
    }
}

fn digit(d: u64) -> (c: char)
    requires
        d < 10,
    ensures
        c == digit_char(d as nat),
{
    if d == 0 {
        '0'
    } else if d == 1 {
        '1'
    } else if d == 2 {
        '2'
    } else if d == 3 {
        '3'
    } else if d == 4 {
        '4'
    } else if d == 5 {
        '5'
    } else if d == 6 {
        '6'
    } else if d == 7 {
        '7'
    } else if d == 8 {
        '8'
    } else {
        '9'
    }
}

/// Appends the decimal notation of `n` to `s`.
pub fn push_decimal(s: &mut String, n: u64)
    ensures
        final(s)@ == old(s)@ + decimal(n as nat),
    decreases n,
{
    if n < 10 {
        push_char(s, digit(n));
    } else {
        push_decimal(s, n / 10);
        push_char(s, digit(n % 10));
        assert(final(s)@ =~= old(s)@ + decimal(n as nat));
    }
}

/// How one character of a path is written in a flattened file name: `%`
/// doubles and the separator `/` becomes `%`.
pub open spec fn escape_char(c: char) -> Seq<char> {
    if c == '%' {
        seq!['%', '%']
    } else if c == '/' {
        seq!['%']
    } else {
        seq![c]
    }
}

/// A whole path flattened into a single file name, character by character.
pub open spec fn escape_spec(s: Seq<char>) -> Seq<char>
    decreases s.len(),
{
    if s.len() == 0 {
        seq![]
    } else {
        escape_spec(s.drop_last()) + escape_char(s.last())
    }
}

/// Flattens a path into one file name that holds no separator, so that two
/// distinct paths never give the same name.
pub fn escape_path(path: &str) -> (r: String)
    ensures
        r@ == escape_spec(path@),
{
    let n = path.unicode_len();
    let mut r = String::new();
    let mut i: usize = 0;
    while i < n
        invariant
            i <= n,
            n == path@.len(),
            r@ == escape_spec(path@.take(i as int)),
        decreases n - i,
    {
        let c = path.get_char(i);
        assert(path@.take(i + 1).drop_last() =~= path@.take(i as int));
        if c == '%' {
            push_char(&mut r, '%');
            push_char(&mut r, '%');
        } else if c == '/' {
            push_char(&mut r, '%');
        } else {
            push_char(&mut r, c);
        }
        assert(r@ =~= escape_spec(path@.take(i + 1)));
        i = i + 1;
    }
    assert(path@.take(n as int) =~= path@);
    r
}

/// Whether a path begins with the home marker: it is `~` alone or starts
/// with `~/`.
pub open spec fn starts_with_home(p: Seq<char>) -> bool {
    p =~= seq!['~'] || (p.len() >= 2 && p[0] == '~' && p[1] == '/')
}

/// `s` without the separators it starts with.
pub open spec fn trim_leading_slashes(s: Seq<char>) -> Seq<char>
    decreases s.len(),
{
    if s.len() > 0 && s[0] == '/' {
        trim_leading_slashes(s.drop_first())
    } else {
        s
    }
}

/// The path `p` with its home marker replaced by the directory `home`.
pub open spec fn expand_tilde_spec(p: Seq<char>, home: Seq<char>) -> Seq<char> {
    if !starts_with_home(p) {
        p
    } else if p.len() == 1 {
        home
    } else if home =~= seq!['/'] {
        trim_leading_slashes(p.drop_first())
    } else {
        join_spec(home, trim_leading_slashes(p.drop_first()))
    }
}

fn starts_with_home_exec(p: &str) -> (r: bool)
    ensures
        r == starts_with_home(p@),
{
    let n = p.unicode_len();
    if n == 1 {
        p.get_char(0) == '~'
    } else {
        n >= 2 && p.get_char(0) == '~' && p.get_char(1) == '/'
    }
}

/// Expands the home marker of `path` into `home`, the user's home directory
/// if it is known. A path without the marker is returned as it is.
pub fn expand_tilde_with(path: &str, home: Option<String>) -> (r: Result<String, String>)
    ensures
        !starts_with_home(path@) ==> (r matches Ok(s) && s@ == path@),
        starts_with_home(path@) ==> (r is Ok <==> home is Some),
        starts_with_home(path@) && home is Some ==> (r matches Ok(s) && s@ == expand_tilde_spec(
            path@,
            home->Some_0@,
        )),
{
    if !starts_with_home_exec(path) {
        return Ok(path.to_owned());
    }
    let home = match home {
        Some(h) => h,
        None => {
            return Err("Unable to expand home directory from '~'".to_owned());
        },
    };
    let n = path.unicode_len();
    if n == 1 {
        return Ok(home);
    }
    let mut start: usize = 1;
    while start < n && path.get_char(start) == '/'
        invariant
            1 <= start <= n,
            n == path@.len(),
            trim_leading_slashes(path@.drop_first()) == trim_leading_slashes(
                path@.subrange(start as int, n as int),
            ),
        decreases n - start,
    {
        assert(path@.subrange(start as int, n as int).drop_first() =~= path@.subrange(
            start + 1,
            n as int,
        ));
        start = start + 1;
    }
    assert(path@.drop_first() =~= path@.subrange(1, n as int));
    let rest = path.substring_char(start, n);
    let hn = home.unicode_len();
    if hn == 1 && home.as_str().get_char(0) == '/' {
        assert(home@ =~= seq!['/']);
        Ok(rest.to_owned())
    } else {
        assert(!(home@ =~= seq!['/']));
        Ok(join_path(home.as_str(), rest))
    }
}

/// Relies on `dirs::home_dir`: the user's home directory, when the platform
/// reports one. It depends on the environment, so nothing is stated of it.
#[verifier::external_body]
pub(crate) fn home_dir() -> (r: Option<String>) {
    dirs::home_dir().and_then(|h| h.into_os_string().into_string().ok())
}

/// Expands a leading `~` of `path` into the user's home directory.
pub fn expand_tilde(path: &str) -> (r: Result<String, String>)
    ensures
        !starts_with_home(path@) ==> (r matches Ok(s) && s@ == path@),
        starts_with_home(path@) && r is Ok ==> exists|home: Seq<char>|
            r->Ok_0@ == expand_tilde_spec(path@, home),
{
    if !starts_with_home_exec(path) {
        return Ok(path.to_owned());
    }
    let home = home_dir();
    let r = expand_tilde_with(path, home);
    proof {
        if r is Ok {
            assert(r->Ok_0@ == expand_tilde_spec(path@, home->Some_0@));
        }
    }
    r
}

} // verus!
