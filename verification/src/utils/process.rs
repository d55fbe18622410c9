//! Where the files of a background run lie, and how a process identifier
//! is read back. Paths are handled as text.

use crate::storage::models::text_view;
use vstd::prelude::*;
use vstd::string::*;

verus! {

/// The name of the file that holds the process identifier of a background run.
pub open spec fn pid_file_name() -> Seq<char> {
    "dtpf.pid"@
}

/// The name of the file that takes the output of a background run.
pub open spec fn log_file_name() -> Seq<char> {
    "dtpf.log"@
}

/// What `str::trim` returns: the text without leading and trailing white space.
pub uninterp spec fn trimmed(s: Seq<char>) -> Seq<char>;

/// Whether a character is a decimal digit.
pub open spec fn is_digit(c: char) -> bool {
    '0' <= c <= '9'
}

/// The number that a run of decimal digits spells.
pub open spec fn decimal_value(digits: Seq<char>) -> nat
    decreases digits.len(),
{
    if digits.len() == 0 {
        0
    } else {
        (decimal_value(digits.drop_last()) * 10 + (digits.last() as u32 - '0' as u32)) as nat
    }
}

/// Whether a text is made of decimal digits only, and of one at least.
pub open spec fn all_digits(s: Seq<char>) -> bool {
    s.len() > 0 && forall|i: int| 0 <= i < s.len() ==> is_digit(#[trigger] s[i])
}

/// The text without a plus sign at its front.
pub open spec fn unsigned_part(s: Seq<char>) -> Seq<char> {
    if s.len() > 0 && s[0] == '+' {
        s.skip(1)
    } else {
        s
    }
}

/// The number that a text spells in decimal, with or without a plus sign
/// in front, if it spells one that fits in 32 bits.
pub open spec fn parsed_u32(s: Seq<char>) -> Option<u32> {
    let digits = unsigned_part(s);
    if all_digits(digits) && decimal_value(digits) <= u32::MAX {
        Some(decimal_value(digits) as u32)
    } else {
        None
    }
}

/// A run of digits spells at least what any of its initial parts spells.
pub proof fn lemma_decimal_value_grows(digits: Seq<char>, n: int)
    requires
        0 <= n <= digits.len(),
        forall|i: int| 0 <= i < digits.len() ==> is_digit(#[trigger] digits[i]),
    ensures
        decimal_value(digits.take(n)) <= decimal_value(digits),
    decreases digits.len() - n,
{
    if n == digits.len() {
        assert(digits.take(n) =~= digits);
    } else {
        lemma_decimal_value_grows(digits, n + 1);
        assert(digits.take(n + 1).drop_last() =~= digits.take(n));
        assert(is_digit(digits[n]));
    }
}

/// Whether a character is an ASCII letter or digit.
pub open spec fn is_alnum(c: char) -> bool {
    ('a' <= c <= 'z') || ('A' <= c <= 'Z') || ('0' <= c <= '9')
}

/// Whether a file name is made of ASCII letters, digits and dots only, and
/// not of dots alone, so that no platform reads a separator, a drive, a
/// root or a directory into it.
pub open spec fn plain_file_name(name: Seq<char>) -> bool {
    &&& forall|i: int| 0 <= i < name.len() ==> is_alnum(#[trigger] name[i]) || name[i] == '.'
    &&& exists|i: int| 0 <= i < name.len() && is_alnum(#[trigger] name[i])
}

/// Whether a text begins with two separators, as the paths do that name a
/// server, a device or a verbatim path on Windows.
pub open spec fn doubly_rooted(path: Seq<char>) -> bool {
    path.len() >= 2 && (path[0] == '/' || path[0] == '\\') && (path[1] == '/' || path[1] == '\\')
}

/// Whether `path` is `base`, a slash and the plain file name `name`, where
/// `base` is empty or a text that ends in a letter or digit and does not
/// begin with two separators. On every platform such a path names the file
/// `name` in the directory `base`, or in the root where `base` is empty.
pub open spec fn names_file_in(path: Seq<char>, base: Seq<char>, name: Seq<char>) -> bool {
    &&& path == base + seq!['/'] + name
    &&& plain_file_name(name)
    &&& base.len() == 0 || (is_alnum(base.last()) && !doubly_rooted(base))
}

/// Whether `part` is a contiguous part of `whole`.
pub open spec fn part_of(part: Seq<char>, whole: Seq<char>) -> bool {
    exists|i: int, j: int| 0 <= i <= j <= whole.len() && part == #[trigger] whole.subrange(i, j)
}

/// Whether `path` is `dir` and `file` with at most one separator between them.
pub open spec fn lies_in(path: Seq<char>, dir: Seq<char>, file: Seq<char>) -> bool {
    &&& dir.is_prefix_of(path)
    &&& file.is_suffix_of(path)
    &&& dir.len() + file.len() <= path.len() <= dir.len() + file.len() + 1
}

/// `str::trim`: the text without leading and trailing white space, which
/// is a contiguous part of the text.
#[verifier::external_body]
pub(crate) fn trim_text(s: &str) -> (t: &str)
    ensures
        t@ == trimmed(s@),
        part_of(t@, s@),
{
    s.trim()
}

/// The number that a text spells in decimal, if it spells one that fits.
pub fn parse_u32(s: &str) -> (n: Option<u32>)
    ensures
        n == parsed_u32(s@),
{
    let len = s.unicode_len();
    let start: usize = if len > 0 && s.get_char(0) == '+' {
        1
    } else {
        0
    };
    if start == len {
        return None;
    }
    let ghost digits = unsigned_part(s@);
    assert(digits =~= s@.skip(start as int));
    let mut value: u64 = 0;
    let mut i: usize = start;
    while i < len
        invariant
            start <= i <= len,
            len == s@.len(),
            digits == s@.skip(start as int),
            digits == unsigned_part(s@),
            forall|j: int| 0 <= j < i - start ==> is_digit(#[trigger] digits[j]),
            value == decimal_value(digits.take(i - start)),
            value <= u32::MAX,
        decreases len - i,
    {
        let c = s.get_char(i);
        assert(c == digits[i - start]);
        let code = c as u32;
        assert('0' as u32 == 48 && '9' as u32 == 57);
        if code < 48 || code > 57 {
            assert(!is_digit(digits[i - start]));
            assert(!all_digits(digits));
            return None;
        }
        assert(is_digit(digits[i - start]));
        proof {
            assert(digits.take(i - start + 1).drop_last() =~= digits.take(i - start));
            assert(digits.take(i - start + 1).last() == c);
        }
        value = value * 10 + (code - 48) as u64;
        if value > 0xffff_ffff {
            proof {
                if all_digits(digits) {
                    lemma_decimal_value_grows(digits, i - start + 1);
                }
            }
            return None;
        }
        i += 1;
    }
    proof {
        assert(digits.take(len - start) =~= digits);
    }
    Some(value as u32)
}

/// Whether `dir` is the directory of every file that `path` names as a
/// directory, a slash and a plain file name: that directory, or the root
/// where the directory is empty.
pub open spec fn is_directory_of(dir: Option<Seq<char>>, path: Seq<char>) -> bool {
    forall|base: Seq<char>, name: Seq<char>| #[trigger]
        names_file_in(path, base, name) ==> dir == Some(
            if base.len() == 0 {
                seq!['/']
            } else {
                base
            },
        )
}

/// `Path::parent`: the path without its final component, or nothing where
/// the path is empty or ends in a root. The parent is an initial part of
/// the path it was taken from. The parent of a relative path with one
/// component is the empty path. Where the path is a directory, a slash and
/// a plain file name, the parent is that directory, and the root where the
/// directory is empty.
#[verifier::external_body]
pub(crate) fn parent_of(path: &str) -> (dir: Option<String>)
    ensures
        dir matches Some(d) ==> d@.is_prefix_of(path@),
        plain_file_name(path@) ==> text_view(dir) == Some(Seq::<char>::empty()),
        is_directory_of(text_view(dir), path@),
{
    match std::path::Path::new(path).parent() {
        Some(dir) => Some(dir.to_string_lossy().into_owned()),
        None => None,
    }
}

/// Whether a path begins as a verbatim path of Windows does, with `\\?\`.
/// Joining something to such a path may rewrite the path itself.
pub open spec fn verbatim(path: Seq<char>) -> bool {
    path.len() >= 4 && path[0] == '\\' && path[1] == '\\' && path[2] == '?' && path[3] == '\\'
}

/// `Path::join` with a plain file name. The result ends in the file name.
/// The empty directory gives the file name alone. Unless the directory is
/// a verbatim path, the result is the directory, a separator where the
/// directory does not end in one, and the file name: none is added after a
/// slash, and one, a slash or a backslash as the platform has it, after a
/// letter, a digit or a dot.
#[verifier::external_body]
pub(crate) fn join_file(dir: &str, file: &str) -> (path: String)
    requires
        plain_file_name(file@),
    ensures
        file@.is_suffix_of(path@),
        dir@.len() == 0 ==> path@ == file@,
        !verbatim(dir@) ==> lies_in(path@, dir@, file@),
        !verbatim(dir@) && dir@.len() > 0 && dir@.last() == '/' ==> path@ == dir@ + file@,
        !verbatim(dir@) && dir@.len() > 0 && (is_alnum(dir@.last()) || dir@.last() == '.') ==> {
            &&& path@.len() == dir@.len() + 1 + file@.len()
            &&& (path@[dir@.len() as int] == '/' || path@[dir@.len() as int] == '\\')
        },
{
    std::path::Path::new(dir).join(file).to_string_lossy().into_owned()
}

/// The directory that the files of a background run lie in, given the
/// parent of the path to the settings file: that parent, or `.` where the
/// path has none.
pub fn run_directory(parent: Option<String>) -> (dir: String)
    ensures
        dir@ == match parent {
            Some(d) => d@,
            None => "."@,
        },
{
    match parent {
        Some(dir) => dir,
        None => String::from_str("."),
    }
}

/// Whether `path` is where the file `file` of a background run lies for
/// the settings file at `config_path`: beside the settings file.
///
/// The path always ends in the file name. For a settings file named by a
/// plain file name alone it is the file name alone. For a settings file
/// named as a directory, a slash and a plain file name it is that
/// directory, one separator and the file name; the separator is the
/// platform's, a slash or a backslash. In the root it is a slash and the
/// file name.
pub open spec fn lies_beside(path: Seq<char>, config_path: Seq<char>, file: Seq<char>) -> bool {
    &&& file.is_suffix_of(path)
    &&& plain_file_name(config_path) ==> path == file
    &&& forall|base: Seq<char>, name: Seq<char>| #[trigger]
        names_file_in(config_path, base, name) ==> if base.len() == 0 {
            path == seq!['/'] + file
        } else {
            path == base + seq!['/'] + file || path == base + seq!['\\'] + file
        }
    &&& !verbatim(config_path) ==> exists|dir: Seq<char>|
        (dir.is_prefix_of(config_path) || dir == "."@) && #[trigger] lies_in(path, dir, file)
}

/// The path of the file `file` beside the settings file.
fn beside(config_path: &str, file: &str) -> (path: String)
    requires
        plain_file_name(file@),
    ensures
        lies_beside(path@, config_path@, file@),
{
    let dir = run_directory(parent_of(config_path));
    let path = join_file(dir.as_str(), file);
    proof {
        reveal_strlit(".");
        let whole = config_path@;
        if !verbatim(whole) {
            assert(!verbatim(dir@));
            assert(lies_in(path@, dir@, file@));
        }
        assert forall|base: Seq<char>, name: Seq<char>| #[trigger]
            names_file_in(whole, base, name) implies if base.len() == 0 {
            path@ == seq!['/'] + file@
        } else {
            path@ == base + seq!['/'] + file@ || path@ == base + seq!['\\'] + file@
        } by {
            if base.len() == 0 {
                assert(dir@ == seq!['/']);
                assert(!verbatim(dir@));
            } else {
                assert(dir@ == base);
                assert(!verbatim(base));
                let sep = path@[base.len() as int];
                assert(path@ =~= base + seq![sep] + file@);
            }
        }
    }
    path
}

/// The path of the file that holds the process identifier of a background
/// run: `dtpf.pid` beside the settings file.
pub fn get_pid_file_path(config_path: &str) -> (path: String)
    ensures
        lies_beside(path@, config_path@, pid_file_name()),
{
    proof {
        reveal_strlit("dtpf.pid");
        assert(is_alnum("dtpf.pid"@[0]));
    }
    beside(config_path, "dtpf.pid")
}

/// The path of the file that takes the output of a background run:
/// `dtpf.log` beside the settings file.
pub fn get_log_file_path(config_path: &str) -> (path: String)
    ensures
        lies_beside(path@, config_path@, log_file_name()),
{
    proof {
        reveal_strlit("dtpf.log");
        assert(is_alnum("dtpf.log"@[0]));
    }
    beside(config_path, "dtpf.log")
}

/// The process identifier that the content of a pid file spells, white
/// space around it aside.
pub fn parse_pid(content: &str) -> (pid: Option<u32>)
    ensures
        pid == parsed_u32(trimmed(content@)),
{
    parse_u32(trim_text(content))
}

} // verus!
