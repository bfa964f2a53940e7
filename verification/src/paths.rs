//! Paths and file URIs.

use crate::text;
use vstd::prelude::*;

verus! {

broadcast use vstd::string::group_string_axioms;

// ---------------------------------------------------------------------------
// Paths below a root
// ---------------------------------------------------------------------------

/// The characters of names that are read alike on every platform: all but the separators.
pub open spec fn is_name_char(c: char) -> bool {
    c != '/' && c != '\\'
}

/// Whether `s` begins as with a drive letter: a colon stands behind its first character. A colon
/// anywhere else is a part of a name.
pub open spec fn begins_with_drive(s: Seq<char>) -> bool {
    s.len() > 1 && s[1] == ':'
}

/// Whether `s` is one or more names with `separator` between each two. The name of a single dot is
/// none.
pub open spec fn is_plain_names(s: Seq<char>, separator: char) -> bool
    decreases s.len(),
{
    let name = text::before(s, separator);
    &&& name.len() > 0
    &&& name != seq!['.']
    &&& forall|i: int| 0 <= i < name.len() ==> is_name_char(#[trigger] name[i])
    &&& name.len() < s.len() ==> is_plain_names(s.skip(name.len() as int + 1), separator)
}

/// Whether `s` is a path in its shortest form: names, the root and names, the current directory,
/// or the current directory and names.
pub open spec fn is_plain_path(s: Seq<char>) -> bool {
    &&& !begins_with_drive(s)
    &&& {
        ||| is_plain_names(s, '/')
        ||| s.len() > 1 && s[0] == '/' && is_plain_names(s.skip(1), '/')
        ||| s == seq!['.']
        ||| s.len() > 2 && s[0] == '.' && s[1] == '/' && is_plain_names(s.skip(2), '/')
    }
}

/// Whether `root` is a path in its shortest form, with or without a slash behind it, the root
/// itself, or nothing.
pub open spec fn is_plain_root(root: Seq<char>) -> bool {
    ||| root.len() == 0
    ||| is_plain_path(root)
    ||| root.last() == '/' && (root.len() == 1 || is_plain_path(root.drop_last()))
}

/// Whether `c` separates names on some platform.
pub open spec fn is_separator(c: char) -> bool {
    c == '/' || c == '\\'
}

/// Whether `s` is made of names, dots and slashes in any arrangement that is read alike on every
/// platform: without backslashes, a drive letter, or two slashes in front.
pub open spec fn is_portable(s: Seq<char>) -> bool {
    &&& forall|i: int| 0 <= i < s.len() ==> #[trigger] s[i] != '\\'
    &&& !begins_with_drive(s)
    &&& !(s.len() > 1 && s[0] == '/' && s[1] == '/')
}

/// The names in `s`, where slashes separate names, and neither nothing nor a single dot is one.
pub open spec fn names_in(s: Seq<char>) -> Seq<Seq<char>>
    decreases s.len(),
{
    let name = text::before(s, '/');
    let rest = if name.len() < s.len() {
        names_in(s.skip(name.len() as int + 1))
    } else {
        Seq::empty()
    };
    if name.len() == 0 || name == seq!['.'] {
        rest
    } else {
        seq![name] + rest
    }
}

/// The components of a portable path: the root or the current directory, if it begins with one of
/// them, and its names.
pub open spec fn components(s: Seq<char>) -> Seq<Seq<char>> {
    if s.len() > 0 && s[0] == '/' {
        seq![seq!['/']] + names_in(s)
    } else if text::before(s, '/') == seq!['.'] {
        seq![seq!['.']] + names_in(s)
    } else {
        names_in(s)
    }
}

/// What follows `root` and a slash in `path`, nothing for `root` itself, if `path` lies at or
/// below `root`.
pub open spec fn below(root: Seq<char>, path: Seq<char>) -> Option<Seq<char>> {
    let n = root.len() as int;
    if path == root {
        Some(Seq::empty())
    } else if n < path.len() && path.take(n) == root && path[n] == '/' {
        Some(path.skip(n + 1))
    } else {
        None
    }
}

/// What is left of `path` once `root` is taken off it, if `path` lies at or below `root`. A slash
/// behind the root makes no difference, and nothing taken off leaves the path.
pub open spec fn without_root(root: Seq<char>, path: Seq<char>) -> Option<Seq<char>> {
    if root.len() == 0 {
        Some(path)
    } else if root.last() == '/' {
        below(root.drop_last(), path)
    } else {
        below(root, path)
    }
}

/// Whether taking `root` off `path` means the same on every platform: both are in their shortest
/// form, or the path is the root, in whatever form, with names behind it.
pub open spec fn is_settled(root: Seq<char>, path: Seq<char>) -> bool {
    ||| is_plain_root(root) && is_plain_path(path)
    ||| is_portable(root) && without_root(root, path) is Some && is_plain_names(
        without_root(root, path)->0,
        '/',
    )
}

/// Whether `path` is `root`, a backslash and names with backslashes between them, where platforms
/// differ only in whether the backslash separates: the root names something, and is no drive and
/// no share.
pub open spec fn is_behind_backslash(root: Seq<char>, path: Seq<char>) -> bool {
    let n = root.len() as int;
    &&& n > 0
    &&& !is_separator(root.last())
    &&& root.last() != ':'
    &&& !(n > 1 && is_separator(root[0]) && is_separator(root[1]))
    &&& !(n > 1 && root[n - 1] == '.' && root[n - 2] == '/')
    &&& n < path.len()
    &&& path.take(n) == root
    &&& path[n] == '\\'
    &&& is_plain_names(path.skip(n + 1), '\\')
}

/// What `Path::strip_prefix` promises of `root` and `path` on every platform: the text that is
/// left where that is settled; of portable paths, something exactly where the components of the
/// root begin those of the path, and with the components that follow; behind a backslash the
/// names, or nothing.
pub open spec fn is_stripped(root: Seq<char>, path: Seq<char>, r: Option<Seq<char>>) -> bool {
    &&& is_settled(root, path) ==> r == without_root(root, path)
    &&& is_portable(root) && is_portable(path) ==> match r {
        Some(rest) => components(root).is_prefix_of(components(path)) && components(rest)
            == components(path).skip(components(root).len() as int),
        None => !components(root).is_prefix_of(components(path)),
    }
    &&& is_behind_backslash(root, path) ==> r is None || r == Some(
        path.skip(root.len() as int + 1),
    )
}

/// `path` relative to `root`, or as it is where it does not lie below `root`.
pub open spec fn relative_or_whole(root: Seq<char>, path: Seq<char>) -> Seq<char> {
    match without_root(root, path) {
        Some(rest) => rest,
        None => path,
    }
}

/// Whether `shown` is `path` relative to `root`, or the path itself where it does not lie below the
/// root, as far as that is the same on every platform.
pub open spec fn is_shown_below(root: Seq<char>, path: Seq<char>, shown: Seq<char>) -> bool {
    &&& is_settled(root, path) ==> shown == relative_or_whole(root, path)
    &&& is_portable(root) && is_portable(path) ==> if components(root).is_prefix_of(
        components(path),
    ) {
        components(shown) == components(path).skip(components(root).len() as int)
    } else {
        shown == path
    }
    &&& is_behind_backslash(root, path) ==> shown == path || shown == path.skip(
        root.len() as int + 1,
    )
}

/// What an optional text stands for.
pub open spec fn text_option(s: Option<String>) -> Option<Seq<char>> {
    match s {
        Some(s) => Some(s@),
        None => None,
    }
}

/// Calls `Path::strip_prefix`, which compares by whole components and ignores a slash at the end.
/// It takes the root off where the root is a prefix, and off the root itself leaves nothing. Of
/// other paths with a backslash, a drive letter or two slashes in front, which only some platforms
/// read as separators, drives and shares, nothing is said; nor how what is left of a path that is
/// not in its shortest form is spelled.
#[verifier::external_body]
pub(crate) fn strip_root(root: &str, path: &str) -> (r: Option<String>)
    ensures
        is_stripped(root@, path@, text_option(r)),
{
    std::path::Path::new(path).strip_prefix(root).ok().map(|p| p.display().to_string())
}

/// The path that is left of `path`, or the path itself.
pub fn rel_or_abs(stripped: Option<String>, path: &str) -> (r: String)
    ensures
        r@ == (match text_option(stripped) {
            Some(rest) => rest,
            None => path@,
        }),
{
    match stripped {
        Some(rest) => rest,
        None => path.to_string(),
    }
}

/// `path` relative to `root`, or as it is where it does not lie below `root`.
pub fn to_rel_or_abs(root: &str, path: &str) -> (r: String)
    ensures
        is_shown_below(root@, path@, r@),
{
    rel_or_abs(strip_root(root, path), path)
}

// ---------------------------------------------------------------------------
// Percent decoding
// ---------------------------------------------------------------------------

/// The value of a hexadecimal digit.
pub open spec fn hex_value(b: u8) -> Option<u8> {
    if 48 <= b <= 57 {
        Some((b - 48) as u8)
    } else if 65 <= b <= 70 {
        Some((b - 55) as u8)
    } else if 97 <= b <= 102 {
        Some((b - 87) as u8)
    } else {
        None
    }
}

/// Whether `bytes` begins with a percent sign and two hexadecimal digits.
pub open spec fn begins_with_escape(bytes: Seq<u8>) -> bool {
    bytes.len() > 2 && bytes[0] == 37 && hex_value(bytes[1]) is Some && hex_value(bytes[2]) is Some
}

/// `bytes` with each escape turned into the character of its value, and each other byte into the
/// character of its own.
pub open spec fn percent_decoded(bytes: Seq<u8>) -> Seq<char>
    decreases bytes.len(),
{
    if bytes.len() == 0 {
        Seq::empty()
    } else if begins_with_escape(bytes) {
        seq![(hex_value(bytes[1])->0 * 16 + hex_value(bytes[2])->0) as u8 as char]
            + percent_decoded(bytes.skip(3))
    } else {
        seq![bytes[0] as char] + percent_decoded(bytes.skip(1))
    }
}

fn hex_digit(b: u8) -> (r: Option<u8>)
    ensures
        r == hex_value(b),
        r matches Some(v) ==> v < 16,
{
    if 48 <= b && b <= 57 {
        Some(b - 48)
    } else if 65 <= b && b <= 70 {
        Some(b - 55)
    } else if 97 <= b && b <= 102 {
        Some(b - 87)
    } else {
        None
    }
}

/// Decodes the escapes of `input`. Decoding is by bytes: each byte becomes one character.
pub fn percent_decode(input: &str) -> (r: String)
    ensures
        r@ == percent_decoded(vstd::utf8::encode_utf8(input@)),
{
    let bytes = input.as_bytes();
    let ghost all = vstd::utf8::encode_utf8(input@);
    let mut out = String::new();
    let mut i: usize = 0;
    assert(all.skip(0) =~= all);
    while i < bytes.len()
        invariant
            i <= bytes@.len(),
            all == bytes@,
            out@ + percent_decoded(all.skip(i as int)) == percent_decoded(all),
        decreases bytes@.len() - i,
    {
        let ghost rest = all.skip(i as int);
        let ghost done = out@;
        if bytes[i] == 37 && bytes.len() - i > 2 {
            if let (Some(h1), Some(h2)) = (hex_digit(bytes[i + 1]), hex_digit(bytes[i + 2])) {
                out.push((h1 * 16 + h2) as char);
                i += 3;
                proof {
                    assert(rest.skip(3) =~= all.skip(i as int));
                    assert(begins_with_escape(rest));
                    assert(out@ + percent_decoded(all.skip(i as int)) =~= done + percent_decoded(
                        rest,
                    ));
                }
                continue;
            }
        }
        out.push(bytes[i] as char);
        i += 1;
        proof {
            assert(!begins_with_escape(rest));
            assert(rest.skip(1) =~= all.skip(i as int));
            assert(out@ + percent_decoded(all.skip(i as int)) =~= done + percent_decoded(rest));
        }
    }
    assert(out@ =~= percent_decoded(all));
    out
}

// ---------------------------------------------------------------------------
// File URIs
// ---------------------------------------------------------------------------

/// The file URI of an absolute path, with slashes for backslashes.
pub open spec fn file_uri(path: Seq<char>) -> Seq<char> {
    let s = text::with_replaced(path, '\\', '/');
    if s.len() > 0 && s[0] == '/' {
        "file://"@ + s
    } else {
        "file://"@ + (seq!['/'] + s)
    }
}

/// The file URI of an absolute path.
pub fn path_to_file_uri(path: &str) -> (r: String)
    ensures
        r@ == file_uri(path@),
{
    let s = text::replace_char(path, '\\', '/');
    let mut out = "file://".to_string();
    let rooted = text::starts_with(s.as_str(), "/");
    proof {
        reveal_strlit("/");
        assert("/"@ =~= seq!['/']);
        if s@.len() > 0 && s@[0] == '/' {
            assert(s@.subrange(0, 1) =~= "/"@);
        }
        if rooted {
            assert(s@.subrange(0, 1)[0] == '/');
        }
        assert(rooted == (s@.len() > 0 && s@[0] == '/'));
    }
    if !rooted {
        out.append("/");
    }
    out.append(s.as_str());
    assert(out@ =~= file_uri(path@));
    out
}

/// A decoded path as Windows writes it: without the slash before a drive letter, and with
/// backslashes.
pub open spec fn windows_path(path: Seq<char>) -> Seq<char> {
    let drive = path.len() > 2 && path[0] == '/' && path[1] < '\u{80}' && path[2] == ':';
    text::with_replaced(
        if drive {
            path.skip(1)
        } else {
            path
        },
        '/',
        '\\',
    )
}

/// The part of a file URI that is the path, escapes and all.
pub open spec fn uri_path(uri: Seq<char>) -> Seq<char> {
    let s = text::trimmed(uri);
    if "file://"@.is_prefix_of(s) {
        s.skip("file://"@.len() as int)
    } else {
        s
    }
}

/// The path that a file URI names.
pub open spec fn uri_target(uri: Seq<char>, windows: bool) -> Seq<char> {
    let path = percent_decoded(vstd::utf8::encode_utf8(uri_path(uri)));
    if windows {
        windows_path(path)
    } else {
        path
    }
}

/// The path that a file URI names, as Windows or as any other platform writes it.
pub fn file_uri_to_path(uri: &str, windows: bool) -> (r: String)
    ensures
        r@ == uri_target(uri@, windows),
{
    let trimmed = text::trim(uri);
    let encoded = match text::strip_prefix(trimmed, "file://") {
        Some(rest) => rest,
        None => trimmed,
    };
    let decoded = percent_decode(encoded);
    if !windows {
        return decoded;
    }
    let chars = text::chars_of(decoded.as_str());
    if chars.len() > 2 && chars[0] == '/' && chars[1] < '\u{80}' && chars[2] == ':' {
        let rest = decoded.as_str().substring_char(1, chars.len());
        assert(rest@ =~= decoded@.skip(1));
        text::replace_char(rest, '/', '\\')
    } else {
        text::replace_char(decoded.as_str(), '/', '\\')
    }
}

} // verus!
