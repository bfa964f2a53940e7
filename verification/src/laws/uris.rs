//! Laws of paths and file URIs.

use crate::laws::texts;
use crate::paths;
use crate::text;
use vstd::prelude::*;

verus! {

/// Whether an escape begins at any byte of `bytes`.
pub open spec fn has_escape(bytes: Seq<u8>) -> bool {
    exists|i: int| 0 <= i < bytes.len() && paths::begins_with_escape(#[trigger] bytes.skip(i))
}

proof fn lemma_decode_bytes(s: Seq<char>, bytes: Seq<u8>)
    requires
        vstd::utf8::is_ascii_chars(s),
        bytes.len() == s.len(),
        forall|i: int| 0 <= i < s.len() ==> s[i] as u8 == #[trigger] bytes[i],
        !has_escape(bytes),
    ensures
        paths::percent_decoded(bytes) == s,
    decreases s.len(),
{
    if s.len() == 0 {
        assert(paths::percent_decoded(bytes) =~= s);
    } else {
        assert(bytes.skip(0) =~= bytes);
        assert(!paths::begins_with_escape(bytes));
        let rest = bytes.skip(1);
        assert(!has_escape(rest)) by {
            if has_escape(rest) {
                let i = choose|i: int|
                    0 <= i < rest.len() && paths::begins_with_escape(#[trigger] rest.skip(i));
                assert(rest.skip(i) =~= bytes.skip(i + 1));
            }
        }
        assert forall|i: int| 0 <= i < s.skip(1).len() implies s.skip(1)[i] as u8
            == #[trigger] rest[i] by {
            assert(s[i + 1] as u8 == bytes[i + 1]);
        }
        lemma_decode_bytes(s.skip(1), rest);
        assert(bytes[0] == s[0] as u8);
        assert('\0' <= s[0] <= '\u{7f}');
        assert(bytes[0] as char == s[0]);
        assert(seq![s[0]] + s.skip(1) =~= s);
    }
}

/// An ASCII text without escapes decodes to itself.
pub proof fn law_text_without_escapes_decodes_to_itself(s: Seq<char>)
    requires
        vstd::utf8::is_ascii_chars(s),
        !has_escape(vstd::utf8::encode_utf8(s)),
    ensures
        paths::percent_decoded(vstd::utf8::encode_utf8(s)) == s,
{
    vstd::utf8::is_ascii_chars_encode_utf8(s);
    lemma_decode_bytes(s, vstd::utf8::encode_utf8(s));
}

/// The hexadecimal digit of `d`.
pub open spec fn hex_digit_of(d: u8) -> u8 {
    if d < 10 {
        (48 + d) as u8
    } else {
        (55 + d) as u8
    }
}

/// An escape decodes to the character of its value, whatever follows it.
pub proof fn law_escape_decodes_to_its_value(value: u8, rest: Seq<u8>)
    ensures
        paths::percent_decoded(
            seq![37u8, hex_digit_of(value / 16), hex_digit_of(value % 16)] + rest,
        ) == seq![value as char] + paths::percent_decoded(rest),
{
    let bytes = seq![37u8, hex_digit_of(value / 16), hex_digit_of(value % 16)] + rest;
    assert(bytes.skip(3) =~= rest);
    assert(paths::hex_value(bytes[1]) == Some((value / 16) as u8));
    assert(paths::hex_value(bytes[2]) == Some((value % 16) as u8));
    assert(value / 16 * 16 + value % 16 == value);
}

proof fn lemma_ends_kept(s: Seq<char>)
    requires
        s.len() > 0,
        !text::is_space(s[0]),
        !text::is_space(s.last()),
    ensures
        text::trimmed(s) == s,
{
}

/// Whether `path` can be written as a file URI and read back: its characters are ASCII, none of
/// them begins an escape, and it does not end in white space.
pub open spec fn survives_as_uri(path: Seq<char>) -> bool {
    &&& path.len() > 0
    &&& vstd::utf8::is_ascii_chars(path)
    &&& !has_escape(vstd::utf8::encode_utf8(path))
    &&& !text::is_space(path.last())
}

/// The path that a file URI names is the one that it was made from, for an absolute path with
/// slashes.
pub proof fn law_file_uri_reads_back(path: Seq<char>)
    requires
        survives_as_uri(path),
        path[0] == '/',
        !path.contains('\\'),
    ensures
        paths::uri_target(paths::file_uri(path), false) == path,
{
    reveal_strlit("file://");
    let s = text::with_replaced(path, '\\', '/');
    assert(s =~= path) by {
        assert forall|i: int| 0 <= i < path.len() implies s[i] == path[i] by {
            assert(path.contains(path[i]));
        }
    }
    let uri = paths::file_uri(path);
    assert(uri[0] == 'f');
    assert(uri.last() == path.last());
    lemma_ends_kept(uri);
    assert(uri.subrange(0, "file://"@.len() as int) =~= "file://"@);
    assert("file://"@.is_prefix_of(uri));
    assert(uri.skip("file://"@.len() as int) =~= path);
    law_text_without_escapes_decodes_to_itself(path);
}

/// Whether `path` is an absolute Windows path with a drive letter and backslashes.
pub open spec fn is_drive_path(path: Seq<char>) -> bool {
    &&& path.len() > 1
    &&& path[0] != '/'
    &&& path[0] != '\\'
    &&& path[1] == ':'
    &&& !path.contains('/')
}

proof fn lemma_slashes_survive(path: Seq<char>)
    requires
        survives_as_uri(path),
    ensures
        survives_as_uri(text::with_replaced(path, '\\', '/')),
        survives_as_uri(seq!['/'] + text::with_replaced(path, '\\', '/')),
{
    let s = text::with_replaced(path, '\\', '/');
    let rooted = seq!['/'] + s;
    assert(vstd::utf8::is_ascii_chars(s)) by {
        assert forall|i: int| 0 <= i < s.len() implies '\0' <= #[trigger] s[i] <= '\u{7f}' by {
            assert('\0' <= path[i] <= '\u{7f}');
        }
    }
    assert(vstd::utf8::is_ascii_chars(rooted)) by {
        assert forall|i: int| 0 <= i < rooted.len() implies '\0' <= #[trigger] rooted[i]
            <= '\u{7f}' by {
            if i > 0 {
                assert('\0' <= s[i - 1] <= '\u{7f}');
            }
        }
    }
    lemma_no_new_escape(path, s, 0);
    lemma_no_new_escape(path, rooted, 1);
}

/// Slashes in place of backslashes, or in front, begin no escape.
proof fn lemma_no_new_escape(path: Seq<char>, changed: Seq<char>, shift: int)
    requires
        0 <= shift,
        vstd::utf8::is_ascii_chars(path),
        vstd::utf8::is_ascii_chars(changed),
        changed.len() == path.len() + shift,
        forall|i: int| 0 <= i < shift ==> #[trigger] changed[i] == '/',
        forall|i: int|
            shift <= i < changed.len() ==> #[trigger] changed[i] == '/' || changed[i] == path[i
                - shift],
        !has_escape(vstd::utf8::encode_utf8(path)),
    ensures
        !has_escape(vstd::utf8::encode_utf8(changed)),
{
    vstd::utf8::is_ascii_chars_encode_utf8(path);
    vstd::utf8::is_ascii_chars_encode_utf8(changed);
    let p = vstd::utf8::encode_utf8(path);
    let c = vstd::utf8::encode_utf8(changed);
    if has_escape(c) {
        let i = choose|i: int| 0 <= i < c.len() && paths::begins_with_escape(#[trigger] c.skip(i));
        assert(c.skip(i)[0] == c[i] && c.skip(i)[1] == c[i + 1] && c.skip(i)[2] == c[i + 2]);
        assert(changed[i] as u8 == c[i]);
        assert(changed[i + 1] as u8 == c[i + 1]);
        assert(changed[i + 2] as u8 == c[i + 2]);
        let k = i - shift;
        assert(k >= 0);
        assert(path[k] as u8 == p[k] && path[k + 1] as u8 == p[k + 1] && path[k + 2] as u8 == p[k
            + 2]);
        assert(p.skip(k)[0] == p[k] && p.skip(k)[1] == p[k + 1] && p.skip(k)[2] == p[k + 2]);
        assert(paths::begins_with_escape(p.skip(k)));
    }
}

/// Whether `path` is a Windows path that begins with a backslash, as those of shares and those in
/// verbatim form do, and has no drive letter right behind it.
pub open spec fn is_rooted_path(path: Seq<char>) -> bool {
    &&& path.len() > 0
    &&& path[0] == '\\'
    &&& !(path.len() > 2 && path[2] == ':')
    &&& !path.contains('/')
}

proof fn lemma_backslashes_come_back(path: Seq<char>)
    requires
        !path.contains('/'),
    ensures
        text::with_replaced(text::with_replaced(path, '\\', '/'), '/', '\\') == path,
{
    let there = text::with_replaced(path, '\\', '/');
    let back = text::with_replaced(there, '/', '\\');
    assert forall|i: int| 0 <= i < path.len() implies back[i] == path[i] by {
        assert(path.contains(path[i]));
    }
    assert(back =~= path);
}

/// The path that a file URI names is the one that it was made from, for a Windows path with
/// backslashes that begins with a drive letter or with a backslash.
pub proof fn law_windows_file_uri_reads_back(path: Seq<char>)
    requires
        survives_as_uri(path),
        is_drive_path(path) || is_rooted_path(path),
    ensures
        paths::uri_target(paths::file_uri(path), true) == path,
{
    reveal_strlit("file://");
    let s = text::with_replaced(path, '\\', '/');
    let rooted = if is_drive_path(path) {
        seq!['/'] + s
    } else {
        s
    };
    lemma_slashes_survive(path);
    lemma_backslashes_come_back(path);
    let uri = paths::file_uri(path);
    assert(uri == "file://"@ + rooted);
    assert(uri[0] == 'f');
    assert(uri.last() == rooted.last());
    lemma_ends_kept(uri);
    assert(uri.subrange(0, "file://"@.len() as int) =~= "file://"@);
    assert("file://"@.is_prefix_of(uri));
    assert(uri.skip("file://"@.len() as int) =~= rooted);
    law_text_without_escapes_decodes_to_itself(rooted);
    if is_drive_path(path) {
        assert(rooted[1] == path[0] && rooted[2] == ':');
        assert('\0' <= path[0] <= '\u{7f}');
        assert(rooted.skip(1) =~= s);
    } else {
        assert(path.len() > 2 ==> s[2] == (if path[2] == '\\' {
            '/'
        } else {
            path[2]
        }));
    }
}

/// The path of an entry below `root` with the given name or names.
pub open spec fn joined(root: Seq<char>, rest: Seq<char>) -> Seq<char> {
    if root.last() == '/' {
        root + rest
    } else {
        root + seq!['/'] + rest
    }
}

/// What a walk of `root` finds is shown by the names that it has below `root`, whatever form the
/// root is given in.
pub proof fn law_walked_path_is_shown_below_its_root(root: Seq<char>, rest: Seq<char>)
    requires
        root.len() > 0,
        paths::is_portable(root),
        paths::is_plain_names(rest, '/'),
    ensures
        paths::is_settled(root, joined(root, rest)),
        paths::relative_or_whole(root, joined(root, rest)) == rest,
{
    let path = joined(root, rest);
    let bare = if root.last() == '/' {
        root.drop_last()
    } else {
        root
    };
    assert(path =~= bare + seq!['/'] + rest);
    law_relative_path_joins_back(bare, path, rest);
}

/// A path below a root is what follows the root, and the two together are the path again.
pub proof fn law_relative_path_joins_back(root: Seq<char>, path: Seq<char>, rest: Seq<char>)
    ensures
        paths::below(root, root + seq!['/'] + rest) == Some(rest),
        paths::below(root, path) matches Some(r) ==> path == root || path == root + seq!['/'] + r,
{
    let joined = root + seq!['/'] + rest;
    let n = root.len() as int;
    assert(joined.len() > n);
    assert(joined.take(n) =~= root);
    assert(joined.skip(n + 1) =~= rest);
    if let Some(r) = paths::below(root, path) {
        if path != root {
            assert(path =~= path.take(n) + seq!['/'] + path.skip(n + 1));
        }
    }
}

// ---------------------------------------------------------------------------
// Decoding and URIs, character by character
// ---------------------------------------------------------------------------

/// The value of `b` as a hexadecimal digit of either case, if it is one.
pub open spec fn is_hex(b: u8, value: int) -> bool {
    ||| 48 <= b <= 57 && value == b - 48
    ||| 65 <= b <= 70 && value == b - 65 + 10
    ||| 97 <= b <= 102 && value == b - 97 + 10
}

/// Whether `b` is no hexadecimal digit.
pub open spec fn is_no_hex(b: u8) -> bool {
    !(48 <= b <= 57) && !(65 <= b <= 70) && !(97 <= b <= 102)
}

/// Decoding goes from left to right. A percent sign and two hexadecimal digits, of either case,
/// become the character of their value. Every other byte becomes the character of its own value,
/// and so does a percent sign that two such digits do not follow.
pub proof fn law_decoding(bytes: Seq<u8>, high: int, low: int)
    ensures
        paths::percent_decoded(Seq::empty()) == Seq::<char>::empty(),
        bytes.len() > 2 && bytes[0] == 37 && is_hex(bytes[1], high) && is_hex(bytes[2], low)
            ==> paths::percent_decoded(bytes) == seq![(high * 16 + low) as u8 as char]
            + paths::percent_decoded(bytes.skip(3)),
        bytes.len() > 0 && (bytes[0] != 37 || bytes.len() < 3 || is_no_hex(bytes[1]) || is_no_hex(
            bytes[2],
        )) ==> paths::percent_decoded(bytes) == seq![bytes[0] as char] + paths::percent_decoded(
            bytes.skip(1),
        ),
{
}

/// The file URI of a path is the scheme, a slash, and the path, with a slash for each backslash. A
/// path that begins with either keeps the one that it has.
pub proof fn law_file_uri_is_the_path_with_slashes(path: Seq<char>)
    ensures
        ({
            let uri = paths::file_uri(path);
            let n: int = if path.len() > 0 && (path[0] == '/' || path[0] == '\\') {
                7
            } else {
                8
            };
            &&& uri.len() == n + path.len()
            &&& uri.take(7) == "file://"@
            &&& uri[7] == '/'
            &&& forall|i: int|
                0 <= i < path.len() ==> uri[n + i] == (if #[trigger] path[i] == '\\' {
                    '/'
                } else {
                    path[i]
                })
        }),
{
    reveal_strlit("file://");
    let uri = paths::file_uri(path);
    let s = text::with_replaced(path, '\\', '/');
    assert(uri.take(7) =~= "file://"@);
    if path.len() > 0 {
        texts::law_with_replaced(path, '\\', '/', 0);
    }
    assert forall|i: int| 0 <= i < path.len() implies s[i] == (if #[trigger] path[i] == '\\' {
        '/'
    } else {
        path[i]
    }) by {
        texts::law_with_replaced(path, '\\', '/', i);
    }
}

/// The path that a URI names is what follows the scheme of files, decoded; a URI of no file is
/// decoded whole. White space around it makes no difference. On Windows the slash before a drive
/// letter goes, and each slash becomes a backslash.
pub proof fn law_uri_names_the_path_behind_the_scheme(
    front: Seq<char>,
    path: Seq<char>,
    back: Seq<char>,
    other: Seq<char>,
)
    requires
        texts::all_space(front),
        texts::all_space(back),
        path.len() > 0 ==> !text::is_space(path.last()),
        other.len() > 0 ==> !text::is_space(other[0]) && !text::is_space(other.last()),
        !"file://"@.is_prefix_of(other),
    ensures
        paths::uri_target(front + ("file://"@ + path) + back, false) == paths::percent_decoded(
            vstd::utf8::encode_utf8(path),
        ),
        paths::uri_target(front + other + back, false) == paths::percent_decoded(
            vstd::utf8::encode_utf8(other),
        ),
{
    reveal_strlit("file://");
    let uri = "file://"@ + path;
    assert(uri[0] == 'f' && uri[6] == '/');
    assert(uri.last() == (if path.len() > 0 {
        path.last()
    } else {
        '/'
    }));
    texts::law_trimming(front, uri, back);
    assert("file://"@.is_prefix_of(uri)) by {
        assert(uri.subrange(0, 7) =~= "file://"@);
    }
    assert(uri.skip(7) =~= path);
    texts::law_trimming(front, other, back);
}

/// On Windows the path that a URI names is the one that it names elsewhere, with a backslash for
/// each slash, and without the slash that stands before a letter and a colon.
pub proof fn law_windows_target(uri: Seq<char>, i: int)
    ensures
        ({
            let plain = paths::uri_target(uri, false);
            let shown = paths::uri_target(uri, true);
            let n: int = if plain.len() > 2 && plain[0] == '/' && (plain[1] as int) < 128
                && plain[2] == ':' {
                1
            } else {
                0
            };
            &&& shown.len() == plain.len() - n
            &&& 0 <= i < shown.len() ==> shown[i] == (if plain[n + i] == '/' {
                '\\'
            } else {
                plain[n + i]
            })
        }),
{
}

// ---------------------------------------------------------------------------
// Shown paths
// ---------------------------------------------------------------------------

/// Whether `name` is a name that every platform reads as one: it has no separator, and is not the
/// dot of the current directory.
pub open spec fn is_name(name: Seq<char>) -> bool {
    &&& name.len() > 0
    &&& name != seq!['.']
    &&& forall|i: int| 0 <= i < name.len() ==> #[trigger] name[i] != '/' && name[i] != '\\'
}

/// Names with a slash between each two.
pub open spec fn slashed(names: Seq<Seq<char>>) -> Seq<char>
    decreases names.len(),
{
    if names.len() == 0 {
        Seq::empty()
    } else if names.len() == 1 {
        names[0]
    } else {
        names[0] + seq!['/'] + slashed(names.skip(1))
    }
}

proof fn lemma_slashed_names_are_plain(names: Seq<Seq<char>>)
    requires
        names.len() > 0,
        forall|i: int| 0 <= i < names.len() ==> is_name(#[trigger] names[i]),
    ensures
        paths::is_plain_names(slashed(names), '/'),
        slashed(names).len() > 0,
    decreases names.len(),
{
    let name = names[0];
    assert(is_name(name));
    assert(!name.contains('/'));
    if names.len() == 1 {
        texts::law_before(name, '/', Seq::empty());
    } else {
        let rest = names.skip(1);
        assert forall|i: int| 0 <= i < rest.len() implies is_name(#[trigger] rest[i]) by {
            assert(is_name(names[i + 1]));
        }
        lemma_slashed_names_are_plain(rest);
        texts::law_before(name, '/', slashed(rest));
        assert(slashed(names).skip(name.len() as int + 1) =~= slashed(rest));
    }
}

/// What a walk of a root finds is shown by the names that it has below the root: without the root,
/// and without a slash before them. The root may be in any form that every platform reads alike.
pub proof fn law_found_path_is_shown_by_its_names(
    root: Seq<char>,
    names: Seq<Seq<char>>,
    shown: Seq<char>,
)
    requires
        root.len() > 0,
        forall|i: int| 0 <= i < root.len() ==> #[trigger] root[i] != '\\',
        !(root.len() > 1 && root[1] == ':'),
        !(root.len() > 1 && root[0] == '/' && root[1] == '/'),
        names.len() > 0,
        forall|i: int| 0 <= i < names.len() ==> is_name(#[trigger] names[i]),
        paths::is_shown_below(root, joined(root, slashed(names)), shown),
    ensures
        shown == slashed(names),
{
    lemma_slashed_names_are_plain(names);
    law_walked_path_is_shown_below_its_root(root, slashed(names));
}

/// A path elsewhere is shown as it is: one that is neither the root nor begins with the root and a
/// slash, where both are names below the top.
pub proof fn law_path_elsewhere_is_shown_whole(
    root: Seq<Seq<char>>,
    path: Seq<Seq<char>>,
    shown: Seq<char>,
)
    requires
        root.len() > 0,
        path.len() > 0,
        forall|i: int| 0 <= i < root.len() ==> is_name(#[trigger] root[i]),
        forall|i: int| 0 <= i < path.len() ==> is_name(#[trigger] path[i]),
        root[0][0] != ':',
        path[0][0] != ':',
        slashed(root) != slashed(path),
        !(slashed(root) + seq!['/']).is_prefix_of(slashed(path)),
        paths::is_shown_below(seq!['/'] + slashed(root), seq!['/'] + slashed(path), shown),
    ensures
        shown == seq!['/'] + slashed(path),
{
    lemma_slashed_names_are_plain(root);
    lemma_slashed_names_are_plain(path);
    lemma_first_of_slashed(root);
    lemma_first_of_slashed(path);
    let r = seq!['/'] + slashed(root);
    let p = seq!['/'] + slashed(path);
    assert(r.skip(1) =~= slashed(root));
    assert(p.skip(1) =~= slashed(path));
    assert(paths::is_plain_path(r) && paths::is_plain_path(p));
    lemma_last_of_slashed(root);
    assert(r.last() == slashed(root).last());
    if let Some(rest) = paths::below(r, p) {
        law_relative_path_joins_back(r, p, rest);
        if p == r {
            assert(false);
        } else {
            assert(p =~= r + seq!['/'] + rest);
            let n = slashed(root).len() as int;
            assert(slashed(path).subrange(0, n + 1) =~= slashed(root) + seq!['/']) by {
                assert forall|i: int| 0 <= i < n + 1 implies slashed(path)[i] == (slashed(root)
                    + seq!['/'])[i] by {
                    assert(slashed(path)[i] == p[i + 1]);
                }
            }
        }
    }
}

proof fn lemma_first_of_slashed(names: Seq<Seq<char>>)
    requires
        names.len() > 0,
        forall|i: int| 0 <= i < names.len() ==> is_name(#[trigger] names[i]),
    ensures
        slashed(names).len() > 0,
        slashed(names)[0] == names[0][0],
{
    assert(is_name(names[0]));
}

proof fn lemma_last_of_slashed(names: Seq<Seq<char>>)
    requires
        names.len() > 0,
        forall|i: int| 0 <= i < names.len() ==> is_name(#[trigger] names[i]),
    ensures
        slashed(names).len() > 0,
        slashed(names).last() != '/',
    decreases names.len(),
{
    assert(is_name(names[0]));
    if names.len() == 1 {
        assert(names[0][names[0].len() - 1] != '/');
    } else {
        let rest = names.skip(1);
        assert forall|i: int| 0 <= i < rest.len() implies is_name(#[trigger] rest[i]) by {
            assert(is_name(names[i + 1]));
        }
        lemma_last_of_slashed(rest);
        assert(slashed(names).last() == slashed(rest).last());
    }
}

/// The root of a walk is shown as nothing, where it is names below the top.
pub proof fn law_root_is_shown_as_nothing(root: Seq<Seq<char>>, shown: Seq<char>)
    requires
        root.len() > 0,
        forall|i: int| 0 <= i < root.len() ==> is_name(#[trigger] root[i]),
        root[0][0] != ':',
        paths::is_shown_below(seq!['/'] + slashed(root), seq!['/'] + slashed(root), shown),
    ensures
        shown.len() == 0,
{
    lemma_slashed_names_are_plain(root);
    lemma_first_of_slashed(root);
    lemma_last_of_slashed(root);
    let r = seq!['/'] + slashed(root);
    assert(r.skip(1) =~= slashed(root));
    assert(paths::is_plain_path(r));
    assert(r.last() == slashed(root).last());
}

proof fn lemma_names_of_joined(s: Seq<char>, name: Seq<char>)
    requires
        is_name(name),
    ensures
        paths::names_in(s + seq!['/'] + name) == paths::names_in(s).push(name),
    decreases s.len(),
{
    let all = s + seq!['/'] + name;
    let first = text::before(s, '/');
    let n = first.len() as int;
    texts::law_before_is_a_beginning(s, '/');
    assert(!name.contains('/'));
    if n < s.len() {
        let rest = s.skip(n + 1);
        let tail = rest + seq!['/'] + name;
        assert(all =~= first + seq!['/'] + tail);
        texts::law_before(first, '/', tail);
        assert(all.skip(n + 1) =~= tail);
        lemma_names_of_joined(rest, name);
        assert(paths::names_in(all) =~= paths::names_in(s).push(name));
    } else {
        assert(first =~= s);
        texts::law_before(s, '/', name);
        assert(all.skip(n + 1) =~= name);
        texts::law_before(name, '/', Seq::empty());
        assert(paths::names_in(name) =~= seq![name]);
        assert(paths::names_in(all) =~= paths::names_in(s).push(name));
    }
}

/// A name below a path is one more component of it. The top and the current directory are a
/// component each, and nothing has none.
pub proof fn law_components(root: Seq<char>, name: Seq<char>)
    requires
        is_name(name),
    ensures
        root.len() > 0 ==> paths::components(root + seq!['/'] + name) == paths::components(
            root,
        ).push(name),
        paths::components(name) == seq![name],
        paths::components(seq!['/']) == seq![seq!['/']],
        paths::components(seq!['.']) == seq![seq!['.']],
        paths::components(Seq::empty()) == Seq::<Seq<char>>::empty(),
{
    let all = root + seq!['/'] + name;
    let none = Seq::<char>::empty();
    assert(!name.contains('/'));
    lemma_names_of_joined(root, name);
    texts::law_before_is_a_beginning(root, '/');
    if root.len() > 0 {
        assert(all[0] == root[0]);
        let first = text::before(root, '/');
        let n = first.len() as int;
        if n < root.len() {
            let rest = root.skip(n + 1) + seq!['/'] + name;
            assert(all =~= first + seq!['/'] + rest);
            texts::law_before(first, '/', rest);
        } else {
            assert(first =~= root);
            texts::law_before(root, '/', name);
        }
        assert(paths::components(all) =~= paths::components(root).push(name));
    }
    texts::law_before(name, '/', none);
    assert(paths::names_in(name) =~= seq![name]);
    assert(name[0] != '/');
    let top = seq!['/'];
    texts::law_before(none, '/', none);
    assert(none + top + none =~= top);
    assert(top.skip(1) =~= none);
    assert(paths::names_in(none) =~= Seq::empty());
    assert(paths::names_in(top) =~= Seq::empty());
    assert(paths::components(top) =~= seq![top]);
    let dot = seq!['.'];
    assert(!dot.contains('/'));
    texts::law_before(dot, '/', none);
    assert(paths::names_in(dot) =~= Seq::empty());
    assert(paths::components(dot) =~= seq![dot]);
}

/// Of paths that every platform reads alike, one that begins with the components of the root is
/// shown by those that follow, and any other is shown as it is.
pub proof fn law_shown_path_has_what_follows_the_root(
    root: Seq<char>,
    path: Seq<char>,
    shown: Seq<char>,
)
    requires
        forall|i: int| 0 <= i < root.len() ==> #[trigger] root[i] != '\\',
        forall|i: int| 0 <= i < path.len() ==> #[trigger] path[i] != '\\',
        !(root.len() > 1 && (root[1] == ':' || root[0] == '/' && root[1] == '/')),
        !(path.len() > 1 && (path[1] == ':' || path[0] == '/' && path[1] == '/')),
        paths::is_shown_below(root, path, shown),
    ensures
        paths::components(root) + paths::components(shown) == paths::components(path) || shown
            == path && !paths::components(root).is_prefix_of(paths::components(path)),
{
    let r = paths::components(root);
    let p = paths::components(path);
    if r.is_prefix_of(p) {
        assert(p =~= r + p.skip(r.len() as int)) by {
            assert(p.subrange(0, r.len() as int) == r);
        }
    }
}

} // verus!
