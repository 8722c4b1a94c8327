//! Finding desktop environments: where session files live, which files are
//! desktop entries, and what an entry says.

use vstd::prelude::*;
use vstd::string::StrSliceExecFns;
use crate::session::DesktopEnvironmentFile;
use crate::text::{ends_with, str_ends_with, string_from_chars};

verus! {

/// The value of `key` in section `section` of the desktop entry held in
/// `bytes`, or none if the bytes do not parse or hold no such key.
pub uninterp spec fn entry_value(bytes: Seq<u8>, section: Seq<char>, key: Seq<char>) -> Option<
    Seq<char>,
>;

/// Relies on `freedesktop_entry_parser::Entry::parse`, then
/// `Entry::section(..).attr(..)`: the value of `key` under `[section]`, none
/// when the bytes are no valid entry or the key is missing. The parse reads
/// nothing but the bytes.
#[verifier::external_body]
fn entry_attr(bytes: &Vec<u8>, section: &str, key: &str) -> (r: Option<String>)
    ensures
        match r {
            Some(v) => entry_value(bytes@, section@, key@) == Some(v@),
            None => entry_value(bytes@, section@, key@) is None,
        },
{
    let entry = freedesktop_entry_parser::Entry::parse(bytes.clone()).ok()?;
    entry.section(section).attr(key).map(String::from)
}

/// A desktop environment from the `Name` and `Exec` of its entry; none
/// when either is missing.
pub fn desktop_environment_from_fields(name: Option<String>, command: Option<String>) -> (r:
    Option<DesktopEnvironmentFile>)
    ensures
        r is Some <==> (name is Some && command is Some),
        r matches Some(de) ==> de.name_spec() == name->Some_0@ && de.command_spec()
            == command->Some_0@,
{
    match (name, command) {
        (Some(n), Some(c)) => Some(DesktopEnvironmentFile::new(n, c)),
        _ => None,
    }
}

/// The desktop environment that the entry file `bytes` describes, from the
/// `Name` and `Exec` keys of its `[Desktop Entry]` section; none when the
/// file does not parse or lacks either key.
pub fn desktop_environment_from_entry(bytes: &Vec<u8>) -> (r: Option<DesktopEnvironmentFile>)
    ensures
        ({
            let name = entry_value(bytes@, "Desktop Entry"@, "Name"@);
            let command = entry_value(bytes@, "Desktop Entry"@, "Exec"@);
            &&& r is Some <==> (name is Some && command is Some)
            &&& r matches Some(de) ==> de.name_spec() == name->Some_0 && de.command_spec()
                == command->Some_0
        }),
{
    let name = entry_attr(bytes, "Desktop Entry", "Name");
    let command = entry_attr(bytes, "Desktop Entry", "Exec");
    desktop_environment_from_fields(name, command)
}

/// A file name whose extension is `desktop`: it ends in `.desktop` after
/// at least one character, since a leading dot starts a hidden name and no
/// extension.
pub fn has_desktop_extension(file_name: &str) -> (r: bool)
    ensures
        r == (ends_with(file_name@, ".desktop"@) && file_name@.len() > 8),
{
    proof {
        reveal_strlit(".desktop");
    }
    str_ends_with(file_name, ".desktop") && file_name.unicode_len() > 8
}

/// `s` cut at every `sep`: the pieces between separators, empty ones
/// included, so that there is always one more piece than separators.
pub open spec fn split_spec(s: Seq<char>, sep: char) -> Seq<Seq<char>>
    decreases s.len(),
{
    if s.len() == 0 {
        seq![Seq::empty()]
    } else {
        let before = split_spec(s.drop_last(), sep);
        if s.last() == sep {
            before.push(Seq::empty())
        } else {
            before.update(before.len() - 1, before.last().push(s.last()))
        }
    }
}

proof fn lemma_split_nonempty(s: Seq<char>, sep: char)
    ensures
        split_spec(s, sep).len() >= 1,
    decreases s.len(),
{
    if s.len() > 0 {
        lemma_split_nonempty(s.drop_last(), sep);
    }
}

pub open spec fn views(v: Seq<String>) -> Seq<Seq<char>> {
    v.map_values(|x: String| x@)
}

/// Cuts `s` at every `sep`.
pub fn split(s: &str, sep: char) -> (r: Vec<String>)
    ensures
        views(r@) == split_spec(s@, sep),
{
    let n = s.unicode_len();
    let mut pieces: Vec<String> = Vec::new();
    let mut current: Vec<char> = Vec::new();
    let mut i: usize = 0;
    while i < n
        invariant
            n == s@.len(),
            i <= n,
            views(pieces@).push(current@) == split_spec(s@.subrange(0, i as int), sep),
        decreases n - i,
    {
        let c = s.get_char(i);
        proof {
            assert(s@.subrange(0, i + 1).drop_last() =~= s@.subrange(0, i as int));
            lemma_split_nonempty(s@.subrange(0, i as int), sep);
        }
        if c == sep {
            let piece = string_from_chars(&current);
            pieces.push(piece);
            current = Vec::new();
            proof {
                assert(views(pieces@).push(current@) =~= split_spec(s@.subrange(0, i + 1), sep));
            }
        } else {
            current.push(c);
            proof {
                assert(views(pieces@).push(current@) =~= split_spec(s@.subrange(0, i + 1), sep));
            }
        }
        i = i + 1;
    }
    let last = string_from_chars(&current);
    pieces.push(last);
    proof {
        assert(s@.subrange(0, n as int) =~= s@);
        assert(views(pieces@) =~= split_spec(s@, sep));
    }
    pieces
}

/// The directories to search for session files: those listed, separated
/// by `:`, in `configured` (the value of `XDG_SESSION_DIRS`), or the two
/// standard ones when it is not set.
pub fn session_dirs(configured: Option<&str>) -> (r: Vec<String>)
    ensures
        match configured {
            Some(list) => views(r@) == split_spec(list@, ':'),
            None => views(r@) == seq![
                "/usr/share/wayland-sessions"@,
                "/run/current-system/sw/share/wayland-sessions"@,
            ],
        },
{
    match configured {
        Some(list) => split(list, ':'),
        None => {
            let mut r: Vec<String> = Vec::new();
            r.push("/usr/share/wayland-sessions".to_owned());
            r.push("/run/current-system/sw/share/wayland-sessions".to_owned());
            proof {
                assert(views(r@) =~= seq![
                    "/usr/share/wayland-sessions"@,
                    "/run/current-system/sw/share/wayland-sessions"@,
                ]);
            }
            r
        },
    }
}

} // verus!
