//! Deciding from a file's name whether it is a media file worth copying.

use vstd::prelude::*;
use vstd::std_specs::iter::IteratorSpec;

verus! {

/// The verdict on one file.
#[derive(PartialEq, Eq, Structural, Clone, Copy, Debug)]
pub enum Verdict {
    Accept,
    Reject,
}

/// ASCII lower-casing of one character; every other character is kept.
pub open spec fn lower(c: char) -> char {
    if 'A' <= c && c <= 'Z' {
        (((c as u32) + 32) as u8) as char
    } else {
        c
    }
}

/// Equality of two texts up to ASCII case.
pub open spec fn same_ignoring_case(a: Seq<char>, b: Seq<char>) -> bool {
    &&& a.len() == b.len()
    &&& forall|i: int| 0 <= i < a.len() ==> #[trigger] lower(a[i]) == lower(b[i])
}

/// Names of system artifacts that are never copied.
pub open spec fn ignored_names() -> Seq<Seq<char>> {
    seq!["Thumbs.db"@, ".DS_Store"@]
}

/// Extensions of the image, video and audio formats that are copied.
pub open spec fn allowed_extensions() -> Seq<Seq<char>> {
    seq![
        "jpg"@, "mp4"@, "png"@, "gif"@, "bmp"@, "tiff"@, "tif"@,
        "webp"@, "svg"@, "ico"@, "mp3"@, "wav"@, "aac"@, "ogg"@,
        "flac"@, "m4a"@, "mov"@, "avi"@, "wmv"@, "mkv"@, "webm"@,
    ]
}

pub open spec fn matches_any(s: Seq<char>, list: Seq<Seq<char>>) -> bool {
    exists|i: int| 0 <= i < list.len() && same_ignoring_case(s, #[trigger] list[i])
}

pub open spec fn is_ignored_name(name: Seq<char>) -> bool {
    matches_any(name, ignored_names())
}

pub open spec fn is_allowed_extension(ext: Seq<char>) -> bool {
    matches_any(ext, allowed_extensions())
}

/// The verdict on a file with the given name and extension.
pub open spec fn verdict_of(name: Seq<char>, ext: Option<Seq<char>>) -> Verdict {
    if is_ignored_name(name) {
        Verdict::Reject
    } else {
        match ext {
            None => Verdict::Reject,
            Some(e) => if is_allowed_extension(e) {
                Verdict::Accept
            } else {
                Verdict::Reject
            },
        }
    }
}

/// Index of the last `'.'` in `s`, or -1 where there is none.
pub open spec fn last_dot(s: Seq<char>) -> int
    decreases s.len(),
{
    if s.len() == 0 {
        -1
    } else if s.last() == '.' {
        s.len() - 1
    } else {
        last_dot(s.drop_last())
    }
}

/// The extension of a file name: what follows its last `'.'`, where that
/// dot is not the name's first character.
pub open spec fn extension_spec(name: Seq<char>) -> Option<Seq<char>> {
    if last_dot(name) > 0 {
        Some(name.skip(last_dot(name) + 1))
    } else {
        None
    }
}

/// Whether a file whose final path component is `name` (absent where the
/// path has none or it is not valid text) is left out.
pub open spec fn skipped(name: Option<Seq<char>>) -> bool {
    match name {
        None => true,
        Some(n) => verdict_of(n, extension_spec(n)) == Verdict::Reject,
    }
}

pub open spec fn opt_view(s: Option<&str>) -> Option<Seq<char>> {
    match s {
        Some(t) => Some(t@),
        None => None,
    }
}

/// A name of a system artifact is rejected whatever its extension; a name
/// without an extension, or with one outside the media formats, is
/// rejected; any other name with a media extension is accepted.
pub proof fn lemma_classifier(name: Seq<char>, ext: Option<Seq<char>>)
    ensures
        is_ignored_name(name) ==> verdict_of(name, ext) == Verdict::Reject,
        ext is None ==> verdict_of(name, ext) == Verdict::Reject,
        ext is Some && !is_allowed_extension(ext->0) ==> verdict_of(name, ext) == Verdict::Reject,
        !is_ignored_name(name) && ext is Some && is_allowed_extension(ext->0) ==> verdict_of(
            name,
            ext,
        ) == Verdict::Accept,
{
}

proof fn lemma_last_dot_bounds(s: Seq<char>)
    ensures
        -1 <= last_dot(s) < s.len(),
        last_dot(s) >= 0 ==> s[last_dot(s)] == '.',
        forall|j: int| last_dot(s) < j < s.len() ==> s[j] != '.',
    decreases s.len(),
{
    if s.len() > 0 && s.last() != '.' {
        lemma_last_dot_bounds(s.drop_last());
        assert forall|j: int| last_dot(s) < j < s.len() implies s[j] != '.' by {
            if j < s.len() - 1 {
                assert(s.drop_last()[j] == s[j]);
            }
        }
    }
}

fn chars_of(s: &str) -> (r: Vec<char>)
    ensures
        r@ == s@,
{
    let mut it = s.chars();
    let mut out: Vec<char> = Vec::new();
    loop
        invariant
            out@ + it.remaining() == s@,
            it.decrease() is Some,
        ensures
            out@ == s@,
        decreases it.decrease()->0,
    {
        match it.next() {
            Some(c) => {
                out.push(c);
            },
            None => {
                break;
            },
        }
    }
    out
}

fn lower_char(c: char) -> (r: char)
    ensures
        r == lower(c),
{
    if 'A' <= c && c <= 'Z' {
        (((c as u32) + 32) as u8) as char
    } else {
        c
    }
}

fn same_ignoring_case_exec(a: &Vec<char>, b: &str) -> (r: bool)
    ensures
        r == same_ignoring_case(a@, b@),
{
    let bc = chars_of(b);
    if a.len() != bc.len() {
        return false;
    }
    let mut i: usize = 0;
    while i < a.len()
        invariant
            a@.len() == bc@.len(),
            bc@ == b@,
            i <= a@.len(),
            forall|j: int| 0 <= j < i ==> #[trigger] lower(a@[j]) == lower(bc@[j]),
        decreases a@.len() - i,
    {
        if lower_char(a[i]) != lower_char(bc[i]) {
            assert(lower(a@[i as int]) != lower(b@[i as int]));
            return false;
        }
        i = i + 1;
    }
    true
}

fn is_ignored_name_exec(name: &Vec<char>) -> (r: bool)
    ensures
        r == is_ignored_name(name@),
{
    let r = same_ignoring_case_exec(name, "Thumbs.db") || same_ignoring_case_exec(
        name,
        ".DS_Store",
    );
    proof {
        let l = ignored_names();
        if !r {
            assert forall|i: int| 0 <= i < l.len() implies !same_ignoring_case(name@, #[trigger] l[i]) by {
            }
        }
    }
    r
}

fn is_allowed_extension_exec(ext: &Vec<char>) -> (r: bool)
    ensures
        r == is_allowed_extension(ext@),
{
    let r = same_ignoring_case_exec(ext, "jpg") || same_ignoring_case_exec(ext, "mp4")
        || same_ignoring_case_exec(ext, "png") || same_ignoring_case_exec(ext, "gif")
        || same_ignoring_case_exec(ext, "bmp") || same_ignoring_case_exec(ext, "tiff")
        || same_ignoring_case_exec(ext, "tif") || same_ignoring_case_exec(ext, "webp")
        || same_ignoring_case_exec(ext, "svg") || same_ignoring_case_exec(ext, "ico")
        || same_ignoring_case_exec(ext, "mp3") || same_ignoring_case_exec(ext, "wav")
        || same_ignoring_case_exec(ext, "aac") || same_ignoring_case_exec(ext, "ogg")
        || same_ignoring_case_exec(ext, "flac") || same_ignoring_case_exec(ext, "m4a")
        || same_ignoring_case_exec(ext, "mov") || same_ignoring_case_exec(ext, "avi")
        || same_ignoring_case_exec(ext, "wmv") || same_ignoring_case_exec(ext, "mkv")
        || same_ignoring_case_exec(ext, "webm");
    proof {
        let l = allowed_extensions();
        if !r {
            assert forall|i: int| 0 <= i < l.len() implies !same_ignoring_case(ext@, #[trigger] l[i]) by {
            }
        }
    }
    r
}

fn verdict_exec(name: &Vec<char>, ext: Option<&Vec<char>>) -> (r: Verdict)
    ensures
        r == verdict_of(name@, match ext { Some(e) => Some(e@), None => None }),
{
    if is_ignored_name_exec(name) {
        return Verdict::Reject;
    }
    match ext {
        None => Verdict::Reject,
        Some(e) => if is_allowed_extension_exec(e) {
            Verdict::Accept
        } else {
            Verdict::Reject
        },
    }
}

/// Classifies a file by its name and extension: names of system artifacts
/// are rejected whatever their extension, then a file is accepted exactly
/// when it has an extension of a media format. Names and extensions are
/// compared without regard to ASCII case.
pub fn classify(file_name: &str, extension: Option<&str>) -> (r: Verdict)
    ensures
        r == verdict_of(file_name@, opt_view(extension)),
{
    let name = chars_of(file_name);
    match extension {
        None => verdict_exec(&name, None),
        Some(e) => {
            let ext = chars_of(e);
            verdict_exec(&name, Some(&ext))
        },
    }
}

fn last_dot_exec(s: &Vec<char>) -> (r: usize)
    ensures
        r as int == last_dot(s@) + 1,
{
    let mut i: usize = s.len();
    assert(s@.subrange(0, i as int) =~= s@);
    while i > 0
        invariant
            i <= s@.len(),
            last_dot(s@) == last_dot(s@.subrange(0, i as int)),
        decreases i,
    {
        assert(s@.subrange(0, i - 1) =~= s@.subrange(0, i as int).drop_last());
        if s[i - 1] == '.' {
            return i;
        }
        i = i - 1;
    }
    i
}

fn extension_chars(name: &Vec<char>) -> (r: Option<Vec<char>>)
    ensures
        match r {
            Some(e) => extension_spec(name@) == Some(e@),
            None => extension_spec(name@) is None,
        },
{
    let k = last_dot_exec(name);
    if k <= 1 {
        return None;
    }
    proof {
        lemma_last_dot_bounds(name@);
    }
    let mut out: Vec<char> = Vec::new();
    let mut i: usize = k;
    while i < name.len()
        invariant
            k <= i <= name@.len(),
            out@ == name@.subrange(k as int, i as int),
        decreases name@.len() - i,
    {
        out.push(name[i]);
        i = i + 1;
    }
    assert(out@ =~= name@.skip(k as int));
    Some(out)
}

/// Whether a file is left out of the relocation, given the final component
/// of its path (`None` where the path has none or it is not valid text).
pub fn should_skip(file_name: Option<&str>) -> (r: bool)
    ensures
        r == skipped(opt_view(file_name)),
{
    match file_name {
        None => true,
        Some(n) => {
            let name = chars_of(n);
            let ext = extension_chars(&name);
            let v = match ext {
                None => verdict_exec(&name, None),
                Some(e) => verdict_exec(&name, Some(&e)),
            };
            v == Verdict::Reject
        },
    }
}

} // verus!
