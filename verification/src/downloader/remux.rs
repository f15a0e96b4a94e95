//! Making an mp4 streamable with ffmpeg.

use vstd::prelude::*;

use crate::downloader::arg;
use crate::text::{chars_of, same, text_of, views};

verus! {

// ---- file names ------------------------------------------------------------

/// A path without the slashes and the `/.` at its end.
pub open spec fn bare_path(p: Seq<char>) -> Seq<char>
    decreases p.len(),
{
    if p.len() > 0 && p.last() == '/' {
        bare_path(p.drop_last())
    } else if p.len() > 1 && p.last() == '.' && p[p.len() - 2] == '/' {
        bare_path(p.drop_last())
    } else {
        p
    }
}

/// How much of a path comes before what follows its last slash.
pub open spec fn dir_len(p: Seq<char>) -> nat
    decreases p.len(),
{
    if p.len() == 0 || p.last() == '/' {
        p.len()
    } else {
        dir_len(p.drop_last())
    }
}

/// How much of a name comes before its last point.
pub open spec fn dot_len(name: Seq<char>) -> Option<nat>
    decreases name.len(),
{
    if name.len() == 0 {
        None
    } else if name.last() == '.' {
        Some((name.len() - 1) as nat)
    } else {
        dot_len(name.drop_last())
    }
}

/// How much of a file name is not its extension: all before the last point, or everything
/// where there is no point but perhaps one in front.
pub open spec fn stem_len(name: Seq<char>) -> nat {
    match dot_len(name) {
        Some(k) => if k > 0 {
            k
        } else {
            name.len()
        },
        None => name.len(),
    }
}

/// Whether a path's last component names a file.
pub open spec fn names_file(name: Seq<char>) -> bool {
    name.len() > 0 && name != "."@ && name != ".."@
}

/// A path with its file's extension replaced; a path that names no file stays as it is.
pub open spec fn with_extension(p: Seq<char>, ext: Seq<char>) -> Seq<char> {
    let b = bare_path(p);
    let name = b.skip(dir_len(b) as int);
    if names_file(name) {
        b.take((dir_len(b) + stem_len(name)) as int) + "."@ + ext
    } else {
        p
    }
}

/// Replaces the extension of a path's file.
pub fn replace_extension(p: &str, ext: &str) -> (r: String)
    ensures
        r@ == with_extension(p@, ext@),
{
    let v = chars_of(p);
    let mut end: usize = v.len();
    assert(v@.take(end as int) == v@);
    while end > 0 && (v[end - 1] == '/' || (end > 1 && v[end - 1] == '.' && v[end - 2] == '/'))
        invariant
            end <= v@.len(),
            v@ == p@,
            bare_path(p@) == bare_path(v@.take(end as int)),
        decreases end,
    {
        assert(v@.take(end as int).drop_last() == v@.take(end - 1));
        end = end - 1;
    }
    let ghost b = v@.take(end as int);
    assert(bare_path(p@) == b);
    let mut dir: usize = end;
    while dir > 0 && v[dir - 1] != '/'
        invariant
            dir <= end <= v@.len(),
            b == v@.take(end as int),
            dir_len(b) == dir_len(v@.take(dir as int)),
        decreases dir,
    {
        assert(v@.take(dir as int).drop_last() == v@.take(dir - 1));
        dir = dir - 1;
    }
    assert(dir_len(b) == dir);
    let ghost name = b.skip(dir as int);
    let shown = text_of(&v, dir, end);
    assert(shown@ =~= name);
    if dir == end || same(shown.as_str(), ".") || same(
        shown.as_str(),
        "..",
    ) {
        return p.to_owned();
    }
    let mut dot: usize = end;
    assert(name.take(dot - dir) == name);
    while dot > dir && v[dot - 1] != '.'
        invariant
            dir <= dot <= end <= v@.len(),
            b == v@.take(end as int),
            name == b.skip(dir as int),
            dot_len(name) == dot_len(name.take(dot - dir)),
        decreases dot,
    {
        assert(name.take(dot - dir).last() == v@[dot - 1]);
        assert(name.take(dot - dir).drop_last() == name.take(dot - dir - 1));
        dot = dot - 1;
    }
    let stem: usize = if dot > dir + 1 {
        dot - 1
    } else {
        end
    };
    proof {
        if dot > dir {
            assert(name.take(dot - dir).last() == v@[dot - 1]);
            assert(dot_len(name) == Some((dot - dir - 1) as nat));
        } else {
            assert(name.take(0).len() == 0);
        }
        assert(stem == dir_len(b) + stem_len(name));
        assert(b.take(stem as int) =~= v@.subrange(0, stem as int));
    }
    text_of(&v, 0, stem).concat(".").concat(ext)
}

// ---- ffmpeg ----------------------------------------------------------------

/// The file that the streamable copy of `input` goes to.
pub open spec fn stream_path(input: Seq<char>) -> Seq<char> {
    with_extension(input, "stream.mp4"@)
}

/// The file that the streamable copy of `input` goes to.
pub fn remux_target(input: &str) -> (r: String)
    ensures
        r@ == stream_path(input@),
{
    replace_extension(input, "stream.mp4")
}

/// The ffmpeg command line that makes the streamable copy.
pub open spec fn remux_line(input: Seq<char>) -> Seq<Seq<char>> {
    seq![
        "-y"@,
        "-i"@,
        input,
        "-c"@,
        "copy"@,
        "-movflags"@,
        "+faststart"@,
        stream_path(input),
    ]
}

/// Build the ffmpeg argument vector: a fast stream copy, with no re-encoding.
pub fn remux_args(input: &str) -> (args: Vec<String>)
    ensures
        views(args@) == remux_line(input@),
{
    let target = remux_target(input);
    let mut args: Vec<String> = Vec::new();
    arg(&mut args, "-y");
    arg(&mut args, "-i");
    arg(&mut args, input);
    arg(&mut args, "-c");
    arg(&mut args, "copy");
    arg(&mut args, "-movflags");
    arg(&mut args, "+faststart");
    arg(&mut args, target.as_str());
    assert(views(args@) =~= remux_line(input@));
    args
}

/// The file to upload once ffmpeg is done.
pub open spec fn file_after_remux(input: Seq<char>, succeeded: bool, present: bool) -> Seq<char> {
    if succeeded && present {
        stream_path(input)
    } else {
        input
    }
}

/// The file to upload once ffmpeg is done: the streamable copy where ffmpeg `succeeded` and
/// the copy `present`, else the input.
pub fn faststart_remux(input: &str, succeeded: bool, present: bool) -> (r: String)
    ensures
        r@ == file_after_remux(input@, succeeded, present),
        r@ == if succeeded && present {
            stream_path(input@)
        } else {
            input@
        },
{
    if succeeded && present {
        remux_target(input)
    } else {
        input.to_owned()
    }
}

} // verus!
