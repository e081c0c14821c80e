//! Cover thumbnails: where they are kept (`<cache>/thumbs/<id>.jpg`) and the
//! ffmpeg run that grabs a frame from a video.
use vstd::prelude::*;

use crate::exec::{spec_resolve, spec_resolve_error, FileFacts, Tool, ToolResolver};
use crate::paths::{join, join_path};
use crate::text::{lits, owned, push_str, views};

verus! {

/// `<cache_dir>/thumbs/<id>.jpg`.
pub open spec fn spec_thumb_path(cache_dir: Seq<char>, id: Seq<char>) -> Seq<char> {
    join(join(cache_dir, "thumbs"@), id + ".jpg"@)
}

/// Where the thumbnail of item `id` is kept.
pub fn thumb_path(cache_dir: &str, id: &str) -> (r: String)
    ensures
        r@ == spec_thumb_path(cache_dir@, id@),
{
    let dir = join_path(cache_dir, "thumbs");
    let mut name = owned(id);
    push_str(&mut name, ".jpg");
    join_path(dir.as_str(), name.as_str())
}

/// ffmpeg arguments that grab the frame at 0.5 s, scaled to 360 pixels wide.
pub open spec fn spec_thumb_args(src: Seq<char>, dest: Seq<char>) -> Seq<Seq<char>> {
    seq![
        "-y"@, "-ss"@, "0.5"@, "-i"@, src, "-frames:v"@, "1"@, "-vf"@, "scale=360:-2"@, "-q:v"@,
        "3"@, dest,
    ]
}

/// The program and arguments that grab a thumbnail from `src` into `dest`;
/// the error text when ffmpeg cannot be found.
pub fn extract_thumb(
    resolver: &ToolResolver,
    facts: &FileFacts,
    src: &str,
    dest: &str,
) -> (r: Result<(String, Vec<String>), String>)
    ensures
        match r {
            Ok((prog, args)) => spec_resolve(resolver.configured(Tool::Ffmpeg), resolver.exe(Tool::Ffmpeg), *facts)
                == Some(prog@) && views(args@) == spec_thumb_args(src@, dest@),
            Err(m) => spec_resolve(resolver.configured(Tool::Ffmpeg), resolver.exe(Tool::Ffmpeg), *facts) is None
                && m@ == spec_resolve_error(resolver.configured(Tool::Ffmpeg), Tool::Ffmpeg),
        },
{
    match resolver.resolve(Tool::Ffmpeg, facts) {
        Ok(prog) => {
            let args = lits(
                &["-y", "-ss", "0.5", "-i", src, "-frames:v", "1", "-vf", "scale=360:-2", "-q:v", "3", dest],
            );
            assert(views(args@) =~= spec_thumb_args(src@, dest@));
            Ok((prog, args))
        },
        Err(e) => Err(e.to_string()),
    }
}

/// Outcome of the grab: it succeeded when ffmpeg exited successfully and
/// the file is there; otherwise an error carrying ffmpeg's output.
pub fn thumb_outcome(success: bool, dest_is_file: bool, stderr: &str) -> (r: Result<(), String>)
    ensures
        r is Ok <==> (success && dest_is_file),
        r matches Err(m) ==> m@ == "抽帧失败："@ + stderr@,
{
    if !success || !dest_is_file {
        let mut m = owned("抽帧失败：");
        push_str(&mut m, stderr);
        return Err(m);
    }
    Ok(())
}

} // verus!
