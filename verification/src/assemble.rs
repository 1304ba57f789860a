//! Assembly planning: the manifest text handed to the external
//! concatenation tool, the argument lists of its two invocations, and
//! the reading of its exit status.  The tool itself runs outside the
//! library; everything it is given is computed and pinned down here.

use vstd::prelude::*;
use crate::store::SegmentEntry;

verus! {

/// Why assembly is refused or reported failed.
#[derive(Clone, Copy, Debug, PartialEq, Eq, Structural)]
pub enum AssemblyError {
    /// The segment list is empty: there is nothing to concatenate, and
    /// handing the tool an empty manifest is rejected up front.
    EmptyManifest,
    /// The external tool exited abnormally or with a nonzero status.
    /// Never retried automatically.
    ToolFailure,
}

/// One manifest line: `file   '<dir>/<name>'`.
pub open spec fn manifest_line(dir: Seq<char>, name: Seq<char>) -> Seq<char> {
    "file   '"@ + dir + "/"@ + name + "'"@
}

/// The whole manifest: one line per segment name, in the given order,
/// separated by `"\r\n"`.
pub open spec fn manifest_text(dir: Seq<char>, names: Seq<Seq<char>>) -> Seq<char>
    decreases names.len(),
{
    if names.len() == 0 {
        Seq::empty()
    } else if names.len() == 1 {
        manifest_line(dir, names[0])
    } else {
        manifest_text(dir, names.drop_last()) + "\r\n"@ + manifest_line(dir, names.last())
    }
}

/// The file names of a run of store entries, in order.
pub open spec fn entry_names(s: Seq<SegmentEntry>) -> Seq<Seq<char>> {
    s.map_values(|e: SegmentEntry| e.name@)
}

/// Append one manifest line to the text being built.
fn append_line(text: &mut String, dir: &str, name: &str)
    ensures
        final(text)@ == old(text)@ + manifest_line(dir@, name@),
{
    text.append("file   '");
    text.append(dir);
    text.append("/");
    text.append(name);
    text.append("'");
    proof {
        assert(text@ =~= old(text)@ + manifest_line(dir@, name@));
    }
}

/// Render the manifest for the given entries, in their given order.
/// An empty entry list is rejected: the caller gets `EmptyManifest`
/// instead of an empty file of undefined meaning to the tool.
pub fn build_manifest(dir: &str, entries: &Vec<SegmentEntry>) -> (r: Result<
    String,
    AssemblyError,
>)
    ensures
        match r {
            Ok(text) => {
                &&& entries@.len() > 0
                &&& text@ == manifest_text(dir@, entry_names(entries@))
            },
            Err(err) => {
                &&& err == AssemblyError::EmptyManifest
                &&& entries@.len() == 0
            },
        },
{
    if entries.len() == 0 {
        return Err(AssemblyError::EmptyManifest);
    }
    let ghost names = entry_names(entries@);
    let mut text = String::new();
    append_line(&mut text, dir, entries[0].name.as_str());
    proof {
        assert(names.take(1) =~= seq![names[0]]);
    }
    let mut i: usize = 1;
    while i < entries.len()
        invariant
            1 <= i <= entries@.len(),
            names == entry_names(entries@),
            names.len() == entries@.len(),
            text@ == manifest_text(dir@, names.take(i as int)),
        decreases entries@.len() - i,
    {
        text.append("\r\n");
        append_line(&mut text, dir, entries[i].name.as_str());
        proof {
            assert(names.take(i + 1).drop_last() =~= names.take(i as int));
            assert(names.take(i + 1).last() == names[i as int]);
        }
        i = i + 1;
    }
    proof {
        assert(names.take(i as int) =~= names);
    }
    Ok(text)
}

/// The argument list of the concatenation invocation: overwrite the
/// output, read the manifest in concat format, and stream-copy without
/// re-encoding.
pub open spec fn concat_tool_args(list_path: Seq<char>, output_path: Seq<char>) -> Seq<Seq<char>> {
    seq![
        "-y"@,
        "-f"@,
        "concat"@,
        "-safe"@,
        "0"@,
        "-i"@,
        list_path,
        "-c"@,
        "copy"@,
        output_path,
    ]
}

/// Build the concatenation tool's argument list for a manifest at
/// `list_path` and a final container at `output_path`.
pub fn concat_args(list_path: &str, output_path: &str) -> (r: Vec<String>)
    ensures
        r@.map_values(|s: String| s@) == concat_tool_args(list_path@, output_path@),
{
    let mut args: Vec<String> = Vec::new();
    args.push(String::from_str("-y"));
    args.push(String::from_str("-f"));
    args.push(String::from_str("concat"));
    args.push(String::from_str("-safe"));
    args.push(String::from_str("0"));
    args.push(String::from_str("-i"));
    args.push(String::from_str(list_path));
    args.push(String::from_str("-c"));
    args.push(String::from_str("copy"));
    args.push(String::from_str(output_path));
    proof {
        assert(args@.map_values(|s: String| s@) =~= concat_tool_args(list_path@, output_path@));
    }
    args
}

/// The argument list of the track-merge invocation: both inputs, video
/// copied from the primary, audio re-encoded from the secondary.
pub open spec fn merge_tool_args(
    primary: Seq<char>,
    secondary: Seq<char>,
    output_path: Seq<char>,
) -> Seq<Seq<char>> {
    seq![
        "-y"@,
        "-i"@,
        primary,
        "-i"@,
        secondary,
        "-c:v"@,
        "copy"@,
        "-c:a"@,
        "aac"@,
        output_path,
    ]
}

/// Build the track-merge tool's argument list: video from `primary`,
/// audio from `secondary`, merged into `output_path`.
pub fn merge_args(primary: &str, secondary: &str, output_path: &str) -> (r: Vec<String>)
    ensures
        r@.map_values(|s: String| s@) == merge_tool_args(primary@, secondary@, output_path@),
{
    let mut args: Vec<String> = Vec::new();
    args.push(String::from_str("-y"));
    args.push(String::from_str("-i"));
    args.push(String::from_str(primary));
    args.push(String::from_str("-i"));
    args.push(String::from_str(secondary));
    args.push(String::from_str("-c:v"));
    args.push(String::from_str("copy"));
    args.push(String::from_str("-c:a"));
    args.push(String::from_str("aac"));
    args.push(String::from_str(output_path));
    proof {
        assert(args@.map_values(|s: String| s@) =~= merge_tool_args(
            primary@,
            secondary@,
            output_path@,
        ));
    }
    args
}

/// Everything the caller must hand to the external tool for one
/// concatenation: the manifest file's content and the invocation's
/// arguments.
pub struct AssemblyPlan {
    pub manifest_text: String,
    pub args: Vec<String>,
}

/// Plan one concatenation over the given entries: the manifest text in
/// their given order and the tool's argument list.  Rejected with
/// `EmptyManifest` exactly when there are no entries.
pub fn plan_concat(
    dir: &str,
    entries: &Vec<SegmentEntry>,
    list_path: &str,
    output_path: &str,
) -> (r: Result<AssemblyPlan, AssemblyError>)
    ensures
        match r {
            Ok(plan) => {
                &&& entries@.len() > 0
                &&& plan.manifest_text@ == manifest_text(dir@, entry_names(entries@))
                &&& plan.args@.map_values(|s: String| s@) == concat_tool_args(
                    list_path@,
                    output_path@,
                )
            },
            Err(err) => {
                &&& err == AssemblyError::EmptyManifest
                &&& entries@.len() == 0
            },
        },
{
    let manifest = build_manifest(dir, entries)?;
    let args = concat_args(list_path, output_path);
    Ok(AssemblyPlan { manifest_text: manifest, args })
}

/// Read the external tool's exit: only a clean zero status is success;
/// a nonzero status or an abnormal termination (no status at all) is a
/// tool failure, surfaced and never retried.
pub fn interpret_tool_exit(exit_code: Option<i32>) -> (r: Result<(), AssemblyError>)
    ensures
        match r {
            Ok(_) => exit_code == Some(0i32),
            Err(err) => err == AssemblyError::ToolFailure && exit_code != Some(0i32),
        },
{
    match exit_code {
        Some(0) => Ok(()),
        _ => Err(AssemblyError::ToolFailure),
    }
}

} // verus!
