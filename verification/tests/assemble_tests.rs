use segfetch::assemble::{
    build_manifest, concat_args, interpret_tool_exit, merge_args, plan_concat, AssemblyError,
};
use segfetch::store::SegmentEntry;

fn entry(index: u32, name: &str) -> SegmentEntry {
    SegmentEntry {
        index,
        name: String::from(name),
    }
}

#[test]
fn manifest_of_empty_list_is_rejected_up_front() {
    let entries: Vec<SegmentEntry> = Vec::new();
    assert_eq!(
        build_manifest("zzz", &entries),
        Err(AssemblyError::EmptyManifest)
    );
    assert!(plan_concat("zzz", &entries, "filelist.txt", "pp.mp4").is_err());
}

#[test]
fn manifest_single_entry_has_no_separator() {
    let entries = vec![entry(0, "0.ts")];
    let text = build_manifest("zzz", &entries).unwrap();
    assert_eq!(text, "file   'zzz/0.ts'");
}

#[test]
fn manifest_lists_entries_in_order() {
    let entries = vec![entry(0, "0.ts"), entry(1, "1.ts"), entry(10, "10.ts")];
    let text = build_manifest("./zzz", &entries).unwrap();
    assert_eq!(
        text,
        "file   './zzz/0.ts'\r\nfile   './zzz/1.ts'\r\nfile   './zzz/10.ts'"
    );
}

#[test]
fn concat_invocation_is_a_stream_copy_over_the_manifest() {
    let args = concat_args("filelist.txt", "pp.mp4");
    assert_eq!(
        args,
        vec!["-y", "-f", "concat", "-safe", "0", "-i", "filelist.txt", "-c", "copy", "pp.mp4"]
    );
}

#[test]
fn merge_invocation_copies_video_and_encodes_audio() {
    let args = merge_args("./mp4.mp4", "./voice.mp3", "./merged.mp4");
    assert_eq!(
        args,
        vec![
            "-y",
            "-i",
            "./mp4.mp4",
            "-i",
            "./voice.mp3",
            "-c:v",
            "copy",
            "-c:a",
            "aac",
            "./merged.mp4"
        ]
    );
}

#[test]
fn plan_concat_carries_manifest_and_arguments() {
    let entries = vec![entry(0, "0.ts"), entry(1, "1.ts")];
    let plan = plan_concat("zzz", &entries, "filelist.txt", "out.mp4").unwrap();
    assert_eq!(plan.manifest_text, "file   'zzz/0.ts'\r\nfile   'zzz/1.ts'");
    assert_eq!(plan.args.len(), 10);
    assert_eq!(plan.args[6], "filelist.txt");
    assert_eq!(plan.args[9], "out.mp4");
}

#[test]
fn only_a_clean_zero_exit_is_success() {
    assert!(interpret_tool_exit(Some(0)).is_ok());
    assert_eq!(
        interpret_tool_exit(Some(1)),
        Err(AssemblyError::ToolFailure)
    );
    assert_eq!(
        interpret_tool_exit(Some(-9)),
        Err(AssemblyError::ToolFailure)
    );
    assert_eq!(interpret_tool_exit(None), Err(AssemblyError::ToolFailure));
}
