use gdbserver::rsp::{
    strip_file_scheme,
    first_applicable, resume_for, signal_of_action, supported_features, supported_vcont,
    thread_list, xfer_chunk, xfer_object, Id, Resume, ThreadId, VCont, VContFeature, XferError,
    XferObject, ERROR_PARSE_STRING,
};
use gdbserver::text::{parse_hex, str_eq};

fn thread(pid: Id, tid: Id) -> Option<ThreadId> {
    Some(ThreadId { pid, tid })
}

#[test]
fn vcont_without_filter_applies() {
    let actions = vec![(VCont::Step, None), (VCont::Continue, None)];
    assert_eq!(first_applicable(&actions, 42), Some(0));
}

#[test]
fn vcont_skips_other_threads() {
    let actions = vec![
        (VCont::Step, thread(Id::Id(7), Id::All)),
        (VCont::Step, thread(Id::All, Id::Id(8))),
        (VCont::Continue, thread(Id::Id(42), Id::Any)),
        (VCont::Step, None),
    ];
    assert_eq!(first_applicable(&actions, 42), Some(2));
}

#[test]
fn vcont_with_no_applicable_action() {
    let actions = vec![(VCont::Step, thread(Id::Id(1), Id::Id(1)))];
    assert_eq!(first_applicable(&actions, 42), None);
    assert_eq!(first_applicable(&Vec::new(), 42), None);
}

#[test]
fn vcont_actions_to_resumes() {
    assert_eq!(resume_for(VCont::Continue, Some(3)), Some(Resume::Continue(None)));
    assert_eq!(resume_for(VCont::ContinueWithSignal(2), Some(2)), Some(Resume::Continue(Some(2))));
    assert_eq!(resume_for(VCont::Step, None), Some(Resume::Step(None)));
    assert_eq!(resume_for(VCont::StepWithSignal(14), Some(14)), Some(Resume::Step(Some(14))));
    assert_eq!(resume_for(VCont::StepWithSignal(200), None), Some(Resume::Step(None)));
    assert_eq!(resume_for(VCont::RangeStep(0x10, 0x20), None), Some(Resume::Range(0x10, 0x20)));
    assert_eq!(resume_for(VCont::Stop, None), None);
}

#[test]
fn vcont_action_signals() {
    assert_eq!(signal_of_action(VCont::ContinueWithSignal(9)), Some(9));
    assert_eq!(signal_of_action(VCont::StepWithSignal(5)), Some(5));
    assert_eq!(signal_of_action(VCont::Step), None);
}

#[test]
fn thread_list_reports_once() {
    assert_eq!(thread_list(42, true), vec![ThreadId { pid: Id::Id(42), tid: Id::Id(42) }]);
    assert!(thread_list(42, false).is_empty());
}

#[test]
fn advertised_features() {
    assert_eq!(
        supported_features(),
        vec![String::from("qXfer:features:read+"), String::from("qXfer:exec-file:read+")]
    );
    assert_eq!(
        supported_vcont(),
        vec![
            VContFeature::Continue,
            VContFeature::ContinueWithSignal,
            VContFeature::Step,
            VContFeature::StepWithSignal,
            VContFeature::RangeStep,
        ]
    );
}

#[test]
fn xfer_chunk_inside_source() {
    let source = b"0123456789";
    assert_eq!(xfer_chunk(source, 2, 3), (b"234".to_vec(), false));
    assert_eq!(xfer_chunk(source, 0, 10), (source.to_vec(), false));
}

#[test]
fn xfer_chunk_cut_at_end() {
    let source = b"0123456789";
    assert_eq!(xfer_chunk(source, 7, 1000), (b"789".to_vec(), false));
    assert_eq!(xfer_chunk(source, 9, u64::MAX), (b"9".to_vec(), false));
}

#[test]
fn xfer_chunk_at_or_past_end() {
    let source = b"0123456789";
    assert_eq!(xfer_chunk(source, 10, 5), (Vec::new(), true));
    assert_eq!(xfer_chunk(source, u64::MAX, 5), (Vec::new(), true));
    assert_eq!(xfer_chunk(b"", 0, 5), (Vec::new(), true));
}

#[test]
fn xfer_chunks_cover_source() {
    let source: Vec<u8> = (0u8..=250).collect();
    let mut offset: u64 = 3;
    let mut all = Vec::new();
    loop {
        let (bytes, eof) = xfer_chunk(&source, offset, 16);
        if eof {
            assert!(bytes.is_empty());
            break;
        }
        offset += bytes.len() as u64;
        all.extend(bytes);
    }
    assert_eq!(all, source[3..].to_vec());
}

#[test]
fn xfer_objects() {
    assert_eq!(xfer_object("features", "target.xml"), Ok(XferObject::TargetXml));
    assert_eq!(xfer_object("exec-file", "1f"), Ok(XferObject::ExecFile(31)));
    assert_eq!(xfer_object("exec-file", "zz"), Err(XferError::BadPid));
    assert_eq!(xfer_object("features", "other.xml"), Err(XferError::Unimplemented));
    assert_eq!(xfer_object("libraries", ""), Err(XferError::Unimplemented));
    assert_eq!(ERROR_PARSE_STRING, u8::MAX);
}

#[test]
fn hex_numbers() {
    assert_eq!(parse_hex("1a2B"), Some(0x1a2b));
    assert_eq!(parse_hex("+ff"), Some(255));
    assert_eq!(parse_hex("0"), Some(0));
    assert_eq!(parse_hex(""), None);
    assert_eq!(parse_hex("+"), None);
    assert_eq!(parse_hex("-1"), None);
    assert_eq!(parse_hex("12g"), None);
    assert_eq!(parse_hex("ffffffffffffffff"), Some(usize::MAX));
    assert_eq!(parse_hex("10000000000000000"), None);
}

#[test]
fn string_equality() {
    assert!(str_eq("exec-file", "exec-file"));
    assert!(!str_eq("exec-file", "exec-fil"));
    assert!(!str_eq("abc", "abd"));
    assert!(str_eq("", ""));
}

#[test]
fn exec_path_loses_file_scheme() {
    assert_eq!(strip_file_scheme(b"file:/bin/ls"), b"/bin/ls".to_vec());
    assert_eq!(strip_file_scheme(b"/bin/ls"), b"/bin/ls".to_vec());
    assert_eq!(strip_file_scheme(b"file"), b"file".to_vec());
    assert_eq!(strip_file_scheme(b"file:"), Vec::<u8>::new());
}

#[test]
fn target_description_first_chunk() {
    let description = vec![b'x'; 1500];
    let (first, eof) = xfer_chunk(&description, 0, 1000);
    assert_eq!(first.len(), 1000);
    assert!(!eof);
    let (rest, eof) = xfer_chunk(&description, 1000, 1000);
    assert_eq!(rest.len(), 500);
    assert!(!eof);
    assert_eq!(xfer_chunk(&description, 1500, 1000), (Vec::new(), true));
}
