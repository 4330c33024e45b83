use ttipc::findings::{header, merge_findings, Findings, NOTE_DEASYNC, NOTE_ERRORS, NOTE_IMPORTS, NOTE_MOUNT, PREAMBLE};

#[test]
fn no_header_without_transform_or_flags() {
    assert_eq!(header(&Findings::none()), "");
    // Transformed, but nothing to flag.
    let quiet = Findings { transformed: true, emits_rewritten: true, ..Findings::none() };
    assert_eq!(header(&quiet), "");
    // Flags without a transform are not reported either.
    let untouched = Findings { result_returns: true, ..Findings::none() };
    assert_eq!(header(&untouched), "");
}

#[test]
fn header_lists_notes_in_order() {
    let f = Findings {
        transformed: true,
        mount_rewritten: true,
        result_returns: true,
        channels: true,
        ..Findings::none()
    };
    let expected = format!("{PREAMBLE}{NOTE_ERRORS}\n{NOTE_IMPORTS}\n{NOTE_MOUNT}\n\n");
    assert_eq!(header(&f), expected);
    assert!(header(&f).starts_with("// Migrated from TauRPC by ttipc-migrate. Manual follow-ups:\n//   - errors:"));
}

#[test]
fn one_note_header() {
    let f = Findings { transformed: true, deasynced: true, ..Findings::none() };
    assert_eq!(header(&f), format!("{PREAMBLE}{NOTE_DEASYNC}\n\n"));
}

#[test]
fn merging_findings_ors_every_flag() {
    let mut into = Findings { transformed: true, ..Findings::none() };
    let from = Findings { deasynced: true, window_param: true, ..Findings::none() };
    merge_findings(&mut into, &from);
    assert!(into == Findings { transformed: true, deasynced: true, window_param: true, ..Findings::none() });
    merge_findings(&mut into, &Findings::none());
    assert!(into == Findings { transformed: true, deasynced: true, window_param: true, ..Findings::none() });
    assert!(Findings::default() == Findings::none());
}

#[test]
fn the_header_has_one_note_per_flagged_group() {
    let mut f = ttipc::findings::Findings::none();
    f.transformed = true;
    f.dropped_generics = true;
    f.channels = true;
    f.alias_dropped = true;
    f.mount_rewritten = true;
    let h = ttipc::findings::header(&f);
    let notes: Vec<&str> = h.lines().filter(|l| l.starts_with("//   - ")).collect();
    assert_eq!(notes.len(), 3);
    assert!(h.contains("- alias:") && h.contains("- mount:") && h.contains("- imports:"));
    assert!(!h.contains("- windows:") && !h.contains("- emit sites:"));
}
