use cargo2port::{classify_arg, scan_args, AlignmentMode, ArgKind};

fn args(a: &[&str]) -> Vec<String> {
    a.iter().map(|s| s.to_string()).collect()
}

#[test]
fn last_align_flag_wins() {
    let plan = scan_args(&args(&["--align=plain", "--align=justify"]));
    assert_eq!(plan.mode, AlignmentMode::Justify);
    let plan = scan_args(&args(&["--align=justify", "--align=maxlen"]));
    assert_eq!(plan.mode, AlignmentMode::Maxlen);
}

#[test]
fn justify_is_the_default_mode() {
    let plan = scan_args(&args(&["Cargo.lock"]));
    assert_eq!(plan.mode, AlignmentMode::Justify);
    assert!(!plan.help);
    assert_eq!(plan.sources, args(&["Cargo.lock"]));
}

#[test]
fn sources_keep_their_order_and_empty_args_are_skipped() {
    let plan = scan_args(&args(&["a.lock", "", "--align=multiline", "-", "serde@1.0.0"]));
    assert_eq!(plan.sources, args(&["a.lock", "-", "serde@1.0.0"]));
    assert_eq!(plan.mode, AlignmentMode::Multiline);
}

#[test]
fn help_stops_reading() {
    let plan = scan_args(&args(&["x.lock", "-h", "y.lock", "--align=plain"]));
    assert!(plan.help);
    assert_eq!(plan.sources, args(&["x.lock"]));
    assert_eq!(plan.mode, AlignmentMode::Justify);
}

#[test]
fn arguments_are_classified() {
    assert_eq!(classify_arg(""), ArgKind::Skip);
    assert_eq!(classify_arg("--help"), ArgKind::Help);
    assert_eq!(classify_arg("-?"), ArgKind::Help);
    assert_eq!(classify_arg("-h"), ArgKind::Help);
    assert_eq!(classify_arg("--align=plain"), ArgKind::Align(AlignmentMode::Normal));
    assert_eq!(classify_arg("--align=maxlen"), ArgKind::Align(AlignmentMode::Maxlen));
    assert_eq!(classify_arg("--align=multiline"), ArgKind::Align(AlignmentMode::Multiline));
    assert_eq!(classify_arg("--align=justify"), ArgKind::Align(AlignmentMode::Justify));
    assert_eq!(classify_arg("--align=other"), ArgKind::Source);
}
