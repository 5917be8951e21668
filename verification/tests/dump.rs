use grass::dump::resolve_path;

fn resolve(template: &str, step: u64, time: f64) -> String {
    resolve_path(template, step, &time.to_string())
}

#[test]
fn resolve_path_handles_step_padding() {
    assert_eq!(resolve("out/frame_{step:06}.json", 42, 0.0), "out/frame_000042.json");
}

#[test]
fn resolve_path_handles_plain_step() {
    assert_eq!(resolve("frame_{step}.bin", 7, 0.0), "frame_7.bin");
}

#[test]
fn resolve_path_handles_time() {
    assert_eq!(resolve("at_{time}.bin", 0, 0.5), "at_0.5.bin");
}

#[test]
fn resolve_path_passes_unknown_specs() {
    assert_eq!(resolve("foo_{bogus}.bin", 0, 0.0), "foo_{bogus}.bin");
}

#[test]
fn padding_never_truncates_a_longer_step() {
    assert_eq!(resolve("f_{step:03}", 123456, 0.0), "f_123456");
}

#[test]
fn width_accepts_a_plus_sign_like_std_parse() {
    assert_eq!(resolve("f_{step:0+4}", 7, 0.0), "f_0007");
}

#[test]
fn malformed_width_is_kept_verbatim() {
    assert_eq!(resolve("f_{step:0x}_{step:0}", 5, 0.0), "f_{step:0x}_{step:0}");
}

#[test]
fn zero_width_after_the_zero_flag() {
    assert_eq!(resolve("f_{step:00}", 5, 0.0), "f_5");
}

#[test]
fn unclosed_brace_ends_expansion() {
    assert_eq!(resolve("a_{step}_{step", 3, 0.0), "a_3_{step");
}

#[test]
fn several_placeholders_expand_in_order() {
    assert_eq!(resolve("{time}/{step:02}-{step}", 9, 1.5), "1.5/09-9");
}

#[test]
fn template_without_braces_is_unchanged() {
    assert_eq!(resolve("plain/path.bin", 1, 2.0), "plain/path.bin");
}
