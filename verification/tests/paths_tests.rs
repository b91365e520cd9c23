use upscale_orchestrator::paths::command_args;
use upscale_orchestrator::paths::infer_extension;
use upscale_orchestrator::paths::input_path;
use upscale_orchestrator::paths::output_path;

#[test]
fn extension_after_the_last_dot() {
    assert_eq!(infer_extension("a.png"), "png");
}

#[test]
fn extension_after_the_last_of_several_dots() {
    assert_eq!(infer_extension("x.tar.gz"), "gz");
}

#[test]
fn extension_keeps_letter_case_and_digits() {
    assert_eq!(infer_extension("scan.JP2"), "JP2");
}

#[test]
fn name_without_a_dot_gets_the_default() {
    assert_eq!(infer_extension("archive"), "jpg");
}

#[test]
fn empty_name_gets_the_default() {
    assert_eq!(infer_extension(""), "jpg");
}

#[test]
fn hidden_file_gets_the_default() {
    assert_eq!(infer_extension(".hidden"), "jpg");
}

#[test]
fn trailing_dot_gets_the_default() {
    assert_eq!(infer_extension("name."), "jpg");
}

#[test]
fn extension_with_odd_characters_gets_the_default() {
    assert_eq!(infer_extension("a.p g"), "jpg");
    assert_eq!(infer_extension("a.p/g"), "jpg");
    assert_eq!(infer_extension("a.p\"g"), "jpg");
}

#[test]
fn input_path_is_keyed_by_identity() {
    assert_eq!(
        input_path("./cache", "123e4567-e89b-12d3-a456-426614174000", "png"),
        "./cache/123e4567-e89b-12d3-a456-426614174000-in.png"
    );
}

#[test]
fn output_path_is_identity_plus_extension() {
    assert_eq!(
        output_path("./cache", "123e4567-e89b-12d3-a456-426614174000", "png"),
        "./cache/123e4567-e89b-12d3-a456-426614174000.png"
    );
}

#[test]
fn command_args_are_the_fixed_positional_list() {
    let args = command_args("./cache/in.png", "./cache/out.png");
    let expected = vec!["-i", "./cache/in.png", "-o", "./cache/out.png", "-g", "0", "-s", "2"];
    assert_eq!(args.len(), expected.len());
    for (got, want) in args.iter().zip(expected.iter()) {
        assert_eq!(got, want);
    }
}
