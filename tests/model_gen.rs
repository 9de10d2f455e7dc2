use burn_import::model_gen::{ModelGen, RunError};

#[test]
fn builder_keeps_inputs_in_order() {
    let mut gen = ModelGen::new();
    gen.input("tests/add/add.onnx").input("tests/sub/sub.onnx").out_dir("model/").development(true);
    assert_eq!(gen.inputs, vec!["tests/add/add.onnx".to_string(), "tests/sub/sub.onnx".to_string()]);
    assert!(gen.development);
    assert_eq!(gen.out_dir.as_deref(), Some("model/"));
}

#[test]
fn script_run_appends_out_dir_to_build_dir() {
    let mut gen = ModelGen::new();
    gen.input("tests/add/add.onnx").input("tests/concat/concat.onnx").out_dir("model/");
    let plan = gen.run_from_script(Some("/target/out")).unwrap();
    assert_eq!(plan.out_dir, "/target/out/model/");
    assert_eq!(plan.jobs.len(), 2);
    assert_eq!(plan.jobs[0].input, "tests/add/add.onnx");
    assert_eq!(plan.jobs[0].out_file, "/target/out/model/add");
    assert_eq!(plan.jobs[1].out_file, "/target/out/model/concat");
}

#[test]
fn cli_run_uses_out_dir_verbatim() {
    let mut gen = ModelGen::new();
    gen.input("models/mnist.onnx").out_dir("out");
    let plan = gen.run_from_cli().unwrap();
    assert_eq!(plan.out_dir, "out");
    assert_eq!(plan.jobs[0].out_file, "out/mnist");
}

#[test]
fn runs_need_directories() {
    let mut gen = ModelGen::new();
    gen.input("a.onnx");
    assert_eq!(gen.run_from_cli().unwrap_err(), RunError::OutDirNotSet);
    gen.out_dir("model");
    assert_eq!(gen.run_from_script(None).unwrap_err(), RunError::BuildDirNotSet);
    gen.input("..");
    assert_eq!(gen.run_from_cli().unwrap_err(), RunError::NoFileName(1));
}
