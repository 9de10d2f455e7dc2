use burn_import::codegen::{to_token_stream, PaddingConfig2d, ToTokens};

#[test]
fn numbers_render_as_literals() {
    assert_eq!(42usize.to_tokens(), "42");
    assert_eq!(0usize.to_tokens(), "0");
    assert_eq!((-17i64).to_tokens(), "-17");
    assert_eq!(i64::MIN.to_tokens(), "-9223372036854775808");
    assert_eq!(usize::MAX.to_tokens(), usize::MAX.to_string());
}

#[test]
fn lists_render_bracketed() {
    assert_eq!(vec![1usize, 2, 3].to_tokens(), "[1,2,3,]");
    assert_eq!(Vec::<usize>::new().to_tokens(), "[]");
    assert_eq!([4i64, -5].to_tokens(), "[4,-5,]");
    assert_eq!(vec![vec![1usize], vec![]].to_tokens(), "[[1,],[],]");
}

#[test]
fn padding_renders_as_constructor() {
    assert_eq!(PaddingConfig2d::Same.to_tokens(), "PaddingConfig2d::Same");
    assert_eq!(PaddingConfig2d::Valid.to_tokens(), "PaddingConfig2d::Valid");
    assert_eq!(PaddingConfig2d::Explicit(2, 3).to_tokens(), "PaddingConfig2d::Explicit(2,3)");
}

#[test]
fn rendered_text_lexes_into_tokens() {
    let tokens = to_token_stream(&vec![1usize, 2]).unwrap();
    assert_eq!(tokens.into_iter().count(), 1);
    let tokens = to_token_stream(&PaddingConfig2d::Explicit(1, 1)).unwrap();
    assert_eq!(tokens.into_iter().count(), 5);
}

#[test]
fn rendering_is_repeatable() {
    let v = vec![[1usize, 2], [3, 4]];
    assert_eq!(v.to_tokens(), v.to_tokens());
    assert_eq!(v.to_tokens(), "[[1,2,],[3,4,],]");
}
