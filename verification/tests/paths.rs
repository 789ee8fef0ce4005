use bound_inference::generics::{TraitBound, TypeParamBound};
use bound_inference::ident::Ident;
use bound_inference::lexer::Token;
use bound_inference::path::{Path, PathArguments, PathSegment};
use bound_inference::ty::{Type, TypeNode};

fn named(global: bool, names: &[&str]) -> Path {
    Path {
        global,
        path: names
            .iter()
            .map(|name| PathSegment { ident: Ident::new(name), args: PathArguments::Empty })
            .collect(),
    }
}

#[test]
fn simple_path_of_one_name() {
    assert_eq!(Path::simple_path_from_str("Display"), Some(named(false, &["Display"])));
}

#[test]
fn simple_path_of_several_names() {
    assert_eq!(
        Path::simple_path_from_str("std::fmt::Display"),
        Some(named(false, &["std", "fmt", "Display"]))
    );
}

#[test]
fn simple_path_may_be_global() {
    assert_eq!(
        Path::simple_path_from_str("::std::clone::Clone"),
        Some(named(true, &["std", "clone", "Clone"]))
    );
}

#[test]
fn simple_path_may_hold_spaces() {
    assert_eq!(Path::simple_path_from_str(" std :: fmt "), Some(named(false, &["std", "fmt"])));
}

#[test]
fn simple_path_takes_no_arguments() {
    assert_eq!(Path::simple_path_from_str("Vec<T>"), None);
    assert_eq!(Path::simple_path_from_str("std::vec::Vec<T>"), None);
    assert_eq!(Path::simple_path_from_str("Fn(A) -> B"), None);
}

#[test]
fn simple_path_is_names_and_separators_only() {
    assert_eq!(Path::simple_path_from_str(""), None);
    assert_eq!(Path::simple_path_from_str("::"), None);
    assert_eq!(Path::simple_path_from_str("std::"), None);
    assert_eq!(Path::simple_path_from_str("std:fmt"), None);
    assert_eq!(Path::simple_path_from_str("std: :fmt"), None);
    assert_eq!(Path::simple_path_from_str("std fmt"), None);
    assert_eq!(Path::simple_path_from_str("std::42"), None);
    assert_eq!(Path::simple_path_from_str("\"std\""), None);
    assert_eq!(Path::simple_path_from_str("(std)"), None);
}

#[test]
fn simple_path_takes_no_keyword() {
    assert_eq!(Path::simple_path_from_str("crate::fmt"), None);
    assert_eq!(Path::simple_path_from_str("std::self"), None);
    assert_eq!(Path::simple_path_from_str("r#type::fmt"), Some(named(false, &["r#type", "fmt"])));
}

#[test]
fn simple_path_of_text_that_is_no_tokens() {
    assert_eq!(Path::simple_path_from_str("std::("), None);
    assert_eq!(Path::simple_path_from_str("'"), None);
}

#[test]
fn simple_path_from_given_tokens() {
    let tokens = vec![
        Token::Punct { ch: ':', joint: true },
        Token::Punct { ch: ':', joint: false },
        Token::Ident(Ident::new("core")),
        Token::Punct { ch: ':', joint: true },
        Token::Punct { ch: ':', joint: false },
        Token::Ident(Ident::new("fmt")),
    ];
    let names = vec![false, false, true, false, false, true];
    assert_eq!(Path::simple_path_from_tokens(&tokens, &names), Some(named(true, &["core", "fmt"])));
    // An identifier that was found to be a keyword is no name.
    let keyword = vec![false, false, true, false, false, false];
    assert_eq!(Path::simple_path_from_tokens(&tokens, &keyword), None);
    // A token of which nothing is said is no name.
    let short = vec![false, false, true];
    assert_eq!(Path::simple_path_from_tokens(&tokens, &short), None);
    // What is said of a token that is no identifier does not count.
    let all = vec![true, true, true, true, true, true];
    assert_eq!(Path::simple_path_from_tokens(&tokens, &all), Some(named(true, &["core", "fmt"])));
    let apart = vec![
        Token::Ident(Ident::new("core")),
        Token::Punct { ch: ':', joint: false },
        Token::Punct { ch: ':', joint: false },
        Token::Ident(Ident::new("fmt")),
    ];
    assert_eq!(Path::simple_path_from_tokens(&apart, &vec![true, false, false, true]), None);
    let group = vec![Token::Ident(Ident::new("core")), Token::Group];
    assert_eq!(Path::simple_path_from_tokens(&group, &vec![true, false]), None);
    assert_eq!(Path::simple_path_from_tokens(&vec![Token::Literal], &vec![true]), None);
    assert_eq!(Path::simple_path_from_tokens(&Vec::new(), &Vec::new()), None);
    let one = vec![Token::Ident(Ident::new("core"))];
    assert_eq!(Path::simple_path_from_tokens(&one, &vec![true]), Some(named(false, &["core"])));
}

#[test]
fn simple_path_with_one_more_token() {
    let one = vec![Token::Ident(Ident::new("fmt"))];
    let base = named(false, &["std"]);
    assert_eq!(
        base.get_simple_path_from_tokens(&one, &vec![true]),
        Some(named(false, &["std", "fmt"]))
    );
    assert_eq!(base.get_simple_path_from_tokens(&one, &vec![false]), None);
    assert_eq!(base.get_simple_path_from_tokens(&one, &Vec::new()), None);
    let two = vec![Token::Ident(Ident::new("fmt")), Token::Ident(Ident::new("x"))];
    assert_eq!(base.get_simple_path_from_tokens(&two, &vec![true, true]), None);
    assert_eq!(base.get_simple_path_from_tokens(&vec![Token::Group], &vec![true]), None);
    assert_eq!(base.get_simple_path_from_tokens(&Vec::new(), &Vec::new()), None);
}

#[test]
fn text_with_brackets_is_no_name() {
    assert!(bound_inference::lexer::is_bracket_free("std::fmt"));
    assert!(bound_inference::lexer::is_bracket_free(""));
    assert!(!bound_inference::lexer::is_bracket_free("a(b"));
    assert!(!bound_inference::lexer::is_bracket_free("[a]"));
    assert!(!bound_inference::lexer::is_bracket_free("{"));
    let deep = "(".repeat(200_000) + &")".repeat(200_000);
    assert_eq!(Path::empty().get_simple_path(&deep), None);
    assert_eq!(Path::simple_path_from_str(&deep), None);
}

#[test]
fn trait_object_of_given_paths() {
    let expected = Type(TypeNode::TraitObject(vec![
        TypeParamBound::Trait(TraitBound { lifetimes: Vec::new(), path: named(true, &["a", "B"]) }),
        TypeParamBound::Trait(TraitBound { lifetimes: Vec::new(), path: named(false, &["C"]) }),
    ]));
    assert_eq!(
        Type::trait_object_of_paths(vec![named(true, &["a", "B"]), named(false, &["C"])]),
        expected
    );
    assert_eq!(Type::trait_object_of_paths(Vec::new()), Type(TypeNode::TraitObject(Vec::new())));
}

#[test]
fn get_simple_path_adds_a_segment() {
    assert_eq!(Path::root().get_simple_path("std"), Some(named(true, &["std"])));
    assert_eq!(
        named(false, &["std"]).get_simple_path(" fmt "),
        Some(named(false, &["std", "fmt"]))
    );
    assert_eq!(Path::empty().get_simple_path("fn"), None);
    assert_eq!(Path::empty().get_simple_path("a::b"), None);
    assert_eq!(Path::empty().get_simple_path(""), None);
}

#[test]
fn root_and_empty_have_no_segments() {
    assert_eq!(Path::root(), named(true, &[]));
    assert_eq!(Path::empty(), named(false, &[]));
    assert_eq!(Path::ident_to_path(Ident::new("T")), named(false, &["T"]));
}

#[test]
fn simple_trait_object_of_names() {
    let expected = Type(TypeNode::TraitObject(vec![
        TypeParamBound::Trait(TraitBound {
            lifetimes: Vec::new(),
            path: named(false, &["std", "fmt", "Debug"]),
        }),
        TypeParamBound::Trait(TraitBound { lifetimes: Vec::new(), path: named(false, &["Send"]) }),
    ]));
    assert_eq!(Type::get_simple_trait_object(&["std::fmt::Debug", "Send"]), Some(expected));
    assert_eq!(Type::get_simple_trait_object(&[]), Some(Type(TypeNode::TraitObject(Vec::new()))));
    assert_eq!(Type::get_simple_trait_object(&["Send", "Iterator<Item = u8>"]), None);
}
