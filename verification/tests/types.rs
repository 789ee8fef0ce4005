use bound_inference::data::{Accessor, Data, Field};
use bound_inference::error::InferenceError;
use bound_inference::fresh_generics::ParamRefMap;
use bound_inference::generics::{
    GenericArgument, GenericConstraint, Generics, PredicateType, TraitBound, TypeParamBound,
};
use bound_inference::ident::{GenericParam, Ident, LifetimeRef, TypeParamRef};
use bound_inference::param_map::ParamMap;
use bound_inference::path::{
    AngleBracketedGenericArguments, ParenthesizedGenericArguments, Path, PathArguments,
    PathSegment,
};
use bound_inference::syntax::{
    ArgumentSyntax, ArgumentsSyntax, BoundSyntax, PathSyntax, SegmentSyntax, TypeSyntax,
};
use bound_inference::ty::{Type, TypeNode};

fn param(id: usize) -> Type {
    Type(TypeNode::TypeParam(TypeParamRef(id)))
}

fn path(names: &[&str], args: PathArguments) -> Path {
    let mut segments: Vec<PathSegment> = names
        .iter()
        .map(|name| PathSegment { ident: Ident::new(name), args: PathArguments::Empty })
        .collect();
    segments.last_mut().unwrap().args = args;
    Path { global: false, path: segments }
}

fn angle(args: Vec<GenericArgument>) -> PathArguments {
    PathArguments::AngleBracketed(AngleBracketedGenericArguments { args })
}

fn structure() -> Type {
    Type(TypeNode::DataStructure {
        name: Ident::new("Point"),
        generics: Generics {
            params: vec![GenericParam::Type(TypeParamRef(0))],
            constraints: vec![GenericConstraint::Type(PredicateType {
                lifetimes: Vec::new(),
                bounded_ty: param(0),
                bounds: vec![TypeParamBound::Trait(TraitBound {
                    lifetimes: Vec::new(),
                    path: path(&["Copy"], PathArguments::Empty),
                })],
            })],
        },
        data: Data {
            fields: vec![
                Field { accessor: Accessor::Name(Ident::new("x")), element: param(0) },
                Field { accessor: Accessor::Index(1), element: Type::primitive_str().reference() },
            ],
        },
    })
}

fn written(names: &[&str]) -> PathSyntax {
    PathSyntax {
        leading_colon: false,
        segments: names
            .iter()
            .map(|name| SegmentSyntax { ident: Ident::new(name), arguments: ArgumentsSyntax::Empty })
            .collect(),
    }
}

fn written_type(names: &[&str]) -> TypeSyntax {
    TypeSyntax::Path { qself: false, path: written(names) }
}

fn params() -> ParamMap {
    let mut map = ParamMap::new();
    map.insert(Ident::new("T"), GenericParam::Type(TypeParamRef(3)));
    map.insert(Ident::new("a"), GenericParam::Lifetime(LifetimeRef(5)));
    map
}

#[test]
fn builders_give_the_shapes_they_name() {
    assert_eq!(Type::unit(), Type(TypeNode::Tuple(Vec::new())));
    assert_eq!(Type::tuple(&[]), Type::unit());
    assert_eq!(
        Type::tuple(&[param(0), Type::primitive_str()]),
        Type(TypeNode::Tuple(vec![param(0), Type(TypeNode::PrimitiveStr)]))
    );
    assert_eq!(Type::primitive_str(), Type(TypeNode::PrimitiveStr));
    assert_eq!(
        param(1).reference(),
        Type(TypeNode::Reference { lifetime: None, inner: Box::new(param(1).0) })
    );
    assert_eq!(
        param(1).reference_mut(),
        Type(TypeNode::ReferenceMut { lifetime: None, inner: Box::new(param(1).0) })
    );
    assert_ne!(param(1).reference(), param(1).reference_mut());
}

#[test]
fn dereference_undoes_a_reference() {
    assert_eq!(param(1).reference().dereference(), param(1));
    assert_eq!(param(1).reference_mut().dereference(), param(1));
    let with_lifetime =
        Type(TypeNode::Reference { lifetime: Some(LifetimeRef(2)), inner: Box::new(param(1).0) });
    assert_eq!(with_lifetime.dereference(), param(1));
    assert_eq!(param(1).dereference(), Type(TypeNode::Dereference(Box::new(param(1).0))));
}

#[test]
fn tuple_gives_its_elements() {
    let tuple = Type::tuple(&[param(0), Type::primitive_str()]);
    assert_eq!(tuple.tuple_len(), Some(2));
    assert_eq!(tuple.get_tuple_type(0), param(0));
    assert_eq!(tuple.get_tuple_type(1), Type::primitive_str());
    assert_eq!(param(0).tuple_len(), None);
    assert_eq!(Type::unit().tuple_len(), Some(0));
}

#[test]
fn data_of_a_structure_and_of_references_to_it() {
    let point = structure();
    assert!(point.has_data());
    assert!(point.reference().reference_mut().has_data());
    assert!(!param(0).has_data());
    assert!(!Type::unit().reference().has_data());
    let data = point.data();
    assert_eq!(data.fields.len(), 2);
    assert_eq!(data.fields[0], Field { accessor: Accessor::Name(Ident::new("x")), element: param(0) });
    let shared = Type(TypeNode::Reference {
        lifetime: Some(LifetimeRef(1)),
        inner: Box::new(point.reference_mut().0),
    });
    let fields = shared.data().fields;
    assert_eq!(fields.len(), 2);
    assert_eq!(
        fields[0],
        Field {
            accessor: Accessor::Name(Ident::new("x")),
            element: Type(TypeNode::Reference {
                lifetime: Some(LifetimeRef(1)),
                inner: Box::new(param(0).reference_mut().0),
            }),
        }
    );
    assert_eq!(fields[1].accessor, Accessor::Index(1));
    assert_eq!(
        fields[1].element.dereference(),
        Type::primitive_str().reference().reference_mut()
    );
}

#[test]
fn equality_is_by_structure() {
    assert_eq!(structure(), structure());
    assert_eq!(structure().clone(), structure());
    assert_ne!(structure(), structure().reference());
    assert_ne!(param(0), param(1));
    assert_ne!(Type::tuple(&[param(0)]), Type::tuple(&[param(0), param(0)]));
    assert_ne!(
        Type(TypeNode::Path(path(&["a", "B"], PathArguments::Empty))),
        Type(TypeNode::Path(path(&["B"], PathArguments::Empty)))
    );
    assert_ne!(Path::root(), Path::empty());
    assert_eq!(Ident::new("x"), Ident::new("x").clone());
    assert_ne!(Ident::new("x"), Ident::new("y"));
    assert_eq!(Ident::new("name").as_str(), "name");
}

#[test]
fn generic_parameter_kinds() {
    assert_eq!(GenericParam::Type(TypeParamRef(1)).type_param_ref(), Some(TypeParamRef(1)));
    assert_eq!(GenericParam::Type(TypeParamRef(1)).lifetime_ref(), None);
    assert_eq!(GenericParam::Lifetime(LifetimeRef(2)).lifetime_ref(), Some(LifetimeRef(2)));
    assert_eq!(GenericParam::Lifetime(LifetimeRef(2)).type_param_ref(), None);
}

#[test]
fn generics_that_come_with_a_name() {
    let point = structure();
    let generics = point.reference().generics_of_name().unwrap();
    assert_eq!(generics.params, vec![GenericParam::Type(TypeParamRef(0))]);
    assert_eq!(generics.constraints.len(), 1);
    let of_param = param(4).generics_of_name().unwrap();
    assert_eq!(of_param.params, vec![GenericParam::Type(TypeParamRef(4))]);
    assert!(of_param.constraints.is_empty());
    assert!(Type::unit().generics_of_name().unwrap().params.is_empty());
    assert!(Type::primitive_str().generics_of_name().unwrap().params.is_empty());
    let one = Type::get_simple_trait_object(&["Debug"]).unwrap();
    assert!(one.generics_of_name().unwrap().params.is_empty());
    let two = Type::get_simple_trait_object(&["Debug", "Clone"]).unwrap();
    assert_eq!(two.generics_of_name().err(), Some(InferenceError::UnsupportedConstruct));
    assert_eq!(
        Type(TypeNode::Infer).generics_of_name().err(),
        Some(InferenceError::UnsupportedConstruct)
    );
    assert_eq!(
        param(0).dereference().generics_of_name().err(),
        Some(InferenceError::UnsupportedConstruct)
    );
}

#[test]
fn param_map_keeps_the_latest_entry() {
    let mut map = params();
    assert_eq!(map.get(&Ident::new("T")), Some(GenericParam::Type(TypeParamRef(3))));
    assert_eq!(map.get(&Ident::new("a")), Some(GenericParam::Lifetime(LifetimeRef(5))));
    assert_eq!(map.get(&Ident::new("U")), None);
    map.insert(Ident::new("T"), GenericParam::Type(TypeParamRef(9)));
    assert_eq!(map.get(&Ident::new("T")), Some(GenericParam::Type(TypeParamRef(9))));
    assert_eq!(ParamMap::new().get(&Ident::new("T")), None);
}

#[test]
fn written_name_of_a_parameter_means_the_parameter() {
    assert_eq!(Type::syn_to_type(&written_type(&["T"]), &params()), Ok(param(3)));
    assert_eq!(
        Type::syn_to_type(&written_type(&["U"]), &params()),
        Ok(Type(TypeNode::Path(path(&["U"], PathArguments::Empty))))
    );
    assert_eq!(
        Type::syn_to_type(&written_type(&["m", "T"]), &params()),
        Ok(Type(TypeNode::Path(path(&["m", "T"], PathArguments::Empty))))
    );
    assert_eq!(
        Type::syn_to_type(&written_type(&["a"]), &params()),
        Err(InferenceError::InternalInconsistency)
    );
    let mut global = written(&["T"]);
    global.leading_colon = true;
    assert_eq!(
        Type::syn_to_type(&TypeSyntax::Path { qself: false, path: global }, &params()),
        Ok(Type(TypeNode::Path(Path {
            global: true,
            path: vec![PathSegment { ident: Ident::new("T"), args: PathArguments::Empty }],
        })))
    );
}

#[test]
fn written_types_that_are_not_handled() {
    assert_eq!(
        Type::syn_to_type(&TypeSyntax::Path { qself: true, path: written(&["T"]) }, &params()),
        Err(InferenceError::UnsupportedConstruct)
    );
    assert_eq!(
        Type::syn_to_type(&TypeSyntax::Other, &params()),
        Err(InferenceError::UnsupportedConstruct)
    );
    let unknown = TypeSyntax::Reference {
        lifetime: Some(Ident::new("b")),
        mutable: false,
        elem: Box::new(written_type(&["T"])),
    };
    assert_eq!(Type::syn_to_type(&unknown, &params()), Err(InferenceError::UnsupportedConstruct));
    let constant = PathSyntax {
        leading_colon: false,
        segments: vec![SegmentSyntax {
            ident: Ident::new("Array"),
            arguments: ArgumentsSyntax::AngleBracketed(vec![ArgumentSyntax::Other]),
        }],
    };
    assert_eq!(
        Path::syn_to_path(&constant, &params()),
        Err(InferenceError::UnsupportedConstruct)
    );
}

#[test]
fn written_references_and_tuples() {
    let shared = TypeSyntax::Reference {
        lifetime: Some(Ident::new("a")),
        mutable: false,
        elem: Box::new(written_type(&["T"])),
    };
    assert_eq!(
        Type::syn_to_type(&shared, &params()),
        Ok(Type(TypeNode::Reference { lifetime: Some(LifetimeRef(5)), inner: Box::new(param(3).0) }))
    );
    let unique =
        TypeSyntax::Reference { lifetime: None, mutable: true, elem: Box::new(written_type(&["T"])) };
    assert_eq!(Type::syn_to_type(&unique, &params()), Ok(param(3).reference_mut()));
    let empty = TypeSyntax::Tuple { elems: Vec::new(), trailing_punct: false };
    assert_eq!(Type::syn_to_type(&empty, &params()), Ok(Type::unit()));
    let grouped = TypeSyntax::Tuple { elems: vec![written_type(&["T"])], trailing_punct: false };
    assert_eq!(Type::syn_to_type(&grouped, &params()), Ok(param(3)));
    let single = TypeSyntax::Tuple { elems: vec![written_type(&["T"])], trailing_punct: true };
    assert_eq!(Type::syn_to_type(&single, &params()), Ok(Type::tuple(&[param(3)])));
    let pair = TypeSyntax::Tuple {
        elems: vec![written_type(&["T"]), written_type(&["U"])],
        trailing_punct: false,
    };
    assert_eq!(
        Type::syn_to_type(&pair, &params()),
        Ok(Type::tuple(&[param(3), Type(TypeNode::Path(path(&["U"], PathArguments::Empty)))]))
    );
}

#[test]
fn written_paths_with_arguments() {
    let generic = PathSyntax {
        leading_colon: false,
        segments: vec![
            SegmentSyntax { ident: Ident::new("std"), arguments: ArgumentsSyntax::Empty },
            SegmentSyntax {
                ident: Ident::new("Cow"),
                arguments: ArgumentsSyntax::AngleBracketed(vec![
                    ArgumentSyntax::Lifetime(Ident::new("a")),
                    ArgumentSyntax::Type(written_type(&["T"])),
                ]),
            },
        ],
    };
    assert_eq!(
        Path::syn_to_path(&generic, &params()),
        Ok(path(
            &["std", "Cow"],
            angle(vec![GenericArgument::Lifetime(LifetimeRef(5)), GenericArgument::Type(param(3))])
        ))
    );
    let function = SegmentSyntax {
        ident: Ident::new("Fn"),
        arguments: ArgumentsSyntax::Parenthesized {
            inputs: vec![written_type(&["T"])],
            output: Some(Box::new(written_type(&["T"]))),
        },
    };
    assert_eq!(
        Path::syn_to_path_segment(&function, &params()),
        Ok(PathSegment {
            ident: Ident::new("Fn"),
            args: PathArguments::Parenthesized(ParenthesizedGenericArguments {
                inputs: vec![param(3)],
                output: Some(param(3)),
            }),
        })
    );
}

#[test]
fn written_trait_objects() {
    let bounds = vec![BoundSyntax::Trait(written(&["Debug"])), BoundSyntax::Lifetime(Ident::new("a"))];
    let expected = Type(TypeNode::TraitObject(vec![
        TypeParamBound::Trait(TraitBound {
            lifetimes: Vec::new(),
            path: path(&["Debug"], PathArguments::Empty),
        }),
        TypeParamBound::Lifetime(LifetimeRef(5)),
    ]));
    assert_eq!(Type::get_trait_object(&bounds, &params()), Ok(expected.clone()));
    let written_object = TypeSyntax::TraitObject(vec![
        BoundSyntax::Trait(written(&["Debug"])),
        BoundSyntax::Lifetime(Ident::new("a")),
    ]);
    assert_eq!(Type::syn_to_type(&written_object, &params()), Ok(expected));
    assert_eq!(
        Type::get_trait_object(&vec![BoundSyntax::Lifetime(Ident::new("T"))], &params()),
        Err(InferenceError::UnsupportedConstruct)
    );
}

fn refs() -> ParamRefMap {
    let mut map = ParamRefMap::new();
    map.insert(GenericParam::Type(TypeParamRef(0)), GenericParam::Type(TypeParamRef(10)));
    map.insert(GenericParam::Type(TypeParamRef(1)), GenericParam::Type(TypeParamRef(11)));
    map.insert(GenericParam::Lifetime(LifetimeRef(0)), GenericParam::Lifetime(LifetimeRef(20)));
    map.insert(GenericParam::Lifetime(LifetimeRef(1)), GenericParam::Type(TypeParamRef(12)));
    map
}

#[test]
fn param_ref_map_tells_kinds_apart() {
    let map = refs();
    assert_eq!(map.get(GenericParam::Type(TypeParamRef(0))), Some(GenericParam::Type(TypeParamRef(10))));
    assert_eq!(
        map.get(GenericParam::Lifetime(LifetimeRef(0))),
        Some(GenericParam::Lifetime(LifetimeRef(20)))
    );
    assert_eq!(map.get(GenericParam::Type(TypeParamRef(2))), None);
    assert_eq!(ParamRefMap::new().get(GenericParam::Lifetime(LifetimeRef(0))), None);
}

#[test]
fn fresh_generics_replace_every_parameter() {
    let ty = Type::tuple(&[
        param(0),
        Type(TypeNode::Reference { lifetime: Some(LifetimeRef(0)), inner: Box::new(param(1).0) }),
        Type(TypeNode::Path(path(
            &["Cow"],
            angle(vec![GenericArgument::Lifetime(LifetimeRef(0)), GenericArgument::Type(param(0))]),
        ))),
        Type::primitive_str(),
        Type(TypeNode::Infer),
        param(1).dereference(),
        Type(TypeNode::TraitObject(vec![
            TypeParamBound::Trait(TraitBound {
                lifetimes: vec![LifetimeRef(0)],
                path: path(&["From"], angle(vec![GenericArgument::Type(param(1))])),
            }),
            TypeParamBound::Lifetime(LifetimeRef(0)),
        ])),
    ]);
    let expected = Type::tuple(&[
        param(10),
        Type(TypeNode::Reference { lifetime: Some(LifetimeRef(20)), inner: Box::new(param(11).0) }),
        Type(TypeNode::Path(path(
            &["Cow"],
            angle(vec![GenericArgument::Lifetime(LifetimeRef(20)), GenericArgument::Type(param(10))]),
        ))),
        Type::primitive_str(),
        Type(TypeNode::Infer),
        param(11).dereference(),
        Type(TypeNode::TraitObject(vec![
            TypeParamBound::Trait(TraitBound {
                lifetimes: vec![LifetimeRef(20)],
                path: path(&["From"], angle(vec![GenericArgument::Type(param(11))])),
            }),
            TypeParamBound::Lifetime(LifetimeRef(20)),
        ])),
    ]);
    assert_eq!(ty.clone_with_fresh_generics(&refs()), Ok(expected));
    let function = ParenthesizedGenericArguments { inputs: vec![param(0)], output: Some(param(1)) };
    assert_eq!(
        function.clone_with_fresh_generics(&refs()),
        Ok(ParenthesizedGenericArguments { inputs: vec![param(10)], output: Some(param(11)) })
    );
    let arguments = AngleBracketedGenericArguments { args: vec![GenericArgument::Type(param(1))] };
    assert_eq!(
        arguments.clone_with_fresh_generics(&refs()),
        Ok(AngleBracketedGenericArguments { args: vec![GenericArgument::Type(param(11))] })
    );
}

#[test]
fn fresh_generics_need_an_entry_of_the_right_kind() {
    assert_eq!(
        param(5).clone_with_fresh_generics(&refs()),
        Err(InferenceError::InternalInconsistency)
    );
    let lifetime =
        Type(TypeNode::Reference { lifetime: Some(LifetimeRef(1)), inner: Box::new(param(0).0) });
    assert_eq!(
        lifetime.clone_with_fresh_generics(&refs()),
        Err(InferenceError::InternalInconsistency)
    );
    assert_eq!(
        structure().clone_with_fresh_generics(&refs()),
        Err(InferenceError::UnsupportedConstruct)
    );
    assert_eq!(
        path(&["Vec"], angle(vec![GenericArgument::Type(param(7))]))
            .clone_with_fresh_generics(&refs()),
        Err(InferenceError::InternalInconsistency)
    );
}
