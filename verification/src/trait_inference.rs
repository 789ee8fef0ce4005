//! The trait bounds of an implementation, gathered from the calls that its
//! functions make.

use crate::equality_sets::{
    came_to, insert_unique, underway, unify_each, ConstraintSet, Inference, SetsView,
    TypeEqualitySets,
};
use crate::error::InferenceError;
use crate::generics::{
    constraints_view, ArgumentView, ConstraintView, GenericArgument, Generics, GenericsView,
};
use crate::ident::GenericParam;
use crate::most_concrete::{most_concrete_of_set, MostConcreteTypeMap, Resolved};
use crate::path::{Path, PathArguments, SegmentView};
use crate::relevance::{most_relevant_constraint, SetRefs};
use crate::ty::{types_view, Type, TypeNode, TypeView};
use crate::laws::lemma_unify_each_grows;
use crate::relevance_laws::{lemma_gather_segments_wf, lemma_gather_type_wf, lemma_relevant_sets_wf};
use vstd::prelude::*;

verus! {

/// The types of the parameters of a function, and the generic parameters
/// and constraints that it declares.
#[derive(Debug)]
pub struct Signature {
    pub generics: Option<Generics>,
    pub inputs: Vec<Type>,
}

/// The type or trait that a function belongs to.
#[derive(Debug)]
pub struct Parent {
    pub generics: Option<Generics>,
}

/// A function that can be called.
#[derive(Debug)]
pub struct Function {
    pub parent: Option<Parent>,
    pub sig: Signature,
}

/// One recorded call: the function called, and the types of the values
/// handed to it, in order.
#[derive(Debug)]
pub struct Invoke {
    pub function: Function,
    pub args: Vec<Type>,
}

/// A function of the implementation, with the calls that its body makes.
#[derive(Debug)]
pub struct CompleteFunction {
    pub invokes: Vec<Invoke>,
}

/// An implementation: the type that it is for, the trait that it
/// implements if there is one, and its functions.
#[derive(Debug)]
pub struct CompleteImpl {
    pub trait_ty: Option<Parent>,
    pub ty: Type,
    pub functions: Vec<CompleteFunction>,
}

pub struct InvokeView {
    pub parent_generics: Option<GenericsView>,
    pub generics: Option<GenericsView>,
    pub inputs: Seq<TypeView>,
    pub args: Seq<TypeView>,
}

pub struct CompleteImplView {
    pub trait_generics: Option<GenericsView>,
    pub ty: TypeView,
    pub functions: Seq<Seq<InvokeView>>,
}

/// The view of generics that may be missing.
pub open spec fn optional_generics_view(generics: Option<Generics>) -> Option<GenericsView> {
    match generics {
        Some(generics) => Some(generics@),
        None => None,
    }
}

impl Parent {
    pub open spec fn view(&self) -> Option<GenericsView> {
        optional_generics_view(self.generics)
    }
}

/// The generics of a parent that may be missing.
pub open spec fn parent_generics_view(parent: Option<Parent>) -> Option<GenericsView> {
    match parent {
        Some(parent) => parent@,
        None => None,
    }
}

impl Invoke {
    pub open spec fn view(&self) -> InvokeView {
        InvokeView {
            parent_generics: parent_generics_view(self.function.parent),
            generics: optional_generics_view(self.function.sig.generics),
            inputs: types_view(self.function.sig.inputs@),
            args: types_view(self.args@),
        }
    }
}

/// The views of a list of calls.
pub open spec fn invokes_view(s: Seq<Invoke>) -> Seq<InvokeView> {
    Seq::new(s.len(), |i: int| s[i]@)
}

impl CompleteFunction {
    pub open spec fn view(&self) -> Seq<InvokeView> {
        invokes_view(self.invokes@)
    }
}

/// The views of a list of functions.
pub open spec fn functions_view(s: Seq<CompleteFunction>) -> Seq<Seq<InvokeView>> {
    Seq::new(s.len(), |i: int| s[i]@)
}

impl CompleteImpl {
    pub open spec fn view(&self) -> CompleteImplView {
        CompleteImplView {
            trait_generics: parent_generics_view(self.trait_ty),
            ty: self.ty@,
            functions: functions_view(self.functions@),
        }
    }
}

/// The constraints with those of `declared` from place `i` on added, each
/// unless it is there already.
pub open spec fn declare(
    constraints: Seq<ConstraintView>,
    declared: Seq<ConstraintView>,
    i: int,
) -> Seq<ConstraintView>
    decreases declared.len() - i,
{
    if i < 0 || i >= declared.len() {
        constraints
    } else {
        declare(insert_unique(constraints, declared[i]), declared, i + 1)
    }
}

/// The constraints with those that some generics declare added, if there
/// are generics.
pub open spec fn declare_generics(
    constraints: Seq<ConstraintView>,
    generics: Option<GenericsView>,
) -> Seq<ConstraintView> {
    match generics {
        Some(generics) => declare(constraints, generics.constraints, 0),
        None => constraints,
    }
}

/// The pass after one call: the type of each argument is unified with the
/// type of the parameter that it goes to, then the constraints that the
/// owner of the called function declares are added, then those of the
/// function itself.
pub open spec fn invoke_pass(pass: Inference, invoke: InvokeView) -> Inference {
    let unified = unify_each(pass, invoke.inputs, invoke.args, 0);
    if unified.failure is Some {
        unified
    } else {
        Inference {
            sets: unified.sets,
            constraints: declare_generics(
                declare_generics(unified.constraints, invoke.parent_generics),
                invoke.generics,
            ),
            failure: None,
        }
    }
}

/// The pass after the calls of one function from place `i` on.
pub open spec fn function_pass(pass: Inference, invokes: Seq<InvokeView>, i: int) -> Inference
    decreases invokes.len() - i,
{
    if pass.failure is Some || i < 0 || i >= invokes.len() {
        pass
    } else {
        function_pass(invoke_pass(pass, invokes[i]), invokes, i + 1)
    }
}

/// The calls of a function keep a store well formed.
pub proof fn lemma_function_pass_wf(pass: Inference, invokes: Seq<InvokeView>, i: int)
    requires
        pass.sets.wf(),
    ensures
        function_pass(pass, invokes, i).sets.wf(),
    decreases invokes.len() - i,
{
    if pass.failure is Some || i < 0 || i >= invokes.len() {
    } else {
        lemma_unify_each_grows(pass, invokes[i].inputs, invokes[i].args, 0);
        lemma_function_pass_wf(invoke_pass(pass, invokes[i]), invokes, i + 1);
    }
}

/// The pass after the functions from place `i` on.
pub open spec fn functions_pass(pass: Inference, functions: Seq<Seq<InvokeView>>, i: int) -> Inference
    decreases functions.len() - i,
{
    if pass.failure is Some || i < 0 || i >= functions.len() {
        pass
    } else {
        functions_pass(function_pass(pass, functions[i], 0), functions, i + 1)
    }
}

/// Where gathering the sets of type parameters stands: the store, in which
/// a parameter that was in no set gets one, the sets gathered, and the
/// failure that ended it, if one did.
pub struct Gathered {
    pub sets: SetsView,
    pub refs: Set<int>,
    pub failure: Option<InferenceError>,
}

impl Gathered {
    /// The gathering, ended by `error`.
    pub open spec fn fail(self, error: InferenceError) -> Gathered {
        Gathered { sets: self.sets, refs: self.refs, failure: Some(error) }
    }

    /// The gathering after the set of the type parameter `ty` was added. A
    /// parameter that is in no set gets a new one first.
    pub open spec fn gather(self, ty: TypeView) -> Gathered {
        match self.sets.get_set_ref(ty) {
            Some(set_ref) => Gathered {
                sets: self.sets,
                refs: self.refs.insert(set_ref),
                failure: self.failure,
            },
            None => Gathered {
                sets: self.sets.new_set(ty),
                refs: self.refs.insert(self.sets.sets.len() as int),
                failure: self.failure,
            },
        }
    }
}

/// The gathering after the sets of the type parameters in `ty` were added:
/// of `ty` itself where it is a type parameter, else of those in the
/// elements of a tuple, behind a reference and among the generic arguments
/// of a path.
pub open spec fn gather_type(gathered: Gathered, ty: TypeView) -> Gathered
    decreases ty, 0int,
{
    if gathered.failure is Some {
        gathered
    } else if ty is Tuple {
        gather_types(gathered, ty->Tuple_0, 0)
    } else if ty is Reference {
        gather_type(gathered, *ty->Reference_inner)
    } else if ty is ReferenceMut {
        gather_type(gathered, *ty->ReferenceMut_inner)
    } else if ty is Path {
        gather_segments(gathered, ty->Path_0.segments, 0)
    } else if ty is TypeParam {
        gathered.gather(ty)
    } else {
        gathered
    }
}

/// The gathering after the types from place `i` on were gone through.
pub open spec fn gather_types(gathered: Gathered, types: Seq<TypeView>, i: int) -> Gathered
    decreases types, types.len() - i,
{
    if gathered.failure is Some || i < 0 || i >= types.len() {
        gathered
    } else {
        gather_types(gather_type(gathered, types[i]), types, i + 1)
    }
}

/// The gathering after the segments of a path from place `i` on were gone
/// through. Parenthesized arguments are not handled.
pub open spec fn gather_segments(gathered: Gathered, segments: Seq<SegmentView>, i: int) -> Gathered
    decreases segments, segments.len() - i,
{
    if gathered.failure is Some || i < 0 || i >= segments.len() {
        gathered
    } else if segments[i].args is Empty {
        gather_segments(gathered, segments, i + 1)
    } else if segments[i].args is AngleBracketed {
        gather_segments(
            gather_arguments(gathered, segments[i].args->AngleBracketed_0, 0),
            segments,
            i + 1,
        )
    } else {
        gathered.fail(InferenceError::UnsupportedConstruct)
    }
}

/// The gathering after the generic arguments from place `i` on were gone
/// through. Lifetimes are not handled.
pub open spec fn gather_arguments(gathered: Gathered, arguments: Seq<ArgumentView>, i: int) -> Gathered
    decreases arguments, arguments.len() - i,
{
    if gathered.failure is Some || i < 0 || i >= arguments.len() {
        gathered
    } else if arguments[i] is Type {
        gather_arguments(gather_type(gathered, arguments[i]->Type_0), arguments, i + 1)
    } else {
        gathered.fail(InferenceError::UnsupportedConstruct)
    }
}

/// Whether a store, a set of sets and a result are what a gathering came to.
pub open spec fn gathered_to(
    gathered: Gathered,
    sets: SetsView,
    refs: Set<int>,
    res: Result<(), InferenceError>,
) -> bool {
    &&& gathered.sets == sets
    &&& gathered.refs == refs
    &&& gathered.failure == match res {
        Ok(_) => None,
        Err(error) => Some(error),
    }
}

/// A gathering that has not failed.
pub open spec fn gathering(sets: SetsView, refs: Set<int>) -> Gathered {
    Gathered { sets, refs, failure: None }
}

impl TypeNode {
    /// Adds the sets of the type parameters in this type to
    /// `generic_param_set_refs`.
    #[verifier::loop_isolation(false)]
    pub fn inner_param_set_refs(
        &self,
        type_equality_sets: &mut TypeEqualitySets,
        generic_param_set_refs: &mut SetRefs,
    ) -> (res: Result<(), InferenceError>)
        ensures
            gathered_to(
                gather_type(
                    gathering(old(type_equality_sets)@, old(generic_param_set_refs)@),
                    self@,
                ),
                final(type_equality_sets)@,
                final(generic_param_set_refs)@,
                res,
            ),
            old(type_equality_sets)@.wf() ==> final(type_equality_sets)@.wf(),
        decreases self@, 0int,
    {
        proof {
            if type_equality_sets@.wf() {
                lemma_gather_type_wf(gathering(type_equality_sets@, generic_param_set_refs@), self@);
            }
        }
        match self {
            TypeNode::Tuple(types) => {
                let ghost views = types_view(types@);
                let ghost goal = gather_types(
                    gathering(type_equality_sets@, generic_param_set_refs@),
                    views,
                    0,
                );
                let mut i: usize = 0;
                while i < types.len()
                    invariant
                        i <= types.len(),
                        gather_types(
                            gathering(type_equality_sets@, generic_param_set_refs@),
                            views,
                            i as int,
                        ) == goal,
                    decreases types.len() - i,
                {
                    let ghost before = gathering(type_equality_sets@, generic_param_set_refs@);
                    assert(views[i as int] == types@[i as int]@);
                    match types[i].0.inner_param_set_refs(type_equality_sets, generic_param_set_refs) {
                        Ok(()) => {},
                        Err(error) => {
                            let ghost failed = gather_type(before, views[i as int]);
                            assert(gather_types(failed, views, i + 1) == failed);
                            return Err(error);
                        },
                    }
                    i += 1;
                }
                Ok(())
            },
            TypeNode::Reference { inner, .. } => inner.inner_param_set_refs(
                type_equality_sets,
                generic_param_set_refs,
            ),
            TypeNode::ReferenceMut { inner, .. } => inner.inner_param_set_refs(
                type_equality_sets,
                generic_param_set_refs,
            ),
            TypeNode::Path(path) => path.inner_param_set_refs(
                type_equality_sets,
                generic_param_set_refs,
            ),
            TypeNode::TypeParam(type_param_ref) => {
                let set_ref = match type_equality_sets.get_set_ref(
                    &Type(TypeNode::TypeParam(*type_param_ref)),
                ) {
                    Some(set_ref) => set_ref,
                    None => type_equality_sets.new_set(Type(TypeNode::TypeParam(*type_param_ref))),
                };
                generic_param_set_refs.insert(set_ref);
                Ok(())
            },
            _ => Ok(()),
        }
    }
}

impl Path {
    /// Adds the sets of the type parameters among the generic arguments of
    /// this path to `generic_param_set_refs`.
    #[verifier::loop_isolation(false)]
    pub fn inner_param_set_refs(
        &self,
        type_equality_sets: &mut TypeEqualitySets,
        generic_param_set_refs: &mut SetRefs,
    ) -> (res: Result<(), InferenceError>)
        ensures
            gathered_to(
                gather_segments(
                    gathering(old(type_equality_sets)@, old(generic_param_set_refs)@),
                    self@.segments,
                    0,
                ),
                final(type_equality_sets)@,
                final(generic_param_set_refs)@,
                res,
            ),
            old(type_equality_sets)@.wf() ==> final(type_equality_sets)@.wf(),
        decreases self@, 0int,
    {
        proof {
            if type_equality_sets@.wf() {
                lemma_gather_segments_wf(
                    gathering(type_equality_sets@, generic_param_set_refs@),
                    self@.segments,
                    0,
                );
            }
        }
        let ghost segments = self@.segments;
        let ghost goal = gather_segments(
            gathering(type_equality_sets@, generic_param_set_refs@),
            segments,
            0,
        );
        let mut i: usize = 0;
        while i < self.path.len()
            invariant
                i <= self.path.len(),
                gather_segments(
                    gathering(type_equality_sets@, generic_param_set_refs@),
                    segments,
                    i as int,
                ) == goal,
            decreases self.path.len() - i,
        {
            assert(segments[i as int] == self.path@[i as int]@);
            match &self.path[i].args {
                PathArguments::Empty => {},
                PathArguments::AngleBracketed(args) => {
                    let ghost arguments = args@;
                    let ghost inner_goal = gather_arguments(
                        gathering(type_equality_sets@, generic_param_set_refs@),
                        arguments,
                        0,
                    );
                    let mut j: usize = 0;
                    while j < args.args.len()
                        invariant
                            j <= args.args.len(),
                            gather_arguments(
                                gathering(type_equality_sets@, generic_param_set_refs@),
                                arguments,
                                j as int,
                            ) == inner_goal,
                        decreases args.args.len() - j,
                    {
                        let ghost before = gathering(type_equality_sets@, generic_param_set_refs@);
                        assert(arguments[j as int] == args.args@[j as int]@);
                        match &args.args[j] {
                            GenericArgument::Type(ty) => {
                                match ty.0.inner_param_set_refs(
                                    type_equality_sets,
                                    generic_param_set_refs,
                                ) {
                                    Ok(()) => {},
                                    Err(error) => {
                                        let ghost failed = gather_type(
                                            before,
                                            arguments[j as int]->Type_0,
                                        );
                                        assert(gather_arguments(failed, arguments, j + 1) == failed);
                                        assert(gather_segments(failed, segments, i + 1) == failed);
                                        return Err(error);
                                    },
                                }
                            },
                            GenericArgument::Lifetime(_) => {
                                let ghost failed = before.fail(InferenceError::UnsupportedConstruct);
                                assert(gather_segments(failed, segments, i + 1) == failed);
                                return Err(InferenceError::UnsupportedConstruct);
                            },
                        }
                        j += 1;
                    }
                },
                PathArguments::Parenthesized(_) => {
                    return Err(InferenceError::UnsupportedConstruct);
                },
            }
            i += 1;
        }
        Ok(())
    }
}

/// Where finding the relevant sets stands: the store, the types noted, the
/// sets whose most concrete type was looked through, the relevant sets
/// found, and the failure that ended it, if one did.
pub struct Closure {
    pub sets: SetsView,
    pub memo: Map<int, TypeView>,
    pub checked: Set<int>,
    pub relevant: Set<int>,
    pub failure: Option<InferenceError>,
}

impl Closure {
    /// The search, ended by `error`.
    pub open spec fn fail(self, error: InferenceError) -> Closure {
        Closure {
            sets: self.sets,
            memo: self.memo,
            checked: self.checked,
            relevant: self.relevant,
            failure: Some(error),
        }
    }

    /// The search after one generic parameter: where its set was not looked
    /// through before, the sets of the type parameters in the most concrete
    /// type of that set are relevant. A parameter that is in no set gets a
    /// new one first. Only type parameters are handled.
    pub open spec fn step(self, param: GenericParam) -> Closure {
        match param {
            GenericParam::Lifetime(_) => self.fail(InferenceError::UnsupportedConstruct),
            GenericParam::Type(type_param_ref) => {
                let ty = TypeView::TypeParam(type_param_ref);
                let sets = match self.sets.get_set_ref(ty) {
                    Some(_) => self.sets,
                    None => self.sets.new_set(ty),
                };
                let set_ref = match self.sets.get_set_ref(ty) {
                    Some(set_ref) => set_ref,
                    None => self.sets.sets.len() as int,
                };
                if self.checked.contains(set_ref) {
                    Closure {
                        sets,
                        memo: self.memo,
                        checked: self.checked,
                        relevant: self.relevant,
                        failure: self.failure,
                    }
                } else {
                    let found = most_concrete_of_set(sets, self.memo, set_ref);
                    match found.outcome {
                        Ok(node) => {
                            let gathered = gather_type(gathering(sets, self.relevant), node);
                            Closure {
                                sets: gathered.sets,
                                memo: found.memo,
                                checked: self.checked.insert(set_ref),
                                relevant: gathered.refs,
                                failure: gathered.failure,
                            }
                        },
                        Err(error) => Closure {
                            sets,
                            memo: found.memo,
                            checked: self.checked.insert(set_ref),
                            relevant: self.relevant,
                            failure: Some(error),
                        },
                    }
                }
            },
        }
    }
}

/// The search for the relevant sets after the generic parameters from place
/// `i` on.
pub open spec fn relevant_sets(closure: Closure, params: Seq<GenericParam>, i: int) -> Closure
    decreases params.len() - i,
{
    if closure.failure is Some || i < 0 || i >= params.len() {
        closure
    } else {
        relevant_sets(closure.step(params[i]), params, i + 1)
    }
}

/// A search for the relevant sets that has found none yet.
pub open spec fn searching(sets: SetsView, memo: Map<int, TypeView>) -> Closure {
    Closure { sets, memo, checked: Set::empty(), relevant: Set::empty(), failure: None }
}

/// Find all equality sets of the generic parameters related to the data
/// structure or trait that is being implemented, including inner parameters
/// of other types like: the T in some::path<T>
#[verifier::loop_isolation(false)]
pub fn generic_param_set_refs(
    relevant_generic_params: &Vec<GenericParam>,
    most_concrete_type_map: &mut MostConcreteTypeMap,
    type_equality_sets: &mut TypeEqualitySets,
) -> (res: Result<SetRefs, InferenceError>)
    ensures
        ({
            let closure = relevant_sets(
                searching(old(type_equality_sets)@, old(most_concrete_type_map)@),
                relevant_generic_params@,
                0,
            );
            &&& final(type_equality_sets)@ == closure.sets
            &&& final(most_concrete_type_map)@ == closure.memo
            &&& match res {
                Ok(set_refs) => closure.failure is None && set_refs@ == closure.relevant,
                Err(error) => closure.failure == Some(error),
            }
        }),
        old(type_equality_sets)@.wf() ==> final(type_equality_sets)@.wf(),
{
    proof {
        if type_equality_sets@.wf() {
            lemma_relevant_sets_wf(
                searching(type_equality_sets@, most_concrete_type_map@),
                relevant_generic_params@,
                0,
            );
        }
    }
    let ghost params = relevant_generic_params@;
    let ghost goal = relevant_sets(
        searching(type_equality_sets@, most_concrete_type_map@),
        params,
        0,
    );
    let mut generic_param_set_refs = SetRefs::new();
    let mut checked_set_refs = SetRefs::new();
    let mut i: usize = 0;
    while i < relevant_generic_params.len()
        invariant
            i <= relevant_generic_params.len(),
            relevant_sets(
                Closure {
                    sets: type_equality_sets@,
                    memo: most_concrete_type_map@,
                    checked: checked_set_refs@,
                    relevant: generic_param_set_refs@,
                    failure: None,
                },
                params,
                i as int,
            ) == goal,
        decreases relevant_generic_params.len() - i,
    {
        let ghost before = Closure {
            sets: type_equality_sets@,
            memo: most_concrete_type_map@,
            checked: checked_set_refs@,
            relevant: generic_param_set_refs@,
            failure: None,
        };
        let ghost after = before.step(params[i as int]);
        let type_param_ref = match relevant_generic_params[i].type_param_ref() {
            Some(type_param_ref) => type_param_ref,
            None => {
                assert(relevant_sets(after, params, i + 1) == after);
                return Err(InferenceError::UnsupportedConstruct);
            },
        };
        let set_ref = match type_equality_sets.get_set_ref(
            &Type(TypeNode::TypeParam(type_param_ref)),
        ) {
            Some(set_ref) => set_ref,
            None => type_equality_sets.new_set(Type(TypeNode::TypeParam(type_param_ref))),
        };
        if !checked_set_refs.contains(set_ref) {
            checked_set_refs.insert(set_ref);
            let node = match set_ref.make_most_concrete(most_concrete_type_map, type_equality_sets) {
                Ok(node) => node,
                Err(error) => {
                    assert(relevant_sets(after, params, i + 1) == after);
                    return Err(error);
                },
            };
            match node.inner_param_set_refs(type_equality_sets, &mut generic_param_set_refs) {
                Ok(()) => {},
                Err(error) => {
                    assert(relevant_sets(after, params, i + 1) == after);
                    return Err(error);
                },
            }
        }
        i += 1;
    }
    Ok(generic_param_set_refs)
}

/// The relevant ones among the constraints from place `i` on, each in its
/// most concrete form and once, behind those that were found before.
pub open spec fn most_relevant_constraints(
    sets: SetsView,
    relevant: Set<int>,
    memo: Map<int, TypeView>,
    constraints: Seq<ConstraintView>,
    i: int,
    found: Seq<ConstraintView>,
) -> Resolved<Seq<ConstraintView>>
    decreases constraints.len() - i,
{
    if i < 0 || i >= constraints.len() {
        Resolved { memo, outcome: Ok(found) }
    } else {
        let step = most_relevant_constraint(sets, relevant, memo, constraints[i]);
        match step.outcome {
            Ok(Some(constraint)) => most_relevant_constraints(
                sets,
                relevant,
                step.memo,
                constraints,
                i + 1,
                insert_unique(found, constraint),
            ),
            Ok(None) => most_relevant_constraints(sets, relevant, step.memo, constraints, i + 1, found),
            Err(error) => Resolved { memo: step.memo, outcome: Err(error) },
        }
    }
}

impl ConstraintSet {
    /// The relevant ones among the constraints, each in its most concrete
    /// form.
    #[verifier::loop_isolation(false)]
    pub fn make_most_relevant(
        &self,
        most_concrete_type_map: &mut MostConcreteTypeMap,
        type_equality_sets: &TypeEqualitySets,
        relevant_generic_params: &SetRefs,
    ) -> (res: Result<ConstraintSet, InferenceError>)
        ensures
            ({
                let found = most_relevant_constraints(
                    type_equality_sets@,
                    relevant_generic_params@,
                    old(most_concrete_type_map)@,
                    self@,
                    0,
                    Seq::empty(),
                );
                &&& final(most_concrete_type_map)@ == found.memo
                &&& match res {
                    Ok(set) => found.outcome == Ok::<Seq<ConstraintView>, InferenceError>(set@),
                    Err(error) => found.outcome == Err::<Seq<ConstraintView>, InferenceError>(error),
                }
            }),
    {
        let ghost goal = most_relevant_constraints(
            type_equality_sets@,
            relevant_generic_params@,
            most_concrete_type_map@,
            self@,
            0,
            Seq::empty(),
        );
        let mut constraints = ConstraintSet::new();
        let mut i: usize = 0;
        while i < self.len()
            invariant
                i <= self@.len(),
                most_relevant_constraints(
                    type_equality_sets@,
                    relevant_generic_params@,
                    most_concrete_type_map@,
                    self@,
                    i as int,
                    constraints@,
                ) == goal,
            decreases self@.len() - i,
        {
            match self.get(i).clone().make_most_relevant(
                most_concrete_type_map,
                type_equality_sets,
                relevant_generic_params,
            ) {
                Ok(Some(constraint)) => {
                    constraints.insert(constraint);
                },
                Ok(None) => {},
                Err(error) => {
                    return Err(error);
                },
            }
            i += 1;
        }
        Ok(constraints)
    }

    /// Adds the constraints that some generics declare, each unless it is
    /// there already.
    pub fn declare(&mut self, generics: &Generics)
        ensures
            final(self)@ == declare(old(self)@, generics@.constraints, 0),
    {
        let ghost declared = generics@.constraints;
        let ghost goal = declare(self@, declared, 0);
        let mut i: usize = 0;
        while i < generics.constraints.len()
            invariant
                i <= generics.constraints.len(),
                declared == constraints_view(generics.constraints@),
                declare(self@, declared, i as int) == goal,
            decreases generics.constraints.len() - i,
        {
            assert(declared[i as int] == generics.constraints@[i as int]@);
            if !self.contains(&generics.constraints[i]) {
                self.insert(generics.constraints[i].clone());
            }
            i += 1;
        }
    }
}

impl CompleteFunction {
    /// Takes in the calls that the function makes: unifies the type of each
    /// argument with the type of the parameter that it goes to, and adds
    /// the constraints that the called functions and their owners declare.
    #[verifier::loop_isolation(false)]
    pub fn compute_trait_bounds(
        &self,
        constraints: &mut ConstraintSet,
        type_equality_sets: &mut TypeEqualitySets,
    ) -> (res: Result<(), InferenceError>)
        ensures
            came_to(
                function_pass(underway(old(type_equality_sets)@, old(constraints)@), self@, 0),
                final(type_equality_sets)@,
                final(constraints)@,
                res,
            ),
            old(type_equality_sets)@.wf() ==> final(type_equality_sets)@.wf(),
    {
        proof {
            if type_equality_sets@.wf() {
                lemma_function_pass_wf(underway(type_equality_sets@, constraints@), self@, 0);
            }
        }
        let ghost invokes = self@;
        let ghost goal = function_pass(underway(type_equality_sets@, constraints@), invokes, 0);
        let mut i: usize = 0;
        while i < self.invokes.len()
            invariant
                i <= self.invokes.len(),
                function_pass(underway(type_equality_sets@, constraints@), invokes, i as int) == goal,
            decreases self.invokes.len() - i,
        {
            let invoke = &self.invokes[i];
            let parent = &invoke.function.parent;
            let sig = &invoke.function.sig;
            let ghost before = underway(type_equality_sets@, constraints@);
            let ghost inputs = types_view(sig.inputs@);
            let ghost args = types_view(invoke.args@);
            assert(invokes[i as int] == invoke@);
            let mut j: usize = 0;
            while j < sig.inputs.len() && j < invoke.args.len()
                invariant
                    j <= sig.inputs.len(),
                    j <= invoke.args.len(),
                    unify_each(underway(type_equality_sets@, constraints@), inputs, args, j as int)
                        == unify_each(before, inputs, args, 0),
                decreases sig.inputs.len() - j,
            {
                let ghost inner = underway(type_equality_sets@, constraints@);
                // Make sure inner types are included
                match type_equality_sets.insert_as_equal_to(
                    sig.inputs[j].clone(),
                    invoke.args[j].clone(),
                    constraints,
                ) {
                    Ok(()) => {},
                    Err(error) => {
                        let ghost failed = crate::equality_sets::unify(
                            inner,
                            inputs[j as int],
                            args[j as int],
                        );
                        assert(unify_each(failed, inputs, args, j + 1) == failed);
                        assert(function_pass(failed, invokes, i + 1) == failed);
                        return Err(error);
                    },
                }
                j += 1;
            }
            // Add parent constraints
            match parent {
                Some(parent) => match &parent.generics {
                    Some(generics) => {
                        constraints.declare(generics);
                    },
                    None => {},
                },
                None => {},
            }
            // Add function constraints
            match &sig.generics {
                Some(generics) => {
                    constraints.declare(generics);
                },
                None => {},
            }
            i += 1;
        }
        Ok(())
    }
}

/// Whether one generic parameter comes before another: a type parameter
/// before a lifetime, and of two of one kind the one with the smaller
/// identity.
pub open spec fn comes_before(a: GenericParam, b: GenericParam) -> bool {
    match (a, b) {
        (GenericParam::Type(a), GenericParam::Type(b)) => a.0 < b.0,
        (GenericParam::Type(_), GenericParam::Lifetime(_)) => true,
        (GenericParam::Lifetime(_), GenericParam::Type(_)) => false,
        (GenericParam::Lifetime(a), GenericParam::Lifetime(b)) => a.0 < b.0,
    }
}

/// Whether generic parameters stand in order, each before the next, so
/// that none stands there twice.
pub open spec fn in_order(params: Seq<GenericParam>) -> bool {
    forall|i: int, j: int| 0 <= i < j < params.len() ==> comes_before(params[i], params[j])
}

/// Generic parameters with one more, which stands in front of the first
/// that it comes before, unless it is among them already.
pub open spec fn sorted_with(params: Seq<GenericParam>, param: GenericParam) -> Seq<GenericParam>
    decreases params.len(),
{
    if params.len() == 0 {
        seq![param]
    } else if params[0] == param {
        params
    } else if comes_before(param, params[0]) {
        seq![param] + params
    } else {
        seq![params[0]] + sorted_with(params.drop_first(), param)
    }
}

/// The sorted parameters with those of `params` from place `i` on.
pub open spec fn sorted_params(
    params: Seq<GenericParam>,
    i: int,
    sorted: Seq<GenericParam>,
) -> Seq<GenericParam>
    decreases params.len() - i,
{
    if i < 0 || i >= params.len() {
        sorted
    } else {
        sorted_params(params, i + 1, sorted_with(sorted, params[i]))
    }
}

/// The sorted parameters with those of some generics, if there are
/// generics.
pub open spec fn sorted_generics(
    sorted: Seq<GenericParam>,
    generics: Option<GenericsView>,
) -> Seq<GenericParam> {
    match generics {
        Some(generics) => sorted_params(generics.params, 0, sorted),
        None => sorted,
    }
}

/// The generic parameters that an analysis starts from: those of the type,
/// where it is a data structure, and those of the trait, each once, type
/// parameters in front of lifetimes, each kind by identity.
pub open spec fn seed_params(implementation: CompleteImplView) -> Seq<GenericParam> {
    let of_type = if implementation.ty is DataStructure {
        sorted_params(implementation.ty->DataStructure_generics.params, 0, Seq::empty())
    } else {
        Seq::empty()
    };
    sorted_generics(of_type, implementation.trait_generics)
}

/// A parameter that is put among parameters in order stands where the
/// first parameter stands that it is or comes before, or at the end.
proof fn lemma_sorted_with_place(params: Seq<GenericParam>, param: GenericParam, place: int)
    requires
        0 <= place <= params.len(),
        forall|j: int|
            0 <= j < place ==> (#[trigger] params[j]) != param && !comes_before(param, params[j]),
        place < params.len() ==> params[place] == param || comes_before(param, params[place]),
    ensures
        sorted_with(params, param) == if place == params.len() {
            params.push(param)
        } else if params[place] == param {
            params
        } else {
            params.insert(place, param)
        },
    decreases params.len(),
{
    if params.len() == 0 {
        assert(seq![param] =~= params.push(param));
    } else if place == 0 {
        if params[0] != param {
            assert(seq![param] + params =~= params.insert(0, param));
        }
    } else {
        let rest = params.drop_first();
        assert(params[0] != param && !comes_before(param, params[0]));
        assert forall|j: int| 0 <= j < place - 1 implies (#[trigger] rest[j]) != param
            && !comes_before(param, rest[j]) by {
            assert(rest[j] == params[j + 1]);
        }
        lemma_sorted_with_place(rest, param, place - 1);
        if place == params.len() {
            assert(seq![params[0]] + rest.push(param) =~= params.push(param));
        } else if params[place] == param {
            assert(seq![params[0]] + rest =~= params);
        } else {
            assert(seq![params[0]] + rest.insert(place - 1, param) =~= params.insert(place, param));
        }
    }
}

/// Parameters in order stay in order when one more is put among them.
pub proof fn lemma_sorted_with_in_order(params: Seq<GenericParam>, param: GenericParam)
    requires
        in_order(params),
    ensures
        in_order(sorted_with(params, param)),
        sorted_with(params, param).contains(param),
        forall|other: GenericParam| #[trigger]
            params.contains(other) ==> sorted_with(params, param).contains(other),
    decreases params.len(),
{
    let sorted = sorted_with(params, param);
    if params.len() == 0 {
        assert(sorted[0] == param);
    } else if params[0] == param {
    } else if comes_before(param, params[0]) {
        assert(sorted[0] == param);
        assert forall|i: int, j: int| 0 <= i < j < sorted.len() implies comes_before(
            sorted[i],
            sorted[j],
        ) by {
            if i == 0 {
                if j > 1 {
                    assert(comes_before(params[0], params[j - 1]));
                }
            } else {
                assert(comes_before(params[i - 1], params[j - 1]));
            }
        }
        assert forall|other: GenericParam| #[trigger] params.contains(other) implies sorted.contains(
            other,
        ) by {
            let k = choose|k: int| 0 <= k < params.len() && params[k] == other;
            assert(sorted[k + 1] == other);
        }
    } else {
        let rest = params.drop_first();
        assert forall|i: int, j: int| 0 <= i < j < rest.len() implies comes_before(
            rest[i],
            rest[j],
        ) by {
            assert(comes_before(params[i + 1], params[j + 1]));
        }
        lemma_sorted_with_in_order(rest, param);
        let tail = sorted_with(rest, param);
        assert(sorted =~= seq![params[0]] + tail);
        assert forall|i: int, j: int| 0 <= i < j < sorted.len() implies comes_before(
            sorted[i],
            sorted[j],
        ) by {
            if i == 0 {
                let other = tail[j - 1];
                assert(tail.contains(other));
                if other != param {
                    lemma_sorted_with_holds_only(rest, param, other);
                    let k = choose|k: int| 0 <= k < rest.len() && rest[k] == other;
                    assert(comes_before(params[0], params[k + 1]));
                }
            } else {
                assert(comes_before(tail[i - 1], tail[j - 1]));
            }
        }
        let k = choose|k: int| 0 <= k < tail.len() && tail[k] == param;
        assert(sorted[k + 1] == param);
        assert forall|other: GenericParam| #[trigger] params.contains(other) implies sorted.contains(
            other,
        ) by {
            let k = choose|k: int| 0 <= k < params.len() && params[k] == other;
            if k == 0 {
                assert(sorted[0] == other);
            } else {
                assert(rest[k - 1] == other);
                assert(rest.contains(other));
                let m = choose|m: int| 0 <= m < tail.len() && tail[m] == other;
                assert(sorted[m + 1] == other);
            }
        }
    }
}

/// Parameters with one more hold that one and those that they held, and
/// no other.
proof fn lemma_sorted_with_holds_only(
    params: Seq<GenericParam>,
    param: GenericParam,
    other: GenericParam,
)
    requires
        sorted_with(params, param).contains(other),
        other != param,
    ensures
        params.contains(other),
    decreases params.len(),
{
    let sorted = sorted_with(params, param);
    let k = choose|k: int| 0 <= k < sorted.len() && sorted[k] == other;
    if params.len() == 0 {
    } else if params[0] == param {
    } else if comes_before(param, params[0]) {
        assert(params[k - 1] == other);
    } else {
        let rest = params.drop_first();
        if k == 0 {
            assert(params[0] == other);
        } else {
            assert(sorted_with(rest, param)[k - 1] == other);
            assert(sorted_with(rest, param).contains(other));
            lemma_sorted_with_holds_only(rest, param, other);
            let m = choose|m: int| 0 <= m < rest.len() && rest[m] == other;
            assert(params[m + 1] == other);
        }
    }
}

/// The generic parameters that the search for the relevant sets starts
/// from stand in order: the search takes each once, type parameters first.
pub proof fn lemma_sorted_params_in_order(
    params: Seq<GenericParam>,
    i: int,
    sorted: Seq<GenericParam>,
)
    requires
        in_order(sorted),
    ensures
        in_order(sorted_params(params, i, sorted)),
    decreases params.len() - i,
{
    if i < 0 || i >= params.len() {
    } else {
        lemma_sorted_with_in_order(sorted, params[i]);
        lemma_sorted_params_in_order(params, i + 1, sorted_with(sorted, params[i]));
    }
}

/// The generic parameters that an analysis starts from stand in order.
pub proof fn law_seed_params_in_order(implementation: CompleteImplView)
    ensures
        in_order(seed_params(implementation)),
{
    let of_type = if implementation.ty is DataStructure {
        sorted_params(implementation.ty->DataStructure_generics.params, 0, Seq::empty())
    } else {
        Seq::empty()
    };
    if implementation.ty is DataStructure {
        lemma_sorted_params_in_order(
            implementation.ty->DataStructure_generics.params,
            0,
            Seq::empty(),
        );
    }
    match implementation.trait_generics {
        Some(generics) => lemma_sorted_params_in_order(generics.params, 0, of_type),
        None => {},
    }
}

/// The constraints that an analysis starts from.
pub open spec fn seed_constraints(implementation: CompleteImplView) -> Seq<ConstraintView> {
    let of_type = if implementation.ty is DataStructure {
        declare(Seq::empty(), implementation.ty->DataStructure_generics.constraints, 0)
    } else {
        Seq::empty()
    };
    declare_generics(of_type, implementation.trait_generics)
}

/// The trait bounds that an implementation has to declare.
///
/// The analysis starts from the constraints that the type and the trait
/// declare, takes in the calls of every function, finds the sets that are
/// relevant to the generic parameters of the type and the trait, and keeps
/// of the constraints the relevant ones, each in its most concrete form.
pub open spec fn trait_bounds(implementation: CompleteImplView) -> Result<
    Seq<ConstraintView>,
    InferenceError,
> {
    let start = underway(
        SetsView { map: Map::empty(), sets: Seq::empty() },
        seed_constraints(implementation),
    );
    let pass = functions_pass(start, implementation.functions, 0);
    match pass.failure {
        Some(error) => Err(error),
        None => {
            let closure = relevant_sets(
                searching(pass.sets, Map::empty()),
                seed_params(implementation),
                0,
            );
            match closure.failure {
                Some(error) => Err(error),
                None => most_relevant_constraints(
                    closure.sets,
                    closure.relevant,
                    closure.memo,
                    pass.constraints,
                    0,
                    Seq::empty(),
                ).outcome,
            }
        },
    }
}

/// Whether one generic parameter comes before another.
fn param_comes_before(a: GenericParam, b: GenericParam) -> (res: bool)
    ensures
        res == comes_before(a, b),
{
    match (a, b) {
        (GenericParam::Type(a), GenericParam::Type(b)) => a.0 < b.0,
        (GenericParam::Type(_), GenericParam::Lifetime(_)) => true,
        (GenericParam::Lifetime(_), GenericParam::Type(_)) => false,
        (GenericParam::Lifetime(a), GenericParam::Lifetime(b)) => a.0 < b.0,
    }
}

/// Puts the generic parameters of `generics` among the sorted `params`,
/// each unless it is there already.
fn sort_params(params: &mut Vec<GenericParam>, generics: &Generics)
    ensures
        final(params)@ == sorted_params(generics@.params, 0, old(params)@),
{
    let ghost goal = sorted_params(generics@.params, 0, params@);
    let mut i: usize = 0;
    while i < generics.params.len()
        invariant
            i <= generics.params.len(),
            sorted_params(generics@.params, i as int, params@) == goal,
        decreases generics.params.len() - i,
    {
        let param = generics.params[i];
        let mut place: usize = 0;
        while place < params.len() && params[place] != param && !param_comes_before(
            param,
            params[place],
        )
            invariant
                place <= params.len(),
                forall|j: int|
                    0 <= j < place ==> (#[trigger] params@[j]) != param && !comes_before(
                        param,
                        params@[j],
                    ),
            decreases params.len() - place,
        {
            place += 1;
        }
        proof {
            lemma_sorted_with_place(params@, param, place as int);
        }
        if place == params.len() {
            params.push(param);
        } else if params[place] != param {
            params.insert(place, param);
        }
        i += 1;
    }
}

impl CompleteImpl {
    /// The trait bounds that the implementation has to declare: a complete
    /// set of constraints, or the failure that ended the analysis.
    #[verifier::loop_isolation(false)]
    pub fn compute_trait_bounds(&self) -> (res: Result<ConstraintSet, InferenceError>)
        ensures
            match res {
                Ok(constraints) => trait_bounds(self@) == Ok::<Seq<ConstraintView>, InferenceError>(
                    constraints@,
                ),
                Err(error) => trait_bounds(self@) == Err::<Seq<ConstraintView>, InferenceError>(error),
            },
    {
        let mut constraints = ConstraintSet::new();
        let mut type_equality_sets = TypeEqualitySets::new();
        let mut relevant_generic_params: Vec<GenericParam> = Vec::new();
        let mut most_concrete_type_map = MostConcreteTypeMap::new();

        match &self.ty.0 {
            TypeNode::DataStructure { generics, .. } => {
                constraints.declare(generics);
                sort_params(&mut relevant_generic_params, generics);
            },
            _ => {},
        }
        match &self.trait_ty {
            Some(trait_ty) => match &trait_ty.generics {
                Some(generics) => {
                    constraints.declare(generics);
                    sort_params(&mut relevant_generic_params, generics);
                },
                None => {},
            },
            None => {},
        }
        assert(relevant_generic_params@ == seed_params(self@));
        assert(constraints@ == seed_constraints(self@));
        assert(type_equality_sets@ == SetsView { map: Map::empty(), sets: Seq::empty() });

        let ghost functions = self@.functions;
        let ghost goal = functions_pass(underway(type_equality_sets@, constraints@), functions, 0);
        let mut i: usize = 0;
        while i < self.functions.len()
            invariant
                i <= self.functions.len(),
                functions_pass(underway(type_equality_sets@, constraints@), functions, i as int)
                    == goal,
            decreases self.functions.len() - i,
        {
            let ghost before = underway(type_equality_sets@, constraints@);
            assert(functions[i as int] == self.functions@[i as int]@);
            match self.functions[i].compute_trait_bounds(&mut constraints, &mut type_equality_sets) {
                Ok(()) => {},
                Err(error) => {
                    let ghost failed = function_pass(before, functions[i as int], 0);
                    assert(functions_pass(failed, functions, i + 1) == failed);
                    return Err(error);
                },
            }
            i += 1;
        }

        let relevant_generic_params = match generic_param_set_refs(
            &relevant_generic_params,
            &mut most_concrete_type_map,
            &mut type_equality_sets,
        ) {
            Ok(set_refs) => set_refs,
            Err(error) => {
                return Err(error);
            },
        };

        constraints.make_most_relevant(
            &mut most_concrete_type_map,
            &type_equality_sets,
            &relevant_generic_params,
        )
    }
}

} // verus!
