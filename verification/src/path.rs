//! Qualified names with their generic arguments.

use crate::generics::{arguments_view, clone_arguments, eq_arguments, ArgumentView, GenericArgument};
use crate::ident::Ident;
use crate::lexer::{lex, names, tokens_view, Token, TokenView};
use crate::ty::{clone_types, eq_types, types_view, Type, TypeView};
use vstd::prelude::*;
use vstd::std_specs::cmp::PartialEqSpecImpl;

verus! {

/// A possibly global path: `::std::vec::Vec<T>`.
#[derive(Debug)]
pub struct Path {
    pub global: bool,
    pub path: Vec<PathSegment>,
}

/// One segment of a path: a name and the arguments that follow it.
#[derive(Debug)]
pub struct PathSegment {
    pub ident: Ident,
    pub args: PathArguments,
}

/// The arguments that follow the name of a path segment.
#[derive(Debug)]
pub enum PathArguments {
    Empty,
    AngleBracketed(AngleBracketedGenericArguments),
    Parenthesized(ParenthesizedGenericArguments),
}

/// The `<A, 'b>` in `Name<A, 'b>`.
#[derive(Debug)]
pub struct AngleBracketedGenericArguments {
    pub args: Vec<GenericArgument>,
}

/// The `(A, B) -> C` in `Fn(A, B) -> C`.
#[derive(Debug)]
pub struct ParenthesizedGenericArguments {
    /// (A, B)
    pub inputs: Vec<Type>,
    /// C
    pub output: Option<Type>,
}

pub struct PathView {
    pub global: bool,
    pub segments: Seq<SegmentView>,
}

pub struct SegmentView {
    pub ident: Seq<char>,
    pub args: ArgumentsView,
}

pub enum ArgumentsView {
    Empty,
    AngleBracketed(Seq<ArgumentView>),
    Parenthesized { inputs: Seq<TypeView>, output: Option<TypeView> },
}

impl AngleBracketedGenericArguments {
    pub open spec fn view(&self) -> Seq<ArgumentView>
        decreases self,
    {
        arguments_view(self.args@)
    }
}

impl ParenthesizedGenericArguments {
    pub open spec fn view(&self) -> ArgumentsView
        decreases self,
    {
        ArgumentsView::Parenthesized {
            inputs: types_view(self.inputs@),
            output: match self.output {
                Some(ty) => Some(ty.view()),
                None => None,
            },
        }
    }
}

impl PathArguments {
    pub open spec fn view(&self) -> ArgumentsView
        decreases self,
    {
        match self {
            PathArguments::Empty => ArgumentsView::Empty,
            PathArguments::AngleBracketed(args) => ArgumentsView::AngleBracketed(args.view()),
            PathArguments::Parenthesized(args) => args.view(),
        }
    }
}

impl PathSegment {
    pub open spec fn view(&self) -> SegmentView
        decreases self,
    {
        SegmentView { ident: self.ident@, args: self.args.view() }
    }
}

/// The views of a list of path segments.
pub open spec fn segments_view(s: Seq<PathSegment>) -> Seq<SegmentView>
    decreases s,
{
    Seq::new(
        s.len(),
        |i: int|
            if 0 <= i < s.len() {
                s[i].view()
            } else {
                arbitrary()
            },
    )
}

impl Path {
    pub open spec fn view(&self) -> PathView
        decreases self,
    {
        PathView { global: self.global, segments: segments_view(self.path@) }
    }
}

impl Clone for AngleBracketedGenericArguments {
    fn clone(&self) -> (res: Self)
        ensures
            res@ == self@,
        decreases self,
    {
        AngleBracketedGenericArguments { args: clone_arguments(&self.args) }
    }
}

impl Clone for ParenthesizedGenericArguments {
    fn clone(&self) -> (res: Self)
        ensures
            res@ == self@,
        decreases self,
    {
        ParenthesizedGenericArguments {
            inputs: clone_types(&self.inputs),
            output: match &self.output {
                Some(ty) => Some(ty.clone()),
                None => None,
            },
        }
    }
}

impl Clone for PathArguments {
    fn clone(&self) -> (res: Self)
        ensures
            res@ == self@,
        decreases self,
    {
        match self {
            PathArguments::Empty => PathArguments::Empty,
            PathArguments::AngleBracketed(args) => PathArguments::AngleBracketed(args.clone()),
            PathArguments::Parenthesized(args) => PathArguments::Parenthesized(args.clone()),
        }
    }
}

impl Clone for PathSegment {
    fn clone(&self) -> (res: Self)
        ensures
            res@ == self@,
        decreases self,
    {
        PathSegment { ident: self.ident.clone(), args: self.args.clone() }
    }
}

/// Copies a list of path segments.
#[verifier::loop_isolation(false)]
pub fn clone_segments(v: &Vec<PathSegment>) -> (res: Vec<PathSegment>)
    ensures
        segments_view(res@) == segments_view(v@),
    decreases v,
{
    let mut out: Vec<PathSegment> = Vec::new();
    let mut i: usize = 0;
    while i < v.len()
        invariant
            i <= v.len(),
            out@.len() == i,
            forall|j: int| 0 <= j < i ==> out@[j]@ == v@[j]@,
        decreases v.len() - i,
    {
        out.push(v[i].clone());
        i += 1;
    }
    assert(segments_view(out@) =~= segments_view(v@));
    out
}

impl Clone for Path {
    fn clone(&self) -> (res: Self)
        ensures
            res@ == self@,
        decreases self,
    {
        Path { global: self.global, path: clone_segments(&self.path) }
    }
}

impl PartialEq for AngleBracketedGenericArguments {
    fn eq(&self, other: &Self) -> (res: bool)
        decreases self,
    {
        eq_arguments(&self.args, &other.args)
    }
}

impl PartialEqSpecImpl for AngleBracketedGenericArguments {
    open spec fn obeys_eq_spec() -> bool {
        true
    }

    open spec fn eq_spec(&self, other: &Self) -> bool {
        self@ == other@
    }
}

impl Eq for AngleBracketedGenericArguments {

}

impl PartialEq for ParenthesizedGenericArguments {
    fn eq(&self, other: &Self) -> (res: bool)
        decreases self,
    {
        eq_types(&self.inputs, &other.inputs) && match (&self.output, &other.output) {
            (Some(a), Some(b)) => *a == *b,
            (None, None) => true,
            _ => false,
        }
    }
}

impl PartialEqSpecImpl for ParenthesizedGenericArguments {
    open spec fn obeys_eq_spec() -> bool {
        true
    }

    open spec fn eq_spec(&self, other: &Self) -> bool {
        self@ == other@
    }
}

impl Eq for ParenthesizedGenericArguments {

}

impl PartialEq for PathArguments {
    fn eq(&self, other: &Self) -> (res: bool)
        decreases self,
    {
        match (self, other) {
            (PathArguments::Empty, PathArguments::Empty) => true,
            (PathArguments::AngleBracketed(a), PathArguments::AngleBracketed(b)) => *a == *b,
            (PathArguments::Parenthesized(a), PathArguments::Parenthesized(b)) => *a == *b,
            _ => false,
        }
    }
}

impl PartialEqSpecImpl for PathArguments {
    open spec fn obeys_eq_spec() -> bool {
        true
    }

    open spec fn eq_spec(&self, other: &Self) -> bool {
        self@ == other@
    }
}

impl Eq for PathArguments {

}

impl PartialEq for PathSegment {
    fn eq(&self, other: &Self) -> (res: bool)
        decreases self,
    {
        self.ident == other.ident && self.args == other.args
    }
}

impl PartialEqSpecImpl for PathSegment {
    open spec fn obeys_eq_spec() -> bool {
        true
    }

    open spec fn eq_spec(&self, other: &Self) -> bool {
        self@ == other@
    }
}

impl Eq for PathSegment {

}

/// Whether two lists hold the same path segments in the same order.
#[verifier::loop_isolation(false)]
pub fn eq_segments(a: &Vec<PathSegment>, b: &Vec<PathSegment>) -> (res: bool)
    ensures
        res == (segments_view(a@) == segments_view(b@)),
    decreases a,
{
    if a.len() != b.len() {
        assert(segments_view(a@).len() != segments_view(b@).len());
        return false;
    }
    let mut i: usize = 0;
    while i < a.len()
        invariant
            i <= a.len(),
            a.len() == b.len(),
            forall|j: int| 0 <= j < i ==> a@[j]@ == b@[j]@,
        decreases a.len() - i,
    {
        if !(a[i] == b[i]) {
            assert(segments_view(a@)[i as int] != segments_view(b@)[i as int]);
            return false;
        }
        i += 1;
    }
    assert(segments_view(a@) =~= segments_view(b@));
    true
}

impl PartialEq for Path {
    fn eq(&self, other: &Self) -> (res: bool)
        decreases self,
    {
        self.global == other.global && eq_segments(&self.path, &other.path)
    }
}

impl PartialEqSpecImpl for Path {
    open spec fn obeys_eq_spec() -> bool {
        true
    }

    open spec fn eq_spec(&self, other: &Self) -> bool {
        self@ == other@
    }
}

impl Eq for Path {

}

impl Path {
    /// The global path without segments: what a path that starts with `::`
    /// is built from.
    pub fn root() -> (res: Self)
        ensures
            res@.global,
            res@.segments == Seq::<SegmentView>::empty(),
    {
        let res = Path { global: true, path: Vec::new() };
        assert(res@.segments =~= Seq::<SegmentView>::empty());
        res
    }

    /// The path without segments: what a path is built from.
    pub fn empty() -> (res: Self)
        ensures
            !res@.global,
            res@.segments == Seq::<SegmentView>::empty(),
    {
        let res = Path { global: false, path: Vec::new() };
        assert(res@.segments =~= Seq::<SegmentView>::empty());
        res
    }

    /// The path that one name makes.
    pub fn ident_to_path(ident: Ident) -> (res: Path)
        ensures
            !res@.global,
            res@.segments == seq![SegmentView { ident: ident@, args: ArgumentsView::Empty }],
    {
        let mut path: Vec<PathSegment> = Vec::new();
        path.push(PathSegment { ident, args: PathArguments::Empty });
        let res = Path { global: false, path };
        assert(res@.segments =~= seq![SegmentView { ident: ident@, args: ArgumentsView::Empty }]);
        res
    }
}

/// The view of a path that may be missing.
pub open spec fn optional_path_view(path: Option<Path>) -> Option<PathView> {
    match path {
        Some(path) => Some(path@),
        None => None,
    }
}

/// Whether the two tokens at place `i` are the path separator `::`.
pub open spec fn separator_at(tokens: Seq<TokenView>, i: int) -> bool {
    &&& 0 <= i
    &&& i + 1 < tokens.len()
    &&& tokens[i] == TokenView::Punct { ch: ':', joint: true }
    &&& tokens[i + 1] is Punct
    &&& tokens[i + 1]->ch == ':'
}

/// Whether the token at place `i` is an identifier that was found to be no
/// keyword.
pub open spec fn name_at(tokens: Seq<TokenView>, names: Seq<bool>, i: int) -> bool {
    &&& 0 <= i < tokens.len()
    &&& i < names.len()
    &&& names[i]
    &&& tokens[i] is Ident
}

/// The segment that a name makes.
pub open spec fn simple_segment(name: Seq<char>) -> SegmentView {
    SegmentView { ident: name, args: ArgumentsView::Empty }
}

/// The segments that the tokens from place `i` on add to those found
/// before: each a separator and a name, up to the end of the tokens.
pub open spec fn simple_segments(
    tokens: Seq<TokenView>,
    names: Seq<bool>,
    i: int,
    found: Seq<SegmentView>,
) -> Option<Seq<SegmentView>>
    decreases tokens.len() - i,
{
    if i < 0 || i >= tokens.len() {
        Some(found)
    } else if separator_at(tokens, i) && name_at(tokens, names, i + 2) {
        simple_segments(tokens, names, i + 3, found.push(simple_segment(tokens[i + 2]->Ident_0)))
    } else {
        None
    }
}

/// The path that some tokens spell, if they spell a plain qualified name:
/// names with `::` between them, maybe with `::` in front, and nothing
/// else. `names` says of each token whether it is an identifier and no
/// keyword. A name with generic arguments behind it is no plain name.
pub open spec fn simple_path(tokens: Seq<TokenView>, names: Seq<bool>) -> Option<PathView> {
    let global = separator_at(tokens, 0);
    let start = if global {
        2int
    } else {
        0int
    };
    if name_at(tokens, names, start) {
        match simple_segments(
            tokens,
            names,
            start + 1,
            seq![simple_segment(tokens[start]->Ident_0)],
        ) {
            Some(segments) => Some(PathView { global, segments }),
            None => None,
        }
    } else {
        None
    }
}

/// Whether a path is a plain qualified name: whether it has a segment, and
/// no segment has arguments.
pub open spec fn is_simple(path: PathView) -> bool {
    &&& path.segments.len() > 0
    &&& forall|i: int| 0 <= i < path.segments.len() ==> (#[trigger] path.segments[i]).args is Empty
}

/// This path with one more segment, which the one token makes if it is an
/// identifier and no keyword.
pub open spec fn with_name(path: PathView, tokens: Seq<TokenView>, names: Seq<bool>) -> Option<
    PathView,
> {
    if tokens.len() == 1 && name_at(tokens, names, 0) {
        Some(
            PathView {
                global: path.global,
                segments: path.segments.push(simple_segment(tokens[0]->Ident_0)),
            },
        )
    } else {
        None
    }
}

/// Whether a path is another with one more segment without arguments.
pub open spec fn extends_by_a_name(longer: PathView, path: PathView) -> bool {
    &&& longer.global == path.global
    &&& longer.segments.len() == path.segments.len() + 1
    &&& longer.segments.drop_last() == path.segments
    &&& longer.segments.last().args is Empty
}

proof fn lemma_simple_segments(
    tokens: Seq<TokenView>,
    names: Seq<bool>,
    i: int,
    found: Seq<SegmentView>,
)
    requires
        found.len() > 0,
        forall|j: int| 0 <= j < found.len() ==> (#[trigger] found[j]).args is Empty,
        simple_segments(tokens, names, i, found) is Some,
    ensures
        ({
            let segments = simple_segments(tokens, names, i, found)->Some_0;
            &&& segments.len() > 0
            &&& forall|j: int| 0 <= j < segments.len() ==> (#[trigger] segments[j]).args is Empty
        }),
    decreases tokens.len() - i,
{
    if i < 0 || i >= tokens.len() {
    } else {
        lemma_simple_segments(
            tokens,
            names,
            i + 3,
            found.push(simple_segment(tokens[i + 2]->Ident_0)),
        );
    }
}

/// What some tokens spell as a plain qualified name is one.
pub proof fn lemma_simple_path_is_simple(tokens: Seq<TokenView>, names: Seq<bool>)
    requires
        simple_path(tokens, names) is Some,
    ensures
        is_simple(simple_path(tokens, names)->Some_0),
{
    let start = if separator_at(tokens, 0) {
        2int
    } else {
        0int
    };
    lemma_simple_segments(tokens, names, start + 1, seq![simple_segment(tokens[start]->Ident_0)]);
}

/// Whether the two tokens at place `i` are the path separator `::`.
fn is_separator(tokens: &Vec<Token>, i: usize) -> (res: bool)
    ensures
        res == separator_at(tokens_view(tokens@), i as int),
{
    if i >= tokens.len() || tokens.len() - i < 2 {
        return false;
    }
    match (&tokens[i], &tokens[i + 1]) {
        (Token::Punct { ch: first, joint }, Token::Punct { ch: second, .. }) => *first == ':'
            && *joint && *second == ':',
        _ => false,
    }
}

/// The name at place `i`, if the token there is an identifier that was
/// found to be no keyword.
fn name(tokens: &Vec<Token>, names: &Vec<bool>, i: usize) -> (res: Option<Ident>)
    ensures
        res is Some == name_at(tokens_view(tokens@), names@, i as int),
        res matches Some(ident) ==> ident@ == tokens_view(tokens@)[i as int]->Ident_0,
{
    if i >= tokens.len() || i >= names.len() || !names[i] {
        return None;
    }
    match &tokens[i] {
        Token::Ident(ident) => Some(ident.clone()),
        _ => None,
    }
}

impl Path {
    /// The path that some tokens spell, if they spell a plain qualified
    /// name. `names` says of each token whether it is an identifier and no
    /// keyword; a token that it says nothing of counts as none.
    #[verifier::loop_isolation(false)]
    pub fn simple_path_from_tokens(tokens: &Vec<Token>, names: &Vec<bool>) -> (res: Option<Path>)
        ensures
            optional_path_view(res) == simple_path(tokens_view(tokens@), names@),
    {
        let ghost views = tokens_view(tokens@);
        let global = is_separator(tokens, 0);
        let start: usize = if global {
            2
        } else {
            0
        };
        let first = match name(tokens, names, start) {
            Some(first) => first,
            None => {
                return None;
            },
        };
        let mut path: Vec<PathSegment> = Vec::new();
        path.push(PathSegment { ident: first, args: PathArguments::Empty });
        let mut i: usize = start + 1;
        assert(segments_view(path@) =~= seq![simple_segment(views[start as int]->Ident_0)]);
        let ghost goal = simple_segments(views, names@, i as int, segments_view(path@));
        while i < tokens.len()
            invariant
                views == tokens_view(tokens@),
                simple_segments(views, names@, i as int, segments_view(path@)) == goal,
            decreases tokens.len() - i,
        {
            if !is_separator(tokens, i) {
                return None;
            }
            let ident = match name(tokens, names, i + 2) {
                Some(ident) => ident,
                None => {
                    return None;
                },
            };
            let ghost before = segments_view(path@);
            path.push(PathSegment { ident, args: PathArguments::Empty });
            assert(segments_view(path@) =~= before.push(simple_segment(views[i + 2]->Ident_0)));
            i += 3;
        }
        Some(Path { global, path })
    }

    /// The path that a source text spells, if it spells a plain qualified
    /// name: names with `::` between them, and nothing else. The text is
    /// split into tokens, each identifier among them is tried for a
    /// keyword, and the tokens are read by `simple_path_from_tokens`.
    /// Whatever the tokens were, a path that comes back is a plain qualified
    /// name.
    pub fn simple_path_from_str(path: &str) -> (res: Option<Path>)
        ensures
            res matches Some(path) ==> is_simple(path@),
    {
        match lex(path) {
            Some(tokens) => {
                let names = names(&tokens);
                proof {
                    if simple_path(tokens_view(tokens@), names@) is Some {
                        lemma_simple_path_is_simple(tokens_view(tokens@), names@);
                    }
                }
                Path::simple_path_from_tokens(&tokens, &names)
            },
            None => None,
        }
    }

    /// This path with one more segment, where the one token is an
    /// identifier that was found to be no keyword.
    pub fn get_simple_path_from_tokens(&self, tokens: &Vec<Token>, names: &Vec<bool>) -> (res: Option<
        Path,
    >)
        ensures
            optional_path_view(res) == with_name(self@, tokens_view(tokens@), names@),
    {
        if tokens.len() != 1 {
            return None;
        }
        match name(tokens, names, 0) {
            Some(ident) => {
                let mut path = self.clone();
                let ghost before = path@.segments;
                path.path.push(PathSegment { ident, args: PathArguments::Empty });
                assert(path@.segments =~= before.push(simple_segment(ident@)));
                Some(path)
            },
            None => None,
        }
    }

    /// Get a simple path without generics: this path with one more segment,
    /// if `ident` spells one identifier that is no keyword. The text is
    /// split into tokens, the identifier among them is tried for a keyword,
    /// and the tokens are read by `get_simple_path_from_tokens`. Whatever
    /// the tokens were, a path that comes back is this path with one more
    /// segment without arguments.
    pub fn get_simple_path(&self, ident: &str) -> (res: Option<Path>)
        ensures
            res matches Some(path) ==> extends_by_a_name(path@, self@),
    {
        match lex(ident) {
            Some(tokens) => {
                let names = names(&tokens);
                let res = self.get_simple_path_from_tokens(&tokens, &names);
                proof {
                    if res is Some {
                        let name = simple_segment(tokens_view(tokens@)[0]->Ident_0);
                        assert(self@.segments.push(name).drop_last() =~= self@.segments);
                    }
                }
                res
            },
            None => None,
        }
    }
}

} // verus!
