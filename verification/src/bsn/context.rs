//! What the code generator carries along: the entity names seen so far and the errors found.
use vstd::prelude::*;

use crate::literals::{compile_error_stream, read_stream};
#[allow(unused_imports)]
use crate::literals::{compile_error_tokens, is_literal_of, reports, string_literal_text};
#[allow(unused_imports)]
use crate::tokens::Tok;
use crate::tokens::Tokens;
use proc_macro2::Span;

verus! {

/// The texts of a list of strings.
pub open spec fn texts(strings: Seq<String>) -> Seq<Seq<char>> {
    Seq::new(strings.len(), |i: int| strings[i]@)
}

/// How many names stand before the first occurrence of `name`; all of them if it does not occur.
pub open spec fn position(names: Seq<Seq<char>>, name: Seq<char>) -> nat
    decreases names.len(),
{
    if names.len() == 0 || names[0] == name {
        0
    } else {
        1 + position(names.drop_first(), name)
    }
}

/// The names once `name` has been looked up: a name that is new goes to the end.
pub open spec fn interned(names: Seq<Seq<char>>, name: Seq<char>) -> Seq<Seq<char>> {
    if names.contains(name) {
        names
    } else {
        names.push(name)
    }
}

/// `position` is the first index that holds the name, and the length if none does.
pub proof fn lemma_position(names: Seq<Seq<char>>, name: Seq<char>)
    ensures
        position(names, name) <= names.len(),
        position(names, name) < names.len() <==> names.contains(name),
        names.contains(name) ==> names[position(names, name) as int] == name,
        forall|j: int| 0 <= j < position(names, name) ==> names[j] != name,
    decreases names.len(),
{
    if names.len() > 0 && names[0] != name {
        let rest = names.drop_first();
        lemma_position(rest, name);
        assert forall|j: int| 0 <= j < position(names, name) implies names[j] != name by {
            if j > 0 {
                assert(names[j] == rest[j - 1]);
            }
        }
        if names.contains(name) {
            let k = choose|k: int| 0 <= k < names.len() && names[k] == name;
            assert(rest[k - 1] == name);
        }
    }
}

/// Tracks named entity references and assigns them unique, sequential indices.
///
/// The index of a name is its place in the list of the distinct names, in the order in which they
/// were first looked up.
#[derive(Debug)]
pub struct EntityRefs {
    pub names: Vec<String>,
}

impl View for EntityRefs {
    type V = Seq<Seq<char>>;

    open spec fn view(&self) -> Seq<Seq<char>> {
        texts(self.names@)
    }
}

impl Default for EntityRefs {
    fn default() -> (r: EntityRefs)
        ensures
            r@ == Seq::<Seq<char>>::empty(),
            r.well_formed(),
    {
        EntityRefs { names: Vec::new() }
    }
}

impl EntityRefs {
    /// No name is listed twice.
    pub open spec fn well_formed(&self) -> bool {
        self@.no_duplicates()
    }

    /// Retrieves the index for a given entity name.
    /// Creates a new one if it hasn't been seen yet.
    pub fn get(&mut self, name: String) -> (r: usize)
        ensures
            r == position(old(self)@, name@),
            final(self)@ == interned(old(self)@, name@),
            final(self)@[r as int] == name@,
            old(self).well_formed() ==> final(self).well_formed(),
    {
        proof {
            lemma_position(self@, name@);
        }
        let mut i: usize = 0;
        while i < self.names.len()
            invariant
                i <= self.names@.len(),
                forall|j: int| 0 <= j < i ==> self@[j] != name@,
                position(self@, name@) <= self@.len(),
                self@.contains(name@) ==> self@[position(self@, name@) as int] == name@,
                forall|j: int| 0 <= j < position(self@, name@) ==> self@[j] != name@,
                *self == *old(self),
            decreases self.names@.len() - i,
        {
            if self.names[i] == name {
                assert(self@[i as int] == name@);
                return i;
            }
            i += 1;
        }
        assert(!self@.contains(name@));
        self.names.push(name);
        assert(self@ =~= old(self)@.push(name@));
        i
    }
}

/// The mathematical value of an [`Error`].
pub struct Diag {
    pub span: Span,
    pub message: Seq<char>,
}

/// A problem in the scene that is being generated, and where it is.
#[derive(Debug)]
pub struct Error {
    pub span: Span,
    pub message: String,
}

impl View for Error {
    type V = Diag;

    open spec fn view(&self) -> Diag {
        Diag { span: self.span, message: self.message@ }
    }
}

impl Error {
    /// An error at the given place.
    pub fn new(span: Span, message: &str) -> (r: Error)
        ensures
            r@ == (Diag { span, message: message@ }),
    {
        Error { span, message: message.to_owned() }
    }

    /// Renders the error as an invocation of `compile_error!`.
    pub fn to_compile_error(&self) -> (r: Tokens)
        ensures
            reports(r@, self.span, self.message@),
    {
        read_stream(compile_error_stream(self.span, self.message.as_str()))
    }
}

/// The values of a list of errors.
pub open spec fn diags(errors: Seq<Error>) -> Seq<Diag> {
    Seq::new(errors.len(), |i: int| errors[i]@)
}

/// Whether these are the texts of the errors' messages as string literals.
pub open spec fn are_literals_of(errors: Seq<Diag>, literals: Seq<Seq<char>>) -> bool {
    &&& literals.len() == errors.len()
    &&& forall|i: int|
        #![trigger literals[i]]
        0 <= i < literals.len() ==> is_literal_of(errors[i].message, literals[i])
}

/// Context used in the code generation pipeline.
/// Used to accumulate validation errors without short-circuiting.
pub struct BsnCodegenCtx<'a> {
    /// The path of the scene crate.
    pub bevy_scene: &'a Tokens,
    /// The path of the entity-component crate.
    pub bevy_ecs: &'a Tokens,
    pub entity_refs: &'a mut EntityRefs,
    /// Accumulated parsing and validation errors.
    pub errors: Vec<Error>,
    /// The span of the macro call, which the generated tokens get.
    pub call_site: Span,
}

/// Whether the two contexts agree on all but the entity names and the errors.
pub open spec fn same_surroundings(a: BsnCodegenCtx, b: BsnCodegenCtx) -> bool {
    &&& a.bevy_scene == b.bevy_scene
    &&& a.bevy_ecs == b.bevy_ecs
    &&& a.call_site == b.call_site
}

/// An error is reported word for word, at its place, where its message holds no NUL: as
/// `::core::compile_error! { "message" }`, with the message as a string literal.
pub proof fn law_messages_are_reported_word_for_word(
    tokens: Seq<Tok>,
    error: Diag,
    errors: Seq<Diag>,
    literals: Seq<Seq<char>>,
)
    requires
        forall|i: int| 0 <= i < error.message.len() ==> #[trigger] error.message[i] != '\0',
    ensures
        reports(tokens, error.span, error.message) ==> tokens == compile_error_tokens(
            error.span,
            string_literal_text(error.message),
        ),
        are_literals_of(errors, literals) ==> literals.len() == errors.len() && forall|i: int|
            #![trigger literals[i]]
            0 <= i < errors.len() && errors[i] == error ==> literals[i] == string_literal_text(
                error.message,
            ),
{
}

/// The context is read as it is: the names and the errors in order, and the paths and the place
/// that do not change.
pub proof fn law_context_is_read_as_it_is(
    refs: EntityRefs,
    errors: Seq<Error>,
    a: BsnCodegenCtx,
    b: BsnCodegenCtx,
)
    ensures
        refs@.len() == refs.names@.len(),
        forall|i: int| 0 <= i < refs.names@.len() ==> #[trigger] refs@[i] == refs.names@[i]@,
        diags(errors).len() == errors.len(),
        forall|i: int|
            0 <= i < errors.len() ==> #[trigger] diags(errors)[i] == (Diag {
                span: errors[i].span,
                message: errors[i].message@,
            }),
        same_surroundings(a, b) ==> a.bevy_scene@ == b.bevy_scene@ && a.bevy_ecs@ == b.bevy_ecs@
            && a.call_site == b.call_site,
        refs.well_formed() <==> forall|i: int, j: int|
            0 <= i < j < refs.names@.len() ==> #[trigger] refs.names@[i]@ != #[trigger] refs.names@[j]@,
{
    assert forall|i: int, j: int|
        refs.well_formed() && 0 <= i < j < refs.names@.len() implies #[trigger] refs.names@[i]@
        != #[trigger] refs.names@[j]@ by {
        assert(refs@[i] != refs@[j]);
    }
    if forall|i: int, j: int|
        0 <= i < j < refs.names@.len() ==> #[trigger] refs.names@[i]@ != #[trigger] refs.names@[j]@ {
        assert forall|i: int, j: int|
            0 <= i < refs@.len() && 0 <= j < refs@.len() && i != j implies refs@[i] != refs@[j] by {
            if i < j {
                assert(refs.names@[i]@ != refs.names@[j]@);
            } else {
                assert(refs.names@[j]@ != refs.names@[i]@);
            }
        }
    }
}

} // verus!
