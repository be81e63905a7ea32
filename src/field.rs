//! Field declarations and the capability queries asked of them.
use vstd::prelude::*;

verus! {

/// An annotation attached to a field: the identifier naming it, when its
/// path is a single plain identifier, and whether it carries any tokens
/// after that path.
pub struct Annotation {
    pub ident: Option<String>,
    pub has_tokens: bool,
}

/// A member of a table declaration. `decl` is the declaration itself,
/// carried along untouched; only the name and the annotations are read.
pub struct Field<T> {
    pub name: Option<String>,
    pub annotations: Vec<Annotation>,
    pub decl: T,
}

/// The identifier of the annotation that declares a primary key.
pub open spec fn primary_key_marker() -> Seq<char> {
    seq!['p', 'r', 'i', 'm', 'a', 'r', 'y', '_', 'k', 'e', 'y']
}

/// The identifier of the annotation that keeps a field out of the projection.
pub open spec fn read_only_marker() -> Seq<char> {
    seq!['r', 'e', 'a', 'd', '_', 'o', 'n', 'l', 'y']
}

/// The identifier of the annotation that stops a field named `id` from
/// becoming the primary key by its name alone.
pub open spec fn not_defaulted_marker() -> Seq<char> {
    seq!['n', 'o', 't', '_', 'd', 'e', 'f', 'a', 'u', 'l', 't', 'e', 'd']
}

impl Annotation {
    /// The annotation is a bare marker whose identifier is `name`.
    pub open spec fn is_marker(self, name: Seq<char>) -> bool {
        !self.has_tokens && match self.ident {
            Some(id) => id@ == name,
            None => false,
        }
    }

    /// A bare marker annotation with the given identifier.
    pub fn marker(name: &str) -> (r: Annotation)
        ensures
            r.is_marker(name@),
            r.ident is Some,
            r.ident->Some_0@ == name@,
            !r.has_tokens,
    {
        Annotation { ident: Some(name.to_owned()), has_tokens: false }
    }

    /// Whether this annotation is a bare marker named `name`.
    pub fn marks(&self, name: &String) -> (r: bool)
        ensures
            r == self.is_marker(name@),
    {
        if self.has_tokens {
            return false;
        }
        match &self.ident {
            Some(id) => *id == *name,
            None => false,
        }
    }
}

impl<T> Field<T> {
    /// The field carries a bare marker annotation named `name`.
    pub open spec fn has_marker(self, name: Seq<char>) -> bool {
        exists|i: int|
            0 <= i < self.annotations@.len() && #[trigger] self.annotations@[i].is_marker(name)
    }

    pub open spec fn spec_is_primary_key(self) -> bool {
        self.has_marker(primary_key_marker())
    }

    pub open spec fn spec_is_read_only(self) -> bool {
        self.has_marker(read_only_marker())
    }

    pub open spec fn spec_is_not_defaulted(self) -> bool {
        self.has_marker(not_defaulted_marker())
    }

    /// Whether the field carries a bare annotation named `attribute`;
    /// annotations with tokens after their path never match.
    pub fn has_attribute(&self, attribute: &str) -> (r: bool)
        ensures
            r == self.has_marker(attribute@),
    {
        let name = attribute.to_owned();
        let n = self.annotations.len();
        let mut i: usize = 0;
        while i < n
            invariant
                n == self.annotations@.len(),
                i <= n,
                name@ == attribute@,
                forall|j: int| 0 <= j < i ==> !(#[trigger] self.annotations@[j].is_marker(attribute@)),
            decreases n - i,
        {
            if self.annotations[i].marks(&name) {
                return true;
            }
            i = i + 1;
        }
        false
    }

    /// Whether the field is annotated as the primary key.
    pub fn is_primary_key(&self) -> (r: bool)
        ensures
            r == self.spec_is_primary_key(),
    {
        proof {
            reveal_strlit("primary_key");
            assert("primary_key"@ =~= primary_key_marker());
        }
        self.has_attribute("primary_key")
    }

    /// Whether the field is annotated read-only.
    pub fn is_read_only(&self) -> (r: bool)
        ensures
            r == self.spec_is_read_only(),
    {
        proof {
            reveal_strlit("read_only");
            assert("read_only"@ =~= read_only_marker());
        }
        self.has_attribute("read_only")
    }

    /// Whether the field is annotated as never becoming the primary key by name.
    pub fn is_not_defaulted(&self) -> (r: bool)
        ensures
            r == self.spec_is_not_defaulted(),
    {
        proof {
            reveal_strlit("not_defaulted");
            assert("not_defaulted"@ =~= not_defaulted_marker());
        }
        self.has_attribute("not_defaulted")
    }
}

} // verus!
