//! Resource identifiers.

use vstd::prelude::*;

verus! {

/// The native API a resource belongs to.
#[derive(Clone, Copy, Debug, PartialEq, Eq, Structural, Hash)]
pub enum Backend {
    Noop,
    Vulkan,
    Metal,
    Dx12,
    Gl,
    BrowserWebGpu,
}

/// An opaque resource identifier: a slot index, the generation of the slot's
/// occupant, and the backend the resource lives on.
///
/// Two identifiers name the same resource exactly when all three parts agree.
#[derive(Clone, Copy, Debug, PartialEq, Eq, Structural, Hash)]
pub struct Id {
    index: u32,
    generation: u32,
    backend: Backend,
}

impl Id {
    pub closed spec fn spec_index(self) -> u32 {
        self.index
    }

    pub closed spec fn spec_generation(self) -> u32 {
        self.generation
    }

    pub closed spec fn spec_backend(self) -> Backend {
        self.backend
    }

    /// The identifier with the given parts.
    pub closed spec fn zip_spec(index: u32, generation: u32, backend: Backend) -> Id {
        Id { index, generation, backend }
    }

    /// Packs the three parts into an identifier.
    pub fn zip(index: u32, generation: u32, backend: Backend) -> (id: Id)
        ensures
            id == Id::zip_spec(index, generation, backend),
            id.spec_index() == index,
            id.spec_generation() == generation,
            id.spec_backend() == backend,
    {
        Id { index, generation, backend }
    }

    /// Splits an identifier into its three parts.
    pub fn unzip(self) -> (parts: (u32, u32, Backend))
        ensures
            parts.0 == self.spec_index(),
            parts.1 == self.spec_generation(),
            parts.2 == self.spec_backend(),
    {
        (self.index, self.generation, self.backend)
    }

    #[verifier::when_used_as_spec(spec_index)]
    pub fn index(self) -> (i: u32)
        ensures
            i == self.spec_index(),
    {
        self.index
    }

    #[verifier::when_used_as_spec(spec_generation)]
    pub fn generation(self) -> (g: u32)
        ensures
            g == self.spec_generation(),
    {
        self.generation
    }

    #[verifier::when_used_as_spec(spec_backend)]
    pub fn backend(self) -> (b: Backend)
        ensures
            b == self.spec_backend(),
    {
        self.backend
    }

    /// An identifier is the one that its parts make.
    pub proof fn lemma_zip_of_parts(self)
        ensures
            self == Id::zip_spec(self.index(), self.generation(), self.backend()),
    {
    }

    /// The parts of an identifier are the ones it was made of.
    pub proof fn law_zip_keeps_parts(index: u32, generation: u32, backend: Backend)
        ensures
            Id::zip_spec(index, generation, backend).index() == index,
            Id::zip_spec(index, generation, backend).generation() == generation,
            Id::zip_spec(index, generation, backend).backend() == backend,
    {
    }

    /// Identifiers are determined by their parts.
    pub proof fn lemma_parts_determine_id(a: Id, b: Id)
        requires
            a.index() == b.index(),
            a.generation() == b.generation(),
            a.backend() == b.backend(),
        ensures
            a == b,
    {
    }
}

} // verus!
