//! The languages the scanner knows: each one names its manifest file and
//! extracts internal dependencies from a manifest's text.

use vstd::prelude::*;
use vstd::string::StringExecFns;

use crate::gomod;

verus! {

/// A reference to one internal dependency discovered inside a manifest.
#[derive(Debug, Clone, PartialEq, Eq)]
pub struct Component {
    /// The dependency's module path.
    pub name: String,
}

/// The names carried by a list of components.
pub open spec fn names_of(cs: Seq<Component>) -> Seq<Seq<char>> {
    cs.map_values(|c: Component| c.name@)
}

/// What a language contributes to the scan: the manifest file name it is
/// recognized by, and the rule that extracts internal dependencies from a
/// manifest of that kind.
pub trait Dependencies {
    /// The manifest file name the language is recognized by.
    spec fn spec_project_file_name(&self) -> Seq<char>;

    /// The internal dependencies the language reads out of a manifest text.
    spec fn spec_internal_dependencies(&self, text: Seq<char>) -> Seq<Seq<char>>;

    /// The manifest file name the language is recognized by.
    fn get_project_file_name(&self) -> (r: String)
        ensures
            r@ == self.spec_project_file_name(),
    ;

    /// Extracts the internal dependencies from the text of a manifest.
    fn get_internal_dependencies(&self, manifest_text: &str) -> (r: Vec<Component>)
        ensures
            names_of(r@) == self.spec_internal_dependencies(manifest_text@),
    ;
}

/// A language known to the scanner.
pub trait Language: Dependencies {

}

/// The Go language: recognized by `go.mod`, whose require blocks are
/// searched for internal module paths.
#[derive(Debug, Clone, Copy, PartialEq, Eq, Structural, Default)]
pub struct Go {}

impl Dependencies for Go {
    open spec fn spec_project_file_name(&self) -> Seq<char> {
        "go.mod"@
    }

    open spec fn spec_internal_dependencies(&self, text: Seq<char>) -> Seq<Seq<char>> {
        gomod::spec_go_internal_deps(text)
    }

    fn get_project_file_name(&self) -> (r: String) {
        String::from_str("go.mod")
    }

    fn get_internal_dependencies(&self, manifest_text: &str) -> (r: Vec<Component>) {
        let names = gomod::go_internal_dependencies(manifest_text);
        components_from_names(names)
    }
}

impl Language for Go {

}

/// The Rust language: recognized by `Cargo.toml`. Its dependency syntax is
/// not modelled yet, so extraction deliberately yields nothing and cannot
/// fail.
#[derive(Debug, Clone, Copy, PartialEq, Eq, Structural, Default)]
pub struct Rust {}

impl Dependencies for Rust {
    open spec fn spec_project_file_name(&self) -> Seq<char> {
        "Cargo.toml"@
    }

    open spec fn spec_internal_dependencies(&self, text: Seq<char>) -> Seq<Seq<char>> {
        Seq::<Seq<char>>::empty()
    }

    fn get_project_file_name(&self) -> (r: String) {
        String::from_str("Cargo.toml")
    }

    fn get_internal_dependencies(&self, manifest_text: &str) -> (r: Vec<Component>) {
        let r: Vec<Component> = Vec::new();
        proof {
            assert(names_of(r@) =~= Seq::<Seq<char>>::empty());
        }
        r
    }
}

impl Language for Rust {

}

/// Wraps each extracted module path in a [`Component`].
fn components_from_names(names: Vec<String>) -> (r: Vec<Component>)
    ensures
        names_of(r@) == names.deep_view(),
{
    let mut r: Vec<Component> = Vec::new();
    let mut i: usize = 0;
    while i < names.len()
        invariant
            i <= names@.len(),
            names_of(r@) =~= names.deep_view().subrange(0, i as int),
        decreases names@.len() - i,
    {
        let ghost old_names = names_of(r@);
        r.push(Component { name: names[i].clone() });
        proof {
            assert(names_of(r@) =~= old_names.push(names.deep_view()[i as int]));
            assert(names_of(r@) =~= names.deep_view().subrange(0, i + 1));
        }
        i += 1;
    }
    proof {
        assert(names.deep_view().subrange(0, names.deep_view().len() as int) =~= names.deep_view());
    }
    r
}

/// The closed list of languages the scanner registers, one variant per
/// language.
#[derive(Debug, Clone, Copy, PartialEq, Eq, Structural)]
pub enum Languages {
    Go(Go),
    Rust(Rust),
}

/// Every registered language, in the order the scanner tries them.
pub open spec fn registry() -> Seq<Languages> {
    seq![Languages::Go(Go {  }), Languages::Rust(Rust {  })]
}

impl Languages {
    /// The manifest file name of the variant's language.
    pub open spec fn spec_project_file_name(&self) -> Seq<char> {
        match self {
            Languages::Go(lang) => lang.spec_project_file_name(),
            Languages::Rust(lang) => lang.spec_project_file_name(),
        }
    }

    /// The extraction rule of the variant's language.
    pub open spec fn spec_internal_dependencies(&self, text: Seq<char>) -> Seq<Seq<char>> {
        match self {
            Languages::Go(lang) => lang.spec_internal_dependencies(text),
            Languages::Rust(lang) => lang.spec_internal_dependencies(text),
        }
    }

    /// The manifest file name of the variant's language.
    pub fn get_project_file_name(&self) -> (r: String)
        ensures
            r@ == self.spec_project_file_name(),
    {
        match self {
            Languages::Go(lang) => lang.get_project_file_name(),
            Languages::Rust(lang) => lang.get_project_file_name(),
        }
    }

    /// The variant's language value.
    pub fn get_language(&self) -> (r: Languages)
        ensures
            r == *self,
    {
        *self
    }

    /// The variant's display name.
    pub fn name(&self) -> (r: String)
        ensures
            (*self matches Languages::Go(_)) ==> r@ == "Go"@,
            (*self matches Languages::Rust(_)) ==> r@ == "Rust"@,
    {
        match self {
            Languages::Go(_) => String::from_str("Go"),
            Languages::Rust(_) => String::from_str("Rust"),
        }
    }

    /// Builds the registered languages, in the order the scanner tries them.
    pub fn all() -> (r: Vec<Languages>)
        ensures
            r@ == registry(),
    {
        let mut r: Vec<Languages> = Vec::new();
        r.push(Languages::Go(Go {  }));
        r.push(Languages::Rust(Rust {  }));
        proof {
            assert(r@ =~= registry());
        }
        r
    }
}

} // verus!
