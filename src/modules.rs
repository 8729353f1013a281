//! The registry of the binaries loaded in the host process that the rest of
//! the library works on.
use vstd::prelude::*;

use crate::pattern::{is_first_match, pattern_search, tokens_valid, tokens_of, pattern_of, first_malformed, PatternError};

verus! {

/// Where a binary is mapped: its base address and the size of its image.
/// The image ends inside the address space.
#[derive(Clone, Copy, Debug, PartialEq, Eq, Structural)]
pub struct ModuleImage {
    base_address: usize,
    image_size: usize,
}

impl ModuleImage {
    #[verifier::type_invariant]
    spec fn fits(self) -> bool {
        self.base_address + self.image_size <= usize::MAX
    }

    pub closed spec fn base(self) -> int {
        self.base_address as int
    }

    pub closed spec fn size(self) -> int {
        self.image_size as int
    }

    /// The image at `base_address` of `image_size` bytes, or `None` when it
    /// would run past the end of the address space.
    pub fn new(base_address: usize, image_size: usize) -> (r: Option<ModuleImage>)
        ensures
            r is Some <==> base_address + image_size <= usize::MAX,
            r matches Some(m) ==> m.base() == base_address && m.size() == image_size,
    {
        if base_address <= usize::MAX - image_size {
            Some(ModuleImage { base_address, image_size })
        } else {
            None
        }
    }

    pub fn base_address(&self) -> (r: usize)
        ensures
            r == self.base(),
    {
        self.base_address
    }

    pub fn image_size(&self) -> (r: usize)
        ensures
            r == self.size(),
    {
        self.image_size
    }
}

/// A binary loaded in the host process.
pub struct Module {
    name: String,
    image: ModuleImage,
}

impl View for Module {
    type V = (Seq<char>, ModuleImage);

    closed spec fn view(&self) -> (Seq<char>, ModuleImage) {
        (self.name@, self.image)
    }
}

/// `off` is `addr` taken relative to `base`.
pub open spec fn relative_to(addr: Option<usize>, base: int) -> Option<int> {
    match addr {
        Some(a) => Some(a - base),
        None => None,
    }
}

impl Module {
    pub fn name(&self) -> (r: &str)
        ensures
            r@ == self@.0,
    {
        self.name.as_str()
    }

    pub fn image(&self) -> (r: ModuleImage)
        ensures
            r == self@.1,
    {
        self.image
    }

    /// Searches the pattern `text` in `image`, the bytes this module maps,
    /// and returns the address of its first occurrence. A module with an
    /// empty image holds no occurrence.
    pub fn find_seq_of_bytes(&self, image: &[u8], text: &str) -> (r: Result<
        Option<usize>,
        PatternError,
    >)
        requires
            image@.len() == self@.1.size(),
        ensures
            match r {
                Ok(a) => {
                    &&& tokens_valid(tokens_of(text@))
                    &&& image@.len() == 0 ==> a is None
                    &&& image@.len() > 0 ==> is_first_match(
                        image@,
                        pattern_of(text@),
                        relative_to(a, self@.1.base()),
                    )
                    &&& a matches Some(x) ==> self@.1.base() <= x < self@.1.base()
                        + self@.1.size()
                },
                Err(PatternError::MalformedToken { index }) => first_malformed(
                    text@,
                    index as int,
                ),
            },
    {
        proof {
            use_type_invariant(&self.image);
        }
        let base = self.image.base_address;
        match pattern_search(image, text) {
            Err(e) => Err(e),
            Ok(found) => {
                if image.len() == 0 {
                    return Ok(None);
                }
                match found {
                    None => Ok(None),
                    Some(o) => {
                        assert(o < image@.len()) by {
                            if pattern_of(text@).len() == 0 {
                                assert(is_first_match(image@, pattern_of(text@), Some(o as int)));
                                assert(crate::pattern::matches_at(image@, pattern_of(text@), 0));
                            }
                        }
                        Ok(Some(base + o))
                    },
                }
            },
        }
    }
}

/// What a by-name lookup of one binary in the host process found.
pub struct ModuleLookup {
    pub name: String,
    pub image: Option<ModuleImage>,
}

/// Errors of the module registry.
#[derive(Debug, PartialEq, Eq)]
pub enum ModuleError {
    AlreadyInitialized,
    NotInitialized,
    NotFound { name: String },
}

/// The binaries of the host process, resolved once at startup.
pub struct ModuleRegistry {
    modules: Option<Vec<Module>>,
}

pub open spec fn all_found(lookups: Seq<ModuleLookup>) -> bool {
    forall|i: int| 0 <= i < lookups.len() ==> (#[trigger] lookups[i]).image is Some
}

/// `i` is the first lookup that found nothing.
pub open spec fn first_missing(lookups: Seq<ModuleLookup>, i: int) -> bool {
    &&& 0 <= i < lookups.len()
    &&& lookups[i].image is None
    &&& forall|j: int| 0 <= j < i ==> (#[trigger] lookups[j]).image is Some
}

pub open spec fn entries_of(lookups: Seq<ModuleLookup>) -> Seq<(Seq<char>, ModuleImage)> {
    lookups.map_values(|l: ModuleLookup| (l.name@, l.image->0))
}

/// `i` is the first entry named `name`.
pub open spec fn first_named(entries: Seq<(Seq<char>, ModuleImage)>, name: Seq<char>, i: int) -> bool {
    &&& 0 <= i < entries.len()
    &&& entries[i].0 == name
    &&& forall|j: int| 0 <= j < i ==> (#[trigger] entries[j]).0 != name
}

/// `e` is the first entry named `name`.
pub open spec fn first_entry(
    entries: Seq<(Seq<char>, ModuleImage)>,
    name: Seq<char>,
    e: (Seq<char>, ModuleImage),
) -> bool {
    exists|i: int| first_named(entries, name, i) && entries[i] == e
}

impl View for ModuleRegistry {
    type V = Option<Seq<(Seq<char>, ModuleImage)>>;

    closed spec fn view(&self) -> Option<Seq<(Seq<char>, ModuleImage)>> {
        match self.modules {
            Some(v) => Some(v@.map_values(|m: Module| m@)),
            None => None,
        }
    }
}

impl ModuleRegistry {
    /// A registry that has not been initialized.
    pub fn new() -> (r: ModuleRegistry)
        ensures
            r@ is None,
    {
        ModuleRegistry { modules: None }
    }

    pub fn is_initialized(&self) -> (r: bool)
        ensures
            r == self@ is Some,
    {
        self.modules.is_some()
    }

    /// The first module registered under `name`.
    pub fn get(&self, name: &str) -> (r: Result<&Module, ModuleError>)
        ensures
            match r {
                Ok(m) => self@ is Some && first_entry(self@->0, name@, m@),
                Err(ModuleError::NotInitialized) => self@ is None,
                Err(ModuleError::NotFound { name: n }) => {
                    &&& n@ == name@
                    &&& self@ matches Some(es)
                    &&& forall|i: int| 0 <= i < es.len() ==> (#[trigger] es[i]).0 != name@
                },
                Err(ModuleError::AlreadyInitialized) => false,
            },
    {
        let key = name.to_owned();
        match &self.modules {
            None => Err(ModuleError::NotInitialized),
            Some(modules) => {
                let ghost es = self@->0;
                let mut i: usize = 0;
                while i < modules.len()
                    invariant
                        self@ == Some(es),
                        es == modules@.map_values(|m: Module| m@),
                        key@ == name@,
                        i <= modules@.len(),
                        forall|j: int| 0 <= j < i ==> (#[trigger] es[j]).0 != name@,
                    decreases modules@.len() - i,
                {
                    if modules[i].name == key {
                        assert(first_named(es, name@, i as int));
                        let m = &modules[i];
                        assert(es[i as int] == m@);
                        assert(first_entry(es, name@, m@));
                        return Ok(m);
                    }
                    i = i + 1;
                }
                Err(ModuleError::NotFound { name: key })
            },
        }
    }
}

/// Registers the binaries that `lookups` found, once. A second call fails and
/// leaves the registry as it was, and so does a lookup that found nothing.
pub fn initialize_modules(registry: &mut ModuleRegistry, lookups: &[ModuleLookup]) -> (r: Result<
    (),
    ModuleError,
>)
    ensures
        old(registry)@ is Some ==> r == Err::<(), ModuleError>(ModuleError::AlreadyInitialized),
        r is Err ==> *final(registry) == *old(registry),
        old(registry)@ is None ==> match r {
            Ok(()) => all_found(lookups@) && final(registry)@ == Some(entries_of(lookups@)),
            Err(ModuleError::NotFound { name }) => exists|i: int|
                first_missing(lookups@, i) && lookups@[i].name@ == name@,
            _ => false,
        },
{
    if registry.modules.is_some() {
        return Err(ModuleError::AlreadyInitialized);
    }
    assert(registry@ is None);
    let mut modules: Vec<Module> = Vec::new();
    let mut i: usize = 0;
    while i < lookups.len()
        invariant
            i <= lookups@.len(),
            modules@.len() == i,
            registry@ is None,
            *registry == *old(registry),
            forall|j: int| 0 <= j < i ==> (#[trigger] lookups@[j]).image is Some,
            forall|j: int|
                0 <= j < i ==> (#[trigger] modules@[j])@ == (
                    lookups@[j].name@,
                    lookups@[j].image->0,
                ),
        decreases lookups@.len() - i,
    {
        let lookup = &lookups[i];
        match lookup.image {
            None => {
                assert(first_missing(lookups@, i as int));
                return Err(ModuleError::NotFound { name: lookup.name.clone() });
            },
            Some(image) => {
                modules.push(Module { name: lookup.name.clone(), image });
            },
        }
        i = i + 1;
    }
    registry.modules = Some(modules);
    assert(registry@->0 =~= entries_of(lookups@));
    Ok(())
}

} // verus!
