//! Resolving a function by the name that a debugger knows it by.
use vstd::prelude::*;

verus! {

/// What was told to the symbol library: whether it was initialised, and the
/// modules whose symbols were loaded.
#[derive(Debug)]
pub struct SymbolState {
    pub initialized: bool,
    pub loaded: Vec<u64>,
}

/// Where the search for a symbol stands.
#[derive(Clone, Copy, Debug, PartialEq, Eq, Structural)]
pub enum SymbolStage {
    Initializing,
    Locating,
    Loading { base: u64 },
    Querying,
    Finished { address: Option<u64> },
}

/// What is to be done next to find a symbol.
#[derive(Debug)]
pub enum SymbolStep {
    /// Initialise the symbol library.
    Initialize,
    /// Find the module in the process, loading it if need be.
    LocateModule,
    /// Load the symbols of the module at `base`.
    LoadSymbols { base: u64 },
    /// Ask for the address of the given name.
    LookUp(String),
    /// The search is over.
    Done(Option<u64>),
}

/// The search for a symbol.
#[derive(Debug)]
pub struct SymbolSearch {
    pub module: String,
    pub symbol: String,
    pub stage: SymbolStage,
}

/// Where the file name begins in the first `upto` characters of a path: behind the
/// last separator.
pub open spec fn name_start(path: Seq<char>, upto: int) -> int
    decreases upto,
{
    if upto <= 0 {
        0
    } else if path[upto - 1] == '\\' || path[upto - 1] == '/' {
        upto
    } else {
        name_start(path, upto - 1)
    }
}

/// The position of the last dot between `from` and `upto`.
pub open spec fn last_dot(path: Seq<char>, from: int, upto: int) -> Option<int>
    decreases upto - from,
{
    if upto <= from {
        None
    } else if path[upto - 1] == '.' {
        Some(upto - 1)
    } else {
        last_dot(path, from, upto - 1)
    }
}

/// The file name of a path, without its directory and its extension.
pub open spec fn base_name(path: Seq<char>) -> Seq<char> {
    let start = name_start(path, path.len() as int);
    match last_dot(path, start, path.len() as int) {
        Some(dot) => path.subrange(start, dot),
        None => path.subrange(start, path.len() as int),
    }
}

/// Returns the file name of a path, without its directory and its extension.
pub fn module_basename_no_ext(module: &str) -> (name: String)
    ensures
        name@ == base_name(module@),
{
    let path = crate::text::characters(module);
    let mut start: usize = path.len();
    while start > 0 && path[start - 1] != '\\' && path[start - 1] != '/'
        invariant
            path@ == module@,
            start <= path@.len(),
            name_start(path@, start as int) == name_start(path@, path@.len() as int),
        decreases start,
    {
        start = start - 1;
    }
    assert(name_start(path@, start as int) == start);
    let mut end: usize = path.len();
    while end > start && path[end - 1] != '.'
        invariant
            path@ == module@,
            start <= end <= path@.len(),
            last_dot(path@, start as int, end as int) == last_dot(
                path@,
                start as int,
                path@.len() as int,
            ),
        decreases end,
    {
        end = end - 1;
    }
    if end > start {
        module.substring_char(start, end - 1).to_owned()
    } else {
        module.substring_char(start, path.len()).to_owned()
    }
}

impl SymbolState {
    /// The symbols of no module were loaded twice.
    pub open spec fn wf(self) -> bool {
        self.loaded@.no_duplicates()
    }

    /// Returns the state before anything was told to the symbol library.
    pub fn new() -> (state: SymbolState)
        ensures
            state.wf(),
            !state.initialized,
            state.loaded@.len() == 0,
    {
        SymbolState { initialized: false, loaded: Vec::new() }
    }
}

/// Begins the search for `symbol` in `module`. With an empty name nothing is
/// found.
pub fn resolve_symbol(state: &SymbolState, module: &str, symbol: &str) -> (search: SymbolSearch)
    ensures
        search.module@ == module@,
        search.symbol@ == symbol@,
        search.stage == if module@.len() == 0 || symbol@.len() == 0 {
            SymbolStage::Finished { address: None }
        } else if state.initialized {
            SymbolStage::Locating
        } else {
            SymbolStage::Initializing
        },
{
    let stage = if module.unicode_len() == 0 || symbol.unicode_len() == 0 {
        SymbolStage::Finished { address: None }
    } else if state.initialized {
        SymbolStage::Locating
    } else {
        SymbolStage::Initializing
    };
    SymbolSearch { module: module.to_owned(), symbol: symbol.to_owned(), stage }
}

impl SymbolSearch {
    /// The name that the symbol library knows the symbol by.
    pub open spec fn query(self) -> Seq<char> {
        base_name(self.module@) + seq!['!'] + self.symbol@
    }

    /// Returns what is to be done next.
    pub fn step(&self) -> (step: SymbolStep)
        ensures
            match self.stage {
                SymbolStage::Initializing => step is Initialize,
                SymbolStage::Locating => step is LocateModule,
                SymbolStage::Loading { base } => step == (SymbolStep::LoadSymbols { base }),
                SymbolStage::Querying => step matches SymbolStep::LookUp(name) && name@
                    == self.query(),
                SymbolStage::Finished { address } => step == SymbolStep::Done(address),
            },
    {
        match self.stage {
            SymbolStage::Initializing => SymbolStep::Initialize,
            SymbolStage::Locating => SymbolStep::LocateModule,
            SymbolStage::Loading { base } => SymbolStep::LoadSymbols { base },
            SymbolStage::Querying => {
                let mut name: String = module_basename_no_ext(self.module.as_str());
                proof {
                    reveal_strlit("!");
                }
                name.append("!");
                name.append(self.symbol.as_str());
                assert(name@ =~= self.query());
                SymbolStep::LookUp(name)
            },
            SymbolStage::Finished { address } => SymbolStep::Done(address),
        }
    }

    /// Takes whether the symbol library could be initialised.
    pub fn initialized(&mut self, state: &mut SymbolState, success: bool)
        requires
            old(self).stage == SymbolStage::Initializing,
        ensures
            *final(self) == (SymbolSearch {
                stage: if success {
                    SymbolStage::Locating
                } else {
                    SymbolStage::Finished { address: None }
                },
                ..*old(self)
            }),
            *final(state) == (SymbolState {
                initialized: old(state).initialized || success,
                ..*old(state)
            }),
    {
        if success {
            state.initialized = true;
            self.stage = SymbolStage::Locating;
        } else {
            self.stage = SymbolStage::Finished { address: None };
        }
    }

    /// Takes the address of the module, `None` where it could not be found. Its
    /// symbols are loaded unless they were before.
    pub fn located(&mut self, state: &SymbolState, module: Option<u64>)
        requires
            old(self).stage == SymbolStage::Locating,
        ensures
            *final(self) == (SymbolSearch {
                stage: match module {
                    Some(base) => if base == 0 {
                        SymbolStage::Finished { address: None }
                    } else if state.loaded@.contains(base) {
                        SymbolStage::Querying
                    } else {
                        SymbolStage::Loading { base }
                    },
                    None => SymbolStage::Finished { address: None },
                },
                ..*old(self)
            }),
    {
        match module {
            Some(base) => {
                if base == 0 {
                    self.stage = SymbolStage::Finished { address: None };
                    return;
                }
                let mut i: usize = 0;
                while i < state.loaded.len()
                    invariant
                        *self == *old(self),
                        base != 0,
                        module == Some(base),
                        i <= state.loaded@.len(),
                        forall|j: int| 0 <= j < i ==> state.loaded@[j] != base,
                    decreases state.loaded@.len() - i,
                {
                    if state.loaded[i] == base {
                        assert(state.loaded@[i as int] == base);
                        self.stage = SymbolStage::Querying;
                        return;
                    }
                    i = i + 1;
                }
                assert(!state.loaded@.contains(base));
                self.stage = SymbolStage::Loading { base };
            },
            None => {
                self.stage = SymbolStage::Finished { address: None };
            },
        }
    }

    /// Records that the symbols of the module were loaded, whether or not that
    /// went well.
    pub fn loaded(&mut self, state: &mut SymbolState)
        requires
            old(state).wf(),
            old(self).stage matches SymbolStage::Loading { base } && !old(state).loaded@.contains(
                base,
            ),
        ensures
            final(state).wf(),
            final(state).initialized == old(state).initialized,
            final(state).loaded@ == old(state).loaded@.push(old(self).stage->base),
            *final(self) == (SymbolSearch { stage: SymbolStage::Querying, ..*old(self) }),
    {
        if let SymbolStage::Loading { base } = self.stage {
            state.loaded.push(base);
        }
        self.stage = SymbolStage::Querying;
    }

    /// Takes the address that was asked for, `None` where the name is not known.
    /// An address of 0 is none.
    pub fn looked_up(&mut self, address: Option<u64>)
        requires
            old(self).stage == SymbolStage::Querying,
        ensures
            *final(self) == (SymbolSearch {
                stage: SymbolStage::Finished {
                    address: if address == Some(0u64) {
                        None
                    } else {
                        address
                    },
                },
                ..*old(self)
            }),
    {
        let found: Option<u64> = match address {
            Some(value) => if value == 0 {
                None
            } else {
                Some(value)
            },
            None => None,
        };
        self.stage = SymbolStage::Finished { address: found };
    }
}

/// Returns the name of the image whose symbols are loaded, with a zero behind it:
/// the path of the module, of which `len` units were filled in, or the name that
/// was asked for where the path could not be read whole.
pub fn image_name(path: &[u16], len: usize, module: &[u16]) -> (name: Vec<u16>)
    ensures
        name@ == if len == 0 || len >= path@.len() {
            module@.push(0)
        } else {
            path@.subrange(0, len + 1)
        },
{
    let mut name: Vec<u16> = Vec::new();
    if len == 0 || len >= path.len() {
        let mut i: usize = 0;
        while i < module.len()
            invariant
                i <= module@.len(),
                name@ == module@.subrange(0, i as int),
            decreases module@.len() - i,
        {
            name.push(module[i]);
            i = i + 1;
            assert(name@ =~= module@.subrange(0, i as int));
        }
        assert(name@ =~= module@);
        name.push(0);
        return name;
    }
    let mut i: usize = 0;
    while i <= len
        invariant
            i <= len + 1,
            len < path@.len(),
            name@ == path@.subrange(0, i as int),
        decreases len + 1 - i,
    {
        name.push(path[i]);
        i = i + 1;
        assert(name@ =~= path@.subrange(0, i as int));
    }
    name
}

} // verus!
