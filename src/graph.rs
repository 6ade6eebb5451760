//! A plain-value model of a resolved interface-definition graph.
//!
//! Every cross reference is an index into one of the graph's tables
//! (`types`, `interfaces`, `packages`, `worlds`).
use vstd::prelude::*;

verus! {

/// Index of a type definition in `TypeGraph::types`.
pub type TypeId = usize;

/// Index of an interface in `TypeGraph::interfaces`.
pub type InterfaceId = usize;

/// Index of a package in `TypeGraph::packages`.
pub type PackageId = usize;

/// Index of a world in `TypeGraph::worlds`.
pub type WorldId = usize;

/// A use of a type: a primitive, or a reference to a type definition.
#[derive(Clone, Copy, Debug, PartialEq, Eq, Structural)]
pub enum Type {
    Bool,
    U8,
    U16,
    U32,
    U64,
    S8,
    S16,
    S32,
    S64,
    Float32,
    Float64,
    Char,
    Str,
    ErrorContext,
    Id(TypeId),
}

/// A handle to a resource.
#[derive(Clone, Copy, Debug, PartialEq, Eq, Structural)]
pub enum Handle {
    Own(TypeId),
    Borrow(TypeId),
}

/// One case of a variant, with its optional payload.
#[derive(Clone, Debug)]
pub struct Case {
    pub name: String,
    pub ty: Option<Type>,
}

/// The shape of a type definition, as far as the classifiers read it.
#[derive(Clone, Debug)]
pub enum TypeDefKind {
    Record,
    Resource,
    Handle(Handle),
    Flags,
    Tuple(Vec<Type>),
    Variant(Vec<Case>),
    Enum,
    OptionOf(Type),
    ResultOf,
    ListOf(Type),
    Future,
    Stream,
    Alias(Type),
    Other,
}

/// Where a type definition was declared.
#[derive(Clone, Copy, Debug, PartialEq, Eq, Structural)]
pub enum TypeOwner {
    World(WorldId),
    Interface(InterfaceId),
    Unowned,
}

#[derive(Clone, Debug)]
pub struct TypeDef {
    pub name: Option<String>,
    pub kind: TypeDefKind,
    pub owner: TypeOwner,
}

/// What a function is bound to.
#[derive(Clone, Copy, Debug, PartialEq, Eq, Structural)]
pub enum FunctionKind {
    Freestanding,
    Method(TypeId),
    Static(TypeId),
    Constructor(TypeId),
    /// Bound to a type in another way (an async method or static, a getter
    /// or a setter): addressed like a method, but not scanned as one.
    OtherBound(TypeId),
}

/// A function; `name` is its local name (for a method, without the
/// resource prefix).
#[derive(Clone, Debug)]
pub struct Function {
    pub name: String,
    pub kind: FunctionKind,
    pub results: Vec<Type>,
}

#[derive(Clone, Debug)]
pub struct Interface {
    pub name: Option<String>,
    pub package: Option<PackageId>,
    pub functions: Vec<Function>,
}

#[derive(Clone, Debug)]
pub struct Package {
    pub namespace: String,
    pub name: String,
}

#[derive(Clone, Debug)]
pub struct World {
    pub name: String,
}

/// The whole graph; read only once built.
#[derive(Clone, Debug)]
pub struct TypeGraph {
    pub types: Vec<TypeDef>,
    pub interfaces: Vec<Interface>,
    pub packages: Vec<Package>,
    pub worlds: Vec<World>,
}

impl TypeGraph {
    pub open spec fn type_id_ok(self, id: TypeId) -> bool {
        id < self.types@.len()
    }

    /// A use of a type that refers only to definitions that exist.
    pub open spec fn type_ok(self, t: Type) -> bool {
        match t {
            Type::Id(id) => self.type_id_ok(id),
            _ => true,
        }
    }

    pub open spec fn kind_ok(self, k: TypeDefKind) -> bool {
        match k {
            TypeDefKind::Handle(Handle::Own(id)) => self.type_id_ok(id),
            TypeDefKind::Handle(Handle::Borrow(id)) => self.type_id_ok(id),
            TypeDefKind::Tuple(ts) => forall|i: int| 0 <= i < ts@.len() ==> self.type_ok(#[trigger] ts@[i]),
            TypeDefKind::Variant(cs) => forall|i: int|
                0 <= i < cs@.len() ==> match (#[trigger] cs@[i]).ty {
                    Some(t) => self.type_ok(t),
                    None => true,
                },
            TypeDefKind::OptionOf(t) => self.type_ok(t),
            TypeDefKind::ListOf(t) => self.type_ok(t),
            TypeDefKind::Alias(t) => self.type_ok(t),
            _ => true,
        }
    }

    pub open spec fn owner_ok(self, o: TypeOwner) -> bool {
        match o {
            TypeOwner::World(w) => w < self.worlds@.len(),
            TypeOwner::Interface(i) => i < self.interfaces@.len(),
            TypeOwner::Unowned => true,
        }
    }

    pub open spec fn type_def_ok(self, d: TypeDef) -> bool {
        self.kind_ok(d.kind) && self.owner_ok(d.owner)
    }

    /// A function whose bound type and results exist in the graph.
    pub open spec fn function_ok(self, f: Function) -> bool {
        &&& match f.kind {
            FunctionKind::Freestanding => true,
            FunctionKind::Method(id) => self.type_id_ok(id),
            FunctionKind::Static(id) => self.type_id_ok(id),
            FunctionKind::Constructor(id) => self.type_id_ok(id),
            FunctionKind::OtherBound(id) => self.type_id_ok(id),
        }
        &&& forall|i: int| 0 <= i < f.results@.len() ==> self.type_ok(#[trigger] f.results@[i])
    }

    pub open spec fn interface_ok(self, itf: Interface) -> bool {
        &&& match itf.package {
            Some(p) => p < self.packages@.len(),
            None => true,
        }
        &&& forall|i: int| 0 <= i < itf.functions@.len() ==> self.function_ok(#[trigger] itf.functions@[i])
    }

    /// Every index stored anywhere in the graph is in range.
    pub open spec fn wf(self) -> bool {
        &&& forall|i: int| 0 <= i < self.types@.len() ==> self.type_def_ok(#[trigger] self.types@[i])
        &&& forall|i: int| 0 <= i < self.interfaces@.len() ==> self.interface_ok(#[trigger] self.interfaces@[i])
    }

    /// Whether `t` refers only to existing definitions.
    pub fn type_fits(&self, t: Type) -> (r: bool)
        ensures
            r == self.type_ok(t),
    {
        match t {
            Type::Id(id) => id < self.types.len(),
            _ => true,
        }
    }

    fn types_fit(&self, ts: &Vec<Type>) -> (r: bool)
        ensures
            r == forall|i: int| 0 <= i < ts@.len() ==> self.type_ok(#[trigger] ts@[i]),
    {
        let mut i: usize = 0;
        while i < ts.len()
            invariant
                i <= ts@.len(),
                forall|j: int| 0 <= j < i ==> self.type_ok(#[trigger] ts@[j]),
            decreases ts@.len() - i,
        {
            if !self.type_fits(ts[i]) {
                return false;
            }
            i = i + 1;
        }
        true
    }

    fn kind_fits(&self, k: &TypeDefKind) -> (r: bool)
        ensures
            r == self.kind_ok(*k),
    {
        match k {
            TypeDefKind::Handle(Handle::Own(id)) => *id < self.types.len(),
            TypeDefKind::Handle(Handle::Borrow(id)) => *id < self.types.len(),
            TypeDefKind::Tuple(ts) => self.types_fit(ts),
            TypeDefKind::Variant(cs) => {
                let mut i: usize = 0;
                while i < cs.len()
                    invariant
                        *k == TypeDefKind::Variant(*cs),
                        i <= cs@.len(),
                        forall|j: int|
                            0 <= j < i ==> match (#[trigger] cs@[j]).ty {
                                Some(t) => self.type_ok(t),
                                None => true,
                            },
                    decreases cs@.len() - i,
                {
                    if let Some(t) = cs[i].ty {
                        if !self.type_fits(t) {
                            assert(cs@[i as int].ty == Some(t));
                            return false;
                        }
                    }
                    i = i + 1;
                }
                true
            },
            TypeDefKind::OptionOf(t) => self.type_fits(*t),
            TypeDefKind::ListOf(t) => self.type_fits(*t),
            TypeDefKind::Alias(t) => self.type_fits(*t),
            _ => true,
        }
    }

    /// Whether the type `f` is bound to and its results exist in the graph.
    pub fn function_fits(&self, f: &Function) -> (r: bool)
        ensures
            r == self.function_ok(*f),
    {
        let bound = match f.kind {
            FunctionKind::Freestanding => true,
            FunctionKind::Method(id) => id < self.types.len(),
            FunctionKind::Static(id) => id < self.types.len(),
            FunctionKind::Constructor(id) => id < self.types.len(),
            FunctionKind::OtherBound(id) => id < self.types.len(),
        };
        bound && self.types_fit(&f.results)
    }

    fn interface_fits(&self, itf: &Interface) -> (r: bool)
        ensures
            r == self.interface_ok(*itf),
    {
        if let Some(p) = itf.package {
            if p >= self.packages.len() {
                return false;
            }
        }
        let mut i: usize = 0;
        while i < itf.functions.len()
            invariant
                i <= itf.functions@.len(),
                match itf.package {
                    Some(p) => p < self.packages@.len(),
                    None => true,
                },
                forall|j: int| 0 <= j < i ==> self.function_ok(#[trigger] itf.functions@[j]),
            decreases itf.functions@.len() - i,
        {
            if !self.function_fits(&itf.functions[i]) {
                return false;
            }
            i = i + 1;
        }
        true
    }

    /// Whether every index stored in the graph is in range.
    pub fn is_well_formed(&self) -> (r: bool)
        ensures
            r == self.wf(),
    {
        let mut i: usize = 0;
        while i < self.types.len()
            invariant
                i <= self.types@.len(),
                forall|j: int| 0 <= j < i ==> self.type_def_ok(#[trigger] self.types@[j]),
            decreases self.types@.len() - i,
        {
            let d = &self.types[i];
            let owner = match d.owner {
                TypeOwner::World(w) => w < self.worlds.len(),
                TypeOwner::Interface(k) => k < self.interfaces.len(),
                TypeOwner::Unowned => true,
            };
            if !(owner && self.kind_fits(&d.kind)) {
                return false;
            }
            i = i + 1;
        }
        let mut k: usize = 0;
        while k < self.interfaces.len()
            invariant
                k <= self.interfaces@.len(),
                forall|j: int| 0 <= j < self.types@.len() ==> self.type_def_ok(#[trigger] self.types@[j]),
                forall|j: int| 0 <= j < k ==> self.interface_ok(#[trigger] self.interfaces@[j]),
            decreases self.interfaces@.len() - k,
        {
            if !self.interface_fits(&self.interfaces[k]) {
                return false;
            }
            k = k + 1;
        }
        true
    }

    /// The definition a use of a type refers to, if it refers to one: a
    /// single lookup, which does not look through aliases.
    pub open spec fn spec_type_def(self, t: Type) -> Option<TypeDef> {
        match t {
            Type::Id(id) => Some(self.types@[id as int]),
            _ => None,
        }
    }

    /// Looks up the definition that `t` refers to, without following aliases.
    pub fn type_def(&self, t: Type) -> (r: Option<&TypeDef>)
        requires
            self.wf(),
            self.type_ok(t),
        ensures
            match r {
                Some(d) => self.spec_type_def(t) == Some(*d) && self.type_def_ok(*d),
                None => self.spec_type_def(t) is None,
            },
    {
        match t {
            Type::Id(id) => {
                proof {
                    assert(self.type_def_ok(self.types@[id as int]));
                }
                Some(&self.types[id])
            },
            _ => None,
        }
    }

    /// Where a chain of aliases starting at `id` ends: the first definition
    /// that is not an alias of another definition. `fuel` bounds the number
    /// of alias links followed; a longer chain gives `None`.
    pub open spec fn alias_target(self, id: TypeId, fuel: nat) -> Option<TypeId>
        decreases fuel,
    {
        match self.types@[id as int].kind {
            TypeDefKind::Alias(Type::Id(next)) => if fuel == 0 {
                None
            } else {
                self.alias_target(next, (fuel - 1) as nat)
            },
            _ => Some(id),
        }
    }

    /// The definition that `t` resolves to once aliases are looked through.
    /// At most as many links are followed as the graph has definitions, so
    /// a chain that runs in a cycle resolves to nothing.
    pub open spec fn spec_resolved_def(self, t: Type) -> Option<TypeDef> {
        match t {
            Type::Id(id) => match self.alias_target(id, self.types@.len() as nat) {
                Some(x) => Some(self.types@[x as int]),
                None => None,
            },
            _ => None,
        }
    }

    /// Looks up the definition that `t` resolves to, following aliases.
    pub fn resolved_def(&self, t: Type) -> (r: Option<&TypeDef>)
        requires
            self.wf(),
            self.type_ok(t),
        ensures
            match r {
                Some(d) => self.spec_resolved_def(t) == Some(*d) && self.type_def_ok(*d),
                None => self.spec_resolved_def(t) is None,
            },
    {
        let start = match t {
            Type::Id(id) => id,
            _ => return None,
        };
        let mut cur = start;
        let mut fuel = self.types.len();
        loop
            invariant
                self.wf(),
                self.type_id_ok(cur),
                fuel <= self.types@.len(),
                t == Type::Id(start),
                self.alias_target(start, self.types@.len() as nat) == self.alias_target(cur, fuel as nat),
            decreases fuel,
        {
            let d = &self.types[cur];
            proof {
                assert(self.type_def_ok(self.types@[cur as int]));
            }
            match d.kind {
                TypeDefKind::Alias(Type::Id(next)) => {
                    if fuel == 0 {
                        return None;
                    }
                    cur = next;
                    fuel = fuel - 1;
                },
                _ => return Some(d),
            }
        }
    }
}

} // verus!
