//! Structural queries that detect higher-level shapes in the type graph:
//! dictionary-like lists, iterator-like resources and unions of resource
//! handles. Each returns `None` where the shape is not present.
use vstd::prelude::*;
use vstd::string::StringExecFns;

use crate::graph::{Case, Function, FunctionKind, Handle, Type, TypeDef, TypeDefKind, TypeGraph, TypeId, TypeOwner};

verus! {

/// The element type, where `t` is defined as a list.
pub open spec fn spec_list_element_type(g: TypeGraph, t: Type) -> Option<Type> {
    match g.spec_type_def(t) {
        Some(d) => match d.kind {
            TypeDefKind::ListOf(e) => Some(e),
            _ => None,
        },
        None => None,
    }
}

/// The payload type, where `t` is defined as an option.
pub open spec fn spec_option_payload_type(g: TypeGraph, t: Type) -> Option<Type> {
    match g.spec_type_def(t) {
        Some(d) => match d.kind {
            TypeDefKind::OptionOf(e) => Some(e),
            _ => None,
        },
        None => None,
    }
}

/// The component types, where `t` is defined as a tuple.
pub open spec fn spec_tuple_types(g: TypeGraph, t: Type) -> Option<Seq<Type>> {
    match g.spec_type_def(t) {
        Some(d) => match d.kind {
            TypeDefKind::Tuple(ts) => Some(ts@),
            _ => None,
        },
        None => None,
    }
}

/// The cases, where `t` is defined as a variant.
pub open spec fn spec_variant_cases(g: TypeGraph, t: Type) -> Option<Seq<Case>> {
    match g.spec_type_def(t) {
        Some(d) => match d.kind {
            TypeDefKind::Variant(cs) => Some(cs@),
            _ => None,
        },
        None => None,
    }
}

/// Value type of a `list<tuple<string, V>>`: `V`.
pub open spec fn dictionary_value_type(g: TypeGraph, t: Type) -> Option<Type> {
    match spec_list_element_type(g, t) {
        Some(e) => match spec_tuple_types(g, e) {
            Some(ts) => if ts.len() == 2 && ts[0] == Type::Str {
                Some(ts[1])
            } else {
                None
            },
            None => None,
        },
        None => None,
    }
}

/// The functions of `fs` that are methods of the resource `id`, in order.
pub open spec fn methods_in(fs: Seq<Function>, id: TypeId) -> Seq<Function>
    decreases fs.len(),
{
    if fs.len() == 0 {
        Seq::empty()
    } else {
        let rest = methods_in(fs.drop_last(), id);
        if fs.last().kind == FunctionKind::Method(id) {
            rest.push(fs.last())
        } else {
            rest
        }
    }
}

/// Methods of the resource that `t` refers to, taken from the interface
/// that declares it; `None` where `t` is no type declared in an interface.
pub open spec fn resource_methods(g: TypeGraph, t: Type) -> Option<Seq<Function>> {
    match t {
        Type::Id(id) => match g.types@[id as int].owner {
            TypeOwner::Interface(i) => Some(methods_in(g.interfaces@[i as int].functions@, id)),
            _ => None,
        },
        _ => None,
    }
}

/// The first function of `ms` named `next`.
pub open spec fn first_named_next(ms: Seq<Function>) -> Option<Function>
    decreases ms.len(),
{
    if ms.len() == 0 {
        None
    } else if ms[0].name@ == "next"@ {
        Some(ms[0])
    } else {
        first_named_next(ms.drop_first())
    }
}

/// `T` where the resource `t` has a first method `next` with the single
/// result `option<T>`.
pub open spec fn iterator_payload_type(g: TypeGraph, t: Type) -> Option<Type> {
    match resource_methods(g, t) {
        Some(ms) => match first_named_next(ms) {
            Some(m) => if m.results@.len() == 1 {
                spec_option_payload_type(g, m.results@[0])
            } else {
                None
            },
            None => None,
        },
        None => None,
    }
}

/// The resource definition that a case's payload owns a handle to: the
/// payload is defined as `own<r>` (read without following aliases), and `r`
/// resolves, through any aliases, to a resource.
pub open spec fn owned_resource_def(g: TypeGraph, c: Case) -> Option<TypeDef> {
    match c.ty {
        Some(t) => match g.spec_type_def(t) {
            Some(d) => match d.kind {
                TypeDefKind::Handle(Handle::Own(r)) => match g.spec_resolved_def(Type::Id(r)) {
                    Some(rd) => if rd.kind is Resource {
                        Some(rd)
                    } else {
                        None
                    },
                    None => None,
                },
                _ => None,
            },
            None => None,
        },
        None => None,
    }
}

/// The owned resource definitions of the cases, in order; cases of another
/// shape are left out.
pub open spec fn owned_resource_defs(g: TypeGraph, cs: Seq<Case>) -> Seq<TypeDef>
    decreases cs.len(),
{
    if cs.len() == 0 {
        Seq::empty()
    } else {
        let rest = owned_resource_defs(g, cs.drop_last());
        match owned_resource_def(g, cs.last()) {
            Some(d) => rest.push(d),
            None => rest,
        }
    }
}

/// For a variant, the owned resource definitions of its cases.
pub open spec fn resource_handle_defs(g: TypeGraph, t: Type) -> Option<Seq<TypeDef>> {
    match spec_variant_cases(g, t) {
        Some(cs) => Some(owned_resource_defs(g, cs)),
        None => None,
    }
}

pub open spec fn deref_all<T>(s: Seq<&T>) -> Seq<T> {
    s.map_values(|x: &T| *x)
}

impl Type {
    /// The element type, where `self` is defined as a list.
    pub fn list_element_type(&self, g: &TypeGraph) -> (r: Option<Type>)
        requires
            g.wf(),
            g.type_ok(*self),
        ensures
            r == spec_list_element_type(*g, *self),
            r matches Some(e) ==> g.type_ok(e),
    {
        match g.type_def(*self) {
            Some(d) => match &d.kind {
                TypeDefKind::ListOf(e) => Some(*e),
                _ => None,
            },
            None => None,
        }
    }

    /// The payload type, where `self` is defined as an option.
    pub fn option_payload_type(&self, g: &TypeGraph) -> (r: Option<Type>)
        requires
            g.wf(),
            g.type_ok(*self),
        ensures
            r == spec_option_payload_type(*g, *self),
            r matches Some(e) ==> g.type_ok(e),
    {
        match g.type_def(*self) {
            Some(d) => match &d.kind {
                TypeDefKind::OptionOf(e) => Some(*e),
                _ => None,
            },
            None => None,
        }
    }

    /// The component types, where `self` is defined as a tuple.
    pub fn tuple_types<'a>(&self, g: &'a TypeGraph) -> (r: Option<&'a Vec<Type>>)
        requires
            g.wf(),
            g.type_ok(*self),
        ensures
            match r {
                Some(ts) => spec_tuple_types(*g, *self) == Some(ts@) && forall|i: int|
                    0 <= i < ts@.len() ==> g.type_ok(#[trigger] ts@[i]),
                None => spec_tuple_types(*g, *self) is None,
            },
    {
        match g.type_def(*self) {
            Some(d) => match &d.kind {
                TypeDefKind::Tuple(ts) => Some(ts),
                _ => None,
            },
            None => None,
        }
    }

    /// The cases, where `self` is defined as a variant.
    pub fn variant_cases<'a>(&self, g: &'a TypeGraph) -> (r: Option<&'a Vec<Case>>)
        requires
            g.wf(),
            g.type_ok(*self),
        ensures
            match r {
                Some(cs) => spec_variant_cases(*g, *self) == Some(cs@) && forall|i: int|
                    0 <= i < cs@.len() ==> match (#[trigger] cs@[i]).ty {
                        Some(t) => g.type_ok(t),
                        None => true,
                    },
                None => spec_variant_cases(*g, *self) is None,
            },
    {
        match g.type_def(*self) {
            Some(d) => match &d.kind {
                TypeDefKind::Variant(cs) => Some(cs),
                _ => None,
            },
            None => None,
        }
    }

    /// Every method of the resource `self` refers to, in the order of the
    /// declaring interface's function table.
    pub fn methods_of_resource<'a>(&self, g: &'a TypeGraph) -> (r: Option<Vec<&'a Function>>)
        requires
            g.wf(),
            g.type_ok(*self),
        ensures
            match r {
                Some(ms) => resource_methods(*g, *self) == Some(deref_all(ms@)),
                None => resource_methods(*g, *self) is None,
            },
    {
        let id = match self {
            Type::Id(id) => *id,
            _ => return None,
        };
        let i = match g.types[id].owner {
            TypeOwner::Interface(i) => i,
            _ => return None,
        };
        let fs = &g.interfaces[i].functions;
        let ghost all = fs@;
        let mut out: Vec<&'a Function> = Vec::new();
        let mut k: usize = 0;
        while k < fs.len()
            invariant
                k <= all.len(),
                all == fs@,
                deref_all(out@) == methods_in(all.take(k as int), id),
            decreases all.len() - k,
        {
            let f = &fs[k];
            proof {
                assert(all.take(k + 1).drop_last() =~= all.take(k as int));
                assert(all.take(k + 1).last() == all[k as int]);
            }
            let is_method = match f.kind {
                FunctionKind::Method(t) => t == id,
                _ => false,
            };
            if is_method {
                let ghost before = out@;
                out.push(f);
                assert(deref_all(out@) =~= deref_all(before).push(*f));
            }
            k = k + 1;
        }
        assert(all.take(all.len() as int) =~= all);
        Some(out)
    }

    /// Where `self` is a list of pairs whose first component is a string,
    /// the type of the second component: the value type of a dictionary.
    pub fn value_type_of_list_of_tuple_interpretable_as_dictionary(&self, g: &TypeGraph) -> (r: Option<Type>)
        requires
            g.wf(),
            g.type_ok(*self),
        ensures
            r == dictionary_value_type(*g, *self),
    {
        match self.list_element_type(g) {
            Some(e) => match e.tuple_types(g) {
                Some(ts) => if ts.len() == 2 && ts[0] == Type::Str {
                    Some(ts[1])
                } else {
                    None
                },
                None => None,
            },
            None => None,
        }
    }

    /// Where `self` is a resource whose first method named `next` has the
    /// single result `option<T>`, that `T`.
    pub fn payload_type_of_option_result_of_next_method_of_resource(&self, g: &TypeGraph) -> (r: Option<Type>)
        requires
            g.wf(),
            g.type_ok(*self),
        ensures
            r == iterator_payload_type(*g, *self),
    {
        let ms = match self.methods_of_resource(g) {
            Some(ms) => ms,
            None => return None,
        };
        let ghost all = deref_all(ms@);
        let next = String::from_str("next");
        let mut k: usize = 0;
        assert(all.subrange(0, all.len() as int) =~= all);
        while k < ms.len()
            invariant
                g.wf(),
                g.type_ok(*self),
                resource_methods(*g, *self) == Some(all),
                k <= all.len(),
                all == deref_all(ms@),
                next@ == "next"@,
                first_named_next(all) == first_named_next(all.subrange(k as int, all.len() as int)),
            decreases all.len() - k,
        {
            let m = ms[k];
            proof {
                let rest = all.subrange(k as int, all.len() as int);
                assert(rest.drop_first() =~= all.subrange(k + 1, all.len() as int));
                assert(rest[0] == *m);
            }
            if m.name == next {
                return if m.results.len() == 1 {
                    proof {
                        assert(all[k as int] == *m);
                        assert(all.contains(*m));
                        lemma_method_results_ok(*g, *self, *m);
                    }
                    m.results[0].option_payload_type(g)
                } else {
                    None
                };
            }
            k = k + 1;
        }
        None
    }

    /// The resource definition owned by the payload of a case.
    fn owned_resource_of_case<'a>(c: &Case, g: &'a TypeGraph) -> (r: Option<&'a TypeDef>)
        requires
            g.wf(),
            match c.ty {
                Some(t) => g.type_ok(t),
                None => true,
            },
        ensures
            match r {
                Some(d) => owned_resource_def(*g, *c) == Some(*d),
                None => owned_resource_def(*g, *c) is None,
            },
    {
        let t = match c.ty {
            Some(t) => t,
            None => return None,
        };
        let d = match g.type_def(t) {
            Some(d) => d,
            None => return None,
        };
        match d.kind {
            TypeDefKind::Handle(Handle::Own(r)) => match g.resolved_def(Type::Id(r)) {
                Some(rd) => match rd.kind {
                    TypeDefKind::Resource => Some(rd),
                    _ => None,
                },
                None => None,
            },
            _ => None,
        }
    }

    /// Where `self` is defined as a variant, the resource definitions that its
    /// cases own handles to, in case order. A case is left out when it has
    /// no payload, or its payload is not itself defined as an owned handle,
    /// or the handle's target does not resolve to a resource; so all cases qualify exactly
    /// when the result is as long as the variant's case list.
    pub fn variant_case_type_defs_where_they_are_all_handles<'a>(&self, g: &'a TypeGraph) -> (r: Option<Vec<&'a TypeDef>>)
        requires
            g.wf(),
            g.type_ok(*self),
        ensures
            match r {
                Some(ds) => resource_handle_defs(*g, *self) == Some(deref_all(ds@)),
                None => resource_handle_defs(*g, *self) is None,
            },
    {
        let cs = match self.variant_cases(g) {
            Some(cs) => cs,
            None => return None,
        };
        let ghost all = cs@;
        let mut out: Vec<&'a TypeDef> = Vec::new();
        let mut k: usize = 0;
        while k < cs.len()
            invariant
                g.wf(),
                k <= all.len(),
                all == cs@,
                forall|i: int| 0 <= i < all.len() ==> match (#[trigger] all[i]).ty {
                    Some(t) => g.type_ok(t),
                    None => true,
                },
                deref_all(out@) == owned_resource_defs(*g, all.take(k as int)),
            decreases all.len() - k,
        {
            let c = &cs[k];
            proof {
                assert(all.take(k + 1).drop_last() =~= all.take(k as int));
                assert(all.take(k + 1).last() == all[k as int]);
            }
            match Type::owned_resource_of_case(c, g) {
                Some(d) => {
                    let ghost before = out@;
                    out.push(d);
                    assert(deref_all(out@) =~= deref_all(before).push(*d));
                },
                None => {},
            }
            k = k + 1;
        }
        assert(all.take(all.len() as int) =~= all);
        Some(out)
    }
}

/// In a well-formed graph, the results of a method of a resource refer to
/// existing definitions.
proof fn lemma_method_results_ok(g: TypeGraph, t: Type, m: Function)
    requires
        g.wf(),
        g.type_ok(t),
        resource_methods(g, t) matches Some(ms) && ms.contains(m),
    ensures
        forall|i: int| 0 <= i < m.results@.len() ==> g.type_ok(#[trigger] m.results@[i]),
{
    let id = t->Id_0;
    let i = g.types@[id as int].owner->Interface_0;
    assert(g.type_def_ok(g.types@[id as int]));
    let fs = g.interfaces@[i as int].functions@;
    assert(g.interface_ok(g.interfaces@[i as int]));
    lemma_methods_in_from(fs, id, m);
    let j = choose|j: int| 0 <= j < fs.len() && fs[j] == m;
    assert(g.function_ok(fs[j]));
}

/// Every function that `methods_in` keeps is one of the input functions.
proof fn lemma_methods_in_from(fs: Seq<Function>, id: TypeId, m: Function)
    requires
        methods_in(fs, id).contains(m),
    ensures
        fs.contains(m),
    decreases fs.len(),
{
    if fs.len() > 0 {
        let rest = methods_in(fs.drop_last(), id);
        if rest.contains(m) {
            lemma_methods_in_from(fs.drop_last(), id, m);
            let j = choose|j: int| 0 <= j < fs.drop_last().len() && fs.drop_last()[j] == m;
            assert(fs[j] == m);
        } else {
            let j = choose|j: int| 0 <= j < methods_in(fs, id).len() && methods_in(fs, id)[j] == m;
            assert(j == rest.len());
            assert(fs[fs.len() - 1] == m);
        }
    }
}

/// Every definition collected from a variant's cases is a resource.
pub proof fn lemma_owned_defs_are_resources(g: TypeGraph, cs: Seq<Case>)
    ensures
        forall|i: int|
            0 <= i < owned_resource_defs(g, cs).len() ==> (#[trigger] owned_resource_defs(g, cs)[i]).kind is Resource,
    decreases cs.len(),
{
    if cs.len() > 0 {
        lemma_owned_defs_are_resources(g, cs.drop_last());
    }
}

/// Every classifier is a function of its inputs: two answers about the same
/// type in the same graph are equal.
pub proof fn lemma_classifiers_repeatable(
    g: TypeGraph,
    t: Type,
    a: (Option<Type>, Option<Type>, Option<Seq<TypeDef>>),
    b: (Option<Type>, Option<Type>, Option<Seq<TypeDef>>),
)
    requires
        a.0 == dictionary_value_type(g, t),
        a.1 == iterator_payload_type(g, t),
        a.2 == resource_handle_defs(g, t),
        b.0 == dictionary_value_type(g, t),
        b.1 == iterator_payload_type(g, t),
        b.2 == resource_handle_defs(g, t),
    ensures
        a == b,
{
}

/// The resource definitions collected from a variant's cases are never more
/// than the cases, and exactly as many when every case owns a resource
/// handle; so comparing the lengths tells whether all cases qualified.
pub proof fn lemma_all_cases_owned_iff_full_length(g: TypeGraph, cs: Seq<Case>)
    ensures
        owned_resource_defs(g, cs).len() <= cs.len(),
        owned_resource_defs(g, cs).len() == cs.len() <==> forall|i: int|
            0 <= i < cs.len() ==> (#[trigger] owned_resource_def(g, cs[i])) is Some,
    decreases cs.len(),
{
    if cs.len() > 0 {
        let init = cs.drop_last();
        lemma_all_cases_owned_iff_full_length(g, init);
        assert(cs.last() == cs[cs.len() - 1]);
        if owned_resource_defs(g, cs).len() == cs.len() {
            assert forall|i: int| 0 <= i < cs.len() implies (#[trigger] owned_resource_def(g, cs[i])) is Some by {
                if i < init.len() {
                    assert(init[i] == cs[i]);
                }
            }
        } else if owned_resource_def(g, cs.last()) is Some {
            let i = choose|i: int| 0 <= i < init.len() && !(#[trigger] owned_resource_def(g, init[i]) is Some);
            assert(init[i] == cs[i]);
        }
    }
}

} // verus!
