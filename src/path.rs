//! Canonical element paths, the keys under which configuration is looked up.
use vstd::prelude::*;
use vstd::string::StringExecFns;

use crate::graph::{Function, FunctionKind, TypeGraph, TypeId, TypeOwner};

verus! {

/// An element that configuration can be attached to.
pub enum Element<'a> {
    Type(TypeId),
    Function(&'a Function),
}

/// `segs` joined with `sep` between each two neighbours.
pub open spec fn join(segs: Seq<Seq<char>>, sep: Seq<char>) -> Seq<char>
    decreases segs.len(),
{
    if segs.len() == 0 {
        Seq::empty()
    } else if segs.len() == 1 {
        segs[0]
    } else {
        join(segs.drop_last(), sep) + sep + segs.last()
    }
}

/// The segments contributed by where a type was declared.
pub open spec fn owner_segments(g: TypeGraph, owner: TypeOwner) -> Seq<Seq<char>> {
    match owner {
        TypeOwner::World(w) => seq![g.worlds@[w as int].name@],
        TypeOwner::Interface(i) => {
            let itf = g.interfaces@[i as int];
            let pkg = match itf.package {
                Some(p) => seq![g.packages@[p as int].namespace@, g.packages@[p as int].name@],
                None => Seq::empty(),
            };
            let name = match itf.name {
                Some(n) => seq![n@],
                None => Seq::empty(),
            };
            pkg + name
        },
        TypeOwner::Unowned => Seq::empty(),
    }
}

pub open spec fn type_segments(g: TypeGraph, id: TypeId) -> Seq<Seq<char>> {
    let d = g.types@[id as int];
    owner_segments(g, d.owner) + match d.name {
        Some(n) => seq![n@],
        None => Seq::empty(),
    }
}

/// Path of a type: its owner's segments and its own name, joined by `:`.
pub open spec fn type_path(g: TypeGraph, id: TypeId) -> Seq<char> {
    join(type_segments(g, id), ":"@)
}

/// Path of a function: its local name when freestanding, otherwise
/// `<bound type's path>.<name>()`.
pub open spec fn function_path(g: TypeGraph, f: Function) -> Seq<char> {
    match f.kind {
        FunctionKind::Freestanding => f.name@,
        FunctionKind::Method(id) => type_path(g, id) + "."@ + f.name@ + "()"@,
        FunctionKind::Static(id) => type_path(g, id) + "."@ + f.name@ + "()"@,
        FunctionKind::Constructor(id) => type_path(g, id) + "."@ + f.name@ + "()"@,
        FunctionKind::OtherBound(id) => type_path(g, id) + "."@ + f.name@ + "()"@,
    }
}

pub open spec fn element_ok(g: TypeGraph, e: Element) -> bool {
    match e {
        Element::Type(id) => g.type_id_ok(id),
        Element::Function(f) => g.function_ok(*f),
    }
}

pub open spec fn element_path(g: TypeGraph, e: Element) -> Seq<char> {
    match e {
        Element::Type(id) => type_path(g, id),
        Element::Function(f) => function_path(g, *f),
    }
}

fn join_segments(segs: &Vec<String>) -> (r: String)
    ensures
        r@ == join(segs.deep_view(), ":"@),
{
    let ghost all = segs.deep_view();
    let mut r = String::new();
    let mut i: usize = 0;
    while i < segs.len()
        invariant
            i <= segs@.len(),
            all == segs.deep_view(),
            r@ == join(all.take(i as int), ":"@),
        decreases segs@.len() - i,
    {
        if i > 0 {
            r.append(":");
        }
        r.append(segs[i].as_str());
        proof {
            assert(all.take(i + 1).drop_last() =~= all.take(i as int));
            if i == 0 {
                assert(r@ =~= all[0]);
            }
        }
        i = i + 1;
    }
    assert(all.take(segs@.len() as int) =~= all);
    r
}

/// Canonical path of a type definition.
pub fn type_path_of(g: &TypeGraph, id: TypeId) -> (r: String)
    requires
        g.wf(),
        g.type_id_ok(id),
    ensures
        r@ == type_path(*g, id),
{
    let d = &g.types[id];
    let mut segs: Vec<String> = Vec::new();
    match d.owner {
        TypeOwner::World(w) => {
            segs.push(g.worlds[w].name.clone());
        },
        TypeOwner::Interface(i) => {
            let itf = &g.interfaces[i];
            if let Some(p) = itf.package {
                segs.push(g.packages[p].namespace.clone());
                segs.push(g.packages[p].name.clone());
            }
            if let Some(n) = &itf.name {
                segs.push(n.clone());
            }
        },
        TypeOwner::Unowned => {},
    }
    if let Some(n) = &d.name {
        segs.push(n.clone());
    }
    assert(segs.deep_view() =~= type_segments(*g, id));
    join_segments(&segs)
}

/// Canonical path of a function.
pub fn function_path_of(g: &TypeGraph, f: &Function) -> (r: String)
    requires
        g.wf(),
        g.function_ok(*f),
    ensures
        r@ == function_path(*g, *f),
{
    match f.kind {
        FunctionKind::Freestanding => f.name.clone(),
        FunctionKind::Method(id)
        | FunctionKind::Static(id)
        | FunctionKind::Constructor(id)
        | FunctionKind::OtherBound(id) => {
            let mut p = type_path_of(g, id);
            p.append(".");
            p.append(f.name.as_str());
            p.append("()");
            p
        },
    }
}

/// Canonical path of an element, the key of its configuration.
pub fn path(element: &Element, g: &TypeGraph) -> (r: String)
    requires
        g.wf(),
        element_ok(*g, *element),
    ensures
        r@ == element_path(*g, *element),
{
    match element {
        Element::Type(id) => type_path_of(g, *id),
        Element::Function(f) => function_path_of(g, f),
    }
}

/// Computing a path twice on the same element and graph gives the same
/// string: the path is a function of the element and the graph alone.
pub proof fn lemma_path_deterministic(g: TypeGraph, e: Element, a: Seq<char>, b: Seq<char>)
    requires
        a == element_path(g, e),
        b == element_path(g, e),
    ensures
        a == b,
{
}

/// A function bound to a type has the type's path, a dot, its local name
/// and `()` as its path.
pub proof fn lemma_bound_function_path(g: TypeGraph, f: Function, id: TypeId)
    requires
        f.kind == FunctionKind::Method(id) || f.kind == FunctionKind::Static(id)
            || f.kind == FunctionKind::Constructor(id) || f.kind == FunctionKind::OtherBound(id),
    ensures
        element_path(g, Element::Function(&f)) == element_path(g, Element::Type(id)) + "."@
            + f.name@ + "()"@,
{
}

} // verus!
