use vstd::prelude::*;
use crate::ids::GenericParamId;
use crate::types::{
    clone_kinds, clone_type, type_eq, view_captures, view_type, view_types, CaptureKind,
    FunctionCapture, SpecCapture, SpecType, Type,
};

verus! {

/// Replaces every generic parameter that `m` binds by its binding.
pub open spec fn subst_type(t: SpecType, m: Map<GenericParamId, SpecType>) -> SpecType
    decreases t,
{
    match t {
        SpecType::Generic(p) => if m.contains_key(p) {
            m[p]
        } else {
            t
        },
        SpecType::Struct { id, args } => SpecType::Struct { id, args: subst_types(args, m) },
        SpecType::Enum { id, args } => SpecType::Enum { id, args: subst_types(args, m) },
        SpecType::Tuple(items) => SpecType::Tuple(subst_types(items, m)),
        SpecType::Function { params, ret, safety, callable_kind, captures } => SpecType::Function {
            params: subst_types(params, m),
            ret: Box::new(subst_type(*ret, m)),
            safety,
            callable_kind,
            captures: subst_captures(captures, m),
        },
        SpecType::Slice(inner) => SpecType::Slice(Box::new(subst_type(*inner, m))),
        SpecType::Array(inner, len) => SpecType::Array(Box::new(subst_type(*inner, m)), len),
        SpecType::Pointer(inner) => SpecType::Pointer(Box::new(subst_type(*inner, m))),
        SpecType::Reference { mutable, inner } => SpecType::Reference {
            mutable,
            inner: Box::new(subst_type(*inner, m)),
        },
        SpecType::Apply { constructor, args } => SpecType::Apply {
            constructor: Box::new(subst_type(*constructor, m)),
            args: subst_types(args, m),
        },
        SpecType::Lambda { params, body } => SpecType::Lambda {
            params,
            body: Box::new(subst_type(*body, m)),
        },
        SpecType::Projection { ty, trait_id, assoc_type, trait_args } => SpecType::Projection {
            ty: Box::new(subst_type(*ty, m)),
            trait_id,
            assoc_type,
            trait_args: subst_types(trait_args, m),
        },
        _ => t,
    }
}

pub open spec fn subst_types(ts: Seq<SpecType>, m: Map<GenericParamId, SpecType>) -> Seq<
    SpecType,
>
    decreases ts,
{
    Seq::new(ts.len(), |i: int| if 0 <= i < ts.len() { subst_type(ts[i], m) } else { SpecType::Unit })
}

pub open spec fn subst_captures(cs: Seq<SpecCapture>, m: Map<GenericParamId, SpecType>) -> Seq<
    SpecCapture,
>
    decreases cs,
{
    Seq::new(
        cs.len(),
        |i: int|
            if 0 <= i < cs.len() {
                SpecCapture { kind: cs[i].kind, ty: subst_type(cs[i].ty, m) }
            } else {
                SpecCapture { kind: CaptureKind::Move, ty: SpecType::Unit }
            },
    )
}

/// A finite map from generic parameters to types, kept as a list of bindings
/// in which no parameter occurs twice.
#[derive(Debug)]
pub struct Substitution {
    entries: Vec<(GenericParamId, Type)>,
}

impl View for Substitution {
    type V = Map<GenericParamId, SpecType>;

    closed spec fn view(&self) -> Map<GenericParamId, SpecType> {
        Map::new(
            |k: GenericParamId| exists|i: int| 0 <= i < self.entries@.len() && self.entries@[i].0 == k,
            |k: GenericParamId|
                view_type(
                    self.entries@[choose|i: int|
                        0 <= i < self.entries@.len() && self.entries@[i].0 == k].1,
                ),
        )
    }
}

impl Substitution {
    /// No parameter is bound twice.
    pub closed spec fn wf(&self) -> bool {
        forall|i: int, j: int|
            0 <= i < self.entries@.len() && 0 <= j < self.entries@.len() && i != j
                ==> self.entries@[i].0 != self.entries@[j].0
    }

    proof fn lemma_entry(&self, i: int)
        requires
            self.wf(),
            0 <= i < self.entries@.len(),
        ensures
            self@.contains_key(self.entries@[i].0),
            self@[self.entries@[i].0] == view_type(self.entries@[i].1),
    {
        let k = self.entries@[i].0;
        assert(0 <= i < self.entries@.len() && self.entries@[i].0 == k);
        let j = choose|j: int| 0 <= j < self.entries@.len() && self.entries@[j].0 == k;
        assert(j == i);
    }

    proof fn lemma_absent(&self, k: GenericParamId)
        requires
            forall|i: int| 0 <= i < self.entries@.len() ==> self.entries@[i].0 != k,
        ensures
            !self@.contains_key(k),
    {
    }

    /// The empty substitution.
    pub fn new() -> (s: Substitution)
        ensures
            s.wf(),
            s@ == Map::<GenericParamId, SpecType>::empty(),
    {
        let s = Substitution { entries: Vec::new() };
        assert(s@ =~= Map::<GenericParamId, SpecType>::empty());
        s
    }

    /// Position of the binding of `k`, if any.
    fn find(&self, k: &GenericParamId) -> (r: Option<usize>)
        requires
            self.wf(),
        ensures
            r is None ==> !self@.contains_key(*k),
            r matches Some(i) ==> i < self.entries@.len() && self.entries@[i as int].0 == *k
                && self@.contains_key(*k) && self@[*k] == view_type(self.entries@[i as int].1),
    {
        let mut i: usize = 0;
        while i < self.entries.len()
            invariant
                self.wf(),
                i <= self.entries@.len(),
                forall|j: int| 0 <= j < i ==> self.entries@[j].0 != *k,
            decreases self.entries.len() - i,
        {
            if self.entries[i].0 == *k {
                proof {
                    self.lemma_entry(i as int);
                }
                return Some(i);
            }
            i = i + 1;
        }
        proof {
            self.lemma_absent(*k);
        }
        None
    }

    /// The binding of `k`.
    pub fn get(&self, k: &GenericParamId) -> (r: Option<&Type>)
        requires
            self.wf(),
        ensures
            r is Some <==> self@.contains_key(*k),
            r matches Some(t) ==> t@ == self@[*k],
    {
        match self.find(k) {
            Some(i) => Some(&self.entries[i].1),
            None => None,
        }
    }

    pub fn contains_key(&self, k: &GenericParamId) -> (r: bool)
        requires
            self.wf(),
        ensures
            r == self@.contains_key(*k),
    {
        self.find(k).is_some()
    }

    /// Number of bound parameters.
    pub fn len(&self) -> (r: usize)
        requires
            self.wf(),
        ensures
            r == self@.len(),
    {
        proof {
            self.lemma_len();
        }
        self.entries.len()
    }

    proof fn lemma_len(&self)
        requires
            self.wf(),
        ensures
            self@.dom().finite(),
            self@.len() == self.entries@.len(),
        decreases self.entries@.len(),
    {
        let keys = self.entries@.map_values(|e: (GenericParamId, Type)| e.0);
        assert forall|k: GenericParamId| #[trigger] self@.dom().contains(k) implies keys.to_set().contains(k) by {
            let i = choose|i: int| 0 <= i < self.entries@.len() && self.entries@[i].0 == k;
            assert(keys[i] == k);
        }
        assert forall|k: GenericParamId| #[trigger] keys.to_set().contains(k) implies self@.dom().contains(k) by {
            let i = choose|i: int| 0 <= i < keys.len() && keys[i] == k;
            assert(self.entries@[i].0 == k);
        }
        assert(self@.dom() =~= keys.to_set());
        assert forall|i: int, j: int| 0 <= i < keys.len() && 0 <= j < keys.len() && i != j implies keys[i] != keys[j] by {
            assert(self.entries@[i].0 != self.entries@[j].0);
        }
        assert(keys.no_duplicates());
        keys.unique_seq_to_set();
    }

    /// Binds `k` to `v`, replacing any earlier binding of `k`.
    pub fn insert(&mut self, k: GenericParamId, v: Type)
        requires
            old(self).wf(),
        ensures
            final(self).wf(),
            final(self)@ == old(self)@.insert(k, v@),
    {
        let ghost v_view = v@;
        match self.find(&k) {
            Some(i) => {
                self.entries.set(i, (k, v));
                assert forall|j: int| 0 <= j < self.entries@.len() implies (#[trigger] self.entries@[j]).0
                    == old(self).entries@[j].0 by {}
                assert forall|key: GenericParamId| #[trigger] self@.contains_key(key) <==> old(
                    self,
                )@.insert(k, v_view).contains_key(key) by {
                    if old(self)@.contains_key(key) {
                        let j = choose|j: int|
                            0 <= j < old(self).entries@.len() && old(self).entries@[j].0 == key;
                        assert(self.entries@[j].0 == key);
                    }
                    if key == k {
                        assert(self.entries@[i as int].0 == key);
                    }
                }
                assert forall|key: GenericParamId| #[trigger] self@.contains_key(key) implies self@[key]
                    == old(self)@.insert(k, v_view)[key] by {
                    let j = choose|j: int| 0 <= j < self.entries@.len() && self.entries@[j].0 == key;
                    self.lemma_entry(j);
                    if key != k {
                        old(self).lemma_entry(j);
                    }
                }
                assert(self@ =~= old(self)@.insert(k, v_view));
            },
            None => {
                self.entries.push((k, v));
                let ghost n: int = self.entries@.len() - 1;
                assert forall|key: GenericParamId| #[trigger] self@.contains_key(key) <==> old(
                    self,
                )@.insert(k, v_view).contains_key(key) by {
                    if old(self)@.contains_key(key) {
                        let j = choose|j: int|
                            0 <= j < old(self).entries@.len() && old(self).entries@[j].0 == key;
                        assert(self.entries@[j].0 == key);
                    }
                    if key == k {
                        assert(self.entries@[n].0 == key);
                    }
                    if self@.contains_key(key) && key != k {
                        let j = choose|j: int| 0 <= j < self.entries@.len() && self.entries@[j].0 == key;
                        assert(old(self).entries@[j].0 == key);
                    }
                }
                assert forall|key: GenericParamId| #[trigger] self@.contains_key(key) implies self@[key]
                    == old(self)@.insert(k, v_view)[key] by {
                    let j = choose|j: int| 0 <= j < self.entries@.len() && self.entries@[j].0 == key;
                    self.lemma_entry(j);
                    if key != k {
                        old(self).lemma_entry(j);
                    }
                }
                assert(self@ =~= old(self)@.insert(k, v_view));
            },
        }
    }

    /// Binds `k` to `v` unless `k` is already bound.
    pub fn insert_if_absent(&mut self, k: GenericParamId, v: Type)
        requires
            old(self).wf(),
        ensures
            final(self).wf(),
            final(self)@ == (if old(self)@.contains_key(k) {
                old(self)@
            } else {
                old(self)@.insert(k, v@)
            }),
    {
        if !self.contains_key(&k) {
            self.insert(k, v);
        }
    }

    /// Adds every binding of `other`, which wins over a binding of the same parameter here.
    pub fn extend(&mut self, other: &Substitution)
        requires
            old(self).wf(),
            other.wf(),
        ensures
            final(self).wf(),
            final(self)@ == old(self)@.union_prefer_right(other@),
    {
        let mut i: usize = 0;
        while i < other.entries.len()
            invariant
                self.wf(),
                other.wf(),
                i <= other.entries@.len(),
                forall|key: GenericParamId| #[trigger] self@.contains_key(key) <==> (old(
                    self,
                )@.contains_key(key) || exists|j: int|
                    0 <= j < i && other.entries@[j].0 == key),
                forall|key: GenericParamId| #[trigger]
                    self@.contains_key(key) ==> self@[key] == (if exists|j: int|
                        0 <= j < i && other.entries@[j].0 == key {
                        other@[key]
                    } else {
                        old(self)@[key]
                    }),
            decreases other.entries.len() - i,
        {
            proof {
                other.lemma_entry(i as int);
            }
            let ghost prev = self@;
            let k = other.entries[i].0;
            let v = clone_type(&other.entries[i].1);
            self.insert(k, v);
            i = i + 1;
            assert forall|key: GenericParamId| #[trigger]
                self@.contains_key(key) implies self@[key] == (if exists|j: int|
                    0 <= j < i && other.entries@[j].0 == key {
                    other@[key]
                } else {
                    old(self)@[key]
                }) by {
                if key != k {
                    if exists|j: int| 0 <= j < i && other.entries@[j].0 == key {
                        let j = choose|j: int| 0 <= j < i && other.entries@[j].0 == key;
                        assert(j != i - 1);
                    }
                }
            }
            assert forall|key: GenericParamId| #[trigger] self@.contains_key(key) <==> (old(
                self,
            )@.contains_key(key) || exists|j: int|
                0 <= j < i && other.entries@[j].0 == key) by {
                if key == k {
                    assert(other.entries@[i - 1].0 == key);
                } else if exists|j: int| 0 <= j < i && other.entries@[j].0 == key {
                    let j = choose|j: int| 0 <= j < i && other.entries@[j].0 == key;
                    assert(j != i - 1);
                    assert(0 <= j < i - 1 && other.entries@[j].0 == key);
                }
            }
        }
        assert forall|key: GenericParamId| other@.contains_key(key) implies exists|j: int|
            0 <= j < other.entries@.len() && other.entries@[j].0 == key by {}
        assert forall|key: GenericParamId| (exists|j: int|
            0 <= j < other.entries@.len() && other.entries@[j].0 == key) implies #[trigger] other@.contains_key(
            key,
        ) by {}
        assert(self@ =~= old(self)@.union_prefer_right(other@));
    }

    /// Whether both substitutions bind the same parameters to the same types.
    pub fn same_as(&self, other: &Substitution) -> (r: bool)
        requires
            self.wf(),
            other.wf(),
        ensures
            r == (self@ == other@),
    {
        let mut i: usize = 0;
        while i < self.entries.len()
            invariant
                self.wf(),
                other.wf(),
                i <= self.entries@.len(),
                forall|j: int|
                    0 <= j < i ==> other@.contains_key((#[trigger] self.entries@[j]).0) && other@[self.entries@[j].0]
                        == view_type(self.entries@[j].1),
            decreases self.entries.len() - i,
        {
            proof {
                self.lemma_entry(i as int);
            }
            match other.get(&self.entries[i].0) {
                Some(t) => {
                    if !type_eq(t, &self.entries[i].1) {
                        return false;
                    }
                    assert(other@.contains_key(self.entries@[i as int].0) && other@[self.entries@[i as int].0]
                        == view_type(self.entries@[i as int].1));
                },
                None => {
                    return false;
                },
            }
            i = i + 1;
        }
        let mut j: usize = 0;
        while j < other.entries.len()
            invariant
                self.wf(),
                other.wf(),
                j <= other.entries@.len(),
                forall|l: int|
                    0 <= l < self.entries@.len() ==> other@.contains_key((#[trigger] self.entries@[l]).0) && other@[self.entries@[l].0]
                        == view_type(self.entries@[l].1),
                forall|l: int| 0 <= l < j ==> #[trigger] self@.contains_key(other.entries@[l].0),
            decreases other.entries.len() - j,
        {
            proof {
                other.lemma_entry(j as int);
            }
            if !self.contains_key(&other.entries[j].0) {
                return false;
            }
            j = j + 1;
        }
        assert forall|key: GenericParamId| #[trigger] self@.contains_key(key) implies other@.contains_key(key)
            && other@[key] == self@[key] by {
            let l = choose|l: int| 0 <= l < self.entries@.len() && self.entries@[l].0 == key;
            self.lemma_entry(l);
            let e = self.entries@[l];
        }
        assert forall|key: GenericParamId| #[trigger] other@.contains_key(key) implies self@.contains_key(key) by {
            let l = choose|l: int| 0 <= l < other.entries@.len() && other.entries@[l].0 == key;
            assert(self@.contains_key(other.entries@[l].0));
        }
        assert(self@ =~= other@);
        true
    }

    /// A substitution holding each pair in turn; a later pair for the same
    /// parameter replaces an earlier one.
    pub fn from_pairs(pairs: Vec<(GenericParamId, Type)>) -> (s: Substitution)
        ensures
            s.wf(),
            s@ == pairs_map(pairs@),
    {
        let mut s = Substitution::new();
        let mut i: usize = 0;
        while i < pairs.len()
            invariant
                s.wf(),
                i <= pairs@.len(),
                s@ == pairs_map(pairs@.take(i as int)),
            decreases pairs.len() - i,
        {
            let v = clone_type(&pairs[i].1);
            s.insert(pairs[i].0, v);
            assert(pairs@.take(i + 1).drop_last() =~= pairs@.take(i as int));
            i = i + 1;
        }
        assert(pairs@.take(pairs@.len() as int) =~= pairs@);
        s
    }
}

impl Clone for Substitution {
    fn clone(&self) -> (r: Self)
        ensures
            self.wf() ==> r.wf() && r@ == self@,
    {
        let mut entries: Vec<(GenericParamId, Type)> = Vec::new();
        let mut i: usize = 0;
        while i < self.entries.len()
            invariant
                i <= self.entries@.len(),
                entries@.len() == i,
                forall|j: int|
                    0 <= j < i ==> (#[trigger] entries@[j]).0 == self.entries@[j].0 && view_type(
                        entries@[j].1,
                    ) == view_type(self.entries@[j].1),
            decreases self.entries.len() - i,
        {
            let t = clone_type(&self.entries[i].1);
            entries.push((self.entries[i].0, t));
            i = i + 1;
        }
        let r = Substitution { entries };
        proof {
            if self.wf() {
                assert forall|k: GenericParamId| #[trigger] r@.contains_key(k) <==> self@.contains_key(k) by {
                    if r@.contains_key(k) {
                        let j = choose|j: int| 0 <= j < r.entries@.len() && r.entries@[j].0 == k;
                        assert(self.entries@[j].0 == k);
                    }
                    if self@.contains_key(k) {
                        let j = choose|j: int| 0 <= j < self.entries@.len() && self.entries@[j].0 == k;
                        assert(r.entries@[j].0 == k);
                    }
                }
                assert forall|k: GenericParamId| #[trigger] r@.contains_key(k) implies r@[k] == self@[k] by {
                    let j = choose|j: int| 0 <= j < r.entries@.len() && r.entries@[j].0 == k;
                    let l = choose|l: int| 0 <= l < self.entries@.len() && self.entries@[l].0 == k;
                    assert(r.entries@[l].0 == k);
                    assert(self.entries@[j].0 == k);
                    assert(j == l);
                }
                assert(r@ =~= self@);
            }
        }
        r
    }
}

/// The map built by binding each pair in turn, later pairs winning.
pub open spec fn pairs_map(pairs: Seq<(GenericParamId, Type)>) -> Map<GenericParamId, SpecType>
    decreases pairs.len(),
{
    if pairs.len() == 0 {
        Map::empty()
    } else {
        pairs_map(pairs.drop_last()).insert(pairs.last().0, view_type(pairs.last().1))
    }
}

impl Type {
    /// Replaces the generic parameters that `subst` binds.
    pub fn substitute_generics(&self, subst: &Substitution) -> (r: Type)
        requires
            subst.wf(),
        ensures
            r@ == subst_type(self@, subst@),
        decreases self,
    {
        match self {
            Type::Generic(p) => match subst.get(p) {
                Some(t) => clone_type(t),
                None => Type::Generic(*p),
            },
            Type::Struct { id, args } => Type::Struct { id: *id, args: substitute_types(args, subst) },
            Type::Enum { id, args } => Type::Enum { id: *id, args: substitute_types(args, subst) },
            Type::Tuple(items) => Type::Tuple(substitute_types(items, subst)),
            Type::Function { params, ret, safety, callable_kind, captures } => Type::Function {
                params: substitute_types(params, subst),
                ret: Box::new(ret.substitute_generics(subst)),
                safety: *safety,
                callable_kind: *callable_kind,
                captures: substitute_captures(captures, subst),
            },
            Type::Slice(inner) => Type::Slice(Box::new(inner.substitute_generics(subst))),
            Type::Array(inner, len) => Type::Array(Box::new(inner.substitute_generics(subst)), *len),
            Type::Pointer(inner) => Type::Pointer(Box::new(inner.substitute_generics(subst))),
            Type::Reference { mutable, inner } => Type::Reference {
                mutable: *mutable,
                inner: Box::new(inner.substitute_generics(subst)),
            },
            Type::Apply { constructor, args } => Type::Apply {
                constructor: Box::new(constructor.substitute_generics(subst)),
                args: substitute_types(args, subst),
            },
            Type::Lambda { params, body } => Type::Lambda {
                params: clone_kinds(params),
                body: Box::new(body.substitute_generics(subst)),
            },
            Type::Projection { ty, trait_id, assoc_type, trait_args } => Type::Projection {
                ty: Box::new(ty.substitute_generics(subst)),
                trait_id: *trait_id,
                assoc_type: *assoc_type,
                trait_args: substitute_types(trait_args, subst),
            },
            _ => clone_type(self),
        }
    }
}

/// [`Type::substitute_generics`] on each element.
pub fn substitute_types(ts: &Vec<Type>, subst: &Substitution) -> (r: Vec<Type>)
    requires
        subst.wf(),
    ensures
        view_types(r@) == subst_types(view_types(ts@), subst@),
    decreases ts,
{
    let mut out: Vec<Type> = Vec::new();
    let mut i: usize = 0;
    while i < ts.len()
        invariant
            subst.wf(),
            i <= ts.len(),
            out@.len() == i,
            forall|j: int|
                0 <= j < i ==> view_type(#[trigger] out@[j]) == subst_type(view_type(ts@[j]), subst@),
        decreases ts.len() - i,
    {
        let t = ts[i].substitute_generics(subst);
        out.push(t);
        i = i + 1;
    }
    assert(view_types(out@) =~= subst_types(view_types(ts@), subst@));
    out
}

fn substitute_captures(cs: &Vec<FunctionCapture>, subst: &Substitution) -> (r: Vec<FunctionCapture>)
    requires
        subst.wf(),
    ensures
        view_captures(r@) == subst_captures(view_captures(cs@), subst@),
    decreases cs,
{
    let mut out: Vec<FunctionCapture> = Vec::new();
    let mut i: usize = 0;
    while i < cs.len()
        invariant
            subst.wf(),
            i <= cs.len(),
            out@.len() == i,
            forall|j: int|
                0 <= j < i ==> (#[trigger] out@[j]).kind == cs@[j].kind && view_type(out@[j].ty)
                    == subst_type(view_type(cs@[j].ty), subst@),
        decreases cs.len() - i,
    {
        let ty = cs[i].ty.substitute_generics(subst);
        out.push(FunctionCapture { kind: cs[i].kind, ty });
        i = i + 1;
    }
    assert(view_captures(out@) =~= subst_captures(view_captures(cs@), subst@));
    out
}

/// Whether the generic parameter `p` occurs anywhere in `t`.
pub open spec fn generic_occurs(t: SpecType, p: GenericParamId) -> bool
    decreases t,
{
    match t {
        SpecType::Generic(q) => q == p,
        SpecType::Struct { args, .. } => generic_occurs_in(args, p),
        SpecType::Enum { args, .. } => generic_occurs_in(args, p),
        SpecType::Tuple(items) => generic_occurs_in(items, p),
        SpecType::Function { params, ret, captures, .. } => generic_occurs_in(params, p) || generic_occurs(
            *ret,
            p,
        ) || generic_occurs_in_captures(captures, p),
        SpecType::Slice(inner) => generic_occurs(*inner, p),
        SpecType::Array(inner, _) => generic_occurs(*inner, p),
        SpecType::Pointer(inner) => generic_occurs(*inner, p),
        SpecType::Reference { inner, .. } => generic_occurs(*inner, p),
        SpecType::Apply { constructor, args } => generic_occurs(*constructor, p) || generic_occurs_in(args, p),
        SpecType::Lambda { body, .. } => generic_occurs(*body, p),
        SpecType::Projection { ty, trait_args, .. } => generic_occurs(*ty, p) || generic_occurs_in(trait_args, p),
        _ => false,
    }
}

/// Whether `p` occurs in one of `ts`.
pub open spec fn generic_occurs_in(ts: Seq<SpecType>, p: GenericParamId) -> bool
    decreases ts,
{
    exists|i: int| 0 <= i < ts.len() && generic_occurs(ts[i], p)
}

/// Whether `p` occurs in the type of one of `cs`.
pub open spec fn generic_occurs_in_captures(cs: Seq<SpecCapture>, p: GenericParamId) -> bool
    decreases cs,
{
    exists|i: int| 0 <= i < cs.len() && generic_occurs(cs[i].ty, p)
}

/// Substitution eliminates a bound parameter: once `p` is bound and no
/// binding mentions it, it occurs nowhere in the result.
pub proof fn lemma_subst_eliminates(t: SpecType, m: Map<GenericParamId, SpecType>, p: GenericParamId)
    requires
        m.contains_key(p),
        forall|q: GenericParamId| #[trigger] m.contains_key(q) ==> !generic_occurs(m[q], p),
    ensures
        !generic_occurs(subst_type(t, m), p),
    decreases t,
{
    match t {
        SpecType::Generic(q) => {
            if m.contains_key(q) {
                assert(!generic_occurs(m[q], p));
            }
        },
        SpecType::Struct { id, args } => {
            assert forall|i: int| 0 <= i < args.len() implies !generic_occurs(#[trigger] subst_types(args, m)[i], p) by {
                lemma_subst_eliminates(args[i], m, p);
            }
            assert(!generic_occurs_in(subst_types(args, m), p));
        },
        SpecType::Enum { id, args } => {
            assert forall|i: int| 0 <= i < args.len() implies !generic_occurs(#[trigger] subst_types(args, m)[i], p) by {
                lemma_subst_eliminates(args[i], m, p);
            }
            assert(!generic_occurs_in(subst_types(args, m), p));
        },
        SpecType::Tuple(items) => {
            assert forall|i: int| 0 <= i < items.len() implies !generic_occurs(#[trigger] subst_types(items, m)[i], p) by {
                lemma_subst_eliminates(items[i], m, p);
            }
            assert(!generic_occurs_in(subst_types(items, m), p));
        },
        SpecType::Function { params, ret, captures, .. } => {
            assert forall|i: int| 0 <= i < params.len() implies !generic_occurs(#[trigger] subst_types(params, m)[i], p) by {
                lemma_subst_eliminates(params[i], m, p);
            }
            assert(!generic_occurs_in(subst_types(params, m), p));
            assert forall|i: int| 0 <= i < captures.len() implies !generic_occurs(
                (#[trigger] subst_captures(captures, m)[i]).ty,
                p,
            ) by {
                lemma_subst_eliminates(captures[i].ty, m, p);
            }
            assert(!generic_occurs_in_captures(subst_captures(captures, m), p));
            lemma_subst_eliminates(*ret, m, p);
        },
        SpecType::Slice(inner) => lemma_subst_eliminates(*inner, m, p),
        SpecType::Array(inner, _) => lemma_subst_eliminates(*inner, m, p),
        SpecType::Pointer(inner) => lemma_subst_eliminates(*inner, m, p),
        SpecType::Reference { inner, .. } => lemma_subst_eliminates(*inner, m, p),
        SpecType::Apply { constructor, args } => {
            assert forall|i: int| 0 <= i < args.len() implies !generic_occurs(#[trigger] subst_types(args, m)[i], p) by {
                lemma_subst_eliminates(args[i], m, p);
            }
            assert(!generic_occurs_in(subst_types(args, m), p));
            lemma_subst_eliminates(*constructor, m, p);
        },
        SpecType::Lambda { body, .. } => lemma_subst_eliminates(*body, m, p),
        SpecType::Projection { ty, trait_args, .. } => {
            assert forall|i: int| 0 <= i < trait_args.len() implies !generic_occurs(
                #[trigger] subst_types(trait_args, m)[i],
                p,
            ) by {
                lemma_subst_eliminates(trait_args[i], m, p);
            }
            assert(!generic_occurs_in(subst_types(trait_args, m), p));
            lemma_subst_eliminates(*ty, m, p);
        },
        _ => {},
    }
}

/// Substituting with no bindings leaves a type unchanged.
pub proof fn lemma_subst_empty(t: SpecType)
    ensures
        subst_type(t, Map::empty()) == t,
    decreases t,
{
    match t {
        SpecType::Struct { id, args } => lemma_subst_types_empty(args),
        SpecType::Enum { id, args } => lemma_subst_types_empty(args),
        SpecType::Tuple(items) => lemma_subst_types_empty(items),
        SpecType::Function { params, ret, safety, callable_kind, captures } => {
            lemma_subst_types_empty(params);
            lemma_subst_empty(*ret);
            lemma_subst_captures_empty(captures);
        },
        SpecType::Slice(inner) => lemma_subst_empty(*inner),
        SpecType::Array(inner, len) => lemma_subst_empty(*inner),
        SpecType::Pointer(inner) => lemma_subst_empty(*inner),
        SpecType::Reference { mutable, inner } => lemma_subst_empty(*inner),
        SpecType::Apply { constructor, args } => {
            lemma_subst_empty(*constructor);
            lemma_subst_types_empty(args);
        },
        SpecType::Lambda { params, body } => lemma_subst_empty(*body),
        SpecType::Projection { ty, trait_id, assoc_type, trait_args } => {
            lemma_subst_empty(*ty);
            lemma_subst_types_empty(trait_args);
        },
        _ => {},
    }
}

/// Substituting with no bindings leaves a list of types unchanged.
pub proof fn lemma_subst_types_empty(ts: Seq<SpecType>)
    ensures
        subst_types(ts, Map::empty()) == ts,
    decreases ts,
{
    assert forall|i: int| 0 <= i < ts.len() implies subst_types(ts, Map::empty())[i] == ts[i] by {
        lemma_subst_empty(ts[i]);
    }
    assert(subst_types(ts, Map::empty()) =~= ts);
}

/// Substituting with no bindings leaves closure captures unchanged.
pub proof fn lemma_subst_captures_empty(cs: Seq<SpecCapture>)
    ensures
        subst_captures(cs, Map::empty()) == cs,
    decreases cs,
{
    assert forall|i: int| 0 <= i < cs.len() implies subst_captures(cs, Map::empty())[i] == cs[i] by {
        lemma_subst_empty(cs[i].ty);
    }
    assert(subst_captures(cs, Map::empty()) =~= cs);
}

} // verus!
