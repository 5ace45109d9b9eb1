//! The type and scope database that earlier passes have filled, and the
//! structural queries over it that may defer.
use vstd::prelude::*;

verus! {

/// The outcome of a query that cannot be decided before another pass
/// resolves a dependency.
#[derive(Clone, Copy, Debug, PartialEq, Eq, Structural)]
pub struct DeferError;

/// One declared parameter of a signature.
#[derive(Clone, Copy, Debug, PartialEq, Eq, Structural)]
pub struct Param {
    pub ty: usize,
    pub optional: bool,
}

/// A constructor signature: its parameters, and whether a rest parameter
/// takes any further arguments.
#[derive(Clone, Debug)]
pub struct Signature {
    pub params: Vec<Param>,
    pub rest: bool,
}

/// What a type is, structurally. Built-in classes (`Object`, `Number`, ...)
/// are `Class` entries that `Builtins` names.
#[derive(Clone, Debug)]
pub enum TypeKind {
    /// The universal type `*`.
    Any,
    Class { base: Option<usize>, ctor: Option<Signature> },
    /// A fixed-size array `[T]`.
    Array { elem: usize },
    /// A parameterized vector `Vector.<T>`.
    Vector { elem: usize },
    /// `T?`.
    Nullable { inner: usize },
    /// A forward declaration that no pass has resolved yet.
    Unresolved,
}

#[derive(Clone, Copy, Debug, PartialEq, Eq, Structural)]
pub enum ScopeKind {
    Plain,
    Class { class: usize },
}

/// A lexical scope; `parent` refers to an earlier entry of the scope table.
#[derive(Clone, Copy, Debug, PartialEq, Eq, Structural)]
pub struct Scope {
    pub parent: Option<usize>,
    pub kind: ScopeKind,
}

/// The canonical built-in types. `None` means that the built-in has not
/// been resolved yet, and a query that needs it defers.
#[derive(Clone, Copy, Debug, PartialEq, Eq, Structural)]
pub struct Builtins {
    pub any: usize,
    pub object: Option<usize>,
    pub number: Option<usize>,
    pub string: Option<usize>,
    pub byte_array: Option<usize>,
    pub dictionary: Option<usize>,
    pub proxy: Option<usize>,
    pub xml: Option<usize>,
    pub xml_list: Option<usize>,
}

/// What the expression verifier makes of an expression node.
#[derive(Clone, Copy, Debug, PartialEq, Eq, Structural)]
pub enum ExprInfo {
    /// It verifies, with this static type.
    Typed(usize),
    /// It verifies to no entity with a static type.
    Untyped,
    /// It depends on something unresolved.
    Deferred,
}

/// The whole-program database. Types, scopes and expression outcomes are
/// keyed by their index; `node_scopes` maps a block or loop node to the
/// scope that the binding pass created for it.
pub struct Database {
    pub types: Vec<TypeKind>,
    pub scopes: Vec<Scope>,
    pub node_scopes: Vec<usize>,
    pub exprs: Vec<ExprInfo>,
    pub builtins: Builtins,
}

pub open spec fn builtin_ok(types: Seq<TypeKind>, b: Option<usize>) -> bool {
    b matches Some(t) ==> t < types.len() && types[t as int] is Class
}

pub open spec fn params_ok(types: Seq<TypeKind>, params: Seq<Param>) -> bool {
    forall|i: int| 0 <= i < params.len() ==> #[trigger] params[i].ty < types.len()
}

pub open spec fn type_ok(types: Seq<TypeKind>, k: TypeKind) -> bool {
    match k {
        TypeKind::Class { base, ctor } => (base matches Some(b) ==> b < types.len()) && (
        ctor matches Some(sig) ==> params_ok(types, sig.params@)),
        TypeKind::Array { elem } => elem < types.len(),
        TypeKind::Vector { elem } => elem < types.len(),
        TypeKind::Nullable { inner } => inner < types.len(),
        _ => true,
    }
}

impl Database {
    /// Every reference in the database points into its tables, scope parents
    /// come before their children, and each built-in names a type of its kind.
    pub open spec fn wf(&self) -> bool {
        let types = self.types@;
        &&& forall|t: int| 0 <= t < types.len() ==> type_ok(types, #[trigger] types[t])
        &&& forall|s: int|
            0 <= s < self.scopes.len() ==> {
                &&& (#[trigger] self.scopes@[s]).parent matches Some(p) ==> p < s
                &&& self.scopes@[s].kind matches ScopeKind::Class { class } ==> class
                    < types.len()
            }
        &&& forall|n: int|
            0 <= n < self.node_scopes.len() ==> #[trigger] self.node_scopes@[n]
                < self.scopes.len()
        &&& forall|e: int|
            0 <= e < self.exprs.len() ==> (#[trigger] self.exprs@[e] matches ExprInfo::Typed(
                t,
            ) ==> t < types.len())
        &&& self.builtins.any < types.len() && types[self.builtins.any as int] is Any
        &&& builtin_ok(types, self.builtins.object)
        &&& builtin_ok(types, self.builtins.number)
        &&& builtin_ok(types, self.builtins.string)
        &&& builtin_ok(types, self.builtins.byte_array)
        &&& builtin_ok(types, self.builtins.dictionary)
        &&& builtin_ok(types, self.builtins.proxy)
        &&& builtin_ok(types, self.builtins.xml)
        &&& builtin_ok(types, self.builtins.xml_list)
    }

    pub open spec fn kind(&self, t: usize) -> TypeKind {
        self.types@[t as int]
    }

    /// `T` for `T?`, else the type itself.
    pub open spec fn spec_non_nullable(&self, t: usize) -> usize {
        match self.kind(t) {
            TypeKind::Nullable { inner } => inner,
            _ => t,
        }
    }

    /// The element type of a fixed-size array; deferred while that element
    /// type is unresolved.
    pub open spec fn spec_array_element(&self, t: usize) -> Result<Option<usize>, DeferError> {
        match self.kind(t) {
            TypeKind::Array { elem } => if self.kind(elem) is Unresolved {
                Err(DeferError)
            } else {
                Ok(Some(elem))
            },
            _ => Ok(None),
        }
    }

    /// The element type of a vector; deferred while that element type is
    /// unresolved.
    pub open spec fn spec_vector_element(&self, t: usize) -> Result<Option<usize>, DeferError> {
        match self.kind(t) {
            TypeKind::Vector { elem } => if self.kind(elem) is Unresolved {
                Err(DeferError)
            } else {
                Ok(Some(elem))
            },
            _ => Ok(None),
        }
    }

    /// Whether `target` is a proper ancestor of `t` along base-class links,
    /// taking at most `fuel` links. An unresolved class on the way, or a
    /// chain longer than the fuel (a circular hierarchy), defers.
    pub open spec fn ancestor_within(&self, t: usize, target: usize, fuel: nat) -> Result<
        bool,
        DeferError,
    >
        decreases fuel,
    {
        if fuel == 0 {
            Err(DeferError)
        } else {
            match self.kind(t) {
                TypeKind::Class { base: Some(b), .. } => if b == target {
                    Ok(true)
                } else if self.kind(b) is Unresolved {
                    Err(DeferError)
                } else {
                    self.ancestor_within(b, target, (fuel - 1) as nat)
                },
                TypeKind::Unresolved => Err(DeferError),
                _ => Ok(false),
            }
        }
    }

    pub open spec fn spec_is_subtype(&self, t: usize, target: usize) -> Result<bool, DeferError> {
        self.ancestor_within(t, target, self.types.len() as nat)
    }

    pub fn non_nullable(&self, t: usize) -> (r: usize)
        requires
            self.wf(),
            t < self.types.len(),
        ensures
            r == self.spec_non_nullable(t),
            r < self.types.len(),
    {
        match &self.types[t] {
            TypeKind::Nullable { inner } => *inner,
            _ => t,
        }
    }

    pub fn array_element_type(&self, t: usize) -> (r: Result<Option<usize>, DeferError>)
        requires
            self.wf(),
            t < self.types.len(),
        ensures
            r == self.spec_array_element(t),
    {
        match &self.types[t] {
            TypeKind::Array { elem } => {
                assert(type_ok(self.types@, self.types@[t as int]));
                if let TypeKind::Unresolved = &self.types[*elem] {
                    Err(DeferError)
                } else {
                    Ok(Some(*elem))
                }
            },
            _ => Ok(None),
        }
    }

    pub fn vector_element_type(&self, t: usize) -> (r: Result<Option<usize>, DeferError>)
        requires
            self.wf(),
            t < self.types.len(),
        ensures
            r == self.spec_vector_element(t),
    {
        match &self.types[t] {
            TypeKind::Vector { elem } => {
                assert(type_ok(self.types@, self.types@[t as int]));
                if let TypeKind::Unresolved = &self.types[*elem] {
                    Err(DeferError)
                } else {
                    Ok(Some(*elem))
                }
            },
            _ => Ok(None),
        }
    }

    /// Walks the base-class chain of `t` looking for `target`.
    pub fn is_subtype_of(&self, t: usize, target: usize) -> (r: Result<bool, DeferError>)
        requires
            self.wf(),
            t < self.types.len(),
        ensures
            r == self.spec_is_subtype(t, target),
    {
        let mut cur = t;
        let mut fuel = self.types.len();
        while fuel > 0
            invariant
                self.wf(),
                cur < self.types.len(),
                self.ancestor_within(cur, target, fuel as nat) == self.spec_is_subtype(t, target),
            decreases fuel,
        {
            assert(type_ok(self.types@, self.types@[cur as int]));
            match &self.types[cur] {
                TypeKind::Class { base: Some(b), .. } => {
                    if *b == target {
                        return Ok(true);
                    }
                    if let TypeKind::Unresolved = &self.types[*b] {
                        return Err(DeferError);
                    }
                    cur = *b;
                    fuel = fuel - 1;
                },
                TypeKind::Unresolved => {
                    return Err(DeferError);
                },
                _ => {
                    return Ok(false);
                },
            }
        }
        Err(DeferError)
    }
}

} // verus!
