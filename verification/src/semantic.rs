//! The semantic model of variables: locals, parameters and implicit parameters.

use vstd::prelude::*;

verus! {

/// The id of a local variable.
#[derive(Clone, Copy, Debug, Hash, PartialEq, Eq, Structural)]
pub struct LocalVarId(pub u64);

/// The id of a function parameter.
#[derive(Clone, Copy, Debug, Hash, PartialEq, Eq, Structural)]
pub struct ParamId(pub u64);

/// The id of a variable: a parameter or a local variable.
#[derive(Clone, Copy, Debug, Hash, PartialEq, Eq, Structural)]
pub enum VarId {
    Param(ParamId),
    Local(LocalVarId),
}

/// The id of a semantic type.
#[derive(Clone, Copy, Debug, Hash, PartialEq, Eq, Structural)]
pub struct TypeId(pub u64);

/// Semantic model of a variable.
#[derive(Clone, Copy, Debug, Hash, PartialEq, Eq, Structural)]
pub struct LocalVariable {
    pub id: LocalVarId,
    pub ty: TypeId,
    pub modifiers: Modifiers,
}

#[derive(Clone, Copy, Debug, Hash, PartialEq, Eq, Structural)]
pub struct Parameter {
    pub id: ParamId,
    pub ty: TypeId,
    pub modifiers: Modifiers,
}

#[derive(Clone, Copy, Debug, Hash, PartialEq, Eq, Structural)]
pub struct Modifiers {
    pub is_mut: bool,
    pub is_ref: bool,
}

impl Default for Modifiers {
    fn default() -> (modifiers: Modifiers)
        ensures
            !modifiers.is_mut,
            !modifiers.is_ref,
    {
        Modifiers { is_mut: false, is_ref: false }
    }
}

impl Modifiers {
    /// The modifiers of an implicit parameter: mutable and passed by reference.
    pub fn new_implicit() -> (modifiers: Modifiers)
        ensures
            modifiers.is_mut,
            modifiers.is_ref,
    {
        Modifiers { is_mut: true, is_ref: true }
    }
}

#[derive(Clone, Copy, Debug, Hash, PartialEq, Eq, Structural)]
pub enum Variable {
    Local(LocalVariable),
    Param(Parameter),
    ImplicitParam(Parameter),
}

impl Variable {
    /// The id of the variable: implicit parameters are identified as parameters.
    pub open spec fn spec_id(self) -> VarId {
        match self {
            Variable::Local(local) => VarId::Local(local.id),
            Variable::Param(param) => VarId::Param(param.id),
            Variable::ImplicitParam(implicit_param) => VarId::Param(implicit_param.id),
        }
    }

    /// The type of the variable.
    pub open spec fn spec_ty(self) -> TypeId {
        match self {
            Variable::Local(local) => local.ty,
            Variable::Param(param) => param.ty,
            Variable::ImplicitParam(implicit_param) => implicit_param.ty,
        }
    }

    /// The modifiers of the variable.
    pub open spec fn spec_modifiers(self) -> Modifiers {
        match self {
            Variable::Local(local) => local.modifiers,
            Variable::Param(param) => param.modifiers,
            Variable::ImplicitParam(implicit_param) => implicit_param.modifiers,
        }
    }

    pub fn id(&self) -> (id: VarId)
        ensures
            id == self.spec_id(),
            self matches Variable::Local(local) ==> id == VarId::Local(local.id),
            self matches Variable::Param(param) ==> id == VarId::Param(param.id),
            self matches Variable::ImplicitParam(param) ==> id == VarId::Param(param.id),
    {
        match self {
            Variable::Local(local) => VarId::Local(local.id),
            Variable::Param(param) => VarId::Param(param.id),
            Variable::ImplicitParam(implicit_param) => VarId::Param(implicit_param.id),
        }
    }

    pub fn ty(&self) -> (ty: TypeId)
        ensures
            ty == self.spec_ty(),
            self matches Variable::Local(local) ==> ty == local.ty,
            self matches Variable::Param(param) ==> ty == param.ty,
            self matches Variable::ImplicitParam(param) ==> ty == param.ty,
    {
        match self {
            Variable::Local(local) => local.ty,
            Variable::Param(param) => param.ty,
            Variable::ImplicitParam(implicit_param) => implicit_param.ty,
        }
    }

    pub fn modifiers(&self) -> (modifiers: &Modifiers)
        ensures
            *modifiers == self.spec_modifiers(),
            self matches Variable::Local(local) ==> *modifiers == local.modifiers,
            self matches Variable::Param(param) ==> *modifiers == param.modifiers,
            self matches Variable::ImplicitParam(param) ==> *modifiers == param.modifiers,
    {
        match self {
            Variable::Local(local) => &local.modifiers,
            Variable::Param(param) => &param.modifiers,
            Variable::ImplicitParam(implicit_param) => &implicit_param.modifiers,
        }
    }
}

/// A variable is read back as it was stored: whichever kind it is, its id is that of the
/// local or parameter it holds (an implicit parameter is identified as a parameter), and
/// its type and modifiers are the ones stored in it.
pub proof fn lemma_variable_reads_what_it_holds(local: LocalVariable, param: Parameter)
    ensures
        Variable::Local(local).spec_id() == VarId::Local(local.id),
        Variable::Local(local).spec_ty() == local.ty,
        Variable::Local(local).spec_modifiers() == local.modifiers,
        Variable::Param(param).spec_id() == VarId::Param(param.id),
        Variable::Param(param).spec_ty() == param.ty,
        Variable::Param(param).spec_modifiers() == param.modifiers,
        Variable::ImplicitParam(param).spec_id() == VarId::Param(param.id),
        Variable::ImplicitParam(param).spec_ty() == param.ty,
        Variable::ImplicitParam(param).spec_modifiers() == param.modifiers,
{
}

/// Generic argument.
/// A value assigned to a generic parameter.
/// May be a type, impl, constant, etc..
#[derive(Copy, Clone, Debug, Hash, PartialEq, Eq, Structural)]
pub enum GenericArgumentId {
    Type(TypeId),
}

} // verus!
