use cairo_lang::semantic::{
    GenericArgumentId, LocalVarId, LocalVariable, Modifiers, ParamId, Parameter, TypeId, VarId,
    Variable,
};

#[test]
fn implicit_modifiers() {
    let m = Modifiers::new_implicit();
    assert!(m.is_mut);
    assert!(m.is_ref);
}

#[test]
fn default_modifiers() {
    let m = Modifiers::default();
    assert!(!m.is_mut);
    assert!(!m.is_ref);
}

#[test]
fn variable_accessors() {
    let local = Variable::Local(LocalVariable {
        id: LocalVarId(7),
        ty: TypeId(1),
        modifiers: Modifiers { is_mut: true, is_ref: false },
    });
    assert_eq!(local.id(), VarId::Local(LocalVarId(7)));
    assert_eq!(local.ty(), TypeId(1));
    assert_eq!(*local.modifiers(), Modifiers { is_mut: true, is_ref: false });

    let param = Variable::Param(Parameter { id: ParamId(3), ty: TypeId(2), modifiers: Modifiers::default() });
    assert_eq!(param.id(), VarId::Param(ParamId(3)));
    assert_eq!(param.ty(), TypeId(2));
    assert_eq!(*param.modifiers(), Modifiers::default());

    let implicit = Variable::ImplicitParam(Parameter {
        id: ParamId(4),
        ty: TypeId(9),
        modifiers: Modifiers::new_implicit(),
    });
    assert_eq!(implicit.id(), VarId::Param(ParamId(4)));
    assert_eq!(implicit.ty(), TypeId(9));
    assert_eq!(*implicit.modifiers(), Modifiers::new_implicit());
}

#[test]
fn generic_argument_is_copy() {
    let a = GenericArgumentId::Type(TypeId(5));
    let b = a;
    assert_eq!(a, b);
}
