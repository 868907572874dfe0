use cairo_lang::compiler::{
    check_basic_structure, BranchInfo, BranchTarget, CairoProgram, CompilationError,
    CompilationState, CompiledInvocation, ConcreteLibFuncId, ConcreteTypeId, CoreConcreteLibFunc,
    Instruction, Invocation, ReferencesError, Relocation, RelocationEntry, StatementIdx, VarId,
};

fn vars(n: u64) -> Vec<VarId> {
    (0..n).map(VarId).collect()
}

fn types(n: u64) -> Vec<ConcreteTypeId> {
    (0..n).map(ConcreteTypeId).collect()
}

fn branch(target: BranchTarget, results: u64) -> BranchInfo {
    BranchInfo { target, results: vars(results) }
}

fn libfunc(inputs: u64, outputs: &[u64], fallthrough: Option<usize>) -> CoreConcreteLibFunc {
    CoreConcreteLibFunc {
        input_types: types(inputs),
        output_types: outputs.iter().map(|n| types(*n)).collect(),
        fallthrough,
    }
}

fn invocation(args: u64, branches: Vec<BranchInfo>) -> Invocation {
    Invocation { libfunc_id: ConcreteLibFuncId(1), args: vars(args), branches }
}

fn instr(text: &str, size: usize) -> Instruction {
    Instruction { text: text.to_string(), size }
}

#[test]
fn matching_structure_is_accepted() {
    let inv = invocation(2, vec![branch(BranchTarget::Fallthrough, 1), branch(BranchTarget::Statement(StatementIdx(7)), 0)]);
    assert_eq!(check_basic_structure(&inv, &libfunc(2, &[1, 0], Some(0))), Ok(()));
    assert_eq!(check_basic_structure(&inv, &libfunc(2, &[1, 0], None)), Ok(()));
}

#[test]
fn argument_count_mismatch_is_rejected() {
    let inv = invocation(1, vec![branch(BranchTarget::Fallthrough, 1)]);
    assert_eq!(
        check_basic_structure(&inv, &libfunc(2, &[1], Some(0))),
        Err(CompilationError::LibFuncInvocationMismatch)
    );
}

#[test]
fn result_count_mismatch_is_rejected() {
    let inv = invocation(2, vec![branch(BranchTarget::Fallthrough, 2)]);
    assert_eq!(
        check_basic_structure(&inv, &libfunc(2, &[1], Some(0))),
        Err(CompilationError::LibFuncInvocationMismatch)
    );
    let inv = invocation(2, vec![branch(BranchTarget::Fallthrough, 1)]);
    assert_eq!(
        check_basic_structure(&inv, &libfunc(2, &[1, 1], None)),
        Err(CompilationError::LibFuncInvocationMismatch)
    );
}

#[test]
fn fallthrough_branch_must_fall_through() {
    let inv = invocation(0, vec![branch(BranchTarget::Statement(StatementIdx(3)), 0), branch(BranchTarget::Fallthrough, 0)]);
    assert_eq!(
        check_basic_structure(&inv, &libfunc(0, &[0, 0], Some(0))),
        Err(CompilationError::LibFuncInvocationMismatch)
    );
    assert_eq!(check_basic_structure(&inv, &libfunc(0, &[0, 0], Some(1))), Ok(()));
}

#[test]
fn dangling_references_are_rejected() {
    let mut state = CompilationState::new();
    state.begin_statement();
    assert_eq!(
        state.add_return(StatementIdx(0), 2, Ok(()), instr("ret", 1)),
        Err(CompilationError::ReferencesError(ReferencesError::DanglingReferences(StatementIdx(0))))
    );
    let program = state.finish();
    assert!(program.instructions.is_empty());
    assert_eq!(program.statement_offsets, vec![0]);
}

#[test]
fn failed_return_checks_are_reported_after_dangling_references() {
    let mut state = CompilationState::new();
    state.begin_statement();
    let failed = Err(CompilationError::FailedBuildingTypeInformation);
    assert_eq!(
        state.add_return(StatementIdx(0), 1, failed.clone(), instr("ret", 1)),
        Err(CompilationError::ReferencesError(ReferencesError::DanglingReferences(StatementIdx(0))))
    );
    assert_eq!(state.add_return(StatementIdx(0), 0, failed.clone(), instr("ret", 1)), failed);
    assert_eq!(state.num_instructions(), 0);
    assert_eq!(state.current_offset(), 0);
    assert_eq!(state.add_return(StatementIdx(0), 0, Ok(()), instr("ret", 1)), Ok(()));
    assert_eq!(state.num_instructions(), 1);
    assert_eq!(state.current_offset(), 1);
}

#[test]
fn statements_are_laid_out_in_order() {
    let mut state = CompilationState::new();
    state.begin_statement();
    state.add_invocation(CompiledInvocation {
        instructions: vec![instr("[ap + 0] = 1, ap++", 2), instr("jmp rel 0", 2)],
        relocations: vec![RelocationEntry { instruction_idx: 1, relocation: Relocation::RelativeStatementId(StatementIdx(2)) }],
    });
    state.begin_statement();
    state.add_invocation(CompiledInvocation {
        instructions: vec![instr("call rel 0", 2)],
        relocations: vec![RelocationEntry { instruction_idx: 0, relocation: Relocation::RelativeStatementId(StatementIdx(0)) }],
    });
    state.begin_statement();
    assert_eq!(state.add_return(StatementIdx(2), 0, Ok(()), instr("ret", 1)), Ok(()));
    let program = state.finish();
    assert_eq!(program.statement_offsets, vec![0, 4, 6]);
    assert_eq!(program.instructions.len(), 4);
    assert_eq!(
        program.relocations,
        vec![
            RelocationEntry { instruction_idx: 1, relocation: Relocation::RelativeStatementId(StatementIdx(2)) },
            RelocationEntry { instruction_idx: 2, relocation: Relocation::RelativeStatementId(StatementIdx(0)) },
        ]
    );
    let cairo = CairoProgram::from_instructions(program.instructions);
    assert_eq!(cairo.to_string(), "[ap + 0] = 1, ap++;\njmp rel 0;\ncall rel 0;\nret;\n");
}

#[test]
fn empty_program_prints_nothing() {
    let program = CompilationState::new().finish();
    assert!(program.statement_offsets.is_empty());
    assert_eq!(CairoProgram::from_instructions(program.instructions).to_string(), "");
}
