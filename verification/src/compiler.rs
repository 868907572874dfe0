//! Compiling a Sierra program to CASM: the structural check of an invocation against its
//! library function, and the bookkeeping of instructions, statement offsets and relocations
//! that the compilation loop keeps from statement to statement.

use vstd::prelude::*;

verus! {

/// The index of a statement of a Sierra program.
#[derive(Clone, Copy, Debug, PartialEq, Eq, Hash, Structural)]
pub struct StatementIdx(pub usize);

/// The id of a Sierra variable.
#[derive(Clone, Copy, Debug, PartialEq, Eq, Hash, Structural)]
pub struct VarId(pub u64);

/// The id of a concrete Sierra type.
#[derive(Clone, Copy, Debug, PartialEq, Eq, Hash, Structural)]
pub struct ConcreteTypeId(pub u64);

/// The id of a concrete library function.
#[derive(Clone, Copy, Debug, PartialEq, Eq, Hash, Structural)]
pub struct ConcreteLibFuncId(pub u64);

/// Where a branch of an invocation continues.
#[derive(Clone, Copy, Debug, PartialEq, Eq, Hash, Structural)]
pub enum BranchTarget {
    /// The next statement.
    Fallthrough,
    /// A given statement.
    Statement(StatementIdx),
}

/// One branch of an invocation: where it continues and the variables it binds.
#[derive(Clone, Debug, PartialEq, Eq)]
pub struct BranchInfo {
    pub target: BranchTarget,
    pub results: Vec<VarId>,
}

/// A call of a library function in a Sierra program.
#[derive(Clone, Debug, PartialEq, Eq)]
pub struct Invocation {
    pub libfunc_id: ConcreteLibFuncId,
    pub args: Vec<VarId>,
    pub branches: Vec<BranchInfo>,
}

/// A concrete core library function, by the parts of its signature that compilation reads:
/// its input types, the output types of each branch, and which branch falls through.
#[derive(Clone, Debug, PartialEq, Eq)]
pub struct CoreConcreteLibFunc {
    pub input_types: Vec<ConcreteTypeId>,
    pub output_types: Vec<Vec<ConcreteTypeId>>,
    pub fallthrough: Option<usize>,
}

/// An error of the program registry.
#[derive(Clone, Debug, PartialEq, Eq)]
pub struct ProgramRegistryError {
    pub message: String,
}

/// An error of the statement annotations.
#[derive(Clone, Debug, PartialEq, Eq)]
pub struct AnnotationError {
    pub message: String,
}

/// An error in compiling one invocation.
#[derive(Clone, Debug, PartialEq, Eq)]
pub struct InvocationError {
    pub message: String,
}

/// An error about the references (variables) of a statement.
#[derive(Clone, Debug, PartialEq, Eq)]
pub enum ReferencesError {
    /// References are still alive when a function returns.
    DanglingReferences(StatementIdx),
    /// Another error of the references, by its message.
    Other(String),
}

#[derive(Clone, Debug, PartialEq, Eq)]
pub enum CompilationError {
    FailedBuildingTypeInformation,
    ProgramRegistryError(ProgramRegistryError),
    AnnotationError(AnnotationError),
    InvocationError(InvocationError),
    ReferencesError(ReferencesError),
    LibFuncInvocationMismatch,
}

/// A CASM instruction, by its printed form and its size in memory cells.
#[derive(Clone, Debug, PartialEq, Eq)]
pub struct Instruction {
    pub text: String,
    pub size: usize,
}

/// What a relocation makes an instruction refer to.
#[derive(Clone, Copy, Debug, PartialEq, Eq, Structural)]
pub enum Relocation {
    /// The position of a statement, relative to the instruction.
    RelativeStatementId(StatementIdx),
}

/// An instruction, by its index, that refers to a position that is known only once the
/// whole program is laid out.
#[derive(Clone, Copy, Debug, PartialEq, Eq, Structural)]
pub struct RelocationEntry {
    pub instruction_idx: usize,
    pub relocation: Relocation,
}

/// The code of one invocation: its instructions and the relocations among them, indexed
/// from its first instruction.
#[derive(Clone, Debug, PartialEq, Eq)]
pub struct CompiledInvocation {
    pub instructions: Vec<Instruction>,
    pub relocations: Vec<RelocationEntry>,
}

/// A compiled CASM program.
#[derive(Clone, Debug, PartialEq, Eq)]
pub struct CairoProgram {
    instructions: Vec<Instruction>,
}

/// The number of branch results of each branch of an invocation.
pub open spec fn branch_result_counts(invocation: Invocation) -> Seq<nat> {
    invocation.branches@.map_values(|branch: BranchInfo| branch.results@.len())
}

/// The number of output types of each branch of a library function.
pub open spec fn output_type_counts(libfunc: CoreConcreteLibFunc) -> Seq<nat> {
    libfunc.output_types@.map_values(|types: Vec<ConcreteTypeId>| types@.len())
}

/// The invocation passes as many arguments as the library function takes, and has as many
/// branches, each binding as many results, as the library function has.
pub open spec fn arities_match(invocation: Invocation, libfunc: CoreConcreteLibFunc) -> bool {
    &&& invocation.args@.len() == libfunc.input_types@.len()
    &&& branch_result_counts(invocation) == output_type_counts(libfunc)
}

/// The basic structure of the invocation is that of the library function: the arities
/// match, and the branch that the library function falls through to falls through.
pub open spec fn basic_structure_matches(
    invocation: Invocation,
    libfunc: CoreConcreteLibFunc,
) -> bool {
    &&& arities_match(invocation, libfunc)
    &&& match libfunc.fallthrough {
        Some(i) => invocation.branches@[i as int].target == BranchTarget::Fallthrough,
        None => true,
    }
}

/// Whether two iterables yield equal sequences (`itertools::equal`), here on two
/// lists of counts: the result is whether the lists are equal.
#[verifier::external_body]
fn counts_equal(a: &Vec<usize>, b: &Vec<usize>) -> (equal: bool)
    ensures
        equal == (a@ == b@),
{
    itertools::equal(a.iter(), b.iter())
}

/// The number of results of each branch.
fn result_counts(branches: &Vec<BranchInfo>) -> (counts: Vec<usize>)
    ensures
        counts@.len() == branches@.len(),
        forall|k: int| 0 <= k < branches@.len() ==> counts@[k] == (#[trigger] branches@[k]).results@.len(),
{
    let mut counts: Vec<usize> = Vec::new();
    let mut i: usize = 0;
    while i < branches.len()
        invariant
            0 <= i <= branches@.len(),
            counts@.len() == i,
            forall|k: int| 0 <= k < i ==> counts@[k] == (#[trigger] branches@[k]).results@.len(),
        decreases branches@.len() - i,
    {
        counts.push(branches[i].results.len());
        i = i + 1;
    }
    counts
}

/// The number of types of each list of types.
fn type_counts(types: &Vec<Vec<ConcreteTypeId>>) -> (counts: Vec<usize>)
    ensures
        counts@.len() == types@.len(),
        forall|k: int| 0 <= k < types@.len() ==> counts@[k] == (#[trigger] types@[k])@.len(),
{
    let mut counts: Vec<usize> = Vec::new();
    let mut i: usize = 0;
    while i < types.len()
        invariant
            0 <= i <= types@.len(),
            counts@.len() == i,
            forall|k: int| 0 <= k < i ==> counts@[k] == (#[trigger] types@[k])@.len(),
        decreases types@.len() - i,
    {
        counts.push(types[i].len());
        i = i + 1;
    }
    counts
}

/// An invocation's structure is its library function's exactly when it passes as many
/// arguments as the library function takes, has as many branches as the library function,
/// each binding as many results as the library function's branch of the same index has
/// output types, and the branch that the library function falls through to falls through.
pub proof fn lemma_basic_structure_by_branch(invocation: Invocation, libfunc: CoreConcreteLibFunc)
    ensures
        basic_structure_matches(invocation, libfunc) <==> ({
            &&& invocation.args@.len() == libfunc.input_types@.len()
            &&& invocation.branches@.len() == libfunc.output_types@.len()
            &&& forall|k: int| 0 <= k < invocation.branches@.len()
                ==> (#[trigger] invocation.branches@[k]).results@.len() == libfunc.output_types@[k]@.len()
            &&& (libfunc.fallthrough is Some ==> invocation.branches@[libfunc.fallthrough.unwrap() as int].target
                == BranchTarget::Fallthrough)
        }),
{
    let rc = branch_result_counts(invocation);
    let tc = output_type_counts(libfunc);
    assert(rc.len() == invocation.branches@.len());
    assert(tc.len() == libfunc.output_types@.len());
    assert(forall|k: int| 0 <= k < tc.len() ==> #[trigger] tc[k] == libfunc.output_types@[k]@.len());
    assert(forall|k: int| 0 <= k < rc.len() ==> #[trigger] rc[k] == invocation.branches@[k].results@.len());
    if invocation.branches@.len() == libfunc.output_types@.len() && forall|k: int|
        0 <= k < invocation.branches@.len() ==> (#[trigger] invocation.branches@[k]).results@.len()
            == libfunc.output_types@[k]@.len() {
        assert(rc =~= tc);
    }
    if rc == tc {
        assert forall|k: int| 0 <= k < invocation.branches@.len() implies (
        #[trigger] invocation.branches@[k]).results@.len() == libfunc.output_types@[k]@.len() by {
            assert(rc.len() == tc.len());
            assert(rc[k] == invocation.branches@[k].results@.len());
            assert(tc[k] == libfunc.output_types@[k]@.len());
            assert(rc[k] == tc[k]);
        }
    }
}

/// Ensure the basic structure of the invocation is the same as the library function.
pub fn check_basic_structure(
    invocation: &Invocation,
    libfunc: &CoreConcreteLibFunc,
) -> (result: Result<(), CompilationError>)
    requires
        arities_match(*invocation, *libfunc) && libfunc.fallthrough is Some
            ==> libfunc.fallthrough.unwrap() < invocation.branches@.len(),
    ensures
        result is Ok <==> basic_structure_matches(*invocation, *libfunc),
        result is Ok <==> ({
            &&& invocation.args@.len() == libfunc.input_types@.len()
            &&& invocation.branches@.len() == libfunc.output_types@.len()
            &&& forall|k: int| 0 <= k < invocation.branches@.len()
                ==> (#[trigger] invocation.branches@[k]).results@.len() == libfunc.output_types@[k]@.len()
            &&& (libfunc.fallthrough is Some ==> invocation.branches@[libfunc.fallthrough.unwrap() as int].target
                == BranchTarget::Fallthrough)
        }),
        result is Err ==> result == Err::<(), CompilationError>(
            CompilationError::LibFuncInvocationMismatch,
        ),
{
    proof {
        lemma_basic_structure_by_branch(*invocation, *libfunc);
    }
    let mismatch = if invocation.args.len() != libfunc.input_types.len() {
        true
    } else {
        let results = result_counts(&invocation.branches);
        let outputs = type_counts(&libfunc.output_types);
        let counts_match = counts_equal(&results, &outputs);
        proof {
            if arities_match(*invocation, *libfunc) {
                assert(output_type_counts(*libfunc).len() == libfunc.output_types@.len());
                assert(branch_result_counts(*invocation).len() == invocation.branches@.len());
                assert forall|k: int| 0 <= k < results@.len() implies results@[k] == outputs@[k] by {
                    assert(branch_result_counts(*invocation)[k] == invocation.branches@[k].results@.len());
                    assert(output_type_counts(*libfunc)[k] == libfunc.output_types@[k]@.len());
                    assert(branch_result_counts(*invocation)[k] == output_type_counts(*libfunc)[k]);
                }
                assert(results@ =~= outputs@);
            }
            if counts_match {
                assert forall|k: int| 0 <= k < invocation.branches@.len() implies
                    branch_result_counts(*invocation)[k] == output_type_counts(*libfunc)[k] by {
                    assert(results@[k] == outputs@[k]);
                }
                assert(branch_result_counts(*invocation) =~= output_type_counts(*libfunc));
            }
        }
        if !counts_match {
            true
        } else {
            match libfunc.fallthrough {
                Some(expected_fallthrough) => {
                    match invocation.branches[expected_fallthrough].target {
                        BranchTarget::Fallthrough => false,
                        BranchTarget::Statement(_) => true,
                    }
                },
                None => false,
            }
        }
    };
    if mismatch {
        Err(CompilationError::LibFuncInvocationMismatch)
    } else {
        Ok(())
    }
}

/// The total size, in memory cells, of a sequence of instructions.
pub open spec fn total_size(instructions: Seq<Instruction>) -> int
    decreases instructions.len(),
{
    if instructions.len() == 0 {
        0
    } else {
        total_size(instructions.drop_last()) + instructions.last().size
    }
}

/// The size of a sequence of instructions followed by more is the sum of the two sizes.
pub proof fn lemma_total_size_append(a: Seq<Instruction>, b: Seq<Instruction>)
    ensures
        total_size(a + b) == total_size(a) + total_size(b),
    decreases b.len(),
{
    if b.len() == 0 {
        assert(a + b =~= a);
    } else {
        assert((a + b).drop_last() =~= a + b.drop_last());
        lemma_total_size_append(a, b.drop_last());
    }
}

/// A relocation entry of an invocation, shifted to index into the program's instructions
/// given the number of instructions emitted before the invocation.
pub open spec fn shift_relocation(entry: RelocationEntry, base: int) -> RelocationEntry {
    RelocationEntry { instruction_idx: (base + entry.instruction_idx) as usize, relocation: entry.relocation }
}

/// The state that compiling a program keeps from statement to statement: the instructions
/// emitted so far, the relocations among them, the offset at which each statement's code
/// starts, and the offset of the next instruction.
pub struct CompilationState {
    instructions: Vec<Instruction>,
    relocations: Vec<RelocationEntry>,
    statement_offsets: Vec<usize>,
    program_offset: usize,
    /// The index of the first instruction of each statement begun so far.
    statement_starts: Ghost<Seq<int>>,
}

/// The program laid out, ready for its relocations to be applied.
#[derive(Clone, Debug, PartialEq, Eq)]
pub struct CompiledProgram {
    pub instructions: Vec<Instruction>,
    pub relocations: Vec<RelocationEntry>,
    /// The offset of the code of each statement, in memory cells from the program's start.
    pub statement_offsets: Vec<usize>,
}

impl CompilationState {
    pub closed spec fn instructions(&self) -> Seq<Instruction> {
        self.instructions@
    }

    pub closed spec fn relocations(&self) -> Seq<RelocationEntry> {
        self.relocations@
    }

    pub closed spec fn statement_offsets(&self) -> Seq<usize> {
        self.statement_offsets@
    }

    pub closed spec fn program_offset(&self) -> int {
        self.program_offset as int
    }

    /// The index of the first instruction of each statement begun so far.
    pub closed spec fn statement_starts(&self) -> Seq<int> {
        self.statement_starts@
    }

    /// The offset of the next instruction is the size of all instructions so far; each
    /// begun statement starts at an instruction index, in order, and its offset is the
    /// size of the instructions before it.
    pub open spec fn wf(&self) -> bool {
        &&& self.program_offset() == total_size(self.instructions())
        &&& self.statement_starts().len() == self.statement_offsets().len()
        &&& forall|i: int|
            0 <= i < self.statement_starts().len() ==> {
                &&& 0 <= #[trigger] self.statement_starts()[i] <= self.instructions().len()
                &&& self.statement_offsets()[i] == total_size(
                    self.instructions().take(self.statement_starts()[i]),
                )
            }
        &&& forall|i: int, j: int|
            0 <= i <= j < self.statement_starts().len() ==> self.statement_starts()[i]
                <= self.statement_starts()[j]
    }

    /// Starts compiling a program: nothing emitted yet.
    pub fn new() -> (state: Self)
        ensures
            state.wf(),
            state.instructions() == Seq::<Instruction>::empty(),
            state.relocations() == Seq::<RelocationEntry>::empty(),
            state.statement_offsets() == Seq::<usize>::empty(),
            state.program_offset() == 0,
    {
        CompilationState {
            instructions: Vec::new(),
            relocations: Vec::new(),
            statement_offsets: Vec::new(),
            program_offset: 0,
            statement_starts: Ghost(Seq::empty()),
        }
    }

    /// Starts the code of the next statement at the current offset.
    pub fn begin_statement(&mut self)
        requires
            old(self).wf(),
        ensures
            final(self).wf(),
            final(self).statement_offsets() == old(self).statement_offsets().push(
                old(self).program_offset() as usize,
            ),
            final(self).instructions() == old(self).instructions(),
            final(self).relocations() == old(self).relocations(),
            final(self).program_offset() == old(self).program_offset(),
    {
        self.statement_offsets.push(self.program_offset);
        proof {
            let n = self.instructions@.len() as int;
            assert(self.instructions@.take(n) =~= self.instructions@);
            self.statement_starts@ = self.statement_starts@.push(n);
        }
    }

    /// Emits the return of a function at statement `statement_idx`, whose references still
    /// alive after taking the returned values are `remaining_refs` many, and whose returned
    /// values passed the checks of their types and places with outcome `return_checks`:
    /// references left alive are an error, then a failed check is, else the return
    /// instruction `ret` is emitted.
    pub fn add_return(
        &mut self,
        statement_idx: StatementIdx,
        remaining_refs: usize,
        return_checks: Result<(), CompilationError>,
        ret: Instruction,
    ) -> (result: Result<(), CompilationError>)
        requires
            old(self).wf(),
            old(self).program_offset() + ret.size <= usize::MAX,
        ensures
            final(self).wf(),
            remaining_refs != 0 ==> result == Err::<(), CompilationError>(
                CompilationError::ReferencesError(ReferencesError::DanglingReferences(statement_idx)),
            ),
            remaining_refs == 0 && return_checks is Err ==> result == return_checks,
            result is Ok <==> remaining_refs == 0 && return_checks is Ok,
            result is Err ==> *final(self) == *old(self),
            result is Ok ==> final(self).instructions() == old(self).instructions().push(ret),
            result is Ok ==> final(self).program_offset() == old(self).program_offset() + ret.size,
            final(self).relocations() == old(self).relocations(),
            final(self).statement_offsets() == old(self).statement_offsets(),
    {
        if remaining_refs != 0 {
            return Err(CompilationError::ReferencesError(ReferencesError::DanglingReferences(statement_idx)));
        }
        if return_checks.is_err() {
            return return_checks;
        }
        let ghost before = self.instructions@;
        let size = ret.size;
        self.program_offset = self.program_offset + size;
        self.instructions.push(ret);
        proof {
            assert(self.instructions@.drop_last() =~= before);
            assert forall|i: int| 0 <= i < self.statement_starts@.len() implies
                self.instructions@.take(#[trigger] self.statement_starts@[i]) =~= before.take(self.statement_starts@[i]) by {}
        }
        Ok(())
    }

    /// The offset, in memory cells, at which the next instruction goes.
    pub fn current_offset(&self) -> (offset: usize)
        ensures
            offset == self.program_offset(),
    {
        self.program_offset
    }

    /// The number of instructions emitted so far.
    pub fn num_instructions(&self) -> (n: usize)
        ensures
            n == self.instructions().len(),
    {
        self.instructions.len()
    }

    /// Emits the code of one invocation: its instructions follow those emitted so far, and
    /// its relocations, shifted by the number of instructions before it, follow the others.
    pub fn add_invocation(&mut self, compiled: CompiledInvocation)
        requires
            old(self).wf(),
            old(self).program_offset() + total_size(compiled.instructions@) <= usize::MAX,
            forall|k: int| 0 <= k < compiled.relocations@.len() ==>
                old(self).instructions().len() + (#[trigger] compiled.relocations@[k]).instruction_idx <= usize::MAX,
        ensures
            final(self).wf(),
            final(self).instructions() == old(self).instructions() + compiled.instructions@,
            final(self).relocations() == old(self).relocations() + compiled.relocations@.map_values(
                |e: RelocationEntry| shift_relocation(e, old(self).instructions().len() as int),
            ),
            final(self).program_offset() == old(self).program_offset() + total_size(compiled.instructions@),
            final(self).statement_offsets() == old(self).statement_offsets(),
    {
        let ghost start = *self;
        let ghost shifted = compiled.relocations@.map_values(
            |e: RelocationEntry| shift_relocation(e, start.instructions@.len() as int),
        );
        let mut compiled = compiled;
        let base = self.instructions.len();
        let mut offset = self.program_offset;
        let mut i: usize = 0;
        while i < compiled.instructions.len()
            invariant
                0 <= i <= compiled.instructions@.len(),
                offset == start.program_offset + total_size(compiled.instructions@.take(i as int)),
                start.program_offset + total_size(compiled.instructions@) <= usize::MAX,
            decreases compiled.instructions@.len() - i,
        {
            proof {
                assert(compiled.instructions@.take(i + 1).drop_last() =~= compiled.instructions@.take(i as int));
                lemma_total_size_append(compiled.instructions@.take(i + 1), compiled.instructions@.skip(i + 1));
                assert(compiled.instructions@.take(i + 1) + compiled.instructions@.skip(i + 1) =~= compiled.instructions@);
                lemma_total_size_nonnegative(compiled.instructions@.skip(i + 1));
            }
            offset = offset + compiled.instructions[i].size;
            i = i + 1;
        }
        proof {
            assert(compiled.instructions@.take(i as int) =~= compiled.instructions@);
            lemma_total_size_append(start.instructions@, compiled.instructions@);
        }
        let mut j: usize = 0;
        while j < compiled.relocations.len()
            invariant
                0 <= j <= compiled.relocations@.len(),
                base == start.instructions@.len(),
                forall|k: int| 0 <= k < compiled.relocations@.len() ==>
                    start.instructions@.len() + (#[trigger] compiled.relocations@[k]).instruction_idx <= usize::MAX,
                shifted == compiled.relocations@.map_values(
                    |e: RelocationEntry| shift_relocation(e, start.instructions@.len() as int),
                ),
                self.relocations@ == start.relocations@ + shifted.take(j as int),
                self.instructions@ == start.instructions@,
                self.statement_offsets@ == start.statement_offsets@,
                self.statement_starts@ == start.statement_starts@,
                self.program_offset == start.program_offset,
            decreases compiled.relocations@.len() - j,
        {
            let entry = compiled.relocations[j];
            self.relocations.push(RelocationEntry {
                instruction_idx: base + entry.instruction_idx,
                relocation: entry.relocation,
            });
            proof {
                assert(self.relocations@ =~= start.relocations@ + shifted.take(j + 1));
            }
            j = j + 1;
        }
        proof {
            assert(shifted.take(j as int) =~= shifted);
        }
        self.instructions.append(&mut compiled.instructions);
        self.program_offset = offset;
        proof {
            assert forall|k: int| 0 <= k < self.statement_starts@.len() implies
                self.instructions@.take(#[trigger] self.statement_starts@[k]) =~= start.instructions@.take(self.statement_starts@[k]) by {}
        }
    }

    /// Ends compilation, handing out what relocation needs.
    pub fn finish(self) -> (program: CompiledProgram)
        ensures
            program.instructions@ == self.instructions(),
            program.relocations@ == self.relocations(),
            program.statement_offsets@ == self.statement_offsets(),
    {
        CompiledProgram {
            instructions: self.instructions,
            relocations: self.relocations,
            statement_offsets: self.statement_offsets,
        }
    }
}

/// Sizes are never negative.
proof fn lemma_total_size_nonnegative(instructions: Seq<Instruction>)
    ensures
        total_size(instructions) >= 0,
    decreases instructions.len(),
{
    if instructions.len() > 0 {
        lemma_total_size_nonnegative(instructions.drop_last());
    }
}

/// The printed form of a program: each instruction followed by `;` and a line break.
pub open spec fn program_text(instructions: Seq<Instruction>) -> Seq<char>
    decreases instructions.len(),
{
    if instructions.len() == 0 {
        Seq::empty()
    } else {
        program_text(instructions.drop_last()) + instructions.last().text@ + ";\n"@
    }
}

impl CairoProgram {
    /// The program's instructions, in order.
    pub closed spec fn instructions(&self) -> Seq<Instruction> {
        self.instructions@
    }

    /// The program made of the given (relocated) instructions.
    pub fn from_instructions(instructions: Vec<Instruction>) -> (program: CairoProgram)
        ensures
            program.instructions() == instructions@,
    {
        CairoProgram { instructions }
    }

    /// The program as text: each instruction on a line of its own, followed by `;`.
    pub fn to_string(&self) -> (text: String)
        ensures
            text@ == program_text(self.instructions()),
    {
        let mut text = String::new();
        let mut i: usize = 0;
        while i < self.instructions.len()
            invariant
                0 <= i <= self.instructions@.len(),
                text@ == program_text(self.instructions@.take(i as int)),
            decreases self.instructions@.len() - i,
        {
            text.append(self.instructions[i].text.as_str());
            text.append(";\n");
            proof {
                assert(self.instructions@.take(i + 1).drop_last() =~= self.instructions@.take(i as int));
            }
            i = i + 1;
        }
        proof {
            assert(self.instructions@.take(i as int) =~= self.instructions@);
        }
        text
    }
}

/// The size of a prefix of a sequence of instructions is at most that of a longer prefix.
proof fn lemma_total_size_prefix_monotone(s: Seq<Instruction>, a: int, b: int)
    requires
        0 <= a <= b <= s.len(),
    ensures
        total_size(s.take(a)) <= total_size(s.take(b)),
    decreases b - a,
{
    if a < b {
        lemma_total_size_prefix_monotone(s, a, b - 1);
        assert(s.take(b).drop_last() =~= s.take(b - 1));
    }
}

/// Statements are laid out in order: the offsets of the statements begun so far never
/// decrease, and none lies beyond the offset of the next instruction.
pub proof fn lemma_statement_offsets_sorted(state: CompilationState)
    requires
        state.wf(),
    ensures
        forall|i: int, j: int|
            0 <= i <= j < state.statement_offsets().len() ==> state.statement_offsets()[i]
                <= state.statement_offsets()[j],
        forall|i: int|
            0 <= i < state.statement_offsets().len() ==> state.statement_offsets()[i]
                <= state.program_offset(),
{
    let s = state.instructions();
    assert forall|i: int, j: int|
        0 <= i <= j < state.statement_offsets().len() implies state.statement_offsets()[i]
            <= state.statement_offsets()[j] by {
        assert(0 <= state.statement_starts()[i]);
        assert(state.statement_starts()[j] <= s.len());
        lemma_total_size_prefix_monotone(s, state.statement_starts()[i], state.statement_starts()[j]);
    }
    assert forall|i: int|
        0 <= i < state.statement_offsets().len() implies state.statement_offsets()[i]
            <= state.program_offset() by {
        assert(0 <= state.statement_starts()[i] <= s.len());
        lemma_total_size_prefix_monotone(s, state.statement_starts()[i], s.len() as int);
        assert(s.take(s.len() as int) =~= s);
    }
}

/// Every relocation refers to one of the first `n` instructions.
pub open spec fn relocations_in_bounds(relocations: Seq<RelocationEntry>, n: int) -> bool {
    forall|k: int| 0 <= k < relocations.len() ==> (#[trigger] relocations[k]).instruction_idx < n
}

/// Emitting an invocation whose relocations refer to its own instructions keeps every
/// relocation of the program referring to one of the program's instructions.
pub proof fn lemma_invocation_relocations_in_bounds(
    instructions: Seq<Instruction>,
    relocations: Seq<RelocationEntry>,
    compiled: CompiledInvocation,
)
    requires
        relocations_in_bounds(relocations, instructions.len() as int),
        relocations_in_bounds(compiled.relocations@, compiled.instructions@.len() as int),
        forall|k: int| 0 <= k < compiled.relocations@.len() ==>
            instructions.len() + (#[trigger] compiled.relocations@[k]).instruction_idx <= usize::MAX,
    ensures
        relocations_in_bounds(
            relocations + compiled.relocations@.map_values(
                |e: RelocationEntry| shift_relocation(e, instructions.len() as int),
            ),
            (instructions + compiled.instructions@).len() as int,
        ),
{
    let shifted = compiled.relocations@.map_values(
        |e: RelocationEntry| shift_relocation(e, instructions.len() as int),
    );
    let all = relocations + shifted;
    assert forall|k: int| 0 <= k < all.len() implies (#[trigger] all[k]).instruction_idx
        < (instructions + compiled.instructions@).len() by {
        if k >= relocations.len() {
            let e = compiled.relocations@[k - relocations.len()];
            assert(all[k] == shift_relocation(e, instructions.len() as int));
        }
    }
}

} // verus!
