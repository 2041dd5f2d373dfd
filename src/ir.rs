use vstd::prelude::*;
use vstd::slice::slice_to_vec;

verus! {

/// A scalar type: `void`, or an integer of a given signedness and bit width.
#[derive(Clone, Copy, Debug, PartialEq, Eq, Structural)]
pub enum Type {
    Void,
    Integer(bool, u8),
}

/// Module-scoped handle of a function.
#[derive(Clone, Copy, Debug, PartialEq, Eq, Structural)]
pub struct FunctionId(usize);

/// Function-scoped handle of a variable.
#[derive(Clone, Copy, Debug, PartialEq, Eq, Structural)]
pub struct VariableId(usize);

/// Handle of a basic block: its owning function and its position there.
#[derive(Clone, Copy, Debug, PartialEq, Eq, Structural)]
pub struct BasicBlockId(FunctionId, usize);

/// Function-scoped SSA value number.
#[derive(Clone, Copy, Debug, PartialEq, Eq, Structural)]
pub struct Value(usize);

impl View for FunctionId {
    type V = nat;

    closed spec fn view(&self) -> nat {
        self.0 as nat
    }
}

impl View for VariableId {
    type V = nat;

    closed spec fn view(&self) -> nat {
        self.0 as nat
    }
}

impl View for BasicBlockId {
    type V = (nat, nat);

    closed spec fn view(&self) -> (nat, nat) {
        (self.0@, self.1 as nat)
    }
}

impl View for Value {
    type V = nat;

    closed spec fn view(&self) -> nat {
        self.0 as nat
    }
}

impl FunctionId {
    /// Position of the function in its module.
    pub fn index(&self) -> (r: usize)
        ensures
            r == self@,
    {
        self.0
    }
}

impl VariableId {
    /// Position of the variable in its function.
    pub fn index(&self) -> (r: usize)
        ensures
            r == self@,
    {
        self.0
    }
}

impl BasicBlockId {
    /// The function that owns the block.
    pub fn function(&self) -> (r: FunctionId)
        ensures
            r@ == self@.0,
    {
        self.0
    }

    /// Position of the block in its function.
    pub fn index(&self) -> (r: usize)
        ensures
            r == self@.1,
    {
        self.1
    }
}

impl Value {
    /// The SSA number.
    pub fn index(&self) -> (r: usize)
        ensures
            r == self@,
    {
        self.0
    }
}

/// The closed set of operations an instruction can perform.
pub enum Operation {
    /// Signedness and little-endian magnitude bytes; no bytes means zero.
    Integer(bool, Vec<u8>),
    Add(Value, Value),
    Sub(Value, Value),
    Mul(Value, Value),
    Div(Value, Value),
    Mod(Value, Value),
    Bsl(Value, Value),
    Bsr(Value, Value),
    Eq(Value, Value),
    Ne(Value, Value),
    Lt(Value, Value),
    Le(Value, Value),
    Gt(Value, Value),
    Ge(Value, Value),
    BitAnd(Value, Value),
    BitOr(Value, Value),
    BitXor(Value, Value),
    /// Predecessor block and the value that flows in from it, in order.
    Phi(Vec<(BasicBlockId, Value)>),
    GetVar(VariableId),
    SetVar(VariableId, Value),
}

/// The control transfer that ends a basic block.
pub enum Terminator {
    /// Placeholder of a block whose terminator was never set.
    NoTerminator,
    ReturnVoid,
    Return(Value),
    Jump(BasicBlockId),
    /// Condition, target when true, target when false.
    Branch(Value, BasicBlockId, BasicBlockId),
}

/// The `k` low bytes of `n`, least significant first.
pub open spec fn le_bytes(n: nat, k: nat) -> Seq<u8>
    decreases k,
{
    if k == 0 {
        seq![]
    } else {
        seq![(n % 256) as u8] + le_bytes(n / 256, (k - 1) as nat)
    }
}

fn le_bytes_of(x: u128, k: usize) -> (r: Vec<u8>)
    ensures
        r@ == le_bytes(x as nat, k as nat),
{
    let mut r: Vec<u8> = Vec::new();
    let mut cur: u128 = x;
    let mut i: usize = 0;
    while i < k
        invariant
            i <= k,
            r@ + le_bytes(cur as nat, (k - i) as nat) == le_bytes(x as nat, k as nat),
        decreases k - i,
    {
        let ghost before = r@;
        r.push((cur % 256) as u8);
        proof {
            let rest = le_bytes((cur / 256) as nat, (k - i - 1) as nat);
            assert(le_bytes(cur as nat, (k - i) as nat) == seq![(cur as nat % 256) as u8] + rest);
            assert(r@ + rest =~= before + (seq![(cur as nat % 256) as u8] + rest));
        }
        cur = cur / 256;
        i = i + 1;
    }
    assert(r@ + le_bytes(cur as nat, 0) =~= r@);
    r
}

/// Integers that turn into an integer-literal operation.
pub trait ToIntegerOperation: Sized {
    /// The value's bytes in two's complement (the value modulo two to the
    /// width), least significant first.
    spec fn spec_le_bytes(&self) -> Seq<u8>;

    /// A signed integer literal holding the value's little-endian bytes.
    fn to_integer_operation(self) -> (r: Operation)
        ensures
            r matches Operation::Integer(signed, bytes) && signed && bytes@ == self.spec_le_bytes(),
    ;
}

impl ToIntegerOperation for i8 {
    open spec fn spec_le_bytes(&self) -> Seq<u8> {
        le_bytes(((*self as int) % 256) as nat, 1)
    }

    fn to_integer_operation(self) -> (r: Operation) {
        let bits: u128 = if self < 0 {
            (self as i128 + 256) as u128
        } else {
            self as u128
        };
        assert(bits as int == (self as int) % 256);
        Operation::Integer(true, le_bytes_of(bits, 1))
    }
}

impl ToIntegerOperation for u8 {
    open spec fn spec_le_bytes(&self) -> Seq<u8> {
        le_bytes(*self as nat, 1)
    }

    fn to_integer_operation(self) -> (r: Operation) {
        Operation::Integer(true, le_bytes_of(self as u128, 1))
    }
}

impl ToIntegerOperation for i16 {
    open spec fn spec_le_bytes(&self) -> Seq<u8> {
        le_bytes(((*self as int) % 65536) as nat, 2)
    }

    fn to_integer_operation(self) -> (r: Operation) {
        let bits: u128 = if self < 0 {
            (self as i128 + 65536) as u128
        } else {
            self as u128
        };
        assert(bits as int == (self as int) % 65536);
        Operation::Integer(true, le_bytes_of(bits, 2))
    }
}

impl ToIntegerOperation for u16 {
    open spec fn spec_le_bytes(&self) -> Seq<u8> {
        le_bytes(*self as nat, 2)
    }

    fn to_integer_operation(self) -> (r: Operation) {
        Operation::Integer(true, le_bytes_of(self as u128, 2))
    }
}

impl ToIntegerOperation for i32 {
    open spec fn spec_le_bytes(&self) -> Seq<u8> {
        le_bytes(((*self as int) % 4294967296) as nat, 4)
    }

    fn to_integer_operation(self) -> (r: Operation) {
        let bits: u128 = if self < 0 {
            (self as i128 + 4294967296) as u128
        } else {
            self as u128
        };
        assert(bits as int == (self as int) % 4294967296);
        Operation::Integer(true, le_bytes_of(bits, 4))
    }
}

impl ToIntegerOperation for u32 {
    open spec fn spec_le_bytes(&self) -> Seq<u8> {
        le_bytes(*self as nat, 4)
    }

    fn to_integer_operation(self) -> (r: Operation) {
        Operation::Integer(true, le_bytes_of(self as u128, 4))
    }
}

impl ToIntegerOperation for i64 {
    open spec fn spec_le_bytes(&self) -> Seq<u8> {
        le_bytes(((*self as int) % 18446744073709551616) as nat, 8)
    }

    fn to_integer_operation(self) -> (r: Operation) {
        let bits: u128 = if self < 0 {
            (self as i128 + 18446744073709551616) as u128
        } else {
            self as u128
        };
        assert(bits as int == (self as int) % 18446744073709551616);
        Operation::Integer(true, le_bytes_of(bits, 8))
    }
}

impl ToIntegerOperation for u64 {
    open spec fn spec_le_bytes(&self) -> Seq<u8> {
        le_bytes(*self as nat, 8)
    }

    fn to_integer_operation(self) -> (r: Operation) {
        Operation::Integer(true, le_bytes_of(self as u128, 8))
    }
}

impl ToIntegerOperation for i128 {
    open spec fn spec_le_bytes(&self) -> Seq<u8> {
        le_bytes(((*self as int) % (u128::MAX as int + 1)) as nat, 16)
    }

    fn to_integer_operation(self) -> (r: Operation) {
        let bits: u128 = if self < 0 {
            u128::MAX - ((-(self + 1)) as u128)
        } else {
            self as u128
        };
        assert(bits as int == (self as int) % (u128::MAX as int + 1));
        Operation::Integer(true, le_bytes_of(bits, 16))
    }
}

impl ToIntegerOperation for u128 {
    open spec fn spec_le_bytes(&self) -> Seq<u8> {
        le_bytes(*self as nat, 16)
    }

    fn to_integer_operation(self) -> (r: Operation) {
        Operation::Integer(true, le_bytes_of(self, 16))
    }
}

/// Spec model of a variable.
pub struct VariableView {
    pub name: Seq<char>,
    pub ty: Type,
}

/// Spec model of an instruction.
pub struct InstructionView {
    pub yielded: Option<Value>,
    pub operation: Operation,
}

/// Spec model of a basic block.
pub struct BlockView {
    pub instructions: Seq<InstructionView>,
    pub terminator: Terminator,
}

/// Spec model of a function.
pub struct FunctionView {
    pub name: Seq<char>,
    pub arg_types: Seq<Type>,
    pub ret_type: Type,
    pub variables: Seq<VariableView>,
    pub blocks: Seq<BlockView>,
    /// The next unused SSA number.
    pub value_counter: nat,
}

/// Spec model of a module.
pub struct ModuleView {
    pub name: Seq<char>,
    pub functions: Seq<FunctionView>,
}

struct Variable {
    name: String,
    ty: Type,
}

struct Instruction {
    yielded: Option<Value>,
    operation: Operation,
}

/// A basic block: instructions in order and one terminator slot.
pub struct BasicBlock {
    instructions: Vec<Instruction>,
    terminator: Terminator,
}

/// A function: its signature, variables, blocks and SSA counter.
pub struct Function {
    name: String,
    arg_types: Vec<Type>,
    ret_type: Type,
    variables: Vec<Variable>,
    blocks: Vec<BasicBlock>,
    value_index: usize,
}

/// A named, ordered collection of functions.
pub struct Module {
    name: String,
    functions: Vec<Function>,
}

impl View for Variable {
    type V = VariableView;

    closed spec fn view(&self) -> VariableView {
        VariableView { name: self.name@, ty: self.ty }
    }
}

impl View for Instruction {
    type V = InstructionView;

    closed spec fn view(&self) -> InstructionView {
        InstructionView { yielded: self.yielded, operation: self.operation }
    }
}

impl View for BasicBlock {
    type V = BlockView;

    closed spec fn view(&self) -> BlockView {
        BlockView {
            instructions: self.instructions@.map_values(|i: Instruction| i@),
            terminator: self.terminator,
        }
    }
}

impl View for Function {
    type V = FunctionView;

    closed spec fn view(&self) -> FunctionView {
        FunctionView {
            name: self.name@,
            arg_types: self.arg_types@,
            ret_type: self.ret_type,
            variables: self.variables@.map_values(|v: Variable| v@),
            blocks: self.blocks@.map_values(|b: BasicBlock| b@),
            value_counter: self.value_index as nat,
        }
    }
}

impl View for Module {
    type V = ModuleView;

    closed spec fn view(&self) -> ModuleView {
        ModuleView { name: self.name@, functions: self.functions@.map_values(|f: Function| f@) }
    }
}

impl FunctionView {
    /// Block `b` has an instruction at position `i`.
    pub open spec fn has_instruction(self, b: int, i: int) -> bool {
        0 <= b < self.blocks.len() && 0 <= i < self.blocks[b].instructions.len()
    }

    /// What instruction `i` of block `b` yields.
    pub open spec fn yielded_at(self, b: int, i: int) -> Option<Value> {
        self.blocks[b].instructions[i].yielded
    }

    /// Every instruction yields a value below the counter, no two
    /// instructions yield the same value, and every number below the counter
    /// is yielded by some instruction.
    pub open spec fn numbered(self) -> bool {
        &&& forall|b: int, i: int| #[trigger]
            self.has_instruction(b, i) ==> self.yielded_at(b, i) is Some && self.yielded_at(
                b,
                i,
            )->0@ < self.value_counter
        &&& forall|b1: int, i1: int, b2: int, i2: int|
            #![trigger self.yielded_at(b1, i1), self.yielded_at(b2, i2)]
            self.has_instruction(b1, i1) && self.has_instruction(b2, i2) && self.yielded_at(b1, i1)
                == self.yielded_at(b2, i2) ==> b1 == b2 && i1 == i2
        &&& forall|n: nat| n < self.value_counter ==> #[trigger] self.is_yielded(n)
    }

    /// Some instruction of the function yields number `n`.
    pub open spec fn is_yielded(self, n: nat) -> bool {
        exists|b: int, i: int| #[trigger]
            self.has_instruction(b, i) && self.yielded_at(b, i)->0@ == n
    }

    /// The function after appending an empty block with no terminator set.
    pub open spec fn with_new_block(self) -> FunctionView {
        FunctionView {
            blocks: self.blocks.push(BlockView { instructions: seq![], terminator: Terminator::NoTerminator }),
            ..self
        }
    }

    /// The function after appending a variable.
    pub open spec fn with_new_variable(self, name: Seq<char>, ty: Type) -> FunctionView {
        FunctionView { variables: self.variables.push(VariableView { name, ty }), ..self }
    }

    /// The function after appending `op`, yielding `v`, to block `b`, and
    /// advancing the SSA counter by one.
    pub open spec fn with_new_instruction(self, b: int, v: Value, op: Operation) -> FunctionView {
        FunctionView {
            blocks: self.blocks.update(
                b,
                BlockView {
                    instructions: self.blocks[b].instructions.push(
                        InstructionView { yielded: Some(v), operation: op },
                    ),
                    ..self.blocks[b]
                },
            ),
            value_counter: self.value_counter + 1,
            ..self
        }
    }

    /// The function after overwriting the terminator of block `b`.
    pub open spec fn with_terminator(self, b: int, t: Terminator) -> FunctionView {
        FunctionView {
            blocks: self.blocks.update(b, BlockView { terminator: t, ..self.blocks[b] }),
            ..self
        }
    }
}

impl ModuleView {
    /// The module with function `i` replaced by `f`.
    pub open spec fn with_function(self, i: int, f: FunctionView) -> ModuleView {
        ModuleView { functions: self.functions.update(i, f), ..self }
    }
}

impl Module {
    /// The module's name.
    pub fn name(&self) -> (r: &String)
        ensures
            r@ == self@.name,
    {
        &self.name
    }

    /// Number of functions.
    pub fn function_count(&self) -> (r: usize)
        ensures
            r == self@.functions.len(),
    {
        self.functions.len()
    }

    /// Function at position `i`.
    pub fn function(&self, i: usize) -> (r: &Function)
        requires
            i < self@.functions.len(),
        ensures
            r@ == self@.functions[i as int],
    {
        &self.functions[i]
    }
}

impl Function {
    /// The function's name.
    pub fn name(&self) -> (r: &String)
        ensures
            r@ == self@.name,
    {
        &self.name
    }

    /// Argument types in order.
    pub fn arg_types(&self) -> (r: &Vec<Type>)
        ensures
            r@ == self@.arg_types,
    {
        &self.arg_types
    }

    /// Return type.
    pub fn ret_type(&self) -> (r: Type)
        ensures
            r == self@.ret_type,
    {
        self.ret_type
    }

    /// Number of variables.
    pub fn variable_count(&self) -> (r: usize)
        ensures
            r == self@.variables.len(),
    {
        self.variables.len()
    }

    /// Name of variable `i`.
    pub fn variable_name(&self, i: usize) -> (r: &String)
        requires
            i < self@.variables.len(),
        ensures
            r@ == self@.variables[i as int].name,
    {
        &self.variables[i].name
    }

    /// Type of variable `i`.
    pub fn variable_type(&self, i: usize) -> (r: Type)
        requires
            i < self@.variables.len(),
        ensures
            r == self@.variables[i as int].ty,
    {
        self.variables[i].ty
    }

    /// Number of blocks.
    pub fn block_count(&self) -> (r: usize)
        ensures
            r == self@.blocks.len(),
    {
        self.blocks.len()
    }

    /// Block at position `i`.
    pub fn block(&self, i: usize) -> (r: &BasicBlock)
        requires
            i < self@.blocks.len(),
        ensures
            r@ == self@.blocks[i as int],
    {
        &self.blocks[i]
    }
}

impl BasicBlock {
    /// Number of instructions.
    pub fn instruction_count(&self) -> (r: usize)
        ensures
            r == self@.instructions.len(),
    {
        self.instructions.len()
    }

    /// Value yielded by instruction `i`.
    pub fn yielded(&self, i: usize) -> (r: Option<Value>)
        requires
            i < self@.instructions.len(),
        ensures
            r == self@.instructions[i as int].yielded,
    {
        self.instructions[i].yielded
    }

    /// Operation of instruction `i`.
    pub fn operation(&self, i: usize) -> (r: &Operation)
        requires
            i < self@.instructions.len(),
        ensures
            *r == self@.instructions[i as int].operation,
    {
        &self.instructions[i].operation
    }

    /// The terminator slot.
    pub fn terminator(&self) -> (r: &Terminator)
        ensures
            *r == self@.terminator,
    {
        &self.terminator
    }
}

impl Function {
    fn new(name: &str, arg_types: &[Type], ret_type: &Type) -> (r: Function)
        ensures
            r@ == (FunctionView {
                name: name@,
                arg_types: arg_types@,
                ret_type: *ret_type,
                variables: seq![],
                blocks: seq![],
                value_counter: 0,
            }),
    {
        let r = Function {
            name: name.to_owned(),
            arg_types: slice_to_vec(arg_types),
            ret_type: *ret_type,
            variables: Vec::new(),
            blocks: Vec::new(),
            value_index: 0,
        };
        assert(r@.variables =~= seq![]);
        assert(r@.blocks =~= seq![]);
        r
    }

    fn push_block(&mut self) -> (r: usize)
        ensures
            r == old(self)@.blocks.len(),
            final(self)@ == old(self)@.with_new_block(),
    {
        let r = self.blocks.len();
        self.blocks.push(BasicBlock { instructions: Vec::new(), terminator: Terminator::NoTerminator });
        proof {
            let nb = self.blocks@[r as int];
            assert(nb@.instructions =~= seq![]);
            assert(self@.blocks =~= old(self)@.with_new_block().blocks);
        }
        r
    }

    fn push_variable(&mut self, name: &str, ty: &Type) -> (r: usize)
        ensures
            r == old(self)@.variables.len(),
            final(self)@ == old(self)@.with_new_variable(name@, *ty),
    {
        let r = self.variables.len();
        self.variables.push(Variable { name: name.to_owned(), ty: *ty });
        assert(self@.variables =~= old(self)@.with_new_variable(name@, *ty).variables);
        r
    }

    fn push_instruction(&mut self, b: usize, op: Operation) -> (r: Value)
        requires
            b < old(self)@.blocks.len(),
            old(self)@.value_counter < usize::MAX,
        ensures
            r@ == old(self)@.value_counter,
            final(self)@ == old(self)@.with_new_instruction(b as int, r, op),
    {
        let r = Value(self.value_index);
        self.value_index = self.value_index + 1;
        let ghost ob = self.blocks@[b as int];
        self.blocks[b].instructions.push(Instruction { yielded: Some(r), operation: op });
        proof {
            let nb = self.blocks@[b as int];
            assert(nb@.instructions =~= ob@.instructions.push(
                InstructionView { yielded: Some(r), operation: op },
            ));
            assert(self@.blocks =~= old(self)@.with_new_instruction(b as int, r, op).blocks);
        }
        r
    }

    fn set_terminator(&mut self, b: usize, t: Terminator)
        requires
            b < old(self)@.blocks.len(),
        ensures
            final(self)@ == old(self)@.with_terminator(b as int, t),
    {
        let ghost ob = self.blocks@[b as int];
        self.blocks[b].terminator = t;
        proof {
            let nb = self.blocks@[b as int];
            assert(nb@.instructions =~= ob@.instructions);
            assert(self@.blocks =~= old(self)@.with_terminator(b as int, t).blocks);
        }
    }
}

/// A fresh function is numbered.
proof fn lemma_fresh_numbered(f: FunctionView)
    requires
        f.blocks.len() == 0,
        f.value_counter == 0,
    ensures
        f.numbered(),
{
}

/// Appending an empty block keeps the numbering.
proof fn lemma_numbered_new_block(f: FunctionView)
    requires
        f.numbered(),
    ensures
        f.with_new_block().numbered(),
{
    let g = f.with_new_block();
    assert forall|b: int, i: int| #[trigger] g.has_instruction(b, i) implies f.has_instruction(b, i)
        && g.yielded_at(b, i) == f.yielded_at(b, i) by {}
    assert forall|n: nat| n < g.value_counter implies g.is_yielded(n) by {
        assert(f.is_yielded(n));
        let (b, i) = choose|b: int, i: int| #[trigger]
            f.has_instruction(b, i) && f.yielded_at(b, i)->0@ == n;
        assert(g.has_instruction(b, i));
    }
}

/// Changing a terminator or adding a variable keeps the numbering.
proof fn lemma_numbered_same_instructions(f: FunctionView, g: FunctionView)
    requires
        f.numbered(),
        g.value_counter == f.value_counter,
        g.blocks.len() == f.blocks.len(),
        forall|b: int| 0 <= b < f.blocks.len() ==> #[trigger] g.blocks[b].instructions
            == f.blocks[b].instructions,
    ensures
        g.numbered(),
{
    assert forall|b: int, i: int| #[trigger] g.has_instruction(b, i) implies f.has_instruction(b, i)
        && g.yielded_at(b, i) == f.yielded_at(b, i) by {
        assert(g.blocks[b].instructions == f.blocks[b].instructions);
    }
    assert forall|n: nat| n < g.value_counter implies g.is_yielded(n) by {
        assert(f.is_yielded(n));
        let (b, i) = choose|b: int, i: int| #[trigger]
            f.has_instruction(b, i) && f.yielded_at(b, i)->0@ == n;
        assert(g.blocks[b].instructions == f.blocks[b].instructions);
        assert(g.has_instruction(b, i));
    }
}

/// Appending an instruction that yields the counter keeps the numbering.
proof fn lemma_numbered_new_instruction(f: FunctionView, bb: int, v: Value, op: Operation)
    requires
        f.numbered(),
        0 <= bb < f.blocks.len(),
        v@ == f.value_counter,
    ensures
        f.with_new_instruction(bb, v, op).numbered(),
{
    let g = f.with_new_instruction(bb, v, op);
    let last = f.blocks[bb].instructions.len() as int;
    assert forall|b: int, i: int| #[trigger] g.has_instruction(b, i) implies (if b == bb && i == last {
        g.yielded_at(b, i) == Some(v)
    } else {
        f.has_instruction(b, i) && g.yielded_at(b, i) == f.yielded_at(b, i)
    }) by {}
    assert forall|b: int, i: int| #[trigger] g.has_instruction(b, i) implies g.yielded_at(b, i) is Some
        && g.yielded_at(b, i)->0@ < g.value_counter by {
        if !(b == bb && i == last) {
            assert(f.has_instruction(b, i));
        }
    }
    assert forall|b1: int, i1: int, b2: int, i2: int|
        #![trigger g.yielded_at(b1, i1), g.yielded_at(b2, i2)]
        g.has_instruction(b1, i1) && g.has_instruction(b2, i2) && g.yielded_at(b1, i1)
            == g.yielded_at(b2, i2) implies b1 == b2 && i1 == i2 by {
        let new1 = b1 == bb && i1 == last;
        let new2 = b2 == bb && i2 == last;
        if !new1 {
            assert(f.has_instruction(b1, i1));
        }
        if !new2 {
            assert(f.has_instruction(b2, i2));
        }
        if !new1 && !new2 {
            assert(f.yielded_at(b1, i1) == f.yielded_at(b2, i2));
        }
    }
    assert forall|n: nat| n < g.value_counter implies g.is_yielded(n) by {
        if n == f.value_counter {
            assert(g.has_instruction(bb, last));
        } else {
            assert(f.is_yielded(n));
            let (b, i) = choose|b: int, i: int| #[trigger]
                f.has_instruction(b, i) && f.yielded_at(b, i)->0@ == n;
            assert(g.has_instruction(b, i));
        }
    }
}

/// Replacing the selected function by a numbered one with at least as many
/// blocks keeps the builder well formed.
proof fn lemma_wf_with_current(bv: BuilderView, nf: FunctionView)
    requires
        bv.wf(),
        bv.current_function is Some,
        nf.numbered(),
        nf.blocks.len() >= bv.current().blocks.len(),
    ensures
        bv.with_current(nf).wf(),
{
    let a = bv.with_current(nf);
    assert forall|f: int| 0 <= f < a.module.functions.len() implies #[trigger] a.module.functions[f].numbered() by {
        if f != bv.current_function->0 as int {
            assert(a.module.functions[f] == bv.module.functions[f]);
        }
    }
}

/// Spec model of a builder: the module under construction and the cursor.
pub struct BuilderView {
    pub module: ModuleView,
    pub current_function: Option<nat>,
    pub current_block: Option<nat>,
}

impl BuilderView {
    /// The cursor points at a function and block that exist.
    pub open spec fn wf(self) -> bool {
        &&& (self.current_function is Some ==> self.current_function->0
            < self.module.functions.len())
        &&& (self.current_block is Some ==> {
            &&& self.current_function is Some
            &&& self.current_block->0 < self.module.functions[self.current_function->0 as int].blocks.len()
        })
        &&& forall|f: int|
            0 <= f < self.module.functions.len() ==> #[trigger] self.module.functions[f].numbered()
    }

    /// `id` names a function of this module.
    pub open spec fn has_function(self, id: nat) -> bool {
        id < self.module.functions.len()
    }

    /// `id` names a block of a function of this module.
    pub open spec fn has_block(self, id: (nat, nat)) -> bool {
        id.0 < self.module.functions.len() && id.1 < self.module.functions[id.0 as int].blocks.len()
    }

    /// The selected function (meaningful when one is selected).
    pub open spec fn current(self) -> FunctionView {
        self.module.functions[self.current_function->0 as int]
    }

    /// The same cursor, with the selected function replaced by `f`.
    pub open spec fn with_current(self, f: FunctionView) -> BuilderView {
        self.with_module(self.module.with_function(self.current_function->0 as int, f))
    }

    /// `after` is this state with `op` appended to the selected block,
    /// yielding `v`, the selected function's next SSA number.
    pub open spec fn instruction_appended(self, op: Operation, v: Value, after: BuilderView) -> bool {
        &&& v@ == self.current().value_counter
        &&& after == self.with_current(
            self.current().with_new_instruction(self.current_block->0 as int, v, op),
        )
    }

    /// The same cursor over another module.
    pub open spec fn with_module(self, m: ModuleView) -> BuilderView {
        BuilderView { module: m, ..self }
    }
}

/// Cursor-based builder: the only way to grow a module.
pub struct ModuleBuilder {
    internal: Module,
    current_function: Option<usize>,
    current_block: Option<usize>,
}

impl View for ModuleBuilder {
    type V = BuilderView;

    closed spec fn view(&self) -> BuilderView {
        BuilderView {
            module: self.internal@,
            current_function: match self.current_function {
                Some(f) => Some(f as nat),
                None => None,
            },
            current_block: match self.current_block {
                Some(b) => Some(b as nat),
                None => None,
            },
        }
    }
}

impl Default for ModuleBuilder {
    fn default() -> (r: ModuleBuilder)
        ensures
            r@ == (BuilderView {
                module: ModuleView { name: seq![], functions: seq![] },
                current_function: None,
                current_block: None,
            }),
    {
        ModuleBuilder::new()
    }
}

impl ModuleBuilder {
    /// A builder over an unnamed, empty module, with nothing selected.
    pub fn new() -> (r: ModuleBuilder)
        ensures
            r@ == (BuilderView {
                module: ModuleView { name: seq![], functions: seq![] },
                current_function: None,
                current_block: None,
            }),
            r@.wf(),
    {
        let r = ModuleBuilder {
            internal: Module { name: String::new(), functions: Vec::new() },
            current_function: None,
            current_block: None,
        };
        assert(r@.module.functions =~= seq![]);
        r
    }

    /// Sets the module's name.
    pub fn with_name(self, name: &str) -> (r: ModuleBuilder)
        ensures
            r@ == (BuilderView { module: ModuleView { name: name@, ..self@.module }, ..self@ }),
            self@.wf() ==> r@.wf(),
    {
        let mut s = self;
        s.internal.name = name.to_owned();
        s
    }

    /// Ends construction and hands over the module.
    pub fn build(self) -> (r: Module)
        ensures
            r@ == self@.module,
    {
        self.internal
    }

    /// Appends a function with no variables, no blocks and counter zero.
    /// The cursor does not move.
    pub fn new_function(&mut self, name: &str, arg_types: &[Type], ret_type: &Type) -> (r: FunctionId)
        ensures
            r@ == old(self)@.module.functions.len(),
            final(self)@ == old(self)@.with_module(ModuleView {
                functions: old(self)@.module.functions.push(FunctionView {
                    name: name@,
                    arg_types: arg_types@,
                    ret_type: *ret_type,
                    variables: seq![],
                    blocks: seq![],
                    value_counter: 0,
                }),
                ..old(self)@.module
            }),
            old(self)@.wf() ==> final(self)@.wf(),
    {
        let id = self.internal.functions.len();
        let f = Function::new(name, arg_types, ret_type);
        self.internal.functions.push(f);
        assert(self@.module.functions =~= old(self)@.module.functions.push(f@));
        FunctionId(id)
    }

    /// Selects function `id` and clears the block selection.
    pub fn switch_to_function(&mut self, id: FunctionId)
        requires
            old(self)@.wf(),
            old(self)@.has_function(id@),
        ensures
            final(self)@ == (BuilderView {
                current_function: Some(id@),
                current_block: None,
                ..old(self)@
            }),
            final(self)@.wf(),
    {
        self.current_function = Some(id.0);
        self.current_block = None;
    }

    /// Appends an empty block, with no terminator set, to the selected
    /// function; absent when no function is selected. The cursor does not move.
    pub fn push_block(&mut self) -> (r: Option<BasicBlockId>)
        requires
            old(self)@.wf(),
        ensures
            final(self)@.wf(),
            old(self)@.current_function is None ==> r is None && final(self)@ == old(self)@,
            old(self)@.current_function is Some ==> {
                &&& r is Some
                &&& r->0@ == (old(self)@.current_function->0, old(self)@.current().blocks.len())
                &&& final(self)@ == old(self)@.with_current(old(self)@.current().with_new_block())
            },
    {
        match self.current_function {
            Some(f) => {
                let b = self.internal.functions[f].push_block();
                proof {
                    lemma_numbered_new_block(old(self)@.current());
                    lemma_wf_with_current(old(self)@, old(self)@.current().with_new_block());
                }
                assert(self@.module.functions =~= old(self)@.module.functions.update(
                    f as int,
                    old(self)@.current().with_new_block(),
                ));
                Some(BasicBlockId(FunctionId(f), b))
            },
            None => None,
        }
    }

    /// Selects block `id` when it belongs to the selected function; clears
    /// the block selection otherwise.
    pub fn switch_to_block(&mut self, id: BasicBlockId)
        requires
            old(self)@.wf(),
            old(self)@.has_block(id@),
        ensures
            final(self)@.wf(),
            old(self)@.current_function == Some(id@.0) ==> final(self)@ == (BuilderView {
                current_block: Some(id@.1),
                ..old(self)@
            }),
            old(self)@.current_function != Some(id@.0) ==> final(self)@ == (BuilderView {
                current_block: None,
                ..old(self)@
            }),
    {
        match self.current_function {
            Some(x) if id.0.0 == x => self.current_block = Some(id.1),
            _ => self.current_block = None,
        }
    }

    /// Appends `op` to the selected block, yielding the selected function's
    /// next SSA number; absent, with nothing recorded, when no block is selected.
    pub fn push_instruction(&mut self, op: Operation) -> (r: Option<Value>)
        requires
            old(self)@.wf(),
            old(self)@.current_block is Some ==> old(self)@.current().value_counter < usize::MAX,
        ensures
            final(self)@.wf(),
            old(self)@.current_block is None ==> r is None && final(self)@ == old(self)@,
            old(self)@.current_block is Some ==> {
                &&& r is Some
                &&& old(self)@.instruction_appended(op, r->0, final(self)@)
            },
    {
        if let Some(f) = self.current_function {
            if let Some(b) = self.current_block {
                let ghost ob = old(self)@.current_block->0 as int;
                let v = self.internal.functions[f].push_instruction(b, op);
                proof {
                    let nf = old(self)@.current().with_new_instruction(ob, v, op);
                    lemma_numbered_new_instruction(old(self)@.current(), ob, v, op);
                    lemma_wf_with_current(old(self)@, nf);
                }
                assert(self@.module.functions =~= old(self)@.module.functions.update(
                    f as int,
                    old(self)@.current().with_new_instruction(ob, v, op),
                ));
                return Some(v);
            }
        }
        None
    }

    /// Appends a variable to the selected function; absent, with nothing
    /// recorded, when no function is selected.
    pub fn push_variable(&mut self, name: &str, ty: &Type) -> (r: Option<VariableId>)
        requires
            old(self)@.wf(),
        ensures
            final(self)@.wf(),
            old(self)@.current_function is None ==> r is None && final(self)@ == old(self)@,
            old(self)@.current_function is Some ==> {
                &&& r is Some
                &&& r->0@ == old(self)@.current().variables.len()
                &&& final(self)@ == old(self)@.with_current(
                    old(self)@.current().with_new_variable(name@, *ty),
                )
            },
    {
        match self.current_function {
            Some(f) => {
                let v = self.internal.functions[f].push_variable(name, ty);
                proof {
                    let nf = old(self)@.current().with_new_variable(name@, *ty);
                    lemma_numbered_same_instructions(old(self)@.current(), nf);
                    lemma_wf_with_current(old(self)@, nf);
                }
                assert(self@.module.functions =~= old(self)@.module.functions.update(
                    f as int,
                    old(self)@.current().with_new_variable(name@, *ty),
                ));
                Some(VariableId(v))
            },
            None => None,
        }
    }

    /// Overwrites the selected block's terminator; does nothing when no block
    /// is selected.
    pub fn set_terminator(&mut self, terminator: Terminator)
        requires
            old(self)@.wf(),
        ensures
            final(self)@.wf(),
            old(self)@.current_block is None ==> final(self)@ == old(self)@,
            old(self)@.current_block is Some ==> final(self)@ == old(self)@.with_current(
                old(self)@.current().with_terminator(
                    old(self)@.current_block->0 as int,
                    terminator,
                ),
            ),
    {
        if let Some(f) = self.current_function {
            if let Some(b) = self.current_block {
                self.internal.functions[f].set_terminator(b, terminator);
                proof {
                    let nf = old(self)@.current().with_terminator(b as int, terminator);
                    lemma_numbered_same_instructions(old(self)@.current(), nf);
                    lemma_wf_with_current(old(self)@, nf);
                }
                assert(self@.module.functions =~= old(self)@.module.functions.update(
                    f as int,
                    old(self)@.current().with_terminator(b as int, terminator),
                ));
            }
        }
    }

    /// The selected function, if any.
    pub fn get_function(&self) -> (r: Option<FunctionId>)
        ensures
            r is Some <==> self@.current_function is Some,
            r is Some ==> r->0@ == self@.current_function->0,
    {
        match self.current_function {
            Some(f) => Some(FunctionId(f)),
            None => None,
        }
    }

    /// The selected block, if any, with the function that owns it.
    pub fn get_block(&self) -> (r: Option<BasicBlockId>)
        requires
            self@.wf(),
        ensures
            r is Some <==> self@.current_block is Some,
            r is Some ==> r->0@ == (self@.current_function->0, self@.current_block->0),
    {
        if let Some(f) = self.get_function() {
            match self.current_block {
                Some(b) => Some(BasicBlockId(f, b)),
                None => None,
            }
        } else {
            None
        }
    }
}

/// Instructions appended one after another, as `push_instruction` appends
/// them, yield consecutive SSA numbers of the selected function, starting at
/// its counter: numbers `0, 1, ..., N-1` for a fresh function. The counter
/// belongs to the function, so the numbers never repeat within it.
pub proof fn lemma_append_values_consecutive(
    states: Seq<BuilderView>,
    ops: Seq<Operation>,
    values: Seq<Value>,
)
    requires
        states.len() == ops.len() + 1,
        values.len() == ops.len(),
        states[0].wf(),
        states[0].current_block is Some,
        forall|i: int|
            0 <= i < ops.len() ==> #[trigger] states[i].instruction_appended(
                ops[i],
                values[i],
                states[i + 1],
            ),
    ensures
        forall|i: int|
            0 <= i < values.len() ==> #[trigger] values[i]@ == states[0].current().value_counter + i,
        forall|i: int, j: int| 0 <= i < j < values.len() ==> values[i]@ < values[j]@,
        states.last().wf(),
        states.last().current_function == states[0].current_function,
        states.last().current_block == states[0].current_block,
        states.last().current().value_counter == states[0].current().value_counter + ops.len(),
    decreases ops.len(),
{
    let n = ops.len() as int;
    if n > 0 {
        let ps = states.drop_last();
        let po = ops.drop_last();
        let pv = values.drop_last();
        assert forall|i: int| 0 <= i < po.len() implies #[trigger] ps[i].instruction_appended(
            po[i],
            pv[i],
            ps[i + 1],
        ) by {
            assert(states[i].instruction_appended(ops[i], values[i], states[i + 1]));
        }
        lemma_append_values_consecutive(ps, po, pv);
        let prev = states[n - 1];
        assert(prev == ps.last());
        assert(prev.instruction_appended(ops[n - 1], values[n - 1], states[n]));
        let f = prev.current_function->0 as int;
        let b = prev.current_block->0 as int;
        let nf = prev.current().with_new_instruction(b, values[n - 1], ops[n - 1]);
        lemma_numbered_new_instruction(prev.current(), b, values[n - 1], ops[n - 1]);
        lemma_wf_with_current(prev, nf);
        assert(states[n].module.functions[f] == nf);
        assert(states.last() == states[n]);
        assert forall|i: int| 0 <= i < values.len() implies #[trigger] values[i]@
            == states[0].current().value_counter + i by {
            if i < n - 1 {
                assert(values[i] == pv[i]);
            }
        }
    }
}

/// A branch whose two targets are the same block is stored as given.
pub proof fn lemma_degenerate_branch_kept(before: BuilderView, c: Value, target: BasicBlockId)
    requires
        before.wf(),
        before.current_block is Some,
    ensures
        ({
            let b = before.current_block->0 as int;
            let after = before.with_current(
                before.current().with_terminator(b, Terminator::Branch(c, target, target)),
            );
            &&& after.wf()
            &&& after.current().blocks[b].terminator == Terminator::Branch(c, target, target)
        }),
{
    let b = before.current_block->0 as int;
    let nf = before.current().with_terminator(b, Terminator::Branch(c, target, target));
    lemma_numbered_same_instructions(before.current(), nf);
    lemma_wf_with_current(before, nf);
}

} // verus!
