//! Canonical text of a module and of its parts.
use crate::ir::{
    BasicBlock, BasicBlockId, BlockView, Function, FunctionId, FunctionView, InstructionView,
    Module, ModuleView, Operation, Terminator, Type, Value, VariableId, VariableView,
};
use vstd::prelude::*;

verus! {

/// The lowercase hexadecimal digit of `d`.
pub open spec fn digit_char(d: nat) -> char {
    if d == 0 {
        '0'
    } else if d == 1 {
        '1'
    } else if d == 2 {
        '2'
    } else if d == 3 {
        '3'
    } else if d == 4 {
        '4'
    } else if d == 5 {
        '5'
    } else if d == 6 {
        '6'
    } else if d == 7 {
        '7'
    } else if d == 8 {
        '8'
    } else if d == 9 {
        '9'
    } else if d == 10 {
        'a'
    } else if d == 11 {
        'b'
    } else if d == 12 {
        'c'
    } else if d == 13 {
        'd'
    } else if d == 14 {
        'e'
    } else {
        'f'
    }
}

/// Decimal digits of `n`, most significant first, with no leading zero.
pub open spec fn dec(n: nat) -> Seq<char>
    decreases n,
{
    if n < 10 {
        seq![digit_char(n)]
    } else {
        dec(n / 10).push(digit_char(n % 10))
    }
}

/// Two lowercase hexadecimal digits of a byte.
pub open spec fn hex_byte(b: u8) -> Seq<char> {
    seq![digit_char(b as nat / 16), digit_char(b as nat % 16)]
}

/// Hex pairs of the first `k` bytes, last byte first.
pub open spec fn hex_desc(bytes: Seq<u8>, k: nat) -> Seq<char>
    decreases k,
{
    if k == 0 || k > bytes.len() {
        seq![]
    } else {
        hex_byte(bytes[k - 1]) + hex_desc(bytes, (k - 1) as nat)
    }
}

/// The parts one after another.
pub open spec fn concat(parts: Seq<Seq<char>>) -> Seq<char>
    decreases parts.len(),
{
    if parts.len() == 0 {
        seq![]
    } else {
        concat(parts.drop_last()) + parts.last()
    }
}

/// The parts with `sep` between each two neighbours.
pub open spec fn joined(parts: Seq<Seq<char>>, sep: Seq<char>) -> Seq<char>
    decreases parts.len(),
{
    if parts.len() == 0 {
        seq![]
    } else if parts.len() == 1 {
        parts[0]
    } else {
        joined(parts.drop_last(), sep) + sep + parts.last()
    }
}

fn digit_str(d: usize) -> (r: &'static str)
    requires
        d < 16,
    ensures
        r@ == seq![digit_char(d as nat)],
{
    match d {
        0 => {
            proof {
                reveal_strlit("0");
            }
            "0"
        },
        1 => {
            proof {
                reveal_strlit("1");
            }
            "1"
        },
        2 => {
            proof {
                reveal_strlit("2");
            }
            "2"
        },
        3 => {
            proof {
                reveal_strlit("3");
            }
            "3"
        },
        4 => {
            proof {
                reveal_strlit("4");
            }
            "4"
        },
        5 => {
            proof {
                reveal_strlit("5");
            }
            "5"
        },
        6 => {
            proof {
                reveal_strlit("6");
            }
            "6"
        },
        7 => {
            proof {
                reveal_strlit("7");
            }
            "7"
        },
        8 => {
            proof {
                reveal_strlit("8");
            }
            "8"
        },
        9 => {
            proof {
                reveal_strlit("9");
            }
            "9"
        },
        10 => {
            proof {
                reveal_strlit("a");
            }
            "a"
        },
        11 => {
            proof {
                reveal_strlit("b");
            }
            "b"
        },
        12 => {
            proof {
                reveal_strlit("c");
            }
            "c"
        },
        13 => {
            proof {
                reveal_strlit("d");
            }
            "d"
        },
        14 => {
            proof {
                reveal_strlit("e");
            }
            "e"
        },
        _ => {
            proof {
                reveal_strlit("f");
            }
            "f"
        },
    }
}

fn push_dec(out: &mut String, n: usize)
    ensures
        final(out)@ == old(out)@ + dec(n as nat),
    decreases n,
{
    if n >= 10 {
        push_dec(out, n / 10);
    }
    out.append(digit_str(n % 10));
    assert(final(out)@ =~= old(out)@ + dec(n as nat));
}

/// `void`, or `i`/`u` followed by the width.
pub open spec fn type_text(t: Type) -> Seq<char> {
    match t {
        Type::Void => "void"@,
        Type::Integer(signed, width) => (if signed {
            "i"@
        } else {
            "u"@
        }) + dec(width as nat),
    }
}

/// `@` and the function's position.
pub open spec fn function_id_text(id: FunctionId) -> Seq<char> {
    "@"@ + dec(id@)
}

/// `#` and the variable's position.
pub open spec fn variable_id_text(id: VariableId) -> Seq<char> {
    "#"@ + dec(id@)
}

/// `$` and the block's position in its function.
pub open spec fn block_id_text(id: BasicBlockId) -> Seq<char> {
    "$"@ + dec(id@.1)
}

/// `%` and the SSA number.
pub open spec fn value_text(v: Value) -> Seq<char> {
    "%"@ + dec(v@)
}

/// A mnemonic followed by its two operands.
pub open spec fn binary_text(mnemonic: Seq<char>, a: Value, b: Value) -> Seq<char> {
    mnemonic + " "@ + value_text(a) + ", "@ + value_text(b)
}

/// Payload of an integer literal: `0` for no bytes, otherwise the bytes from
/// the most significant down, two hex digits each.
pub open spec fn literal_text(bytes: Seq<u8>) -> Seq<char> {
    if bytes.len() == 0 {
        "0"@
    } else {
        hex_desc(bytes, bytes.len())
    }
}

/// One phi input: `$block => %value`.
pub open spec fn phi_input_text(p: (BasicBlockId, Value)) -> Seq<char> {
    block_id_text(p.0) + " => "@ + value_text(p.1)
}

/// Text of an operation, its operands in field order.
pub open spec fn operation_text(op: Operation) -> Seq<char> {
    match op {
        Operation::Integer(signed, bytes) => (if signed {
            "iconst "@
        } else {
            "uconst "@
        }) + literal_text(bytes@),
        Operation::Add(a, b) => binary_text("addi"@, a, b),
        Operation::Sub(a, b) => binary_text("subi"@, a, b),
        Operation::Mul(a, b) => binary_text("muli"@, a, b),
        Operation::Div(a, b) => binary_text("divi"@, a, b),
        Operation::Mod(a, b) => binary_text("mod"@, a, b),
        Operation::Bsl(a, b) => binary_text("shiftl"@, a, b),
        Operation::Bsr(a, b) => binary_text("shiftr"@, a, b),
        Operation::Eq(a, b) => binary_text("eqi"@, a, b),
        Operation::Ne(a, b) => binary_text("neqi"@, a, b),
        Operation::Lt(a, b) => binary_text("lti"@, a, b),
        Operation::Le(a, b) => binary_text("leqi"@, a, b),
        Operation::Gt(a, b) => binary_text("gti"@, a, b),
        Operation::Ge(a, b) => binary_text("geqi"@, a, b),
        Operation::BitAnd(a, b) => binary_text("andi"@, a, b),
        Operation::BitOr(a, b) => binary_text("ori"@, a, b),
        Operation::BitXor(a, b) => binary_text("xori"@, a, b),
        Operation::Phi(inputs) => "phi "@ + joined(
            inputs@.map_values(|p: (BasicBlockId, Value)| phi_input_text(p)),
            ", "@,
        ),
        Operation::GetVar(var) => "get "@ + variable_id_text(var),
        Operation::SetVar(var, v) => "set "@ + variable_id_text(var) + ", "@ + value_text(v),
    }
}

/// Text of a terminator.
pub open spec fn terminator_text(t: Terminator) -> Seq<char> {
    match t {
        Terminator::NoTerminator => "noterm"@,
        Terminator::ReturnVoid => "ret void"@,
        Terminator::Return(v) => "ret "@ + value_text(v),
        Terminator::Jump(b) => "jump "@ + block_id_text(b),
        Terminator::Branch(c, t, e) => "branch "@ + value_text(c) + ", "@ + block_id_text(t) + ", "@
            + block_id_text(e),
    }
}

fn push_type(out: &mut String, t: Type)
    ensures
        final(out)@ == old(out)@ + type_text(t),
{
    match t {
        Type::Void => out.append("void"),
        Type::Integer(signed, width) => {
            if signed {
                out.append("i");
            } else {
                out.append("u");
            }
            push_dec(out, width as usize);
            assert(out@ =~= old(out)@ + type_text(t));
        },
    }
}

fn push_value(out: &mut String, v: Value)
    ensures
        final(out)@ == old(out)@ + value_text(v),
{
    out.append("%");
    push_dec(out, v.index());
    assert(out@ =~= old(out)@ + value_text(v));
}

fn push_block_id(out: &mut String, id: BasicBlockId)
    ensures
        final(out)@ == old(out)@ + block_id_text(id),
{
    out.append("$");
    push_dec(out, id.index());
    assert(out@ =~= old(out)@ + block_id_text(id));
}

fn push_variable_id(out: &mut String, id: VariableId)
    ensures
        final(out)@ == old(out)@ + variable_id_text(id),
{
    out.append("#");
    push_dec(out, id.index());
    assert(out@ =~= old(out)@ + variable_id_text(id));
}

fn push_binary(out: &mut String, mnemonic: &str, a: Value, b: Value)
    ensures
        final(out)@ == old(out)@ + binary_text(mnemonic@, a, b),
{
    out.append(mnemonic);
    out.append(" ");
    push_value(out, a);
    out.append(", ");
    push_value(out, b);
    assert(out@ =~= old(out)@ + binary_text(mnemonic@, a, b));
}

fn push_hex_byte(out: &mut String, b: u8)
    ensures
        final(out)@ == old(out)@ + hex_byte(b),
{
    out.append(digit_str((b / 16) as usize));
    out.append(digit_str((b % 16) as usize));
    assert(out@ =~= old(out)@ + hex_byte(b));
}

fn push_hex_desc(out: &mut String, bytes: &Vec<u8>, k: usize)
    requires
        k <= bytes@.len(),
    ensures
        final(out)@ == old(out)@ + hex_desc(bytes@, k as nat),
    decreases k,
{
    if k > 0 {
        push_hex_byte(out, bytes[k - 1]);
        push_hex_desc(out, bytes, k - 1);
        assert(out@ =~= old(out)@ + hex_desc(bytes@, k as nat));
    }
}

fn push_phi_inputs(out: &mut String, inputs: &Vec<(BasicBlockId, Value)>)
    ensures
        final(out)@ == old(out)@ + joined(
            inputs@.map_values(|p: (BasicBlockId, Value)| phi_input_text(p)),
            ", "@,
        ),
{
    let ghost parts = inputs@.map_values(|p: (BasicBlockId, Value)| phi_input_text(p));
    let mut i: usize = 0;
    while i < inputs.len()
        invariant
            i <= inputs@.len(),
            parts == inputs@.map_values(|p: (BasicBlockId, Value)| phi_input_text(p)),
            out@ == old(out)@ + joined(parts.take(i as int), ", "@),
        decreases inputs@.len() - i,
    {
        if i > 0 {
            out.append(", ");
        }
        let (b, v) = inputs[i];
        push_block_id(out, b);
        out.append(" => ");
        push_value(out, v);
        proof {
            let next = parts.take(i + 1);
            assert(next.drop_last() =~= parts.take(i as int));
            assert(out@ =~= old(out)@ + joined(next, ", "@));
        }
        i = i + 1;
    }
    assert(parts.take(inputs@.len() as int) =~= parts);
}

fn push_operation(out: &mut String, op: &Operation)
    ensures
        final(out)@ == old(out)@ + operation_text(*op),
{
    match op {
        Operation::Integer(signed, bytes) => {
            if *signed {
                out.append("iconst ");
            } else {
                out.append("uconst ");
            }
            if bytes.len() == 0 {
                out.append("0");
            } else {
                push_hex_desc(out, bytes, bytes.len());
            }
            assert(out@ =~= old(out)@ + operation_text(*op));
        },
        Operation::Add(a, b) => push_binary(out, "addi", *a, *b),
        Operation::Sub(a, b) => push_binary(out, "subi", *a, *b),
        Operation::Mul(a, b) => push_binary(out, "muli", *a, *b),
        Operation::Div(a, b) => push_binary(out, "divi", *a, *b),
        Operation::Mod(a, b) => push_binary(out, "mod", *a, *b),
        Operation::Bsl(a, b) => push_binary(out, "shiftl", *a, *b),
        Operation::Bsr(a, b) => push_binary(out, "shiftr", *a, *b),
        Operation::Eq(a, b) => push_binary(out, "eqi", *a, *b),
        Operation::Ne(a, b) => push_binary(out, "neqi", *a, *b),
        Operation::Lt(a, b) => push_binary(out, "lti", *a, *b),
        Operation::Le(a, b) => push_binary(out, "leqi", *a, *b),
        Operation::Gt(a, b) => push_binary(out, "gti", *a, *b),
        Operation::Ge(a, b) => push_binary(out, "geqi", *a, *b),
        Operation::BitAnd(a, b) => push_binary(out, "andi", *a, *b),
        Operation::BitOr(a, b) => push_binary(out, "ori", *a, *b),
        Operation::BitXor(a, b) => push_binary(out, "xori", *a, *b),
        Operation::Phi(inputs) => {
            out.append("phi ");
            push_phi_inputs(out, inputs);
            assert(out@ =~= old(out)@ + operation_text(*op));
        },
        Operation::GetVar(var) => {
            out.append("get ");
            push_variable_id(out, *var);
            assert(out@ =~= old(out)@ + operation_text(*op));
        },
        Operation::SetVar(var, v) => {
            out.append("set ");
            push_variable_id(out, *var);
            out.append(", ");
            push_value(out, *v);
            assert(out@ =~= old(out)@ + operation_text(*op));
        },
    }
}

fn push_terminator(out: &mut String, t: &Terminator)
    ensures
        final(out)@ == old(out)@ + terminator_text(*t),
{
    match t {
        Terminator::NoTerminator => out.append("noterm"),
        Terminator::ReturnVoid => out.append("ret void"),
        Terminator::Return(v) => {
            out.append("ret ");
            push_value(out, *v);
            assert(out@ =~= old(out)@ + terminator_text(*t));
        },
        Terminator::Jump(b) => {
            out.append("jump ");
            push_block_id(out, *b);
            assert(out@ =~= old(out)@ + terminator_text(*t));
        },
        Terminator::Branch(c, tt, e) => {
            out.append("branch ");
            push_value(out, *c);
            out.append(", ");
            push_block_id(out, *tt);
            out.append(", ");
            push_block_id(out, *e);
            assert(out@ =~= old(out)@ + terminator_text(*t));
        },
    }
}

/// One instruction line: indented, `%v = ` when it yields, then the operation.
pub open spec fn instruction_text(i: InstructionView) -> Seq<char> {
    "    "@ + (match i.yielded {
        Some(v) => value_text(v) + " = "@,
        None => seq![],
    }) + operation_text(i.operation) + "\n"@
}

/// Block `k`: its label line, its instruction lines, its terminator line.
pub open spec fn block_text(k: nat, b: BlockView) -> Seq<char> {
    dec(k) + ":\n"@ + concat(b.instructions.map_values(|i: InstructionView| instruction_text(i)))
        + "    "@ + terminator_text(b.terminator) + "\n"@
}

/// Declaration line of variable `j`.
pub open spec fn variable_text(j: nat, v: VariableView) -> Seq<char> {
    "    #"@ + dec(j) + " = "@ + type_text(v.ty) + " // "@ + v.name + "\n"@
}

/// Text of a function: header, variable lines, blocks, closing brace.
pub open spec fn function_text(f: FunctionView) -> Seq<char> {
    "function "@ + type_text(f.ret_type) + " @"@ + f.name + "("@ + joined(
        f.arg_types.map_values(|t: Type| type_text(t)),
        ", "@,
    ) + ") {\n"@ + concat(Seq::new(f.variables.len(), |j: int| variable_text(j as nat, f.variables[j])))
        + concat(Seq::new(f.blocks.len(), |k: int| block_text(k as nat, f.blocks[k]))) + "}"@
}

/// Function `i` of a module and the newline that ends it, preceded by the
/// line break that leaves one blank line before it.
pub open spec fn module_entry_text(i: nat, f: FunctionView) -> Seq<char> {
    (if i == 0 {
        "\n\n"@
    } else {
        "\n"@
    }) + "@"@ + dec(i) + ": "@ + function_text(f) + "\n"@
}

/// Text of a module: its header comment, then each function.
pub open spec fn module_text(m: ModuleView) -> Seq<char> {
    "/* module "@ + m.name + " */"@ + concat(
        Seq::new(m.functions.len(), |i: int| module_entry_text(i as nat, m.functions[i])),
    )
}

fn push_instruction_line(out: &mut String, b: &BasicBlock, i: usize)
    requires
        i < b@.instructions.len(),
    ensures
        final(out)@ == old(out)@ + instruction_text(b@.instructions[i as int]),
{
    out.append("    ");
    if let Some(v) = b.yielded(i) {
        push_value(out, v);
        out.append(" = ");
    }
    push_operation(out, b.operation(i));
    out.append("\n");
    assert(out@ =~= old(out)@ + instruction_text(b@.instructions[i as int]));
}

fn push_block_text(out: &mut String, k: usize, b: &BasicBlock)
    ensures
        final(out)@ == old(out)@ + block_text(k as nat, b@),
{
    push_dec(out, k);
    out.append(":\n");
    let ghost start = out@;
    let ghost parts = b@.instructions.map_values(|i: InstructionView| instruction_text(i));
    let n = b.instruction_count();
    let mut i: usize = 0;
    while i < n
        invariant
            n == b@.instructions.len(),
            i <= n,
            parts == b@.instructions.map_values(|i: InstructionView| instruction_text(i)),
            out@ == start + concat(parts.take(i as int)),
        decreases n - i,
    {
        push_instruction_line(out, b, i);
        proof {
            let next = parts.take(i + 1);
            assert(next.drop_last() =~= parts.take(i as int));
            assert(out@ =~= start + concat(next));
        }
        i = i + 1;
    }
    assert(parts.take(n as int) =~= parts);
    out.append("    ");
    push_terminator(out, b.terminator());
    out.append("\n");
    assert(out@ =~= old(out)@ + block_text(k as nat, b@));
}

fn push_arg_types(out: &mut String, ts: &Vec<Type>)
    ensures
        final(out)@ == old(out)@ + joined(ts@.map_values(|t: Type| type_text(t)), ", "@),
{
    let ghost parts = ts@.map_values(|t: Type| type_text(t));
    let mut i: usize = 0;
    while i < ts.len()
        invariant
            i <= ts@.len(),
            parts == ts@.map_values(|t: Type| type_text(t)),
            out@ == old(out)@ + joined(parts.take(i as int), ", "@),
        decreases ts@.len() - i,
    {
        if i > 0 {
            out.append(", ");
        }
        push_type(out, ts[i]);
        proof {
            let next = parts.take(i + 1);
            assert(next.drop_last() =~= parts.take(i as int));
            assert(out@ =~= old(out)@ + joined(next, ", "@));
        }
        i = i + 1;
    }
    assert(parts.take(ts@.len() as int) =~= parts);
}

fn push_function_text(out: &mut String, f: &Function)
    ensures
        final(out)@ == old(out)@ + function_text(f@),
{
    let ghost fv = f@;
    out.append("function ");
    push_type(out, f.ret_type());
    out.append(" @");
    out.append(f.name().as_str());
    out.append("(");
    push_arg_types(out, f.arg_types());
    out.append(") {\n");
    let ghost after_header = out@;
    let ghost vparts = Seq::new(fv.variables.len(), |j: int| variable_text(j as nat, fv.variables[j]));
    let nv = f.variable_count();
    let mut j: usize = 0;
    while j < nv
        invariant
            nv == fv.variables.len(),
            fv == f@,
            j <= nv,
            vparts == Seq::new(fv.variables.len(), |j: int| variable_text(j as nat, fv.variables[j])),
            out@ == after_header + concat(vparts.take(j as int)),
        decreases nv - j,
    {
        let ghost before = out@;
        out.append("    #");
        push_dec(out, j);
        out.append(" = ");
        push_type(out, f.variable_type(j));
        out.append(" // ");
        out.append(f.variable_name(j).as_str());
        out.append("\n");
        proof {
            assert(out@ =~= before + variable_text(j as nat, fv.variables[j as int]));
            let next = vparts.take(j + 1);
            assert(next.drop_last() =~= vparts.take(j as int));
            assert(out@ =~= after_header + concat(next));
        }
        j = j + 1;
    }
    assert(vparts.take(nv as int) =~= vparts);
    let ghost after_vars = out@;
    let ghost bparts = Seq::new(fv.blocks.len(), |k: int| block_text(k as nat, fv.blocks[k]));
    let nb = f.block_count();
    let mut k: usize = 0;
    while k < nb
        invariant
            nb == fv.blocks.len(),
            fv == f@,
            k <= nb,
            bparts == Seq::new(fv.blocks.len(), |k: int| block_text(k as nat, fv.blocks[k])),
            out@ == after_vars + concat(bparts.take(k as int)),
        decreases nb - k,
    {
        push_block_text(out, k, f.block(k));
        proof {
            let next = bparts.take(k + 1);
            assert(next.drop_last() =~= bparts.take(k as int));
            assert(out@ =~= after_vars + concat(next));
        }
        k = k + 1;
    }
    assert(bparts.take(nb as int) =~= bparts);
    out.append("}");
    assert(out@ =~= old(out)@ + function_text(f@));
}

impl Module {
    /// The module's canonical text.
    pub fn to_text(&self) -> (r: String)
        ensures
            r@ == module_text(self@),
    {
        let ghost m = self@;
        let mut out = String::new();
        out.append("/* module ");
        out.append(self.name().as_str());
        out.append(" */");
        let ghost start = out@;
        let ghost parts = Seq::new(m.functions.len(), |i: int| module_entry_text(i as nat, m.functions[i]));
        let n = self.function_count();
        let mut i: usize = 0;
        while i < n
            invariant
                n == m.functions.len(),
                m == self@,
                i <= n,
                parts == Seq::new(m.functions.len(), |i: int| module_entry_text(i as nat, m.functions[i])),
                out@ == start + concat(parts.take(i as int)),
            decreases n - i,
        {
            let ghost before = out@;
            if i == 0 {
                out.append("\n\n");
            } else {
                out.append("\n");
            }
            out.append("@");
            push_dec(&mut out, i);
            out.append(": ");
            push_function_text(&mut out, self.function(i));
            out.append("\n");
            proof {
                assert(out@ =~= before + module_entry_text(i as nat, m.functions[i as int]));
                let next = parts.take(i + 1);
                assert(next.drop_last() =~= parts.take(i as int));
                assert(out@ =~= start + concat(next));
            }
            i = i + 1;
        }
        assert(parts.take(n as int) =~= parts);
        assert(out@ =~= module_text(m));
        out
    }
}

impl Function {
    /// The function's text, without its module position.
    pub fn to_text(&self) -> (r: String)
        ensures
            r@ == function_text(self@),
    {
        let mut out = String::new();
        push_function_text(&mut out, self);
        assert(out@ =~= function_text(self@));
        out
    }
}

impl Type {
    /// The type's text, e.g. `i32` or `void`.
    pub fn to_text(&self) -> (r: String)
        ensures
            r@ == type_text(*self),
    {
        let mut out = String::new();
        push_type(&mut out, *self);
        assert(out@ =~= type_text(*self));
        out
    }
}

impl FunctionId {
    /// `@` and the function's position.
    pub fn to_text(&self) -> (r: String)
        ensures
            r@ == function_id_text(*self),
    {
        let mut out = String::new();
        out.append("@");
        push_dec(&mut out, self.index());
        assert(out@ =~= function_id_text(*self));
        out
    }
}

impl VariableId {
    /// `#` and the variable's position.
    pub fn to_text(&self) -> (r: String)
        ensures
            r@ == variable_id_text(*self),
    {
        let mut out = String::new();
        push_variable_id(&mut out, *self);
        assert(out@ =~= variable_id_text(*self));
        out
    }
}

impl BasicBlockId {
    /// `$` and the block's position in its function.
    pub fn to_text(&self) -> (r: String)
        ensures
            r@ == block_id_text(*self),
    {
        let mut out = String::new();
        push_block_id(&mut out, *self);
        assert(out@ =~= block_id_text(*self));
        out
    }
}

impl Value {
    /// `%` and the SSA number.
    pub fn to_text(&self) -> (r: String)
        ensures
            r@ == value_text(*self),
    {
        let mut out = String::new();
        push_value(&mut out, *self);
        assert(out@ =~= value_text(*self));
        out
    }
}

impl Operation {
    /// The operation's text: mnemonic, then operands in field order.
    pub fn to_text(&self) -> (r: String)
        ensures
            r@ == operation_text(*self),
    {
        let mut out = String::new();
        push_operation(&mut out, self);
        assert(out@ =~= operation_text(*self));
        out
    }
}

impl Terminator {
    /// The terminator's text.
    pub fn to_text(&self) -> (r: String)
        ensures
            r@ == terminator_text(*self),
    {
        let mut out = String::new();
        push_terminator(&mut out, self);
        assert(out@ =~= terminator_text(*self));
        out
    }
}

/// A module without functions prints as its header comment alone.
pub proof fn lemma_empty_module_text(m: ModuleView)
    requires
        m.functions.len() == 0,
    ensures
        module_text(m) == "/* module "@ + m.name + " */"@,
{
    let parts = Seq::new(m.functions.len(), |i: int| module_entry_text(i as nat, m.functions[i]));
    assert(parts.len() == 0);
    assert(module_text(m) =~= "/* module "@ + m.name + " */"@);
}

/// Printing is a function of the module alone: two printings of one module
/// give the same text.
pub proof fn lemma_printing_is_deterministic(m: &Module, first: String, second: String)
    requires
        first@ == module_text(m@),
        second@ == module_text(m@),
    ensures
        first@ == second@,
{
}

} // verus!
