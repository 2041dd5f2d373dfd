use amethyst::{ModuleBuilder, Operation, Terminator, Type};

#[test]
fn empty_module_prints_header_only() {
    let m = ModuleBuilder::new().with_name("empty").build();
    assert_eq!(m.to_text(), "/* module empty */");
}

#[test]
fn printing_twice_is_identical() {
    let mut b = ModuleBuilder::new().with_name("m");
    let f = b.new_function("f", &[Type::Integer(true, 64)], &Type::Void);
    b.switch_to_function(f);
    let blk = b.push_block().unwrap();
    b.switch_to_block(blk);
    b.push_instruction(Operation::Integer(false, vec![7])).unwrap();
    b.set_terminator(Terminator::ReturnVoid);
    let m = b.build();
    let first = m.to_text();
    let second = m.to_text();
    assert_eq!(first, second);
}

#[test]
fn end_to_end_example() {
    let i32t = Type::Integer(true, 32);
    let mut b = ModuleBuilder::new().with_name("m");
    let f = b.new_function("f", &[i32t], &i32t);
    b.switch_to_function(f);
    let x = b.push_variable("x", &i32t).unwrap();
    let blk = b.push_block().unwrap();
    b.switch_to_block(blk);
    let v0 = b.push_instruction(Operation::GetVar(x)).unwrap();
    let one = b.push_instruction(Operation::Integer(true, vec![1])).unwrap();
    let v2 = b.push_instruction(Operation::Add(v0, one)).unwrap();
    b.set_terminator(Terminator::Return(v2));
    let m = b.build();
    assert_eq!(
        m.function(0).to_text(),
        "function i32 @f(i32) {\n    #0 = i32 // x\n0:\n    %0 = get #0\n    %1 = iconst 01\n    %2 = addi %0, %1\n    ret %2\n}"
    );
    assert_eq!(
        m.to_text(),
        "/* module m */\n\n@0: function i32 @f(i32) {\n    #0 = i32 // x\n0:\n    %0 = get #0\n    %1 = iconst 01\n    %2 = addi %0, %1\n    ret %2\n}\n"
    );
}

#[test]
fn functions_are_separated_by_a_blank_line() {
    let mut b = ModuleBuilder::new().with_name("two");
    b.new_function("a", &[], &Type::Void);
    b.new_function("b", &[Type::Integer(false, 8), Type::Integer(true, 16)], &Type::Void);
    let m = b.build();
    assert_eq!(
        m.to_text(),
        "/* module two */\n\n@0: function void @a() {\n}\n\n@1: function void @b(u8, i16) {\n}\n"
    );
}

#[test]
fn blocks_are_concatenated() {
    let mut b = ModuleBuilder::new();
    let f = b.new_function("f", &[], &Type::Void);
    b.switch_to_function(f);
    let b0 = b.push_block().unwrap();
    let b1 = b.push_block().unwrap();
    b.switch_to_block(b0);
    b.set_terminator(Terminator::Jump(b1));
    b.switch_to_block(b1);
    b.set_terminator(Terminator::ReturnVoid);
    let m = b.build();
    assert_eq!(
        m.function(0).to_text(),
        "function void @f() {\n0:\n    jump $1\n1:\n    ret void\n}"
    );
}

#[test]
fn unset_terminator_prints_noterm() {
    let mut b = ModuleBuilder::new();
    let f = b.new_function("f", &[], &Type::Void);
    b.switch_to_function(f);
    b.push_block().unwrap();
    let m = b.build();
    assert_eq!(m.function(0).to_text(), "function void @f() {\n0:\n    noterm\n}");
}

#[test]
fn type_text() {
    assert_eq!(Type::Void.to_text(), "void");
    assert_eq!(Type::Integer(true, 32).to_text(), "i32");
    assert_eq!(Type::Integer(false, 255).to_text(), "u255");
    assert_eq!(Type::Integer(false, 0).to_text(), "u0");
}

#[test]
fn identifier_text() {
    let mut b = ModuleBuilder::new();
    for _ in 0..12 {
        b.new_function("f", &[], &Type::Void);
    }
    let f = b.new_function("g", &[], &Type::Void);
    assert_eq!(f.to_text(), "@12");
    b.switch_to_function(f);
    let x = b.push_variable("x", &Type::Void).unwrap();
    assert_eq!(x.to_text(), "#0");
    let blk = b.push_block().unwrap();
    assert_eq!(blk.to_text(), "$0");
    b.switch_to_block(blk);
    let mut last = None;
    for _ in 0..101 {
        last = b.push_instruction(Operation::Integer(true, vec![])).unwrap().into();
    }
    let v: amethyst::Value = last.unwrap();
    assert_eq!(v.to_text(), "%100");
}

#[test]
fn integer_literal_text() {
    assert_eq!(Operation::Integer(true, vec![]).to_text(), "iconst 0");
    assert_eq!(Operation::Integer(false, vec![]).to_text(), "uconst 0");
    assert_eq!(Operation::Integer(true, vec![0x34, 0x12]).to_text(), "iconst 1234");
    assert_eq!(Operation::Integer(false, vec![0xab, 0x00, 0x0f]).to_text(), "uconst 0f00ab");
    assert_eq!(Operation::Integer(true, vec![0]).to_text(), "iconst 00");
}

#[test]
fn binary_operation_text() {
    let mut b = ModuleBuilder::new();
    let f = b.new_function("f", &[], &Type::Void);
    b.switch_to_function(f);
    let blk = b.push_block().unwrap();
    b.switch_to_block(blk);
    let a = b.push_instruction(Operation::Integer(true, vec![])).unwrap();
    let c = b.push_instruction(Operation::Integer(true, vec![])).unwrap();
    let cases = vec![
        (Operation::Add(a, c), "addi %0, %1"),
        (Operation::Sub(a, c), "subi %0, %1"),
        (Operation::Mul(a, c), "muli %0, %1"),
        (Operation::Div(a, c), "divi %0, %1"),
        (Operation::Mod(a, c), "mod %0, %1"),
        (Operation::Bsl(a, c), "shiftl %0, %1"),
        (Operation::Bsr(a, c), "shiftr %0, %1"),
        (Operation::Eq(a, c), "eqi %0, %1"),
        (Operation::Ne(a, c), "neqi %0, %1"),
        (Operation::Lt(a, c), "lti %0, %1"),
        (Operation::Le(a, c), "leqi %0, %1"),
        (Operation::Gt(a, c), "gti %0, %1"),
        (Operation::Ge(a, c), "geqi %0, %1"),
        (Operation::BitAnd(c, a), "andi %1, %0"),
        (Operation::BitOr(a, c), "ori %0, %1"),
        (Operation::BitXor(a, c), "xori %0, %1"),
    ];
    for (op, text) in cases {
        assert_eq!(op.to_text(), text);
    }
}

#[test]
fn phi_and_variable_operation_text() {
    let mut b = ModuleBuilder::new();
    let f = b.new_function("f", &[], &Type::Void);
    b.switch_to_function(f);
    let x = b.push_variable("x", &Type::Integer(true, 8)).unwrap();
    let b0 = b.push_block().unwrap();
    let b1 = b.push_block().unwrap();
    b.switch_to_block(b0);
    let v0 = b.push_instruction(Operation::Integer(true, vec![])).unwrap();
    b.switch_to_block(b1);
    let v1 = b.push_instruction(Operation::Integer(true, vec![])).unwrap();
    assert_eq!(Operation::Phi(vec![]).to_text(), "phi ");
    assert_eq!(Operation::Phi(vec![(b0, v0)]).to_text(), "phi $0 => %0");
    assert_eq!(
        Operation::Phi(vec![(b0, v0), (b1, v1), (b0, v0)]).to_text(),
        "phi $0 => %0, $1 => %1, $0 => %0"
    );
    assert_eq!(Operation::GetVar(x).to_text(), "get #0");
    assert_eq!(Operation::SetVar(x, v1).to_text(), "set #0, %1");
}

#[test]
fn terminator_text() {
    let mut b = ModuleBuilder::new();
    let f = b.new_function("f", &[], &Type::Void);
    b.switch_to_function(f);
    let b0 = b.push_block().unwrap();
    let b1 = b.push_block().unwrap();
    b.switch_to_block(b0);
    let v = b.push_instruction(Operation::Integer(true, vec![])).unwrap();
    assert_eq!(Terminator::NoTerminator.to_text(), "noterm");
    assert_eq!(Terminator::ReturnVoid.to_text(), "ret void");
    assert_eq!(Terminator::Return(v).to_text(), "ret %0");
    assert_eq!(Terminator::Jump(b1).to_text(), "jump $1");
    assert_eq!(Terminator::Branch(v, b0, b1).to_text(), "branch %0, $0, $1");
}
