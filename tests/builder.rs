use amethyst::{BasicBlockId, ModuleBuilder, Operation, Terminator, ToIntegerOperation, Type};

fn i32_type() -> Type {
    Type::Integer(true, 32)
}

#[test]
fn values_are_numbered_from_zero_in_call_order() {
    let mut b = ModuleBuilder::new().with_name("m");
    let f = b.new_function("f", &[], &Type::Void);
    b.switch_to_function(f);
    let blk = b.push_block().unwrap();
    b.switch_to_block(blk);
    for expected in 0..5usize {
        let v = b.push_instruction(Operation::Integer(true, vec![])).unwrap();
        assert_eq!(v.index(), expected);
    }
}

#[test]
fn values_continue_across_blocks_of_one_function() {
    let mut b = ModuleBuilder::new();
    let f = b.new_function("f", &[], &Type::Void);
    b.switch_to_function(f);
    let b0 = b.push_block().unwrap();
    let b1 = b.push_block().unwrap();
    b.switch_to_block(b0);
    let v0 = b.push_instruction(Operation::Integer(true, vec![])).unwrap();
    b.switch_to_block(b1);
    let v1 = b.push_instruction(Operation::Integer(true, vec![])).unwrap();
    b.switch_to_block(b0);
    let v2 = b.push_instruction(Operation::Add(v0, v1)).unwrap();
    assert_eq!((v0.index(), v1.index(), v2.index()), (0, 1, 2));
}

#[test]
fn each_function_has_its_own_counter() {
    let mut b = ModuleBuilder::new();
    let f = b.new_function("f", &[], &Type::Void);
    let g = b.new_function("g", &[], &Type::Void);
    b.switch_to_function(f);
    let fb = b.push_block().unwrap();
    b.switch_to_block(fb);
    b.push_instruction(Operation::Integer(true, vec![])).unwrap();
    b.push_instruction(Operation::Integer(true, vec![])).unwrap();
    b.switch_to_function(g);
    let gb = b.push_block().unwrap();
    b.switch_to_block(gb);
    let v = b.push_instruction(Operation::Integer(true, vec![])).unwrap();
    assert_eq!(v.index(), 0);
}

#[test]
fn selecting_block_of_other_function_clears_block() {
    let mut b = ModuleBuilder::new();
    let f = b.new_function("f", &[], &Type::Void);
    let g = b.new_function("g", &[], &Type::Void);
    b.switch_to_function(g);
    let gb: BasicBlockId = b.push_block().unwrap();
    b.switch_to_function(f);
    let fb = b.push_block().unwrap();
    b.switch_to_block(fb);
    assert!(b.get_block().is_some());
    b.switch_to_block(gb);
    assert!(b.get_block().is_none());
    assert_eq!(b.get_function().unwrap().index(), f.index());
    b.switch_to_block(gb);
    assert!(b.get_block().is_none());
}

#[test]
fn selecting_block_of_current_function_selects_it() {
    let mut b = ModuleBuilder::new();
    let f = b.new_function("f", &[], &Type::Void);
    b.switch_to_function(f);
    let _b0 = b.push_block().unwrap();
    let b1 = b.push_block().unwrap();
    assert!(b.get_block().is_none());
    b.switch_to_block(b1);
    let cur = b.get_block().unwrap();
    assert_eq!(cur.index(), 1);
    assert_eq!(cur.function().index(), f.index());
}

#[test]
fn switching_function_clears_block() {
    let mut b = ModuleBuilder::new();
    let f = b.new_function("f", &[], &Type::Void);
    b.switch_to_function(f);
    let blk = b.push_block().unwrap();
    b.switch_to_block(blk);
    b.switch_to_function(f);
    assert!(b.get_block().is_none());
}

#[test]
fn appends_without_selection_record_nothing() {
    let mut b = ModuleBuilder::new().with_name("m");
    assert!(b.get_function().is_none());
    assert!(b.push_variable("x", &i32_type()).is_none());
    assert!(b.push_block().is_none());
    assert!(b.push_instruction(Operation::Integer(true, vec![1])).is_none());
    let f = b.new_function("f", &[], &Type::Void);
    b.switch_to_function(f);
    assert!(b.push_instruction(Operation::Integer(true, vec![1])).is_none());
    b.set_terminator(Terminator::ReturnVoid);
    let m = b.build();
    assert_eq!(m.function_count(), 1);
    assert_eq!(m.function(0).variable_count(), 0);
    assert_eq!(m.function(0).block_count(), 0);
    assert_eq!(m.to_text(), "/* module m */\n\n@0: function void @f() {\n}\n");
}

#[test]
fn instruction_without_block_does_not_advance_counter() {
    let mut b = ModuleBuilder::new();
    let f = b.new_function("f", &[], &Type::Void);
    b.switch_to_function(f);
    assert!(b.push_instruction(Operation::Integer(true, vec![])).is_none());
    let blk = b.push_block().unwrap();
    b.switch_to_block(blk);
    let v = b.push_instruction(Operation::Integer(true, vec![])).unwrap();
    assert_eq!(v.index(), 0);
}

#[test]
fn branch_to_same_block_is_kept() {
    let mut b = ModuleBuilder::new();
    let f = b.new_function("f", &[], &Type::Void);
    b.switch_to_function(f);
    let blk = b.push_block().unwrap();
    b.switch_to_block(blk);
    let c = b.push_instruction(Operation::Integer(false, vec![1])).unwrap();
    b.set_terminator(Terminator::Branch(c, blk, blk));
    let m = b.build();
    assert_eq!(m.function(0).block(0).terminator().to_text(), "branch %0, $0, $0");
}

#[test]
fn terminator_last_write_wins() {
    let mut b = ModuleBuilder::new();
    let f = b.new_function("f", &[], &Type::Void);
    b.switch_to_function(f);
    let blk = b.push_block().unwrap();
    b.switch_to_block(blk);
    b.set_terminator(Terminator::ReturnVoid);
    b.set_terminator(Terminator::Jump(blk));
    let m = b.build();
    assert_eq!(m.function(0).block(0).terminator().to_text(), "jump $0");
}

#[test]
fn new_function_records_signature() {
    let mut b = ModuleBuilder::default();
    let f = b.new_function("f", &[i32_type(), Type::Integer(false, 8)], &Type::Void);
    assert_eq!(f.index(), 0);
    assert!(b.get_function().is_none());
    let g = b.new_function("g", &[], &i32_type());
    assert_eq!(g.index(), 1);
    let m = b.build();
    assert_eq!(m.function(0).name(), "f");
    assert_eq!(m.function(0).arg_types(), &vec![i32_type(), Type::Integer(false, 8)]);
    assert_eq!(m.function(0).ret_type(), Type::Void);
    assert_eq!(m.function(1).ret_type(), i32_type());
}

#[test]
fn variables_are_numbered_per_function() {
    let mut b = ModuleBuilder::new();
    let f = b.new_function("f", &[], &Type::Void);
    b.switch_to_function(f);
    let x = b.push_variable("x", &i32_type()).unwrap();
    let y = b.push_variable("y", &Type::Integer(false, 1)).unwrap();
    assert_eq!((x.index(), y.index()), (0, 1));
    let m = b.build();
    assert_eq!(m.function(0).variable_name(1), "y");
    assert_eq!(m.function(0).variable_type(1), Type::Integer(false, 1));
}

#[test]
fn module_name_is_set() {
    let m = ModuleBuilder::new().with_name("demo").build();
    assert_eq!(m.name(), "demo");
    assert_eq!(m.function_count(), 0);
}

#[test]
fn integer_operation_from_primitives() {
    assert_eq!(1u8.to_integer_operation().to_text(), "iconst 01");
    assert_eq!((-1i8).to_integer_operation().to_text(), "iconst ff");
    assert_eq!(0x1234u16.to_integer_operation().to_text(), "iconst 1234");
    assert_eq!((-2i16).to_integer_operation().to_text(), "iconst fffe");
    assert_eq!(0x01020304u32.to_integer_operation().to_text(), "iconst 01020304");
    assert_eq!((-1i32).to_integer_operation().to_text(), "iconst ffffffff");
    assert_eq!(258u64.to_integer_operation().to_text(), "iconst 0000000000000102");
    assert_eq!(i64::MIN.to_integer_operation().to_text(), "iconst 8000000000000000");
    assert_eq!(
        u128::MAX.to_integer_operation().to_text(),
        "iconst ffffffffffffffffffffffffffffffff"
    );
    assert_eq!(
        (-1i128).to_integer_operation().to_text(),
        "iconst ffffffffffffffffffffffffffffffff"
    );
}
