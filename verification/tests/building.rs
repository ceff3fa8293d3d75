use qir_generator::{
    BasicQisBuilder, Builder, Controlled, Error, If, Instruction, Measured, Qubit, Ref, RefKind,
    Rotated, SimpleModule, Single,
};

fn result(index: u64) -> Ref {
    Ref(RefKind::Result { index })
}

fn length(module: &mut SimpleModule) -> usize {
    module.builder().model().instructions.len()
}

#[test]
fn module_exposes_the_slots_it_was_made_with() {
    for (q, r) in [(0u64, 0u64), (1, 0), (0, 1), (2, 2), (3, 7), (40, 5)] {
        let module = SimpleModule::new("p".to_string(), q, r).unwrap();
        let qubits = module.qubits().unwrap();
        let results = module.results().unwrap();
        assert_eq!(qubits.len() as u64, q);
        assert_eq!(results.len() as u64, r);
        for (i, qubit) in qubits.iter().enumerate() {
            assert_eq!(qubit.index, i as u64);
            assert_eq!(*qubit, Qubit { index: i as u64 });
        }
        for (i, res) in results.iter().enumerate() {
            assert_eq!(*res, result(i as u64));
        }
        assert_eq!(module.qubits().unwrap(), qubits);
        assert_eq!(module.results().unwrap(), results);
    }
}

#[test]
fn new_module_has_its_name_and_no_instruction() {
    let mut module = SimpleModule::new("fresh".to_string(), 3, 4).unwrap();
    let builder = module.builder();
    assert_eq!(builder.depth(), 0);
    let model = builder.model();
    assert_eq!(model.name, "fresh");
    assert_eq!(model.qubits.len(), 1);
    assert_eq!(model.qubits[0].name, "qubit");
    assert_eq!(model.qubits[0].size, 3);
    assert_eq!(model.registers.len(), 1);
    assert_eq!(model.registers[0].name, "result");
    assert_eq!(model.registers[0].size, 4);
    assert!(model.instructions.is_empty());
}

#[test]
fn sizes_beyond_the_machine_are_refused() {
    let limit = (usize::MAX / 16) as u64;
    let refused = Some(Error::AllocationError);
    assert_eq!(SimpleModule::new("big".to_string(), u64::MAX, 0).err(), refused);
    assert_eq!(SimpleModule::new("big".to_string(), 0, u64::MAX).err(), refused);
    assert_eq!(SimpleModule::new("big".to_string(), limit + 1, 1).err(), refused);
    assert_eq!(SimpleModule::new("big".to_string(), 1, limit + 1).err(), refused);
    assert_eq!(Builder::new("big".to_string(), limit + 1, limit + 1).err(), refused);
    assert!(SimpleModule::new("big".to_string(), limit, limit).is_ok());
    assert!(Builder::new("big".to_string(), limit, 0).is_ok());
}

#[test]
fn largest_module_knows_its_last_slot() {
    let limit = (usize::MAX / 16) as u64;
    let mut module = SimpleModule::new("big".to_string(), limit, limit).unwrap();
    assert_eq!(module.qubit(limit - 1), Ok(Qubit { index: limit - 1 }));
    assert_eq!(module.qubit(limit), Err(Error::InvalidOperand));
    assert_eq!(module.result(limit - 1), Ok(result(limit - 1)));
    assert_eq!(module.result(limit), Err(Error::InvalidOperand));
    let mut qis = BasicQisBuilder::new(module.builder());
    assert_eq!(qis.h(&Qubit { index: limit - 1 }), Ok(()));
    assert_eq!(qis.h(&Qubit { index: limit }), Err(Error::InvalidOperand));
}

#[test]
fn references_are_made_for_slots_that_exist() {
    let mut module = SimpleModule::new("refs".to_string(), 2, 1).unwrap();
    assert_eq!(module.qubit(0), Ok(Qubit { index: 0 }));
    assert_eq!(module.qubit(1), Ok(Qubit { index: 1 }));
    assert_eq!(module.qubit(2), Err(Error::InvalidOperand));
    assert_eq!(module.result(0), Ok(result(0)));
    assert_eq!(module.result(1), Err(Error::InvalidOperand));
    module.builder().try_borrow().unwrap();
    assert_eq!(module.qubit(1), Ok(Qubit { index: 1 }));
    module.builder().release();
    module.builder().try_borrow_mut().unwrap();
    assert_eq!(module.qubit(1), Err(Error::ConcurrentAccess));
    assert_eq!(module.result(7), Err(Error::ConcurrentAccess));
    assert_eq!(module.builder().qubit(0), Err(Error::ConcurrentAccess));
}

#[test]
fn references_give_their_identifiers() {
    assert_eq!(Qubit { index: 0 }.id(), "qubit0");
    assert_eq!(Qubit { index: 123 }.id(), "qubit123");
    assert_eq!(result(0).id(), "result0");
    assert_eq!(result(u64::MAX).id(), "result18446744073709551615");
}

#[test]
fn instructions_are_kept_in_call_order() {
    let mut module = SimpleModule::new("order".to_string(), 2, 1).unwrap();
    let q = module.qubits().unwrap();
    let r = module.results().unwrap();
    {
        let mut qis = BasicQisBuilder::new(module.builder());
        qis.h(&q[0]).unwrap();
        qis.cx(&q[0], &q[1]).unwrap();
        qis.rx(7, &q[1]).unwrap();
        qis.m(&q[1], &r[0]).unwrap();
    }
    let model = module.builder().model();
    assert_eq!(
        model.instructions,
        vec![
            Instruction::H(Single::new("qubit0".to_string())),
            Instruction::Cx(Controlled::new("qubit0".to_string(), "qubit1".to_string())),
            Instruction::Rx(Rotated::new(7, "qubit1".to_string())),
            Instruction::M(Measured::new("qubit1".to_string(), "result0".to_string())),
        ]
    );
}

#[test]
fn each_call_appends_one_instruction() {
    let mut module = SimpleModule::new("count".to_string(), 1, 1).unwrap();
    let q = module.qubits().unwrap();
    for n in 0..10usize {
        assert_eq!(length(&mut module), n);
        let mut qis = BasicQisBuilder::new(module.builder());
        if n % 2 == 0 {
            qis.t(&q[0]).unwrap();
        } else {
            qis.s_adj(&q[0]).unwrap();
        }
    }
    assert_eq!(length(&mut module), 10);
}

#[test]
fn qubit_out_of_range_is_refused_by_every_gate() {
    let mut module = SimpleModule::new("range".to_string(), 2, 1).unwrap();
    let q = module.qubits().unwrap();
    let r = module.results().unwrap();
    let bad = Qubit { index: 2 };
    let mut qis = BasicQisBuilder::new(module.builder());
    qis.h(&q[0]).unwrap();
    assert_eq!(qis.cx(&bad, &q[0]), Err(Error::InvalidOperand));
    assert_eq!(qis.cx(&q[0], &bad), Err(Error::InvalidOperand));
    assert_eq!(qis.cz(&bad, &q[0]), Err(Error::InvalidOperand));
    assert_eq!(qis.cz(&q[0], &bad), Err(Error::InvalidOperand));
    assert_eq!(qis.h(&bad), Err(Error::InvalidOperand));
    assert_eq!(qis.m(&bad, &r[0]), Err(Error::InvalidOperand));
    assert_eq!(qis.reset(&bad), Err(Error::InvalidOperand));
    assert_eq!(qis.rx(0, &bad), Err(Error::InvalidOperand));
    assert_eq!(qis.ry(0, &bad), Err(Error::InvalidOperand));
    assert_eq!(qis.rz(0, &bad), Err(Error::InvalidOperand));
    assert_eq!(qis.s(&bad), Err(Error::InvalidOperand));
    assert_eq!(qis.s_adj(&bad), Err(Error::InvalidOperand));
    assert_eq!(qis.t(&bad), Err(Error::InvalidOperand));
    assert_eq!(qis.t_adj(&bad), Err(Error::InvalidOperand));
    assert_eq!(qis.x(&bad), Err(Error::InvalidOperand));
    assert_eq!(qis.y(&bad), Err(Error::InvalidOperand));
    assert_eq!(qis.z(&bad), Err(Error::InvalidOperand));
    assert_eq!(qis.h(&Qubit { index: u64::MAX }), Err(Error::InvalidOperand));
    assert_eq!(length(&mut module), 1);
}

#[test]
fn result_out_of_range_is_refused() {
    let mut module = SimpleModule::new("range".to_string(), 1, 2).unwrap();
    let q = module.qubits().unwrap();
    let mut qis = BasicQisBuilder::new(module.builder());
    assert_eq!(qis.m(&q[0], &result(2)), Err(Error::InvalidOperand));
    assert_eq!(qis.open_branch(&result(2)), Err(Error::InvalidOperand));
    assert_eq!(qis.if_result(&result(5), vec![], vec![]), Err(Error::InvalidOperand));
    assert_eq!(module.builder().depth(), 0);
    assert_eq!(length(&mut module), 0);
}

#[test]
fn module_without_slots_refuses_every_reference() {
    let mut module = SimpleModule::new("none".to_string(), 0, 0).unwrap();
    let mut qis = BasicQisBuilder::new(module.builder());
    assert_eq!(qis.h(&Qubit { index: 0 }), Err(Error::InvalidOperand));
    assert_eq!(qis.open_branch(&result(0)), Err(Error::InvalidOperand));
    assert_eq!(length(&mut module), 0);
}

#[test]
fn refused_call_inside_a_branch_leaves_the_branch() {
    let mut module = SimpleModule::new("in".to_string(), 1, 1).unwrap();
    let q = module.qubits().unwrap();
    let r = module.results().unwrap();
    let mut qis = BasicQisBuilder::new(module.builder());
    qis.open_branch(&r[0]).unwrap();
    qis.x(&q[0]).unwrap();
    assert_eq!(qis.y(&Qubit { index: 1 }), Err(Error::InvalidOperand));
    qis.close_branch().unwrap();
    assert_eq!(
        module.builder().model().instructions,
        vec![Instruction::If(If::new(
            "result0".to_string(),
            vec![Instruction::X(Single::new("qubit0".to_string()))],
            vec![],
        ))]
    );
}

#[test]
fn instruction_with_unknown_operand_is_refused() {
    let mut module = SimpleModule::new("raw".to_string(), 1, 1).unwrap();
    let mut qis = BasicQisBuilder::new(module.builder());
    let bad = Instruction::H(Single::new("q0".to_string()));
    assert_eq!(qis.add_inst(bad), Err(Error::InvalidOperand));
    let nested = Instruction::If(If::new(
        "result0".to_string(),
        vec![],
        vec![Instruction::Z(Single::new("qubit1".to_string()))],
    ));
    assert_eq!(qis.add_inst(nested), Err(Error::InvalidOperand));
    let good = Instruction::Z(Single::new("qubit0".to_string()));
    assert_eq!(qis.add_inst(good), Ok(()));
    assert_eq!(
        qis.if_result(
            &result(0),
            vec![Instruction::H(Single::new("qubit0".to_string()))],
            vec![Instruction::H(Single::new("qubit7".to_string()))],
        ),
        Err(Error::InvalidOperand)
    );
    assert_eq!(length(&mut module), 1);
}

#[test]
fn branch_grows_while_open_and_lands_when_closed() {
    let mut module = SimpleModule::new("scope".to_string(), 1, 1).unwrap();
    let q = module.qubits().unwrap();
    let r = module.results().unwrap();
    let mut qis = BasicQisBuilder::new(module.builder());
    qis.open_branch(&r[0]).unwrap();
    qis.h(&q[0]).unwrap();
    qis.switch_branch().unwrap();
    qis.x(&q[0]).unwrap();
    qis.y(&q[0]).unwrap();
    assert_eq!(qis.builder.depth(), 1);
    assert!(qis.builder.model().instructions.is_empty());
    qis.close_branch().unwrap();
    assert_eq!(qis.builder.depth(), 0);
    assert_eq!(
        module.builder().model().instructions,
        vec![Instruction::If(If::new(
            "result0".to_string(),
            vec![Instruction::H(Single::new("qubit0".to_string()))],
            vec![
                Instruction::X(Single::new("qubit0".to_string())),
                Instruction::Y(Single::new("qubit0".to_string())),
            ],
        ))]
    );
}

#[test]
fn inner_branch_lands_in_the_body_that_was_current() {
    let mut module = SimpleModule::new("nest".to_string(), 1, 2).unwrap();
    let q = module.qubits().unwrap();
    let r = module.results().unwrap();
    let mut qis = BasicQisBuilder::new(module.builder());
    qis.open_branch(&r[0]).unwrap();
    qis.switch_branch().unwrap();
    qis.open_branch(&r[1]).unwrap();
    qis.z(&q[0]).unwrap();
    assert_eq!(qis.builder.depth(), 2);
    qis.close_branch().unwrap();
    qis.close_branch().unwrap();
    assert_eq!(
        module.builder().model().instructions,
        vec![Instruction::If(If::new(
            "result0".to_string(),
            vec![],
            vec![Instruction::If(If::new(
                "result1".to_string(),
                vec![Instruction::Z(Single::new("qubit0".to_string()))],
                vec![],
            ))],
        ))]
    );
}

#[test]
fn branch_calls_out_of_turn_are_unsupported() {
    let mut module = SimpleModule::new("turn".to_string(), 1, 1).unwrap();
    let r = module.results().unwrap();
    let mut qis = BasicQisBuilder::new(module.builder());
    assert_eq!(qis.switch_branch(), Err(Error::Unsupported));
    assert_eq!(qis.close_branch(), Err(Error::Unsupported));
    qis.open_branch(&r[0]).unwrap();
    assert_eq!(qis.switch_branch(), Ok(()));
    assert_eq!(qis.switch_branch(), Err(Error::Unsupported));
    assert_eq!(qis.builder.depth(), 1);
    assert_eq!(qis.close_branch(), Ok(()));
    assert_eq!(qis.close_branch(), Err(Error::Unsupported));
    assert_eq!(length(&mut module), 1);
}

#[test]
fn text_is_refused_while_a_branch_is_open() {
    let mut module = SimpleModule::new("open".to_string(), 1, 1).unwrap();
    let r = module.results().unwrap();
    BasicQisBuilder::new(module.builder()).open_branch(&r[0]).unwrap();
    assert_eq!(module.ir(), Err(Error::EmissionError));
    BasicQisBuilder::new(module.builder()).close_branch().unwrap();
    assert!(module.ir().is_ok());
}

#[test]
fn object_code_is_unsupported() {
    let module = SimpleModule::new("bits".to_string(), 1, 1).unwrap();
    assert_eq!(module.bitcode(), Err(Error::Unsupported));
}

#[test]
fn writer_elsewhere_shuts_everybody_out() {
    let mut module = SimpleModule::new("held".to_string(), 1, 1).unwrap();
    let q = module.qubits().unwrap();
    let r = module.results().unwrap();
    module.builder().try_borrow_mut().unwrap();
    assert_eq!(module.qubits(), Err(Error::ConcurrentAccess));
    assert_eq!(module.results(), Err(Error::ConcurrentAccess));
    assert_eq!(module.ir(), Err(Error::ConcurrentAccess));
    assert_eq!(module.builder().try_borrow(), Err(Error::ConcurrentAccess));
    assert_eq!(module.builder().try_borrow_mut(), Err(Error::ConcurrentAccess));
    {
        let mut qis = BasicQisBuilder::new(module.builder());
        assert_eq!(qis.h(&q[0]), Err(Error::ConcurrentAccess));
        assert_eq!(qis.h(&Qubit { index: 9 }), Err(Error::ConcurrentAccess));
        assert_eq!(qis.m(&q[0], &r[0]), Err(Error::ConcurrentAccess));
        assert_eq!(qis.open_branch(&r[0]), Err(Error::ConcurrentAccess));
        assert_eq!(qis.switch_branch(), Err(Error::ConcurrentAccess));
        assert_eq!(qis.close_branch(), Err(Error::ConcurrentAccess));
        assert_eq!(qis.if_result(&r[0], vec![], vec![]), Err(Error::ConcurrentAccess));
    }
    assert_eq!(length(&mut module), 0);
    module.builder().release();
    BasicQisBuilder::new(module.builder()).h(&q[0]).unwrap();
    assert_eq!(length(&mut module), 1);
    assert!(module.ir().is_ok());
}

#[test]
fn readers_elsewhere_shut_writers_out() {
    let mut module = SimpleModule::new("read".to_string(), 1, 1).unwrap();
    let q = module.qubits().unwrap();
    module.builder().try_borrow().unwrap();
    module.builder().try_borrow().unwrap();
    assert_eq!(module.qubits().unwrap().len(), 1);
    assert_eq!(module.results().unwrap().len(), 1);
    assert!(module.ir().is_ok());
    assert_eq!(module.builder().try_borrow_mut(), Err(Error::ConcurrentAccess));
    assert_eq!(
        BasicQisBuilder::new(module.builder()).x(&q[0]),
        Err(Error::ConcurrentAccess)
    );
    module.builder().release();
    assert_eq!(
        BasicQisBuilder::new(module.builder()).x(&q[0]),
        Err(Error::ConcurrentAccess)
    );
    module.builder().release();
    assert_eq!(BasicQisBuilder::new(module.builder()).x(&q[0]), Ok(()));
    module.builder().release();
    assert_eq!(BasicQisBuilder::new(module.builder()).x(&q[0]), Ok(()));
    assert_eq!(length(&mut module), 2);
}

#[test]
fn builder_alone_does_what_the_module_does() {
    let mut builder = Builder::new("alone".to_string(), 1, 1).unwrap();
    let q = builder.qubits().unwrap();
    let r = builder.results().unwrap();
    assert_eq!(builder.add_inst(Instruction::H(Single::new(q[0].id()))), Ok(()));
    assert_eq!(builder.open_branch(r[0].id()), Ok(()));
    assert_eq!(builder.open_branch("result1".to_string()), Err(Error::InvalidOperand));
    assert_eq!(builder.add_inst(Instruction::X(Single::new("qubit0".to_string()))), Ok(()));
    assert_eq!(builder.ir(), Err(Error::EmissionError));
    assert_eq!(builder.close_branch(), Ok(()));
    let text = builder.ir().unwrap();
    assert!(text.contains("then1:\n  call void @__quantum__qis__x__body(%Qubit* @qubit0)\n"));
}
