use jvm_decompiler::body::{handle_parameters, stack_to_vars, transform, rewrite_block};
use jvm_decompiler::cfg::{BasicBlock, Cfg};
use jvm_decompiler::error::{InstructionKind, TransformError};
use jvm_decompiler::expr::{Assignable, BinOp, Expr, Relation, Statement};
use jvm_decompiler::instructions::{
    Arithm, BinaryOp, Instruction, Invoke, InvokeKind, JumpCondition, LValue, RValue, ValueKind,
};
use jvm_decompiler::stack_to_var::StackLayout;
use jvm_decompiler::types::{
    ClassRef, Literal, MethodRef, Modifier, Signature, Type, UnitType,
};
use jvm_decompiler::unit::{CompilationUnit, Declaration, Field, Metadata, Method};

type Code = Cfg<Instruction, JumpCondition>;

fn target(name: &str) -> Assignable {
    Assignable::Variable(name.to_string(), 0)
}

fn var(name: &str) -> Expr {
    Expr::Assignable(Box::new(target(name)))
}

fn assign(to: Assignable, from: Expr) -> Statement {
    Statement::Expr(Expr::Assign { to: Box::new(to), op: None, from: Box::new(from) })
}

fn load_local(i: usize) -> Instruction {
    Instruction::Load(RValue::LValue(LValue::Local(i)))
}

fn load_int(i: i32) -> Instruction {
    Instruction::Load(RValue::Constant(Literal::Integer(i)))
}

fn store_local(i: usize) -> Instruction {
    Instruction::Store(LValue::Local(i))
}

fn block(stmts: Vec<Instruction>) -> BasicBlock<Instruction, JumpCondition> {
    BasicBlock { stmts, terminator: None }
}

fn branch(stmts: Vec<Instruction>, condition: JumpCondition) -> BasicBlock<Instruction, JumpCondition> {
    BasicBlock { stmts, terminator: Some(condition) }
}

fn empty() -> BasicBlock<Statement, Expr> {
    BasicBlock { stmts: vec![], terminator: None }
}

fn graph(blocks: Vec<BasicBlock<Instruction, JumpCondition>>, entry: usize, edges: &[(usize, usize)]) -> Code {
    let exit = blocks.len() - 1;
    let mut cfg = Cfg::new(blocks, entry, exit).unwrap();
    for (from, to) in edges.iter() {
        assert!(cfg.add_edge(*from, *to));
    }
    cfg
}

fn add_body() -> Code {
    graph(
        vec![block(vec![
            load_local(0),
            load_local(1),
            Instruction::Arithm(Arithm::BinaryOp(BinaryOp::Add)),
            Instruction::Return(Some(ValueKind::Int)),
        ])],
        0,
        &[],
    )
}

fn add_statements() -> Vec<Statement> {
    vec![
        assign(target("stack_0"), var("local_0")),
        assign(target("stack_1"), var("local_1")),
        assign(
            target("stack_0"),
            Expr::BinaryOp(BinOp::Add, Box::new(var("stack_0")), Box::new(var("stack_1"))),
        ),
        Statement::Return(Some(var("stack_0"))),
    ]
}

fn int_int_to_int() -> Signature {
    Signature { parameters: vec![Type::Int, Type::Int], return_type: Type::Int }
}

fn this_binding() -> Statement {
    assign(target("local_0"), Expr::This)
}

#[test]
fn block_is_rewritten_from_its_entry_depth() {
    let source = branch(
        vec![load_local(4), load_int(9)],
        JumpCondition::Compare(Relation::Less),
    );
    let (rewritten, exit) = rewrite_block(&source, StackLayout(2), &Metadata::new()).unwrap();
    assert_eq!(
        rewritten,
        BasicBlock {
            stmts: vec![
                assign(target("stack_2"), var("local_4")),
                assign(target("stack_3"), Expr::Literal(Literal::Integer(9))),
            ],
            terminator: Some(Expr::BinaryOp(
                BinOp::Compare(Relation::Less),
                Box::new(var("stack_2")),
                Box::new(var("stack_3"))
            )),
        }
    );
    assert_eq!(exit, StackLayout(2));
}

#[test]
fn block_stops_at_the_first_failing_instruction() {
    let source = block(vec![
        load_local(0),
        Instruction::Throw,
        Instruction::Store(LValue::Local(0)),
        Instruction::Store(LValue::Local(0)),
    ]);
    assert_eq!(
        rewrite_block(&source, StackLayout(0), &Metadata::new()),
        Err(TransformError::Unsupported(InstructionKind::Throw))
    );
    let starved = branch(vec![], JumpCondition::CompareZero(Relation::Equal));
    assert_eq!(
        rewrite_block(&starved, StackLayout(0), &Metadata::new()),
        Err(TransformError::StackUnderflow)
    );
}

#[test]
fn static_add_method_end_to_end() {
    let out = transform(add_body(), &Metadata::new()).unwrap();
    assert_eq!(out.blocks, vec![BasicBlock { stmts: add_statements(), terminator: None }]);
    assert_eq!(out.entry_point, 0);
    assert_eq!(out.exit_point, 0);

    let mut method = Method {
        modifiers: vec![Modifier::Public, Modifier::Static],
        name: "add".to_string(),
        signature: int_int_to_int(),
        parameter_names: vec![],
        code: Some(out),
    };
    handle_parameters(&mut method);
    assert_eq!(method.parameter_names, vec!["local_0".to_string(), "local_1".to_string()]);
    assert_eq!(method.signature, int_int_to_int());
    assert_eq!(method.name, "add");
    assert_eq!(
        method.code.unwrap().blocks,
        vec![BasicBlock { stmts: add_statements(), terminator: None }]
    );
}

#[test]
fn instance_method_binds_this_first() {
    let out = transform(add_body(), &Metadata::new()).unwrap();
    let mut method = Method {
        modifiers: vec![Modifier::Public, Modifier::Final],
        name: "add".to_string(),
        signature: int_int_to_int(),
        parameter_names: vec![],
        code: Some(out),
    };
    handle_parameters(&mut method);
    assert_eq!(method.parameter_names, vec!["local_1".to_string(), "local_2".to_string()]);
    let mut expected = vec![this_binding()];
    expected.extend(add_statements());
    assert_eq!(
        method.code.unwrap().blocks,
        vec![BasicBlock { stmts: expected, terminator: None }]
    );
}

#[test]
fn this_is_bound_in_the_entry_block_only() {
    let blocks = vec![
        BasicBlock { stmts: vec![Statement::Return(None)], terminator: None },
        BasicBlock {
            stmts: vec![assign(target("stack_0"), var("local_1"))],
            terminator: Some(Expr::This),
        },
    ];
    let mut cfg = Cfg::new(blocks, 1, 0).unwrap();
    assert!(cfg.add_edge(1, 0));
    let mut method = Method {
        modifiers: vec![],
        name: "m".to_string(),
        signature: Signature { parameters: vec![Type::Long], return_type: Type::Void },
        parameter_names: vec!["old".to_string(), "names".to_string()],
        code: Some(cfg),
    };
    handle_parameters(&mut method);
    assert_eq!(method.parameter_names, vec!["local_1".to_string()]);
    let code = method.code.unwrap();
    assert_eq!(
        code.blocks,
        vec![
            BasicBlock { stmts: vec![Statement::Return(None)], terminator: None },
            BasicBlock {
                stmts: vec![this_binding(), assign(target("stack_0"), var("local_1"))],
                terminator: Some(Expr::This),
            },
        ]
    );
    assert_eq!(code.successors_of(1), vec![0]);
    assert_eq!(code.entry_point, 1);
}

#[test]
fn method_without_a_body_gets_names_only() {
    let mut abstract_method: Method<Cfg<Statement, Expr>> = Method {
        modifiers: vec![Modifier::Abstract],
        name: "m".to_string(),
        signature: Signature {
            parameters: vec![Type::Int, Type::Int, Type::Int],
            return_type: Type::Void,
        },
        parameter_names: vec![],
        code: None,
    };
    handle_parameters(&mut abstract_method);
    assert_eq!(
        abstract_method.parameter_names,
        vec!["local_1".to_string(), "local_2".to_string(), "local_3".to_string()]
    );
    assert!(abstract_method.code.is_none());
    assert_eq!(abstract_method.modifiers, vec![Modifier::Abstract]);
}

#[test]
fn merge_with_equal_depths() {
    // 0 -> 1, 0 -> 2, 1 -> 3, 2 -> 3: both arms leave one value for block 3.
    let cfg = graph(
        vec![
            branch(vec![load_local(0)], JumpCondition::CompareZero(Relation::Equal)),
            block(vec![load_int(1)]),
            block(vec![load_int(2)]),
            block(vec![Instruction::Return(Some(ValueKind::Int))]),
        ],
        0,
        &[(0, 1), (0, 2), (1, 3), (2, 3)],
    );
    let out = transform(cfg, &Metadata::new()).unwrap();
    assert_eq!(
        out.blocks,
        vec![
            BasicBlock {
                stmts: vec![assign(target("stack_0"), var("local_0"))],
                terminator: Some(Expr::BinaryOp(
                    BinOp::Compare(Relation::Equal),
                    Box::new(var("stack_0")),
                    Box::new(Expr::Literal(Literal::Integer(0)))
                )),
            },
            BasicBlock {
                stmts: vec![assign(target("stack_0"), Expr::Literal(Literal::Integer(1)))],
                terminator: None
            },
            BasicBlock {
                stmts: vec![assign(target("stack_0"), Expr::Literal(Literal::Integer(2)))],
                terminator: None
            },
            BasicBlock { stmts: vec![Statement::Return(Some(var("stack_0")))], terminator: None },
        ]
    );
    assert_eq!(out.successors_of(0), vec![2, 1]);
    assert_eq!(out.successors_of(1), vec![3]);
    assert_eq!(out.successors_of(2), vec![3]);
    assert_eq!(out.successors_of(3), Vec::<usize>::new());
}

#[test]
fn merge_with_different_depths_names_the_block() {
    // Block 1 leaves one value, block 2 leaves two; both lead to block 3.
    let cfg = graph(
        vec![
            block(vec![]),
            block(vec![load_int(1)]),
            block(vec![load_int(1), load_int(2)]),
            block(vec![Instruction::Nop]),
        ],
        0,
        &[(0, 1), (0, 2), (1, 3), (2, 3)],
    );
    match transform(cfg, &Metadata::new()) {
        Err(TransformError::DepthMismatch { block, expected, found }) => {
            assert_eq!(block, 3);
            assert_ne!(expected, found);
            let mut depths = vec![expected, found];
            depths.sort();
            assert_eq!(depths, vec![1, 2]);
        }
        other => panic!("expected a depth mismatch, got {:?}", other.map(|cfg| cfg.blocks)),
    }
}

#[test]
fn loop_that_grows_the_stack_is_a_mismatch_at_its_head() {
    let cfg = graph(vec![block(vec![load_int(1)])], 0, &[(0, 0)]);
    assert_eq!(
        transform(cfg, &Metadata::new()).map(|cfg| cfg.blocks),
        Err(TransformError::DepthMismatch { block: 0, expected: 1, found: 0 })
    );
}

#[test]
fn balanced_loop_is_accepted() {
    let cfg = graph(
        vec![
            block(vec![load_int(0), store_local(1)]),
            branch(vec![load_local(1)], JumpCondition::CompareZero(Relation::GreaterOrEqual)),
            block(vec![Instruction::Arithm(Arithm::IncreaseLocal { local_index: 1, increase: 1 })]),
            block(vec![Instruction::Return(None)]),
        ],
        0,
        &[(0, 1), (1, 2), (1, 3), (2, 1)],
    );
    let out = transform(cfg, &Metadata::new()).unwrap();
    assert_eq!(
        out.blocks[1],
        BasicBlock {
            stmts: vec![assign(target("stack_0"), var("local_1"))],
            terminator: Some(Expr::BinaryOp(
                BinOp::Compare(Relation::GreaterOrEqual),
                Box::new(var("stack_0")),
                Box::new(Expr::Literal(Literal::Integer(0)))
            )),
        }
    );
    assert_eq!(
        out.blocks[2].stmts,
        vec![assign(
            target("local_1"),
            Expr::BinaryOp(
                BinOp::Add,
                Box::new(var("local_1")),
                Box::new(Expr::Literal(Literal::Integer(1)))
            )
        )]
    );
    assert_eq!(out.blocks[3].stmts, vec![Statement::Return(None)]);
}

#[test]
fn depth_is_handed_on_to_successors() {
    let cfg = graph(
        vec![
            block(vec![load_int(5), load_int(6)]),
            block(vec![load_int(7)]),
            block(vec![store_local(0)]),
        ],
        0,
        &[(0, 1), (1, 2)],
    );
    let out = transform(cfg, &Metadata::new()).unwrap();
    assert_eq!(
        out.blocks[1].stmts,
        vec![assign(target("stack_2"), Expr::Literal(Literal::Integer(7)))]
    );
    assert_eq!(out.blocks[2].stmts, vec![assign(target("local_0"), var("stack_2"))]);
}

#[test]
fn walk_starts_at_the_entry_block() {
    let cfg = graph(
        vec![block(vec![store_local(0)]), block(vec![load_int(3)])],
        1,
        &[(1, 0)],
    );
    let out = transform(cfg, &Metadata::new()).unwrap();
    assert_eq!(
        out.blocks,
        vec![
            BasicBlock { stmts: vec![assign(target("local_0"), var("stack_0"))], terminator: None },
            BasicBlock {
                stmts: vec![assign(target("stack_0"), Expr::Literal(Literal::Integer(3)))],
                terminator: None
            },
        ]
    );
    assert_eq!(out.entry_point, 1);
}

#[test]
fn unreachable_block_is_left_empty() {
    let cfg = graph(
        vec![
            block(vec![Instruction::Return(None)]),
            block(vec![Instruction::Throw, store_local(0)]),
        ],
        0,
        &[(1, 0)],
    );
    let out = transform(cfg, &Metadata::new()).unwrap();
    assert_eq!(
        out.blocks,
        vec![BasicBlock { stmts: vec![Statement::Return(None)], terminator: None }, empty()]
    );
    assert_eq!(out.successors_of(1), vec![0]);
}

#[test]
fn failure_in_a_reachable_block_is_reported() {
    let cfg = graph(
        vec![block(vec![load_int(1)]), block(vec![store_local(0), store_local(1)])],
        0,
        &[(0, 1)],
    );
    assert_eq!(
        transform(cfg, &Metadata::new()).map(|cfg| cfg.blocks),
        Err(TransformError::StackUnderflow)
    );
    let unsupported = graph(vec![block(vec![]), block(vec![Instruction::Throw])], 0, &[(0, 1)]);
    assert_eq!(
        transform(unsupported, &Metadata::new()).map(|cfg| cfg.blocks),
        Err(TransformError::Unsupported(InstructionKind::Throw))
    );
}

#[test]
fn invocation_inside_a_body() {
    let mut metadata = Metadata::new();
    metadata.class_refs.insert(1, ClassRef("p/Owner".to_string()));
    let callee = || MethodRef {
        class_ref: 1,
        name: "twice".to_string(),
        signature: Signature { parameters: vec![Type::Int], return_type: Type::Int },
    };
    metadata.method_refs.insert(2, callee());
    let cfg = graph(
        vec![block(vec![
            load_local(0),
            load_local(1),
            Instruction::Invoke(Invoke { method_index: 2, kind: InvokeKind::Virtual }),
            Instruction::Return(Some(ValueKind::Int)),
        ])],
        0,
        &[],
    );
    let out = transform(cfg, &metadata).unwrap();
    assert_eq!(
        out.blocks[0].stmts,
        vec![
            assign(target("stack_0"), var("local_0")),
            assign(target("stack_1"), var("local_1")),
            assign(
                target("stack_0"),
                Expr::Invoke(
                    Some(Box::new(var("stack_0"))),
                    callee(),
                    ClassRef("p/Owner".to_string()),
                    vec![var("stack_1")]
                )
            ),
            Statement::Return(Some(var("stack_0"))),
        ]
    );
}

fn unit_of(declarations: Vec<Declaration<Code>>) -> CompilationUnit<Code> {
    let mut metadata = Metadata::new();
    metadata.string_constants.insert(1, "kept".to_string());
    CompilationUnit {
        typ: UnitType::Enum,
        modifiers: vec![Modifier::Public, Modifier::Final],
        declarations,
        metadata,
    }
}

fn method(name: &str, modifiers: Vec<Modifier>, code: Option<Code>) -> Declaration<Code> {
    Declaration::Method(Method {
        modifiers,
        name: name.to_string(),
        signature: int_int_to_int(),
        parameter_names: vec![],
        code,
    })
}

#[test]
fn every_method_of_a_unit_is_rewritten() {
    let field = || Field { modifiers: vec![Modifier::Private], name: "f".to_string(), typ: Type::Int };
    let unit = unit_of(vec![
        method("add", vec![Modifier::Static], Some(add_body())),
        Declaration::Field(field()),
        method("plus", vec![], Some(add_body())),
        method("open", vec![Modifier::Abstract], None),
    ]);
    let out = stack_to_vars(unit).unwrap();
    assert_eq!(out.typ, UnitType::Enum);
    assert_eq!(out.modifiers, vec![Modifier::Public, Modifier::Final]);
    assert_eq!(out.metadata.string_constants.get(&1), Some(&"kept".to_string()));
    assert_eq!(out.declarations.len(), 4);
    match &out.declarations[0] {
        Declaration::Method(m) => {
            assert_eq!(m.name, "add");
            assert_eq!(m.modifiers, vec![Modifier::Static]);
            assert_eq!(m.parameter_names, vec!["local_0".to_string(), "local_1".to_string()]);
            assert_eq!(m.code.as_ref().unwrap().blocks[0].stmts, add_statements());
        }
        other => panic!("unexpected declaration {:?}", other),
    }
    match &out.declarations[1] {
        Declaration::Field(f) => assert_eq!(*f, field()),
        other => panic!("unexpected declaration {:?}", other),
    }
    match &out.declarations[2] {
        Declaration::Method(m) => {
            assert_eq!(m.name, "plus");
            assert_eq!(m.parameter_names, vec!["local_1".to_string(), "local_2".to_string()]);
            let mut expected = vec![this_binding()];
            expected.extend(add_statements());
            assert_eq!(m.code.as_ref().unwrap().blocks[0].stmts, expected);
        }
        other => panic!("unexpected declaration {:?}", other),
    }
    match &out.declarations[3] {
        Declaration::Method(m) => {
            assert_eq!(m.name, "open");
            assert_eq!(m.parameter_names, vec!["local_1".to_string(), "local_2".to_string()]);
            assert!(m.code.is_none());
        }
        other => panic!("unexpected declaration {:?}", other),
    }
}

#[test]
fn first_body_that_fails_stops_the_unit() {
    let unit = unit_of(vec![
        method("add", vec![Modifier::Static], Some(add_body())),
        method("bad", vec![], Some(graph(vec![block(vec![store_local(0)])], 0, &[]))),
        method("worse", vec![], Some(graph(vec![block(vec![Instruction::Throw])], 0, &[]))),
    ]);
    assert_eq!(
        stack_to_vars(unit).map(|unit| unit.declarations.len()),
        Err(TransformError::StackUnderflow)
    );
}

#[test]
fn unit_without_declarations() {
    let out = stack_to_vars(unit_of(vec![])).unwrap();
    assert_eq!(out.declarations.len(), 0);
    assert_eq!(out.typ, UnitType::Enum);
}
