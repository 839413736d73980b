use mica::ir::analysis::{analyze_function_purity, BlockPurity};
use mica::ir::{
    align_to, BasicBlock, BlockId, EffectId, EffectTable, FuncRef, Function, InstKind, Instruction, Param,
    Terminator, Type, TypeId, TypeTable, ValueId,
};
use mica::syntax::ast::{Literal, Path, TypeExpr};

const INT: TypeId = TypeId(2);

fn inst(id: u32, ty: TypeId, effects: Vec<EffectId>, kind: InstKind) -> Instruction {
    Instruction { id: ValueId(id), ty, effects, kind }
}

fn name(n: &str) -> TypeExpr {
    TypeExpr::Name(n.to_string())
}

#[test]
fn record_layout_tracks_offsets_and_size() {
    // type Point = { x: Int, y: Int, flag: Bool }
    let mut types = TypeTable::new();
    let fields = vec![
        ("x".to_string(), name("Int")),
        ("y".to_string(), name("Int")),
        ("flag".to_string(), name("Bool")),
    ];
    let id = types.intern_record(Some("Point"), &fields);
    let point_id = types.lookup_named("Point").expect("Point type registered");
    assert_eq!(point_id, id);
    match types.get(point_id) {
        Type::Record(record) => {
            assert_eq!(record.name.as_deref(), Some("Point"));
            assert_eq!(record.fields.len(), 3);
            assert_eq!(record.fields[0].name, "x");
            assert_eq!(record.fields[0].offset, 0);
            assert_eq!(record.fields[1].name, "y");
            assert_eq!(record.fields[1].offset, 8);
            assert_eq!(record.fields[2].name, "flag");
            assert_eq!(record.fields[2].offset, 16);
            assert_eq!(record.size, 24);
            assert_eq!(record.align, 8);
        }
        other => panic!("expected record type, got {other:?}"),
    }
}

#[test]
fn record_layout_packs_small_fields_and_pads_the_end() {
    let mut types = TypeTable::new();
    let fields = vec![
        ("a".to_string(), name("Bool")),
        ("b".to_string(), name("Int")),
        ("c".to_string(), name("Bool")),
        ("d".to_string(), name("Bool")),
    ];
    let id = types.intern_record(None, &fields);
    match types.get(id) {
        Type::Record(record) => {
            let offsets: Vec<u32> = record.fields.iter().map(|f| f.offset).collect();
            assert_eq!(offsets, vec![0, 8, 16, 17]);
            assert_eq!(record.size, 24);
            assert_eq!(record.align, 8);
            assert_eq!(record.name, None);
        }
        other => panic!("expected record type, got {other:?}"),
    }
    assert_eq!(types.size_of(id), 24);
    assert_eq!(types.align_of(id), 8);
}

#[test]
fn interning_is_idempotent() {
    let mut types = TypeTable::new();
    let before = types.len();
    let a = types.intern(Type::Int);
    let b = types.intern(Type::Int);
    assert_eq!(a, b);
    assert_eq!(a, INT);
    let n1 = types.intern(Type::Named("IO".to_string()));
    let n2 = types.intern_type_expr(&name("IO"));
    assert_eq!(n1, n2);
    assert_eq!(types.len(), before + 1);
    assert_eq!(types.lookup_named("IO"), Some(n1));
    assert_eq!(types.intern_type_expr(&TypeExpr::Unit), TypeId(1));
    assert_eq!(types.get(types.unknown()), &Type::Unknown);
}

#[test]
fn effect_interning_reuses_names() {
    let mut effects = EffectTable::new();
    let io = effects.intern("io".to_string());
    let net = effects.intern("net".to_string());
    let again = effects.intern("io".to_string());
    assert_eq!(io, again);
    assert_ne!(io, net);
    assert_eq!(effects.name(net), "net");
    assert_eq!(effects.len(), 2);
}

#[test]
fn align_to_rounds_up_and_saturates() {
    assert_eq!(align_to(0, 8), 0);
    assert_eq!(align_to(1, 8), 8);
    assert_eq!(align_to(17, 8), 24);
    assert_eq!(align_to(5, 1), 5);
    assert_eq!(align_to(5, 0), 5);
    assert_eq!(align_to(u32::MAX - 2, 8), u32::MAX);
}

#[test]
fn purity_analysis_on_hand_built_functions() {
    // fn forty_two() -> Int { 42 }
    let pure_fn = Function {
        name: "forty_two".to_string(),
        params: vec![],
        ret_type: INT,
        blocks: vec![BasicBlock {
            id: BlockId(0),
            instructions: vec![inst(0, INT, vec![], InstKind::Literal(Literal::Int(42)))],
            terminator: Terminator::Return(Some(ValueId(0))),
        }],
        effect_row: vec![],
    };
    let report = analyze_function_purity(&pure_fn);
    let entry = pure_fn.blocks[0].id;
    assert!(report.is_block_pure(entry));
    assert!(report.effectful_instructions.is_empty());

    // fn main(io: IO) -> Int !{io} { helper(io) }
    let io = EffectId(0);
    let io_ty = TypeId(6);
    let impure_fn = Function {
        name: "main".to_string(),
        params: vec![Param { name: "io".to_string(), ty: io_ty, value: ValueId(0) }],
        ret_type: INT,
        blocks: vec![BasicBlock {
            id: BlockId(0),
            instructions: vec![inst(
                1,
                INT,
                vec![io],
                InstKind::Call {
                    func: FuncRef::Function(Path { segments: vec!["helper".to_string()] }),
                    args: vec![ValueId(0)],
                },
            )],
            terminator: Terminator::Return(Some(ValueId(1))),
        }],
        effect_row: vec![io],
    };
    let report = analyze_function_purity(&impure_fn);
    let entry = impure_fn.blocks[0].id;
    assert!(!report.is_block_pure(entry), "call with effects should mark block impure");
    assert!(report.effectful_instructions.iter().any(|id| {
        impure_fn
            .blocks
            .iter()
            .flat_map(|block| block.instructions.iter())
            .any(|inst| inst.id == *id && matches!(inst.kind, InstKind::Call { .. }))
    }));
    assert!(report.is_instruction_effectful(ValueId(1)));
}

#[test]
fn purity_regions_group_connected_pure_blocks() {
    // entry branches to two pure arms; the left arm calls a method, the merge is pure.
    let method_call = inst(
        1,
        INT,
        vec![],
        InstKind::Call { func: FuncRef::Method("poke".to_string()), args: vec![] },
    );
    let f = Function {
        name: "branchy".to_string(),
        params: vec![Param { name: "flag".to_string(), ty: TypeId(4), value: ValueId(0) }],
        ret_type: INT,
        blocks: vec![
            BasicBlock {
                id: BlockId(0),
                instructions: vec![],
                terminator: Terminator::Branch { condition: ValueId(0), then_block: BlockId(1), else_block: BlockId(2) },
            },
            BasicBlock { id: BlockId(1), instructions: vec![method_call], terminator: Terminator::Jump(BlockId(3)) },
            BasicBlock {
                id: BlockId(2),
                instructions: vec![inst(2, INT, vec![], InstKind::Literal(Literal::Int(2)))],
                terminator: Terminator::Jump(BlockId(3)),
            },
            BasicBlock {
                id: BlockId(3),
                instructions: vec![inst(3, INT, vec![], InstKind::Phi { incomings: vec![(BlockId(1), ValueId(1)), (BlockId(2), ValueId(2))] })],
                terminator: Terminator::Return(Some(ValueId(3))),
            },
        ],
        effect_row: vec![],
    };
    let report = analyze_function_purity(&f);
    assert!(!report.is_block_pure(BlockId(1)));
    assert!(report.is_block_pure(BlockId(0)));
    assert!(report.is_block_pure(BlockId(2)));
    assert!(report.is_block_pure(BlockId(3)));
    assert_eq!(report.effectful_instructions, vec![ValueId(1)]);
    assert_eq!(report.regions(), &vec![vec![BlockId(0), BlockId(2), BlockId(3)]]);
    assert_eq!(
        report.block_effects,
        vec![
            (BlockId(0), BlockPurity::Pure),
            (BlockId(1), BlockPurity::Effectful),
            (BlockId(2), BlockPurity::Pure),
            (BlockId(3), BlockPurity::Pure),
        ]
    );
}
