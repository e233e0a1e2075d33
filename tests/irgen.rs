use mamba::codegen::llvm::types::{cast, infix_op, unary_op};
use mamba::codegen::llvm::{generate_expr, GlobalContext, IRGen, ScopedContext};
use mamba::error::IRGenError;
use mamba::irgen::block::Block;
use mamba::irgen::instruction::{Condition, Instruction, Operand, Register, Value};
use mamba::lexer::Lexer;
use mamba::parser::{Operator, Parser, Statement};
use mamba::types::{DataType, SignedInteger, UnsignedInteger};

fn compile(source: &str) -> Result<String, IRGenError> {
    let mut lexer = Lexer::new(source.into());
    let tokens = lexer.get_tokens().unwrap();
    let mut parser = Parser::new(tokens);
    let ast = parser.parse_all().unwrap();
    let mut irgen = IRGen::new(ast);
    irgen.generate_ir()
}

fn position(haystack: &str, needle: &str) -> usize {
    haystack.find(needle).unwrap_or_else(|| panic!("`{}` not found in:\n{}", needle, haystack))
}

const I32: DataType = DataType::SignedInteger(SignedInteger::i32);
const I64: DataType = DataType::SignedInteger(SignedInteger::i64);

#[test]
fn test_instruction() {
    let operands: Vec<Operand> = vec![
        Operand::Value(Value::i32(123)),
        Operand::Register(Register("a".into())),
    ];

    let instruction = Instruction {
        opcode: "icmp eq".into(),
        operands,
    };

    assert_eq!(instruction.to_string(), "icmp eq i32 123, %a");
}

#[test]
fn test_block() {
    let instructions = vec![Instruction {
        opcode: "icmp eq".into(),
        operands: vec![
            Operand::Value(Value::i32(123)),
            Operand::Register(Register("a".into())),
        ],
    }, Instruction {
        opcode: "icmp ne".into(),
        operands: vec![
            Operand::Value(Value::i32(123)),
            Operand::Register(Register("a".into())),
        ],
    }, Instruction {
        opcode: "icmp ugt".into(),
        operands: vec![
            Operand::Value(Value::i32(123)),
            Operand::Register(Register("a".into())),
        ],
    }];

    let block = Block {
        name: "block".into(),
        instructions: Vec::new(),
    };

    println!("{}", block.to_string());
    assert_eq!(block.to_string(), ":block\n");

    let filled = Block {
        name: "block".into(),
        instructions: instructions.iter().map(|i| i.to_string()).collect(),
    };
    assert_eq!(filled.to_string(), ":block\nicmp eq i32 123, %a\nicmp ne i32 123, %a\nicmp ugt i32 123, %a");
}

#[test]
fn instruction_operands_render() {
    assert_eq!(Value::i8(-5).to_string(), "i8 -5");
    assert_eq!(Value::i64(i64::MAX).to_string(), "i64 9223372036854775807");
    assert_eq!(Operand::Condition(Condition::Uge).to_string(), "uge");
    assert_eq!(Condition::Sle.as_str(), "sle");
    let ins = Instruction { opcode: "ret".into(), operands: vec![] };
    assert_eq!(ins.to_string(), "ret ");
}

#[test]
fn test_expr_gen() {
    let code = "1 + 2 == 3;";
    let mut lexer = Lexer::new(code.into());
    let tokens = lexer.get_tokens().unwrap();
    let mut parser = Parser::new(tokens);
    let ast = parser.parse_all().unwrap();
    let expr = match &ast[0] {
        Statement::Expression(s) => &s.expr,
        _ => panic!("expression statement expected"),
    };
    let mut ctx = GlobalContext::new();
    let mut scopes: Vec<ScopedContext> = Vec::new();
    let (code, value, dtype) = generate_expr(&mut ctx, &mut scopes, expr).unwrap();
    println!("{}", code);
    assert_eq!(code, "%0 = alloca i32, align 4\nstore i32 1, ptr %0, align 4\n%1 = load i32, ptr %0, align 4\n\
%2 = alloca i32, align 4\nstore i32 2, ptr %2, align 4\n%3 = load i32, ptr %2, align 4\n\
%4 = add nsw i32 %1, %3\n\
%5 = alloca i32, align 4\nstore i32 3, ptr %5, align 4\n%6 = load i32, ptr %5, align 4\n\
%7 = icmp eq i32 %4, %6\n");
    assert_eq!(value, "%7");
    assert_eq!(dtype, DataType::bool);
}

#[test]
fn ir_global_variables() {
    let ir = compile("let x: i32 = 7;").unwrap();
    assert!(ir.contains("@x = global i32 7\n"));
    let ir = compile("let s: str = \"hi\";\nlet big: i64 = 9;").unwrap();
    assert!(ir.contains("@s = private unnamed_addr constant [3 x i8] c\"hi\\00\"\n"));
    assert!(ir.contains("@big = global i64 9\n"));
}

#[test]
fn ir_width_promotion() {
    let ir = compile("def f(a: i32) -> i64:\n    let b: i64 = 5;\n    return a + b;\n").unwrap();
    let zext = position(&ir, "zext i32 %a to i64");
    let add = position(&ir, "add nsw i64");
    assert!(zext < add);
    assert!(ir.contains("define i64 @f(i32 %a) {\n"));
    assert!(ir.contains("%b = alloca i64, align 4\nstore i64 5, ptr %b, align 4\n"));
    assert!(ir.contains("%0 = load i64, ptr %b, align 4\n%1 = zext i32 %a to i64\n%2 = add nsw i64 %1, %0\nret i64 %2\n"));
}

#[test]
fn ir_branching() {
    let ir = compile("def f(x: i32) -> i32:\n    if x == 0:\n        return 1;\n    else:\n        return 2;\n").unwrap();
    let icmp = position(&ir, "icmp eq");
    let br = position(&ir, "br i1 %4, label %l0, label %l1\n");
    let then_block = position(&ir, "l0:\n");
    let first_ret = position(&ir, "ret i32 %6");
    let else_block = position(&ir, "l1:\n");
    let second_ret = position(&ir, "ret i32 %8");
    assert!(icmp < br && br < then_block && then_block < first_ret);
    assert!(first_ret < else_block && else_block < second_ret);
}

#[test]
fn ir_while_loop() {
    let ir = compile("extern tick() -> i32;\ndef f(n: i32) -> i32:\n    while n > 0:\n        tick();\n    return n;\n").unwrap();
    assert!(ir.contains("declare i32 @tick() nounwind\n"));
    let expected = "br label %l0\nl0:\n%3 = alloca i32, align 4\nstore i32 0, ptr %3, align 4\n%4 = load i32, ptr %3, align 4\n\
%5 = icmp sgt i32 %n, %4\nbr i1 %5, label %l1, label %l2\nl1:\n%6 = call i32 @tick()\nbr label %l0\nl2:\nret i32 %n\n";
    assert!(ir.contains(expected), "{}", ir);
}

#[test]
fn ir_calls_and_returns_cast() {
    let ir = compile("extern put(c: i64, d: i8) -> i64;\ndef f(a: i64) -> i32:\n    return put(a, 1);\n").unwrap();
    assert!(ir.contains("declare i64 @put(i64, i8) nounwind\n"));
    assert!(ir.contains("%2 = call i64 @put(i64 %a, i32 %1)\n%3 = trunc i64 %2 to i32\nret i32 %3\n"), "{}", ir);
}

#[test]
fn ir_unknown_function_fails() {
    match compile("def f() -> i32:\n    return g();\n") {
        Err(IRGenError::UnknownFunction(name)) => assert_eq!(name, "g"),
        _ => panic!("unknown function expected"),
    }
}

#[test]
fn ir_unknown_identifier_fails() {
    assert!(matches!(compile("def f() -> i32:\n    return y;\n"), Err(IRGenError::UnknownIdentifier(_))));
}

#[test]
fn ir_illegal_statements_fail() {
    assert!(matches!(compile("return 1;"), Err(IRGenError::IllegalTopLevel)));
    assert!(matches!(compile("def f() -> i32:\n    extern g() -> i32;\n"), Err(IRGenError::IllegalLocal)));
    assert!(matches!(compile("let x: i32 = 1 + 2;"), Err(IRGenError::NotConstant)));
}

#[test]
fn cast_table_entries() {
    let mut ctx = GlobalContext::new();
    let (v, code, t) = cast(&mut ctx, I32, I64, "%x").unwrap();
    assert_eq!((v.as_str(), code.as_str(), t), ("%0", "%0 = zext i32 %x to i64\n", I64));
    let (v, code, _) = cast(&mut ctx, I64, DataType::SignedInteger(SignedInteger::i8), "%y").unwrap();
    assert_eq!((v.as_str(), code.as_str()), ("%1", "%1 = trunc i64 %y to i8\n"));
    let u32t = DataType::UnsignedInteger(UnsignedInteger::u32);
    let (v, code, t) = cast(&mut ctx, I32, u32t, "%z").unwrap();
    assert_eq!((v.as_str(), code.as_str(), t), ("%z", "", u32t));
    assert!(matches!(cast(&mut ctx, I32, I32, "%z"), Err(IRGenError::BadCast)));
    assert!(matches!(cast(&mut ctx, DataType::str, I32, "%z"), Err(IRGenError::BadCast)));
    assert_eq!(ctx.label_idx, 2);
}

#[test]
fn operator_table_entries() {
    let mut ctx = GlobalContext::new();
    let u8t = DataType::UnsignedInteger(UnsignedInteger::u8);
    assert_eq!(unary_op(&mut ctx, I32, Operator::UnaryMinus, "%a").unwrap(), ("%0".to_string(), "%0 = sub nsw i32 0, %a\n".to_string()));
    assert_eq!(unary_op(&mut ctx, u8t, Operator::BitwiseNot, "%b").unwrap(), ("%1".to_string(), "%1 = xor i8 %b, -1\n".to_string()));
    assert_eq!(unary_op(&mut ctx, I32, Operator::UnaryPlus, "%c").unwrap(), ("%c".to_string(), String::new()));
    assert!(unary_op(&mut ctx, u8t, Operator::UnaryMinus, "%d").is_err());
    assert_eq!(infix_op(&mut ctx, I64, Operator::Divide, "%e", "%f").unwrap(), ("%2".to_string(), "%2 = sdiv i64 %e, %f\n".to_string()));
    assert_eq!(infix_op(&mut ctx, I32, Operator::LessEqual, "%g", "%h").unwrap(), ("%3".to_string(), "%3 = icmp sle i32 %g, %h\n".to_string()));
    assert_eq!(infix_op(&mut ctx, u8t, Operator::RightShift, "%i", "%j").unwrap(), ("%4".to_string(), "%4 = ashr i8 %i, %j\n".to_string()));
    assert!(infix_op(&mut ctx, DataType::bool, Operator::Plus, "%k", "%l").is_err());
    assert_eq!(ctx.label_idx, 5);
}

#[test]
fn labels_are_fresh() {
    let mut ctx = GlobalContext::new();
    let a = ctx.get_label().unwrap();
    let b = ctx.get_label().unwrap();
    assert_eq!((a, b), (0, 1));
    ctx.label_idx = u64::MAX;
    assert!(matches!(ctx.get_label(), Err(IRGenError::LabelOverflow)));
}

#[test]
fn ir_prelude_and_mnemonics() {
    let ir = compile("").unwrap();
    assert_eq!(ir, "; ModuleID = 'mamba'\nsource_filename = \"mamba\"\n\n");
    assert_eq!(DataType::str.to_mnemonic(), "i8*");
    assert_eq!(DataType::UnsignedInteger(UnsignedInteger::u128).to_mnemonic(), "i128");
    assert_eq!(DataType::bool.to_mnemonic(), "i1");
}

#[test]
fn ssa_values_defined_once() {
    let source = "extern put(c: i32) -> i32;\nlet g: i32 = 3;\n\
def f(a: i32, b: i64) -> i64:\n    let x: i32 = 2;\n    while a < x + g:\n        put(a * 2 - ~x);\n    \
if a == 1:\n        return b + 1;\n    elif a != 2:\n        return -b;\n    else:\n        return a << 2;\n\
def h() -> i32:\n    return put(f(1, 2));\n";
    let ir = compile(source).unwrap();
    let mut seen = std::collections::HashSet::new();
    for line in ir.lines() {
        if let Some(rest) = line.strip_prefix('%') {
            if let Some((name, _)) = rest.split_once(" = ") {
                if name.chars().all(|c| c.is_ascii_digit()) {
                    assert!(seen.insert(name.to_string()), "%{} defined twice in:\n{}", name, ir);
                }
            }
        }
    }
    assert!(seen.len() > 20);
}

#[test]
fn string_constants_count_utf8_bytes() {
    let ir = compile("let s: str = \"é!\";").unwrap();
    assert!(ir.contains("@s = private unnamed_addr constant [4 x i8] c\"é!\\00\"\n"), "{}", ir);
}

#[test]
fn ir_error_kinds() {
    assert!(matches!(compile("def f() -> i32:\n    return y + g();\n"), Err(IRGenError::UnknownIdentifier(n)) if n == "y"));
    assert!(matches!(compile("def f() -> i32:\n    let s: str = \"a\";\n    return s;\n"), Err(IRGenError::BadCast)));
    assert!(matches!(compile("def f() -> i32:\n    if 1:\n        return 1;\n"), Err(IRGenError::UnsupportedOperation)));
}
