use lox::ast::expr::{BinaryOp, UnaryOp};
use lox::bytecode::codec::{get_bytes, Decode, DecoderError, DecoderErrorDetail, Encode};
use lox::bytecode::executor::{execute_operation, ExecutorError, OperationExecutor};
use lox::runtime::error::RuntimeError;
use lox::bytecode::operation::{decode_all, encode_all, Operation};
use lox::bytecode::string::{StringIntern, StringSymbol};
use lox::bytecode::writer::OpWriter;
use lox::naming::camel_to_snake;
use lox::runtime::value::Number;

fn number(x: f64) -> Number {
    Number { bits: x.to_bits() }
}

#[test]
fn encode_operations() {
    let operations = [
        Operation::LoadNumber(number(1.)),
        Operation::LoadBool(true),
        Operation::LoadString(StringSymbol(1)),
        Operation::LoadNil,
        Operation::LoadNil,
        Operation::Negative,
        Operation::Not,
        Operation::Plus,
        Operation::Minus,
        Operation::Multiply,
        Operation::Divide,
        Operation::And,
        Operation::Or,
        Operation::Greater,
        Operation::GreaterEqual,
        Operation::Less,
        Operation::LessEqual,
        Operation::Equal,
        Operation::NotEqual,
    ];

    let mut writer = OpWriter::new();
    encode_all(operations.as_slice(), &mut writer);
    assert_eq!(
        writer.flush(),
        [0].into_iter()
            .chain(1f64.to_le_bytes())
            .chain([2, 1])
            .chain([1])
            .chain(1u32.to_le_bytes())
            .chain([3, 3])
            .chain(4..=17)
            .collect::<Vec<u8>>()
    );
}

#[test]
fn operations_are_read_back() {
    let operations = vec![
        Operation::LoadString(StringSymbol(0x01020304)),
        Operation::LoadNumber(number(-2.5)),
        Operation::LoadBool(false),
        Operation::NotEqual,
        Operation::LoadNil,
    ];
    let mut writer = OpWriter::new();
    encode_all(operations.as_slice(), &mut writer);
    let bytes = writer.flush();
    assert_eq!(bytes[..5], [1, 4, 3, 2, 1]);
    assert_eq!(decode_all(&bytes), Ok(operations));
    assert_eq!(writer.flush(), Vec::<u8>::new());
}

#[test]
fn decoder_errors() {
    assert_eq!(
        decode_all(&[3, 0, 1, 2]),
        Err(DecoderError {
            pos: 1,
            error: DecoderErrorDetail::NoEnoughData { expected: 8, rem: 2 }
        })
    );
    assert_eq!(
        decode_all(&[2, 7]),
        Err(DecoderError { pos: 0, error: DecoderErrorDetail::InvalidBool(7) })
    );
    assert_eq!(
        decode_all(&[4, 18]),
        Err(DecoderError { pos: 1, error: DecoderErrorDetail::InvalidOperation(18) })
    );
    assert_eq!(
        DecoderError::from_detail(3, DecoderErrorDetail::InvalidBool(2)),
        DecoderError { pos: 3, error: DecoderErrorDetail::InvalidBool(2) }
    );
}

#[test]
fn operands() {
    assert_eq!(<bool as Decode>::decode(&[1, 9]), Ok((true, 1)));
    assert_eq!(<bool as Decode>::decode(&[0]), Ok((false, 1)));
    assert_eq!(
        <bool as Decode>::decode(&[]),
        Err(DecoderErrorDetail::NoEnoughData { expected: 1, rem: 0 })
    );
    assert_eq!(<u32 as Decode>::decode(&[1, 0, 0, 0, 5]), Ok((1, 4)));
    assert_eq!(
        <Number as Decode>::decode(&1.5f64.to_le_bytes()),
        Ok((number(1.5), 8))
    );
    assert_eq!(<StringSymbol as Decode>::decode(&[2, 1, 0, 0]), Ok((StringSymbol(258), 4)));
    assert_eq!(get_bytes(&[1, 2, 3], 2), Ok(&[1u8, 2][..]));
    assert_eq!(
        get_bytes(&[1, 2, 3], 4),
        Err(DecoderErrorDetail::NoEnoughData { expected: 4, rem: 3 })
    );
    let mut writer = OpWriter::new();
    true.encode(&mut writer);
    258u32.encode(&mut writer);
    StringSymbol(1).encode(&mut writer);
    assert_eq!(writer.flush(), vec![1, 2, 1, 0, 0, 1, 0, 0, 0]);
    assert_eq!(StringSymbol(7).index(), 7);
}

#[test]
fn operators_become_operations() {
    assert_eq!(Operation::from_binary(BinaryOp::Plus), Operation::Plus);
    assert_eq!(Operation::from_binary(BinaryOp::LessEqual), Operation::LessEqual);
    assert_eq!(Operation::from_binary(BinaryOp::And), Operation::And);
    assert_eq!(Operation::from_unary(UnaryOp::Negative), Operation::Negative);
    assert_eq!(Operation::from_unary(UnaryOp::Not), Operation::Not);
}

#[test]
fn interning() {
    let mut strings = StringIntern::new();
    assert_eq!(strings.intern("a"), StringSymbol(0));
    assert_eq!(strings.intern("b"), StringSymbol(1));
    assert_eq!(strings.intern("a"), StringSymbol(0));
    assert_eq!(strings.intern(""), StringSymbol(2));
    assert_eq!(strings.intern("b"), StringSymbol(1));
}

#[test]
fn snake_case() {
    assert_eq!(camel_to_snake("LoadNumber"), "load_number");
    assert_eq!(camel_to_snake("Operation"), "operation");
    assert_eq!(camel_to_snake("notEqualTo"), "not_equal_to");
    assert_eq!(camel_to_snake("ABC"), "a_b_c");
    assert_eq!(camel_to_snake(""), "");
    assert_eq!(camel_to_snake("x1Y"), "x1_y");
}

#[derive(Default)]
struct Recorder {
    seen: Vec<String>,
}

impl Recorder {
    fn note(&mut self, what: &str) -> Result<(), RuntimeError> {
        self.seen.push(what.to_string());
        if what == "divide" {
            Err(RuntimeError::Stuck)
        } else {
            Ok(())
        }
    }
}

impl OperationExecutor for Recorder {
    fn load_number(&mut self, arg0: Number) -> Result<(), RuntimeError> {
        self.note(&format!("number {}", f64::from_bits(arg0.bits)))
    }
    fn load_string(&mut self, arg0: StringSymbol) -> Result<(), RuntimeError> {
        self.note(&format!("string {}", arg0.index()))
    }
    fn load_bool(&mut self, arg0: bool) -> Result<(), RuntimeError> {
        self.note(&format!("bool {}", arg0))
    }
    fn load_nil(&mut self) -> Result<(), RuntimeError> {
        self.note("nil")
    }
    fn negative(&mut self) -> Result<(), RuntimeError> {
        self.note("negative")
    }
    fn not(&mut self) -> Result<(), RuntimeError> {
        self.note("not")
    }
    fn plus(&mut self) -> Result<(), RuntimeError> {
        self.note("plus")
    }
    fn minus(&mut self) -> Result<(), RuntimeError> {
        self.note("minus")
    }
    fn multiply(&mut self) -> Result<(), RuntimeError> {
        self.note("multiply")
    }
    fn divide(&mut self) -> Result<(), RuntimeError> {
        self.note("divide")
    }
    fn and(&mut self) -> Result<(), RuntimeError> {
        self.note("and")
    }
    fn or(&mut self) -> Result<(), RuntimeError> {
        self.note("or")
    }
    fn greater(&mut self) -> Result<(), RuntimeError> {
        self.note("greater")
    }
    fn greater_equal(&mut self) -> Result<(), RuntimeError> {
        self.note("greater_equal")
    }
    fn less(&mut self) -> Result<(), RuntimeError> {
        self.note("less")
    }
    fn less_equal(&mut self) -> Result<(), RuntimeError> {
        self.note("less_equal")
    }
    fn equal(&mut self) -> Result<(), RuntimeError> {
        self.note("equal")
    }
    fn not_equal(&mut self) -> Result<(), RuntimeError> {
        self.note("not_equal")
    }
}

fn encoded(operations: &[Operation]) -> Vec<u8> {
    let mut writer = OpWriter::new();
    encode_all(operations, &mut writer);
    writer.flush()
}

#[test]
fn operations_are_handed_to_the_executor_in_order() {
    let bytes = encoded(&[
        Operation::LoadNumber(number(2.0)),
        Operation::LoadString(StringSymbol(3)),
        Operation::LoadBool(true),
        Operation::LoadNil,
        Operation::Plus,
        Operation::NotEqual,
    ]);
    let mut recorder = Recorder::default();
    assert_eq!(execute_operation(&mut recorder, &bytes), Ok(()));
    assert_eq!(recorder.seen, ["number 2", "string 3", "bool true", "nil", "plus", "not_equal"]);
}

#[test]
fn the_executor_stops_at_the_first_error() {
    let bytes = encoded(&[Operation::Minus, Operation::Divide, Operation::Plus]);
    let mut recorder = Recorder::default();
    assert_eq!(
        execute_operation(&mut recorder, &bytes),
        Err(ExecutorError::RuntimeError(RuntimeError::Stuck))
    );
    assert_eq!(recorder.seen, ["minus", "divide"]);
    let mut broken = encoded(&[Operation::Not]);
    broken.extend([1, 0]);
    let mut recorder = Recorder::default();
    assert_eq!(
        execute_operation(&mut recorder, &broken),
        Err(ExecutorError::DecoderError(DecoderError {
            pos: 1,
            error: DecoderErrorDetail::NoEnoughData { expected: 4, rem: 1 }
        }))
    );
    assert_eq!(recorder.seen, ["not"]);
}
