use create_gadget::builder::ConstraintBuilder;
use create_gadget::constants::{CREATE, CREATE2};
use create_gadget::constraint::{
    AccountFieldTag, CallContextFieldTag, Constraint, CopyDataType, OtherFields, Requirement,
    Transition,
};
use create_gadget::create::{CreateGadget, N_CELLS, N_OUTPUTS};
use create_gadget::expression::{Expression, Variable};
use create_gadget::hash::hash_code;
use create_gadget::region::{dividend, Assignment, CachedRegion, Scalar};
use create_gadget::witness::{Block, Call, ExecStep, Rw, Transaction};
use create_gadget::word::{Address, Word};
use std::collections::HashMap;

const CALLER_ADDRESS: Address = Address { bytes: [0x34; 20] };

/// The order of the field that the circuit is tried over.
const P: u128 = (1 << 61) - 1;

const RW_COUNTER: u128 = 24;
const CALL_ID: u64 = 1;
const PROGRAM_COUNTER: u128 = 42;
const STACK_POINTER: u64 = 1021;
const REVERSIBLE_WRITE_COUNTER: u128 = 2;
const MEMORY_WORD_SIZE: u64 = 1;

fn callee_bytecode(is_return: bool, offset: u64, length: u64) -> Vec<u8> {
    let memory_bytes = [0x60u8; 10];
    let mut code = vec![0x69];
    code.extend_from_slice(&memory_bytes);
    code.extend_from_slice(&[0x60, 0, 0x52]);
    let start = 32 - memory_bytes.len() as u64 + offset;
    code.extend_from_slice(&[0x61, (length >> 8) as u8, length as u8]);
    code.extend_from_slice(&[0x61, (start >> 8) as u8, start as u8]);
    code.push(if is_return { 0xf3 } else { 0xfd });
    code
}

/// A machine that knows the few instructions of the codes that are tried here.
struct Machine {
    code: Vec<u8>,
    pc: usize,
    stack: Vec<[u8; 32]>,
    memory: Vec<u8>,
    gas: u64,
}

/// What a machine has stopped at.
#[derive(PartialEq, Eq, Debug)]
enum Stop {
    End,
    Create,
    Return,
    Revert,
}

fn low(word: &[u8; 32]) -> u64 {
    assert_eq!(word[..24], [0; 24]);
    word[24..].iter().fold(0, |acc, byte| acc << 8 | *byte as u64)
}

impl Machine {
    fn new(code: Vec<u8>, gas: u64) -> Machine {
        Machine { code, pc: 0, stack: Vec::new(), memory: Vec::new(), gas }
    }

    fn pop(&mut self) -> [u8; 32] {
        self.stack.pop().unwrap()
    }

    fn reach(&mut self, end: u64) {
        let cost = |words: u64| 3 * words + words * words / 512;
        let (had, needed) = (self.memory.len() as u64 / 32, (end + 31) / 32);
        if needed > had {
            self.gas -= cost(needed) - cost(had);
            self.memory.resize(needed as usize * 32, 0);
        }
    }

    fn run(&mut self) -> Stop {
        while self.pc < self.code.len() {
            let opcode = self.code[self.pc];
            match opcode {
                0x60..=0x7f => {
                    let n = opcode as usize - 0x5f;
                    let mut word = [0u8; 32];
                    word[32 - n..].copy_from_slice(&self.code[self.pc + 1..self.pc + 1 + n]);
                    self.stack.push(word);
                    self.gas -= 3;
                    self.pc += n;
                }
                0x52 => {
                    let at = low(&self.pop());
                    let word = self.pop();
                    self.gas -= 3;
                    self.reach(at + 32);
                    self.memory[at as usize..at as usize + 32].copy_from_slice(&word);
                }
                CREATE => return Stop::Create,
                0xf3 | 0xfd => {
                    let at = low(&self.pop());
                    let length = low(&self.pop());
                    if length != 0 {
                        self.reach(at + length);
                    }
                    return if opcode == 0xf3 { Stop::Return } else { Stop::Revert };
                }
                _ => panic!("opcode {}", opcode),
            }
            self.pc += 1;
        }
        Stop::End
    }
}

fn push(code: &mut Vec<u8>, n: usize, bytes: &[u8]) {
    code.push(0x5f + n as u8);
    code.extend(vec![0; n - bytes.len()]);
    code.extend_from_slice(bytes);
}

/// The code that writes the initializer to memory and creates an account with it.
fn root_code(initializer: &[u8]) -> Vec<u8> {
    let mut code: Vec<u8> = Vec::new();
    push(&mut code, 32, initializer);
    push(&mut code, 1, &[0]);
    code.push(0x52);
    push(&mut code, 1, &[initializer.len() as u8]);
    push(&mut code, 1, &[32 - initializer.len() as u8]);
    push(&mut code, 1, &[0]);
    code.push(CREATE);
    code
}

/// The creation that the code carries out, in a transaction with 100000 gas.
fn creation_by(code: Vec<u8>) -> Creation {
    let mut caller = Machine::new(code, 100000 - 21000);
    assert_eq!(caller.run(), Stop::Create);
    assert_eq!(caller.pc as u128, PROGRAM_COUNTER);
    assert_eq!(1024 - caller.stack.len() as u64, STACK_POINTER);
    assert_eq!(caller.memory.len() as u64, 32 * MEMORY_WORD_SIZE);
    let gas_left = caller.gas;
    let value = low(&caller.pop());
    let start = low(&caller.pop());
    let length = low(&caller.pop());
    let initializer = caller.memory[start as usize..(start + length) as usize].to_vec();

    let remaining = gas_left - 32000;
    let mut callee = Machine::new(initializer.clone(), remaining - remaining / 64);
    let is_success = callee.run() != Stop::Revert;

    caller.gas = remaining / 64;
    caller.stack.push([0; 32]);
    caller.pc += 1;
    let is_persistent = caller.run() != Stop::Revert;
    Creation {
        initializer,
        start,
        salt: None,
        value,
        is_success,
        is_persistent,
        callee_is_persistent: is_persistent && is_success,
        gas_left,
    }
}

/// A step of the machine, and the reads and writes of its block by their numbers.
struct Trace {
    block: Block,
    tx: Transaction,
    call: Call,
    step: ExecStep,
    table: HashMap<u128, Rw>,
    next_memory_word_size: u64,
    expansion_gas_cost: u64,
    randomness: u128,
}

/// What is to be created, and how it turns out.
struct Creation {
    initializer: Vec<u8>,
    start: u64,
    salt: Option<u64>,
    value: u64,
    is_success: bool,
    is_persistent: bool,
    callee_is_persistent: bool,
    gas_left: u64,
}

impl Creation {
    fn new(initializer: Vec<u8>) -> Creation {
        let start = 32 - initializer.len() as u64;
        // Of the 100000 gas of the transaction, 21000 have gone to its start, and the rest to five
        // pushes and a write of the first word of memory.
        let gas_left = 100000 - 21000 - 3 - 3 - 6 - 3 - 3 - 3;
        Creation {
            initializer,
            start,
            salt: None,
            value: 0,
            is_success: true,
            is_persistent: true,
            callee_is_persistent: true,
            gas_left,
        }
    }
}

fn word_of(address: &Address) -> Word {
    let mut limbs = [0u64; 4];
    for (i, byte) in address.bytes.iter().rev().enumerate() {
        limbs[i / 8] |= (*byte as u64) << (8 * (i % 8));
    }
    Word { limbs }
}

/// Carries out the creation by the account at `CALLER_ADDRESS`, which has created nothing yet.
fn execute(creation: &Creation) -> Trace {
    let nonce = 1u64;
    let caller = ethers_core::types::Address::from(CALLER_ADDRESS.bytes);
    let created = match creation.salt {
        None => ethers_core::utils::get_contract_address(caller, nonce),
        Some(salt) => {
            let mut bytes = [0u8; 32];
            bytes[24..].copy_from_slice(&salt.to_be_bytes());
            ethers_core::utils::get_create2_address(caller, bytes, creation.initializer.clone())
        }
    };
    let new_address = Address { bytes: created.to_fixed_bytes() };
    let caller_end = if creation.is_persistent { 0u64 } else { 400 };
    let callee_end = if creation.callee_is_persistent { 0u64 } else { 300 };
    let length = creation.initializer.len() as u64;
    let callee_id = RW_COUNTER as u64;

    let mut rws: Vec<Rw> = Vec::new();
    let stack = |is_write: bool, stack_pointer: u64, value: Word| Rw::Stack {
        is_write,
        call_id: CALL_ID,
        stack_pointer,
        value,
    };
    let field = |is_write: bool, call_id: u64, field_tag: CallContextFieldTag, value: Word| {
        Rw::CallContext { is_write, call_id, field_tag, value }
    };
    let account = |account_address: Address, field_tag: AccountFieldTag, value, value_prev| {
        Rw::Account {
            is_write: true,
            account_address,
            field_tag,
            value: Word::from_u64(value),
            value_prev: Word::from_u64(value_prev),
        }
    };
    let number = Word::from_u64;
    let bit = |b: bool| Word::from_u64(b as u64);

    rws.push(stack(false, STACK_POINTER, number(creation.value)));
    rws.push(stack(false, STACK_POINTER + 1, number(creation.start)));
    rws.push(stack(false, STACK_POINTER + 2, number(length)));
    let mut pointer = STACK_POINTER + 3;
    if let Some(salt) = creation.salt {
        rws.push(stack(false, pointer, number(salt)));
        pointer += 1;
    }
    pointer -= 1;
    let result = if creation.is_success { word_of(&new_address) } else { Word::zero() };
    rws.push(stack(true, pointer, result));
    for (i, byte) in creation.initializer.iter().enumerate() {
        rws.push(Rw::Memory {
            is_write: false,
            call_id: CALL_ID,
            memory_address: creation.start + i as u64,
            byte: *byte,
        });
    }
    rws.push(field(false, CALL_ID, CallContextFieldTag::TxId, number(1)));
    rws.push(field(
        false,
        CALL_ID,
        CallContextFieldTag::RwCounterEndOfReversion,
        number(caller_end),
    ));
    rws.push(field(
        false,
        CALL_ID,
        CallContextFieldTag::IsPersistent,
        bit(creation.is_persistent),
    ));
    let access = |is_warm: bool, is_warm_prev: bool| Rw::TxAccessListAccount {
        is_write: true,
        tx_id: 1,
        account_address: new_address,
        is_warm,
        is_warm_prev,
    };
    rws.push(access(true, false));
    rws.push(field(false, CALL_ID, CallContextFieldTag::CalleeAddress, word_of(&CALLER_ADDRESS)));
    rws.push(account(CALLER_ADDRESS, AccountFieldTag::Nonce, nonce + 1, nonce));
    rws.push(field(
        true,
        callee_id,
        CallContextFieldTag::RwCounterEndOfReversion,
        number(callee_end),
    ));
    rws.push(field(
        true,
        callee_id,
        CallContextFieldTag::IsPersistent,
        bit(creation.callee_is_persistent),
    ));
    rws.push(account(new_address, AccountFieldTag::Nonce, 1, 0));
    let balance = 10_000_000_000_000_000_000u64;
    let after = balance - creation.value;
    rws.push(account(CALLER_ADDRESS, AccountFieldTag::Balance, after, balance));
    rws.push(account(new_address, AccountFieldTag::Balance, creation.value, 0));

    let next_memory_word_size = ((creation.start + length + 31) / 32).max(MEMORY_WORD_SIZE);
    let memory_gas = |words: u64| 3 * words + words * words / 512;
    let expansion_gas_cost = memory_gas(next_memory_word_size) - memory_gas(MEMORY_WORD_SIZE);
    let remaining = creation.gas_left - 32000 - expansion_gas_cost;
    let own = |field_tag: CallContextFieldTag, value: u64| {
        field(true, CALL_ID, field_tag, Word::from_u64(value))
    };
    rws.push(own(CallContextFieldTag::ProgramCounter, PROGRAM_COUNTER as u64 + 1));
    rws.push(own(CallContextFieldTag::StackPointer, pointer));
    rws.push(own(CallContextFieldTag::GasLeft, remaining / 64));
    rws.push(own(CallContextFieldTag::MemorySize, next_memory_word_size));
    rws.push(own(
        CallContextFieldTag::ReversibleWriteCounter,
        REVERSIBLE_WRITE_COUNTER as u64 + 2,
    ));
    let callee = |field_tag: CallContextFieldTag, value: Word| {
        field(true, callee_id, field_tag, value)
    };
    rws.push(callee(CallContextFieldTag::CallerId, number(CALL_ID)));
    rws.push(callee(CallContextFieldTag::IsSuccess, bit(creation.is_success)));
    rws.push(callee(CallContextFieldTag::IsPersistent, bit(creation.callee_is_persistent)));
    rws.push(callee(CallContextFieldTag::TxId, number(1)));
    rws.push(callee(CallContextFieldTag::CallerAddress, word_of(&CALLER_ADDRESS)));
    rws.push(callee(CallContextFieldTag::CalleeAddress, word_of(&new_address)));
    rws.push(callee(CallContextFieldTag::RwCounterEndOfReversion, number(callee_end)));

    let mut table: HashMap<u128, Rw> = HashMap::new();
    for (i, rw) in rws.iter().enumerate() {
        table.insert(RW_COUNTER + i as u128, *rw);
    }
    if !creation.is_persistent {
        let end = caller_end as u128 - REVERSIBLE_WRITE_COUNTER;
        table.insert(end, access(false, true));
        table.insert(end - 1, account(CALLER_ADDRESS, AccountFieldTag::Nonce, nonce, nonce + 1));
    }
    if !creation.callee_is_persistent {
        let end = callee_end as u128;
        table.insert(end, account(new_address, AccountFieldTag::Nonce, 0, 1));
        table.insert(end - 1, account(CALLER_ADDRESS, AccountFieldTag::Balance, balance, after));
        table.insert(end - 2, account(new_address, AccountFieldTag::Balance, 0, creation.value));
    }

    // What other steps have done stands before what this one has.
    let mut all = vec![Rw::Other; 3];
    let rw_indices: Vec<usize> = (3..3 + rws.len()).collect();
    all.extend(rws);
    Trace {
        block: Block { rws: all },
        tx: Transaction { id: 1 },
        call: Call {
            rw_counter_end_of_reversion: caller_end as usize,
            is_persistent: creation.is_persistent,
            callee_address: CALLER_ADDRESS,
        },
        step: ExecStep {
            opcode: Some(if creation.salt.is_some() { CREATE2 } else { CREATE }),
            rw_indices,
            gas_left: creation.gas_left,
            memory_word_size: MEMORY_WORD_SIZE,
        },
        table,
        next_memory_word_size,
        expansion_gas_cost,
        randomness: 256,
    }
}

fn combine(bytes: &[u8], base: u128) -> u128 {
    bytes.iter().rev().fold(0, |acc, byte| (acc * base + *byte as u128) % P)
}

fn word_value(word: &Word) -> u128 {
    combine(&word.to_le_bytes(), 256)
}

fn address_value(address: &Address) -> u128 {
    combine(&address.to_le_bytes(), 256)
}

/// The values of the cells and outputs, once all is assigned.
struct Witness {
    cells: HashMap<usize, u128>,
    outputs: HashMap<usize, u128>,
    randomness: u128,
    gas_left: u64,
}

impl Witness {
    fn new(trace: &Trace, region: &CachedRegion) -> Witness {
        let mut cells: HashMap<usize, u128> = HashMap::new();
        let mut outputs: HashMap<usize, u128> = HashMap::new();
        for (offset, assignment) in region.assignments.iter() {
            assert_eq!(*offset, 7);
            match assignment {
                Assignment::Cell { cell, value } => {
                    let value = match value {
                        Scalar::Integer(x) => *x as u128 % P,
                        Scalar::Word(word) => word_value(word),
                        Scalar::Combined(bytes) => combine(bytes, trace.randomness),
                    };
                    assert_eq!(cells.insert(cell.index, value), None);
                }
                Assignment::Bytes { cells: row, bytes } => {
                    assert_eq!(row.n_bytes, bytes.len());
                    for (i, byte) in bytes.iter().enumerate() {
                        assert_eq!(cells.insert(row.first + i, *byte as u128), None);
                    }
                }
                Assignment::MemoryAddress { gadget, start, length } => {
                    let (start, length) = (word_value(start), word_value(length));
                    outputs.insert(gadget.offset.index, start);
                    outputs.insert(gadget.length.index, length);
                    outputs.insert(gadget.has_length.index, (length != 0) as u128);
                    let end = if length != 0 { start + length } else { 0 };
                    outputs.insert(gadget.address.index, end);
                }
                Assignment::MemoryExpansion { gadget, memory_word_size, range } => {
                    assert_eq!(*memory_word_size, MEMORY_WORD_SIZE);
                    assert!(outputs.contains_key(&range.address.index));
                    outputs.insert(gadget.gas_cost.index, trace.expansion_gas_cost as u128);
                    outputs.insert(
                        gadget.next_memory_word_size.index,
                        trace.next_memory_word_size as u128,
                    );
                }
                Assignment::Transfer { gadget, sender_balance_pair, receiver_balance_pair, .. } => {
                    let (sender, receiver) = (sender_balance_pair, receiver_balance_pair);
                    outputs.insert(gadget.sender_balance.index, word_value(&sender.0));
                    outputs.insert(gadget.sender_balance_prev.index, word_value(&sender.1));
                    outputs.insert(gadget.receiver_balance.index, word_value(&receiver.0));
                    outputs.insert(gadget.receiver_balance_prev.index, word_value(&receiver.1));
                }
                Assignment::ConstantDivision { gadget, numerator, less } => {
                    let gas_cost = outputs[&less.gas_cost.index] as u64;
                    let gas = dividend(*numerator, gas_cost).unwrap() as u128;
                    outputs.insert(gadget.quotient.index, gas / 64);
                    outputs.insert(gadget.remainder.index, gas % 64);
                }
            }
        }
        Witness { cells, outputs, randomness: trace.randomness, gas_left: trace.step.gas_left }
    }

    fn eval(&self, expression: &Expression) -> u128 {
        match expression {
            Expression::Constant(c) => *c as u128 % P,
            Expression::Variable(variable) => match variable {
                Variable::Cell(index) => self.cells[index],
                Variable::RandomnessPower(power) => {
                    (0..*power).fold(1, |acc, _| acc * self.randomness % P)
                }
                Variable::RwCounter => RW_COUNTER,
                Variable::CallId => CALL_ID as u128,
                Variable::ProgramCounter => PROGRAM_COUNTER,
                Variable::StackPointer => STACK_POINTER as u128,
                Variable::GasLeft => self.gas_left as u128,
                Variable::ReversibleWriteCounter => REVERSIBLE_WRITE_COUNTER,
                Variable::Output(index) => self.outputs[index],
            },
            Expression::Negated(a) => (P - self.eval(a)) % P,
            Expression::Sum(a, b) => (self.eval(a) + self.eval(b)) % P,
            Expression::Product(a, b) => self.eval(a) * self.eval(b) % P,
        }
    }
}

fn is_account(
    rw: Option<&Rw>,
    address: u128,
    tag: AccountFieldTag,
    after: u128,
    before: u128,
) -> bool {
    match rw {
        Some(Rw::Account { is_write: true, account_address, field_tag, value, value_prev }) => {
            address_value(account_address) == address
                && *field_tag == tag
                && word_value(value) == after
                && word_value(value_prev) == before
        }
        _ => false,
    }
}

fn is_access(rw: Option<&Rw>, tx: u128, address: u128, after: u128, before: u128) -> bool {
    match rw {
        Some(Rw::TxAccessListAccount {
            is_write: true,
            tx_id,
            account_address,
            is_warm,
            is_warm_prev,
        }) => {
            *tx_id as u128 == tx
                && address_value(account_address) == address
                && *is_warm as u128 == after
                && *is_warm_prev as u128 == before
        }
        _ => false,
    }
}

fn is_transfer(
    first: Option<&Rw>,
    second: Option<&Rw>,
    sender: u128,
    receiver: u128,
    sender_pair: (u128, u128),
    receiver_pair: (u128, u128),
) -> bool {
    is_account(first, sender, AccountFieldTag::Balance, sender_pair.0, sender_pair.1)
        && is_account(second, receiver, AccountFieldTag::Balance, receiver_pair.0, receiver_pair.1)
}

fn holds(constraint: &Constraint<Expression>, trace: &Trace, witness: &Witness) -> bool {
    if let Some(condition) = &constraint.condition {
        if witness.eval(condition) == 0 {
            return true;
        }
    }
    let eval = |e: &Expression| witness.eval(e);
    let rw = |e: &Expression| trace.table.get(&witness.eval(e));
    match &constraint.requirement {
        Requirement::Boolean { value } => eval(value) <= 1,
        Requirement::Equal { left, right, .. } => eval(left) == eval(right),
        Requirement::Opcode { opcode, is_code } => {
            Some(eval(opcode)) == trace.step.opcode.map(|byte| byte as u128) && eval(is_code) == 1
        }
        Requirement::Stack { rw_counter, is_write, stack_pointer, value } => {
            match rw(rw_counter) {
                Some(Rw::Stack { is_write: write, call_id, stack_pointer: pointer, value: word }) => {
                    is_write == write
                        && *call_id == CALL_ID
                        && *pointer as u128 == eval(stack_pointer)
                        && combine(&word.to_le_bytes(), trace.randomness) == eval(value)
                }
                _ => false,
            }
        }
        Requirement::CallContext { rw_counter, is_write, call_id, field_tag, value } => {
            match rw(rw_counter) {
                Some(Rw::CallContext {
                    is_write: write,
                    call_id: call,
                    field_tag: tag,
                    value: word,
                }) => {
                    *write as u128 == eval(is_write)
                        && *call as u128 == eval(call_id)
                        && tag == field_tag
                        && word_value(word) == eval(value)
                }
                _ => false,
            }
        }
        Requirement::AccountAccessList {
            rw_counter,
            tx_id,
            account_address,
            value,
            value_prev,
            reversion,
        } => {
            let (tx, address) = (eval(tx_id), eval(account_address));
            let (after, before) = (eval(value), eval(value_prev));
            is_access(rw(rw_counter), tx, address, after, before)
                && (eval(&reversion.is_persistent) == 1
                    || is_access(rw(&reversion.rw_counter), tx, address, before, after))
        }
        Requirement::Account {
            rw_counter,
            account_address,
            field_tag,
            value,
            value_prev,
            reversion,
        } => {
            let address = eval(account_address);
            let (after, before) = (eval(value), eval(value_prev));
            is_account(rw(rw_counter), address, *field_tag, after, before)
                && (eval(&reversion.is_persistent) == 1
                    || is_account(rw(&reversion.rw_counter), address, *field_tag, before, after))
        }
        Requirement::Transfer {
            rw_counter,
            sender_address,
            receiver_address,
            value,
            sender_balance,
            sender_balance_prev,
            receiver_balance,
            receiver_balance_prev,
            reversion,
        } => {
            let (sender, receiver) = (eval(sender_address), eval(receiver_address));
            let amount = eval(value);
            let (left, before) = (eval(sender_balance), eval(sender_balance_prev));
            let (got, had) = (eval(receiver_balance), eval(receiver_balance_prev));
            let first = eval(rw_counter);
            let undone = eval(&reversion.rw_counter);
            before == (left + amount) % P
                && got == (had + amount) % P
                && is_transfer(
                    trace.table.get(&first),
                    trace.table.get(&(first + 1)),
                    sender,
                    receiver,
                    (left, before),
                    (got, had),
                )
                && (eval(&reversion.is_persistent) == 1
                    || is_transfer(
                        trace.table.get(&undone),
                        trace.table.get(&(undone - 1)),
                        sender,
                        receiver,
                        (before, left),
                        (had, got),
                    ))
        }
        Requirement::Copy {
            rw_counter,
            src_id,
            src_tag,
            dst_id,
            dst_tag,
            src_addr,
            src_addr_end,
            dst_addr,
            length,
            rlc_acc,
            rwc_inc,
        } => {
            let mut code: Vec<u8> = Vec::new();
            for i in 0..eval(length) {
                match trace.table.get(&(eval(rw_counter) + i)) {
                    Some(Rw::Memory { is_write: false, call_id, memory_address, byte })
                        if *call_id as u128 == eval(src_id)
                            && *memory_address as u128 == eval(src_addr) + i =>
                    {
                        code.push(*byte)
                    }
                    _ => return false,
                }
            }
            let mut hash = ethers_core::utils::keccak256(&code);
            hash.reverse();
            *src_tag == CopyDataType::Memory
                && *dst_tag == CopyDataType::Bytecode
                && eval(src_addr_end) == eval(src_addr) + eval(length)
                && eval(dst_addr) == 0
                && eval(rlc_acc) == 0
                && eval(rwc_inc) == eval(length)
                && eval(dst_id) == combine(&hash, trace.randomness)
        }
        Requirement::MemoryAddress { offset, length, has_length, address } => {
            eval(has_length) == (eval(length) != 0) as u128
                && (eval(length) == 0 || eval(address) == eval(offset) + eval(length))
        }
        Requirement::MemoryExpansion { .. } => true,
        Requirement::ConstantDivision { numerator, denominator, quotient, remainder } => {
            let denominator = *denominator as u128;
            eval(numerator) == denominator * eval(quotient) + eval(remainder)
                && eval(remainder) < denominator
        }
        Requirement::StepState { transition } => {
            let remaining = trace.step.gas_left - 32000 - trace.expansion_gas_cost;
            let to = |t: &Transition<Expression>| match t {
                Transition::To(e) => Some(witness.eval(e)),
                Transition::Delta(_) => None,
            };
            let made = match &transition.rw_counter {
                Transition::Delta(e) => Some(witness.eval(e)),
                Transition::To(_) => None,
            };
            made == Some(trace.step.rw_indices.len() as u128)
                && to(&transition.call_id) == Some(RW_COUNTER)
                && to(&transition.is_root) == Some(0)
                && to(&transition.is_create) == Some(1)
                && to(&transition.gas_left) == Some((remaining - remaining / 64) as u128)
                && to(&transition.reversible_write_counter) == Some(3)
                && transition.others == OtherFields::NewContext
        }
    }
}

/// Configures the gadget, assigns the step, and tries every constraint on what is recorded.
/// Gives the numbers of the constraints that do not hold.
fn run_test_circuits(trace: &Trace) -> Result<(), Vec<usize>> {
    let mut cb = ConstraintBuilder::new();
    let gadget = CreateGadget::configure(&mut cb);
    assert!(trace.step.check_create(&trace.block));
    let mut region = CachedRegion::new();
    gadget.assign_exec_step(&mut region, 7, &trace.block, &trace.tx, &trace.call, &trace.step);
    let witness = Witness::new(trace, &region);
    assert_eq!(witness.cells.len(), N_CELLS);
    assert_eq!(witness.outputs.len(), N_OUTPUTS);
    let bytes: Vec<usize> =
        cb.byte_cells.iter().flat_map(|cells| cells.first..cells.first + cells.n_bytes).collect();
    assert_eq!(bytes.len(), 112);
    assert!(bytes.iter().all(|index| witness.cells[index] < 256));
    let failed: Vec<usize> = cb
        .constraints
        .iter()
        .enumerate()
        .filter(|(_, constraint)| !holds(constraint, trace, &witness))
        .map(|(i, _)| i)
        .collect();
    if failed.is_empty() {
        Ok(())
    } else {
        Err(failed)
    }
}

#[test]
fn mason2() {
    let test_parameters = [(0, 0), (0, 10), (300, 20), (1000, 0)];
    for (offset, length) in test_parameters.iter() {
        let is_return = true;
        let initializer = callee_bytecode(is_return, *offset, *length);
        let creation = creation_by(root_code(&initializer));
        assert_eq!(creation.initializer, initializer);
        assert!(creation.is_success && creation.is_persistent);
        let trace = execute(&creation);
        assert_eq!(
            run_test_circuits(&trace),
            Ok(()),
            "(offset, length, is_return) = {:?}",
            (*offset, *length, is_return),
        );
    }
}

#[test]
fn mason() {
    // Test the case where the initialization call is successful, but the CREATE
    // call is reverted.
    let initializer = callee_bytecode(true, 0, 10);
    let mut code = root_code(&initializer);
    push(&mut code, 1, &[0]);
    push(&mut code, 1, &[0]);
    code.push(0xfd);
    let creation = creation_by(code);
    assert!(creation.is_success && !creation.is_persistent && !creation.callee_is_persistent);
    let trace = execute(&creation);
    assert_eq!(run_test_circuits(&trace), Ok(()),);
}

#[test]
fn create2_with_a_salt_and_an_endowment_is_accepted() {
    let trace = execute(&Creation {
        salt: Some(0x1234_5678),
        value: 5_000_000,
        ..Creation::new(callee_bytecode(true, 0, 10))
    });
    assert_eq!(run_test_circuits(&trace), Ok(()));
}

#[test]
fn a_failed_initialization_puts_zero_on_the_stack() {
    let creation = creation_by(root_code(&callee_bytecode(false, 0, 10)));
    assert!(!creation.is_success && creation.is_persistent);
    let trace = execute(&Creation { value: 17, ..creation });
    assert_eq!(run_test_circuits(&trace), Ok(()));
}

#[test]
fn empty_code_has_the_hash_of_no_code() {
    let trace = execute(&Creation { start: 5, ..Creation::new(Vec::new()) });
    assert_eq!(run_test_circuits(&trace), Ok(()));
    let mut cb = ConstraintBuilder::new();
    CreateGadget::configure_with(&mut cb, &[0; 32]);
    let gadget = CreateGadget::configure(&mut ConstraintBuilder::new());
    let mut region = CachedRegion::new();
    gadget.assign_exec_step(&mut region, 7, &trace.block, &trace.tx, &trace.call, &trace.step);
    let witness = Witness::new(&trace, &region);
    assert!(!holds(&cb.constraints[11], &trace, &witness));
}

#[test]
fn an_expansion_of_the_memory_is_paid_for() {
    let trace = execute(&Creation { start: 64, ..Creation::new(callee_bytecode(true, 0, 10)) });
    assert_eq!(trace.expansion_gas_cost, 6);
    assert_eq!(run_test_circuits(&trace), Ok(()));
    // 46973 remain, of which the calling call keeps 733.
    match trace.table[&(RW_COUNTER + 17 + 21)] {
        Rw::CallContext { value, .. } => assert_eq!(value, Word::from_u64(733)),
        _ => panic!("no field"),
    }
    let gadget = CreateGadget::configure(&mut ConstraintBuilder::new());
    let mut region = CachedRegion::new();
    gadget.assign_exec_step(&mut region, 7, &trace.block, &trace.tx, &trace.call, &trace.step);
    let witness = Witness::new(&trace, &region);
    assert_eq!(witness.eval(&gadget.gas_left.quotient.expr()), 733);
    assert_eq!(witness.eval(&gadget.gas_left.remainder.expr()), 61);

    let far = execute(&Creation {
        start: 4000,
        salt: Some(2),
        value: 9,
        is_persistent: false,
        callee_is_persistent: false,
        ..Creation::new(callee_bytecode(true, 0, 10))
    });
    assert_eq!(far.expansion_gas_cost, 3 * 125 + 31);
    assert_eq!(run_test_circuits(&far), Ok(()));
}

#[test]
fn the_gas_divided_is_what_the_memory_leaves() {
    assert_eq!(dividend(46979, 6), Some(46973));
    assert_eq!(dividend(6, 6), Some(0));
    assert_eq!(dividend(5, 6), None);
}

#[test]
fn a_transfer_of_another_amount_is_refused() {
    let mut trace = execute(&Creation {
        value: 9,
        ..Creation::new(callee_bytecode(true, 0, 10))
    });
    let place = trace.step.rw_indices[14 + 21];
    let wrong = match trace.block.rws[place] {
        Rw::Account { is_write, account_address, field_tag, value_prev, .. } => Rw::Account {
            is_write,
            account_address,
            field_tag,
            value: Word::from_u64(8),
            value_prev,
        },
        _ => panic!("no account"),
    };
    trace.block.rws[place] = wrong;
    assert_eq!(run_test_circuits(&trace), Err(vec![22]));
}

#[test]
fn addresses_are_told_apart_from_their_combinations() {
    let mut trace = execute(&Creation::new(callee_bytecode(true, 0, 10)));
    trace.randomness = 257;
    // The nonces of the two accounts, the transfer, and the two addresses of the created call.
    assert_eq!(run_test_circuits(&trace), Err(vec![18, 21, 22, 34, 35]));
}

#[test]
fn a_wrong_nonce_is_refused() {
    let mut trace = execute(&Creation::new(callee_bytecode(true, 0, 10)));
    let place = trace.step.rw_indices[9 + 21];
    let wrong = match trace.block.rws[place] {
        Rw::Account { is_write, account_address, field_tag, value, .. } => {
            Rw::Account { is_write, account_address, field_tag, value, value_prev: value }
        }
        _ => panic!("no account"),
    };
    trace.block.rws[place] = wrong;
    assert_eq!(run_test_circuits(&trace), Err(vec![18]));
}

#[test]
fn other_code_than_was_read_is_refused() {
    let mut trace = execute(&Creation::new(callee_bytecode(true, 0, 10)));
    let place = trace.step.rw_indices[4];
    let first = trace.block.rws[place].memory_value();
    trace.block.rws[place] = Rw::Memory {
        is_write: false,
        call_id: CALL_ID,
        memory_address: 11,
        byte: first + 1,
    };
    assert_eq!(run_test_circuits(&trace), Err(vec![10]));
}

#[test]
fn a_write_that_is_not_undone_is_refused() {
    let reverted = Creation {
        is_persistent: false,
        callee_is_persistent: false,
        value: 3,
        ..Creation::new(callee_bytecode(true, 0, 10))
    };
    assert_eq!(run_test_circuits(&execute(&reverted)), Ok(()));
    let expected = [(398, 16), (397, 18), (300, 21), (299, 22), (298, 22)];
    for (number, constraint) in expected.iter() {
        let mut trace = execute(&reverted);
        assert!(trace.table.remove(number).is_some());
        assert_eq!(run_test_circuits(&trace), Err(vec![*constraint]));
    }
}

#[test]
fn all_but_one_64th_of_the_gas_is_sent() {
    // 46979 remain, of which the calling call keeps 734 and the created one gets the rest.
    let trace = execute(&Creation::new(callee_bytecode(true, 0, 10)));
    match trace.table[&(RW_COUNTER + 17 + 21)] {
        Rw::CallContext { value, .. } => assert_eq!(value, Word::from_u64(734)),
        _ => panic!("no field"),
    }
    let mut cb = ConstraintBuilder::new();
    let gadget = CreateGadget::configure(&mut cb);
    let mut region = CachedRegion::new();
    gadget.assign_exec_step(&mut region, 7, &trace.block, &trace.tx, &trace.call, &trace.step);
    let witness = Witness::new(&trace, &region);
    match &cb.constraints[37].requirement {
        Requirement::StepState { transition } => {
            match &transition.gas_left {
                Transition::To(gas) => assert_eq!(witness.eval(gas), 46979 - 734),
                Transition::Delta(_) => panic!("no gas"),
            }
            match &transition.rw_counter {
                Transition::Delta(made) => assert_eq!(witness.eval(made), 27 + 21),
                Transition::To(_) => panic!("no number of reads and writes"),
            }
        }
        _ => panic!("no next step"),
    }
    assert_eq!(witness.eval(&gadget.reversion_info.reversible_write_counter), 4);
    assert_eq!(witness.eval(&gadget.callee_reversion_info.reversible_write_counter), 3);
    assert_eq!(format!("{:?}", gadget.clone()), format!("{:?}", gadget));
}

#[test]
fn constraints_stand_in_turn() {
    let trace = execute(&Creation {
        salt: Some(9),
        ..Creation::new(callee_bytecode(true, 0, 10))
    });
    let mut cb = ConstraintBuilder::new();
    let gadget = CreateGadget::configure(&mut cb);
    let mut region = CachedRegion::new();
    gadget.assign_exec_step(&mut region, 7, &trace.block, &trace.tx, &trace.call, &trace.step);
    let witness = Witness::new(&trace, &region);
    let mut next = RW_COUNTER;
    let mut pointer = STACK_POINTER as u128;
    for constraint in cb.constraints.iter() {
        match &constraint.requirement {
            Requirement::Stack { rw_counter, is_write, stack_pointer, .. } => {
                assert_eq!(witness.eval(rw_counter), next);
                next += 1;
                if *is_write {
                    pointer -= 1;
                }
                assert_eq!(witness.eval(stack_pointer), pointer);
                if !*is_write {
                    pointer += 1;
                }
            }
            Requirement::CallContext { rw_counter, .. }
            | Requirement::AccountAccessList { rw_counter, .. }
            | Requirement::Account { rw_counter, .. } => {
                assert_eq!(witness.eval(rw_counter), next);
                next += 1;
            }
            Requirement::Transfer { rw_counter, .. } => {
                assert_eq!(witness.eval(rw_counter), next);
                next += 2;
            }
            Requirement::Copy { rw_counter, .. } => {
                assert_eq!(witness.eval(rw_counter), next);
                next += 21;
            }
            _ => {}
        }
    }
    assert_eq!(next, RW_COUNTER + 27 + 1 + 21);
    assert_eq!(pointer, STACK_POINTER as u128 + 3);
    assert_eq!(witness.eval(&cb.rw_counter_offset()), 27 + 1 + 21);
}

#[test]
fn another_opcode_is_refused() {
    let mut trace = execute(&Creation::new(callee_bytecode(true, 0, 10)));
    trace.step.opcode = Some(0xf1);
    assert_eq!(run_test_circuits(&trace), Err(vec![2]));
}

#[test]
fn a_builder_that_holds_constraints_already_goes_on_from_them() {
    let mut cb = ConstraintBuilder::new();
    let first = CreateGadget::configure(&mut cb);
    let second = CreateGadget::configure(&mut cb);
    assert_eq!(first.opcode.index, 0);
    assert_eq!(second.opcode.index, N_CELLS);
    assert_eq!(second.callee_reversion_info.is_persistent.index, 2 * N_CELLS - 1);
    assert_eq!(second.gas_left.remainder.index, 2 * N_OUTPUTS - 1);
    let byte_cells = |g: &CreateGadget| {
        vec![g.value, g.salt, g.new_address, g.caller_address, g.nonce]
    };
    assert_eq!(cb.byte_cells[..5], byte_cells(&first));
    assert_eq!(cb.byte_cells[5..], byte_cells(&second));
    assert_eq!(cb.constraints.len(), 76);
    assert_eq!(cb.n_cells, 2 * N_CELLS);
}

#[test]
fn the_nonce_and_the_addresses_are_assigned_least_significant_byte_first() {
    let trace = execute(&Creation::new(callee_bytecode(true, 0, 10)));
    let gadget = CreateGadget::configure(&mut ConstraintBuilder::new());
    let mut region = CachedRegion::new();
    gadget.assign_with(
        &mut region,
        7,
        &trace.block,
        &trace.tx,
        &trace.call,
        &trace.step,
        vec![1; 32],
    );
    assert_eq!(region.assignments.len(), 19);
    match &region.assignments[12].1 {
        Assignment::Bytes { cells, bytes } => {
            assert_eq!(*cells, gadget.nonce);
            assert_eq!(*bytes, vec![1, 0, 0, 0, 0, 0, 0, 0]);
        }
        _ => panic!("no bytes"),
    }
    match &region.assignments[15].1 {
        Assignment::Transfer { gadget: transfer, value, .. } => {
            assert_eq!(*transfer, gadget.transfer);
            assert_eq!(*value, Word::zero());
        }
        _ => panic!("no transfer"),
    }
    match &region.assignments[2].1 {
        Assignment::Cell { cell, value: Scalar::Combined(bytes) } => {
            assert_eq!(*cell, gadget.code_hash);
            assert_eq!(*bytes, vec![1; 32]);
        }
        _ => panic!("no hash"),
    }
    match &region.assignments[17].1 {
        Assignment::ConstantDivision { gadget: division, numerator, less } => {
            assert_eq!(*less, gadget.memory_expansion);
            assert_eq!(*division, gadget.gas_left);
            assert_eq!(*numerator, 78979 - 32000);
        }
        _ => panic!("no division"),
    }
}

#[test]
fn a_step_that_lacks_something_is_told() {
    let creation = Creation { salt: Some(1), ..Creation::new(callee_bytecode(true, 0, 10)) };
    assert!(execute(&creation).step.check_create(&execute(&creation).block));

    let mut trace = execute(&creation);
    trace.step.opcode = None;
    assert!(!trace.step.check_create(&trace.block));

    let mut trace = execute(&creation);
    trace.step.gas_left = 31999;
    assert!(!trace.step.check_create(&trace.block));
    trace.step.gas_left = 32000;
    assert!(trace.step.check_create(&trace.block));

    for k in [0, 1, 2, 3, 5, 25, 29, 31, 32, 33, 35, 36, 43] {
        let mut trace = execute(&creation);
        trace.block.rws[trace.step.rw_indices[k]] = Rw::Other;
        assert!(!trace.step.check_create(&trace.block), "{}", k);
    }
    for k in [4, 26, 27, 28, 30, 34, 37, 42, 44, 48] {
        let mut trace = execute(&creation);
        trace.block.rws[trace.step.rw_indices[k]] = Rw::Other;
        assert!(trace.step.check_create(&trace.block), "{}", k);
    }

    let mut trace = execute(&creation);
    trace.step.rw_indices.truncate(21 + 1 + 21);
    assert!(!trace.step.check_create(&trace.block));

    let mut trace = execute(&creation);
    trace.block.rws[trace.step.rw_indices[2]] = Rw::Stack {
        is_write: false,
        call_id: CALL_ID,
        stack_pointer: STACK_POINTER,
        value: Word { limbs: [21, 0, 0, 1] },
    };
    assert!(!trace.step.check_create(&trace.block));
}

#[test]
fn the_hash_of_no_code_is_the_known_one() {
    let expected: [u8; 32] = [
        0xc5, 0xd2, 0x46, 0x01, 0x86, 0xf7, 0x23, 0x3c, 0x92, 0x7e, 0x7d, 0xb2, 0xdc, 0xc7, 0x03,
        0xc0, 0xe5, 0x00, 0xb6, 0x53, 0xca, 0x82, 0x27, 0x3b, 0x7b, 0xfa, 0xd8, 0x04, 0x5d, 0x85,
        0xa4, 0x70,
    ];
    let mut hash = hash_code(&[]);
    hash.reverse();
    assert_eq!(hash, expected.to_vec());
    assert_ne!(hash_code(&[0]), hash_code(&[]));
}
