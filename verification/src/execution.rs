//! What the machine records of a creation, and when a record meets a constraint.
use crate::assign::bit;
use crate::constants::{CREATE, CREATE2, CREATE_GAS};
use crate::constraint::{
    AccountFieldTag, CallContextFieldTag, Constraint, CopyDataType, OtherFields, Requirement,
    StepStateTransition, Transition,
};
use crate::expression::Valuation;
use crate::hash::code_hash_le;
use crate::radix::{combine_bytes, le_bytes};
use crate::region::Given;
use crate::witness::{Block, Call, ExecStep, Rw, Transaction};
use crate::word::{limb_base, Address};
use vstd::prelude::*;

verus! {

/// The read or write is one of the stack, of the word that is combined to the value.
pub open spec fn is_stack(
    rw: Rw,
    write: bool,
    call: int,
    pointer: int,
    value: int,
    randomness: int,
) -> bool {
    match rw {
        Rw::Stack { is_write, call_id, stack_pointer, value: word } => {
            &&& is_write == write
            &&& call_id == call
            &&& stack_pointer == pointer
            &&& combine_bytes(word.bytes(), randomness) == value
        },
        _ => false,
    }
}

/// The read or write is one of the field of the call, with the number.
pub open spec fn is_call_field(
    rw: Rw,
    write: int,
    call: int,
    tag: CallContextFieldTag,
    number: int,
) -> bool {
    match rw {
        Rw::CallContext { is_write, call_id, field_tag, value } => {
            &&& bit(is_write) == write
            &&& call_id == call
            &&& field_tag == tag
            &&& value.value() == number
        },
        _ => false,
    }
}

/// The write is one of the access of the account by the transaction.
pub open spec fn is_access(rw: Rw, tx: int, address: int, after: int, before: int) -> bool {
    match rw {
        Rw::TxAccessListAccount { is_write, tx_id, account_address, is_warm, is_warm_prev } => {
            &&& is_write
            &&& tx_id == tx
            &&& account_address.value() == address
            &&& bit(is_warm) == after
            &&& bit(is_warm_prev) == before
        },
        _ => false,
    }
}

/// The write is one of the field of the account.
pub open spec fn is_account(
    rw: Rw,
    address: int,
    tag: AccountFieldTag,
    after: int,
    before: int,
) -> bool {
    match rw {
        Rw::Account { is_write, account_address, field_tag, value, value_prev } => {
            &&& is_write
            &&& account_address.value() == address
            &&& field_tag == tag
            &&& value.value() == after
            &&& value_prev.value() == before
        },
        _ => false,
    }
}

/// The read is one of the byte at the address in the memory of the call.
pub open spec fn is_memory_read(rw: Rw, call: int, address: int) -> bool {
    match rw {
        Rw::Memory { is_write, call_id, memory_address, .. } => {
            &&& !is_write
            &&& call_id == call
            &&& memory_address == address
        },
        _ => false,
    }
}

/// The bytes of the `n` memory reads from number `first` on.
pub open spec fn bytes_read(table: spec_fn(int) -> Rw, first: int, n: int) -> Seq<u8> {
    Seq::new(n as nat, |i: int| table(first + i)->byte)
}

/// The two writes are of the balances, the sender's first. Each pair is the balance after the
/// write and before it.
pub open spec fn is_transfer(
    first: Rw,
    second: Rw,
    sender: int,
    receiver: int,
    sender_pair: (int, int),
    receiver_pair: (int, int),
) -> bool {
    &&& is_account(first, sender, AccountFieldTag::Balance, sender_pair.0, sender_pair.1)
    &&& is_account(second, receiver, AccountFieldTag::Balance, receiver_pair.0, receiver_pair.1)
}

/// The size of a memory of that many words once it reaches to the end, which is counted in bytes.
pub open spec fn reached(words: int, end: int) -> int {
    let needed = (end + 31) / 32;
    if needed > words {
        needed
    } else {
        words
    }
}

/// What a memory of that many words costs.
pub open spec fn memory_cost(words: int) -> int {
    3 * words + words * words / 512
}

/// What it costs that a memory of that many words reaches to the end.
pub open spec fn expansion_cost(words: int, end: int) -> int {
    memory_cost(reached(words, end)) - memory_cost(words)
}

/// Where a range of memory ends. A range of no bytes reaches nowhere.
pub open spec fn range_end(start: int, length: int) -> int {
    if length != 0 {
        start + length
    } else {
        0
    }
}

/// The stack pointer of an empty stack.
pub open spec fn empty_stack() -> int {
    1024
}

/// The state that a step starts in.
pub struct StepState {
    pub rw_counter: int,
    pub call_id: int,
    pub is_root: int,
    pub is_create: int,
    pub code_hash: int,
    pub program_counter: int,
    pub stack_pointer: int,
    pub gas_left: int,
    pub memory_word_size: int,
    pub reversible_write_counter: int,
}

/// The field goes over into the next step as the transition says.
pub open spec fn goes_over(transition: Transition<int>, current: int, next: int) -> bool {
    match transition {
        Transition::Delta(by) => next == current + by,
        Transition::To(value) => next == value,
    }
}

/// The next step starts in the state that the transition says.
pub open spec fn is_next(
    transition: StepStateTransition<int>,
    next: StepState,
    v: Valuation,
) -> bool {
    &&& goes_over(transition.rw_counter, v.rw_counter, next.rw_counter)
    &&& goes_over(transition.call_id, v.call_id, next.call_id)
    &&& goes_over(transition.is_root, v.is_root, next.is_root)
    &&& goes_over(transition.is_create, v.is_create, next.is_create)
    &&& goes_over(transition.code_hash, v.code_hash, next.code_hash)
    &&& goes_over(transition.gas_left, v.gas_left, next.gas_left)
    &&& goes_over(
        transition.reversible_write_counter,
        v.reversible_write_counter,
        next.reversible_write_counter,
    )
    &&& match transition.others {
        OtherFields::Same => {
            &&& next.program_counter == v.program_counter
            &&& next.stack_pointer == v.stack_pointer
            &&& next.memory_word_size == v.memory_word_size
        },
        OtherFields::NewContext => {
            &&& next.program_counter == 0
            &&& next.stack_pointer == empty_stack()
            &&& next.memory_word_size == 0
        },
    }
}

/// What the machine has recorded around a step: the reads and writes by their numbers, the
/// opcode, and the state that the next step starts in.
pub struct Record {
    pub table: spec_fn(int) -> Rw,
    pub opcode: int,
    pub next: StepState,
}

/// The constraint holds of what the machine has recorded.
pub open spec fn recorded(row: Constraint<int>, record: Record, v: Valuation) -> bool {
    let table = record.table;
    row.condition == Some(0int) || match row.requirement {
        Requirement::Boolean { value } => value == 0 || value == 1,
        Requirement::Equal { left, right, .. } => left == right,
        Requirement::Opcode { opcode: byte, is_code } => byte == record.opcode && is_code == 1,
        Requirement::Stack { rw_counter, is_write, stack_pointer, value } => is_stack(
            table(rw_counter),
            is_write,
            v.call_id,
            stack_pointer,
            value,
            v.randomness,
        ),
        Requirement::CallContext { rw_counter, is_write, call_id, field_tag, value } => {
            is_call_field(table(rw_counter), is_write, call_id, field_tag, value)
        },
        Requirement::AccountAccessList {
            rw_counter,
            tx_id,
            account_address,
            value,
            value_prev,
            reversion,
        } => {
            &&& is_access(table(rw_counter), tx_id, account_address, value, value_prev)
            &&& reversion.is_persistent == 1 || is_access(
                table(reversion.rw_counter),
                tx_id,
                account_address,
                value_prev,
                value,
            )
        },
        Requirement::Account {
            rw_counter,
            account_address,
            field_tag,
            value,
            value_prev,
            reversion,
        } => {
            &&& is_account(table(rw_counter), account_address, field_tag, value, value_prev)
            &&& reversion.is_persistent == 1 || is_account(
                table(reversion.rw_counter),
                account_address,
                field_tag,
                value_prev,
                value,
            )
        },
        Requirement::Transfer {
            rw_counter,
            sender_address,
            receiver_address,
            value,
            sender_balance,
            sender_balance_prev,
            receiver_balance,
            receiver_balance_prev,
            reversion,
        } => {
            let amount = sender_balance_prev - sender_balance;
            &&& amount >= 0
            &&& value == combine_bytes(le_bytes(amount as nat, 32), v.randomness)
            &&& receiver_balance - receiver_balance_prev == amount
            &&& is_transfer(
                table(rw_counter),
                table(rw_counter + 1),
                sender_address,
                receiver_address,
                (sender_balance, sender_balance_prev),
                (receiver_balance, receiver_balance_prev),
            )
            &&& reversion.is_persistent == 1 || is_transfer(
                table(reversion.rw_counter),
                table(reversion.rw_counter - 1),
                sender_address,
                receiver_address,
                (sender_balance_prev, sender_balance),
                (receiver_balance_prev, receiver_balance),
            )
        },
        Requirement::Copy {
            rw_counter,
            src_id,
            src_tag,
            dst_id,
            dst_tag,
            src_addr,
            src_addr_end,
            dst_addr,
            length,
            rlc_acc,
            rwc_inc,
        } => {
            &&& src_tag == CopyDataType::Memory
            &&& dst_tag == CopyDataType::Bytecode
            &&& src_addr_end == src_addr + length
            &&& dst_addr == 0
            &&& rlc_acc == 0
            &&& rwc_inc == length
            &&& forall|n: int|
                #![trigger table(n)]
                rw_counter <= n < rw_counter + length ==> is_memory_read(
                    table(n),
                    src_id,
                    src_addr + (n - rw_counter),
                )
            &&& dst_id == combine_bytes(
                code_hash_le(bytes_read(table, rw_counter, length)),
                v.randomness,
            )
        },
        Requirement::MemoryAddress { offset, length, has_length, address } => {
            &&& has_length == bit(length != 0)
            &&& address == range_end(offset, length)
        },
        Requirement::MemoryExpansion { address, gas_cost, next_memory_word_size } => {
            &&& next_memory_word_size == reached(v.memory_word_size, address)
            &&& gas_cost == expansion_cost(v.memory_word_size, address)
        },
        Requirement::ConstantDivision { numerator, denominator, quotient, remainder } => {
            &&& numerator == denominator * quotient + remainder
            &&& 0 <= remainder < denominator
        },
        Requirement::StepState { transition } => is_next(transition, record.next, v),
    }
}

/// The bytes amount to the same with the randomness as in base 256.
pub open spec fn readable(bytes: Seq<u8>, randomness: int) -> bool {
    combine_bytes(bytes, randomness) == combine_bytes(bytes, 256)
}

/// The valuation has what the step is given.
pub open spec fn has_given(v: Valuation, given: Given) -> bool {
    match given {
        Given::Cell { index, value } => (v.cells)(index) == value.under(v.randomness),
        Given::Bytes { first, n_cells, bytes } => {
            &&& n_cells == bytes.len()
            &&& forall|index: int|
                #![trigger (v.cells)(index)]
                first <= index < first + n_cells ==> (v.cells)(index) == bytes[index - first]
        },
        Given::MemoryAddress { gadget, start, length } => {
            &&& gadget.offset.eval(v) == start
            &&& gadget.length.eval(v) == length
            &&& gadget.has_length.eval(v) == bit(length != 0)
            &&& gadget.address.eval(v) == range_end(start, length)
        },
        Given::ConstantDivision { gadget, numerator, less } => {
            &&& gadget.quotient.eval(v) == (numerator - less.gas_cost.eval(v)) / 64
            &&& gadget.remainder.eval(v) == (numerator - less.gas_cost.eval(v)) % 64
        },
        Given::MemoryExpansion { gadget, memory_word_size, range } => {
            let end = range.address.eval(v);
            &&& gadget.next_memory_word_size.eval(v) == reached(memory_word_size, end)
            &&& gadget.gas_cost.eval(v) == expansion_cost(memory_word_size, end)
        },
        Given::Transfer { gadget, sender_balance_pair, receiver_balance_pair, .. } => {
            &&& gadget.sender_balance.eval(v) == sender_balance_pair.0
            &&& gadget.sender_balance_prev.eval(v) == sender_balance_pair.1
            &&& gadget.receiver_balance.eval(v) == receiver_balance_pair.0
            &&& gadget.receiver_balance_prev.eval(v) == receiver_balance_pair.1
        },
    }
}

/// A creation as the machine carries it out. `table` has the reads and writes by their numbers,
/// and `next` is the state that the next step starts in.
pub struct Execution {
    pub block: Block,
    pub tx: Transaction,
    pub call: Call,
    pub step: ExecStep,
    pub table: spec_fn(int) -> Rw,
    pub next: StepState,
}

impl Execution {
    /// What the machine has recorded of the execution.
    pub open spec fn record(self) -> Record {
        Record { table: self.table, opcode: self.step.opcode->0 as int, next: self.next }
    }

    /// The step's read or write number `k`.
    pub open spec fn rw(self, k: int) -> Rw {
        self.block.rws@[self.step.rw_indices@[k] as int]
    }

    /// How many words the step takes from the stack besides the value and the place of the code.
    pub open spec fn salt_width(self) -> int {
        if self.step.opcode == Some(CREATE2) {
            1
        } else {
            0
        }
    }

    /// Where the code starts in memory.
    pub open spec fn code_start(self) -> int {
        self.rw(1)->Stack_value.value() as int
    }

    pub open spec fn code_length(self) -> int {
        self.rw(2)->Stack_value.value() as int
    }

    /// The initialization code, as it was read from memory.
    pub open spec fn code(self) -> Seq<u8> {
        Seq::new(
            self.code_length() as nat,
            |i: int| self.rw(4 + self.salt_width() + i)->byte,
        )
    }

    pub open spec fn moved(self) -> int {
        self.salt_width() + self.code_length()
    }

    /// Where the code ends in memory.
    pub open spec fn code_end(self) -> int {
        range_end(self.code_start(), self.code_length())
    }

    /// The size of the memory after the step, in words.
    pub open spec fn memory_after(self) -> int {
        reached(self.step.memory_word_size as int, self.code_end())
    }

    /// The gas that remains once the creation and the memory are paid for.
    pub open spec fn gas_after(self) -> int {
        self.step.gas_left - CREATE_GAS - expansion_cost(
            self.step.memory_word_size as int,
            self.code_end(),
        )
    }

    /// The account that is created.
    pub open spec fn new_address(self) -> Address {
        self.rw(7 + self.moved())->TxAccessListAccount_account_address
    }

    /// The account that creates.
    pub open spec fn caller_address(self) -> Address {
        self.call.callee_address
    }

    /// The value that the created account is endowed with.
    pub open spec fn amount(self) -> nat {
        self.rw(0)->Stack_value.value()
    }

    /// 1 where the initialization succeeds, else 0.
    pub open spec fn is_success(self) -> int {
        self.rw(21 + self.moved())->CallContext_value.value() as int
    }

    /// The nonce of the caller before the step.
    pub open spec fn nonce(self) -> int {
        self.rw(9 + self.moved())->value_prev.value() as int
    }

    /// Where the writes of the created call are undone, and whether they are not.
    pub open spec fn callee_end(self) -> int {
        self.rw(10 + self.moved())->CallContext_value.value() as int
    }

    pub open spec fn callee_is_persistent(self) -> int {
        self.rw(11 + self.moved())->CallContext_value.value() as int
    }

    /// The balance of the caller after the transfer, and before it.
    pub open spec fn caller_balance_pair(self) -> (int, int) {
        let rw = self.rw(13 + self.moved());
        (rw->Account_value.value() as int, rw->value_prev.value() as int)
    }

    /// The balance of the created account after the transfer, and before it.
    pub open spec fn callee_balance_pair(self) -> (int, int) {
        let rw = self.rw(14 + self.moved());
        (rw->Account_value.value() as int, rw->value_prev.value() as int)
    }

    /// The step takes its arguments from the stack and puts its result there.
    #[verifier::opaque]
    pub open spec fn stack_recorded(self, v: Valuation) -> bool {
        let c2 = self.salt_width();
        &&& forall|k: int|
            #![trigger self.rw(k)]
            0 <= k < 3 + c2 ==> is_stack(
                self.rw(k),
                false,
                v.call_id,
                v.stack_pointer + k,
                combine_bytes(self.rw(k)->Stack_value.bytes(), v.randomness),
                v.randomness,
            )
        &&& self.rw(3 + c2) matches Rw::Stack { is_write, call_id, stack_pointer, value } && {
            &&& is_write
            &&& call_id == v.call_id
            &&& stack_pointer == v.stack_pointer + 2 + c2
            &&& value.value() == self.is_success() * self.new_address().value()
        }
        &&& self.is_success() == 0 || self.is_success() == 1
    }

    /// The step reads the initialization code from memory.
    #[verifier::opaque]
    pub open spec fn code_recorded(self, v: Valuation) -> bool {
        let c2 = self.salt_width();
        let start = self.code_start();
        let length = self.code_length();
        forall|k: int|
            #![trigger self.rw(k)]
            4 + c2 <= k < 4 + c2 + length ==> is_memory_read(
                self.rw(k),
                v.call_id,
                start + (k - 4 - c2),
            )
    }

    /// The step looks at its call, whitelists the new account and counts the caller's nonce up.
    #[verifier::opaque]
    pub open spec fn caller_recorded(self, v: Valuation) -> bool {
        let m = self.moved();
        let end = self.call.rw_counter_end_of_reversion as int;
        let was_warm = bit(self.rw(7 + m)->is_warm_prev);
        let undone = v.reversible_write_counter;
        &&& is_call_field(
            self.rw(4 + m),
            0,
            v.call_id,
            CallContextFieldTag::TxId,
            self.tx.id as int,
        )
        &&& is_call_field(
            self.rw(5 + m),
            0,
            v.call_id,
            CallContextFieldTag::RwCounterEndOfReversion,
            end,
        )
        &&& is_call_field(
            self.rw(6 + m),
            0,
            v.call_id,
            CallContextFieldTag::IsPersistent,
            bit(self.call.is_persistent),
        )
        &&& is_access(self.rw(7 + m), self.tx.id as int, self.new_address().value(), 1, was_warm)
        &&& is_call_field(
            self.rw(8 + m),
            0,
            v.call_id,
            CallContextFieldTag::CalleeAddress,
            self.caller_address().value(),
        )
        &&& self.nonce() < limb_base()
        &&& is_account(
            self.rw(9 + m),
            self.caller_address().value(),
            AccountFieldTag::Nonce,
            self.nonce() + 1,
            self.nonce(),
        )
        &&& !self.call.is_persistent ==> {
            &&& is_access(
                (self.table)(end - undone),
                self.tx.id as int,
                self.new_address().value(),
                was_warm,
                1,
            )
            &&& is_account(
                (self.table)(end - (undone + 1)),
                self.caller_address().value(),
                AccountFieldTag::Nonce,
                self.nonce(),
                self.nonce() + 1,
            )
        }
    }

    /// The step sets up the new account, with its endowment.
    #[verifier::opaque]
    pub open spec fn account_recorded(self, v: Valuation) -> bool {
        let m = self.moved();
        let end = self.callee_end();
        let sender = self.caller_balance_pair();
        let receiver = self.callee_balance_pair();
        let caller = self.caller_address().value();
        let callee = self.new_address().value();
        &&& 0 <= end < limb_base()
        &&& self.callee_is_persistent() == 0 || self.callee_is_persistent() == 1
        &&& is_call_field(
            self.rw(10 + m),
            1,
            v.rw_counter,
            CallContextFieldTag::RwCounterEndOfReversion,
            end,
        )
        &&& is_call_field(
            self.rw(11 + m),
            1,
            v.rw_counter,
            CallContextFieldTag::IsPersistent,
            self.callee_is_persistent(),
        )
        &&& is_account(self.rw(12 + m), callee, AccountFieldTag::Nonce, 1, 0)
        &&& is_transfer(self.rw(13 + m), self.rw(14 + m), caller, callee, sender, receiver)
        &&& sender.0 == sender.1 - self.amount()
        &&& receiver.0 == receiver.1 + self.amount()
        &&& self.callee_is_persistent() == 0 ==> {
            &&& is_account((self.table)(end), callee, AccountFieldTag::Nonce, 0, 1)
            &&& is_transfer(
                (self.table)(end - 1),
                (self.table)(end - 2),
                caller,
                callee,
                (sender.1, sender.0),
                (receiver.1, receiver.0),
            )
        }
    }

    /// The step leaves the calling call as it is to be found again.
    #[verifier::opaque]
    pub open spec fn saved_recorded(self, v: Valuation) -> bool {
        let m = self.moved();
        let c2 = self.salt_width();
        &&& is_call_field(
            self.rw(15 + m),
            1,
            v.call_id,
            CallContextFieldTag::ProgramCounter,
            v.program_counter + 1,
        )
        &&& is_call_field(
            self.rw(16 + m),
            1,
            v.call_id,
            CallContextFieldTag::StackPointer,
            v.stack_pointer + 2 + c2,
        )
        &&& is_call_field(
            self.rw(17 + m),
            1,
            v.call_id,
            CallContextFieldTag::GasLeft,
            self.gas_after() / 64,
        )
        &&& is_call_field(
            self.rw(18 + m),
            1,
            v.call_id,
            CallContextFieldTag::MemorySize,
            self.memory_after(),
        )
        &&& is_call_field(
            self.rw(19 + m),
            1,
            v.call_id,
            CallContextFieldTag::ReversibleWriteCounter,
            v.reversible_write_counter + 2,
        )
    }

    /// The step tells the created call what it is to know.
    #[verifier::opaque]
    pub open spec fn callee_recorded(self, v: Valuation) -> bool {
        let m = self.moved();
        &&& is_call_field(
            self.rw(20 + m),
            1,
            v.rw_counter,
            CallContextFieldTag::CallerId,
            v.call_id,
        )
        &&& is_call_field(
            self.rw(21 + m),
            1,
            v.rw_counter,
            CallContextFieldTag::IsSuccess,
            self.is_success(),
        )
        &&& is_call_field(
            self.rw(22 + m),
            1,
            v.rw_counter,
            CallContextFieldTag::IsPersistent,
            self.callee_is_persistent(),
        )
        &&& is_call_field(
            self.rw(23 + m),
            1,
            v.rw_counter,
            CallContextFieldTag::TxId,
            self.tx.id as int,
        )
        &&& is_call_field(
            self.rw(24 + m),
            1,
            v.rw_counter,
            CallContextFieldTag::CallerAddress,
            self.caller_address().value(),
        )
        &&& is_call_field(
            self.rw(25 + m),
            1,
            v.rw_counter,
            CallContextFieldTag::CalleeAddress,
            self.new_address().value(),
        )
        &&& is_call_field(
            self.rw(26 + m),
            1,
            v.rw_counter,
            CallContextFieldTag::RwCounterEndOfReversion,
            self.callee_end(),
        )
    }

    /// The next step begins the created call, which runs the code that was read, with all but one
    /// 64th of the gas.
    #[verifier::opaque]
    pub open spec fn next_recorded(self, v: Valuation) -> bool {
        self.next == (StepState {
            rw_counter: v.rw_counter + 27 + self.moved(),
            call_id: v.rw_counter,
            is_root: 0,
            is_create: 1,
            code_hash: combine_bytes(code_hash_le(self.code()), v.randomness),
            program_counter: 0,
            stack_pointer: empty_stack(),
            gas_left: self.gas_after() - self.gas_after() / 64,
            memory_word_size: 0,
            reversible_write_counter: 3,
        })
    }

    /// The step is a creation, carried out and recorded as the machine does. The valuation has
    /// the state that the step starts in.
    pub open spec fn is_creation(self, v: Valuation) -> bool {
        &&& self.step.opcode == Some(CREATE) || self.step.opcode == Some(
            CREATE2,
        )
        &&& v.gas_left == self.step.gas_left
        &&& v.memory_word_size == self.step.memory_word_size
        &&& self.step.rw_indices@.len() == 27 + self.moved()
        &&& forall|k: int|
            #![trigger self.step.rw_indices@[k]]
            0 <= k < 27 + self.moved() ==> self.step.rw_indices@[k] < self.block.rws@.len()
        &&& forall|n: int|
            #![trigger (self.table)(n)]
            v.rw_counter <= n < v.rw_counter + 27 + self.moved() ==> (self.table)(n) == self.rw(
                n - v.rw_counter,
            )
        &&& self.stack_recorded(v)
        &&& self.code_recorded(v)
        &&& self.caller_recorded(v)
        &&& self.account_recorded(v)
        &&& self.saved_recorded(v)
        &&& self.callee_recorded(v)
        &&& self.next_recorded(v)
    }

    /// The numbers of the step that are combined in one place and counted in another amount to
    /// the same both ways. So it is where the randomness is 256.
    pub open spec fn is_readable(self, randomness: int) -> bool {
        &&& readable(self.rw(1)->Stack_value.bytes(), randomness)
        &&& readable(self.rw(2)->Stack_value.bytes(), randomness)
        &&& readable(self.caller_address().le_bytes(), randomness)
        &&& readable(self.new_address().le_bytes(), randomness)
    }
}

} // verus!
